use adbbar::adb::{
    connect_outcome, connect_succeeded, mdns_services_from_words, mdns_word_lines, pair_outcome,
    pair_succeeded, parse_devices_output, parse_getprop_output, platform_tools_url, MdnsService,
};
use adbbar::platform::Platform;

/// Whether `t` is an IPv4 socket address `a.b.c.d:port`, the form the
/// outputs below use.
fn is_ipv4_socket_addr(t: &str) -> bool {
    let Some((ip, port)) = t.rsplit_once(':') else {
        return false;
    };
    let octets: Vec<&str> = ip.split('.').collect();
    octets.len() == 4
        && octets.iter().all(|o| o.parse::<u8>().is_ok())
        && port.parse::<u16>().is_ok()
}

/// `adb mdns services` read as the app reads it: the words of each candidate
/// line, each flagged by whether it is a socket address.
fn parse_mdns_services(output: &str) -> Vec<MdnsService> {
    let lines = mdns_word_lines(output);
    let flags: Vec<Vec<bool>> = lines
        .iter()
        .map(|l| l.iter().map(|t| is_ipv4_socket_addr(t)).collect())
        .collect();
    mdns_services_from_words(&lines, &flags)
}

#[test]
fn parse_devices_output_maps_statuses() {
    let output = "List of devices attached\n\
                  192.168.1.5:5555\tdevice\n\
                  192.168.1.6:5555\toffline\n\
                  emulator-5554\tunauthorized\n";
    let devices = parse_devices_output(output);
    assert_eq!(devices.get("192.168.1.5:5555").unwrap(), "connected");
    assert_eq!(devices.get("192.168.1.6:5555").unwrap(), "offline");
    assert_eq!(devices.get("emulator-5554").unwrap(), "unauthorized");
    assert_eq!(devices.len(), 3);
}

#[test]
fn parse_devices_output_skips_daemon_notices_and_header() {
    let output = "* daemon not running; starting now at tcp:5037\n\
                  * daemon started successfully\n\
                  List of devices attached\n\
                  192.168.1.5:5555\tdevice\n";
    let devices = parse_devices_output(output);
    assert_eq!(devices.len(), 1);
    assert!(devices.contains_key("192.168.1.5:5555"));
}

#[test]
fn parse_devices_output_handles_empty_output() {
    assert!(parse_devices_output("").is_empty());
    assert!(parse_devices_output("List of devices attached\r\n\r\n").is_empty());
}

#[test]
fn platform_tools_url_matches_platform() {
    assert!(platform_tools_url(Platform::MacOs).contains("darwin"));
}

#[test]
fn pair_succeeded_matches_success_lines() {
    assert!(pair_succeeded("Successfully paired to 192.168.1.5:37123"));
    assert!(pair_succeeded(
        "Successfully paired to 192.168.1.5:37123 [guid=adb-xyz]"
    ));
    assert!(pair_succeeded(
        "* daemon not running; starting now at tcp:5037\n\
         * daemon started successfully\n\
         successfully paired to 192.168.1.5:37123"
    ));
}

#[test]
fn pair_succeeded_rejects_failure_outputs() {
    assert!(!pair_succeeded(
        "Failed to pair to 192.168.1.5:37123: wrong pairing code"
    ));
    assert!(!pair_succeeded("error: closed"));
    assert!(!pair_succeeded(""));
    assert!(!pair_succeeded(
        "* daemon not running; starting now at tcp:5037\n* daemon started successfully"
    ));
}

#[test]
fn parse_getprop_output_extracts_key_values() {
    let output = "[ro.product.brand]: [google]\n\
                  [ro.product.model]: [Pixel 8]\n\
                  [ro.build.version.release]: [14]\n\
                  [ro.serialno]: []\n";
    let props = parse_getprop_output(output);
    assert_eq!(props.get("ro.product.brand").unwrap(), "google");
    assert_eq!(props.get("ro.product.model").unwrap(), "Pixel 8");
    assert_eq!(props.get("ro.build.version.release").unwrap(), "14");
    assert_eq!(props.get("ro.serialno").unwrap(), "");
    assert_eq!(props.len(), 4);
}

#[test]
fn parse_getprop_output_skips_malformed_lines() {
    let output = "* daemon started successfully\n\
                  some stray line\n\
                  [not-a-pair line\n\
                  [ro.product.model]: [Pixel 8]\n";
    let props = parse_getprop_output(output);
    assert_eq!(props.len(), 1);
    assert!(props.contains_key("ro.product.model"));
}

#[test]
fn parse_getprop_output_keeps_separator_inside_value() {
    let props = parse_getprop_output("[weird.prop]: [a]: [b]");
    assert_eq!(props.get("weird.prop").unwrap(), "a]: [b");
}

#[test]
fn parse_devices_output_passes_through_unknown_status() {
    let devices = parse_devices_output("List of devices attached\nXZY123\tsideload\n");
    assert_eq!(devices.get("XZY123").unwrap(), "sideload");
}

#[test]
fn parse_mdns_services_openscreen_format() {
    let output = "List of discovered mdns services\n\
                  adb-unidentified\t_adb._tcp\t192.168.31.199:5555\n";
    let services = parse_mdns_services(output);
    assert_eq!(services.len(), 1);
    assert_eq!(services[0].name, "adb-unidentified");
    assert_eq!(services[0].service_type, "_adb._tcp");
    assert_eq!(services[0].address, "192.168.31.199:5555");
    assert_eq!(services[0].kind, "connect");
}

#[test]
fn parse_mdns_services_dotted_and_preambles() {
    let output = "adb MDNS backend [mDNS]\n\
                  mDNS discovery accelerate enabled.\n\
                  List of discovered MDNS services:\n\
                  adb-XYZ123._adb-tls-pairing._tcp.\tlocal._ipv4\t192.168.1.5:37123\n\
                  adb-XYZ123._adb-tls-connect._tcp.\tlocal._ipv4\t192.168.1.5:43567\n\
                  unrelated line without address\n";
    let services = parse_mdns_services(output);
    assert_eq!(services.len(), 2);
    assert_eq!(services[0].name, "adb-XYZ123");
    assert_eq!(services[0].service_type, "_adb-tls-pairing._tcp.");
    assert_eq!(services[0].kind, "pairing");
    assert_eq!(services[0].address, "192.168.1.5:37123");
    assert_eq!(services[1].kind, "connect");
    assert_eq!(services[1].address, "192.168.1.5:43567");
}

#[test]
fn connect_succeeded_accepts_success_outputs() {
    assert!(connect_succeeded("connected to 192.168.1.5:5555"));
    assert!(connect_succeeded("already connected to 192.168.1.5:5555"));
    assert!(connect_succeeded("\r\nconnected to 192.168.1.5:5555\r\n"));
    assert!(connect_succeeded(
        "* daemon not running; starting now at tcp:5037\n\
         * daemon started successfully\n\
         connected to 192.168.1.5:5555"
    ));
}

#[test]
fn connect_succeeded_rejects_failure_outputs() {
    assert!(!connect_succeeded(
        "failed to connect to '192.168.1.5:5555': Connection refused"
    ));
    assert!(!connect_succeeded("cannot connect to 192.168.1.5:5555: Operation timed out"));
    assert!(!connect_succeeded("failed to authenticate to '192.168.1.5:5555'"));
    assert!(!connect_succeeded(""));
    assert!(!connect_succeeded(
        "* daemon not running; starting now at tcp:5037\n\
         * daemon started successfully"
    ));
}

#[test]
fn parse_devices_output_keeps_the_last_line_for_an_address() {
    let devices = parse_devices_output("a:1\tdevice\nb:2\toffline\na:1\tunauthorized\n");
    assert_eq!(devices.len(), 2);
    assert_eq!(devices.get("a:1").unwrap(), "unauthorized");
    assert_eq!(devices.get("b:2").unwrap(), "offline");
    assert!(devices.get("c:3").is_none());
}

#[test]
fn parse_devices_output_skips_lines_without_status() {
    let devices = parse_devices_output("lonely-serial\n  \n192.168.1.5:5555   device  \n");
    assert_eq!(devices.len(), 1);
    assert_eq!(devices.get("192.168.1.5:5555").unwrap(), "connected");
}

#[test]
fn parse_getprop_output_sorts_keys_and_last_value_wins() {
    let props = parse_getprop_output("[b]: [2]\n[a]: [1]\n[b]: [3]\n[  ]: [x]\n");
    let keys: Vec<&str> = props.entries().iter().map(|(k, _)| k.as_str()).collect();
    assert_eq!(keys, vec!["a", "b"]);
    assert_eq!(props.get("b").unwrap(), "3");
    assert!(!props.contains_key(""));
}

#[test]
fn connect_succeeded_looks_at_the_last_result_line() {
    assert!(!connect_succeeded("connected to a:1\nfailed to connect to 'a:1'"));
    assert!(connect_succeeded("connected to a:1\n* daemon started successfully\n"));
}

#[test]
fn connect_outcome_reports_output_or_its_absence() {
    assert_eq!(
        connect_outcome("a:1", "connected to a:1\n".to_string()).unwrap(),
        "connected to a:1\n"
    );
    assert_eq!(
        connect_outcome("a:1", "  \n".to_string()).unwrap_err(),
        "adb connect produced no output for a:1"
    );
    assert_eq!(
        connect_outcome("a:1", " failed to connect to 'a:1' \n".to_string()).unwrap_err(),
        "failed to connect to 'a:1'"
    );
}

#[test]
fn pair_outcome_reports_output_or_its_absence() {
    assert!(pair_outcome("a:1", "Successfully paired to a:1".to_string()).is_ok());
    assert_eq!(
        pair_outcome("a:1", String::new()).unwrap_err(),
        "adb pair produced no output for a:1"
    );
    assert_eq!(
        pair_outcome("a:1", "error: closed\n".to_string()).unwrap_err(),
        "error: closed"
    );
}

#[test]
fn parse_mdns_services_skips_incomplete_lines() {
    let services = parse_mdns_services("name-only _adb._tcp\n_adb._tcp 10.0.0.1:5555\n");
    assert!(services.is_empty());
}

#[test]
fn platform_tools_url_per_platform() {
    assert_eq!(
        platform_tools_url(Platform::Windows),
        "https://dl.google.com/android/repository/platform-tools-latest-windows.zip"
    );
    assert_eq!(
        platform_tools_url(Platform::Other),
        "https://dl.google.com/android/repository/platform-tools-latest-linux.zip"
    );
}

#[test]
fn mdns_header_lines_are_matched_after_unicode_lowercasing() {
    // U+212A KELVIN SIGN lowercases to 'k'.
    let services = parse_mdns_services("adb mdns bac\u{212A}end _adb 1.1.1.1:1\n");
    assert!(services.is_empty());
    let services = parse_mdns_services("adb mdns bacXend _adb 1.1.1.1:1\n");
    assert_eq!(services.len(), 1);
}

#[test]
fn mdns_output_joined_by_a_line_break_lists_both_parts() {
    let a = "List of discovered mdns services\nx\t_adb._tcp\t10.0.0.1:5555\r";
    let b = "y._adb-tls-pairing._tcp.\th\t10.0.0.2:37000";
    let joined = parse_mdns_services(&format!("{}\n{}", a, b));
    let mut separate = parse_mdns_services(a);
    separate.extend(parse_mdns_services(b));
    let names = |v: &Vec<MdnsService>| v.iter().map(|s| (s.name.clone(), s.kind.clone())).collect::<Vec<_>>();
    assert_eq!(names(&joined), names(&separate));
    assert_eq!(joined.len(), 2);
}

#[test]
fn pair_succeeded_after_unicode_lowercasing() {
    assert!(pair_succeeded("SUCCESSFULLY PAIRED to a:1"));
}
