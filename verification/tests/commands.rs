use adbbar::adb::{
    adb_candidates, run_outcome, run_timeout_message, validate_adb_path_input,
    validation_outcome, AdbService, MdnsService,
};
use adbbar::commands::{
    check_pairing_input, cleanup_args, connect_request, devices_request, find_connect_address,
    getprop_request, install_apk_request, kill_server_request, mdns_request, missing_adb_error,
    open_shell_command, pair_request, pairing_ip_prefix, poll_step, pull_args, restart_message,
    screencap_args, start_server_request, step_outcome, tcpip_request, PairStep, PairWatch,
    PollStep, disconnect_request,
};
use adbbar::platform::Platform;

fn svc(kind: &str, address: &str) -> MdnsService {
    MdnsService {
        name: "adb-x".to_string(),
        kind: kind.to_string(),
        service_type: "_adb-tls-connect._tcp".to_string(),
        address: address.to_string(),
    }
}

#[test]
fn requests_and_time_limits() {
    let r = connect_request("a:1");
    assert_eq!((r.args, r.timeout_secs), (vec!["connect".to_string(), "a:1".to_string()], 10));
    let r = disconnect_request("a:1");
    assert_eq!((r.args, r.timeout_secs), (vec!["disconnect".to_string(), "a:1".to_string()], 10));
    let r = pair_request("a:2", "123456");
    assert_eq!(r.args, vec!["pair", "a:2", "123456"]);
    assert_eq!(r.timeout_secs, 20);
    assert_eq!(devices_request().args, vec!["devices"]);
    assert_eq!(devices_request().timeout_secs, 5);
    assert_eq!(mdns_request().args, vec!["mdns", "services"]);
    assert_eq!(kill_server_request().args, vec!["kill-server"]);
    assert_eq!(start_server_request().timeout_secs, 10);
    assert_eq!(getprop_request("a:1").args, vec!["-s", "a:1", "shell", "getprop"]);
    let r = install_apk_request("a:1", "/x.apk");
    assert_eq!(r.args, vec!["-s", "a:1", "install", "-r", "/x.apk"]);
    assert_eq!(r.timeout_secs, 120);
    assert_eq!(restart_message(), "ADB server restarted");
}

#[test]
fn tcpip_defaults_to_port_5555() {
    assert_eq!(tcpip_request(None, None).args, vec!["tcpip", "5555"]);
    assert_eq!(tcpip_request(Some("a:1"), Some(5556)).args, vec!["-s", "a:1", "tcpip", "5556"]);
    assert_eq!(tcpip_request(None, None).timeout_secs, 10);
}

#[test]
fn poll_step_decides_on_exit_and_time() {
    assert_eq!(poll_step(true, u128::MAX, 0), PollStep::Collect);
    assert_eq!(poll_step(false, 1_000_000_000, 1), PollStep::Wait);
    assert_eq!(poll_step(false, 1_000_000_001, 1), PollStep::Kill);
    assert_eq!(poll_step(false, 0, 0), PollStep::Wait);
}

#[test]
fn pairing_input_is_trimmed_and_required() {
    assert_eq!(
        check_pairing_input(" 10.0.0.2:37000 ", " 123456\n").unwrap(),
        ("10.0.0.2:37000".to_string(), "123456".to_string())
    );
    assert_eq!(check_pairing_input("  ", "1").unwrap_err(), "Pairing address cannot be empty");
    assert_eq!(check_pairing_input("a", " ").unwrap_err(), "Pairing code cannot be empty");
    assert_eq!(check_pairing_input("", "").unwrap_err(), "Pairing address cannot be empty");
}

#[test]
fn pairing_prefix_is_the_host() {
    assert_eq!(pairing_ip_prefix("192.168.1.5:37123"), "192.168.1.5:");
    assert_eq!(pairing_ip_prefix("host"), "host:");
    assert_eq!(pairing_ip_prefix(""), ":");
}

#[test]
fn finds_the_connect_service_of_the_paired_host() {
    let services = vec![
        svc("pairing", "192.168.1.5:37123"),
        svc("connect", "192.168.1.50:5555"),
        svc("connect", "192.168.1.5:43567"),
        svc("connect", "192.168.1.5:1"),
    ];
    assert_eq!(find_connect_address(&services, "192.168.1.5:").as_deref(), Some("192.168.1.5:43567"));
    assert_eq!(find_connect_address(&services, "10.0.0.1:"), None);
}

#[test]
fn pair_watch_tries_three_listings() {
    let mut w = PairWatch::new("192.168.1.5:37123");
    assert!(matches!(w.observe(None), PairStep::Retry));
    assert!(matches!(w.observe(Some(&vec![svc("connect", "10.0.0.1:5555")])), PairStep::Retry));
    match w.observe(Some(&vec![svc("connect", "192.168.1.5:40000")])) {
        PairStep::Found(a) => assert_eq!(a, "192.168.1.5:40000"),
        other => panic!("unexpected {:?}", other),
    }
    let mut w = PairWatch::new("10.0.0.9:1");
    assert!(matches!(w.observe(None), PairStep::Retry));
    assert!(matches!(w.observe(None), PairStep::Retry));
    assert!(matches!(w.observe(None), PairStep::GiveUp));
}

#[test]
fn screenshot_steps() {
    assert_eq!(
        screencap_args("a:1"),
        vec!["-s", "a:1", "shell", "screencap", "-p", "/data/local/tmp/screenshot_adbbar.png"]
    );
    assert_eq!(
        pull_args("a:1", "/home/u/Desktop/s.png"),
        vec!["-s", "a:1", "pull", "/data/local/tmp/screenshot_adbbar.png", "/home/u/Desktop/s.png"]
    );
    assert_eq!(
        cleanup_args("a:1"),
        vec!["-s", "a:1", "shell", "rm", "/data/local/tmp/screenshot_adbbar.png"]
    );
    assert!(step_outcome(true, "screencap failed: ", "x").is_ok());
    assert_eq!(step_outcome(false, "adb pull failed: ", "no space\n").unwrap_err(), "adb pull failed: no space\n");
}

#[test]
fn open_shell_per_platform() {
    let (p, a) = open_shell_command(Platform::Windows, "C:\\adb.exe", "a:1").unwrap();
    assert_eq!(p, "cmd");
    assert_eq!(a, vec!["/C", "start", "", "C:\\adb.exe", "-s", "a:1", "shell"]);
    let (p, a) = open_shell_command(Platform::MacOs, "adb", "a:1").unwrap();
    assert_eq!(p, "osascript");
    assert_eq!(a.len(), 2);
    assert_eq!(a[0], "-e");
    assert_eq!(
        open_shell_command(Platform::Other, "adb", "a:1").unwrap_err(),
        "Opening shell is not supported on this platform"
    );
    assert_eq!(missing_adb_error("/d/adb"), "adb binary not found in extracted archive: /d/adb");
}

#[test]
fn adb_service_path_choice() {
    assert_eq!(AdbService::new(Some("/c".to_string()), Some("/d".to_string())).get_adb_path(), "/c");
    assert_eq!(AdbService::new(None, Some("/d".to_string())).get_adb_path(), "/d");
    let mut s = AdbService::new(None, None);
    assert_eq!(s.get_adb_path(), "adb");
    s.set_adb_path("/x/adb".to_string());
    assert_eq!(s.get_adb_path(), "/x/adb");
}

#[test]
fn adb_command_outcomes() {
    assert_eq!(run_outcome(true, "exit status: 0", " out \n", "err").unwrap(), "out");
    assert_eq!(
        run_outcome(false, "exit status: 1", "out", " \n").unwrap_err(),
        "adb exited with status exit status: 1: out"
    );
    assert_eq!(
        run_outcome(false, "exit status: 1", "out", " bad ").unwrap_err(),
        "adb exited with status exit status: 1: bad"
    );
    assert_eq!(run_timeout_message(1), "adb command timed out after 1 seconds");
    assert!(validation_outcome(true, "", "").is_ok());
    assert_eq!(
        validation_outcome(false, "x", "").unwrap_err(),
        "ADB validation failed: x"
    );
    assert_eq!(validate_adb_path_input("  ").unwrap_err(), "ADB path cannot be empty");
    assert_eq!(validate_adb_path_input(" /a ").unwrap(), "/a");
}

#[test]
fn adb_candidates_in_search_order() {
    let c = adb_candidates(Platform::MacOs, Some("/bin"), Some("/sdk"), None, Some("/Users/u"), None);
    assert_eq!(
        c,
        vec![
            vec!["/bin".to_string(), "adb".to_string()],
            vec!["/sdk".to_string(), "platform-tools".to_string(), "adb".to_string()],
            vec!["/opt/homebrew/bin/adb".to_string()],
            vec!["/Users/u/Library/Android/sdk/platform-tools/adb".to_string()],
            vec!["/usr/local/bin/adb".to_string()],
        ]
    );
    let c = adb_candidates(Platform::MacOs, None, None, Some("/r"), None, None);
    assert_eq!(c, vec![vec!["/r".to_string(), "platform-tools".to_string(), "adb".to_string()]]);
    let c = adb_candidates(Platform::Windows, None, None, None, Some("C:\\Users\\u"), Some("C:\\L"));
    assert_eq!(
        c,
        vec![
            vec!["C:\\L".to_string(), "Android/Sdk/platform-tools/adb.exe".to_string()],
            vec!["C:\\Users\\u".to_string(), "scoop".to_string(), "shims".to_string(), "adb.exe".to_string()],
            vec!["C:\\ProgramData\\chocolatey\\bin\\adb.exe".to_string()],
        ]
    );
    assert_eq!(adb_candidates(Platform::Other, Some(""), None, None, None, None), vec![vec!["".to_string(), "adb".to_string()]]);
}
