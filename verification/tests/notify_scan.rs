use adbbar::notify::notify_command;
use adbbar::platform::Platform;
use adbbar::scanner::{ipv4_string, scan_hosts, subnet_prefix, LocalIp, ScanState, SCAN_TOTAL};

#[test]
fn notification_commands() {
    let (p, a) = notify_command(Platform::MacOs, "ADB Bar", "say \"hi\"");
    assert_eq!(p, "osascript");
    assert_eq!(a, vec!["-e", "display notification \"say \\\"hi\\\"\" with title \"ADB Bar\""]);
    let (p, a) = notify_command(Platform::Windows, "ADB Bar", "it's done");
    assert_eq!(p, "powershell");
    assert_eq!(&a[..4], &["-NoProfile", "-WindowStyle", "Hidden", "-Command"]);
    assert_eq!(
        a[4],
        "Add-Type -AssemblyName System.Windows.Forms;$n = New-Object System.Windows.Forms.NotifyIcon;$n.Icon = [System.Drawing.SystemIcons]::Information;$n.BalloonTipTitle = 'ADB Bar';$n.BalloonTipText = 'it''s done';$n.Visible = $true;$n.ShowBalloonTip(3000);Start-Sleep -Seconds 3;$n.Dispose()"
    );
    let (p, a) = notify_command(Platform::Other, "t", "m");
    assert_eq!(p, "notify-send");
    assert_eq!(a, vec!["t", "m"]);
}

#[test]
fn scan_covers_the_local_slash_24() {
    assert_eq!(subnet_prefix(LocalIp::V4(192, 168, 1, 77)).unwrap(), (192, 168, 1));
    assert_eq!(subnet_prefix(LocalIp::V6).unwrap_err(), "IPv6 subnet scanning is not supported");
    assert_eq!(ipv4_string(10, 0, 255, 1), "10.0.255.1");
    assert_eq!(SCAN_TOTAL, 254);
}

#[test]
fn scan_progress_counts_answers_and_keeps_found_hosts() {
    let mut s = ScanState::new((192, 168, 1), 5555);
    let p = s.record(1, false);
    assert_eq!(p.scanned, 1);
    assert_eq!(p.total, 254);
    assert!(p.found.is_empty());
    let p = s.record(42, true);
    assert_eq!(p.scanned, 2);
    assert_eq!(p.found.len(), 1);
    assert_eq!(p.found[0].ip, "192.168.1.42");
    assert_eq!(p.found[0].port, 5555);
    let p = s.record(43, false);
    assert_eq!(p.found.len(), 1);
    assert_eq!(s.results().len(), 1);
    assert!(s.has_answered(42) && !s.has_answered(44));
    assert_eq!(s.scanned(), 3);
}

#[test]
fn a_whole_scan_reports_every_host_once() {
    let hosts = scan_hosts();
    assert_eq!(hosts.len(), 254);
    assert_eq!(hosts[0], 1);
    assert_eq!(hosts[253], 254);
    let mut s = ScanState::new((10, 0, 0), 5555);
    let mut last = Vec::new();
    for (k, h) in hosts.iter().rev().enumerate() {
        let p = s.record(*h, *h % 100 == 7);
        assert_eq!(p.scanned as usize, k + 1);
        assert!(p.found.len() >= last.len());
        last = p.found.iter().map(|r| r.ip.clone()).collect();
    }
    assert_eq!(s.scanned(), 254);
    assert_eq!(last, vec!["10.0.0.207", "10.0.0.107", "10.0.0.7"]);
}
