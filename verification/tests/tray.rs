use adbbar::locale::Locale;
use adbbar::store::{default_status, AdbDevice};
use adbbar::tray::{
    build_tray_menu, connect_report, connected_count, focus_lost, invert_rgb, mark_just_shown,
    menu_action, rebuild_tray_menu, restart_next, tcpip_report, tray_click, tray_icon_pixels,
    tray_order, ClickResponse, MenuSlot, RestartNext, RestartStage, TrayAction, TrayReport,
    WindowFocus,
};
use adbbar::platform::Platform;

fn device(name: &str, ip: &str, status: &str, pinned: bool) -> AdbDevice {
    AdbDevice {
        id: format!("{}:5555", ip),
        name: name.to_string(),
        ip_address: ip.to_string(),
        port: 5555,
        status: status.to_string(),
        pinned,
    }
}

#[test]
fn empty_menu_has_a_disabled_placeholder() {
    let m = build_tray_menu(Locale::En, &vec![]);
    assert_eq!(m.quick_connect_title, "Quick Connect");
    assert_eq!(m.quick_connect.len(), 1);
    assert_eq!(m.quick_connect[0].id, "no-devices");
    assert_eq!(m.quick_connect[0].label, "(No devices)");
    assert!(!m.quick_connect[0].enabled);
}

#[test]
fn device_entries_mark_connected_devices() {
    let devices = vec![
        device("Pixel", "10.0.0.1", "connected", false),
        device("Tab", "10.0.0.2", &default_status(), false),
    ];
    let m = build_tray_menu(Locale::En, &devices);
    assert_eq!(m.quick_connect.len(), 2);
    assert_eq!(m.quick_connect[0].id, "connect:10.0.0.1:5555");
    assert_eq!(m.quick_connect[0].label, "🟢 Pixel (10.0.0.1:5555)");
    assert!(!m.quick_connect[0].enabled);
    assert_eq!(m.quick_connect[1].label, "Tab (10.0.0.2:5555)");
    assert!(m.quick_connect[1].enabled);
}

#[test]
fn menu_layout_is_fixed() {
    let m = build_tray_menu(Locale::Zh, &vec![]);
    assert_eq!(m.quick_connect_title, "快速连接");
    assert_eq!(m.layout.len(), 7);
    assert!(matches!(m.layout[0], MenuSlot::QuickConnect));
    assert!(matches!(m.layout[1], MenuSlot::Separator));
    assert!(matches!(m.layout[5], MenuSlot::Separator));
    let ids: Vec<String> = m
        .layout
        .iter()
        .filter_map(|s| match s {
            MenuSlot::Action(e) => Some(e.id.clone()),
            _ => None,
        })
        .collect();
    assert_eq!(ids, vec!["restart-adb", "enable-tcpip", "disconnect-all", "quit"]);
    match &m.layout[6] {
        MenuSlot::Action(e) => assert_eq!(e.label, "退出"),
        _ => panic!("quit expected last"),
    }
}

#[test]
fn tray_order_puts_pinned_first_and_keeps_order() {
    let devices = vec![
        device("a", "10.0.0.1", "x", false),
        device("b", "10.0.0.2", "x", true),
        device("c", "10.0.0.3", "x", false),
        device("d", "10.0.0.4", "x", true),
    ];
    let names: Vec<String> = tray_order(&devices).into_iter().map(|d| d.name).collect();
    assert_eq!(names, vec!["b", "d", "a", "c"]);
}

#[test]
fn rebuild_counts_connected_and_reorders() {
    let devices = vec![
        device("a", "10.0.0.1", "connected", false),
        device("b", "10.0.0.2", "offline", true),
        device("c", "10.0.0.3", "connected", false),
    ];
    assert_eq!(connected_count(&devices), 2);
    let (m, n) = rebuild_tray_menu(Locale::En, &devices);
    assert_eq!(n, 2);
    assert_eq!(m.quick_connect[0].id, "connect:10.0.0.2:5555");
}

#[test]
fn menu_actions_from_ids() {
    assert!(matches!(menu_action("quit"), TrayAction::Quit));
    assert!(matches!(menu_action("restart-adb"), TrayAction::RestartAdb));
    assert!(matches!(menu_action("enable-tcpip"), TrayAction::EnableTcpip));
    assert!(matches!(menu_action("disconnect-all"), TrayAction::DisconnectAll));
    assert!(matches!(menu_action("no-devices"), TrayAction::Ignore));
    match menu_action("connect:192.168.1.5:5555") {
        TrayAction::Connect(a) => assert_eq!(a, "192.168.1.5:5555"),
        other => panic!("unexpected {:?}", other),
    }
}

#[test]
fn clicking_a_device_entry_connects_to_it() {
    let devices = vec![device("a", "10.1.2.3", "offline", false)];
    let m = build_tray_menu(Locale::En, &devices);
    match menu_action(&m.quick_connect[0].id) {
        TrayAction::Connect(a) => assert_eq!(a, devices[0].address()),
        other => panic!("unexpected {:?}", other),
    }
}

#[test]
fn first_focus_loss_after_showing_is_ignored() {
    let mut f = WindowFocus::new();
    assert!(focus_lost(&mut f));
    mark_just_shown(&mut f);
    assert!(!focus_lost(&mut f));
    assert!(focus_lost(&mut f));
}

#[test]
fn tray_click_toggles_the_window() {
    let mut f = WindowFocus::new();
    assert_eq!(tray_click(true, &mut f), ClickResponse::Hide);
    assert!(!f.just_shown);
    assert_eq!(tray_click(false, &mut f), ClickResponse::Show);
    assert!(f.just_shown);
}

#[test]
fn invert_rgb_keeps_alpha_and_partial_pixels() {
    let mut data = vec![0, 10, 255, 7, 100, 0, 1, 200, 5, 6];
    invert_rgb(&mut data);
    assert_eq!(data, vec![255, 245, 0, 7, 155, 255, 254, 200, 5, 6]);
    assert_eq!(tray_icon_pixels(Platform::MacOs, vec![1, 2, 3, 4]), vec![1, 2, 3, 4]);
    assert_eq!(tray_icon_pixels(Platform::Windows, vec![1, 2, 3, 4]), vec![254, 253, 252, 4]);
}

#[test]
fn tray_order_keeps_every_device_once() {
    let devices = vec![
        device("a", "10.0.0.1", "x", true),
        device("b", "10.0.0.2", "x", false),
        device("c", "10.0.0.3", "x", true),
    ];
    let mut names: Vec<String> = tray_order(&devices).into_iter().map(|d| d.name).collect();
    names.sort();
    assert_eq!(names, vec!["a", "b", "c"]);
}

#[test]
fn restart_stops_then_starts_the_server() {
    let RestartNext::Run(stage, request) = restart_next(None) else { panic!("run expected") };
    assert_eq!(stage, RestartStage::KillServer);
    assert_eq!(request.args, vec!["kill-server"]);
    assert_eq!(request.timeout_secs, 5);
    let RestartNext::Run(stage, request) = restart_next(Some((RestartStage::KillServer, true))) else {
        panic!("run expected")
    };
    assert_eq!(stage, RestartStage::StartServer);
    assert_eq!(request.args, vec!["start-server"]);
    assert_eq!(request.timeout_secs, 10);
    let RestartNext::Report(r) = restart_next(Some((RestartStage::StartServer, true))) else {
        panic!("report expected")
    };
    assert_eq!(r, TrayReport { notify_key: "restart_success", event: Some("adb-restarted") });
    for stage in [RestartStage::KillServer, RestartStage::StartServer] {
        let RestartNext::Report(r) = restart_next(Some((stage, false))) else { panic!("report expected") };
        assert_eq!(r, TrayReport { notify_key: "restart_failed", event: None });
    }
}

#[test]
fn tray_reports_after_tcpip_and_connect() {
    assert_eq!(tcpip_report(true), TrayReport { notify_key: "tcpip_success", event: Some("tcpip-enabled") });
    assert_eq!(tcpip_report(false), TrayReport { notify_key: "tcpip_failed", event: None });
    assert_eq!(connect_report(true).notify_key, "connect_success");
    assert_eq!(connect_report(false).notify_key, "connect_failed");
    assert_eq!(connect_report(false).event, Some("devices-updated"));
}
