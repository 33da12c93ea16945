use adbbar::maps::StatusMap;
use adbbar::store::{default_status, AdbDevice, Store};

fn device(id: &str, ip: &str, port: u16, name: &str) -> AdbDevice {
    AdbDevice {
        id: id.to_string(),
        name: name.to_string(),
        ip_address: ip.to_string(),
        port,
        status: default_status(),
        pinned: false,
    }
}

fn sample_device() -> AdbDevice {
    device("192.168.1.5:5555", "192.168.1.5", 5555, "Old name")
}

#[test]
fn address_joins_ip_and_port() {
    assert_eq!(sample_device().address(), "192.168.1.5:5555");
    assert_eq!(default_status(), "disconnected");
}

#[test]
fn new_manual_device_is_disconnected_and_keyed_by_address() {
    let d = AdbDevice::new_manual("10.0.0.3".to_string(), 5037, "Tab".to_string());
    assert_eq!(d.id, "10.0.0.3:5037");
    assert_eq!(d.status, "disconnected");
    assert!(!d.pinned);
}

#[test]
fn add_refuses_a_second_device_at_the_same_address() {
    let mut s = Store::default();
    s.add(sample_device()).unwrap();
    let err = s.add(device("other-id", "192.168.1.5", 5555, "Dup")).unwrap_err();
    assert_eq!(err, "Device 192.168.1.5:5555 already exists");
    assert_eq!(s.devices.len(), 1);
}

#[test]
fn rename_trims_and_updates() {
    let mut s = Store::default();
    s.add(sample_device()).unwrap();
    s.rename("192.168.1.5:5555", "  Pixel 8  ").unwrap();
    assert_eq!(s.devices.len(), 1);
    assert_eq!(s.devices[0].name, "Pixel 8");
}

#[test]
fn rename_rejects_unknown_id_and_blank_name() {
    let mut s = Store::default();
    s.add(sample_device()).unwrap();
    assert_eq!(s.rename("10.0.0.9:5555", "x").unwrap_err(), "Device 10.0.0.9:5555 not found");
    assert_eq!(s.rename("192.168.1.5:5555", "   ").unwrap_err(), "Device name cannot be empty");
    assert_eq!(s.devices[0].name, "Old name");
}

#[test]
fn set_pinned_updates_known_devices_only() {
    let mut s = Store::default();
    s.add(sample_device()).unwrap();
    s.set_pinned("192.168.1.5:5555", true).unwrap();
    assert_eq!(s.set_pinned("missing:1", true).unwrap_err(), "Device missing:1 not found");
    assert!(s.devices[0].pinned);
}

#[test]
fn remove_undoes_add() {
    let mut s = Store::default();
    s.add(device("a", "10.0.0.1", 1, "A")).unwrap();
    s.add(device("b", "10.0.0.2", 2, "B")).unwrap();
    s.remove("b").unwrap();
    assert_eq!(s.devices.len(), 1);
    assert_eq!(s.devices[0].id, "a");
    assert_eq!(s.remove("b").unwrap_err(), "Device b not found");
}

#[test]
fn clear_removes_every_device() {
    let mut s = Store::default();
    s.add(sample_device()).unwrap();
    s.clear();
    assert!(s.devices.is_empty());
}

#[test]
fn update_statuses_marks_missing_devices_disconnected() {
    let mut s = Store::default();
    s.add(device("a", "10.0.0.1", 5555, "A")).unwrap();
    s.add(device("b", "10.0.0.2", 5555, "B")).unwrap();
    s.devices[1].status = "connected".to_string();
    let mut m = StatusMap::new();
    m.insert("10.0.0.1:5555".to_string(), "connected".to_string());
    s.update_statuses(&m);
    assert_eq!(s.devices[0].status, "connected");
    assert_eq!(s.devices[1].status, "disconnected");
    assert_eq!(s.devices[1].name, "B");
}

#[test]
fn reset_statuses_after_load() {
    let mut s = Store::default();
    s.add(sample_device()).unwrap();
    s.devices[0].status = "connected".to_string();
    s.reset_statuses();
    assert_eq!(s.devices[0].status, "disconnected");
}

#[test]
fn export_strips_local_settings_and_statuses() {
    let mut s = Store::default();
    s.add(sample_device()).unwrap();
    s.devices[0].status = "connected".to_string();
    s.set_adb_path("/usr/bin/adb".to_string());
    s.set_locale("zh").unwrap();
    s.set_scan_port(5037).unwrap();
    let e = s.export_snapshot();
    assert!(e.adb_path.is_none());
    assert!(e.locale.is_none());
    assert_eq!(e.devices[0].status, "disconnected");
    assert_eq!(e.scan_port, Some(5037));
    assert_eq!(s.devices[0].status, "connected");
}

#[test]
fn import_adds_only_new_addresses() {
    let mut s = Store::default();
    s.add(device("a", "10.0.0.1", 5555, "A")).unwrap();
    let mut incoming = vec![
        device("x", "10.0.0.1", 5555, "Same address"),
        device("b", "10.0.0.2", 5555, "B"),
        device("c", "10.0.0.2", 5555, "Same as b"),
    ];
    incoming[1].status = "connected".to_string();
    let added = s.import_devices(incoming);
    assert_eq!(added, 1);
    assert_eq!(s.devices.len(), 2);
    assert_eq!(s.devices[1].name, "B");
    assert_eq!(s.devices[1].status, "disconnected");
    let again = s.import_devices(vec![device("b", "10.0.0.2", 5555, "B")]);
    assert_eq!(again, 0);
}

#[test]
fn settings_are_validated() {
    let mut s = Store::default();
    assert_eq!(s.set_locale("fr").unwrap_err(), "Invalid locale");
    assert_eq!(s.set_scan_port(0).unwrap_err(), "Port must be 1-65535");
    assert_eq!(
        s.set_scrcpy_options(Some(0), false, None, false).unwrap_err(),
        "Bitrate must be 1-1000 Mbps"
    );
    assert_eq!(
        s.set_scrcpy_options(Some(8), false, Some(99), false).unwrap_err(),
        "Max size must be 100-8192 px"
    );
    s.set_scrcpy_options(Some(1000), true, Some(8192), true).unwrap();
    assert_eq!(s.scrcpy_options(), (Some(1000), true, Some(8192), true));
    let o = s.scrcpy_launch_options();
    assert_eq!(o.bitrate_mbps, Some(1000));
    assert!(o.turn_screen_off && o.stay_awake);
    assert_eq!(s.addresses(), Vec::<String>::new());
}

#[test]
fn status_map_keeps_last_insert() {
    let mut m = StatusMap::new();
    assert!(m.is_empty());
    m.insert("a".to_string(), "1".to_string());
    m.insert("a".to_string(), "2".to_string());
    assert_eq!(m.len(), 1);
    assert_eq!(m.get("a").unwrap(), "2");
}

#[test]
fn export_read_back_into_an_empty_store() {
    let mut s = Store::default();
    s.add(device("a", "10.0.0.1", 5555, "A")).unwrap();
    s.add(device("b", "10.0.0.2", 5555, "B")).unwrap();
    s.devices[0].status = "connected".to_string();
    let exported = s.export_snapshot();
    let mut fresh = Store::default();
    assert_eq!(fresh.import_devices(exported.devices), 2);
    let names: Vec<String> = fresh.devices.iter().map(|d| d.name.clone()).collect();
    assert_eq!(names, vec!["A", "B"]);
    assert!(fresh.devices.iter().all(|d| d.status == "disconnected"));
}
