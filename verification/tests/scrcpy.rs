use adbbar::platform::Platform;
use adbbar::scrcpy::{
    brew_log, brew_outcome, install_unsupported, install_verdict, launch_args, require_existing,
    scrcpy_candidates, validate_path_input, version_check_outcome, version_line, windows_zip_url,
    ReleaseAsset, ScrcpyLaunchOptions, ScrcpyService,
};

#[test]
fn launch_args_follow_the_options() {
    assert_eq!(launch_args("a:1", ScrcpyLaunchOptions::default()), vec!["-s", "a:1"]);
    let o = ScrcpyLaunchOptions {
        bitrate_mbps: Some(8),
        turn_screen_off: true,
        max_size: Some(1024),
        stay_awake: true,
    };
    assert_eq!(
        launch_args("a:1", o),
        vec!["-s", "a:1", "--video-bit-rate", "8M", "--max-size", "1024", "-S", "--stay-awake"]
    );
}

#[test]
fn launch_needs_a_known_scrcpy() {
    let mut s = ScrcpyService::new();
    assert_eq!(
        s.launch_command("a:1", ScrcpyLaunchOptions::default()).unwrap_err(),
        "scrcpy is not installed. Please install it first."
    );
    s.set_path("/opt/homebrew/bin/scrcpy".to_string());
    let (program, args) = s.launch_command("a:1", ScrcpyLaunchOptions::default()).unwrap();
    assert_eq!(program, "/opt/homebrew/bin/scrcpy");
    assert_eq!(args, vec!["-s", "a:1"]);
}

#[test]
fn detection_sets_the_path_and_status() {
    let mut s = ScrcpyService::new();
    let st = s.record_detection(Some("/usr/bin/scrcpy".to_string()), Some("scrcpy 2.4".to_string()));
    assert!(st.installed);
    assert_eq!(st.path.as_deref(), Some("/usr/bin/scrcpy"));
    assert_eq!(st.version.as_deref(), Some("scrcpy 2.4"));
    assert_eq!(s.path().as_deref(), Some("/usr/bin/scrcpy"));
    let st = s.record_detection(None, Some("ignored".to_string()));
    assert!(!st.installed);
    assert!(st.path.is_none() && st.version.is_none());
    assert!(s.path().is_none());
}

#[test]
fn path_checks() {
    assert_eq!(validate_path_input("   ").unwrap_err(), "scrcpy path cannot be empty");
    assert_eq!(validate_path_input(" /x/scrcpy ").unwrap(), "/x/scrcpy");
    assert_eq!(require_existing("/x".to_string(), false).unwrap_err(), "File not found: /x");
    assert_eq!(require_existing("/x".to_string(), true).unwrap(), "/x");
    assert!(version_check_outcome(true, "junk").is_ok());
    assert_eq!(version_check_outcome(false, " bad\n").unwrap_err(), "Invalid scrcpy: bad");
}

#[test]
fn version_is_the_first_line_trimmed() {
    assert_eq!(version_line("scrcpy 2.4 <https://x>\r\nmore\n").as_deref(), Some("scrcpy 2.4 <https://x>"));
    assert_eq!(version_line("").as_deref(), None);
    assert_eq!(version_line("\nsecond").as_deref(), Some(""));
}

#[test]
fn windows_zip_url_takes_the_first_win64_zip() {
    let asset = |n: Option<&str>, u: Option<&str>| ReleaseAsset {
        name: n.map(|s| s.to_string()),
        browser_download_url: u.map(|s| s.to_string()),
    };
    assert_eq!(windows_zip_url(None).unwrap_err(), "No assets found in release");
    let assets = vec![
        asset(Some("scrcpy-linux-x86_64-v2.4.tar.gz"), Some("L")),
        asset(None, Some("N")),
        asset(Some("scrcpy-win64-v2.4.zip"), Some("W")),
        asset(Some("scrcpy-win64-v2.4-other.zip"), Some("W2")),
    ];
    assert_eq!(windows_zip_url(Some(assets)).unwrap(), "W");
    assert_eq!(
        windows_zip_url(Some(vec![asset(Some("scrcpy-win64-v2.zip"), None), asset(Some("scrcpy-win64-b.zip"), Some("B"))]))
            .unwrap_err(),
        "Could not find Windows zip download"
    );
    assert_eq!(
        windows_zip_url(Some(vec![asset(Some("scrcpy-win32-v2.zip"), Some("x"))])).unwrap_err(),
        "Could not find Windows zip download"
    );
}

#[test]
fn candidates_in_search_order() {
    let c = scrcpy_candidates(Platform::MacOs, Some("/a:/b"), None);
    assert_eq!(
        c,
        vec![
            vec!["/a".to_string(), "scrcpy".to_string()],
            vec!["/b".to_string(), "scrcpy".to_string()],
            vec!["/opt/homebrew/bin/scrcpy".to_string()],
            vec!["/usr/local/bin/scrcpy".to_string()],
        ]
    );
    let c = scrcpy_candidates(Platform::Windows, Some("C:\\x;D:\\y"), Some("C:\\L"));
    assert_eq!(
        c,
        vec![
            vec!["C:\\x".to_string(), "scrcpy.exe".to_string()],
            vec!["D:\\y".to_string(), "scrcpy.exe".to_string()],
            vec!["C:\\L".to_string(), "scrcpy".to_string(), "scrcpy.exe".to_string()],
        ]
    );
    assert!(scrcpy_candidates(Platform::Other, None, Some("ignored")).is_empty());
}

#[test]
fn install_messages() {
    assert_eq!(brew_log("out", "err"), "out\nerr");
    assert_eq!(brew_outcome(true, "").unwrap(), "scrcpy installed successfully via Homebrew");
    assert_eq!(brew_outcome(false, "boom").unwrap_err(), "brew install failed: boom");
    assert_eq!(install_verdict("ok".to_string(), true).unwrap(), "ok");
    assert_eq!(
        install_verdict("ok".to_string(), false).unwrap_err(),
        "Installation completed but scrcpy was not found"
    );
    assert!(install_unsupported(Platform::MacOs).is_none());
    assert_eq!(
        install_unsupported(Platform::Other).unwrap(),
        "Automatic installation is not supported on this platform. Please install scrcpy manually."
    );
}
