use adbbar::locale::{
    current_locale, detect_system_locale, init_locale, notify_text, set_current, set_locale,
    tray_text, Locale,
};

#[test]
fn set_current_picks_chinese_only_for_zh() {
    assert_eq!(set_current("zh"), Locale::Zh);
    assert_eq!(set_current("en"), Locale::En);
    assert_eq!(set_current("zh_CN"), Locale::En);
    assert_eq!(set_current(""), Locale::En);
}

#[test]
fn set_locale_then_current_locale_reads_it_back() {
    assert_eq!(current_locale(set_locale("zh")), "zh");
    assert_eq!(current_locale(set_locale("en")), "en");
    assert_eq!(current_locale(set_locale("fr")), "en");
}

#[test]
fn detect_system_locale_uses_first_set_variable() {
    assert_eq!(detect_system_locale(Some("zh_CN.UTF-8".to_string()), None, None), "zh");
    assert_eq!(detect_system_locale(Some("ZH_TW".to_string()), None, None), "zh");
    assert_eq!(
        detect_system_locale(Some("en_US".to_string()), Some("zh_CN".to_string()), None),
        "en"
    );
    assert_eq!(detect_system_locale(None, Some("zh_CN".to_string()), None), "zh");
    assert_eq!(detect_system_locale(None, None, Some("zh".to_string())), "zh");
    assert_eq!(detect_system_locale(None, None, None), "en");
}

#[test]
fn init_locale_prefers_saved_choice() {
    assert_eq!(init_locale(Some("zh"), "en"), Locale::Zh);
    assert_eq!(init_locale(Some("en"), "zh"), Locale::En);
    assert_eq!(init_locale(None, "zh"), Locale::Zh);
    assert_eq!(init_locale(None, "en"), Locale::En);
}

#[test]
fn tray_text_in_both_languages() {
    assert_eq!(tray_text(Locale::En, "quick_connect"), "Quick Connect");
    assert_eq!(tray_text(Locale::Zh, "quick_connect"), "快速连接");
    assert_eq!(tray_text(Locale::En, "no_devices"), "(No devices)");
    assert_eq!(tray_text(Locale::Zh, "restart_adb"), "重启 ADB 服务");
    assert_eq!(tray_text(Locale::En, "enable_tcpip"), "Enable TCP/IP (5555)");
    assert_eq!(tray_text(Locale::Zh, "quit"), "退出");
    assert_eq!(tray_text(Locale::En, "disconnect_all"), "disconnect_all");
}

#[test]
fn notify_text_in_both_languages() {
    assert_eq!(notify_text(Locale::En, "restart_success"), "ADB server restarted");
    assert_eq!(notify_text(Locale::Zh, "connect_failed"), "连接失败");
    assert_eq!(notify_text(Locale::En, "tcpip_failed"), "Failed to enable TCP/IP");
    assert_eq!(notify_text(Locale::Zh, "unknown"), "unknown");
}
