//! The UI language (English or Chinese) and the texts of the tray menu and of
//! notifications in each.
use vstd::prelude::*;
use crate::text::{self, chars_of, owned, starts_with_ci_exec, str_eq};

verus! {

/// The UI language.
#[derive(PartialEq, Eq, Structural, Clone, Copy, Debug)]
pub enum Locale {
    En,
    Zh,
}

/// The language a preference names: "zh" is Chinese, anything else English.
pub open spec fn locale_named(name: Seq<char>) -> Locale {
    if name == "zh"@ {
        Locale::Zh
    } else {
        Locale::En
    }
}

/// The language a `LANG`-style value asks for: Chinese when it starts with
/// "zh" in any case, else English.
pub open spec fn system_locale_of(lang: Seq<char>) -> Seq<char> {
    if text::starts_with_ci(lang, "zh"@) {
        "zh"@
    } else {
        "en"@
    }
}

/// The first of `LANG`, `LC_ALL`, `LC_MESSAGES` that is set, else "en_US.UTF-8".
pub open spec fn first_set(
    lang: Option<Seq<char>>,
    lc_all: Option<Seq<char>>,
    lc_messages: Option<Seq<char>>,
) -> Seq<char> {
    match lang {
        Some(l) => l,
        None => match lc_all {
            Some(l) => l,
            None => match lc_messages {
                Some(l) => l,
                None => "en_US.UTF-8"@,
            },
        },
    }
}

/// The language named `locale`.
pub fn set_current(locale: &str) -> (r: Locale)
    ensures
        r == locale_named(locale@),
{
    if str_eq(locale, "zh") {
        Locale::Zh
    } else {
        Locale::En
    }
}

/// The language to switch to when the user picks `locale`.
pub fn set_locale(locale: &str) -> (r: Locale)
    ensures
        r == locale_named(locale@),
{
    set_current(locale)
}

/// The system language, from the values of `LANG`, `LC_ALL` and
/// `LC_MESSAGES` (the first that is set counts).
pub fn detect_system_locale(
    lang: Option<String>,
    lc_all: Option<String>,
    lc_messages: Option<String>,
) -> (r: &'static str)
    ensures
        r@ == system_locale_of(
            first_set(text::opt_view(lang), text::opt_view(lc_all), text::opt_view(lc_messages)),
        ),
{
    let value = match lang {
        Some(l) => l,
        None => match lc_all {
            Some(l) => l,
            None => match lc_messages {
                Some(l) => l,
                None => owned("en_US.UTF-8"),
            },
        },
    };
    let v = chars_of(value.as_str());
    if starts_with_ci_exec(&v, "zh") {
        "zh"
    } else {
        "en"
    }
}

/// The language at start-up: the saved preference if there is one, else the
/// system language (`system_lang` is what `detect_system_locale` found).
pub fn init_locale(preference: Option<&str>, system_lang: &str) -> (r: Locale)
    ensures
        r == locale_named(
            match preference {
                Some(p) => p@,
                None => system_lang@,
            },
        ),
{
    let chosen = match preference {
        Some(p) => p,
        None => system_lang,
    };
    set_current(chosen)
}

/// The code of a language: "zh" or "en".
pub fn current_locale(locale: Locale) -> (r: &'static str)
    ensures
        r@ == code_of(locale),
{
    if locale == Locale::Zh {
        "zh"
    } else {
        "en"
    }
}

/// The tray menu text for `key`; an unknown key is shown as it is.
pub open spec fn tray_text_of(locale: Locale, key: Seq<char>) -> Seq<char> {
    if locale == Locale::Zh {
        if key == "quick_connect"@ {
            "快速连接"@
        } else if key == "no_devices"@ {
            "(无设备)"@
        } else if key == "restart_adb"@ {
            "重启 ADB 服务"@
        } else if key == "enable_tcpip"@ {
            "启用 TCP/IP (5555)"@
        } else if key == "quit"@ {
            "退出"@
        } else {
            key
        }
    } else {
        if key == "quick_connect"@ {
            "Quick Connect"@
        } else if key == "no_devices"@ {
            "(No devices)"@
        } else if key == "restart_adb"@ {
            "Restart ADB Server"@
        } else if key == "enable_tcpip"@ {
            "Enable TCP/IP (5555)"@
        } else if key == "quit"@ {
            "Quit"@
        } else {
            key
        }
    }
}

/// The notification text for `key`; an unknown key is shown as it is.
pub open spec fn notify_text_of(locale: Locale, key: Seq<char>) -> Seq<char> {
    if locale == Locale::Zh {
        if key == "restart_success"@ {
            "ADB 服务已重启"@
        } else if key == "restart_failed"@ {
            "重启 ADB 失败"@
        } else if key == "tcpip_success"@ {
            "TCP/IP 模式已启用"@
        } else if key == "tcpip_failed"@ {
            "启用 TCP/IP 失败"@
        } else if key == "connect_success"@ {
            "连接成功"@
        } else if key == "connect_failed"@ {
            "连接失败"@
        } else {
            key
        }
    } else {
        if key == "restart_success"@ {
            "ADB server restarted"@
        } else if key == "restart_failed"@ {
            "Failed to restart ADB"@
        } else if key == "tcpip_success"@ {
            "TCP/IP mode enabled"@
        } else if key == "tcpip_failed"@ {
            "Failed to enable TCP/IP"@
        } else if key == "connect_success"@ {
            "Connected"@
        } else if key == "connect_failed"@ {
            "Connection failed"@
        } else {
            key
        }
    }
}

/// The tray menu text for `key` in `locale`.
pub fn tray_text(locale: Locale, key: &str) -> (r: String)
    ensures
        r@ == tray_text_of(locale, key@),
{
    if locale == Locale::Zh {
        if str_eq(key, "quick_connect") {
            owned("快速连接")
        } else if str_eq(key, "no_devices") {
            owned("(无设备)")
        } else if str_eq(key, "restart_adb") {
            owned("重启 ADB 服务")
        } else if str_eq(key, "enable_tcpip") {
            owned("启用 TCP/IP (5555)")
        } else if str_eq(key, "quit") {
            owned("退出")
        } else {
            owned(key)
        }
    } else {
        if str_eq(key, "quick_connect") {
            owned("Quick Connect")
        } else if str_eq(key, "no_devices") {
            owned("(No devices)")
        } else if str_eq(key, "restart_adb") {
            owned("Restart ADB Server")
        } else if str_eq(key, "enable_tcpip") {
            owned("Enable TCP/IP (5555)")
        } else if str_eq(key, "quit") {
            owned("Quit")
        } else {
            owned(key)
        }
    }
}

/// The notification text for `key` in `locale`.
pub fn notify_text(locale: Locale, key: &str) -> (r: String)
    ensures
        r@ == notify_text_of(locale, key@),
{
    if locale == Locale::Zh {
        if str_eq(key, "restart_success") {
            owned("ADB 服务已重启")
        } else if str_eq(key, "restart_failed") {
            owned("重启 ADB 失败")
        } else if str_eq(key, "tcpip_success") {
            owned("TCP/IP 模式已启用")
        } else if str_eq(key, "tcpip_failed") {
            owned("启用 TCP/IP 失败")
        } else if str_eq(key, "connect_success") {
            owned("连接成功")
        } else if str_eq(key, "connect_failed") {
            owned("连接失败")
        } else {
            owned(key)
        }
    } else {
        if str_eq(key, "restart_success") {
            owned("ADB server restarted")
        } else if str_eq(key, "restart_failed") {
            owned("Failed to restart ADB")
        } else if str_eq(key, "tcpip_success") {
            owned("TCP/IP mode enabled")
        } else if str_eq(key, "tcpip_failed") {
            owned("Failed to enable TCP/IP")
        } else if str_eq(key, "connect_success") {
            owned("Connected")
        } else if str_eq(key, "connect_failed") {
            owned("Connection failed")
        } else {
            owned(key)
        }
    }
}

/// The code of a language.
pub open spec fn code_of(locale: Locale) -> Seq<char> {
    if locale == Locale::Zh {
        "zh"@
    } else {
        "en"@
    }
}

/// Switching to a language and reading back its code gives "zh" exactly when
/// "zh" was picked, and "en" for any other choice.
pub proof fn law_set_then_current(name: Seq<char>)
    ensures
        code_of(locale_named(name)) == (if name == "zh"@ {
            "zh"@
        } else {
            "en"@
        }),
{
}

} // verus!
