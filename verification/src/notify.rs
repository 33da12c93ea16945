//! The desktop notifications the tray shows after an action: the program
//! that shows them on each platform and the script it is given.
use vstd::prelude::*;
use crate::platform::Platform;
use crate::quote::{self, applescript_string_literal, ps_quote};
use crate::search::{push_arg, push_string_arg};
use crate::text::{self, owned, push_all};

verus! {

/// The AppleScript that shows `message` under `title`.
pub open spec fn macos_script_of(title: Seq<char>, message: Seq<char>) -> Seq<char> {
    "display notification "@ + quote::apple_quoted(message) + " with title "@ + quote::apple_quoted(
        title,
    )
}

/// The PowerShell script that shows `message` under `title` as a balloon tip
/// for three seconds.
pub open spec fn windows_script_of(title: Seq<char>, message: Seq<char>) -> Seq<char> {
    "Add-Type -AssemblyName System.Windows.Forms;$n = New-Object System.Windows.Forms.NotifyIcon;$n.Icon = [System.Drawing.SystemIcons]::Information;$n.BalloonTipTitle = "@
        + quote::ps_quoted(title) + ";$n.BalloonTipText = "@ + quote::ps_quoted(message)
        + ";$n.Visible = $true;$n.ShowBalloonTip(3000);Start-Sleep -Seconds 3;$n.Dispose()"@
}

/// The AppleScript that shows `message` under `title`.
pub fn macos_script(title: &str, message: &str) -> (r: String)
    ensures
        r@ == macos_script_of(title@, message@),
{
    let mut s = owned("display notification ");
    let m = applescript_string_literal(message);
    push_all(&mut s, m.as_str());
    push_all(&mut s, " with title ");
    let t = applescript_string_literal(title);
    push_all(&mut s, t.as_str());
    s
}

/// The PowerShell script that shows `message` under `title`.
pub fn windows_script(title: &str, message: &str) -> (r: String)
    ensures
        r@ == windows_script_of(title@, message@),
{
    let mut s = owned(
        "Add-Type -AssemblyName System.Windows.Forms;$n = New-Object System.Windows.Forms.NotifyIcon;$n.Icon = [System.Drawing.SystemIcons]::Information;$n.BalloonTipTitle = ",
    );
    let t = ps_quote(title);
    push_all(&mut s, t.as_str());
    push_all(&mut s, ";$n.BalloonTipText = ");
    let m = ps_quote(message);
    push_all(&mut s, m.as_str());
    push_all(&mut s, ";$n.Visible = $true;$n.ShowBalloonTip(3000);Start-Sleep -Seconds 3;$n.Dispose()");
    s
}

/// The program and arguments that show a notification on `platform`:
/// `osascript` on macOS, a hidden PowerShell on Windows, `notify-send` elsewhere.
pub fn notify_command(platform: Platform, title: &str, message: &str) -> (r: (String, Vec<String>))
    ensures
        match platform {
            Platform::MacOs => r.0@ == "osascript"@ && text::sviews(r.1@) == seq![
                "-e"@,
                macos_script_of(title@, message@),
            ],
            Platform::Windows => r.0@ == "powershell"@ && text::sviews(r.1@) == seq![
                "-NoProfile"@,
                "-WindowStyle"@,
                "Hidden"@,
                "-Command"@,
                windows_script_of(title@, message@),
            ],
            Platform::Other => r.0@ == "notify-send"@ && text::sviews(r.1@) == seq![title@, message@],
        },
{
    let mut args: Vec<String> = Vec::new();
    match platform {
        Platform::MacOs => {
            push_arg(&mut args, "-e");
            push_string_arg(&mut args, macos_script(title, message));
            assert(text::sviews(args@) =~= seq!["-e"@, macos_script_of(title@, message@)]);
            (owned("osascript"), args)
        },
        Platform::Windows => {
            push_arg(&mut args, "-NoProfile");
            push_arg(&mut args, "-WindowStyle");
            push_arg(&mut args, "Hidden");
            push_arg(&mut args, "-Command");
            push_string_arg(&mut args, windows_script(title, message));
            assert(text::sviews(args@) =~= seq![
                "-NoProfile"@,
                "-WindowStyle"@,
                "Hidden"@,
                "-Command"@,
                windows_script_of(title@, message@),
            ]);
            (owned("powershell"), args)
        },
        Platform::Other => {
            push_arg(&mut args, title);
            push_arg(&mut args, message);
            assert(text::sviews(args@) =~= seq![title@, message@]);
            (owned("notify-send"), args)
        },
    }
}

} // verus!
