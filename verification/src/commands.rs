//! The adb commands the app runs on behalf of the UI and the tray, with their
//! time limits, and the decisions taken around them: checking a pairing
//! request, watching for the paired device, polling a running command.
use vstd::prelude::*;
use crate::adb::{self, MdnsService, MdnsServiceView, service_views};
use crate::platform::Platform;
use crate::search::{push_arg, push_string_arg};
use crate::text::{self, chars_of, decimal, owned, push_all, split_on, str_eq, str_starts_with, trim_str};

verus! {

/// An adb invocation: its arguments and how long it may run.
pub struct AdbRequest {
    pub args: Vec<String>,
    pub timeout_secs: u64,
}

/// The model of a request.
pub open spec fn request_view(r: AdbRequest) -> (Seq<Seq<char>>, u64) {
    (text::sviews(r.args@), r.timeout_secs)
}

/// The request `adb <a>`.
fn request1(a: &str, timeout_secs: u64) -> (r: AdbRequest)
    ensures
        request_view(r) == (seq![a@], timeout_secs),
{
    let mut args: Vec<String> = Vec::new();
    push_arg(&mut args, a);
    assert(text::sviews(args@) =~= seq![a@]);
    AdbRequest { args, timeout_secs }
}

/// The request `adb <a> <b>`.
fn request2(a: &str, b: &str, timeout_secs: u64) -> (r: AdbRequest)
    ensures
        request_view(r) == (seq![a@, b@], timeout_secs),
{
    let mut args: Vec<String> = Vec::new();
    push_arg(&mut args, a);
    push_arg(&mut args, b);
    assert(text::sviews(args@) =~= seq![a@, b@]);
    AdbRequest { args, timeout_secs }
}

/// `adb connect <address>`, for at most 10 seconds.
pub fn connect_request(address: &str) -> (r: AdbRequest)
    ensures
        request_view(r) == (seq!["connect"@, address@], 10u64),
{
    request2("connect", address, 10)
}

/// `adb disconnect <address>`, for at most 10 seconds.
pub fn disconnect_request(address: &str) -> (r: AdbRequest)
    ensures
        request_view(r) == (seq!["disconnect"@, address@], 10u64),
{
    request2("disconnect", address, 10)
}

/// `adb pair <address> <code>`, for at most 20 seconds.
pub fn pair_request(address: &str, code: &str) -> (r: AdbRequest)
    ensures
        request_view(r) == (seq!["pair"@, address@, code@], 20u64),
{
    let mut args: Vec<String> = Vec::new();
    push_arg(&mut args, "pair");
    push_arg(&mut args, address);
    push_arg(&mut args, code);
    assert(text::sviews(args@) =~= seq!["pair"@, address@, code@]);
    AdbRequest { args, timeout_secs: 20 }
}

/// `adb devices`, for at most 5 seconds.
pub fn devices_request() -> (r: AdbRequest)
    ensures
        request_view(r) == (seq!["devices"@], 5u64),
{
    request1("devices", 5)
}

/// `adb mdns services`, for at most 5 seconds.
pub fn mdns_request() -> (r: AdbRequest)
    ensures
        request_view(r) == (seq!["mdns"@, "services"@], 5u64),
{
    request2("mdns", "services", 5)
}

/// `adb kill-server`, for at most 5 seconds: the first half of a restart.
pub fn kill_server_request() -> (r: AdbRequest)
    ensures
        request_view(r) == (seq!["kill-server"@], 5u64),
{
    request1("kill-server", 5)
}

/// `adb start-server`, for at most 10 seconds: the second half of a restart.
pub fn start_server_request() -> (r: AdbRequest)
    ensures
        request_view(r) == (seq!["start-server"@], 10u64),
{
    request1("start-server", 10)
}

/// The answer to a successful restart of the adb server.
pub fn restart_message() -> (r: String)
    ensures
        r@ == "ADB server restarted"@,
{
    owned("ADB server restarted")
}

/// The arguments `-s <address>` that address one device.
fn on_device(address: &str) -> (r: Vec<String>)
    ensures
        text::sviews(r@) == seq!["-s"@, address@],
{
    let mut args: Vec<String> = Vec::new();
    push_arg(&mut args, "-s");
    push_arg(&mut args, address);
    assert(text::sviews(args@) =~= seq!["-s"@, address@]);
    args
}

/// `adb -s <address> shell getprop`, for at most 10 seconds.
pub fn getprop_request(address: &str) -> (r: AdbRequest)
    ensures
        request_view(r) == (seq!["-s"@, address@, "shell"@, "getprop"@], 10u64),
{
    let mut args = on_device(address);
    push_arg(&mut args, "shell");
    push_arg(&mut args, "getprop");
    assert(text::sviews(args@) =~= seq!["-s"@, address@, "shell"@, "getprop"@]);
    AdbRequest { args, timeout_secs: 10 }
}

/// `adb -s <address> install -r <apk>`, for at most two minutes.
pub fn install_apk_request(address: &str, apk_path: &str) -> (r: AdbRequest)
    ensures
        request_view(r) == (seq!["-s"@, address@, "install"@, "-r"@, apk_path@], 120u64),
{
    let mut args = on_device(address);
    push_arg(&mut args, "install");
    push_arg(&mut args, "-r");
    push_arg(&mut args, apk_path);
    assert(text::sviews(args@) =~= seq!["-s"@, address@, "install"@, "-r"@, apk_path@]);
    AdbRequest { args, timeout_secs: 120 }
}

/// The port adb listens on in TCP/IP mode unless told otherwise.
pub const DEFAULT_TCPIP_PORT: u16 = 5555;

/// `adb [-s <address>] tcpip <port>`, for at most 10 seconds; the port is
/// 5555 when none is given, the device the only one attached when none is named.
pub fn tcpip_request(address: Option<&str>, port: Option<u16>) -> (r: AdbRequest)
    ensures
        request_view(r) == ((match address {
            Some(a) => seq!["-s"@, a@],
            None => Seq::<Seq<char>>::empty(),
        }) + seq![
            "tcpip"@,
            text::dec(
                match port {
                    Some(p) => p,
                    None => DEFAULT_TCPIP_PORT,
                } as nat,
            ),
        ], 10u64),
{
    let p = match port {
        Some(p) => p,
        None => DEFAULT_TCPIP_PORT,
    };
    let mut args: Vec<String> = match address {
        Some(a) => on_device(a),
        None => Vec::new(),
    };
    let ghost head = text::sviews(args@);
    push_arg(&mut args, "tcpip");
    push_string_arg(&mut args, decimal(p as u64));
    proof {
        match address {
            Some(a) => {},
            None => {
                assert(head =~= Seq::<Seq<char>>::empty());
            },
        }
    }
    assert(text::sviews(args@) =~= head + seq!["tcpip"@, text::dec(p as nat)]);
    AdbRequest { args, timeout_secs: 10 }
}

/// What to do next with a command that is running.
#[derive(Clone, Copy, Debug, PartialEq, Eq, Structural)]
pub enum PollStep {
    /// It has exited: collect its output.
    Collect,
    /// Check again after `POLL_INTERVAL_MS`.
    Wait,
    /// It ran too long: kill it and report the time-out.
    Kill,
}

/// How long to wait between two checks of a running command.
pub const POLL_INTERVAL_MS: u64 = 50;

/// The next step for a command that has run `elapsed_nanos` so far, given
/// whether it has exited: it may run up to `timeout_secs`.
pub fn poll_step(exited: bool, elapsed_nanos: u128, timeout_secs: u64) -> (r: PollStep)
    ensures
        r == (if exited {
            PollStep::Collect
        } else if elapsed_nanos > timeout_secs * 1_000_000_000 {
            PollStep::Kill
        } else {
            PollStep::Wait
        }),
{
    if exited {
        PollStep::Collect
    } else if elapsed_nanos > (timeout_secs as u128) * 1_000_000_000 {
        PollStep::Kill
    } else {
        PollStep::Wait
    }
}

/// A pairing request as typed: address and code trimmed, each refused when
/// nothing is left.
pub fn check_pairing_input(address: &str, code: &str) -> (r: Result<(String, String), String>)
    ensures
        match r {
            Ok((a, c)) => a@ == text::trim(address@) && c@ == text::trim(code@) && a@.len() > 0
                && c@.len() > 0,
            Err(e) => if text::trim(address@).len() == 0 {
                e@ == "Pairing address cannot be empty"@
            } else {
                text::trim(code@).len() == 0 && e@ == "Pairing code cannot be empty"@
            },
        },
{
    let a = trim_str(address);
    let c = trim_str(code);
    if a.as_str().is_empty() {
        return Err(owned("Pairing address cannot be empty"));
    }
    if c.as_str().is_empty() {
        return Err(owned("Pairing code cannot be empty"));
    }
    Ok((a, c))
}

/// The start of the connect address the paired device will advertise: the
/// host of the pairing address, then ':'.
pub open spec fn ip_prefix_of(address: Seq<char>) -> Seq<char> {
    text::split(address, ':')[0] + seq![':']
}

/// The host part of a pairing address, then ':'.
pub fn pairing_ip_prefix(address: &str) -> (r: String)
    ensures
        r@ == ip_prefix_of(address@),
{
    let pieces = split_on(address, ':');
    proof {
        lemma_split_nonempty(address@, ':');
    }
    assert(text::sviews(pieces@)[0] == pieces@[0]@);
    let mut p = pieces[0].clone();
    push_all(&mut p, ":");
    proof {
        reveal_strlit(":");
    }
    assert(p@ =~= ip_prefix_of(address@));
    p
}

/// Splitting always yields at least one piece.
proof fn lemma_split_nonempty(s: Seq<char>, sep: char)
    ensures
        text::split(s, sep).len() > 0,
{
}

/// Whether a discovered service is the connect service of a device at `prefix`.
pub open spec fn is_connect_at(s: MdnsServiceView, prefix: Seq<char>) -> bool {
    s.kind == "connect"@ && text::starts_with(s.address, prefix)
}

/// The address of the first connect service whose address starts with `prefix`.
pub open spec fn connect_address_of(ss: Seq<MdnsServiceView>, prefix: Seq<char>) -> Option<
    Seq<char>,
>
    decreases ss.len(),
{
    if ss.len() == 0 {
        None
    } else if is_connect_at(ss[0], prefix) {
        Some(ss[0].address)
    } else {
        connect_address_of(ss.drop_first(), prefix)
    }
}

/// The address of the first connect service among `services` whose address
/// starts with `prefix`.
pub fn find_connect_address(services: &Vec<MdnsService>, prefix: &str) -> (r: Option<String>)
    ensures
        text::opt_view(r) == connect_address_of(service_views(services@), prefix@),
{
    let ghost ss = service_views(services@);
    let mut i: usize = 0;
    assert(ss.skip(0) =~= ss);
    while i < services.len()
        invariant
            i <= services@.len(),
            ss == service_views(services@),
            connect_address_of(ss, prefix@) == connect_address_of(ss.skip(i as int), prefix@),
        decreases services@.len() - i,
    {
        let s = &services[i];
        let v = chars_of(s.address.as_str());
        assert(ss[i as int] == s@);
        if str_eq(s.kind.as_str(), "connect") && str_starts_with(&v, prefix) {
            return Some(s.address.clone());
        }
        assert(ss.skip(i as int).drop_first() =~= ss.skip(i + 1));
        i = i + 1;
    }
    None
}

/// How many times `adb mdns services` is asked for a freshly paired device.
pub const PAIR_WATCH_ATTEMPTS: u32 = 3;

/// How long to wait between two of those attempts.
pub const PAIR_WATCH_INTERVAL_MS: u64 = 1000;

/// After pairing, the phone starts advertising its connect service, with
/// some delay: this watches a few listings for it.
pub struct PairWatch {
    prefix: String,
    attempts: u32,
}

/// What the watch asks for after a listing.
#[derive(Clone, Debug)]
pub enum PairStep {
    /// The device's connect address.
    Found(String),
    /// Wait `PAIR_WATCH_INTERVAL_MS`, then list the services again.
    Retry,
    /// Nothing showed up: the pairing still stands, without an address.
    GiveUp,
}

impl PairWatch {
    /// The model: the address prefix looked for and the listings seen so far.
    pub closed spec fn prefix(&self) -> Seq<char> {
        self.prefix@
    }

    pub closed spec fn attempts(&self) -> u32 {
        self.attempts
    }

    /// A watch for the device paired at `address`.
    pub fn new(address: &str) -> (r: Self)
        ensures
            r.prefix() == ip_prefix_of(address@),
            r.attempts() == 0,
    {
        PairWatch { prefix: pairing_ip_prefix(address), attempts: 0 }
    }

    /// Takes in one listing: the services found, or `None` when listing
    /// failed.
    pub fn observe(&mut self, services: Option<&Vec<MdnsService>>) -> (r: PairStep)
        requires
            old(self).attempts() < PAIR_WATCH_ATTEMPTS,
        ensures
            final(self).prefix() == old(self).prefix(),
            final(self).attempts() == old(self).attempts() + 1,
            match r {
                PairStep::Found(a) => services matches Some(ss) && connect_address_of(
                    service_views(ss@),
                    old(self).prefix(),
                ) == Some(a@),
                PairStep::Retry => (services matches Some(ss) ==> connect_address_of(
                    service_views(ss@),
                    old(self).prefix(),
                ) is None) && final(self).attempts() < PAIR_WATCH_ATTEMPTS,
                PairStep::GiveUp => (services matches Some(ss) ==> connect_address_of(
                    service_views(ss@),
                    old(self).prefix(),
                ) is None) && final(self).attempts() == PAIR_WATCH_ATTEMPTS,
            },
    {
        self.attempts = self.attempts + 1;
        if let Some(ss) = services {
            if let Some(a) = find_connect_address(ss, self.prefix.as_str()) {
                return PairStep::Found(a);
            }
        }
        if self.attempts < PAIR_WATCH_ATTEMPTS {
            PairStep::Retry
        } else {
            PairStep::GiveUp
        }
    }
}

/// Where a screenshot is kept on the device until it is pulled.
pub const DEVICE_SCREENSHOT_PATH: &'static str = "/data/local/tmp/screenshot_adbbar.png";

/// `-s <address> shell screencap -p <device path>`: takes the screenshot.
pub fn screencap_args(address: &str) -> (r: Vec<String>)
    ensures
        text::sviews(r@) == seq!["-s"@, address@, "shell"@, "screencap"@, "-p"@, DEVICE_SCREENSHOT_PATH@],
{
    let mut args = on_device(address);
    push_arg(&mut args, "shell");
    push_arg(&mut args, "screencap");
    push_arg(&mut args, "-p");
    push_arg(&mut args, DEVICE_SCREENSHOT_PATH);
    assert(text::sviews(args@) =~= seq!["-s"@, address@, "shell"@, "screencap"@, "-p"@, DEVICE_SCREENSHOT_PATH@]);
    args
}

/// `-s <address> pull <device path> <dest>`: copies the screenshot over.
pub fn pull_args(address: &str, dest: &str) -> (r: Vec<String>)
    ensures
        text::sviews(r@) == seq!["-s"@, address@, "pull"@, DEVICE_SCREENSHOT_PATH@, dest@],
{
    let mut args = on_device(address);
    push_arg(&mut args, "pull");
    push_arg(&mut args, DEVICE_SCREENSHOT_PATH);
    push_arg(&mut args, dest);
    assert(text::sviews(args@) =~= seq!["-s"@, address@, "pull"@, DEVICE_SCREENSHOT_PATH@, dest@]);
    args
}

/// `-s <address> shell rm <device path>`: removes the copy left on the device.
pub fn cleanup_args(address: &str) -> (r: Vec<String>)
    ensures
        text::sviews(r@) == seq!["-s"@, address@, "shell"@, "rm"@, DEVICE_SCREENSHOT_PATH@],
{
    let mut args = on_device(address);
    push_arg(&mut args, "shell");
    push_arg(&mut args, "rm");
    push_arg(&mut args, DEVICE_SCREENSHOT_PATH);
    assert(text::sviews(args@) =~= seq!["-s"@, address@, "shell"@, "rm"@, DEVICE_SCREENSHOT_PATH@]);
    args
}

/// The verdict on one step of taking a screenshot: an error made of `what`
/// and the step's stderr when it failed.
pub fn step_outcome(success: bool, what: &str, stderr: &str) -> (r: Result<(), String>)
    ensures
        match r {
            Ok(_) => success,
            Err(e) => !success && e@ == what@ + stderr@,
        },
{
    if success {
        Ok(())
    } else {
        let mut e = owned(what);
        push_all(&mut e, stderr);
        Err(e)
    }
}

/// The program and arguments that open a terminal with `adb shell` on the
/// device at `address`: Terminal through AppleScript on macOS, a new console
/// on Windows; elsewhere this is not offered.
pub fn open_shell_command(platform: Platform, adb_path: &str, address: &str) -> (r: Result<
    (String, Vec<String>),
    String,
>)
    ensures
        match platform {
            Platform::MacOs => r is Ok && r->Ok_0.0@ == "osascript"@ && text::sviews(r->Ok_0.1@)
                == seq!["-e"@, adb::open_shell_script_of(adb_path@, address@)],
            Platform::Windows => r is Ok && r->Ok_0.0@ == "cmd"@ && text::sviews(r->Ok_0.1@)
                == seq!["/C"@, "start"@, ""@, adb_path@, "-s"@, address@, "shell"@],
            Platform::Other => r is Err && r->Err_0@
                == "Opening shell is not supported on this platform"@,
        },
{
    match platform {
        Platform::MacOs => {
            let mut args: Vec<String> = Vec::new();
            push_arg(&mut args, "-e");
            push_string_arg(&mut args, adb::open_shell_script(adb_path, address));
            assert(text::sviews(args@) =~= seq!["-e"@, adb::open_shell_script_of(adb_path@, address@)]);
            Ok((owned("osascript"), args))
        },
        Platform::Windows => {
            let mut args: Vec<String> = Vec::new();
            push_arg(&mut args, "/C");
            push_arg(&mut args, "start");
            push_arg(&mut args, "");
            push_arg(&mut args, adb_path);
            push_arg(&mut args, "-s");
            push_arg(&mut args, address);
            push_arg(&mut args, "shell");
            assert(text::sviews(args@) =~= seq!["/C"@, "start"@, ""@, adb_path@, "-s"@, address@, "shell"@]);
            Ok((owned("cmd"), args))
        },
        Platform::Other => Err(owned("Opening shell is not supported on this platform")),
    }
}

/// The error for an installed archive without the adb binary at `path`.
pub fn missing_adb_error(path: &str) -> (r: String)
    ensures
        r@ == "adb binary not found in extracted archive: "@ + path@,
{
    let mut e = owned("adb binary not found in extracted archive: ");
    push_all(&mut e, path);
    e
}

} // verus!
