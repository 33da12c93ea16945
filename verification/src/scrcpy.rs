//! Launching scrcpy: its status, launch options and command line, and the
//! checks on a configured scrcpy path.
use vstd::prelude::*;
use crate::platform::{Platform, path_separator, scrcpy_binary_name};
use crate::search::{candidate_views, in_dirs, path_dirs, push_arg, push_in_dirs, push_one, push_string_arg, str_opt};
use crate::text::{self, chars_of, decimal, ends_with_exec, owned, push_all, split_lines, split_on, str_starts_with, string_of, trim_str, trim_vec};

verus! {

/// Whether scrcpy was found, where, and which version it reports.
#[derive(Clone, Debug)]
pub struct ScrcpyStatus {
    pub installed: bool,
    pub path: Option<String>,
    pub version: Option<String>,
}

/// Launch options read from the persistent store; all fields optional so the
/// scrcpy defaults apply when unset.
#[derive(Clone, Copy, Debug, PartialEq, Eq, Structural)]
pub struct ScrcpyLaunchOptions {
    pub bitrate_mbps: Option<u32>,
    pub turn_screen_off: bool,
    pub max_size: Option<u32>,
    pub stay_awake: bool,
}

impl Default for ScrcpyLaunchOptions {
    fn default() -> (r: Self)
        ensures
            r == (ScrcpyLaunchOptions {
                bitrate_mbps: None,
                turn_screen_off: false,
                max_size: None,
                stay_awake: false,
            }),
    {
        ScrcpyLaunchOptions {
            bitrate_mbps: None,
            turn_screen_off: false,
            max_size: None,
            stay_awake: false,
        }
    }
}


/// The arguments scrcpy is started with for the device at `address`: the
/// serial, then each option that is set.
pub open spec fn launch_args_of(address: Seq<char>, o: ScrcpyLaunchOptions) -> Seq<Seq<char>> {
    seq!["-s"@, address] + match o.bitrate_mbps {
        Some(m) => seq!["--video-bit-rate"@, text::dec(m as nat) + "M"@],
        None => Seq::<Seq<char>>::empty(),
    } + match o.max_size {
        Some(n) => seq!["--max-size"@, text::dec(n as nat)],
        None => Seq::<Seq<char>>::empty(),
    } + (if o.turn_screen_off {
        seq!["-S"@]
    } else {
        Seq::<Seq<char>>::empty()
    }) + (if o.stay_awake {
        seq!["--stay-awake"@]
    } else {
        Seq::<Seq<char>>::empty()
    })
}

/// The arguments scrcpy is started with for the device at `address`.
pub fn launch_args(address: &str, options: ScrcpyLaunchOptions) -> (r: Vec<String>)
    ensures
        text::sviews(r@) == launch_args_of(address@, options),
{
    let mut args: Vec<String> = Vec::new();
    push_arg(&mut args, "-s");
    push_arg(&mut args, address);
    let ghost a0 = text::sviews(args@);
    if let Some(mbps) = options.bitrate_mbps {
        push_arg(&mut args, "--video-bit-rate");
        let mut rate = decimal(mbps as u64);
        push_all(&mut rate, "M");
        push_string_arg(&mut args, rate);
    }
    let ghost a1 = text::sviews(args@);
    if let Some(size) = options.max_size {
        push_arg(&mut args, "--max-size");
        let n = decimal(size as u64);
        push_string_arg(&mut args, n);
    }
    let ghost a2 = text::sviews(args@);
    if options.turn_screen_off {
        push_arg(&mut args, "-S");
    }
    let ghost a3 = text::sviews(args@);
    if options.stay_awake {
        push_arg(&mut args, "--stay-awake");
    }
    proof {
        reveal_strlit("-s");
        assert(a0 =~= seq!["-s"@, address@]);
        let b = match options.bitrate_mbps {
            Some(m) => seq!["--video-bit-rate"@, text::dec(m as nat) + "M"@],
            None => Seq::<Seq<char>>::empty(),
        };
        let m = match options.max_size {
            Some(n) => seq!["--max-size"@, text::dec(n as nat)],
            None => Seq::<Seq<char>>::empty(),
        };
        let t = if options.turn_screen_off {
            seq!["-S"@]
        } else {
            Seq::<Seq<char>>::empty()
        };
        let w = if options.stay_awake {
            seq!["--stay-awake"@]
        } else {
            Seq::<Seq<char>>::empty()
        };
        assert(a1 =~= a0 + b);
        assert(a2 =~= a1 + m);
        assert(a3 =~= a2 + t);
        assert(text::sviews(args@) =~= a3 + w);
    }
    args
}

/// A decimal numeral starts with a digit.
proof fn lemma_dec_starts_with_digit(n: nat)
    ensures
        text::dec(n).len() > 0,
        48 <= (text::dec(n)[0] as int) <= 57,
    decreases n,
{
    if n >= 10 {
        lemma_dec_starts_with_digit(n / 10);
        assert(text::dec(n)[0] == text::dec(n / 10)[0]);
    }
}

/// scrcpy is started on the device `-s <address>`; after that, "-S" is
/// passed exactly when the screen is to be turned off, "--stay-awake"
/// exactly when the device is to stay awake, "--video-bit-rate <m>M" exactly
/// when a bitrate is set, and "--max-size <n>" exactly when a size is set.
pub proof fn law_launch_args_follow_options(address: Seq<char>, o: ScrcpyLaunchOptions)
    ensures
        launch_args_of(address, o).take(2) == seq!["-s"@, address],
        launch_args_of(address, o).skip(2).contains("-S"@) <==> o.turn_screen_off,
        launch_args_of(address, o).skip(2).contains("--stay-awake"@) <==> o.stay_awake,
        launch_args_of(address, o).skip(2).contains("--video-bit-rate"@) <==> o.bitrate_mbps is Some,
        launch_args_of(address, o).skip(2).contains("--max-size"@) <==> o.max_size is Some,
        o.bitrate_mbps matches Some(m) ==> launch_args_of(address, o)[2] == "--video-bit-rate"@
            && launch_args_of(address, o)[3] == text::dec(m as nat) + "M"@,
        o.max_size matches Some(n) ==> launch_args_of(address, o).skip(2).contains(
            text::dec(n as nat),
        ),
{
    reveal_strlit("-S");
    reveal_strlit("--stay-awake");
    reveal_strlit("--video-bit-rate");
    reveal_strlit("--max-size");
    reveal_strlit("-s");
    reveal_strlit("M");
    let b = match o.bitrate_mbps {
        Some(m) => seq!["--video-bit-rate"@, text::dec(m as nat) + "M"@],
        None => Seq::<Seq<char>>::empty(),
    };
    let m = match o.max_size {
        Some(n) => seq!["--max-size"@, text::dec(n as nat)],
        None => Seq::<Seq<char>>::empty(),
    };
    let t = if o.turn_screen_off {
        seq!["-S"@]
    } else {
        Seq::<Seq<char>>::empty()
    };
    let w = if o.stay_awake {
        seq!["--stay-awake"@]
    } else {
        Seq::<Seq<char>>::empty()
    };
    let all = launch_args_of(address, o);
    let tail = b + m + t + w;
    assert(all =~= seq!["-s"@, address] + tail);
    assert(all.take(2) =~= seq!["-s"@, address]);
    assert(all.skip(2) =~= tail);
    if let Some(mm) = o.bitrate_mbps {
        lemma_dec_starts_with_digit(mm as nat);
    }
    if let Some(nn) = o.max_size {
        lemma_dec_starts_with_digit(nn as nat);
    }
    // Every element of the tail is one of the option words or a numeral,
    // and these all differ.
    assert forall|x: Seq<char>| #[trigger] tail.contains(x) implies (x == "-S"@ && o.turn_screen_off)
        || (x == "--stay-awake"@ && o.stay_awake) || (x == "--video-bit-rate"@
        && o.bitrate_mbps is Some) || (x == "--max-size"@ && o.max_size is Some) || (x.len()
        > 0 && 48 <= (x[0] as int) <= 57) by {
        let k = choose|k: int| 0 <= k < tail.len() && tail[k] == x;
        if k < b.len() {
            assert(x == b[k]);
            if k == 1 {
                let mm = o.bitrate_mbps->Some_0;
                assert((text::dec(mm as nat) + "M"@)[0] == text::dec(mm as nat)[0]);
            }
        } else if k < b.len() + m.len() {
            assert(x == m[k - b.len()]);
        } else if k < b.len() + m.len() + t.len() {
            assert(x == t[k - b.len() - m.len()]);
        } else {
            assert(x == w[k - b.len() - m.len() - t.len()]);
        }
    }
    if o.turn_screen_off {
        assert(tail[(b.len() + m.len()) as int] == "-S"@);
    }
    if o.stay_awake {
        assert(tail[(b.len() + m.len() + t.len()) as int] == "--stay-awake"@);
    }
    if o.bitrate_mbps is Some {
        assert(tail[0] == "--video-bit-rate"@);
    }
    if let Some(nn) = o.max_size {
        assert(tail[b.len() as int] == "--max-size"@);
        assert(tail[(b.len() + 1) as int] == text::dec(nn as nat));
    }
    assert("-S"@.len() == 2 && "--stay-awake"@.len() == 12 && "--video-bit-rate"@.len() == 16
        && "--max-size"@.len() == 10);
    assert("-S"@[0] == '-' && "--stay-awake"@[0] == '-' && "--video-bit-rate"@[0] == '-'
        && "--max-size"@[0] == '-');
}

/// The scrcpy executable this app launches, once it is known.
pub struct ScrcpyService {
    path: Option<String>,
}

impl View for ScrcpyService {
    type V = Option<Seq<char>>;

    closed spec fn view(&self) -> Option<Seq<char>> {
        text::opt_view(self.path)
    }
}

impl ScrcpyService {
    /// A service that knows of no scrcpy yet.
    pub fn new() -> (r: Self)
        ensures
            r@ is None,
    {
        ScrcpyService { path: None }
    }

    /// Uses the scrcpy at `path` from now on.
    pub fn set_path(&mut self, path: String)
        ensures
            final(self)@ == Some(path@),
    {
        self.path = Some(path);
    }

    /// The scrcpy in use, if one is known.
    pub fn path(&self) -> (r: Option<String>)
        ensures
            text::opt_view(r) == self@,
    {
        match &self.path {
            Some(p) => Some(p.clone()),
            None => None,
        }
    }

    /// Records what a search for scrcpy found: the executable (or none) and
    /// the version it reported. The service uses what was found from now on.
    pub fn record_detection(&mut self, found: Option<String>, version: Option<String>) -> (r:
        ScrcpyStatus)
        ensures
            final(self)@ == text::opt_view(found),
            r.installed == found is Some,
            text::opt_view(r.path) == text::opt_view(found),
            text::opt_view(r.version) == (if found is Some {
                text::opt_view(version)
            } else {
                None
            }),
    {
        match found {
            Some(p) => {
                self.path = Some(p.clone());
                ScrcpyStatus { installed: true, path: Some(p), version }
            },
            None => {
                self.path = None;
                ScrcpyStatus { installed: false, path: None, version: None }
            },
        }
    }

    /// The program and arguments that mirror the device at `address`; an
    /// error when no scrcpy is known.
    pub fn launch_command(&self, address: &str, options: ScrcpyLaunchOptions) -> (r: Result<
        (String, Vec<String>),
        String,
    >)
        ensures
            match r {
                Ok((program, args)) => self@ == Some(program@) && text::sviews(args@)
                    == launch_args_of(address@, options),
                Err(e) => self@ is None && e@ == "scrcpy is not installed. Please install it first."@,
            },
    {
        match &self.path {
            Some(p) => Ok((p.clone(), launch_args(address, options))),
            None => Err(owned("scrcpy is not installed. Please install it first.")),
        }
    }
}

/// A scrcpy path as typed: trimmed, and refused when nothing is left.
pub fn validate_path_input(path: &str) -> (r: Result<String, String>)
    ensures
        match r {
            Ok(p) => p@ == text::trim(path@) && p@.len() > 0,
            Err(e) => text::trim(path@).len() == 0 && e@ == "scrcpy path cannot be empty"@,
        },
{
    let p = trim_str(path);
    if p.as_str().is_empty() {
        Err(owned("scrcpy path cannot be empty"))
    } else {
        Ok(p)
    }
}

/// A trimmed scrcpy path, refused when no file is there.
pub fn require_existing(path: String, exists: bool) -> (r: Result<String, String>)
    ensures
        match r {
            Ok(p) => exists && p@ == path@,
            Err(e) => !exists && e@ == "File not found: "@ + path@,
        },
{
    if exists {
        Ok(path)
    } else {
        let mut e = owned("File not found: ");
        push_all(&mut e, path.as_str());
        Err(e)
    }
}

/// The verdict on `<scrcpy> --version`: success, or "Invalid scrcpy:" with
/// its trimmed stderr.
pub fn version_check_outcome(success: bool, stderr: &str) -> (r: Result<(), String>)
    ensures
        match r {
            Ok(_) => success,
            Err(e) => !success && e@ == "Invalid scrcpy: "@ + text::trim(stderr@),
        },
{
    if success {
        Ok(())
    } else {
        let mut e = owned("Invalid scrcpy: ");
        let t = trim_str(stderr);
        push_all(&mut e, t.as_str());
        Err(e)
    }
}

/// The version scrcpy reports: the first line of its output, trimmed.
pub fn version_line(stdout: &str) -> (r: Option<String>)
    ensures
        match r {
            Some(v) => text::lines(stdout@).len() > 0 && v@ == text::trim(text::lines(stdout@)[0]),
            None => text::lines(stdout@).len() == 0,
        },
{
    let ls = split_lines(stdout);
    if ls.len() == 0 {
        None
    } else {
        let t = trim_vec(&ls[0]);
        Some(string_of(&t))
    }
}

/// The file name of scrcpy on `platform`.
pub open spec fn scrcpy_name(platform: Platform) -> Seq<char> {
    if platform == Platform::Windows {
        "scrcpy.exe"@
    } else {
        "scrcpy"@
    }
}

/// The places scrcpy is looked for, in order: each directory of `PATH`, then
/// the Homebrew locations on macOS or the per-user install on Windows.
pub open spec fn scrcpy_candidates_of(
    platform: Platform,
    path_var: Option<Seq<char>>,
    local_app_data: Option<Seq<char>>,
) -> Seq<Seq<Seq<char>>> {
    in_dirs(path_dirs(path_var, platform), scrcpy_name(platform)) + match platform {
        Platform::MacOs => seq![seq!["/opt/homebrew/bin/scrcpy"@], seq!["/usr/local/bin/scrcpy"@]],
        Platform::Windows => match local_app_data {
            Some(d) => seq![seq![d, "scrcpy"@, "scrcpy.exe"@]],
            None => Seq::empty(),
        },
        Platform::Other => Seq::empty(),
    }
}

/// The places scrcpy is looked for, in order, each as the parts of a path to
/// join; the first that exists is the one used.
pub fn scrcpy_candidates(platform: Platform, path_var: Option<&str>, local_app_data: Option<&str>)
    -> (r: Vec<Vec<String>>)
    ensures
        candidate_views(r@) == scrcpy_candidates_of(platform, str_opt(path_var), str_opt(local_app_data)),
{
    let mut out: Vec<Vec<String>> = Vec::new();
    let name = scrcpy_binary_name(platform);
    if let Some(p) = path_var {
        let dirs = split_on(p, path_separator(platform));
        push_in_dirs(&mut out, &dirs, name);
        assert(text::sviews(dirs@) == path_dirs(str_opt(path_var), platform));
    }
    let ghost first = candidate_views(out@);
    assert(first =~= in_dirs(path_dirs(str_opt(path_var), platform), scrcpy_name(platform)));
    let ghost target = scrcpy_candidates_of(platform, str_opt(path_var), str_opt(local_app_data));
    match platform {
        Platform::MacOs => {
            let mut a: Vec<String> = Vec::new();
            push_arg(&mut a, "/opt/homebrew/bin/scrcpy");
            let mut b: Vec<String> = Vec::new();
            push_arg(&mut b, "/usr/local/bin/scrcpy");
            assert(text::sviews(a@) =~= seq!["/opt/homebrew/bin/scrcpy"@]);
            assert(text::sviews(b@) =~= seq!["/usr/local/bin/scrcpy"@]);
            push_one(&mut out, a);
            push_one(&mut out, b);
            assert(candidate_views(out@) =~= target);
        },
        Platform::Windows => {
            if let Some(d) = local_app_data {
                let mut a: Vec<String> = Vec::new();
                push_arg(&mut a, d);
                push_arg(&mut a, "scrcpy");
                push_arg(&mut a, "scrcpy.exe");
                assert(text::sviews(a@) =~= seq![d@, "scrcpy"@, "scrcpy.exe"@]);
                push_one(&mut out, a);
            }
            assert(candidate_views(out@) =~= target);
        },
        Platform::Other => {
            assert(candidate_views(out@) =~= target);
        },
    }
    out
}

/// A release file offered for download.
#[derive(Clone, Debug)]
pub struct ReleaseAsset {
    pub name: Option<String>,
    pub browser_download_url: Option<String>,
}

/// Whether a release file is the 64-bit Windows zip.
pub open spec fn is_windows_zip(name: Option<String>) -> bool {
    match name {
        Some(n) => text::starts_with(n@, "scrcpy-win64-"@) && text::ends_with(n@, ".zip"@),
        None => false,
    }
}

/// The index of the first 64-bit Windows zip among `assets`.
pub open spec fn first_windows_zip(assets: Seq<ReleaseAsset>) -> Option<int> {
    if exists|i: int| 0 <= i < assets.len() && is_windows_zip(#[trigger] assets[i].name) {
        Some(
            choose|i: int|
                0 <= i < assets.len() && is_windows_zip(#[trigger] assets[i].name) && forall|j: int|
                    0 <= j < i ==> !is_windows_zip(#[trigger] assets[j].name),
        )
    } else {
        None
    }
}

/// Whether a release file is the 64-bit Windows zip.
fn is_windows_zip_exec(name: &Option<String>) -> (r: bool)
    ensures
        r == is_windows_zip(*name),
{
    match name {
        Some(n) => {
            let v = chars_of(n.as_str());
            let suffix = chars_of(".zip");
            str_starts_with(&v, "scrcpy-win64-") && ends_with_exec(&v, &suffix)
        },
        None => false,
    }
}

/// The download URL of the 64-bit Windows build among a release's files: that
/// of the first file named `scrcpy-win64-*.zip`. Errors when the release lists
/// no files, or when that file is missing or has no URL.
pub fn windows_zip_url(assets: Option<Vec<ReleaseAsset>>) -> (r: Result<String, String>)
    ensures
        match assets {
            None => r is Err && r->Err_0@ == "No assets found in release"@,
            Some(a) => match first_windows_zip(a@) {
                Some(i) => match a@[i].browser_download_url {
                    Some(u) => r is Ok && r->Ok_0@ == u@,
                    None => r is Err && r->Err_0@ == "Could not find Windows zip download"@,
                },
                None => r is Err && r->Err_0@ == "Could not find Windows zip download"@,
            },
        },
{
    if assets.is_none() {
        return Err(owned("No assets found in release"));
    }
    let a = assets.unwrap();
    let mut i: usize = 0;
    while i < a.len()
        invariant
            i <= a@.len(),
            assets == Some(a),
            forall|j: int| 0 <= j < i ==> !is_windows_zip(#[trigger] a@[j].name),
        decreases a@.len() - i,
    {
        if is_windows_zip_exec(&a[i].name) {
            proof {
                // `i` is the first match, so it is the one `first_windows_zip` picks.
                let k = i as int;
                assert(is_windows_zip(a@[k].name) && forall|j: int|
                    0 <= j < k ==> !is_windows_zip(#[trigger] a@[j].name));
                let c = choose|c: int|
                    0 <= c < a@.len() && is_windows_zip(#[trigger] a@[c].name) && forall|j: int|
                        0 <= j < c ==> !is_windows_zip(#[trigger] a@[j].name);
                if c > k {
                    assert(!is_windows_zip(a@[k].name));
                }
            }
            return match &a[i].browser_download_url {
                Some(u) => Ok(u.clone()),
                None => Err(owned("Could not find Windows zip download")),
            };
        }
        i = i + 1;
    }
    Err(owned("Could not find Windows zip download"))
}

/// The message `brew install scrcpy` leaves in the log: its stdout, then its stderr.
pub fn brew_log(stdout: &str, stderr: &str) -> (r: String)
    ensures
        r@ == stdout@ + "\n"@ + stderr@,
{
    let mut m = owned(stdout);
    push_all(&mut m, "\n");
    push_all(&mut m, stderr);
    m
}

/// The verdict on `brew install scrcpy`.
pub fn brew_outcome(success: bool, stderr: &str) -> (r: Result<String, String>)
    ensures
        match r {
            Ok(m) => success && m@ == "scrcpy installed successfully via Homebrew"@,
            Err(e) => !success && e@ == "brew install failed: "@ + stderr@,
        },
{
    if success {
        Ok(owned("scrcpy installed successfully via Homebrew"))
    } else {
        let mut e = owned("brew install failed: ");
        push_all(&mut e, stderr);
        Err(e)
    }
}

/// The result of an installation once scrcpy has been looked for again.
pub fn install_verdict(message: String, found_after: bool) -> (r: Result<String, String>)
    ensures
        match r {
            Ok(m) => found_after && m@ == message@,
            Err(e) => !found_after && e@ == "Installation completed but scrcpy was not found"@,
        },
{
    if found_after {
        Ok(message)
    } else {
        Err(owned("Installation completed but scrcpy was not found"))
    }
}

/// Installing scrcpy is offered on macOS (Homebrew) and Windows (download);
/// elsewhere this error is the answer.
pub fn install_unsupported(platform: Platform) -> (r: Option<String>)
    ensures
        match r {
            Some(e) => platform == Platform::Other && e@
                == "Automatic installation is not supported on this platform. Please install scrcpy manually."@,
            None => platform != Platform::Other,
        },
{
    if platform == Platform::Other {
        Some(owned("Automatic installation is not supported on this platform. Please install scrcpy manually."))
    } else {
        None
    }
}

} // verus!
