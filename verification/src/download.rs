//! The decisions of the tool downloader: how an HTTP failure is reported, the
//! progress percentages it announces, and the commands that unpack a zip.
use vstd::prelude::*;
use crate::platform::Platform;
use crate::quote;
use crate::search::{push_arg, push_string_arg};
use crate::text::{self, owned, push_all, push_decimal, trim_str};

pub use crate::quote::ps_quote;

verus! {

/// The user agent the downloader sends.
pub const USER_AGENT: &'static str = "ADBBar";

/// The message for an HTTP response with a failing status: statuses 403 and
/// 429 are reported as rate limiting. `status` is the status as displayed,
/// such as "404 Not Found".
pub open spec fn status_error_of(code: u16, status: Seq<char>, url: Seq<char>) -> Seq<char> {
    if code == 403 || code == 429 {
        "Request to "@ + url + " was rate limited ("@ + status + "). Wait a while and try again."@
    } else {
        "Request to "@ + url + " failed with status "@ + status
    }
}

/// The message for an HTTP response with a failing status.
pub fn status_error(code: u16, status: &str, url: &str) -> (r: String)
    ensures
        r@ == status_error_of(code, status@, url@),
{
    let mut m = owned("Request to ");
    push_all(&mut m, url);
    if code == 403 || code == 429 {
        push_all(&mut m, " was rate limited (");
        push_all(&mut m, status);
        push_all(&mut m, "). Wait a while and try again.");
    } else {
        push_all(&mut m, " failed with status ");
        push_all(&mut m, status);
    }
    m
}

/// A response is used only when its status is a success (2xx); any other
/// status is reported with `status_error`.
pub fn check_status(code: u16, status: &str, url: &str) -> (r: Result<(), String>)
    ensures
        match r {
            Ok(_) => 200 <= code <= 299,
            Err(e) => !(200 <= code <= 299) && e@ == status_error_of(code, status@, url@),
        },
{
    if 200 <= code && code <= 299 {
        Ok(())
    } else {
        Err(status_error(code, status, url))
    }
}

/// The whole percentage of `downloaded` out of `total`, when the total is known
/// and not zero.
pub open spec fn percent_of(downloaded: u64, total: Option<u64>) -> Option<u64> {
    match total {
        Some(t) => if t == 0 {
            None
        } else {
            Some(((downloaded * 100) / (t as int)) as u64)
        },
        None => None,
    }
}

/// The whole percentage of `downloaded` out of `total` (more than 100 when more
/// arrived than announced).
pub fn progress_percent(downloaded: u64, total: Option<u64>) -> (r: Option<u64>)
    requires
        total matches Some(t) && t != 0 ==> downloaded * 100 <= u64::MAX,
    ensures
        r == percent_of(downloaded, total),
{
    match total {
        Some(t) => {
            if t == 0 {
                None
            } else {
                Some(downloaded * 100 / t)
            }
        },
        None => None,
    }
}

/// The percentage to announce after `downloaded` bytes have arrived, given the
/// last one announced: a new whole percentage, or nothing when it is unknown or
/// unchanged.
pub fn next_progress_report(downloaded: u64, total: Option<u64>, last_reported: Option<u64>) -> (r:
    Option<u64>)
    requires
        total matches Some(t) && t != 0 ==> downloaded * 100 <= u64::MAX,
    ensures
        r == match percent_of(downloaded, total) {
            Some(p) => if last_reported == Some(p) {
                None
            } else {
                Some(p)
            },
            None => None,
        },
{
    match progress_percent(downloaded, total) {
        Some(p) => {
            if last_reported == Some(p) {
                None
            } else {
                Some(p)
            }
        },
        None => None,
    }
}

/// The progress message for `percent`.
pub fn progress_message(percent: u64) -> (r: String)
    ensures
        r@ == "Downloading... "@ + text::dec(percent as nat) + "%"@,
{
    let mut m = owned("Downloading... ");
    push_decimal(&mut m, percent);
    push_all(&mut m, "%");
    m
}

/// The error for a download that finished without any data.
pub fn empty_download_error(url: &str) -> (r: String)
    ensures
        r@ == "Download from "@ + url@ + " returned no data"@,
{
    let mut m = owned("Download from ");
    push_all(&mut m, url);
    push_all(&mut m, " returned no data");
    m
}

/// A download in progress: the bytes received so far, the size the server
/// announced, and the last percentage reported.
pub struct Download {
    data: Vec<u8>,
    total: Option<u64>,
    last_reported: Option<u64>,
}

impl Download {
    pub closed spec fn data(&self) -> Seq<u8> {
        self.data@
    }

    pub closed spec fn total(&self) -> Option<u64> {
        self.total
    }

    pub closed spec fn last_reported(&self) -> Option<u64> {
        self.last_reported
    }

    /// A download of a body whose size is `total`, when the server said.
    pub fn new(total: Option<u64>) -> (r: Self)
        ensures
            r.data().len() == 0,
            r.total() == total,
            r.last_reported() is None,
    {
        Download { data: Vec::new(), total, last_reported: None }
    }

    /// How many bytes have arrived.
    pub fn received(&self) -> (r: usize)
        ensures
            r == self.data().len(),
    {
        self.data.len()
    }

    /// Whether `more` further bytes can be counted without the percentage
    /// overflowing (only past 184 petabytes).
    pub open spec fn can_take(&self, more: int) -> bool {
        self.total() matches Some(t) && t != 0 ==> (self.data().len() + more) * 100 <= u64::MAX
    }

    /// Adds a chunk of the body. Returns the progress message to show when
    /// the whole percentage changed.
    pub fn add_chunk(&mut self, chunk: &[u8]) -> (r: Option<String>)
        requires
            old(self).can_take(chunk@.len() as int),
            old(self).data().len() + chunk@.len() <= usize::MAX,
        ensures
            final(self).data() == old(self).data() + chunk@,
            final(self).total() == old(self).total(),
            match percent_of((old(self).data().len() + chunk@.len()) as u64, old(self).total()) {
                Some(p) => if old(self).last_reported() == Some(p) {
                    r is None && final(self).last_reported() == old(self).last_reported()
                } else {
                    r matches Some(m) && m@ == "Downloading... "@ + text::dec(p as nat) + "%"@
                        && final(self).last_reported() == Some(p)
                },
                None => r is None && final(self).last_reported() == old(self).last_reported(),
            },
    {
        let ghost start = self.data@;
        let mut i: usize = 0;
        while i < chunk.len()
            invariant
                i <= chunk@.len(),
                self.data@ == start + chunk@.take(i as int),
                self.total == old(self).total,
                self.last_reported == old(self).last_reported,
            decreases chunk@.len() - i,
        {
            self.data.push(chunk[i]);
            i = i + 1;
            assert(self.data@ =~= start + chunk@.take(i as int));
        }
        assert(chunk@.take(chunk@.len() as int) =~= chunk@);
        let n = self.data.len() as u64;
        match next_progress_report(n, self.total, self.last_reported) {
            Some(p) => {
                self.last_reported = Some(p);
                Some(progress_message(p))
            },
            None => None,
        }
    }

    /// The whole body once the transfer is over; an error when nothing came.
    pub fn finish(self, url: &str) -> (r: Result<Vec<u8>, String>)
        ensures
            match r {
                Ok(d) => d@ == self.data() && d@.len() > 0,
                Err(e) => self.data().len() == 0 && e@ == "Download from "@ + url@ + " returned no data"@,
            },
    {
        if self.data.len() == 0 {
            Err(empty_download_error(url))
        } else {
            Ok(self.data)
        }
    }
}

/// The PowerShell command that extracts `zip_path` into `dest_dir`, both
/// quoted as PowerShell literals.
pub fn expand_archive_command(zip_path: &str, dest_dir: &str) -> (r: String)
    ensures
        r@ == "Expand-Archive -LiteralPath "@ + quote::ps_quoted(zip_path@) + " -DestinationPath "@
            + quote::ps_quoted(dest_dir@) + " -Force"@,
{
    let mut m = owned("Expand-Archive -LiteralPath ");
    let z = ps_quote(zip_path);
    push_all(&mut m, z.as_str());
    push_all(&mut m, " -DestinationPath ");
    let d = ps_quote(dest_dir);
    push_all(&mut m, d.as_str());
    push_all(&mut m, " -Force");
    m
}

/// The error for an extractor that ran and failed, with its trimmed stderr.
pub fn extract_failure_message(stderr: &str) -> (r: String)
    ensures
        r@ == "Failed to extract zip: "@ + text::trim(stderr@),
{
    let mut m = owned("Failed to extract zip: ");
    let t = trim_str(stderr);
    push_all(&mut m, t.as_str());
    m
}

/// The error for an `unzip` that could not be started: a hint to install it
/// when it is missing, else the reason.
pub fn unzip_spawn_error(not_found: bool, reason: &str) -> (r: String)
    ensures
        r@ == (if not_found {
            "unzip is not installed. Install it (e.g. sudo apt install unzip) and try again."@
        } else {
            "Failed to run unzip: "@ + reason@
        }),
{
    if not_found {
        owned("unzip is not installed. Install it (e.g. sudo apt install unzip) and try again.")
    } else {
        let mut m = owned("Failed to run unzip: ");
        push_all(&mut m, reason);
        m
    }
}

/// How running the zip extractor went.
pub enum ExtractorRun {
    /// It could not be started: whether the program is missing, and why.
    NotStarted { not_found: bool, reason: String },
    /// It ran to its end.
    Finished { success: bool, stderr: String },
}

/// The program and arguments that extract `zip_path` into `dest_dir`:
/// PowerShell's `Expand-Archive` on Windows, `unzip` elsewhere.
pub fn extract_command(platform: Platform, zip_path: &str, dest_dir: &str) -> (r: (String, Vec<String>))
    ensures
        if platform == Platform::Windows {
            r.0@ == "powershell"@ && text::sviews(r.1@) == seq![
                "-NoProfile"@,
                "-NonInteractive"@,
                "-Command"@,
                "Expand-Archive -LiteralPath "@ + quote::ps_quoted(zip_path@) + " -DestinationPath "@
                    + quote::ps_quoted(dest_dir@) + " -Force"@,
            ]
        } else {
            r.0@ == "unzip"@ && text::sviews(r.1@) == seq!["-o"@, zip_path@, "-d"@, dest_dir@]
        },
{
    let mut args: Vec<String> = Vec::new();
    if platform == Platform::Windows {
        push_arg(&mut args, "-NoProfile");
        push_arg(&mut args, "-NonInteractive");
        push_arg(&mut args, "-Command");
        push_string_arg(&mut args, expand_archive_command(zip_path, dest_dir));
        assert(text::sviews(args@) =~= seq![
            "-NoProfile"@,
            "-NonInteractive"@,
            "-Command"@,
            "Expand-Archive -LiteralPath "@ + quote::ps_quoted(zip_path@) + " -DestinationPath "@
                + quote::ps_quoted(dest_dir@) + " -Force"@,
        ]);
        (owned("powershell"), args)
    } else {
        push_arg(&mut args, "-o");
        push_arg(&mut args, zip_path);
        push_arg(&mut args, "-d");
        push_arg(&mut args, dest_dir);
        assert(text::sviews(args@) =~= seq!["-o"@, zip_path@, "-d"@, dest_dir@]);
        (owned("unzip"), args)
    }
}

/// The result of extracting a zip archive, given how the extractor ran: a
/// missing `unzip` gets an install hint; a failed run reports its trimmed
/// stderr.
pub fn extract_zip(platform: Platform, run: ExtractorRun) -> (r: Result<(), String>)
    ensures
        match run {
            ExtractorRun::NotStarted { not_found, reason } => r is Err && r->Err_0@ == (
            if platform == Platform::Windows {
                "Failed to run PowerShell: "@ + reason@
            } else if not_found {
                "unzip is not installed. Install it (e.g. sudo apt install unzip) and try again."@
            } else {
                "Failed to run unzip: "@ + reason@
            }),
            ExtractorRun::Finished { success, stderr } => if success {
                r is Ok
            } else {
                r is Err && r->Err_0@ == "Failed to extract zip: "@ + text::trim(stderr@)
            },
        },
{
    match run {
        ExtractorRun::NotStarted { not_found, reason } => {
            if platform == Platform::Windows {
                let mut e = owned("Failed to run PowerShell: ");
                push_all(&mut e, reason.as_str());
                Err(e)
            } else {
                Err(unzip_spawn_error(not_found, reason.as_str()))
            }
        },
        ExtractorRun::Finished { success, stderr } => {
            if success {
                Ok(())
            } else {
                Err(extract_failure_message(stderr.as_str()))
            }
        },
    }
}

/// The percentage never goes down while more data arrives.
pub proof fn law_percent_monotone(a: u64, b: u64, total: u64)
    requires
        a <= b,
        total != 0,
        b * 100 <= u64::MAX,
    ensures
        percent_of(a, Some(total))->0 <= percent_of(b, Some(total))->0,
{
    assert((a * 100) / (total as int) <= (b * 100) / (total as int)) by (nonlinear_arith)
        requires
            a <= b,
            total > 0,
    ;
}

} // verus!
