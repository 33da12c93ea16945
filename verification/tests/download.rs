use adbbar::download::{
    check_status, expand_archive_command, extract_command, extract_zip, next_progress_report,
    progress_message, progress_percent, ps_quote, status_error, Download, ExtractorRun, USER_AGENT,
};
use adbbar::platform::Platform;

#[test]
fn ps_quote_escapes_single_quotes() {
    assert_eq!(ps_quote("plain"), "'plain'");
    assert_eq!(ps_quote("it's"), "'it''s'");
    assert_eq!(ps_quote("a'b'c"), "'a''b''c'");
}

#[test]
fn progress_percent_handles_known_and_unknown_totals() {
    assert_eq!(progress_percent(0, Some(100)), Some(0));
    assert_eq!(progress_percent(50, Some(100)), Some(50));
    assert_eq!(progress_percent(120, Some(100)), Some(120));
    assert_eq!(progress_percent(10, Some(0)), None);
    assert_eq!(progress_percent(10, None), None);
}

#[test]
fn progress_percent_rounds_down() {
    assert_eq!(progress_percent(1, Some(3)), Some(33));
    assert_eq!(progress_percent(2, Some(3)), Some(66));
    assert_eq!(progress_percent(3, Some(3)), Some(100));
}

#[test]
fn progress_percent_never_goes_down() {
    let mut last = 0;
    for downloaded in 0..=1000u64 {
        let p = progress_percent(downloaded, Some(997)).unwrap();
        assert!(p >= last);
        last = p;
    }
}

#[test]
fn next_progress_report_only_on_change() {
    assert_eq!(next_progress_report(50, Some(100), None), Some(50));
    assert_eq!(next_progress_report(50, Some(100), Some(50)), None);
    assert_eq!(next_progress_report(51, Some(100), Some(50)), Some(51));
    assert_eq!(next_progress_report(51, None, Some(50)), None);
}

#[test]
fn status_error_names_rate_limits() {
    assert_eq!(
        status_error(429, "429 Too Many Requests", "https://x"),
        "Request to https://x was rate limited (429 Too Many Requests). Wait a while and try again."
    );
    assert_eq!(
        status_error(403, "403 Forbidden", "u"),
        "Request to u was rate limited (403 Forbidden). Wait a while and try again."
    );
    assert_eq!(
        status_error(404, "404 Not Found", "u"),
        "Request to u failed with status 404 Not Found"
    );
}

#[test]
fn check_status_accepts_only_success() {
    assert!(check_status(200, "200 OK", "u").is_ok());
    assert!(check_status(204, "204 No Content", "u").is_ok());
    assert_eq!(
        check_status(500, "500 Internal Server Error", "u").unwrap_err(),
        "Request to u failed with status 500 Internal Server Error"
    );
    assert!(check_status(302, "302 Found", "u").is_err());
}

#[test]
fn download_reports_each_new_percentage() {
    let mut d = Download::new(Some(4));
    assert_eq!(d.add_chunk(&[1]), Some("Downloading... 25%".to_string()));
    assert_eq!(d.add_chunk(&[]), None);
    assert_eq!(d.add_chunk(&[2, 3, 4]), Some("Downloading... 100%".to_string()));
    assert_eq!(d.received(), 4);
    assert_eq!(d.finish("u").unwrap(), vec![1, 2, 3, 4]);
}

#[test]
fn download_without_size_reports_nothing() {
    let mut d = Download::new(None);
    assert_eq!(d.add_chunk(&[9, 9]), None);
    assert_eq!(d.finish("u").unwrap(), vec![9, 9]);
}

#[test]
fn empty_download_is_an_error() {
    let d = Download::new(Some(10));
    assert_eq!(d.finish("https://x/y.zip").unwrap_err(), "Download from https://x/y.zip returned no data");
}

#[test]
fn progress_message_formats_percent() {
    assert_eq!(progress_message(7), "Downloading... 7%");
}

#[test]
fn extract_command_per_platform() {
    let (program, args) = extract_command(Platform::Windows, "C:\\a's.zip", "C:\\out");
    assert_eq!(program, "powershell");
    assert_eq!(
        args,
        vec![
            "-NoProfile".to_string(),
            "-NonInteractive".to_string(),
            "-Command".to_string(),
            "Expand-Archive -LiteralPath 'C:\\a''s.zip' -DestinationPath 'C:\\out' -Force".to_string(),
        ]
    );
    let (program, args) = extract_command(Platform::MacOs, "/t/p.zip", "/t");
    assert_eq!(program, "unzip");
    assert_eq!(args, vec!["-o", "/t/p.zip", "-d", "/t"]);
    assert_eq!(
        expand_archive_command("z", "d"),
        "Expand-Archive -LiteralPath 'z' -DestinationPath 'd' -Force"
    );
}

#[test]
fn extract_zip_reports_each_failure() {
    assert!(extract_zip(Platform::Other, ExtractorRun::Finished { success: true, stderr: String::new() }).is_ok());
    assert_eq!(
        extract_zip(Platform::Other, ExtractorRun::Finished { success: false, stderr: "  bad zip \n".to_string() })
            .unwrap_err(),
        "Failed to extract zip: bad zip"
    );
    assert_eq!(
        extract_zip(Platform::Other, ExtractorRun::NotStarted { not_found: true, reason: "x".to_string() })
            .unwrap_err(),
        "unzip is not installed. Install it (e.g. sudo apt install unzip) and try again."
    );
    assert_eq!(
        extract_zip(Platform::MacOs, ExtractorRun::NotStarted { not_found: false, reason: "denied".to_string() })
            .unwrap_err(),
        "Failed to run unzip: denied"
    );
    assert_eq!(
        extract_zip(Platform::Windows, ExtractorRun::NotStarted { not_found: true, reason: "gone".to_string() })
            .unwrap_err(),
        "Failed to run PowerShell: gone"
    );
}

#[test]
fn user_agent_is_the_app_name() {
    assert_eq!(USER_AGENT, "ADBBar");
}
