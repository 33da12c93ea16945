use adbbar::adb::open_shell_script;
use adbbar::download::ps_quote;
use adbbar::quote::{applescript_string_literal, shell_quote};

#[test]
fn shell_quote_wraps_and_escapes_quotes() {
    assert_eq!(shell_quote("plain"), "'plain'");
    assert_eq!(shell_quote("it's"), "'it'\\''s'");
    assert_eq!(shell_quote(""), "''");
}

#[test]
fn applescript_literal_escapes_backslash_and_quote() {
    assert_eq!(applescript_string_literal("a\"b\\c"), "\"a\\\"b\\\\c\"");
    assert_eq!(applescript_string_literal("x"), "\"x\"");
}

#[test]
fn shell_quote_round_trips_through_a_shell_reader() {
    // Reads a single-quoted shell word the way a POSIX shell does.
    fn read_word(w: &str) -> String {
        let mut out = String::new();
        let mut quoted = false;
        let mut chars = w.chars();
        while let Some(c) = chars.next() {
            if quoted {
                if c == '\'' {
                    quoted = false;
                } else {
                    out.push(c);
                }
            } else if c == '\'' {
                quoted = true;
            } else if c == '\\' {
                out.push(chars.next().unwrap());
            } else {
                out.push(c);
            }
        }
        out
    }
    for v in ["", "a", "it's", "''", "a'b'c", "\\'\""] {
        assert_eq!(read_word(&shell_quote(v)), v);
    }
}

#[test]
fn open_shell_script_quotes_both_layers() {
    assert_eq!(
        open_shell_script("/usr/bin/adb", "a:1"),
        "tell application \"Terminal\"\nactivate\ndo script \"'/usr/bin/adb' -s 'a:1' shell\"\nend tell"
    );
    assert_eq!(
        open_shell_script("/my \"adb\"", "x"),
        "tell application \"Terminal\"\nactivate\ndo script \"'/my \\\"adb\\\"' -s 'x' shell\"\nend tell"
    );
}

#[test]
fn ps_and_applescript_literals_read_back() {
    // PowerShell: inside single quotes, '' stands for one quote.
    fn read_ps(lit: &str) -> String {
        lit[1..lit.len() - 1].replace("''", "'")
    }
    // AppleScript: inside double quotes, a backslash escapes the next character.
    fn read_apple(lit: &str) -> String {
        let mut out = String::new();
        let mut chars = lit[1..lit.len() - 1].chars();
        while let Some(c) = chars.next() {
            if c == '\\' {
                out.push(chars.next().unwrap());
            } else {
                out.push(c);
            }
        }
        out
    }
    for v in ["", "plain", "it's", "''", "a\"b\\c", "\\\""] {
        assert_eq!(read_ps(&ps_quote(v)), v);
        assert_eq!(read_apple(&applescript_string_literal(v)), v);
    }
}
