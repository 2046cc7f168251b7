//! Tests of the argument translation pipeline.

use wslcmd::argtrans::{
    convert_arg_to_wsl_arg, escape_squotes, parse_args, unescape_backslashes, wrap_if_absolute,
    wslpath_substitution,
};

fn strings(v: &[&str]) -> Vec<String> {
    v.iter().map(|s| String::from(*s)).collect()
}

#[test]
fn test_translate_paths() {
    let args = strings(&["C:\\Users\\a", "rel\\path", "\\\\server\\s"]);
    let out = parse_args(&args, true);
    assert_eq!(
        out,
        strings(&["$(wslpath 'C:/Users/a')", "rel/path", "\\server/s"])
    );
}

#[test]
fn test_translate_verbatim() {
    let args = strings(&["C:\\Users\\a", "rel\\path", ""]);
    assert_eq!(parse_args(&args, false), args);
}

#[test]
fn test_second_pass_is_identity() {
    let args = strings(&["C:\\Users\\a", "rel\\path", "\\\\server\\s", "plain"]);
    let once = parse_args(&args, true);
    assert_eq!(parse_args(&once, false), once);
}

#[test]
fn test_backslash_runs() {
    // One backslash removed per run; a lone backslash becomes a slash.
    assert_eq!(unescape_backslashes("\\"), "/");
    assert_eq!(unescape_backslashes("\\\\"), "\\");
    assert_eq!(unescape_backslashes("\\\\\\"), "\\\\");
    assert_eq!(unescape_backslashes("\\\\\\\\"), "\\\\\\");
    assert_eq!(unescape_backslashes("\\\\\\\\\\"), "\\\\\\\\");
}

#[test]
fn test_backslash_mixed() {
    assert_eq!(unescape_backslashes("a\\b"), "a/b");
    assert_eq!(unescape_backslashes("a\\\\b\\c"), "a\\b/c");
    assert_eq!(unescape_backslashes("tail\\"), "tail/");
    assert_eq!(unescape_backslashes("tail\\\\"), "tail\\");
    assert_eq!(unescape_backslashes("no slash"), "no slash");
    assert_eq!(unescape_backslashes(""), "");
}

#[test]
fn test_quote_escaping() {
    assert_eq!(escape_squotes("it's"), "it'\\''s");
    assert_eq!(
        wslpath_substitution("C:/it's"),
        "$(wslpath 'C:/it'\\''s')"
    );
    assert_eq!(
        convert_arg_to_wsl_arg("C:\\it's"),
        "$(wslpath 'C:/it'\\''s')"
    );
}

#[test]
fn test_wrap_only_drive_absolute() {
    assert_eq!(
        wrap_if_absolute("C:/Users"),
        Some(String::from("$(wslpath 'C:/Users')"))
    );
    assert_eq!(
        wrap_if_absolute("c:\\temp"),
        Some(String::from("$(wslpath 'c:\\temp')"))
    );
    assert_eq!(wrap_if_absolute("C:"), None);
    assert_eq!(wrap_if_absolute("C:file"), None);
    assert_eq!(wrap_if_absolute("/etc/passwd"), None);
    assert_eq!(wrap_if_absolute("rel/path"), None);
    assert_eq!(wrap_if_absolute("1:/x"), None);
}
