//! Tests of the command-entry filename grammar.

use wslcmd::namecodec::{
    decode, encode, is_detached, is_exe, parse_cmd, parse_cmd_fields, to_detached, with_ext,
};

#[test]
fn test_decode_plain() {
    let pn = decode("emacs.exe").expect("decode plain name");
    assert_eq!(pn.command, "emacs");
    assert_eq!(pn.user, None);
    assert_eq!(pn.dist, None);
    assert!(!pn.detached);
}

#[test]
fn test_decode_detached_user_dist() {
    let pn = decode(".emacs!bob!ubuntu.exe").expect("decode full name");
    assert_eq!(pn.command, "emacs");
    assert_eq!(pn.user, Some(String::from("bob")));
    assert_eq!(pn.dist, Some(String::from("ubuntu")));
    assert!(pn.detached);
}

#[test]
fn test_decode_user_only() {
    let pn = decode("emacs!bob.exe").expect("decode name with user");
    assert_eq!(pn.command, "emacs");
    assert_eq!(pn.user, Some(String::from("bob")));
    assert_eq!(pn.dist, None);
    assert!(!pn.detached);
}

#[test]
fn test_decode_empty_fields_are_absent() {
    let pn = decode("emacs!.exe").expect("trailing empty user");
    assert_eq!(pn.user, None);
    assert_eq!(pn.dist, None);

    let pn = decode("emacs!!ubuntu.exe").expect("empty user before dist");
    assert_eq!(pn.user, None);
    assert_eq!(pn.dist, Some(String::from("ubuntu")));
}

#[test]
fn test_decode_empty_command_fails() {
    assert!(decode("").is_none());
    assert!(decode("!bob.exe").is_none());
    assert!(decode(".!bob.exe").is_none());
}

#[test]
fn test_encode_and_round_trip() {
    assert_eq!(encode("emacs", None, None), "emacs.exe");
    assert_eq!(encode("emacs", Some("bob"), None), "emacs!bob.exe");
    let e = encode("emacs", Some("bob"), Some("ubuntu"));
    assert_eq!(e, "emacs!bob!ubuntu.exe");

    let pn = decode(e.as_str()).expect("decode of encode");
    assert_eq!(pn.command, "emacs");
    assert_eq!(pn.user, Some(String::from("bob")));
    assert_eq!(pn.dist, Some(String::from("ubuntu")));
    assert!(!pn.detached);

    let detached = to_detached(e.as_str());
    assert_eq!(detached, ".emacs!bob!ubuntu.exe");
    let pn = decode(detached.as_str()).expect("decode of detached encode");
    assert_eq!(pn.command, "emacs");
    assert_eq!(pn.user, Some(String::from("bob")));
    assert_eq!(pn.dist, Some(String::from("ubuntu")));
    assert!(pn.detached);
}

#[test]
fn test_with_ext_and_detached_names() {
    assert_eq!(with_ext("git"), "git.exe");
    assert_eq!(to_detached("git.exe"), ".git.exe");
    assert!(is_exe("git.exe"));
    assert!(is_exe("dir/thing.tar.exe"));
    assert!(!is_exe("git"));
    assert!(!is_exe("git.ex"));
    assert!(!is_exe(".exe"));
    assert!(is_detached(".git.exe"));
    assert!(!is_detached("git.exe"));
    assert!(is_detached("dir/.git.exe"));
}

#[test]
fn test_parse_cmd() {
    assert_eq!(
        parse_cmd("emacs.exe"),
        Some((String::from("emacs"), false))
    );
    assert_eq!(parse_cmd(".emacs.exe"), Some((String::from("emacs"), true)));
    assert_eq!(
        parse_cmd("C:/bin/.emacs.exe"),
        Some((String::from("emacs"), true))
    );
    assert_eq!(parse_cmd(""), None);
    assert_eq!(parse_cmd("."), None);
    // A name of only the extension keeps the whole name as its stem.
    assert_eq!(parse_cmd(".exe"), Some((String::from("exe"), true)));
}

#[test]
fn test_parse_cmd_fields() {
    // The raw field split leaves a detached prefix on the command field;
    // the command parser then strips it.
    let (cmd, user, dist) = parse_cmd_fields(".emacs!bob!ubuntu.exe").expect("fields");
    assert_eq!(cmd, ".emacs");
    assert_eq!(user, Some(String::from("bob")));
    assert_eq!(dist, Some(String::from("ubuntu")));
    let (stripped, detached) = parse_cmd(cmd.as_str()).expect("command");
    assert_eq!(stripped, "emacs");
    assert!(detached);

    assert_eq!(parse_cmd_fields("!bob.exe"), None);
}
