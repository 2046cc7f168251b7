//! Tests of mode dispatch, verb matching and exit-code mirroring.

use wslcmd::dispatch::{exec_exit_code, is_exemode, management_verb, MgmtVerb};
use wslcmd::invoker::{conclude_run, ChildOutcome, WslCmdExitStatus};
use wslcmd::pathview::{
    extension_of, file_name_of, file_stem_of, is_drive_absolute, parent_of,
};

#[test]
fn test_is_exemode() {
    // Invoked under its own name: management mode.
    assert!(!is_exemode("C:/bin/wslcmd.exe", "C:/bin/wslcmd.exe"));
    assert!(!is_exemode("C:/bin/wslcmd.exe", "wslcmd.exe"));
    assert!(!is_exemode("C:/bin/wslcmd.exe", "C:/elsewhere/wslcmd.exe"));
    // Invoked through a link with another name: execution mode.
    assert!(is_exemode("C:/bin/wslcmd.exe", "emacs.exe"));
    assert!(is_exemode("C:/bin/wslcmd.exe", "C:/bin/.emacs!bob.exe"));
}

#[test]
fn test_management_verbs() {
    assert_eq!(management_verb("add", true), MgmtVerb::Link);
    assert_eq!(management_verb("a", true), MgmtVerb::Link);
    assert_eq!(management_verb("new", true), MgmtVerb::Link);
    assert_eq!(management_verb("n", true), MgmtVerb::Link);
    assert_eq!(management_verb("del", true), MgmtVerb::Unlink);
    assert_eq!(management_verb("d", true), MgmtVerb::Unlink);
    assert_eq!(management_verb("rm", true), MgmtVerb::Unlink);
    assert_eq!(management_verb("r", true), MgmtVerb::Unlink);
    assert_eq!(management_verb("list", false), MgmtVerb::List);
    assert_eq!(management_verb("ls", false), MgmtVerb::List);
    assert_eq!(management_verb("l", false), MgmtVerb::List);
    // The add and remove families need operands; list takes none.
    assert_eq!(management_verb("add", false), MgmtVerb::Unknown);
    assert_eq!(management_verb("list", true), MgmtVerb::Unknown);
    // Prefix matching never stretches past an alias.
    assert_eq!(management_verb("adds", true), MgmtVerb::Unknown);
    assert_eq!(management_verb("x", true), MgmtVerb::Unknown);
    assert_eq!(management_verb("", true), MgmtVerb::Unknown);
}

#[test]
fn test_exec_exit_code() {
    assert_eq!(exec_exit_code(&WslCmdExitStatus::ok()), 0);
    // A failure before the child ran carries code zero and exits with the
    // internal-error code.
    assert_eq!(exec_exit_code(&WslCmdExitStatus::err()), -1);
    let failed = conclude_run(ChildOutcome::Exited {
        code: Some(5),
        stdout: Vec::new(),
        stderr: Vec::new(),
    });
    assert_eq!(exec_exit_code(&failed), 5);
    let signalled = conclude_run(ChildOutcome::Exited {
        code: None,
        stdout: Vec::new(),
        stderr: Vec::new(),
    });
    assert_eq!(exec_exit_code(&signalled), -1);
}

#[test]
fn test_path_helpers() {
    assert_eq!(file_name_of("C:/bin/wslcmd.exe"), Some(String::from("wslcmd.exe")));
    assert_eq!(file_name_of("C:\\bin\\wslcmd.exe"), Some(String::from("wslcmd.exe")));
    assert_eq!(file_name_of("wslcmd.exe"), Some(String::from("wslcmd.exe")));
    assert_eq!(file_name_of("C:/bin/"), None);
    assert_eq!(file_name_of(""), None);

    assert_eq!(file_stem_of("a.tar.gz"), Some(String::from("a.tar")));
    assert_eq!(file_stem_of(".profile"), Some(String::from(".profile")));
    assert_eq!(file_stem_of("C:/bin/emacs.exe"), Some(String::from("emacs")));
    assert_eq!(file_stem_of("noext"), Some(String::from("noext")));

    assert_eq!(extension_of("emacs.exe"), Some(String::from("exe")));
    assert_eq!(extension_of(".profile"), None);
    assert_eq!(extension_of("noext"), None);

    assert_eq!(parent_of("C:/bin/wslcmd.exe"), Some(String::from("C:/bin")));
    assert_eq!(parent_of("wslcmd.exe"), Some(String::from("")));
    assert_eq!(parent_of(""), None);

    assert!(is_drive_absolute("C:/Users"));
    assert!(is_drive_absolute("c:\\temp"));
    assert!(!is_drive_absolute("C:Users"));
    assert!(!is_drive_absolute("/etc"));
    assert!(!is_drive_absolute("\\server/s"));
}
