//! Tests of WslCmd construction, child command-line synthesis and the
//! exit-status mapping.

use wslcmd::invoker::{conclude_run, ChildOutcome, WslCmd, WslCmdExitStatus};

fn run_child(cmd: &WslCmd, code: Option<i32>) -> Result<WslCmdExitStatus, WslCmdExitStatus> {
    // The library's share of an execution: synthesize the command line, then
    // map what the runner observed of the child.  The runner itself (spawn,
    // stdio, wait) lives outside the library.
    let cmdline = cmd.build_cmdline();
    assert_eq!(cmdline[0], "wsl");
    if cmd.get_is_detached() {
        // A detached run reports success as soon as the spawn works.
        WslCmdExitStatus::ok()
    } else {
        conclude_run(ChildOutcome::Exited {
            code,
            stdout: Vec::new(),
            stderr: Vec::new(),
        })
    }
}

#[test]
fn wslcmd_test_execute_true() {
    let w = WslCmd::new("true").expect("New WslCmd");
    // `true` exits with status 0.
    run_child(&w, Some(0)).expect("Execute WslCmd - true");
}

#[test]
fn wslcmd_test_execute_false() {
    let w = WslCmd::new("false").expect("New WslCmd");
    // `false` exits with status 1.
    run_child(&w, Some(1)).expect_err("Execute WslCmd - false");
}

#[test]
fn wslcmd_test_execute_false_detached() {
    let w = WslCmd::new(format!("{}false", '.').as_str()).expect("New WslCmd");
    assert!(w.get_is_detached());
    run_child(&w, Some(1)).expect("Execute WslCmd - false (detached)");
}

#[test]
fn test_new_parses_invocation_name() {
    let w = WslCmd::new("emacs.exe").expect("New WslCmd");
    assert_eq!(w.get_command(), "emacs");
    assert!(!w.get_is_detached());
    assert_eq!(w.get_user(), &None);
    assert_eq!(w.get_dist(), &None);
    assert!(w.get_args().is_empty());
    assert!(w.get_envfiles().is_empty());

    let d = WslCmd::new(".emacs.exe").expect("New WslCmd");
    assert_eq!(d.get_command(), "emacs");
    assert!(d.get_is_detached());

    assert!(WslCmd::new("").is_none());
    assert!(WslCmd::new(".").is_none());
    // A name of only the extension has the whole name as its stem, so it
    // parses as the detached form of that word.
    let odd = WslCmd::new(".exe").expect("New WslCmd");
    assert_eq!(odd.get_command(), "exe");
    assert!(odd.get_is_detached());
}

#[test]
fn test_builders() {
    let w = WslCmd::new("ls")
        .expect("New WslCmd")
        .args(&vec![String::from("rel\\path")], true)
        .user(Some("bob"))
        .dist(Some("ubuntu"))
        .envfiles(&vec![String::from("/tmp/envfile")]);
    assert_eq!(w.get_args(), &vec![String::from("rel/path")]);
    assert_eq!(w.get_user(), &Some(String::from("bob")));
    assert_eq!(w.get_dist(), &Some(String::from("ubuntu")));
    assert_eq!(w.get_envfiles(), &vec![String::from("/tmp/envfile")]);
}

#[test]
fn test_cmdline_user_args() {
    // Child-command-line synthesis for command "ls", args ["-l"], user
    // "bob", no distribution, no extra envfiles.
    let w = WslCmd::new("ls")
        .expect("New WslCmd")
        .args(&vec![String::from("-l")], true)
        .user(Some("bob"));
    let joined = w.build_cmdline().join(" ");
    assert_eq!(
        joined,
        "wsl -u bob -- if test -r /etc/profile ; then . /etc/profile ; fi; \
         if test -r $HOME/.profile ; then . $HOME/.profile ; fi; ls -l"
    );
}

#[test]
fn test_cmdline_dist_and_envfiles() {
    let w = WslCmd::new("cat")
        .expect("New WslCmd")
        .dist(Some("debian"))
        .envfiles(&vec![String::from("$(wslpath 'C:/bin/profile')")]);
    let joined = w.build_cmdline().join(" ");
    assert_eq!(
        joined,
        "wsl -d debian -- if test -r /etc/profile ; then . /etc/profile ; fi; \
         if test -r $HOME/.profile ; then . $HOME/.profile ; fi; \
         if test -r $(wslpath 'C:/bin/profile') ; then . $(wslpath 'C:/bin/profile') ; fi; cat"
    );
}

#[test]
fn test_ok_and_err_defaults() {
    let ok = WslCmdExitStatus::ok().expect("default ok");
    assert_eq!(ok.code, Some(0));
    assert_eq!(ok.stdout, None);
    assert_eq!(ok.stderr, None);
    let err = WslCmdExitStatus::err().expect_err("default err");
    assert_eq!(err.code, Some(0));
    assert_eq!(err.stdout, None);
    assert_eq!(err.stderr, None);
}

#[test]
fn test_conclude_spawn_failed() {
    let e = conclude_run(ChildOutcome::SpawnFailed).expect_err("spawn failure is a failure");
    assert_eq!(e.code, Some(0));
    assert_eq!(e.stdout, None);
    assert_eq!(e.stderr, None);
}

#[test]
fn test_conclude_stdin_write_failed() {
    let e = conclude_run(ChildOutcome::StdinWriteFailed).expect_err("stdin failure is a failure");
    assert_eq!(e.code, Some(0));
    assert_eq!(e.stdout, None);
    assert_eq!(e.stderr, None);
}

#[test]
fn test_conclude_wait_failed() {
    let e = conclude_run(ChildOutcome::WaitFailed).expect_err("wait failure is a failure");
    assert_eq!(e.code, Some(0));
}

#[test]
fn test_conclude_exit_zero_captures_streams() {
    let s = conclude_run(ChildOutcome::Exited {
        code: Some(0),
        stdout: b"out".to_vec(),
        stderr: Vec::new(),
    })
    .expect("exit status zero is success");
    assert_eq!(s.code, Some(0));
    assert_eq!(s.stdout, Some(b"out".to_vec()));
    assert_eq!(s.stderr, None);
}

#[test]
fn test_conclude_exit_nonzero() {
    let e = conclude_run(ChildOutcome::Exited {
        code: Some(3),
        stdout: Vec::new(),
        stderr: b"boom".to_vec(),
    })
    .expect_err("non-zero exit status is a failure");
    assert_eq!(e.code, Some(3));
    assert_eq!(e.stdout, None);
    assert_eq!(e.stderr, Some(b"boom".to_vec()));
}

#[test]
fn test_conclude_signal() {
    let e = conclude_run(ChildOutcome::Exited {
        code: None,
        stdout: Vec::new(),
        stderr: Vec::new(),
    })
    .expect_err("a signalled child is a failure");
    assert_eq!(e.code, None);
}
