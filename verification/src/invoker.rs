//! Construction of the `wsl` child invocation and its exit-status mapping.
//!
//! A [`WslCmd`] gathers the command, arguments, optional user and
//! distribution, extra environment files and the detached flag, and
//! synthesizes the child command line
//! `wsl [-u <user>] [-d <dist>] -- <env-prelude> <command> <args...>`.
//! Running the child is the surrounding program's task; it reports what it
//! observed and the mapping here turns that into the exit status callers see.

use vstd::prelude::*;
use vstd::string::StringExecFns;
use crate::argtrans::{parse_args, strs_view, translate_spec};
use crate::namecodec::{parse_cmd, parse_cmd_spec};

verus! {

/// A WSL command line under construction.
#[derive(Debug)]
pub struct WslCmd {
    /// WSL command name.
    command: String,
    /// WSL command arguments.
    args: Vec<String>,
    /// WSL username to execute the command as.
    username: Option<String>,
    /// WSL distribution to execute the command in.
    distribution: Option<String>,
    /// Environment files to source before the command runs.
    envfiles: Vec<String>,
    /// Whether to run as a detached background process.
    is_detached_proc: bool,
}

#[verifier::ext_equal]
pub ghost struct WslCmdV {
    pub command: Seq<char>,
    pub args: Seq<Seq<char>>,
    pub username: Option<Seq<char>>,
    pub distribution: Option<Seq<char>>,
    pub envfiles: Seq<Seq<char>>,
    pub is_detached_proc: bool,
}

impl View for WslCmd {
    type V = WslCmdV;

    closed spec fn view(&self) -> WslCmdV {
        WslCmdV {
            command: self.command@,
            args: strs_view(self.args@),
            username: match self.username {
                Some(u) => Some(u@),
                None => None,
            },
            distribution: match self.distribution {
                Some(d) => Some(d@),
                None => None,
            },
            envfiles: strs_view(self.envfiles@),
            is_detached_proc: self.is_detached_proc,
        }
    }
}

impl WslCmd {
    /// Create a command from an invocation name: the name's stem, with a
    /// detached prefix stripped and recorded.  `None` exactly when the name
    /// parses to an empty command.
    pub fn new(cmdname: &str) -> (r: Option<WslCmd>)
        ensures
            match r {
                Some(w) => parse_cmd_spec(cmdname@) == Some((w@.command, w@.is_detached_proc))
                    && w@.args.len() == 0 && w@.username is None && w@.distribution is None
                    && w@.envfiles.len() == 0,
                None => parse_cmd_spec(cmdname@) is None,
            },
    {
        match parse_cmd(cmdname) {
            Some((command, is_detached_proc)) => Some(
                WslCmd {
                    command,
                    is_detached_proc,
                    args: Vec::new(),
                    username: None,
                    distribution: None,
                    envfiles: Vec::new(),
                },
            ),
            None => None,
        }
    }

    /// Set the arguments, translating them per the argument pipeline when
    /// `convert_pathargs` is set.
    pub fn args(self, args: &Vec<String>, convert_pathargs: bool) -> (r: WslCmd)
        ensures
            r@ == (WslCmdV { args: translate_spec(strs_view(args@), convert_pathargs), ..self@ }),
    {
        let mut s = self;
        s.args = parse_args(args, convert_pathargs);
        proof {
            assert(s@ =~= (WslCmdV {
                args: translate_spec(strs_view(args@), convert_pathargs),
                ..self@
            }));
        }
        s
    }

    /// Set the WSL user to execute the command as.
    pub fn user(self, username: Option<&str>) -> (r: WslCmd)
        ensures
            r@ == (WslCmdV {
                username: match username {
                    Some(u) => Some(u@),
                    None => None,
                },
                ..self@
            }),
    {
        let mut s = self;
        s.username = match username {
            Some(u) => Some(String::from_str(u)),
            None => None,
        };
        proof {
            assert(s@ =~= (WslCmdV {
                username: match username {
                    Some(u) => Some(u@),
                    None => None,
                },
                ..self@
            }));
        }
        s
    }

    /// Set the WSL distribution to execute the command in.
    pub fn dist(self, distribution: Option<&str>) -> (r: WslCmd)
        ensures
            r@ == (WslCmdV {
                distribution: match distribution {
                    Some(d) => Some(d@),
                    None => None,
                },
                ..self@
            }),
    {
        let mut s = self;
        s.distribution = match distribution {
            Some(d) => Some(String::from_str(d)),
            None => None,
        };
        proof {
            assert(s@ =~= (WslCmdV {
                distribution: match distribution {
                    Some(d) => Some(d@),
                    None => None,
                },
                ..self@
            }));
        }
        s
    }

    /// Set the environment files to source before the command runs.
    pub fn envfiles(self, file_list: &Vec<String>) -> (r: WslCmd)
        ensures
            r@ == (WslCmdV { envfiles: strs_view(file_list@), ..self@ }),
    {
        let mut s = self;
        let mut files: Vec<String> = Vec::new();
        let mut i: usize = 0;
        while i < file_list.len()
            invariant
                i <= file_list@.len(),
                files@.len() == i,
                forall|k: int| 0 <= k < i ==> files@[k]@ == file_list@[k]@,
            decreases file_list@.len() - i,
        {
            files.push(file_list[i].clone());
            i = i + 1;
        }
        s.envfiles = files;
        proof {
            assert(strs_view(s.envfiles@) =~= strs_view(file_list@));
            assert(s@ =~= (WslCmdV { envfiles: strs_view(file_list@), ..self@ }));
        }
        s
    }

    /// The command name.
    pub fn get_command(&self) -> (r: &String)
        ensures
            r@ == self@.command,
    {
        &self.command
    }

    /// The translated arguments.
    pub fn get_args(&self) -> (r: &Vec<String>)
        ensures
            strs_view(r@) == self@.args,
    {
        &self.args
    }

    /// The WSL user, if set.
    pub fn get_user(&self) -> (r: &Option<String>)
        ensures
            (match r {
                Some(u) => self@.username == Some(u@),
                None => self@.username is None,
            }),
    {
        &self.username
    }

    /// The WSL distribution, if set.
    pub fn get_dist(&self) -> (r: &Option<String>)
        ensures
            (match r {
                Some(d) => self@.distribution == Some(d@),
                None => self@.distribution is None,
            }),
    {
        &self.distribution
    }

    /// The extra environment files.
    pub fn get_envfiles(&self) -> (r: &Vec<String>)
        ensures
            strs_view(r@) == self@.envfiles,
    {
        &self.envfiles
    }

    /// Whether the command runs detached.
    pub fn get_is_detached(&self) -> (r: bool)
        ensures
            r == self@.is_detached_proc,
    {
        self.is_detached_proc
    }

    /// Synthesize the full child command line, `wsl` first.
    pub fn build_cmdline(&self) -> (r: Vec<String>)
        ensures
            strs_view(r@) == cmdline_spec(self@),
    {
        let mut out: Vec<String> = Vec::new();
        out.push(String::from_str("wsl"));
        match &self.username {
            Some(u) => {
                out.push(String::from_str("-u"));
                out.push(u.clone());
            },
            None => {},
        }
        match &self.distribution {
            Some(d) => {
                out.push(String::from_str("-d"));
                out.push(d.clone());
            },
            None => {},
        }
        out.push(String::from_str("--"));
        proof {
            assert(strs_view(out@) =~= head_spec(self@));
        }
        push_envfile_clause(&mut out, "/etc/profile");
        push_envfile_clause(&mut out, "$HOME/.profile");
        proof {
            let b = builtin_envfiles();
            assert(b.skip(1) =~= seq!["$HOME/.profile"@]);
            assert(b.skip(1).skip(1) =~= Seq::<Seq<char>>::empty());
            assert(prelude_spec(b.skip(1).skip(1)) == Seq::<Seq<char>>::empty());
            assert(prelude_spec(b.skip(1)) == envfile_clause(b.skip(1)[0]) + prelude_spec(
                b.skip(1).skip(1),
            ));
            assert(prelude_spec(b) == envfile_clause(b[0]) + prelude_spec(b.skip(1)));
            assert(b + strs_view(self.envfiles@).take(0) =~= b);
            assert(strs_view(out@) =~= head_spec(self@) + prelude_spec(
                b + strs_view(self.envfiles@).take(0),
            ));
        }
        let mut i: usize = 0;
        while i < self.envfiles.len()
            invariant
                i <= self.envfiles@.len(),
                strs_view(out@) == head_spec(self@) + prelude_spec(
                    builtin_envfiles() + strs_view(self.envfiles@).take(i as int),
                ),
            decreases self.envfiles@.len() - i,
        {
            push_envfile_clause(&mut out, self.envfiles[i].as_str());
            proof {
                let b = builtin_envfiles();
                let pre = b + strs_view(self.envfiles@).take(i as int);
                let e = strs_view(self.envfiles@)[i as int];
                assert(b + strs_view(self.envfiles@).take(i as int + 1) =~= pre + seq![e]);
                lemma_prelude_append(pre, seq![e]);
                assert(seq![e].skip(1) =~= Seq::<Seq<char>>::empty());
                assert(prelude_spec(seq![e].skip(1)) == Seq::<Seq<char>>::empty());
                assert(prelude_spec(seq![e]) == envfile_clause(e) + prelude_spec(seq![e].skip(1)));
                assert(prelude_spec(seq![e]) =~= envfile_clause(e));
                assert(strs_view(out@) =~= head_spec(self@) + prelude_spec(
                    b + strs_view(self.envfiles@).take(i as int + 1),
                ));
            }
            i = i + 1;
        }
        proof {
            assert(strs_view(self.envfiles@).take(i as int) =~= strs_view(self.envfiles@));
        }
        out.push(self.command.clone());
        let ghost mid = head_spec(self@) + prelude_spec(builtin_envfiles() + self@.envfiles)
            + seq![self@.command];
        proof {
            assert(strs_view(out@) =~= mid + strs_view(self.args@).take(0));
        }
        let mut j: usize = 0;
        while j < self.args.len()
            invariant
                j <= self.args@.len(),
                strs_view(out@) == mid + strs_view(self.args@).take(j as int),
            decreases self.args@.len() - j,
        {
            let ghost pre = strs_view(out@);
            out.push(self.args[j].clone());
            proof {
                assert(strs_view(out@) =~= pre.push(self.args@[j as int]@));
                assert(strs_view(self.args@).take(j as int + 1) =~= strs_view(
                    self.args@,
                ).take(j as int).push(self.args@[j as int]@));
                assert(strs_view(out@) =~= mid + strs_view(self.args@).take(j as int + 1));
            }
            j = j + 1;
        }
        proof {
            assert(strs_view(self.args@).take(j as int) =~= strs_view(self.args@));
            assert(strs_view(out@) =~= cmdline_spec(self@));
        }
        out
    }
}

/// The built-in environment files, sourced before any configured ones.
pub open spec fn builtin_envfiles() -> Seq<Seq<char>> {
    seq!["/etc/profile"@, "$HOME/.profile"@]
}

/// The conditional source clause for one environment file.
pub open spec fn envfile_clause(f: Seq<char>) -> Seq<Seq<char>> {
    seq!["if"@, "test"@, "-r"@, f, ";"@, "then"@, "."@, f, ";"@, "fi;"@]
}

/// The clauses for a list of environment files, in order.
pub open spec fn prelude_spec(fs: Seq<Seq<char>>) -> Seq<Seq<char>>
    decreases fs.len(),
{
    if fs.len() == 0 {
        Seq::<Seq<char>>::empty()
    } else {
        envfile_clause(fs[0]) + prelude_spec(fs.skip(1))
    }
}

pub proof fn lemma_prelude_append(a: Seq<Seq<char>>, b: Seq<Seq<char>>)
    ensures
        prelude_spec(a + b) == prelude_spec(a) + prelude_spec(b),
    decreases a.len(),
{
    if a.len() == 0 {
        assert(a + b =~= b);
        assert(prelude_spec(a) + prelude_spec(b) =~= prelude_spec(b));
    } else {
        assert((a + b).skip(1) =~= a.skip(1) + b);
        lemma_prelude_append(a.skip(1), b);
        assert((a + b)[0] == a[0]);
        assert(prelude_spec(a + b) =~= prelude_spec(a) + prelude_spec(b));
    }
}

/// An optional `flag value` pair.
pub open spec fn opt_flag(flag: Seq<char>, v: Option<Seq<char>>) -> Seq<Seq<char>> {
    match v {
        Some(x) => seq![flag, x],
        None => Seq::<Seq<char>>::empty(),
    }
}

/// The part of the child command line before the environment prelude.
pub open spec fn head_spec(w: WslCmdV) -> Seq<Seq<char>> {
    seq!["wsl"@] + opt_flag("-u"@, w.username) + opt_flag("-d"@, w.distribution) + seq!["--"@]
}

/// The full child command line for a command.
pub open spec fn cmdline_spec(w: WslCmdV) -> Seq<Seq<char>> {
    head_spec(w) + prelude_spec(builtin_envfiles() + w.envfiles) + seq![w.command] + w.args
}

/// Append the source clause for one environment file to an argument vector.
fn push_envfile_clause(out: &mut Vec<String>, f: &str)
    ensures
        strs_view(final(out)@) == strs_view(old(out)@) + envfile_clause(f@),
{
    out.push(String::from_str("if"));
    out.push(String::from_str("test"));
    out.push(String::from_str("-r"));
    out.push(String::from_str(f));
    out.push(String::from_str(";"));
    out.push(String::from_str("then"));
    out.push(String::from_str("."));
    out.push(String::from_str(f));
    out.push(String::from_str(";"));
    out.push(String::from_str("fi;"));
    proof {
        assert(strs_view(out@) =~= strs_view(old(out)@) + envfile_clause(f@));
    }
}

/// Exit status and captured output of an executed WSL command line.
#[derive(Debug)]
pub struct WslCmdExitStatus {
    /// Exit code; absent when the child was ended by a signal.
    pub code: Option<i32>,
    /// Captured stdout, when the piped mode was used and it was non-empty.
    pub stdout: Option<Vec<u8>>,
    /// Captured stderr, when the piped mode was used and it was non-empty.
    pub stderr: Option<Vec<u8>>,
}

pub type WslCmdResult = Result<WslCmdExitStatus, WslCmdExitStatus>;

/// Bytes wrapped as captured output: absent when empty.
pub open spec fn wrapped_bytes(s: Seq<u8>) -> Option<Seq<u8>> {
    if s.len() == 0 {
        None
    } else {
        Some(s)
    }
}

pub open spec fn opt_bytes_view(o: Option<Vec<u8>>) -> Option<Seq<u8>> {
    match o {
        Some(v) => Some(v@),
        None => None,
    }
}

impl WslCmdExitStatus {
    /// The status of a child that exited: success exactly on exit code zero,
    /// with empty captured streams reported as absent.
    pub fn new(code: Option<i32>, stdout: Vec<u8>, stderr: Vec<u8>) -> (r: WslCmdResult)
        ensures
            r is Ok <==> code == Some(0i32),
            ({
                let e = if r is Ok {
                    r->Ok_0
                } else {
                    r->Err_0
                };
                e.code == code && opt_bytes_view(e.stdout) == wrapped_bytes(stdout@)
                    && opt_bytes_view(e.stderr) == wrapped_bytes(stderr@)
            }),
    {
        let success = match code {
            Some(c) => c == 0,
            None => false,
        };
        let ret = WslCmdExitStatus {
            code,
            stdout: Self::vec_wrap(stdout),
            stderr: Self::vec_wrap(stderr),
        };
        if success {
            Ok(ret)
        } else {
            Err(ret)
        }
    }

    /// The default success status: code zero, no captured output.
    pub fn ok() -> (r: WslCmdResult)
        ensures
            r is Ok,
            r->Ok_0.code == Some(0i32),
            r->Ok_0.stdout is None,
            r->Ok_0.stderr is None,
    {
        Ok(WslCmdExitStatus { code: Some(0), stdout: None, stderr: None })
    }

    /// The default failure status: code zero marks a failure before the
    /// child ran; no captured output.
    pub fn err() -> (r: WslCmdResult)
        ensures
            r is Err,
            r->Err_0.code == Some(0i32),
            r->Err_0.stdout is None,
            r->Err_0.stderr is None,
    {
        Err(WslCmdExitStatus { code: Some(0), stdout: None, stderr: None })
    }

    /// A captured stream: absent when empty.
    fn vec_wrap(v: Vec<u8>) -> (r: Option<Vec<u8>>)
        ensures
            opt_bytes_view(r) == wrapped_bytes(v@),
    {
        if v.len() == 0 {
            None
        } else {
            Some(v)
        }
    }
}

/// What the surrounding program observed of a non-detached child run.
pub enum ChildOutcome {
    /// The child could not be started.
    SpawnFailed,
    /// The supplied stdin bytes could not be written to the child.
    StdinWriteFailed,
    /// The child started but its exit status could not be collected.
    WaitFailed,
    /// The child ran to an exit status, with whatever the piped streams
    /// captured (empty when the streams were inherited).
    Exited { code: Option<i32>, stdout: Vec<u8>, stderr: Vec<u8> },
}

/// Map what was observed of a non-detached child run to the exit status
/// callers see: failures before or around the child report failure with code
/// zero and no output; an exited child reports its own code, succeeding
/// exactly on code zero.  A detached run reports `WslCmdExitStatus::ok` as
/// soon as the spawn succeeds, without waiting.
pub fn conclude_run(outcome: ChildOutcome) -> (r: WslCmdResult)
    ensures
        !(outcome matches ChildOutcome::Exited { .. }) ==> (r is Err && r->Err_0.code == Some(0i32)
            && r->Err_0.stdout is None && r->Err_0.stderr is None),
        (outcome matches ChildOutcome::Exited { code, stdout, stderr } ==> ((r is Ok <==> code
            == Some(0i32)) && ({
            let e = if r is Ok {
                r->Ok_0
            } else {
                r->Err_0
            };
            e.code == code && opt_bytes_view(e.stdout) == wrapped_bytes(stdout@)
                && opt_bytes_view(e.stderr) == wrapped_bytes(stderr@)
        }))),
{
    match outcome {
        ChildOutcome::SpawnFailed => WslCmdExitStatus::err(),
        ChildOutcome::StdinWriteFailed => WslCmdExitStatus::err(),
        ChildOutcome::WaitFailed => WslCmdExitStatus::err(),
        ChildOutcome::Exited { code, stdout, stderr } => WslCmdExitStatus::new(
            code,
            stdout,
            stderr,
        ),
    }
}

} // verus!
