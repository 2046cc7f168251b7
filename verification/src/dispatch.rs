//! Mode dispatch and the management frontend's decisions.
//!
//! At startup the launcher compares the stem of its resolved image with the
//! stem of the name it was invoked under: a match means management mode, a
//! difference means execution mode.  In management mode the first operand
//! picks a verb by prefix against the alias families `add`/`new`,
//! `del`/`rm` and `list`/`ls`.

use vstd::prelude::*;
use vstd::string::StrSliceExecFns;
use crate::invoker::WslCmdResult;
use crate::pathview::{chars_of, file_stem_of, fstem_spec};

verus! {

/// Whether the process runs as an execution shim: the invocation name's stem
/// differs from the resolved running image's stem.
pub open spec fn is_exemode_spec(resolved_exe: Seq<char>, cmdname: Seq<char>) -> bool {
    fstem_spec(resolved_exe) != fstem_spec(cmdname)
}

/// Decide the mode from the resolved running image and the invocation name.
pub fn is_exemode(resolved_exe: &str, cmdname: &str) -> (r: bool)
    ensures
        r == is_exemode_spec(resolved_exe@, cmdname@),
{
    let a = file_stem_of(resolved_exe);
    let b = file_stem_of(cmdname);
    match (a, b) {
        (Some(x), Some(y)) => !crate::pathview::str_eq(&x, &y),
        (None, None) => false,
        _ => true,
    }
}

/// The management verbs.
#[derive(Debug, PartialEq, Eq, Structural, Clone, Copy)]
pub enum MgmtVerb {
    /// Link new commands.
    Link,
    /// Unlink existing commands.
    Unlink,
    /// List linked commands.
    List,
    /// No verb family matched: print help and fail.
    Unknown,
}

/// Whether `p` is a prefix of `s`.
pub open spec fn is_prefix_spec(p: Seq<char>, s: Seq<char>) -> bool {
    p.len() <= s.len() && s.take(p.len() as int) == p
}

/// Whether `op` is a prefix of `alias`.
pub fn str_is_prefix(op: &str, alias: &str) -> (r: bool)
    ensures
        r == is_prefix_spec(op@, alias@),
{
    let p = chars_of(op);
    let s = chars_of(alias);
    if p.len() > s.len() {
        proof {
            assert(!is_prefix_spec(op@, alias@));
        }
        return false;
    }
    let mut i: usize = 0;
    while i < p.len()
        invariant
            p@ == op@,
            s@ == alias@,
            i <= p@.len() <= s@.len(),
            forall|k: int| 0 <= k < i ==> p@[k] == s@[k],
        decreases p@.len() - i,
    {
        if p[i] != s[i] {
            proof {
                assert(alias@.take(op@.len() as int)[i as int] != op@[i as int]);
            }
            return false;
        }
        i = i + 1;
    }
    proof {
        assert(alias@.take(op@.len() as int) =~= op@);
    }
    true
}

/// Which verb an operation word picks: matched by prefix against the alias
/// families, where `add`/`new` and `del`/`rm` need at least one operand and
/// `list`/`ls` takes none.  An empty word matches nothing.
pub open spec fn verb_spec(op: Seq<char>, has_operands: bool) -> MgmtVerb {
    if op.len() == 0 {
        MgmtVerb::Unknown
    } else if has_operands && (is_prefix_spec(op, "add"@) || is_prefix_spec(op, "new"@)) {
        MgmtVerb::Link
    } else if has_operands && (is_prefix_spec(op, "del"@) || is_prefix_spec(op, "rm"@)) {
        MgmtVerb::Unlink
    } else if !has_operands && (is_prefix_spec(op, "list"@) || is_prefix_spec(op, "ls"@)) {
        MgmtVerb::List
    } else {
        MgmtVerb::Unknown
    }
}

/// Pick the management verb for an operation word.
pub fn management_verb(op: &str, has_operands: bool) -> (r: MgmtVerb)
    ensures
        r == verb_spec(op@, has_operands),
{
    if op.unicode_len() == 0 {
        MgmtVerb::Unknown
    } else if has_operands && (str_is_prefix(op, "add") || str_is_prefix(op, "new")) {
        MgmtVerb::Link
    } else if has_operands && (str_is_prefix(op, "del") || str_is_prefix(op, "rm")) {
        MgmtVerb::Unlink
    } else if !has_operands && (str_is_prefix(op, "list") || str_is_prefix(op, "ls")) {
        MgmtVerb::List
    } else {
        MgmtVerb::Unknown
    }
}

/// The process exit code the execution shim mirrors: zero on success, the
/// child's exit code when it is known and non-zero, and the internal-error
/// code when the failure happened before or around the child (code zero) or
/// the child was ended by a signal (no code).
pub fn exec_exit_code(r: &WslCmdResult) -> (c: i32)
    ensures
        r is Ok ==> c == 0,
        r is Err ==> c == (match r->Err_0.code {
            Some(x) => if x != 0 {
                x
            } else {
                -1i32
            },
            None => -1i32,
        }),
{
    match r {
        Ok(_) => 0,
        Err(e) => match e.code {
            Some(x) => if x != 0 {
                x
            } else {
                -1
            },
            None => -1,
        },
    }
}

} // verus!
