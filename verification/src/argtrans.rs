//! Translation of Windows-style arguments into WSL-shell arguments.
//!
//! With conversion enabled, each argument passes through two steps, in order:
//! backslash de-escape (a lone `\` becomes `/`; a run of two or more `\`
//! loses exactly one), then absolute-path wrapping (a drive-letter absolute
//! result is wrapped as `$(wslpath '...')` with single quotes escaped).  With
//! conversion disabled, arguments pass through verbatim.

use vstd::prelude::*;
use vstd::string::StringExecFns;
use crate::pathview::{chars_of, is_drive_absolute, is_drive_absolute_spec, string_of};

verus! {

/// Length of the run of backslashes at the head of `t`.
pub open spec fn bs_run(t: Seq<char>) -> nat
    decreases t.len(),
{
    if t.len() == 0 || t[0] != '\\' {
        0
    } else {
        1 + bs_run(t.skip(1))
    }
}

pub proof fn lemma_bs_run_le(t: Seq<char>)
    ensures
        bs_run(t) <= t.len(),
    decreases t.len(),
{
    if t.len() == 0 || t[0] != '\\' {
    } else {
        lemma_bs_run_le(t.skip(1));
    }
}

/// The backslash de-escape: a character other than `\` passes through; a
/// lone `\` becomes `/`; a run of two or more `\` loses exactly one.
pub open spec fn unesc(t: Seq<char>) -> Seq<char>
    decreases t.len(),
    via unesc_decreases
{
    if t.len() == 0 {
        Seq::<char>::empty()
    } else if t[0] != '\\' {
        seq![t[0]] + unesc(t.skip(1))
    } else {
        let r = bs_run(t) as int;
        (if r == 1 {
            seq!['/']
        } else {
            Seq::<char>::new((r - 1) as nat, |i: int| '\\')
        }) + unesc(t.skip(r))
    }
}

#[via_fn]
proof fn unesc_decreases(t: Seq<char>) {
    lemma_bs_run_le(t);
}

/// A head run of exactly `r` backslashes gives `bs_run` the value `r`.
pub proof fn lemma_bs_run_exact(t: Seq<char>, r: int)
    requires
        0 <= r <= t.len(),
        forall|k: int| 0 <= k < r ==> t[k] == '\\',
        r == t.len() || t[r] != '\\',
    ensures
        bs_run(t) == r,
    decreases r,
{
    if r == 0 {
    } else {
        assert(t[0] == '\\');
        lemma_bs_run_exact(t.skip(1), r - 1);
    }
}

/// Single-quote escaping for a shell word: each `'` becomes `'\''`.
pub open spec fn sq_esc(s: Seq<char>) -> Seq<char>
    decreases s.len(),
{
    if s.len() == 0 {
        Seq::<char>::empty()
    } else {
        (if s[0] == '\'' {
            seq!['\'', '\\', '\'', '\'']
        } else {
            seq![s[0]]
        }) + sq_esc(s.skip(1))
    }
}

/// The `wslpath` substitution around an escaped argument.
pub open spec fn wslpath_wrap(s: Seq<char>) -> Seq<char> {
    "$(wslpath '"@ + sq_esc(s) + "')"@
}

/// One argument's conversion: de-escape, then wrap when the result is a
/// drive-letter absolute path.
pub open spec fn convert_arg_spec(a: Seq<char>) -> Seq<char> {
    let u = unesc(a);
    if is_drive_absolute_spec(u) {
        wslpath_wrap(u)
    } else {
        u
    }
}

/// The whole vector's translation; verbatim when conversion is off.
pub open spec fn translate_spec(args: Seq<Seq<char>>, convert: bool) -> Seq<Seq<char>> {
    if convert {
        args.map_values(|a: Seq<char>| convert_arg_spec(a))
    } else {
        args
    }
}

/// The views of a vector of strings.
pub open spec fn strs_view(v: Seq<String>) -> Seq<Seq<char>> {
    v.map_values(|s: String| s@)
}

/// Apply the backslash de-escape to one argument.
pub fn unescape_backslashes(arg: &str) -> (r: String)
    ensures
        r@ == unesc(arg@),
{
    let v = chars_of(arg);
    let mut out: Vec<char> = Vec::new();
    let mut i: usize = 0;
    proof {
        assert(arg@.skip(0) =~= arg@);
    }
    while i < v.len()
        invariant
            v@ == arg@,
            i <= v@.len(),
            unesc(arg@) == out@ + unesc(arg@.skip(i as int)),
        decreases v@.len() - i,
    {
        let ghost t = arg@.skip(i as int);
        if v[i] != '\\' {
            out.push(v[i]);
            proof {
                assert(t.skip(1) =~= arg@.skip(i as int + 1));
                assert(unesc(t) == seq![t[0]] + unesc(t.skip(1)));
                assert(out@ + unesc(arg@.skip(i as int + 1)) =~= unesc(arg@));
            }
            i = i + 1;
        } else {
            let mut j: usize = i + 1;
            while j < v.len() && v[j] == '\\'
                invariant
                    v@ == arg@,
                    i < j <= v@.len(),
                    forall|k: int| i <= k < j ==> v@[k] == '\\',
                decreases v@.len() - j,
            {
                j = j + 1;
            }
            let run = j - i;
            proof {
                assert forall|k: int| 0 <= k < run implies t[k] == '\\' by {
                    assert(t[k] == arg@[i + k]);
                }
                assert(run == t.len() || t[run as int] != '\\');
                lemma_bs_run_exact(t, run as int);
                assert(t.skip(run as int) =~= arg@.skip(j as int));
            }
            if run == 1 {
                out.push('/');
                proof {
                    assert(unesc(t) == seq!['/'] + unesc(t.skip(1)));
                    assert(out@ + unesc(arg@.skip(j as int)) =~= unesc(arg@));
                }
            } else {
                let ghost out0 = out@;
                let mut k: usize = 0;
                while k < run - 1
                    invariant
                        k <= run - 1,
                        out@ == out0 + Seq::<char>::new(k as nat, |q: int| '\\'),
                    decreases run - 1 - k,
                {
                    out.push('\\');
                    proof {
                        assert(out0 + Seq::<char>::new((k + 1) as nat, |q: int| '\\') =~= (out0
                            + Seq::<char>::new(k as nat, |q: int| '\\')).push('\\'));
                    }
                    k = k + 1;
                }
                proof {
                    assert(unesc(t) == Seq::<char>::new((run - 1) as nat, |q: int| '\\') + unesc(
                        t.skip(run as int),
                    ));
                    assert(out@ + unesc(arg@.skip(j as int)) =~= unesc(arg@));
                }
            }
            i = j;
        }
    }
    proof {
        assert(arg@.skip(i as int) =~= Seq::<char>::empty());
        assert(out@ =~= unesc(arg@));
    }
    string_of(&out)
}

/// Escape single quotes for inclusion in a shell single-quoted word.
pub fn escape_squotes(s: &str) -> (r: String)
    ensures
        r@ == sq_esc(s@),
{
    let v = chars_of(s);
    let mut out: Vec<char> = Vec::new();
    let mut i: usize = 0;
    proof {
        assert(s@.skip(0) =~= s@);
    }
    while i < v.len()
        invariant
            v@ == s@,
            i <= v@.len(),
            sq_esc(s@) == out@ + sq_esc(s@.skip(i as int)),
        decreases v@.len() - i,
    {
        let ghost t = s@.skip(i as int);
        if v[i] == '\'' {
            out.push('\'');
            out.push('\\');
            out.push('\'');
            out.push('\'');
        } else {
            out.push(v[i]);
        }
        proof {
            assert(t.skip(1) =~= s@.skip(i as int + 1));
            assert(out@ + sq_esc(s@.skip(i as int + 1)) =~= sq_esc(s@));
        }
        i = i + 1;
    }
    proof {
        assert(s@.skip(i as int) =~= Seq::<char>::empty());
        assert(out@ =~= sq_esc(s@));
    }
    string_of(&out)
}

/// Wrap a path in the `wslpath` substitution, escaping single quotes.
pub fn wslpath_substitution(s: &str) -> (r: String)
    ensures
        r@ == wslpath_wrap(s@),
{
    let mut out = String::from_str("$(wslpath '");
    let esc = escape_squotes(s);
    out.append(esc.as_str());
    out.append("')");
    out
}

/// Wrap an argument in the `wslpath` substitution exactly when it is a
/// drive-letter absolute path.
pub fn wrap_if_absolute(arg: &str) -> (r: Option<String>)
    ensures
        match r {
            Some(w) => is_drive_absolute_spec(arg@) && w@ == wslpath_wrap(arg@),
            None => !is_drive_absolute_spec(arg@),
        },
{
    if is_drive_absolute(arg) {
        Some(wslpath_substitution(arg))
    } else {
        None
    }
}

/// Convert one argument to its WSL-shell form.
pub fn convert_arg_to_wsl_arg(arg: &str) -> (r: String)
    ensures
        r@ == convert_arg_spec(arg@),
{
    let u = unescape_backslashes(arg);
    match wrap_if_absolute(u.as_str()) {
        Some(w) => w,
        None => u,
    }
}

/// Translate an argument vector; length is preserved, order is kept, and
/// with conversion off the arguments pass through verbatim.
pub fn parse_args(args: &Vec<String>, convert: bool) -> (r: Vec<String>)
    ensures
        strs_view(r@) == translate_spec(strs_view(args@), convert),
        r@.len() == args@.len(),
{
    let mut out: Vec<String> = Vec::new();
    let mut i: usize = 0;
    while i < args.len()
        invariant
            i <= args@.len(),
            out@.len() == i,
            forall|k: int|
                0 <= k < i ==> out@[k]@ == (if convert {
                    convert_arg_spec(args@[k]@)
                } else {
                    args@[k]@
                }),
        decreases args@.len() - i,
    {
        if convert {
            out.push(convert_arg_to_wsl_arg(args[i].as_str()));
        } else {
            out.push(args[i].clone());
        }
        i = i + 1;
    }
    proof {
        assert(strs_view(out@) =~= translate_spec(strs_view(args@), convert));
    }
    out
}

/// Translating a translated vector once more with conversion off returns it
/// unchanged: the output shape is already WSL-ready.
pub proof fn lemma_translate_second_pass_identity(args: Seq<Seq<char>>, convert: bool)
    ensures
        translate_spec(translate_spec(args, convert), false) == translate_spec(args, convert),
{
}

/// The backslash-run law: an argument of `k` backslashes alone de-escapes to
/// `/` when `k` is one, and to `k - 1` backslashes when `k` is two or more.
pub proof fn lemma_unescape_backslash_run(s: Seq<char>)
    requires
        s.len() >= 1,
        forall|i: int| 0 <= i < s.len() ==> s[i] == '\\',
    ensures
        s.len() == 1 ==> unesc(s) == seq!['/'],
        s.len() >= 2 ==> unesc(s) == Seq::<char>::new((s.len() - 1) as nat, |i: int| '\\'),
{
    lemma_bs_run_exact(s, s.len() as int);
    assert(s[0] == '\\');
    assert(s.skip(s.len() as int) =~= Seq::<char>::empty());
    assert(unesc(s.skip(s.len() as int)) == Seq::<char>::empty()) by {
        assert(unesc(Seq::<char>::empty()) == Seq::<char>::empty());
    }
    if s.len() == 1 {
        assert(unesc(s) =~= seq!['/']);
    } else {
        assert(unesc(s) =~= Seq::<char>::new((s.len() - 1) as nat, |i: int| '\\'));
    }
}

} // verus!
