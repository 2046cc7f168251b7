//! The command-entry filename grammar.
//!
//! A visible name has the shape
//! `[<detached-prefix>]<command>[!<user>[!<dist>]].exe`: an optional leading
//! `.` marks detached execution, `!` separates the command from an optional
//! WSL user and distribution, and the executable extension closes the name.
//! Decoding strips the extension, strips the detached prefix, and splits the
//! remainder; the command must be non-empty, and empty or missing fields are
//! reported as absent.

use vstd::prelude::*;
use vstd::string::StringExecFns;
use crate::pathview::{
    chars_of, file_name_chars, file_name_spec, first_pos, first_pos_index, fstem_spec,
    lemma_first_pos, stem_chars, stem_spec, string_of, subrange_of, ext_spec,
};

verus! {

/// The executable extension, as characters (`exe`).
pub open spec fn exe_ext() -> Seq<char> {
    seq!['e', 'x', 'e']
}

/// The executable extension with its dot (`.exe`).
pub open spec fn exe_suffix() -> Seq<char> {
    seq!['.', 'e', 'x', 'e']
}

/// A decoded visible name.
#[derive(Debug)]
pub struct ParsedName {
    /// The WSL command to run; never empty.
    pub command: String,
    /// The WSL user to run as, if the name carries one.
    pub user: Option<String>,
    /// The WSL distribution to run in, if the name carries one.
    pub dist: Option<String>,
    /// Whether the name carries the detached prefix.
    pub detached: bool,
}

#[verifier::ext_equal]
pub ghost struct ParsedNameV {
    pub command: Seq<char>,
    pub user: Option<Seq<char>>,
    pub dist: Option<Seq<char>>,
    pub detached: bool,
}

impl View for ParsedName {
    type V = ParsedNameV;

    open spec fn view(&self) -> ParsedNameV {
        ParsedNameV {
            command: self.command@,
            user: match self.user {
                Some(u) => Some(u@),
                None => None,
            },
            dist: match self.dist {
                Some(d) => Some(d@),
                None => None,
            },
            detached: self.detached,
        }
    }
}

pub open spec fn opt_view(o: Option<Vec<char>>) -> Option<Seq<char>> {
    match o {
        Some(v) => Some(v@),
        None => None,
    }
}

pub open spec fn opt_str_view(o: Option<&str>) -> Option<Seq<char>> {
    match o {
        Some(s) => Some(s@),
        None => None,
    }
}

pub open spec fn opt_string_view(o: Option<String>) -> Option<Seq<char>> {
    match o {
        Some(s) => Some(s@),
        None => None,
    }
}

/// An empty field is reported as absent.
pub open spec fn nonempty_opt(s: Seq<char>) -> Option<Seq<char>> {
    if s.len() == 0 {
        None
    } else {
        Some(s)
    }
}

/// Split a stem (extension and detached prefix already stripped) into
/// command, user and distribution fields at the `!` delimiters.  Fields past
/// the third are dropped.
pub open spec fn split_fields(s: Seq<char>) -> (Seq<char>, Option<Seq<char>>, Option<Seq<char>>) {
    match first_pos(s, '!') {
        None => (s, None::<Seq<char>>, None::<Seq<char>>),
        Some(i) => {
            let cmd = s.take(i);
            let rest1 = s.skip(i + 1);
            match first_pos(rest1, '!') {
                None => (cmd, nonempty_opt(rest1), None::<Seq<char>>),
                Some(j) => {
                    let user = rest1.take(j);
                    let rest2 = rest1.skip(j + 1);
                    let dist = match first_pos(rest2, '!') {
                        None => rest2,
                        Some(k) => rest2.take(k),
                    };
                    (cmd, nonempty_opt(user), nonempty_opt(dist))
                },
            }
        },
    }
}

/// What decoding a visible name yields: the extension is stripped, then the
/// detached prefix, then the remainder splits at the delimiters; decoding
/// fails exactly when the command field comes out empty.
pub open spec fn decode_spec(name: Seq<char>) -> Option<ParsedNameV> {
    let stem = stem_spec(name);
    let detached = stem.len() > 0 && stem[0] == '.';
    let rest = if detached {
        stem.skip(1)
    } else {
        stem
    };
    let f = split_fields(rest);
    if f.0.len() == 0 {
        None
    } else {
        Some(
            ParsedNameV {
                command: f.0,
                user: f.1,
                dist: f.2,
                detached,
            },
        )
    }
}

/// The fields joined with the delimiter.
pub open spec fn joined_fields(
    command: Seq<char>,
    user: Option<Seq<char>>,
    dist: Option<Seq<char>>,
) -> Seq<char> {
    command + (match user {
        Some(u) => seq!['!'] + u,
        None => Seq::<char>::empty(),
    }) + (match dist {
        Some(d) => seq!['!'] + d,
        None => Seq::<char>::empty(),
    })
}

/// What encoding yields: the fields joined with the delimiter, closed by the
/// executable extension.
pub open spec fn encode_spec(
    command: Seq<char>,
    user: Option<Seq<char>>,
    dist: Option<Seq<char>>,
) -> Seq<char> {
    joined_fields(command, user, dist) + exe_suffix()
}

/// What parsing an invocation name for execution yields: the stem of the
/// name, with a leading detached prefix stripped and recorded; fails exactly
/// when the remaining command is empty or the name has no filename.
pub open spec fn parse_cmd_spec(p: Seq<char>) -> Option<(Seq<char>, bool)> {
    match fstem_spec(p) {
        None => None,
        Some(stem) => {
            let detached = stem.len() > 0 && stem[0] == '.';
            let cmd = if detached {
                stem.skip(1)
            } else {
                stem
            };
            if cmd.len() == 0 {
                None
            } else {
                Some((cmd, detached))
            }
        },
    }
}

/// What splitting an invocation name into raw fields yields: the stem of the
/// name split at the delimiters, without touching a detached prefix.
pub open spec fn parse_fields_spec(p: Seq<char>) -> Option<
    (Seq<char>, Option<Seq<char>>, Option<Seq<char>>),
> {
    match fstem_spec(p) {
        None => None,
        Some(stem) => {
            let f = split_fields(stem);
            if f.0.len() == 0 {
                None
            } else {
                Some(f)
            }
        },
    }
}

/// Appending the executable extension to a non-empty name gives that
/// extension and leaves the name as the stem.
pub proof fn lemma_exe_name_shape(f: Seq<char>)
    requires
        f.len() > 0,
    ensures
        crate::pathview::ext_spec(f + exe_suffix()) == Some(exe_ext()),
        stem_spec(f + exe_suffix()) == f,
{
    let n = f + exe_suffix();
    assert(n[f.len() as int] == '.');
    assert forall|j: int| f.len() < j < n.len() implies n[j] != '.' by {
        assert(n[j] == exe_suffix()[j - f.len()]);
    }
    crate::pathview::lemma_last_pos_is(n, '.', f.len() as int);
    assert(n.skip(f.len() as int + 1) =~= exe_ext());
    assert(n.take(f.len() as int) =~= f);
}

/// A name with the executable extension is its stem with the extension
/// appended.
pub proof fn lemma_exe_name_decompose(n: Seq<char>)
    requires
        crate::pathview::ext_spec(n) == Some(exe_ext()),
    ensures
        n == stem_spec(n) + exe_suffix(),
        stem_spec(n).len() > 0,
{
    crate::pathview::lemma_last_pos(n, '.');
    let i = crate::pathview::ext_cut(n)->Some_0;
    assert(n[i] == '.');
    assert(n.skip(i + 1) == exe_ext());
    assert(n.skip(i + 1).len() == 3);
    assert(n.len() == i + 4);
    assert forall|k: int| 0 <= k < n.len() implies n[k] == (stem_spec(n) + exe_suffix())[k] by {
        if k < i {
        } else if k == i {
        } else {
            assert(n[k] == n.skip(i + 1)[k - i - 1]);
            assert(exe_ext()[k - i - 1] == exe_suffix()[k - i]);
        }
    }
    assert(n =~= stem_spec(n) + exe_suffix());
}

/// Splitting the joined fields gives the fields back, provided the command
/// is non-empty, no field holds the delimiter, present fields are non-empty,
/// and a distribution comes only with a user.
proof fn lemma_split_fields_of_joined(
    command: Seq<char>,
    user: Option<Seq<char>>,
    dist: Option<Seq<char>>,
)
    requires
        command.len() > 0,
        !command.contains('!'),
        match user {
            Some(u) => u.len() > 0 && !u.contains('!'),
            None => true,
        },
        match dist {
            Some(d) => d.len() > 0 && !d.contains('!'),
            None => true,
        },
        dist is Some ==> user is Some,
    ensures
        split_fields(joined_fields(command, user, dist)) == (command, user, dist),
{
    let body = joined_fields(command, user, dist);
    assert forall|j: int| 0 <= j < command.len() implies command[j] != '!' by {
        if command[j] == '!' {
            assert(command.contains('!'));
        }
    }
    match user {
        None => {
            assert(body =~= command);
            crate::pathview::lemma_first_pos_none(command, '!');
            assert(split_fields(body).0 == command);
        },
        Some(u) => {
            assert forall|j: int| 0 <= j < u.len() implies u[j] != '!' by {
                if u[j] == '!' {
                    assert(u.contains('!'));
                }
            }
            assert(body[command.len() as int] == '!');
            assert forall|j: int| 0 <= j < command.len() implies body[j] != '!' by {
                assert(body[j] == command[j]);
            }
            crate::pathview::lemma_first_pos_is(body, '!', command.len() as int);
            assert(body.take(command.len() as int) =~= command);
            let rest1 = body.skip(command.len() as int + 1);
            match dist {
                None => {
                    assert(rest1 =~= u);
                    crate::pathview::lemma_first_pos_none(rest1, '!');
                    assert(split_fields(body).0 == command);
                    assert(split_fields(body).1 == Some(u));
                    assert(split_fields(body).2 == None::<Seq<char>>);
                },
                Some(d) => {
                    assert forall|j: int| 0 <= j < d.len() implies d[j] != '!' by {
                        if d[j] == '!' {
                            assert(d.contains('!'));
                        }
                    }
                    assert(rest1 =~= u + seq!['!'] + d);
                    assert(rest1[u.len() as int] == '!');
                    assert forall|j: int| 0 <= j < u.len() implies rest1[j] != '!' by {
                        assert(rest1[j] == u[j]);
                    }
                    crate::pathview::lemma_first_pos_is(rest1, '!', u.len() as int);
                    assert(rest1.take(u.len() as int) =~= u);
                    let rest2 = rest1.skip(u.len() as int + 1);
                    assert(rest2 =~= d);
                    crate::pathview::lemma_first_pos_none(rest2, '!');
                    assert(split_fields(body).0 == command);
                    assert(split_fields(body).1 == Some(u));
                    assert(split_fields(body).2 == Some(d));
                },
            }
        },
    }
}

/// The round-trip law: decoding an encoded name yields the fields back with
/// the detached flag clear, and decoding it with the detached prefix
/// prepended yields them with the flag set.  It holds when the command is
/// non-empty, no field holds the delimiter or the detached prefix, present
/// fields are non-empty, and a distribution comes only with a user.
pub proof fn lemma_codec_round_trip(
    command: Seq<char>,
    user: Option<Seq<char>>,
    dist: Option<Seq<char>>,
)
    requires
        command.len() > 0,
        !command.contains('!'),
        !command.contains('.'),
        match user {
            Some(u) => u.len() > 0 && !u.contains('!') && !u.contains('.'),
            None => true,
        },
        match dist {
            Some(d) => d.len() > 0 && !d.contains('!') && !d.contains('.'),
            None => true,
        },
        dist is Some ==> user is Some,
    ensures
        decode_spec(encode_spec(command, user, dist)) == Some(
            ParsedNameV { command, user, dist, detached: false },
        ),
        decode_spec(seq!['.'] + encode_spec(command, user, dist)) == Some(
            ParsedNameV { command, user, dist, detached: true },
        ),
{
    let body = joined_fields(command, user, dist);
    let e = encode_spec(command, user, dist);
    lemma_exe_name_shape(body);
    assert(stem_spec(e) == body);
    assert(body[0] == command[0]);
    assert(command[0] != '.') by {
        if command[0] == '.' {
            assert(command.contains('.'));
        }
    }
    lemma_split_fields_of_joined(command, user, dist);
    assert(decode_spec(e) == Some(ParsedNameV { command, user, dist, detached: false })) by {
        assert(decode_spec(e)->Some_0 =~= (ParsedNameV { command, user, dist, detached: false }));
    }
    let de = seq!['.'] + e;
    assert(de =~= (seq!['.'] + body) + exe_suffix());
    lemma_exe_name_shape(seq!['.'] + body);
    assert(stem_spec(de) == seq!['.'] + body);
    assert(stem_spec(de)[0] == '.');
    assert(stem_spec(de).skip(1) =~= body);
    assert(decode_spec(de) == Some(ParsedNameV { command, user, dist, detached: true })) by {
        assert(decode_spec(de)->Some_0 =~= (ParsedNameV { command, user, dist, detached: true }));
    }
}

fn nonempty_opt_exec(v: Vec<char>) -> (r: Option<Vec<char>>)
    ensures
        opt_view(r) == nonempty_opt(v@),
{
    if v.len() == 0 {
        None
    } else {
        Some(v)
    }
}

fn opt_string_of(o: Option<Vec<char>>) -> (r: Option<String>)
    ensures
        opt_string_view(r) == opt_view(o),
{
    match o {
        Some(v) => Some(string_of(&v)),
        None => None,
    }
}

/// Split a stem into its command, user and distribution fields.
fn split_fields_exec(v: &Vec<char>) -> (r: (Vec<char>, Option<Vec<char>>, Option<Vec<char>>))
    ensures
        split_fields(v@) == (r.0@, opt_view(r.1), opt_view(r.2)),
{
    let vlen = v.len();
    match first_pos_index(v, '!') {
        None => {
            proof {
                assert(v@.subrange(0, v@.len() as int) =~= v@);
            }
            (subrange_of(v, 0, vlen), None, None)
        },
        Some(i) => {
            proof {
                lemma_first_pos(v@, '!');
                assert(v@.subrange(0, i as int) =~= v@.take(i as int));
                assert(v@.subrange((i + 1) as int, v@.len() as int) =~= v@.skip(i as int + 1));
            }
            let cmd = subrange_of(v, 0, i);
            let rest1 = subrange_of(v, i + 1, vlen);
            let r1len = rest1.len();
            match first_pos_index(&rest1, '!') {
                None => (cmd, nonempty_opt_exec(rest1), None),
                Some(j) => {
                    proof {
                        lemma_first_pos(rest1@, '!');
                        assert(rest1@.subrange(0, j as int) =~= rest1@.take(j as int));
                        assert(rest1@.subrange((j + 1) as int, rest1@.len() as int) =~= rest1@.skip(
                            j as int + 1,
                        ));
                    }
                    let user = subrange_of(&rest1, 0, j);
                    let rest2 = subrange_of(&rest1, j + 1, r1len);
                    let dist: Vec<char> = match first_pos_index(&rest2, '!') {
                        None => rest2,
                        Some(k) => {
                            proof {
                                lemma_first_pos(rest2@, '!');
                                assert(rest2@.subrange(0, k as int) =~= rest2@.take(k as int));
                            }
                            subrange_of(&rest2, 0, k)
                        },
                    };
                    (cmd, nonempty_opt_exec(user), nonempty_opt_exec(dist))
                },
            }
        },
    }
}

/// Decode a visible name into its parsed form; `None` exactly when the name
/// is no command entry name (an empty command field).
pub fn decode(name: &str) -> (r: Option<ParsedName>)
    ensures
        match r {
            Some(pn) => decode_spec(name@) == Some(pn@),
            None => decode_spec(name@) is None,
        },
{
    let n = chars_of(name);
    let stem = stem_chars(&n);
    let detached = stem.len() > 0 && stem[0] == '.';
    let rest: Vec<char> = if detached {
        let sl = stem.len();
        proof {
            assert(stem@.subrange(1, stem@.len() as int) =~= stem@.skip(1));
        }
        subrange_of(&stem, 1, sl)
    } else {
        stem
    };
    let f = split_fields_exec(&rest);
    if f.0.len() == 0 {
        None
    } else {
        let pn = ParsedName {
            command: string_of(&f.0),
            user: opt_string_of(f.1),
            dist: opt_string_of(f.2),
            detached,
        };
        proof {
            assert(decode_spec(name@) == Some(pn@)) by {
                assert(pn@ =~= decode_spec(name@)->Some_0);
            }
        }
        Some(pn)
    }
}

/// Encode command, user and distribution fields back into a visible name.
/// The inverse of `decode` on well-formed fields: fields must not hold the
/// delimiter, and a distribution needs a user before it.
pub fn encode(command: &str, user: Option<&str>, dist: Option<&str>) -> (r: String)
    ensures
        r@ == encode_spec(command@, opt_str_view(user), opt_str_view(dist)),
{
    let mut s = String::from_str(command);
    match user {
        Some(u) => {
            s.append("!");
            s.append(u);
        },
        None => {},
    }
    match dist {
        Some(d) => {
            s.append("!");
            s.append(d);
        },
        None => {},
    }
    s.append(".exe");
    proof {
        reveal_strlit("!");
        reveal_strlit(".exe");
        assert("!"@ =~= seq!['!']);
        assert(".exe"@ =~= exe_suffix());
        assert(s@ =~= encode_spec(command@, opt_str_view(user), opt_str_view(dist)));
    }
    s
}

/// Append the executable extension to a command name.
pub fn with_ext(name: &str) -> (r: String)
    ensures
        r@ == name@ + exe_suffix(),
{
    let mut s = String::from_str(name);
    s.append(".exe");
    proof {
        reveal_strlit(".exe");
        assert(".exe"@ =~= exe_suffix());
    }
    s
}

/// Prepend the detached prefix to a name.
pub fn to_detached(name: &str) -> (r: String)
    ensures
        r@ == seq!['.'] + name@,
{
    let mut s = String::from_str(".");
    s.append(name);
    proof {
        reveal_strlit(".");
        assert("."@ =~= seq!['.']);
    }
    s
}

/// Whether a path's filename carries the executable extension.
pub open spec fn is_exe_spec(p: Seq<char>) -> bool {
    match file_name_spec(p) {
        Some(n) => ext_spec(n) == Some(exe_ext()),
        None => false,
    }
}

pub fn is_exe(p: &str) -> (r: bool)
    ensures
        r == is_exe_spec(p@),
{
    let v = chars_of(p);
    match file_name_chars(&v) {
        Some(n) => match crate::pathview::ext_chars(&n) {
            Some(e) => {
                let r = e.len() == 3 && e[0] == 'e' && e[1] == 'x' && e[2] == 'e';
                proof {
                    if r {
                        assert(e@ =~= exe_ext());
                    } else {
                        assert(e@ != exe_ext());
                    }
                }
                r
            },
            None => false,
        },
        None => false,
    }
}

/// Whether a path's filename begins with the detached prefix.
pub open spec fn is_detached_spec(p: Seq<char>) -> bool {
    match file_name_spec(p) {
        Some(n) => n.len() > 0 && n[0] == '.',
        None => false,
    }
}

pub fn is_detached(p: &str) -> (r: bool)
    ensures
        r == is_detached_spec(p@),
{
    let v = chars_of(p);
    match file_name_chars(&v) {
        Some(n) => n.len() > 0 && n[0] == '.',
        None => false,
    }
}

/// Parse an invocation name into its command and detached flag.
pub fn parse_cmd(binname: &str) -> (r: Option<(String, bool)>)
    ensures
        match r {
            Some(p) => parse_cmd_spec(binname@) == Some((p.0@, p.1)),
            None => parse_cmd_spec(binname@) is None,
        },
{
    let v = chars_of(binname);
    let n = match file_name_chars(&v) {
        Some(n) => n,
        None => {
            return None;
        },
    };
    let stem = stem_chars(&n);
    let detached = stem.len() > 0 && stem[0] == '.';
    let cmd: Vec<char> = if detached {
        let sl = stem.len();
        proof {
            assert(stem@.subrange(1, stem@.len() as int) =~= stem@.skip(1));
        }
        subrange_of(&stem, 1, sl)
    } else {
        stem
    };
    if cmd.len() == 0 {
        None
    } else {
        Some((string_of(&cmd), detached))
    }
}

/// Parse an invocation name into its raw command, user and distribution
/// fields, leaving a detached prefix on the command field.
pub fn parse_cmd_fields(binname: &str) -> (r: Option<(String, Option<String>, Option<String>)>)
    ensures
        match r {
            Some(p) => parse_fields_spec(binname@) == Some(
                (p.0@, opt_string_view(p.1), opt_string_view(p.2)),
            ),
            None => parse_fields_spec(binname@) is None,
        },
{
    let v = chars_of(binname);
    let n = match file_name_chars(&v) {
        Some(n) => n,
        None => {
            return None;
        },
    };
    let stem = stem_chars(&n);
    let f = split_fields_exec(&stem);
    if f.0.len() == 0 {
        None
    } else {
        Some((string_of(&f.0), opt_string_of(f.1), opt_string_of(f.2)))
    }
}

} // verus!
