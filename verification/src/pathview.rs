//! Read-only helpers over path-like strings.
//!
//! Paths here are plain character strings in Windows convention: both `/` and
//! `\` separate components, a filename's extension follows its last dot, and
//! an absolute path is one that starts with a drive letter.  Every operation
//! yields `None` rather than failing when the input is ill-formed.

use vstd::prelude::*;
use vstd::string::StrSliceExecFns;

verus! {

/// A character that separates path components.
pub open spec fn is_sep(c: char) -> bool {
    c == '/' || c == '\\'
}

/// Index of the last separator in `s`, if any.
pub open spec fn last_sep(s: Seq<char>) -> Option<int>
    decreases s.len(),
{
    if s.len() == 0 {
        None
    } else if is_sep(s[s.len() - 1]) {
        Some(s.len() - 1)
    } else {
        last_sep(s.drop_last())
    }
}

/// Index of the last occurrence of `c` in `s`, if any.
pub open spec fn last_pos(s: Seq<char>, c: char) -> Option<int>
    decreases s.len(),
{
    if s.len() == 0 {
        None
    } else if s[s.len() - 1] == c {
        Some(s.len() - 1)
    } else {
        last_pos(s.drop_last(), c)
    }
}

/// Index of the first occurrence of `c` in `s`, if any.
pub open spec fn first_pos(s: Seq<char>, c: char) -> Option<int>
    decreases s.len(),
{
    if s.len() == 0 {
        None
    } else if s[0] == c {
        Some(0int)
    } else {
        match first_pos(s.skip(1), c) {
            Some(i) => Some(i + 1),
            None => None,
        }
    }
}

pub proof fn lemma_last_sep(s: Seq<char>)
    ensures
        match last_sep(s) {
            Some(i) => 0 <= i < s.len() && is_sep(s[i]) && (forall|j: int|
                i < j < s.len() ==> !is_sep(s[j])),
            None => forall|j: int| 0 <= j < s.len() ==> !is_sep(s[j]),
        },
    decreases s.len(),
{
    if s.len() == 0 {
    } else if is_sep(s[s.len() - 1]) {
    } else {
        lemma_last_sep(s.drop_last());
        assert forall|j: int| 0 <= j < s.len() - 1 implies s.drop_last()[j] == s[j] by {}
    }
}

pub proof fn lemma_last_pos(s: Seq<char>, c: char)
    ensures
        match last_pos(s, c) {
            Some(i) => 0 <= i < s.len() && s[i] == c && (forall|j: int|
                i < j < s.len() ==> s[j] != c),
            None => forall|j: int| 0 <= j < s.len() ==> s[j] != c,
        },
    decreases s.len(),
{
    if s.len() == 0 {
    } else if s[s.len() - 1] == c {
    } else {
        lemma_last_pos(s.drop_last(), c);
        assert forall|j: int| 0 <= j < s.len() - 1 implies s.drop_last()[j] == s[j] by {}
    }
}

/// The converse direction: a position holding `c` with none after it is the
/// last occurrence.
pub proof fn lemma_last_pos_is(s: Seq<char>, c: char, i: int)
    requires
        0 <= i < s.len(),
        s[i] == c,
        forall|j: int| i < j < s.len() ==> s[j] != c,
    ensures
        last_pos(s, c) == Some(i),
{
    lemma_last_pos(s, c);
    match last_pos(s, c) {
        Some(k) => {
            if k < i {
                assert(s[i] != c);
            } else if k > i {
                assert(s[k] != c);
            }
        },
        None => {
            assert(s[i] != c);
        },
    }
}

pub proof fn lemma_first_pos(s: Seq<char>, c: char)
    ensures
        match first_pos(s, c) {
            Some(i) => 0 <= i < s.len() && s[i] == c && (forall|j: int| 0 <= j < i ==> s[j] != c),
            None => forall|j: int| 0 <= j < s.len() ==> s[j] != c,
        },
    decreases s.len(),
{
    if s.len() == 0 {
    } else if s[0] == c {
    } else {
        lemma_first_pos(s.skip(1), c);
        match first_pos(s.skip(1), c) {
            Some(i) => {
                assert(s[i + 1] == s.skip(1)[i]);
                assert forall|j: int| 0 <= j < i + 1 implies s[j] != c by {
                    if j >= 1 {
                        assert(s.skip(1)[j - 1] == s[j]);
                    }
                }
            },
            None => {
                assert forall|j: int| 0 <= j < s.len() implies s[j] != c by {
                    if j >= 1 {
                        assert(s.skip(1)[j - 1] == s[j]);
                    }
                }
            },
        }
    }
}

/// The converse direction: a position holding `c` with none before it is
/// the first occurrence.
pub proof fn lemma_first_pos_is(s: Seq<char>, c: char, i: int)
    requires
        0 <= i < s.len(),
        s[i] == c,
        forall|j: int| 0 <= j < i ==> s[j] != c,
    ensures
        first_pos(s, c) == Some(i),
{
    lemma_first_pos(s, c);
    match first_pos(s, c) {
        Some(k) => {
            if k < i {
                assert(s[k] != c);
            } else if k > i {
                assert(s[i] != c);
            }
        },
        None => {
            assert(s[i] != c);
        },
    }
}

/// No occurrence at all means no first occurrence.
pub proof fn lemma_first_pos_none(s: Seq<char>, c: char)
    requires
        forall|j: int| 0 <= j < s.len() ==> s[j] != c,
    ensures
        first_pos(s, c) is None,
{
    lemma_first_pos(s, c);
    match first_pos(s, c) {
        Some(k) => {
            assert(s[k] != c);
        },
        None => {},
    }
}

/// The filename of a path: what follows the last separator.
/// Absent when that part is empty (the path ends in a separator or is empty).
pub open spec fn file_name_spec(p: Seq<char>) -> Option<Seq<char>> {
    let rest = match last_sep(p) {
        Some(i) => p.skip(i + 1),
        None => p,
    };
    if rest.len() == 0 {
        None
    } else {
        Some(rest)
    }
}

/// Index of the dot that cuts a filename's extension off: the last dot,
/// provided it is not the leading character.  A name such as `.profile`
/// has no extension.
pub open spec fn ext_cut(n: Seq<char>) -> Option<int> {
    match last_pos(n, '.') {
        Some(i) => if i > 0 {
            Some(i)
        } else {
            None
        },
        None => None,
    }
}

/// The stem of a filename: the part before its extension dot, or the whole
/// name when there is no extension.
pub open spec fn stem_spec(n: Seq<char>) -> Seq<char> {
    match ext_cut(n) {
        Some(i) => n.take(i),
        None => n,
    }
}

/// The extension of a filename: the part after its extension dot.
pub open spec fn ext_spec(n: Seq<char>) -> Option<Seq<char>> {
    match ext_cut(n) {
        Some(i) => Some(n.skip(i + 1)),
        None => None,
    }
}

/// The stem of a path's filename.
pub open spec fn fstem_spec(p: Seq<char>) -> Option<Seq<char>> {
    match file_name_spec(p) {
        Some(n) => Some(stem_spec(n)),
        None => None,
    }
}

/// The parent of a path: what precedes the last separator; the empty string
/// for a bare filename; absent for an empty path.
pub open spec fn parent_spec(p: Seq<char>) -> Option<Seq<char>> {
    match last_sep(p) {
        Some(i) => Some(p.take(i)),
        None => if p.len() == 0 {
            None
        } else {
            Some(Seq::empty())
        },
    }
}

pub open spec fn is_ascii_letter(c: char) -> bool {
    ('a' <= c && c <= 'z') || ('A' <= c && c <= 'Z')
}

/// Whether a string denotes an absolute Windows path: a drive letter, a
/// colon, and a separator.
pub open spec fn is_drive_absolute_spec(s: Seq<char>) -> bool {
    s.len() >= 3 && is_ascii_letter(s[0]) && s[1] == ':' && is_sep(s[2])
}

/// The characters of a string slice, in order.
pub fn chars_of(s: &str) -> (r: Vec<char>)
    ensures
        r@ == s@,
{
    let n: usize = s.unicode_len();
    let mut v: Vec<char> = Vec::new();
    let mut i: usize = 0;
    while i < n
        invariant
            n == s@.len(),
            i <= n,
            v@ == s@.take(i as int),
        decreases n - i,
    {
        let c = s.get_char(i);
        v.push(c);
        proof {
            assert(s@.take((i + 1) as int) =~= s@.take(i as int).push(s@[i as int]));
        }
        i = i + 1;
    }
    proof {
        assert(s@.take(n as int) =~= s@);
    }
    v
}

/// String equality by contents.
pub fn str_eq(a: &String, b: &String) -> (r: bool)
    ensures
        r == (a@ == b@),
{
    a.eq(b)
}

/// Relies on std's `String: FromIterator<char>`: collecting characters
/// yields the string of exactly those characters, in order.
#[verifier::external_body]
pub fn string_of(v: &Vec<char>) -> (r: String)
    ensures
        r@ == v@,
{
    v.iter().copied().collect()
}

/// Index of the last separator in `v`, if any.
pub fn last_sep_index(v: &Vec<char>) -> (r: Option<usize>)
    ensures
        match r {
            Some(i) => last_sep(v@) == Some(i as int),
            None => last_sep(v@) is None,
        },
{
    let mut i: usize = v.len();
    while i > 0
        invariant
            i <= v.len(),
            forall|j: int| i <= j < v@.len() ==> !is_sep(v@[j]),
        decreases i,
    {
        i = i - 1;
        let c = v[i];
        if c == '/' || c == '\\' {
            proof {
                lemma_last_sep(v@);
            }
            return Some(i);
        }
    }
    proof {
        lemma_last_sep(v@);
    }
    None
}

/// Index of the last occurrence of `c` in `v`, if any.
pub fn last_pos_index(v: &Vec<char>, c: char) -> (r: Option<usize>)
    ensures
        match r {
            Some(i) => last_pos(v@, c) == Some(i as int),
            None => last_pos(v@, c) is None,
        },
{
    let mut i: usize = v.len();
    while i > 0
        invariant
            i <= v.len(),
            forall|j: int| i <= j < v@.len() ==> v@[j] != c,
        decreases i,
    {
        i = i - 1;
        if v[i] == c {
            proof {
                lemma_last_pos(v@, c);
            }
            return Some(i);
        }
    }
    proof {
        lemma_last_pos(v@, c);
    }
    None
}

/// Index of the first occurrence of `c` in `v`, if any.
pub fn first_pos_index(v: &Vec<char>, c: char) -> (r: Option<usize>)
    ensures
        match r {
            Some(i) => first_pos(v@, c) == Some(i as int),
            None => first_pos(v@, c) is None,
        },
{
    let mut i: usize = 0;
    while i < v.len()
        invariant
            i <= v.len(),
            forall|j: int| 0 <= j < i ==> v@[j] != c,
        decreases v.len() - i,
    {
        if v[i] == c {
            proof {
                lemma_first_pos(v@, c);
            }
            return Some(i);
        }
        i = i + 1;
    }
    proof {
        lemma_first_pos(v@, c);
    }
    None
}

/// A copy of the characters `from..to` of `v`.
pub fn subrange_of(v: &Vec<char>, from: usize, to: usize) -> (r: Vec<char>)
    requires
        from <= to <= v@.len(),
    ensures
        r@ == v@.subrange(from as int, to as int),
{
    let mut out: Vec<char> = Vec::new();
    let mut i: usize = from;
    while i < to
        invariant
            from <= i <= to <= v@.len(),
            out@ == v@.subrange(from as int, i as int),
        decreases to - i,
    {
        out.push(v[i]);
        proof {
            assert(v@.subrange(from as int, (i + 1) as int) =~= v@.subrange(
                from as int,
                i as int,
            ).push(v@[i as int]));
        }
        i = i + 1;
    }
    out
}

/// The filename part of `v`, per `file_name_spec`.
pub fn file_name_chars(v: &Vec<char>) -> (r: Option<Vec<char>>)
    ensures
        match r {
            Some(n) => file_name_spec(v@) == Some(n@),
            None => file_name_spec(v@) is None,
        },
{
    let rest: Vec<char>;
    match last_sep_index(v) {
        Some(i) => {
            proof {
                lemma_last_sep(v@);
                assert(v@.subrange((i + 1) as int, v@.len() as int) =~= v@.skip(i as int + 1));
            }
            let vlen = v.len();
            rest = subrange_of(v, i + 1, vlen);
        },
        None => {
            proof {
                assert(v@.subrange(0, v@.len() as int) =~= v@);
            }
            rest = subrange_of(v, 0, v.len());
        },
    }
    if rest.len() == 0 {
        None
    } else {
        Some(rest)
    }
}

/// The stem of a filename, per `stem_spec`.
pub fn stem_chars(n: &Vec<char>) -> (r: Vec<char>)
    ensures
        r@ == stem_spec(n@),
{
    match last_pos_index(n, '.') {
        Some(i) => if i > 0 {
            proof {
                lemma_last_pos(n@, '.');
                assert(n@.subrange(0, i as int) =~= n@.take(i as int));
            }
            subrange_of(n, 0, i)
        } else {
            proof {
                assert(n@.subrange(0, n@.len() as int) =~= n@);
            }
            subrange_of(n, 0, n.len())
        },
        None => {
            proof {
                assert(n@.subrange(0, n@.len() as int) =~= n@);
            }
            subrange_of(n, 0, n.len())
        },
    }
}

/// The extension of a filename, per `ext_spec`.
pub fn ext_chars(n: &Vec<char>) -> (r: Option<Vec<char>>)
    ensures
        match r {
            Some(e) => ext_spec(n@) == Some(e@),
            None => ext_spec(n@) is None,
        },
{
    match last_pos_index(n, '.') {
        Some(i) => if i > 0 {
            proof {
                lemma_last_pos(n@, '.');
                assert(i < n@.len());
                assert(n@.subrange((i + 1) as int, n@.len() as int) =~= n@.skip(i as int + 1));
            }
            let nlen = n.len();
            Some(subrange_of(n, i + 1, nlen))
        } else {
            None
        },
        None => None,
    }
}

/// The filename of a path, with its extension.
pub fn file_name_of(p: &str) -> (r: Option<String>)
    ensures
        match r {
            Some(n) => file_name_spec(p@) == Some(n@),
            None => file_name_spec(p@) is None,
        },
{
    let v = chars_of(p);
    match file_name_chars(&v) {
        Some(n) => Some(string_of(&n)),
        None => None,
    }
}

/// The filename of a path without its extension.
pub fn file_stem_of(p: &str) -> (r: Option<String>)
    ensures
        match r {
            Some(n) => fstem_spec(p@) == Some(n@),
            None => fstem_spec(p@) is None,
        },
{
    let v = chars_of(p);
    match file_name_chars(&v) {
        Some(n) => Some(string_of(&stem_chars(&n))),
        None => None,
    }
}

/// The extension of a path's filename.
pub fn extension_of(p: &str) -> (r: Option<String>)
    ensures
        match r {
            Some(e) => (match file_name_spec(p@) {
                Some(n) => ext_spec(n) == Some(e@),
                None => false,
            }),
            None => (match file_name_spec(p@) {
                Some(n) => ext_spec(n) is None,
                None => true,
            }),
        },
{
    let v = chars_of(p);
    match file_name_chars(&v) {
        Some(n) => match ext_chars(&n) {
            Some(e) => Some(string_of(&e)),
            None => None,
        },
        None => None,
    }
}

/// The parent of a path, per `parent_spec`.
pub fn parent_of(p: &str) -> (r: Option<String>)
    ensures
        match r {
            Some(d) => parent_spec(p@) == Some(d@),
            None => parent_spec(p@) is None,
        },
{
    let v = chars_of(p);
    match last_sep_index(&v) {
        Some(i) => {
            proof {
                lemma_last_sep(v@);
                assert(v@.subrange(0, i as int) =~= v@.take(i as int));
            }
            Some(string_of(&subrange_of(&v, 0, i)))
        },
        None => if v.len() == 0 {
            None
        } else {
            let empty: Vec<char> = Vec::new();
            Some(string_of(&empty))
        },
    }
}

/// Whether `s` denotes an absolute Windows path (drive-letter form).
pub fn is_drive_absolute(s: &str) -> (r: bool)
    ensures
        r == is_drive_absolute_spec(s@),
{
    let v = chars_of(s);
    if v.len() < 3 {
        return false;
    }
    let c0 = v[0];
    let c1 = v[1];
    let c2 = v[2];
    (('a' <= c0 && c0 <= 'z') || ('A' <= c0 && c0 <= 'Z')) && c1 == ':' && (c2 == '/' || c2
        == '\\')
}

} // verus!
