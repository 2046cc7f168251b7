//! The link registry: command entries in a directory, kept as two-level
//! symlink chains `visible-name -> detached-name -> canonical-binary`.
//!
//! The registry works over a snapshot of its directory: for each child the
//! surrounding program reports the child's name, the filename its symlink
//! points at (when it is one), and the canonical resolutions of the child and
//! of its target.  Membership, listing, cache refresh and the validation of
//! add and remove requests are all decided here; the surrounding program
//! carries out the returned plans with the filesystem and hands back a fresh
//! snapshot.

use vstd::prelude::*;
use vstd::string::StringExecFns;
use crate::argtrans::strs_view;
use crate::namecodec::{exe_ext, exe_suffix, to_detached, with_ext};
use crate::pathview::{
    chars_of, ext_spec, file_name_chars, file_name_of, file_name_spec, stem_spec, string_of,
};

verus! {

/// What a directory scan reports of one child.
#[derive(Debug)]
pub struct DirEntry {
    /// The child's filename within the directory.
    pub name: String,
    /// The filename of the symlink's target; absent when the child is no
    /// symlink or its target could not be read.
    pub target_name: Option<String>,
    /// The canonical resolution of the child; absent when resolution fails.
    pub resolved: Option<String>,
    /// The canonical resolution of the target, taken against the directory;
    /// absent when resolution fails.
    pub target_resolved: Option<String>,
}

#[verifier::ext_equal]
pub ghost struct DirEntryV {
    pub name: Seq<char>,
    pub target_name: Option<Seq<char>>,
    pub resolved: Option<Seq<char>>,
    pub target_resolved: Option<Seq<char>>,
}

impl View for DirEntry {
    type V = DirEntryV;

    open spec fn view(&self) -> DirEntryV {
        DirEntryV {
            name: self.name@,
            target_name: match self.target_name {
                Some(t) => Some(t@),
                None => None,
            },
            resolved: match self.resolved {
                Some(p) => Some(p@),
                None => None,
            },
            target_resolved: match self.target_resolved {
                Some(p) => Some(p@),
                None => None,
            },
        }
    }
}

/// A directory's children and its modification time, as one observation.
#[derive(Debug)]
pub struct DirSnapshot {
    /// One record per readable child.
    pub entries: Vec<DirEntry>,
    /// The directory's modification time; absent when it could not be read.
    pub mtime: Option<u64>,
}

pub open spec fn entries_view(v: Seq<DirEntry>) -> Seq<DirEntryV> {
    v.map_values(|e: DirEntry| e@)
}

/// Whether a child is a command entry of the registry with canonical binary
/// `orig` and running image filename `binname`: an `exe`-named symlink, not
/// the running image and not detached-prefixed, whose target is its own
/// detached sibling, both resolving to the canonical binary.
pub open spec fn is_entry_spec(e: DirEntryV, orig: Seq<char>, binname: Seq<char>) -> bool {
    match e.target_name {
        None => false,
        Some(t) => {
            &&& ext_spec(e.name) == Some(exe_ext())
            &&& ext_spec(t) == Some(exe_ext())
            &&& e.resolved == Some(orig)
            &&& e.target_resolved == Some(orig)
            &&& e.name != binname
            &&& t != binname
            &&& !(e.name.len() > 0 && e.name[0] == '.')
            &&& t == seq!['.'] + e.name
        },
    }
}

/// The names a scan reports: the stem of each matching child, in directory
/// order.
pub open spec fn scan_spec(es: Seq<DirEntryV>, orig: Seq<char>, binname: Seq<char>) -> Seq<
    Seq<char>,
>
    decreases es.len(),
{
    if es.len() == 0 {
        Seq::<Seq<char>>::empty()
    } else {
        (if is_entry_spec(es[0], orig, binname) {
            seq![stem_spec(es[0].name)]
        } else {
            Seq::<Seq<char>>::empty()
        }) + scan_spec(es.skip(1), orig, binname)
    }
}

/// The structured errors of registry operations.
#[derive(Debug, PartialEq, Eq, Structural, Clone, Copy)]
pub enum WslCmdError {
    /// The name gives no filename, collides with the canonical binary, or
    /// carries the detached prefix.
    InvalidName,
    /// The add target is already an entry.
    AlreadyExists,
    /// The remove target does not exist.
    NotFound,
    /// The remove target exists but is not an entry.
    NotAnEntry,
}

/// The filesystem steps that add an entry: create the symlink
/// `detached_name -> target_name`, then `visible_name -> detached_name`;
/// when the second step fails, remove the detached link again and report the
/// failure.
#[derive(Debug)]
pub struct LinkPlan {
    pub visible_name: String,
    pub detached_name: String,
    pub target_name: String,
}

/// The filesystem steps that remove an entry: remove `visible_name`, then
/// `detached_name`; when the second step fails, recreate the symlink
/// `visible_name -> detached_name` and report the failure.
#[derive(Debug)]
pub struct UnlinkPlan {
    pub visible_name: String,
    pub detached_name: String,
}

/// A directory-scoped registry of command entries, with its cached listing.
#[derive(Debug)]
pub struct WslCmdList {
    /// Path of the running image, as provided.
    binpath: String,
    /// Path of the canonical binary: the running image with all symlinks
    /// resolved.
    orig_binpath: String,
    /// The cached listing.
    cmdlist_cached: Vec<String>,
    /// The directory modification time the cache was filled at.
    cmdlist_cached_time: Option<u64>,
}

#[verifier::ext_equal]
pub ghost struct WslCmdListV {
    pub binpath: Seq<char>,
    pub orig_binpath: Seq<char>,
    pub cmdlist: Seq<Seq<char>>,
    pub cmdlist_time: Option<u64>,
}

impl View for WslCmdList {
    type V = WslCmdListV;

    closed spec fn view(&self) -> WslCmdListV {
        WslCmdListV {
            binpath: self.binpath@,
            orig_binpath: self.orig_binpath@,
            cmdlist: strs_view(self.cmdlist_cached@),
            cmdlist_time: self.cmdlist_cached_time,
        }
    }
}

/// A registry is well-formed when its running image path has a filename.
pub open spec fn wf(v: WslCmdListV) -> bool {
    file_name_spec(v.binpath) is Some
}

/// The running image's filename.
pub open spec fn binname_of(v: WslCmdListV) -> Seq<char> {
    file_name_spec(v.binpath)->Some_0
}

/// The visible name an operand maps to: its final path component with the
/// executable extension appended; absent when there is no path component.
pub open spec fn visible_of(cmdname: Seq<char>) -> Option<Seq<char>> {
    match file_name_spec(cmdname) {
        Some(f) => Some(f + exe_suffix()),
        None => None,
    }
}

/// A visible name is acceptable when it is not the canonical binary's
/// filename and does not carry the detached prefix.
pub open spec fn valid_new_name(v: WslCmdListV, visible: Seq<char>) -> bool {
    &&& Some(visible) != file_name_spec(v.orig_binpath)
    &&& !(visible.len() > 0 && visible[0] == '.')
}

/// Whether some child carries this name.
pub open spec fn has_named_entry(es: Seq<DirEntryV>, name: Seq<char>) -> bool {
    exists|i: int| 0 <= i < es.len() && es[i].name == name
}

/// Whether some child with this name is an entry.
pub open spec fn has_matching_entry(
    es: Seq<DirEntryV>,
    orig: Seq<char>,
    binname: Seq<char>,
    name: Seq<char>,
) -> bool {
    exists|i: int|
        0 <= i < es.len() && es[i].name == name && is_entry_spec(es[i], orig, binname)
}

/// What an add request decides: the visible name it will create, or the
/// error it is rejected with.
pub open spec fn link_decision(v: WslCmdListV, cmdname: Seq<char>, es: Seq<DirEntryV>) -> Result<
    Seq<char>,
    WslCmdError,
> {
    match visible_of(cmdname) {
        None => Err(WslCmdError::InvalidName),
        Some(vis) => if !valid_new_name(v, vis) {
            Err(WslCmdError::InvalidName)
        } else if has_matching_entry(es, v.orig_binpath, binname_of(v), vis) {
            Err(WslCmdError::AlreadyExists)
        } else {
            Ok(vis)
        },
    }
}

/// What a remove request decides: the visible name it will remove, or the
/// error it is rejected with.
pub open spec fn unlink_decision(v: WslCmdListV, cmdname: Seq<char>, es: Seq<DirEntryV>) -> Result<
    Seq<char>,
    WslCmdError,
> {
    match visible_of(cmdname) {
        None => Err(WslCmdError::InvalidName),
        Some(vis) => if !valid_new_name(v, vis) {
            Err(WslCmdError::InvalidName)
        } else if !has_named_entry(es, vis) {
            Err(WslCmdError::NotFound)
        } else if !has_matching_entry(es, v.orig_binpath, binname_of(v), vis) {
            Err(WslCmdError::NotAnEntry)
        } else {
            Ok(vis)
        },
    }
}

/// Whether a lazy refresh rescans: only when the directory's modification
/// time is readable and has advanced past the cache's.
pub open spec fn should_refresh(v: WslCmdListV, mtime: Option<u64>) -> bool {
    match mtime {
        Some(t) => match v.cmdlist_time {
            Some(c) => t > c,
            None => true,
        },
        None => false,
    }
}

/// The registry view after a rescan from a snapshot.
pub open spec fn rescanned(v: WslCmdListV, d: Seq<DirEntryV>, mtime: Option<u64>) -> WslCmdListV {
    WslCmdListV {
        cmdlist: scan_spec(d, v.orig_binpath, binname_of(v)),
        cmdlist_time: mtime,
        ..v
    }
}

impl WslCmdList {
    /// Create a registry for the running image at `binpath`, whose full
    /// symlink resolution the caller supplies as `orig_binpath`, and fill
    /// the cache from the given snapshot of the image's directory.
    pub fn new(binpath: String, orig_binpath: String, dir: &DirSnapshot) -> (r: WslCmdList)
        requires
            file_name_spec(binpath@) is Some,
        ensures
            wf(r@),
            r@.binpath == binpath@,
            r@.orig_binpath == orig_binpath@,
            r@ == rescanned(r@, entries_view(dir.entries@), dir.mtime),
    {
        let mut r = WslCmdList {
            binpath,
            orig_binpath,
            cmdlist_cached: Vec::new(),
            cmdlist_cached_time: None,
        };
        r.refresh_wslcmd_list(true, dir);
        r
    }

    /// Whether this snapshot child is a command entry of this registry.
    pub fn is_wslcmd_file(&self, e: &DirEntry) -> (r: bool)
        requires
            wf(self@),
        ensures
            r == is_entry_spec(e@, self@.orig_binpath, binname_of(self@)),
    {
        let binname = match file_name_of(self.binpath.as_str()) {
            Some(b) => b,
            None => {
                return false;
            },
        };
        let t = match &e.target_name {
            Some(t) => t,
            None => {
                return false;
            },
        };
        let name_ok = is_exe_name(&e.name) && !starts_with_dot(&e.name) && !eq_str(
            &e.name,
            &binname,
        );
        let target_ok = is_exe_name(t) && !eq_str(t, &binname) && eq_str(
            t,
            &to_detached(e.name.as_str()),
        );
        let resolved_ok = match &e.resolved {
            Some(p) => eq_str(p, &self.orig_binpath),
            None => false,
        };
        let target_resolved_ok = match &e.target_resolved {
            Some(p) => eq_str(p, &self.orig_binpath),
            None => false,
        };
        name_ok && target_ok && resolved_ok && target_resolved_ok
    }

    /// Scan a snapshot for this registry's entries, reporting each entry's
    /// stem in directory order, together with the snapshot's modification
    /// time.
    pub fn wslcmd_list(&self, dir: &DirSnapshot) -> (r: (Vec<String>, Option<u64>))
        requires
            wf(self@),
        ensures
            strs_view(r.0@) == scan_spec(
                entries_view(dir.entries@),
                self@.orig_binpath,
                binname_of(self@),
            ),
            r.1 == dir.mtime,
    {
        let ghost orig = self@.orig_binpath;
        let ghost binname = binname_of(self@);
        let mut out: Vec<String> = Vec::new();
        let mut i: usize = 0;
        while i < dir.entries.len()
            invariant
                wf(self@),
                orig == self@.orig_binpath,
                binname == binname_of(self@),
                i <= dir.entries@.len(),
                strs_view(out@) == scan_spec(
                    entries_view(dir.entries@).take(i as int),
                    orig,
                    binname,
                ),
            decreases dir.entries@.len() - i,
        {
            let ghost pre = strs_view(out@);
            let e = &dir.entries[i];
            if self.is_wslcmd_file(e) {
                let v = chars_of(e.name.as_str());
                let n = crate::pathview::stem_chars(&v);
                out.push(string_of(&n));
            }
            proof {
                let evs = entries_view(dir.entries@);
                lemma_scan_spec_snoc(evs.take(i as int), evs[i as int], orig, binname);
                assert(evs.take(i as int + 1) =~= evs.take(i as int).push(evs[i as int]));
                if is_entry_spec(evs[i as int], orig, binname) {
                    assert(strs_view(out@) =~= pre.push(stem_spec(evs[i as int].name)));
                    assert(strs_view(out@) =~= scan_spec(evs.take(i as int + 1), orig, binname));
                } else {
                    assert(strs_view(out@) =~= scan_spec(evs.take(i as int + 1), orig, binname));
                }
            }
            i = i + 1;
        }
        proof {
            assert(entries_view(dir.entries@).take(i as int) =~= entries_view(dir.entries@));
        }
        (out, dir.mtime)
    }

    /// Rescan only when the directory's modification time has advanced past
    /// the cache's.
    pub fn get_wslcmd_list_if_changed(&self, dir: &DirSnapshot) -> (r: Option<
        (Vec<String>, Option<u64>),
    >)
        requires
            wf(self@),
        ensures
            r is Some <==> should_refresh(self@, dir.mtime),
            match r {
                Some(p) => strs_view(p.0@) == scan_spec(
                    entries_view(dir.entries@),
                    self@.orig_binpath,
                    binname_of(self@),
                ) && p.1 == dir.mtime,
                None => true,
            },
    {
        let refresh = match dir.mtime {
            Some(t) => match self.cmdlist_cached_time {
                Some(c) => t > c,
                None => true,
            },
            None => false,
        };
        if refresh {
            Some(self.wslcmd_list(dir))
        } else {
            None
        }
    }

    /// Refresh the cached listing: unconditionally when forced, else only
    /// when the directory's modification time has advanced.
    pub fn refresh_wslcmd_list(&mut self, force_refresh: bool, dir: &DirSnapshot)
        requires
            wf(old(self)@),
        ensures
            final(self)@ == if force_refresh || should_refresh(old(self)@, dir.mtime) {
                rescanned(old(self)@, entries_view(dir.entries@), dir.mtime)
            } else {
                old(self)@
            },
    {
        if force_refresh {
            let (list, time) = self.wslcmd_list(dir);
            self.cmdlist_cached = list;
            self.cmdlist_cached_time = time;
            proof {
                assert(self@ =~= rescanned(old(self)@, entries_view(dir.entries@), dir.mtime));
            }
        } else {
            match self.get_wslcmd_list_if_changed(dir) {
                Some((list, time)) => {
                    self.cmdlist_cached = list;
                    self.cmdlist_cached_time = time;
                    proof {
                        assert(self@ =~= rescanned(
                            old(self)@,
                            entries_view(dir.entries@),
                            dir.mtime,
                        ));
                    }
                },
                None => {
                    proof {
                        assert(self@ =~= old(self)@);
                    }
                },
            }
        }
    }

    /// The current listing, lazily refreshed from the snapshot.
    pub fn get_cmdlist(&mut self, dir: &DirSnapshot) -> (r: Vec<String>)
        requires
            wf(old(self)@),
        ensures
            final(self)@ == if should_refresh(old(self)@, dir.mtime) {
                rescanned(old(self)@, entries_view(dir.entries@), dir.mtime)
            } else {
                old(self)@
            },
            strs_view(r@) == final(self)@.cmdlist,
    {
        self.refresh_wslcmd_list(false, dir);
        clone_strings(&self.cmdlist_cached)
    }

    /// Validate an add request against a snapshot and return the filesystem
    /// plan that installs the entry.
    pub fn link_wslcmd(&self, cmdname: &str, dir: &DirSnapshot) -> (r: Result<
        LinkPlan,
        WslCmdError,
    >)
        requires
            wf(self@),
        ensures
            match r {
                Ok(plan) => link_decision(self@, cmdname@, entries_view(dir.entries@)) == Ok::<
                    Seq<char>,
                    WslCmdError,
                >(plan.visible_name@) && plan.detached_name@ == seq!['.'] + plan.visible_name@
                    && Some(plan.target_name@) == file_name_spec(self@.binpath),
                Err(e) => link_decision(self@, cmdname@, entries_view(dir.entries@)) == Err::<
                    Seq<char>,
                    WslCmdError,
                >(e),
            },
    {
        let visible = match self.validated_visible_name(cmdname) {
            Ok(v) => v,
            Err(e) => {
                return Err(e);
            },
        };
        if self.find_entry(dir, &visible) {
            return Err(WslCmdError::AlreadyExists);
        }
        let detached_name = to_detached(visible.as_str());
        let target_name = match file_name_of(self.binpath.as_str()) {
            Some(t) => t,
            None => {
                return Err(WslCmdError::InvalidName);
            },
        };
        Ok(LinkPlan { visible_name: visible, detached_name, target_name })
    }

    /// Validate a remove request against a snapshot and return the
    /// filesystem plan that removes the entry.
    pub fn unlink_wslcmd(&self, cmdname: &str, dir: &DirSnapshot) -> (r: Result<
        UnlinkPlan,
        WslCmdError,
    >)
        requires
            wf(self@),
        ensures
            match r {
                Ok(plan) => unlink_decision(self@, cmdname@, entries_view(dir.entries@)) == Ok::<
                    Seq<char>,
                    WslCmdError,
                >(plan.visible_name@) && plan.detached_name@ == seq!['.'] + plan.visible_name@,
                Err(e) => unlink_decision(self@, cmdname@, entries_view(dir.entries@)) == Err::<
                    Seq<char>,
                    WslCmdError,
                >(e),
            },
    {
        let visible = match self.validated_visible_name(cmdname) {
            Ok(v) => v,
            Err(e) => {
                return Err(e);
            },
        };
        if !find_named(dir, &visible) {
            return Err(WslCmdError::NotFound);
        }
        if !self.find_entry(dir, &visible) {
            return Err(WslCmdError::NotAnEntry);
        }
        let detached_name = to_detached(visible.as_str());
        Ok(UnlinkPlan { visible_name: visible, detached_name })
    }

    /// The visible name for an operand, rejected when the operand has no
    /// filename, names the canonical binary, or carries the detached prefix.
    fn validated_visible_name(&self, cmdname: &str) -> (r: Result<String, WslCmdError>)
        requires
            wf(self@),
        ensures
            match r {
                Ok(vis) => visible_of(cmdname@) == Some(vis@) && valid_new_name(self@, vis@),
                Err(e) => e == WslCmdError::InvalidName && (visible_of(cmdname@) is None
                    || !valid_new_name(self@, visible_of(cmdname@)->Some_0)),
            },
    {
        let v = chars_of(cmdname);
        let f = match file_name_chars(&v) {
            Some(f) => f,
            None => {
                return Err(WslCmdError::InvalidName);
            },
        };
        let fs = string_of(&f);
        let visible = with_ext(fs.as_str());
        let clash = match file_name_of(self.orig_binpath.as_str()) {
            Some(ob) => eq_str(&ob, &visible),
            None => false,
        };
        let starts_dot = f[0] == '.';
        proof {
            assert(visible@[0] == f@[0]);
        }
        if clash || starts_dot {
            Err(WslCmdError::InvalidName)
        } else {
            Ok(visible)
        }
    }

    /// Whether the snapshot holds an entry of this registry with this name.
    fn find_entry(&self, dir: &DirSnapshot, name: &String) -> (r: bool)
        requires
            wf(self@),
        ensures
            r == has_matching_entry(
                entries_view(dir.entries@),
                self@.orig_binpath,
                binname_of(self@),
                name@,
            ),
    {
        let mut i: usize = 0;
        while i < dir.entries.len()
            invariant
                wf(self@),
                i <= dir.entries@.len(),
                forall|k: int|
                    0 <= k < i ==> !(entries_view(dir.entries@)[k].name == name@ && is_entry_spec(
                        entries_view(dir.entries@)[k],
                        self@.orig_binpath,
                        binname_of(self@),
                    )),
            decreases dir.entries@.len() - i,
        {
            let e = &dir.entries[i];
            if eq_str(&e.name, name) && self.is_wslcmd_file(e) {
                proof {
                    let evs = entries_view(dir.entries@);
                    assert(evs[i as int].name == name@ && is_entry_spec(
                        evs[i as int],
                        self@.orig_binpath,
                        binname_of(self@),
                    ));
                }
                return true;
            }
            i = i + 1;
        }
        false
    }
}

/// Whether the snapshot holds a child with this name.
fn find_named(dir: &DirSnapshot, name: &String) -> (r: bool)
    ensures
        r == has_named_entry(entries_view(dir.entries@), name@),
{
    let mut i: usize = 0;
    while i < dir.entries.len()
        invariant
            i <= dir.entries@.len(),
            forall|k: int| 0 <= k < i ==> entries_view(dir.entries@)[k].name != name@,
        decreases dir.entries@.len() - i,
    {
        if eq_str(&dir.entries[i].name, name) {
            proof {
                assert(entries_view(dir.entries@)[i as int].name == name@);
            }
            return true;
        }
        i = i + 1;
    }
    false
}

/// String equality by contents.
fn eq_str(a: &String, b: &String) -> (r: bool)
    ensures
        r == (a@ == b@),
{
    a.eq(b)
}

/// A copy of a string vector.
fn clone_strings(v: &Vec<String>) -> (r: Vec<String>)
    ensures
        strs_view(r@) == strs_view(v@),
{
    let mut out: Vec<String> = Vec::new();
    let mut i: usize = 0;
    while i < v.len()
        invariant
            i <= v@.len(),
            out@.len() == i,
            forall|k: int| 0 <= k < i ==> out@[k]@ == v@[k]@,
        decreases v@.len() - i,
    {
        out.push(v[i].clone());
        i = i + 1;
    }
    proof {
        assert(strs_view(out@) =~= strs_view(v@));
    }
    out
}

/// Whether a filename carries the executable extension.
fn is_exe_name(n: &String) -> (r: bool)
    ensures
        r == (ext_spec(n@) == Some(exe_ext())),
{
    let v = chars_of(n.as_str());
    match crate::pathview::ext_chars(&v) {
        Some(e) => {
            let r = e.len() == 3 && e[0] == 'e' && e[1] == 'x' && e[2] == 'e';
            proof {
                if r {
                    assert(e@ =~= exe_ext());
                } else {
                    assert(e@ != exe_ext());
                }
            }
            r
        },
        None => false,
    }
}

/// Whether a filename begins with the detached prefix.
fn starts_with_dot(n: &String) -> (r: bool)
    ensures
        r == (n@.len() > 0 && n@[0] == '.'),
{
    let v = chars_of(n.as_str());
    v.len() > 0 && v[0] == '.'
}

/// Scanning one more child appends its stem exactly when it is an entry.
proof fn lemma_scan_spec_snoc(es: Seq<DirEntryV>, e: DirEntryV, orig: Seq<char>, binname: Seq<char>)
    ensures
        scan_spec(es.push(e), orig, binname) == scan_spec(es, orig, binname) + (if is_entry_spec(
            e,
            orig,
            binname,
        ) {
            seq![stem_spec(e.name)]
        } else {
            Seq::<Seq<char>>::empty()
        }),
    decreases es.len(),
{
    if es.len() == 0 {
        assert(es.push(e)[0] == e);
        assert(es.push(e).skip(1) =~= Seq::<DirEntryV>::empty());
        assert(scan_spec(Seq::<DirEntryV>::empty(), orig, binname) == Seq::<Seq<char>>::empty());
        assert(scan_spec(es.push(e), orig, binname) =~= scan_spec(es, orig, binname) + (
        if is_entry_spec(e, orig, binname) {
            seq![stem_spec(e.name)]
        } else {
            Seq::<Seq<char>>::empty()
        }));
    } else {
        lemma_scan_spec_snoc(es.skip(1), e, orig, binname);
        assert(es.push(e).skip(1) =~= es.skip(1).push(e));
        assert(es.push(e)[0] == es[0]);
        assert(scan_spec(es.push(e), orig, binname) =~= scan_spec(es, orig, binname) + (
        if is_entry_spec(e, orig, binname) {
            seq![stem_spec(e.name)]
        } else {
            Seq::<Seq<char>>::empty()
        }));
    }
}

/// What the scan reports, element by element: exactly the stems of the
/// matching children.
pub proof fn lemma_scan_spec_elems(es: Seq<DirEntryV>, orig: Seq<char>, binname: Seq<char>)
    ensures
        forall|s: Seq<char>|
            #[trigger] scan_spec(es, orig, binname).contains(s) <==> exists|i: int|
                0 <= i < es.len() && #[trigger] is_entry_spec(es[i], orig, binname) && stem_spec(
                    es[i].name,
                ) == s,
    decreases es.len(),
{
    if es.len() == 0 {
        assert forall|s: Seq<char>| !#[trigger] scan_spec(es, orig, binname).contains(s) by {
            assert(scan_spec(es, orig, binname).len() == 0);
        }
    } else {
        lemma_scan_spec_elems(es.skip(1), orig, binname);
        let head: Seq<Seq<char>> = if is_entry_spec(es[0], orig, binname) {
            seq![stem_spec(es[0].name)]
        } else {
            Seq::<Seq<char>>::empty()
        };
        let tail = scan_spec(es.skip(1), orig, binname);
        assert(scan_spec(es, orig, binname) == head + tail);
        assert forall|s: Seq<char>| #[trigger]
            scan_spec(es, orig, binname).contains(s) implies exists|i: int|
            0 <= i < es.len() && #[trigger] is_entry_spec(es[i], orig, binname) && stem_spec(
                es[i].name,
            ) == s by {
            let k = choose|k: int| 0 <= k < (head + tail).len() && (head + tail)[k] == s;
            if k < head.len() {
                assert(is_entry_spec(es[0], orig, binname) && stem_spec(es[0].name) == s);
            } else {
                assert(tail[k - head.len()] == s);
                assert(tail.contains(s));
                let i = choose|i: int|
                    0 <= i < es.skip(1).len() && #[trigger] is_entry_spec(
                        es.skip(1)[i],
                        orig,
                        binname,
                    ) && stem_spec(es.skip(1)[i].name) == s;
                assert(es.skip(1)[i] == es[i + 1]);
                assert(is_entry_spec(es[i + 1], orig, binname) && stem_spec(es[i + 1].name) == s);
            }
        }
        assert forall|s: Seq<char>|
            (exists|i: int|
                0 <= i < es.len() && #[trigger] is_entry_spec(es[i], orig, binname) && stem_spec(
                    es[i].name,
                ) == s) implies #[trigger] scan_spec(es, orig, binname).contains(s) by {
            let i = choose|i: int|
                0 <= i < es.len() && #[trigger] is_entry_spec(es[i], orig, binname) && stem_spec(
                    es[i].name,
                ) == s;
            if i == 0 {
                assert((head + tail)[0] == s);
            } else {
                assert(es.skip(1)[i - 1] == es[i]);
                assert(tail.contains(s));
                let k = choose|k: int| 0 <= k < tail.len() && tail[k] == s;
                assert((head + tail)[head.len() + k] == s);
            }
        }
    }
}

/// The listing is a set: over a directory snapshot — whose children, as in
/// any directory, carry pairwise distinct names — no name is reported
/// twice.
pub proof fn lemma_scan_spec_no_duplicates(es: Seq<DirEntryV>, orig: Seq<char>, binname: Seq<char>)
    requires
        forall|i: int, j: int| 0 <= i < j < es.len() ==> es[i].name != es[j].name,
    ensures
        forall|i: int, j: int|
            0 <= i < j < scan_spec(es, orig, binname).len() ==> scan_spec(es, orig, binname)[i]
                != scan_spec(es, orig, binname)[j],
    decreases es.len(),
{
    if es.len() == 0 {
    } else {
        assert forall|i: int, j: int| 0 <= i < j < es.skip(1).len() implies es.skip(1)[i].name
            != es.skip(1)[j].name by {
            assert(es.skip(1)[i] == es[i + 1]);
            assert(es.skip(1)[j] == es[j + 1]);
        }
        lemma_scan_spec_no_duplicates(es.skip(1), orig, binname);
        let head: Seq<Seq<char>> = if is_entry_spec(es[0], orig, binname) {
            seq![stem_spec(es[0].name)]
        } else {
            Seq::<Seq<char>>::empty()
        };
        let tail = scan_spec(es.skip(1), orig, binname);
        let s = scan_spec(es, orig, binname);
        assert(s == head + tail);
        if is_entry_spec(es[0], orig, binname) && tail.contains(stem_spec(es[0].name)) {
            lemma_scan_spec_elems(es.skip(1), orig, binname);
            let k = choose|k: int|
                0 <= k < es.skip(1).len() && #[trigger] is_entry_spec(
                    es.skip(1)[k],
                    orig,
                    binname,
                ) && stem_spec(es.skip(1)[k].name) == stem_spec(es[0].name);
            crate::namecodec::lemma_exe_name_decompose(es[0].name);
            crate::namecodec::lemma_exe_name_decompose(es.skip(1)[k].name);
            assert(es.skip(1)[k] == es[k + 1]);
            assert(es[k + 1].name == es[0].name);
        }
        assert forall|i: int, j: int| 0 <= i < j < s.len() implies s[i] != s[j] by {
            if i >= head.len() {
                assert(s[i] == tail[i - head.len()]);
                assert(s[j] == tail[j - head.len()]);
            } else {
                assert(s[j] == tail[j - head.len()]);
                if s[i] == s[j] {
                    assert(tail.contains(s[i]));
                }
            }
        }
    }
}

/// Membership soundness of an add: when the request was accepted and the
/// filesystem then created both links — so the new snapshot holds the
/// visible entry, its chain resolves to the canonical binary, and neither
/// created name was the running image's own (a directory holds one file per
/// name, so the creation could not have succeeded otherwise) — the visible
/// entry is a command entry and the listing reports the operand's name.
pub proof fn lemma_link_membership(
    v: WslCmdListV,
    cmdname: Seq<char>,
    es_before: Seq<DirEntryV>,
    post: Seq<DirEntryV>,
    i: int,
    vis: Seq<char>,
)
    requires
        wf(v),
        link_decision(v, cmdname, es_before) == Ok::<Seq<char>, WslCmdError>(vis),
        0 <= i < post.len(),
        post[i].name == vis,
        post[i].target_name == Some(seq!['.'] + vis),
        post[i].resolved == Some(v.orig_binpath),
        post[i].target_resolved == Some(v.orig_binpath),
        vis != binname_of(v),
        seq!['.'] + vis != binname_of(v),
    ensures
        is_entry_spec(post[i], v.orig_binpath, binname_of(v)),
        scan_spec(post, v.orig_binpath, binname_of(v)).contains(file_name_spec(cmdname)->Some_0),
{
    let f = file_name_spec(cmdname)->Some_0;
    assert(vis == f + exe_suffix());
    assert(f.len() > 0);
    crate::namecodec::lemma_exe_name_shape(f);
    let t = seq!['.'] + vis;
    assert(t =~= (seq!['.'] + f) + exe_suffix());
    crate::namecodec::lemma_exe_name_shape(seq!['.'] + f);
    assert(ext_spec(t) == Some(exe_ext()));
    assert(!(vis.len() > 0 && vis[0] == '.'));
    assert(is_entry_spec(post[i], v.orig_binpath, binname_of(v)));
    lemma_scan_spec_elems(post, v.orig_binpath, binname_of(v));
    assert(stem_spec(post[i].name) == f);
    assert(scan_spec(post, v.orig_binpath, binname_of(v)).contains(f));
}

/// Removal soundness of a remove: once no child carries the visible name,
/// the listing no longer reports its stem.
pub proof fn lemma_unlink_removal(v: WslCmdListV, vis: Seq<char>, post: Seq<DirEntryV>)
    requires
        wf(v),
        ext_spec(vis) == Some(exe_ext()),
        forall|i: int| 0 <= i < post.len() ==> post[i].name != vis,
    ensures
        !scan_spec(post, v.orig_binpath, binname_of(v)).contains(stem_spec(vis)),
{
    lemma_scan_spec_elems(post, v.orig_binpath, binname_of(v));
    crate::namecodec::lemma_exe_name_decompose(vis);
    if scan_spec(post, v.orig_binpath, binname_of(v)).contains(stem_spec(vis)) {
        let i = choose|i: int|
            0 <= i < post.len() && #[trigger] is_entry_spec(
                post[i],
                v.orig_binpath,
                binname_of(v),
            ) && stem_spec(post[i].name) == stem_spec(vis);
        crate::namecodec::lemma_exe_name_decompose(post[i].name);
        assert(post[i].name == stem_spec(vis) + exe_suffix());
        assert(post[i].name == vis);
    }
}

/// Self-exclusion: the listing never reports the canonical binary itself.
/// Holds of every directory state whenever the running image carries the
/// canonical binary's filename.
pub proof fn lemma_self_exclusion(v: WslCmdListV, es: Seq<DirEntryV>)
    requires
        wf(v),
        file_name_spec(v.binpath) == file_name_spec(v.orig_binpath),
    ensures
        forall|s: Seq<char>| #[trigger]
            scan_spec(es, v.orig_binpath, binname_of(v)).contains(s) ==> Some(s + exe_suffix())
                != file_name_spec(v.orig_binpath),
{
    lemma_scan_spec_elems(es, v.orig_binpath, binname_of(v));
    assert forall|s: Seq<char>| #[trigger]
        scan_spec(es, v.orig_binpath, binname_of(v)).contains(s) implies Some(s + exe_suffix())
        != file_name_spec(v.orig_binpath) by {
        let i = choose|i: int|
            0 <= i < es.len() && #[trigger] is_entry_spec(es[i], v.orig_binpath, binname_of(v))
                && stem_spec(es[i].name) == s;
        crate::namecodec::lemma_exe_name_decompose(es[i].name);
        assert(es[i].name == s + exe_suffix());
        assert(es[i].name != binname_of(v));
    }
}

/// Multi-registry isolation: two registries rooted at different canonical
/// binaries list disjoint names over one snapshot of their shared directory
/// (whose children, as in any directory, carry pairwise distinct names).
pub proof fn lemma_registry_isolation(v1: WslCmdListV, v2: WslCmdListV, es: Seq<DirEntryV>)
    requires
        wf(v1),
        wf(v2),
        v1.orig_binpath != v2.orig_binpath,
        forall|i: int, j: int| 0 <= i < j < es.len() ==> es[i].name != es[j].name,
    ensures
        forall|s: Seq<char>|
            !(#[trigger] scan_spec(es, v1.orig_binpath, binname_of(v1)).contains(s) && #[trigger]
            scan_spec(es, v2.orig_binpath, binname_of(v2)).contains(s)),
{
    lemma_scan_spec_elems(es, v1.orig_binpath, binname_of(v1));
    lemma_scan_spec_elems(es, v2.orig_binpath, binname_of(v2));
    assert forall|s: Seq<char>|
        !(#[trigger] scan_spec(es, v1.orig_binpath, binname_of(v1)).contains(s) && #[trigger]
        scan_spec(es, v2.orig_binpath, binname_of(v2)).contains(s)) by {
        if scan_spec(es, v1.orig_binpath, binname_of(v1)).contains(s) && scan_spec(
            es,
            v2.orig_binpath,
            binname_of(v2),
        ).contains(s) {
            let i1 = choose|i: int|
                0 <= i < es.len() && #[trigger] is_entry_spec(
                    es[i],
                    v1.orig_binpath,
                    binname_of(v1),
                ) && stem_spec(es[i].name) == s;
            let i2 = choose|i: int|
                0 <= i < es.len() && #[trigger] is_entry_spec(
                    es[i],
                    v2.orig_binpath,
                    binname_of(v2),
                ) && stem_spec(es[i].name) == s;
            crate::namecodec::lemma_exe_name_decompose(es[i1].name);
            crate::namecodec::lemma_exe_name_decompose(es[i2].name);
            assert(es[i1].name == s + exe_suffix());
            assert(es[i2].name == s + exe_suffix());
            assert(i1 == i2);
            assert(es[i1].resolved == Some(v1.orig_binpath));
            assert(es[i1].resolved == Some(v2.orig_binpath));
        }
    }
}

} // verus!
