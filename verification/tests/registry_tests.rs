//! Tests of the link registry over directory snapshots.

use wslcmd::registry::{DirEntry, DirSnapshot, WslCmdError, WslCmdList};

const BIN: &str = "D/wslcmd.exe";

fn plain_file(name: &str) -> DirEntry {
    DirEntry {
        name: String::from(name),
        target_name: None,
        resolved: Some(format!("D/{}", name)),
        target_resolved: None,
    }
}

fn chain_entry(name: &str, target: &str, canonical: &str) -> DirEntry {
    DirEntry {
        name: String::from(name),
        target_name: Some(String::from(target)),
        resolved: Some(String::from(canonical)),
        target_resolved: Some(String::from(canonical)),
    }
}

fn empty_dir(mtime: u64) -> DirSnapshot {
    DirSnapshot {
        entries: vec![plain_file("wslcmd.exe")],
        mtime: Some(mtime),
    }
}

fn dir_with_git(mtime: u64) -> DirSnapshot {
    DirSnapshot {
        entries: vec![
            plain_file("wslcmd.exe"),
            chain_entry("git.exe", ".git.exe", BIN),
            chain_entry(".git.exe", "wslcmd.exe", BIN),
        ],
        mtime: Some(mtime),
    }
}

fn registry(dir: &DirSnapshot) -> WslCmdList {
    WslCmdList::new(String::from(BIN), String::from(BIN), dir)
}

#[test]
fn test_add_creates_entries() {
    // An empty registry in D whose canonical binary is D/wslcmd.exe:
    // add("git") plans exactly the chain git.exe -> .git.exe -> wslcmd.exe,
    // and the listing then reports {"git"}.
    let before = empty_dir(0);
    let mut list = registry(&before);
    assert_eq!(list.get_cmdlist(&before), Vec::<String>::new());

    let plan = list.link_wslcmd("git", &before).expect("add git");
    assert_eq!(plan.visible_name, "git.exe");
    assert_eq!(plan.detached_name, ".git.exe");
    assert_eq!(plan.target_name, "wslcmd.exe");

    let after = dir_with_git(1);
    assert_eq!(list.get_cmdlist(&after), vec![String::from("git")]);
}

#[test]
fn test_add_existing_then_remove() {
    // Adding an installed command again is rejected; removing it plans the
    // removal of both links and empties the listing.
    let dir = dir_with_git(1);
    let mut list = registry(&dir);
    assert_eq!(
        list.link_wslcmd("git", &dir).unwrap_err(),
        WslCmdError::AlreadyExists
    );

    let plan = list.unlink_wslcmd("git", &dir).expect("remove git");
    assert_eq!(plan.visible_name, "git.exe");
    assert_eq!(plan.detached_name, ".git.exe");

    let after = empty_dir(2);
    assert_eq!(list.get_cmdlist(&after), Vec::<String>::new());
}

#[test]
fn test_remove_errors() {
    let dir = DirSnapshot {
        entries: vec![plain_file("wslcmd.exe"), plain_file("doc.exe")],
        mtime: Some(0),
    };
    let list = registry(&dir);
    assert_eq!(
        list.unlink_wslcmd("absent", &dir).unwrap_err(),
        WslCmdError::NotFound
    );
    assert_eq!(
        list.unlink_wslcmd("doc", &dir).unwrap_err(),
        WslCmdError::NotAnEntry
    );
}

#[test]
fn test_invalid_names() {
    let dir = empty_dir(0);
    let list = registry(&dir);
    // The canonical binary's own name and detached-prefixed names are
    // rejected; so is an operand without a filename.
    assert_eq!(
        list.link_wslcmd("wslcmd", &dir).unwrap_err(),
        WslCmdError::InvalidName
    );
    assert_eq!(
        list.link_wslcmd(".git", &dir).unwrap_err(),
        WslCmdError::InvalidName
    );
    assert_eq!(
        list.link_wslcmd("", &dir).unwrap_err(),
        WslCmdError::InvalidName
    );
    assert_eq!(
        list.unlink_wslcmd(".git", &dir).unwrap_err(),
        WslCmdError::InvalidName
    );
    // Only the final path component counts: traversal attempts collapse to
    // their filename.
    let plan = list.link_wslcmd("sub/git", &dir).expect("filename only");
    assert_eq!(plan.visible_name, "git.exe");
}

#[test]
fn test_is_entry_conditions() {
    let dir = empty_dir(0);
    let list = registry(&dir);
    assert!(list.is_wslcmd_file(&chain_entry("git.exe", ".git.exe", BIN)));
    // No symlink target.
    assert!(!list.is_wslcmd_file(&plain_file("git.exe")));
    // Wrong extension.
    assert!(!list.is_wslcmd_file(&chain_entry("git.bat", ".git.bat", BIN)));
    // Resolves to some other binary.
    assert!(!list.is_wslcmd_file(&chain_entry("git.exe", ".git.exe", "D/other.exe")));
    // The running image's own name, on either side of the chain.
    assert!(!list.is_wslcmd_file(&chain_entry("wslcmd.exe", ".wslcmd.exe", BIN)));
    // Detached names are not entries themselves.
    assert!(!list.is_wslcmd_file(&chain_entry(".git.exe", "wslcmd.exe", BIN)));
    // The target must be the name's own detached sibling.
    assert!(!list.is_wslcmd_file(&chain_entry("git.exe", ".other.exe", BIN)));
    assert!(!list.is_wslcmd_file(&chain_entry("git.exe", "wslcmd.exe", BIN)));
}

#[test]
fn test_self_exclusion() {
    // Even a hand-made chain under the canonical binary's own name is never
    // listed.
    let dir = DirSnapshot {
        entries: vec![
            plain_file("wslcmd.exe"),
            chain_entry("wslcmd.exe", ".wslcmd.exe", BIN),
            chain_entry(".wslcmd.exe", "wslcmd.exe", BIN),
        ],
        mtime: Some(0),
    };
    let mut list = registry(&dir);
    assert_eq!(list.get_cmdlist(&dir), Vec::<String>::new());
}

#[test]
fn test_multi_registry_isolation() {
    // Two registries rooted at different canonical binaries in one
    // directory list disjoint commands over the same snapshot.
    let bin2 = "D/bin2.exe";
    let dir = DirSnapshot {
        entries: vec![
            plain_file("wslcmd.exe"),
            plain_file("bin2.exe"),
            chain_entry("t2.exe", ".t2.exe", BIN),
            chain_entry(".t2.exe", "wslcmd.exe", BIN),
            chain_entry("t.exe", ".t.exe", bin2),
            chain_entry(".t.exe", "bin2.exe", bin2),
        ],
        mtime: Some(0),
    };
    let mut list1 = registry(&dir);
    let mut list2 = WslCmdList::new(String::from(bin2), String::from(bin2), &dir);
    assert_eq!(list1.get_cmdlist(&dir), vec![String::from("t2")]);
    assert_eq!(list2.get_cmdlist(&dir), vec![String::from("t")]);
}

#[test]
fn test_cache_refresh_on_mtime() {
    let before = empty_dir(5);
    let mut list = registry(&before);

    // Same modification time: the cache stands, additions stay unseen.
    let grown_same_time = DirSnapshot {
        mtime: Some(5),
        ..dir_with_git(0)
    };
    assert_eq!(list.get_cmdlist(&grown_same_time), Vec::<String>::new());

    // An advanced modification time invalidates the cache.
    let grown_later = dir_with_git(6);
    assert_eq!(list.get_cmdlist(&grown_later), vec![String::from("git")]);

    // A forced refresh rescans regardless of the time.
    list.refresh_wslcmd_list(true, &empty_dir(6));
    assert_eq!(list.get_cmdlist(&empty_dir(6)), Vec::<String>::new());
}
