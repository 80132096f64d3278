//! End-to-end tests of the gateway core against the real backing store.

use sqlfs::database::FileKind;
use sqlfs::fs::{DirEntry, Fs, FsError};

fn initialized_fs() -> Fs {
    let mut fs = Fs::new().expect("opening the store");
    fs.init().expect("initializing the store");
    fs
}

#[test]
fn init_establishes_root() {
    let fs = initialized_fs();
    let attrs = fs.getattr(1).expect("root attributes");
    assert_eq!(attrs.ino, 1);
    assert_eq!(attrs.size, 0);
    assert!(matches!(attrs.kind, FileKind::Directory));
    assert_eq!(attrs.perm, 0o755);
    assert_eq!(attrs.nlink, 0);
    assert_eq!(attrs.uid, 0);
    assert_eq!(attrs.gid, 0);
}

#[test]
fn root_resolves_by_name() {
    let fs = initialized_fs();
    let (ino, attrs) = fs.lookup(0, "/").expect("root entry by key");
    assert_eq!(ino, 1);
    assert!(matches!(attrs.kind, FileKind::Directory));
}

#[test]
fn mkdir_assigns_identity_two_first() {
    let mut fs = initialized_fs();
    let (ino, attrs) = fs.mkdir(1, "a", 0o755, 0).expect("first creation");
    assert_eq!(ino, 2);
    assert_eq!(attrs.ino, 2);
    assert_eq!(attrs.size, 0);
    assert!(matches!(attrs.kind, FileKind::Directory));
}

#[test]
fn duplicate_mkdir_rejected_once_stored() {
    let mut fs = initialized_fs();
    fs.mkdir(1, "a", 0o755, 0).expect("first creation");
    let second = fs.mkdir(1, "a", 0o755, 0);
    assert!(matches!(second, Err(FsError::AlreadyExists)));
    // exactly one matching row remains
    let page = fs.readdir(1, 0).expect("listing the root");
    assert_eq!(page.len(), 1);
    assert_eq!(page[0].inode, 2);
    assert_eq!(page[0].name, "a");
}

#[test]
fn identities_strictly_increase_across_failures() {
    let mut fs = initialized_fs();
    let (a, _) = fs.mkdir(1, "a", 0o755, 0).expect("creating a");
    let failed = fs.mkdir(1, "a", 0o755, 0);
    assert!(matches!(failed, Err(FsError::AlreadyExists)));
    let (b, _) = fs.mkdir(1, "b", 0o755, 0).expect("creating b");
    let (c, _) = fs.mkdir(b, "c", 0o755, 0).expect("creating c");
    assert!(a > 1);
    assert!(b > a);
    assert!(c > b);
    // a rejected attempt consumes no identity
    assert_eq!(b, a + 1);
    assert_eq!(c, b + 1);
}

#[test]
fn listing_an_empty_directory_is_empty() {
    let fs = initialized_fs();
    let page = fs.readdir(1, 0).expect("listing the fresh root");
    assert!(page.is_empty());
}

#[test]
fn round_trip_insert_lookup_getattr() {
    let mut fs = initialized_fs();
    let (ino, _) = fs.mkdir(1, "docs", 0o755, 0).expect("creating docs");
    let (found, attrs) = fs.lookup(1, "docs").expect("resolving docs");
    assert_eq!(found, ino);
    assert!(matches!(attrs.kind, FileKind::Directory));
    assert_eq!(attrs.size, 0);
    let by_identity = fs.getattr(ino).expect("attributes of docs");
    assert_eq!(by_identity.ino, ino);
    assert!(matches!(by_identity.kind, FileKind::Directory));
    assert_eq!(by_identity.size, 0);
}

#[test]
fn negative_lookup_is_not_found() {
    let fs = initialized_fs();
    let miss = fs.lookup(1, "nonexistent");
    assert!(matches!(miss, Err(FsError::NotFound)));
    let missing_parent = fs.lookup(77, "anything");
    assert!(matches!(missing_parent, Err(FsError::NotFound)));
}

#[test]
fn getattr_of_unknown_identity_is_not_found() {
    let fs = initialized_fs();
    assert!(matches!(fs.getattr(9), Err(FsError::NotFound)));
}

#[test]
fn readdir_of_unknown_identity_is_not_found() {
    let fs = initialized_fs();
    assert!(matches!(fs.readdir(42, 0), Err(FsError::NotFound)));
}

#[test]
fn pagination_covers_all_children_exactly_once() {
    let mut fs = initialized_fs();
    let count: usize = 1001;
    let mut created: Vec<u64> = Vec::new();
    for i in 0..count {
        let name = format!("n{:04}", i);
        let (ino, _) = fs.mkdir(1, &name, 0o755, 0).expect("creating a child");
        created.push(ino);
    }
    let mut seen: Vec<DirEntry> = Vec::new();
    let mut cursor: i64 = 0;
    loop {
        let page = fs.readdir(1, cursor).expect("listing a page");
        if page.is_empty() {
            break;
        }
        assert!(page.len() <= 1000);
        for (k, entry) in page.iter().enumerate() {
            assert_eq!(entry.next_cursor, cursor + k as i64 + 1);
        }
        cursor = page.last().unwrap().next_cursor;
        seen.extend(page.into_iter());
    }
    assert_eq!(seen.len(), count);
    for (k, entry) in seen.iter().enumerate() {
        assert_eq!(entry.inode, created[k]);
        assert_eq!(entry.name, format!("n{:04}", k));
        assert!(matches!(entry.kind, FileKind::Directory));
    }
}

#[test]
fn concrete_scenario_of_the_gateway() {
    let mut fs = initialized_fs();
    // the root (1, parent 0, "/", directory) exists
    let (root_ino, root_attrs) = fs.lookup(0, "/").expect("root entry");
    assert_eq!(root_ino, 1);
    assert!(matches!(root_attrs.kind, FileKind::Directory));
    // creating "a" under the root assigns identity 2
    let (a_ino, _) = fs.mkdir(1, "a", 0o755, 0).expect("creating a");
    assert_eq!(a_ino, 2);
    // creating "a" again fails and leaves exactly the two rows
    assert!(matches!(fs.mkdir(1, "a", 0o755, 0), Err(FsError::AlreadyExists)));
    assert!(fs.getattr(1).is_ok());
    assert!(fs.getattr(2).is_ok());
    assert!(matches!(fs.getattr(3), Err(FsError::NotFound)));
    // the listing of the root holds exactly {identity 2, name "a", cursor 1}
    let page = fs.readdir(1, 0).expect("listing the root");
    assert_eq!(page.len(), 1);
    assert_eq!(page[0].inode, 2);
    assert_eq!(page[0].name, "a");
    assert_eq!(page[0].next_cursor, 1);
    assert!(matches!(page[0].kind, FileKind::Directory));
}
