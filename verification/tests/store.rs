//! Tests of the entry store and of attribute synthesis, through the
//! library's public surface.

use sqlfs::database::{self, AddFileError, DatabaseError, File, FileKind};
use sqlfs::fs::{synthesize_attributes, ATTRIBUTE_TTL_SECS};

fn initialized_store() -> database::Database {
    let mut db = database::new().expect("opening the store");
    db.initialize().expect("creating schema and root");
    db
}

#[test]
fn add_file_learns_the_assigned_identity() {
    let mut db = initialized_store();
    let mut file = File {
        inode: 0,
        parent_inode: 1,
        size: 0,
        path: String::from("notes"),
        file_type: String::from("dir"),
    };
    db.add_file(&mut file).expect("adding an entry");
    assert_eq!(file.inode, 2);
    let found = db.get_file("notes", 1).expect("the entry just added");
    assert_eq!(found.inode, 2);
    assert_eq!(found.parent_inode, 1);
    assert_eq!(found.size, 0);
    assert_eq!(found.path, "notes");
    assert_eq!(found.file_type, "dir");
}

#[test]
fn get_file_misses_are_plain_absence() {
    let db = initialized_store();
    assert!(db.get_file("missing", 1).is_none());
    assert!(db.get_file_by_inode(5).is_none());
}

#[test]
fn get_files_pages_in_creation_order() {
    let mut db = initialized_store();
    for i in 0..3 {
        let mut file = File {
            inode: 0,
            parent_inode: 1,
            size: 0,
            path: format!("d{}", i),
            file_type: String::from("dir"),
        };
        db.add_file(&mut file).expect("adding an entry");
    }
    let all = db.get_files(1, None).expect("the first page");
    assert_eq!(all.len(), 3);
    assert_eq!(all[0].path, "d0");
    assert_eq!(all[1].path, "d1");
    assert_eq!(all[2].path, "d2");
    let rest = db.get_files(1, Some(2)).expect("a resumed page");
    assert_eq!(rest.len(), 1);
    assert_eq!(rest[0].path, "d2");
    let past = db.get_files(1, Some(9)).expect("a page past the end");
    assert!(past.is_empty());
}

#[test]
fn kind_marker_distinguishes_directories() {
    let dir = File {
        inode: 7,
        parent_inode: 1,
        size: 0,
        path: String::from("d"),
        file_type: String::from("dir"),
    };
    assert!(matches!(dir.get_type(), FileKind::Directory));
    let plain = File {
        inode: 8,
        parent_inode: 1,
        size: 42,
        path: String::from("f"),
        file_type: String::from("txt"),
    };
    assert!(matches!(plain.get_type(), FileKind::RegularFile));
}

#[test]
fn synthesized_attributes_use_the_named_placeholders() {
    let plain = File {
        inode: 9,
        parent_inode: 1,
        size: 4096,
        path: String::from("blob"),
        file_type: String::from("bin"),
    };
    let attrs = synthesize_attributes(&plain);
    assert_eq!(attrs.ino, 9);
    assert_eq!(attrs.size, 4096);
    assert!(matches!(attrs.kind, FileKind::RegularFile));
    assert_eq!(attrs.perm, 0o755);
    assert_eq!(attrs.nlink, 0);
    assert_eq!(attrs.uid, 0);
    assert_eq!(attrs.gid, 0);
    assert_eq!(attrs.blocks, 0);
    assert_eq!(ATTRIBUTE_TTL_SECS, 1);
}

#[test]
fn database_error_keeps_its_message() {
    let e = DatabaseError::new("file added not found");
    assert_eq!(e.message(), "file added not found");
}

#[test]
fn duplicate_add_leaves_the_store_unchanged() {
    let mut db = initialized_store();
    let mut first = File {
        inode: 0,
        parent_inode: 1,
        size: 0,
        path: String::from("twin"),
        file_type: String::from("dir"),
    };
    db.add_file(&mut first).expect("adding the first entry");
    let mut second = File {
        inode: 0,
        parent_inode: 1,
        size: 0,
        path: String::from("twin"),
        file_type: String::from("dir"),
    };
    let rejected = db.add_file(&mut second);
    assert!(matches!(rejected, Err(AddFileError::DuplicateName)));
    assert_eq!(second.inode, 0);
    let listed = db.get_files(1, None).expect("the root's children");
    assert_eq!(listed.len(), 1);
    assert_eq!(listed[0].inode, first.inode);
}

#[test]
fn listing_a_leaf_is_empty() {
    let mut db = initialized_store();
    let mut file = File {
        inode: 0,
        parent_inode: 1,
        size: 3,
        path: String::from("plain"),
        file_type: String::from("txt"),
    };
    db.add_file(&mut file).expect("adding a regular file");
    let children = db.get_files(file.inode, None).expect("an empty listing");
    assert!(children.is_empty());
}
