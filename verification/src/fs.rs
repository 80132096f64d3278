//! The gateway core: the one-time initialization transition, path
//! resolution, attribute synthesis, paginated directory listing and
//! directory creation, each mapped onto the entry store and specified over
//! its model. The adapter that binds these operations to a mount transport
//! lives outside the library.

use vstd::prelude::*;
use vstd::string::StringExecFns;

use crate::database;
use crate::database::{
    AddFileError, Database, DatabaseError, File, FileKind, FileModel, PAGE_LIMIT, children_of,
    has_inode, has_key, keyed, kind_of, page_of, root_model, valid_name,
};

verus! {

/// Seconds for which a caller may treat a synthesized attribute record as
/// fresh without re-querying.
pub const ATTRIBUTE_TTL_SECS: u64 = 1;

/// The externally visible metadata record for one entry. Identity, size and
/// kind come verbatim from the entry; every other field is a fixed, named
/// placeholder. The four protocol timestamp fields are not part of the
/// record: they are regenerated from the wall clock at the moment the
/// record is handed to the transport, are never persisted, and differ
/// between successive calls for the same entry.
#[derive(Clone, Copy, Debug, PartialEq, Eq, Structural)]
pub struct FileAttributes {
    pub ino: u64,
    pub size: u64,
    pub blocks: u64,
    pub kind: FileKind,
    pub perm: u16,
    pub nlink: u32,
    pub uid: u32,
    pub gid: u32,
    pub rdev: u32,
    pub blksize: u32,
    pub flags: u32,
}

/// The attribute record synthesized for a stored entry: identity, size and
/// kind verbatim; permissions fixed at octal 755, owner and group at the
/// superuser placeholder, link count at 0, everything else at 0.
pub open spec fn attributes_for(row: FileModel) -> FileAttributes {
    FileAttributes {
        ino: row.inode,
        size: row.size,
        blocks: 0,
        kind: kind_of(row.file_type),
        perm: 0o755,
        nlink: 0,
        uid: 0,
        gid: 0,
        rdev: 0,
        blksize: 0,
        flags: 0,
    }
}

/// Produces the attribute record for an entry.
pub fn synthesize_attributes(file: &File) -> (a: FileAttributes)
    ensures
        a == attributes_for(file@),
{
    FileAttributes {
        ino: file.inode,
        size: file.size,
        blocks: 0,
        kind: file.get_type(),
        perm: 0o755,
        nlink: 0,
        uid: 0,
        gid: 0,
        rdev: 0,
        blksize: 0,
        flags: 0,
    }
}

/// One line of a directory listing: the child's identity and kind, its
/// name, and the cursor a later call must supply to resume immediately
/// after this child.
#[derive(Debug)]
pub struct DirEntry {
    pub inode: u64,
    pub next_cursor: i64,
    pub kind: FileKind,
    pub name: String,
}

/// The error taxonomy the gateway reports to its transport.
#[derive(Debug)]
pub enum FsError {
    /// A lookup, attribute or listing query found no matching entry. An
    /// expected, frequent outcome, never a store failure.
    NotFound,
    /// A creation attempt violated the (parent identity, name) uniqueness
    /// invariant; the store is unchanged.
    AlreadyExists,
    /// The backing store failed.
    Store(DatabaseError),
}

/// The root entry is in place: the first stored entry (the one with the
/// least identity) is the root.
pub open spec fn root_established(rows: Seq<FileModel>) -> bool {
    rows.len() >= 1 && rows[0] == root_model()
}

/// The given identity denotes a stored directory.
pub open spec fn is_directory_inode(rows: Seq<FileModel>, ino: u64) -> bool {
    exists|i: int|
        0 <= i < rows.len() && (#[trigger] rows[i]).inode == ino && kind_of(rows[i].file_type)
            == FileKind::Directory
}

/// The model of a directory entry created under `parent` with the given
/// name and assigned identity.
pub open spec fn dir_model(inode: u64, parent: u64, name: Seq<char>) -> FileModel {
    FileModel { inode, parent_inode: parent, size: 0, path: name, file_type: "dir"@ }
}

/// A listing page rendered as directory entries: the k-th entry carries the
/// k-th child's identity, kind and name, and the cursor `offset + k + 1`,
/// the cumulative count of entries delivered up to and including it.
pub open spec fn entries_match_page(
    entries: Seq<DirEntry>,
    page: Seq<FileModel>,
    offset: int,
) -> bool {
    entries.len() == page.len() && forall|k: int|
        0 <= k < entries.len() ==> (#[trigger] entries[k]).inode == page[k].inode
            && entries[k].name@ == page[k].path && entries[k].kind == kind_of(page[k].file_type)
            && entries[k].next_cursor == offset + k + 1
}

/// The gateway itself: the entry store plus the one-bit adapter state.
/// `Uninitialized` is `initialized == false`; the single transition to
/// `Initialized` happens in `init`, exactly once, at mount time.
pub struct Fs {
    db: Database,
    initialized: bool,
}

impl Fs {
    /// The stored entries, in identity (creation) order.
    pub closed spec fn rows(self) -> Seq<FileModel> {
        self.db.rows()
    }

    /// The identity the store will assign to the next created entry.
    pub closed spec fn next_identity(self) -> u64 {
        self.db.next_inode()
    }

    /// The one-time initialization transition has completed.
    pub closed spec fn is_initialized(self) -> bool {
        self.initialized
    }

    /// Nothing has been stored yet and the schema does not exist: the state
    /// in which `init` may run.
    pub closed spec fn fresh(self) -> bool {
        !self.db.ready() && self.db.rows() == Seq::<FileModel>::empty()
    }

    /// The gateway's invariant: the store invariant always holds, and from
    /// the moment initialization completes the schema and the root entry
    /// are in place for the remainder of the process lifetime.
    pub closed spec fn wf(self) -> bool {
        &&& self.db.inv()
        &&& self.initialized ==> self.db.ready() && root_established(self.db.rows())
    }

    /// Opens the backing store. The gateway starts uninitialized.
    pub fn new() -> (r: Result<Fs, DatabaseError>)
        ensures
            r matches Ok(fs) ==> fs.wf() && !fs.is_initialized() && fs.fresh(),
    {
        match database::new() {
            Ok(db) => Ok(Fs { db, initialized: false }),
            Err(e) => Err(e),
        }
    }

    /// The Uninitialized to Initialized transition: creates the store's
    /// schema and inserts the root entry, atomically in effect — on failure
    /// the gateway stays uninitialized and the caller must treat the
    /// failure as fatal, since no request can be served correctly.
    pub fn init(&mut self) -> (r: Result<(), DatabaseError>)
        requires
            old(self).wf(),
            !old(self).is_initialized(),
            old(self).fresh(),
        ensures
            r is Ok ==> final(self).wf() && final(self).is_initialized() && final(self).rows()
                == seq![root_model()] && final(self).next_identity() == 2,
            r is Err ==> final(self).wf() && !final(self).is_initialized(),
    {
        match self.db.initialize() {
            Ok(()) => {
                self.initialized = true;
                Ok(())
            },
            Err(e) => Err(e),
        }
    }

    /// Resolves an exact, byte-literal child name under a parent identity
    /// to the child's identity and synthesized attributes, or `NotFound`.
    /// No other error ever comes out of a lookup.
    pub fn lookup(&self, parent: u64, name: &str) -> (r: Result<(u64, FileAttributes), FsError>)
        requires
            self.wf(),
            self.is_initialized(),
        ensures
            r matches Ok((ino, attrs)) ==> exists|i: int|
                0 <= i < self.rows().len() && keyed(#[trigger] self.rows()[i], parent, name@)
                    && ino == self.rows()[i].inode && attrs == attributes_for(self.rows()[i]),
            !has_key(self.rows(), parent, name@) ==> r == Err::<(u64, FileAttributes), FsError>(
                FsError::NotFound,
            ),
            r is Err ==> r == Err::<(u64, FileAttributes), FsError>(FsError::NotFound),
    {
        match self.db.get_file(name, parent) {
            None => Err(FsError::NotFound),
            Some(f) => {
                proof {
                    let i = choose|i: int|
                        0 <= i < self.rows().len() && self.rows()[i] == f@;
                    assert(keyed(self.rows()[i], parent, name@));
                }
                let attrs = synthesize_attributes(&f);
                Ok((f.inode, attrs))
            },
        }
    }

    /// Resolves an identity to its synthesized attributes, or `NotFound`.
    pub fn getattr(&self, ino: u64) -> (r: Result<FileAttributes, FsError>)
        requires
            self.wf(),
            self.is_initialized(),
        ensures
            r matches Ok(attrs) ==> exists|i: int|
                0 <= i < self.rows().len() && (#[trigger] self.rows()[i]).inode == ino && attrs
                    == attributes_for(self.rows()[i]),
            !has_inode(self.rows(), ino) ==> r == Err::<FileAttributes, FsError>(
                FsError::NotFound,
            ),
            r is Err ==> r == Err::<FileAttributes, FsError>(FsError::NotFound),
    {
        match self.db.get_file_by_inode(ino) {
            None => Err(FsError::NotFound),
            Some(f) => {
                proof {
                    let i = choose|i: int|
                        0 <= i < self.rows().len() && self.rows()[i] == f@;
                    assert(self.rows()[i].inode == ino);
                }
                Ok(synthesize_attributes(&f))
            },
        }
    }

    /// Creates a directory entry under `parent`. The mode and umask are
    /// accepted but not applied: synthesized attributes always carry the
    /// fixed permission bits. Fails with `AlreadyExists`, leaving the store
    /// unchanged, when the key is taken; on success returns the newly
    /// assigned identity, strictly greater than every identity assigned
    /// before, with the new entry's synthesized attributes.
    pub fn mkdir(&mut self, parent: u64, name: &str, _mode: u32, _umask: u32) -> (r: Result<
        (u64, FileAttributes),
        FsError,
    >)
        requires
            old(self).wf(),
            old(self).is_initialized(),
            valid_name(name@),
        ensures
            final(self).wf(),
            final(self).is_initialized(),
            final(self).next_identity() >= old(self).next_identity(),
            r is Err ==> r == Err::<(u64, FileAttributes), FsError>(FsError::AlreadyExists)
                || r matches Err(FsError::Store(_)),
            r matches Ok((ino, attrs)) ==> !has_key(old(self).rows(), parent, name@) && ino == old(self).next_identity() && final(self).rows() == old(self).rows().push(
                dir_model(ino, parent, name@),
            ) && final(self).next_identity() == old(self).next_identity() + 1 && attrs
                == attributes_for(dir_model(ino, parent, name@)),
            r == Err::<(u64, FileAttributes), FsError>(FsError::AlreadyExists) ==> has_key(
                old(self).rows(),
                parent,
                name@,
            ) && final(self).rows() == old(self).rows() && final(self).next_identity() == old(self).next_identity(),
            has_key(old(self).rows(), parent, name@) ==> !(r is Ok),
            !(r is Ok) ==> final(self).rows() == old(self).rows() || final(self).rows() == old(self).rows().push(dir_model(old(self).next_identity(), parent, name@)),
    {
        let mut file = File {
            inode: 0,
            parent_inode: parent,
            size: 0,
            path: String::from_str(name),
            file_type: String::from_str("dir"),
        };
        match self.db.add_file(&mut file) {
            Ok(()) => {
                let attrs = synthesize_attributes(&file);
                Ok((file.inode, attrs))
            },
            Err(AddFileError::DuplicateName) => Err(FsError::AlreadyExists),
            Err(AddFileError::Store(e)) => Err(FsError::Store(e)),
        }
    }

    /// Lists one page of a directory's children in creation order,
    /// resuming after the `offset` children already delivered; each entry
    /// carries the cursor for resuming immediately after it. `NotFound`
    /// when the identity does not denote a directory.
    pub fn readdir(&self, ino: u64, offset: i64) -> (r: Result<Vec<DirEntry>, FsError>)
        requires
            self.wf(),
            self.is_initialized(),
            0 <= offset,
            offset + PAGE_LIMIT < 0x8000_0000_0000_0000,
        ensures
            r matches Ok(v) ==> is_directory_inode(self.rows(), ino) && entries_match_page(
                v@,
                page_of(children_of(self.rows(), ino), offset as int, PAGE_LIMIT as int),
                offset as int,
            ),
            !is_directory_inode(self.rows(), ino) ==> r == Err::<Vec<DirEntry>, FsError>(
                FsError::NotFound,
            ),
    {
        let dir = match self.db.get_file_by_inode(ino) {
            None => {
                return Err(FsError::NotFound);
            },
            Some(f) => f,
        };
        let kind = dir.get_type();
        proof {
            let i = choose|i: int| 0 <= i < self.rows().len() && self.rows()[i] == dir@;
            assert(self.rows()[i].inode == ino);
            if kind == FileKind::Directory {
                assert(is_directory_inode(self.rows(), ino));
            } else {
                if is_directory_inode(self.rows(), ino) {
                    let j = choose|j: int|
                        0 <= j < self.rows().len() && (#[trigger] self.rows()[j]).inode == ino
                            && kind_of(self.rows()[j].file_type) == FileKind::Directory;
                    database::lemma_inode_unique(self.rows(), i, j);
                    assert(false);
                }
            }
            assert(self.rows()[i].inode < self.next_identity());
            assert(ino < 0x8000_0000_0000_0000u64);
        }
        if !(matches!(kind, FileKind::Directory)) {
            return Err(FsError::NotFound);
        }
        let files = match self.db.get_files(ino, Some(offset)) {
            Ok(f) => f,
            Err(e) => {
                return Err(FsError::Store(e));
            },
        };
        let ghost page = page_of(children_of(self.rows(), ino), offset as int, PAGE_LIMIT as int);
        proof {
            assert(files@.map_values(|f: File| f@) == page);
            assert(page.len() <= PAGE_LIMIT as int);
        }
        let mut entries: Vec<DirEntry> = Vec::new();
        let mut idx: usize = 0;
        while idx < files.len()
            invariant
                0 <= offset,
                offset + PAGE_LIMIT < 0x8000_0000_0000_0000,
                idx <= files.len(),
                files@.map_values(|f: File| f@) == page,
                page.len() <= PAGE_LIMIT as int,
                entries@.len() == idx,
                forall|k: int|
                    0 <= k < idx ==> (#[trigger] entries@[k]).inode == page[k].inode
                        && entries@[k].name@ == page[k].path && entries@[k].kind == kind_of(
                        page[k].file_type,
                    ) && entries@[k].next_cursor == offset + k + 1,
            decreases files@.len() - idx,
        {
            let f = &files[idx];
            proof {
                assert(files@.map_values(|f: File| f@)[idx as int] == f@);
            }
            let cursor: i64 = offset + (idx as i64) + 1;
            entries.push(
                DirEntry {
                    inode: f.inode,
                    next_cursor: cursor,
                    kind: f.get_type(),
                    name: f.path.clone(),
                },
            );
            idx = idx + 1;
        }
        Ok(entries)
    }
}

/// After initialization the root entry is always present: the first stored
/// entry is the root — identity 1, parent identity 0, directory kind, size
/// 0, named by the lone separator — and no other entry carries identity 1.
pub proof fn lemma_root_entry(fs: Fs)
    requires
        fs.wf(),
        fs.is_initialized(),
    ensures
        fs.rows().len() >= 1,
        fs.rows()[0] == root_model(),
        forall|i: int| 1 <= i < fs.rows().len() ==> (#[trigger] fs.rows()[i]).inode != 1,
{
    assert forall|i: int| 1 <= i < fs.rows().len() implies (#[trigger] fs.rows()[i]).inode
        != 1 by {
        assert(fs.rows()[0].inode < fs.rows()[i].inode);
    }
}

/// Every stored identity lies strictly below the identity the store will
/// assign next. Together with `mkdir`'s contract — a successful creation
/// assigns exactly `next_identity`, which then strictly increases, and a
/// failed attempt never lowers it — each newly assigned identity strictly
/// exceeds every previously assigned one, across failures included.
pub proof fn lemma_assigned_identities_monotone(fs: Fs)
    requires
        fs.wf(),
    ensures
        forall|i: int|
            0 <= i < fs.rows().len() ==> (#[trigger] fs.rows()[i]).inode < fs.next_identity(),
{
    assert forall|i: int|
        0 <= i < fs.rows().len() implies (#[trigger] fs.rows()[i]).inode
        < fs.next_identity() by {
        assert(1 <= fs.rows()[i].inode < fs.db.next_inode());
    }
}

} // verus!
