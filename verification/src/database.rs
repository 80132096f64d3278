//! The entry store: a relational table of filesystem entries, held in an
//! in-memory SQLite database and accessed through a small set of trusted
//! wrappers. Everything above the wrappers is verified against a model of
//! the table as a sequence of rows in identity order.

use vstd::prelude::*;
use vstd::string::StringExecFns;

verus! {

/// How many children a single listing page may return.
pub const PAGE_LIMIT: usize = 1000;

/// The mathematical model of one stored row of the `files` table.
pub ghost struct FileModel {
    pub inode: u64,
    pub parent_inode: u64,
    pub size: u64,
    pub path: Seq<char>,
    pub file_type: Seq<char>,
}

/// A filesystem entry as the store hands it out: a stable identity, the
/// identity of its parent (0 only for the root), its size in bytes, its name
/// (a single path segment) and its kind marker (`"dir"` for directories).
pub struct File {
    pub inode: u64,
    pub parent_inode: u64,
    pub size: u64,
    pub path: String,
    pub file_type: String,
}

impl View for File {
    type V = FileModel;

    open spec fn view(&self) -> FileModel {
        FileModel {
            inode: self.inode,
            parent_inode: self.parent_inode,
            size: self.size,
            path: self.path@,
            file_type: self.file_type@,
        }
    }
}

/// The kind of a stored entry.
#[derive(Clone, Copy, Debug, PartialEq, Eq, Structural)]
pub enum FileKind {
    Directory,
    RegularFile,
}

/// The kind denoted by a stored kind marker: `"dir"` marks a directory,
/// anything else a regular file.
pub open spec fn kind_of(file_type: Seq<char>) -> FileKind {
    if file_type == "dir"@ {
        FileKind::Directory
    } else {
        FileKind::RegularFile
    }
}

impl File {
    /// The kind this entry's stored marker denotes.
    pub fn get_type(&self) -> (k: FileKind)
        ensures
            k == kind_of(self.file_type@),
    {
        if self.file_type == String::from_str("dir") {
            FileKind::Directory
        } else {
            FileKind::RegularFile
        }
    }
}

/// A row is addressed by the pair (parent identity, name).
pub open spec fn keyed(row: FileModel, parent_inode: u64, name: Seq<char>) -> bool {
    row.parent_inode == parent_inode && row.path == name
}

/// Some row with the given (parent identity, name) key is present.
pub open spec fn has_key(rows: Seq<FileModel>, parent_inode: u64, name: Seq<char>) -> bool {
    exists|i: int| 0 <= i < rows.len() && keyed(rows[i], parent_inode, name)
}

/// Some row with the given identity is present.
pub open spec fn has_inode(rows: Seq<FileModel>, inode: u64) -> bool {
    exists|i: int| 0 <= i < rows.len() && rows[i].inode == inode
}

/// Identities strictly increase along the stored order, so the stored order
/// is creation order and identities are never reused.
pub open spec fn rows_increasing(rows: Seq<FileModel>) -> bool {
    forall|i: int, j: int| 0 <= i < j < rows.len() ==> rows[i].inode < rows[j].inode
}

/// Every identity is at least 1 and below the next identity to be assigned.
pub open spec fn rows_bounded(rows: Seq<FileModel>, next_inode: u64) -> bool {
    forall|i: int| 0 <= i < rows.len() ==> 1 <= #[trigger] rows[i].inode < next_inode
}

/// No two rows share a (parent identity, name) key.
pub open spec fn unique_keys(rows: Seq<FileModel>) -> bool {
    forall|i: int, j: int|
        0 <= i < j < rows.len() ==> !keyed(
            #[trigger] rows[i],
            (#[trigger] rows[j]).parent_inode,
            rows[j].path,
        )
}

/// The store's invariant over its model.
pub open spec fn store_inv(rows: Seq<FileModel>, next_inode: u64) -> bool {
    rows_increasing(rows) && rows_bounded(rows, next_inode) && unique_keys(rows) && next_inode
        <= 0x8000_0000_0000_0000u64
}

/// A name is a single non-empty path segment.
pub open spec fn valid_name(name: Seq<char>) -> bool {
    name.len() > 0 && forall|i: int| 0 <= i < name.len() ==> name[i] != '/'
}

/// The children of a directory, in stored (hence creation) order.
pub open spec fn children_of(rows: Seq<FileModel>, parent_inode: u64) -> Seq<FileModel>
    decreases rows.len(),
{
    if rows.len() == 0 {
        Seq::empty()
    } else if rows.last().parent_inode == parent_inode {
        children_of(rows.drop_last(), parent_inode).push(rows.last())
    } else {
        children_of(rows.drop_last(), parent_inode)
    }
}

/// One listing page: up to `limit` children, skipping the first `offset`.
pub open spec fn page_of(children: Seq<FileModel>, offset: int, limit: int) -> Seq<FileModel> {
    let lo = if offset <= children.len() { offset } else { children.len() as int };
    let hi = if offset + limit <= children.len() { offset + limit } else {
        children.len() as int
    };
    if lo <= hi {
        children.subrange(lo, hi)
    } else {
        Seq::empty()
    }
}

/// A failure reported by the store's backing session.
#[derive(Debug)]
pub struct DatabaseError {
    message: String,
}

impl View for DatabaseError {
    type V = Seq<char>;

    closed spec fn view(&self) -> Seq<char> {
        self.message@
    }
}

impl DatabaseError {
    pub fn new(msg: &str) -> (e: DatabaseError)
        ensures
            e@ == msg@,
    {
        DatabaseError { message: String::from_str(msg) }
    }

    /// The stored description of the failure.
    pub fn message(&self) -> (m: &str)
        ensures
            m@ == self@,
    {
        self.message.as_str()
    }
}

#[verifier::external_type_specification]
#[verifier::external_body]
pub struct ExConnection(rusqlite::Connection);

#[verifier::external_type_specification]
#[verifier::external_body]
pub struct ExSqlError(rusqlite::Error);

/// Relies on the Display implementation of rusqlite::Error for a readable
/// description of a backend failure.
#[verifier::external_body]
fn sql_error_message(e: &rusqlite::Error) -> String {
    format!("{}", e)
}

/// The rows of the `files` table of this session's database, each read with
/// the column types of `File`, ordered by identity (`inode`) ascending.
/// Empty while the table does not exist.
pub uninterp spec fn db_rows(db: rusqlite::Connection) -> Seq<FileModel>;

/// The identity the table's auto-increment mechanism assigns to the next
/// inserted row: one more than the largest identity ever stored, 1 for an
/// empty fresh table, and 0 while the table does not exist.
pub uninterp spec fn db_next_inode(db: rusqlite::Connection) -> u64;

/// The `files` table exists, with its schema in place.
pub open spec fn db_ready(db: rusqlite::Connection) -> bool {
    db_next_inode(db) >= 1
}

/// How an insertion attempt failed.
enum InsertFault {
    /// The (parent identity, name) uniqueness constraint was violated.
    Duplicate,
    /// Any other backend failure.
    Backend(rusqlite::Error),
}

/// Relies on rusqlite::Connection::open_in_memory: a fresh in-memory
/// database holds no `files` table.
#[verifier::external_body]
fn open_memory_connection() -> (r: Result<rusqlite::Connection, rusqlite::Error>)
    ensures
        r matches Ok(db) ==> db_next_inode(db) == 0 && db_rows(db) == Seq::<FileModel>::empty(),
{
    rusqlite::Connection::open_in_memory()
}

/// Relies on rusqlite::Connection::execute running this CREATE TABLE
/// statement: on success the `files` table exists and is empty, its
/// auto-increment sequence starts at 1, and a failed statement changes
/// nothing.
#[verifier::external_body]
fn exec_create_table(conn: &mut rusqlite::Connection) -> (r: Result<(), rusqlite::Error>)
    requires
        !db_ready(*old(conn)),
    ensures
        r is Ok ==> db_ready(*final(conn)) && db_next_inode(*final(conn)) == 1 && db_rows(
            *final(conn),
        ) == Seq::<FileModel>::empty(),
        r is Err ==> *final(conn) == *old(conn),
{
    let sql = "CREATE TABLE files (
        inode INTEGER PRIMARY KEY AUTOINCREMENT,
        parent_inode INTEGER,
        size INTEGER,
        path TEXT NOT NULL,
        file_type TEXT NOT NULL,
        UNIQUE(parent_inode, path)
    )";
    conn.execute(sql, ()).map(|_| ())
}

/// Relies on rusqlite::Connection::execute running an INSERT that gives the
/// row's identity explicitly: inserting identity `file.inode` into the empty
/// table sets the auto-increment sequence just past it, and a failed
/// statement changes nothing.
#[verifier::external_body]
fn exec_insert_with_inode(conn: &mut rusqlite::Connection, file: &File) -> (r: Result<
    (),
    rusqlite::Error,
>)
    requires
        db_ready(*old(conn)),
        db_next_inode(*old(conn)) == 1,
        db_rows(*old(conn)) == Seq::<FileModel>::empty(),
        1 <= file.inode < 0x7fff_ffff_ffff_ffffu64,
        file.parent_inode < 0x8000_0000_0000_0000u64,
        file.size < 0x8000_0000_0000_0000u64,
    ensures
        r is Ok ==> db_rows(*final(conn)) == seq![file@] && db_next_inode(*final(conn))
            == file.inode + 1,
        r is Err ==> *final(conn) == *old(conn),
{
    let sql =
        "INSERT INTO files (inode, parent_inode, size, path, file_type) VALUES (?1, ?2, ?3, ?4, ?5)";
    let params = (file.inode as i64, file.parent_inode as i64, file.size as i64, &file.path, &file.file_type);
    conn.execute(sql, params).map(|_| ())
}

/// Relies on rusqlite::Connection::execute running an INSERT that leaves the
/// identity to the table's auto-increment mechanism, and on the table's
/// UNIQUE(parent_inode, path) constraint: a duplicate key is rejected with a
/// constraint-violation code, a successful insert appends the row under the
/// next identity, and a failed statement changes nothing.
#[verifier::external_body]
fn exec_insert_file(
    conn: &mut rusqlite::Connection,
    parent_inode: u64,
    size: u64,
    path: &String,
    file_type: &String,
) -> (r: Result<(), InsertFault>)
    requires
        db_ready(*old(conn)),
        parent_inode < 0x8000_0000_0000_0000u64,
        size < 0x8000_0000_0000_0000u64,
    ensures
        r is Ok ==> db_next_inode(*old(conn)) < 0x8000_0000_0000_0000u64,
        r is Ok ==> !has_key(db_rows(*old(conn)), parent_inode, path@) && db_rows(*final(conn))
            == db_rows(*old(conn)).push(
            FileModel {
                inode: db_next_inode(*old(conn)),
                parent_inode,
                size,
                path: path@,
                file_type: file_type@,
            },
        ) && db_next_inode(*final(conn)) == db_next_inode(*old(conn)) + 1,
        r matches Err(InsertFault::Duplicate) ==> has_key(
            db_rows(*old(conn)),
            parent_inode,
            path@,
        ),
        has_key(db_rows(*old(conn)), parent_inode, path@) ==> !(r is Ok),
        r is Err ==> *final(conn) == *old(conn),
{
    let sql = "INSERT INTO files (parent_inode, size, path, file_type) VALUES (?1, ?2, ?3, ?4)";
    match conn.execute(sql, (parent_inode as i64, size as i64, path, file_type)) {
        Ok(_) => Ok(()),
        Err(e) => match e.sqlite_error_code() {
            Some(rusqlite::ErrorCode::ConstraintViolation) => Err(InsertFault::Duplicate),
            _ => Err(InsertFault::Backend(e)),
        },
    }
}

/// Relies on rusqlite::Statement::query running a SELECT keyed by
/// (parent_inode, path): under the table's uniqueness constraint it returns
/// the matching row or none.
#[verifier::external_body]
fn query_file_by_name(conn: &rusqlite::Connection, name: &str, parent_inode: u64) -> (r: Result<
    Option<File>,
    rusqlite::Error,
>)
    requires
        db_ready(*conn),
        parent_inode < 0x8000_0000_0000_0000u64,
    ensures
        r matches Ok(Some(f)) ==> db_rows(*conn).contains(f@) && keyed(f@, parent_inode, name@),
        r matches Ok(None) ==> !has_key(db_rows(*conn), parent_inode, name@),
{
    let sql =
        "SELECT inode, parent_inode, size, path, file_type FROM files WHERE path = ?1 AND parent_inode = ?2";
    let mut stmt = conn.prepare(sql)?;
    let mut rows = stmt.query((name, parent_inode as i64))?;
    match rows.next()? {
        None => Ok(None),
        Some(row) => Ok(Some(File {
            inode: row.get::<usize, i64>(0)? as u64,
            parent_inode: row.get::<usize, i64>(1)? as u64,
            size: row.get::<usize, i64>(2)? as u64,
            path: row.get(3)?,
            file_type: row.get(4)?,
        })),
    }
}

/// Relies on rusqlite::Statement::query running a SELECT keyed by `inode`:
/// under the table's primary key it returns the matching row or none.
#[verifier::external_body]
fn query_file_by_inode(conn: &rusqlite::Connection, inode: u64) -> (r: Result<
    Option<File>,
    rusqlite::Error,
>)
    requires
        db_ready(*conn),
        inode < 0x8000_0000_0000_0000u64,
    ensures
        r matches Ok(Some(f)) ==> db_rows(*conn).contains(f@) && f@.inode == inode,
        r matches Ok(None) ==> !has_inode(db_rows(*conn), inode),
{
    let sql = "SELECT inode, parent_inode, size, path, file_type FROM files WHERE inode = ?1";
    let mut stmt = conn.prepare(sql)?;
    let mut rows = stmt.query((inode as i64,))?;
    match rows.next()? {
        None => Ok(None),
        Some(row) => Ok(Some(File {
            inode: row.get::<usize, i64>(0)? as u64,
            parent_inode: row.get::<usize, i64>(1)? as u64,
            size: row.get::<usize, i64>(2)? as u64,
            path: row.get(3)?,
            file_type: row.get(4)?,
        })),
    }
}

/// Relies on rusqlite::Statement::query running a SELECT filtered by
/// `parent_inode`, ordered by `inode` ascending and bounded by LIMIT and
/// OFFSET: it returns exactly one page of the directory's children.
#[verifier::external_body]
fn query_files_page(conn: &rusqlite::Connection, parent_inode: u64, offset: i64) -> (r: Result<
    Vec<File>,
    rusqlite::Error,
>)
    requires
        db_ready(*conn),
        parent_inode < 0x8000_0000_0000_0000u64,
        offset >= 0,
    ensures
        r matches Ok(v) ==> v@.map_values(|f: File| f@) == page_of(
            children_of(db_rows(*conn), parent_inode),
            offset as int,
            PAGE_LIMIT as int,
        ),
{
    let sql =
        "SELECT inode, parent_inode, size, path, file_type FROM files WHERE parent_inode = ?1 ORDER BY inode LIMIT 1000 OFFSET ?2";
    let mut stmt = conn.prepare(sql)?;
    let mut rows = stmt.query((parent_inode as i64, offset))?;
    let mut page = Vec::new();
    while let Some(row) = rows.next()? {
        page.push(File {
            inode: row.get::<usize, i64>(0)? as u64,
            parent_inode: row.get::<usize, i64>(1)? as u64,
            size: row.get::<usize, i64>(2)? as u64,
            path: row.get(3)?,
            file_type: row.get(4)?,
        });
    }
    Ok(page)
}

/// The model of the root entry: the reserved identity 1, no parent,
/// directory kind, size zero, named by the lone separator.
pub open spec fn root_model() -> FileModel {
    FileModel { inode: 1, parent_inode: 0, size: 0, path: "/"@, file_type: "dir"@ }
}

/// The interpretation of an optional listing offset: absent means zero.
pub open spec fn offset_value(offset: Option<i64>) -> int {
    match offset {
        Some(o) => o as int,
        None => 0,
    }
}

/// How adding a file can fail.
#[derive(Debug)]
pub enum AddFileError {
    /// Another entry with the same (parent identity, name) already exists;
    /// the store is unchanged.
    DuplicateName,
    /// The backing session failed.
    Store(DatabaseError),
}

/// The entry store: one session against the backing database, the single
/// source of truth for identity and hierarchy.
pub struct Database {
    conn: rusqlite::Connection,
}

impl Database {
    /// The stored rows, in identity (creation) order.
    pub closed spec fn rows(self) -> Seq<FileModel> {
        db_rows(self.conn)
    }

    /// The identity the store assigns to the next inserted entry.
    pub closed spec fn next_inode(self) -> u64 {
        db_next_inode(self.conn)
    }

    /// The schema has been created.
    pub open spec fn ready(self) -> bool {
        self.next_inode() >= 1
    }

    /// The store's invariant.
    pub open spec fn inv(self) -> bool {
        store_inv(self.rows(), self.next_inode())
    }
}

/// Opens the store's backing session. The schema does not exist until
/// `Database::initialize` runs.
pub fn new() -> (r: Result<Database, DatabaseError>)
    ensures
        r matches Ok(d) ==> !d.ready() && d.rows() == Seq::<FileModel>::empty() && d.inv(),
{
    match open_memory_connection() {
        Ok(conn) => Ok(Database { conn }),
        Err(e) => Err(DatabaseError { message: sql_error_message(&e) }),
    }
}

impl Database {
    /// Creates the schema and inserts the root entry under the reserved
    /// identity 1. Runs exactly once, before any other operation; a failure
    /// is fatal to the caller, since no request can be served without the
    /// schema and the root.
    pub fn initialize(&mut self) -> (r: Result<(), DatabaseError>)
        requires
            !old(self).ready(),
            old(self).rows() == Seq::<FileModel>::empty(),
        ensures
            final(self).inv(),
            r is Ok ==> final(self).ready() && final(self).rows() == seq![root_model()] && final(self).next_inode() == 2,
            r is Err ==> final(self).rows() == Seq::<FileModel>::empty(),
    {
        match exec_create_table(&mut self.conn) {
            Err(e) => {
                return Err(DatabaseError { message: sql_error_message(&e) });
            },
            Ok(()) => {},
        }
        let root = File {
            inode: 1,
            parent_inode: 0,
            size: 0,
            path: String::from_str("/"),
            file_type: String::from_str("dir"),
        };
        match exec_insert_with_inode(&mut self.conn, &root) {
            Err(e) => Err(DatabaseError { message: sql_error_message(&e) }),
            Ok(()) => {
                assert(seq![root@] =~= seq![root_model()]);
                Ok(())
            },
        }
    }

    /// Adds an entry and learns its assigned identity through an immediate
    /// follow-up read keyed by (parent identity, name), writing it back into
    /// `file.inode`. Fails with `DuplicateName`, leaving the store
    /// unchanged, when the key is already taken.
    pub fn add_file(&mut self, file: &mut File) -> (r: Result<(), AddFileError>)
        requires
            old(self).inv(),
            old(self).ready(),
            valid_name(old(file).path@),
        ensures
            final(self).inv(),
            final(self).ready(),
            final(self).next_inode() >= old(self).next_inode(),
            r is Ok ==> !has_key(old(self).rows(), old(file).parent_inode, old(file).path@)
                && final(file)@ == new_model(old(self).next_inode(), *old(file)) && final(self).rows() == old(self).rows().push(final(file)@) && final(self).next_inode() == old(self).next_inode() + 1,
            r matches Err(AddFileError::DuplicateName) ==> has_key(
                old(self).rows(),
                old(file).parent_inode,
                old(file).path@,
            ) && final(self).rows() == old(self).rows() && final(self).next_inode() == old(self).next_inode(),
            has_key(old(self).rows(), old(file).parent_inode, old(file).path@) ==> !(r is Ok),
            !(r is Ok) ==> *final(file) == *old(file) && (final(self).rows() == old(self).rows()
                || final(self).rows() == old(self).rows().push(
                new_model(old(self).next_inode(), *old(file)),
            )),
    {
        if file.parent_inode >= 0x8000_0000_0000_0000u64 || file.size
            >= 0x8000_0000_0000_0000u64 {
            return Err(AddFileError::Store(DatabaseError::new("value does not fit the store")));
        }
        let ghost rows0 = self.rows();
        let ghost next0 = self.next_inode();
        match exec_insert_file(&mut self.conn, file.parent_inode, file.size, &file.path, &file.file_type) {
            Err(InsertFault::Duplicate) => {
                return Err(AddFileError::DuplicateName);
            },
            Err(InsertFault::Backend(e)) => {
                return Err(AddFileError::Store(DatabaseError { message: sql_error_message(&e) }));
            },
            Ok(()) => {},
        }
        proof {
            lemma_store_push(rows0, next0, self.next_inode(), new_model(next0, *file));
        }
        let found = match query_file_by_name(&self.conn, file.path.as_str(), file.parent_inode) {
            Ok(found) => found,
            Err(e) => {
                return Err(AddFileError::Store(DatabaseError { message: sql_error_message(&e) }));
            },
        };
        match found {
            None => {
                proof {
                    let i = self.rows().len() as int - 1;
                    assert(keyed(self.rows()[i], file.parent_inode, file.path@));
                    assert(false);
                }
                Err(AddFileError::Store(DatabaseError::new("file added not found")))
            },
            Some(f) => {
                proof {
                    let i = choose|i: int|
                        0 <= i < self.rows().len() && self.rows()[i] == f@;
                    let last = self.rows().len() as int - 1;
                    assert(self.rows().contains(f@));
                    assert(self.rows()[i] == f@);
                    if i != last {
                        assert(keyed(self.rows()[i], self.rows()[last].parent_inode, self.rows()[last].path));
                        assert(false);
                    }
                }
                file.inode = f.inode;
                Ok(())
            },
        }
    }
}

impl Database {
    /// Resolves a (parent identity, name) pair to the matching entry; an
    /// absent key is a miss, not an error, and a backend failure is folded
    /// into a miss as well.
    pub fn get_file(&self, name: &str, parent_ino: u64) -> (r: Option<File>)
        requires
            self.inv(),
            self.ready(),
        ensures
            r matches Some(f) ==> self.rows().contains(f@) && keyed(f@, parent_ino, name@),
            !has_key(self.rows(), parent_ino, name@) ==> r is None,
    {
        if parent_ino >= 0x8000_0000_0000_0000u64 {
            return None;
        }
        match query_file_by_name(&self.conn, name, parent_ino) {
            Ok(found) => found,
            Err(_) => None,
        }
    }

    /// Resolves an identity to the matching entry, or reports a miss.
    pub fn get_file_by_inode(&self, ino: u64) -> (r: Option<File>)
        requires
            self.inv(),
            self.ready(),
        ensures
            r matches Some(f) ==> self.rows().contains(f@) && f@.inode == ino,
            !has_inode(self.rows(), ino) ==> r is None,
    {
        if ino >= 0x8000_0000_0000_0000u64 {
            return None;
        }
        match query_file_by_inode(&self.conn, ino) {
            Ok(found) => found,
            Err(_) => None,
        }
    }

    /// Lists one page of a directory's children, in identity (creation)
    /// order, skipping the first `offset` of them and bounded to
    /// `PAGE_LIMIT`; an absent offset means the first page.
    pub fn get_files(&self, parent_ino: u64, offset: Option<i64>) -> (r: Result<
        Vec<File>,
        DatabaseError,
    >)
        requires
            self.inv(),
            self.ready(),
            parent_ino < 0x8000_0000_0000_0000u64,
            offset matches Some(o) ==> o >= 0,
        ensures
            r matches Ok(v) ==> v@.map_values(|f: File| f@) == page_of(
                children_of(self.rows(), parent_ino),
                offset_value(offset),
                PAGE_LIMIT as int,
            ),
    {
        let off: i64 = match offset {
            Some(o) => o,
            None => 0,
        };
        match query_files_page(&self.conn, parent_ino, off) {
            Ok(v) => Ok(v),
            Err(e) => Err(DatabaseError { message: sql_error_message(&e) }),
        }
    }
}

/// The model of a freshly inserted entry: `file`'s fields under the
/// identity the store assigns.
pub open spec fn new_model(inode: u64, file: File) -> FileModel {
    FileModel {
        inode,
        parent_inode: file.parent_inode,
        size: file.size,
        path: file.path@,
        file_type: file.file_type@,
    }
}

/// How many stored rows carry the given (parent identity, name) key.
pub open spec fn count_matching(rows: Seq<FileModel>, parent_inode: u64, name: Seq<char>) -> nat
    decreases rows.len(),
{
    if rows.len() == 0 {
        0
    } else {
        count_matching(rows.drop_last(), parent_inode, name) + if keyed(
            rows.last(),
            parent_inode,
            name,
        ) {
            1nat
        } else {
            0nat
        }
    }
}

/// A key that is absent matches no row at all.
proof fn lemma_count_matching_zero(rows: Seq<FileModel>, parent_inode: u64, name: Seq<char>)
    requires
        !has_key(rows, parent_inode, name),
    ensures
        count_matching(rows, parent_inode, name) == 0,
    decreases rows.len(),
{
    if rows.len() > 0 {
        let last = rows.len() as int - 1;
        assert(!keyed(rows[last], parent_inode, name));
        assert(!has_key(rows.drop_last(), parent_inode, name)) by {
            if has_key(rows.drop_last(), parent_inode, name) {
                let i = choose|i: int|
                    0 <= i < rows.drop_last().len() && keyed(
                        rows.drop_last()[i],
                        parent_inode,
                        name,
                    );
                assert(rows.drop_last()[i] == rows[i]);
                assert(keyed(rows[i], parent_inode, name));
            }
        }
        lemma_count_matching_zero(rows.drop_last(), parent_inode, name);
    }
}

/// Duplicate rejection leaves no second row: under the store's uniqueness
/// invariant, a key that is present is stored in exactly one row. With the
/// creation contract — a second insert of a taken key fails and changes
/// nothing — the store holds exactly one matching row after any number of
/// attempts on the same key.
pub proof fn lemma_exactly_one_match(rows: Seq<FileModel>, parent_inode: u64, name: Seq<char>)
    requires
        unique_keys(rows),
        has_key(rows, parent_inode, name),
    ensures
        count_matching(rows, parent_inode, name) == 1,
    decreases rows.len(),
{
    let last = rows.len() as int - 1;
    if keyed(rows[last], parent_inode, name) {
        assert(!has_key(rows.drop_last(), parent_inode, name)) by {
            if has_key(rows.drop_last(), parent_inode, name) {
                let i = choose|i: int|
                    0 <= i < rows.drop_last().len() && keyed(
                        rows.drop_last()[i],
                        parent_inode,
                        name,
                    );
                assert(rows.drop_last()[i] == rows[i]);
                assert(!keyed(rows[i], rows[last].parent_inode, rows[last].path));
            }
        }
        lemma_count_matching_zero(rows.drop_last(), parent_inode, name);
    } else {
        assert(has_key(rows.drop_last(), parent_inode, name)) by {
            let i = choose|i: int| 0 <= i < rows.len() && keyed(rows[i], parent_inode, name);
            assert(rows.drop_last()[i] == rows[i]);
        }
        assert(unique_keys(rows.drop_last())) by {
            assert forall|i: int, j: int|
                0 <= i < j < rows.drop_last().len() implies !keyed(
                #[trigger] rows.drop_last()[i],
                (#[trigger] rows.drop_last()[j]).parent_inode,
                rows.drop_last()[j].path,
            ) by {
                assert(rows.drop_last()[i] == rows[i]);
                assert(rows.drop_last()[j] == rows[j]);
            }
        }
        lemma_exactly_one_match(rows.drop_last(), parent_inode, name);
    }
}

/// Pagination is complete, ordered and free of duplicates: the children
/// delivered before `offset` plus the page fetched at `offset` form
/// exactly the listing's prefix up to `offset + page.len()`, the page
/// never overruns the listing or the page bound, and a page is empty
/// exactly when every child has already been delivered. Resuming with each
/// response's last cursor therefore yields all children exactly once, in
/// creation order.
pub proof fn lemma_pagination(children: Seq<FileModel>, offset: int)
    requires
        0 <= offset <= children.len(),
    ensures
        ({
            let page = page_of(children, offset, PAGE_LIMIT as int);
            &&& children.subrange(0, offset) + page =~= children.subrange(
                0,
                offset + page.len(),
            )
            &&& offset + page.len() <= children.len()
            &&& page.len() <= PAGE_LIMIT
            &&& (page.len() == 0 <==> offset == children.len())
        }),
{
}

/// Identities name rows uniquely: two stored rows with the same identity
/// are the same row.
pub proof fn lemma_inode_unique(rows: Seq<FileModel>, i: int, j: int)
    requires
        rows_increasing(rows),
        0 <= i < rows.len(),
        0 <= j < rows.len(),
        rows[i].inode == rows[j].inode,
    ensures
        i == j,
{
    if i < j {
        assert(rows[i].inode < rows[j].inode);
    }
    if j < i {
        assert(rows[j].inode < rows[i].inode);
    }
}

/// Appending a row under the next identity preserves the store invariant.
proof fn lemma_store_push(rows: Seq<FileModel>, next: u64, next2: u64, m: FileModel)
    requires
        store_inv(rows, next),
        1 <= next,
        m.inode == next,
        next2 == next + 1,
        next2 <= 0x8000_0000_0000_0000u64,
        !has_key(rows, m.parent_inode, m.path),
    ensures
        store_inv(rows.push(m), next2),
{
    let rows2 = rows.push(m);
    assert forall|i: int, j: int| 0 <= i < j < rows2.len() implies rows2[i].inode
        < rows2[j].inode by {
        if j < rows.len() {
        } else {
            assert(rows2[i] == rows[i]);
            assert(rows2[j] == m);
        }
    }
    assert forall|i: int| 0 <= i < rows2.len() implies 1 <= #[trigger] rows2[i].inode
        < next2 by {
        if i < rows.len() {
            assert(rows2[i] == rows[i]);
        } else {
            assert(rows2[i] == m);
        }
    }
    assert forall|i: int, j: int| 0 <= i < j < rows2.len() implies !keyed(
        rows2[i],
        rows2[j].parent_inode,
        rows2[j].path,
    ) by {
        if j < rows.len() {
        } else {
            assert(rows2[j] == m);
            assert(rows2[i] == rows[i]);
            if keyed(rows[i], m.parent_inode, m.path) {
                assert(has_key(rows, m.parent_inode, m.path));
            }
        }
    }
}

} // verus!
