//! The database-backed asset source.
//!
//! Assets live as rows of a pre-existing SQLite `files` table of
//! `(id, size, ttl, content)`.  The connection handle is exclusively
//! owned by this source; its lifecycle is `Unresolved -> Open -> Closed`,
//! and a closed source never reconnects implicitly: every reopening is an
//! explicit, fresh resolution.

use std::io::Write;
use vstd::prelude::*;
use crate::category::{AssetInfo, AssetInfoV, Category};
use crate::classify::{determine_category, find_header, spec_determine_category, spec_find_header};
use crate::engine::Engine;
use crate::hexid::{hex_decode, hex_encode, spec_hex_decode, spec_hex_encode, valid_hex};
use crate::shim::{maybe_decompress, spec_maybe_decompress};

verus! {

/// One row of the `files` table: size, ttl and content, keyed by id.
pub type DbRecord = (u64, u64, Seq<u8>);

#[verifier::external_type_specification]
#[verifier::external_body]
pub struct ExConnection(rusqlite::Connection);

/// The rows of the connection's `files` table: each id maps to that
/// row's size, ttl and content (integers read as u64).  The map model
/// reads id as the table's unique key, as the pre-existing schema keys
/// it, and treats the database as exclusively owned through this one
/// connection: writes from outside the process are outside the model.
pub uninterp spec fn db_files(conn: rusqlite::Connection) -> Map<Seq<u8>, DbRecord>;

/// The filesystem path the connection was opened on, when it has one.
pub uninterp spec fn db_path_of(conn: rusqlite::Connection) -> Option<Seq<char>>;

/// Why a database operation failed.
#[derive(Debug, Clone)]
pub enum DbError {
    /// The source holds no open connection; callers must trigger an
    /// explicit reconnection.
    NoConnection,
    /// The asset identifier is not a well-formed hex string.
    InvalidId,
    /// No row with the requested id exists.
    NotFound,
    /// The asset belongs to the directory backend, which this source
    /// does not serve.
    NotDatabaseAsset,
    /// The underlying database reported an error.
    Failure(String),
}

impl DbError {
    /// A short description of the failure.
    pub fn message(&self) -> (r: String)
        ensures
            self is NoConnection ==> r@ == "No SQL connection"@,
            self is InvalidId ==> r@ == "Invalid asset id"@,
            self is NotFound ==> r@ == "Asset not found"@,
            self is NotDatabaseAsset ==> r@ == "Not a database asset"@,
    {
        match self {
            DbError::NoConnection => "No SQL connection".to_owned(),
            DbError::InvalidId => "Invalid asset id".to_owned(),
            DbError::NotFound => "Asset not found".to_owned(),
            DbError::NotDatabaseAsset => "Not a database asset".to_owned(),
            DbError::Failure(m) => m.clone(),
        }
    }
}

/// The first `n` bytes of a sequence, or all of it when shorter.
pub open spec fn spec_prefix(s: Seq<u8>, n: int) -> Seq<u8> {
    if s.len() <= n {
        s
    } else {
        s.take(n)
    }
}

/// One row as handed back by a full listing: the raw id, the stored size
/// and ttl, and the first 4096 bytes of the content.
pub struct DbRow {
    pub id: Vec<u8>,
    pub size: u64,
    pub ttl: u64,
    pub prefix: Vec<u8>,
}

/// Relies on std::io::Stdout: echoes one line to the console, so a
/// listing pass can print each name the moment it is emitted.
#[verifier::external_body]
fn echo_line(line: &str) {
    let _ = writeln!(std::io::stdout(), "{}", line);
}

/// Relies on rusqlite::Connection::open: opens (or creates) the SQLite
/// database at the path.  Nothing is claimed of the reported filename:
/// `Connection::path` can hand back None even for a freshly opened
/// database (a full pathname that is not valid UTF-8).
#[verifier::external_body]
fn db_open(path: &str) -> (r: Result<rusqlite::Connection, String>) {
    match rusqlite::Connection::open(path) {
        Ok(c) => Ok(c),
        Err(e) => Err(format!("{}", e)),
    }
}

/// Relies on rusqlite::Connection::path: hands back the path of the main
/// database.
#[verifier::external_body]
fn db_get_path(conn: &rusqlite::Connection) -> (r: Option<String>)
    ensures
        match (r, db_path_of(*conn)) {
            (Some(s), Some(p)) => s@ == p,
            (None, None) => true,
            _ => false,
        },
{
    match conn.path() {
        Some(p) => Some(p.to_owned()),
        None => None,
    }
}

/// Relies on rusqlite::Connection::close: releases the handle; on
/// failure the connection is dropped anyway.
#[verifier::external_body]
fn db_close(conn: rusqlite::Connection) -> (r: Result<(), String>) {
    match conn.close() {
        Ok(()) => Ok(()),
        Err((_, e)) => Err(format!("{}", e)),
    }
}

/// Relies on rusqlite::Connection::query_row on
/// `SELECT content FROM files WHERE id = ?1`: hands back the stored
/// content of the row with that id, failing with `QueryReturnedNoRows`
/// exactly when no such row exists.
#[verifier::external_body]
fn db_query_content(conn: &rusqlite::Connection, id: &[u8]) -> (r: Result<Vec<u8>, DbError>)
    ensures
        match r {
            Ok(v) => db_files(*conn).dom().contains(id@) && v@ == db_files(*conn)[id@].2,
            Err(DbError::NotFound) => !db_files(*conn).dom().contains(id@),
            Err(DbError::Failure(_)) => true,
            Err(_) => false,
        },
{
    match conn.query_row("SELECT content FROM files WHERE id = ?1", (id,), |row| row.get(0)) {
        Ok(v) => Ok(v),
        Err(rusqlite::Error::QueryReturnedNoRows) => Err(DbError::NotFound),
        Err(e) => Err(DbError::Failure(format!("{}", e))),
    }
}

/// Relies on rusqlite::Connection::query_row on
/// `SELECT size, ttl FROM files WHERE id = ?1`: hands back the stored
/// size and ttl of the row with that id, failing with
/// `QueryReturnedNoRows` exactly when no such row exists.
#[verifier::external_body]
fn db_query_meta(conn: &rusqlite::Connection, id: &[u8]) -> (r: Result<(u64, u64), DbError>)
    ensures
        match r {
            Ok(m) => db_files(*conn).dom().contains(id@) && m.0 == db_files(*conn)[id@].0 && m.1
                == db_files(*conn)[id@].1,
            Err(DbError::NotFound) => !db_files(*conn).dom().contains(id@),
            Err(DbError::Failure(_)) => true,
            Err(_) => false,
        },
{
    match conn.query_row("SELECT size, ttl FROM files WHERE id = ?1", (id,), |row| Ok((row.get::<_, i64>(0)? as u64, row.get::<_, i64>(1)? as u64))) {
        Ok(m) => Ok(m),
        Err(rusqlite::Error::QueryReturnedNoRows) => Err(DbError::NotFound),
        Err(e) => Err(DbError::Failure(format!("{}", e))),
    }
}

/// Relies on rusqlite prepare / query_map on
/// `SELECT id, size, ttl, substr(content, 1, 4096) FROM files`: hands
/// back every row of the table exactly once (in an order SQLite leaves
/// open), each with the first 4096 bytes of its content.
#[verifier::external_body]
fn db_list_rows(conn: &rusqlite::Connection) -> (r: Result<Vec<DbRow>, DbError>)
    ensures
        match r {
            Ok(rows) => {
                &&& forall|i: int|
                    0 <= i < rows@.len() ==> {
                        let row = #[trigger] rows@[i];
                        &&& db_files(*conn).dom().contains(row.id@)
                        &&& row.size == db_files(*conn)[row.id@].0
                        &&& row.ttl == db_files(*conn)[row.id@].1
                        &&& row.prefix@ == spec_prefix(db_files(*conn)[row.id@].2, 4096)
                    }
                &&& forall|i: int, j: int|
                    0 <= i < j < rows@.len() ==> rows@[i].id@ != rows@[j].id@
                &&& forall|id: Seq<u8>|
                    #[trigger] db_files(*conn).dom().contains(id) ==> exists|i: int|
                        0 <= i < rows@.len() && rows@[i].id@ == id
            },
            Err(DbError::Failure(_)) => true,
            Err(_) => false,
        },
{
    let run = || -> Result<Vec<DbRow>, rusqlite::Error> {
        let mut stmt = conn.prepare("SELECT id, size, ttl, substr(content, 1, 4096) FROM files")?;
        let rows = stmt.query_map((), |row| {
            Ok(DbRow { id: row.get(0)?, size: row.get::<_, i64>(1)? as u64, ttl: row.get::<_, i64>(2)? as u64, prefix: row.get(3)? })
        })?;
        rows.collect()
    };
    run().map_err(|e| DbError::Failure(format!("{}", e)))
}

/// The table after exchanging the stored content of two ids; sizes and
/// ttls stay where they were.
pub open spec fn spec_swap_content(m: Map<Seq<u8>, DbRecord>, a: Seq<u8>, b: Seq<u8>) -> Map<
    Seq<u8>,
    DbRecord,
> {
    m.insert(a, (m[a].0, m[a].1, m[b].2)).insert(b, (m[b].0, m[b].1, m[a].2))
}

/// The table after overwriting `b`'s content with `a`'s.  An update on an
/// absent row updates nothing.
pub open spec fn spec_copy_content(m: Map<Seq<u8>, DbRecord>, a: Seq<u8>, b: Seq<u8>) -> Map<
    Seq<u8>,
    DbRecord,
> {
    if m.dom().contains(b) {
        m.insert(b, (m[b].0, m[b].1, m[a].2))
    } else {
        m
    }
}

/// The descriptor built from a row's stored metadata.
pub open spec fn spec_meta_info(name: Seq<char>, rec: DbRecord, category: Category) -> AssetInfoV {
    AssetInfoV {
        name: name,
        size: rec.0,
        last_modified: Some(rec.1),
        from_file: false,
        from_sql: true,
        category: category,
    }
}

/// What a finished swap attempt says of the table: on success both ids
/// were present and only their contents were exchanged; on any failure
/// the table is exactly as it was, and the error names what went wrong.
pub open spec fn spec_swap_post(
    pre_open: bool,
    pre: Map<Seq<u8>, DbRecord>,
    post: Map<Seq<u8>, DbRecord>,
    name_a: Seq<char>,
    name_b: Seq<char>,
    r: Result<(), DbError>,
) -> bool {
    match r {
        Ok(()) => {
            let ida = spec_hex_decode(name_a);
            let idb = spec_hex_decode(name_b);
            &&& pre_open
            &&& valid_hex(name_a)
            &&& valid_hex(name_b)
            &&& pre.dom().contains(ida)
            &&& pre.dom().contains(idb)
            &&& post == spec_swap_content(pre, ida, idb)
        },
        Err(DbError::NoConnection) => !pre_open && post == pre,
        Err(DbError::InvalidId) => pre_open && (!valid_hex(name_a) || !valid_hex(name_b)) && post
            == pre,
        Err(DbError::NotFound) => pre_open && post == pre && (!pre.dom().contains(
            spec_hex_decode(name_a),
        ) || !pre.dom().contains(spec_hex_decode(name_b))),
        Err(DbError::NotDatabaseAsset) => false,
        Err(DbError::Failure(_)) => pre_open && valid_hex(name_a) && valid_hex(name_b) && post
            == pre,
    }
}

/// What a finished copy attempt says of the table, in the same shape as
/// [`spec_swap_post`].
pub open spec fn spec_copy_post(
    pre_open: bool,
    pre: Map<Seq<u8>, DbRecord>,
    post: Map<Seq<u8>, DbRecord>,
    name_a: Seq<char>,
    name_b: Seq<char>,
    r: Result<(), DbError>,
) -> bool {
    match r {
        Ok(()) => {
            let ida = spec_hex_decode(name_a);
            let idb = spec_hex_decode(name_b);
            &&& pre_open
            &&& valid_hex(name_a)
            &&& valid_hex(name_b)
            &&& pre.dom().contains(ida)
            &&& post == spec_copy_content(pre, ida, idb)
        },
        Err(DbError::NoConnection) => !pre_open && post == pre,
        Err(DbError::InvalidId) => pre_open && (!valid_hex(name_a) || !valid_hex(name_b)) && post
            == pre,
        Err(DbError::NotFound) => pre_open && post == pre && !pre.dom().contains(
            spec_hex_decode(name_a),
        ),
        Err(DbError::NotDatabaseAsset) => false,
        Err(DbError::Failure(_)) => pre_open && valid_hex(name_a) && valid_hex(name_b) && post
            == pre,
    }
}

/// Swapping the same two ids twice restores the table exactly: the
/// exchange is an involution.
pub proof fn lemma_swap_involution(m: Map<Seq<u8>, DbRecord>, a: Seq<u8>, b: Seq<u8>)
    requires
        m.dom().contains(a),
        m.dom().contains(b),
    ensures
        spec_swap_content(spec_swap_content(m, a, b), a, b) == m,
{
    assert(spec_swap_content(spec_swap_content(m, a, b), a, b) =~= m);
}

/// Relies on rusqlite transactions (Connection::transaction, query_row,
/// execute, Transaction::commit): reads both contents and writes each to
/// the other row inside one transaction, so either both rows change or,
/// on any failure, the rollback leaves the table as it was.
#[verifier::external_body]
fn db_swap(conn: &mut rusqlite::Connection, a: &[u8], b: &[u8]) -> (r: Result<(), DbError>)
    ensures
        db_path_of(*final(conn)) == db_path_of(*old(conn)),
        match r {
            Ok(()) => db_files(*old(conn)).dom().contains(a@) && db_files(*old(conn)).dom().contains(
                b@,
            ) && db_files(*final(conn)) == spec_swap_content(db_files(*old(conn)), a@, b@),
            Err(DbError::NotFound) => (!db_files(*old(conn)).dom().contains(a@) || !db_files(
                *old(conn),
            ).dom().contains(b@)) && db_files(*final(conn)) == db_files(*old(conn)),
            Err(DbError::Failure(_)) => db_files(*final(conn)) == db_files(*old(conn)),
            Err(_) => false,
        },
{
    let mut inner = || -> Result<(), rusqlite::Error> {
        let tx = conn.transaction()?;
        let ca: Vec<u8> = tx.query_row("SELECT content FROM files WHERE id = ?1", (a,), |row| row.get(0))?;
        let cb: Vec<u8> = tx.query_row("SELECT content FROM files WHERE id = ?1", (b,), |row| row.get(0))?;
        tx.execute("UPDATE files SET content = ?1 WHERE id = ?2", (&cb, a))?;
        tx.execute("UPDATE files SET content = ?1 WHERE id = ?2", (&ca, b))?;
        tx.commit()
    };
    match inner() {
        Ok(()) => Ok(()),
        Err(rusqlite::Error::QueryReturnedNoRows) => Err(DbError::NotFound),
        Err(e) => Err(DbError::Failure(format!("{}", e))),
    }
}

/// Relies on rusqlite query_row and execute: reads `a`'s content and
/// writes it to row `b` with a single UPDATE statement, which changes
/// nothing when row `b` is absent and is atomic on failure.
#[verifier::external_body]
fn db_copy(conn: &mut rusqlite::Connection, a: &[u8], b: &[u8]) -> (r: Result<(), DbError>)
    ensures
        db_path_of(*final(conn)) == db_path_of(*old(conn)),
        match r {
            Ok(()) => db_files(*old(conn)).dom().contains(a@) && db_files(*final(conn))
                == spec_copy_content(db_files(*old(conn)), a@, b@),
            Err(DbError::NotFound) => !db_files(*old(conn)).dom().contains(a@) && db_files(
                *final(conn),
            ) == db_files(*old(conn)),
            Err(DbError::Failure(_)) => db_files(*final(conn)) == db_files(*old(conn)),
            Err(_) => false,
        },
{
    let mut inner = || -> Result<(), rusqlite::Error> {
        let ca: Vec<u8> = conn.query_row("SELECT content FROM files WHERE id = ?1", (a,), |row| row.get(0))?;
        conn.execute("UPDATE files SET content = ?1 WHERE id = ?2", (&ca, b))?;
        Ok(())
    };
    match inner() {
        Ok(()) => Ok(()),
        Err(rusqlite::Error::QueryReturnedNoRows) => Err(DbError::NotFound),
        Err(e) => Err(DbError::Failure(format!("{}", e))),
    }
}

/// The database-backed asset source.  It owns at most one connection;
/// while it holds none, every operation reports `NoConnection` and the
/// caller must reconnect explicitly.
pub struct DbSource {
    conn: Option<rusqlite::Connection>,
}

impl DbSource {
    /// Whether the source currently holds an open connection.
    pub closed spec fn is_open(&self) -> bool {
        self.conn is Some
    }

    /// The rows of the open connection's `files` table.
    pub closed spec fn files(&self) -> Map<Seq<u8>, DbRecord> {
        match self.conn {
            Some(c) => db_files(c),
            None => Map::empty(),
        }
    }

    /// The path of the open connection, when it has one.
    pub closed spec fn path(&self) -> Option<Seq<char>> {
        match self.conn {
            Some(c) => db_path_of(c),
            None => None,
        }
    }

    /// A source with no storage resolved yet.
    pub fn unconnected() -> (r: DbSource)
        ensures
            !r.is_open(),
    {
        DbSource { conn: None }
    }

    /// Wraps a connection that a caller resolved and opened.
    pub fn with_connection(conn: rusqlite::Connection) -> (r: DbSource)
        ensures
            r.is_open(),
            r.files() == db_files(conn),
            r.path() == db_path_of(conn),
    {
        DbSource { conn: Some(conn) }
    }

    /// Opens the database at an already-validated path and takes the
    /// connection.  A failed open leaves the source closed.
    pub fn connect_to_path(&mut self, path: &str) -> (r: Result<(), DbError>)
        requires
            !old(self).is_open(),
        ensures
            r is Ok == final(self).is_open(),
    {
        match db_open(path) {
            Ok(c) => {
                self.conn = Some(c);
                Ok(())
            },
            Err(m) => Err(DbError::Failure(m)),
        }
    }

    /// The path of the current connection, as the original resolution
    /// reported it.
    pub fn get_db_path(&self) -> (r: Option<String>)
        ensures
            match r {
                Some(s) => self.is_open() && self.path() == Some(s@),
                None => !self.is_open() || self.path() is None,
            },
    {
        match &self.conn {
            Some(c) => db_get_path(c),
            None => None,
        }
    }

    /// Closes the connection and forgets it.  The source stays closed
    /// until a caller resolves storage afresh.
    pub fn clean_up(&mut self) -> (r: Result<(), DbError>)
        ensures
            !final(self).is_open(),
            !old(self).is_open() ==> r is Ok,
            r matches Err(e) ==> old(self).is_open() && e is Failure,
    {
        match self.conn.take() {
            Some(c) => {
                match db_close(c) {
                    Ok(()) => Ok(()),
                    Err(m) => Err(DbError::Failure(m)),
                }
            },
            None => Ok(()),
        }
    }

    /// Closes the old connection, then installs the outcome of a fresh
    /// resolution attempt (None when the caller could not resolve one).
    pub fn reset_database(&mut self, conn: Option<rusqlite::Connection>) -> (r: Result<(), DbError>)
        ensures
            !old(self).is_open() ==> r is Ok,
            r matches Err(e) ==> old(self).is_open() && e is Failure,
            match conn {
                Some(c) => final(self).is_open() && final(self).files() == db_files(c) && final(self).path() == db_path_of(c),
                None => !final(self).is_open(),
            },
    {
        let close_result = self.clean_up();
        self.conn = conn;
        close_result
    }

    /// Hands back the path and closes the connection, so that a cache
    /// clear can delete the underlying storage without the source's own
    /// handle blocking the delete.
    pub fn prepare_clear(&mut self) -> (r: Option<String>)
        ensures
            !final(self).is_open(),
            match r {
                Some(s) => old(self).is_open() && old(self).path() == Some(s@),
                None => !old(self).is_open() || old(self).path() is None,
            },
    {
        let path = self.get_db_path();
        let _ = self.clean_up();
        path
    }

    /// The raw stored bytes of a database-backed asset, before any
    /// decompression.
    pub fn read_asset(&self, asset: &AssetInfo) -> (r: Result<Vec<u8>, DbError>)
        ensures
            match r {
                Ok(v) => self.is_open() && valid_hex(asset.name@) && self.files().dom().contains(
                    spec_hex_decode(asset.name@),
                ) && v@ == self.files()[spec_hex_decode(asset.name@)].2,
                Err(DbError::NoConnection) => !self.is_open(),
                Err(DbError::InvalidId) => self.is_open() && !valid_hex(asset.name@),
                Err(DbError::NotFound) => self.is_open() && valid_hex(asset.name@)
                    && !self.files().dom().contains(spec_hex_decode(asset.name@)),
                Err(DbError::NotDatabaseAsset) => false,
                Err(DbError::Failure(_)) => self.is_open() && valid_hex(asset.name@),
            },
    {
        match &self.conn {
            Some(c) => {
                match hex_decode(asset.name.as_str()) {
                    Some(id) => db_query_content(c, id.as_slice()),
                    None => Err(DbError::InvalidId),
                }
            },
            None => Err(DbError::NoConnection),
        }
    }

    /// Resolves an asset id directly, without a full scan.  On success
    /// the descriptor carries the stored size and ttl; a missing row, a
    /// malformed id, a closed source or a storage error all yield None.
    pub fn create_asset_info(&self, asset: &str, category: Category) -> (r: Option<AssetInfo>)
        ensures
            r matches Some(info) ==> self.is_open() && valid_hex(asset@) && self.files().dom()
                .contains(spec_hex_decode(asset@)) && info@ == spec_meta_info(
                asset@,
                self.files()[spec_hex_decode(asset@)],
                category,
            ),
            !self.is_open() ==> r is None,
            !valid_hex(asset@) ==> r is None,
            !self.files().dom().contains(spec_hex_decode(asset@)) ==> r is None,
    {
        match &self.conn {
            Some(c) => {
                match hex_decode(asset) {
                    Some(id) => {
                        match db_query_meta(c, id.as_slice()) {
                            Ok((size, ttl)) => Some(
                                AssetInfo {
                                    name: asset.to_owned(),
                                    size,
                                    last_modified: Some(ttl),
                                    from_file: false,
                                    from_sql: true,
                                    category,
                                },
                            ),
                            Err(_) => None,
                        }
                    },
                    None => None,
                }
            },
            None => None,
        }
    }

    /// Exchanges the stored content of two assets atomically: either
    /// both rows change or neither does.
    pub fn swap_assets(&mut self, asset_a: &AssetInfo, asset_b: &AssetInfo) -> (r: Result<
        (),
        DbError,
    >)
        ensures
            final(self).is_open() == old(self).is_open(),
            final(self).path() == old(self).path(),
            spec_swap_post(
                old(self).is_open(),
                old(self).files(),
                final(self).files(),
                asset_a.name@,
                asset_b.name@,
                r,
            ),
    {
        match &mut self.conn {
            Some(c) => {
                let ida = match hex_decode(asset_a.name.as_str()) {
                    Some(v) => v,
                    None => {
                        return Err(DbError::InvalidId);
                    },
                };
                let idb = match hex_decode(asset_b.name.as_str()) {
                    Some(v) => v,
                    None => {
                        return Err(DbError::InvalidId);
                    },
                };
                db_swap(c, ida.as_slice(), idb.as_slice())
            },
            None => Err(DbError::NoConnection),
        }
    }

    /// Overwrites asset `b`'s stored content with asset `a`'s.  Row `b`
    /// is never left partially written; overwriting an absent row
    /// changes nothing.
    pub fn copy_assets(&mut self, asset_a: &AssetInfo, asset_b: &AssetInfo) -> (r: Result<
        (),
        DbError,
    >)
        ensures
            final(self).is_open() == old(self).is_open(),
            final(self).path() == old(self).path(),
            spec_copy_post(
                old(self).is_open(),
                old(self).files(),
                final(self).files(),
                asset_a.name@,
                asset_b.name@,
                r,
            ),
    {
        match &mut self.conn {
            Some(c) => {
                let ida = match hex_decode(asset_a.name.as_str()) {
                    Some(v) => v,
                    None => {
                        return Err(DbError::InvalidId);
                    },
                };
                let idb = match hex_decode(asset_b.name.as_str()) {
                    Some(v) => v,
                    None => {
                        return Err(DbError::InvalidId);
                    },
                };
                db_copy(c, ida.as_slice(), idb.as_slice())
            },
            None => Err(DbError::NoConnection),
        }
    }
}


/// Whether a row's content prefix, after the decompression shim, carries
/// one of the category's signatures.
pub open spec fn spec_row_matches(rec: DbRecord, category: Category) -> bool {
    spec_find_header(category, spec_maybe_decompress(spec_prefix(rec.2, 4096))) is Some
}

/// The descriptor a listing pass produces for one matching row.  Under
/// the wildcard query the concrete category is recovered from the
/// decompressed bytes.
pub open spec fn spec_row_info(id: Seq<u8>, rec: DbRecord, category: Category) -> AssetInfoV {
    AssetInfoV {
        name: spec_hex_encode(id),
        size: rec.0,
        last_modified: Some(rec.1),
        from_file: false,
        from_sql: true,
        category: if category == Category::All {
            spec_determine_category(spec_maybe_decompress(spec_prefix(rec.2, 4096)))
        } else {
            category
        },
    }
}

/// The descriptors a listing pass appends, for rows visited in the order
/// of `ids`.
pub open spec fn spec_db_entries(
    ids: Seq<Seq<u8>>,
    m: Map<Seq<u8>, DbRecord>,
    category: Category,
) -> Seq<AssetInfoV>
    decreases ids.len(),
{
    if ids.len() == 0 {
        Seq::empty()
    } else {
        let rest = spec_db_entries(ids.drop_last(), m, category);
        if spec_row_matches(m[ids.last()], category) {
            rest.push(spec_row_info(ids.last(), m[ids.last()], category))
        } else {
            rest
        }
    }
}

/// No id occurs twice.
pub open spec fn ids_distinct(ids: Seq<Seq<u8>>) -> bool {
    forall|i: int, j: int| 0 <= i < j < ids.len() ==> ids[i] != ids[j]
}

/// The ids are exactly the table's keys.
pub open spec fn ids_cover(ids: Seq<Seq<u8>>, m: Map<Seq<u8>, DbRecord>) -> bool {
    &&& forall|i: int| 0 <= i < ids.len() ==> m.dom().contains(#[trigger] ids[i])
    &&& forall|id: Seq<u8>| #[trigger] m.dom().contains(id) ==> ids.contains(id)
}

/// The ids of a row listing, in listing order.
pub open spec fn row_ids(rows: Seq<DbRow>) -> Seq<Seq<u8>> {
    rows.map_values(|r: DbRow| r.id@)
}

impl DbSource {
    /// One listing pass over this backend: pages through every row of
    /// the `files` table, runs each content prefix through the
    /// decompression shim, keeps the rows whose bytes carry one of the
    /// category's signatures, and appends one fresh descriptor per kept
    /// row to the shared index, reporting progress row by row.  With
    /// `cli_list_mode` each kept name is echoed to the console the
    /// moment it is emitted, so reading and printing happen in the same
    /// pass.  `Music` is out of scope for the database backend.  With
    /// no open connection the scan fails explicitly; it never passes
    /// itself off as an empty listing.
    pub fn refresh(
        &self,
        engine: &mut Engine,
        category: Category,
        cli_list_mode: bool,
    ) -> (r: Result<(), DbError>)
        ensures
            final(engine)@.filtered == old(engine)@.filtered,
            final(engine)@.status == old(engine)@.status,
            final(engine)@.listing == old(engine)@.listing,
            final(engine)@.stop_listing == old(engine)@.stop_listing,
            final(engine)@.mutating == old(engine)@.mutating,
            final(engine)@.temp_dir == old(engine)@.temp_dir,
            category == Category::Music ==> r is Ok && final(engine)@ == old(engine)@,
            !self.is_open() && category != Category::Music ==> r matches Err(DbError::NoConnection),
            r matches Err(DbError::NoConnection) ==> !self.is_open(),
            r matches Err(DbError::Failure(_)) ==> self.is_open(),
            r matches Err(e) ==> e is NoConnection || e is Failure,
            r is Err ==> final(engine)@ == old(engine)@,
            r is Ok && category != Category::Music ==> exists|ids: Seq<Seq<u8>>|
                {
                    &&& #[trigger] ids_distinct(ids)
                    &&& ids_cover(ids, self.files())
                    &&& final(engine)@.file_list == old(engine)@.file_list + spec_db_entries(
                        ids,
                        self.files(),
                        category,
                    )
                },
    {
        if category == Category::Music {
            return Ok(());
        }
        let conn = match &self.conn {
            Some(c) => c,
            None => {
                return Err(DbError::NoConnection);
            },
        };
        let rows = match db_list_rows(conn) {
            Ok(rows) => rows,
            Err(e) => {
                return Err(e);
            },
        };
        let ghost m = self.files();
        let n = rows.len();
        proof {
            assert(row_ids(rows@).take(0) =~= Seq::<Seq<u8>>::empty());
            assert(engine@.file_list =~= old(engine)@.file_list + spec_db_entries(
                Seq::empty(),
                m,
                category,
            ));
        }
        let mut i: usize = 0;
        while i < n
            invariant
                n == rows@.len(),
                0 <= i <= n,
                m == self.files(),
                forall|t: int|
                    0 <= t < n ==> {
                        let row = #[trigger] rows@[t];
                        &&& m.dom().contains(row.id@)
                        &&& row.size == m[row.id@].0
                        &&& row.ttl == m[row.id@].1
                        &&& row.prefix@ == spec_prefix(m[row.id@].2, 4096)
                    },
                forall|t: int, u: int| 0 <= t < u < n ==> rows@[t].id@ != rows@[u].id@,
                forall|id: Seq<u8>|
                    #[trigger] m.dom().contains(id) ==> exists|t: int|
                        0 <= t < n && rows@[t].id@ == id,
                engine@.file_list =~= old(engine)@.file_list + spec_db_entries(
                    row_ids(rows@).take(i as int),
                    m,
                    category,
                ),
                engine@.filtered == old(engine)@.filtered,
                engine@.status == old(engine)@.status,
                engine@.listing == old(engine)@.listing,
                engine@.stop_listing == old(engine)@.stop_listing,
                engine@.mutating == old(engine)@.mutating,
                engine@.temp_dir == old(engine)@.temp_dir,
            decreases n - i,
        {
            let row = &rows[i];
            engine.update_progress((i + 1) as u64, n as u64);
            let d = maybe_decompress(row.prefix.clone());
            let ghost idg = rows@[i as int].id@;
            proof {
                assert(d@ == spec_maybe_decompress(spec_prefix(m[idg].2, 4096)));
            }
            match find_header(category, d.as_slice()) {
                Ok(_) => {
                    let name = hex_encode(row.id.as_slice());
                    if cli_list_mode {
                        echo_line(name.as_str());
                    }
                    let cat = if category == Category::All {
                        determine_category(d.as_slice())
                    } else {
                        category
                    };
                    let info = AssetInfo {
                        name,
                        size: row.size,
                        last_modified: Some(row.ttl),
                        from_file: false,
                        from_sql: true,
                        category: cat,
                    };
                    proof {
                        assert(spec_row_matches(m[idg], category));
                        assert(info@ == spec_row_info(idg, m[idg], category));
                    }
                    engine.update_file_list(info);
                },
                Err(_) => {
                    proof {
                        assert(!spec_row_matches(m[idg], category));
                    }
                },
            }
            proof {
                let ids = row_ids(rows@);
                assert(ids.take(i + 1).drop_last() =~= ids.take(i as int));
                assert(ids.take(i + 1).last() == ids[i as int]);
                assert(ids[i as int] == idg);
            }
            i = i + 1;
        }
        proof {
            let ids = row_ids(rows@);
            assert(ids.take(n as int) =~= ids);
            assert(ids_distinct(ids)) by {
                assert(forall|t: int, u: int|
                    0 <= t < u < n ==> ids[t] == rows@[t].id@ && ids[u] == rows@[u].id@);
            }
            assert forall|id: Seq<u8>| #[trigger] m.dom().contains(id) implies ids.contains(id) by {
                let t = choose|t: int| 0 <= t < n && rows@[t].id@ == id;
                assert(ids[t] == id);
            }
            assert(ids_cover(ids, m));
        }
        Ok(())
    }
}

} // verus!
