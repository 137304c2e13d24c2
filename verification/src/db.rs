//! The trusted boundary to the backing SQLite database (through `rusqlite`).
//!
//! The `files` table is modelled by [`table_rows`]: the multiset of its rows,
//! each read as (integer id, text filename, integer size, text upload
//! timestamp). Every wrapper here states over that name what the SQL
//! statement it runs does to the table; nothing else in the crate touches the
//! database directly.
//!
//! Two assumptions of the model, trusted alongside the contracts:
//!
//! - **One connection per database at a time.** The names below are spec
//!   functions of the `Connection` value, so the table is treated as private
//!   to the handle. Opening the same database file through two connections
//!   (or from two processes) and interleaving operations is outside the
//!   model: a change made through one handle is invisible to the other's
//!   contracts. This matches the utility's use — one connection, opened
//!   fresh per run and never shared.
//! - **The library's own schema.** The contracts describe the `files` table
//!   as [`create_files_table`] creates it: `id INTEGER PRIMARY KEY
//!   AUTOINCREMENT`, the other columns `NOT NULL`, no triggers, default
//!   collation. A pre-existing database whose `files` table has another
//!   shape is outside the model.

use vstd::prelude::*;
use vstd::multiset::Multiset;
use crate::record::{FileRecord, RowView, records_view};

verus! {

#[verifier::external_type_specification]
#[verifier::external_body]
pub struct ExConnection(rusqlite::Connection);

#[verifier::external_type_specification]
#[verifier::external_body]
pub struct ExSqlError(rusqlite::Error);

/// The contents of the `files` table behind a connection: the multiset of its
/// rows that read as (integer, text, integer, text) — which is every row this
/// library ever inserts — and empty where the table does not exist yet.
pub uninterp spec fn table_rows(conn: rusqlite::Connection) -> Multiset<RowView>;

/// The `AUTOINCREMENT` high-water mark of the `files` table behind a
/// connection: the largest id the table has ever assigned, and zero where it
/// has assigned none (or does not exist yet). SQLite keeps this mark in its
/// `sqlite_sequence` bookkeeping table and never assigns an id at or below
/// it, so ids grow strictly across inserts even after rows are deleted.
pub uninterp spec fn table_watermark(conn: rusqlite::Connection) -> int;

/// Relies on `Connection::open`: opens (creating it if missing) a database
/// file at the given path. Nothing is said of the table's contents: they are
/// whatever the file on disk holds.
#[verifier::external_body]
pub(crate) fn open_connection(path: &str) -> (r: Result<rusqlite::Connection, rusqlite::Error>) {
    rusqlite::Connection::open(path)
}

/// Relies on `Connection::open_in_memory`: a fresh private database, so the
/// `files` table does not exist yet, holds no rows, and has assigned no id.
#[verifier::external_body]
pub(crate) fn open_connection_in_memory() -> (r: Result<
    rusqlite::Connection,
    rusqlite::Error,
>)
    ensures
        r matches Ok(conn) ==> table_rows(conn) == Multiset::<RowView>::empty()
            && table_watermark(conn) == 0,
{
    rusqlite::Connection::open_in_memory()
}

/// Relies on `Connection::execute` with `CREATE TABLE IF NOT EXISTS`: an
/// existing `files` table keeps its rows and its id high-water mark, a newly
/// created one has none, and a failed statement changes nothing — so both
/// are unchanged whatever happens.
#[verifier::external_body]
pub(crate) fn create_files_table(conn: &mut rusqlite::Connection) -> (r: Result<
    (),
    rusqlite::Error,
>)
    ensures
        table_rows(*final(conn)) == table_rows(*old(conn)),
        table_watermark(*final(conn)) == table_watermark(*old(conn)),
{
    let res = conn.execute(
        "CREATE TABLE IF NOT EXISTS files (
            id INTEGER PRIMARY KEY AUTOINCREMENT,
            filename TEXT NOT NULL,
            size INTEGER NOT NULL,
            uploaded_at TEXT NOT NULL
        )",
        (),
    );
    match res {
        Ok(_) => Ok(()),
        Err(e) => Err(e),
    }
}

/// Relies on `Connection::execute` with a single-row INSERT and on
/// `Connection::last_insert_rowid`: on success SQLite adds exactly one row
/// holding the given values, and — the id column being `INTEGER PRIMARY KEY
/// AUTOINCREMENT` — its auto-assigned id is larger both than the id of every
/// row already in the table and than every id the table ever assigned before
/// (the high-water mark, which the insert raises to the new id). A failed
/// statement (the store unreachable) is rolled back and changes nothing.
#[verifier::external_body]
pub(crate) fn insert_row(
    conn: &mut rusqlite::Connection,
    filename: &str,
    size: i64,
    uploaded_at: &str,
) -> (r: Result<i64, rusqlite::Error>)
    ensures
        r matches Ok(id) ==> {
            &&& table_rows(*final(conn)) == table_rows(*old(conn)).insert(
                (id as int, filename@, size as int, uploaded_at@),
            )
            &&& forall|row: RowView|
                #[trigger] table_rows(*old(conn)).contains(row) ==> row.0 < id as int
            &&& id as int > table_watermark(*old(conn))
            &&& table_watermark(*final(conn)) == id as int
        },
        r is Err ==> table_rows(*final(conn)) == table_rows(*old(conn))
            && table_watermark(*final(conn)) == table_watermark(*old(conn)),
{
    let res = conn.execute(
        "INSERT INTO files (filename, size, uploaded_at) VALUES (?1, ?2, ?3)",
        (filename, size, uploaded_at),
    );
    match res {
        Ok(_) => Ok(conn.last_insert_rowid()),
        Err(e) => Err(e),
    }
}

/// Relies on `Statement::query` and `Rows::next` over `SELECT id, filename,
/// size, uploaded_at FROM files`: a scan that fails to start or to step is
/// an `Err`. On `Ok` the scan ran to its end: the first list holds every row
/// of the table that decodes as (integer, text, integer, text), each exactly
/// as often as it occurs, in storage-native order, and each row that fails
/// to decode is skipped and contributes its own error to the second list
/// instead. A SELECT changes nothing.
#[verifier::external_body]
pub(crate) fn select_all_rows(conn: &mut rusqlite::Connection) -> (r: Result<
    (Vec<FileRecord>, Vec<rusqlite::Error>),
    rusqlite::Error,
>)
    ensures
        table_rows(*final(conn)) == table_rows(*old(conn)),
        table_watermark(*final(conn)) == table_watermark(*old(conn)),
        r matches Ok(p) ==> records_view(p.0@).to_multiset() == table_rows(*old(conn)),
{
    let mut stmt = match conn.prepare("SELECT id, filename, size, uploaded_at FROM files") {
        Ok(s) => s, Err(e) => return Err(e),
    };
    let mut rows = match stmt.query(()) { Ok(r) => r, Err(e) => return Err(e) };
    let (mut recs, mut skipped) = (Vec::new(), Vec::new());
    loop {
        let row = match rows.next() {
            Ok(Some(r)) => r, Ok(None) => return Ok((recs, skipped)), Err(e) => return Err(e),
        };
        match <(i64, String, i64, String)>::try_from(row) {
            Ok((id, filename, size, uploaded_at)) => recs.push(FileRecord { id, filename, size, uploaded_at }),
            Err(e) => skipped.push(e),
        }
    }
}

/// Relies on `Connection::execute` with `DELETE FROM files WHERE filename =
/// ?1`: on success exactly the rows whose filename equals the argument are
/// gone — zero, one, or many — and every other row is kept; a DELETE does
/// not touch the id high-water mark, and a failed statement changes nothing.
#[verifier::external_body]
pub(crate) fn delete_rows_by_filename(
    conn: &mut rusqlite::Connection,
    filename: &str,
) -> (r: Result<(), rusqlite::Error>)
    ensures
        table_watermark(*final(conn)) == table_watermark(*old(conn)),
        r is Ok ==> table_rows(*final(conn)) == table_rows(*old(conn)).filter(
            crate::record::keeps_filename(filename@),
        ),
        r is Err ==> table_rows(*final(conn)) == table_rows(*old(conn)),
{
    let res = conn.execute("DELETE FROM files WHERE filename = ?1", (filename,));
    match res {
        Ok(_) => Ok(()),
        Err(e) => Err(e),
    }
}

#[verifier::external_type_specification]
#[verifier::external_body]
pub struct ExSystemTime(std::time::SystemTime);

/// Relies on `SystemTime::now`: the current wall-clock instant. It depends
/// on the clock, so nothing is promised of it.
#[verifier::external_body]
pub(crate) fn system_time_now() -> std::time::SystemTime {
    std::time::SystemTime::now()
}

/// Relies on `SystemTime::duration_since` against `UNIX_EPOCH`: the
/// instant's distance from the epoch, converted to whole seconds — or zero
/// where the instant lies before the epoch and the call reports the
/// negative distance as an error instead.
#[verifier::external_body]
pub(crate) fn seconds_since_epoch(t: &std::time::SystemTime) -> u64 {
    match t.duration_since(std::time::UNIX_EPOCH) {
        Ok(d) => d.as_secs(),
        Err(_) => 0,
    }
}

/// Relies on the `Display` impl of `rusqlite::Error` for a human-readable
/// description of a database failure.
#[verifier::external_body]
pub(crate) fn sql_error_text(e: &rusqlite::Error) -> String {
    format!("{}", e)
}

} // verus!
