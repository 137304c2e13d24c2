//! The metadata store: verified operations over the `files` table.
//!
//! Every operation's contract is stated against [`table_rows`], the multiset
//! model of the table. The two searches read the whole table through the
//! trusted boundary and do their matching — case-sensitive substring
//! containment, lexicographic timestamp range — in verified code.

use vstd::prelude::*;
use vstd::multiset::Multiset;
use crate::db;
use crate::db::{table_rows, table_watermark};
use crate::record::{FileRecord, RowView, StoreError, keeps_filename, records_view};
use crate::text::{
    contains_seq,
    dec_of,
    lex_between,
    str_contains,
    str_lex_between,
    u64_to_dec_string,
};
use rusqlite::Connection;

verus! {

broadcast use
    vstd::multiset::group_multiset_axioms,
    vstd::multiset::group_multiset_properties,
    vstd::seq_lib::group_to_multiset_ensures,
;

/// The rows the name search matches: filename contains the term.
pub open spec fn name_matches(term: Seq<char>) -> spec_fn(RowView) -> bool {
    |row: RowView| contains_seq(row.1, term)
}

/// The rows the date-range search matches: timestamp lexicographically in
/// the inclusive range `[start, end]`.
pub open spec fn date_matches(start: Seq<char>, end: Seq<char>) -> spec_fn(RowView) -> bool {
    |row: RowView| lex_between(row.3, start, end)
}

/// Filtering commutes with inserting one element: the element stays just
/// when it matches.
pub(crate) proof fn lemma_filter_insert(m: Multiset<RowView>, v: RowView, p: spec_fn(RowView) -> bool)
    ensures
        p(v) ==> m.insert(v).filter(p) == m.filter(p).insert(v),
        !p(v) ==> m.insert(v).filter(p) == m.filter(p),
{
    if p(v) {
        assert(m.insert(v).filter(p) =~= m.filter(p).insert(v)) by {
            assert forall|x: RowView| m.insert(v).filter(p).count(x) == m.filter(p).insert(
                v,
            ).count(x) by {
                if x != v {
                    assert(m.insert(v).count(x) == m.count(x));
                    assert(m.filter(p).insert(v).count(x) == m.filter(p).count(x));
                }
            }
        }
    } else {
        assert(m.insert(v).filter(p) =~= m.filter(p)) by {
            assert forall|x: RowView| m.insert(v).filter(p).count(x) == m.filter(p).count(x) by {
                if x != v {
                    assert(m.insert(v).count(x) == m.count(x));
                }
            }
        }
    }
}

/// Moving an element from the pending side of a partition to the done side
/// keeps the union.
proof fn lemma_insert_add_shift(a: Multiset<RowView>, b: Multiset<RowView>, x: RowView)
    ensures
        a.insert(x).add(b) == a.add(b.insert(x)),
{
    assert(a.insert(x).add(b) =~= a.add(b.insert(x))) by {
        assert forall|y: RowView| a.insert(x).add(b).count(y) == a.add(b.insert(x)).count(y) by {
            if y != x {
                assert(a.insert(x).count(y) == a.count(y));
                assert(b.insert(x).count(y) == b.count(y));
            }
        }
    }
}

/// Filtering the empty multiset yields the empty multiset.
proof fn lemma_filter_empty(p: spec_fn(RowView) -> bool)
    ensures
        Multiset::<RowView>::empty().filter(p) == Multiset::<RowView>::empty(),
{
    assert(Multiset::<RowView>::empty().filter(p) =~= Multiset::<RowView>::empty());
}

/// Opens (or creates) a database file at `path` and ensures the `files`
/// table exists, so that a fresh file starts with no rows.
pub fn init_db_at(path: &str) -> (r: Result<Connection, StoreError>)
    ensures
        r matches Err(e) ==> e is StorageUnavailable,
{
    let conn = db::open_connection(path);
    let mut conn = match conn {
        Ok(c) => c,
        Err(e) => return Err(StoreError::StorageUnavailable(db::sql_error_text(&e))),
    };
    match db::create_files_table(&mut conn) {
        Ok(_) => Ok(conn),
        Err(e) => Err(StoreError::StorageUnavailable(db::sql_error_text(&e))),
    }
}

/// Opens the fixed local database file this utility keeps its metadata in.
pub fn init_db() -> (r: Result<Connection, StoreError>)
    ensures
        r matches Err(e) ==> e is StorageUnavailable,
{
    init_db_at("filehosting.db")
}

/// Opens a fresh private in-memory store: on success the table exists,
/// holds no rows at all, and has assigned no id yet.
pub fn init_db_in_memory() -> (r: Result<Connection, StoreError>)
    ensures
        r matches Ok(conn) ==> table_rows(conn) == Multiset::<RowView>::empty()
            && table_watermark(conn) == 0,
        r matches Err(e) ==> e is StorageUnavailable,
{
    let conn = db::open_connection_in_memory();
    let mut conn = match conn {
        Ok(c) => c,
        Err(e) => return Err(StoreError::StorageUnavailable(db::sql_error_text(&e))),
    };
    match db::create_files_table(&mut conn) {
        Ok(_) => Ok(conn),
        Err(e) => Err(StoreError::StorageUnavailable(db::sql_error_text(&e))),
    }
}

/// Inserts one metadata row with the given upload timestamp. On success the
/// table gains exactly that row, under a fresh id larger than every id
/// already present and than every id the table ever assigned — so ids grow
/// strictly in insert order, and an id is never reused even after deletes.
/// On failure — the store unreachable, or a size beyond what the store's
/// integer column holds — the table is unchanged.
pub fn insert_file_metadata_at(
    conn: &mut Connection,
    filename: &str,
    size: u64,
    uploaded_at: &str,
) -> (r: Result<i64, StoreError>)
    ensures
        r matches Ok(id) ==> {
            &&& size <= i64::MAX
            &&& table_rows(*final(conn)) == table_rows(*old(conn)).insert(
                (id as int, filename@, size as int, uploaded_at@),
            )
            &&& forall|row: RowView|
                #[trigger] table_rows(*old(conn)).contains(row) ==> row.0 < id as int
            &&& id as int > table_watermark(*old(conn))
            &&& table_watermark(*final(conn)) == id as int
        },
        r is Err ==> table_rows(*final(conn)) == table_rows(*old(conn))
            && table_watermark(*final(conn)) == table_watermark(*old(conn)),
        r matches Err(e) ==> e is WriteError,
        size > i64::MAX ==> r is Err,
{
    if size > i64::MAX as u64 {
        return Err(
            StoreError::WriteError(
                String::from_str("file size exceeds the store's integer column"),
            ),
        );
    }
    let size_column: i64 = size as i64;
    match db::insert_row(conn, filename, size_column, uploaded_at) {
        Ok(id) => Ok(id),
        Err(e) => Err(StoreError::WriteError(db::sql_error_text(&e))),
    }
}

/// Records one upload event at the current wall-clock time: the timestamp
/// column gets the decimal numeral of the unix time in seconds. Returns the
/// assigned id — larger than every id the table ever assigned, so ids grow
/// strictly in insert order — and the timestamp string that was recorded.
pub fn insert_file_metadata(conn: &mut Connection, filename: &str, size: u64) -> (r: Result<
    (i64, String),
    StoreError,
>)
    ensures
        r matches Ok(p) ==> {
            &&& exists|t: u64| p.1@ == dec_of(t as nat)
            &&& size <= i64::MAX
            &&& table_rows(*final(conn)) == table_rows(*old(conn)).insert(
                (p.0 as int, filename@, size as int, p.1@),
            )
            &&& forall|row: RowView|
                #[trigger] table_rows(*old(conn)).contains(row) ==> row.0 < p.0 as int
            &&& p.0 as int > table_watermark(*old(conn))
            &&& table_watermark(*final(conn)) == p.0 as int
        },
        r is Err ==> table_rows(*final(conn)) == table_rows(*old(conn))
            && table_watermark(*final(conn)) == table_watermark(*old(conn)),
        r matches Err(e) ==> e is WriteError,
{
    let now = db::seconds_since_epoch(&db::system_time_now());
    let timestamp = u64_to_dec_string(now);
    match insert_file_metadata_at(conn, filename, size, timestamp.as_str()) {
        Ok(id) => {
            assert(timestamp@ == dec_of(now as nat));
            Ok((id, timestamp))
        },
        Err(e) => Err(e),
    }
}

/// One human-readable report for each skipped row's error, in order.
fn error_reports(skipped: &Vec<rusqlite::Error>) -> (r: Vec<String>)
    ensures
        r@.len() == skipped@.len(),
{
    let mut reports: Vec<String> = Vec::new();
    let mut i: usize = 0;
    while i < skipped.len()
        invariant
            0 <= i <= skipped@.len(),
            reports@.len() == i,
        decreases skipped@.len() - i,
    {
        reports.push(db::sql_error_text(&skipped[i]));
        i += 1;
    }
    reports
}

/// Produces every decodable metadata row of the store, each exactly as often
/// as it is in the table, in storage-native (unspecified) order, together
/// with one report per row that failed to decode and was skipped — partial
/// results rather than an aborted scan. A scan that cannot run at all is a
/// `QueryError`. The table itself is unchanged.
pub fn retrieve_file_metadata(conn: &mut Connection) -> (r: Result<
    (Vec<FileRecord>, Vec<String>),
    StoreError,
>)
    ensures
        table_rows(*final(conn)) == table_rows(*old(conn)),
        table_watermark(*final(conn)) == table_watermark(*old(conn)),
        r matches Ok(p) ==> records_view(p.0@).to_multiset() == table_rows(*old(conn)),
        r matches Err(e) ==> e is QueryError,
{
    match db::select_all_rows(conn) {
        Ok((rows, skipped)) => {
            let reports = error_reports(&skipped);
            Ok((rows, reports))
        },
        Err(e) => Err(StoreError::QueryError(db::sql_error_text(&e))),
    }
}

/// Deletes every metadata row whose filename equals `filename` — zero, one,
/// or many — in one call; rows under any other filename are kept untouched,
/// and the ids the table has assigned stay retired.
pub fn delete_file_metadata(conn: &mut Connection, filename: &str) -> (r: Result<(), StoreError>)
    ensures
        table_watermark(*final(conn)) == table_watermark(*old(conn)),
        r is Ok ==> table_rows(*final(conn)) == table_rows(*old(conn)).filter(
            keeps_filename(filename@),
        ),
        r is Err ==> table_rows(*final(conn)) == table_rows(*old(conn)),
        r matches Err(e) ==> e is WriteError,
{
    match db::delete_rows_by_filename(conn, filename) {
        Ok(_) => Ok(()),
        Err(e) => Err(StoreError::WriteError(db::sql_error_text(&e))),
    }
}

/// Returns exactly the metadata rows whose filename contains `search_term`
/// (case-sensitive), each as often as it is in the table, together with one
/// report per row that failed to decode and was skipped. The table itself
/// is unchanged.
pub fn search_files_by_name(conn: &mut Connection, search_term: &str) -> (r: Result<
    (Vec<FileRecord>, Vec<String>),
    StoreError,
>)
    ensures
        table_rows(*final(conn)) == table_rows(*old(conn)),
        table_watermark(*final(conn)) == table_watermark(*old(conn)),
        r matches Ok(p) ==> records_view(p.0@).to_multiset() == table_rows(*old(conn)).filter(
            name_matches(search_term@),
        ),
        r matches Err(e) ==> e is QueryError,
{
    let (all, skipped) = match db::select_all_rows(conn) {
        Ok(pair) => pair,
        Err(e) => return Err(StoreError::QueryError(db::sql_error_text(&e))),
    };
    let reports = error_reports(&skipped);
    let ghost p = name_matches(search_term@);
    let ghost total = records_view(all@).to_multiset().filter(p);
    let mut rest = all;
    let mut out: Vec<FileRecord> = Vec::new();
    proof {
        lemma_filter_empty(p);
        assert(records_view(out@) =~= Seq::<RowView>::empty());
        assert(records_view(out@).to_multiset() =~= Multiset::<RowView>::empty());
        assert(records_view(out@).to_multiset().add(records_view(rest@).to_multiset().filter(p))
            =~= total);
    }
    while rest.len() > 0
        invariant
            p == name_matches(search_term@),
            records_view(out@).to_multiset().add(records_view(rest@).to_multiset().filter(p))
                == total,
        decreases rest@.len(),
    {
        let ghost rest0 = rest@;
        let ghost out0 = out@;
        let rec = rest.pop().unwrap();
        let matched = str_contains(rec.filename.as_str(), search_term);
        proof {
            assert(rest0 =~= rest@.push(rec));
            assert(records_view(rest0) =~= records_view(rest@).push(rec@));
            assert(records_view(rest0).to_multiset() == records_view(rest@).to_multiset().insert(
                rec@,
            ));
            lemma_filter_insert(records_view(rest@).to_multiset(), rec@, p);
            assert(matched == p(rec@));
        }
        if matched {
            out.push(rec);
            proof {
                assert(records_view(out@) =~= records_view(out0).push(rec@));
                lemma_insert_add_shift(
                    records_view(out0).to_multiset(),
                    records_view(rest@).to_multiset().filter(p),
                    rec@,
                );
            }
        }
    }
    proof {
        assert(records_view(rest@) =~= Seq::<RowView>::empty());
        assert(records_view(rest@).to_multiset() =~= Multiset::<RowView>::empty());
        lemma_filter_empty(p);
        assert(records_view(out@).to_multiset().add(Multiset::<RowView>::empty()) =~= records_view(
            out@,
        ).to_multiset());
    }
    Ok((out, reports))
}

/// Returns exactly the metadata rows whose timestamp lies lexicographically
/// in the inclusive range `[start_date, end_date]` — the store compares the
/// text-encoded timestamps as strings, not as numbers. Each matching row is
/// returned as often as it is in the table, together with one report per
/// row that failed to decode and was skipped; the table itself is unchanged.
pub fn search_files_by_date_range(conn: &mut Connection, start_date: &str, end_date: &str) -> (r:
    Result<(Vec<FileRecord>, Vec<String>), StoreError>)
    ensures
        table_rows(*final(conn)) == table_rows(*old(conn)),
        table_watermark(*final(conn)) == table_watermark(*old(conn)),
        r matches Ok(p) ==> records_view(p.0@).to_multiset() == table_rows(*old(conn)).filter(
            date_matches(start_date@, end_date@),
        ),
        r matches Err(e) ==> e is QueryError,
{
    let (all, skipped) = match db::select_all_rows(conn) {
        Ok(pair) => pair,
        Err(e) => return Err(StoreError::QueryError(db::sql_error_text(&e))),
    };
    let reports = error_reports(&skipped);
    let ghost p = date_matches(start_date@, end_date@);
    let ghost total = records_view(all@).to_multiset().filter(p);
    let mut rest = all;
    let mut out: Vec<FileRecord> = Vec::new();
    proof {
        lemma_filter_empty(p);
        assert(records_view(out@) =~= Seq::<RowView>::empty());
        assert(records_view(out@).to_multiset() =~= Multiset::<RowView>::empty());
        assert(records_view(out@).to_multiset().add(records_view(rest@).to_multiset().filter(p))
            =~= total);
    }
    while rest.len() > 0
        invariant
            p == date_matches(start_date@, end_date@),
            records_view(out@).to_multiset().add(records_view(rest@).to_multiset().filter(p))
                == total,
        decreases rest@.len(),
    {
        let ghost rest0 = rest@;
        let ghost out0 = out@;
        let rec = rest.pop().unwrap();
        let matched = str_lex_between(rec.uploaded_at.as_str(), start_date, end_date);
        proof {
            assert(rest0 =~= rest@.push(rec));
            assert(records_view(rest0) =~= records_view(rest@).push(rec@));
            assert(records_view(rest0).to_multiset() == records_view(rest@).to_multiset().insert(
                rec@,
            ));
            lemma_filter_insert(records_view(rest@).to_multiset(), rec@, p);
            assert(matched == p(rec@));
        }
        if matched {
            out.push(rec);
            proof {
                assert(records_view(out@) =~= records_view(out0).push(rec@));
                lemma_insert_add_shift(
                    records_view(out0).to_multiset(),
                    records_view(rest@).to_multiset().filter(p),
                    rec@,
                );
            }
        }
    }
    proof {
        assert(records_view(rest@) =~= Seq::<RowView>::empty());
        assert(records_view(rest@).to_multiset() =~= Multiset::<RowView>::empty());
        lemma_filter_empty(p);
        assert(records_view(out@).to_multiset().add(Multiset::<RowView>::empty()) =~= records_view(
            out@,
        ).to_multiset());
    }
    Ok((out, reports))
}

} // verus!
