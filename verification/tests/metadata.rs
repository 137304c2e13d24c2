//! Tests of the metadata store against a fresh in-memory database.

use filehosting::record::{FileRecord, StoreError};
use filehosting::store::{
    delete_file_metadata, init_db_at, init_db_in_memory, insert_file_metadata,
    insert_file_metadata_at, retrieve_file_metadata, search_files_by_date_range,
    search_files_by_name,
};

fn fresh_store() -> rusqlite::Connection {
    init_db_in_memory().expect("in-memory store must open")
}

fn names(rows: &[FileRecord]) -> Vec<String> {
    rows.iter().map(|r| r.filename.clone()).collect()
}

#[test]
fn upload_adds_one_row_with_size() {
    let mut conn = fresh_store();
    let content: &[u8] = b"Hello, this is a sample file for uploading.";
    let id = insert_file_metadata_at(&mut conn, "example.txt", content.len() as u64, "1000000000")
        .expect("insert must succeed");
    let rows = retrieve_file_metadata(&mut conn).expect("listing must succeed").0;
    assert_eq!(rows.len(), 1);
    assert_eq!(rows[0].id, id);
    assert_eq!(rows[0].filename, "example.txt");
    assert_eq!(rows[0].size, content.len() as i64);
    assert_eq!(rows[0].uploaded_at, "1000000000");
}

#[test]
fn upload_with_clock_records_decimal_timestamp() {
    let mut conn = fresh_store();
    let (id, stamp) = insert_file_metadata(&mut conn, "clock.txt", 7).expect("insert");
    assert!(!stamp.is_empty());
    assert!(stamp.chars().all(|c| c.is_ascii_digit()));
    // no leading zero: the numeral is canonical
    assert!(stamp == "0" || !stamp.starts_with('0'));
    let rows = retrieve_file_metadata(&mut conn).expect("listing").0;
    assert_eq!(rows.len(), 1);
    assert_eq!(rows[0].id, id);
    assert_eq!(rows[0].uploaded_at, stamp);
}

#[test]
fn duplicate_names_coexist_and_ids_increase() {
    let mut conn = fresh_store();
    let first = insert_file_metadata_at(&mut conn, "example.txt", 10, "1000000000").unwrap();
    let second = insert_file_metadata_at(&mut conn, "example.txt", 20, "1000000001").unwrap();
    assert!(second > first, "ids must increase per insert");
    let rows = retrieve_file_metadata(&mut conn).unwrap().0;
    assert_eq!(rows.len(), 2, "duplicate-name rows must coexist");
    assert!(rows.iter().all(|r| r.filename == "example.txt"));
    let mut sizes: Vec<i64> = rows.iter().map(|r| r.size).collect();
    sizes.sort();
    assert_eq!(sizes, vec![10, 20]);
}

#[test]
fn delete_with_zero_matching_rows_succeeds() {
    let mut conn = fresh_store();
    insert_file_metadata_at(&mut conn, "kept.txt", 1, "1000000000").unwrap();
    delete_file_metadata(&mut conn, "absent.txt").expect("deleting nothing must succeed");
    let rows = retrieve_file_metadata(&mut conn).unwrap().0;
    assert_eq!(names(&rows), vec!["kept.txt".to_string()]);
}

#[test]
fn delete_removes_all_matching_rows_in_one_call() {
    let mut conn = fresh_store();
    insert_file_metadata_at(&mut conn, "example.txt", 10, "1000000000").unwrap();
    insert_file_metadata_at(&mut conn, "other.txt", 5, "1000000001").unwrap();
    insert_file_metadata_at(&mut conn, "example.txt", 20, "1000000002").unwrap();
    delete_file_metadata(&mut conn, "example.txt").unwrap();
    let rows = retrieve_file_metadata(&mut conn).unwrap().0;
    assert_eq!(names(&rows), vec!["other.txt".to_string()]);
}

#[test]
fn search_by_name_finds_substring_matches() {
    let mut conn = fresh_store();
    insert_file_metadata_at(&mut conn, "example.txt", 10, "1000000000").unwrap();
    insert_file_metadata_at(&mut conn, "notes.md", 5, "1000000001").unwrap();
    let found = search_files_by_name(&mut conn, "ample").unwrap().0;
    assert_eq!(names(&found), vec!["example.txt".to_string()]);
    let empty = search_files_by_name(&mut conn, "zzz").unwrap().0;
    assert!(empty.is_empty());
}

#[test]
fn search_by_name_is_case_sensitive() {
    let mut conn = fresh_store();
    insert_file_metadata_at(&mut conn, "example.txt", 10, "1000000000").unwrap();
    let found = search_files_by_name(&mut conn, "Ample").unwrap().0;
    assert!(found.is_empty(), "the substring match is case-sensitive");
}

#[test]
fn search_by_date_range_is_inclusive() {
    let mut conn = fresh_store();
    insert_file_metadata_at(&mut conn, "low.txt", 1, "1000000000").unwrap();
    insert_file_metadata_at(&mut conn, "mid.txt", 2, "1500000000").unwrap();
    insert_file_metadata_at(&mut conn, "high.txt", 3, "2000000000").unwrap();
    let mut found = names(&search_files_by_date_range(&mut conn, "1000000000", "2000000000").unwrap().0);
    found.sort();
    assert_eq!(found, vec!["high.txt".to_string(), "low.txt".to_string(), "mid.txt".to_string()]);
    let inner = names(&search_files_by_date_range(&mut conn, "1000000001", "1999999999").unwrap().0);
    assert_eq!(inner, vec!["mid.txt".to_string()]);
}

#[test]
fn search_by_date_range_compares_strings_not_numbers() {
    let mut conn = fresh_store();
    // nine digits: inside ["0", "9999999999"] by string comparison
    insert_file_metadata_at(&mut conn, "nine.txt", 1, "999999999").unwrap();
    // eleven digits: numerically large, but the string "10000000000" sorts
    // before "2", so a range starting at "2" misses it
    insert_file_metadata_at(&mut conn, "eleven.txt", 2, "10000000000").unwrap();
    let wide = names(&search_files_by_date_range(&mut conn, "0", "9999999999").unwrap().0);
    assert!(wide.contains(&"nine.txt".to_string()));
    let from_two = names(&search_files_by_date_range(&mut conn, "2", "9999999999").unwrap().0);
    assert_eq!(from_two, vec!["nine.txt".to_string()]);
}

#[test]
fn end_to_end_upload_list_delete() {
    let mut conn = fresh_store();
    let content: &[u8] = b"Hello, this is a sample file for uploading.";
    insert_file_metadata_at(&mut conn, "example.txt", content.len() as u64, "1700000000").unwrap();
    let listed = retrieve_file_metadata(&mut conn).unwrap().0;
    assert_eq!(names(&listed), vec!["example.txt".to_string()]);
    assert_eq!(listed[0].size, content.len() as i64);
    delete_file_metadata(&mut conn, "example.txt").unwrap();
    let after = retrieve_file_metadata(&mut conn).unwrap().0;
    assert!(after.is_empty());
}

#[test]
fn oversized_file_is_refused_as_write_error() {
    let mut conn = fresh_store();
    let err = insert_file_metadata_at(&mut conn, "huge.bin", u64::MAX, "1000000000")
        .expect_err("a size beyond the integer column must be refused");
    assert!(matches!(err, StoreError::WriteError(_)));
    assert!(!err.message().is_empty());
    assert!(retrieve_file_metadata(&mut conn).unwrap().0.is_empty());
}

#[test]
fn ids_are_never_reused_after_deletes() {
    let mut conn = fresh_store();
    insert_file_metadata_at(&mut conn, "a.txt", 1, "1000000000").unwrap();
    let second = insert_file_metadata_at(&mut conn, "b.txt", 2, "1000000001").unwrap();
    delete_file_metadata(&mut conn, "a.txt").unwrap();
    delete_file_metadata(&mut conn, "b.txt").unwrap();
    assert!(retrieve_file_metadata(&mut conn).unwrap().0.is_empty());
    let third = insert_file_metadata_at(&mut conn, "c.txt", 3, "1000000002").unwrap();
    assert!(
        third > second,
        "an id retired by a delete must not be assigned again"
    );
}

#[test]
fn undecodable_row_is_skipped_with_individual_report() {
    let mut conn = fresh_store();
    insert_file_metadata_at(&mut conn, "good.txt", 8, "1000000000").unwrap();
    // a row whose size column holds text: stored as-is by SQLite, it cannot
    // be read back as an integer
    conn.execute(
        "INSERT INTO files (filename, size, uploaded_at) VALUES (?1, ?2, ?3)",
        ("bad.txt", "not-a-number", "1000000001"),
    )
    .expect("raw insert");
    let (rows, reports) = retrieve_file_metadata(&mut conn).expect("partial results, not abort");
    assert_eq!(names(&rows), vec!["good.txt".to_string()]);
    assert_eq!(reports.len(), 1, "one report per skipped row");
    assert!(!reports[0].is_empty());
    let (found, search_reports) = search_files_by_name(&mut conn, "txt").unwrap();
    assert_eq!(names(&found), vec!["good.txt".to_string()]);
    assert_eq!(search_reports.len(), 1);
}

#[test]
fn query_without_schema_is_query_error() {
    // a raw connection on which the files table was never created
    let mut conn = rusqlite::Connection::open_in_memory().expect("open");
    let err = retrieve_file_metadata(&mut conn).expect_err("the query must fail");
    assert!(matches!(err, StoreError::QueryError(_)));
    assert!(!err.message().is_empty());
}

#[test]
fn unreachable_database_is_storage_unavailable() {
    let err = init_db_at("/nonexistent-directory-for-store/filehosting.db")
        .expect_err("an unreachable path must fail to open");
    assert!(matches!(err, StoreError::StorageUnavailable(_)));
}
