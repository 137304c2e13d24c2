//! The metadata row describing one upload event, and the error taxonomy of
//! the store.

use vstd::prelude::*;

verus! {

/// One metadata row: an auto-assigned id, the filename the blob is stored
/// under, the blob's byte length at upload time, and the upload timestamp as
/// a text-encoded integer (seconds since the epoch).
#[derive(Debug)]
pub struct FileRecord {
    pub id: i64,
    pub filename: String,
    pub size: i64,
    pub uploaded_at: String,
}

/// The mathematical view of a row: plain values only, so that the model of
/// the whole table can be a multiset of these.
pub type RowView = (int, Seq<char>, int, Seq<char>);

impl View for FileRecord {
    type V = RowView;

    open spec fn view(&self) -> RowView {
        (self.id as int, self.filename@, self.size as int, self.uploaded_at@)
    }
}

/// The views of a sequence of records, in order.
pub open spec fn records_view(s: Seq<FileRecord>) -> Seq<RowView> {
    s.map_values(|r: FileRecord| r@)
}

/// The rows a delete of `name` keeps: those under a different filename.
pub open spec fn keeps_filename(name: Seq<char>) -> spec_fn(RowView) -> bool {
    |row: RowView| row.1 != name
}

/// The rows carrying exactly the filename `name`.
pub open spec fn has_filename(name: Seq<char>) -> spec_fn(RowView) -> bool {
    |row: RowView| row.1 == name
}

/// What can go wrong in the metadata store. Filesystem errors of the blob
/// directory are not here: the blob side does raw I/O and lives with the
/// caller.
#[derive(Debug)]
pub enum StoreError {
    /// The backing database could not be opened, or its schema could not be
    /// created.
    StorageUnavailable(String),
    /// A row could not be inserted or deleted after a successful open.
    WriteError(String),
    /// A query failed after a successful open.
    QueryError(String),
}

impl StoreError {
    /// A human-readable description, in place of `Display`.
    pub fn message(&self) -> (r: &str)
        ensures
            r@ == self.message_view(),
    {
        match self {
            StoreError::StorageUnavailable(s) => s.as_str(),
            StoreError::WriteError(s) => s.as_str(),
            StoreError::QueryError(s) => s.as_str(),
        }
    }

    /// The description carried by the error.
    pub open spec fn message_view(&self) -> Seq<char> {
        match self {
            StoreError::StorageUnavailable(s) => s@,
            StoreError::WriteError(s) => s@,
            StoreError::QueryError(s) => s@,
        }
    }
}

} // verus!
