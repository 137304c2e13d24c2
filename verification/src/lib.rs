//! A small local file-hosting library: metadata rows for uploaded files are
//! kept in a single SQLite table (through `rusqlite`), and the operations on
//! that table — insert, full listing, delete by filename, substring search,
//! and lexicographic date-range search — carry verified contracts over a
//! multiset model of the table's contents.

pub mod db;
pub mod laws;
pub mod record;
pub mod store;
pub mod text;
