//! A price ledger kept in one comma-separated text file: the record codec,
//! the store's read-modify-write transitions, and the queries over loaded
//! records.

pub mod clock;
pub mod codec;
pub mod csv_lines;
pub mod error;
pub mod price;
pub mod query;
pub mod record;
pub mod store;
pub mod text;
