//! A client library for the Airtable REST API: record schemas, sorted and
//! filtered queries that are read page by page, and the requests that
//! create or update a record.
//!
//! The library decides and computes; the caller owns the HTTP transport and
//! the JSON codec. A [`Paginator`] says when a page has to be fetched and
//! from which URL, and takes the decoded page back.

pub mod base;
pub mod paginator;
pub mod query;
pub mod record;
pub mod url;
pub mod write;

pub use base::{new, valid_credential, Base};
pub use paginator::{Advance, Paginator, RecordPage, SRecord, State};
pub use query::{QueryBuilder, SortDirection};
pub use record::Record;
pub use write::{envelope, write_result, Method, WriteError, WriteRequest};
