//! Sans-I/O core of a batch downloader for a paginated content-search service.
//!
//! The crate decides *what* has to be done (which page to query next, where a
//! post is stored, which download may start) and leaves the doing to its
//! caller. Every function carries a contract that Verus proves.

pub mod api;
pub mod collect;
pub mod download;
pub mod errors;
pub mod grouping;
pub mod scheduler;
pub mod text;
