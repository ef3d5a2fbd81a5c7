//! Oxidrive's domain library: accounts and credentials, personal access
//! tokens and sessions, authorization decisions, file tags, search filters,
//! paginated in-memory stores and collections, content types, storage
//! settings, the SQL of the database stores and the decisions of the services
//! and background jobs.
use vstd::prelude::*;

pub mod text;
pub mod tag;
pub mod ids;
pub mod tags;
pub mod file;
pub mod paginate;
pub mod file_store;
pub mod collection;
pub mod credentials;
pub mod pat;
pub mod account;
pub mod session;
pub mod services;
pub mod sql;
pub mod statements;
pub mod authorization;
pub mod storage;
pub mod content_type;
pub mod jobs;
pub mod laws;
pub mod query_meaning;
pub mod row_meaning;

verus! {

} // verus!
