//! A small client library for a news aggregation HTTP API.
//!
//! The library covers the two pieces of logic such a client needs:
//! building a request URL from a set of optional search filters and an
//! authentication token, and parsing the JSON response body into a list
//! of articles.  All I/O (argument parsing, credential storage, the HTTP
//! request itself, terminal output) is left to the calling program, which
//! hands plain values in and takes plain values back.

pub mod articles;
pub mod error;
pub mod json;
pub mod query;
pub mod strutil;
pub mod urlenc;
