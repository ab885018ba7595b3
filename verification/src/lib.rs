//! An in-memory song catalog and the rules by which a small web service
//! answers requests against it.
//!
//! The catalog keeps song records in the order in which they were added,
//! numbers them from one, finds them by case-insensitive substring filters
//! and counts how often each one was played.  The request rules turn a
//! request path and address into one of the catalog's operations and a
//! reply.  Locking, sockets, files and the JSON encoding of records are
//! left to the program that embeds the library.

pub mod catalog;
pub mod number;
pub mod query;
pub mod search;
pub mod service;
pub mod song;
pub mod text;
pub mod visits;
