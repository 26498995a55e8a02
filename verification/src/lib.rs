//! Schema maintenance and document access for a content store kept in SQLite or
//! Postgres.
//!
//! Nothing here touches a database. Every function that needs one asks for it
//! through a [`session::Session`]: it sends requests and reads the answers the
//! host recorded for them, so its whole behaviour is a function of those answers.
//! The host runs it again with each new answer; [`replay`] says why that comes to one
//! run. [`promises`] says what its operations are for, in terms of what they are given,
//! what they send and what comes back.
pub mod definition;
pub mod dialect;
pub mod digest;
pub mod document;
pub mod json;
pub mod json_text;
pub mod migrate;
pub mod names;
pub mod ops;
pub mod order;
pub mod pool;
pub mod postgres;
pub mod promises;
pub mod query;
pub mod replay;
pub mod session;
pub mod snapshot;
pub mod text;
pub mod value;
