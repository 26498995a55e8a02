//! Bringing the tables of a database to what the definitions ask for.
//!
//! # One-time conversions
//!
//! Each rewrites data that was stored before its stored form changed, once per
//! installation, and records that it did in a versioned value of `_crap_meta`. They
//! only carry databases forward: each can go once every installation has started a
//! release that ran it. Two more, of checkbox columns and of texts, are left to the
//! host.
//!
//! | Module | Converts | Removable after |
//! |--------|----------|-----------------|
//! | [`legacy_timestamps`] | SQLite timestamps stored with a space | 0.1.0 |
//! | [`nested_values`] | values inside rows stored as JSON to their typed form | 0.1.0 |
//! | [`nested_timezone_dates`] | dates with a zone inside such rows to UTC | 0.1.0 |
pub mod carrying;
pub mod helpers;
pub mod identifier_check;
pub mod inline_unique;
pub mod join_tables;
pub mod legacy_timestamps;
pub mod locale_change;
pub mod meta;
pub mod nested_timezone_dates;
pub mod nested_values;
pub mod nullable_columns;
pub mod orphan_tables;
pub mod reference_cardinality;
pub mod relationship_target;
pub mod search_index;
pub mod sync;
pub mod system_tables;
pub mod tracking;
pub mod transaction;
