//! Resilient data-access layer for a manuscript editor: an error taxonomy with
//! retry classification, a bounded retry schedule, a time-limited query result
//! cache, a single-initialisation connection manager and the query facade that
//! combines them; with the validation and statements of the record commands
//! and the text transformations of import and export.

pub mod bytes;
pub mod clock;
pub mod text;
pub mod error;
pub mod retry;
pub mod key;
pub mod cache;
pub mod db;
pub mod connection;
pub mod records;
pub mod validate;
pub mod commands;
pub mod export;
pub mod rtf;
