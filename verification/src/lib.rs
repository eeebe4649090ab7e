//! Core of an interactive terminal client for a SQL server: a line editor
//! that keeps the logical cursor and the physical screen position in step
//! under soft wrapping, a scrollback history, a read-only pager for query
//! results, an input-event normalizer, a password-file parser and the
//! formatting of result tables.  All terminal, file and network traffic is
//! left to the surrounding binary; this crate holds the logic and is
//! verified.

pub mod chars;
pub mod connection_options;
pub mod history;
pub mod parse_args;
pub mod pgpass;
pub mod profile;
pub mod sql;
pub mod ui;
