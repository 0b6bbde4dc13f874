//! Core of a language-server adapter for the `dmypy` type-checking daemon.
//!
//! The daemon is driven through short-lived command invocations and answers
//! with plain text. This crate holds the rules that turn that text into
//! diagnostics for one document, the path identity that attributes each
//! reported line to a document, the command lines that drive the daemon, and
//! the table of last-known document versions.

pub mod config;
pub mod daemon;
pub mod diagnostic;
pub mod error;
pub mod pattern;
pub mod payload;
pub mod relpathbuf;
pub mod text;
pub mod uri;
pub mod versions;
