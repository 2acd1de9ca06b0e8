//! Reconciliation logic for keeping one IMAP mailbox and one Maildir in step.
//!
//! The crate holds the decisions of the synchroniser: the flag algebra, the
//! cached message records, the table that maps server UIDs to Maildir IDs,
//! the comparison of a Maildir listing with that table, the texts of the IMAP
//! commands, and the engine that orders all outside work. Network, file system
//! and database access are requested by the engine as values and carried out
//! by the caller.
//!
//! The engine ([`syncdir::SyncDir`]) is run step by step: each step takes the
//! answer to the request that the step before it made, and ends in the next
//! request or in the result. The cache ([`cache::Cache`]) is held in memory
//! and follows the stored table: it changes only when the caller has
//! answered that the table has taken the change.

pub mod cache;
pub mod config;
pub mod db;
pub mod error;
pub mod flags;
pub mod imap;
pub mod local;
pub mod maildir;
pub mod meta;
pub mod pull;
pub mod push;
pub mod request;
pub mod rows;
pub mod statefile;
pub mod syncdir;
pub mod text;
pub mod verbs;
