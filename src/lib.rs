//! Scheduled purge of soft-deleted ciphers.
//!
//! Records marked with a `deleted_at` timestamp are kept for a retention
//! period and then removed for good. The library decides everything the purge
//! does: the retention period it runs with, the cutoff instant and its text,
//! the order of store requests and what is reported. The requests themselves
//! are made by the caller.

pub mod config;
pub mod cutoff;
pub mod task;
pub mod records;
