//! A mailbox synchronization library.
//!
//! The heart of the crate is a four-way reconciliation engine: it compares
//! cached and live snapshots of a local and a remote mailbox replica and
//! computes the minimal set of changes (folder hunks, envelope hunks, flag
//! changes) needed to converge both sides and both caches.

pub mod backend;
pub mod cache;
pub mod envelope;
pub mod envelope_sync;
pub mod flag;
pub mod flag_sync;
pub mod folder_sync;
pub mod id_mapper;
pub mod maildir;
pub mod notmuch;
pub mod numstr;
pub mod page;
pub mod parse;
pub mod seqs;
pub mod token;
