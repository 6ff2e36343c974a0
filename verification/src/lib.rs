//! The decision core of a BarterBackup node.
//!
//! A node mirrors encrypted backups for its peers and asks them to mirror its
//! own. This crate holds every rule that such a node applies: who is tracked
//! and who is evicted, which mirrored blobs are kept, how peers are scored, how
//! publication, verification and recovery proceed, and what operators are
//! told. It does no I/O: callers hand in plain values (the time, the peers on
//! record, what a peer answered) and carry out what comes back.

pub mod accounting;
pub mod admission;
pub mod arith;
pub mod batcher;
pub mod builtin;
pub mod collections;
pub mod content;
pub mod exchange;
pub mod files;
pub mod horizon;
pub mod inventory;
pub mod lineage;
pub mod maintenance;
pub mod mirror;
pub mod model;
pub mod node;
pub mod order;
pub mod outside;
pub mod publication;
pub mod publish;
pub mod records;
pub mod recovery;
pub mod recovery_pass;
pub mod reports;
pub mod retry;
pub mod score;
pub mod services;
pub mod state_summary;
pub mod status;
pub mod storage_report;
pub mod sync;
pub mod text;
pub mod timestamps;
pub mod transfer;
pub mod verification;
