//! The decisions of a local content-addressed byte store, verified with Verus.
//!
//! The store keeps blobs under the SHA-256 fingerprint of their content, in two namespaces
//! (files and directories) and two tiers: a sharded key-value database for directories and
//! small files, and a sharded tree of immutable files for large files. This library holds
//! what the store decides: where a blob goes, where it lies on disk, how old a lease is,
//! which digests are missing, what to evict. It reads and writes nothing itself: its
//! functions take what was read from disk or from a database as plain values and say what
//! to do next.

pub mod blob;
pub mod byte_store;
pub mod digest;
pub mod entry;
pub mod eviction;
pub mod fingerprint;
pub mod fsdb;
pub mod heap;
pub mod model;
pub mod observation;
pub mod options;
pub mod time;
