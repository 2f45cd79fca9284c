//! The verified core of a small two-tier file store: the storage-node wire
//! protocol, the bookkeeping of a multiplexed link, the per-file lock table of
//! a storage node, path resolution on the front node and the SFTP adapter's
//! handle, path and session rules.
//!
//! Everything here works on plain values. Sockets, the database, the HTTP
//! router and the SSH server live outside this crate and drive these
//! functions.

pub mod file_uuid;
pub mod front_node;
pub mod message;
pub mod storage_node;
pub mod text;
