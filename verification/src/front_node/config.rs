//! The front node's configuration, as its configuration file spells it.

use std::collections::HashMap;
use vstd::prelude::*;

verus! {

/// Everything the front node is told at start.
#[derive(Debug, Clone)]
pub struct Config {
    pub database_connection: DatabaseConnectionOptions,
    pub http_server: HTTPServerOptions,
    pub sftp_server: SFTPServerOptions,
    /// The storage nodes to connect to, by name.
    pub storage_nodes: HashMap<String, StorageNodeConfig>,
}

/// Where the database is and who asks.
#[derive(Debug, Clone)]
pub struct DatabaseConnectionOptions {
    pub database: String,
    pub socket_path: String,
    pub user: String,
}

#[derive(Debug, Clone)]
pub struct HTTPServerOptions {
    /// `IP:PORT` to listen on.
    pub listen_addr: String,
}

#[derive(Debug, Clone)]
pub struct SFTPServerOptions {
    /// `IP:PORT` to listen on.
    pub listen_addr: String,
    /// Path of the server's public key.
    pub public_key: String,
    /// Path of the server's private key.
    pub private_key: String,
}

/// One storage node to connect to.
#[derive(Debug, Clone)]
pub struct StorageNodeConfig {
    /// `IP:PORT` of the node.
    pub addr: String,
    /// How many seconds a request may wait for its response.
    pub timeout_s: u64,
}

/// The timeout of a storage node whose configuration names none: one second.
pub fn default_timeout() -> (seconds: u64)
    ensures
        seconds == 1,
{
    1
}

impl StorageNodeConfig {
    /// A node at `addr` with the default timeout.
    pub fn new(addr: String) -> (node: StorageNodeConfig)
        ensures
            node.addr == addr,
            node.timeout_s == 1,
    {
        StorageNodeConfig { addr, timeout_s: default_timeout() }
    }
}

} // verus!
