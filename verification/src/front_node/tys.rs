//! Identifiers and errors of the front node.

use vstd::prelude::*;
use vstd::std_specs::convert::FromSpecImpl;
use crate::message::Message;
use super::storage_node_connection::ConnectionError;

verus! {

/// Names a storage node: the key of its row in the table of nodes.
#[derive(Debug, Hash, PartialEq, Eq, Clone, Copy, Structural)]
pub struct StorageNodeID(pub i64);

/// Names a directory: the key of its row in the table of directories.
#[derive(Debug, Hash, PartialEq, Eq, Clone, Copy, Structural)]
pub struct DirectoryID(pub i64);

/// What can go wrong on the front node.
#[derive(Debug)]
pub enum Error {
    /// Reading or writing failed; holds a description.
    IO(String),
    /// The database refused or failed; holds a description.
    DatabaseError(String),
    /// The link to the storage node gave up.
    ConnectionError(ConnectionError),
    /// The database holds bytes that are no UUID; holds the bytes.
    MalformedUUIDError(Vec<u8>),
    /// No file has this UUID.
    UnknownUUID,
    /// The storage node answered with a message of the wrong kind.
    UnexpectedResponse(Message),
    /// No storage node is connected at all.
    NotConnectedToAnyNode,
    /// The storage node that holds the file is not connected.
    NotConnectedToNode,
    /// The directory exists, the file in it does not.
    NoSuchFile,
    /// A directory on the path does not exist; holds the part of the path
    /// that does, each segment followed by a slash.
    NoSuchDirectory { topmost_existing_directory: String },
    /// Nobody of this name is known.
    NoSuchUser { name: String },
}

impl From<ConnectionError> for Error {
    fn from(value: ConnectionError) -> (error: Error) {
        Error::ConnectionError(value)
    }
}

impl FromSpecImpl<ConnectionError> for Error {
    open spec fn obeys_from_spec() -> bool {
        true
    }

    open spec fn from_spec(value: ConnectionError) -> Error {
        Error::ConnectionError(value)
    }
}

} // verus!
