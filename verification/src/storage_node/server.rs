//! What the storage node does with each message it receives.
//!
//! A request is either answered at once or turned into work on one file,
//! which is done under the file's lock and whose outcome becomes the
//! response. An operation that fails is answered with an error message; the
//! connection stays up.

use vstd::prelude::*;
use crate::file_uuid::FileUUID;
use crate::message::{Message, MessageView, ParseMessageError};
use super::{description, OperationError};

verus! {

/// What a received message asks the node to do.
#[derive(Debug)]
pub enum Operation {
    /// Nothing to do on disk: send this response.
    Reply(Message),
    /// Lock the file, read its blob, answer with `read_reply`.
    ReadFile(FileUUID),
    /// Lock the file, write these bytes as its blob, answer with `write_reply`.
    WriteFile(FileUUID, Vec<u8>),
    /// Lock the file, remove its blob, answer with `write_reply`.
    DeleteFile(FileUUID),
}

/// An operation as contracts see it.
pub enum OperationView {
    Reply(MessageView),
    ReadFile(u128),
    WriteFile(u128, Seq<u8>),
    DeleteFile(u128),
}

impl View for Operation {
    type V = OperationView;

    open spec fn view(&self) -> OperationView {
        match *self {
            Operation::Reply(message) => OperationView::Reply(message@),
            Operation::ReadFile(uuid) => OperationView::ReadFile(uuid.0),
            Operation::WriteFile(uuid, data) => OperationView::WriteFile(uuid.0, data@),
            Operation::DeleteFile(uuid) => OperationView::DeleteFile(uuid.0),
        }
    }
}

/// What a node of version `version` does with `message`: it tells its
/// version, works on the file that a request names, and answers anything that
/// is no request with an error.
pub open spec fn operation_for(message: MessageView, version: Seq<char>) -> OperationView {
    match message {
        MessageView::GetVersion => OperationView::Reply(MessageView::MyVersionIs(version)),
        MessageView::ReadFile(uuid) => OperationView::ReadFile(uuid),
        MessageView::WriteFile(uuid, data) => OperationView::WriteFile(uuid, data),
        MessageView::DeleteFile(uuid) => OperationView::DeleteFile(uuid),
        _ => OperationView::Reply(MessageView::Error("not a request"@)),
    }
}

/// Decides what to do with a received message.
pub fn handle_message(message: Message, version: &str) -> (operation: Operation)
    ensures
        operation@ == operation_for(message@, version@),
{
    match message {
        Message::GetVersion => Operation::Reply(Message::MyVersionIs(version.to_string())),
        Message::ReadFile(uuid) => Operation::ReadFile(uuid),
        Message::WriteFile(uuid, data) => Operation::WriteFile(uuid, data),
        Message::DeleteFile(uuid) => Operation::DeleteFile(uuid),
        _ => Operation::Reply(Message::Error("not a request".to_string())),
    }
}

/// The reason a file is locked for while `operation` works on it; nothing for
/// an operation that needs no lock.
pub fn lock_reason(operation: &Operation) -> (reason: Option<&'static str>)
    ensures
        match *operation {
            Operation::Reply(_) => reason is None,
            Operation::ReadFile(_) => reason is Some && reason->Some_0@ == "ReadFile request"@,
            Operation::WriteFile(_, _) => reason is Some && reason->Some_0@ == "WriteFile request"@,
            Operation::DeleteFile(_) => reason is Some && reason->Some_0@ == "DeleteFile request"@,
        },
{
    match operation {
        Operation::Reply(_) => None,
        Operation::ReadFile(_) => Some("ReadFile request"),
        Operation::WriteFile(_, _) => Some("WriteFile request"),
        Operation::DeleteFile(_) => Some("DeleteFile request"),
    }
}

/// The response to a read: the bytes, or the error's description.
pub fn read_reply(outcome: Result<Vec<u8>, OperationError>) -> (reply: Message)
    ensures
        reply@ == match outcome {
            Ok(data) => MessageView::FileContents(data@),
            Err(error) => MessageView::Error(description(error)),
        },
{
    match outcome {
        Ok(data) => Message::FileContents(data),
        Err(error) => Message::Error(error.describe()),
    }
}

/// The response to a write or a delete: an acknowledgement, or the error's
/// description.
pub fn write_reply(outcome: Result<(), OperationError>) -> (reply: Message)
    ensures
        reply@ == match outcome {
            Ok(_) => MessageView::Ack,
            Err(error) => MessageView::Error(description(error)),
        },
{
    match outcome {
        Ok(_) => Message::Ack,
        Err(error) => Message::Error(error.describe()),
    }
}

/// Whether a connection goes on after a message could not be read: it ends
/// where the stream itself failed, and goes on after any other error.
pub fn connection_survives(error: &ParseMessageError) -> (survives: bool)
    ensures
        survives == !(*error is IOError),
{
    match error {
        ParseMessageError::IOError(_) => false,
        _ => true,
    }
}

} // verus!
