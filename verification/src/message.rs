//! The messages that front node and storage node exchange, and their framing
//! on the wire.
//!
//! A message travels as a 16-byte header (identifier, envelope length, payload
//! length, all big-endian), a JSON envelope that names the message, and the
//! raw payload. The envelope never holds bulk data. This module frames and
//! unframes bytes and converts between a message and its envelope; turning an
//! envelope into JSON text and back is left to the caller.

use vstd::prelude::*;
use crate::file_uuid::{hyphenated_lower, lemma_uuid_round_trip, parsed_uuid, FileUUID};

verus! {

/// Correlates a response with its request on one link.
#[derive(Debug, Clone, Copy, PartialEq, Eq, Hash, Structural)]
pub struct MessageID(pub u32);

/// Why a message could not be read or written.
#[derive(Debug)]
pub enum ParseMessageError {
    /// The stream failed or ended inside a message.
    IOError(String),
    /// The envelope is not the JSON of any message.
    ParseJsonError(String),
    /// The envelope names a file by a text that is no UUID; holds the text.
    ParseUuidError(String),
    /// The envelope or the payload is longer than the cap allows; holds the
    /// number of bytes that was asked for (at most `usize::MAX`).
    RequestTooLarge(usize),
}

/// A request to a storage node, or its response.
#[derive(Debug, Clone, PartialEq, Eq)]
pub enum Message {
    /// Asks for the node's version; answered by `MyVersionIs`.
    GetVersion,
    /// Asks for a file's bytes; answered by `FileContents`.
    ReadFile(FileUUID),
    /// Stores bytes under a file's name; answered by `Ack`.
    WriteFile(FileUUID, Vec<u8>),
    /// Removes a file; answered by `Ack`.
    DeleteFile(FileUUID),
    MyVersionIs(String),
    FileContents(Vec<u8>),
    Ack,
    Error(String),
}

/// A message as contracts see it.
pub enum MessageView {
    GetVersion,
    ReadFile(u128),
    WriteFile(u128, Seq<u8>),
    DeleteFile(u128),
    MyVersionIs(Seq<char>),
    FileContents(Seq<u8>),
    Ack,
    Error(Seq<char>),
}

impl View for Message {
    type V = MessageView;

    open spec fn view(&self) -> MessageView {
        match *self {
            Message::GetVersion => MessageView::GetVersion,
            Message::ReadFile(uuid) => MessageView::ReadFile(uuid.0),
            Message::WriteFile(uuid, data) => MessageView::WriteFile(uuid.0, data@),
            Message::DeleteFile(uuid) => MessageView::DeleteFile(uuid.0),
            Message::MyVersionIs(version) => MessageView::MyVersionIs(version@),
            Message::FileContents(data) => MessageView::FileContents(data@),
            Message::Ack => MessageView::Ack,
            Message::Error(text) => MessageView::Error(text@),
        }
    }
}

/// The envelope of a message: what is written as JSON. File identifiers are
/// text here, and bulk data is absent: it travels as the payload.
#[derive(Debug, Clone, PartialEq, Eq)]
pub enum MessageOverWire {
    GetVersion,
    ReadFile(String),
    WriteFile(String),
    DeleteFile(String),
    MyVersionIs(String),
    FileContents,
    Ack,
    Error(String),
}

/// An envelope as contracts see it.
pub enum EnvelopeView {
    GetVersion,
    ReadFile(Seq<char>),
    WriteFile(Seq<char>),
    DeleteFile(Seq<char>),
    MyVersionIs(Seq<char>),
    FileContents,
    Ack,
    Error(Seq<char>),
}

impl View for MessageOverWire {
    type V = EnvelopeView;

    open spec fn view(&self) -> EnvelopeView {
        match *self {
            MessageOverWire::GetVersion => EnvelopeView::GetVersion,
            MessageOverWire::ReadFile(uuid) => EnvelopeView::ReadFile(uuid@),
            MessageOverWire::WriteFile(uuid) => EnvelopeView::WriteFile(uuid@),
            MessageOverWire::DeleteFile(uuid) => EnvelopeView::DeleteFile(uuid@),
            MessageOverWire::MyVersionIs(version) => EnvelopeView::MyVersionIs(version@),
            MessageOverWire::FileContents => EnvelopeView::FileContents,
            MessageOverWire::Ack => EnvelopeView::Ack,
            MessageOverWire::Error(text) => EnvelopeView::Error(text@),
        }
    }
}

/// The envelope and the payload that carry `message`.
pub open spec fn wire_form(message: MessageView) -> (EnvelopeView, Seq<u8>) {
    match message {
        MessageView::GetVersion => (EnvelopeView::GetVersion, Seq::empty()),
        MessageView::ReadFile(uuid) => (EnvelopeView::ReadFile(hyphenated_lower(uuid)), Seq::empty()),
        MessageView::WriteFile(uuid, data) => (EnvelopeView::WriteFile(hyphenated_lower(uuid)), data),
        MessageView::DeleteFile(uuid) => (
            EnvelopeView::DeleteFile(hyphenated_lower(uuid)),
            Seq::empty(),
        ),
        MessageView::MyVersionIs(version) => (EnvelopeView::MyVersionIs(version), Seq::empty()),
        MessageView::FileContents(data) => (EnvelopeView::FileContents, data),
        MessageView::Ack => (EnvelopeView::Ack, Seq::empty()),
        MessageView::Error(text) => (EnvelopeView::Error(text), Seq::empty()),
    }
}

/// The text by which an envelope names a file, where it names one.
pub open spec fn named_file(envelope: EnvelopeView) -> Option<Seq<char>> {
    match envelope {
        EnvelopeView::ReadFile(text) => Some(text),
        EnvelopeView::WriteFile(text) => Some(text),
        EnvelopeView::DeleteFile(text) => Some(text),
        _ => None,
    }
}

/// The message that an envelope and a payload stand for; nothing where the
/// envelope names a file by a text that is no UUID. A payload beside an
/// envelope that takes none is ignored.
pub open spec fn message_of(envelope: EnvelopeView, payload: Seq<u8>) -> Option<MessageView> {
    match envelope {
        EnvelopeView::GetVersion => Some(MessageView::GetVersion),
        EnvelopeView::ReadFile(text) => match parsed_uuid(text) {
            Some(uuid) => Some(MessageView::ReadFile(uuid)),
            None => None,
        },
        EnvelopeView::WriteFile(text) => match parsed_uuid(text) {
            Some(uuid) => Some(MessageView::WriteFile(uuid, payload)),
            None => None,
        },
        EnvelopeView::DeleteFile(text) => match parsed_uuid(text) {
            Some(uuid) => Some(MessageView::DeleteFile(uuid)),
            None => None,
        },
        EnvelopeView::MyVersionIs(version) => Some(MessageView::MyVersionIs(version)),
        EnvelopeView::FileContents => Some(MessageView::FileContents(payload)),
        EnvelopeView::Ack => Some(MessageView::Ack),
        EnvelopeView::Error(text) => Some(MessageView::Error(text)),
    }
}

/// A message is read back from its envelope and its payload as it was:
/// every kind of message, with its file, its text and its bytes.
pub proof fn lemma_message_round_trip(message: MessageView)
    ensures
        message_of(wire_form(message).0, wire_form(message).1) == Some(message),
{
    match message {
        MessageView::ReadFile(uuid) => lemma_uuid_round_trip(uuid),
        MessageView::WriteFile(uuid, _) => lemma_uuid_round_trip(uuid),
        MessageView::DeleteFile(uuid) => lemma_uuid_round_trip(uuid),
        _ => {},
    }
}

/// Reading an envelope and a payload is a function of the two: the same
/// bytes never read as two different messages, and the only failure is a
/// file named by a text that is no UUID.
pub proof fn lemma_reading_is_determined(envelope: EnvelopeView, payload: Seq<u8>)
    ensures
        message_of(envelope, payload) is None <==> named_file(envelope) is Some && parsed_uuid(
            named_file(envelope)->0,
        ) is None,
{
}

impl MessageOverWire {
    /// Parts a message into its envelope and its payload. Reading the two
    /// back with `to_message` gives the same message.
    pub fn from_message(message: Message) -> (parts: (MessageOverWire, Vec<u8>))
        ensures
            (parts.0@, parts.1@) == wire_form(message@),
            message_of(parts.0@, parts.1@) == Some(message@),
    {
        proof {
            lemma_message_round_trip(message@);
        }
        match message {
            Message::GetVersion => (MessageOverWire::GetVersion, Vec::new()),
            Message::ReadFile(uuid) => (MessageOverWire::ReadFile(uuid.hyphenated()), Vec::new()),
            Message::WriteFile(uuid, data) => (MessageOverWire::WriteFile(uuid.hyphenated()), data),
            Message::DeleteFile(uuid) => (MessageOverWire::DeleteFile(uuid.hyphenated()), Vec::new()),
            Message::MyVersionIs(version) => (MessageOverWire::MyVersionIs(version), Vec::new()),
            Message::FileContents(data) => (MessageOverWire::FileContents, data),
            Message::Ack => (MessageOverWire::Ack, Vec::new()),
            Message::Error(text) => (MessageOverWire::Error(text), Vec::new()),
        }
    }

    /// Puts an envelope and a payload together into the message they stand
    /// for. Fails with `ParseUuidError`, and only so, where the envelope names
    /// a file by a text that is no UUID.
    pub fn to_message(self, data: Vec<u8>) -> (message: Result<Message, ParseMessageError>)
        ensures
            match message_of(self@, data@) {
                Some(expected) => message is Ok && message->Ok_0@ == expected,
                None => message matches Err(ParseMessageError::ParseUuidError(text))
                    && Some(text@) == named_file(self@),
            },
    {
        match self {
            MessageOverWire::GetVersion => Ok(Message::GetVersion),
            MessageOverWire::ReadFile(text) => match FileUUID::try_parse(text.as_str()) {
                Some(uuid) => Ok(Message::ReadFile(uuid)),
                None => Err(ParseMessageError::ParseUuidError(text)),
            },
            MessageOverWire::WriteFile(text) => match FileUUID::try_parse(text.as_str()) {
                Some(uuid) => Ok(Message::WriteFile(uuid, data)),
                None => Err(ParseMessageError::ParseUuidError(text)),
            },
            MessageOverWire::DeleteFile(text) => match FileUUID::try_parse(text.as_str()) {
                Some(uuid) => Ok(Message::DeleteFile(uuid)),
                None => Err(ParseMessageError::ParseUuidError(text)),
            },
            MessageOverWire::MyVersionIs(version) => Ok(Message::MyVersionIs(version)),
            MessageOverWire::FileContents => Ok(Message::FileContents(data)),
            MessageOverWire::Ack => Ok(Message::Ack),
            MessageOverWire::Error(text) => Ok(Message::Error(text)),
        }
    }
}


/// The number of bytes in a frame's header.
pub const HEADER_LENGTH: usize = 16;

/// The four bytes of `value`, most significant first.
pub open spec fn be32(value: u32) -> Seq<u8> {
    seq![
        (value / 0x100_0000) as u8,
        (value / 0x1_0000 % 0x100) as u8,
        (value / 0x100 % 0x100) as u8,
        (value % 0x100) as u8,
    ]
}

/// The eight bytes of `value`, most significant first.
pub open spec fn be64(value: u64) -> Seq<u8> {
    be32((value / 0x1_0000_0000) as u32) + be32((value % 0x1_0000_0000) as u32)
}

/// The number whose big-endian bytes are the first four of `bytes`.
pub open spec fn from_be32(bytes: Seq<u8>) -> u32
    recommends
        bytes.len() >= 4,
{
    (bytes[0] * 0x100_0000 + bytes[1] * 0x1_0000 + bytes[2] * 0x100 + bytes[3]) as u32
}

/// The number whose big-endian bytes are the first eight of `bytes`.
pub open spec fn from_be64(bytes: Seq<u8>) -> u64
    recommends
        bytes.len() >= 8,
{
    (from_be32(bytes) * 0x1_0000_0000 + from_be32(bytes.subrange(4, 8))) as u64
}

/// What stands in front of every envelope.
#[derive(Debug, Clone, Copy, PartialEq, Eq, Structural)]
pub struct FrameHeader {
    pub id: MessageID,
    /// The length of the JSON envelope, in bytes.
    pub envelope_length: u32,
    /// The length of the raw payload behind the envelope, in bytes.
    pub payload_length: u64,
}

/// The 16 bytes of a header.
pub open spec fn header_bytes(header: FrameHeader) -> Seq<u8> {
    be32(header.id.0) + be32(header.envelope_length) + be64(header.payload_length)
}

/// The header that the first 16 of `bytes` spell.
pub open spec fn header_of(bytes: Seq<u8>) -> FrameHeader
    recommends
        bytes.len() >= 16,
{
    FrameHeader {
        id: MessageID(from_be32(bytes)),
        envelope_length: from_be32(bytes.subrange(4, 8)),
        payload_length: from_be64(bytes.subrange(8, 16)),
    }
}

/// A whole message on the wire: header, envelope, payload.
pub open spec fn frame_bytes(id: MessageID, envelope: Seq<u8>, payload: Seq<u8>) -> Seq<u8>
    recommends
        envelope.len() <= u32::MAX,
        payload.len() <= u64::MAX,
{
    header_bytes(
        FrameHeader {
            id,
            envelope_length: envelope.len() as u32,
            payload_length: payload.len() as u64,
        },
    ) + envelope + payload
}

/// The length that a header announces and that goes over `cap`, the
/// envelope's before the payload's; nothing where both are within it.
pub open spec fn oversize(header: FrameHeader, cap: usize) -> Option<nat> {
    if header.envelope_length > cap {
        Some(header.envelope_length as nat)
    } else if header.payload_length > cap {
        Some(header.payload_length as nat)
    } else {
        None
    }
}

/// What the front of a byte stream holds.
pub enum FrameView {
    /// A whole message, followed by `rest`.
    Whole { id: MessageID, envelope: Seq<u8>, payload: Seq<u8>, rest: Seq<u8> },
    /// A header that announces more than the cap allows.
    TooLarge { asked: nat },
    /// Less than one whole message.
    Truncated,
}

/// Reads the front of `bytes` as one message, with lengths capped at `cap`.
pub open spec fn parsed_frame(bytes: Seq<u8>, cap: usize) -> FrameView {
    if bytes.len() < 16 {
        FrameView::Truncated
    } else {
        let header = header_of(bytes);
        match oversize(header, cap) {
            Some(asked) => FrameView::TooLarge { asked },
            None => {
                let body = 16 + header.envelope_length;
                let end = body + header.payload_length;
                if bytes.len() < end {
                    FrameView::Truncated
                } else {
                    FrameView::Whole {
                        id: header.id,
                        envelope: bytes.subrange(16, body),
                        payload: bytes.subrange(body, end),
                        rest: bytes.subrange(end, bytes.len() as int),
                    }
                }
            },
        }
    }
}

/// A message taken off the wire, its envelope still JSON text.
#[derive(Debug, Clone, PartialEq, Eq)]
pub struct Frame {
    pub id: MessageID,
    pub envelope: Vec<u8>,
    pub payload: Vec<u8>,
    /// How many bytes of the input the message took.
    pub consumed: usize,
}

/// A length as the error reports it: itself, or `usize::MAX` where it does
/// not fit.
pub open spec fn saturated(length: nat) -> usize {
    if length > usize::MAX { usize::MAX } else { length as usize }
}

fn push_be32(out: &mut Vec<u8>, value: u32)
    ensures
        final(out)@ == old(out)@ + be32(value),
{
    out.push((value / 0x100_0000) as u8);
    out.push((value / 0x1_0000 % 0x100) as u8);
    out.push((value / 0x100 % 0x100) as u8);
    out.push((value % 0x100) as u8);
    assert(out@ == old(out)@ + be32(value));
}

fn read_be32(bytes: &[u8], at: usize) -> (value: u32)
    requires
        at + 4 <= bytes.len(),
    ensures
        value == from_be32(bytes@.subrange(at as int, at + 4)),
{
    let b0 = bytes[at] as u32;
    let b1 = bytes[at + 1] as u32;
    let b2 = bytes[at + 2] as u32;
    let b3 = bytes[at + 3] as u32;
    b0 * 0x100_0000 + b1 * 0x1_0000 + b2 * 0x100 + b3
}

fn saturate(length: u64) -> (n: usize)
    ensures
        n == saturated(length as nat),
{
    if length > usize::MAX as u64 {
        usize::MAX
    } else {
        length as usize
    }
}

/// Reading back the bytes of a number gives the number.
pub proof fn lemma_be32_round_trip(value: u32)
    ensures
        be32(value).len() == 4,
        from_be32(be32(value)) == value,
{
}

/// Reading back the bytes of a number gives the number.
pub proof fn lemma_be64_round_trip(value: u64)
    ensures
        be64(value).len() == 8,
        from_be64(be64(value)) == value,
{
    let high = (value / 0x1_0000_0000) as u32;
    let low = (value % 0x1_0000_0000) as u32;
    lemma_be32_round_trip(high);
    lemma_be32_round_trip(low);
    assert(be64(value).subrange(4, 8) == be32(low));
    assert(from_be32(be64(value)) == from_be32(be32(high)));
}

/// Reading back the bytes of a header gives the header.
pub proof fn lemma_header_round_trip(header: FrameHeader)
    ensures
        header_bytes(header).len() == 16,
        header_of(header_bytes(header)) == header,
{
    let bytes = header_bytes(header);
    lemma_be32_round_trip(header.id.0);
    lemma_be32_round_trip(header.envelope_length);
    lemma_be64_round_trip(header.payload_length);
    assert(bytes.subrange(4, 8) == be32(header.envelope_length));
    assert(bytes.subrange(8, 16) == be64(header.payload_length));
    assert(from_be32(bytes) == from_be32(be32(header.id.0)));
}

impl FrameHeader {
    /// The header's 16 bytes.
    pub fn encode(&self) -> (bytes: Vec<u8>)
        ensures
            bytes@ == header_bytes(*self),
    {
        let mut bytes: Vec<u8> = Vec::new();
        push_be32(&mut bytes, self.id.0);
        push_be32(&mut bytes, self.envelope_length);
        push_be32(&mut bytes, (self.payload_length / 0x1_0000_0000) as u32);
        push_be32(&mut bytes, (self.payload_length % 0x1_0000_0000) as u32);
        assert(bytes@ == header_bytes(*self));
        bytes
    }

    /// Reads a header from the first 16 of `bytes`. Fails with `IOError`, and
    /// only so, where there are fewer.
    pub fn decode(bytes: &[u8]) -> (header: Result<FrameHeader, ParseMessageError>)
        ensures
            bytes.len() >= 16 ==> header is Ok && header->Ok_0 == header_of(bytes@),
            bytes.len() < 16 ==> header is Err && header->Err_0 is IOError,
    {
        if bytes.len() < 16 {
            return Err(ParseMessageError::IOError("unexpected end of stream".to_string()));
        }
        let id = read_be32(bytes, 0);
        let envelope_length = read_be32(bytes, 4);
        let high = read_be32(bytes, 8);
        let low = read_be32(bytes, 12);
        proof {
            let tail = bytes@.subrange(8, 16);
            assert(tail.subrange(4, 8) == bytes@.subrange(12, 16));
            assert(from_be32(tail) == from_be32(bytes@.subrange(8, 12)));
            assert(from_be32(bytes@) == from_be32(bytes@.subrange(0, 4)));
        }
        let payload_length = (high as u64) * 0x1_0000_0000 + (low as u64);
        Ok(FrameHeader { id: MessageID(id), envelope_length, payload_length })
    }

    /// Holds the announced lengths against `cap`, before anything is
    /// allocated for them. Fails with `RequestTooLarge`, and only so, where the
    /// envelope or the payload is longer than `cap`.
    pub fn check(&self, cap: usize) -> (checked: Result<(), ParseMessageError>)
        ensures
            match oversize(*self, cap) {
                Some(asked) => checked matches Err(ParseMessageError::RequestTooLarge(n)) && n
                    == saturated(asked),
                None => checked is Ok,
            },
    {
        if self.envelope_length as u64 > cap as u64 {
            Err(ParseMessageError::RequestTooLarge(saturate(self.envelope_length as u64)))
        } else if self.payload_length > cap as u64 {
            Err(ParseMessageError::RequestTooLarge(saturate(self.payload_length)))
        } else {
            Ok(())
        }
    }
}

/// The length that keeps a message from being framed under `cap`: the
/// envelope's where it is over `cap` or over what 32 bits can say, else the
/// payload's where it is over `cap`; nothing where the message can be framed.
pub open spec fn unframeable(envelope_length: nat, payload_length: nat, cap: usize) -> Option<nat> {
    if envelope_length > cap || envelope_length > u32::MAX {
        Some(envelope_length)
    } else if payload_length > cap {
        Some(payload_length)
    } else {
        None
    }
}

/// Frames one message: header, then envelope, then payload. Fails with
/// `RequestTooLarge`, and only so, where the envelope is longer than `cap` or
/// than a 32-bit length can say, or the payload is longer than `cap`.
pub fn write_frame(id: MessageID, envelope: &[u8], payload: &[u8], cap: usize) -> (bytes: Result<
    Vec<u8>,
    ParseMessageError,
>)
    ensures
        match unframeable(envelope@.len(), payload@.len(), cap) {
            Some(asked) => bytes matches Err(ParseMessageError::RequestTooLarge(n)) && n == asked,
            None => bytes is Ok && bytes->Ok_0@ == frame_bytes(id, envelope@, payload@),
        },
{
    if envelope.len() > cap || envelope.len() > u32::MAX as usize {
        return Err(ParseMessageError::RequestTooLarge(envelope.len()));
    }
    if payload.len() > cap {
        return Err(ParseMessageError::RequestTooLarge(payload.len()));
    }
    let header = FrameHeader {
        id,
        envelope_length: envelope.len() as u32,
        payload_length: payload.len() as u64,
    };
    let mut bytes = header.encode();
    bytes.extend_from_slice(envelope);
    bytes.extend_from_slice(payload);
    Ok(bytes)
}

/// Takes one message off the front of `bytes`. The announced lengths are held
/// against `cap` before the envelope and the payload are copied out.
pub fn read_frame(bytes: &[u8], cap: usize) -> (frame: Result<Frame, ParseMessageError>)
    ensures
        match parsed_frame(bytes@, cap) {
            FrameView::Whole { id, envelope, payload, rest } => frame is Ok && frame->Ok_0.id == id
                && frame->Ok_0.envelope@ == envelope && frame->Ok_0.payload@ == payload
                && frame->Ok_0.consumed == bytes.len() - rest.len(),
            FrameView::TooLarge { asked } => frame matches Err(ParseMessageError::RequestTooLarge(n))
                && n == saturated(asked),
            FrameView::Truncated => frame is Err && frame->Err_0 is IOError,
        },
{
    let header = FrameHeader::decode(bytes)?;
    header.check(cap)?;
    let envelope_length = header.envelope_length as usize;
    let payload_length = header.payload_length as usize;
    let left = bytes.len() - 16;
    if left < envelope_length || left - envelope_length < payload_length {
        return Err(ParseMessageError::IOError("unexpected end of stream".to_string()));
    }
    let body = 16 + envelope_length;
    let end = body + payload_length;
    let envelope = vstd::slice::slice_to_vec(vstd::slice::slice_subrange(bytes, 16, body));
    let payload = vstd::slice::slice_to_vec(vstd::slice::slice_subrange(bytes, body, end));
    Ok(Frame { id: header.id, envelope, payload, consumed: end })
}

/// What is framed is read back as it was: the same identifier, envelope and
/// payload, and nothing of what follows is touched.
pub proof fn lemma_frame_round_trip(
    id: MessageID,
    envelope: Seq<u8>,
    payload: Seq<u8>,
    rest: Seq<u8>,
    cap: usize,
)
    requires
        envelope.len() <= cap,
        envelope.len() <= u32::MAX,
        payload.len() <= cap,
    ensures
        parsed_frame(frame_bytes(id, envelope, payload) + rest, cap) == (FrameView::Whole {
            id,
            envelope,
            payload,
            rest,
        }),
{
    let header = FrameHeader {
        id,
        envelope_length: envelope.len() as u32,
        payload_length: payload.len() as u64,
    };
    let bytes = frame_bytes(id, envelope, payload) + rest;
    lemma_header_round_trip(header);
    assert(bytes.subrange(0, 16) == header_bytes(header));
    lemma_header_reads_prefix(bytes);
    let body: int = 16 + envelope.len() as int;
    let end: int = body + payload.len() as int;
    assert(bytes.subrange(16, body) == envelope);
    assert(bytes.subrange(body, end) == payload);
    assert(bytes.subrange(end, bytes.len() as int) == rest);
}

/// A header is read from the first 16 bytes alone.
pub proof fn lemma_header_reads_prefix(bytes: Seq<u8>)
    requires
        bytes.len() >= 16,
    ensures
        header_of(bytes) == header_of(bytes.subrange(0, 16)),
{
    let front = bytes.subrange(0, 16);
    assert(front.subrange(4, 8) == bytes.subrange(4, 8));
    assert(front.subrange(8, 16) == bytes.subrange(8, 16));
}

} // verus!
