use bnuystore::file_uuid::FileUUID;
use bnuystore::message::{
    read_frame, write_frame, Frame, FrameHeader, Message, MessageID, MessageOverWire,
    ParseMessageError, HEADER_LENGTH,
};

fn sample_uuid() -> FileUUID {
    FileUUID(0x018f_3b2a_7c4d_7e11_9abc_0123_4567_89ab)
}

fn every_kind_of_message() -> Vec<Message> {
    vec![
        Message::GetVersion,
        Message::ReadFile(sample_uuid()),
        Message::WriteFile(sample_uuid(), vec![0, 1, 2, 255, 254]),
        Message::WriteFile(FileUUID(0), vec![]),
        Message::DeleteFile(sample_uuid()),
        Message::MyVersionIs("0.1.0".to_string()),
        Message::FileContents(b"hello".to_vec()),
        Message::FileContents(vec![]),
        Message::Ack,
        Message::Error("NoFileWithUuid(\"x\")\n".to_string()),
    ]
}

#[test]
fn header_is_sixteen_big_endian_bytes() {
    let header = FrameHeader { id: MessageID(42), envelope_length: 0x0102_0304, payload_length: 0x0a0b_0c0d_0e0f_1011 };
    let bytes = header.encode();
    assert_eq!(bytes.len(), HEADER_LENGTH);
    assert_eq!(
        bytes,
        vec![0, 0, 0, 42, 1, 2, 3, 4, 0x0a, 0x0b, 0x0c, 0x0d, 0x0e, 0x0f, 0x10, 0x11]
    );
}

#[test]
fn header_agrees_with_std_big_endian() {
    for (id, envelope, payload) in [(0u32, 0u32, 0u64), (u32::MAX, u32::MAX, u64::MAX), (7, 300, 70_000), (0x8000_0000, 1, 1 << 40)] {
        let header = FrameHeader { id: MessageID(id), envelope_length: envelope, payload_length: payload };
        let mut want = Vec::new();
        want.extend_from_slice(&id.to_be_bytes());
        want.extend_from_slice(&envelope.to_be_bytes());
        want.extend_from_slice(&payload.to_be_bytes());
        assert_eq!(header.encode(), want);
        assert_eq!(FrameHeader::decode(&want).unwrap(), header);
    }
}

#[test]
fn header_decode_reads_the_first_sixteen_bytes_only() {
    let mut bytes = FrameHeader { id: MessageID(9), envelope_length: 2, payload_length: 3 }.encode();
    bytes.extend_from_slice(b"trailing");
    let header = FrameHeader::decode(&bytes).unwrap();
    assert_eq!(header, FrameHeader { id: MessageID(9), envelope_length: 2, payload_length: 3 });
}

#[test]
fn short_header_is_an_io_error() {
    for length in 0..16usize {
        let bytes = vec![0u8; length];
        assert!(matches!(FrameHeader::decode(&bytes), Err(ParseMessageError::IOError(_))));
    }
}

#[test]
fn header_over_the_cap_is_too_large() {
    let header = FrameHeader { id: MessageID(1), envelope_length: 11, payload_length: 5 };
    assert!(matches!(header.check(10), Err(ParseMessageError::RequestTooLarge(11))));
    let header = FrameHeader { id: MessageID(1), envelope_length: 10, payload_length: 11 };
    assert!(matches!(header.check(10), Err(ParseMessageError::RequestTooLarge(11))));
    let header = FrameHeader { id: MessageID(1), envelope_length: 10, payload_length: 10 };
    assert!(header.check(10).is_ok());
    let header = FrameHeader { id: MessageID(1), envelope_length: 12, payload_length: 13 };
    assert!(matches!(header.check(10), Err(ParseMessageError::RequestTooLarge(12))));
    let header = FrameHeader { id: MessageID(1), envelope_length: 0, payload_length: u64::MAX };
    assert!(matches!(header.check(usize::MAX - 1), Err(ParseMessageError::RequestTooLarge(usize::MAX))));
}

#[test]
fn frame_round_trip() {
    let envelope = br#"{"WriteFile":"018f3b2a-7c4d-7e11-9abc-0123456789ab"}"#;
    let payload = b"hello world";
    let bytes = write_frame(MessageID(42), envelope, payload, 1 << 20).unwrap();
    assert_eq!(bytes.len(), 16 + envelope.len() + payload.len());
    assert_eq!(&bytes[0..4], &[0u8, 0, 0, 42][..]);
    assert_eq!(&bytes[4..8], &(envelope.len() as u32).to_be_bytes()[..]);
    assert_eq!(&bytes[8..16], &(payload.len() as u64).to_be_bytes()[..]);
    assert_eq!(&bytes[16..16 + envelope.len()], &envelope[..]);
    assert_eq!(&bytes[16 + envelope.len()..], &payload[..]);
    let frame = read_frame(&bytes, 1 << 20).unwrap();
    assert_eq!(
        frame,
        Frame { id: MessageID(42), envelope: envelope.to_vec(), payload: payload.to_vec(), consumed: bytes.len() }
    );
}

#[test]
fn frames_follow_each_other_in_a_stream() {
    let mut stream = write_frame(MessageID(1), b"\"Ack\"", b"", 100).unwrap();
    stream.extend(write_frame(MessageID(2), b"\"FileContents\"", b"abc", 100).unwrap());
    let first = read_frame(&stream, 100).unwrap();
    assert_eq!(first.id, MessageID(1));
    assert_eq!(first.envelope, b"\"Ack\"".to_vec());
    assert_eq!(first.payload, Vec::<u8>::new());
    let second = read_frame(&stream[first.consumed..], 100).unwrap();
    assert_eq!(second.id, MessageID(2));
    assert_eq!(second.payload, b"abc".to_vec());
    assert_eq!(first.consumed + second.consumed, stream.len());
}

#[test]
fn reading_the_same_bytes_gives_the_same_frame() {
    let bytes = write_frame(MessageID(77), b"\"GetVersion\"", b"", 64).unwrap();
    assert_eq!(read_frame(&bytes, 64).unwrap(), read_frame(&bytes, 64).unwrap());
}

#[test]
fn truncated_frame_is_an_io_error() {
    let bytes = write_frame(MessageID(3), b"\"FileContents\"", b"0123456789", 100).unwrap();
    for length in 0..bytes.len() {
        assert!(matches!(read_frame(&bytes[..length], 100), Err(ParseMessageError::IOError(_))), "length {}", length);
    }
    assert!(read_frame(&bytes, 100).is_ok());
}

#[test]
fn oversize_frame_is_refused_before_its_body_is_looked_at() {
    let header = FrameHeader { id: MessageID(5), envelope_length: 1_000_000, payload_length: 0 };
    let bytes = header.encode();
    assert!(matches!(read_frame(&bytes, 1000), Err(ParseMessageError::RequestTooLarge(1_000_000))));
    let header = FrameHeader { id: MessageID(5), envelope_length: 10, payload_length: 1 << 50 };
    let bytes = header.encode();
    assert!(matches!(read_frame(&bytes, 1000), Err(ParseMessageError::RequestTooLarge(n)) if n == 1usize << 50));
}

#[test]
fn writer_keeps_to_the_cap() {
    assert!(matches!(write_frame(MessageID(1), b"12345", b"", 4), Err(ParseMessageError::RequestTooLarge(5))));
    assert!(matches!(write_frame(MessageID(1), b"1234", b"123456", 5), Err(ParseMessageError::RequestTooLarge(6))));
    assert!(write_frame(MessageID(1), b"1234", b"12345", 5).is_ok());
    assert!(write_frame(MessageID(1), b"", b"", 0).is_ok());
}

#[test]
fn message_round_trip() {
    for message in every_kind_of_message() {
        let (wire, data) = MessageOverWire::from_message(message.clone());
        let back = wire.to_message(data).unwrap();
        assert_eq!(back, message);
    }
}

#[test]
fn message_round_trip_through_frames() {
    for (index, message) in every_kind_of_message().into_iter().enumerate() {
        let (wire, data) = MessageOverWire::from_message(message.clone());
        let envelope = format!("{:?}", wire).into_bytes();
        let bytes = write_frame(MessageID(index as u32), &envelope, &data, 1 << 16).unwrap();
        let frame = read_frame(&bytes, 1 << 16).unwrap();
        assert_eq!(frame.id, MessageID(index as u32));
        assert_eq!(frame.envelope, envelope);
        assert_eq!(wire.to_message(frame.payload).unwrap(), message);
    }
}

#[test]
fn envelope_holds_the_uuid_as_text_and_no_bulk_data() {
    let (wire, data) = MessageOverWire::from_message(Message::WriteFile(sample_uuid(), vec![1, 2, 3]));
    assert_eq!(wire, MessageOverWire::WriteFile("018f3b2a-7c4d-7e11-9abc-0123456789ab".to_string()));
    assert_eq!(data, vec![1, 2, 3]);
    let (wire, data) = MessageOverWire::from_message(Message::FileContents(vec![9; 1000]));
    assert_eq!(wire, MessageOverWire::FileContents);
    assert_eq!(data.len(), 1000);
    let (wire, data) = MessageOverWire::from_message(Message::ReadFile(sample_uuid()));
    assert_eq!(wire, MessageOverWire::ReadFile("018f3b2a-7c4d-7e11-9abc-0123456789ab".to_string()));
    assert!(data.is_empty());
    let (wire, data) = MessageOverWire::from_message(Message::GetVersion);
    assert_eq!(wire, MessageOverWire::GetVersion);
    assert!(data.is_empty());
}

#[test]
fn envelope_with_a_bad_uuid_is_refused() {
    for wire in [
        MessageOverWire::ReadFile("nope".to_string()),
        MessageOverWire::WriteFile("".to_string()),
        MessageOverWire::DeleteFile("018f3b2a-7c4d-7e11-9abc-0123456789a".to_string()),
    ] {
        let result = wire.clone().to_message(vec![1]);
        match (wire, result) {
            (MessageOverWire::ReadFile(text), Err(ParseMessageError::ParseUuidError(reported))) => assert_eq!(text, reported),
            (MessageOverWire::WriteFile(text), Err(ParseMessageError::ParseUuidError(reported))) => assert_eq!(text, reported),
            (MessageOverWire::DeleteFile(text), Err(ParseMessageError::ParseUuidError(reported))) => assert_eq!(text, reported),
            other => panic!("unexpected {:?}", other),
        }
    }
}

#[test]
fn envelope_reads_the_uuid_in_any_case() {
    let wire = MessageOverWire::DeleteFile("018F3B2A-7C4D-7E11-9ABC-0123456789AB".to_string());
    assert_eq!(wire.to_message(vec![]).unwrap(), Message::DeleteFile(sample_uuid()));
}

#[test]
fn payload_beside_an_envelope_that_takes_none_is_dropped() {
    assert_eq!(MessageOverWire::Ack.to_message(vec![1, 2, 3]).unwrap(), Message::Ack);
    assert_eq!(MessageOverWire::GetVersion.to_message(vec![1]).unwrap(), Message::GetVersion);
    assert_eq!(
        MessageOverWire::MyVersionIs("1".to_string()).to_message(vec![1]).unwrap(),
        Message::MyVersionIs("1".to_string())
    );
}
