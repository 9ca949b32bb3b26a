use lan_mouse::protocol::{ClipboardMessage, IoError, IoErrorKind, ProtocolError};
use lan_mouse::transport::{
    client_hello, client_version, frame_message, read_message, server_answer, write_message,
    ConnectError, FrameReader, HandshakeReply, Incoming, ReadEvent, Role, Session,
    MAX_CLIPBOARD_FRAME_SIZE,
};

#[test]
fn test_clipboard_frame_size_limits() {
    let mut stream = Vec::new();

    // 1. Exactly MAX_CLIPBOARD_FRAME_SIZE frame -> accepted
    let exactly_max = ClipboardMessage::Data {
        id: 1,
        mime_type: "text/plain".to_string(),
        // 13 bytes overhead: 1 msg_type + 8 id + 4 len (for V1 text/plain)
        data: vec![0u8; (MAX_CLIPBOARD_FRAME_SIZE - 13) as usize],
    };
    assert!(write_message(&mut stream, &exactly_max, 1).is_ok());

    let mut cursor: &[u8] = &stream;
    let decoded = read_message(&mut cursor);
    assert!(decoded.is_ok());

    // 2. One byte more -> rejected
    let mut stream = Vec::new();
    let over_max = ClipboardMessage::Data {
        id: 1,
        mime_type: "text/plain".to_string(),
        data: vec![0u8; (MAX_CLIPBOARD_FRAME_SIZE - 12) as usize],
    };
    let res = write_message(&mut stream, &over_max, 1);
    assert!(matches!(res, Err(ProtocolError::FrameTooLarge(_))));

    // 3. 15 MiB announced, nothing sent
    let len = 15 * 1024 * 1024_u32;
    let stream = len.to_be_bytes().to_vec();
    let mut cursor: &[u8] = &stream;
    match read_message(&mut cursor) {
        Err(ProtocolError::Io(e)) => assert_eq!(e.kind, IoErrorKind::UnexpectedEof),
        _ => panic!("Expected UnexpectedEof due to missing payload"),
    }

    // 4. Malformed/huge frame length -> rejected before allocation
    let len = 0xFFFFFFFF_u32;
    let stream = len.to_be_bytes().to_vec();
    let mut cursor: &[u8] = &stream;
    match read_message(&mut cursor) {
        Err(ProtocolError::Io(e)) => assert_eq!(e.kind, IoErrorKind::UnexpectedEof),
        _ => panic!("Expected UnexpectedEof due to missing payload"),
    }

    // 5. Invalid protocol message type
    let mut stream = 1u32.to_be_bytes().to_vec();
    stream.push(99); // Unknown type 99
    let mut cursor: &[u8] = &stream;
    let res = read_message(&mut cursor);
    assert!(matches!(res, Err(ProtocolError::InvalidMessageType(99))));

    // 6. TCP disconnect during active transfer (UnexpectedEof)
    let mut stream = 100u32.to_be_bytes().to_vec(); // Expecting 100 bytes
    stream.extend_from_slice(&[1, 2, 3]); // Only 3 bytes sent before EOF
    let mut cursor: &[u8] = &stream;
    match read_message(&mut cursor) {
        Err(ProtocolError::Io(e)) => assert_eq!(e.kind, IoErrorKind::UnexpectedEof),
        _ => panic!("Expected UnexpectedEof"),
    }
}

#[test]
fn test_v1_v2_compatibility() {
    let msg_offer = ClipboardMessage::Offer {
        id: 42,
        mime_types: vec!["text/html".to_string(), "text/plain".to_string()],
    };

    let msg_data = ClipboardMessage::Data {
        id: 42,
        mime_type: "text/html".to_string(),
        data: b"hello".to_vec(),
    };

    // 1. V1 Serialisation strips to text/plain and legacy format
    let mut v1_stream = Vec::new();
    write_message(&mut v1_stream, &msg_offer, 1).unwrap();

    let mut cursor: &[u8] = &v1_stream;
    let decoded_offer = read_message(&mut cursor).unwrap();

    if let ClipboardMessage::Offer { id, mime_types } = decoded_offer {
        assert_eq!(id, 42);
        assert_eq!(mime_types, vec!["text/plain".to_string()]);
    } else {
        panic!("Expected Offer");
    }

    let msg_data_v1 = ClipboardMessage::Data {
        id: 42,
        mime_type: "text/plain".to_string(),
        data: b"hello".to_vec(),
    };

    // V1 Data serialisation
    let mut v1_stream = Vec::new();
    write_message(&mut v1_stream, &msg_data_v1, 1).unwrap();
    let mut cursor: &[u8] = &v1_stream;
    let decoded_data = read_message(&mut cursor).unwrap();

    if let ClipboardMessage::Data { id, mime_type, data } = decoded_data {
        assert_eq!(id, 42);
        assert_eq!(mime_type, "text/plain");
        assert_eq!(data, b"hello");
    } else {
        panic!("Expected Data");
    }

    // 2. V2 Serialisation preserves HTML and fields
    let mut v2_stream = Vec::new();
    write_message(&mut v2_stream, &msg_offer, 2).unwrap();
    let mut cursor: &[u8] = &v2_stream;
    let decoded_offer = read_message(&mut cursor).unwrap();

    if let ClipboardMessage::Offer { id, mime_types } = decoded_offer {
        assert_eq!(id, 42);
        assert_eq!(mime_types, vec!["text/html".to_string(), "text/plain".to_string()]);
    } else {
        panic!("Expected Offer");
    }

    let mut v2_stream = Vec::new();
    write_message(&mut v2_stream, &msg_data, 2).unwrap();
    let mut cursor: &[u8] = &v2_stream;
    let decoded_data = read_message(&mut cursor).unwrap();

    if let ClipboardMessage::Data { id, mime_type, data } = decoded_data {
        assert_eq!(id, 42);
        assert_eq!(mime_type, "text/html");
        assert_eq!(data, b"hello");
    } else {
        panic!("Expected Data");
    }
}

fn io_error(e: &ProtocolError) -> (IoErrorKind, String) {
    match e {
        ProtocolError::Io(e) => (e.kind, e.message.clone()),
        other => panic!("{other:?}"),
    }
}

#[test]
fn messages_follow_each_other() {
    let first = ClipboardMessage::Error { id: 1, code: 500 };
    let second = ClipboardMessage::Hello { protocol_version: 2 };
    let mut stream = Vec::new();
    write_message(&mut stream, &first, 4).unwrap();
    write_message(&mut stream, &second, 4).unwrap();
    let mut cursor: &[u8] = &stream;
    assert_eq!(read_message(&mut cursor).unwrap(), first);
    assert_eq!(read_message(&mut cursor).unwrap(), second);
    assert!(cursor.is_empty());
    let end = read_message(&mut cursor).unwrap_err();
    assert_eq!(
        io_error(&end),
        (IoErrorKind::UnexpectedEof, "unexpected end of file".to_string())
    );
}

#[test]
fn a_frame_states_its_length() {
    let frame = frame_message(&ClipboardMessage::Hello { protocol_version: 4 }, 4).unwrap();
    assert_eq!(frame, vec![0, 0, 0, 3, 1, 0, 4]);
}

#[test]
fn nothing_is_written_for_an_empty_message() {
    let msg = ClipboardMessage::FileChunkAck { id: 1, file_index: 0, offset: 0 };
    let mut stream = vec![7];
    write_message(&mut stream, &msg, 3).unwrap();
    assert_eq!(stream, vec![7]);
}

#[test]
fn an_empty_frame_is_an_early_end() {
    let stream = [0u8; 4];
    let mut cursor: &[u8] = &stream;
    let e = read_message(&mut cursor).unwrap_err();
    assert_eq!(
        io_error(&e),
        (IoErrorKind::UnexpectedEof, "failed to fill whole buffer".to_string())
    );
}

#[test]
fn an_oversized_frame_is_skipped() {
    let length = MAX_CLIPBOARD_FRAME_SIZE + 1;
    let mut stream = length.to_be_bytes().to_vec();
    stream.resize(stream.len() + length as usize, 0xEE);
    let next = ClipboardMessage::Error { id: 1, code: 2 };
    write_message(&mut stream, &next, 4).unwrap();
    let mut cursor: &[u8] = &stream;
    assert_eq!(read_message(&mut cursor), Err(ProtocolError::FrameTooLarge(length)));
    assert_eq!(read_message(&mut cursor), Ok(next));
}

#[test]
fn a_frame_arrives_in_pieces() {
    let msg = ClipboardMessage::Error { id: 1, code: 500 };
    let frame = frame_message(&msg, 4).unwrap();
    let body = &frame[4..];
    let mut reader = FrameReader::new(body.len() as u32);
    assert_eq!(reader.wanted(), 11);
    assert_eq!(reader.step(ReadEvent::Bytes(body[..4].to_vec())), None);
    assert_eq!(reader.wanted(), 7);
    assert_eq!(reader.step(ReadEvent::Bytes(body[4..].to_vec())), None);
    assert_eq!(reader.wanted(), 0);
    assert_eq!(reader.finish(), Ok(msg));
}

#[test]
fn a_frame_can_stall_end_or_fail() {
    let mut reader = FrameReader::new(10);
    let stalled = reader.step(ReadEvent::TimedOut).unwrap();
    assert_eq!(io_error(&stalled), (IoErrorKind::TimedOut, "Transfer stalled".to_string()));
    let ended = reader.step(ReadEvent::Bytes(vec![])).unwrap();
    assert_eq!(
        io_error(&ended),
        (IoErrorKind::UnexpectedEof, "EOF during transfer".to_string())
    );
    let cause = IoError { kind: IoErrorKind::Other, message: "broken".to_string() };
    let failed = reader.step(ReadEvent::Failed(cause.clone())).unwrap();
    assert_eq!(failed, ProtocolError::Io(cause));
}

#[test]
fn a_discarded_frame_can_stall_or_end() {
    let mut reader = FrameReader::new(u32::MAX);
    assert_eq!(reader.wanted(), 8192);
    assert_eq!(reader.step(ReadEvent::Bytes(vec![0; 8192])), None);
    let stalled = reader.step(ReadEvent::TimedOut).unwrap();
    assert_eq!(
        io_error(&stalled),
        (IoErrorKind::TimedOut, "Transfer stalled during discard".to_string())
    );
    let ended = reader.step(ReadEvent::Bytes(vec![])).unwrap();
    assert_eq!(
        io_error(&ended),
        (IoErrorKind::UnexpectedEof, "EOF during discard".to_string())
    );
}

#[test]
fn the_client_needs_an_acknowledgement() {
    assert_eq!(client_hello(), ClipboardMessage::Hello { protocol_version: 4 });
    let ack = ClipboardMessage::HelloAck { protocol_version: 3 };
    assert_eq!(client_version(HandshakeReply::Message(ack)), Ok(3));
    let other = ClipboardMessage::Hello { protocol_version: 3 };
    assert_eq!(
        client_version(HandshakeReply::Message(other)),
        Err(ConnectError::Refused("Expected HelloAck".to_string()))
    );
    assert_eq!(
        client_version(HandshakeReply::TimedOut),
        Err(ConnectError::Refused("Timed out waiting for HelloAck".to_string()))
    );
    assert_eq!(
        client_version(HandshakeReply::Failed(ProtocolError::PayloadTooShort)),
        Err(ConnectError::Protocol(ProtocolError::PayloadTooShort))
    );
}

#[test]
fn the_server_picks_the_common_version() {
    for (theirs, common) in [(0, 0), (1, 1), (3, 3), (4, 4), (5, 4), (u16::MAX, 4)] {
        let hello = ClipboardMessage::Hello { protocol_version: theirs };
        assert_eq!(
            server_answer(HandshakeReply::Message(hello)),
            Some((common, ClipboardMessage::HelloAck { protocol_version: common }))
        );
    }
    assert_eq!(server_answer(HandshakeReply::TimedOut), None);
    assert_eq!(server_answer(HandshakeReply::Failed(ProtocolError::PayloadTooShort)), None);
    let other = ClipboardMessage::Error { id: 0, code: 0 };
    assert_eq!(server_answer(HandshakeReply::Message(other)), None);
}

fn plain() -> Vec<String> {
    vec!["text/plain".to_string()]
}

#[test]
fn answers_go_where_they_were_asked() {
    let mut session = Session::new(Role::Server, 4);
    let request = ClipboardMessage::Request { id: 5, mime_types: plain() };
    let data = ClipboardMessage::Data { id: 6, mime_type: "a".to_string(), data: vec![1] };
    let error = ClipboardMessage::Error { id: 6, code: 500 };
    let offer = ClipboardMessage::Offer { id: 5, mime_types: plain() };

    assert!(session.outgoing(&request).is_empty());
    assert!(session.outgoing(&data).is_empty());
    assert!(session.outgoing(&error).is_empty());
    assert_eq!(session.outgoing(&offer), frame_message(&offer, 4).unwrap());

    assert_eq!(session.incoming(Ok(offer.clone())), Incoming::Forward(offer));
    assert_eq!(session.outgoing(&request), frame_message(&request, 4).unwrap());
    assert!(session.outgoing(&data).is_empty());

    let theirs = ClipboardMessage::Request { id: 6, mime_types: plain() };
    assert_eq!(session.incoming(Ok(theirs.clone())), Incoming::Forward(theirs));
    assert_eq!(session.outgoing(&data), frame_message(&data, 4).unwrap());
    assert_eq!(session.outgoing(&error), frame_message(&error, 4).unwrap());
}

#[test]
fn a_hello_inside_a_session() {
    let hello = |v| Ok(ClipboardMessage::Hello { protocol_version: v });
    let mut client = Session::new(Role::Client, 4);
    assert_eq!(client.incoming(hello(1)), Incoming::Ignore);
    assert_eq!(client.incoming(hello(2)), Incoming::Stop);
    let mut server = Session::new(Role::Server, 4);
    assert_eq!(server.incoming(hello(2)), Incoming::Forward(hello(2).unwrap()));
}

#[test]
fn read_errors_inside_a_session() {
    let mut session = Session::new(Role::Client, 4);
    assert_eq!(
        session.incoming(Err(ProtocolError::FrameTooLarge(7))),
        Incoming::Reply(ClipboardMessage::Error { id: 0, code: 413 })
    );
    assert_eq!(session.incoming(Err(ProtocolError::InvalidMessageType(7))), Incoming::Abort);
}

#[test]
fn too_large_messages_are_not_sent() {
    let session = Session::new(Role::Client, 4);
    let chunk = ClipboardMessage::FileChunk {
        id: 1,
        file_index: 0,
        offset: 0,
        data: vec![0; MAX_CLIPBOARD_FRAME_SIZE as usize],
    };
    assert!(session.outgoing(&chunk).is_empty());
    // A tag, three numbers and the length of the data stand before the data.
    assert_eq!(
        frame_message(&chunk, 4),
        Err(ProtocolError::FrameTooLarge(MAX_CLIPBOARD_FRAME_SIZE + 25))
    );
}

#[test]
fn a_handshake_ends_in_one_version() {
    for theirs in [0u16, 1, 2, 3, 4, 9] {
        let hello = ClipboardMessage::Hello { protocol_version: theirs };
        let mut to_server = Vec::new();
        write_message(&mut to_server, &hello, theirs).unwrap();
        let mut cursor: &[u8] = &to_server;
        let heard = read_message(&mut cursor).unwrap();
        let (version, answer) = server_answer(HandshakeReply::Message(heard)).unwrap();
        let mut to_client = Vec::new();
        write_message(&mut to_client, &answer, version).unwrap();
        let mut cursor: &[u8] = &to_client;
        let reply = HandshakeReply::Message(read_message(&mut cursor).unwrap());
        assert_eq!(client_version(reply), Ok(version));
        assert_eq!(version, theirs.min(4));
    }
}
