use lan_mouse::protocol::{ClipboardMessage, FileMetadata, IoErrorKind, ProtocolError};

fn encode(msg: &ClipboardMessage, version: u16) -> Vec<u8> {
    let mut out = Vec::new();
    msg.encode(&mut out, version).unwrap();
    out
}

fn decode(bytes: &[u8]) -> Result<ClipboardMessage, ProtocolError> {
    let mut src = bytes;
    ClipboardMessage::decode(&mut src)
}

fn texts(list: &[&str]) -> Vec<String> {
    list.iter().map(|s| s.to_string()).collect()
}

fn all_messages() -> Vec<ClipboardMessage> {
    vec![
        ClipboardMessage::Hello { protocol_version: 4 },
        ClipboardMessage::HelloAck { protocol_version: 0x0102 },
        ClipboardMessage::Offer { id: 7, mime_types: texts(&["text/html", "text/plain"]) },
        ClipboardMessage::Request { id: u64::MAX, mime_types: texts(&["image/png"]) },
        ClipboardMessage::Data { id: 1, mime_type: "text/plain".into(), data: vec![1, 2, 3] },
        ClipboardMessage::Error { id: 9, code: 404 },
        ClipboardMessage::FileOffer {
            id: 3,
            files: vec![
                FileMetadata { name: "ä.txt".into(), size: 5 },
                FileMetadata { name: "b".into(), size: u64::MAX },
            ],
        },
        ClipboardMessage::FileRequest { id: 3, file_indices: vec![0, 1, 70_000] },
        ClipboardMessage::FileChunk { id: 3, file_index: 1, offset: 1 << 40, data: vec![9; 300] },
        ClipboardMessage::FileComplete { id: 3, file_index: 1, size: 300, sha256: [0xAB; 32] },
        ClipboardMessage::FileChunkAck { id: 3, file_index: 1, offset: 256 },
    ]
}

#[test]
fn every_message_reads_back() {
    for msg in all_messages() {
        let mut bytes = encode(&msg, 4);
        bytes.extend_from_slice(b"rest");
        let mut src: &[u8] = &bytes;
        assert_eq!(ClipboardMessage::decode(&mut src).unwrap(), msg);
        assert_eq!(src, b"rest");
    }
}

#[test]
fn every_truncation_is_an_early_end() {
    for msg in all_messages() {
        let bytes = encode(&msg, 4);
        for n in 0..bytes.len() {
            let mut src = &bytes[..n];
            match ClipboardMessage::decode(&mut src) {
                Err(ProtocolError::Io(e)) => {
                    assert_eq!(e.kind, IoErrorKind::UnexpectedEof);
                    assert_eq!(e.message, "failed to fill whole buffer");
                }
                other => panic!("{other:?}"),
            }
            assert!(src.is_empty());
        }
    }
}

#[test]
fn wire_bytes() {
    assert_eq!(encode(&ClipboardMessage::Hello { protocol_version: 4 }, 4), vec![1, 0, 4]);
    assert_eq!(
        encode(&ClipboardMessage::Offer { id: 1, mime_types: texts(&["ab", "c"]) }, 2),
        vec![7, 0, 0, 0, 0, 0, 0, 0, 1, 2, 2, b'a', b'b', 1, b'c']
    );
    assert_eq!(
        encode(&ClipboardMessage::Offer { id: 1, mime_types: texts(&["text/html", "text/plain"]) }, 1),
        [&[3, 0, 0, 0, 0, 0, 0, 0, 1, 0, 10][..], b"text/plain"].concat()
    );
    assert_eq!(
        encode(&ClipboardMessage::Request { id: 2, mime_types: texts(&["x", "text/plain"]) }, 1),
        vec![4, 0, 0, 0, 0, 0, 0, 0, 2]
    );
    assert_eq!(
        encode(&ClipboardMessage::Request { id: 2, mime_types: texts(&["x", "y"]) }, 2),
        vec![8, 0, 0, 0, 0, 0, 0, 0, 2, 1, b'x']
    );
    assert_eq!(
        encode(&ClipboardMessage::Request { id: 2, mime_types: texts(&["x", "y"]) }, 3),
        vec![10, 0, 0, 0, 0, 0, 0, 0, 2, 2, 1, b'x', 1, b'y']
    );
    assert_eq!(
        encode(&ClipboardMessage::FileChunk { id: 1, file_index: 2, offset: 3, data: vec![4] }, 4),
        vec![13, 0, 0, 0, 0, 0, 0, 0, 1, 0, 0, 0, 2, 0, 0, 0, 0, 0, 0, 0, 3, 0, 0, 0, 1, 4]
    );
}

#[test]
fn old_versions_drop_what_they_cannot_say() {
    for msg in all_messages() {
        let is_file = matches!(
            msg,
            ClipboardMessage::FileOffer { .. }
                | ClipboardMessage::FileRequest { .. }
                | ClipboardMessage::FileChunk { .. }
                | ClipboardMessage::FileComplete { .. }
                | ClipboardMessage::FileChunkAck { .. }
        );
        assert_eq!(encode(&msg, 3).is_empty(), is_file);
    }
    let html = texts(&["text/html"]);
    assert!(encode(&ClipboardMessage::Offer { id: 1, mime_types: html.clone() }, 1).is_empty());
    assert!(encode(&ClipboardMessage::Request { id: 1, mime_types: html }, 1).is_empty());
    assert!(encode(&ClipboardMessage::Request { id: 1, mime_types: vec![] }, 2).is_empty());
    let data = ClipboardMessage::Data { id: 1, mime_type: "text/html".into(), data: vec![1] };
    assert!(encode(&data, 1).is_empty());
}

#[test]
fn long_lists_are_cut() {
    let many = vec!["m".to_string(); 300];
    let back = decode(&encode(&ClipboardMessage::Offer { id: 1, mime_types: many }, 4)).unwrap();
    assert_eq!(back, ClipboardMessage::Offer { id: 1, mime_types: vec!["m".to_string(); 255] });

    let indices: Vec<u32> = (0..10_005).collect();
    let msg = ClipboardMessage::FileRequest { id: 1, file_indices: indices.clone() };
    let back = decode(&encode(&msg, 4)).unwrap();
    assert_eq!(
        back,
        ClipboardMessage::FileRequest { id: 1, file_indices: indices[..10_000].to_vec() }
    );
}

#[test]
fn long_texts_are_cut() {
    let long = "a".repeat(300);
    let msg = ClipboardMessage::Data { id: 1, mime_type: long.clone(), data: vec![] };
    let back = decode(&encode(&msg, 2)).unwrap();
    assert_eq!(
        back,
        ClipboardMessage::Data { id: 1, mime_type: long[..255].to_string(), data: vec![] }
    );
}

#[test]
fn a_character_cut_in_two_is_refused() {
    let long = "é".repeat(200);
    let msg = ClipboardMessage::Data { id: 1, mime_type: long.clone(), data: vec![] };
    match decode(&encode(&msg, 2)) {
        Err(ProtocolError::Utf8(bytes)) => assert_eq!(bytes, long.as_bytes()[..255].to_vec()),
        other => panic!("{other:?}"),
    }
}

#[test]
fn unknown_tags_are_refused() {
    for tag in [0u8, 16, 99, 255] {
        assert_eq!(decode(&[tag, 1, 2, 3]), Err(ProtocolError::InvalidMessageType(tag)));
    }
}

#[test]
fn long_legacy_offers_are_refused() {
    let mut bytes = vec![3];
    bytes.extend_from_slice(&1u64.to_be_bytes());
    bytes.extend_from_slice(&256u16.to_be_bytes());
    bytes.extend_from_slice(&[b'a'; 256]);
    assert_eq!(decode(&bytes), Err(ProtocolError::InvalidMessageType(3)));
}

#[test]
fn long_file_lists_are_refused() {
    for tag in [11u8, 12] {
        let mut bytes = vec![tag];
        bytes.extend_from_slice(&1u64.to_be_bytes());
        bytes.extend_from_slice(&10_001u32.to_be_bytes());
        assert_eq!(decode(&bytes), Err(ProtocolError::InvalidMessageType(tag)));
    }
}

#[test]
fn oversized_chunks_are_refused() {
    let mut bytes = vec![13];
    bytes.extend_from_slice(&[0; 20]);
    bytes.extend_from_slice(&(100u32 * 1024 * 1024 + 1).to_be_bytes());
    assert_eq!(decode(&bytes), Err(ProtocolError::FrameTooLarge(100 * 1024 * 1024 + 1)));
}

#[test]
fn what_is_refused_is_read_up_to_the_fault() {
    let rest_of = |bytes: &[u8]| {
        let mut src = bytes;
        assert!(ClipboardMessage::decode(&mut src).is_err());
        src.to_vec()
    };
    // Behind the tag.
    assert_eq!(rest_of(&[99, 1, 2, 3]), vec![1, 2, 3]);
    // Behind the length of a legacy offer.
    let offer = [&[3, 0, 0, 0, 0, 0, 0, 0, 1, 1, 0][..], b"abc"].concat();
    assert_eq!(rest_of(&offer), b"abc");
    // Behind the count of a file list.
    let files = [&[11, 0, 0, 0, 0, 0, 0, 0, 1, 0, 0, 0x27, 0x11][..], b"abc"].concat();
    assert_eq!(rest_of(&files), b"abc");
    // Behind a text that is not UTF-8.
    let request = [&[8, 0, 0, 0, 0, 0, 0, 0, 1, 2, 0xFF, 0xFF][..], b"abc"].concat();
    assert_eq!(rest_of(&request), b"abc");
    let list = [&[7, 0, 0, 0, 0, 0, 0, 0, 1, 2, 1, b'x', 1, 0xFF][..], b"abc"].concat();
    assert_eq!(rest_of(&list), b"abc");
    // Behind the length of a chunk.
    let mut chunk = vec![13];
    chunk.extend_from_slice(&[0; 20]);
    chunk.extend_from_slice(&u32::MAX.to_be_bytes());
    chunk.extend_from_slice(b"abc");
    assert_eq!(rest_of(&chunk), b"abc");
}

#[test]
fn what_was_read_can_be_passed_on() {
    let mut legacy = vec![3];
    legacy.extend_from_slice(&1u64.to_be_bytes());
    legacy.extend_from_slice(&255u16.to_be_bytes());
    legacy.extend_from_slice(&[b'x'; 255]);
    let msg = decode(&legacy).unwrap();
    assert_eq!(decode(&encode(&msg, 4)).unwrap(), msg);
}

#[test]
fn the_first_version_is_plain_text() {
    let both = texts(&["text/html", "text/plain"]);
    let offer = ClipboardMessage::Offer { id: 1, mime_types: both.clone() };
    let request = ClipboardMessage::Request { id: 1, mime_types: both };
    let plain = texts(&["text/plain"]);
    assert_eq!(
        decode(&encode(&offer, 0)).unwrap(),
        ClipboardMessage::Offer { id: 1, mime_types: plain.clone() }
    );
    assert_eq!(
        decode(&encode(&request, 1)).unwrap(),
        ClipboardMessage::Request { id: 1, mime_types: plain }
    );
}
