use lan_mouse::file_selection::{FileProbe, FileSelection, Verdict, MAX_FILES, MAX_FILE_SIZE};
use lan_mouse::file_sender::{FileSender, SenderAction, SenderEvent, CHUNK_SIZE};
use lan_mouse::file_task::{FileAction, FileChunk, FileEnd, FileTransfers};
use lan_mouse::paths::{safe_name, to_part_path, to_target_path};
use lan_mouse::protocol::{ClipboardMessage, FileMetadata};

/// The SHA-256 digest of `abc`.
const ABC: [u8; 32] = [
    0xba, 0x78, 0x16, 0xbf, 0x8f, 0x01, 0xcf, 0xea, 0x41, 0x41, 0x40, 0xde, 0x5d, 0xae, 0x22, 0x23,
    0xb0, 0x03, 0x61, 0xa3, 0x96, 0x17, 0x7a, 0x9c, 0xb4, 0x10, 0xff, 0x61, 0xf2, 0x00, 0x15, 0xad,
];

/// The SHA-256 digest of nothing.
const EMPTY: [u8; 32] = [
    0xe3, 0xb0, 0xc4, 0x42, 0x98, 0xfc, 0x1c, 0x14, 0x9a, 0xfb, 0xf4, 0xc8, 0x99, 0x6f, 0xb9, 0x24,
    0x27, 0xae, 0x41, 0xe4, 0x64, 0x9b, 0x93, 0x4c, 0xa4, 0x95, 0x99, 0x1b, 0x78, 0x52, 0xb8, 0x55,
];

fn file(size: u64) -> Option<FileProbe> {
    Some(FileProbe { is_file: true, size })
}

fn strings(list: &[&str]) -> Vec<String> {
    list.iter().map(|s| s.to_string()).collect()
}

fn meta(name: &str, size: u64) -> FileMetadata {
    FileMetadata { name: name.to_string(), size }
}

#[test]
fn selection_takes_files_and_skips_the_rest() {
    let mut selection = FileSelection::new();
    assert_eq!(selection.offer("/a/x.txt".into(), file(3)), Verdict::Next);
    assert_eq!(selection.offer("/a/missing".into(), None), Verdict::Next);
    let dir = Some(FileProbe { is_file: false, size: 0 });
    assert_eq!(selection.offer("/a/dir".into(), dir), Verdict::Next);
    assert_eq!(selection.offer("/a/huge".into(), file(MAX_FILE_SIZE + 1)), Verdict::Next);
    assert_eq!(selection.offer("/a/..".into(), file(1)), Verdict::Next);
    let long = format!("/a/{}", "n".repeat(256));
    assert_eq!(selection.offer(long, file(1)), Verdict::Next);
    let fits = format!("/a/{}", "n".repeat(255));
    assert_eq!(selection.offer(fits.clone(), file(1)), Verdict::Next);
    assert!(!selection.is_full());
    let (paths, metadata) = selection.into_parts();
    assert_eq!(paths, vec!["/a/x.txt".to_string(), fits]);
    assert_eq!(metadata, vec![meta("x.txt", 3), meta(&"n".repeat(255), 1)]);
}

#[test]
fn selection_stops_at_the_total() {
    let mut selection = FileSelection::new();
    assert_eq!(selection.offer("/a".into(), file(MAX_FILE_SIZE)), Verdict::Next);
    assert_eq!(selection.offer("/b".into(), file(MAX_FILE_SIZE)), Verdict::Next);
    assert_eq!(selection.offer("/c".into(), file(1)), Verdict::Stop);
    assert_eq!(selection.offer("/d".into(), file(0)), Verdict::Next);
    assert_eq!(selection.into_parts().0, strings(&["/a", "/b", "/d"]));
}

#[test]
fn selection_takes_the_given_name() {
    let mut selection = FileSelection::new();
    selection.consider("p".into(), file(1), Some("q".into()));
    selection.consider("r".into(), file(1), None);
    let (paths, metadata) = selection.into_parts();
    assert_eq!(paths, strings(&["p"]));
    assert_eq!(metadata, vec![meta("q", 1)]);
}

#[test]
fn selection_is_full_at_the_limit() {
    let mut selection = FileSelection::new();
    for i in 0..MAX_FILES {
        assert!(!selection.is_full());
        selection.offer(format!("/d/{i}"), file(1));
    }
    assert!(selection.is_full());
}

#[test]
fn names_are_cut_to_their_last_component() {
    for (name, safe) in [
        ("plain.txt", "plain.txt"),
        ("../../etc/passwd", "passwd"),
        ("/abs/x", "x"),
        ("dir/", "dir"),
        ("..", ""),
        ("a/..", ""),
        ("", ""),
        (".", ""),
        ("/", ""),
        (".hidden", ".hidden"),
        ("a/.", "a"),
        ("a//b//", "b"),
        ("./a/./.", "a"),
        ("a/../", ""),
        ("...", "..."),
    ] {
        assert_eq!(safe_name(&name.to_string()), safe, "{name}");
    }
}

#[test]
fn names_end_behind_the_last_separator() {
    for name in ["C:\\dir\\x", "dir\\x", "C:x", "dir/C:x", "a\\b/x", "a:b\\x"] {
        let safe = safe_name(&name.to_string());
        assert!(safe.ends_with('x') && !safe.contains('/'), "{name}");
        let mut selection = FileSelection::new();
        selection.offer(name.to_string(), file(1));
        let (paths, metadata) = selection.into_parts();
        assert_eq!(paths, strings(&[name]));
        assert!(metadata[0].name.ends_with('x'), "{name}");
    }
    for name in ["\\\\?\\C:\\../../x", "\\\\?\\C:\\foo/bar"] {
        assert!(!safe_name(&name.to_string()).contains('/'), "{name}");
    }
}

#[test]
fn paths_of_received_files() {
    for (name, part) in [
        ("a.txt", "a.part"),
        ("a", "a.part"),
        ("a.tar.gz", "a.tar.part"),
        (".bashrc", ".bashrc.part"),
        ("a.", "a.part"),
    ] {
        let name = name.to_string();
        assert_eq!(to_part_path(12, &name), strings(&["12", part]));
        assert_eq!(to_target_path(12, &name), vec!["12".to_string(), name.clone()]);
        let std_path = std::path::Path::new("12").join(&name).with_extension("part");
        assert_eq!(std_path, std::path::Path::new("12").join(part));
    }
    assert_eq!(to_part_path(12, &"..x".to_string()), strings(&["12", "..part"]));
    let none = String::new();
    assert_eq!(to_part_path(12, &none), strings(&["12.part"]));
    assert_eq!(to_target_path(12, &none), strings(&["12"]));
    let std_path = std::path::Path::new("12").join("").with_extension("part");
    assert_eq!(std_path, std::path::Path::new("12.part"));
}

#[test]
fn the_sender_sends_chunks_and_a_digest() {
    let mut sender = FileSender::new(7, vec![(2, "/x".into()), (5, "/y".into())]);
    assert_eq!(sender.action(), SenderAction::Open("/x".into()));
    assert_eq!(sender.step(SenderEvent::Opened), None);
    assert_eq!(sender.action(), SenderAction::Read);
    assert_eq!(
        sender.step(SenderEvent::Read(b"ab".to_vec())),
        Some(ClipboardMessage::FileChunk {
            id: 7,
            file_index: 2,
            offset: 0,
            data: b"ab".to_vec()
        })
    );
    assert_eq!(sender.action(), SenderAction::AwaitAck);
    assert_eq!(sender.bytes_read(), 2);
    assert_eq!(sender.step(SenderEvent::Acknowledged), None);
    assert_eq!(
        sender.step(SenderEvent::Read(b"c".to_vec())),
        Some(ClipboardMessage::FileChunk { id: 7, file_index: 2, offset: 2, data: b"c".to_vec() })
    );
    assert_eq!(sender.step(SenderEvent::Acknowledged), None);
    assert_eq!(
        sender.step(SenderEvent::Read(vec![])),
        Some(ClipboardMessage::FileComplete { id: 7, file_index: 2, size: 3, sha256: ABC })
    );
    assert_eq!(sender.action(), SenderAction::Open("/y".into()));
    assert_eq!(sender.step(SenderEvent::Opened), None);
    assert_eq!(
        sender.step(SenderEvent::Read(vec![])),
        Some(ClipboardMessage::FileComplete { id: 7, file_index: 5, size: 0, sha256: EMPTY })
    );
    assert_eq!(sender.action(), SenderAction::Finish);
}

#[test]
fn a_full_chunk_is_sent_whole() {
    let mut sender = FileSender::new(7, vec![(0, "/x".into())]);
    sender.step(SenderEvent::Opened);
    let msg = sender.step(SenderEvent::Read(vec![5; CHUNK_SIZE])).unwrap();
    assert_eq!(
        msg,
        ClipboardMessage::FileChunk {
            id: 7,
            file_index: 0,
            offset: 0,
            data: vec![5; 262_144]
        }
    );
    let mut bytes = Vec::new();
    msg.encode(&mut bytes, 4).unwrap();
    let mut src: &[u8] = &bytes;
    assert_eq!(ClipboardMessage::decode(&mut src), Ok(msg));
}

#[test]
fn the_sender_reports_failures() {
    let files = || vec![(0, "/x".to_string()), (1, "/y".to_string())];
    let mut sender = FileSender::new(7, files());
    assert_eq!(
        sender.step(SenderEvent::OpenFailed),
        Some(ClipboardMessage::Error { id: 7, code: 500 })
    );
    assert_eq!(sender.action(), SenderAction::Open("/y".into()));
    sender.step(SenderEvent::Opened);
    assert_eq!(
        sender.step(SenderEvent::ReadFailed),
        Some(ClipboardMessage::Error { id: 7, code: 500 })
    );
    assert_eq!(sender.action(), SenderAction::Finish);

    let mut sender = FileSender::new(7, files());
    sender.step(SenderEvent::Opened);
    sender.step(SenderEvent::Read(vec![1]));
    assert_eq!(
        sender.step(SenderEvent::AckTimedOut),
        Some(ClipboardMessage::Error { id: 7, code: 504 })
    );
    assert_eq!(sender.action(), SenderAction::Finish);

    let mut sender = FileSender::new(7, files());
    sender.step(SenderEvent::Opened);
    sender.step(SenderEvent::Read(vec![1]));
    assert_eq!(sender.step(SenderEvent::Cancelled), None);
    assert_eq!(sender.action(), SenderAction::Finish);

    assert_eq!(FileSender::new(7, vec![]).action(), SenderAction::Finish);
}

fn chunk(id: u64, file_index: u32, offset: u64, data: &[u8]) -> FileChunk {
    FileChunk { id, file_index, offset, data: data.to_vec() }
}

fn chunk_message(c: &FileChunk) -> ClipboardMessage {
    ClipboardMessage::FileChunk {
        id: c.id,
        file_index: c.file_index,
        offset: c.offset,
        data: c.data.clone(),
    }
}

fn receiver(id: u64, names: &[&str]) -> FileTransfers {
    let mut transfers = FileTransfers::new();
    let files: Vec<FileMetadata> = names.iter().map(|n| meta(n, 3)).collect();
    let offer = ClipboardMessage::FileOffer { id, files: files.clone() };
    assert_eq!(
        transfers.handle_incoming_message(offer),
        vec![FileAction::CreateDir { id, files: files.clone() }]
    );
    let wanted: Vec<u32> = (0..names.len() as u32).collect();
    assert_eq!(
        transfers.dir_created(id, files, true),
        vec![FileAction::Send(ClipboardMessage::FileRequest { id, file_indices: wanted })]
    );
    transfers
}

/// Delivers one chunk, where all that is asked of the file system succeeds.
fn deliver(transfers: &mut FileTransfers, c: &FileChunk) -> Vec<FileAction> {
    let mut actions = transfers.handle_incoming_message(chunk_message(c));
    if let [FileAction::OpenPart { chunk, .. }] = actions.as_slice() {
        let chunk = chunk.clone();
        actions = transfers.part_opened(chunk, true);
    }
    if let [FileAction::WritePart { chunk }] = actions.as_slice() {
        let chunk = chunk.clone();
        assert!(transfers.has_room_for(chunk.data.len()));
        actions = transfers.part_written(&chunk, true);
    }
    actions
}

fn ack(c: &FileChunk) -> Vec<FileAction> {
    vec![FileAction::Send(ClipboardMessage::FileChunkAck {
        id: c.id,
        file_index: c.file_index,
        offset: c.offset,
    })]
}

#[test]
fn a_file_is_received() {
    let mut transfers = receiver(9, &["../a.txt", "b"]);
    let first = chunk(9, 0, 0, b"ab");
    assert_eq!(
        transfers.handle_incoming_message(chunk_message(&first)),
        vec![FileAction::OpenPart { path: strings(&["9", "a.part"]), chunk: first.clone() }]
    );
    assert_eq!(
        transfers.part_opened(first.clone(), true),
        vec![FileAction::WritePart { chunk: first.clone() }]
    );
    assert_eq!(transfers.part_written(&first, true), ack(&first));
    let second = chunk(9, 0, 2, b"c");
    assert_eq!(
        transfers.handle_incoming_message(chunk_message(&second)),
        vec![FileAction::WritePart { chunk: second.clone() }]
    );
    assert_eq!(transfers.part_written(&second, true), ack(&second));
    let done = ClipboardMessage::FileComplete { id: 9, file_index: 0, size: 3, sha256: ABC };
    assert_eq!(
        transfers.handle_incoming_message(done.clone()),
        vec![FileAction::Commit {
            part: strings(&["9", "a.part"]),
            target: strings(&["9", "a.txt"])
        }]
    );
    // The file is closed: neither a chunk nor a second announcement matters.
    let third = chunk(9, 0, 3, b"d");
    assert!(transfers.handle_incoming_message(chunk_message(&third)).is_empty());
    assert!(transfers.handle_incoming_message(done).is_empty());

    let other = chunk(9, 1, 0, b"abc");
    assert_eq!(deliver(&mut transfers, &other), ack(&other));
    let done = ClipboardMessage::FileComplete { id: 9, file_index: 1, size: 3, sha256: ABC };
    assert_eq!(
        transfers.handle_incoming_message(done),
        vec![
            FileAction::Commit { part: strings(&["9", "b.part"]), target: strings(&["9", "b"]) },
            FileAction::Publish {
                paths: vec![strings(&["9", "a.txt"]), strings(&["9", "b"])]
            },
        ]
    );
    // The transfer is over.
    assert!(transfers.handle_incoming_message(chunk_message(&other)).is_empty());
}

#[test]
fn a_damaged_file_is_discarded() {
    let mut transfers = receiver(9, &["a", "b"]);
    let c = chunk(9, 0, 0, b"abd");
    deliver(&mut transfers, &c);
    let done = ClipboardMessage::FileComplete { id: 9, file_index: 0, size: 3, sha256: ABC };
    assert_eq!(
        transfers.handle_incoming_message(done),
        vec![FileAction::Discard { part: strings(&["9", "a.part"]) }]
    );
}

#[test]
fn an_incomplete_file_is_not_committed() {
    let mut transfers = receiver(9, &["a"]);
    deliver(&mut transfers, &chunk(9, 0, 0, b"abc"));
    let done = ClipboardMessage::FileComplete { id: 9, file_index: 0, size: 4, sha256: ABC };
    // The transfer ends, and nothing is published.
    assert_eq!(transfers.handle_incoming_message(done), vec![FileAction::Close]);
    let c = chunk(9, 0, 3, b"d");
    assert!(transfers.handle_incoming_message(chunk_message(&c)).is_empty());
}

fn complete(id: u64, file_index: u32) -> ClipboardMessage {
    ClipboardMessage::FileComplete { id, file_index, size: 3, sha256: ABC }
}

fn commit(id: &str, name: &str) -> FileAction {
    let part = format!("{name}.part");
    FileAction::Commit { part: strings(&[id, &part]), target: strings(&[id, name]) }
}

#[test]
fn a_damaged_last_file_publishes_nothing() {
    let mut transfers = receiver(9, &["a", "b"]);
    deliver(&mut transfers, &chunk(9, 0, 0, b"abc"));
    assert_eq!(transfers.handle_incoming_message(complete(9, 0)), vec![commit("9", "a")]);
    deliver(&mut transfers, &chunk(9, 1, 0, b"abd"));
    assert_eq!(
        transfers.handle_incoming_message(complete(9, 1)),
        vec![FileAction::Discard { part: strings(&["9", "b.part"]) }, FileAction::Close]
    );
}

#[test]
fn a_damaged_earlier_file_publishes_nothing() {
    let mut transfers = receiver(9, &["a", "b"]);
    deliver(&mut transfers, &chunk(9, 0, 0, b"abd"));
    transfers.handle_incoming_message(complete(9, 0));
    deliver(&mut transfers, &chunk(9, 1, 0, b"abc"));
    assert_eq!(
        transfers.handle_incoming_message(complete(9, 1)),
        vec![commit("9", "b"), FileAction::Close]
    );
}

#[test]
fn a_missing_file_publishes_nothing() {
    let mut transfers = receiver(9, &["a", "b"]);
    deliver(&mut transfers, &chunk(9, 1, 0, b"abc"));
    assert_eq!(
        transfers.handle_incoming_message(complete(9, 1)),
        vec![commit("9", "b"), FileAction::Close]
    );
}

#[test]
fn a_file_that_is_sent_again_counts() {
    let mut transfers = receiver(9, &["a", "b"]);
    deliver(&mut transfers, &chunk(9, 0, 0, b"abd"));
    transfers.handle_incoming_message(complete(9, 0));
    deliver(&mut transfers, &chunk(9, 1, 0, b"ab"));
    deliver(&mut transfers, &chunk(9, 0, 0, b"abc"));
    assert_eq!(transfers.handle_incoming_message(complete(9, 0)), vec![commit("9", "a")]);
    deliver(&mut transfers, &chunk(9, 1, 0, b"abc"));
    assert_eq!(
        transfers.handle_incoming_message(complete(9, 1)),
        vec![
            commit("9", "b"),
            FileAction::Publish { paths: vec![strings(&["9", "a"]), strings(&["9", "b"])] },
        ]
    );
}

#[test]
fn a_whole_transfer_is_committed_and_published() {
    let names = ["x", "dir/y", "../z"];
    let mut receiver = receiver(4, &names);
    let queue = (0..3u32).map(|i| (i, format!("/{i}"))).collect();
    let mut sender = FileSender::new(4, queue);
    let mut actions = Vec::new();
    while let SenderAction::Open(_) = sender.action() {
        sender.step(SenderEvent::Opened);
        for piece in [b"a".to_vec(), b"bc".to_vec()] {
            match sender.step(SenderEvent::Read(piece)) {
                Some(ClipboardMessage::FileChunk { id, file_index, offset, data }) => {
                    deliver(&mut receiver, &FileChunk { id, file_index, offset, data });
                }
                other => panic!("{other:?}"),
            }
            sender.step(SenderEvent::Acknowledged);
        }
        let done = sender.step(SenderEvent::Read(vec![])).unwrap();
        actions.extend(receiver.handle_incoming_message(done));
    }
    assert_eq!(sender.action(), SenderAction::Finish);
    assert_eq!(
        actions,
        vec![
            commit("4", "x"),
            commit("4", "y"),
            commit("4", "z"),
            FileAction::Publish {
                paths: vec![strings(&["4", "x"]), strings(&["4", "y"]), strings(&["4", "z"])]
            },
        ]
    );
}

#[test]
fn only_the_next_chunk_is_written() {
    let mut transfers = receiver(9, &["a"]);
    deliver(&mut transfers, &chunk(9, 0, 0, b"ab"));
    for c in [chunk(9, 0, 0, b"ab"), chunk(9, 0, 3, b"x"), chunk(8, 0, 2, b"c")] {
        assert!(transfers.handle_incoming_message(chunk_message(&c)).is_empty());
    }
    // A chunk of no listed file goes where the open file ends.
    let c = chunk(9, 77, 2, b"c");
    assert_eq!(
        transfers.handle_incoming_message(chunk_message(&c)),
        vec![FileAction::WritePart { chunk: c }]
    );
}

#[test]
fn failures_of_the_file_system_are_not_acknowledged() {
    let mut transfers = receiver(9, &["a"]);
    let c = chunk(9, 0, 0, b"ab");
    assert!(transfers.part_opened(c.clone(), false).is_empty());
    assert_eq!(transfers.part_opened(c.clone(), true).len(), 1);
    assert!(transfers.part_written(&c, false).is_empty());
    assert_eq!(transfers.part_written(&c, true), ack(&c));
}

#[test]
fn an_offer_without_a_directory_is_forgotten() {
    let mut transfers = FileTransfers::new();
    assert!(transfers.dir_created(9, vec![meta("a", 1)], false).is_empty());
    let c = chunk(9, 0, 0, b"ab");
    assert!(transfers.handle_incoming_message(chunk_message(&c)).is_empty());
}

#[test]
fn an_error_ends_both_directions() {
    let mut transfers = receiver(9, &["a"]);
    let mut selection = FileSelection::new();
    selection.offer("/p/x".into(), file(1));
    transfers.handle_local_clipboard_change(9, selection);
    assert!(transfers
        .handle_incoming_message(ClipboardMessage::Error { id: 8, code: 500 })
        .is_empty());
    assert_eq!(
        transfers.handle_incoming_message(ClipboardMessage::Error { id: 9, code: 500 }),
        vec![FileAction::RemoveDir { id: 9 }, FileAction::StopSending]
    );
    assert!(transfers.peer_connected().is_empty());
}

#[test]
fn an_offer_is_sent_repeated_and_answered() {
    let mut transfers = FileTransfers::new();
    assert!(transfers.handle_local_clipboard_change(1, FileSelection::new()).is_empty());
    let mut selection = FileSelection::new();
    selection.offer("/p/x".into(), file(1));
    selection.offer("/q/y".into(), file(2));
    let offer = FileAction::Send(ClipboardMessage::FileOffer {
        id: 5,
        files: vec![meta("x", 1), meta("y", 2)],
    });
    assert_eq!(transfers.handle_local_clipboard_change(5, selection), vec![offer.clone()]);
    assert_eq!(transfers.peer_connected(), vec![offer]);

    let ack = ClipboardMessage::FileChunkAck { id: 5, file_index: 0, offset: 3 };
    assert!(transfers.handle_incoming_message(ack.clone()).is_empty());
    let request = |id| ClipboardMessage::FileRequest { id, file_indices: vec![1, 9, 0] };
    assert!(transfers.handle_incoming_message(request(4)).is_empty());
    assert_eq!(
        transfers.handle_incoming_message(request(5)),
        vec![FileAction::StartSending {
            id: 5,
            queue: vec![(1, "/q/y".to_string()), (0, "/p/x".to_string())]
        }]
    );
    assert_eq!(
        transfers.handle_incoming_message(ack),
        vec![FileAction::DeliverAck { id: 5, file_index: 0, offset: 3 }]
    );

    let mut selection = FileSelection::new();
    selection.offer("/r/z".into(), file(3));
    assert_eq!(
        transfers.handle_local_clipboard_change(6, selection),
        vec![
            FileAction::StopSending,
            FileAction::Send(ClipboardMessage::FileOffer { id: 6, files: vec![meta("z", 3)] }),
        ]
    );
}

#[test]
fn names_can_be_given_to_an_offer() {
    let mut transfers = FileTransfers::new();
    transfers.accept(3, vec![meta("odd", 1)], strings(&["even"]));
    let c = chunk(3, 0, 0, b"x");
    assert_eq!(
        transfers.handle_incoming_message(chunk_message(&c)),
        vec![FileAction::OpenPart { path: strings(&["3", "even.part"]), chunk: c }]
    );
}

#[test]
fn a_file_travels_from_sender_to_receiver() {
    let content: Vec<u8> = (0..1000u32).map(|i| (i % 251) as u8).collect();
    let mut receiver = receiver(7, &["data.bin"]);
    let mut sender = FileSender::new(7, vec![(0, "/data.bin".into())]);
    sender.step(SenderEvent::Opened);
    for piece in content.chunks(300) {
        match sender.step(SenderEvent::Read(piece.to_vec())) {
            Some(ClipboardMessage::FileChunk { id, file_index, offset, data }) => {
                let c = FileChunk { id, file_index, offset, data };
                assert_eq!(deliver(&mut receiver, &c), ack(&c));
            }
            other => panic!("{other:?}"),
        }
        sender.step(SenderEvent::Acknowledged);
    }
    let done = sender.step(SenderEvent::Read(vec![])).unwrap();
    let actions = receiver.handle_incoming_message(done);
    assert_eq!(
        actions[0],
        FileAction::Commit {
            part: strings(&["7", "data.part"]),
            target: strings(&["7", "data.bin"])
        }
    );
}

/// Announces the end of a file, where all that is asked of the file system
/// succeeds.
fn announce(transfers: &mut FileTransfers, msg: ClipboardMessage) -> Vec<FileAction> {
    let actions = transfers.handle_incoming_message(msg);
    if let [FileAction::CreateEmpty { end, .. }] = actions.as_slice() {
        return transfers.empty_created(end.clone(), true);
    }
    actions
}

fn empty_complete(id: u64, file_index: u32, sha256: [u8; 32]) -> ClipboardMessage {
    ClipboardMessage::FileComplete { id, file_index, size: 0, sha256 }
}

#[test]
fn an_empty_file_is_received() {
    let mut transfers = receiver(7, &["empty"]);
    let mut sender = FileSender::new(7, vec![(0, "/empty".into())]);
    sender.step(SenderEvent::Opened);
    let done = sender.step(SenderEvent::Read(vec![])).unwrap();
    let end = FileEnd { id: 7, file_index: 0, sha256: EMPTY };
    assert_eq!(
        transfers.handle_incoming_message(done),
        vec![FileAction::CreateEmpty { path: strings(&["7", "empty.part"]), end: end.clone() }]
    );
    assert!(transfers.empty_created(end.clone(), false).is_empty());
    assert_eq!(
        transfers.empty_created(end, true),
        vec![
            commit("7", "empty"),
            FileAction::Publish { paths: vec![strings(&["7", "empty"])] },
        ]
    );
}

#[test]
fn empty_files_are_published_with_the_others() {
    for empty in [[true, false, false], [false, true, false], [false, false, true]] {
        let mut transfers = receiver(7, &["a", "b", "c"]);
        let mut actions = Vec::new();
        for (index, is_empty) in empty.into_iter().enumerate() {
            let index = index as u32;
            if is_empty {
                actions.extend(announce(&mut transfers, empty_complete(7, index, EMPTY)));
            } else {
                deliver(&mut transfers, &chunk(7, index, 0, b"abc"));
                actions.extend(announce(&mut transfers, complete(7, index)));
            }
        }
        let paths = vec![strings(&["7", "a"]), strings(&["7", "b"]), strings(&["7", "c"])];
        assert_eq!(
            actions,
            vec![
                commit("7", "a"),
                commit("7", "b"),
                commit("7", "c"),
                FileAction::Publish { paths },
            ]
        );
    }
}

#[test]
fn an_empty_file_needs_the_digest_of_nothing() {
    let mut transfers = receiver(7, &["a", "b"]);
    assert_eq!(
        announce(&mut transfers, empty_complete(7, 0, ABC)),
        vec![FileAction::Discard { part: strings(&["7", "a.part"]) }]
    );
    assert_eq!(
        announce(&mut transfers, empty_complete(7, 1, EMPTY)),
        vec![commit("7", "b"), FileAction::Close]
    );
}

#[test]
fn only_a_missing_file_is_created() {
    let mut transfers = receiver(7, &["a", "b"]);
    deliver(&mut transfers, &chunk(7, 0, 0, b"abc"));
    transfers.handle_incoming_message(complete(7, 0));
    deliver(&mut transfers, &chunk(7, 1, 0, b"ab"));
    // It has arrived, it is not listed, or it belongs to another transfer.
    for msg in [empty_complete(7, 0, EMPTY), empty_complete(7, 2, EMPTY), empty_complete(8, 1, EMPTY)] {
        assert!(transfers.handle_incoming_message(msg).is_empty());
    }
    let end = FileEnd { id: 7, file_index: 0, sha256: EMPTY };
    assert!(transfers.empty_created(end, true).is_empty());
    // It is being received, and some of it is there.
    assert_eq!(
        transfers.handle_incoming_message(empty_complete(7, 1, EMPTY)),
        vec![FileAction::Close]
    );
}
