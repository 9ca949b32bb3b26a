use lan_mouse::protocol::ClipboardMessage;
use lan_mouse::task::{
    default_supported_mime_types, read_reply, ClipboardItem, ClipboardTask, PortalInfo, TaskAction,
    MAX_CLIPBOARD_ITEM_SIZE,
};

fn portal(eager_fetch: bool) -> PortalInfo {
    PortalInfo { supported_mime_types: default_supported_mime_types(), eager_fetch }
}

fn plain() -> Vec<String> {
    vec!["text/plain".to_string()]
}

fn offer(id: u64) -> ClipboardMessage {
    ClipboardMessage::Offer { id, mime_types: plain() }
}

fn data(id: u64, bytes: Vec<u8>) -> ClipboardMessage {
    ClipboardMessage::Data { id, mime_type: "text/plain".to_string(), data: bytes }
}

fn item(mime_type: &str, bytes: Vec<u8>) -> ClipboardItem {
    ClipboardItem { mime_type: mime_type.to_string(), data: bytes }
}

#[test]
fn test_clipboard_state_machine() {
    let mut task = ClipboardTask::new(77);
    task.session_changed(Some(portal(false)));

    // Test 1: Local clipboard changes -> Offer generated
    match task.handle_owner_changed(Some(plain())) {
        Some(ClipboardMessage::Offer { id, mime_types }) => {
            assert_eq!(id, 77);
            assert_eq!(mime_types, vec!["text/plain".to_string()]);
        }
        _ => panic!("Expected Offer"),
    }

    // Test 2: Remote Offer arrives -> portal selection is registered
    let remote_offer_id = 999;
    let actions = task.handle_incoming_message(offer(remote_offer_id));
    assert_eq!(actions, vec![TaskAction::SetSelection("text/plain".to_string())]);

    // Test 3: Local App requests remote clipboard -> Request sent
    match task.handle_transfer() {
        ClipboardMessage::Request { id, mime_types } => {
            assert_eq!(id, remote_offer_id);
            assert_eq!(mime_types, plain());
        }
        _ => panic!("Expected Request"),
    }

    // Test 4: Data arrives -> selection_write()
    let actions = task.handle_incoming_message(data(remote_offer_id, b"remote_data".to_vec()));
    assert_eq!(
        actions,
        vec![TaskAction::WriteSelection(vec![item("text/plain", b"remote_data".to_vec())])]
    );

    // Test 5: Old Request ID -> Error(NotFound)
    let stale = ClipboardMessage::Request { id: remote_offer_id - 1, mime_types: plain() };
    match task.handle_incoming_message(stale).as_slice() {
        [TaskAction::Send(ClipboardMessage::Error { id, code })] => {
            assert_eq!(*id, remote_offer_id - 1);
            assert_eq!(*code, 404);
        }
        _ => panic!("Expected Error(NotFound)"),
    }

    // Test 6: Without a session nothing is answered
    task.session_changed(None);
    assert!(task.handle_incoming_message(offer(1000)).is_empty());
    assert_eq!(task.handle_owner_changed(Some(plain())), None);
}

#[test]
fn test_eager_fetch() {
    let mut task = ClipboardTask::new(1);
    task.session_changed(Some(portal(true)));

    // Because eager_fetch is true, the task should immediately send a Request
    let actions = task.handle_incoming_message(offer(1));
    match &actions[0] {
        TaskAction::Send(ClipboardMessage::Request { id, mime_types }) => {
            assert_eq!(*id, 1);
            assert_eq!(*mime_types, plain());
        }
        _ => panic!("Expected Request"),
    }
    assert_eq!(actions[1..], [TaskAction::SetSelection("text/plain".to_string())]);
}

#[test]
fn test_failure_isolation_and_stress() {
    let mut task = ClipboardTask::new(500_000_000);
    task.session_changed(Some(portal(false)));
    let current_offer_id = match task.handle_owner_changed(Some(plain())) {
        Some(ClipboardMessage::Offer { id, .. }) => id,
        _ => panic!("Expected Offer"),
    };

    // OS integration failure
    let request = ClipboardMessage::Request { id: current_offer_id, mime_types: plain() };
    let actions = task.handle_incoming_message(request);
    assert_eq!(
        actions,
        vec![TaskAction::ReadSelection {
            id: current_offer_id,
            mime_type: "text/plain".to_string()
        }]
    );
    let failure = Err("Simulated OS integration failure".to_string());
    match read_reply(current_offer_id, "text/plain".to_string(), failure) {
        ClipboardMessage::Error { id, code } => {
            assert_eq!(id, current_offer_id);
            assert_eq!(code, 500);
        }
        _ => panic!("Expected Error 500 for OS failure"),
    }

    // Payload sizes
    let sizes = [
        1024,             // 1 KiB
        100 * 1024,       // 100 KiB
        1024 * 1024,      // 1 MiB
        5 * 1024 * 1024,  // 5 MiB
        10 * 1024 * 1024, // 10 MiB
    ];
    for size in sizes {
        task.handle_incoming_message(offer(size as u64));
        let actions = task.handle_incoming_message(data(size as u64, vec![0u8; size]));
        match actions.as_slice() {
            [TaskAction::WriteSelection(items)] => assert_eq!(items[0].data.len(), size),
            _ => panic!("Expected a write of {size} bytes"),
        }
    }

    // Rapid clipboard changes
    for i in 200..205 {
        task.handle_incoming_message(offer(i));
    }

    // Data for an old offer (203 instead of 204) -> should be discarded
    assert!(task.handle_incoming_message(data(203, vec![0])).is_empty());

    // Reconnect: the very same Offer is sent again
    let sent = task.handle_owner_changed(Some(plain()));
    assert!(matches!(sent, Some(ClipboardMessage::Offer { .. })));
    assert_eq!(task.handle_peer_connected(Some(plain())), sent);
}

#[test]
fn offer_ids_increase() {
    let mut task = ClipboardTask::new(5);
    task.session_changed(Some(portal(false)));
    for expected in 5..8 {
        match task.handle_owner_changed(Some(plain())) {
            Some(ClipboardMessage::Offer { id, .. }) => assert_eq!(id, expected),
            other => panic!("{other:?}"),
        }
    }
}

#[test]
fn a_change_without_content_is_not_offered_but_counts() {
    let mut task = ClipboardTask::new(5);
    task.session_changed(Some(portal(false)));
    assert_eq!(task.handle_owner_changed(Some(vec![])), None);
    assert_eq!(task.handle_owner_changed(None), None);
    assert_eq!(
        task.handle_peer_connected(None),
        Some(ClipboardMessage::Offer { id: 6, mime_types: vec![] })
    );
}

#[test]
fn nothing_is_repeated_before_the_first_offer() {
    let task = ClipboardTask::new(5);
    assert_eq!(task.handle_peer_connected(Some(plain())), None);
    assert_eq!(
        task.handle_transfer(),
        ClipboardMessage::Request { id: 0, mime_types: plain() }
    );
}

#[test]
fn only_supported_types_are_requested_and_each_once() {
    let mut task = ClipboardTask::new(1);
    task.session_changed(Some(portal(true)));
    let names = ["video/mp4", "text/html", "text/plain", "text/html"];
    let mime_types: Vec<String> = names.iter().map(|s| s.to_string()).collect();
    let actions = task.handle_incoming_message(ClipboardMessage::Offer { id: 4, mime_types });
    let wanted = vec!["text/html".to_string(), "text/plain".to_string()];
    assert_eq!(
        actions,
        vec![
            TaskAction::Send(ClipboardMessage::Request { id: 4, mime_types: wanted.clone() }),
            TaskAction::SetSelection("text/html".to_string()),
            TaskAction::SetSelection("text/plain".to_string()),
        ]
    );

    // An offer of nothing usable replaces what was awaited.
    let useless = ClipboardMessage::Offer { id: 5, mime_types: vec!["video/mp4".to_string()] };
    assert!(task.handle_incoming_message(useless).is_empty());
    assert_eq!(
        task.handle_transfer(),
        ClipboardMessage::Request { id: 5, mime_types: plain() }
    );
}

#[test]
fn a_bundle_is_written_when_it_is_complete() {
    let mut task = ClipboardTask::new(1);
    task.session_changed(Some(portal(false)));
    let both = vec!["text/plain".to_string(), "text/html".to_string()];
    task.handle_incoming_message(ClipboardMessage::Offer { id: 4, mime_types: both });
    let part = |mime: &str, byte: u8| ClipboardMessage::Data {
        id: 4,
        mime_type: mime.to_string(),
        data: vec![byte],
    };
    assert!(task.handle_incoming_message(part("text/html", 1)).is_empty());
    // A duplicate and an unrequested type are dropped.
    assert!(task.handle_incoming_message(part("text/html", 2)).is_empty());
    assert!(task.handle_incoming_message(part("image/png", 3)).is_empty());
    assert_eq!(
        task.handle_incoming_message(part("text/plain", 4)),
        vec![TaskAction::WriteSelection(vec![
            item("text/html", vec![1]),
            item("text/plain", vec![4])
        ])]
    );
    // Nothing is awaited any more.
    assert!(task.handle_incoming_message(part("text/plain", 5)).is_empty());
}

#[test]
fn an_oversized_item_ends_the_transfer() {
    let mut task = ClipboardTask::new(1);
    task.session_changed(Some(portal(false)));
    task.handle_incoming_message(offer(4));
    let huge = vec![0; MAX_CLIPBOARD_ITEM_SIZE + 1];
    assert!(task.handle_incoming_message(data(4, huge)).is_empty());
    assert!(task.handle_incoming_message(data(4, vec![1])).is_empty());
}

#[test]
fn an_oversized_bundle_ends_the_transfer() {
    let mut task = ClipboardTask::new(1);
    task.session_changed(Some(portal(false)));
    let all = default_supported_mime_types();
    task.handle_incoming_message(ClipboardMessage::Offer { id: 4, mime_types: all.clone() });
    for mime_type in &all[..3] {
        let msg = ClipboardMessage::Data {
            id: 4,
            mime_type: mime_type.clone(),
            data: vec![0; MAX_CLIPBOARD_ITEM_SIZE],
        };
        assert!(task.handle_incoming_message(msg).is_empty());
    }
    let last =
        ClipboardMessage::Data { id: 4, mime_type: all[3].clone(), data: vec![1] };
    assert!(task.handle_incoming_message(last).is_empty());
    assert_eq!(
        task.handle_transfer(),
        ClipboardMessage::Request { id: 4, mime_types: plain() }
    );
}

#[test]
fn a_peer_error_ends_its_own_transfer_only() {
    let mut task = ClipboardTask::new(1);
    task.session_changed(Some(portal(false)));
    task.handle_incoming_message(offer(4));
    task.handle_incoming_message(ClipboardMessage::Error { id: 3, code: 500 });
    assert_eq!(task.handle_incoming_message(data(4, vec![1])).len(), 1);
    task.handle_incoming_message(offer(5));
    task.handle_incoming_message(ClipboardMessage::Error { id: 5, code: 500 });
    assert!(task.handle_incoming_message(data(5, vec![1])).is_empty());
}

#[test]
fn a_read_selection_is_sent() {
    assert_eq!(
        read_reply(3, "text/html".to_string(), Ok(vec![1, 2])),
        ClipboardMessage::Data { id: 3, mime_type: "text/html".to_string(), data: vec![1, 2] }
    );
}

#[test]
fn a_copy_reaches_the_peer() {
    let mut here = ClipboardTask::new(40);
    here.session_changed(Some(portal(false)));
    let mut there = ClipboardTask::new(900);
    there.session_changed(Some(portal(true)));
    let types = vec!["text/html".to_string(), "text/plain".to_string()];

    let offer = here.handle_owner_changed(Some(types.clone())).unwrap();
    let request = match there.handle_incoming_message(offer).remove(0) {
        TaskAction::Send(msg) => msg,
        other => panic!("{other:?}"),
    };
    let mut pasted = Vec::new();
    for action in here.handle_incoming_message(request) {
        match action {
            TaskAction::ReadSelection { id, mime_type } => {
                let content = format!("as {mime_type}").into_bytes();
                let reply = read_reply(id, mime_type, Ok(content));
                pasted.extend(there.handle_incoming_message(reply));
            }
            other => panic!("{other:?}"),
        }
    }
    assert_eq!(
        pasted,
        vec![TaskAction::WriteSelection(vec![
            item("text/html", b"as text/html".to_vec()),
            item("text/plain", b"as text/plain".to_vec()),
        ])]
    );
}

#[test]
fn a_run_of_data_is_written_once() {
    let mut task = ClipboardTask::new(1);
    task.session_changed(Some(portal(true)));
    let types = ["text/plain", "text/html", "image/png"];
    let mime_types = types.iter().map(|t| t.to_string()).collect();
    task.handle_incoming_message(ClipboardMessage::Offer { id: 5, mime_types });
    let run = [
        (5, "image/png", 1),
        (6, "text/plain", 2),
        (5, "image/jpeg", 3),
        (5, "text/html", 4),
        (5, "image/png", 5),
        (5, "text/plain", 6),
        (5, "text/plain", 7),
        (5, "image/png", 8),
    ];
    let mut actions = Vec::new();
    for (i, (id, mime_type, byte)) in run.into_iter().enumerate() {
        let mime_type = mime_type.to_string();
        let message = ClipboardMessage::Data { id, mime_type, data: vec![byte] };
        let done = task.handle_incoming_message(message);
        assert_eq!(done.is_empty(), i != 5);
        actions.extend(done);
    }
    assert_eq!(
        actions,
        vec![TaskAction::WriteSelection(vec![
            item("image/png", vec![1]),
            item("text/html", vec![4]),
            item("text/plain", vec![6]),
        ])]
    );
}
