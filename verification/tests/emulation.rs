use lan_mouse::emulation::{
    preferred_backends, AfterFailure, Backend, BackendSearch, Event, InputEmulation, KeyboardEvent,
};

fn key(key: u32, state: u8) -> Event<()> {
    Event::Keyboard(KeyboardEvent::Key { time: 17, key, state })
}

fn released(events: &[KeyboardEvent]) -> Vec<u32> {
    let (last, keys) = events.split_last().unwrap();
    assert_eq!(
        *last,
        KeyboardEvent::Modifiers { depressed: 0, latched: 0, locked: 0, group: 0 }
    );
    let mut out: Vec<u32> = keys
        .iter()
        .map(|e| match e {
            KeyboardEvent::Key { time: 0, key, state: 0 } => *key,
            other => panic!("{other:?}"),
        })
        .collect();
    out.sort();
    out
}

#[test]
fn no_key_is_pressed_or_released_twice() {
    let mut emulation = InputEmulation::new();
    assert!(emulation.create(1));
    assert!(!emulation.consume(&key(30, 0), 1));
    assert!(emulation.consume(&key(30, 1), 1));
    assert!(!emulation.consume(&key(30, 1), 1));
    assert!(!emulation.consume(&key(30, 2), 1));
    assert!(emulation.has_pressed_keys(1));
    assert!(emulation.consume(&key(30, 0), 1));
    assert!(!emulation.consume(&key(30, 0), 1));
    assert!(!emulation.has_pressed_keys(1));
}

#[test]
fn devices_are_independent() {
    let mut emulation = InputEmulation::new();
    emulation.create(1);
    emulation.create(2);
    assert!(emulation.consume(&key(30, 1), 1));
    assert!(emulation.consume(&key(30, 1), 2));
    assert!(emulation.consume(&key(31, 1), 1));
    assert!(emulation.consume(&key(30, 0), 2));
    assert!(emulation.has_pressed_keys(1));
    assert!(!emulation.has_pressed_keys(2));
}

#[test]
fn unknown_devices_have_no_keys() {
    let mut emulation = InputEmulation::new();
    assert!(!emulation.consume(&key(30, 1), 9));
    assert!(!emulation.has_pressed_keys(9));
    assert_eq!(released(&emulation.release_keys(9)), Vec::<u32>::new());
    let (events, existed) = emulation.destroy(9);
    assert_eq!(released(&events), Vec::<u32>::new());
    assert!(!existed);
}

#[test]
fn other_events_are_passed_on() {
    let mut emulation = InputEmulation::new();
    assert!(emulation.consume(&Event::Pointer("moved"), 9));
    let modifiers: Event<()> = Event::Keyboard(KeyboardEvent::Modifiers {
        depressed: 1,
        latched: 0,
        locked: 0,
        group: 0,
    });
    assert!(emulation.consume(&modifiers, 9));
}

#[test]
fn devices_are_created_once() {
    let mut emulation = InputEmulation::new();
    assert!(emulation.create(1));
    emulation.consume(&key(30, 1), 1);
    assert!(!emulation.create(1));
    assert!(emulation.has_pressed_keys(1));
    let (events, existed) = emulation.destroy(1);
    assert_eq!(released(&events), vec![30]);
    assert!(existed);
    assert!(emulation.create(1));
    assert!(!emulation.has_pressed_keys(1));
}

#[test]
fn held_keys_are_released() {
    let mut emulation = InputEmulation::new();
    emulation.create(1);
    for k in [40, 10, 30] {
        emulation.consume(&key(k, 1), 1);
    }
    assert_eq!(released(&emulation.release_keys(1)), vec![10, 30, 40]);
    assert!(!emulation.has_pressed_keys(1));
    assert!(emulation.consume(&key(10, 1), 1));
}

#[test]
fn all_devices_are_removed_at_the_end() {
    let mut emulation = InputEmulation::new();
    for h in [3, 1, 2] {
        emulation.create(h);
        emulation.consume(&key(h as u32, 1), h);
    }
    let mut removals = emulation.terminate();
    removals.sort_by_key(|r| r.handle);
    let summary: Vec<(u64, Vec<u32>)> =
        removals.iter().map(|r| (r.handle, released(&r.events))).collect();
    assert_eq!(summary, vec![(1, vec![1]), (2, vec![2]), (3, vec![3])]);
    assert!(emulation.terminate().is_empty());
    assert!(emulation.create(1));
}

#[test]
fn backends_are_tried_in_order() {
    let all = preferred_backends();
    let names: Vec<String> = all.iter().map(|b| b.name()).collect();
    assert_eq!(
        names,
        ["wlroots", "libei", "xdg-desktop-portal", "X11", "windows", "macos", "dummy"]
    );
    let mut search = BackendSearch::new(None, all.clone());
    for backend in all {
        assert_eq!(search.current(), Some(backend));
        assert_eq!(search.failed(false), AfterFailure::TryNext);
    }
    assert_eq!(search.current(), None);
}

#[test]
fn some_failures_are_reported() {
    let mut search = BackendSearch::new(None, vec![Backend::X11, Backend::Dummy]);
    assert_eq!(search.failed(true), AfterFailure::Report);
    assert_eq!(search.current(), Some(Backend::X11));
    let mut search = BackendSearch::new(Some(Backend::Libei), vec![Backend::X11]);
    assert_eq!(search.current(), Some(Backend::Libei));
    assert_eq!(search.failed(false), AfterFailure::Report);
}
