//! What holds of emulated devices over several events.

use vstd::prelude::*;

use crate::emulation::{preferred_backends, preferred_order, releases, removed_handles};
use crate::emulation::{AfterFailure, Backend, BackendSearch, EmulationHandle, EmulationView};
use crate::emulation::{Event, InputEmulation, KeyboardEvent, Removal};

verus! {

/// The devices after the key events among `events` have happened on one of
/// them.
pub open spec fn replayed(
    devices: EmulationView,
    handle: EmulationHandle,
    events: Seq<KeyboardEvent>,
) -> EmulationView
    decreases events.len(),
{
    if events.len() == 0 {
        devices
    } else {
        let before = replayed(devices, handle, events.drop_last());
        match events.last() {
            KeyboardEvent::Key { time, key, state } => before.after_key(handle, key, state),
            _ => before,
        }
    }
}

/// Whether `event` is the release of a key.
pub open spec fn is_release(event: KeyboardEvent, released: u32) -> bool {
    event matches KeyboardEvent::Key { time, key, state } && key == released && state == 0
}

/// A release lets go of every held key, once and by its own number, and of
/// nothing else; the modifiers are cleared at the end.
pub proof fn law_release_names_every_held_key(
    events: Seq<KeyboardEvent>,
    held: Set<u32>,
) -> (order: Seq<u32>)
    requires
        releases(events, held),
    ensures
        events.len() == order.len() + 1,
        forall|i: int| 0 <= i < order.len() ==> is_release(#[trigger] events[i], order[i]),
        forall|i: int| 0 <= i < order.len() ==> held.contains(#[trigger] order[i]),
        forall|i: int, j: int| 0 <= i < j < order.len() ==> order[i] != order[j],
        forall|key: u32| held.contains(key) ==> order.contains(key),
        events.last() == (KeyboardEvent::Modifiers {
            depressed: 0,
            latched: 0,
            locked: 0,
            group: 0,
        }),
{
    let order = choose|order: Seq<u32>|
        #![trigger order.to_set()]
        {
            &&& order.no_duplicates()
            &&& order.to_set() == held
            &&& events == order.map_values(|k: u32| crate::emulation::release_of(k)).push(
                crate::emulation::no_modifiers(),
            )
        };
    assert forall|i: int| 0 <= i < order.len() implies held.contains(#[trigger] order[i]) by {
        assert(order.to_set().contains(order[i]));
    }
    assert forall|key: u32| held.contains(key) implies order.contains(key) by {
        assert(order.to_set().contains(key));
    }
    order
}

proof fn lemma_replay(
    devices: EmulationView,
    handle: EmulationHandle,
    events: Seq<KeyboardEvent>,
    order: Seq<u32>,
    n: int,
)
    requires
        devices.has(handle),
        0 <= n <= order.len(),
        events.len() == order.len() + 1,
        forall|i: int| 0 <= i < order.len() ==> is_release(#[trigger] events[i], order[i]),
        forall|i: int, j: int| 0 <= i < j < order.len() ==> order[i] != order[j],
    ensures
        replayed(devices, handle, events.take(n)).has(handle),
        forall|key: u32| #[trigger]
            replayed(devices, handle, events.take(n)).held(handle).contains(key)
                <==> devices.held(handle).contains(key) && !order.take(n).contains(key),
        forall|h: EmulationHandle|
            h != handle ==> #[trigger] replayed(devices, handle, events.take(n)).held(h)
                == devices.held(h),
    decreases n,
{
    if n > 0 {
        lemma_replay(devices, handle, events, order, n - 1);
        assert(events.take(n).drop_last() =~= events.take(n - 1));
        assert(events.take(n).last() == events[n - 1]);
        assert(is_release(events[n - 1], order[n - 1]));
        let earlier = order.take(n - 1);
        let now = order.take(n);
        assert forall|key: u32| now.contains(key) <==> earlier.contains(key) || key == order[n
            - 1] by {
            if now.contains(key) {
                let i = choose|i: int| 0 <= i < n && now[i] == key;
                if i < n - 1 {
                    assert(earlier[i] == key);
                }
            }
            if earlier.contains(key) {
                let i = choose|i: int| 0 <= i < earlier.len() && earlier[i] == key;
                assert(now[i] == key);
            }
            assert(now[n - 1] == order[n - 1]);
        }
        let before = replayed(devices, handle, events.take(n - 1));
        assert forall|h: EmulationHandle| h != handle implies #[trigger] replayed(
            devices,
            handle,
            events.take(n),
        ).held(h) == devices.held(h) by {
            assert(before.held(h) == devices.held(h));
        }
    } else {
        assert(events.take(0) =~= seq![]);
        assert(order.take(0) =~= seq![]);
    }
}

/// The events of a release, taken one after the other as events of their
/// device, are all passed on and leave the device with no key held. No other
/// device is touched.
pub proof fn law_release_replays_to_nothing(
    devices: EmulationView,
    handle: EmulationHandle,
    events: Seq<KeyboardEvent>,
)
    requires
        devices.has(handle),
        releases(events, devices.held(handle)),
    ensures
        forall|i: int|
            0 <= i < events.len() ==> match #[trigger] events[i] {
                KeyboardEvent::Key { time, key, state } => replayed(
                    devices,
                    handle,
                    events.take(i),
                ).allows(handle, key, state),
                _ => true,
            },
        forall|key: u32| !(#[trigger] replayed(devices, handle, events).held(handle).contains(key)),
        forall|h: EmulationHandle|
            h != handle ==> #[trigger] replayed(devices, handle, events).held(h) == devices.held(h),
{
    let order = law_release_names_every_held_key(events, devices.held(handle));
    assert forall|i: int| 0 <= i < events.len() implies match #[trigger] events[i] {
        KeyboardEvent::Key { time, key, state } => replayed(
            devices,
            handle,
            events.take(i),
        ).allows(handle, key, state),
        _ => true,
    } by {
        if i < order.len() {
            lemma_replay(devices, handle, events, order, i);
            assert(is_release(events[i], order[i]));
            assert(devices.held(handle).contains(order[i]));
            if order.take(i).contains(order[i]) {
                let j = choose|j: int| 0 <= j < i && order.take(i)[j] == order[i];
                assert(order[j] == order[i]);
            }
        }
    }
    let n = order.len() as int;
    lemma_replay(devices, handle, events, order, n);
    assert(events.drop_last() =~= events.take(n));
    assert(order.take(n) =~= order);
    assert forall|key: u32| !(#[trigger] replayed(devices, handle, events).held(handle).contains(
        key,
    )) by {
        assert(replayed(devices, handle, events.take(n)).held(handle).contains(key)
            <==> devices.held(handle).contains(key) && !order.take(n).contains(key));
    }
}

/// A device that is not there holds nothing: to release it only clears the
/// modifiers.
pub proof fn law_release_of_no_device(
    devices: EmulationView,
    handle: EmulationHandle,
    events: Seq<KeyboardEvent>,
)
    requires
        !devices.pressed.dom().contains(handle),
        releases(events, devices.held(handle)),
    ensures
        events == seq![
            KeyboardEvent::Modifiers { depressed: 0, latched: 0, locked: 0, group: 0 },
        ],
{
    let order = law_release_names_every_held_key(events, devices.held(handle));
    if order.len() > 0 {
        assert(devices.held(handle).contains(order[0]));
    }
    assert(events =~= seq![
        KeyboardEvent::Modifiers { depressed: 0, latched: 0, locked: 0, group: 0 },
    ]);
}

/// A press of a key that is up is passed on and holds it; a release of a key
/// that is down is passed on and lets go of it; all else is kept back. Any
/// state but 0 is a press. Without the device nothing is passed on.
pub proof fn law_presses_and_releases(
    devices: EmulationView,
    handle: EmulationHandle,
    key: u32,
    state: u8,
)
    ensures
        ({
            let exists_now = devices.pressed.dom().contains(handle);
            let down = exists_now && devices.pressed[handle].contains(key);
            let after = devices.after_key(handle, key, state).pressed;
            &&& devices.allows(handle, key, state) <==> exists_now && (if state == 0 {
                down
            } else {
                !down
            })
            &&& after.dom() =~= devices.pressed.dom()
            &&& exists_now ==> (after[handle].contains(key) <==> state != 0)
            &&& forall|k: u32|
                exists_now && k != key ==> (#[trigger] after[handle].contains(k)
                    <==> devices.pressed[handle].contains(k))
            &&& forall|h: EmulationHandle|
                h != handle && devices.pressed.dom().contains(h) ==> #[trigger] after[h]
                    == devices.pressed[h]
        }),
{
}

/// A release empties its own device, keeps it, and touches no other.
pub proof fn law_release_keeps_the_device(devices: EmulationView, handle: EmulationHandle)
    ensures
        ({
            let after = devices.after_release(handle).pressed;
            &&& after.dom() =~= devices.pressed.dom()
            &&& after.dom().contains(handle) ==> forall|k: u32|
                !(#[trigger] after[handle].contains(k))
            &&& forall|h: EmulationHandle|
                h != handle && devices.pressed.dom().contains(h) ==> #[trigger] after[h]
                    == devices.pressed[h]
        }),
{
}

/// Every backend is tried, each once; the dummy, which always works, comes
/// last, and those of Wayland come before that of X11.
pub proof fn law_backends_are_tried_in_order(backend: Backend)
    ensures
        preferred_order().contains(backend),
        preferred_order().no_duplicates(),
        preferred_order().last() == Backend::Dummy,
        preferred_order() == seq![
            Backend::Wlroots,
            Backend::Libei,
            Backend::Xdp,
            Backend::X11,
            Backend::Windows,
            Backend::MacOs,
            Backend::Dummy,
        ],
{
    let order = preferred_order();
    assert(order[0] == Backend::Wlroots && order[1] == Backend::Libei && order[2] == Backend::Xdp);
    assert(order[3] == Backend::X11 && order[4] == Backend::Windows && order[5] == Backend::MacOs);
    assert(order[6] == Backend::Dummy);
}

/// No two backends go by the same name.
pub proof fn law_backend_names_differ(a: Backend, b: Backend)
    requires
        a.spec_name() == b.spec_name(),
    ensures
        a == b,
{
    reveal_strlit("wlroots");
    reveal_strlit("libei");
    reveal_strlit("xdg-desktop-portal");
    reveal_strlit("X11");
    reveal_strlit("windows");
    reveal_strlit("macos");
    reveal_strlit("dummy");
    let x = a.spec_name();
    let y = b.spec_name();
    assert(x.len() == y.len());
    assert(x[0] == y[0] && x[1] == y[1]);
}

/// A key event is passed on only if it changes what is held, and then the
/// device holds that key or not; every other event is passed on and changes
/// nothing.
pub proof fn law_consumed_events<P>(
    devices: &mut InputEmulation,
    event: Event<P>,
    handle: EmulationHandle,
    passed: bool,
)
    requires
        call_ensures(InputEmulation::consume::<P>, (devices, &event, handle), passed),
    ensures
        match event {
            Event::Keyboard(KeyboardEvent::Key { time, key, state }) => {
                let before = old(devices)@.pressed;
                let after = final(devices)@.pressed;
                let there = before.dom().contains(handle);
                &&& after.dom() == before.dom()
                &&& passed <==> there && (before[handle].contains(key) <==> state == 0)
                &&& there ==> (after[handle].contains(key) <==> state != 0)
                &&& forall|k: u32|
                    there && k != key ==> (#[trigger] after[handle].contains(k)
                        <==> before[handle].contains(k))
                &&& forall|h: EmulationHandle|
                    h != handle && before.dom().contains(h) ==> #[trigger] after[h] == before[h]
            },
            _ => passed && final(devices)@ == old(devices)@,
        },
{
    assert(old(devices)@.has(handle) ==> final(devices)@.pressed.dom()
        =~= old(devices)@.pressed.dom());
}

/// A device is added once, with no key held, and disturbs no other.
pub proof fn law_created_device(
    devices: &mut InputEmulation,
    handle: EmulationHandle,
    added: bool,
    other: EmulationHandle,
)
    requires
        call_ensures(InputEmulation::create, (devices, handle), added),
    ensures
        added <==> !old(devices)@.pressed.dom().contains(handle),
        !added ==> final(devices)@ == old(devices)@,
        final(devices)@.pressed.dom().contains(handle),
        added ==> forall|key: u32| !(#[trigger] final(devices)@.pressed[handle].contains(key)),
        other != handle ==> {
            &&& final(devices)@.pressed.dom().contains(other)
                <==> old(devices)@.pressed.dom().contains(other)
            &&& old(devices)@.pressed.dom().contains(other) ==> final(devices)@.pressed[other]
                == old(devices)@.pressed[other]
        },
{
}

/// To release the keys of a device gives one release for every key that it
/// held, by that very key, and clears the modifiers at the end. Replayed as
/// events of the device they are all allowed, and leave it as it is now:
/// holding nothing.
pub proof fn law_released_device(
    devices: &mut InputEmulation,
    handle: EmulationHandle,
    events: Vec<KeyboardEvent>,
) -> (order: Seq<u32>)
    requires
        call_ensures(InputEmulation::release_keys, (devices, handle), events),
        old(devices)@.pressed.dom().contains(handle),
    ensures
        events@.len() == order.len() + 1,
        forall|i: int| 0 <= i < order.len() ==> is_release(#[trigger] events@[i], order[i]),
        forall|i: int, j: int| 0 <= i < j < order.len() ==> order[i] != order[j],
        forall|key: u32|
            old(devices)@.pressed[handle].contains(key) <==> #[trigger] order.contains(key),
        events@.last() == (KeyboardEvent::Modifiers {
            depressed: 0,
            latched: 0,
            locked: 0,
            group: 0,
        }),
        forall|i: int|
            0 <= i < order.len() ==> replayed(old(devices)@, handle, events@.take(i)).allows(
                handle,
                #[trigger] order[i],
                0,
            ),
        forall|key: u32|
            !(#[trigger] replayed(old(devices)@, handle, events@).held(handle).contains(key)),
        final(devices)@.pressed.dom().contains(handle),
        forall|key: u32| !(#[trigger] final(devices)@.pressed[handle].contains(key)),
{
    let held = old(devices)@.held(handle);
    let order = law_release_names_every_held_key(events@, held);
    law_release_replays_to_nothing(old(devices)@, handle, events@);
    assert forall|i: int| 0 <= i < order.len() implies replayed(
        old(devices)@,
        handle,
        events@.take(i),
    ).allows(handle, #[trigger] order[i], 0) by {
        assert(is_release(events@[i], order[i]));
    }
    assert forall|key: u32| old(devices)@.pressed[handle].contains(key) <==> #[trigger]
        order.contains(key) by {
        if order.contains(key) {
            let i = choose|i: int| 0 <= i < order.len() && order[i] == key;
            assert(held.contains(order[i]));
        }
    }
    order
}

/// A device that is removed is gone, its held keys are released first, and the
/// backend forgets it if it was there. No other device is disturbed.
pub proof fn law_destroyed_device(
    devices: &mut InputEmulation,
    handle: EmulationHandle,
    events: Vec<KeyboardEvent>,
    forget: bool,
    other: EmulationHandle,
) -> (order: Seq<u32>)
    requires
        call_ensures(InputEmulation::destroy, (devices, handle), (events, forget)),
    ensures
        forget <==> old(devices)@.pressed.dom().contains(handle),
        !final(devices)@.pressed.dom().contains(handle),
        other != handle ==> {
            &&& final(devices)@.pressed.dom().contains(other)
                <==> old(devices)@.pressed.dom().contains(other)
            &&& old(devices)@.pressed.dom().contains(other) ==> final(devices)@.pressed[other]
                == old(devices)@.pressed[other]
        },
        events@.len() == order.len() + 1,
        forall|i: int| 0 <= i < order.len() ==> is_release(#[trigger] events@[i], order[i]),
        forall|i: int, j: int| 0 <= i < j < order.len() ==> order[i] != order[j],
        forget ==> forall|key: u32|
            old(devices)@.pressed[handle].contains(key) <==> #[trigger] order.contains(key),
        !forget ==> order.len() == 0,
{
    let held = old(devices)@.held(handle);
    let order = law_release_names_every_held_key(events@, held);
    assert forall|key: u32| held.contains(key) <==> #[trigger] order.contains(key) by {
        if order.contains(key) {
            let i = choose|i: int| 0 <= i < order.len() && order[i] == key;
            assert(held.contains(order[i]));
        }
    }
    if !forget && order.len() > 0 {
        assert(held.contains(order[0]));
    }
    order
}

/// In the end every device is removed, once, with its keys released.
pub proof fn law_all_devices_are_removed(
    devices: &mut InputEmulation,
    removals: Vec<Removal>,
    handle: EmulationHandle,
)
    requires
        call_ensures(InputEmulation::terminate, (devices,), removals),
    ensures
        !final(devices)@.pressed.dom().contains(handle),
        old(devices)@.pressed.dom().contains(handle) <==> exists|i: int|
            0 <= i < removals@.len() && (#[trigger] removals@[i]).handle == handle,
        forall|i: int, j: int|
            0 <= i < j < removals@.len() ==> (#[trigger] removals@[i]).handle != (
            #[trigger] removals@[j]).handle,
        forall|i: int, key: u32|
            0 <= i < removals@.len() && #[trigger] old(devices)@.held(
                removals@[i].handle,
            ).contains(key) ==> exists|k: int|
                0 <= k < removals@[i].events@.len() && is_release(
                    #[trigger] removals@[i].events@[k],
                    key,
                ),
{
    let gone = removed_handles(removals@);
    assert(gone.len() == removals@.len());
    assert forall|i: int| 0 <= i < gone.len() implies #[trigger] gone[i]
        == removals@[i].handle by {}
    assert(gone.to_set().contains(handle) <==> gone.contains(handle));
    if gone.contains(handle) {
        let i = choose|i: int| 0 <= i < gone.len() && gone[i] == handle;
        assert(removals@[i].handle == handle);
    }
    if exists|i: int| 0 <= i < removals@.len() && (#[trigger] removals@[i]).handle == handle {
        let i = choose|i: int|
            0 <= i < removals@.len() && (#[trigger] removals@[i]).handle == handle;
        assert(gone[i] == handle);
    }
    assert forall|i: int, j: int| 0 <= i < j < removals@.len() implies (
    #[trigger] removals@[i]).handle != (#[trigger] removals@[j]).handle by {
        assert(gone[i] != gone[j]);
    }
    assert forall|i: int, key: u32|
        0 <= i < removals@.len() && #[trigger] old(devices)@.held(removals@[i].handle).contains(
            key,
        ) implies exists|k: int|
        0 <= k < removals@[i].events@.len() && is_release(
            #[trigger] removals@[i].events@[k],
            key,
        ) by {
        let held = old(devices)@.held(removals@[i].handle);
        let order = law_release_names_every_held_key(removals@[i].events@, held);
        assert(order.contains(key));
        let k = choose|k: int| 0 <= k < order.len() && order[k] == key;
        assert(is_release(removals@[i].events@[k], order[k]));
    }
}

/// A device has pressed keys exactly if it holds one.
pub proof fn law_pressed_keys_are_seen(
    devices: InputEmulation,
    handle: EmulationHandle,
    some: bool,
)
    requires
        call_ensures(InputEmulation::has_pressed_keys, (&devices, handle), some),
    ensures
        some <==> devices@.pressed.dom().contains(handle) && exists|key: u32| #[trigger]
            devices@.pressed[handle].contains(key),
{
    let held = devices@.held(handle);
    if some {
        assert(exists|key: u32| held.contains(key)) by {
            if forall|key: u32| !held.contains(key) {
                assert(held =~= Set::empty());
            }
        }
        let key = choose|key: u32| held.contains(key);
        assert(devices@.pressed[handle].contains(key));
    }
}

/// A backend that was asked for is the only one to be tried; otherwise all
/// that are available are, in their order.
pub proof fn law_search_begins(
    backend: Option<Backend>,
    available: Vec<Backend>,
    search: BackendSearch,
    current: Option<Backend>,
)
    requires
        call_ensures(BackendSearch::new, (backend, available), search),
        call_ensures(BackendSearch::current, (&search,), current),
    ensures
        backend is Some ==> current == backend && search@.left.len() == 1,
        backend is None ==> search@.left == available@,
        backend is None && available@.len() > 0 ==> current == Some(available@[0]),
        backend is None && available@.len() == 0 ==> current is None,
        search@.requested <==> backend is Some,
{
}

/// After a failure the next backend is tried, unless the user has cancelled or
/// had asked for the one that failed.
pub proof fn law_search_goes_on(search: &mut BackendSearch, cancelled: bool, r: AfterFailure)
    requires
        call_ensures(BackendSearch::failed, (search, cancelled), r),
        old(search)@.left.len() > 0,
    ensures
        r == AfterFailure::Report <==> cancelled || old(search)@.requested,
        r == AfterFailure::Report ==> final(search)@ == old(search)@,
        r == AfterFailure::TryNext ==> {
            &&& final(search)@.requested == old(search)@.requested
            &&& final(search)@.left.len() == old(search)@.left.len() - 1
            &&& forall|i: int|
                0 <= i < final(search)@.left.len() ==> #[trigger] final(search)@.left[i]
                    == old(search)@.left[i + 1]
        },
{
}

/// Every backend goes by its own name, and all are listed in their order. At
/// the start there is no device.
pub proof fn law_names_of_backends(
    backend: Backend,
    name: String,
    all: Vec<Backend>,
    devices: InputEmulation,
    handle: EmulationHandle,
)
    requires
        call_ensures(Backend::name, (&backend,), name),
        call_ensures(preferred_backends, (), all),
        call_ensures(InputEmulation::new, (), devices),
    ensures
        name@ == "wlroots"@ <==> backend == Backend::Wlroots,
        name@ == "libei"@ <==> backend == Backend::Libei,
        name@ == "xdg-desktop-portal"@ <==> backend == Backend::Xdp,
        name@ == "X11"@ <==> backend == Backend::X11,
        name@ == "windows"@ <==> backend == Backend::Windows,
        name@ == "macos"@ <==> backend == Backend::MacOs,
        name@ == "dummy"@ <==> backend == Backend::Dummy,
        all@.len() == 7,
        all@.contains(backend),
        all@.last() == Backend::Dummy,
        all@.no_duplicates(),
        !devices@.pressed.dom().contains(handle),
{
    law_backends_are_tried_in_order(backend);
    assert(Backend::Wlroots.spec_name() == "wlroots"@);
    assert(Backend::Libei.spec_name() == "libei"@);
    assert(Backend::Xdp.spec_name() == "xdg-desktop-portal"@);
    assert(Backend::X11.spec_name() == "X11"@);
    assert(Backend::Windows.spec_name() == "windows"@);
    assert(Backend::MacOs.spec_name() == "macos"@);
    assert(Backend::Dummy.spec_name() == "dummy"@);
    if name@ == "wlroots"@ {
        law_backend_names_differ(backend, Backend::Wlroots);
    }
    if name@ == "libei"@ {
        law_backend_names_differ(backend, Backend::Libei);
    }
    if name@ == "xdg-desktop-portal"@ {
        law_backend_names_differ(backend, Backend::Xdp);
    }
    if name@ == "X11"@ {
        law_backend_names_differ(backend, Backend::X11);
    }
    if name@ == "windows"@ {
        law_backend_names_differ(backend, Backend::Windows);
    }
    if name@ == "macos"@ {
        law_backend_names_differ(backend, Backend::MacOs);
    }
    if name@ == "dummy"@ {
        law_backend_names_differ(backend, Backend::Dummy);
    }
}

} // verus!
