//! Emulated input devices: which backend is used, and which keys are held.
//!
//! [`InputEmulation`] keeps track of the keys that each device holds, so that
//! no key is pressed or released twice and none stays held when its device
//! goes away.

use std::collections::{HashMap, HashSet};
use vstd::prelude::*;

verus! {

broadcast use vstd::std_specs::hash::group_hash_axioms;

/// The identifier of an emulated device.
pub type EmulationHandle = u64;

/// How input is emulated.
#[derive(Clone, Copy, Debug, Eq, PartialEq, Structural)]
pub enum Backend {
    Wlroots,
    Libei,
    Xdp,
    X11,
    Windows,
    MacOs,
    Dummy,
}

impl Backend {
    /// The name of the backend.
    pub open spec fn spec_name(self) -> Seq<char> {
        match self {
            Backend::Wlroots => "wlroots"@,
            Backend::Libei => "libei"@,
            Backend::Xdp => "xdg-desktop-portal"@,
            Backend::X11 => "X11"@,
            Backend::Windows => "windows"@,
            Backend::MacOs => "macos"@,
            Backend::Dummy => "dummy"@,
        }
    }

    /// The name of the backend.
    pub fn name(&self) -> (r: String)
        ensures
            r@ == self.spec_name(),
    {
        match self {
            Backend::Wlroots => "wlroots".to_string(),
            Backend::Libei => "libei".to_string(),
            Backend::Xdp => "xdg-desktop-portal".to_string(),
            Backend::X11 => "X11".to_string(),
            Backend::Windows => "windows".to_string(),
            Backend::MacOs => "macos".to_string(),
            Backend::Dummy => "dummy".to_string(),
        }
    }
}

/// All backends, the preferred ones first.
pub open spec fn preferred_order() -> Seq<Backend> {
    seq![
        Backend::Wlroots,
        Backend::Libei,
        Backend::Xdp,
        Backend::X11,
        Backend::Windows,
        Backend::MacOs,
        Backend::Dummy,
    ]
}

/// All backends, the preferred ones first.
pub fn preferred_backends() -> (r: Vec<Backend>)
    ensures
        r@ == preferred_order(),
{
    vec![
        Backend::Wlroots,
        Backend::Libei,
        Backend::Xdp,
        Backend::X11,
        Backend::Windows,
        Backend::MacOs,
        Backend::Dummy,
    ]
}

/// What to do after a backend has failed.
#[derive(Clone, Copy, Debug, Eq, PartialEq, Structural)]
pub enum AfterFailure {
    /// Try the next backend.
    TryNext,
    /// Report this failure.
    Report,
}

/// The search for a backend that works.
#[derive(Debug)]
pub struct BackendSearch {
    candidates: Vec<Backend>,
    position: usize,
    requested: bool,
}

/// What a [`BackendSearch`] still has to try.
#[verifier::ext_equal]
pub struct SearchView {
    /// The backends that are left, the next one first.
    pub left: Seq<Backend>,
    /// Whether the backend was asked for by name.
    pub requested: bool,
}

impl View for BackendSearch {
    type V = SearchView;

    closed spec fn view(&self) -> SearchView {
        SearchView {
            left: self.candidates@.skip(self.position as int),
            requested: self.requested,
        }
    }
}

impl BackendSearch {
    /// The search has not gone past its last candidate.
    pub closed spec fn well_formed(&self) -> bool {
        self.position <= self.candidates@.len()
    }

    /// Searches among `available`, unless one backend is asked for.
    pub fn new(backend: Option<Backend>, available: Vec<Backend>) -> (r: BackendSearch)
        ensures
            r.well_formed(),
            r@ == match backend {
                Some(b) => SearchView { left: seq![b], requested: true },
                None => SearchView { left: available@, requested: false },
            },
    {
        let (candidates, requested) = match backend {
            Some(b) => (vec![b], true),
            None => (available, false),
        };
        let r = BackendSearch { candidates, position: 0, requested };
        assert(r@.left =~= candidates@);
        assert(backend matches Some(b) ==> r@.left =~= seq![b]);
        r
    }

    /// The backend to try now; none, if no backend is available.
    pub fn current(&self) -> (r: Option<Backend>)
        requires
            self.well_formed(),
        ensures
            r == if self@.left.len() > 0 {
                Some(self@.left[0])
            } else {
                None
            },
    {
        if self.position < self.candidates.len() {
            Some(self.candidates[self.position])
        } else {
            None
        }
    }

    /// Takes up that the current backend has failed. The failure is reported
    /// if the user caused it or asked for this very backend.
    pub fn failed(&mut self, cancelled_by_user: bool) -> (r: AfterFailure)
        requires
            old(self).well_formed(),
            old(self)@.left.len() > 0,
        ensures
            final(self).well_formed(),
            if old(self)@.requested || cancelled_by_user {
                r is Report && final(self)@ == old(self)@
            } else {
                r is TryNext && final(self)@ == (SearchView {
                    left: old(self)@.left.drop_first(),
                    ..old(self)@
                })
            },
    {
        if self.requested || cancelled_by_user {
            return AfterFailure::Report;
        }
        let count: usize = self.candidates.len();
        assert(self.position < count);
        self.position = self.position + 1;
        assert(self@.left =~= old(self)@.left.drop_first());
        AfterFailure::TryNext
    }
}

/// Something that happened on a keyboard.
#[derive(Clone, Copy, Debug, Eq, PartialEq, Structural)]
pub enum KeyboardEvent {
    /// A key was pressed (`state` 1) or released (`state` 0).
    Key { time: u32, key: u32, state: u8 },
    /// The modifiers changed.
    Modifiers { depressed: u32, latched: u32, locked: u32, group: u32 },
}

/// Something that happened on an input device. What happens on a pointer is
/// only passed on.
#[derive(Clone, Copy, Debug, Eq, PartialEq)]
pub enum Event<P> {
    Pointer(P),
    Keyboard(KeyboardEvent),
}

/// The release of `key`.
pub open spec fn release_of(key: u32) -> KeyboardEvent {
    KeyboardEvent::Key { time: 0, key, state: 0 }
}

/// The release of all modifiers.
pub open spec fn no_modifiers() -> KeyboardEvent {
    KeyboardEvent::Modifiers { depressed: 0, latched: 0, locked: 0, group: 0 }
}

/// Whether `events` release each of `keys` once, in some order, and then all
/// modifiers.
pub open spec fn releases(events: Seq<KeyboardEvent>, keys: Set<u32>) -> bool {
    exists|order: Seq<u32>|
        #![trigger order.to_set()]
        {
            &&& order.no_duplicates()
            &&& order.to_set() == keys
            &&& events == order.map_values(|k: u32| release_of(k)).push(no_modifiers())
        }
}

/// What is released when a device goes away.
#[derive(Clone, Debug)]
pub struct Removal {
    pub handle: EmulationHandle,
    pub events: Vec<KeyboardEvent>,
}

/// The devices that have gone away.
pub open spec fn removed_handles(removals: Seq<Removal>) -> Seq<EmulationHandle> {
    removals.map_values(|r: Removal| r.handle)
}

/// The emulated devices and the keys that they hold.
#[derive(Debug)]
pub struct InputEmulation {
    handles: HashSet<EmulationHandle>,
    pressed_keys: HashMap<EmulationHandle, HashSet<u32>>,
}

/// The emulated devices, each with the keys that it holds.
#[verifier::ext_equal]
pub struct EmulationView {
    pub pressed: Map<EmulationHandle, Set<u32>>,
}

impl View for InputEmulation {
    type V = EmulationView;

    closed spec fn view(&self) -> EmulationView {
        EmulationView { pressed: self.pressed_keys@.map_values(|keys: HashSet<u32>| keys@) }
    }
}

impl EmulationView {
    /// Whether there is such a device.
    pub open spec fn has(self, handle: EmulationHandle) -> bool {
        self.pressed.dom().contains(handle)
    }

    /// The keys that a device holds.
    pub open spec fn held(self, handle: EmulationHandle) -> Set<u32> {
        if self.has(handle) {
            self.pressed[handle]
        } else {
            Set::empty()
        }
    }

    /// Whether a key event is passed on: only a key that is not held can be
    /// pressed, only one that is held can be released, and only on a device
    /// that exists.
    pub open spec fn allows(self, handle: EmulationHandle, key: u32, state: u8) -> bool {
        self.has(handle) && (state == 0 <==> self.held(handle).contains(key))
    }

    /// The devices after a key event.
    pub open spec fn after_key(self, handle: EmulationHandle, key: u32, state: u8)
        -> EmulationView {
        if self.has(handle) {
            EmulationView {
                pressed: self.pressed.insert(
                    handle,
                    if state == 0 {
                        self.held(handle).remove(key)
                    } else {
                        self.held(handle).insert(key)
                    },
                ),
            }
        } else {
            self
        }
    }

    /// The devices after all keys of one were released.
    pub open spec fn after_release(self, handle: EmulationHandle) -> EmulationView {
        if self.has(handle) {
            EmulationView { pressed: self.pressed.insert(handle, Set::empty()) }
        } else {
            self
        }
    }
}

impl InputEmulation {
    /// Every device has a set of held keys, and only devices have one.
    pub closed spec fn well_formed(&self) -> bool {
        self.handles@ == self.pressed_keys@.dom()
    }

    /// No devices.
    pub fn new() -> (r: InputEmulation)
        ensures
            r.well_formed(),
            r@ == (EmulationView { pressed: Map::empty() }),
    {
        let r = InputEmulation { handles: HashSet::new(), pressed_keys: HashMap::new() };
        assert(r@.pressed =~= Map::empty());
        assert(r.handles@ =~= r.pressed_keys@.dom());
        r
    }

    /// Takes up an event for the device `handle` and says whether to pass it
    /// on to the backend.
    pub fn consume<P>(&mut self, event: &Event<P>, handle: EmulationHandle) -> (r: bool)
        requires
            old(self).well_formed(),
        ensures
            final(self).well_formed(),
            match event {
                Event::Keyboard(KeyboardEvent::Key { time, key, state }) => {
                    &&& r == old(self)@.allows(handle, *key, *state)
                    &&& final(self)@ == old(self)@.after_key(handle, *key, *state)
                },
                _ => r && final(self)@ == old(self)@,
            },
    {
        match event {
            Event::Keyboard(KeyboardEvent::Key { time, key, state }) => self.update_pressed_keys(
                handle,
                *key,
                *state,
            ),
            _ => true,
        }
    }

    /// Adds the device `handle`; false, if there is one already.
    pub fn create(&mut self, handle: EmulationHandle) -> (r: bool)
        requires
            old(self).well_formed(),
        ensures
            final(self).well_formed(),
            r == !old(self)@.has(handle),
            final(self)@ == if r {
                EmulationView { pressed: old(self)@.pressed.insert(handle, Set::empty()) }
            } else {
                old(self)@
            },
    {
        if self.handles.insert(handle) {
            let keys: HashSet<u32> = HashSet::new();
            self.pressed_keys.insert(handle, keys);
            assert(self.handles@ =~= self.pressed_keys@.dom());
            assert(self@.pressed =~= old(self)@.pressed.insert(handle, Set::empty()));
            true
        } else {
            assert(self.handles@ =~= self.pressed_keys@.dom());
            false
        }
    }

    /// Releases all keys and modifiers of the device `handle`; the result is
    /// to be passed on to the backend.
    pub fn release_keys(&mut self, handle: EmulationHandle) -> (r: Vec<KeyboardEvent>)
        requires
            old(self).well_formed(),
        ensures
            final(self).well_formed(),
            final(self)@ == old(self)@.after_release(handle),
            releases(r@, old(self)@.held(handle)),
    {
        let mut events: Vec<KeyboardEvent> = Vec::new();
        let ghost mut order: Seq<u32> = seq![];
        match self.pressed_keys.remove(&handle) {
            Some(keys) => {
                let listed = list_keys(&keys);
                let mut i: usize = 0;
                while i < listed.len()
                    invariant
                        i <= listed.len(),
                        events@ == listed@.take(i as int).map_values(|k: u32| release_of(k)),
                    decreases listed.len() - i,
                {
                    events.push(KeyboardEvent::Key { time: 0, key: listed[i], state: 0 });
                    i = i + 1;
                    assert(events@ =~= listed@.take(i as int).map_values(|k: u32| release_of(k)));
                }
                assert(listed@.take(i as int) =~= listed@);
                proof {
                    order = listed@;
                }
                let none: HashSet<u32> = HashSet::new();
                self.pressed_keys.insert(handle, none);
                assert(self.handles@ =~= self.pressed_keys@.dom());
                assert(self@.pressed =~= old(self)@.after_release(handle).pressed);
            },
            None => {
                assert(events@ =~= order.map_values(|k: u32| release_of(k)));
                assert(order.to_set() =~= Set::empty());
                assert(self.handles@ =~= self.pressed_keys@.dom());
                assert(self@.pressed =~= old(self)@.pressed);
            },
        }
        let ghost before = events@;
        events.push(
            KeyboardEvent::Modifiers { depressed: 0, latched: 0, locked: 0, group: 0 },
        );
        assert(order.to_set() == old(self)@.held(handle));
        assert(events@ == order.map_values(|k: u32| release_of(k)).push(no_modifiers()));
        events
    }

    /// Removes the device `handle`. Its keys are released first; the second
    /// result says whether the backend is to forget the device.
    pub fn destroy(&mut self, handle: EmulationHandle) -> (r: (Vec<KeyboardEvent>, bool))
        requires
            old(self).well_formed(),
        ensures
            final(self).well_formed(),
            final(self)@ == (EmulationView { pressed: old(self)@.pressed.remove(handle) }),
            releases(r.0@, old(self)@.held(handle)),
            r.1 == old(self)@.has(handle),
    {
        let events = self.release_keys(handle);
        assert(self@.pressed.dom() =~= self.handles@);
        assert(self@.pressed.dom() =~= old(self)@.pressed.dom());
        let ghost released = self@;
        let existed = self.handles.remove(&handle);
        if existed {
            self.pressed_keys.remove(&handle);
        }
        assert(self.handles@ =~= self.pressed_keys@.dom());
        assert(self@.pressed =~= released.pressed.remove(handle));
        assert(self@.pressed =~= old(self)@.pressed.remove(handle));
        (events, existed)
    }

    /// Removes all devices, in some order, as [`InputEmulation::destroy`]
    /// does.
    pub fn terminate(&mut self) -> (r: Vec<Removal>)
        requires
            old(self).well_formed(),
        ensures
            final(self).well_formed(),
            final(self)@ == (EmulationView { pressed: Map::empty() }),
            removed_handles(r@).no_duplicates(),
            removed_handles(r@).to_set() == old(self)@.pressed.dom(),
            forall|i: int|
                0 <= i < r@.len() ==> releases(
                    (#[trigger] r@[i]).events@,
                    old(self)@.held(r@[i].handle),
                ),
    {
        let order = list_handles(&self.handles);
        assert(self@.pressed.dom() =~= self.handles@);
        let mut removals: Vec<Removal> = Vec::new();
        let mut i: usize = 0;
        while i < order.len()
            invariant
                i <= order.len(),
                self.well_formed(),
                order@.no_duplicates(),
                order@.to_set() == old(self)@.pressed.dom(),
                forall|h: EmulationHandle| #[trigger]
                    self@.has(h) <==> old(self)@.has(h) && !order@.take(i as int).contains(h),
                forall|h: EmulationHandle|
                    self@.has(h) ==> #[trigger] self@.pressed[h] == old(self)@.pressed[h],
                removals@.len() == i,
                forall|j: int|
                    0 <= j < i ==> (#[trigger] removals@[j]).handle == order@[j] && releases(
                        removals@[j].events@,
                        old(self)@.held(order@[j]),
                    ),
            decreases order.len() - i,
        {
            let handle: u64 = order[i];
            let ghost before = self@;
            assert(order@.to_set().contains(order@[i as int]));
            assert(!order@.take(i as int).contains(handle)) by {
                if order@.take(i as int).contains(handle) {
                    let j = choose|j: int| 0 <= j < i && order@.take(i as int)[j] == handle;
                    assert(order@[j] == order@[i as int]);
                }
            }
            assert(before.has(handle));
            let (events, _) = self.destroy(handle);
            removals.push(Removal { handle, events });
            assert forall|h: EmulationHandle| #[trigger] self@.has(h) <==> old(self)@.has(h)
                && !order@.take(i + 1).contains(h) by {
                let next = order@.take(i + 1);
                assert(next =~= order@.take(i as int).push(handle));
                assert(before.has(h) <==> old(self)@.has(h) && !order@.take(i as int).contains(h));
                if order@.take(i as int).contains(h) {
                    let j = choose|j: int| 0 <= j < i && order@.take(i as int)[j] == h;
                    assert(next[j] == h);
                }
                assert(next[i as int] == handle);
            }
            i = i + 1;
        }
        proof {
            assert(order@.take(i as int) =~= order@);
            assert forall|h: EmulationHandle| !(#[trigger] self@.pressed.dom().contains(h)) by {
                assert(!self@.has(h)) by {
                    if old(self)@.has(h) {
                        assert(order@.to_set().contains(h));
                    }
                }
            }
            assert(self@.pressed =~= Map::empty());
            assert(removed_handles(removals@) =~= order@);
        }
        removals
    }

    /// Whether the device `handle` holds any key.
    pub fn has_pressed_keys(&self, handle: EmulationHandle) -> (r: bool)
        ensures
            r == !self@.held(handle).is_empty(),
    {
        match self.pressed_keys.get(&handle) {
            Some(keys) => !keys.is_empty(),
            None => false,
        }
    }

    /// Takes up a key event for the device `handle` and says whether it is to
    /// be processed.
    fn update_pressed_keys(&mut self, handle: EmulationHandle, key: u32, state: u8) -> (r: bool)
        requires
            old(self).well_formed(),
        ensures
            final(self).well_formed(),
            r == old(self)@.allows(handle, key, state),
            final(self)@ == old(self)@.after_key(handle, key, state),
    {
        match self.pressed_keys.remove(&handle) {
            Some(mut keys) => {
                let changed = if state == 0 {
                    keys.remove(&key)
                } else {
                    keys.insert(key)
                };
                self.pressed_keys.insert(handle, keys);
                assert(self.handles@ =~= self.pressed_keys@.dom());
                assert(self@.pressed =~= old(self)@.after_key(handle, key, state).pressed);
                changed
            },
            None => {
                assert(self.handles@ =~= self.pressed_keys@.dom());
                assert(self@.pressed =~= old(self)@.pressed);
                false
            },
        }
    }
}

/// The keys in `keys`, each once, in some order.
fn list_keys(keys: &HashSet<u32>) -> (r: Vec<u32>)
    ensures
        r@.no_duplicates(),
        r@.to_set() == keys@,
{
    let mut r: Vec<u32> = Vec::new();
    for key in it: keys.iter()
        invariant
            it.seq().unref().to_set() == keys@,
            it.seq().no_duplicates(),
            r@ == it.seq().unref().take(it.index()),
            it.index() == it.seq().len() ==> r@ == it.seq().unref(),
    {
        r.push(*key);
        assert(r@ =~= it.seq().unref().take(it.index() + 1));
        assert(it.index() + 1 == it.seq().len() ==> r@ =~= it.seq().unref());
    }
    r
}

/// The devices in `handles`, each once, in some order.
fn list_handles(handles: &HashSet<EmulationHandle>) -> (r: Vec<EmulationHandle>)
    ensures
        r@.no_duplicates(),
        r@.to_set() == handles@,
{
    let mut r: Vec<EmulationHandle> = Vec::new();
    for handle in it: handles.iter()
        invariant
            it.seq().unref().to_set() == handles@,
            it.seq().no_duplicates(),
            r@ == it.seq().unref().take(it.index()),
            it.index() == it.seq().len() ==> r@ == it.seq().unref(),
    {
        r.push(*handle);
        assert(r@ =~= it.seq().unref().take(it.index() + 1));
        assert(it.index() + 1 == it.seq().len() ==> r@ =~= it.seq().unref());
    }
    r
}

/// A key is pressed and released in turn: after a press only a release of
/// that key is passed on, and after a release only a press.
pub proof fn law_keys_alternate(
    devices: EmulationView,
    handle: EmulationHandle,
    key: u32,
    state: u8,
    next: u8,
)
    requires
        devices.has(handle),
    ensures
        devices.after_key(handle, key, state).allows(handle, key, next) <==> (state == 0) != (next
            == 0),
{
}

/// A key event changes nothing but its own key on its own device.
pub proof fn law_keys_are_independent(
    devices: EmulationView,
    handle: EmulationHandle,
    key: u32,
    state: u8,
    other_handle: EmulationHandle,
    other_key: u32,
)
    requires
        other_handle != handle || other_key != key,
    ensures
        devices.after_key(handle, key, state).held(other_handle).contains(other_key)
            == devices.held(other_handle).contains(other_key),
        devices.after_key(handle, key, state).has(other_handle) == devices.has(other_handle),
{
}

/// An event that is not passed on changes nothing.
pub proof fn law_refused_keys_change_nothing(
    devices: EmulationView,
    handle: EmulationHandle,
    key: u32,
    state: u8,
)
    requires
        !devices.allows(handle, key, state),
    ensures
        devices.after_key(handle, key, state) == devices,
{
    if devices.has(handle) {
        if state == 0 {
            assert(devices.held(handle).remove(key) =~= devices.held(handle));
        } else {
            assert(devices.held(handle).insert(key) =~= devices.held(handle));
        }
        assert(devices.pressed.insert(handle, devices.pressed[handle]) =~= devices.pressed);
    }
}

/// Once the keys of a device are released it holds none, and every key can be
/// pressed again.
pub proof fn law_nothing_stays_held(devices: EmulationView, handle: EmulationHandle, key: u32)
    ensures
        devices.after_release(handle).held(handle).is_empty(),
        devices.has(handle) ==> devices.after_release(handle).allows(handle, key, 1),
{
}

} // verus!
