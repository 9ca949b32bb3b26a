//! What is copied on one machine can be pasted on the other.

use vstd::prelude::*;

use crate::protocol::MessageView;
use crate::task::{bundle_size, item_types, lemma_requested_types, requested_types, ItemView};
use crate::task::{TaskActionView, TaskView, TransferView, MAX_CLIPBOARD_BUNDLE_SIZE};
use crate::task::MAX_CLIPBOARD_ITEM_SIZE;

verus! {

/// The representations of `contents`, each under its MIME type.
pub open spec fn bundle(types: Seq<Seq<char>>, contents: Seq<Seq<u8>>) -> Seq<ItemView> {
    Seq::new(types.len(), |i: int| ItemView { mime_type: types[i], data: contents[i] })
}

/// The task after the first `n` representations have arrived.
pub open spec fn after_data(
    task: TaskView,
    id: u64,
    types: Seq<Seq<char>>,
    contents: Seq<Seq<u8>>,
    n: nat,
) -> TaskView
    decreases n,
{
    if n == 0 {
        task
    } else {
        after_data(task, id, types, contents, (n - 1) as nat).after_message(
            MessageView::Data { id, mime_type: types[n - 1], data: contents[n - 1] },
        ).0
    }
}

/// Whether a clipboard takes all of `types`, and `contents` for them.
pub open spec fn can_take(
    supported: Seq<Seq<char>>,
    types: Seq<Seq<char>>,
    contents: Seq<Seq<u8>>,
) -> bool {
    &&& types.len() == contents.len()
    &&& types.no_duplicates()
    &&& forall|i: int| 0 <= i < types.len() ==> supported.contains(#[trigger] types[i])
    &&& forall|i: int|
        0 <= i < contents.len() ==> (#[trigger] contents[i]).len() <= MAX_CLIPBOARD_ITEM_SIZE
    &&& bundle_size(bundle(types, contents)) <= MAX_CLIPBOARD_BUNDLE_SIZE
}

proof fn lemma_all_requested(types: Seq<Seq<char>>, supported: Seq<Seq<char>>)
    requires
        types.no_duplicates(),
        forall|i: int| 0 <= i < types.len() ==> supported.contains(#[trigger] types[i]),
    ensures
        requested_types(types, supported) == types,
    decreases types.len(),
{
    if types.len() == 0 {
        assert(types =~= seq![]);
    } else {
        let before = types.drop_last();
        assert forall|i: int| 0 <= i < before.len() implies supported.contains(
            #[trigger] before[i],
        ) by {
            assert(supported.contains(types[i]));
        }
        lemma_all_requested(before, supported);
        assert(supported.contains(types[types.len() - 1]));
        assert(!before.contains(types.last())) by {
            if before.contains(types.last()) {
                let i = choose|i: int| 0 <= i < before.len() && before[i] == types.last();
                assert(types[i] == types[types.len() - 1]);
            }
        }
        assert(before.push(types.last()) =~= types);
    }
}

proof fn lemma_bundle_grows(items: Seq<ItemView>, n: int)
    requires
        0 <= n <= items.len(),
    ensures
        bundle_size(items.take(n)) <= bundle_size(items),
    decreases items.len() - n,
{
    if n < items.len() {
        lemma_bundle_grows(items, n + 1);
        assert(items.take(n + 1).drop_last() =~= items.take(n));
    } else {
        assert(items.take(n) =~= items);
    }
}

/// The state of a task that awaits `types` and has the first `n` of them.
spec fn awaiting(
    task: TaskView,
    id: u64,
    types: Seq<Seq<char>>,
    contents: Seq<Seq<u8>>,
    n: nat,
) -> TaskView {
    task.with_transfer(
        Some(TransferView { id, expected: types, items: bundle(types, contents).take(n as int) }),
    )
}

/// The next representation is awaited and there is room for it.
proof fn lemma_next_is_awaited(
    id: u64,
    types: Seq<Seq<char>>,
    contents: Seq<Seq<u8>>,
    supported: Seq<Seq<char>>,
    n: nat,
)
    requires
        can_take(supported, types, contents),
        n < types.len(),
    ensures
        ({
            let items = bundle(types, contents);
            let t = TransferView { id, expected: types, items: items.take(n as int) };
            &&& t.awaits(id, types[n as int])
            &&& t.has_room_for(contents[n as int].len())
            &&& t.items.push(items[n as int]) == items.take(n as int + 1)
        }),
{
    let items = bundle(types, contents);
    let t = TransferView { id, expected: types, items: items.take(n as int) };
    assert(types.contains(types[n as int]));
    assert(!item_types(t.items).contains(types[n as int])) by {
        if item_types(t.items).contains(types[n as int]) {
            let i = choose|i: int|
                0 <= i < item_types(t.items).len() && item_types(t.items)[i] == types[n as int];
            assert(item_types(t.items)[i] == types[i]);
            assert(types[i] == types[n as int]);
        }
    }
    assert(contents[n as int].len() <= MAX_CLIPBOARD_ITEM_SIZE);
    lemma_bundle_grows(items, n as int + 1);
    assert(items.take(n as int + 1).drop_last() =~= items.take(n as int));
    assert(t.items.push(items[n as int]) =~= items.take(n as int + 1));
}

proof fn lemma_data_arrives(
    task: TaskView,
    id: u64,
    types: Seq<Seq<char>>,
    contents: Seq<Seq<u8>>,
    supported: Seq<Seq<char>>,
    n: nat,
)
    requires
        task.portal is Some,
        task.transfer == Some(TransferView { id, expected: types, items: seq![] }),
        can_take(supported, types, contents),
        n < types.len(),
    ensures
        after_data(task, id, types, contents, n) == awaiting(task, id, types, contents, n),
    decreases n,
{
    let items = bundle(types, contents);
    if n == 0 {
        assert(items.take(0) =~= seq![]);
    } else {
        let m = (n - 1) as nat;
        lemma_data_arrives(task, id, types, contents, supported, m);
        lemma_next_is_awaited(id, types, contents, supported, m);
    }
}

/// A copy reaches the other machine: the change of one clipboard is offered,
/// the offer is answered with a request, the request has everything read, and
/// when the last of it arrives the other clipboard is given all of it.
pub proof fn law_copy_reaches_the_peer(
    here: TaskView,
    there: TaskView,
    types: Seq<Seq<char>>,
    contents: Seq<Seq<u8>>,
)
    requires
        here.portal is Some,
        there.portal matches Some(portal) && portal.eager_fetch && can_take(
            portal.supported,
            types,
            contents,
        ),
        types.len() > 0,
    ensures
        ({
            let id = here.next_offer_id;
            let last = types.len() - 1;
            let request = MessageView::Request { id, mime_types: types };
            let changed = here.after_owner_changed();
            &&& here.fresh_offer(Some(types)) matches Some(offer)
            &&& there.after_message(offer).1.len() > 0
            &&& there.after_message(offer).1[0] == TaskActionView::Send(request)
            &&& changed.after_message(request) == (
                changed,
                types.map_values(
                    |t: Seq<char>| TaskActionView::ReadSelection { id, mime_type: t },
                ),
            )
            &&& after_data(
                there.after_message(offer).0,
                id,
                types,
                contents,
                last as nat,
            ).after_message(
                MessageView::Data { id, mime_type: types[last], data: contents[last] },
            ).1 == seq![TaskActionView::WriteSelection(bundle(types, contents))]
        }),
{
    let id = here.next_offer_id;
    let supported = there.portal->0.supported;
    let last = (types.len() - 1) as nat;
    let items = bundle(types, contents);
    lemma_all_requested(types, supported);
    let offer = MessageView::Offer { id, mime_types: types };
    let offered = there.after_message(offer).0;
    lemma_data_arrives(offered, id, types, contents, supported, last);
    lemma_next_is_awaited(id, types, contents, supported, last);
    assert(items.take(last as int + 1) =~= items);
}

// ---------------------------------------------------------------------------
// Data in any order

/// The task after `messages` have arrived, and all that was done about them.
pub open spec fn after_all(task: TaskView, messages: Seq<MessageView>) -> (
    TaskView,
    Seq<TaskActionView>,
)
    decreases messages.len(),
{
    if messages.len() == 0 {
        (task, seq![])
    } else {
        let (before, actions) = after_all(task, messages.drop_last());
        let (after, more) = before.after_message(messages.last());
        (after, actions + more)
    }
}

/// What `messages` bring of the MIME types `expected` of the offer `id`: the
/// first data of each, in the order of arrival.
pub open spec fn collected(id: u64, expected: Seq<Seq<char>>, messages: Seq<MessageView>) -> Seq<
    ItemView,
>
    decreases messages.len(),
{
    if messages.len() == 0 {
        seq![]
    } else {
        let before = collected(id, expected, messages.drop_last());
        match messages.last() {
            MessageView::Data { id: other, mime_type, data } if other == id && expected.contains(
                mime_type,
            ) && !item_types(before).contains(mime_type) => before.push(
                ItemView { mime_type, data },
            ),
            _ => before,
        }
    }
}

/// Whether `messages` are data that keeps within the limits, as far as it is
/// awaited.
pub open spec fn is_acceptable_data(
    id: u64,
    expected: Seq<Seq<char>>,
    messages: Seq<MessageView>,
) -> bool {
    &&& forall|i: int| 0 <= i < messages.len() ==> (#[trigger] messages[i]) is Data
    &&& forall|i: int|
        0 <= i < collected(id, expected, messages).len() ==> (#[trigger] collected(
            id,
            expected,
            messages,
        )[i]).data.len() <= MAX_CLIPBOARD_ITEM_SIZE
    &&& bundle_size(collected(id, expected, messages)) <= MAX_CLIPBOARD_BUNDLE_SIZE
}

/// What is collected is awaited and comes once; when nothing is missing, it is
/// all that is awaited.
proof fn lemma_collected(id: u64, expected: Seq<Seq<char>>, messages: Seq<MessageView>)
    requires
        expected.no_duplicates(),
    ensures
        item_types(collected(id, expected, messages)).no_duplicates(),
        forall|i: int|
            0 <= i < collected(id, expected, messages).len() ==> expected.contains(
                (#[trigger] collected(id, expected, messages)[i]).mime_type,
            ),
        collected(id, expected, messages).len() <= expected.len(),
        collected(id, expected, messages).len() == expected.len() ==> item_types(
            collected(id, expected, messages),
        ).to_set() == expected.to_set(),
    decreases messages.len(),
{
    let items = collected(id, expected, messages);
    let types = item_types(items);
    if messages.len() > 0 {
        lemma_collected(id, expected, messages.drop_last());
        let before = collected(id, expected, messages.drop_last());
        if items != before {
            assert(items.drop_last() =~= before);
            assert(types =~= item_types(before).push(items.last().mime_type));
            assert forall|i: int| 0 <= i < items.len() implies expected.contains(
                (#[trigger] items[i]).mime_type,
            ) by {
                if i < before.len() {
                    assert(items[i] == before[i]);
                }
            }
        }
    } else {
        assert(types =~= seq![]);
    }
    assert forall|m: Seq<char>| types.to_set().contains(m) implies expected.to_set().contains(
        m,
    ) by {
        let j = choose|j: int| 0 <= j < types.len() && types[j] == m;
        assert(expected.contains(items[j].mime_type));
    }
    types.unique_seq_to_set();
    expected.unique_seq_to_set();
    vstd::set_lib::lemma_len_subset(types.to_set(), expected.to_set());
    if items.len() == expected.len() {
        vstd::set_lib::lemma_subset_equality(types.to_set(), expected.to_set());
    }
}

proof fn lemma_run_of_data(task: TaskView, expected: Seq<Seq<char>>, messages: Seq<MessageView>)
    requires
        task.portal is Some,
        expected.no_duplicates(),
        expected.len() > 0,
        task.transfer matches Some(t) && t.expected == expected && t.items.len() == 0,
        is_acceptable_data(task.transfer->0.id, expected, messages),
    ensures
        ({
            let id = task.transfer->0.id;
            let items = collected(id, expected, messages);
            after_all(task, messages) == if items.len() < expected.len() {
                (
                    task.with_transfer(Some(TransferView { id, expected, items })),
                    Seq::<TaskActionView>::empty(),
                )
            } else {
                (task.with_transfer(None), seq![TaskActionView::WriteSelection(items)])
            }
        }),
    decreases messages.len(),
{
    let id = task.transfer->0.id;
    let items = collected(id, expected, messages);
    if messages.len() == 0 {
        assert(task.transfer->0.items =~= seq![]);
    } else {
        let front = messages.drop_last();
        let before = collected(id, expected, front);
        lemma_collected(id, expected, front);
        lemma_collected(id, expected, messages);
        assert(messages[messages.len() - 1] is Data);
        let mime_type = messages.last()->Data_mime_type;
        if items != before {
            assert(items.drop_last() =~= before);
            assert(items[items.len() - 1].data.len() <= MAX_CLIPBOARD_ITEM_SIZE);
        }
        assert(is_acceptable_data(id, expected, front)) by {
            assert forall|i: int| 0 <= i < front.len() implies (#[trigger] front[i]) is Data by {
                assert(messages[i] is Data);
            }
            assert forall|i: int| 0 <= i < before.len() implies (#[trigger] before[i]).data.len()
                <= MAX_CLIPBOARD_ITEM_SIZE by {
                assert(items[i] == before[i]);
            }
        }
        lemma_run_of_data(task, expected, front);
        if before.len() == expected.len() {
            if expected.contains(mime_type) {
                assert(expected.to_set().contains(mime_type));
                assert(item_types(before).to_set().contains(mime_type));
            }
            assert(items == before);
        }
        assert(after_all(task, messages).1 =~= if items.len() < expected.len() {
            seq![]
        } else {
            seq![TaskActionView::WriteSelection(items)]
        });
    }
}

/// However the data of an offer arrives, the local clipboard is written at
/// most once: by the data that completes what was requested, with one
/// representation for each requested MIME type, the first that came, in the
/// order of arrival. Until then nothing is done, and after it nothing is
/// awaited.
pub proof fn law_data_is_written_once(
    task: TaskView,
    id: u64,
    offered: Seq<Seq<char>>,
    messages: Seq<MessageView>,
)
    requires
        task.portal is Some,
        requested_types(offered, task.portal->0.supported).len() > 0,
        is_acceptable_data(id, requested_types(offered, task.portal->0.supported), messages),
    ensures
        ({
            let requested = requested_types(offered, task.portal->0.supported);
            let offer = MessageView::Offer { id, mime_types: offered };
            let (after, actions) = after_all(task.after_message(offer).0, messages);
            let items = collected(id, requested, messages);
            &&& items.len() < requested.len() ==> {
                &&& actions.len() == 0
                &&& after.transfer == Some(TransferView { id, expected: requested, items })
            }
            &&& items.len() >= requested.len() ==> {
                &&& actions == seq![TaskActionView::WriteSelection(items)]
                &&& after.transfer is None
            }
            &&& item_types(items).no_duplicates()
            &&& items.len() <= requested.len()
            &&& items.len() == requested.len() ==> item_types(items).to_set()
                == requested.to_set()
        }),
{
    let requested = requested_types(offered, task.portal->0.supported);
    let offer = MessageView::Offer { id, mime_types: offered };
    lemma_requested_types(offered, task.portal->0.supported);
    lemma_collected(id, requested, messages);
    lemma_run_of_data(task.after_message(offer).0, requested, messages);
}

} // verus!
