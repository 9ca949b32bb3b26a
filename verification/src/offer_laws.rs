//! What holds of offers, requests and data, whatever is offered.

use vstd::prelude::*;

use crate::protocol::{ClipboardMessage, MessageView};
use crate::task::{available_view, bundle_size, default_supported_mime_types, item_types};
use crate::task::{read_reply, requested_types, task_action_views, ClipboardTask, ItemView};
use crate::task::{PortalInfo, TaskAction, TaskActionView, TaskView};
use crate::text::texts;

verus! {

/// A MIME type is requested if and only if it is both offered and supported,
/// whatever else is offered. Each is requested once, and they keep the order
/// in which they first occur in the offer: `at` says where.
pub proof fn law_offered_and_supported_is_requested(
    offered: Seq<Seq<char>>,
    supported: Seq<Seq<char>>,
) -> (at: Seq<int>)
    ensures
        forall|m: Seq<char>| #[trigger]
            requested_types(offered, supported).contains(m) <==> offered.contains(m)
                && supported.contains(m),
        requested_types(offered, supported).no_duplicates(),
        at.len() == requested_types(offered, supported).len(),
        forall|i: int|
            0 <= i < at.len() ==> 0 <= #[trigger] at[i] < offered.len() && offered[at[i]]
                == requested_types(offered, supported)[i],
        forall|i: int, k: int|
            0 <= i < at.len() && 0 <= k < at[i] ==> #[trigger] offered[k] != #[trigger]
                requested_types(offered, supported)[i],
        forall|i: int, j: int| 0 <= i < j < at.len() ==> at[i] < at[j],
    decreases offered.len(),
{
    let requested = requested_types(offered, supported);
    if offered.len() == 0 {
        seq![]
    } else {
        let front = offered.drop_last();
        let last = offered.last();
        let before = requested_types(front, supported);
        let at = law_offered_and_supported_is_requested(front, supported);
        assert forall|m: Seq<char>| offered.contains(m) <==> front.contains(m) || m == last by {
            if offered.contains(m) {
                let i = choose|i: int| 0 <= i < offered.len() && offered[i] == m;
                if i < front.len() {
                    assert(front[i] == m);
                }
            }
            if front.contains(m) {
                let i = choose|i: int| 0 <= i < front.len() && front[i] == m;
                assert(offered[i] == m);
            }
            assert(offered[offered.len() - 1] == last);
        }
        if supported.contains(last) && !front.contains(last) {
            assert(!before.contains(last));
            assert(requested =~= before.push(last));
            assert forall|m: Seq<char>| #[trigger] requested.contains(m) <==> offered.contains(m)
                && supported.contains(m) by {
                if requested.contains(m) {
                    let i = choose|i: int| 0 <= i < requested.len() && requested[i] == m;
                    if i < before.len() {
                        assert(before[i] == m);
                        assert(before.contains(m));
                    }
                }
                if before.contains(m) {
                    let i = choose|i: int| 0 <= i < before.len() && before[i] == m;
                    assert(requested[i] == m);
                }
                assert(requested[before.len() as int] == last);
            }
            assert forall|i: int, k: int|
                0 <= i < before.len() + 1 && 0 <= k < at.push(front.len() as int)[i] implies
                #[trigger] offered[k] != #[trigger] requested[i] by {
                if i < before.len() {
                    assert(front[k] != before[i]);
                } else {
                    assert(front[k] == offered[k]);
                    assert(front.contains(front[k]));
                }
            }
            at.push(front.len() as int)
        } else {
            if supported.contains(last) {
                assert(before.contains(last));
            }
            assert(requested == before);
            assert forall|i: int, k: int| 0 <= i < at.len() && 0 <= k < at[i] implies #[trigger]
                offered[k] != #[trigger] requested[i] by {
                assert(front[k] != before[i]);
            }
            at
        }
    }
}

/// An offer becomes the current one. If the clipboard supports any of it, the
/// data of exactly those MIME types is awaited, in the order of the offer,
/// they are requested at once where that is wanted, and each is announced.
pub proof fn law_offer_is_taken_up(task: TaskView, id: u64, offered: Seq<Seq<char>>)
    requires
        task.portal is Some,
    ensures
        ({
            let portal = task.portal->0;
            let (after, actions) = task.after_message(
                MessageView::Offer { id, mime_types: offered },
            );
            let some = exists|m: Seq<char>| #[trigger]
                offered.contains(m) && portal.supported.contains(m);
            &&& after.current_offer_id == id
            &&& after.portal == task.portal
            &&& after.next_offer_id == task.next_offer_id
            &&& !some ==> after.transfer is None && actions.len() == 0
            &&& some ==> {
                let t = after.transfer->0;
                let first = if portal.eager_fetch {
                    1int
                } else {
                    0
                };
                &&& after.transfer is Some
                &&& t.id == id
                &&& t.items.len() == 0
                &&& t.expected == requested_types(offered, portal.supported)
                &&& t.expected.no_duplicates()
                &&& forall|m: Seq<char>| #[trigger]
                    t.expected.contains(m) <==> offered.contains(m) && portal.supported.contains(m)
                &&& actions.len() == first + t.expected.len()
                &&& portal.eager_fetch ==> actions[0] == TaskActionView::Send(
                    MessageView::Request { id, mime_types: t.expected },
                )
                &&& forall|i: int|
                    0 <= i < t.expected.len() ==> actions[first + i]
                        == TaskActionView::SetSelection(#[trigger] t.expected[i])
            }
        }),
{
    let portal = task.portal->0;
    let requested = requested_types(offered, portal.supported);
    let at = law_offered_and_supported_is_requested(offered, portal.supported);
    if exists|m: Seq<char>| #[trigger] offered.contains(m) && portal.supported.contains(m) {
        let m = choose|m: Seq<char>| #[trigger]
            offered.contains(m) && portal.supported.contains(m);
        assert(requested.contains(m));
    } else if requested.len() > 0 {
        assert(requested.contains(requested[0]));
    }
}

/// A request for the current offer has every requested MIME type read, in the
/// order of the request. It changes nothing.
pub proof fn law_request_is_answered(task: TaskView, id: u64, wanted: Seq<Seq<char>>)
    requires
        task.portal is Some,
        task.current_offer_id == id,
    ensures
        ({
            let (after, actions) = task.after_message(
                MessageView::Request { id, mime_types: wanted },
            );
            &&& after == task
            &&& actions.len() == wanted.len()
            &&& forall|i: int|
                0 <= i < wanted.len() ==> #[trigger] actions[i] == (TaskActionView::ReadSelection {
                    id,
                    mime_type: wanted[i],
                })
        }),
{
}

/// Awaited data is kept if it and all that came before it stay within 100 MiB
/// each and 250 MiB together; otherwise the transfer is given up. The last
/// that is awaited completes it.
pub proof fn law_awaited_data_is_kept(
    task: TaskView,
    id: u64,
    mime_type: Seq<char>,
    data: Seq<u8>,
)
    requires
        task.portal is Some,
        task.transfer matches Some(t) && t.id == id && t.expected.contains(mime_type) && (forall|
            i: int,
        |
            0 <= i < t.items.len() ==> (#[trigger] t.items[i]).mime_type != mime_type),
    ensures
        ({
            let t = task.transfer->0;
            let (after, actions) = task.after_message(MessageView::Data { id, mime_type, data });
            let fits = data.len() <= 104_857_600 && bundle_size(t.items) + data.len()
                <= 262_144_000;
            let now = after.transfer->0;
            &&& after.current_offer_id == task.current_offer_id
            &&& after.next_offer_id == task.next_offer_id
            &&& after.portal == task.portal
            &&& !fits ==> after.transfer is None && actions.len() == 0
            &&& fits && t.items.len() + 1 < t.expected.len() ==> {
                &&& actions.len() == 0
                &&& after.transfer is Some
                &&& now.id == id
                &&& now.expected == t.expected
                &&& now.items.len() == t.items.len() + 1
                &&& now.items.drop_last() == t.items
                &&& now.items.last().mime_type == mime_type
                &&& now.items.last().data == data
            }
            &&& fits && t.items.len() + 1 == t.expected.len() ==> {
                &&& after.transfer is None
                &&& actions.len() == 1
                &&& actions[0] matches TaskActionView::WriteSelection(items)
                &&& items.len() == t.items.len() + 1
                &&& items.drop_last() == t.items
                &&& items.last().mime_type == mime_type
                &&& items.last().data == data
            }
        }),
{
    let t = task.transfer->0;
    let types = item_types(t.items);
    if types.contains(mime_type) {
        let i = choose|i: int| 0 <= i < types.len() && types[i] == mime_type;
        assert(t.items[i].mime_type == mime_type);
    }
    let item = ItemView { mime_type, data };
    assert(t.items.push(item).drop_last() =~= t.items);
}

/// How much several items bring is what each of them brings, added up.
pub proof fn law_bundle_size_adds_up(items: Seq<ItemView>, more: Seq<ItemView>)
    ensures
        bundle_size(items + more) == bundle_size(items) + bundle_size(more),
        more.len() == 1 ==> bundle_size(more) == more[0].data.len(),
        more.len() == 0 ==> bundle_size(more) == 0,
    decreases more.len(),
{
    reveal_with_fuel(bundle_size, 2);
    if more.len() == 0 {
        assert(items + more =~= items);
    } else {
        law_bundle_size_adds_up(items, more.drop_last());
        assert((items + more).drop_last() =~= items + more.drop_last());
        assert((items + more).last() == more.last());
        if more.len() == 1 {
            assert(more.drop_last() =~= seq![]);
        }
    }
}

/// An error ends the transfer that it names, and no other; it asks for
/// nothing.
pub proof fn law_error_ends_what_is_awaited(task: TaskView, id: u64, code: u16)
    requires
        task.portal is Some,
    ensures
        ({
            let (after, actions) = task.after_message(MessageView::Error { id, code });
            &&& actions.len() == 0
            &&& after.current_offer_id == task.current_offer_id
            &&& after.next_offer_id == task.next_offer_id
            &&& after.portal == task.portal
            &&& (task.transfer matches Some(t) && t.id == id) ==> after.transfer is None
            &&& !(task.transfer matches Some(t) && t.id == id) ==> after.transfer == task.transfer
        }),
{
}

/// Without a local clipboard, and of messages that are not about its contents,
/// nothing comes.
pub proof fn law_other_messages_change_nothing(task: TaskView, msg: MessageView)
    requires
        task.portal is None || !(msg is Offer || msg is Request || msg is Data || msg is Error),
    ensures
        task.after_message(msg) == (task, Seq::<TaskActionView>::empty()),
{
}

/// A change of the local clipboard is offered with all that it holds, under a
/// fresh identifier; one that holds nothing is not offered, and neither is one
/// whose contents could not be found out.
pub proof fn law_change_is_offered_whole(task: TaskView, available: Option<Seq<Seq<char>>>)
    requires
        task.next_offer_id < u64::MAX,
    ensures
        task.after_owner_changed().current_offer_id == task.next_offer_id,
        task.after_owner_changed().next_offer_id == task.next_offer_id + 1,
        task.after_owner_changed().transfer == task.transfer,
        task.after_owner_changed().portal == task.portal,
        match (task.portal, available) {
            (Some(_), Some(types)) if types.len() > 0 => {
                &&& task.fresh_offer(available) matches Some(MessageView::Offer { id, mime_types })
                &&& id == task.next_offer_id
                &&& mime_types == types
            },
            _ => task.fresh_offer(available) is None,
        },
{
}

/// A peer that connects is told of the current offer, whatever it was, and of
/// nothing if there has been none.
pub proof fn law_current_offer_is_repeated(task: TaskView, available: Option<Seq<Seq<char>>>)
    ensures
        task.current_offer_id == 0 ==> task.repeated_offer(available) is None,
        task.current_offer_id != 0 ==> {
            &&& task.repeated_offer(available) matches Some(MessageView::Offer { id, mime_types })
            &&& id == task.current_offer_id
            &&& mime_types == match (task.portal, available) {
                (Some(_), Some(types)) => types,
                _ => Seq::<Seq<char>>::empty(),
            }
        },
{
}

/// Data that is not awaited changes nothing: where nothing is awaited, under
/// another identifier, of a MIME type that was not requested, or of one that
/// has arrived.
pub proof fn law_unawaited_data_changes_nothing(
    task: TaskView,
    id: u64,
    mime_type: Seq<char>,
    data: Seq<u8>,
)
    requires
        task.transfer matches Some(t) ==> t.id != id || !t.expected.contains(mime_type) || (exists|
            i: int,
        |
            0 <= i < t.items.len() && (#[trigger] t.items[i]).mime_type == mime_type),
    ensures
        task.after_message(MessageView::Data { id, mime_type, data }) == (
            task,
            Seq::<TaskActionView>::empty(),
        ),
{
    if let Some(t) = task.transfer {
        if exists|i: int| 0 <= i < t.items.len() && (#[trigger] t.items[i]).mime_type == mime_type {
            let i = choose|i: int|
                0 <= i < t.items.len() && (#[trigger] t.items[i]).mime_type == mime_type;
            assert(item_types(t.items)[i] == mime_type);
        }
    }
}

/// A read of the clipboard is answered with the data that was read, under the
/// identifier and the MIME type of the request; a read that failed, with
/// error 500.
pub proof fn law_reads_are_answered(
    id: u64,
    mime_type: String,
    read: Result<Vec<u8>, String>,
    reply: ClipboardMessage,
)
    requires
        call_ensures(read_reply, (id, mime_type, read), reply),
    ensures
        read matches Ok(bytes) ==> {
            &&& reply@ matches MessageView::Data { id: own, mime_type: named, data }
            &&& own == id
            &&& named == mime_type@
            &&& data == bytes@
        },
        read is Err ==> reply@ == (MessageView::Error { id, code: 500 }),
{
}

/// A task begins without a clipboard and without an offer.
pub proof fn law_task_begins(first: u64, task: ClipboardTask)
    requires
        call_ensures(ClipboardTask::new, (first,), task),
    ensures
        task@.portal is None,
        task@.transfer is None,
        task@.current_offer_id == 0,
        task@.next_offer_id == first,
{
}

/// A change of the session replaces the clipboard and gives up what was
/// awaited; the identifiers of offers last.
pub proof fn law_session_change(
    task: &mut ClipboardTask,
    portal: Option<PortalInfo>,
    done: (),
)
    requires
        call_ensures(ClipboardTask::session_changed, (task, portal), done),
    ensures
        final(task)@.transfer is None,
        final(task)@.current_offer_id == old(task)@.current_offer_id,
        final(task)@.next_offer_id == old(task)@.next_offer_id,
        final(task)@.portal is Some <==> portal is Some,
        portal matches Some(p) ==> final(task)@.portal->0.supported == texts(
            p.supported_mime_types@,
        ) && final(task)@.portal->0.eager_fetch == p.eager_fetch,
{
}

/// A paste asks for all that is awaited, or for plain text where nothing is.
pub proof fn law_paste_asks_for_what_is_awaited(task: ClipboardTask, request: ClipboardMessage)
    requires
        call_ensures(ClipboardTask::handle_transfer, (&task,), request),
    ensures
        request@ matches MessageView::Request { id, mime_types } && match task@.transfer {
            Some(t) => id == t.id && mime_types == t.expected,
            None => id == task@.current_offer_id && mime_types.len() == 1 && mime_types[0]
                == "text/plain"@,
        },
{
}

/// A change of the clipboard is offered under the next identifier, and the
/// identifier after it is the next.
pub proof fn law_owner_change(
    task: &mut ClipboardTask,
    available: Option<Vec<String>>,
    offer: Option<ClipboardMessage>,
)
    requires
        call_ensures(ClipboardTask::handle_owner_changed, (task, available), offer),
        old(task)@.next_offer_id < u64::MAX,
    ensures
        final(task)@.current_offer_id == old(task)@.next_offer_id,
        final(task)@.next_offer_id == old(task)@.next_offer_id + 1,
        final(task)@.portal == old(task)@.portal,
        final(task)@.transfer == old(task)@.transfer,
        offer is Some <==> old(task)@.portal is Some && available is Some && available->0@.len()
            > 0,
        offer matches Some(msg) ==> msg@ == (MessageView::Offer {
            id: old(task)@.next_offer_id,
            mime_types: texts(available->0@),
        }),
{
    law_change_is_offered_whole(old(task)@, available_view(available));
    if available is Some {
        assert(texts(available->0@).len() == available->0@.len());
    }
}

/// What a clipboard takes unless it says otherwise: plain text, HTML, and PNG
/// and JPEG images, in this order.
pub proof fn law_types_taken_by_default(types: Vec<String>)
    requires
        call_ensures(default_supported_mime_types, (), types),
    ensures
        types@.len() == 4,
        types@[0]@ == "text/plain"@,
        types@[1]@ == "text/html"@,
        types@[2]@ == "image/png"@,
        types@[3]@ == "image/jpeg"@,
{
    let view = texts(types@);
    assert(view.len() == types@.len());
    assert(view[0] == types@[0]@ && view[1] == types@[1]@ && view[2] == types@[2]@ && view[3]
        == types@[3]@);
}

/// What a task does with an offer: it asks, at once where that is wanted, for
/// exactly the MIME types that are both offered and supported, whatever else
/// is offered.
pub proof fn law_offer_is_requested(
    task: &mut ClipboardTask,
    id: u64,
    offered: Vec<String>,
    actions: Vec<TaskAction>,
    wanted: Seq<char>,
)
    requires
        call_ensures(
            ClipboardTask::handle_incoming_message,
            (task, ClipboardMessage::Offer { id, mime_types: offered }),
            actions,
        ),
        old(task)@.portal matches Some(portal) && portal.eager_fetch && portal.supported.contains(
            wanted,
        ),
        texts(offered@).contains(wanted),
    ensures
        final(task)@.current_offer_id == id,
        actions@.len() > 0,
        actions@[0] matches TaskAction::Send(msg) && (msg@ matches MessageView::Request {
            id: of,
            mime_types,
        } && of == id && mime_types.contains(wanted) && (forall|m: Seq<char>| #[trigger]
            mime_types.contains(m) <==> texts(offered@).contains(m)
                && old(task)@.portal->0.supported.contains(m))),
{
    law_offer_is_taken_up(old(task)@, id, texts(offered@));
    let views = task_action_views(actions@);
    assert(texts(offered@).contains(wanted) && old(task)@.portal->0.supported.contains(wanted));
    assert(views.len() == actions@.len());
    assert(views[0] == actions@[0]@);
}

} // verus!
