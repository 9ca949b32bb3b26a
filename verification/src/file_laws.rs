//! What holds of whole file transfers.

use vstd::prelude::*;

use crate::digest::{sha256_of, MAX_HASHED};
use crate::file_selection::SelectionView;
use crate::file_sender::{SenderEvent, SenderPhase, SenderView, CHUNK_SIZE};
use crate::file_task::{all_indices, are_safe_forms_of, requested_files, ActionView, ChunkView};
use crate::file_task::{EndView, IncomingView, PartView, TransfersView, MAX_INDICES};
use crate::paths::{part_path, target_path};
use crate::protocol::{FileView, MessageView};
use crate::round_trip::in_limits;

verus! {

/// All pieces of a file, one after the other.
pub open spec fn joined(pieces: Seq<Vec<u8>>) -> Seq<u8>
    decreases pieces.len(),
{
    if pieces.len() == 0 {
        seq![]
    } else {
        joined(pieces.drop_last()) + pieces.last()@
    }
}

/// The receiving side after a chunk has arrived, where the file system does
/// all that is asked of it.
pub open spec fn delivered(receiver: TransfersView, chunk: ChunkView) -> TransfersView {
    let (arrived, first) = receiver.after_message(
        MessageView::FileChunk {
            id: chunk.id,
            file_index: chunk.file_index,
            offset: chunk.offset,
            data: chunk.data,
        },
    );
    let (opened, second) = if first.len() > 0 && first[0] is OpenPart {
        arrived.after_open(chunk, true)
    } else {
        (arrived, first)
    };
    if second.len() > 0 && second[0] is WritePart {
        opened.after_write(chunk, true).0
    } else {
        opened
    }
}

/// Both sides after the sender has read `pieces` of an open file and each was
/// delivered and acknowledged.
pub open spec fn exchanged(
    sender: SenderView,
    receiver: TransfersView,
    pieces: Seq<Vec<u8>>,
) -> (SenderView, TransfersView)
    decreases pieces.len(),
{
    if pieces.len() == 0 {
        (sender, receiver)
    } else {
        let (s, r) = exchanged(sender, receiver, pieces.drop_last());
        match s.after(SenderEvent::Read(pieces.last())) {
            (waiting, Some(MessageView::FileChunk { id, file_index, offset, data })) => (
                waiting.after(SenderEvent::Acknowledged).0,
                delivered(r, ChunkView { id, file_index, offset, data }),
            ),
            (other, _) => (other, r),
        }
    }
}

/// The receiving side once `content` of the file `index` has arrived.
pub open spec fn holding(receiver: TransfersView, index: u32, content: Seq<u8>) -> TransfersView {
    TransfersView {
        incoming: Some(
            IncomingView {
                current: Some(PartView { index, written: content.len(), content: Some(content) }),
                ..receiver.incoming->0
            },
        ),
        ..receiver
    }
}

/// After an exchange both sides agree on what was sent: it is what was read,
/// in order and without gaps.
pub proof fn law_exchange_keeps_content(
    sender: SenderView,
    receiver: TransfersView,
    pieces: Seq<Vec<u8>>,
)
    requires
        sender.is_valid(),
        sender.phase == (SenderPhase::Reading { sent: seq![] }),
        receiver.is_valid(),
        receiver.is_receiving(sender.id),
        sender.index() < receiver.incoming->0.files.len(),
        !receiver.incoming->0.is_at(sender.index()),
        forall|i: int| 0 <= i < pieces.len() ==> (#[trigger] pieces[i])@.len() > 0,
        joined(pieces).len() <= MAX_HASHED,
    ensures
        exchanged(sender, receiver, pieces).0 == sender.in_phase(
            SenderPhase::Reading { sent: joined(pieces) },
        ),
        exchanged(sender, receiver, pieces).1 == if pieces.len() == 0 {
            receiver
        } else {
            holding(receiver, sender.index(), joined(pieces))
        },
    decreases pieces.len(),
{
    if pieces.len() > 0 {
        let before = pieces.drop_last();
        assert forall|i: int| 0 <= i < before.len() implies (#[trigger] before[i])@.len() > 0 by {
            assert(pieces[i]@.len() > 0);
        }
        law_exchange_keeps_content(sender, receiver, before);
        assert(pieces[pieces.len() - 1]@.len() > 0);
        let sent = joined(before);
        let data = pieces.last()@;
        let chunk = ChunkView {
            id: sender.id,
            file_index: sender.index(),
            offset: sent.len() as u64,
            data,
        };
        let r = exchanged(sender, receiver, before).1;
        if before.len() == 0 {
            assert(sent + data =~= data);
            assert(seq![] + data =~= data);
        }
        assert(delivered(r, chunk) =~= holding(receiver, sender.index(), sent + data));
    }
}

/// The receiving side after the end of a file was announced, where the file
/// system does all that is asked of it, and what is done in the end.
pub open spec fn announced(receiver: TransfersView, msg: MessageView) -> (
    TransfersView,
    Seq<ActionView>,
) {
    let (arrived, actions) = receiver.after_message(msg);
    if actions.len() > 0 && actions[0] is CreateEmpty {
        arrived.after_empty(actions[0]->CreateEmpty_end, true)
    } else {
        (arrived, actions)
    }
}

/// A file arrives: once all of it was sent, the announcement of its end makes
/// the receiver put it in its place. This holds of a file without any content
/// too, which sends no chunk, unless it has arrived before.
pub proof fn law_file_arrives(
    sender: SenderView,
    receiver: TransfersView,
    pieces: Seq<Vec<u8>>,
    end: Vec<u8>,
)
    requires
        sender.is_valid(),
        sender.phase == (SenderPhase::Reading { sent: seq![] }),
        receiver.is_valid(),
        receiver.is_receiving(sender.id),
        sender.index() < receiver.incoming->0.files.len(),
        !receiver.incoming->0.is_at(sender.index()),
        pieces.len() > 0 || !receiver.incoming->0.kept[sender.index() as int],
        forall|i: int| 0 <= i < pieces.len() ==> (#[trigger] pieces[i])@.len() > 0,
        joined(pieces).len() <= MAX_HASHED,
        end@.len() == 0,
    ensures
        ({
            let (s, r) = exchanged(sender, receiver, pieces);
            let name = receiver.incoming->0.names[sender.index() as int];
            &&& s.after(SenderEvent::Read(end)).1 matches Some(msg)
            &&& msg is FileComplete
            &&& announced(r, msg).1.len() > 0
            &&& announced(r, msg).1[0] == (ActionView::Commit {
                part: part_path(sender.id, name),
                target: target_path(sender.id, name),
            })
        }),
{
    law_exchange_keeps_content(sender, receiver, pieces);
    if pieces.len() > 0 {
        lemma_joined_not_empty(pieces);
    }
}

proof fn lemma_joined_not_empty(pieces: Seq<Vec<u8>>)
    requires
        pieces.len() > 0,
        forall|i: int| 0 <= i < pieces.len() ==> (#[trigger] pieces[i])@.len() > 0,
    ensures
        joined(pieces).len() > 0,
{
    assert(pieces[pieces.len() - 1]@.len() > 0);
}

/// What a sender reads of a file at once fits the wire: every chunk holds at
/// least one byte and at most 256 KiB, and reaches the peer whole.
pub proof fn law_chunks_are_bounded(sender: SenderView, event: SenderEvent)
    requires
        sender.is_valid(),
        sender.expects(event),
    ensures
        sender.after(event).1 matches Some(MessageView::FileChunk { id, file_index, offset, data })
            ==> {
            &&& 0 < data.len() <= CHUNK_SIZE
            &&& in_limits(MessageView::FileChunk { id, file_index, offset, data })
        },
{
}

/// Whether the contents of several files, each given in pieces, can be
/// exchanged: no piece is empty, and no file is too long to be digested.
pub open spec fn can_be_exchanged(contents: Seq<Seq<Vec<u8>>>) -> bool {
    forall|i: int|
        0 <= i < contents.len() ==> {
            &&& joined(#[trigger] contents[i]).len() <= MAX_HASHED
            &&& forall|j: int| 0 <= j < contents[i].len() ==> (#[trigger] contents[i][j])@.len() > 0
        }
}

/// Both sides after the first files of the queue were opened, exchanged and
/// announced to be complete, and what the receiver did about the
/// announcements. The content of each file is given in pieces; `end` is what
/// is read at its end.
pub open spec fn exchanged_files(
    sender: SenderView,
    receiver: TransfersView,
    contents: Seq<Seq<Vec<u8>>>,
    end: Vec<u8>,
) -> (SenderView, TransfersView, Seq<ActionView>)
    decreases contents.len(),
{
    if contents.len() == 0 {
        (sender, receiver, seq![])
    } else {
        let (s, r, actions) = exchanged_files(sender, receiver, contents.drop_last(), end);
        let (s, r) = exchanged(s.after(SenderEvent::Opened).0, r, contents.last());
        match s.after(SenderEvent::Read(end)) {
            (next, Some(msg)) => (next, announced(r, msg).0, actions + announced(r, msg).1),
            (next, None) => (next, r, actions),
        }
    }
}

/// The commitments of the first `count` files of a transfer.
pub open spec fn commitments(transfer: IncomingView, count: nat) -> Seq<ActionView> {
    Seq::new(
        count,
        |i: int|
            ActionView::Commit {
                part: part_path(transfer.id, transfer.names[i]),
                target: target_path(transfer.id, transfer.names[i]),
            },
    )
}

/// The queue of a sender that sends every file of an offer, in order.
pub open spec fn queues_all(sender: SenderView, count: nat) -> bool {
    &&& sender.files.len() == count
    &&& forall|i: int| 0 <= i < count ==> (#[trigger] sender.files[i]).0 == i
    &&& sender.position == 0
    &&& sender.phase is Opening
}

/// Whether the receiving side has the first `count` of its files and none of
/// the others.
spec fn holds_first(before: IncomingView, after: TransfersView, count: nat) -> bool {
    &&& after.incoming matches Some(t)
    &&& t.id == before.id
    &&& t.files == before.files
    &&& t.names == before.names
    &&& t.kept.len() == t.files.len()
    &&& forall|i: int| 0 <= i < t.kept.len() ==> (#[trigger] t.kept[i] <==> i < count)
    &&& t.current matches Some(part) ==> part.index < count
    &&& after.is_valid()
}

proof fn lemma_first_files_arrive(
    sender: SenderView,
    receiver: TransfersView,
    contents: Seq<Seq<Vec<u8>>>,
    end: Vec<u8>,
    total: nat,
)
    requires
        0 < total <= MAX_INDICES,
        contents.len() <= total,
        queues_all(sender, total),
        receiver.is_valid(),
        receiver.is_receiving(sender.id),
        receiver.incoming->0.files.len() == total,
        receiver.incoming->0.current is None,
        forall|i: int| 0 <= i < total ==> !(#[trigger] receiver.incoming->0.kept[i]),
        can_be_exchanged(contents),
        end@.len() == 0,
    ensures
        ({
            let (s, r, actions) = exchanged_files(sender, receiver, contents, end);
            let t = receiver.incoming->0;
            &&& s == sender.at_file(contents.len())
            &&& contents.len() < total ==> {
                &&& holds_first(t, r, contents.len())
                &&& actions == commitments(t, contents.len())
            }
            &&& contents.len() == total ==> {
                &&& r.incoming is None
                &&& actions == commitments(t, total).push(
                    ActionView::Publish { paths: t.target_paths() },
                )
            }
        }),
    decreases contents.len(),
{
    let t = receiver.incoming->0;
    if contents.len() == 0 {
        assert(commitments(t, 0) =~= seq![]);
        assert(sender =~= sender.at_file(0));
    } else {
        let before = contents.drop_last();
        let pieces = contents.last();
        let index = before.len();
        assert(can_be_exchanged(before)) by {
            assert forall|i: int| 0 <= i < before.len() implies {
                &&& joined(#[trigger] before[i]).len() <= MAX_HASHED
                &&& forall|j: int| 0 <= j < before[i].len() ==> (#[trigger] before[i][j])@.len() > 0
            } by {
                assert(before[i] == contents[i]);
            }
        }
        lemma_first_files_arrive(sender, receiver, before, end, total);
        let (s0, r0, done) = exchanged_files(sender, receiver, before, end);
        let s1 = s0.after(SenderEvent::Opened).0;
        assert(contents[index as int] == pieces);
        assert(s1.index() == index);
        law_file_arrives(s1, r0, pieces, end);
        law_exchange_keeps_content(s1, r0, pieces);
        let (s2, r2) = exchanged(s1, r0, pieces);
        let msg = s2.after(SenderEvent::Read(end)).1->0;
        let commit = ActionView::Commit {
            part: part_path(t.id, t.names[index as int]),
            target: target_path(t.id, t.names[index as int]),
        };
        let kept = r0.incoming->0.kept.update(index as int, true);
        if pieces.len() > 0 {
            lemma_joined_not_empty(pieces);
        }
        if contents.len() == total {
            let t2 = if pieces.len() > 0 {
                r2.incoming->0
            } else {
                r2.incoming->0.begun(index as u32)
            };
            assert(t2.completed(msg->FileComplete_size, msg->FileComplete_sha256).0.kept == kept);
            assert(done + seq![commit].push(ActionView::Publish { paths: t.target_paths() })
                =~= commitments(t, total).push(ActionView::Publish { paths: t.target_paths() }));
        } else {
            assert(done + seq![commit] =~= commitments(t, contents.len()));
        }
    }
}

/// A whole transfer arrives: once every file of an accepted offer was sent and
/// announced, all of them have been committed, in order, and then all of them
/// are published.
pub proof fn law_whole_transfer_arrives(
    sender: SenderView,
    accepting: TransfersView,
    files: Seq<FileView>,
    names: Seq<Seq<char>>,
    contents: Seq<Seq<Vec<u8>>>,
    end: Vec<u8>,
)
    requires
        0 < files.len() <= MAX_INDICES,
        contents.len() == files.len(),
        accepting.is_valid(),
        are_safe_forms_of(files, names),
        queues_all(sender, files.len()),
        can_be_exchanged(contents),
        end@.len() == 0,
    ensures
        ({
            let receiver = accepting.after_accept(sender.id, files, names).0;
            let (s, r, actions) = exchanged_files(sender, receiver, contents, end);
            let t = receiver.incoming->0;
            &&& s.phase is Finished
            &&& r.incoming is None
            &&& actions == commitments(t, files.len()).push(
                ActionView::Publish { paths: t.target_paths() },
            )
        }),
{
    let receiver = accepting.after_accept(sender.id, files, names).0;
    lemma_first_files_arrive(sender, receiver, contents, end, files.len());
}

/// Nothing is published but a whole transfer: the last file is announced, and
/// with the size and the digest of what was written to it, and every other
/// file was committed before.
pub proof fn law_only_whole_transfers_are_published(
    receiver: TransfersView,
    msg: MessageView,
    i: int,
)
    requires
        receiver.is_valid(),
        0 <= i < receiver.after_message(msg).1.len(),
        receiver.after_message(msg).1[i] is Publish,
    ensures
        ({
            let t = receiver.incoming->0;
            let last = t.files.len() - 1;
            &&& receiver.incoming is Some
            &&& msg matches MessageView::FileComplete { id, file_index, size, sha256 }
            &&& id == t.id
            &&& file_index == last
            &&& t.current matches Some(part)
            &&& part.index == last
            &&& part.content matches Some(content)
            &&& content.len() == size
            &&& sha256_of(content) == sha256
            &&& forall|k: int| 0 <= k < last ==> #[trigger] t.kept[k]
            &&& receiver.after_message(msg).1 == seq![
                ActionView::Commit {
                    part: part_path(t.id, t.names[last]),
                    target: target_path(t.id, t.names[last]),
                },
                ActionView::Publish { paths: t.target_paths() },
            ]
        }),
{
    let t = receiver.incoming->0;
    let last = t.files.len() - 1;
    let (after, actions) = t.completed(msg->FileComplete_size, msg->FileComplete_sha256);
    assert(after.kept[last]);
    assert forall|k: int| 0 <= k < last implies #[trigger] t.kept[k] by {
        assert(after.kept[k]);
    }
    assert(receiver.after_message(msg).1 =~= actions.push(
        ActionView::Publish { paths: t.target_paths() },
    ));
}

/// A damaged or incomplete last file ends the transfer, and nothing is
/// published.
pub proof fn law_damaged_last_file_publishes_nothing(
    receiver: TransfersView,
    id: u64,
    size: u64,
    sha256: Seq<u8>,
)
    requires
        receiver.is_valid(),
        receiver.is_receiving(id),
        receiver.incoming->0.current matches Some(part) && part.index
            == receiver.incoming->0.files.len() - 1 && (part.content matches Some(content)
            ==> content.len() != size || sha256_of(content) != sha256),
    ensures
        ({
            let file_index = (receiver.incoming->0.files.len() - 1) as u32;
            let (after, actions) = receiver.after_message(
                MessageView::FileComplete { id, file_index, size, sha256 },
            );
            &&& after.incoming is None
            &&& actions.len() > 0
            &&& actions.last() == ActionView::Close
            &&& forall|i: int| 0 <= i < actions.len() ==> !((#[trigger] actions[i]) is Publish)
        }),
{
    let t = receiver.incoming->0;
    let (after, actions) = t.completed(size, sha256);
    assert(!after.kept[t.files.len() - 1]);
}

/// A file that is created without any content is kept only with the digest of
/// nothing, and published only with all the others.
pub proof fn law_only_empty_files_are_created(
    receiver: TransfersView,
    end: EndView,
    ok: bool,
    i: int,
)
    requires
        receiver.is_valid(),
        0 <= i < receiver.after_empty(end, ok).1.len(),
    ensures
        ({
            let t = receiver.incoming->0;
            &&& ok
            &&& receiver.is_receiving(end.id)
            &&& t.misses(end.file_index)
            &&& match receiver.after_empty(end, ok).1[i] {
                ActionView::Commit { part, target } => sha256_of(Seq::<u8>::empty()) == end.sha256
                    && are_paths_of(t, end.file_index as int, part, target),
                ActionView::Publish { paths } => {
                    &&& sha256_of(Seq::<u8>::empty()) == end.sha256
                    &&& paths == t.target_paths()
                    &&& end.file_index == t.files.len() - 1
                    &&& forall|k: int| 0 <= k < t.files.len() - 1 ==> #[trigger] t.kept[k]
                },
                ActionView::Discard { part } => sha256_of(Seq::<u8>::empty()) != end.sha256,
                action => action == ActionView::Close,
            }
        }),
{
    let t = receiver.incoming->0;
    let begun = TransfersView { incoming: Some(t.begun(end.file_index)), ..receiver };
    let msg = MessageView::FileComplete {
        id: end.id,
        file_index: end.file_index,
        size: 0,
        sha256: end.sha256,
    };
    if begun.after_message(msg).1[i] is Publish {
        law_only_whole_transfers_are_published(begun, msg, i);
        assert(begun.incoming->0.target_paths() =~= t.target_paths());
        assert forall|k: int| 0 <= k < t.files.len() - 1 implies #[trigger] t.kept[k] by {
            assert(begun.incoming->0.kept[k]);
        }
    }
}

/// A file counts as arrived from its commitment on, and for no other reason.
pub proof fn law_only_commitments_count(receiver: TransfersView, msg: MessageView, k: int)
    requires
        receiver.is_valid(),
        receiver.incoming is Some,
        receiver.after_message(msg).0.incoming is Some,
        0 <= k < receiver.incoming->0.files.len(),
    ensures
        ({
            let t = receiver.incoming->0;
            receiver.after_message(msg).0.incoming->0.kept[k] ==> t.kept[k]
                || receiver.after_message(msg).1 == seq![
                ActionView::Commit {
                    part: part_path(t.id, t.names[k]),
                    target: target_path(t.id, t.names[k]),
                },
            ]
        }),
{
}

/// Whether `after` is still the transfer that `before` was, as far as it
/// lasts: the same files, under the same names.
pub open spec fn same_transfer(before: TransfersView, after: TransfersView) -> bool {
    after.incoming matches Some(t) ==> {
        &&& before.incoming matches Some(b)
        &&& t.id == b.id
        &&& t.files == b.files
        &&& t.names == b.names
    }
}

/// From the time that an offer is accepted until its transfer ends, neither a
/// message nor what came of an action changes which files it has or what they
/// are called. So the paths of `OpenPart`, `Commit` and `Publish` are made of
/// what is left of the offered names.
pub proof fn law_names_last(
    receiver: TransfersView,
    msg: MessageView,
    chunk: ChunkView,
    end: EndView,
    ok: bool,
)
    requires
        receiver.is_valid(),
    ensures
        same_transfer(receiver, receiver.after_message(msg).0),
        same_transfer(receiver, receiver.after_empty(end, ok).0),
        same_transfer(receiver, receiver.after_open(chunk, ok).0),
        same_transfer(receiver, receiver.after_write(chunk, ok).0),
        receiver.incoming is Some && are_safe_forms_of(
            receiver.incoming->0.files,
            receiver.incoming->0.names,
        ) ==> {
            &&& receiver.after_message(msg).0.incoming matches Some(t) ==> are_safe_forms_of(
                t.files,
                t.names,
            )
            &&& receiver.after_empty(end, ok).0.incoming matches Some(t) ==> are_safe_forms_of(
                t.files,
                t.names,
            )
            &&& receiver.after_open(chunk, ok).0.incoming matches Some(t) ==> are_safe_forms_of(
                t.files,
                t.names,
            )
            &&& receiver.after_write(chunk, ok).0.incoming matches Some(t) ==> are_safe_forms_of(
                t.files,
                t.names,
            )
        },
{
}

/// Whether `paths` are those of the file `index` of `transfer`.
pub open spec fn are_paths_of(
    transfer: IncomingView,
    index: int,
    part: Seq<Seq<char>>,
    target: Seq<Seq<char>>,
) -> bool {
    &&& 0 <= index < transfer.files.len()
    &&& part == part_path(transfer.id, transfer.names[index])
    &&& target == target_path(transfer.id, transfer.names[index])
}

/// A message leads to no other path than those of the files of the transfer.
pub proof fn law_paths_are_those_of_the_transfer(
    receiver: TransfersView,
    msg: MessageView,
    i: int,
)
    requires
        receiver.is_valid(),
        0 <= i < receiver.after_message(msg).1.len(),
    ensures
        match receiver.after_message(msg).1[i] {
            ActionView::OpenPart { path, chunk } => receiver.incoming is Some && path == part_path(
                receiver.incoming->0.id,
                receiver.incoming->0.names[chunk.file_index as int],
            ) && chunk.file_index < receiver.incoming->0.files.len(),
            ActionView::CreateEmpty { path, end } => receiver.incoming is Some && path
                == part_path(
                receiver.incoming->0.id,
                receiver.incoming->0.names[end.file_index as int],
            ) && end.file_index < receiver.incoming->0.files.len(),
            ActionView::Commit { part, target } => receiver.incoming is Some && are_paths_of(
                receiver.incoming->0,
                receiver.incoming->0.current->0.index as int,
                part,
                target,
            ),
            ActionView::Discard { part } => receiver.incoming is Some && part == part_path(
                receiver.incoming->0.id,
                receiver.incoming->0.names[receiver.incoming->0.current->0.index as int],
            ),
            ActionView::Publish { paths } => receiver.incoming is Some && paths
                == receiver.incoming->0.target_paths(),
            _ => true,
        },
{
}

/// A received file is put in its place only when a peer announces its end,
/// and then only with the size and the digest of what was written to it.
pub proof fn law_only_intact_files_are_kept(receiver: TransfersView, msg: MessageView, i: int)
    requires
        receiver.is_valid(),
        0 <= i < receiver.after_message(msg).1.len(),
        receiver.after_message(msg).1[i] is Commit,
    ensures
        ({
            &&& msg matches MessageView::FileComplete { id, file_index, size, sha256 }
            &&& receiver.is_receiving(id)
            &&& receiver.incoming->0.is_at(file_index)
            &&& receiver.incoming->0.current->0.content matches Some(content)
            &&& content.len() == size
            &&& sha256_of(content) == sha256
        }),
{
}

/// Only the chunk that continues the open file is written to it.
pub proof fn law_only_the_next_chunk_is_written(
    receiver: TransfersView,
    msg: MessageView,
    i: int,
)
    requires
        0 <= i < receiver.after_message(msg).1.len(),
        receiver.after_message(msg).1[i] is WritePart,
    ensures
        ({
            &&& msg matches MessageView::FileChunk { id, file_index, offset, data }
            &&& receiver.is_receiving(id)
            &&& receiver.incoming->0.current matches Some(part)
            &&& part.content is Some
            &&& part.written == offset
        }),
{
}

/// An error ends what it is about, in either direction, and nothing else.
pub proof fn law_error_ends_the_transfer(transfers: TransfersView, id: u64, code: u16)
    ensures
        ({
            let after = transfers.after_message(MessageView::Error { id, code }).0;
            &&& !after.is_receiving(id)
            &&& !after.is_offering(id)
            &&& !transfers.is_receiving(id) ==> after.incoming == transfers.incoming
            &&& !transfers.is_offering(id) ==> after.outgoing == transfers.outgoing
        }),
{
}

proof fn lemma_requested_in_order(paths: Seq<Seq<char>>, n: nat)
    requires
        n <= paths.len() <= MAX_INDICES,
    ensures
        requested_files(paths, all_indices(n)) == Seq::new(
            n,
            |i: int| (i as u32, paths[i]),
        ),
    decreases n,
{
    let expected = Seq::new(n, |i: int| (i as u32, paths[i]));
    if n > 0 {
        let m = (n - 1) as nat;
        lemma_requested_in_order(paths, m);
        assert(all_indices(n).drop_last() =~= all_indices(m));
        assert(requested_files(paths, all_indices(n)) =~= expected);
    } else {
        assert(requested_files(paths, all_indices(n)) =~= expected);
    }
}

/// A peer that accepts an offer is sent all of its files, in order.
pub proof fn law_accepted_offer_is_sent_whole(
    offering: TransfersView,
    accepting: TransfersView,
    names: Seq<Seq<char>>,
)
    requires
        offering.is_valid(),
        offering.outgoing is Some,
        offering.outgoing->0.files.len() <= MAX_INDICES,
    ensures
        ({
            let offer = offering.outgoing->0;
            let answer = accepting.after_accept(offer.id, offer.files, names).1;
            &&& answer.len() == 1
            &&& answer[0] matches ActionView::Send(request)
            &&& offering.after_message(request).1 == seq![
                ActionView::StartSending {
                    id: offer.id,
                    queue: Seq::new(
                        offer.files.len(),
                        |i: int| (i as u32, offer.paths[i]),
                    ),
                },
            ]
        }),
{
    lemma_requested_in_order(offering.outgoing->0.paths, offering.outgoing->0.files.len());
}

/// What is chosen for an offer fits the wire format: the offer reaches the
/// peer whole, and so does the request for all of its files.
pub proof fn law_selected_files_fit_the_wire(selection: SelectionView, id: u64)
    requires
        selection.within_limits(),
    ensures
        in_limits(MessageView::FileOffer { id, files: selection.files }),
        in_limits(
            MessageView::FileRequest { id, file_indices: all_indices(selection.files.len()) },
        ),
{
}

} // verus!
