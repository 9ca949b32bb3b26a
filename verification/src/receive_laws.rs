//! What the receiving side does about each message and each report.

use vstd::prelude::*;

use crate::digest::sha256_of;
use crate::file_task::{action_views, are_safe_forms_of, requested_files, ActionView, ChunkView};
use crate::file_task::{EndView, FileAction, FileTransfers, IncomingView, TransfersView};
use crate::paths::{has_plain_separators, is_safe_form_of, part_path, slash_file_name};
use crate::paths::target_path;
use crate::protocol::{file_views, ClipboardMessage, FileMetadata, FileView, MessageView};

verus! {

/// Whether a transfer with this identifier is being received.
pub open spec fn receives(transfers: TransfersView, id: u64) -> bool {
    transfers.incoming is Some && transfers.incoming->0.id == id
}

/// Whether files are on offer under this identifier.
pub open spec fn offers(transfers: TransfersView, id: u64) -> bool {
    transfers.outgoing is Some && transfers.outgoing->0.id == id
}

/// Every offer is taken up, whatever else is going on: it gets its directory.
/// Once that was made, the new transfer is the one that is received, nothing
/// of it has arrived, and every file of it is requested, in order. What was
/// received before is replaced; what is on offer here stays. An index has 32
/// bits, so of more files than that can tell apart the first are requested.
pub proof fn law_every_offer_is_taken_up(
    receiver: TransfersView,
    id: u64,
    files: Seq<FileView>,
    names: Seq<Seq<char>>,
)
    ensures
        receiver.after_message(MessageView::FileOffer { id, files }).0 == receiver,
        ({
            let actions = receiver.after_message(MessageView::FileOffer { id, files }).1;
            &&& actions.len() == 1
            &&& actions[0] matches ActionView::CreateDir { id: made, files: listed }
            &&& made == id
            &&& listed == files
        }),
        ({
            let (after, actions) = receiver.after_accept(id, files, names);
            &&& after.outgoing == receiver.outgoing
            &&& after.incoming matches Some(t)
            &&& t.id == id
            &&& t.files == files
            &&& t.names == names
            &&& t.current is None
            &&& t.kept.len() == files.len()
            &&& forall|i: int| 0 <= i < files.len() ==> !(#[trigger] t.kept[i])
            &&& actions.len() == 1
            &&& actions[0] matches ActionView::Send(
                MessageView::FileRequest { id: asked, file_indices },
            )
            &&& asked == id
            &&& files.len() <= 0x1_0000_0000 ==> file_indices.len() == files.len()
            &&& files.len() > 0x1_0000_0000 ==> file_indices.len() == 0x1_0000_0000
            &&& forall|i: int| 0 <= i < file_indices.len() ==> #[trigger] file_indices[i] == i
        }),
{
}

/// A chunk of another file than the current one has that file opened; any
/// other chunk is written where the open file ends, and nowhere else. A chunk
/// changes nothing by itself.
pub proof fn law_chunk_opens_or_continues(
    receiver: TransfersView,
    id: u64,
    file_index: u32,
    offset: u64,
    data: Seq<u8>,
)
    ensures
        ({
            let (after, actions) = receiver.after_message(
                MessageView::FileChunk { id, file_index, offset, data },
            );
            let chunk = ChunkView { id, file_index, offset, data };
            let t = receiver.incoming->0;
            let part = t.current->0;
            let is_current = t.current is Some && part.index == file_index;
            let opens = receives(receiver, id) && !is_current && file_index < t.files.len();
            let writes = receives(receiver, id) && !opens && t.current is Some && part.content
                is Some && part.written == offset;
            &&& after == receiver
            &&& opens ==> actions.len() == 1 && actions[0] == (ActionView::OpenPart {
                path: part_path(id, t.names[file_index as int]),
                chunk,
            })
            &&& writes ==> actions.len() == 1 && actions[0] == (ActionView::WritePart { chunk })
            &&& !opens && !writes ==> actions.len() == 0
        }),
{
}

/// A file that was opened is the current one, and empty; the chunk that it was
/// opened for is written if it begins the file. Where it could not be opened,
/// the file before it stays the current one, and only a chunk that continues
/// that one is written.
pub proof fn law_opened_file_is_current(receiver: TransfersView, chunk: ChunkView, ok: bool)
    ensures
        ({
            let (after, actions) = receiver.after_open(chunk, ok);
            let t = receiver.incoming->0;
            let concerned = receives(receiver, chunk.id) && chunk.file_index < t.files.len();
            &&& after.outgoing == receiver.outgoing
            &&& !concerned || !ok ==> after == receiver
            &&& !concerned ==> actions.len() == 0
            &&& concerned && !ok ==> if t.current is Some && t.current->0.content is Some
                && t.current->0.written == chunk.offset {
                actions.len() == 1 && actions[0] == (ActionView::WritePart { chunk })
            } else {
                actions.len() == 0
            }
            &&& concerned && ok ==> {
                let now = after.incoming->0;
                &&& after.incoming is Some
                &&& now.id == t.id
                &&& now.files == t.files
                &&& now.names == t.names
                &&& now.kept == t.kept
                &&& now.current matches Some(part)
                &&& part.index == chunk.file_index
                &&& part.written == 0
                &&& part.content matches Some(content)
                &&& content.len() == 0
                &&& chunk.offset == 0 ==> actions.len() == 1 && actions[0]
                    == (ActionView::WritePart { chunk })
                &&& chunk.offset != 0 ==> actions.len() == 0
            }
        }),
{
}

/// What was written is appended to what is known of the open file, and
/// acknowledged to the sender with the position of the chunk. What could not
/// be written, or does not continue the open file, changes nothing.
pub proof fn law_written_chunk_is_acknowledged(
    receiver: TransfersView,
    chunk: ChunkView,
    ok: bool,
)
    ensures
        ({
            let (after, actions) = receiver.after_write(chunk, ok);
            let t = receiver.incoming->0;
            let part = t.current->0;
            let continues = ok && receives(receiver, chunk.id) && t.current is Some
                && part.content is Some && part.written == chunk.offset;
            &&& after.outgoing == receiver.outgoing
            &&& !continues ==> after == receiver && actions.len() == 0
            &&& continues ==> {
                let now = after.incoming->0;
                &&& after.incoming is Some
                &&& now.id == t.id
                &&& now.files == t.files
                &&& now.names == t.names
                &&& now.kept == t.kept
                &&& now.current matches Some(p)
                &&& p.index == part.index
                &&& p.written == part.written + chunk.data.len()
                &&& p.content matches Some(content)
                &&& content == part.content->0 + chunk.data
                &&& actions.len() == 1
                &&& actions[0] matches ActionView::Send(
                    MessageView::FileChunkAck { id, file_index, offset },
                )
                &&& id == chunk.id
                &&& file_index == chunk.file_index
                &&& offset == chunk.offset
            }
        }),
{
}

/// The announced end of the current file: with the size and the digest of what
/// was written it is put in its place and counts as arrived; with the size
/// alone it is thrown away; with another size nothing is done about it. The
/// end of the last file ends the transfer, that of another keeps it.
pub proof fn law_end_of_the_current_file(
    receiver: TransfersView,
    file_index: u32,
    size: u64,
    sha256: Seq<u8>,
)
    requires
        receiver.is_valid(),
        receiver.incoming matches Some(t) && t.current is Some && t.current->0.index == file_index,
    ensures
        ({
            let t = receiver.incoming->0;
            let part = t.current->0;
            let (after, actions) = receiver.after_message(
                MessageView::FileComplete { id: t.id, file_index, size, sha256 },
            );
            let name = t.names[file_index as int];
            let closes = part.content is Some && part.written == size;
            let intact = closes && sha256_of(part.content->0) == sha256;
            let is_last = file_index == t.files.len() - 1;
            &&& after.outgoing == receiver.outgoing
            &&& intact ==> actions.len() > 0 && actions[0] == (ActionView::Commit {
                part: part_path(t.id, name),
                target: target_path(t.id, name),
            })
            &&& closes && !intact ==> actions.len() > 0 && actions[0] == (ActionView::Discard {
                part: part_path(t.id, name),
            })
            &&& is_last ==> {
                &&& after.incoming is None
                &&& actions.len() == (if closes {
                    2int
                } else {
                    1
                })
                &&& actions.last() is Publish || actions.last() is Close
                &&& actions.last() is Publish <==> intact && (forall|k: int|
                    0 <= k < file_index ==> #[trigger] t.kept[k])
                &&& actions.last() matches ActionView::Publish { paths } ==> {
                    &&& paths.len() == t.names.len()
                    &&& forall|k: int|
                        0 <= k < paths.len() ==> #[trigger] paths[k] == target_path(
                            t.id,
                            t.names[k],
                        )
                }
            }
            &&& !is_last ==> {
                let now = after.incoming->0;
                &&& after.incoming is Some
                &&& now.id == t.id
                &&& now.files == t.files
                &&& now.names == t.names
                &&& now.current is Some
                &&& now.current->0.index == file_index
                &&& now.current->0.written == part.written
                &&& closes ==> now.current->0.content is None
                &&& !closes ==> now.current->0.content == part.content
                &&& now.kept.len() == t.kept.len()
                &&& forall|k: int|
                    0 <= k < t.kept.len() ==> #[trigger] now.kept[k] == (t.kept[k] || (k
                        == file_index && intact))
                &&& actions.len() == (if closes {
                    1int
                } else {
                    0
                })
            }
        }),
{
    let t = receiver.incoming->0;
    let part = t.current->0;
    let (done, actions) = t.completed(size, sha256);
    let last = t.files.len() - 1;
    if file_index == last {
        if done.is_whole() {
            assert(done.kept[last]);
            assert forall|k: int| 0 <= k < file_index implies #[trigger] t.kept[k] by {
                assert(done.kept[k]);
            }
        } else {
            let k = choose|k: int| 0 <= k < done.kept.len() && !(#[trigger] done.kept[k]);
            if k < file_index {
                assert(!t.kept[k]);
            }
        }
    }
}

/// The announced end of a file that is not the current one: nothing comes of
/// it, unless the file is empty and has not arrived, and is then created.
pub proof fn law_end_of_another_file(
    receiver: TransfersView,
    id: u64,
    file_index: u32,
    size: u64,
    sha256: Seq<u8>,
)
    requires
        !(receives(receiver, id) && receiver.incoming->0.current is Some
            && receiver.incoming->0.current->0.index == file_index),
    ensures
        ({
            let (after, actions) = receiver.after_message(
                MessageView::FileComplete { id, file_index, size, sha256 },
            );
            let t = receiver.incoming->0;
            let creates = receives(receiver, id) && size == 0 && file_index < t.files.len()
                && !t.kept[file_index as int];
            &&& after == receiver
            &&& !creates ==> actions.len() == 0
            &&& creates ==> {
                &&& actions.len() == 1
                &&& actions[0] matches ActionView::CreateEmpty { path, end }
                &&& path == part_path(id, t.names[file_index as int])
                &&& end.id == id
                &&& end.file_index == file_index
                &&& end.sha256 == sha256
            }
        }),
{
}

/// An empty file that was created is complete at once: it is put in its place
/// if its digest is that of no bytes, and thrown away otherwise. One that could
/// not be created, or is not missing any more, changes nothing.
pub proof fn law_created_file_is_complete(receiver: TransfersView, end: EndView, ok: bool)
    requires
        receiver.is_valid(),
    ensures
        ({
            let (after, actions) = receiver.after_empty(end, ok);
            let t = receiver.incoming->0;
            let concerned = ok && receives(receiver, end.id) && end.file_index < t.files.len()
                && !t.kept[end.file_index as int] && !(t.current is Some && t.current->0.index
                == end.file_index);
            let name = t.names[end.file_index as int];
            let is_last = end.file_index == t.files.len() - 1;
            &&& after.outgoing == receiver.outgoing
            &&& !concerned ==> after == receiver && actions.len() == 0
            &&& concerned && sha256_of(Seq::<u8>::empty()) == end.sha256 ==> actions.len() > 0
                && actions[0] == (ActionView::Commit {
                part: part_path(end.id, name),
                target: target_path(end.id, name),
            })
            &&& concerned && sha256_of(Seq::<u8>::empty()) != end.sha256 ==> actions.len() > 0
                && actions[0] == (ActionView::Discard { part: part_path(end.id, name) })
            &&& concerned && is_last ==> {
                &&& after.incoming is None
                &&& actions.len() == 2
                &&& actions[1] is Publish || actions[1] is Close
                &&& actions[1] is Publish <==> sha256_of(Seq::<u8>::empty()) == end.sha256 && (
                forall|k: int| 0 <= k < end.file_index ==> #[trigger] t.kept[k])
            }
            &&& concerned && !is_last ==> {
                let now = after.incoming->0;
                &&& after.incoming is Some
                &&& actions.len() == 1
                &&& now.id == t.id
                &&& now.names == t.names
                &&& now.kept.len() == t.kept.len()
                &&& forall|k: int|
                    0 <= k < t.kept.len() ==> #[trigger] now.kept[k] == (t.kept[k] || (k
                        == end.file_index && sha256_of(Seq::<u8>::empty()) == end.sha256))
            }
        }),
{
    let t = receiver.incoming->0;
    if ok && receives(receiver, end.id) && t.misses(end.file_index) {
        let begun = TransfersView {
            incoming: Some(t.begun(end.file_index)),
            ..receiver
        };
        law_end_of_the_current_file(begun, end.file_index, 0, end.sha256);
    }
}

/// An error has the directory of its transfer removed if that is being
/// received, and the sending stopped if it is of files on offer here; it does
/// nothing else.
pub proof fn law_error_cleans_up(transfers: TransfersView, id: u64, code: u16)
    ensures
        ({
            let (after, actions) = transfers.after_message(MessageView::Error { id, code });
            &&& receives(transfers, id) ==> after.incoming is None && actions.len() > 0
                && actions[0] == (ActionView::RemoveDir { id })
            &&& !receives(transfers, id) ==> after.incoming == transfers.incoming
            &&& offers(transfers, id) ==> after.outgoing is None && actions.len() > 0
                && actions.last() == ActionView::StopSending
            &&& !offers(transfers, id) ==> after.outgoing == transfers.outgoing
            &&& actions.len() == (if receives(transfers, id) {
                1int
            } else {
                0
            }) + (if offers(transfers, id) {
                1int
            } else {
                0
            })
        }),
{
}

/// A request is answered out of the files on offer: each requested index with
/// its own path, in the order of the request; an index beyond the offer is
/// passed over. Nothing comes of a request for anything else.
pub proof fn law_request_starts_the_sending(
    transfers: TransfersView,
    id: u64,
    file_indices: Seq<u32>,
)
    ensures
        ({
            let (after, actions) = transfers.after_message(
                MessageView::FileRequest { id, file_indices },
            );
            let offer = transfers.outgoing->0;
            &&& after.incoming == transfers.incoming
            &&& !offers(transfers, id) ==> after == transfers && actions.len() == 0
            &&& offers(transfers, id) ==> {
                let now = after.outgoing->0;
                &&& after.outgoing is Some
                &&& now.id == offer.id
                &&& now.paths == offer.paths
                &&& now.files == offer.files
                &&& now.sending
                &&& actions.len() == 1
                &&& actions[0] matches ActionView::StartSending { id: of, queue }
                &&& of == id
                &&& queue == requested_files(offer.paths, file_indices)
            }
        }),
{
}

/// What is sent for several requested indices is what is sent for each of
/// them, in turn: the file of that index, if the offer has one.
pub proof fn law_requested_files_in_turn(
    paths: Seq<Seq<char>>,
    first: Seq<u32>,
    then: Seq<u32>,
    index: u32,
)
    ensures
        requested_files(paths, first + then) == requested_files(paths, first) + requested_files(
            paths,
            then,
        ),
        requested_files(paths, seq![index]) == if index < paths.len() {
            seq![(index, paths[index as int])]
        } else {
            Seq::<(u32, Seq<char>)>::empty()
        },
        requested_files(paths, Seq::<u32>::empty()).len() == 0,
    decreases then.len(),
{
    reveal_with_fuel(requested_files, 2);
    assert(seq![index].drop_last() =~= seq![]);
    if then.len() == 0 {
        assert(first + then =~= first);
        assert(requested_files(paths, first) + requested_files(paths, then) =~= requested_files(
            paths,
            first,
        ));
    } else {
        law_requested_files_in_turn(paths, first, then.drop_last(), index);
        assert((first + then).drop_last() =~= first + then.drop_last());
        assert((first + then).last() == then.last());
        assert(requested_files(paths, first + then) =~= requested_files(paths, first)
            + requested_files(paths, then));
    }
    assert(requested_files(paths, seq![index]) =~= if index < paths.len() {
        seq![(index, paths[index as int])]
    } else {
        seq![]
    });
}

/// An acknowledgement is handed to the sender of its transfer, as it came, and
/// to no other.
pub proof fn law_acknowledgement_is_delivered(
    transfers: TransfersView,
    id: u64,
    file_index: u32,
    offset: u64,
)
    ensures
        ({
            let (after, actions) = transfers.after_message(
                MessageView::FileChunkAck { id, file_index, offset },
            );
            let wanted = offers(transfers, id) && transfers.outgoing->0.sending;
            &&& after == transfers
            &&& wanted ==> actions.len() == 1 && actions[0] == (ActionView::DeliverAck {
                id,
                file_index,
                offset,
            })
            &&& !wanted ==> actions.len() == 0
        }),
{
}

/// Messages that are not about files change nothing here.
pub proof fn law_messages_of_others_change_nothing(transfers: TransfersView, msg: MessageView)
    requires
        msg is Hello || msg is HelloAck || msg is Offer || msg is Request || msg is Data,
    ensures
        transfers.after_message(msg).0 == transfers,
        transfers.after_message(msg).1.len() == 0,
{
}

/// Chosen files are offered to the peers, under the given identifier, and
/// replace what was on offer before, whose sending is stopped. Where nothing
/// was chosen, nothing happens. What is being received stays.
pub proof fn law_chosen_files_are_offered(
    transfers: TransfersView,
    id: u64,
    paths: Seq<Seq<char>>,
    files: Seq<FileView>,
)
    ensures
        ({
            let (after, actions) = transfers.after_local_files(id, paths, files);
            &&& after.incoming == transfers.incoming
            &&& files.len() == 0 ==> after == transfers && actions.len() == 0
            &&& files.len() > 0 ==> {
                let offer = after.outgoing->0;
                &&& after.outgoing is Some
                &&& offer.id == id
                &&& offer.paths == paths
                &&& offer.files == files
                &&& !offer.sending
                &&& actions.len() == (if transfers.outgoing is Some {
                    2int
                } else {
                    1
                })
                &&& transfers.outgoing is Some ==> actions[0] == ActionView::StopSending
                &&& actions.last() matches ActionView::Send(
                    MessageView::FileOffer { id: of, files: listed },
                )
                &&& of == id
                &&& listed == files
            }
        }),
{
}

/// A peer that connects is told of the files on offer, with their identifier,
/// if there are any.
pub proof fn law_files_on_offer_are_repeated(transfers: TransfersView)
    ensures
        transfers.outgoing is None ==> transfers.connect_actions().len() == 0,
        transfers.outgoing matches Some(offer) ==> {
            &&& transfers.connect_actions().len() == 1
            &&& transfers.connect_actions()[0] matches ActionView::Send(
                MessageView::FileOffer { id, files },
            )
            &&& id == offer.id
            &&& files == offer.files
        },
{
}

/// All files of a transfer are published, each at the path where it was put,
/// in the order of the offer.
pub proof fn law_published_paths(transfer: IncomingView)
    ensures
        transfer.target_paths().len() == transfer.names.len(),
        forall|i: int|
            0 <= i < transfer.names.len() ==> #[trigger] transfer.target_paths()[i] == target_path(
                transfer.id,
                transfer.names[i],
            ),
{
}

/// An offer leads to one action, whatever the receiver is doing: to make the
/// directory of that very transfer, for those very files.
pub proof fn law_offer_asks_for_its_directory(
    receiver: &mut FileTransfers,
    id: u64,
    files: Vec<FileMetadata>,
    actions: Vec<FileAction>,
)
    requires
        call_ensures(
            FileTransfers::handle_incoming_message,
            (receiver, ClipboardMessage::FileOffer { id, files }),
            actions,
        ),
    ensures
        final(receiver)@ == old(receiver)@,
        actions@.len() == 1,
        actions@[0] matches FileAction::CreateDir { id: made, files: listed } && made == id
            && file_views(listed@) == file_views(files@),
{
    let views = action_views(actions@);
    assert(views.len() == actions@.len());
    assert(views[0] == actions@[0]@);
}

/// Once the directory was made, the offered transfer is the one that is
/// received, and all of its files are requested. Where it could not be made,
/// nothing changes.
pub proof fn law_made_directory_begins_the_transfer(
    receiver: &mut FileTransfers,
    id: u64,
    files: Vec<FileMetadata>,
    ok: bool,
    actions: Vec<FileAction>,
)
    requires
        call_ensures(FileTransfers::dir_created, (receiver, id, files, ok), actions),
        files@.len() <= 0x1_0000_0000,
    ensures
        final(receiver)@.outgoing == old(receiver)@.outgoing,
        !ok ==> final(receiver)@ == old(receiver)@ && actions@.len() == 0,
        ok ==> {
            &&& final(receiver)@.incoming matches Some(t)
            &&& t.id == id
            &&& t.files == file_views(files@)
            &&& t.names.len() == files@.len()
            &&& forall|i: int|
                0 <= i < files@.len() && has_plain_separators(file_views(files@)[i].name)
                    ==> #[trigger] t.names[i] == match slash_file_name(file_views(files@)[i].name) {
                    Some(last) if !last.contains('/') => last,
                    _ => Seq::<char>::empty(),
                }
            &&& forall|i: int|
                0 <= i < files@.len() ==> !(#[trigger] t.names[i]).contains('/') && t.names[i]
                    != ".."@ && t.names[i] != "."@
            &&& t.current is None
            &&& forall|i: int| 0 <= i < t.kept.len() ==> !(#[trigger] t.kept[i])
            &&& actions@.len() == 1
            &&& actions@[0] matches FileAction::Send(msg)
            &&& msg@ matches MessageView::FileRequest { id: asked, file_indices }
            &&& asked == id
            &&& file_indices.len() == files@.len()
            &&& forall|i: int| 0 <= i < files@.len() ==> #[trigger] file_indices[i] == i
        },
{
    if ok {
        let names = choose|names: Seq<Seq<char>>| #[trigger]
            are_safe_forms_of(file_views(files@), names) && (
            final(receiver)@,
            action_views(actions@),
            ) == old(receiver)@.after_accept(id, file_views(files@), names);
        law_every_offer_is_taken_up(old(receiver)@, id, file_views(files@), names);
        assert forall|i: int|
            0 <= i < files@.len() && has_plain_separators(
                file_views(files@)[i].name,
            ) implies #[trigger] names[i] == match slash_file_name(file_views(files@)[i].name) {
            Some(last) if !last.contains('/') => last,
            _ => Seq::<char>::empty(),
        } by {
            assert(is_safe_form_of(file_views(files@)[i].name, names[i]));
        }
        let views = action_views(actions@);
        assert(views.len() == actions@.len());
        assert(views[0] == actions@[0]@);
    }
}

/// At the start nothing is on offer and nothing is received.
pub proof fn law_transfers_begin_empty(fresh: FileTransfers)
    requires
        call_ensures(FileTransfers::new, (), fresh),
    ensures
        fresh@.outgoing is None,
        fresh@.incoming is None,
{
}

/// The open file takes as much as a digest can run over.
pub proof fn law_room_in_the_open_file(transfers: FileTransfers, len: usize, r: bool)
    requires
        call_ensures(FileTransfers::has_room_for, (&transfers, len), r),
    ensures
        !(transfers@.incoming is Some && transfers@.incoming->0.current is Some) ==> r,
        transfers@.incoming is Some && transfers@.incoming->0.current is Some ==> (r
            <==> transfers@.incoming->0.current->0.written + len <= 0x1FFF_FFFF_FFFF_FFFF),
{
}

} // verus!
