//! What values say is what their fields hold, one for one.

use vstd::prelude::*;

use crate::file_sender::{indexed_paths, SenderAction, SenderActionView};
use crate::file_task::{action_views, all_components, ActionView, FileAction, FileChunk, FileEnd};
use crate::os_linux::{source_views, CopyMime, CopySource};
use crate::os_windows::{ClipboardWrite, ImageFailure, WriteError, WriteErrorView, WriteView};
use crate::os_windows::FailureView;
use crate::paths::{components, name_view};
use crate::protocol::{file_views, message_view, ClipboardMessage, ErrorView, FileMetadata};
use crate::protocol::ProtocolError;
use crate::scan::part_views;
use crate::task::{available_view, item_types, item_views, task_action_views, ClipboardItem};
use crate::task::{PortalInfo, TaskAction, TaskActionView};
use crate::text::texts;

verus! {

/// A list says what its entries say, in order, of whatever kind they are.
pub proof fn law_lists_entry_by_entry(
    names: Seq<String>,
    files: Seq<FileMetadata>,
    items: Seq<ClipboardItem>,
    sources: Seq<CopySource>,
    queue: Seq<(u32, String)>,
    parts: Seq<Vec<char>>,
    i: int,
)
    ensures
        texts(names).len() == names.len(),
        0 <= i < names.len() ==> texts(names)[i] == names[i]@,
        components(names) == texts(names),
        file_views(files).len() == files.len(),
        0 <= i < files.len() ==> file_views(files)[i].name == files[i].name@,
        0 <= i < files.len() ==> file_views(files)[i].size == files[i].size,
        item_views(items).len() == items.len(),
        0 <= i < items.len() ==> item_views(items)[i].mime_type == items[i].mime_type@,
        0 <= i < items.len() ==> item_views(items)[i].data == items[i].data@,
        item_types(item_views(items)).len() == items.len(),
        0 <= i < items.len() ==> item_types(item_views(items))[i] == items[i].mime_type@,
        source_views(sources).len() == sources.len(),
        0 <= i < sources.len() ==> source_views(sources)[i].data == sources[i].data@,
        0 <= i < sources.len() ==> (source_views(sources)[i].mime is None <==> sources[i].mime
            is Text),
        0 <= i < sources.len() ==> (sources[i].mime matches CopyMime::Specific(name)
            ==> source_views(sources)[i].mime == Some(name@)),
        indexed_paths(queue).len() == queue.len(),
        0 <= i < queue.len() ==> indexed_paths(queue)[i].0 == queue[i].0,
        0 <= i < queue.len() ==> indexed_paths(queue)[i].1 == queue[i].1@,
        part_views(parts).len() == parts.len(),
        0 <= i < parts.len() ==> part_views(parts)[i] == parts[i]@,
{
}

/// What may be missing says what it holds, if it is there.
pub proof fn law_what_may_be_missing(
    msg: Option<ClipboardMessage>,
    name: Option<String>,
    types: Option<Vec<String>>,
)
    ensures
        message_view(msg) is Some <==> msg is Some,
        msg is Some ==> message_view(msg)->0 == msg->0@,
        name_view(name) is Some <==> name is Some,
        name is Some ==> name_view(name)->0 == name->0@,
        available_view(types) is Some <==> types is Some,
        types is Some ==> available_view(types)->0 == texts(types->0@),
{
}

/// A message says what its fields hold.
pub proof fn law_message_field_by_field(msg: ClipboardMessage)
    ensures
        match msg {
            ClipboardMessage::Hello { protocol_version } => msg@ is Hello
                && msg@->Hello_protocol_version == protocol_version,
            ClipboardMessage::HelloAck { protocol_version } => msg@ is HelloAck
                && msg@->HelloAck_protocol_version == protocol_version,
            ClipboardMessage::Offer { id, mime_types } => msg@ is Offer && msg@->Offer_id == id
                && msg@->Offer_mime_types == texts(mime_types@),
            ClipboardMessage::Request { id, mime_types } => msg@ is Request && msg@->Request_id
                == id && msg@->Request_mime_types == texts(mime_types@),
            ClipboardMessage::Data { id, mime_type, data } => msg@ is Data && msg@->Data_id == id
                && msg@->Data_mime_type == mime_type@ && msg@->Data_data == data@,
            ClipboardMessage::Error { id, code } => msg@ is Error && msg@->Error_id == id
                && msg@->Error_code == code,
            ClipboardMessage::FileOffer { id, files } => msg@ is FileOffer && msg@->FileOffer_id
                == id && msg@->FileOffer_files == file_views(files@),
            ClipboardMessage::FileRequest { id, file_indices } => msg@ is FileRequest
                && msg@->FileRequest_id == id && msg@->FileRequest_file_indices == file_indices@,
            ClipboardMessage::FileChunk { id, file_index, offset, data } => msg@ is FileChunk
                && msg@->FileChunk_id == id && msg@->FileChunk_file_index == file_index
                && msg@->FileChunk_offset == offset && msg@->FileChunk_data == data@,
            ClipboardMessage::FileComplete { id, file_index, size, sha256 } => msg@ is FileComplete
                && msg@->FileComplete_id == id && msg@->FileComplete_file_index == file_index
                && msg@->FileComplete_size == size && msg@->FileComplete_sha256 == sha256@,
            ClipboardMessage::FileChunkAck { id, file_index, offset } => msg@ is FileChunkAck
                && msg@->FileChunkAck_id == id && msg@->FileChunkAck_file_index == file_index
                && msg@->FileChunkAck_offset == offset,
        },
{
}

/// An error says what its fields hold.
pub proof fn law_errors_field_by_field(e: ProtocolError, w: WriteError, f: ImageFailure)
    ensures
        match e {
            ProtocolError::Io(io) => e@ == ErrorView::Io(io.kind, io.message@),
            ProtocolError::Utf8(bytes) => e@ == ErrorView::Utf8(bytes@),
            ProtocolError::InvalidMessageType(tag) => e@ == ErrorView::InvalidMessageType(tag),
            ProtocolError::PayloadTooShort => e@ == ErrorView::PayloadTooShort,
            ProtocolError::FrameTooLarge(length) => e@ == ErrorView::FrameTooLarge(length),
        },
        match w {
            WriteError::NotText(bytes) => w@ == WriteErrorView::NotText(bytes@),
            WriteError::Unsupported(text) => w@ == WriteErrorView::Unsupported(text@),
        },
        match f {
            ImageFailure::Parse(text) => f@ == FailureView::Parse(text@),
            ImageFailure::Encode(text) => f@ == FailureView::Encode(text@),
        },
{
}

/// What is done for the clipboard is what the actions say.
pub proof fn law_task_actions_field_by_field(actions: Seq<TaskAction>, portal: PortalInfo, i: int)
    ensures
        task_action_views(actions).len() == actions.len(),
        0 <= i < actions.len() ==> match actions[i] {
            TaskAction::Send(msg) => task_action_views(actions)[i] == TaskActionView::Send(msg@),
            TaskAction::SetSelection(name) => task_action_views(actions)[i]
                == TaskActionView::SetSelection(name@),
            TaskAction::ReadSelection { id, mime_type } => task_action_views(actions)[i] == (
            TaskActionView::ReadSelection { id, mime_type: mime_type@ }),
            TaskAction::WriteSelection(items) => task_action_views(actions)[i]
                == TaskActionView::WriteSelection(item_views(items@)),
        },
        portal@.supported == texts(portal.supported_mime_types@),
        portal@.eager_fetch == portal.eager_fetch,
{
}

/// What is done for file transfers is what the actions say.
pub proof fn law_file_actions_field_by_field(
    actions: Seq<FileAction>,
    chunk: FileChunk,
    end: FileEnd,
    i: int,
)
    ensures
        action_views(actions).len() == actions.len(),
        0 <= i < actions.len() ==> match actions[i] {
            FileAction::Send(msg) => action_views(actions)[i] == ActionView::Send(msg@),
            FileAction::CreateDir { id, files } => action_views(actions)[i] == (
            ActionView::CreateDir { id, files: file_views(files@) }),
            FileAction::RemoveDir { id } => action_views(actions)[i] == (ActionView::RemoveDir {
                id,
            }),
            FileAction::OpenPart { path, chunk } => action_views(actions)[i] == (
            ActionView::OpenPart { path: texts(path@), chunk: chunk@ }),
            FileAction::CreateEmpty { path, end } => action_views(actions)[i] == (
            ActionView::CreateEmpty { path: texts(path@), end: end@ }),
            FileAction::WritePart { chunk } => action_views(actions)[i] == (
            ActionView::WritePart { chunk: chunk@ }),
            FileAction::Commit { part, target } => action_views(actions)[i] == (
            ActionView::Commit { part: texts(part@), target: texts(target@) }),
            FileAction::Discard { part } => action_views(actions)[i] == (ActionView::Discard {
                part: texts(part@),
            }),
            FileAction::Publish { paths } => action_views(actions)[i] == (ActionView::Publish {
                paths: all_components(paths@),
            }),
            FileAction::Close => action_views(actions)[i] == ActionView::Close,
            FileAction::StartSending { id, queue } => action_views(actions)[i] == (
            ActionView::StartSending { id, queue: indexed_paths(queue@) }),
            FileAction::StopSending => action_views(actions)[i] == ActionView::StopSending,
            FileAction::DeliverAck { id, file_index, offset } => action_views(actions)[i] == (
            ActionView::DeliverAck { id, file_index, offset }),
        },
        chunk@.id == chunk.id,
        chunk@.file_index == chunk.file_index,
        chunk@.offset == chunk.offset,
        chunk@.data == chunk.data@,
        end@.id == end.id,
        end@.file_index == end.file_index,
        end@.sha256 == end.sha256@,
{
    if 0 <= i < actions.len() {
        let view = action_views(actions)[i];
        match actions[i] {
            FileAction::OpenPart { path, chunk } => {
                assert(components(path@) =~= texts(path@));
            },
            FileAction::CreateEmpty { path, end } => {
                assert(components(path@) =~= texts(path@));
            },
            FileAction::Commit { part, target } => {
                assert(components(part@) =~= texts(part@));
                assert(components(target@) =~= texts(target@));
            },
            FileAction::Discard { part } => {
                assert(components(part@) =~= texts(part@));
            },
            _ => {},
        }
    }
}

/// Several paths are published component by component.
pub proof fn law_paths_component_by_component(paths: Seq<Vec<String>>, i: int)
    ensures
        all_components(paths).len() == paths.len(),
        0 <= i < paths.len() ==> all_components(paths)[i] == texts(paths[i]@),
{
    if 0 <= i < paths.len() {
        assert(components(paths[i]@) =~= texts(paths[i]@));
    }
}

/// What the sender asks for and what is put on the Windows clipboard.
pub proof fn law_asked_and_written_field_by_field(asked: SenderAction, written: ClipboardWrite)
    ensures
        match asked {
            SenderAction::Open(path) => asked@ == SenderActionView::Open(path@),
            SenderAction::Read => asked@ == SenderActionView::Read,
            SenderAction::AwaitAck => asked@ == SenderActionView::AwaitAck,
            SenderAction::Finish => asked@ == SenderActionView::Finish,
        },
        match written {
            ClipboardWrite::Text(text) => written@ == WriteView::Text(text@),
            ClipboardWrite::Html(data) => written@ == WriteView::Html(data@),
            ClipboardWrite::Image { png, bitmap } => {
                &&& written@ matches WriteView::Image { png: p, bitmap: b }
                &&& p is Some <==> png is Some
                &&& b is Some <==> bitmap is Some
                &&& png is Some ==> p->0 == png->0@
                &&& bitmap is Some ==> b->0 == bitmap->0@
            },
        },
{
}

} // verus!
