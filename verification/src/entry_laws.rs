//! What holds between calls of the library's functions.
//!
//! The other laws speak of what messages, transfers and texts come to. These
//! say that the functions do just that, and that what one of them has made
//! another can take apart.

use vstd::prelude::*;
use vstd::utf8::{decode_utf8, encode_utf8, valid_utf8};

use crate::bytes::{be_bytes, be_value, push_all, push_be, read_be};
use crate::cf_html::{cf_html, decode_cf_html, encode_cf_html, fragment_in};
use crate::cf_html_laws::{law_cf_html_reads_back, redeclares_nothing};
use crate::file_selection::FileSelection;
use crate::file_sender::{FileSender, SenderAction, SenderEvent};
use crate::file_task::{action_views, FileAction, FileChunk, FileEnd, FileTransfers};
use crate::html::{ascii_lowercase, ascii_lowercased, has_image_tag, is_image_only_html};
use crate::html::shows_nothing;
use crate::image_data::png_signature;
use crate::os_windows::{available_mime_types, bitmap_to_png, conversion_result, format_types};
use crate::os_windows::{image_write, plan_write, png_of_bitmap, ClipboardWrite, EchoSuppressor};
use crate::os_windows::{ImageFailure, WriteError};
use crate::paths::{part_path, target_path, to_part_path, to_target_path};
use crate::protocol::{clone_files, decoded, encoded, file_views, message_view};
use crate::protocol::{ClipboardMessage, FileMetadata, IoError, ProtocolError};
use crate::round_trip::{as_received, law_decode_after_encode, law_read_after_write, survives};
use crate::scan::{begins_with, is_space, is_whitespace, parse_usize, parsed_usize, pieces, replace};
use crate::scan::{replaced, split, starts_with, text_starts_with, trim, trimmed};
use crate::task::{available_view, task_action_views, ClipboardTask, TaskAction};
use crate::text::{chars_of, clone_texts, contains_text, decimal, decode_text, same_text};
use crate::text::{text_of, texts, to_decimal};
use crate::transport::{first_message, frame_message, framed, payload_message, read_message};
use crate::transport::{write_message, FrameReader};
use crate::uri_list::{build_uri_list, is_listable, law_uri_list_reads_back, listed_paths};
use crate::uri_list::{parse_uri_list, uri_list};

verus! {

// ---------------------------------------------------------------------------
// Messages

/// A message that was encoded is decoded to what the peer is to receive, and
/// what follows it is left.
pub proof fn law_encoded_message_is_decoded(
    msg: ClipboardMessage,
    out: &mut Vec<u8>,
    version: u16,
    written: Result<(), IoError>,
    src: &mut &[u8],
    read: Result<ClipboardMessage, ProtocolError>,
    rest: Seq<u8>,
)
    requires
        call_ensures(ClipboardMessage::encode, (&msg, out, version), written),
        call_ensures(ClipboardMessage::decode, (src,), read),
        old(out)@.len() == 0,
        final(out)@.len() > 0,
        old(src)@ == final(out)@ + rest,
        survives(msg@, version),
    ensures
        written is Ok,
        read matches Ok(m) && m@ == as_received(msg@, version),
        final(src)@ == rest,
{
    assert(old(out)@ + encoded(msg@, version) =~= encoded(msg@, version));
    law_decode_after_encode(msg@, version, rest);
}

/// Encoding appends the message to what is there, and decoding reads it off
/// the front.
pub proof fn law_coding_of_messages(
    msg: ClipboardMessage,
    out: &mut Vec<u8>,
    version: u16,
    written: Result<(), IoError>,
    src: &mut &[u8],
    read: Result<ClipboardMessage, ProtocolError>,
)
    requires
        call_ensures(ClipboardMessage::encode, (&msg, out, version), written),
        call_ensures(ClipboardMessage::decode, (src,), read),
    ensures
        written is Ok,
        final(out)@ == old(out)@ + encoded(msg@, version),
        decoded(old(src)@) is Ok <==> read is Ok,
        decoded(old(src)@) matches Ok((m, rest)) ==> read->Ok_0@ == m && final(src)@ == rest,
        decoded(old(src)@) matches Err(failure) ==> read->Err_0@ == failure.error && final(src)@
            == failure.rest,
{
}

/// A message that was written to a stream is read off it again, and what
/// follows it is left.
pub proof fn law_written_message_is_read(
    stream: &mut Vec<u8>,
    msg: ClipboardMessage,
    version: u16,
    written: Result<(), ProtocolError>,
    src: &mut &[u8],
    read: Result<ClipboardMessage, ProtocolError>,
    rest: Seq<u8>,
)
    requires
        call_ensures(write_message, (stream, &msg, version), written),
        call_ensures(read_message, (src,), read),
        old(stream)@.len() == 0,
        0 < encoded(msg@, version).len() <= 104_857_600,
        old(src)@ == final(stream)@ + rest,
        survives(msg@, version),
    ensures
        written is Ok,
        read matches Ok(m) && m@ == as_received(msg@, version),
        final(src)@ == rest,
{
    law_read_after_write(msg@, version, rest);
    assert(old(stream)@ + framed(msg@, version)->Ok_0 =~= framed(msg@, version)->Ok_0);
}

/// A frame is appended to its stream whole, or not at all.
pub proof fn law_framing_of_messages(
    stream: &mut Vec<u8>,
    msg: ClipboardMessage,
    version: u16,
    written: Result<(), ProtocolError>,
    frame: Result<Vec<u8>, ProtocolError>,
)
    requires
        call_ensures(write_message, (stream, &msg, version), written),
        call_ensures(frame_message, (&msg, version), frame),
    ensures
        written is Ok <==> encoded(msg@, version).len() <= 104_857_600,
        frame is Ok <==> written is Ok,
        written is Ok ==> final(stream)@ == old(stream)@ + frame->Ok_0@,
        written is Err ==> final(stream)@ == old(stream)@,
        written matches Err(e) ==> e is FrameTooLarge,
{
}

/// What is read off a stream is the message of its first frame.
pub proof fn law_reading_of_frames(
    src: &mut &[u8],
    read: Result<ClipboardMessage, ProtocolError>,
)
    requires
        call_ensures(read_message, (src,), read),
    ensures
        final(src)@ == first_message(old(src)@).1,
        read is Ok <==> first_message(old(src)@).0 is Ok,
        read matches Ok(m) ==> m@ == first_message(old(src)@).0->Ok_0,
        read matches Err(e) ==> e@ == first_message(old(src)@).0->Err_0,
{
}

/// A frame is begun with nothing read of it, asks for what is missing, and
/// ends in its message; one of more than 100 MiB ends in its length.
pub proof fn law_frame_from_start_to_end(
    length: u32,
    fresh: FrameReader,
    reader: FrameReader,
    wanted: usize,
    read: Result<ClipboardMessage, ProtocolError>,
)
    requires
        call_ensures(FrameReader::new, (length,), fresh),
        call_ensures(FrameReader::wanted, (&reader,), wanted),
        call_ensures(FrameReader::finish, (reader,), read),
    ensures
        fresh@.length == length,
        fresh@.received == 0,
        fresh@.payload.len() == 0,
        wanted == reader@.wanted(),
        reader@.length > 104_857_600 ==> read == Err::<ClipboardMessage, ProtocolError>(
            ProtocolError::FrameTooLarge(reader@.length),
        ),
        reader@.length <= 104_857_600 ==> {
            &&& read is Ok <==> payload_message(reader@.payload) is Ok
            &&& read is Ok ==> read->Ok_0@ == payload_message(reader@.payload)->Ok_0
            &&& read is Err ==> read->Err_0@ == payload_message(reader@.payload)->Err_0
        },
{
}

// ---------------------------------------------------------------------------
// Transfers

/// On every message and every report the transfers go to the state, and ask for
/// the actions, that `TransfersView` gives for it.
pub proof fn law_reports_are_taken_up(
    on_message: &mut FileTransfers,
    msg: ClipboardMessage,
    r1: Vec<FileAction>,
    on_open: &mut FileTransfers,
    chunk: FileChunk,
    ok: bool,
    r2: Vec<FileAction>,
    on_empty: &mut FileTransfers,
    end: FileEnd,
    r3: Vec<FileAction>,
    on_write: &mut FileTransfers,
    r4: Vec<FileAction>,
)
    requires
        call_ensures(FileTransfers::handle_incoming_message, (on_message, msg), r1),
        call_ensures(FileTransfers::part_opened, (on_open, chunk, ok), r2),
        call_ensures(FileTransfers::empty_created, (on_empty, end, ok), r3),
        call_ensures(FileTransfers::part_written, (on_write, &chunk, ok), r4),
    ensures
        final(on_message)@ == old(on_message)@.after_message(msg@).0,
        action_views(r1@) == old(on_message)@.after_message(msg@).1,
        final(on_open)@ == old(on_open)@.after_open(chunk@, ok).0,
        action_views(r2@) == old(on_open)@.after_open(chunk@, ok).1,
        final(on_empty)@ == old(on_empty)@.after_empty(end@, ok).0,
        action_views(r3@) == old(on_empty)@.after_empty(end@, ok).1,
        final(on_write)@ == old(on_write)@.after_write(chunk@, ok).0,
        action_views(r4@) == old(on_write)@.after_write(chunk@, ok).1,
{
}

/// What was selected is what is offered, to all peers and to every peer that
/// connects later.
pub proof fn law_selection_is_offered(
    transfers: &mut FileTransfers,
    id: u64,
    selection: FileSelection,
    r1: Vec<FileAction>,
    later: FileTransfers,
    r2: Vec<FileAction>,
    parts: (Vec<String>, Vec<FileMetadata>),
)
    requires
        call_ensures(
            FileTransfers::handle_local_clipboard_change,
            (transfers, id, selection),
            r1,
        ),
        call_ensures(FileTransfers::peer_connected, (&later,), r2),
        call_ensures(FileSelection::into_parts, (selection,), parts),
    ensures
        final(transfers)@ == old(transfers)@.after_local_files(
            id,
            selection@.paths,
            selection@.files,
        ).0,
        action_views(r1@) == old(transfers)@.after_local_files(
            id,
            selection@.paths,
            selection@.files,
        ).1,
        action_views(r2@) == later@.connect_actions(),
        texts(parts.0@) == selection@.paths,
        file_views(parts.1@) == selection@.files,
        later@ == final(transfers)@ && selection@.files.len() > 0 ==> r2@.len() == 1
            && r2@[0]@ == r1@.last()@,
{
    let offered = action_views(r1@);
    let repeated = action_views(r2@);
    assert(offered.len() == r1@.len());
    assert(repeated.len() == r2@.len());
    if later@ == final(transfers)@ && selection@.files.len() > 0 {
        assert(repeated[0] == r2@[0]@);
        assert(offered.last() == r1@.last()@);
    }
}

/// On every event the sender goes to the state, and sends the message, that
/// `SenderView` gives for it; and it asks for the step that its state calls for.
pub proof fn law_sender_takes_up_events(
    sender: &mut FileSender,
    event: SenderEvent,
    msg: Option<ClipboardMessage>,
    waiting: FileSender,
    asked: SenderAction,
)
    requires
        call_ensures(FileSender::step, (sender, event), msg),
        call_ensures(FileSender::action, (&waiting,), asked),
    ensures
        final(sender)@ == old(sender)@.after(event).0,
        message_view(msg) == old(sender)@.after(event).1,
        asked@ == waiting@.action(),
{
}

/// On every message the clipboard goes to the state, and asks for the actions,
/// that `TaskView` gives for it; a peer that connects gets the repeated offer.
pub proof fn law_clipboard_takes_up_messages(
    task: &mut ClipboardTask,
    msg: ClipboardMessage,
    actions: Vec<TaskAction>,
    later: ClipboardTask,
    available: Option<Vec<String>>,
    offer: Option<ClipboardMessage>,
)
    requires
        call_ensures(ClipboardTask::handle_incoming_message, (task, msg), actions),
        call_ensures(ClipboardTask::handle_peer_connected, (&later, available), offer),
    ensures
        final(task)@ == old(task)@.after_message(msg@).0,
        task_action_views(actions@) == old(task)@.after_message(msg@).1,
        message_view(offer) == later@.repeated_offer(available_view(available)),
{
}

/// Received files are put where their transfer and name say.
pub proof fn law_paths_of_received_files(
    id: u64,
    name: String,
    target: Vec<String>,
    part: Vec<String>,
)
    requires
        call_ensures(to_target_path, (id, &name), target),
        call_ensures(to_part_path, (id, &name), part),
    ensures
        texts(target@) == target_path(id, name@),
        texts(part@) == part_path(id, name@),
{
    assert(texts(target@) =~= crate::paths::components(target@));
    assert(texts(part@) =~= crate::paths::components(part@));
}

// ---------------------------------------------------------------------------
// Formats

/// A list of paths that was built is parsed to the same paths.
pub proof fn law_built_list_is_parsed(
    paths: Vec<String>,
    list: String,
    bytes: &[u8],
    parsed: Vec<String>,
)
    requires
        call_ensures(build_uri_list, (&paths,), list),
        call_ensures(parse_uri_list, (bytes,), parsed),
        bytes@ == encode_utf8(list@),
        forall|i: int| 0 <= i < paths@.len() ==> is_listable(#[trigger] texts(paths@)[i]),
    ensures
        texts(parsed@) == texts(paths@),
{
    vstd::utf8::encode_utf8_valid_utf8(list@);
    vstd::utf8::encode_utf8_decode_utf8(list@);
    law_uri_list_reads_back(texts(paths@));
}

/// A list is built and parsed line by line; what is not a text names no path.
pub proof fn law_lists_of_paths(
    paths: Vec<String>,
    list: String,
    bytes: &[u8],
    parsed: Vec<String>,
)
    requires
        call_ensures(build_uri_list, (&paths,), list),
        call_ensures(parse_uri_list, (bytes,), parsed),
    ensures
        list@ == uri_list(texts(paths@)),
        valid_utf8(bytes@) ==> texts(parsed@) == listed_paths(decode_utf8(bytes@)),
        !valid_utf8(bytes@) ==> parsed@.len() == 0,
{
    assert(texts(parsed@).len() == parsed@.len());
}

/// HTML that was put into the format of the clipboard is taken out of it
/// again, unless it is too long or declares bounds of its own.
pub proof fn law_encoded_html_is_decoded(
    fragment: &[u8],
    data: Vec<u8>,
    read: Result<Vec<u8>, String>,
    bytes: &[u8],
)
    requires
        call_ensures(encode_cf_html, (fragment,), data),
        call_ensures(decode_cf_html, (bytes,), read),
        bytes@ == data@,
        fragment@.len() <= 9_999_999_822,
        141 + fragment@.len() <= usize::MAX,
        redeclares_nothing(fragment@),
    ensures
        read matches Ok(f) && f@ == fragment@,
{
    crate::cf_html::lemma_document_lengths();
    law_cf_html_reads_back(fragment@);
}

/// What is made is the format with the fragment in it, and what is taken out is
/// what lies between the declared bounds.
pub proof fn law_coding_of_html(
    fragment: &[u8],
    data: Vec<u8>,
    bytes: &[u8],
    read: Result<Vec<u8>, String>,
)
    requires
        call_ensures(encode_cf_html, (fragment,), data),
        call_ensures(decode_cf_html, (bytes,), read),
    ensures
        data@ == cf_html(fragment@),
        read is Ok <==> fragment_in(bytes@) is Some,
        read matches Ok(f) ==> f@ == fragment_in(bytes@)->0,
        read matches Err(message) ==> message@
            == "Malformed CF_HTML or invalid fragment offsets"@,
{
}

/// Of ASCII text, HTML with an image tag in letters of either case and no
/// visible text is a mere wrapper; other HTML is not.
pub proof fn law_wrapper_of_an_image(html: &str, r: bool)
    requires
        call_ensures(is_image_only_html, (html,), r),
        forall|i: int| 0 <= i < html@.len() ==> '\0' <= #[trigger] html@[i] <= '\u{7f}',
    ensures
        r <==> has_image_tag(ascii_lowercased(html@)) && shows_nothing(html@),
        ascii_lowercased(html@).len() == html@.len(),
        forall|i: int|
            0 <= i < html@.len() ==> #[trigger] ascii_lowercased(html@)[i] == ascii_lowercase(
                html@[i],
            ),
{
    assert(vstd::utf8::is_ascii_chars(html@));
}

/// What is planned for the Windows clipboard. The conversion of an image
/// starts like a bitmap file.
pub proof fn law_planned_write(
    mime_type: &str,
    data: Vec<u8>,
    plan: Result<ClipboardWrite, WriteError>,
)
    requires
        call_ensures(plan_write, (mime_type, data), plan),
    ensures
        mime_type@ == "text/plain"@ && valid_utf8(data@) ==> (plan matches Ok(
            ClipboardWrite::Text(text),
        ) && text@ == decode_utf8(data@)),
        mime_type@ == "text/plain"@ && !valid_utf8(data@) ==> (plan matches Err(
            WriteError::NotText(bytes),
        ) && bytes@ == data@),
        mime_type@ == "text/html"@ ==> (plan matches Ok(ClipboardWrite::Html(html)) && html@
            == cf_html(data@)),
        begins_with(mime_type@, "image/"@) ==> (plan matches Ok(
            ClipboardWrite::Image { png, bitmap },
        ) && (png is Some <==> mime_type@ == "image/png"@) && (png matches Some(p) ==> p@ == data@)
            && (bitmap matches Some(b) ==> b@.len() >= 2 && b@[0] == 0x42 && b@[1] == 0x4D)),
        mime_type@ != "text/plain"@ && mime_type@ != "text/html"@ && !begins_with(
            mime_type@,
            "image/"@,
        ) ==> (plan matches Err(WriteError::Unsupported(message)) && message@
            == "Unsupported MIME type: "@ + mime_type@),
{
    reveal_strlit("text/plain");
    reveal_strlit("text/html");
    reveal_strlit("image/");
    assert("text/plain"@.len() == 10 && "text/html"@.len() == 9);
    if begins_with(mime_type@, "image/"@) {
        assert(mime_type@.take(6)[0] == 'i');
        assert(mime_type@[0] == 'i');
        if let Ok(ClipboardWrite::Image { png, bitmap: Some(b) }) = plan {
            assert(b@.take(2)[0] == 0x42 && b@.take(2)[1] == 0x4D);
        }
    }
}

/// An image is written as the PNG that it is and as what its conversion came
/// to.
pub proof fn law_written_image(
    mime_type: &str,
    data: Vec<u8>,
    bitmap: Option<Vec<u8>>,
    write: ClipboardWrite,
)
    requires
        call_ensures(image_write, (mime_type, data, bitmap), write),
    ensures
        write matches ClipboardWrite::Image { png, bitmap: written } && (png is Some
            <==> mime_type@ == "image/png"@) && (png matches Some(p) ==> p@ == data@) && (
        written is Some <==> bitmap is Some) && (written matches Some(w) ==> w@ == bitmap->0@),
{
}

/// A bitmap is converted to a PNG, which starts like one, or refused with the
/// reason.
pub proof fn law_converted_bitmap(bitmap: &[u8], r: Result<Vec<u8>, String>)
    requires
        call_ensures(bitmap_to_png, (bitmap,), r),
    ensures
        r is Ok <==> png_of_bitmap(bitmap@) is Ok,
        r matches Ok(png) ==> png@ == png_of_bitmap(bitmap@)->Ok_0 && begins_with(
            png@,
            png_signature(),
        ),
{
}

/// The formats on the Windows clipboard offer their MIME types, and plain text
/// where they offer none.
pub proof fn law_available_types(
    formats: Vec<u32>,
    html: Option<u32>,
    png: Option<u32>,
    r: Vec<String>,
)
    requires
        call_ensures(available_mime_types, (&formats, html, png), r),
    ensures
        format_types(formats@, html, png).len() > 0 ==> texts(r@) == format_types(
            formats@,
            html,
            png,
        ),
        format_types(formats@, html, png).len() == 0 ==> texts(r@) == seq!["text/plain"@],
{
}

/// A change of the clipboard is ours while we are writing, or if it has the
/// expected number, which is then expected no more.
pub proof fn law_checked_change(suppressor: &mut EchoSuppressor, current: u32, r: bool)
    requires
        call_ensures(EchoSuppressor::check_and_clear_echo, (suppressor, current), r),
    ensures
        old(suppressor).is_writing ==> r && *final(suppressor) == *old(suppressor),
        !old(suppressor).is_writing ==> {
            &&& r <==> old(suppressor).expected_sequence_number == Some(current)
            &&& final(suppressor).expected_sequence_number is None
            &&& !final(suppressor).is_writing
        },
{
}

// ---------------------------------------------------------------------------
// Texts and numbers

/// Cutting, trimming, comparing, replacing and reading numbers give what the
/// laws on texts speak of.
pub proof fn law_work_on_texts(
    s: &[char],
    sep: char,
    parts: Vec<Vec<char>>,
    middle: &[char],
    prefix: &[char],
    begins: bool,
    to: &[char],
    result: Vec<char>,
    c: char,
    space: bool,
    number: Option<usize>,
)
    requires
        call_ensures(split::<char>, (s, sep), parts),
        call_ensures(trim, (s,), middle),
        call_ensures(starts_with::<char>, (s, prefix), begins),
        call_ensures(replace, (s, prefix, to), result),
        call_ensures(is_whitespace, (c,), space),
        call_ensures(parse_usize, (s,), number),
    ensures
        parts@.len() == pieces(s@, sep).len(),
        forall|i: int| 0 <= i < parts@.len() ==> (#[trigger] parts@[i])@ == pieces(s@, sep)[i],
        middle@ == trimmed(s@),
        begins == begins_with(s@, prefix@),
        result@ == replaced(s@, prefix@, to@),
        space == is_space(c),
        number == parsed_usize(s@),
{
    let view = crate::scan::part_views(parts@);
    assert(view.len() == parts@.len());
    assert forall|i: int| 0 <= i < parts@.len() implies (#[trigger] parts@[i])@ == pieces(
        s@,
        sep,
    )[i] by {
        assert(view[i] == parts@[i]@);
    }
}

/// Texts are compared, looked up, copied and turned into characters and back
/// without a change.
pub proof fn law_texts_stay_what_they_are(
    a: String,
    b: &str,
    same: bool,
    list: Vec<String>,
    found: bool,
    copy: Vec<String>,
    chars: Vec<char>,
    slice: &[char],
    text: String,
    begins: bool,
    bytes: &[u8],
    read: Option<String>,
)
    requires
        call_ensures(same_text, (&a, b), same),
        call_ensures(contains_text, (&list, b), found),
        call_ensures(clone_texts, (&list,), copy),
        call_ensures(chars_of, (b,), chars),
        call_ensures(text_of, (slice,), text),
        call_ensures(text_starts_with, (b, "image/"), begins),
        call_ensures(decode_text, (bytes,), read),
    ensures
        same <==> a@ == b@,
        found <==> exists|i: int| 0 <= i < list@.len() && (#[trigger] list@[i])@ == b@,
        copy@.len() == list@.len(),
        forall|i: int| 0 <= i < list@.len() ==> (#[trigger] copy@[i])@ == list@[i]@,
        chars@ == b@,
        text@ == slice@,
        begins <==> begins_with(b@, "image/"@),
        read is Some <==> valid_utf8(bytes@),
        read matches Some(t) ==> encode_utf8(t@) == bytes@,
{
    let view = texts(list@);
    assert(view.len() == list@.len());
    assert forall|i: int| 0 <= i < list@.len() implies #[trigger] view[i] == list@[i]@ by {}
    if found {
        let i = choose|i: int| 0 <= i < view.len() && view[i] == b@;
        assert(list@[i]@ == b@);
    }
    if exists|i: int| 0 <= i < list@.len() && (#[trigger] list@[i])@ == b@ {
        let i = choose|i: int| 0 <= i < list@.len() && (#[trigger] list@[i])@ == b@;
        assert(view[i] == b@);
    }
    let copied = texts(copy@);
    assert(copied.len() == copy@.len());
    assert forall|i: int| 0 <= i < list@.len() implies (#[trigger] copy@[i])@ == list@[i]@ by {
        assert(copied[i] == copy@[i]@);
        assert(view[i] == list@[i]@);
    }
    if valid_utf8(bytes@) {
        vstd::utf8::decode_utf8_encode_utf8(bytes@);
    }
}

/// Numbers are appended most significant byte first and read off the front in
/// the same way; bytes are appended and read as they are.
pub proof fn law_numbers_and_bytes(
    out: &mut Vec<u8>,
    x: u64,
    n: usize,
    done: (),
    more: &mut Vec<u8>,
    bytes: &[u8],
    src: &mut &[u8],
    number: Option<u64>,
    decimals: String,
)
    requires
        call_ensures(push_be, (out, x, n), done),
        call_ensures(push_all, (more, bytes), done),
        call_ensures(read_be, (src, n), number),
        call_ensures(to_decimal, (x,), decimals),
    ensures
        final(out)@ == old(out)@ + be_bytes(x as nat, n as nat),
        final(more)@ == old(more)@ + bytes@,
        n <= old(src)@.len() ==> number == Some(
            be_value(old(src)@.subrange(0, n as int)) as u64,
        ) && final(src)@ == old(src)@.skip(n as int),
        n > old(src)@.len() ==> number is None && final(src)@ == old(src)@,
        decimals@ == decimal(x as nat),
{
    if n <= old(src)@.len() {
        assert(old(src)@.take(n as int) =~= old(src)@.subrange(0, n as int));
    }
}

/// An accepted offer is begun with its files and names as they are.
pub proof fn law_accepted_offer_is_begun(
    transfers: &mut FileTransfers,
    id: u64,
    files: Vec<FileMetadata>,
    names: Vec<String>,
    r: Vec<FileAction>,
    copy: Vec<FileMetadata>,
)
    requires
        call_ensures(FileTransfers::accept, (transfers, id, files, names), r),
        call_ensures(clone_files, (&files,), copy),
    ensures
        final(transfers)@ == old(transfers)@.after_accept(
            id,
            file_views(files@),
            texts(names@),
        ).0,
        action_views(r@) == old(transfers)@.after_accept(
            id,
            file_views(files@),
            texts(names@),
        ).1,
        file_views(copy@) == file_views(files@),
{
}

/// HTML that shows any text is no mere wrapper of an image, in whatever script
/// it is written; HTML that shows none is one if it has an image tag in ASCII
/// letters of either case.
pub proof fn law_wrapper_in_any_script(html: &str, r: bool)
    requires
        call_ensures(is_image_only_html, (html,), r),
    ensures
        !shows_nothing(html@) ==> !r,
        shows_nothing(html@) && has_image_tag(ascii_lowercased(html@)) && !html@.contains(
            '\u{3a3}',
        ) ==> r,
{
}

/// A conversion that succeeded is passed on, and one that failed is told with
/// its reason.
pub proof fn law_conversion_is_told(
    conversion: Result<Vec<u8>, ImageFailure>,
    r: Result<Vec<u8>, String>,
)
    requires
        call_ensures(conversion_result, (conversion,), r),
    ensures
        conversion matches Ok(png) ==> (r matches Ok(data) && data@ == png@),
        conversion matches Err(ImageFailure::Parse(reason)) ==> (r matches Err(message) && message@
            == "Failed to parse CF_DIB as BMP: "@ + reason@),
        conversion matches Err(ImageFailure::Encode(reason)) ==> (r matches Err(message)
            && message@ == "Failed to encode image to PNG: "@ + reason@),
{
}

} // verus!
