//! What a peer makes of the bytes that [`ClipboardMessage::encode`] writes.
//!
//! [`ClipboardMessage::encode`]: crate::protocol::ClipboardMessage::encode

use vstd::prelude::*;
use vstd::utf8::{decode_utf8, decode_utf8_encode_utf8, encode_utf8, encode_utf8_decode_utf8};
use vstd::utf8::{encode_utf8_valid_utf8, valid_utf8};

use crate::bytes::{be_bytes, be_value, lemma_be_bytes_len, lemma_be_roundtrip};
use crate::bytes::{lemma_be_value_bound, lemma_pow256_values, pow256};
use crate::protocol::{at_most, block_bytes, decoded, decoded_fields, encoded, files_bytes};
use crate::protocol::{head_bytes, indices_bytes, short_bytes, shorts_bytes, take_block};
use crate::protocol::{take_bytes, take_files, take_indices, take_number};
use crate::protocol::{take_position, take_short, take_shorts, take_text, take_text_list};
use crate::protocol::{text_list_bytes, ClipboardMessage, ErrorView, FileView, MessageView};
use crate::protocol::{ReadFailure, MAX_LISTED_FILES};
use crate::transport::{common_version, first_message, framed, is_oversized};
use crate::transport::MAX_CLIPBOARD_FRAME_SIZE;

verus! {

/// The bytes of `text` that are sent: all of them, or the first 255.
pub open spec fn sent_bytes(text: Seq<char>) -> Seq<u8> {
    encode_utf8(text).take(at_most(encode_utf8(text).len(), 255) as int)
}

/// Whether `text` can be read back: it is not cut in the middle of a
/// character.
pub open spec fn sendable(text: Seq<char>) -> bool {
    valid_utf8(sent_bytes(text))
}

/// What is read back of `text`.
pub open spec fn sent_text(text: Seq<char>) -> Seq<char> {
    decode_utf8(sent_bytes(text))
}

/// Whether all of `list` can be read back.
pub open spec fn all_sendable(list: Seq<Seq<char>>) -> bool {
    forall|i: int| 0 <= i < list.len() ==> sendable(#[trigger] list[i])
}

/// Whether the names of all of `files` can be read back.
pub open spec fn all_names_sendable(files: Seq<FileView>) -> bool {
    forall|i: int| 0 <= i < files.len() ==> sendable((#[trigger] files[i]).name)
}

/// What is read back of `list`.
pub open spec fn sent_texts(list: Seq<Seq<char>>) -> Seq<Seq<char>> {
    list.take(at_most(list.len(), 255) as int).map_values(|t: Seq<char>| sent_text(t))
}

/// What is read back of `files`.
pub open spec fn sent_files(files: Seq<FileView>) -> Seq<FileView> {
    files.take(at_most(files.len(), MAX_LISTED_FILES as nat) as int).map_values(
        |f: FileView| FileView { name: sent_text(f.name), size: f.size },
    )
}

/// Whether every length and text of `msg` survives the trip in protocol
/// version `version`.
pub open spec fn survives(msg: MessageView, version: u16) -> bool {
    match msg {
        MessageView::Offer { id, mime_types } => version < 2 || all_sendable(
            mime_types.take(at_most(mime_types.len(), 255) as int),
        ),
        MessageView::Request { id, mime_types } => if version >= 3 {
            all_sendable(mime_types.take(at_most(mime_types.len(), 255) as int))
        } else {
            version < 2 || (mime_types.len() > 0 ==> sendable(mime_types[0]))
        },
        MessageView::Data { id, mime_type, data } => data.len() <= u32::MAX && (version < 2
            || sendable(mime_type)),
        MessageView::FileOffer { id, files } => all_names_sendable(
            files.take(at_most(files.len(), MAX_LISTED_FILES as nat) as int),
        ),
        MessageView::FileChunk { id, file_index, offset, data } => data.len()
            <= MAX_CLIPBOARD_FRAME_SIZE,
        MessageView::FileComplete { id, file_index, size, sha256 } => sha256.len() == 32,
        _ => true,
    }
}

/// What a peer reads of `msg` in protocol version `version`.
pub open spec fn as_received(msg: MessageView, version: u16) -> MessageView {
    match msg {
        MessageView::Offer { id, mime_types } => MessageView::Offer {
            id,
            mime_types: if version >= 2 {
                sent_texts(mime_types)
            } else {
                seq!["text/plain"@]
            },
        },
        MessageView::Request { id, mime_types } => MessageView::Request {
            id,
            mime_types: if version >= 3 {
                sent_texts(mime_types)
            } else if version >= 2 {
                seq![sent_text(mime_types[0])]
            } else {
                seq!["text/plain"@]
            },
        },
        MessageView::Data { id, mime_type, data } => MessageView::Data {
            id,
            mime_type: if version >= 2 {
                sent_text(mime_type)
            } else {
                mime_type
            },
            data,
        },
        MessageView::FileOffer { id, files } => MessageView::FileOffer {
            id,
            files: sent_files(files),
        },
        MessageView::FileRequest { id, file_indices } => MessageView::FileRequest {
            id,
            file_indices: file_indices.take(
                at_most(file_indices.len(), MAX_LISTED_FILES as nat) as int,
            ),
        },
        _ => msg,
    }
}

/// Whether `text` is short enough to be sent whole.
pub open spec fn is_short(text: Seq<char>) -> bool {
    encode_utf8(text).len() <= 255
}

/// Whether `msg` has no more and no longer parts than the wire format can
/// carry.
pub open spec fn in_limits(msg: MessageView) -> bool {
    match msg {
        MessageView::Offer { id, mime_types } => mime_types.len() <= 255 && forall|i: int|
            0 <= i < mime_types.len() ==> is_short(#[trigger] mime_types[i]),
        MessageView::Request { id, mime_types } => mime_types.len() <= 255 && forall|i: int|
            0 <= i < mime_types.len() ==> is_short(#[trigger] mime_types[i]),
        MessageView::Data { id, mime_type, data } => is_short(mime_type) && data.len()
            <= u32::MAX,
        MessageView::FileOffer { id, files } => files.len() <= MAX_LISTED_FILES && forall|i: int|
            0 <= i < files.len() ==> is_short((#[trigger] files[i]).name),
        MessageView::FileRequest { id, file_indices } => file_indices.len() <= MAX_LISTED_FILES,
        MessageView::FileChunk { id, file_index, offset, data } => data.len()
            <= MAX_CLIPBOARD_FRAME_SIZE,
        MessageView::FileComplete { id, file_index, size, sha256 } => sha256.len() == 32,
        _ => true,
    }
}

proof fn lemma_take_bytes(head: Seq<u8>, rest: Seq<u8>)
    ensures
        take_bytes(head + rest, head.len()) == Ok::<(Seq<u8>, Seq<u8>), ReadFailure>((head, rest)),
{
    assert((head + rest).take(head.len() as int) =~= head);
    assert((head + rest).skip(head.len() as int) =~= rest);
}

proof fn lemma_take_number(x: nat, n: nat, rest: Seq<u8>)
    requires
        x < pow256(n),
    ensures
        take_number(be_bytes(x, n) + rest, n) == Ok::<(nat, Seq<u8>), ReadFailure>((x, rest)),
{
    lemma_be_roundtrip(x, n);
    lemma_take_bytes(be_bytes(x, n), rest);
}

proof fn lemma_take_byte(b: u8, rest: Seq<u8>)
    ensures
        take_number(seq![b] + rest, 1) == Ok::<(nat, Seq<u8>), ReadFailure>((b as nat, rest)),
{
    lemma_take_bytes(seq![b], rest);
    reveal_with_fuel(be_value, 2);
    assert(seq![b].drop_last() =~= seq![]);
}

proof fn lemma_take_short(text: Seq<char>, rest: Seq<u8>)
    ensures
        take_short(short_bytes(text) + rest) == if sendable(text) {
            Ok::<(Seq<char>, Seq<u8>), ReadFailure>((sent_text(text), rest))
        } else {
            Err::<(Seq<char>, Seq<u8>), ReadFailure>(
                ReadFailure { error: ErrorView::Utf8(sent_bytes(text)), rest },
            )
        },
{
    let sent = sent_bytes(text);
    assert(short_bytes(text) + rest =~= seq![sent.len() as u8] + (sent + rest));
    lemma_take_byte(sent.len() as u8, sent + rest);
    lemma_take_bytes(sent, rest);
}

proof fn lemma_take_block(data: Seq<u8>, rest: Seq<u8>)
    requires
        data.len() <= u32::MAX,
    ensures
        take_block(block_bytes(data) + rest) == Ok::<(Seq<u8>, Seq<u8>), ReadFailure>((data, rest)),
{
    lemma_pow256_values();
    assert(block_bytes(data) + rest =~= be_bytes(data.len(), 4) + (data + rest));
    lemma_take_number(data.len(), 4, data + rest);
    lemma_take_bytes(data, rest);
}

proof fn lemma_take_shorts(list: Seq<Seq<char>>, rest: Seq<u8>)
    requires
        all_sendable(list),
    ensures
        take_shorts(shorts_bytes(list) + rest, list.len()) == Ok::<
            (Seq<Seq<char>>, Seq<u8>),
            ReadFailure,
        >((list.map_values(|t: Seq<char>| sent_text(t)), rest)),
    decreases list.len(),
{
    let f = |t: Seq<char>| sent_text(t);
    if list.len() == 0 {
        assert(shorts_bytes(list) + rest =~= rest);
        assert(list.map_values(f) =~= seq![]);
    } else {
        let head = list.drop_last();
        let tail = short_bytes(list.last()) + rest;
        assert(shorts_bytes(list) + rest =~= shorts_bytes(head) + tail);
        assert(all_sendable(head)) by {
            assert forall|i: int| 0 <= i < head.len() implies sendable(#[trigger] head[i]) by {
                assert(sendable(list[i]));
            }
        }
        lemma_take_shorts(head, tail);
        assert(sendable(list[list.len() - 1]));
        lemma_take_short(list.last(), rest);
        assert(list.map_values(f) =~= head.map_values(f).push(sent_text(list.last())));
    }
}

proof fn lemma_take_text_list(list: Seq<Seq<char>>, rest: Seq<u8>)
    requires
        all_sendable(list.take(at_most(list.len(), 255) as int)),
    ensures
        take_text_list(text_list_bytes(list) + rest) == Ok::<
            (Seq<Seq<char>>, Seq<u8>),
            ReadFailure,
        >((sent_texts(list), rest)),
{
    let kept = list.take(at_most(list.len(), 255) as int);
    let tail = shorts_bytes(kept) + rest;
    assert(text_list_bytes(list) + rest =~= seq![kept.len() as u8] + tail);
    lemma_take_byte(kept.len() as u8, tail);
    lemma_take_shorts(kept, rest);
}

proof fn lemma_take_files(list: Seq<FileView>, rest: Seq<u8>)
    requires
        all_names_sendable(list),
    ensures
        take_files(files_bytes(list) + rest, list.len()) == Ok::<
            (Seq<FileView>, Seq<u8>),
            ReadFailure,
        >(
            (
                list.map_values(
                    |f: FileView| FileView { name: sent_text(f.name), size: f.size },
                ),
                rest,
            ),
        ),
    decreases list.len(),
{
    let f = |f: FileView| FileView { name: sent_text(f.name), size: f.size };
    if list.len() == 0 {
        assert(files_bytes(list) + rest =~= rest);
        assert(list.map_values(f) =~= seq![]);
    } else {
        let head = list.drop_last();
        let last = list.last();
        let size = be_bytes(last.size as nat, 8) + rest;
        let tail = short_bytes(last.name) + size;
        assert(files_bytes(list) + rest =~= files_bytes(head) + tail);
        assert(all_names_sendable(head)) by {
            assert forall|i: int| 0 <= i < head.len() implies sendable(
                (#[trigger] head[i]).name,
            ) by {
                assert(sendable(list[i].name));
            }
        }
        lemma_take_files(head, tail);
        assert(sendable(list[list.len() - 1].name));
        lemma_take_short(last.name, size);
        lemma_pow256_values();
        lemma_take_number(last.size as nat, 8, rest);
        assert(list.map_values(f) =~= head.map_values(f).push(f(last)));
    }
}

proof fn lemma_take_indices(list: Seq<u32>, rest: Seq<u8>)
    ensures
        take_indices(indices_bytes(list) + rest, list.len()) == Ok::<
            (Seq<u32>, Seq<u8>),
            ReadFailure,
        >((list, rest)),
    decreases list.len(),
{
    if list.len() == 0 {
        assert(indices_bytes(list) + rest =~= rest);
        assert(list =~= seq![]);
    } else {
        let head = list.drop_last();
        let tail = be_bytes(list.last() as nat, 4) + rest;
        assert(indices_bytes(list) + rest =~= indices_bytes(head) + tail);
        lemma_take_indices(head, tail);
        lemma_pow256_values();
        lemma_take_number(list.last() as nat, 4, rest);
        assert(list =~= head.push(list.last()));
    }
}

proof fn lemma_take_head(tag: u8, id: u64, rest: Seq<u8>)
    requires
        ClipboardMessage::MSG_OFFER <= tag <= ClipboardMessage::MSG_FILE_CHUNK_ACK,
    ensures
        decoded(head_bytes(tag, id) + rest) == decoded_fields(tag, id, rest),
{
    let tail = be_bytes(id as nat, 8) + rest;
    assert(head_bytes(tag, id) + rest =~= seq![tag] + tail);
    lemma_take_byte(tag, tail);
    lemma_pow256_values();
    lemma_take_number(id as nat, 8, rest);
}

proof fn lemma_take_position(index: u32, number: u64, rest: Seq<u8>)
    ensures
        take_position(be_bytes(index as nat, 4) + be_bytes(number as nat, 8) + rest) == Ok::<
            ((u32, u64), Seq<u8>),
            ReadFailure,
        >(((index, number), rest)),
{
    let tail = be_bytes(number as nat, 8) + rest;
    assert(be_bytes(index as nat, 4) + be_bytes(number as nat, 8) + rest =~= be_bytes(
        index as nat,
        4,
    ) + tail);
    lemma_pow256_values();
    lemma_take_number(index as nat, 4, tail);
    lemma_take_number(number as nat, 8, rest);
}

/// The first message in `encoded(msg, version) + rest` is `msg` as the peer
/// receives it, and `rest` is what follows it.
pub open spec fn reads_back(msg: MessageView, version: u16, rest: Seq<u8>) -> bool {
    decoded(encoded(msg, version) + rest) == Ok::<(MessageView, Seq<u8>), ReadFailure>(
        (as_received(msg, version), rest),
    )
}

proof fn lemma_hello(msg: MessageView, version: u16, rest: Seq<u8>)
    requires
        msg is Hello,
        encoded(msg, version).len() > 0,
        survives(msg, version),
    ensures
        reads_back(msg, version, rest),
{
    let protocol_version = msg->Hello_protocol_version;
    lemma_pow256_values();
    let tail = be_bytes(protocol_version as nat, 2) + rest;
    assert(encoded(msg, version) + rest =~= seq![ClipboardMessage::MSG_HELLO] + tail);
    lemma_take_byte(ClipboardMessage::MSG_HELLO, tail);
    lemma_take_number(protocol_version as nat, 2, rest);
}

proof fn lemma_hello_ack(msg: MessageView, version: u16, rest: Seq<u8>)
    requires
        msg is HelloAck,
        encoded(msg, version).len() > 0,
        survives(msg, version),
    ensures
        reads_back(msg, version, rest),
{
    let protocol_version = msg->HelloAck_protocol_version;
    lemma_pow256_values();
    let tail = be_bytes(protocol_version as nat, 2) + rest;
    assert(encoded(msg, version) + rest =~= seq![ClipboardMessage::MSG_HELLO_ACK] + tail);
    lemma_take_byte(ClipboardMessage::MSG_HELLO_ACK, tail);
    lemma_take_number(protocol_version as nat, 2, rest);
}

proof fn lemma_offer(msg: MessageView, version: u16, rest: Seq<u8>)
    requires
        msg is Offer,
        encoded(msg, version).len() > 0,
        survives(msg, version),
    ensures
        reads_back(msg, version, rest),
{
    let id = msg->Offer_id;
    let mime_types = msg->Offer_mime_types;
    lemma_pow256_values();
    if version >= 2 {
        let tail = text_list_bytes(mime_types) + rest;
        assert(encoded(msg, version) + rest =~= head_bytes(
            ClipboardMessage::MSG_OFFER_V2,
            id,
        ) + tail);
        lemma_take_head(ClipboardMessage::MSG_OFFER_V2, id, tail);
        lemma_take_text_list(mime_types, rest);
    } else {
        let plain = encode_utf8("text/plain"@);
        lemma_plain_text();
        let tail = be_bytes(plain.len(), 2) + (plain + rest);
        assert(encoded(msg, version) + rest =~= head_bytes(ClipboardMessage::MSG_OFFER, id)
            + tail);
        lemma_take_head(ClipboardMessage::MSG_OFFER, id, tail);
        lemma_take_number(plain.len(), 2, plain + rest);
        lemma_take_bytes(plain, rest);
    }
}

proof fn lemma_request(msg: MessageView, version: u16, rest: Seq<u8>)
    requires
        msg is Request,
        encoded(msg, version).len() > 0,
        survives(msg, version),
    ensures
        reads_back(msg, version, rest),
{
    let id = msg->Request_id;
    let mime_types = msg->Request_mime_types;
    lemma_pow256_values();
    if version >= 3 {
        let tail = text_list_bytes(mime_types) + rest;
        assert(encoded(msg, version) + rest =~= head_bytes(
            ClipboardMessage::MSG_REQUEST_V3,
            id,
        ) + tail);
        lemma_take_head(ClipboardMessage::MSG_REQUEST_V3, id, tail);
        lemma_take_text_list(mime_types, rest);
    } else if version >= 2 {
        let tail = short_bytes(mime_types[0]) + rest;
        assert(encoded(msg, version) + rest =~= head_bytes(
            ClipboardMessage::MSG_REQUEST_V2,
            id,
        ) + tail);
        lemma_take_head(ClipboardMessage::MSG_REQUEST_V2, id, tail);
        lemma_take_short(mime_types[0], rest);
    } else {
        lemma_take_head(ClipboardMessage::MSG_REQUEST, id, rest);
    }
}

proof fn lemma_regroup(a: Seq<u8>, b: Seq<u8>, c: Seq<u8>, d: Seq<u8>)
    ensures
        a + b + c + d == a + (b + (c + d)),
{
    assert(a + b + c + d =~= a + (b + (c + d)));
}

proof fn lemma_data(msg: MessageView, version: u16, rest: Seq<u8>)
    requires
        msg is Data,
        encoded(msg, version).len() > 0,
        survives(msg, version),
    ensures
        reads_back(msg, version, rest),
{
    let id = msg->Data_id;
    let mime_type = msg->Data_mime_type;
    let data = msg->Data_data;
    lemma_pow256_values();
    if version >= 2 {
        let block = block_bytes(data) + rest;
        let head = head_bytes(ClipboardMessage::MSG_DATA_V2, id);
        let name = short_bytes(mime_type);
        let tail = name + block;
        lemma_regroup(head, name, block_bytes(data), rest);
        lemma_take_head(ClipboardMessage::MSG_DATA_V2, id, tail);
        lemma_take_short(mime_type, block);
        lemma_take_block(data, rest);
    } else {
        let tail = block_bytes(data) + rest;
        assert(encoded(msg, version) + rest =~= head_bytes(ClipboardMessage::MSG_DATA, id)
            + tail);
        lemma_take_head(ClipboardMessage::MSG_DATA, id, tail);
        lemma_take_block(data, rest);
    }
}

proof fn lemma_error(msg: MessageView, version: u16, rest: Seq<u8>)
    requires
        msg is Error,
        encoded(msg, version).len() > 0,
        survives(msg, version),
    ensures
        reads_back(msg, version, rest),
{
    let id = msg->Error_id;
    let code = msg->Error_code;
    lemma_pow256_values();
    let tail = be_bytes(code as nat, 2) + rest;
    assert(encoded(msg, version) + rest =~= head_bytes(ClipboardMessage::MSG_ERROR, id)
        + tail);
    lemma_take_head(ClipboardMessage::MSG_ERROR, id, tail);
    lemma_take_number(code as nat, 2, rest);
}

proof fn lemma_file_offer(msg: MessageView, version: u16, rest: Seq<u8>)
    requires
        msg is FileOffer,
        encoded(msg, version).len() > 0,
        survives(msg, version),
    ensures
        reads_back(msg, version, rest),
{
    let id = msg->FileOffer_id;
    let files = msg->FileOffer_files;
    lemma_pow256_values();
    let kept = files.take(at_most(files.len(), MAX_LISTED_FILES as nat) as int);
    let list = files_bytes(kept) + rest;
    let tail = be_bytes(kept.len(), 4) + list;
    assert(encoded(msg, version) + rest =~= head_bytes(ClipboardMessage::MSG_FILE_OFFER, id)
        + tail);
    lemma_take_head(ClipboardMessage::MSG_FILE_OFFER, id, tail);
    lemma_take_number(kept.len(), 4, list);
    lemma_take_files(kept, rest);
}

proof fn lemma_file_request(msg: MessageView, version: u16, rest: Seq<u8>)
    requires
        msg is FileRequest,
        encoded(msg, version).len() > 0,
        survives(msg, version),
    ensures
        reads_back(msg, version, rest),
{
    let id = msg->FileRequest_id;
    let file_indices = msg->FileRequest_file_indices;
    lemma_pow256_values();
    let kept = file_indices.take(
        at_most(file_indices.len(), MAX_LISTED_FILES as nat) as int,
    );
    let list = indices_bytes(kept) + rest;
    let tail = be_bytes(kept.len(), 4) + list;
    assert(encoded(msg, version) + rest =~= head_bytes(
        ClipboardMessage::MSG_FILE_REQUEST,
        id,
    ) + tail);
    lemma_take_head(ClipboardMessage::MSG_FILE_REQUEST, id, tail);
    lemma_take_number(kept.len(), 4, list);
    lemma_take_indices(kept, rest);
}

proof fn lemma_file_chunk(msg: MessageView, version: u16, rest: Seq<u8>)
    requires
        msg is FileChunk,
        encoded(msg, version).len() > 0,
        survives(msg, version),
    ensures
        reads_back(msg, version, rest),
{
    let id = msg->FileChunk_id;
    let file_index = msg->FileChunk_file_index;
    let offset = msg->FileChunk_offset;
    let data = msg->FileChunk_data;
    lemma_pow256_values();
    let block = be_bytes(data.len(), 4) + (data + rest);
    let tail = be_bytes(file_index as nat, 4) + be_bytes(offset as nat, 8) + block;
    assert(encoded(msg, version) + rest =~= head_bytes(ClipboardMessage::MSG_FILE_CHUNK, id)
        + tail);
    lemma_take_head(ClipboardMessage::MSG_FILE_CHUNK, id, tail);
    lemma_take_position(file_index, offset, block);
    lemma_take_number(data.len(), 4, data + rest);
    lemma_take_bytes(data, rest);
}

proof fn lemma_file_complete(msg: MessageView, version: u16, rest: Seq<u8>)
    requires
        msg is FileComplete,
        encoded(msg, version).len() > 0,
        survives(msg, version),
    ensures
        reads_back(msg, version, rest),
{
    let id = msg->FileComplete_id;
    let file_index = msg->FileComplete_file_index;
    let size = msg->FileComplete_size;
    let sha256 = msg->FileComplete_sha256;
    lemma_pow256_values();
    let digest = sha256 + rest;
    let tail = be_bytes(file_index as nat, 4) + be_bytes(size as nat, 8) + digest;
    assert(encoded(msg, version) + rest =~= head_bytes(
        ClipboardMessage::MSG_FILE_COMPLETE,
        id,
    ) + tail);
    lemma_take_head(ClipboardMessage::MSG_FILE_COMPLETE, id, tail);
    lemma_take_position(file_index, size, digest);
    lemma_take_bytes(sha256, rest);
}

proof fn lemma_file_chunk_ack(msg: MessageView, version: u16, rest: Seq<u8>)
    requires
        msg is FileChunkAck,
        encoded(msg, version).len() > 0,
        survives(msg, version),
    ensures
        reads_back(msg, version, rest),
{
    let id = msg->FileChunkAck_id;
    let file_index = msg->FileChunkAck_file_index;
    let offset = msg->FileChunkAck_offset;
    lemma_pow256_values();
    let tail = be_bytes(file_index as nat, 4) + be_bytes(offset as nat, 8) + rest;
    assert(encoded(msg, version) + rest =~= head_bytes(
        ClipboardMessage::MSG_FILE_CHUNK_ACK,
        id,
    ) + tail);
    lemma_take_head(ClipboardMessage::MSG_FILE_CHUNK_ACK, id, tail);
    lemma_take_position(file_index, offset, rest);
}

/// Reading gives back what was written, and stops where it ends. This holds
/// of every message that the version can express and whose texts and lengths
/// survive.
pub proof fn law_decode_after_encode(msg: MessageView, version: u16, rest: Seq<u8>)
    requires
        encoded(msg, version).len() > 0,
        survives(msg, version),
    ensures
        reads_back(msg, version, rest),
{
    match msg {
        MessageView::Hello { .. } => lemma_hello(msg, version, rest),
        MessageView::HelloAck { .. } => lemma_hello_ack(msg, version, rest),
        MessageView::Offer { .. } => lemma_offer(msg, version, rest),
        MessageView::Request { .. } => lemma_request(msg, version, rest),
        MessageView::Data { .. } => lemma_data(msg, version, rest),
        MessageView::Error { .. } => lemma_error(msg, version, rest),
        MessageView::FileOffer { .. } => lemma_file_offer(msg, version, rest),
        MessageView::FileRequest { .. } => lemma_file_request(msg, version, rest),
        MessageView::FileChunk { .. } => lemma_file_chunk(msg, version, rest),
        MessageView::FileComplete { .. } => lemma_file_complete(msg, version, rest),
        MessageView::FileChunkAck { .. } => lemma_file_chunk_ack(msg, version, rest),
    }
}

/// A peer of the first protocol version is offered, asked for and sent plain
/// text, and nothing else.
pub proof fn law_first_version_knows_plain_text_only(
    msg: MessageView,
    version: u16,
    rest: Seq<u8>,
)
    requires
        version < 2,
        msg is Offer || msg is Request || msg is Data,
        encoded(msg, version).len() > 0,
        survives(msg, version),
    ensures
        ({
            let received = decoded(encoded(msg, version) + rest)->Ok_0.0;
            &&& decoded(encoded(msg, version) + rest) is Ok
            &&& received matches MessageView::Offer { id, mime_types } ==> mime_types == seq![
                "text/plain"@,
            ]
            &&& received matches MessageView::Request { id, mime_types } ==> mime_types == seq![
                "text/plain"@,
            ]
            &&& received matches MessageView::Data { id, mime_type, data } ==> mime_type
                == "text/plain"@
            &&& received is Offer || received is Request || received is Data
        }),
{
    law_decode_after_encode(msg, version, rest);
}

/// `text/plain` takes ten bytes and reads back as itself.
proof fn lemma_plain_text()
    ensures
        encode_utf8("text/plain"@).len() == 10,
        valid_utf8(encode_utf8("text/plain"@)),
        decode_utf8(encode_utf8("text/plain"@)) == "text/plain"@,
{
    reveal_strlit("text/plain");
    vstd::utf8::is_ascii_chars_encode_utf8("text/plain"@);
    encode_utf8_valid_utf8("text/plain"@);
    encode_utf8_decode_utf8("text/plain"@);
}

/// A text of at most 255 bytes is sent whole.
pub proof fn law_short_texts_survive(text: Seq<char>)
    requires
        is_short(text),
    ensures
        sendable(text),
        sent_text(text) == text,
{
    assert(sent_bytes(text) =~= encode_utf8(text));
    encode_utf8_valid_utf8(text);
    encode_utf8_decode_utf8(text);
}

/// From protocol version 4 on every message within the limits of the wire
/// format reads back as itself.
pub proof fn law_decode_inverts_encode(msg: MessageView, version: u16, rest: Seq<u8>)
    requires
        version >= 4,
        in_limits(msg),
    ensures
        decoded(encoded(msg, version) + rest) == Ok::<(MessageView, Seq<u8>), ReadFailure>(
            (msg, rest),
        ),
{
    match msg {
        MessageView::Offer { id, mime_types } => {
            lemma_texts_survive(mime_types);
        },
        MessageView::Request { id, mime_types } => {
            lemma_texts_survive(mime_types);
        },
        MessageView::Data { id, mime_type, data } => {
            law_short_texts_survive(mime_type);
        },
        MessageView::FileOffer { id, files } => {
            assert(files.take(files.len() as int) =~= files);
            assert forall|i: int| 0 <= i < files.len() implies sendable((#[trigger] files[i]).name)
                && sent_text(files[i].name) == files[i].name by {
                law_short_texts_survive(files[i].name);
            }
            assert(sent_files(files) =~= files);
        },
        MessageView::FileRequest { id, file_indices } => {
            assert(file_indices.take(file_indices.len() as int) =~= file_indices);
        },
        _ => {},
    }
    law_decode_after_encode(msg, version, rest);
}

proof fn lemma_texts_survive(list: Seq<Seq<char>>)
    requires
        list.len() <= 255,
        forall|i: int| 0 <= i < list.len() ==> is_short(#[trigger] list[i]),
    ensures
        all_sendable(list.take(at_most(list.len(), 255) as int)),
        sent_texts(list) == list,
{
    assert(list.take(list.len() as int) =~= list);
    assert forall|i: int| 0 <= i < list.len() implies sendable(#[trigger] list[i]) && sent_text(
        list[i],
    ) == list[i] by {
        law_short_texts_survive(list[i]);
    }
    assert(sent_texts(list) =~= list);
}

proof fn lemma_text_read_is_short(s: Seq<u8>, n: nat)
    requires
        take_text(s, n) is Ok,
        n <= 255,
    ensures
        is_short(take_text(s, n)->Ok_0.0),
{
    decode_utf8_encode_utf8(s.take(n as int));
}

proof fn lemma_short_read_is_short(s: Seq<u8>)
    requires
        take_short(s) is Ok,
    ensures
        is_short(take_short(s)->Ok_0.0),
{
    lemma_pow256_values();
    lemma_be_value_bound(s.take(1));
    lemma_text_read_is_short(s.skip(1), be_value(s.take(1)));
}

proof fn lemma_shorts_read_are_short(s: Seq<u8>, n: nat)
    requires
        take_shorts(s, n) is Ok,
    ensures
        take_shorts(s, n)->Ok_0.0.len() == n,
        forall|i: int|
            0 <= i < n ==> is_short(#[trigger] take_shorts(s, n)->Ok_0.0[i]),
    decreases n,
{
    if n > 0 {
        lemma_shorts_read_are_short(s, (n - 1) as nat);
        lemma_short_read_is_short(take_shorts(s, (n - 1) as nat)->Ok_0.1);
    }
}

proof fn lemma_files_read_are_short(s: Seq<u8>, n: nat)
    requires
        take_files(s, n) is Ok,
    ensures
        take_files(s, n)->Ok_0.0.len() == n,
        forall|i: int|
            0 <= i < n ==> is_short((#[trigger] take_files(s, n)->Ok_0.0[i]).name),
    decreases n,
{
    if n > 0 {
        lemma_files_read_are_short(s, (n - 1) as nat);
        lemma_short_read_is_short(take_files(s, (n - 1) as nat)->Ok_0.1);
    }
}

proof fn lemma_indices_read(s: Seq<u8>, n: nat)
    requires
        take_indices(s, n) is Ok,
    ensures
        take_indices(s, n)->Ok_0.0.len() == n,
    decreases n,
{
    if n > 0 {
        lemma_indices_read(s, (n - 1) as nat);
    }
}

proof fn lemma_text_list_read(s: Seq<u8>)
    requires
        take_text_list(s) is Ok,
    ensures
        take_text_list(s)->Ok_0.0.len() <= 255,
        forall|i: int|
            0 <= i < take_text_list(s)->Ok_0.0.len() ==> is_short(
                #[trigger] take_text_list(s)->Ok_0.0[i],
            ),
{
    lemma_pow256_values();
    lemma_be_value_bound(s.take(1));
    lemma_shorts_read_are_short(s.skip(1), be_value(s.take(1)));
}

/// Whatever is read off a wire is within the limits of the wire format, so
/// it can be passed on unchanged.
pub proof fn law_read_messages_are_in_limits(s: Seq<u8>)
    requires
        decoded(s) is Ok,
    ensures
        in_limits(decoded(s)->Ok_0.0),
{
    let tag = be_value(s.take(1));
    let fields = s.skip(1).skip(8);
    lemma_pow256_values();
    lemma_be_value_bound(s.take(1));
    if tag == ClipboardMessage::MSG_OFFER {
        let n = be_value(fields.take(2));
        lemma_text_read_is_short(fields.skip(2), n);
    } else if tag == ClipboardMessage::MSG_REQUEST || tag == ClipboardMessage::MSG_DATA {
        lemma_plain_text();
        if tag == ClipboardMessage::MSG_DATA {
            lemma_be_value_bound(fields.take(4));
        }
    } else if tag == ClipboardMessage::MSG_OFFER_V2 || tag == ClipboardMessage::MSG_REQUEST_V3 {
        lemma_text_list_read(fields);
    } else if tag == ClipboardMessage::MSG_REQUEST_V2 {
        lemma_short_read_is_short(fields);
    } else if tag == ClipboardMessage::MSG_DATA_V2 {
        lemma_short_read_is_short(fields);
        let block = take_short(fields)->Ok_0.1;
        lemma_be_value_bound(block.take(4));
    } else if tag == ClipboardMessage::MSG_FILE_OFFER {
        lemma_files_read_are_short(fields.skip(4), be_value(fields.take(4)));
    } else if tag == ClipboardMessage::MSG_FILE_REQUEST {
        lemma_indices_read(fields.skip(4), be_value(fields.take(4)));
    }
}

/// A text that is cut in the middle of a character is refused by the peer,
/// with the bytes that were sent. What follows the text is left unread.
pub proof fn law_cut_character_is_refused(
    id: u64,
    mime_type: Seq<char>,
    data: Seq<u8>,
    rest: Seq<u8>,
)
    requires
        !sendable(mime_type),
    ensures
        decoded(encoded(MessageView::Data { id, mime_type, data }, 2) + rest) == Err::<
            (MessageView, Seq<u8>),
            ReadFailure,
        >(
            ReadFailure {
                error: ErrorView::Utf8(sent_bytes(mime_type)),
                rest: block_bytes(data) + rest,
            },
        ),
{
    let head = head_bytes(ClipboardMessage::MSG_DATA_V2, id);
    let name = short_bytes(mime_type);
    let block = block_bytes(data) + rest;
    lemma_regroup(head, name, block_bytes(data), rest);
    lemma_take_head(ClipboardMessage::MSG_DATA_V2, id, name + block);
    lemma_take_short(mime_type, block);
}

/// A message that is written to a stream is the next one that is read from
/// it, and the stream then stands behind its frame.
pub proof fn law_read_after_write(msg: MessageView, version: u16, rest: Seq<u8>)
    requires
        0 < encoded(msg, version).len() <= MAX_CLIPBOARD_FRAME_SIZE,
        survives(msg, version),
    ensures
        framed(msg, version) is Ok,
        first_message(framed(msg, version)->Ok_0 + rest) == (
            Ok::<MessageView, ErrorView>(as_received(msg, version)),
            rest,
        ),
{
    let payload = encoded(msg, version);
    let header = be_bytes(payload.len(), 4);
    let s = framed(msg, version)->Ok_0 + rest;
    lemma_pow256_values();
    lemma_be_roundtrip(payload.len(), 4);
    assert(s.take(4) =~= header);
    assert(s.skip(4) =~= payload + rest);
    assert(s.skip(4).take(payload.len() as int) =~= payload);
    assert(s.skip(4).skip(payload.len() as int) =~= rest);
    law_decode_after_encode(msg, version, seq![]);
    assert(payload + seq![] =~= payload);
}

/// A frame that is too large is reported with its length and passed over:
/// the stream then stands at what follows it.
pub proof fn law_oversized_frame_is_skipped(body: Seq<u8>, rest: Seq<u8>)
    requires
        MAX_CLIPBOARD_FRAME_SIZE < body.len() <= u32::MAX,
    ensures
        first_message(be_bytes(body.len(), 4) + body + rest) == (
            Err::<MessageView, ErrorView>(ErrorView::FrameTooLarge(body.len() as u32)),
            rest,
        ),
{
    let header = be_bytes(body.len(), 4);
    let s = header + body + rest;
    lemma_pow256_values();
    lemma_be_roundtrip(body.len(), 4);
    assert(s.take(4) =~= header);
    assert(s.skip(4) =~= body + rest);
    assert(s.skip(4).skip(body.len() as int) =~= rest);
}

/// No frame that is written is refused by its reader for its size, and none
/// is cut: the frame states how much follows.
pub proof fn law_written_frames_are_acceptable(msg: MessageView, version: u16)
    requires
        framed(msg, version) is Ok,
        framed(msg, version)->Ok_0.len() > 0,
    ensures
        !is_oversized(be_value(framed(msg, version)->Ok_0.take(4)) as int),
        framed(msg, version)->Ok_0.len() == 4 + be_value(framed(msg, version)->Ok_0.take(4)),
{
    let payload = encoded(msg, version);
    lemma_pow256_values();
    lemma_be_roundtrip(payload.len(), 4);
    assert(framed(msg, version)->Ok_0.take(4) =~= be_bytes(payload.len(), 4));
}

/// Whatever is larger than a frame may be is refused, however much larger.
pub proof fn law_oversized_messages_are_refused(msg: MessageView, version: u16)
    ensures
        framed(msg, version) is Err <==> encoded(msg, version).len() > MAX_CLIPBOARD_FRAME_SIZE,
        framed(msg, version) matches Err(e) ==> e is FrameTooLarge,
{
}

/// Whatever version the connecting side speaks, its greeting and the answer
/// to it arrive, so both sides end up with the same version.
pub proof fn law_handshake_arrives(theirs: u16, rest: Seq<u8>)
    ensures
        ({
            let hello = MessageView::Hello { protocol_version: theirs };
            let version = common_version(theirs);
            let answer = MessageView::HelloAck { protocol_version: version };
            &&& framed(hello, theirs) is Ok
            &&& framed(answer, version) is Ok
            &&& first_message(framed(hello, theirs)->Ok_0 + rest) == (
                Ok::<MessageView, ErrorView>(hello),
                rest,
            )
            &&& first_message(framed(answer, version)->Ok_0 + rest) == (
                Ok::<MessageView, ErrorView>(answer),
                rest,
            )
        }),
{
    let version = common_version(theirs);
    lemma_be_bytes_len(theirs as nat, 2);
    lemma_be_bytes_len(version as nat, 2);
    law_read_after_write(MessageView::Hello { protocol_version: theirs }, theirs, rest);
    law_read_after_write(MessageView::HelloAck { protocol_version: version }, version, rest);
}

} // verus!
