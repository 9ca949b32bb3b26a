//! The messages that two clipboard peers exchange, and their wire format.
//!
//! A message is a tag byte followed by its fields. Numbers are big-endian.
//! A short text is its length in one byte and then its UTF-8 bytes; a longer
//! text is cut after 255 bytes. Which fields a message has on the wire
//! depends on the protocol version that the two peers agreed on.

use vstd::prelude::*;
use vstd::slice::{slice_subrange, slice_to_vec};
use vstd::utf8::{decode_utf8, encode_utf8, valid_utf8};

use crate::bytes::{be_bytes, be_value, push_all, push_be, read_be, read_bytes, split_first};
use crate::bytes::{lemma_be_value_bound, lemma_pow256_values, pow256};
use crate::transport::MAX_CLIPBOARD_FRAME_SIZE;
use crate::text::{contains_text, decode_text, same_text, texts};

verus! {

/// What kind of input failure ended a read.
#[derive(Debug, Clone, Copy, PartialEq, Eq, Structural)]
pub enum IoErrorKind {
    UnexpectedEof,
    TimedOut,
    Other,
}

/// An input failure: its kind and what to tell the user.
#[derive(Debug, Clone, PartialEq, Eq)]
pub struct IoError {
    pub kind: IoErrorKind,
    pub message: String,
}

/// Why a message could not be read or written.
#[derive(Debug, Clone, PartialEq, Eq)]
pub enum ProtocolError {
    /// The input ended early, stalled or failed.
    Io(IoError),
    /// A text field is not UTF-8; these are its bytes.
    Utf8(Vec<u8>),
    InvalidMessageType(u8),
    PayloadTooShort,
    FrameTooLarge(u32),
}

/// Name and size of a file that is on offer.
#[derive(Debug, Clone, PartialEq, Eq)]
pub struct FileMetadata {
    pub name: String,
    pub size: u64,
}

/// A message between two clipboard peers.
#[derive(Debug, Clone, PartialEq, Eq)]
pub enum ClipboardMessage {
    Hello { protocol_version: u16 },
    HelloAck { protocol_version: u16 },
    Offer { id: u64, mime_types: Vec<String> },
    Request { id: u64, mime_types: Vec<String> },
    Data { id: u64, mime_type: String, data: Vec<u8> },
    Error { id: u64, code: u16 },
    FileOffer { id: u64, files: Vec<FileMetadata> },
    FileRequest { id: u64, file_indices: Vec<u32> },
    FileChunk { id: u64, file_index: u32, offset: u64, data: Vec<u8> },
    FileComplete { id: u64, file_index: u32, size: u64, sha256: [u8; 32] },
    FileChunkAck { id: u64, file_index: u32, offset: u64 },
}

/// What a [`ProtocolError`] says.
pub enum ErrorView {
    Io(IoErrorKind, Seq<char>),
    Utf8(Seq<u8>),
    InvalidMessageType(u8),
    PayloadTooShort,
    FrameTooLarge(u32),
}

/// What a [`FileMetadata`] says.
pub struct FileView {
    pub name: Seq<char>,
    pub size: u64,
}

/// What a [`ClipboardMessage`] says.
pub enum MessageView {
    Hello { protocol_version: u16 },
    HelloAck { protocol_version: u16 },
    Offer { id: u64, mime_types: Seq<Seq<char>> },
    Request { id: u64, mime_types: Seq<Seq<char>> },
    Data { id: u64, mime_type: Seq<char>, data: Seq<u8> },
    Error { id: u64, code: u16 },
    FileOffer { id: u64, files: Seq<FileView> },
    FileRequest { id: u64, file_indices: Seq<u32> },
    FileChunk { id: u64, file_index: u32, offset: u64, data: Seq<u8> },
    FileComplete { id: u64, file_index: u32, size: u64, sha256: Seq<u8> },
    FileChunkAck { id: u64, file_index: u32, offset: u64 },
}

impl View for ProtocolError {
    type V = ErrorView;

    open spec fn view(&self) -> ErrorView {
        match self {
            ProtocolError::Io(e) => ErrorView::Io(e.kind, e.message@),
            ProtocolError::Utf8(bytes) => ErrorView::Utf8(bytes@),
            ProtocolError::InvalidMessageType(tag) => ErrorView::InvalidMessageType(*tag),
            ProtocolError::PayloadTooShort => ErrorView::PayloadTooShort,
            ProtocolError::FrameTooLarge(len) => ErrorView::FrameTooLarge(*len),
        }
    }
}

impl View for FileMetadata {
    type V = FileView;

    open spec fn view(&self) -> FileView {
        FileView { name: self.name@, size: self.size }
    }
}

/// The files that `v` describes.
pub open spec fn file_views(v: Seq<FileMetadata>) -> Seq<FileView> {
    v.map_values(|f: FileMetadata| f@)
}

/// A copy of `files`, description for description.
pub fn clone_files(files: &Vec<FileMetadata>) -> (r: Vec<FileMetadata>)
    ensures
        file_views(r@) == file_views(files@),
{
    let mut r: Vec<FileMetadata> = Vec::new();
    let mut i: usize = 0;
    while i < files.len()
        invariant
            i <= files.len(),
            r@.len() == i,
            forall|j: int| 0 <= j < i ==> (#[trigger] r@[j])@ == files@[j]@,
        decreases files.len() - i,
    {
        r.push(FileMetadata { name: files[i].name.clone(), size: files[i].size });
        i = i + 1;
    }
    assert(file_views(r@) =~= file_views(files@));
    r
}

impl View for ClipboardMessage {
    type V = MessageView;

    open spec fn view(&self) -> MessageView {
        match self {
            ClipboardMessage::Hello { protocol_version } => MessageView::Hello {
                protocol_version: *protocol_version,
            },
            ClipboardMessage::HelloAck { protocol_version } => MessageView::HelloAck {
                protocol_version: *protocol_version,
            },
            ClipboardMessage::Offer { id, mime_types } => MessageView::Offer {
                id: *id,
                mime_types: texts(mime_types@),
            },
            ClipboardMessage::Request { id, mime_types } => MessageView::Request {
                id: *id,
                mime_types: texts(mime_types@),
            },
            ClipboardMessage::Data { id, mime_type, data } => MessageView::Data {
                id: *id,
                mime_type: mime_type@,
                data: data@,
            },
            ClipboardMessage::Error { id, code } => MessageView::Error { id: *id, code: *code },
            ClipboardMessage::FileOffer { id, files } => MessageView::FileOffer {
                id: *id,
                files: file_views(files@),
            },
            ClipboardMessage::FileRequest { id, file_indices } => MessageView::FileRequest {
                id: *id,
                file_indices: file_indices@,
            },
            ClipboardMessage::FileChunk { id, file_index, offset, data } => MessageView::FileChunk {
                id: *id,
                file_index: *file_index,
                offset: *offset,
                data: data@,
            },
            ClipboardMessage::FileComplete { id, file_index, size, sha256 } => {
                MessageView::FileComplete {
                    id: *id,
                    file_index: *file_index,
                    size: *size,
                    sha256: sha256@,
                }
            },
            ClipboardMessage::FileChunkAck { id, file_index, offset } => {
                MessageView::FileChunkAck { id: *id, file_index: *file_index, offset: *offset }
            },
        }
    }
}

/// What a message says, if there is one.
pub open spec fn message_view(msg: Option<ClipboardMessage>) -> Option<MessageView> {
    match msg {
        Some(m) => Some(m@),
        None => None,
    }
}

/// How many files a message names at most.
pub const MAX_LISTED_FILES: u32 = 10_000;

/// The lesser of a length and a limit.
pub open spec fn at_most(len: nat, limit: nat) -> nat {
    if len <= limit {
        len
    } else {
        limit
    }
}

// ---------------------------------------------------------------------------
// Writing

/// A text as it is sent: one length byte and at most 255 bytes of UTF-8.
pub open spec fn short_bytes(text: Seq<char>) -> Seq<u8> {
    let utf8 = encode_utf8(text);
    let n = at_most(utf8.len(), 255);
    seq![n as u8] + utf8.take(n as int)
}

/// Several texts, one after the other.
pub open spec fn shorts_bytes(list: Seq<Seq<char>>) -> Seq<u8>
    decreases list.len(),
{
    if list.len() == 0 {
        seq![]
    } else {
        shorts_bytes(list.drop_last()) + short_bytes(list.last())
    }
}

/// Several file descriptions, one after the other.
pub open spec fn files_bytes(list: Seq<FileView>) -> Seq<u8>
    decreases list.len(),
{
    if list.len() == 0 {
        seq![]
    } else {
        files_bytes(list.drop_last()) + short_bytes(list.last().name) + be_bytes(
            list.last().size as nat,
            8,
        )
    }
}

/// Several file indices, one after the other.
pub open spec fn indices_bytes(list: Seq<u32>) -> Seq<u8>
    decreases list.len(),
{
    if list.len() == 0 {
        seq![]
    } else {
        indices_bytes(list.drop_last()) + be_bytes(list.last() as nat, 4)
    }
}

/// A list of texts as it is sent: one count byte and at most 255 texts.
pub open spec fn text_list_bytes(list: Seq<Seq<char>>) -> Seq<u8> {
    let n = at_most(list.len(), 255);
    seq![n as u8] + shorts_bytes(list.take(n as int))
}

/// A block of bytes as it is sent: its length in four bytes, then the block.
pub open spec fn block_bytes(data: Seq<u8>) -> Seq<u8> {
    be_bytes(data.len(), 4) + data
}

/// What a message starts with: its tag and the identifier of its transfer.
pub open spec fn head_bytes(tag: u8, id: u64) -> Seq<u8> {
    seq![tag] + be_bytes(id as nat, 8)
}

/// The wire format of every message in every protocol version. A message
/// that a version cannot express has no bytes at all.
pub open spec fn encoded(msg: MessageView, version: u16) -> Seq<u8> {
    match msg {
        MessageView::Hello { protocol_version } => seq![ClipboardMessage::MSG_HELLO] + be_bytes(
            protocol_version as nat,
            2,
        ),
        MessageView::HelloAck { protocol_version } => seq![ClipboardMessage::MSG_HELLO_ACK]
            + be_bytes(protocol_version as nat, 2),
        MessageView::Offer { id, mime_types } => if version >= 2 {
            head_bytes(ClipboardMessage::MSG_OFFER_V2, id) + text_list_bytes(mime_types)
        } else if mime_types.contains("text/plain"@) {
            head_bytes(ClipboardMessage::MSG_OFFER, id) + be_bytes(
                encode_utf8("text/plain"@).len(),
                2,
            ) + encode_utf8("text/plain"@)
        } else {
            seq![]
        },
        MessageView::Request { id, mime_types } => if version >= 3 {
            head_bytes(ClipboardMessage::MSG_REQUEST_V3, id) + text_list_bytes(mime_types)
        } else if version >= 2 {
            if mime_types.len() > 0 {
                head_bytes(ClipboardMessage::MSG_REQUEST_V2, id) + short_bytes(mime_types[0])
            } else {
                seq![]
            }
        } else if mime_types.contains("text/plain"@) {
            head_bytes(ClipboardMessage::MSG_REQUEST, id)
        } else {
            seq![]
        },
        MessageView::Data { id, mime_type, data } => if version >= 2 {
            head_bytes(ClipboardMessage::MSG_DATA_V2, id) + short_bytes(mime_type) + block_bytes(
                data,
            )
        } else if mime_type == "text/plain"@ {
            head_bytes(ClipboardMessage::MSG_DATA, id) + block_bytes(data)
        } else {
            seq![]
        },
        MessageView::Error { id, code } => head_bytes(ClipboardMessage::MSG_ERROR, id) + be_bytes(
            code as nat,
            2,
        ),
        MessageView::FileOffer { id, files } => if version >= 4 {
            let n = at_most(files.len(), MAX_LISTED_FILES as nat);
            head_bytes(ClipboardMessage::MSG_FILE_OFFER, id) + be_bytes(n, 4) + files_bytes(
                files.take(n as int),
            )
        } else {
            seq![]
        },
        MessageView::FileRequest { id, file_indices } => if version >= 4 {
            let n = at_most(file_indices.len(), MAX_LISTED_FILES as nat);
            head_bytes(ClipboardMessage::MSG_FILE_REQUEST, id) + be_bytes(n, 4) + indices_bytes(
                file_indices.take(n as int),
            )
        } else {
            seq![]
        },
        MessageView::FileChunk { id, file_index, offset, data } => if version >= 4 {
            head_bytes(ClipboardMessage::MSG_FILE_CHUNK, id) + be_bytes(file_index as nat, 4)
                + be_bytes(offset as nat, 8) + block_bytes(data)
        } else {
            seq![]
        },
        MessageView::FileComplete { id, file_index, size, sha256 } => if version >= 4 {
            head_bytes(ClipboardMessage::MSG_FILE_COMPLETE, id) + be_bytes(file_index as nat, 4)
                + be_bytes(size as nat, 8) + sha256
        } else {
            seq![]
        },
        MessageView::FileChunkAck { id, file_index, offset } => if version >= 4 {
            head_bytes(ClipboardMessage::MSG_FILE_CHUNK_ACK, id) + be_bytes(file_index as nat, 4)
                + be_bytes(offset as nat, 8)
        } else {
            seq![]
        },
    }
}

fn push_head(out: &mut Vec<u8>, tag: u8, id: u64)
    ensures
        final(out)@ == old(out)@ + head_bytes(tag, id),
{
    out.push(tag);
    push_be(out, id, 8);
    assert(out@ =~= old(out)@ + head_bytes(tag, id));
}

fn push_short(out: &mut Vec<u8>, text: &String)
    ensures
        final(out)@ == old(out)@ + short_bytes(text@),
{
    let utf8 = text.as_str().as_bytes();
    let n: usize = if utf8.len() <= 255 {
        utf8.len()
    } else {
        255
    };
    out.push(n as u8);
    push_all(out, slice_subrange(utf8, 0, n));
    assert(utf8@.subrange(0, n as int) =~= utf8@.take(n as int));
    assert(out@ =~= old(out)@ + short_bytes(text@));
}

fn push_text_list(out: &mut Vec<u8>, list: &Vec<String>)
    ensures
        final(out)@ == old(out)@ + text_list_bytes(texts(list@)),
{
    let n: usize = if list.len() <= 255 {
        list.len()
    } else {
        255
    };
    let ghost view = texts(list@);
    out.push(n as u8);
    let ghost base = out@;
    let mut i: usize = 0;
    assert(out@ =~= base + shorts_bytes(view.take(0)));
    while i < n
        invariant
            i <= n <= list.len(),
            view == texts(list@),
            out@ == base + shorts_bytes(view.take(i as int)),
        decreases n - i,
    {
        push_short(out, &list[i]);
        assert(view.take(i + 1).drop_last() =~= view.take(i as int));
        assert(view.take(i + 1).last() == list@[i as int]@);
        i = i + 1;
        assert(out@ =~= base + shorts_bytes(view.take(i as int)));
    }
    assert(out@ =~= old(out)@ + text_list_bytes(view));
}

fn push_block(out: &mut Vec<u8>, data: &Vec<u8>)
    ensures
        final(out)@ == old(out)@ + block_bytes(data@),
{
    push_be(out, data.len() as u64, 4);
    push_all(out, data.as_slice());
    assert(out@ =~= old(out)@ + block_bytes(data@));
}

fn push_files(out: &mut Vec<u8>, files: &Vec<FileMetadata>, n: usize)
    requires
        n <= files.len(),
    ensures
        final(out)@ == old(out)@ + files_bytes(file_views(files@).take(n as int)),
{
    let ghost view = file_views(files@);
    let ghost base = out@;
    let mut i: usize = 0;
    assert(out@ =~= base + files_bytes(view.take(0)));
    while i < n
        invariant
            i <= n <= files.len(),
            view == file_views(files@),
            out@ == base + files_bytes(view.take(i as int)),
        decreases n - i,
    {
        push_short(out, &files[i].name);
        push_be(out, files[i].size, 8);
        assert(view.take(i + 1).drop_last() =~= view.take(i as int));
        assert(view.take(i + 1).last() == files@[i as int]@);
        i = i + 1;
        assert(out@ =~= base + files_bytes(view.take(i as int)));
    }
}

fn push_indices(out: &mut Vec<u8>, indices: &Vec<u32>, n: usize)
    requires
        n <= indices.len(),
    ensures
        final(out)@ == old(out)@ + indices_bytes(indices@.take(n as int)),
{
    let ghost base = out@;
    let mut i: usize = 0;
    assert(out@ =~= base + indices_bytes(indices@.take(0)));
    while i < n
        invariant
            i <= n <= indices.len(),
            out@ == base + indices_bytes(indices@.take(i as int)),
        decreases n - i,
    {
        push_be(out, indices[i] as u64, 4);
        assert(indices@.take(i + 1).drop_last() =~= indices@.take(i as int));
        i = i + 1;
        assert(out@ =~= base + indices_bytes(indices@.take(i as int)));
    }
}

// ---------------------------------------------------------------------------
// Reading

/// Why something could not be read, and what is left unread then.
pub struct ReadFailure {
    pub error: ErrorView,
    pub rest: Seq<u8>,
}

/// What the reader of a message reports when its input ends too early.
pub open spec fn early_end() -> ErrorView {
    ErrorView::Io(IoErrorKind::UnexpectedEof, "failed to fill whole buffer"@)
}

/// `n` bytes, and what follows them. An input that is shorter is used up.
pub open spec fn take_bytes(s: Seq<u8>, n: nat) -> Result<(Seq<u8>, Seq<u8>), ReadFailure> {
    match split_first(s, n) {
        Some(parts) => Ok(parts),
        None => Err(ReadFailure { error: early_end(), rest: seq![] }),
    }
}

/// A number of `n` bytes, and what follows it.
pub open spec fn take_number(s: Seq<u8>, n: nat) -> Result<(nat, Seq<u8>), ReadFailure> {
    match take_bytes(s, n) {
        Ok((head, rest)) => Ok((be_value(head), rest)),
        Err(e) => Err(e),
    }
}

/// A text of `n` bytes, and what follows it.
pub open spec fn take_text(s: Seq<u8>, n: nat) -> Result<(Seq<char>, Seq<u8>), ReadFailure> {
    match take_bytes(s, n) {
        Ok((head, rest)) => if valid_utf8(head) {
            Ok((decode_utf8(head), rest))
        } else {
            Err(ReadFailure { error: ErrorView::Utf8(head), rest })
        },
        Err(e) => Err(e),
    }
}

/// A text behind its one-byte length, and what follows it.
pub open spec fn take_short(s: Seq<u8>) -> Result<(Seq<char>, Seq<u8>), ReadFailure> {
    match take_number(s, 1) {
        Ok((n, rest)) => take_text(rest, n),
        Err(e) => Err(e),
    }
}

/// A block of bytes behind its four-byte length, and what follows it.
pub open spec fn take_block(s: Seq<u8>) -> Result<(Seq<u8>, Seq<u8>), ReadFailure> {
    match take_number(s, 4) {
        Ok((n, rest)) => take_bytes(rest, n),
        Err(e) => Err(e),
    }
}

/// `n` texts, and what follows them.
pub open spec fn take_shorts(s: Seq<u8>, n: nat) -> Result<(Seq<Seq<char>>, Seq<u8>), ReadFailure>
    decreases n,
{
    if n == 0 {
        Ok((seq![], s))
    } else {
        match take_shorts(s, (n - 1) as nat) {
            Ok((list, rest)) => match take_short(rest) {
                Ok((text, rest)) => Ok((list.push(text), rest)),
                Err(e) => Err(e),
            },
            Err(e) => Err(e),
        }
    }
}

/// A list of texts behind its one-byte count, and what follows it.
pub open spec fn take_text_list(s: Seq<u8>) -> Result<(Seq<Seq<char>>, Seq<u8>), ReadFailure> {
    match take_number(s, 1) {
        Ok((n, rest)) => take_shorts(rest, n),
        Err(e) => Err(e),
    }
}

/// One file description, and what follows it.
pub open spec fn take_file(s: Seq<u8>) -> Result<(FileView, Seq<u8>), ReadFailure> {
    match take_short(s) {
        Ok((name, rest)) => match take_number(rest, 8) {
            Ok((size, rest)) => Ok((FileView { name, size: size as u64 }, rest)),
            Err(e) => Err(e),
        },
        Err(e) => Err(e),
    }
}

/// `n` file descriptions, and what follows them.
pub open spec fn take_files(s: Seq<u8>, n: nat) -> Result<(Seq<FileView>, Seq<u8>), ReadFailure>
    decreases n,
{
    if n == 0 {
        Ok((seq![], s))
    } else {
        match take_files(s, (n - 1) as nat) {
            Ok((list, rest)) => match take_file(rest) {
                Ok((file, rest)) => Ok((list.push(file), rest)),
                Err(e) => Err(e),
            },
            Err(e) => Err(e),
        }
    }
}

/// `n` file indices, and what follows them.
pub open spec fn take_indices(s: Seq<u8>, n: nat) -> Result<(Seq<u32>, Seq<u8>), ReadFailure>
    decreases n,
{
    if n == 0 {
        Ok((seq![], s))
    } else {
        match take_indices(s, (n - 1) as nat) {
            Ok((list, rest)) => match take_number(rest, 4) {
                Ok((index, rest)) => Ok((list.push(index as u32), rest)),
                Err(e) => Err(e),
            },
            Err(e) => Err(e),
        }
    }
}

/// The count of a file list behind the tag `tag`, and what follows it. A
/// count beyond the limit discredits the message.
pub open spec fn take_count(s: Seq<u8>, tag: u8) -> Result<(nat, Seq<u8>), ReadFailure> {
    match take_number(s, 4) {
        Ok((n, rest)) => if n > MAX_LISTED_FILES {
            Err(ReadFailure { error: ErrorView::InvalidMessageType(tag), rest })
        } else {
            Ok((n, rest))
        },
        Err(e) => Err(e),
    }
}

/// File index and a second number of eight bytes, and what follows them.
pub open spec fn take_position(s: Seq<u8>) -> Result<((u32, u64), Seq<u8>), ReadFailure> {
    match take_number(s, 4) {
        Ok((index, rest)) => match take_number(rest, 8) {
            Ok((number, rest)) => Ok(((index as u32, number as u64), rest)),
            Err(e) => Err(e),
        },
        Err(e) => Err(e),
    }
}

/// The fields of the message with the tag `tag`, after its identifier.
pub open spec fn decoded_fields(tag: u8, id: u64, s: Seq<u8>) -> Result<
    (MessageView, Seq<u8>),
    ReadFailure,
> {
    if tag == ClipboardMessage::MSG_OFFER {
        match take_number(s, 2) {
            Ok((n, rest)) => if n > 255 {
                Err(ReadFailure { error: ErrorView::InvalidMessageType(tag), rest })
            } else {
                match take_text(rest, n) {
                    Ok((text, rest)) => Ok(
                        (MessageView::Offer { id, mime_types: seq![text] }, rest),
                    ),
                    Err(e) => Err(e),
                }
            },
            Err(e) => Err(e),
        }
    } else if tag == ClipboardMessage::MSG_REQUEST {
        Ok((MessageView::Request { id, mime_types: seq!["text/plain"@] }, s))
    } else if tag == ClipboardMessage::MSG_DATA {
        match take_block(s) {
            Ok((data, rest)) => Ok(
                (MessageView::Data { id, mime_type: "text/plain"@, data }, rest),
            ),
            Err(e) => Err(e),
        }
    } else if tag == ClipboardMessage::MSG_ERROR {
        match take_number(s, 2) {
            Ok((code, rest)) => Ok((MessageView::Error { id, code: code as u16 }, rest)),
            Err(e) => Err(e),
        }
    } else if tag == ClipboardMessage::MSG_OFFER_V2 {
        match take_text_list(s) {
            Ok((mime_types, rest)) => Ok((MessageView::Offer { id, mime_types }, rest)),
            Err(e) => Err(e),
        }
    } else if tag == ClipboardMessage::MSG_REQUEST_V2 {
        match take_short(s) {
            Ok((text, rest)) => Ok((MessageView::Request { id, mime_types: seq![text] }, rest)),
            Err(e) => Err(e),
        }
    } else if tag == ClipboardMessage::MSG_DATA_V2 {
        match take_short(s) {
            Ok((mime_type, rest)) => match take_block(rest) {
                Ok((data, rest)) => Ok((MessageView::Data { id, mime_type, data }, rest)),
                Err(e) => Err(e),
            },
            Err(e) => Err(e),
        }
    } else if tag == ClipboardMessage::MSG_REQUEST_V3 {
        match take_text_list(s) {
            Ok((mime_types, rest)) => Ok((MessageView::Request { id, mime_types }, rest)),
            Err(e) => Err(e),
        }
    } else if tag == ClipboardMessage::MSG_FILE_OFFER {
        match take_count(s, tag) {
            Ok((n, rest)) => match take_files(rest, n) {
                Ok((files, rest)) => Ok((MessageView::FileOffer { id, files }, rest)),
                Err(e) => Err(e),
            },
            Err(e) => Err(e),
        }
    } else if tag == ClipboardMessage::MSG_FILE_REQUEST {
        match take_count(s, tag) {
            Ok((n, rest)) => match take_indices(rest, n) {
                Ok((file_indices, rest)) => Ok(
                    (MessageView::FileRequest { id, file_indices }, rest),
                ),
                Err(e) => Err(e),
            },
            Err(e) => Err(e),
        }
    } else {
        match take_position(s) {
            Ok(((file_index, number), rest)) => if tag == ClipboardMessage::MSG_FILE_CHUNK {
                match take_number(rest, 4) {
                    Ok((n, rest)) => if n > MAX_CLIPBOARD_FRAME_SIZE {
                        Err(ReadFailure { error: ErrorView::FrameTooLarge(n as u32), rest })
                    } else {
                        match take_bytes(rest, n) {
                            Ok((data, rest)) => Ok(
                                (
                                    MessageView::FileChunk { id, file_index, offset: number, data },
                                    rest,
                                ),
                            ),
                            Err(e) => Err(e),
                        }
                    },
                    Err(e) => Err(e),
                }
            } else if tag == ClipboardMessage::MSG_FILE_COMPLETE {
                match take_bytes(rest, 32) {
                    Ok((sha256, rest)) => Ok(
                        (MessageView::FileComplete { id, file_index, size: number, sha256 }, rest),
                    ),
                    Err(e) => Err(e),
                }
            } else {
                Ok((MessageView::FileChunkAck { id, file_index, offset: number }, rest))
            },
            Err(e) => Err(e),
        }
    }
}

/// The message at the front of `s`, and what follows it.
pub open spec fn decoded(s: Seq<u8>) -> Result<(MessageView, Seq<u8>), ReadFailure> {
    match take_number(s, 1) {
        Ok((tag, rest)) => if tag == ClipboardMessage::MSG_HELLO {
            match take_number(rest, 2) {
                Ok((v, rest)) => Ok((MessageView::Hello { protocol_version: v as u16 }, rest)),
                Err(e) => Err(e),
            }
        } else if tag == ClipboardMessage::MSG_HELLO_ACK {
            match take_number(rest, 2) {
                Ok((v, rest)) => Ok((MessageView::HelloAck { protocol_version: v as u16 }, rest)),
                Err(e) => Err(e),
            }
        } else if ClipboardMessage::MSG_OFFER <= tag <= ClipboardMessage::MSG_FILE_CHUNK_ACK {
            match take_number(rest, 8) {
                Ok((id, rest)) => decoded_fields(tag as u8, id as u64, rest),
                Err(e) => Err(e),
            }
        } else {
            Err(ReadFailure { error: ErrorView::InvalidMessageType(tag as u8), rest })
        },
        Err(e) => Err(e),
    }
}

fn early_end_error() -> (r: ProtocolError)
    ensures
        r@ == early_end(),
{
    ProtocolError::Io(
        IoError {
            kind: IoErrorKind::UnexpectedEof,
            message: "failed to fill whole buffer".to_string(),
        },
    )
}

fn use_up(src: &mut &[u8])
    ensures
        final(src)@ == Seq::<u8>::empty(),
{
    let all: &[u8] = *src;
    *src = slice_subrange(all, all.len(), all.len());
    assert(src@ =~= Seq::<u8>::empty());
}

fn read_exact<'a>(src: &mut &'a [u8], n: usize) -> (r: Result<&'a [u8], ProtocolError>)
    ensures
        match take_bytes(old(src)@, n as nat) {
            Ok((head, rest)) => r matches Ok(x) && x@ == head && final(src)@ == rest,
            Err(e) => r matches Err(x) && x@ == e.error && final(src)@ == e.rest,
        },
{
    match read_bytes(src, n) {
        Some(head) => Ok(head),
        None => {
            use_up(src);
            Err(early_end_error())
        },
    }
}

fn read_number(src: &mut &[u8], n: usize) -> (r: Result<u64, ProtocolError>)
    requires
        n <= 8,
    ensures
        match take_number(old(src)@, n as nat) {
            Ok((v, rest)) => r matches Ok(x) && x == v && v < pow256(n as nat) && final(src)@
                == rest,
            Err(e) => r matches Err(x) && x@ == e.error && final(src)@ == e.rest,
        },
        n == 1 ==> pow256(n as nat) == 0x100,
        n == 2 ==> pow256(n as nat) == 0x1_0000,
        n == 4 ==> pow256(n as nat) == 0x1_0000_0000,
{
    proof {
        lemma_pow256_values();
        lemma_be_value_bound(src@.take(n as int));
    }
    match read_be(src, n) {
        Some(x) => Ok(x),
        None => {
            use_up(src);
            Err(early_end_error())
        },
    }
}

fn read_text(src: &mut &[u8], n: usize) -> (r: Result<String, ProtocolError>)
    ensures
        match take_text(old(src)@, n as nat) {
            Ok((text, rest)) => r matches Ok(x) && x@ == text && final(src)@ == rest,
            Err(e) => r matches Err(x) && x@ == e.error && final(src)@ == e.rest,
        },
{
    let bytes = read_exact(src, n)?;
    match decode_text(bytes) {
        Some(text) => Ok(text),
        None => Err(ProtocolError::Utf8(slice_to_vec(bytes))),
    }
}

fn read_short(src: &mut &[u8]) -> (r: Result<String, ProtocolError>)
    ensures
        match take_short(old(src)@) {
            Ok((text, rest)) => r matches Ok(x) && x@ == text && final(src)@ == rest,
            Err(e) => r matches Err(x) && x@ == e.error && final(src)@ == e.rest,
        },
{
    let n: u64 = read_number(src, 1)?;
    read_text(src, n as usize)
}

fn read_block(src: &mut &[u8]) -> (r: Result<Vec<u8>, ProtocolError>)
    ensures
        match take_block(old(src)@) {
            Ok((data, rest)) => r matches Ok(x) && x@ == data && final(src)@ == rest,
            Err(e) => r matches Err(x) && x@ == e.error && final(src)@ == e.rest,
        },
{
    let n: u64 = read_number(src, 4)?;
    let bytes = read_exact(src, n as usize)?;
    Ok(slice_to_vec(bytes))
}

/// A list that cannot be read to its first `m` items cannot be read further.
proof fn lemma_shorts_stop(s: Seq<u8>, m: nat, n: nat)
    requires
        m <= n,
        take_shorts(s, m) is Err,
    ensures
        take_shorts(s, n) == take_shorts(s, m),
    decreases n,
{
    if m < n {
        lemma_shorts_stop(s, m, (n - 1) as nat);
    }
}

proof fn lemma_files_stop(s: Seq<u8>, m: nat, n: nat)
    requires
        m <= n,
        take_files(s, m) is Err,
    ensures
        take_files(s, n) == take_files(s, m),
    decreases n,
{
    if m < n {
        lemma_files_stop(s, m, (n - 1) as nat);
    }
}

proof fn lemma_indices_stop(s: Seq<u8>, m: nat, n: nat)
    requires
        m <= n,
        take_indices(s, m) is Err,
    ensures
        take_indices(s, n) == take_indices(s, m),
    decreases n,
{
    if m < n {
        lemma_indices_stop(s, m, (n - 1) as nat);
    }
}

fn read_text_list(src: &mut &[u8]) -> (r: Result<Vec<String>, ProtocolError>)
    ensures
        match take_text_list(old(src)@) {
            Ok((list, rest)) => r matches Ok(x) && texts(x@) == list && final(src)@ == rest,
            Err(e) => r matches Err(x) && x@ == e.error && final(src)@ == e.rest,
        },
{
    let n: u64 = read_number(src, 1)?;
    let ghost start = src@;
    let mut list: Vec<String> = Vec::new();
    let mut i: u64 = 0;
    assert(texts(list@) =~= seq![]);
    while i < n
        invariant
            i <= n,
            take_number(old(src)@, 1) == Ok::<(nat, Seq<u8>), ReadFailure>((n as nat, start)),
            take_shorts(start, i as nat) == Ok::<(Seq<Seq<char>>, Seq<u8>), ReadFailure>(
                (texts(list@), src@),
            ),
        decreases n - i,
    {
        match read_short(src) {
            Ok(text) => {
                let ghost before = list@;
                list.push(text);
                assert(texts(list@) =~= texts(before).push(text@));
            },
            Err(e) => {
                proof {
                    lemma_shorts_stop(start, (i + 1) as nat, n as nat);
                }
                return Err(e);
            },
        }
        i = i + 1;
    }
    Ok(list)
}

fn read_files(src: &mut &[u8], n: u64) -> (r: Result<Vec<FileMetadata>, ProtocolError>)
    ensures
        match take_files(old(src)@, n as nat) {
            Ok((list, rest)) => r matches Ok(x) && file_views(x@) == list && final(src)@ == rest,
            Err(e) => r matches Err(x) && x@ == e.error && final(src)@ == e.rest,
        },
{
    let ghost start = src@;
    let mut list: Vec<FileMetadata> = Vec::new();
    let mut i: u64 = 0;
    assert(file_views(list@) =~= seq![]);
    while i < n
        invariant
            i <= n,
            start == old(src)@,
            take_files(start, i as nat) == Ok::<(Seq<FileView>, Seq<u8>), ReadFailure>(
                (file_views(list@), src@),
            ),
        decreases n - i,
    {
        match read_file(src) {
            Ok(file) => {
                let ghost before = list@;
                list.push(file);
                assert(file_views(list@) =~= file_views(before).push(file@));
            },
            Err(e) => {
                proof {
                    lemma_files_stop(start, (i + 1) as nat, n as nat);
                }
                return Err(e);
            },
        }
        i = i + 1;
    }
    Ok(list)
}

fn read_file(src: &mut &[u8]) -> (r: Result<FileMetadata, ProtocolError>)
    ensures
        match take_file(old(src)@) {
            Ok((file, rest)) => r matches Ok(x) && x@ == file && final(src)@ == rest,
            Err(e) => r matches Err(x) && x@ == e.error && final(src)@ == e.rest,
        },
{
    let name = read_short(src)?;
    let size: u64 = read_number(src, 8)?;
    Ok(FileMetadata { name, size })
}

fn read_indices(src: &mut &[u8], n: u64) -> (r: Result<Vec<u32>, ProtocolError>)
    ensures
        match take_indices(old(src)@, n as nat) {
            Ok((list, rest)) => r matches Ok(x) && x@ == list && final(src)@ == rest,
            Err(e) => r matches Err(x) && x@ == e.error && final(src)@ == e.rest,
        },
{
    let ghost start = src@;
    let mut list: Vec<u32> = Vec::new();
    let mut i: u64 = 0;
    while i < n
        invariant
            i <= n,
            start == old(src)@,
            take_indices(start, i as nat) == Ok::<(Seq<u32>, Seq<u8>), ReadFailure>((list@, src@)),
        decreases n - i,
    {
        match read_number(src, 4) {
            Ok(index) => {
                list.push(index as u32);
            },
            Err(e) => {
                proof {
                    lemma_indices_stop(start, (i + 1) as nat, n as nat);
                }
                return Err(e);
            },
        }
        i = i + 1;
    }
    Ok(list)
}

fn read_count(src: &mut &[u8], tag: u8) -> (r: Result<u64, ProtocolError>)
    ensures
        match take_count(old(src)@, tag) {
            Ok((n, rest)) => r matches Ok(x) && x == n && final(src)@ == rest,
            Err(e) => r matches Err(x) && x@ == e.error && final(src)@ == e.rest,
        },
{
    let n: u64 = read_number(src, 4)?;
    if n > MAX_LISTED_FILES as u64 {
        Err(ProtocolError::InvalidMessageType(tag))
    } else {
        Ok(n)
    }
}

fn read_digest(src: &mut &[u8]) -> (r: Result<[u8; 32], ProtocolError>)
    ensures
        match take_bytes(old(src)@, 32) {
            Ok((head, rest)) => r matches Ok(x) && x@ == head && final(src)@ == rest,
            Err(e) => r matches Err(x) && x@ == e.error && final(src)@ == e.rest,
        },
{
    let bytes = read_exact(src, 32)?;
    let mut digest = [0u8;32];
    let mut i: usize = 0;
    while i < 32
        invariant
            i <= 32,
            bytes@.len() == 32,
            forall|j: int| 0 <= j < i ==> digest@[j] == bytes@[j],
        decreases 32 - i,
    {
        digest[i] = bytes[i];
        i = i + 1;
    }
    assert(digest@ =~= bytes@);
    Ok(digest)
}

fn read_fields(tag: u8, id: u64, src: &mut &[u8]) -> (r: Result<ClipboardMessage, ProtocolError>)
    requires
        ClipboardMessage::MSG_OFFER <= tag <= ClipboardMessage::MSG_FILE_CHUNK_ACK,
    ensures
        match decoded_fields(tag, id, old(src)@) {
            Ok((msg, rest)) => r matches Ok(x) && x@ == msg && final(src)@ == rest,
            Err(e) => r matches Err(x) && x@ == e.error && final(src)@ == e.rest,
        },
{
    if tag == ClipboardMessage::MSG_OFFER {
        let n: u64 = read_number(src, 2)?;
        if n > 255 {
            return Err(ProtocolError::InvalidMessageType(tag));
        }
        let text = read_text(src, n as usize)?;
        let mime_types = vec![text];
        assert(texts(mime_types@) =~= seq![text@]);
        Ok(ClipboardMessage::Offer { id, mime_types })
    } else if tag == ClipboardMessage::MSG_REQUEST {
        let text = "text/plain".to_string();
        let mime_types = vec![text];
        assert(texts(mime_types@) =~= seq!["text/plain"@]);
        Ok(ClipboardMessage::Request { id, mime_types })
    } else if tag == ClipboardMessage::MSG_DATA {
        let data = read_block(src)?;
        Ok(ClipboardMessage::Data { id, mime_type: "text/plain".to_string(), data })
    } else if tag == ClipboardMessage::MSG_ERROR {
        let code = read_number(src, 2)? as u16;
        Ok(ClipboardMessage::Error { id, code })
    } else if tag == ClipboardMessage::MSG_OFFER_V2 {
        let mime_types = read_text_list(src)?;
        Ok(ClipboardMessage::Offer { id, mime_types })
    } else if tag == ClipboardMessage::MSG_REQUEST_V2 {
        let text = read_short(src)?;
        let mime_types = vec![text];
        assert(texts(mime_types@) =~= seq![text@]);
        Ok(ClipboardMessage::Request { id, mime_types })
    } else if tag == ClipboardMessage::MSG_DATA_V2 {
        let mime_type = read_short(src)?;
        let data = read_block(src)?;
        Ok(ClipboardMessage::Data { id, mime_type, data })
    } else if tag == ClipboardMessage::MSG_REQUEST_V3 {
        let mime_types = read_text_list(src)?;
        Ok(ClipboardMessage::Request { id, mime_types })
    } else if tag == ClipboardMessage::MSG_FILE_OFFER {
        let n: u64 = read_count(src, tag)?;
        let files = read_files(src, n)?;
        Ok(ClipboardMessage::FileOffer { id, files })
    } else if tag == ClipboardMessage::MSG_FILE_REQUEST {
        let n: u64 = read_count(src, tag)?;
        let file_indices = read_indices(src, n)?;
        Ok(ClipboardMessage::FileRequest { id, file_indices })
    } else {
        let file_index = read_number(src, 4)? as u32;
        let number: u64 = read_number(src, 8)?;
        if tag == ClipboardMessage::MSG_FILE_CHUNK {
            let n: u64 = read_number(src, 4)?;
            if n > MAX_CLIPBOARD_FRAME_SIZE as u64 {
                return Err(ProtocolError::FrameTooLarge(n as u32));
            }
            let data = slice_to_vec(read_exact(src, n as usize)?);
            Ok(ClipboardMessage::FileChunk { id, file_index, offset: number, data })
        } else if tag == ClipboardMessage::MSG_FILE_COMPLETE {
            let sha256 = read_digest(src)?;
            Ok(ClipboardMessage::FileComplete { id, file_index, size: number, sha256 })
        } else {
            Ok(ClipboardMessage::FileChunkAck { id, file_index, offset: number })
        }
    }
}

/// The tags of the messages. Later protocol versions say more, under tags of
/// their own.
impl ClipboardMessage {
    pub const MSG_HELLO: u8 = 1;

    pub const MSG_HELLO_ACK: u8 = 2;

    pub const MSG_OFFER: u8 = 3;

    pub const MSG_REQUEST: u8 = 4;

    pub const MSG_DATA: u8 = 5;

    pub const MSG_ERROR: u8 = 6;

    pub const MSG_OFFER_V2: u8 = 7;

    pub const MSG_REQUEST_V2: u8 = 8;

    pub const MSG_DATA_V2: u8 = 9;

    pub const MSG_REQUEST_V3: u8 = 10;

    pub const MSG_FILE_OFFER: u8 = 11;

    pub const MSG_FILE_REQUEST: u8 = 12;

    pub const MSG_FILE_CHUNK: u8 = 13;

    pub const MSG_FILE_COMPLETE: u8 = 14;

    pub const MSG_FILE_CHUNK_ACK: u8 = 15;

    /// Appends the message to `out` as protocol version `version` writes it.
    ///
    /// A buffer in memory takes whatever is written to it, so this succeeds.
    pub fn encode(&self, out: &mut Vec<u8>, version: u16) -> (r: Result<(), IoError>)
        ensures
            r is Ok,
            final(out)@ == old(out)@ + encoded(self@, version),
    {
        match self {
            ClipboardMessage::Hello { protocol_version } => {
                out.push(Self::MSG_HELLO);
                push_be(out, *protocol_version as u64, 2);
            },
            ClipboardMessage::HelloAck { protocol_version } => {
                out.push(Self::MSG_HELLO_ACK);
                push_be(out, *protocol_version as u64, 2);
            },
            ClipboardMessage::Offer { id, mime_types } => {
                if version >= 2 {
                    push_head(out, Self::MSG_OFFER_V2, *id);
                    push_text_list(out, mime_types);
                } else if contains_text(mime_types, "text/plain") {
                    push_head(out, Self::MSG_OFFER, *id);
                    let plain = "text/plain".as_bytes();
                    push_be(out, plain.len() as u64, 2);
                    push_all(out, plain);
                }
            },
            ClipboardMessage::Request { id, mime_types } => {
                if version >= 3 {
                    push_head(out, Self::MSG_REQUEST_V3, *id);
                    push_text_list(out, mime_types);
                } else if version >= 2 {
                    if mime_types.len() > 0 {
                        push_head(out, Self::MSG_REQUEST_V2, *id);
                        push_short(out, &mime_types[0]);
                    }
                } else if contains_text(mime_types, "text/plain") {
                    push_head(out, Self::MSG_REQUEST, *id);
                }
            },
            ClipboardMessage::Data { id, mime_type, data } => {
                if version >= 2 {
                    push_head(out, Self::MSG_DATA_V2, *id);
                    push_short(out, mime_type);
                    push_block(out, data);
                } else if same_text(mime_type, "text/plain") {
                    push_head(out, Self::MSG_DATA, *id);
                    push_block(out, data);
                }
            },
            ClipboardMessage::Error { id, code } => {
                push_head(out, Self::MSG_ERROR, *id);
                push_be(out, *code as u64, 2);
            },
            ClipboardMessage::FileOffer { id, files } => {
                if version >= 4 {
                    let n: usize = if files.len() <= MAX_LISTED_FILES as usize {
                        files.len()
                    } else {
                        MAX_LISTED_FILES as usize
                    };
                    push_head(out, Self::MSG_FILE_OFFER, *id);
                    push_be(out, n as u64, 4);
                    push_files(out, files, n);
                }
            },
            ClipboardMessage::FileRequest { id, file_indices } => {
                if version >= 4 {
                    let n: usize = if file_indices.len() <= MAX_LISTED_FILES as usize {
                        file_indices.len()
                    } else {
                        MAX_LISTED_FILES as usize
                    };
                    push_head(out, Self::MSG_FILE_REQUEST, *id);
                    push_be(out, n as u64, 4);
                    push_indices(out, file_indices, n);
                }
            },
            ClipboardMessage::FileChunk { id, file_index, offset, data } => {
                if version >= 4 {
                    push_head(out, Self::MSG_FILE_CHUNK, *id);
                    push_be(out, *file_index as u64, 4);
                    push_be(out, *offset, 8);
                    push_block(out, data);
                }
            },
            ClipboardMessage::FileComplete { id, file_index, size, sha256 } => {
                if version >= 4 {
                    push_head(out, Self::MSG_FILE_COMPLETE, *id);
                    push_be(out, *file_index as u64, 4);
                    push_be(out, *size, 8);
                    push_all(out, sha256);
                }
            },
            ClipboardMessage::FileChunkAck { id, file_index, offset } => {
                if version >= 4 {
                    push_head(out, Self::MSG_FILE_CHUNK_ACK, *id);
                    push_be(out, *file_index as u64, 4);
                    push_be(out, *offset, 8);
                }
            },
        }
        assert(out@ =~= old(out)@ + encoded(self@, version));
        Ok(())
    }

    /// Reads one message off the front of `src` and moves `src` past it. If
    /// that fails, `src` stands behind the last field that was read, or at its
    /// end if it ends too early.
    pub fn decode(src: &mut &[u8]) -> (r: Result<Self, ProtocolError>)
        ensures
            match decoded(old(src)@) {
                Ok((msg, rest)) => r matches Ok(m) && m@ == msg && final(src)@ == rest,
                Err(e) => r matches Err(x) && x@ == e.error && final(src)@ == e.rest,
            },
    {
        let tag = read_number(src, 1)? as u8;
        if tag == Self::MSG_HELLO {
            let protocol_version = read_number(src, 2)? as u16;
            Ok(ClipboardMessage::Hello { protocol_version })
        } else if tag == Self::MSG_HELLO_ACK {
            let protocol_version = read_number(src, 2)? as u16;
            Ok(ClipboardMessage::HelloAck { protocol_version })
        } else if Self::MSG_OFFER <= tag && tag <= Self::MSG_FILE_CHUNK_ACK {
            let id: u64 = read_number(src, 8)?;
            read_fields(tag, id, src)
        } else {
            Err(ProtocolError::InvalidMessageType(tag))
        }
    }
}

} // verus!
