//! The wire format of every message, byte by byte.

use vstd::prelude::*;
use vstd::utf8::{decode_utf8, encode_utf8, valid_utf8};

use crate::bytes::{be_bytes, be_value, lemma_be_bytes_len};
use crate::protocol::{decoded, encoded, files_bytes, indices_bytes, short_bytes, shorts_bytes};
use crate::protocol::{text_list_bytes, ErrorView, FileView, MessageView};

verus! {

// ---------------------------------------------------------------------------
// Numbers

/// `x` in two bytes, most significant byte first.
pub open spec fn be2(x: int) -> Seq<u8> {
    seq![(x / 0x100 % 0x100) as u8, (x % 0x100) as u8]
}

/// `x` in four bytes, most significant byte first.
pub open spec fn be4(x: int) -> Seq<u8> {
    be2(x / 0x1_0000) + be2(x)
}

/// `x` in eight bytes, most significant byte first.
pub open spec fn be8(x: int) -> Seq<u8> {
    be4(x / 0x1_0000_0000) + be4(x)
}

/// Two bytes hold the number, most significant byte first.
pub proof fn law_two_bytes(x: nat)
    ensures
        be_bytes(x, 2) == be2(x as int),
{
    reveal_with_fuel(be_bytes, 3);
    assert(be_bytes(x, 2) =~= be2(x as int));
}

/// Four bytes hold the number, most significant byte first.
pub proof fn law_four_bytes(x: nat)
    ensures
        be_bytes(x, 4) == be4(x as int),
{
    reveal_with_fuel(be_bytes, 5);
    assert(x / 256 / 256 == x / 0x1_0000);
    assert(x / 256 / 256 / 256 == x / 0x1_0000 / 0x100);
    assert(be_bytes(x, 4) =~= be4(x as int));
}

/// Eight bytes hold the number, most significant byte first.
pub proof fn law_eight_bytes(x: nat)
    ensures
        be_bytes(x, 8) == be8(x as int),
{
    law_four_bytes(x / 0x1_0000_0000);
    law_four_bytes(x);
    reveal_with_fuel(be_bytes, 9);
    assert(x / 256 / 256 / 256 / 256 == x / 0x1_0000_0000);
    lemma_be_bytes_len(x, 8);
    assert(be_bytes(x, 8) =~= be8(x as int));
}

/// The number that bytes spell: each byte counts 256 times as much as the one
/// behind it.
pub proof fn law_number_of_bytes(b: Seq<u8>)
    ensures
        b.len() == 0 ==> be_value(b) == 0,
        b.len() == 1 ==> be_value(b) == b[0],
        b.len() == 2 ==> be_value(b) == b[0] * 0x100 + b[1],
        b.len() == 4 ==> be_value(b) == b[0] * 0x100_0000 + b[1] * 0x1_0000 + b[2] * 0x100 + b[3],
        b.len() == 8 ==> be_value(b) == b[0] * 0x100_0000_0000_0000 + b[1] * 0x1_0000_0000_0000
            + b[2] * 0x100_0000_0000 + b[3] * 0x1_0000_0000 + b[4] * 0x100_0000 + b[5] * 0x1_0000
            + b[6] * 0x100 + b[7],
{
    reveal_with_fuel(be_value, 9);
}

// ---------------------------------------------------------------------------
// Texts and lists

/// A text of at most 255 bytes is sent whole behind its length, and of a
/// longer one the first 255 bytes.
pub proof fn law_text_on_the_wire(text: Seq<char>)
    ensures
        ({
            let utf8 = encode_utf8(text);
            let sent = short_bytes(text);
            &&& utf8.len() <= 255 ==> sent.len() == utf8.len() + 1 && sent[0] == utf8.len()
            &&& utf8.len() > 255 ==> sent.len() == 256 && sent[0] == 255
            &&& forall|i: int| 1 <= i < sent.len() ==> #[trigger] sent[i] == utf8[i - 1]
        }),
{
}

/// Several texts, files or indices stand one behind the other.
pub proof fn law_lists_on_the_wire(
    texts: Seq<Seq<char>>,
    text: Seq<char>,
    files: Seq<FileView>,
    file: FileView,
    indices: Seq<u32>,
    index: u32,
)
    ensures
        shorts_bytes(Seq::<Seq<char>>::empty()).len() == 0,
        shorts_bytes(texts.push(text)) == shorts_bytes(texts) + short_bytes(text),
        files_bytes(Seq::<FileView>::empty()).len() == 0,
        files_bytes(files.push(file)) == files_bytes(files) + short_bytes(file.name) + be8(
            file.size as int,
        ),
        indices_bytes(Seq::<u32>::empty()).len() == 0,
        indices_bytes(indices.push(index)) == indices_bytes(indices) + be4(index as int),
{
    assert(texts.push(text).drop_last() =~= texts);
    assert(files.push(file).drop_last() =~= files);
    assert(indices.push(index).drop_last() =~= indices);
    law_eight_bytes(file.size as nat);
    law_four_bytes(index as nat);
}

/// A list of texts is sent behind its count, and of more than 255 the first
/// 255.
pub proof fn law_text_list_on_the_wire(list: Seq<Seq<char>>)
    ensures
        list.len() <= 255 ==> text_list_bytes(list) == seq![list.len() as u8] + shorts_bytes(list),
        list.len() > 255 ==> text_list_bytes(list) == seq![255u8] + shorts_bytes(list.take(255)),
{
    if list.len() <= 255 {
        assert(list.take(list.len() as int) =~= list);
    }
}

// ---------------------------------------------------------------------------
// Messages

/// Greetings and errors have one form in every version.
pub proof fn law_greetings_and_errors_on_the_wire(number: u16, id: u64, version: u16)
    ensures
        encoded(MessageView::Hello { protocol_version: number }, version) == seq![1u8] + be2(
            number as int,
        ),
        encoded(MessageView::HelloAck { protocol_version: number }, version) == seq![2u8] + be2(
            number as int,
        ),
        encoded(MessageView::Error { id, code: number }, version) == seq![6u8] + be8(id as int)
            + be2(number as int),
{
    law_two_bytes(number as nat);
    law_eight_bytes(id as nat);
}

/// Offers, requests and data on the wire, by version. Version 1 knows plain
/// text only and does not name it, but in an offer; version 2 requests one
/// representation at a time.
pub proof fn law_clipboard_messages_on_the_wire(
    id: u64,
    types: Seq<Seq<char>>,
    mime_type: Seq<char>,
    data: Seq<u8>,
    version: u16,
)
    ensures
        ({
            let offer = encoded(MessageView::Offer { id, mime_types: types }, version);
            let request = encoded(MessageView::Request { id, mime_types: types }, version);
            let answer = encoded(MessageView::Data { id, mime_type, data }, version);
            let is_plain = types.contains("text/plain"@);
            &&& version >= 2 ==> offer == seq![7u8] + be8(id as int) + text_list_bytes(types)
            &&& version < 2 && is_plain ==> offer == seq![3u8] + be8(id as int) + be2(10)
                + encode_utf8("text/plain"@)
            &&& version < 2 && !is_plain ==> offer.len() == 0
            &&& version >= 3 ==> request == seq![10u8] + be8(id as int) + text_list_bytes(types)
            &&& version == 2 && types.len() > 0 ==> request == seq![8u8] + be8(id as int)
                + short_bytes(types[0])
            &&& version == 2 && types.len() == 0 ==> request.len() == 0
            &&& version < 2 && is_plain ==> request == seq![4u8] + be8(id as int)
            &&& version < 2 && !is_plain ==> request.len() == 0
            &&& version >= 2 ==> answer == seq![9u8] + be8(id as int) + short_bytes(mime_type)
                + be4(data.len() as int) + data
            &&& version < 2 && mime_type == "text/plain"@ ==> answer == seq![5u8] + be8(id as int)
                + be4(data.len() as int) + data
            &&& version < 2 && mime_type != "text/plain"@ ==> answer.len() == 0
        }),
{
    law_eight_bytes(id as nat);
    law_four_bytes(data.len());
    law_two_bytes(10);
    reveal_strlit("text/plain");
    vstd::utf8::is_ascii_chars_encode_utf8("text/plain"@);
    let answer = encoded(MessageView::Data { id, mime_type, data }, version);
    if version >= 2 {
        assert(answer =~= seq![9u8] + be8(id as int) + short_bytes(mime_type) + be4(
            data.len() as int,
        ) + data);
    } else if mime_type == "text/plain"@ {
        assert(answer =~= seq![5u8] + be8(id as int) + be4(data.len() as int) + data);
    }
}

/// Messages about files on the wire, from version 4 on; earlier versions
/// cannot express them. At most 10,000 files or indices are listed.
pub proof fn law_file_messages_on_the_wire(
    id: u64,
    files: Seq<FileView>,
    indices: Seq<u32>,
    index: u32,
    number: u64,
    data: Seq<u8>,
    version: u16,
)
    ensures
        ({
            let offer = encoded(MessageView::FileOffer { id, files }, version);
            let request = encoded(MessageView::FileRequest { id, file_indices: indices }, version);
            let chunk = encoded(
                MessageView::FileChunk { id, file_index: index, offset: number, data },
                version,
            );
            let complete = encoded(
                MessageView::FileComplete { id, file_index: index, size: number, sha256: data },
                version,
            );
            let ack = encoded(
                MessageView::FileChunkAck { id, file_index: index, offset: number },
                version,
            );
            &&& version < 4 ==> offer.len() == 0 && request.len() == 0 && chunk.len() == 0
                && complete.len() == 0 && ack.len() == 0
            &&& version >= 4 ==> {
                &&& files.len() <= 10_000 ==> offer == seq![11u8] + be8(id as int) + be4(
                    files.len() as int,
                ) + files_bytes(files)
                &&& files.len() > 10_000 ==> offer == seq![11u8] + be8(id as int) + be4(10_000)
                    + files_bytes(files.take(10_000))
                &&& indices.len() <= 10_000 ==> request == seq![12u8] + be8(id as int) + be4(
                    indices.len() as int,
                ) + indices_bytes(indices)
                &&& indices.len() > 10_000 ==> request == seq![12u8] + be8(id as int) + be4(10_000)
                    + indices_bytes(indices.take(10_000))
                &&& chunk == seq![13u8] + be8(id as int) + be4(index as int) + be8(number as int)
                    + be4(data.len() as int) + data
                &&& complete == seq![14u8] + be8(id as int) + be4(index as int) + be8(number as int)
                    + data
                &&& ack == seq![15u8] + be8(id as int) + be4(index as int) + be8(number as int)
            }
        }),
{
    law_eight_bytes(id as nat);
    law_eight_bytes(number as nat);
    law_four_bytes(index as nat);
    law_four_bytes(data.len());
    law_four_bytes(10_000);
    law_four_bytes(files.len());
    law_four_bytes(indices.len());
    assert(files.take(files.len() as int) =~= files);
    assert(indices.take(indices.len() as int) =~= indices);
    if version >= 4 {
        assert(encoded(
            MessageView::FileChunk { id, file_index: index, offset: number, data },
            version,
        ) =~= seq![13u8] + be8(id as int) + be4(index as int) + be8(number as int) + be4(
            data.len() as int,
        ) + data);
    }
}

// ---------------------------------------------------------------------------
// What cannot be read

/// A message begins with a tag from 1 to 15; nothing else is read, and the
/// refusal names the tag.
pub proof fn law_unknown_tags_are_refused(s: Seq<u8>)
    requires
        s.len() > 0,
        s[0] == 0 || s[0] > 15,
    ensures
        decoded(s) matches Err(failure) && failure.error == ErrorView::InvalidMessageType(s[0])
            && failure.rest == s.skip(1),
{
    law_number_of_bytes(s.take(1));
}

/// An offer of version 1 whose text is longer than 255 bytes is refused.
pub proof fn law_long_plain_offer_is_refused(s: Seq<u8>)
    requires
        s.len() >= 11,
        s[0] == 3,
        s[9] > 0,
    ensures
        decoded(s) matches Err(failure) && failure.error == ErrorView::InvalidMessageType(3)
            && failure.rest == s.skip(11),
{
    law_number_of_bytes(s.take(1));
    let after_tag = s.skip(1);
    let fields = after_tag.skip(8);
    law_number_of_bytes(fields.take(2));
    assert(fields[0] == s[9]);
    assert(fields.skip(2) =~= s.skip(11));
}

/// A list of more than 10,000 files or indices is refused.
pub proof fn law_long_file_list_is_refused(s: Seq<u8>)
    requires
        s.len() >= 13,
        s[0] == 11 || s[0] == 12,
        s[9] * 0x100_0000 + s[10] * 0x1_0000 + s[11] * 0x100 + s[12] > 10_000,
    ensures
        decoded(s) matches Err(failure) && failure.error == ErrorView::InvalidMessageType(s[0])
            && failure.rest == s.skip(13),
{
    law_number_of_bytes(s.take(1));
    let after_tag = s.skip(1);
    let fields = after_tag.skip(8);
    law_number_of_bytes(fields.take(4));
    assert(fields[0] == s[9] && fields[1] == s[10] && fields[2] == s[11] && fields[3] == s[12]);
    assert(fields.skip(4) =~= s.skip(13));
}

/// A chunk that claims more than 100 MiB is refused, with the claim.
pub proof fn law_huge_chunk_is_refused(s: Seq<u8>)
    requires
        s.len() >= 25,
        s[0] == 13,
        s[21] * 0x100_0000 + s[22] * 0x1_0000 + s[23] * 0x100 + s[24] > 104_857_600,
    ensures
        decoded(s) matches Err(failure) && failure.error == ErrorView::FrameTooLarge(
            (s[21] * 0x100_0000 + s[22] * 0x1_0000 + s[23] * 0x100 + s[24]) as u32,
        ),
{
    law_number_of_bytes(s.take(1));
    let after_tag = s.skip(1);
    let fields = after_tag.skip(8);
    let further = fields.skip(4).skip(8);
    law_number_of_bytes(further.take(4));
    assert(further[0] == s[21] && further[1] == s[22] && further[2] == s[23] && further[3]
        == s[24]);
}

/// A text that is not UTF-8 is refused, with its bytes: here the MIME type
/// that version 2 requests or sends.
pub proof fn law_texts_have_to_be_utf8(s: Seq<u8>)
    requires
        s.len() >= 10,
        s[0] == 8 || s[0] == 9,
        s.len() >= 10 + s[9],
    ensures
        ({
            let text = s.subrange(10, 10 + s[9]);
            &&& !valid_utf8(text) ==> (decoded(s) matches Err(failure) && failure.error
                == ErrorView::Utf8(text))
            &&& valid_utf8(text) && s[0] == 8 ==> (decoded(s) matches Ok((msg, rest)) && rest
                == s.skip(10 + s[9]) && (msg matches MessageView::Request { mime_types, .. }
                && mime_types == seq![decode_utf8(text)]))
        }),
{
    law_number_of_bytes(s.take(1));
    let after_tag = s.skip(1);
    let fields = after_tag.skip(8);
    law_number_of_bytes(fields.take(1));
    assert(fields[0] == s[9]);
    let body = fields.skip(1);
    assert(body.take(s[9] as int) =~= s.subrange(10, 10 + s[9]));
    assert(body.skip(s[9] as int) =~= s.skip(10 + s[9]));
}

} // verus!
