//! What the clipboards of the desktops are given and what is read off them.

use vstd::prelude::*;
use vstd::utf8::{decode_utf8, encode_utf8, valid_utf8};

use crate::bytes::be_value;
use crate::image_data::{is_oversized_png, oversized_message, png_height, png_width};
use crate::image_data::validate_image_dimensions;
use crate::os_linux::{copy_sources, file_sources, is_refused_image, listed_types, or_plain_text};
use crate::os_linux::{owner_change, source_views, sources_of, CopyMime, CopySource, CopyTask};
use crate::os_linux::{parse_mime_list, SelectionReader, MAX_PAYLOAD};
use crate::protocol::{encoded, MessageView};
use crate::scan::{pieces, trimmed};
use crate::task::{item_views, ClipboardItem, ItemView};
use crate::text::{decimal, texts};
use crate::transport::framed;
use crate::uri_list::{is_listable, law_uri_list_reads_back, listed_paths, uri_list};

verus! {

/// The number in the four bytes of `data` from `at` on, most significant byte
/// first.
pub open spec fn number_in(data: Seq<u8>, at: int) -> int {
    data[at] * 0x100_0000 + data[at + 1] * 0x1_0000 + data[at + 2] * 0x100 + data[at + 3]
}

/// Whether `data` is a PNG image with a side of more than 8192 pixels.
pub open spec fn is_huge_png(data: Seq<u8>) -> bool {
    &&& data.len() >= 24
    &&& data[0] == 0x89
    &&& data[1] == 0x50
    &&& data[2] == 0x4E
    &&& data[3] == 0x47
    &&& data[4] == 0x0D
    &&& data[5] == 0x0A
    &&& data[6] == 0x1A
    &&& data[7] == 0x0A
    &&& number_in(data, 16) > 8192 || number_in(data, 20) > 8192
}

/// Whether the MIME type `name` is that of an image.
pub open spec fn names_an_image(name: Seq<char>) -> bool {
    &&& name.len() >= 6
    &&& name[0] == 'i'
    &&& name[1] == 'm'
    &&& name[2] == 'a'
    &&& name[3] == 'g'
    &&& name[4] == 'e'
    &&& name[5] == '/'
}

proof fn lemma_number(data: Seq<u8>, at: int)
    requires
        0 <= at <= data.len() - 4,
    ensures
        be_value(data.subrange(at, at + 4)) == number_in(data, at),
{
    let b = data.subrange(at, at + 4);
    reveal_with_fuel(be_value, 5);
    assert(b.drop_last().drop_last().drop_last().drop_last() =~= seq![]);
}

/// An image is too large if it is a PNG image that states, in bytes 16 to 23,
/// a width or a height of more than 8192 pixels. The refusal names both.
pub proof fn law_size_of_an_image(data: Seq<u8>)
    ensures
        is_oversized_png(data) <==> is_huge_png(data),
        data.len() >= 24 ==> png_width(data) == number_in(data, 16) && png_height(data)
            == number_in(data, 20),
        data.len() >= 24 ==> oversized_message(data) == "Image dimensions exceed 8192x8192 ("@
            + decimal(number_in(data, 16) as nat) + "x"@ + decimal(number_in(data, 20) as nat)
            + ")"@,
{
    if data.len() >= 24 {
        lemma_number(data, 16);
        lemma_number(data, 20);
        let head = data.take(8);
        let png = seq![0x89u8, 0x50u8, 0x4Eu8, 0x47u8, 0x0Du8, 0x0Au8, 0x1Au8, 0x0Au8];
        if is_huge_png(data) {
            assert(head =~= png);
        }
        if head == png {
            assert(head[0] == 0x89 && head[1] == 0x50 && head[2] == 0x4E && head[3] == 0x47);
            assert(head[4] == 0x0D && head[5] == 0x0A && head[6] == 0x1A && head[7] == 0x0A);
        }
    }
}

/// Of all items only images that are too large are refused: the MIME type has
/// to be that of an image, and the data a PNG of that size.
pub proof fn law_only_huge_images_are_refused(item: ItemView)
    ensures
        is_refused_image(item) <==> names_an_image(item.mime_type) && is_huge_png(item.data),
{
    law_size_of_an_image(item.data);
    reveal_strlit("image/");
    let head = item.mime_type.take(6);
    if names_an_image(item.mime_type) {
        assert(head =~= "image/"@);
    } else if item.mime_type.len() >= 6 && head == "image/"@ {
        assert(head[0] == 'i' && head[1] == 'm' && head[2] == 'a');
        assert(head[3] == 'g' && head[4] == 'e' && head[5] == '/');
    }
}

/// Which items are put on the clipboard: `at` lists the positions of all that
/// are not refused, in order.
pub open spec fn are_accepted(items: Seq<ItemView>, at: Seq<int>) -> bool {
    &&& forall|k: int|
        0 <= k < at.len() ==> 0 <= #[trigger] at[k] < items.len() && !(names_an_image(
            items[at[k]].mime_type,
        ) && is_huge_png(items[at[k]].data))
    &&& forall|j: int, k: int| 0 <= j < k < at.len() ==> #[trigger] at[j] < #[trigger] at[k]
    &&& forall|i: int|
        0 <= i < items.len() && !(names_an_image(items[i].mime_type) && is_huge_png(
            (#[trigger] items[i]).data,
        )) ==> at.contains(i)
}

proof fn lemma_sources(items: Seq<ItemView>) -> (at: Seq<int>)
    ensures
        are_accepted(items, at),
        sources_of(items).len() == at.len(),
        forall|k: int|
            0 <= k < at.len() ==> {
                let item = items[#[trigger] at[k]];
                let source = sources_of(items)[k];
                &&& source.data == item.data
                &&& source.mime is None <==> item.mime_type == "text/plain"@
                &&& source.mime matches Some(name) ==> name == item.mime_type
            },
    decreases items.len(),
{
    if items.len() == 0 {
        seq![]
    } else {
        let before = items.drop_last();
        let last = items.len() - 1;
        let earlier = lemma_sources(before);
        law_only_huge_images_are_refused(items.last());
        let at = if is_refused_image(items.last()) {
            earlier
        } else {
            earlier.push(last)
        };
        assert forall|k: int| 0 <= k < at.len() implies 0 <= #[trigger] at[k] < items.len() && !(
        names_an_image(items[at[k]].mime_type) && is_huge_png(items[at[k]].data)) by {
            if k < earlier.len() {
                assert(earlier[k] < before.len());
                assert(before[earlier[k]] == items[earlier[k]]);
            }
        }
        assert forall|i: int|
            0 <= i < items.len() && !(names_an_image(items[i].mime_type) && is_huge_png(
                (#[trigger] items[i]).data,
            )) implies at.contains(i) by {
            if i < last {
                assert(before[i] == items[i]);
                assert(earlier.contains(i));
                let k = choose|k: int| 0 <= k < earlier.len() && earlier[k] == i;
                assert(at[k] == i);
            } else {
                assert(at[earlier.len() as int] == last);
            }
        }
        assert forall|k: int| 0 <= k < at.len() implies {
            let item = items[#[trigger] at[k]];
            let source = sources_of(items)[k];
            &&& source.data == item.data
            &&& source.mime is None <==> item.mime_type == "text/plain"@
            &&& source.mime matches Some(name) ==> name == item.mime_type
        } by {
            if k < earlier.len() {
                assert(at[k] == earlier[k]);
                assert(before[earlier[k]] == items[earlier[k]]);
            }
        }
        at
    }
}

/// Every item that is not a refused image is put on the clipboard, in order
/// and with its own data: as text if its MIME type is exactly `text/plain`,
/// and otherwise under that very MIME type.
pub proof fn law_items_are_put_on_the_clipboard(items: Vec<ClipboardItem>, r: Vec<CopySource>)
    -> (at: Seq<int>)
    requires
        call_ensures(copy_sources, (items,), r),
    ensures
        are_accepted(item_views(items@), at),
        r@.len() == at.len(),
        forall|k: int|
            0 <= k < at.len() ==> {
                let item = items@[#[trigger] at[k]];
                &&& r@[k].data@ == item.data@
                &&& r@[k].mime is Text <==> item.mime_type@ == "text/plain"@
                &&& r@[k].mime matches CopyMime::Specific(name) ==> name@ == item.mime_type@
            },
{
    let view = item_views(items@);
    let at = lemma_sources(view);
    let sources = source_views(r@);
    assert(sources.len() == r@.len());
    assert forall|k: int| 0 <= k < at.len() implies {
        let item = items@[#[trigger] at[k]];
        &&& r@[k].data@ == item.data@
        &&& r@[k].mime is Text <==> item.mime_type@ == "text/plain"@
        &&& r@[k].mime matches CopyMime::Specific(name) ==> name@ == item.mime_type@
    } by {
        assert(0 <= at[k] < view.len());
        assert(view[at[k]] == items@[at[k]]@);
        assert(sources[k] == r@[k]@);
    }
    at
}

/// What is put on the clipboard for several items is what is put there for
/// each of them: no item makes a difference to another.
pub proof fn law_items_are_independent(items: Seq<ItemView>, more: Seq<ItemView>)
    ensures
        sources_of(items + more) == sources_of(items) + sources_of(more),
    decreases more.len(),
{
    if more.len() == 0 {
        assert(items + more =~= items);
        assert(sources_of(items) + sources_of(more) =~= sources_of(items));
    } else {
        law_items_are_independent(items, more.drop_last());
        assert((items + more).drop_last() =~= items + more.drop_last());
        assert((items + more).last() == more.last());
        assert(sources_of(items + more) =~= sources_of(items) + sources_of(more));
    }
}

/// Files are put on the clipboard under two names, with a list that names
/// their paths, and beside it an empty token.
pub proof fn law_files_are_listed_for_the_desktop(paths: Vec<String>, r: Vec<CopySource>)
    requires
        call_ensures(file_sources, (&paths,), r),
    ensures
        r@.len() == 3,
        r@[0].mime matches CopyMime::Specific(name) && name@ == "text/uri-list"@,
        r@[1].mime matches CopyMime::Specific(name) && name@ == "application/x-kde4-urilist"@,
        r@[2].mime matches CopyMime::Specific(name) && name@
            == "application/vnd.portal.filetransfer"@,
        r@[0].data@ == encode_utf8(uri_list(texts(paths@))),
        valid_utf8(r@[0].data@),
        (forall|i: int| 0 <= i < paths@.len() ==> is_listable(#[trigger] texts(paths@)[i]))
            ==> listed_paths(decode_utf8(r@[0].data@)) == texts(paths@),
        r@[1].data@ == r@[0].data@,
        r@[2].data@.len() == 0,
{
    let sources = source_views(r@);
    assert(sources.len() == r@.len());
    assert(sources[0] == r@[0]@);
    assert(sources[1] == r@[1]@);
    assert(sources[2] == r@[2]@);
    vstd::utf8::encode_utf8_valid_utf8(uri_list(texts(paths@)));
    vstd::utf8::encode_utf8_decode_utf8(uri_list(texts(paths@)));
    if forall|i: int| 0 <= i < paths@.len() ==> is_listable(#[trigger] texts(paths@)[i]) {
        law_uri_list_reads_back(texts(paths@));
    }
}

/// The MIME types on several lines are those on each line: none on a blank
/// line, and otherwise the line without the white space around it.
pub proof fn law_one_type_on_each_line(
    lines: Seq<Seq<char>>,
    more: Seq<Seq<char>>,
    line: Seq<char>,
)
    ensures
        listed_types(lines + more) == listed_types(lines) + listed_types(more),
        trimmed(line).len() == 0 ==> listed_types(seq![line]).len() == 0,
        trimmed(line).len() > 0 ==> listed_types(seq![line]) == seq![trimmed(line)],
    decreases more.len(),
{
    reveal_with_fuel(listed_types, 2);
    assert(seq![line].drop_last() =~= seq![]);
    if trimmed(line).len() > 0 {
        assert(listed_types(seq![line]) =~= seq![trimmed(line)]);
    }
    if more.len() == 0 {
        assert(lines + more =~= lines);
        assert(listed_types(lines) + listed_types(more) =~= listed_types(lines));
    } else {
        law_one_type_on_each_line(lines, more.drop_last(), line);
        assert((lines + more).drop_last() =~= lines + more.drop_last());
        assert((lines + more).last() == more.last());
        assert(listed_types(lines + more) =~= listed_types(lines) + listed_types(more));
    }
}

/// A clipboard that lists no MIME type is taken to hold plain text, and
/// nothing else; one that does, what it lists.
pub proof fn law_plain_text_is_the_fallback(types: Seq<Seq<char>>)
    ensures
        types.len() > 0 ==> or_plain_text(types) == types,
        types.len() == 0 ==> or_plain_text(types).len() == 1 && or_plain_text(types)[0]
            == "text/plain"@,
{
}

/// As much is read off a clipboard as a frame of 100 MiB can carry beside the
/// 13 bytes that announce it, and not a byte more.
pub proof fn law_payload_limit_is_exact(id: u64, data: Seq<u8>)
    requires
        data.len() <= 0xFFFF_FFFF,
    ensures
        data.len() <= MAX_PAYLOAD <==> data.len() <= 104_857_587,
        data.len() <= MAX_PAYLOAD <==> framed(
            MessageView::Data { id, mime_type: "text/plain"@, data },
            1,
        ) is Ok,
{
    crate::bytes::lemma_be_bytes_len(id as nat, 8);
    crate::bytes::lemma_be_bytes_len(data.len(), 4);
    assert(encoded(MessageView::Data { id, mime_type: "text/plain"@, data }, 1).len() == data.len()
        + 13);
}

/// A change of the clipboard is an echo exactly as long as our own data is
/// served; once it is not, there is nothing left to be served.
pub proof fn law_echo_while_served(copy: CopyTask, r: (bool, CopyTask))
    requires
        call_ensures(owner_change, (copy,), r),
    ensures
        r.0 <==> copy == CopyTask::Serving,
        r.0 ==> r.1 == CopyTask::Serving,
        !r.0 ==> r.1 == CopyTask::Idle,
{
}

/// What is read off the clipboard is collected in order, up to 104,857,587
/// bytes; a chunk that would go beyond is refused, and nothing of it is kept.
pub proof fn law_chunks_are_collected(
    reader: &mut SelectionReader,
    chunk: &[u8],
    r: Result<(), String>,
    fresh: SelectionReader,
)
    requires
        call_ensures(SelectionReader::push, (reader, chunk), r),
        call_ensures(SelectionReader::new, (), fresh),
    ensures
        fresh@.len() == 0,
        r is Ok <==> old(reader)@.len() + chunk@.len() <= 104_857_587,
        r is Ok ==> final(reader)@ == old(reader)@ + chunk@,
        r is Err ==> final(reader)@ == old(reader)@,
        r matches Err(message) ==> message@ == "Clipboard data exceeds 100MB limit"@,
{
}

/// All that was collected is handed over, unless it is an image that is too
/// large.
pub proof fn law_collected_data_is_handed_over(
    reader: SelectionReader,
    mime_type: &str,
    r: Result<Vec<u8>, String>,
)
    requires
        call_ensures(SelectionReader::finish, (reader, mime_type), r),
    ensures
        r is Err <==> names_an_image(mime_type@) && is_huge_png(reader@),
        r matches Ok(data) ==> data@ == reader@,
        r matches Err(message) ==> message@ == "Image dimensions exceed 8192x8192 ("@ + decimal(
            number_in(reader@, 16) as nat,
        ) + "x"@ + decimal(number_in(reader@, 20) as nat) + ")"@,
{
    law_only_huge_images_are_refused(ItemView { mime_type: mime_type@, data: reader@ });
    law_size_of_an_image(reader@);
}

/// Only PNG images with a side of more than 8192 pixels are refused.
pub proof fn law_checked_image(data: &[u8], r: Result<(), String>)
    requires
        call_ensures(validate_image_dimensions, (data,), r),
    ensures
        r is Err <==> is_huge_png(data@),
        r matches Err(message) ==> message@ == "Image dimensions exceed 8192x8192 ("@ + decimal(
            number_in(data@, 16) as nat,
        ) + "x"@ + decimal(number_in(data@, 20) as nat) + ")"@,
{
    law_size_of_an_image(data@);
}

/// A list of MIME types is read line by line; what is not a text, or lists
/// nothing, stands for plain text.
pub proof fn law_listed_types_are_read(list: &[u8], r: Vec<String>)
    requires
        call_ensures(parse_mime_list, (list,), r),
    ensures
        ({
            let listed = listed_types(pieces(decode_utf8(list@), '\n'));
            &&& valid_utf8(list@) && listed.len() > 0 ==> texts(r@) == listed
            &&& !valid_utf8(list@) || listed.len() == 0 ==> r@.len() == 1 && r@[0]@
                == "text/plain"@
        }),
{
    assert(texts(r@).len() == r@.len());
    if !valid_utf8(list@) || listed_types(pieces(decode_utf8(list@), '\n')).len() == 0 {
        assert(texts(r@)[0] == "text/plain"@);
        assert(texts(r@)[0] == r@[0]@);
    }
}

} // verus!
