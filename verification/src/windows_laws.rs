//! What the Windows clipboard is given and what is read off it.

use vstd::prelude::*;
use vstd::utf8::{decode_utf8_encode_utf8, encode_utf8, valid_utf8};

use crate::cf_html::{cf_html, fragment_in};
use crate::desktop_laws::names_an_image;
use crate::os_windows::{check_payload, data_of, format_type, format_types, png_of_bitmap};
use crate::os_windows::{png_or_message, read_kind, read_result, write_of, ClipboardRead};
use crate::os_windows::{EchoSuppressor, FailureView, ReadKind, WriteErrorView, WriteView};
use crate::scan::begins_with;

verus! {

proof fn lemma_image_names(name: Seq<char>)
    ensures
        begins_with(name, "image/"@) <==> names_an_image(name),
        names_an_image(name) ==> name != "text/plain"@ && name != "text/html"@,
        "text/plain"@ != "text/html"@,
        "image/png"@ != "image/jpeg"@,
        !names_an_image("text/plain"@),
        !names_an_image("text/html"@),
        names_an_image("image/png"@),
        names_an_image("image/jpeg"@),
{
    reveal_strlit("image/");
    reveal_strlit("text/plain");
    reveal_strlit("text/html");
    reveal_strlit("image/png");
    reveal_strlit("image/jpeg");
    let head = name.take(6);
    if names_an_image(name) {
        assert(head =~= "image/"@);
    } else if name.len() >= 6 && head == "image/"@ {
        assert(head[0] == 'i' && head[1] == 'm' && head[2] == 'a');
        assert(head[3] == 'g' && head[4] == 'e' && head[5] == '/');
    }
    assert("text/plain"@.len() == 10 && "text/html"@.len() == 9);
    assert("image/png"@.len() == 9 && "image/jpeg"@.len() == 10);
}

/// Plain text is written as the text that its bytes encode, and refused with
/// its bytes if they encode none. Nothing else is written as text.
pub proof fn law_plain_text_is_written_as_text(
    mime_type: Seq<char>,
    data: Seq<u8>,
    bitmap: Option<Seq<u8>>,
)
    ensures
        ({
            let plan = write_of(mime_type, data, bitmap);
            &&& (plan matches Ok(WriteView::Text(text)) ==> mime_type == "text/plain"@
                && encode_utf8(text) == data)
            &&& (plan matches Err(WriteErrorView::NotText(bytes)) ==> mime_type == "text/plain"@
                && bytes == data && !valid_utf8(data))
            &&& mime_type == "text/plain"@ && valid_utf8(data) ==> plan is Ok
            &&& mime_type == "text/plain"@ ==> (plan matches Ok(w) ==> w is Text)
            &&& mime_type == "text/plain"@ ==> (plan matches Err(e) ==> e is NotText)
        }),
{
    lemma_image_names(mime_type);
    if valid_utf8(data) {
        decode_utf8_encode_utf8(data);
    }
}

/// HTML is written in the format of the clipboard, with the data in it, and
/// nothing else is.
pub proof fn law_html_is_written_as_html(
    mime_type: Seq<char>,
    data: Seq<u8>,
    bitmap: Option<Seq<u8>>,
)
    ensures
        ({
            let plan = write_of(mime_type, data, bitmap);
            &&& mime_type == "text/html"@ ==> plan == Ok::<WriteView, WriteErrorView>(
                WriteView::Html(cf_html(data)),
            )
            &&& (plan matches Ok(w) ==> (w is Html ==> mime_type == "text/html"@))
        }),
{
    lemma_image_names(mime_type);
}

/// Every kind of image is written as the bitmap that its conversion came to;
/// a PNG, and no other image, is also written as it is.
pub proof fn law_images_are_written_as_images(
    mime_type: Seq<char>,
    data: Seq<u8>,
    bitmap: Option<Seq<u8>>,
)
    ensures
        ({
            let plan = write_of(mime_type, data, bitmap);
            &&& names_an_image(mime_type) ==> {
                &&& plan matches Ok(WriteView::Image { png, bitmap: written })
                &&& written == bitmap
                &&& png is Some <==> mime_type == "image/png"@
                &&& png is Some ==> png->0 == data
            }
            &&& (plan matches Ok(w) ==> (w is Image ==> names_an_image(mime_type)))
        }),
{
    lemma_image_names(mime_type);
}

/// Any other MIME type is refused by its name.
pub proof fn law_other_types_are_not_written(
    mime_type: Seq<char>,
    data: Seq<u8>,
    bitmap: Option<Seq<u8>>,
)
    ensures
        ({
            let plan = write_of(mime_type, data, bitmap);
            let known = mime_type == "text/plain"@ || mime_type == "text/html"@ || names_an_image(
                mime_type,
            );
            &&& !known ==> plan == Err::<WriteView, WriteErrorView>(
                WriteErrorView::Unsupported("Unsupported MIME type: "@ + mime_type),
            )
            &&& known ==> (plan matches Err(e) ==> e is NotText)
        }),
{
    lemma_image_names(mime_type);
}

/// Text is read as text, HTML as HTML, PNG and JPEG images as images, and
/// nothing else is read.
pub proof fn law_what_can_be_read(mime_type: &str, r: Result<ReadKind, String>)
    requires
        call_ensures(read_kind, (mime_type,), r),
    ensures
        r == Ok::<ReadKind, String>(ReadKind::Text) <==> mime_type@ == "text/plain"@,
        r == Ok::<ReadKind, String>(ReadKind::Html) <==> mime_type@ == "text/html"@,
        r == Ok::<ReadKind, String>(ReadKind::Image) <==> mime_type@ == "image/png"@ || mime_type@
            == "image/jpeg"@,
        r matches Err(message) ==> message@ == "Unsupported MIME type: "@ + mime_type@,
{
    lemma_image_names(mime_type@);
}

/// What is read is sent as it was read: text in UTF-8, of HTML the fragment,
/// of an image the PNG. Where there is none, the reason is told.
pub proof fn law_data_of_what_was_read(read: ClipboardRead)
    ensures
        match read {
            ClipboardRead::Text(text) => data_of(read) == Ok::<Seq<u8>, Seq<char>>(
                encode_utf8(text@),
            ),
            ClipboardRead::Png(data) => data_of(read) == Ok::<Seq<u8>, Seq<char>>(data@),
            ClipboardRead::Html(data) => {
                &&& fragment_in(data@) is Some ==> data_of(read) == Ok::<Seq<u8>, Seq<char>>(
                    fragment_in(data@)->0,
                )
                &&& fragment_in(data@) is None ==> data_of(read) == Err::<Seq<u8>, Seq<char>>(
                    "Malformed CF_HTML or invalid fragment offsets"@,
                )
            },
            ClipboardRead::Bitmap(data) => match png_of_bitmap(data@) {
                Ok(png) => data_of(read) == Ok::<Seq<u8>, Seq<char>>(png),
                Err(FailureView::Parse(reason)) => data_of(read) == Err::<Seq<u8>, Seq<char>>(
                    "Failed to parse CF_DIB as BMP: "@ + reason,
                ),
                Err(FailureView::Encode(reason)) => data_of(read) == Err::<Seq<u8>, Seq<char>>(
                    "Failed to encode image to PNG: "@ + reason,
                ),
            },
        },
{
}

/// A conversion that succeeded is passed on as it is.
pub proof fn law_converted_image_is_passed_on(conversion: Result<Seq<u8>, FailureView>)
    ensures
        conversion is Ok <==> png_or_message(conversion) is Ok,
        conversion is Ok ==> png_or_message(conversion)->Ok_0 == conversion->Ok_0,
{
}

/// Data of at most 104,857,587 bytes is passed on unchanged, and larger data
/// is refused.
pub proof fn law_limit_of_what_is_read(data: Vec<u8>, r: Result<Vec<u8>, String>)
    requires
        call_ensures(check_payload, (data,), r),
    ensures
        data@.len() <= 104_857_587 ==> r == Ok::<Vec<u8>, String>(data),
        data@.len() > 104_857_587 ==> (r matches Err(message) && message@
            == "Clipboard data exceeds 10MB limit"@),
{
}

/// The same limit holds for all that is read.
pub proof fn law_read_data_is_within_the_limit(read: ClipboardRead, r: Result<Vec<u8>, String>)
    requires
        call_ensures(read_result, (read,), r),
    ensures
        r is Ok <==> data_of(read) is Ok && data_of(read)->Ok_0.len() <= 104_857_587,
        r matches Ok(data) ==> data@ == data_of(read)->Ok_0,
{
}

/// Which formats offer what: two formats for text, three for images and one
/// for HTML. A registered number goes before the fixed ones.
pub proof fn law_formats(format: u32, html: Option<u32>, png: Option<u32>)
    ensures
        ({
            let offered = format_type(format, html, png);
            let is_html = html is Some && html->0 == format;
            let is_text = !is_html && (format == 1 || format == 13);
            let is_image = !is_html && !is_text && (format == 8 || format == 17 || (png is Some
                && png->0 == format));
            &&& is_html ==> offered == Some("text/html"@)
            &&& is_text ==> offered == Some("text/plain"@)
            &&& is_image ==> offered == Some("image/png"@)
            &&& !is_html && !is_text && !is_image ==> offered is None
        }),
{
}

/// The offered MIME types are those of the formats, each once, in the order in
/// which they first occur: `at` lists the positions of those first formats.
pub proof fn law_offered_types_follow_the_formats(
    formats: Seq<u32>,
    html: Option<u32>,
    png: Option<u32>,
) -> (at: Seq<int>)
    ensures
        format_types(formats, html, png).len() == at.len(),
        forall|k: int|
            0 <= k < at.len() ==> 0 <= #[trigger] at[k] < formats.len() && format_type(
                formats[at[k]],
                html,
                png,
            ) == Some(format_types(formats, html, png)[k]),
        forall|j: int, k: int| 0 <= j < k < at.len() ==> #[trigger] at[j] < #[trigger] at[k],
        forall|i: int|
            0 <= i < formats.len() ==> (format_type(#[trigger] formats[i], html, png) matches Some(
                t,
            ) ==> exists|k: int|
                0 <= k < at.len() && #[trigger] at[k] <= i && format_types(formats, html, png)[k]
                    == t),
        format_types(formats, html, png).no_duplicates(),
    decreases formats.len(),
{
    if formats.len() == 0 {
        seq![]
    } else {
        let before = formats.drop_last();
        let last = formats.len() - 1;
        let earlier = law_offered_types_follow_the_formats(before, html, png);
        let types = format_types(before, html, png);
        let now = format_types(formats, html, png);
        let own = format_type(formats.last(), html, png);
        let is_new = own is Some && !types.contains(own->0);
        let at = if is_new {
            earlier.push(last)
        } else {
            earlier
        };
        assert forall|k: int| 0 <= k < at.len() implies 0 <= #[trigger] at[k] < formats.len()
            && format_type(formats[at[k]], html, png) == Some(now[k]) by {
            if k < earlier.len() {
                assert(0 <= earlier[k] < before.len());
                assert(before[earlier[k]] == formats[earlier[k]]);
                assert(now[k] == types[k]);
            }
        }
        assert forall|j: int, k: int| 0 <= j < k < at.len() implies #[trigger] at[j]
            < #[trigger] at[k] by {
            assert(0 <= earlier[j] < before.len());
            if k < earlier.len() {
                assert(earlier[j] < earlier[k]);
            }
        }
        assert forall|i: int| 0 <= i < formats.len() implies (format_type(
            #[trigger] formats[i],
            html,
            png,
        ) matches Some(t) ==> exists|k: int|
            0 <= k < at.len() && #[trigger] at[k] <= i && now[k] == t) by {
            if let Some(t) = format_type(formats[i], html, png) {
                if i < last {
                    assert(before[i] == formats[i]);
                    let k = choose|k: int|
                        0 <= k < earlier.len() && #[trigger] earlier[k] <= i && types[k] == t;
                    assert(at[k] == earlier[k] && now[k] == types[k]);
                } else if is_new {
                    let k = earlier.len() as int;
                    assert(at[k] == last && now[k] == t);
                } else {
                    let k = choose|k: int| 0 <= k < types.len() && types[k] == t;
                    assert(0 <= earlier[k] < before.len());
                    assert(at[k] <= i && now[k] == t);
                }
            }
        }
        at
    }
}

/// While we are writing, every change of the clipboard is ours. Otherwise only
/// the change to the expected number is, once; nothing is expected after it.
pub proof fn law_changes_of_our_own(suppressor: EchoSuppressor, current: u32)
    ensures
        suppressor.is_writing ==> suppressor.is_echo(current) && suppressor.after_check()
            == suppressor,
        !suppressor.is_writing ==> {
            &&& suppressor.is_echo(current) <==> suppressor.expected_sequence_number == Some(
                current,
            )
            &&& suppressor.after_check().expected_sequence_number is None
            &&& !suppressor.after_check().is_writing
        },
{
}

/// A write is prepared and recorded: in between every change is ours, and
/// afterwards the one that it has caused.
pub proof fn law_write_is_prepared_and_recorded(
    fresh: EchoSuppressor,
    preparing: &mut EchoSuppressor,
    recording: &mut EchoSuppressor,
    number: u32,
    done: (),
    other: u32,
)
    requires
        call_ensures(EchoSuppressor::new, (), fresh),
        call_ensures(EchoSuppressor::prepare_write, (preparing,), done),
        call_ensures(EchoSuppressor::record_write, (recording, number), done),
    ensures
        !fresh.is_echo(other),
        final(preparing).is_echo(other),
        final(recording).is_echo(number),
        other != number ==> !final(recording).is_echo(other),
{
}

} // verus!
