//! The clipboard format of Windows for HTML.
//!
//! The format is a header of `key:value` lines, which say where the document
//! and the copied fragment of it begin and end, and then the document.

use vstd::prelude::*;
use vstd::slice::{slice_subrange, slice_to_vec};
use vstd::utf8::{decode_utf8, encode_utf8, is_ascii_chars_encode_utf8, valid_utf8};

use crate::bytes::push_all;
use crate::cf_html_laws::{law_cf_html_reads_back, redeclares_nothing};
use crate::scan::{begins_with, parse_usize, parsed_usize, part_views, pieces, split};
use crate::scan::{starts_with, trim, trimmed};
use crate::text::{chars_of, decimal, decode_text, to_decimal};

verus! {

/// Where the document begins if the header has its usual length.
pub const START_HTML: usize = 105;

/// The longest fragment whose bounds can be written with ten digits.
pub const MAX_FRAGMENT: u64 = 9_999_999_822;

/// `n` in decimal, with leading zeros up to ten digits.
pub open spec fn padded(n: nat) -> Seq<char> {
    let digits = decimal(n);
    if digits.len() >= 10 {
        digits
    } else {
        Seq::new((10 - digits.len()) as nat, |i: int| '0') + digits
    }
}

/// The header for a document and a fragment with these bounds.
pub open spec fn header(
    start_html: nat,
    end_html: nat,
    start_fragment: nat,
    end_fragment: nat,
) -> Seq<char> {
    "Version:0.9\r\nStartHTML:"@ + padded(start_html) + "\r\nEndHTML:"@ + padded(end_html)
        + "\r\nStartFragment:"@ + padded(start_fragment) + "\r\nEndFragment:"@ + padded(
        end_fragment,
    ) + "\r\n"@
}

/// The document before the fragment.
pub open spec fn html_prefix() -> Seq<u8> {
    encode_utf8("<html>\r\n<body>\r\n<!--StartFragment-->"@)
}

/// The document after the fragment.
pub open spec fn html_suffix() -> Seq<u8> {
    encode_utf8("<!--EndFragment-->\r\n</body>\r\n</html>"@)
}

/// Where the fragment begins.
pub open spec fn fragment_start() -> nat {
    START_HTML as nat + html_prefix().len()
}

/// `fragment` in the clipboard format of Windows, with the zero that ends it.
pub open spec fn cf_html(fragment: Seq<u8>) -> Seq<u8> {
    let start_fragment = fragment_start();
    let end_fragment = start_fragment + fragment.len();
    let end_html = end_fragment + html_suffix().len();
    encode_utf8(header(START_HTML as nat, end_html, start_fragment, end_fragment)) + html_prefix()
        + fragment + html_suffix() + seq![0u8]
}

/// How long the two parts of the document are.
pub proof fn lemma_document_lengths()
    ensures
        html_prefix().len() == 36,
        html_suffix().len() == 36,
        fragment_start() == 141,
{
    reveal_strlit("<html>\r\n<body>\r\n<!--StartFragment-->");
    reveal_strlit("<!--EndFragment-->\r\n</body>\r\n</html>");
    is_ascii_chars_encode_utf8("<html>\r\n<body>\r\n<!--StartFragment-->"@);
    is_ascii_chars_encode_utf8("<!--EndFragment-->\r\n</body>\r\n</html>"@);
}

fn push_padded(out: &mut String, n: usize)
    ensures
        final(out)@ == old(out)@ + padded(n as nat),
{
    let digits = to_decimal(n as u64);
    let mut count: usize = digits.as_str().unicode_len();
    let ghost len = count;
    while count < 10
        invariant
            len <= count,
            len < 10 ==> count <= 10,
            len >= 10 ==> count == len,
            out@ == old(out)@ + Seq::new((count - len) as nat, |i: int| '0'),
        decreases 10 - count,
    {
        out.push('0');
        count = count + 1;
        assert(out@ =~= old(out)@ + Seq::new((count - len) as nat, |i: int| '0'));
    }
    out.append(digits.as_str());
    assert(out@ =~= old(out)@ + padded(n as nat));
}

fn build_header(start_html: usize, end_html: usize, start_fragment: usize, end_fragment: usize)
    -> (r: String)
    ensures
        r@ == header(
            start_html as nat,
            end_html as nat,
            start_fragment as nat,
            end_fragment as nat,
        ),
{
    let mut r = "Version:0.9\r\nStartHTML:".to_string();
    push_padded(&mut r, start_html);
    r.append("\r\nEndHTML:");
    push_padded(&mut r, end_html);
    r.append("\r\nStartFragment:");
    push_padded(&mut r, start_fragment);
    r.append("\r\nEndFragment:");
    push_padded(&mut r, end_fragment);
    r.append("\r\n");
    r
}

/// Puts `fragment` into the clipboard format of Windows. It can be taken out
/// again, unless it is too long or itself declares bounds.
pub fn encode_cf_html(fragment: &[u8]) -> (r: Vec<u8>)
    requires
        fragment@.len() <= isize::MAX,
    ensures
        r@ == cf_html(fragment@),
        fragment@.len() <= MAX_FRAGMENT && redeclares_nothing(fragment@) ==> fragment_in(r@)
            == Some(fragment@),
{
    proof {
        lemma_document_lengths();
        if fragment@.len() <= MAX_FRAGMENT && redeclares_nothing(fragment@) {
            law_cf_html_reads_back(fragment@);
        }
    }
    let prefix = "<html>\r\n<body>\r\n<!--StartFragment-->".as_bytes();
    let suffix = "<!--EndFragment-->\r\n</body>\r\n</html>".as_bytes();
    let start_fragment: usize = START_HTML + prefix.len();
    let end_fragment: usize = start_fragment + fragment.len();
    let end_html: usize = end_fragment + suffix.len();
    let header = build_header(START_HTML, end_html, start_fragment, end_fragment);
    let mut r: Vec<u8> = Vec::new();
    push_all(&mut r, header.as_str().as_bytes());
    push_all(&mut r, prefix);
    push_all(&mut r, fragment);
    push_all(&mut r, suffix);
    r.push(0);
    assert(r@ =~= cf_html(fragment@));
    r
}

/// The number that `line` declares for `key`, if it does.
pub open spec fn declared(line: Seq<u8>, key: Seq<u8>) -> Option<usize> {
    let value = line.skip(key.len() as int);
    if begins_with(line, key) && valid_utf8(value) {
        parsed_usize(trimmed(decode_utf8(value)))
    } else {
        None
    }
}

/// The number that the last of `lines` to do so declares for `key`.
pub open spec fn last_declared(lines: Seq<Seq<u8>>, key: Seq<u8>) -> Option<usize>
    decreases lines.len(),
{
    if lines.len() == 0 {
        None
    } else if declared(lines.last(), key) is Some {
        declared(lines.last(), key)
    } else {
        last_declared(lines.drop_last(), key)
    }
}

/// The key of the line that says where the fragment begins.
pub open spec fn start_key() -> Seq<u8> {
    encode_utf8("StartFragment:"@)
}

/// The key of the line that says where the fragment ends.
pub open spec fn end_key() -> Seq<u8> {
    encode_utf8("EndFragment:"@)
}

/// The fragment in `data`, if its bounds are declared and lie in `data`.
pub open spec fn fragment_in(data: Seq<u8>) -> Option<Seq<u8>> {
    let lines = pieces(data, 0x0Au8);
    match (last_declared(lines, start_key()), last_declared(lines, end_key())) {
        (Some(start), Some(end)) if start <= end <= data.len() => Some(
            data.subrange(start as int, end as int),
        ),
        _ => None,
    }
}

fn read_declared(line: &[u8], key: &[u8]) -> (r: Option<usize>)
    ensures
        r == declared(line@, key@),
{
    if !starts_with(line, key) {
        return None;
    }
    let value = slice_subrange(line, key.len(), line.len());
    assert(value@ =~= line@.skip(key@.len() as int));
    match decode_text(value) {
        Some(text) => parse_usize(trim(chars_of(text.as_str()).as_slice())),
        None => None,
    }
}

/// Takes the fragment out of `data`, which is in the clipboard format of
/// Windows.
pub fn decode_cf_html(data: &[u8]) -> (r: Result<Vec<u8>, String>)
    ensures
        match fragment_in(data@) {
            Some(fragment) => r matches Ok(f) && f@ == fragment,
            None => r matches Err(message) && message@
                == "Malformed CF_HTML or invalid fragment offsets"@,
        },
{
    let start_key = "StartFragment:".as_bytes();
    let end_key = "EndFragment:".as_bytes();
    let lines = split(data, 0x0A);
    let ghost view = part_views(lines@);
    let mut start: Option<usize> = None;
    let mut end: Option<usize> = None;
    let mut i: usize = 0;
    while i < lines.len()
        invariant
            i <= lines.len(),
            view == part_views(lines@),
            start == last_declared(view.take(i as int), start_key@),
            end == last_declared(view.take(i as int), end_key@),
        decreases lines.len() - i,
    {
        assert(view.take(i + 1).drop_last() =~= view.take(i as int));
        assert(view.take(i + 1).last() == lines@[i as int]@);
        let line = lines[i].as_slice();
        if let Some(n) = read_declared(line, start_key) {
            start = Some(n);
        }
        if let Some(n) = read_declared(line, end_key) {
            end = Some(n);
        }
        i = i + 1;
    }
    assert(view.take(i as int) =~= view);
    match (start, end) {
        (Some(s), Some(e)) => if s <= e && e <= data.len() {
            Ok(slice_to_vec(slice_subrange(data, s, e)))
        } else {
            Err("Malformed CF_HTML or invalid fragment offsets".to_string())
        },
        _ => Err("Malformed CF_HTML or invalid fragment offsets".to_string()),
    }
}

} // verus!
