//! Images on the clipboard.

use vstd::prelude::*;
use vstd::slice::slice_subrange;

use crate::bytes::{be_value, lemma_be_value_bound, lemma_pow256_values, read_be};
use crate::text::{decimal, push_decimal};

verus! {

/// The largest width and height of an image that is passed on.
pub const MAX_IMAGE_SIDE: u32 = 8192;

/// How many bytes an image that is passed on takes at most, at four bytes for
/// each pixel: 256 MiB.
pub const MAX_DECODED_SIZE: u64 = 256 * 1024 * 1024;

/// What a PNG image starts with.
pub open spec fn png_signature() -> Seq<u8> {
    seq![0x89u8, 0x50u8, 0x4Eu8, 0x47u8, 0x0Du8, 0x0Au8, 0x1Au8, 0x0Au8]
}

/// Whether `data` is long enough to state the size of a PNG image, and starts
/// like one.
pub open spec fn states_png_size(data: Seq<u8>) -> bool {
    data.len() >= 24 && data.take(8) == png_signature()
}

/// The width that a PNG image states.
pub open spec fn png_width(data: Seq<u8>) -> nat {
    be_value(data.subrange(16, 20))
}

/// The height that a PNG image states.
pub open spec fn png_height(data: Seq<u8>) -> nat {
    be_value(data.subrange(20, 24))
}

/// Whether `data` is a PNG image that is too wide or too high.
pub open spec fn is_oversized_png(data: Seq<u8>) -> bool {
    states_png_size(data) && (png_width(data) > MAX_IMAGE_SIDE || png_height(data)
        > MAX_IMAGE_SIDE)
}

/// Why an image that is too wide or too high is refused.
pub open spec fn oversized_message(data: Seq<u8>) -> Seq<char> {
    "Image dimensions exceed 8192x8192 ("@ + decimal(png_width(data)) + "x"@ + decimal(
        png_height(data),
    ) + ")"@
}

fn has_png_signature(data: &[u8]) -> (r: bool)
    requires
        data@.len() >= 8,
    ensures
        r == (data@.take(8) == png_signature()),
{
    let r = data[0] == 0x89 && data[1] == 0x50 && data[2] == 0x4E && data[3] == 0x47 && data[4]
        == 0x0D && data[5] == 0x0A && data[6] == 0x1A && data[7] == 0x0A;
    proof {
        let head = data@.take(8);
        let expected = png_signature();
        if r {
            assert(head =~= expected);
        } else if head == expected {
            assert(head[0] == 0x89 && head[1] == 0x50 && head[2] == 0x4E && head[3] == 0x47);
            assert(head[4] == 0x0D && head[5] == 0x0A && head[6] == 0x1A && head[7] == 0x0A);
        }
    }
    r
}

fn number_at(data: &[u8], start: usize) -> (r: u32)
    requires
        start <= 20,
        start + 4 <= data@.len(),
    ensures
        r == be_value(data@.subrange(start as int, start + 4)),
{
    let mut field = slice_subrange(data, start, start + 4);
    proof {
        lemma_pow256_values();
        lemma_be_value_bound(field@);
        assert(field@.take(4) =~= field@);
    }
    match read_be(&mut field, 4) {
        Some(x) => x as u32,
        None => 0,
    }
}

/// Refuses PNG images that are too large to be decoded. What is not a PNG
/// image is left to whoever decodes it.
pub fn validate_image_dimensions(data: &[u8]) -> (r: Result<(), String>)
    ensures
        r is Err <==> is_oversized_png(data@),
        r matches Err(message) ==> message@ == oversized_message(data@),
        r is Ok && states_png_size(data@) ==> png_width(data@) * png_height(data@) * 4
            <= MAX_DECODED_SIZE,
{
    if data.len() < 24 || !has_png_signature(data) {
        return Ok(());
    }
    let width: u32 = number_at(data, 16);
    let height: u32 = number_at(data, 20);
    if width > MAX_IMAGE_SIDE || height > MAX_IMAGE_SIDE {
        let mut message = "Image dimensions exceed 8192x8192 (".to_string();
        push_decimal(&mut message, width as u64);
        message.append("x");
        push_decimal(&mut message, height as u64);
        message.append(")");
        return Err(message);
    }
    assert(width * height * 4 <= MAX_DECODED_SIZE) by (nonlinear_arith)
        requires
            width <= MAX_IMAGE_SIDE,
            height <= MAX_IMAGE_SIDE,
            MAX_IMAGE_SIDE == 8192,
            MAX_DECODED_SIZE == 8192 * 8192 * 4,
    ;
    Ok(())
}

} // verus!
