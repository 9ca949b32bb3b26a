//! What the Windows clipboard is given and what is read off it.

use image::ImageFormat;
use std::io::Cursor;
use vstd::prelude::*;
use vstd::slice::slice_to_vec;
use vstd::utf8::{decode_utf8, encode_utf8, valid_utf8};

use crate::cf_html::{cf_html, decode_cf_html, encode_cf_html, fragment_in};
use crate::image_data::png_signature;
use crate::os_linux::{or_plain_text, MAX_PAYLOAD};
use crate::scan::{begins_with, text_starts_with};
use crate::text::{contains_text, decode_text, texts};

verus! {

/// Recognises the changes of the clipboard that we made ourselves, by the
/// number that Windows gives to each change.
#[derive(Debug, Clone, Copy, PartialEq, Eq, Structural)]
pub struct EchoSuppressor {
    pub expected_sequence_number: Option<u32>,
    pub is_writing: bool,
}

impl EchoSuppressor {
    /// The state once our change has brought the clipboard to `number`.
    pub open spec fn after_write(self, number: u32) -> EchoSuppressor {
        EchoSuppressor { expected_sequence_number: Some(number), is_writing: false }
    }

    /// Whether a change that brought the clipboard to `current` is our own.
    pub open spec fn is_echo(self, current: u32) -> bool {
        self.is_writing || self.expected_sequence_number == Some(current)
    }

    /// The state once a change was checked. A number is expected for one
    /// change only, whether it comes or not.
    pub open spec fn after_check(self) -> EchoSuppressor {
        if self.is_writing {
            self
        } else {
            EchoSuppressor { expected_sequence_number: None, ..self }
        }
    }

    /// No change is ours.
    pub fn new() -> (r: EchoSuppressor)
        ensures
            r == (EchoSuppressor { expected_sequence_number: None, is_writing: false }),
    {
        EchoSuppressor { expected_sequence_number: None, is_writing: false }
    }

    /// Takes note that we are about to change the clipboard.
    pub fn prepare_write(&mut self)
        ensures
            *final(self) == (EchoSuppressor { is_writing: true, ..*old(self) }),
    {
        self.is_writing = true;
    }

    /// Takes note that we have changed the clipboard, which is now at the
    /// number `sequence_number`.
    pub fn record_write(&mut self, sequence_number: u32)
        ensures
            *final(self) == old(self).after_write(sequence_number),
    {
        self.expected_sequence_number = Some(sequence_number);
        self.is_writing = false;
    }

    /// Whether a change that brought the clipboard to `current` is our own.
    pub fn check_and_clear_echo(&mut self, current: u32) -> (r: bool)
        ensures
            r == old(self).is_echo(current),
            *final(self) == old(self).after_check(),
    {
        if self.is_writing {
            return true;
        }
        match self.expected_sequence_number {
            Some(expected) => {
                self.expected_sequence_number = None;
                expected == current
            },
            None => false,
        }
    }
}

/// The change that a write causes is recognised, and it alone: neither a
/// change to another number nor any later change is taken for our own.
pub proof fn law_echo_is_recognised_once(suppressor: EchoSuppressor, ours: u32, other: u32)
    ensures
        suppressor.after_write(ours).is_echo(ours),
        other != ours ==> !suppressor.after_write(ours).is_echo(other),
        !suppressor.after_write(ours).after_check().is_echo(other),
{
}

// ---------------------------------------------------------------------------
// Writing

/// `image` re-encoded as a bitmap file, if it can be decoded and encoded.
pub uninterp spec fn bitmap_of(image: Seq<u8>) -> Option<Seq<u8>>;

/// Whether `bitmap` is what comes of the conversion of `data` to a bitmap
/// file.
pub open spec fn is_conversion_of(data: Seq<u8>, bitmap: Option<Seq<u8>>) -> bool {
    &&& bitmap == bitmap_of(data)
    &&& bitmap matches Some(b) ==> begins_with(b, seq![0x42u8, 0x4Du8])
}

/// What optional bytes hold.
pub open spec fn bytes_view(bytes: Option<Vec<u8>>) -> Option<Seq<u8>> {
    match bytes {
        Some(b) => Some(b@),
        None => None,
    }
}

/// `image::guess_format`, `image::load_from_memory_with_format` and
/// `DynamicImage::write_to` with the format `Bmp`: the image in `data`, whose
/// format is told by its first bytes, as a bitmap file. The result depends on
/// `data` alone, and a bitmap file starts with `BM`.
#[verifier::external_body]
pub(crate) fn to_bitmap(data: &[u8]) -> (r: Option<Vec<u8>>)
    ensures
        bytes_view(r) == bitmap_of(data@),
        r matches Some(bitmap) ==> begins_with(bitmap@, seq![0x42u8, 0x4Du8]),
{
    let format = image::guess_format(data).ok()?;
    let decoded = image::load_from_memory_with_format(data, format).ok()?;
    let mut file = Cursor::new(Vec::new());
    decoded.write_to(&mut file, ImageFormat::Bmp).ok()?;
    Some(file.into_inner())
}

/// What to put on the clipboard.
#[derive(Debug, Clone, PartialEq, Eq)]
pub enum ClipboardWrite {
    /// Text.
    Text(String),
    /// HTML in the format of the clipboard.
    Html(Vec<u8>),
    /// An image, as the PNG that it already is and as a bitmap.
    Image { png: Option<Vec<u8>>, bitmap: Option<Vec<u8>> },
}

/// What a [`ClipboardWrite`] holds.
#[verifier::ext_equal]
pub enum WriteView {
    Text(Seq<char>),
    Html(Seq<u8>),
    Image { png: Option<Seq<u8>>, bitmap: Option<Seq<u8>> },
}

impl View for ClipboardWrite {
    type V = WriteView;

    open spec fn view(&self) -> WriteView {
        match self {
            ClipboardWrite::Text(text) => WriteView::Text(text@),
            ClipboardWrite::Html(data) => WriteView::Html(data@),
            ClipboardWrite::Image { png, bitmap } => WriteView::Image {
                png: bytes_view(*png),
                bitmap: bytes_view(*bitmap),
            },
        }
    }
}

/// Why something cannot be put on the clipboard.
#[derive(Debug, Clone, PartialEq, Eq)]
pub enum WriteError {
    /// It claims to be text, but these bytes are not UTF-8.
    NotText(Vec<u8>),
    /// Its MIME type is not supported; this says so.
    Unsupported(String),
}

/// What a [`WriteError`] says.
#[verifier::ext_equal]
pub enum WriteErrorView {
    NotText(Seq<u8>),
    Unsupported(Seq<char>),
}

impl View for WriteError {
    type V = WriteErrorView;

    open spec fn view(&self) -> WriteErrorView {
        match self {
            WriteError::NotText(bytes) => WriteErrorView::NotText(bytes@),
            WriteError::Unsupported(message) => WriteErrorView::Unsupported(message@),
        }
    }
}

/// What is said of a MIME type that is not supported.
pub open spec fn unsupported(mime_type: Seq<char>) -> Seq<char> {
    "Unsupported MIME type: "@ + mime_type
}

fn unsupported_message(mime_type: &str) -> (r: String)
    ensures
        r@ == unsupported(mime_type@),
{
    let mut r = "Unsupported MIME type: ".to_string();
    r.append(mime_type);
    r
}

/// How an image is put on the clipboard, where `bitmap` is what came of its
/// conversion: as a PNG only if it is one.
pub open spec fn image_write_of(
    mime_type: Seq<char>,
    data: Seq<u8>,
    bitmap: Option<Seq<u8>>,
) -> WriteView {
    WriteView::Image {
        png: if mime_type == "image/png"@ {
            Some(data)
        } else {
            None
        },
        bitmap,
    }
}

/// What is put on the clipboard for `data` of the MIME type `mime_type`,
/// where `bitmap` is what comes of its conversion.
pub open spec fn write_of(
    mime_type: Seq<char>,
    data: Seq<u8>,
    bitmap: Option<Seq<u8>>,
) -> Result<WriteView, WriteErrorView> {
    if mime_type == "text/plain"@ {
        if valid_utf8(data) {
            Ok(WriteView::Text(decode_utf8(data)))
        } else {
            Err(WriteErrorView::NotText(data))
        }
    } else if mime_type == "text/html"@ {
        Ok(WriteView::Html(cf_html(data)))
    } else if begins_with(mime_type, "image/"@) {
        Ok(image_write_of(mime_type, data, bitmap))
    } else {
        Err(WriteErrorView::Unsupported(unsupported(mime_type)))
    }
}

/// What a planned write comes to.
pub open spec fn plan_view(plan: Result<ClipboardWrite, WriteError>) -> Result<
    WriteView,
    WriteErrorView,
> {
    match plan {
        Ok(write) => Ok(write@),
        Err(e) => Err(e@),
    }
}

/// How to put an image on the clipboard, once its conversion was tried.
pub fn image_write(mime_type: &str, data: Vec<u8>, bitmap: Option<Vec<u8>>) -> (r: ClipboardWrite)
    ensures
        r@ == image_write_of(mime_type@, data@, bytes_view(bitmap)),
{
    let png = if mime_type.to_string() == "image/png".to_string() {
        Some(data)
    } else {
        None
    };
    ClipboardWrite::Image { png, bitmap }
}

/// How to put `data` of the MIME type `mime_type` on the clipboard.
pub fn plan_write(mime_type: &str, data: Vec<u8>) -> (r: Result<ClipboardWrite, WriteError>)
    requires
        data@.len() <= isize::MAX,
    ensures
        if begins_with(mime_type@, "image/"@) {
            &&& r matches Ok(write)
            &&& write@ matches WriteView::Image { png, bitmap }
            &&& is_conversion_of(data@, bitmap)
            &&& plan_view(r) == write_of(mime_type@, data@, bitmap)
        } else {
            plan_view(r) == write_of(mime_type@, data@, None)
        },
{
    proof {
        reveal_strlit("text/plain");
        reveal_strlit("text/html");
        reveal_strlit("image/");
        if begins_with(mime_type@, "image/"@) {
            assert(mime_type@.take(6)[0] == 'i');
            assert(mime_type@[0] == 'i');
        }
    }
    let name = mime_type.to_string();
    if name == "text/plain".to_string() {
        match decode_text(data.as_slice()) {
            Some(text) => Ok(ClipboardWrite::Text(text)),
            None => Err(WriteError::NotText(data)),
        }
    } else if name == "text/html".to_string() {
        Ok(ClipboardWrite::Html(encode_cf_html(data.as_slice())))
    } else if text_starts_with(mime_type, "image/") {
        let bitmap = to_bitmap(data.as_slice());
        Ok(image_write(mime_type, data, bitmap))
    } else {
        Err(WriteError::Unsupported(unsupported_message(mime_type)))
    }
}

// ---------------------------------------------------------------------------
// Reading

/// From which format a MIME type is read.
#[derive(Debug, Clone, Copy, PartialEq, Eq, Structural)]
pub enum ReadKind {
    Text,
    Html,
    Image,
}

/// From which format `mime_type` is read, if it can be.
pub open spec fn read_kind_of(mime_type: Seq<char>) -> Option<ReadKind> {
    if mime_type == "text/plain"@ {
        Some(ReadKind::Text)
    } else if mime_type == "text/html"@ {
        Some(ReadKind::Html)
    } else if mime_type == "image/png"@ || mime_type == "image/jpeg"@ {
        Some(ReadKind::Image)
    } else {
        None
    }
}

/// From which format to read `mime_type`.
pub fn read_kind(mime_type: &str) -> (r: Result<ReadKind, String>)
    ensures
        match read_kind_of(mime_type@) {
            Some(kind) => r == Ok::<ReadKind, String>(kind),
            None => r matches Err(message) && message@ == unsupported(mime_type@),
        },
{
    let name = mime_type.to_string();
    if name == "text/plain".to_string() {
        Ok(ReadKind::Text)
    } else if name == "text/html".to_string() {
        Ok(ReadKind::Html)
    } else if name == "image/png".to_string() || name == "image/jpeg".to_string() {
        Ok(ReadKind::Image)
    } else {
        Err(unsupported_message(mime_type))
    }
}

/// Passes on what was read, unless it is more than a frame can carry.
pub fn check_payload(data: Vec<u8>) -> (r: Result<Vec<u8>, String>)
    ensures
        if data@.len() > MAX_PAYLOAD {
            r matches Err(message) && message@ == "Clipboard data exceeds 10MB limit"@
        } else {
            r == Ok::<Vec<u8>, String>(data)
        },
{
    if data.len() > MAX_PAYLOAD {
        return Err("Clipboard data exceeds 10MB limit".to_string());
    }
    Ok(data)
}

/// Why a bitmap could not be turned into a PNG, in the words of the codec.
#[derive(Debug, Clone, PartialEq, Eq)]
pub enum ImageFailure {
    Parse(String),
    Encode(String),
}

/// What an [`ImageFailure`] says.
#[verifier::ext_equal]
pub enum FailureView {
    Parse(Seq<char>),
    Encode(Seq<char>),
}

impl View for ImageFailure {
    type V = FailureView;

    open spec fn view(&self) -> FailureView {
        match self {
            ImageFailure::Parse(reason) => FailureView::Parse(reason@),
            ImageFailure::Encode(reason) => FailureView::Encode(reason@),
        }
    }
}

/// What a conversion came to.
pub open spec fn conversion_view(r: Result<Vec<u8>, ImageFailure>) -> Result<Seq<u8>, FailureView> {
    match r {
        Ok(data) => Ok(data@),
        Err(failure) => Err(failure@),
    }
}

/// The bitmap file `bitmap` as a PNG, or why it cannot be turned into one.
pub uninterp spec fn png_of_bitmap(bitmap: Seq<u8>) -> Result<Seq<u8>, FailureView>;

/// `image::load_from_memory_with_format` with the format `Bmp` and
/// `DynamicImage::write_to` with the format `Png`: the bitmap file `bitmap` as
/// a PNG. The result depends on `bitmap` alone, and a PNG starts with its
/// signature.
#[verifier::external_body]
pub(crate) fn to_png(bitmap: &[u8]) -> (r: Result<Vec<u8>, ImageFailure>)
    ensures
        conversion_view(r) == png_of_bitmap(bitmap@),
        r matches Ok(png) ==> begins_with(png@, png_signature()),
{
    let decoded = match image::load_from_memory_with_format(bitmap, ImageFormat::Bmp) {
        Ok(decoded) => decoded,
        Err(e) => return Err(ImageFailure::Parse(e.to_string())),
    };
    let mut file = Cursor::new(Vec::new());
    match decoded.write_to(&mut file, ImageFormat::Png) {
        Ok(()) => Ok(file.into_inner()),
        Err(e) => Err(ImageFailure::Encode(e.to_string())),
    }
}

/// The PNG that a conversion came to, or a message why there is none.
pub open spec fn png_or_message(conversion: Result<Seq<u8>, FailureView>) -> Result<
    Seq<u8>,
    Seq<char>,
> {
    match conversion {
        Ok(png) => Ok(png),
        Err(FailureView::Parse(reason)) => Err("Failed to parse CF_DIB as BMP: "@ + reason),
        Err(FailureView::Encode(reason)) => Err("Failed to encode image to PNG: "@ + reason),
    }
}

/// The PNG that a conversion came to, or a message why there is none.
pub fn conversion_result(conversion: Result<Vec<u8>, ImageFailure>) -> (r: Result<Vec<u8>, String>)
    ensures
        match png_or_message(conversion_view(conversion)) {
            Ok(png) => r matches Ok(data) && data@ == png,
            Err(message) => r matches Err(text) && text@ == message,
        },
{
    match conversion {
        Ok(png) => Ok(png),
        Err(ImageFailure::Parse(reason)) => {
            let mut message = "Failed to parse CF_DIB as BMP: ".to_string();
            message.append(reason.as_str());
            Err(message)
        },
        Err(ImageFailure::Encode(reason)) => {
            let mut message = "Failed to encode image to PNG: ".to_string();
            message.append(reason.as_str());
            Err(message)
        },
    }
}

/// Turns a bitmap that was read off the clipboard into a PNG.
pub fn bitmap_to_png(bitmap: &[u8]) -> (r: Result<Vec<u8>, String>)
    ensures
        match png_or_message(png_of_bitmap(bitmap@)) {
            Ok(png) => r matches Ok(data) && data@ == png && begins_with(data@, png_signature()),
            Err(message) => r matches Err(text) && text@ == message,
        },
{
    conversion_result(to_png(bitmap))
}

/// What was read off the clipboard.
#[derive(Debug, Clone, PartialEq, Eq)]
pub enum ClipboardRead {
    Text(String),
    /// HTML in the format of the clipboard.
    Html(Vec<u8>),
    Png(Vec<u8>),
    /// A bitmap file.
    Bitmap(Vec<u8>),
}

/// The data that comes of what was read, or a message why there is none.
pub open spec fn data_of(read: ClipboardRead) -> Result<Seq<u8>, Seq<char>> {
    match read {
        ClipboardRead::Text(text) => Ok(encode_utf8(text@)),
        ClipboardRead::Html(data) => match fragment_in(data@) {
            Some(fragment) => Ok(fragment),
            None => Err("Malformed CF_HTML or invalid fragment offsets"@),
        },
        ClipboardRead::Png(data) => Ok(data@),
        ClipboardRead::Bitmap(data) => png_or_message(png_of_bitmap(data@)),
    }
}

/// The data to send for what was read off the clipboard, unless it cannot be
/// had or is more than a frame can carry.
pub fn read_result(read: ClipboardRead) -> (r: Result<Vec<u8>, String>)
    ensures
        match data_of(read) {
            Ok(data) => if data.len() > MAX_PAYLOAD {
                r matches Err(message) && message@ == "Clipboard data exceeds 10MB limit"@
            } else {
                r matches Ok(d) && d@ == data
            },
            Err(message) => r matches Err(text) && text@ == message,
        },
{
    let data = match read {
        ClipboardRead::Text(text) => slice_to_vec(text.as_str().as_bytes()),
        ClipboardRead::Html(data) => decode_cf_html(data.as_slice())?,
        ClipboardRead::Png(data) => data,
        ClipboardRead::Bitmap(data) => bitmap_to_png(data.as_slice())?,
    };
    check_payload(data)
}

/// The MIME type that a format of the clipboard offers, where `html` and
/// `png` are the numbers of the two formats that are registered by name.
pub open spec fn format_type(format: u32, html: Option<u32>, png: Option<u32>) -> Option<
    Seq<char>,
> {
    if Some(format) == html {
        Some("text/html"@)
    } else if format == CF_UNICODETEXT || format == CF_TEXT {
        Some("text/plain"@)
    } else if Some(format) == png || format == CF_DIBV5 || format == CF_DIB {
        Some("image/png"@)
    } else {
        None
    }
}

/// The MIME types that `formats` offer, each once, in the order in which they
/// first occur.
pub open spec fn format_types(formats: Seq<u32>, html: Option<u32>, png: Option<u32>) -> Seq<
    Seq<char>,
>
    decreases formats.len(),
{
    if formats.len() == 0 {
        seq![]
    } else {
        let before = format_types(formats.drop_last(), html, png);
        match format_type(formats.last(), html, png) {
            Some(t) if !before.contains(t) => before.push(t),
            _ => before,
        }
    }
}

/// The format of text in the system's code page.
pub const CF_TEXT: u32 = 1;

/// The format of bitmaps.
pub const CF_DIB: u32 = 8;

/// The format of Unicode text.
pub const CF_UNICODETEXT: u32 = 13;

/// The format of bitmaps with a colour space.
pub const CF_DIBV5: u32 = 17;

fn type_of_format(format: u32, html: Option<u32>, png: Option<u32>) -> (r: Option<&'static str>)
    ensures
        match format_type(format, html, png) {
            Some(t) => r matches Some(name) && name@ == t,
            None => r is None,
        },
{
    if html == Some(format) {
        Some("text/html")
    } else if format == CF_UNICODETEXT || format == CF_TEXT {
        Some("text/plain")
    } else if png == Some(format) || format == CF_DIBV5 || format == CF_DIB {
        Some("image/png")
    } else {
        None
    }
}

/// The MIME types that the clipboard offers in `formats`; plain text, if
/// there is none.
pub fn available_mime_types(formats: &Vec<u32>, html: Option<u32>, png: Option<u32>) -> (r: Vec<
    String,
>)
    ensures
        texts(r@) == or_plain_text(format_types(formats@, html, png)),
{
    let mut r: Vec<String> = Vec::new();
    let mut i: usize = 0;
    assert(texts(r@) =~= format_types(formats@.take(0), html, png));
    while i < formats.len()
        invariant
            i <= formats.len(),
            texts(r@) == format_types(formats@.take(i as int), html, png),
        decreases formats.len() - i,
    {
        let ghost before = r@;
        assert(formats@.take(i + 1).drop_last() =~= formats@.take(i as int));
        if let Some(name) = type_of_format(formats[i], html, png) {
            if !contains_text(&r, name) {
                r.push(name.to_string());
                assert(texts(r@) =~= texts(before).push(name@));
            }
        }
        i = i + 1;
    }
    assert(formats@.take(i as int) =~= formats@);
    assert(texts(r@).len() == r@.len());
    if r.len() == 0 {
        r.push("text/plain".to_string());
        assert(texts(r@) =~= seq!["text/plain"@]);
    }
    r
}

/// No MIME type is offered twice.
pub proof fn law_format_types_are_distinct(formats: Seq<u32>, html: Option<u32>, png: Option<u32>)
    ensures
        format_types(formats, html, png).no_duplicates(),
    decreases formats.len(),
{
    if formats.len() > 0 {
        law_format_types_are_distinct(formats.drop_last(), html, png);
    }
}

} // verus!
