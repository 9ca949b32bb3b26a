//! What the Wayland clipboard is given and what is read off it.

use vstd::prelude::*;
use vstd::utf8::{decode_utf8, encode_utf8, valid_utf8};

use crate::bytes::{lemma_be_bytes_len, push_all};
use crate::image_data::{is_oversized_png, oversized_message, validate_image_dimensions};
use crate::protocol::{encoded, MessageView};
use crate::scan::{begins_with, part_views, pieces, split, text_starts_with, trim, trimmed};
use crate::task::{item_views, ClipboardItem, ItemView};
use crate::text::{chars_of, decode_text, same_text, text_of, texts};
use crate::transport::framed;
use crate::uri_list::{build_uri_list, uri_list};

verus! {

/// How many bytes of a frame a data message needs for itself.
pub const DATA_OVERHEAD: u32 = 13;

/// How much is read off a clipboard at most.
pub const MAX_PAYLOAD: usize = 104_857_587;

/// Under which name a source is put on the clipboard.
#[derive(Debug, Clone, PartialEq, Eq)]
pub enum CopyMime {
    /// As text, under all names that text goes by.
    Text,
    /// Under this name alone.
    Specific(String),
}

/// Data for the clipboard.
#[derive(Debug, Clone, PartialEq, Eq)]
pub struct CopySource {
    pub mime: CopyMime,
    pub data: Vec<u8>,
}

/// What a [`CopySource`] holds; text has no name of its own.
#[verifier::ext_equal]
pub struct SourceView {
    pub mime: Option<Seq<char>>,
    pub data: Seq<u8>,
}

impl View for CopySource {
    type V = SourceView;

    open spec fn view(&self) -> SourceView {
        SourceView {
            mime: match self.mime {
                CopyMime::Text => None,
                CopyMime::Specific(name) => Some(name@),
            },
            data: self.data@,
        }
    }
}

/// What several sources hold.
pub open spec fn source_views(sources: Seq<CopySource>) -> Seq<SourceView> {
    sources.map_values(|s: CopySource| s@)
}

/// Whether `item` claims to be an image but is too large for one.
pub open spec fn is_refused_image(item: ItemView) -> bool {
    begins_with(item.mime_type, "image/"@) && is_oversized_png(item.data)
}

/// How `item` is put on the clipboard.
pub open spec fn source_of(item: ItemView) -> SourceView {
    SourceView {
        mime: if item.mime_type == "text/plain"@ {
            None
        } else {
            Some(item.mime_type)
        },
        data: item.data,
    }
}

/// How several items are put on the clipboard. Images that are too large are
/// left out.
pub open spec fn sources_of(items: Seq<ItemView>) -> Seq<SourceView>
    decreases items.len(),
{
    if items.len() == 0 {
        seq![]
    } else {
        let before = sources_of(items.drop_last());
        if is_refused_image(items.last()) {
            before
        } else {
            before.push(source_of(items.last()))
        }
    }
}

/// What to put on the clipboard for `items`.
pub fn copy_sources(items: Vec<ClipboardItem>) -> (r: Vec<CopySource>)
    ensures
        source_views(r@) == sources_of(item_views(items@)),
{
    let ghost view = item_views(items@);
    let mut r: Vec<CopySource> = Vec::new();
    let mut i: usize = 0;
    assert(source_views(r@) =~= sources_of(view.take(0)));
    while i < items.len()
        invariant
            i <= items.len(),
            view == item_views(items@),
            source_views(r@) == sources_of(view.take(i as int)),
        decreases items.len() - i,
    {
        let item = &items[i];
        let ghost before = r@;
        assert(view.take(i + 1).drop_last() =~= view.take(i as int));
        assert(view.take(i + 1).last() == item@);
        let refused = text_starts_with(item.mime_type.as_str(), "image/")
            && validate_image_dimensions(item.data.as_slice()).is_err();
        if !refused {
            let mime = if same_text(&item.mime_type, "text/plain") {
                CopyMime::Text
            } else {
                CopyMime::Specific(item.mime_type.clone())
            };
            let mut data: Vec<u8> = Vec::new();
            push_all(&mut data, item.data.as_slice());
            assert(data@ =~= item.data@);
            r.push(CopySource { mime, data });
            assert(source_views(r@) =~= source_views(before).push(source_of(item@)));
        }
        i = i + 1;
    }
    assert(view.take(i as int) =~= view);
    r
}

/// How a list of files is put on the clipboard: as a list of URIs under the
/// two names that file managers know, beside an empty transfer token.
pub open spec fn file_sources_of(paths: Seq<Seq<char>>) -> Seq<SourceView> {
    let list = encode_utf8(uri_list(paths));
    seq![
        SourceView { mime: Some("text/uri-list"@), data: list },
        SourceView { mime: Some("application/x-kde4-urilist"@), data: list },
        SourceView { mime: Some("application/vnd.portal.filetransfer"@), data: seq![] },
    ]
}

/// What to put on the clipboard for the files at `paths`.
pub fn file_sources(paths: &Vec<String>) -> (r: Vec<CopySource>)
    ensures
        source_views(r@) == file_sources_of(texts(paths@)),
{
    let list = build_uri_list(paths);
    let first = list.as_str().as_bytes_vec();
    let second = list.as_str().as_bytes_vec();
    let third: Vec<u8> = Vec::new();
    let r = vec![
        CopySource { mime: CopyMime::Specific("text/uri-list".to_string()), data: first },
        CopySource {
            mime: CopyMime::Specific("application/x-kde4-urilist".to_string()),
            data: second,
        },
        CopySource {
            mime: CopyMime::Specific("application/vnd.portal.filetransfer".to_string()),
            data: third,
        },
    ];
    assert(source_views(r@) =~= file_sources_of(texts(paths@)));
    r
}

/// The MIME types in a list with one on each line.
pub open spec fn listed_types(lines: Seq<Seq<char>>) -> Seq<Seq<char>>
    decreases lines.len(),
{
    if lines.len() == 0 {
        seq![]
    } else {
        let before = listed_types(lines.drop_last());
        if trimmed(lines.last()).len() == 0 {
            before
        } else {
            before.push(trimmed(lines.last()))
        }
    }
}

/// The MIME types that a clipboard is taken to hold, where it lists `types`.
pub open spec fn or_plain_text(types: Seq<Seq<char>>) -> Seq<Seq<char>> {
    if types.len() == 0 {
        seq!["text/plain"@]
    } else {
        types
    }
}

/// The MIME types in `list`; plain text, if there is none.
pub fn parse_mime_list(list: &[u8]) -> (r: Vec<String>)
    ensures
        texts(r@) == or_plain_text(
            if valid_utf8(list@) {
                listed_types(pieces(decode_utf8(list@), '\n'))
            } else {
                seq![]
            },
        ),
{
    let mut r: Vec<String> = Vec::new();
    assert(texts(r@) =~= seq![]);
    if let Some(text) = decode_text(list) {
        let lines = split(chars_of(text.as_str()).as_slice(), '\n');
        let ghost view = part_views(lines@);
        let mut i: usize = 0;
        assert(texts(r@) =~= listed_types(view.take(0)));
        while i < lines.len()
            invariant
                i <= lines.len(),
                view == part_views(lines@),
                texts(r@) == listed_types(view.take(i as int)),
            decreases lines.len() - i,
        {
            let ghost before = r@;
            assert(view.take(i + 1).drop_last() =~= view.take(i as int));
            assert(view.take(i + 1).last() == lines@[i as int]@);
            let name = trim(lines[i].as_slice());
            if name.len() > 0 {
                r.push(text_of(name));
                assert(texts(r@) =~= texts(before).push(name@));
            }
            i = i + 1;
        }
        assert(view.take(i as int) =~= view);
    }
    assert(texts(r@).len() == r@.len());
    if r.len() == 0 {
        r.push("text/plain".to_string());
        assert(texts(r@) =~= seq!["text/plain"@]);
    }
    r
}

/// Collects what is read off the clipboard, up to what a frame can carry.
#[derive(Debug)]
pub struct SelectionReader {
    data: Vec<u8>,
}

impl View for SelectionReader {
    type V = Seq<u8>;

    closed spec fn view(&self) -> Seq<u8> {
        self.data@
    }
}

impl SelectionReader {
    /// No more has been collected than a frame can carry.
    pub open spec fn well_formed(&self) -> bool {
        self@.len() <= MAX_PAYLOAD
    }

    /// Nothing yet.
    pub fn new() -> (r: SelectionReader)
        ensures
            r.well_formed(),
            r@ == Seq::<u8>::empty(),
    {
        SelectionReader { data: Vec::new() }
    }

    /// Adds `chunk`, unless that would be too much.
    pub fn push(&mut self, chunk: &[u8]) -> (r: Result<(), String>)
        requires
            old(self).well_formed(),
        ensures
            final(self).well_formed(),
            if old(self)@.len() + chunk@.len() > MAX_PAYLOAD {
                &&& r matches Err(message) && message@ == "Clipboard data exceeds 100MB limit"@
                &&& final(self)@ == old(self)@
            } else {
                r is Ok && final(self)@ == old(self)@ + chunk@
            },
    {
        if chunk.len() > MAX_PAYLOAD - self.data.len() {
            return Err("Clipboard data exceeds 100MB limit".to_string());
        }
        push_all(&mut self.data, chunk);
        Ok(())
    }

    /// What was collected of the MIME type `mime_type`, unless it is an image
    /// that is too large.
    pub fn finish(self, mime_type: &str) -> (r: Result<Vec<u8>, String>)
        ensures
            if is_refused_image(ItemView { mime_type: mime_type@, data: self@ }) {
                r matches Err(message) && message@ == oversized_message(self@)
            } else {
                r matches Ok(data) && data@ == self@
            },
    {
        if text_starts_with(mime_type, "image/") {
            if let Err(message) = validate_image_dimensions(self.data.as_slice()) {
                return Err(message);
            }
        }
        Ok(self.data)
    }
}

/// Everything that can be read off the clipboard fits in a frame, as plain
/// text of the first protocol version.
pub proof fn law_payload_fits_a_frame(id: u64, data: Seq<u8>)
    requires
        data.len() <= MAX_PAYLOAD,
    ensures
        encoded(MessageView::Data { id, mime_type: "text/plain"@, data }, 1).len() == data.len()
            + DATA_OVERHEAD,
        framed(MessageView::Data { id, mime_type: "text/plain"@, data }, 1) is Ok,
{
    lemma_be_bytes_len(id as nat, 8);
    lemma_be_bytes_len(data.len(), 4);
}

/// What became of the last data that was put on the clipboard.
#[derive(Debug, Clone, Copy, PartialEq, Eq, Structural)]
pub enum CopyTask {
    /// There was none, or it was replaced by others.
    Idle,
    /// It is on the clipboard.
    Serving,
    /// Others have replaced it, which was not yet noted.
    Finished,
}

/// Whether a change of the clipboard is only an echo of our own, and what is
/// to be remembered afterwards. It is an echo as long as our data is served.
pub fn owner_change(copy: CopyTask) -> (r: (bool, CopyTask))
    ensures
        r.0 == (copy is Serving),
        r.1 == if copy is Serving {
            CopyTask::Serving
        } else {
            CopyTask::Idle
        },
{
    match copy {
        CopyTask::Serving => (true, CopyTask::Serving),
        _ => (false, CopyTask::Idle),
    }
}

} // verus!
