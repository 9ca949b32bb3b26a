//! HTML that only wraps an image.

use vstd::prelude::*;
use vstd::utf8::is_ascii_chars;

use crate::scan::{is_space, is_whitespace, replace, replaced};
use crate::text::chars_of;

verus! {

/// The lower-case form of `text`, as Unicode defines it.
pub uninterp spec fn lowercase(text: Seq<char>) -> Seq<char>;

/// The lower-case form of an ASCII character.
pub open spec fn ascii_lowercase(c: char) -> char {
    if 'A' <= c <= 'Z' {
        (c as u32 + 32) as char
    } else {
        c
    }
}

/// `text` with its ASCII capital letters in lower case.
pub open spec fn ascii_lowercased(text: Seq<char>) -> Seq<char> {
    text.map_values(|c: char| ascii_lowercase(c))
}

/// The lower-case forms of the characters of `text`, each taken by itself.
pub open spec fn lowercased_singly(text: Seq<char>) -> Seq<char>
    decreases text.len(),
{
    if text.len() == 0 {
        seq![]
    } else {
        lowercased_singly(text.drop_last()) + if (text.last() as u32) < 128 {
            seq![ascii_lowercase(text.last())]
        } else {
            lowercase(seq![text.last()])
        }
    }
}

/// The one character whose lower-case form depends on those around it.
pub const CAPITAL_SIGMA: char = '\u{3a3}';

/// `str::to_lowercase`: the lower-case form of `text`, which depends on
/// `text` alone. A text without a capital sigma is put into lower case
/// character by character, and an ASCII capital letter then becomes the small
/// letter. What the forms of other characters are is not stated.
#[verifier::external_body]
pub(crate) fn to_lowercase(text: &str) -> (r: String)
    ensures
        r@ == lowercase(text@),
        !text@.contains(CAPITAL_SIGMA) ==> r@ == lowercased_singly(text@),
{
    text.to_lowercase()
}

/// Whether the end of `html` is inside a tag.
pub open spec fn ends_in_tag(html: Seq<char>) -> bool
    decreases html.len(),
{
    if html.len() == 0 {
        false
    } else if html.last() == '<' {
        true
    } else if html.last() == '>' {
        false
    } else {
        ends_in_tag(html.drop_last())
    }
}

/// What `html` shows outside of its tags, without white space.
pub open spec fn visible_text(html: Seq<char>) -> Seq<char>
    decreases html.len(),
{
    if html.len() == 0 {
        seq![]
    } else {
        let before = visible_text(html.drop_last());
        let c = html.last();
        if c == '<' || c == '>' || ends_in_tag(html.drop_last()) || is_space(c) {
            before
        } else {
            before.push(c)
        }
    }
}

/// What is left of `text` without its escaped spaces.
pub open spec fn without_escaped_spaces(text: Seq<char>) -> Seq<char> {
    replaced(replaced(text, "&nbsp;"@, seq![]), "&#160;"@, seq![])
}

/// Whether `c` ends the name of a tag.
pub open spec fn ends_tag_name(c: char) -> bool {
    c == ' ' || c == '\t' || c == '\n' || c == '\u{c}' || c == '\r' || c == '/' || c == '>'
}

/// Whether an image tag begins at `i` in `lower`, a text in lower case.
pub open spec fn image_tag_at(lower: Seq<char>, i: int) -> bool {
    &&& 0 <= i < lower.len() - 4
    &&& lower.subrange(i, i + 4) == "<img"@
    &&& ends_tag_name(lower[i + 4])
}

/// Whether `lower`, a text in lower case, has an image tag.
pub open spec fn has_image_tag(lower: Seq<char>) -> bool {
    exists|i: int| #[trigger] image_tag_at(lower, i)
}

/// Whether `html` shows nothing outside of its tags.
pub open spec fn shows_nothing(html: Seq<char>) -> bool {
    without_escaped_spaces(visible_text(html)).len() == 0
}

/// Whether `html`, whose lower-case form is `lower`, has an image tag and
/// shows nothing outside of its tags.
pub open spec fn wraps_image(lower: Seq<char>, html: Seq<char>) -> bool {
    has_image_tag(lower) && shows_nothing(html)
}

fn contains_image_tag(lower: &[char]) -> (r: bool)
    ensures
        r == has_image_tag(lower@),
{
    proof {
        reveal_strlit("<img");
    }
    let mut i: usize = 0;
    while i < lower.len() && lower.len() - i > 4
        invariant
            i <= lower.len(),
            "<img"@ =~= seq!['<', 'i', 'm', 'g'],
            forall|j: int| 0 <= j < i ==> !#[trigger] image_tag_at(lower@, j),
        decreases lower.len() - i,
    {
        let c = lower[i + 4];
        let named = lower[i] == '<' && lower[i + 1] == 'i' && lower[i + 2] == 'm' && lower[i + 3]
            == 'g';
        if named && (c == ' ' || c == '\t' || c == '\n' || c == '\u{c}' || c == '\r' || c == '/'
            || c == '>') {
            assert(lower@.subrange(i as int, i + 4) =~= "<img"@);
            assert(image_tag_at(lower@, i as int));
            return true;
        }
        assert(!image_tag_at(lower@, i as int)) by {
            let tag = lower@.subrange(i as int, i + 4);
            assert(tag[0] == lower@[i as int] && tag[1] == lower@[i + 1] && tag[2] == lower@[i + 2]
                && tag[3] == lower@[i + 3]);
        }
        i = i + 1;
    }
    false
}

/// Whether `html`, whose lower-case form is `lower`, only wraps an image.
pub fn is_image_wrapper(lower: &str, html: &str) -> (r: bool)
    ensures
        r == wraps_image(lower@, html@),
{
    if !contains_image_tag(chars_of(lower).as_slice()) {
        return false;
    }
    proof {
        reveal_strlit("&nbsp;");
        reveal_strlit("&#160;");
        assert("&nbsp;"@.len() == 6);
        assert("&#160;"@.len() == 6);
    }
    let chars = chars_of(html);
    let mut in_tag = false;
    let mut text: Vec<char> = Vec::new();
    let mut i: usize = 0;
    assert(text@ =~= visible_text(html@.take(0)));
    while i < chars.len()
        invariant
            i <= chars.len(),
            chars@ == html@,
            in_tag == ends_in_tag(html@.take(i as int)),
            text@ == visible_text(html@.take(i as int)),
        decreases chars.len() - i,
    {
        let c = chars[i];
        assert(html@.take(i + 1).drop_last() =~= html@.take(i as int));
        if c == '<' {
            in_tag = true;
        } else if c == '>' {
            in_tag = false;
        } else if !in_tag {
            if !is_whitespace(c) {
                text.push(c);
            }
        }
        i = i + 1;
    }
    assert(html@.take(i as int) =~= html@);
    let nothing: Vec<char> = Vec::new();
    let once = replace(text.as_slice(), chars_of("&nbsp;").as_slice(), nothing.as_slice());
    let twice = replace(once.as_slice(), chars_of("&#160;").as_slice(), nothing.as_slice());
    assert(nothing@ =~= seq![]);
    twice.len() == 0
}

proof fn lemma_lowercased_singly_of_ascii(text: Seq<char>)
    requires
        is_ascii_chars(text),
    ensures
        !text.contains(CAPITAL_SIGMA),
        lowercased_singly(text) == ascii_lowercased(text),
    decreases text.len(),
{
    if text.contains(CAPITAL_SIGMA) {
        let i = choose|i: int| 0 <= i < text.len() && text[i] == CAPITAL_SIGMA;
        assert(text[i] as u32 >= 128);
    }
    if text.len() > 0 {
        assert(is_ascii_chars(text.drop_last())) by {
            assert forall|i: int| 0 <= i < text.drop_last().len() implies '\0'
                <= #[trigger] text.drop_last()[i] <= '\u{7f}' by {
                assert('\0' <= text[i] <= '\u{7f}');
            }
        }
        lemma_lowercased_singly_of_ascii(text.drop_last());
        assert('\0' <= text[text.len() - 1] <= '\u{7f}');
    }
    assert(lowercased_singly(text) =~= ascii_lowercased(text));
}

proof fn lemma_lowercased_singly_of_join(a: Seq<char>, b: Seq<char>)
    ensures
        lowercased_singly(a + b) == lowercased_singly(a) + lowercased_singly(b),
    decreases b.len(),
{
    if b.len() == 0 {
        assert(a + b =~= a);
        assert(lowercased_singly(a) + lowercased_singly(b) =~= lowercased_singly(a));
    } else {
        lemma_lowercased_singly_of_join(a, b.drop_last());
        assert((a + b).drop_last() =~= a + b.drop_last());
        assert((a + b).last() == b.last());
        assert(lowercased_singly(a + b) =~= lowercased_singly(a) + lowercased_singly(b));
    }
}

/// The other characters of a text do not hide an image tag from view.
pub proof fn law_image_tag_is_found_in_any_text(html: Seq<char>)
    requires
        has_image_tag(ascii_lowercased(html)),
    ensures
        has_image_tag(lowercased_singly(html)),
{
    reveal_strlit("<img");
    let i = choose|i: int| image_tag_at(ascii_lowercased(html), i);
    let before = html.take(i);
    let tag = html.subrange(i, i + 5);
    let after = html.skip(i + 5);
    let lower = ascii_lowercased(html);
    assert(html =~= before + tag + after);
    lemma_lowercased_singly_of_join(before + tag, after);
    lemma_lowercased_singly_of_join(before, tag);
    let name = lower.subrange(i, i + 4);
    assert(name[0] == '<' && name[1] == 'i' && name[2] == 'm' && name[3] == 'g');
    assert(lower[i] == '<' && lower[i + 1] == 'i' && lower[i + 2] == 'm' && lower[i + 3] == 'g');
    assert(is_ascii_chars(tag)) by {
        assert forall|k: int| 0 <= k < tag.len() implies '\0' <= #[trigger] tag[k]
            <= '\u{7f}' by {
            assert(lower[i + k] == ascii_lowercase(html[i + k]));
        }
    }
    lemma_lowercased_singly_of_ascii(tag);
    let start = lowercased_singly(before).len() as int;
    let found = lowercased_singly(html);
    assert forall|k: int| 0 <= k < 5 implies #[trigger] found[start + k] == lower[i + k] by {
        assert(found[start + k] == lowercased_singly(tag)[k]);
        assert(ascii_lowercased(tag)[k] == lower[i + k]);
    }
    assert(found[start + 4] == lower[i + 4]);
    assert(found.subrange(start, start + 4) =~= name);
    assert(image_tag_at(found, start));
}

/// Whether `html` is merely a wrapper around an image, such as browsers
/// produce for a copied image: it holds an image tag and no text outside of
/// its tags other than spaces.
pub fn is_image_only_html(html: &str) -> (r: bool)
    ensures
        r == wraps_image(lowercase(html@), html@),
        !html@.contains(CAPITAL_SIGMA) ==> r == wraps_image(lowercased_singly(html@), html@),
        !html@.contains(CAPITAL_SIGMA) && wraps_image(ascii_lowercased(html@), html@) ==> r,
        is_ascii_chars(html@) ==> r == wraps_image(ascii_lowercased(html@), html@),
{
    let lower = to_lowercase(html);
    proof {
        if is_ascii_chars(html@) {
            lemma_lowercased_singly_of_ascii(html@);
        }
        if has_image_tag(ascii_lowercased(html@)) {
            law_image_tag_is_found_in_any_text(html@);
        }
    }
    is_image_wrapper(lower.as_str(), html)
}

} // verus!
