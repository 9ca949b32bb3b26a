//! What HTML shows, and when it only wraps an image.

use vstd::prelude::*;

use crate::html::{ascii_lowercase, ends_in_tag, ends_tag_name, has_image_tag, image_tag_at};
use crate::html::{is_image_wrapper, shows_nothing, visible_text, without_escaped_spaces};
use crate::scan::{begins_with, is_space, occurs, replaced};
use crate::text_laws::law_nothing_to_replace;

verus! {

/// Outside of a tag, HTML shows each character but for white space and the
/// brackets of tags.
pub proof fn law_text_is_shown(html: Seq<char>, c: char)
    requires
        !ends_in_tag(html),
    ensures
        c == '<' || c == '>' || is_space(c) ==> visible_text(html.push(c)) == visible_text(html),
        !(c == '<' || c == '>' || is_space(c)) ==> visible_text(html.push(c)) == visible_text(
            html,
        ).push(c),
        ends_in_tag(html.push(c)) <==> c == '<',
{
    assert(html.push(c).drop_last() =~= html);
}

/// Nothing shows of a tag, whatever stands in it, up to the bracket that
/// closes it.
pub proof fn law_tags_are_not_shown(html: Seq<char>, inside: Seq<char>)
    requires
        !inside.contains('>'),
    ensures
        visible_text(html + seq!['<'] + inside) == visible_text(html),
        ends_in_tag(html + seq!['<'] + inside),
        visible_text(html + seq!['<'] + inside + seq!['>']) == visible_text(html),
        !ends_in_tag(html + seq!['<'] + inside + seq!['>']),
    decreases inside.len(),
{
    let open = html + seq!['<'] + inside;
    let closed = open + seq!['>'];
    assert(closed.drop_last() =~= open);
    assert(closed.last() == '>');
    if inside.len() == 0 {
        assert(open.drop_last() =~= html);
        assert(open.last() == '<');
    } else {
        let shorter = inside.drop_last();
        if shorter.contains('>') {
            let i = choose|i: int| 0 <= i < shorter.len() && shorter[i] == '>';
            assert(inside[i] == '>');
        }
        assert(inside[inside.len() - 1] != '>');
        law_tags_are_not_shown(html, shorter);
        assert(open.drop_last() =~= html + seq!['<'] + shorter);
        assert(open.last() == inside.last());
    }
    assert(visible_text(open) == visible_text(html));
    assert(visible_text(closed) == visible_text(open));
}

/// What HTML shows outside of its tags is what each part of it shows.
pub proof fn law_parts_show_what_they_show(html: Seq<char>, more: Seq<char>)
    requires
        !ends_in_tag(html),
    ensures
        visible_text(html + more) == visible_text(html) + visible_text(more),
        ends_in_tag(html + more) <==> ends_in_tag(more),
    decreases more.len(),
{
    if more.len() == 0 {
        assert(html + more =~= html);
        assert(visible_text(html) + visible_text(more) =~= visible_text(html));
    } else {
        law_parts_show_what_they_show(html, more.drop_last());
        assert((html + more).drop_last() =~= html + more.drop_last());
        assert((html + more).last() == more.last());
        assert(visible_text(html + more) =~= visible_text(html) + visible_text(more));
    }
}

/// An image tag is `<img` and one more character that ends its name: white
/// space, a slash or the closing bracket.
pub proof fn law_image_tag(before: Seq<char>, end: char, after: Seq<char>, lower: Seq<char>)
    ensures
        ({
            let code = end as u32;
            let ends = code == 0x20 || code == 0x09 || code == 0x0A || code == 0x0C || code == 0x0D
                || code == 0x2F || code == 0x3E;
            &&& ends_tag_name(end) <==> ends
            &&& ends ==> has_image_tag(before + seq!['<', 'i', 'm', 'g', end] + after)
        }),
        has_image_tag(lower) ==> exists|i: int|
            {
                &&& 0 <= i < lower.len() - 4
                &&& #[trigger] lower[i] == '<'
                &&& lower[i + 1] == 'i'
                &&& lower[i + 2] == 'm'
                &&& lower[i + 3] == 'g'
                &&& ends_tag_name(lower[i + 4])
            },
{
    reveal_strlit("<img");
    if ends_tag_name(end) {
        let html = before + seq!['<', 'i', 'm', 'g', end] + after;
        let at = before.len() as int;
        assert(html.subrange(at, at + 4) =~= "<img"@);
        assert(html[at + 4] == end);
        assert(image_tag_at(html, at));
    }
    if has_image_tag(lower) {
        let i = choose|i: int| image_tag_at(lower, i);
        let name = lower.subrange(i, i + 4);
        assert(name[0] == '<' && name[1] == 'i' && name[2] == 'm' && name[3] == 'g');
        assert(lower[i] == '<');
    }
}

/// The capital letters of ASCII become small letters, and no other character
/// changes.
pub proof fn law_small_letters(c: char)
    ensures
        'A' <= c <= 'Z' ==> ascii_lowercase(c) as u32 == c as u32 + 32 && 'a' <= ascii_lowercase(c)
            <= 'z',
        !('A' <= c <= 'Z') ==> ascii_lowercase(c) == c,
{
}

proof fn lemma_entities()
    ensures
        "&nbsp;"@ == seq!['&', 'n', 'b', 's', 'p', ';'],
        "&#160;"@ == seq!['&', '#', '1', '6', '0', ';'],
{
    reveal_strlit("&nbsp;");
    reveal_strlit("&#160;");
    assert("&nbsp;"@ =~= seq!['&', 'n', 'b', 's', 'p', ';']);
    assert("&#160;"@ =~= seq!['&', '#', '1', '6', '0', ';']);
}

/// A character that begins no escaped space is kept by the replacement.
proof fn lemma_kept(c: char, text: Seq<char>, from: Seq<char>)
    requires
        from.len() > 0,
        c != from[0],
    ensures
        replaced(seq![c] + text, from, seq![]) == seq![c] + replaced(text, from, seq![]),
{
    let s = seq![c] + text;
    if begins_with(s, from) {
        assert(s.take(from.len() as int)[0] == c);
    }
    assert(s.drop_first() =~= text);
}

proof fn lemma_first_entity_is_dropped(text: Seq<char>)
    ensures
        replaced("&nbsp;"@ + text, "&nbsp;"@, seq![]) == replaced(text, "&nbsp;"@, seq![]),
        replaced("&#160;"@ + text, "&#160;"@, seq![]) == replaced(text, "&#160;"@, seq![]),
{
    lemma_entities();
    let a = "&nbsp;"@ + text;
    let b = "&#160;"@ + text;
    assert(a.take(6) =~= "&nbsp;"@);
    assert(b.take(6) =~= "&#160;"@);
    assert(a.skip(6) =~= text);
    assert(b.skip(6) =~= text);
    assert(seq![] + replaced(text, "&nbsp;"@, seq![]) =~= replaced(text, "&nbsp;"@, seq![]));
    assert(seq![] + replaced(text, "&#160;"@, seq![]) =~= replaced(text, "&#160;"@, seq![]));
}

proof fn lemma_other_entity_is_kept(text: Seq<char>)
    ensures
        replaced("&#160;"@ + text, "&nbsp;"@, seq![]) == "&#160;"@ + replaced(
            text,
            "&nbsp;"@,
            seq![],
        ),
{
    lemma_entities();
    let from = "&nbsp;"@;
    let t5 = text;
    let t4 = seq![';'] + t5;
    let t3 = seq!['0'] + t4;
    let t2 = seq!['6'] + t3;
    let t1 = seq!['1'] + t2;
    let t0 = seq!['#'] + t1;
    let s = "&#160;"@ + text;
    assert(s =~= seq!['&'] + t0);
    assert(s.drop_first() =~= t0);
    if begins_with(s, from) {
        assert(s.take(6)[1] == '#');
    }
    lemma_kept('#', t1, from);
    lemma_kept('1', t2, from);
    lemma_kept('6', t3, from);
    lemma_kept('0', t4, from);
    lemma_kept(';', t5, from);
    assert(replaced(s, from, seq![]) =~= "&#160;"@ + replaced(text, from, seq![]));
}

/// Escaped spaces count for nothing, in either spelling, and every character
/// that begins none counts.
pub proof fn law_escaped_spaces_count_for_nothing(text: Seq<char>, c: char)
    ensures
        without_escaped_spaces("&nbsp;"@ + text) == without_escaped_spaces(text),
        without_escaped_spaces("&#160;"@ + text) == without_escaped_spaces(text),
        c != '&' ==> without_escaped_spaces(seq![c] + text) == seq![c] + without_escaped_spaces(
            text,
        ),
        without_escaped_spaces(Seq::<char>::empty()).len() == 0,
{
    lemma_entities();
    lemma_first_entity_is_dropped(text);
    lemma_other_entity_is_kept(text);
    let once = replaced(text, "&nbsp;"@, seq![]);
    lemma_first_entity_is_dropped(once);
    if c != '&' {
        lemma_kept(c, text, "&nbsp;"@);
        lemma_kept(c, once, "&#160;"@);
    }
}

/// Where no escaped space occurs, HTML shows nothing exactly if no character
/// is visible.
pub proof fn law_visible_text_shows(html: Seq<char>)
    requires
        !occurs("&nbsp;"@, visible_text(html)),
        !occurs("&#160;"@, visible_text(html)),
    ensures
        shows_nothing(html) <==> visible_text(html).len() == 0,
{
    lemma_entities();
    law_nothing_to_replace(visible_text(html), "&nbsp;"@, seq![]);
    law_nothing_to_replace(visible_text(html), "&#160;"@, seq![]);
}

/// HTML only wraps an image if it has an image tag, and shows nothing else.
pub proof fn law_wrapper_needs_both(lower: &str, html: &str, r: bool)
    requires
        call_ensures(is_image_wrapper, (lower, html), r),
    ensures
        r <==> has_image_tag(lower@) && without_escaped_spaces(visible_text(html@)).len() == 0,
{
}

} // verus!
