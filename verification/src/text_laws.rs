//! Cutting, trimming, searching and replacing in texts, and decimal numbers.

use vstd::prelude::*;

use crate::scan::{begins_with, digits_value, is_digit, is_space, occurs, parsed_usize, pieces};
use crate::scan::{replaced, trimmed, trimmed_end, trimmed_start};
use crate::text::decimal;

verus! {

// ---------------------------------------------------------------------------
// Cutting

/// `parts`, one behind the other, with `sep` between any two.
pub open spec fn joined_by<T>(parts: Seq<Seq<T>>, sep: T) -> Seq<T>
    decreases parts.len(),
{
    if parts.len() == 0 {
        seq![]
    } else if parts.len() == 1 {
        parts[0]
    } else {
        joined_by(parts.drop_last(), sep).push(sep) + parts.last()
    }
}

/// The parts of a text hold no separator, and with separators between them
/// they are the text again.
pub proof fn law_parts_join_to_the_text<T>(s: Seq<T>, sep: T)
    ensures
        pieces(s, sep).len() > 0,
        joined_by(pieces(s, sep), sep) == s,
        forall|i: int|
            0 <= i < pieces(s, sep).len() ==> !(#[trigger] pieces(s, sep)[i]).contains(sep),
    decreases s.len(),
{
    let parts = pieces(s, sep);
    if s.len() == 0 {
        assert(parts[0] =~= s);
    } else {
        let shorter = s.drop_last();
        let before = pieces(shorter, sep);
        law_parts_join_to_the_text(shorter, sep);
        if s.last() == sep {
            assert(parts.drop_last() =~= before);
            assert(joined_by(parts, sep) =~= shorter.push(sep));
            assert(s =~= shorter.push(sep));
            assert forall|i: int| 0 <= i < parts.len() implies !(#[trigger] parts[i]).contains(
                sep,
            ) by {
                if i < before.len() {
                    assert(parts[i] == before[i]);
                }
            }
        } else {
            let last = before.last().push(s.last());
            assert(parts.drop_last() =~= before.drop_last());
            assert(parts.last() == last);
            assert(joined_by(parts, sep) =~= joined_by(before, sep).push(s.last()));
            assert(s =~= shorter.push(s.last()));
            assert forall|i: int| 0 <= i < parts.len() implies !(#[trigger] parts[i]).contains(
                sep,
            ) by {
                if i < before.len() - 1 {
                    assert(parts[i] == before[i]);
                } else {
                    assert(!before[before.len() - 1].contains(sep));
                    if last.contains(sep) {
                        let k = choose|k: int| 0 <= k < last.len() && last[k] == sep;
                        assert(before.last()[k] == sep);
                    }
                }
            }
        }
    }
}

// ---------------------------------------------------------------------------
// Trimming

/// White space is what Unicode calls so.
pub proof fn law_white_space(c: char)
    ensures
        is_space(c) <==> {
            let code = c as u32;
            ||| 0x09 <= code <= 0x0D
            ||| code == 0x20
            ||| code == 0x85
            ||| code == 0xA0
            ||| code == 0x1680
            ||| 0x2000 <= code <= 0x200A
            ||| code == 0x2028
            ||| code == 0x2029
            ||| code == 0x202F
            ||| code == 0x205F
            ||| code == 0x3000
        },
{
}

/// Whether `s` is nothing but white space.
pub open spec fn is_blank(s: Seq<char>) -> bool {
    forall|i: int| 0 <= i < s.len() ==> is_space(#[trigger] s[i])
}

proof fn lemma_trimmed_start(s: Seq<char>) -> (before: Seq<char>)
    ensures
        s == before + trimmed_start(s),
        is_blank(before),
        trimmed_start(s).len() > 0 ==> !is_space(trimmed_start(s)[0]),
    decreases s.len(),
{
    if s.len() > 0 && is_space(s[0]) {
        let rest = lemma_trimmed_start(s.drop_first());
        let before = seq![s[0]] + rest;
        assert(s =~= seq![s[0]] + s.drop_first());
        assert(s =~= before + trimmed_start(s));
        assert forall|i: int| 0 <= i < before.len() implies is_space(#[trigger] before[i]) by {
            if i > 0 {
                assert(before[i] == rest[i - 1]);
            }
        }
        before
    } else {
        assert(s =~= seq![] + s);
        seq![]
    }
}

proof fn lemma_trimmed_end(s: Seq<char>) -> (after: Seq<char>)
    ensures
        s == trimmed_end(s) + after,
        is_blank(after),
        trimmed_end(s).len() > 0 ==> !is_space(trimmed_end(s).last()) && trimmed_end(s)[0] == s[0],
    decreases s.len(),
{
    if s.len() > 0 && is_space(s.last()) {
        let rest = lemma_trimmed_end(s.drop_last());
        let after = rest.push(s.last());
        assert(s =~= s.drop_last().push(s.last()));
        assert(s =~= trimmed_end(s) + after);
        after
    } else {
        assert(s =~= s + seq![]);
        seq![]
    }
}

/// Trimming takes white space off both ends and nothing else: the text is what
/// is left of it between two runs of white space, and what is left neither
/// begins nor ends with any.
pub proof fn law_trimming_takes_the_white_space(s: Seq<char>) -> (around: (Seq<char>, Seq<char>))
    ensures
        s == around.0 + trimmed(s) + around.1,
        is_blank(around.0),
        is_blank(around.1),
        trimmed(s).len() > 0 ==> !is_space(trimmed(s)[0]) && !is_space(trimmed(s).last()),
{
    let before = lemma_trimmed_start(s);
    let after = lemma_trimmed_end(trimmed_start(s));
    assert(s =~= before + trimmed(s) + after);
    (before, after)
}

// ---------------------------------------------------------------------------
// Searching and replacing

/// A text begins with another exactly if it is that text and something more.
pub proof fn law_beginning<T>(s: Seq<T>, prefix: Seq<T>, rest: Seq<T>)
    ensures
        begins_with(prefix + rest, prefix),
        begins_with(s, prefix) <==> s.len() >= prefix.len() && (forall|i: int|
            0 <= i < prefix.len() ==> #[trigger] s[i] == prefix[i]),
{
    assert((prefix + rest).take(prefix.len() as int) =~= prefix);
    let head = s.take(prefix.len() as int);
    if begins_with(s, prefix) {
        assert forall|i: int| 0 <= i < prefix.len() implies #[trigger] s[i] == prefix[i] by {
            assert(head[i] == s[i]);
        }
    } else if s.len() >= prefix.len() && (forall|i: int|
        0 <= i < prefix.len() ==> #[trigger] s[i] == prefix[i]) {
        assert(head =~= prefix);
    }
}

/// A text occurs in another exactly if it stands somewhere in it.
pub proof fn law_occurrence<T>(part: Seq<T>, s: Seq<T>, before: Seq<T>, after: Seq<T>)
    ensures
        occurs(part, before + part + after),
        occurs(part, s) ==> exists|i: int|
            0 <= i <= s.len() - part.len() && #[trigger] s.subrange(i, i + part.len()) == part,
{
    let whole = before + part + after;
    let at = before.len() as int;
    assert(whole.skip(at).take(part.len() as int) =~= part);
    assert(begins_with(whole.skip(at), part));
    if occurs(part, s) {
        let i = choose|i: int| 0 <= i <= s.len() && #[trigger] begins_with(s.skip(i), part);
        assert(s.subrange(i, i + part.len()) =~= s.skip(i).take(part.len() as int));
    }
}

/// A text in which nothing is to be replaced stays as it is.
pub proof fn law_nothing_to_replace(s: Seq<char>, from: Seq<char>, to: Seq<char>)
    requires
        from.len() > 0,
        !occurs(from, s),
    ensures
        replaced(s, from, to) == s,
    decreases s.len(),
{
    if s.len() > 0 {
        let rest = s.drop_first();
        assert(s.skip(0) =~= s);
        if occurs(from, rest) {
            let i = choose|i: int|
                0 <= i <= rest.len() && #[trigger] begins_with(rest.skip(i), from);
            assert(rest.skip(i) =~= s.skip(i + 1));
        }
        law_nothing_to_replace(rest, from, to);
        assert(seq![s[0]] + rest =~= s);
    }
}

/// The first occurrence is replaced, what stands before it is kept, and what
/// stands behind it is dealt with in the same way.
pub proof fn law_first_occurrence_is_replaced(
    before: Seq<char>,
    from: Seq<char>,
    after: Seq<char>,
    to: Seq<char>,
)
    requires
        from.len() > 0,
        forall|i: int|
            0 <= i < before.len() ==> !begins_with(
                #[trigger] (before + from + after).skip(i),
                from,
            ),
    ensures
        replaced(before + from + after, from, to) == before + to + replaced(after, from, to),
    decreases before.len(),
{
    let s = before + from + after;
    if before.len() == 0 {
        assert(s =~= from + after);
        assert(s.take(from.len() as int) =~= from);
        assert(s.skip(from.len() as int) =~= after);
        assert(before + to + replaced(after, from, to) =~= to + replaced(after, from, to));
    } else {
        let rest = before.drop_first();
        let shorter = rest + from + after;
        assert(s.drop_first() =~= shorter);
        assert(s.skip(0) =~= s);
        assert(!begins_with(s.skip(0), from));
        assert forall|i: int| 0 <= i < rest.len() implies !begins_with(
            #[trigger] (rest + from + after).skip(i),
            from,
        ) by {
            assert(shorter.skip(i) =~= s.skip(i + 1));
        }
        law_first_occurrence_is_replaced(rest, from, after, to);
        assert(seq![s[0]] + (rest + to + replaced(after, from, to)) =~= before + to + replaced(
            after,
            from,
            to,
        ));
    }
}

// ---------------------------------------------------------------------------
// Numbers

/// A number in decimal is a row of digits that spells it, and that does not
/// begin with a zero unless it is the zero.
pub proof fn law_decimal_spells_the_number(n: nat)
    ensures
        decimal(n).len() > 0,
        forall|i: int| 0 <= i < decimal(n).len() ==> '0' <= #[trigger] decimal(n)[i] <= '9',
        digits_value(decimal(n)) == n,
        n > 0 ==> decimal(n)[0] != '0',
    decreases n,
{
    reveal_with_fuel(digits_value, 2);
    if n >= 10 {
        law_decimal_spells_the_number(n / 10);
        let head = decimal(n / 10);
        assert(decimal(n).drop_last() =~= head);
        assert(decimal(n)[0] == head[0]);
    } else {
        assert(decimal(n).drop_last() =~= seq![]);
    }
}

/// Each digit counts ten times as much as the one behind it.
pub proof fn law_digits_count_by_tens(s: Seq<char>, c: char)
    requires
        '0' <= c <= '9',
    ensures
        digits_value(Seq::<char>::empty()) == 0,
        digits_value(s.push(c)) == 10 * digits_value(s) + (c as u32 - 48),
{
    assert(s.push(c).drop_last() =~= s);
}

/// A text spells a number if it is a row of digits, at least one, perhaps
/// behind one plus sign, and the number is not too large.
pub proof fn law_spelled_numbers(s: Seq<char>)
    ensures
        parsed_usize(seq!['+'] + s) == if s.len() > 0 && s[0] == '+' {
            None
        } else {
            parsed_usize(s)
        },
        s.len() == 0 ==> parsed_usize(s) is None,
        s.len() > 0 && (forall|i: int| 0 <= i < s.len() ==> '0' <= #[trigger] s[i] <= '9') ==> {
            &&& digits_value(s) <= usize::MAX ==> parsed_usize(s) == Some(digits_value(s) as usize)
            &&& digits_value(s) > usize::MAX ==> parsed_usize(s) is None
        },
        s.len() > 0 && s[0] != '+' && (exists|i: int|
            0 <= i < s.len() && !('0' <= #[trigger] s[i] <= '9')) ==> parsed_usize(s) is None,
{
    let signed = seq!['+'] + s;
    assert(signed.drop_first() =~= s);
    if s.len() > 0 && s[0] == '+' {
        assert(!is_digit(s[0]));
    }
    if s.len() > 0 && s[0] != '+' && (exists|i: int|
        0 <= i < s.len() && !('0' <= #[trigger] s[i] <= '9')) {
        let i = choose|i: int| 0 <= i < s.len() && !('0' <= #[trigger] s[i] <= '9');
        assert(!is_digit(s[i]));
    }
    if s.len() > 0 && (forall|i: int| 0 <= i < s.len() ==> '0' <= #[trigger] s[i] <= '9') {
        assert('0' <= s[0] <= '9');
        assert forall|i: int| 0 <= i < s.len() implies is_digit(#[trigger] s[i]) by {
            assert('0' <= s[i] <= '9');
        }
    }
}

/// A number in decimal is read back.
pub proof fn law_decimal_reads_back(n: usize)
    ensures
        parsed_usize(decimal(n as nat)) == Some(n),
{
    law_decimal_spells_the_number(n as nat);
    law_spelled_numbers(decimal(n as nat));
}

} // verus!
