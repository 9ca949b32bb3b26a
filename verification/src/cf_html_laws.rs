//! What is put into the clipboard format of Windows comes out of it again.

use vstd::prelude::*;
use vstd::utf8::{decode_utf8, decode_utf8_split, encode_utf8, encode_utf8_decode_utf8};
use vstd::utf8::{encode_utf8_valid_utf8, is_ascii_chars, is_ascii_chars_encode_utf8};
use vstd::utf8::{is_char_boundary, is_char_boundary_iff_not_is_continuation_byte, valid_utf8};

use crate::cf_html::{cf_html, declared, end_key, fragment_in, fragment_start, header};
use crate::cf_html::{html_prefix, html_suffix, last_declared, lemma_document_lengths, padded};
use crate::cf_html::{start_key, MAX_FRAGMENT, START_HTML};
use crate::scan::{begins_with, digits_value, is_digit, is_space, lemma_pieces_extend};
use crate::scan::{lemma_pieces_join, lemma_pieces_nonempty, lemma_pieces_single};
use crate::scan::{parsed_usize, pieces, trimmed, trimmed_end, trimmed_start, unsigned_digits};
use crate::text::decimal;
use crate::text_laws::law_decimal_spells_the_number;

verus! {

/// The bytes of an ASCII text.
pub open spec fn ascii(s: Seq<char>) -> Seq<u8> {
    Seq::new(s.len(), |i: int| s[i] as u8)
}

/// 10 to the power `n`.
pub open spec fn pow10(n: nat) -> nat
    decreases n,
{
    if n == 0 {
        1
    } else {
        10 * pow10((n - 1) as nat)
    }
}

proof fn lemma_ascii(s: Seq<char>)
    requires
        is_ascii_chars(s),
    ensures
        encode_utf8(s) == ascii(s),
        valid_utf8(ascii(s)),
        decode_utf8(ascii(s)) == s,
{
    is_ascii_chars_encode_utf8(s);
    assert(encode_utf8(s) =~= ascii(s)) by {
        assert forall|i: int| 0 <= i < s.len() implies encode_utf8(s)[i] == ascii(s)[i] by {
            assert(s[i] as u8 == encode_utf8(s)[i]);
        }
    }
    encode_utf8_valid_utf8(s);
    encode_utf8_decode_utf8(s);
}

// ---------------------------------------------------------------------------
// Numbers

proof fn lemma_decimal(n: nat, k: nat)
    requires
        n < pow10(k),
        k > 0,
    ensures
        0 < decimal(n).len() <= k,
        forall|i: int| 0 <= i < decimal(n).len() ==> is_digit(#[trigger] decimal(n)[i]),
        digits_value(decimal(n)) == n,
    decreases n,
{
    reveal_with_fuel(digits_value, 2);
    reveal_with_fuel(pow10, 2);
    if n >= 10 {
        lemma_decimal(n / 10, (k - 1) as nat);
        assert(decimal(n).drop_last() =~= decimal(n / 10));
    } else {
        assert(decimal(n).drop_last() =~= seq![]);
    }
}

proof fn lemma_zeros_before(k: nat, s: Seq<char>)
    ensures
        digits_value(Seq::new(k, |i: int| '0') + s) == digits_value(s),
    decreases k, s.len(),
{
    let zeros = Seq::new(k, |i: int| '0');
    let all = zeros + s;
    if s.len() > 0 {
        lemma_zeros_before(k, s.drop_last());
        assert(all.drop_last() =~= zeros + s.drop_last());
    } else if k > 0 {
        let fewer = Seq::new((k - 1) as nat, |i: int| '0');
        lemma_zeros_before((k - 1) as nat, s);
        assert(all.drop_last() =~= fewer + s);
        assert(all.last() == '0');
    } else {
        assert(all =~= s);
    }
}

proof fn lemma_padded(n: nat)
    requires
        n < pow10(10),
    ensures
        padded(n).len() == 10,
        forall|i: int| 0 <= i < 10 ==> is_digit(#[trigger] padded(n)[i]),
        digits_value(padded(n)) == n,
        is_ascii_chars(padded(n)),
{
    lemma_decimal(n, 10);
    let digits = decimal(n);
    if digits.len() < 10 {
        lemma_zeros_before((10 - digits.len()) as nat, digits);
    }
}

/// A line that declares a padded number.
spec fn declaration(key: Seq<char>, n: nat) -> Seq<u8> {
    ascii(key + padded(n) + seq!['\r'])
}

proof fn lemma_declaration(key: Seq<char>, n: nat)
    requires
        is_ascii_chars(key),
        n < pow10(10),
        n <= usize::MAX,
    ensures
        declared(declaration(key, n), encode_utf8(key)) == Some(n as usize),
{
    lemma_padded(n);
    lemma_ascii(key);
    let digits = padded(n);
    let value = digits + seq!['\r'];
    let line = declaration(key, n);
    assert(line.take(key.len() as int) =~= ascii(key));
    assert(line.skip(key.len() as int) =~= ascii(value));
    lemma_ascii(value);
    assert(is_digit(digits[0]) && is_digit(digits[9]));
    assert(value[0] == digits[0]);
    assert(trimmed_start(value) == value);
    assert(value.drop_last() =~= digits);
    reveal_with_fuel(trimmed_end, 2);
    assert(trimmed(value) == digits);
    assert(unsigned_digits(digits) == digits);
}

// ---------------------------------------------------------------------------
// Lines

proof fn lemma_other_key(line: Seq<u8>, key: Seq<u8>, i: int)
    requires
        0 <= i < key.len(),
        i < line.len() ==> line[i] != key[i],
    ensures
        declared(line, key) is None,
{
    if begins_with(line, key) {
        assert(line.take(key.len() as int)[i] == key[i]);
    }
}

proof fn lemma_last_declared_skips(lines: Seq<Seq<u8>>, more: Seq<Seq<u8>>, key: Seq<u8>)
    requires
        forall|i: int| 0 <= i < more.len() ==> declared(#[trigger] more[i], key) is None,
    ensures
        last_declared(lines + more, key) == last_declared(lines, key),
    decreases more.len(),
{
    if more.len() == 0 {
        assert(lines + more =~= lines);
    } else {
        let fewer = more.drop_last();
        assert forall|i: int| 0 <= i < fewer.len() implies declared(
            #[trigger] fewer[i],
            key,
        ) is None by {
            assert(declared(more[i], key) is None);
        }
        lemma_last_declared_skips(lines, fewer, key);
        assert((lines + more).drop_last() =~= lines + fewer);
        assert(declared(more[more.len() - 1], key) is None);
    }
}

/// What comes before without a separator belongs to the first part.
proof fn lemma_pieces_prepend(head: Seq<u8>, s: Seq<u8>, sep: u8)
    requires
        !head.contains(sep),
    ensures
        pieces(head + s, sep) == pieces(s, sep).update(0, head + pieces(s, sep)[0]),
    decreases s.len(),
{
    lemma_pieces_nonempty(s, sep);
    if s.len() == 0 {
        assert(head + s =~= head);
        lemma_pieces_single(head, sep);
        assert(pieces(s, sep) =~= seq![seq![]]);
        assert(head + Seq::<u8>::empty() =~= head);
        assert(pieces(head + s, sep) =~= pieces(s, sep).update(0, head + pieces(s, sep)[0]));
    } else {
        let shorter = s.drop_last();
        lemma_pieces_nonempty(shorter, sep);
        lemma_pieces_prepend(head, shorter, sep);
        assert((head + s).drop_last() =~= head + shorter);
        let p = pieces(shorter, sep);
        let q = pieces(head + shorter, sep);
        if s.last() == sep {
            assert(q.push(seq![]) =~= p.push(seq![]).update(0, head + p[0]));
        } else if p.len() == 1 {
            assert((head + p[0]).push(s.last()) =~= head + p[0].push(s.last()));
            assert(pieces(head + s, sep) =~= pieces(s, sep).update(0, head + pieces(s, sep)[0]));
        } else {
            assert(pieces(head + s, sep) =~= pieces(s, sep).update(0, head + pieces(s, sep)[0]));
        }
    }
}

proof fn lemma_trim_stops(a: Seq<char>, b: Seq<char>)
    requires
        b.len() > 0,
        !is_space(b[0]),
    ensures
        trimmed_start(a + b).len() >= b.len(),
        trimmed_start(a + b).skip(trimmed_start(a + b).len() - b.len()) == b,
    decreases a.len(),
{
    let s = a + b;
    if a.len() == 0 {
        assert(s =~= b);
        assert(b.skip(0) =~= b);
    } else if is_space(s[0]) {
        assert(s.drop_first() =~= a.drop_first() + b);
        lemma_trim_stops(a.drop_first(), b);
    } else {
        assert(s.skip(a.len() as int) =~= b);
    }
}

/// The end of the document's first part after the fragment.
spec fn end_mark() -> Seq<char> {
    "<!--EndFragment-->\r"@
}

proof fn lemma_end_mark()
    ensures
        end_mark().len() == 19,
        end_mark()[0] == '<',
        end_mark()[17] == '>',
        end_mark()[18] == '\r',
        is_ascii_chars(end_mark()),
        !ascii(end_mark()).contains(0x0Au8),
{
    reveal_strlit("<!--EndFragment-->\r");
    let mark = end_mark();
    assert(mark.len() == 19);
    assert forall|i: int| 0 <= i < ascii(mark).len() implies ascii(mark)[i] != 0x0Au8 by {
        assert(ascii(mark)[i] == mark[i] as u8);
    }
}

/// The line in which the fragment ends declares nothing, whatever the
/// fragment ends with.
proof fn lemma_marked_line(line: Seq<u8>, key: Seq<u8>)
    requires
        forall|i: int| 0 <= i < key.len() ==> #[trigger] key[i] != 0x3Cu8,
    ensures
        declared(line + ascii(end_mark()), key) is None,
{
    lemma_end_mark();
    let mark = end_mark();
    let tail = ascii(mark);
    let all = line + tail;
    let value = all.skip(key.len() as int);
    if begins_with(all, key) && valid_utf8(value) {
        if line.len() < key.len() {
            assert(all.take(key.len() as int)[line.len() as int] == tail[0]);
            assert(key[line.len() as int] == 0x3Cu8);
        }
        let before = line.skip(key.len() as int);
        let cut = before.len() as int;
        assert(value =~= before + tail);
        assert(value[cut] == 0x3Cu8);
        is_char_boundary_iff_not_is_continuation_byte(value, cut);
        assert(is_char_boundary(value, cut));
        decode_utf8_split(value, cut);
        assert(value.subrange(0, cut) =~= before);
        assert(value.subrange(cut, value.len() as int) =~= tail);
        lemma_ascii(mark);
        let text = decode_utf8(value);
        assert(text == decode_utf8(before) + mark);
        lemma_trim_stops(decode_utf8(before), mark);
        let open = trimmed_start(text);
        let offset = open.len() - mark.len();
        assert(open.skip(offset) == mark);
        assert(open[open.len() - 1] == mark[18]) by {
            assert(open.skip(offset)[18] == open[offset + 18]);
        }
        assert(open[open.len() - 2] == mark[17]) by {
            assert(open.skip(offset)[17] == open[offset + 17]);
        }
        let shut = open.drop_last();
        assert(shut.last() == '>');
        reveal_with_fuel(trimmed_end, 2);
        assert(trimmed(text) == shut);
        let digits = unsigned_digits(shut);
        assert(digits[digits.len() - 1] == '>');
        assert(!is_digit(digits[digits.len() - 1]));
    }
}

/// Whether no line inside `fragment` declares other bounds. Its first and its
/// last line share their line with the document around it.
pub open spec fn redeclares_nothing(fragment: Seq<u8>) -> bool {
    let lines = pieces(fragment, 0x0Au8);
    forall|i: int|
        0 < i < lines.len() - 1 ==> declared(#[trigger] lines[i], start_key()) is None && declared(
            lines[i],
            end_key(),
        ) is None
}

spec fn start_mark() -> Seq<u8> {
    ascii("<!--StartFragment-->"@)
}

/// The lines of the document from the start of the fragment to its end.
spec fn middle(fragment: Seq<u8>) -> Seq<u8> {
    start_mark() + fragment + ascii(end_mark())
}

proof fn lemma_middle(fragment: Seq<u8>, key: Seq<u8>)
    requires
        forall|i: int| 0 <= i < key.len() ==> #[trigger] key[i] != 0x3Cu8,
        key.len() > 0,
        ({
            let lines = pieces(fragment, 0x0Au8);
            forall|i: int| 0 < i < lines.len() - 1 ==> declared(#[trigger] lines[i], key) is None
        }),
    ensures
        ({
            let lines = pieces(middle(fragment), 0x0Au8);
            forall|i: int| 0 <= i < lines.len() ==> declared(#[trigger] lines[i], key) is None
        }),
{
    reveal_strlit("<!--StartFragment-->");
    lemma_end_mark();
    let head = start_mark();
    assert(head.len() == 20 && head[0] == 0x3Cu8);
    assert(!head.contains(0x0Au8)) by {
        assert forall|i: int| 0 <= i < head.len() implies head[i] != 0x0Au8 by {
            assert(head[i] == "<!--StartFragment-->"@[i] as u8);
        }
    }
    let parts = pieces(fragment, 0x0Au8);
    lemma_pieces_nonempty(fragment, 0x0Au8);
    lemma_pieces_prepend(head, fragment, 0x0Au8);
    let opened = pieces(head + fragment, 0x0Au8);
    lemma_pieces_extend(head + fragment, ascii(end_mark()), 0x0Au8);
    let lines = pieces(middle(fragment), 0x0Au8);
    assert(lines == opened.drop_last().push(opened.last() + ascii(end_mark())));
    assert forall|i: int| 0 <= i < lines.len() implies declared(
        #[trigger] lines[i],
        key,
    ) is None by {
        if i == lines.len() - 1 {
            lemma_marked_line(opened.last(), key);
        } else if i == 0 {
            assert(lines[0][0] == 0x3Cu8);
            lemma_other_key(lines[0], key, 0);
        } else {
            assert(lines[i] == parts[i]);
        }
    }
}

// ---------------------------------------------------------------------------
// The whole

spec fn tail_lines() -> Seq<u8> {
    ascii("</body>\r"@) + seq![0x0Au8] + (ascii("</html>"@) + seq![0u8])
}

/// The document with its end.
spec fn document(fragment: Seq<u8>) -> Seq<u8> {
    html_prefix() + fragment + html_suffix() + seq![0u8]
}

proof fn lemma_no_line_feed(s: Seq<char>)
    requires
        forall|i: int| 0 <= i < s.len() ==> #[trigger] s[i] != '\n',
        is_ascii_chars(s),
    ensures
        !ascii(s).contains(0x0Au8),
{
    assert forall|i: int| 0 <= i < ascii(s).len() implies ascii(s)[i] != 0x0Au8 by {
        assert(ascii(s)[i] == s[i] as u8);
    }
}

proof fn lemma_document_lines(fragment: Seq<u8>, key: Seq<u8>)
    requires
        forall|i: int| 0 <= i < key.len() ==> #[trigger] key[i] != 0x3Cu8,
        key.len() > 0,
        ({
            let lines = pieces(fragment, 0x0Au8);
            forall|i: int| 0 < i < lines.len() - 1 ==> declared(#[trigger] lines[i], key) is None
        }),
    ensures
        ({
            let lines = pieces(document(fragment), 0x0Au8);
            forall|i: int| 0 <= i < lines.len() ==> declared(#[trigger] lines[i], key) is None
        }),
{
    reveal_strlit("<html>\r\n<body>\r\n<!--StartFragment-->");
    reveal_strlit("<!--EndFragment-->\r\n</body>\r\n</html>");
    reveal_strlit("<html>\r");
    reveal_strlit("<body>\r");
    reveal_strlit("<!--StartFragment-->");
    reveal_strlit("<!--EndFragment-->\r");
    reveal_strlit("</body>\r");
    reveal_strlit("</html>");
    let prefix = "<html>\r\n<body>\r\n<!--StartFragment-->"@;
    let suffix = "<!--EndFragment-->\r\n</body>\r\n</html>"@;
    lemma_ascii(prefix);
    lemma_ascii(suffix);
    let nl = seq![0x0Au8];
    let a = ascii("<html>\r"@);
    let b = ascii("<body>\r"@);
    let c = ascii("</body>\r"@);
    let d = ascii("</html>"@) + seq![0u8];
    lemma_no_line_feed("<html>\r"@);
    lemma_no_line_feed("<body>\r"@);
    lemma_no_line_feed("</body>\r"@);
    lemma_no_line_feed("</html>"@);
    assert(!d.contains(0x0Au8)) by {
        assert forall|i: int| 0 <= i < d.len() implies d[i] != 0x0Au8 by {
            if i < 7 {
                assert(d[i] == ascii("</html>"@)[i]);
                assert(ascii("</html>"@).contains(ascii("</html>"@)[i]));
            }
        }
    }
    assert(ascii(prefix) =~= a + nl + (b + nl + start_mark()));
    assert(ascii(suffix) =~= ascii(end_mark()) + nl + (c + nl + ascii("</html>"@)));
    let m = middle(fragment);
    let rest = m + nl + (c + nl + d);
    assert(document(fragment) =~= a + nl + (b + nl + rest));
    lemma_pieces_join(a, b + nl + rest, 0x0Au8);
    lemma_pieces_join(b, rest, 0x0Au8);
    lemma_pieces_join(m, c + nl + d, 0x0Au8);
    lemma_pieces_join(c, d, 0x0Au8);
    lemma_pieces_single(a, 0x0Au8);
    lemma_pieces_single(b, 0x0Au8);
    lemma_pieces_single(c, 0x0Au8);
    lemma_pieces_single(d, 0x0Au8);
    lemma_middle(fragment, key);
    let inner = pieces(m, 0x0Au8);
    let lines = pieces(document(fragment), 0x0Au8);
    assert(lines =~= seq![a] + (seq![b] + (inner + (seq![c] + seq![d]))));
    assert(a[0] == 0x3Cu8 && b[0] == 0x3Cu8 && c[0] == 0x3Cu8 && d[0] == 0x3Cu8);
    lemma_other_key(a, key, 0);
    lemma_other_key(b, key, 0);
    lemma_other_key(c, key, 0);
    lemma_other_key(d, key, 0);
    assert forall|i: int| 0 <= i < lines.len() implies declared(
        #[trigger] lines[i],
        key,
    ) is None by {
        if i >= 2 && i < 2 + inner.len() {
            assert(lines[i] == inner[i - 2]);
        }
    }
}

/// The header, line by line.
proof fn lemma_header_lines(n1: nat, n2: nat, n3: nat, n4: nat, rest: Seq<u8>)
    requires
        n1 < pow10(10),
        n2 < pow10(10),
        n3 < pow10(10),
        n4 < pow10(10),
    ensures
        is_ascii_chars(header(n1, n2, n3, n4)),
        header(n1, n2, n3, n4).len() == 105,
        pieces(ascii(header(n1, n2, n3, n4)) + rest, 0x0Au8) == seq![
            ascii("Version:0.9\r"@),
            declaration("StartHTML:"@, n1),
            declaration("EndHTML:"@, n2),
            declaration("StartFragment:"@, n3),
            declaration("EndFragment:"@, n4),
        ] + pieces(rest, 0x0Au8),
{
    lemma_padded(n1);
    lemma_padded(n2);
    lemma_padded(n3);
    lemma_padded(n4);
    reveal_strlit("Version:0.9\r\nStartHTML:");
    reveal_strlit("\r\nEndHTML:");
    reveal_strlit("\r\nStartFragment:");
    reveal_strlit("\r\nEndFragment:");
    reveal_strlit("\r\n");
    reveal_strlit("Version:0.9\r");
    reveal_strlit("StartHTML:");
    reveal_strlit("EndHTML:");
    reveal_strlit("StartFragment:");
    reveal_strlit("EndFragment:");
    let h = header(n1, n2, n3, n4);
    let l0 = "Version:0.9\r"@;
    let l1 = "StartHTML:"@ + padded(n1) + seq!['\r'];
    let l2 = "EndHTML:"@ + padded(n2) + seq!['\r'];
    let l3 = "StartFragment:"@ + padded(n3) + seq!['\r'];
    let l4 = "EndFragment:"@ + padded(n4) + seq!['\r'];
    let nl = seq!['\n'];
    assert(h =~= l0 + nl + l1 + nl + l2 + nl + l3 + nl + l4 + nl);
    assert(h.len() == 105);
    lemma_line(l1, "StartHTML:"@, n1);
    lemma_line(l2, "EndHTML:"@, n2);
    lemma_line(l3, "StartFragment:"@, n3);
    lemma_line(l4, "EndFragment:"@, n4);
    lemma_no_line_feed(l0);
    assert(is_ascii_chars(h));
    let b = seq![0x0Au8];
    let t4 = ascii(l4) + b + rest;
    let t3 = ascii(l3) + b + t4;
    let t2 = ascii(l2) + b + t3;
    let t1 = ascii(l1) + b + t2;
    let t0 = ascii(l0) + b + t1;
    assert(ascii(h) + rest =~= t0);
    lemma_pieces_join(ascii(l0), t1, 0x0Au8);
    lemma_pieces_join(ascii(l1), t2, 0x0Au8);
    lemma_pieces_join(ascii(l2), t3, 0x0Au8);
    lemma_pieces_join(ascii(l3), t4, 0x0Au8);
    lemma_pieces_join(ascii(l4), rest, 0x0Au8);
    lemma_pieces_single(ascii(l0), 0x0Au8);
    lemma_pieces_single(ascii(l1), 0x0Au8);
    lemma_pieces_single(ascii(l2), 0x0Au8);
    lemma_pieces_single(ascii(l3), 0x0Au8);
    lemma_pieces_single(ascii(l4), 0x0Au8);
    assert(pieces(ascii(h) + rest, 0x0Au8) =~= seq![
        ascii(l0),
        ascii(l1),
        ascii(l2),
        ascii(l3),
        ascii(l4),
    ] + pieces(rest, 0x0Au8));
}

proof fn lemma_line(line: Seq<char>, key: Seq<char>, n: nat)
    requires
        n < pow10(10),
        line == key + padded(n) + seq!['\r'],
        is_ascii_chars(key),
        forall|i: int| 0 <= i < key.len() ==> #[trigger] key[i] != '\n',
    ensures
        is_ascii_chars(line),
        !ascii(line).contains(0x0Au8),
{
    lemma_padded(n);
    assert forall|i: int| 0 <= i < line.len() implies '\0' <= #[trigger] line[i] <= '\u{7f}'
        && line[i] != '\n' by {
        if i >= key.len() && i < key.len() + 10 {
            assert(is_digit(padded(n)[i - key.len()]));
        }
    }
    lemma_no_line_feed(line);
}

/// Taking the fragment out gives back what was put in. This needs bounds of
/// at most ten digits, and a fragment that does not itself declare bounds on
/// a line of its own.
pub proof fn law_cf_html_reads_back(fragment: Seq<u8>)
    requires
        fragment.len() <= MAX_FRAGMENT,
        fragment_start() + fragment.len() <= usize::MAX,
        redeclares_nothing(fragment),
    ensures
        fragment_in(cf_html(fragment)) == Some(fragment),
{
    lemma_document_lengths();
    reveal_with_fuel(pow10, 11);
    let start = fragment_start();
    let end = start + fragment.len();
    let end_html = end + html_suffix().len();
    let h = header(START_HTML as nat, end_html, start, end);
    let doc = document(fragment);
    let data = cf_html(fragment);
    lemma_header_lines(START_HTML as nat, end_html, start, end, doc);
    lemma_ascii(h);
    assert(data =~= ascii(h) + doc);
    let first = seq![
        ascii("Version:0.9\r"@),
        declaration("StartHTML:"@, START_HTML as nat),
        declaration("EndHTML:"@, end_html),
        declaration("StartFragment:"@, start),
        declaration("EndFragment:"@, end),
    ];
    let lines = pieces(data, 0x0Au8);
    reveal_strlit("StartFragment:");
    reveal_strlit("EndFragment:");
    lemma_ascii("StartFragment:"@);
    lemma_ascii("EndFragment:"@);
    let sk = start_key();
    let ek = end_key();
    assert(sk[0] == 0x53u8 && ek[0] == 0x45u8);
    assert forall|i: int| 0 <= i < sk.len() implies #[trigger] sk[i] != 0x3Cu8 by {
        assert(sk[i] == "StartFragment:"@[i] as u8);
    }
    assert forall|i: int| 0 <= i < ek.len() implies #[trigger] ek[i] != 0x3Cu8 by {
        assert(ek[i] == "EndFragment:"@[i] as u8);
    }
    lemma_document_lines(fragment, sk);
    lemma_document_lines(fragment, ek);
    lemma_last_declared_skips(first, pieces(doc, 0x0Au8), sk);
    lemma_last_declared_skips(first, pieces(doc, 0x0Au8), ek);
    lemma_declaration("StartFragment:"@, start);
    lemma_declaration("EndFragment:"@, end);
    lemma_padded(end);
    assert(first[4][0] == 0x45u8);
    lemma_other_key(first[4], sk, 0);
    let four = first.drop_last();
    assert(four.last() == first[3]);
    assert(last_declared(four, sk) == Some(start as usize));
    assert(last_declared(first, sk) == Some(start as usize));
    assert(last_declared(first, ek) == Some(end as usize));
    assert(data.subrange(start as int, end as int) =~= fragment);
}

/// A bound is written with digits that spell it: with ten, if they suffice, and
/// never with fewer.
pub proof fn law_bounds_have_ten_digits(n: nat)
    ensures
        padded(n).len() >= 10,
        n < 10_000_000_000 ==> padded(n).len() == 10,
        forall|i: int| 0 <= i < padded(n).len() ==> '0' <= #[trigger] padded(n)[i] <= '9',
        digits_value(padded(n)) == n,
{
    reveal_with_fuel(pow10, 11);
    if n < 10_000_000_000 {
        lemma_padded(n);
    }
    law_decimal_spells_the_number(n);
    let digits = decimal(n);
    if digits.len() < 10 {
        lemma_zeros_before((10 - digits.len()) as nat, digits);
    }
    assert forall|i: int| 0 <= i < padded(n).len() implies '0' <= #[trigger] padded(n)[i]
        <= '9' by {
        if digits.len() < 10 {
            if i >= 10 - digits.len() {
                assert(padded(n)[i] == digits[i - (10 - digits.len())]);
            }
        } else {
            assert(padded(n)[i] == digits[i]);
        }
    }
}

/// The header has five lines and 105 bytes. The document follows it, with the
/// fragment in it at byte 141, and a zero ends it all. The header says where
/// the document and the fragment begin and end.
pub proof fn law_cf_html_layout(fragment: Seq<u8>)
    requires
        fragment.len() <= 9_999_999_822,
    ensures
        ({
            let n = fragment.len();
            let data = cf_html(fragment);
            let lines = pieces(data, 0x0Au8);
            &&& data.len() == n + 178
            &&& data.subrange(105, 141) == ascii("<html>\r\n<body>\r\n<!--StartFragment-->"@)
            &&& data.subrange(141, (141 + n) as int) == fragment
            &&& data.subrange((141 + n) as int, (177 + n) as int) == ascii(
                "<!--EndFragment-->\r\n</body>\r\n</html>"@,
            )
            &&& data.last() == 0
            &&& lines.len() > 5
            &&& lines[0] == ascii("Version:0.9\r"@)
            &&& lines[1] == ascii("StartHTML:"@ + padded(105) + seq!['\r'])
            &&& lines[2] == ascii("EndHTML:"@ + padded(177 + n) + seq!['\r'])
            &&& lines[3] == ascii("StartFragment:"@ + padded(141) + seq!['\r'])
            &&& lines[4] == ascii("EndFragment:"@ + padded(141 + n) + seq!['\r'])
        }),
{
    lemma_document_lengths();
    reveal_with_fuel(pow10, 11);
    let n = fragment.len();
    let h = header(105, 177 + n, 141, 141 + n);
    let doc = document(fragment);
    let data = cf_html(fragment);
    lemma_header_lines(105, 177 + n, 141, 141 + n, doc);
    lemma_ascii(h);
    lemma_pieces_nonempty(doc, 0x0Au8);
    reveal_strlit("<html>\r\n<body>\r\n<!--StartFragment-->");
    reveal_strlit("<!--EndFragment-->\r\n</body>\r\n</html>");
    lemma_ascii("<html>\r\n<body>\r\n<!--StartFragment-->"@);
    lemma_ascii("<!--EndFragment-->\r\n</body>\r\n</html>"@);
    assert(data =~= ascii(h) + doc);
    assert(data.subrange(105, 141) =~= html_prefix());
    assert(data.subrange(141, (141 + n) as int) =~= fragment);
    assert(data.subrange((141 + n) as int, (177 + n) as int) =~= html_suffix());
}

/// A line declares a number if it begins with the key and the number is all
/// that follows, but for white space.
pub proof fn law_declaration_is_key_and_number(key: Seq<u8>, value: Seq<u8>, line: Seq<u8>)
    ensures
        valid_utf8(value) ==> declared(key + value, key) == parsed_usize(
            trimmed(decode_utf8(value)),
        ),
        !valid_utf8(value) ==> declared(key + value, key) is None,
        (forall|rest: Seq<u8>| line != #[trigger] (key + rest)) ==> declared(line, key) is None,
{
    let whole = key + value;
    assert(whole.take(key.len() as int) =~= key);
    assert(whole.skip(key.len() as int) =~= value);
    if begins_with(line, key) {
        let rest = line.skip(key.len() as int);
        assert(line =~= key + rest);
    }
}

/// Of several declarations the last one counts.
pub proof fn law_last_declaration_counts(lines: Seq<Seq<u8>>, line: Seq<u8>, key: Seq<u8>)
    ensures
        last_declared(Seq::<Seq<u8>>::empty(), key) is None,
        declared(line, key) is Some ==> last_declared(lines.push(line), key) == declared(line, key),
        declared(line, key) is None ==> last_declared(lines.push(line), key) == last_declared(
            lines,
            key,
        ),
{
    assert(lines.push(line).drop_last() =~= lines);
}

/// The fragment is what lies between the declared bounds. There is none if a
/// bound is not declared, if they are in the wrong order or if they reach
/// beyond the data.
pub proof fn law_fragment_lies_between_its_bounds(data: Seq<u8>)
    ensures
        ({
            let lines = pieces(data, 10u8);
            let start = last_declared(lines, encode_utf8("StartFragment:"@));
            let end = last_declared(lines, encode_utf8("EndFragment:"@));
            let usable = start is Some && end is Some && start->0 <= end->0 && end->0
                <= data.len();
            &&& fragment_in(data) is Some <==> usable
            &&& usable ==> fragment_in(data)->0 == data.subrange(start->0 as int, end->0 as int)
        }),
{
}

} // verus!
