//! What is read off the wire, byte by byte, whoever has written it.

use vstd::prelude::*;
use vstd::utf8::{decode_utf8, valid_utf8};

use crate::protocol::{decoded, take_bytes, take_files, take_indices, take_number, take_short};
use crate::protocol::{take_shorts, ErrorView, FileView, IoErrorKind, MessageView, ReadFailure};
use crate::transport::payload_message;
use crate::wire_laws::law_number_of_bytes;

verus! {

/// The number in the two bytes of `s` from `at` on.
pub open spec fn number2(s: Seq<u8>, at: int) -> int {
    s[at] * 0x100 + s[at + 1]
}

/// The number in the four bytes of `s` from `at` on.
pub open spec fn number4(s: Seq<u8>, at: int) -> int {
    number2(s, at) * 0x1_0000 + number2(s, at + 2)
}

/// The number in the eight bytes of `s` from `at` on.
pub open spec fn number8(s: Seq<u8>, at: int) -> int {
    number4(s, at) * 0x1_0000_0000 + number4(s, at + 4)
}

/// Whether reading has found the input too short: it is used up then.
pub open spec fn ran_out<T>(read: Result<(T, Seq<u8>), ReadFailure>) -> bool {
    &&& read matches Err(failure)
    &&& failure.error == ErrorView::Io(
        IoErrorKind::UnexpectedEof,
        "failed to fill whole buffer"@,
    )
    &&& failure.rest.len() == 0
}

/// A number is read off the front, most significant byte first, and what
/// follows it is left.
pub proof fn law_numbers_are_read(s: Seq<u8>)
    ensures
        s.len() >= 1 ==> take_number(s, 1) == Ok::<(nat, Seq<u8>), ReadFailure>(
            (s[0] as nat, s.skip(1)),
        ),
        s.len() >= 2 ==> take_number(s, 2) == Ok::<(nat, Seq<u8>), ReadFailure>(
            (number2(s, 0) as nat, s.skip(2)),
        ),
        s.len() >= 4 ==> take_number(s, 4) == Ok::<(nat, Seq<u8>), ReadFailure>(
            (number4(s, 0) as nat, s.skip(4)),
        ),
        s.len() >= 8 ==> take_number(s, 8) == Ok::<(nat, Seq<u8>), ReadFailure>(
            (number8(s, 0) as nat, s.skip(8)),
        ),
        s.len() < 1 ==> ran_out(take_number(s, 1)),
        s.len() < 2 ==> ran_out(take_number(s, 2)),
        s.len() < 4 ==> ran_out(take_number(s, 4)),
        s.len() < 8 ==> ran_out(take_number(s, 8)),
{
    if s.len() >= 1 {
        law_number_of_bytes(s.take(1));
    }
    if s.len() >= 2 {
        law_number_of_bytes(s.take(2));
    }
    if s.len() >= 4 {
        law_number_of_bytes(s.take(4));
    }
    if s.len() >= 8 {
        law_number_of_bytes(s.take(8));
    }
}

/// Bytes are read off the front as they are.
pub proof fn law_bytes_are_read(s: Seq<u8>, n: nat)
    ensures
        s.len() >= n ==> take_bytes(s, n) == Ok::<(Seq<u8>, Seq<u8>), ReadFailure>(
            (s.subrange(0, n as int), s.skip(n as int)),
        ),
        s.len() < n ==> ran_out(take_bytes(s, n)),
{
    if s.len() >= n {
        assert(s.take(n as int) =~= s.subrange(0, n as int));
    }
}

/// A text is read behind its length; one that is not UTF-8 is refused with its
/// bytes, and what follows it is left.
pub proof fn law_texts_are_read(s: Seq<u8>)
    ensures
        s.len() == 0 || s.len() < 1 + s[0] ==> ran_out(take_short(s)),
        s.len() > 0 && s.len() >= 1 + s[0] ==> {
            let bytes = s.subrange(1, 1 + s[0]);
            &&& valid_utf8(bytes) ==> take_short(s) == Ok::<(Seq<char>, Seq<u8>), ReadFailure>(
                (decode_utf8(bytes), s.skip(1 + s[0])),
            )
            &&& !valid_utf8(bytes) ==> {
                &&& take_short(s) matches Err(failure)
                &&& failure.error == ErrorView::Utf8(bytes)
                &&& failure.rest == s.skip(1 + s[0])
            }
        },
{
    law_numbers_are_read(s);
    if s.len() > 0 {
        let rest = s.skip(1);
        if s.len() >= 1 + s[0] {
            assert(rest.take(s[0] as int) =~= s.subrange(1, 1 + s[0]));
            assert(rest.skip(s[0] as int) =~= s.skip(1 + s[0]));
        }
    }
}

/// Lists are read entry by entry; the first entry that cannot be read ends it.
pub proof fn law_lists_are_read_in_turn(s: Seq<u8>, n: nat)
    ensures
        take_shorts(s, 0) == Ok::<(Seq<Seq<char>>, Seq<u8>), ReadFailure>((seq![], s)),
        take_indices(s, 0) == Ok::<(Seq<u32>, Seq<u8>), ReadFailure>((seq![], s)),
        take_files(s, 0) == Ok::<(Seq<FileView>, Seq<u8>), ReadFailure>((seq![], s)),
        take_shorts(s, n) matches Ok((list, rest)) ==> match take_short(rest) {
            Ok((text, left)) => take_shorts(s, n + 1) == Ok::<
                (Seq<Seq<char>>, Seq<u8>),
                ReadFailure,
            >((list.push(text), left)),
            Err(failure) => take_shorts(s, n + 1) == Err::<(Seq<Seq<char>>, Seq<u8>), ReadFailure>(
                failure,
            ),
        },
        take_shorts(s, n) matches Err(failure) ==> take_shorts(s, n + 1) == Err::<
            (Seq<Seq<char>>, Seq<u8>),
            ReadFailure,
        >(failure),
        take_indices(s, n) matches Ok((list, rest)) ==> {
            &&& rest.len() >= 4 ==> take_indices(s, n + 1) == Ok::<
                (Seq<u32>, Seq<u8>),
                ReadFailure,
            >((list.push(number4(rest, 0) as u32), rest.skip(4)))
            &&& rest.len() < 4 ==> ran_out(take_indices(s, n + 1))
        },
        take_indices(s, n) matches Err(failure) ==> take_indices(s, n + 1) == Err::<
            (Seq<u32>, Seq<u8>),
            ReadFailure,
        >(failure),
        take_files(s, n) matches Ok((list, rest)) ==> match take_short(rest) {
            Ok((name, left)) => {
                &&& left.len() >= 8 ==> take_files(s, n + 1) == Ok::<
                    (Seq<FileView>, Seq<u8>),
                    ReadFailure,
                >((list.push(FileView { name, size: number8(left, 0) as u64 }), left.skip(8)))
                &&& left.len() < 8 ==> ran_out(take_files(s, n + 1))
            },
            Err(failure) => take_files(s, n + 1) == Err::<(Seq<FileView>, Seq<u8>), ReadFailure>(
                failure,
            ),
        },
        take_files(s, n) matches Err(failure) ==> take_files(s, n + 1) == Err::<
            (Seq<FileView>, Seq<u8>),
            ReadFailure,
        >(failure),
{
    if let Ok((list, rest)) = take_indices(s, n) {
        law_numbers_are_read(rest);
    }
    if let Ok((list, rest)) = take_files(s, n) {
        if let Ok((name, left)) = take_short(rest) {
            law_numbers_are_read(left);
        }
    }
}

/// Greetings and errors are read off their three and eleven bytes.
pub proof fn law_greetings_and_errors_are_read(s: Seq<u8>)
    ensures
        s.len() >= 3 && s[0] == 1 ==> decoded(s) == Ok::<(MessageView, Seq<u8>), ReadFailure>(
            (MessageView::Hello { protocol_version: number2(s, 1) as u16 }, s.skip(3)),
        ),
        s.len() >= 3 && s[0] == 2 ==> decoded(s) == Ok::<(MessageView, Seq<u8>), ReadFailure>(
            (MessageView::HelloAck { protocol_version: number2(s, 1) as u16 }, s.skip(3)),
        ),
        s.len() >= 11 && s[0] == 6 ==> decoded(s) == Ok::<(MessageView, Seq<u8>), ReadFailure>(
            (
                MessageView::Error { id: number8(s, 1) as u64, code: number2(s, 9) as u16 },
                s.skip(11),
            ),
        ),
{
    law_numbers_are_read(s);
    let a = s.skip(1);
    law_numbers_are_read(a);
    let b = a.skip(8);
    law_numbers_are_read(b);
    if s.len() >= 3 {
        assert(a.skip(2) =~= s.skip(3));
    }
    if s.len() >= 11 {
        assert(b.skip(2) =~= s.skip(11));
    }
}

/// The messages of version 1: an offer of one text of at most 255 bytes, and
/// requests and data for plain text.
pub proof fn law_first_version_is_read(s: Seq<u8>)
    requires
        s.len() >= 9,
    ensures
        s[0] == 3 && s.len() >= 11 && number2(s, 9) <= 255 && s.len() >= 11 + number2(s, 9) ==> {
            let text = s.subrange(11, 11 + number2(s, 9));
            &&& valid_utf8(text) ==> decoded(s) == Ok::<(MessageView, Seq<u8>), ReadFailure>(
                (
                    MessageView::Offer {
                        id: number8(s, 1) as u64,
                        mime_types: seq![decode_utf8(text)],
                    },
                    s.skip(11 + number2(s, 9)),
                ),
            )
            &&& !valid_utf8(text) ==> (decoded(s) matches Err(failure) && failure.error
                == ErrorView::Utf8(text) && failure.rest == s.skip(11 + number2(s, 9)))
        },
        s[0] == 3 && s.len() >= 11 && number2(s, 9) <= 255 && s.len() < 11 + number2(s, 9)
            ==> ran_out(decoded(s)),
        s[0] == 4 ==> decoded(s) == Ok::<(MessageView, Seq<u8>), ReadFailure>(
            (
                MessageView::Request { id: number8(s, 1) as u64, mime_types: seq!["text/plain"@] },
                s.skip(9),
            ),
        ),
        s[0] == 5 && s.len() >= 13 && s.len() >= 13 + number4(s, 9) ==> decoded(s) == Ok::<
            (MessageView, Seq<u8>),
            ReadFailure,
        >(
            (
                MessageView::Data {
                    id: number8(s, 1) as u64,
                    mime_type: "text/plain"@,
                    data: s.subrange(13, 13 + number4(s, 9)),
                },
                s.skip(13 + number4(s, 9)),
            ),
        ),
{
    law_numbers_are_read(s);
    let a = s.skip(1);
    law_numbers_are_read(a);
    let b = a.skip(8);
    law_numbers_are_read(b);
    assert(b =~= s.skip(9));
    if s.len() >= 11 && s.len() >= 11 + number2(s, 9) {
        let n = number2(s, 9);
        assert(b.skip(2).take(n) =~= s.subrange(11, 11 + n));
        assert(b.skip(2).skip(n) =~= s.skip(11 + n));
    }
    if s.len() >= 13 && s.len() >= 13 + number4(s, 9) {
        let n = number4(s, 9);
        assert(b.skip(4).take(n) =~= s.subrange(13, 13 + n));
        assert(b.skip(4).skip(n) =~= s.skip(13 + n));
    }
}

/// Offers and requests of later versions list their texts behind a count;
/// data names its MIME type.
pub proof fn law_later_versions_are_read(s: Seq<u8>)
    requires
        s.len() >= 10,
    ensures
        s[0] == 7 ==> match take_shorts(s.skip(10), s[9] as nat) {
            Ok((list, rest)) => decoded(s) == Ok::<(MessageView, Seq<u8>), ReadFailure>(
                (MessageView::Offer { id: number8(s, 1) as u64, mime_types: list }, rest),
            ),
            Err(failure) => decoded(s) == Err::<(MessageView, Seq<u8>), ReadFailure>(failure),
        },
        s[0] == 10 ==> match take_shorts(s.skip(10), s[9] as nat) {
            Ok((list, rest)) => decoded(s) == Ok::<(MessageView, Seq<u8>), ReadFailure>(
                (MessageView::Request { id: number8(s, 1) as u64, mime_types: list }, rest),
            ),
            Err(failure) => decoded(s) == Err::<(MessageView, Seq<u8>), ReadFailure>(failure),
        },
        s[0] == 8 ==> match take_short(s.skip(9)) {
            Ok((text, rest)) => decoded(s) == Ok::<(MessageView, Seq<u8>), ReadFailure>(
                (MessageView::Request { id: number8(s, 1) as u64, mime_types: seq![text] }, rest),
            ),
            Err(failure) => decoded(s) == Err::<(MessageView, Seq<u8>), ReadFailure>(failure),
        },
        s[0] == 9 ==> match take_short(s.skip(9)) {
            Ok((text, rest)) => if rest.len() >= 4 && rest.len() >= 4 + number4(rest, 0) {
                decoded(s) == Ok::<(MessageView, Seq<u8>), ReadFailure>(
                    (
                        MessageView::Data {
                            id: number8(s, 1) as u64,
                            mime_type: text,
                            data: rest.subrange(4, 4 + number4(rest, 0)),
                        },
                        rest.skip(4 + number4(rest, 0)),
                    ),
                )
            } else {
                ran_out(decoded(s))
            },
            Err(failure) => decoded(s) == Err::<(MessageView, Seq<u8>), ReadFailure>(failure),
        },
{
    law_numbers_are_read(s);
    let a = s.skip(1);
    law_numbers_are_read(a);
    let b = a.skip(8);
    law_numbers_are_read(b);
    assert(b =~= s.skip(9));
    assert(b.skip(1) =~= s.skip(10));
    if s[0] == 9 {
        if let Ok((text, rest)) = take_short(s.skip(9)) {
            law_numbers_are_read(rest);
            if rest.len() >= 4 && rest.len() >= 4 + number4(rest, 0) {
                let n = number4(rest, 0);
                assert(rest.skip(4).take(n) =~= rest.subrange(4, 4 + n));
                assert(rest.skip(4).skip(n) =~= rest.skip(4 + n));
            }
        }
    }
}

/// Lists of files and indices are read behind a count of at most 10,000.
pub proof fn law_file_lists_are_read(s: Seq<u8>)
    requires
        s.len() >= 13,
        number4(s, 9) <= 10_000,
    ensures
        s[0] == 11 ==> match take_files(s.skip(13), number4(s, 9) as nat) {
            Ok((files, rest)) => decoded(s) == Ok::<(MessageView, Seq<u8>), ReadFailure>(
                (MessageView::FileOffer { id: number8(s, 1) as u64, files }, rest),
            ),
            Err(failure) => decoded(s) == Err::<(MessageView, Seq<u8>), ReadFailure>(failure),
        },
        s[0] == 12 ==> match take_indices(s.skip(13), number4(s, 9) as nat) {
            Ok((file_indices, rest)) => decoded(s) == Ok::<(MessageView, Seq<u8>), ReadFailure>(
                (MessageView::FileRequest { id: number8(s, 1) as u64, file_indices }, rest),
            ),
            Err(failure) => decoded(s) == Err::<(MessageView, Seq<u8>), ReadFailure>(failure),
        },
{
    law_numbers_are_read(s);
    let a = s.skip(1);
    law_numbers_are_read(a);
    let b = a.skip(8);
    law_numbers_are_read(b);
    assert(b.skip(4) =~= s.skip(13));
}

/// Chunks, ends and acknowledgements of files are read off fixed places.
pub proof fn law_file_messages_are_read(s: Seq<u8>)
    requires
        s.len() >= 21,
    ensures
        s[0] == 13 && s.len() >= 25 && number4(s, 21) <= 104_857_600 && s.len() >= 25 + number4(
            s,
            21,
        ) ==> decoded(s) == Ok::<(MessageView, Seq<u8>), ReadFailure>(
            (
                MessageView::FileChunk {
                    id: number8(s, 1) as u64,
                    file_index: number4(s, 9) as u32,
                    offset: number8(s, 13) as u64,
                    data: s.subrange(25, 25 + number4(s, 21)),
                },
                s.skip(25 + number4(s, 21)),
            ),
        ),
        s[0] == 14 && s.len() >= 53 ==> decoded(s) == Ok::<(MessageView, Seq<u8>), ReadFailure>(
            (
                MessageView::FileComplete {
                    id: number8(s, 1) as u64,
                    file_index: number4(s, 9) as u32,
                    size: number8(s, 13) as u64,
                    sha256: s.subrange(21, 53),
                },
                s.skip(53),
            ),
        ),
        s[0] == 15 ==> decoded(s) == Ok::<(MessageView, Seq<u8>), ReadFailure>(
            (
                MessageView::FileChunkAck {
                    id: number8(s, 1) as u64,
                    file_index: number4(s, 9) as u32,
                    offset: number8(s, 13) as u64,
                },
                s.skip(21),
            ),
        ),
{
    law_numbers_are_read(s);
    let a = s.skip(1);
    law_numbers_are_read(a);
    let b = a.skip(8);
    law_numbers_are_read(b);
    let c = b.skip(4);
    law_numbers_are_read(c);
    let d = c.skip(8);
    law_numbers_are_read(d);
    assert(d =~= s.skip(21));
    if s.len() >= 25 && s.len() >= 25 + number4(s, 21) {
        let n = number4(s, 21);
        assert(d.skip(4).take(n) =~= s.subrange(25, 25 + n));
        assert(d.skip(4).skip(n) =~= s.skip(25 + n));
    }
    if s.len() >= 53 {
        assert(d.take(32) =~= s.subrange(21, 53));
        assert(d.skip(32) =~= s.skip(53));
    }
}

/// A message whose fixed fields, or whose announced data, are not all there is
/// not read, and uses up the input.
pub proof fn law_cut_messages_run_out(s: Seq<u8>)
    ensures
        s.len() == 0 ==> ran_out(decoded(s)),
        s.len() > 0 ==> {
            let tag = s[0];
            &&& (tag == 1 || tag == 2) && s.len() < 3 ==> ran_out(decoded(s))
            &&& 3 <= tag <= 15 && s.len() < 9 ==> ran_out(decoded(s))
            &&& (tag == 3 || tag == 6) && s.len() < 11 ==> ran_out(decoded(s))
            &&& tag == 5 && (s.len() < 13 || s.len() < 13 + number4(s, 9)) ==> ran_out(decoded(s))
            &&& 7 <= tag <= 10 && s.len() < 10 ==> ran_out(decoded(s))
            &&& (tag == 11 || tag == 12) && s.len() < 13 ==> ran_out(decoded(s))
            &&& 13 <= tag <= 15 && s.len() < 21 ==> ran_out(decoded(s))
            &&& tag == 13 && s.len() < 25 ==> ran_out(decoded(s))
            &&& tag == 13 && number4(s, 21) <= 104_857_600 && s.len() < 25 + number4(s, 21)
                ==> ran_out(decoded(s))
            &&& tag == 14 && s.len() < 53 ==> ran_out(decoded(s))
        },
{
    law_numbers_are_read(s);
    if s.len() > 0 {
        let a = s.skip(1);
        law_numbers_are_read(a);
        if s.len() >= 9 {
            let b = a.skip(8);
            law_numbers_are_read(b);
            if s.len() >= 13 {
                let c = b.skip(4);
                law_numbers_are_read(c);
                law_bytes_are_read(c, number4(s, 9) as nat);
                if s.len() >= 21 {
                    let d = c.skip(8);
                    law_numbers_are_read(d);
                    law_bytes_are_read(d, 32);
                    if s.len() >= 25 {
                        law_bytes_are_read(d.skip(4), number4(s, 21) as nat);
                    }
                }
            }
        }
    }
}

/// The payload of a frame is the message at its front, whatever follows it;
/// where there is none, the reason is passed on.
pub proof fn law_payload_is_its_first_message(payload: Seq<u8>)
    ensures
        decoded(payload) matches Ok((msg, rest)) ==> payload_message(payload) == Ok::<
            MessageView,
            ErrorView,
        >(msg),
        decoded(payload) matches Err(failure) ==> payload_message(payload) == Err::<
            MessageView,
            ErrorView,
        >(failure.error),
{
}

} // verus!
