//! A message that is cut short is never taken for another one.

use vstd::prelude::*;

use crate::protocol::{decoded, decoded_fields, early_end, encoded, take_block, take_bytes};
use crate::protocol::{take_count, take_file, take_files, take_indices, take_number};
use crate::protocol::{take_position, take_short, take_shorts, take_text, take_text_list};
use crate::protocol::{ClipboardMessage, MessageView, ReadFailure};
use crate::round_trip::{in_limits, law_decode_after_encode, law_decode_inverts_encode, survives};

verus! {

/// The failure of a reader whose input has ended too early.
pub open spec fn cut_short() -> ReadFailure {
    ReadFailure { error: early_end(), rest: seq![] }
}

/// Whether `after` is what a reader makes of its input and `more` behind it,
/// where `before` is what it makes of the input alone: a success stays what it
/// is, and a failure for another reason than an early end stays a failure.
spec fn holds_on<T>(
    before: Result<(T, Seq<u8>), ReadFailure>,
    after: Result<(T, Seq<u8>), ReadFailure>,
    more: Seq<u8>,
) -> bool {
    match before {
        Ok((value, rest)) => after == Ok::<(T, Seq<u8>), ReadFailure>((value, rest + more)),
        Err(failure) => failure == cut_short() || after is Err,
    }
}

proof fn lemma_bytes(s: Seq<u8>, more: Seq<u8>, n: nat)
    ensures
        holds_on(take_bytes(s, n), take_bytes(s + more, n), more),
{
    if n <= s.len() {
        assert((s + more).take(n as int) =~= s.take(n as int));
        assert((s + more).skip(n as int) =~= s.skip(n as int) + more);
    }
}

proof fn lemma_number(s: Seq<u8>, more: Seq<u8>, n: nat)
    ensures
        holds_on(take_number(s, n), take_number(s + more, n), more),
{
    lemma_bytes(s, more, n);
}

proof fn lemma_text(s: Seq<u8>, more: Seq<u8>, n: nat)
    ensures
        holds_on(take_text(s, n), take_text(s + more, n), more),
{
    lemma_bytes(s, more, n);
}

proof fn lemma_short(s: Seq<u8>, more: Seq<u8>)
    ensures
        holds_on(take_short(s), take_short(s + more), more),
{
    lemma_number(s, more, 1);
    if let Ok((n, rest)) = take_number(s, 1) {
        lemma_text(rest, more, n);
    }
}

proof fn lemma_block(s: Seq<u8>, more: Seq<u8>)
    ensures
        holds_on(take_block(s), take_block(s + more), more),
{
    lemma_number(s, more, 4);
    if let Ok((n, rest)) = take_number(s, 4) {
        lemma_bytes(rest, more, n);
    }
}

proof fn lemma_shorts(s: Seq<u8>, more: Seq<u8>, n: nat)
    ensures
        holds_on(take_shorts(s, n), take_shorts(s + more, n), more),
    decreases n,
{
    if n > 0 {
        lemma_shorts(s, more, (n - 1) as nat);
        if let Ok((list, rest)) = take_shorts(s, (n - 1) as nat) {
            lemma_short(rest, more);
        }
    }
}

proof fn lemma_text_list(s: Seq<u8>, more: Seq<u8>)
    ensures
        holds_on(take_text_list(s), take_text_list(s + more), more),
{
    lemma_number(s, more, 1);
    if let Ok((n, rest)) = take_number(s, 1) {
        lemma_shorts(rest, more, n);
    }
}

proof fn lemma_file(s: Seq<u8>, more: Seq<u8>)
    ensures
        holds_on(take_file(s), take_file(s + more), more),
{
    lemma_short(s, more);
    if let Ok((name, rest)) = take_short(s) {
        lemma_number(rest, more, 8);
    }
}

proof fn lemma_files(s: Seq<u8>, more: Seq<u8>, n: nat)
    ensures
        holds_on(take_files(s, n), take_files(s + more, n), more),
    decreases n,
{
    if n > 0 {
        lemma_files(s, more, (n - 1) as nat);
        if let Ok((list, rest)) = take_files(s, (n - 1) as nat) {
            lemma_file(rest, more);
        }
    }
}

proof fn lemma_indices(s: Seq<u8>, more: Seq<u8>, n: nat)
    ensures
        holds_on(take_indices(s, n), take_indices(s + more, n), more),
    decreases n,
{
    if n > 0 {
        lemma_indices(s, more, (n - 1) as nat);
        if let Ok((list, rest)) = take_indices(s, (n - 1) as nat) {
            lemma_number(rest, more, 4);
        }
    }
}

proof fn lemma_count(s: Seq<u8>, more: Seq<u8>, tag: u8)
    ensures
        holds_on(take_count(s, tag), take_count(s + more, tag), more),
{
    lemma_number(s, more, 4);
}

proof fn lemma_position(s: Seq<u8>, more: Seq<u8>)
    ensures
        holds_on(take_position(s), take_position(s + more), more),
{
    lemma_number(s, more, 4);
    if let Ok((index, rest)) = take_number(s, 4) {
        lemma_number(rest, more, 8);
    }
}

proof fn lemma_fields(tag: u8, id: u64, s: Seq<u8>, more: Seq<u8>)
    ensures
        holds_on(decoded_fields(tag, id, s), decoded_fields(tag, id, s + more), more),
{
    if tag == ClipboardMessage::MSG_OFFER {
        lemma_number(s, more, 2);
        if let Ok((n, rest)) = take_number(s, 2) {
            lemma_text(rest, more, n);
        }
    } else if tag == ClipboardMessage::MSG_REQUEST {
    } else if tag == ClipboardMessage::MSG_DATA {
        lemma_block(s, more);
    } else if tag == ClipboardMessage::MSG_ERROR {
        lemma_number(s, more, 2);
    } else if tag == ClipboardMessage::MSG_OFFER_V2 || tag == ClipboardMessage::MSG_REQUEST_V3 {
        lemma_text_list(s, more);
    } else if tag == ClipboardMessage::MSG_REQUEST_V2 {
        lemma_short(s, more);
    } else if tag == ClipboardMessage::MSG_DATA_V2 {
        lemma_short(s, more);
        if let Ok((mime_type, rest)) = take_short(s) {
            lemma_block(rest, more);
        }
    } else if tag == ClipboardMessage::MSG_FILE_OFFER {
        lemma_count(s, more, tag);
        if let Ok((n, rest)) = take_count(s, tag) {
            lemma_files(rest, more, n);
        }
    } else if tag == ClipboardMessage::MSG_FILE_REQUEST {
        lemma_count(s, more, tag);
        if let Ok((n, rest)) = take_count(s, tag) {
            lemma_indices(rest, more, n);
        }
    } else {
        lemma_position(s, more);
        if let Ok((position, rest)) = take_position(s) {
            lemma_number(rest, more, 4);
            lemma_bytes(rest, more, 32);
            if let Ok((n, rest)) = take_number(rest, 4) {
                lemma_bytes(rest, more, n);
            }
        }
    }
}

proof fn lemma_message(s: Seq<u8>, more: Seq<u8>)
    ensures
        holds_on(decoded(s), decoded(s + more), more),
{
    lemma_number(s, more, 1);
    if let Ok((tag, rest)) = take_number(s, 1) {
        lemma_number(rest, more, 2);
        lemma_number(rest, more, 8);
        if let Ok((id, fields)) = take_number(rest, 8) {
            lemma_fields(tag as u8, id as u64, fields, more);
        }
    }
}

/// What is read does not depend on what follows it: a message that is read off
/// the front of an input is read off every longer one as well.
pub proof fn law_reading_looks_no_further(s: Seq<u8>, more: Seq<u8>)
    requires
        decoded(s) is Ok,
    ensures
        decoded(s + more) == Ok::<(MessageView, Seq<u8>), ReadFailure>(
            (decoded(s)->Ok_0.0, decoded(s)->Ok_0.1 + more),
        ),
{
    lemma_message(s, more);
}

/// A message that is cut short anywhere is an early end of the input: it is
/// taken neither for another message nor for another error. This holds of
/// every message that the version can express and whose texts and lengths
/// survive.
pub proof fn law_cut_message_is_an_early_end(msg: MessageView, version: u16, k: int)
    requires
        survives(msg, version),
        0 <= k < encoded(msg, version).len(),
    ensures
        decoded(encoded(msg, version).take(k)) == Err::<(MessageView, Seq<u8>), ReadFailure>(
            cut_short(),
        ),
{
    let all = encoded(msg, version);
    let more = all.skip(k);
    law_decode_after_encode(msg, version, seq![]);
    assert(all + seq![] =~= all);
    assert(all.take(k) + more =~= all);
    lemma_message(all.take(k), more);
    if let Ok((value, rest)) = decoded(all.take(k)) {
        assert((rest + more).len() > 0);
    }
}

/// The same of every message within the limits of the wire format, from
/// protocol version 4 on.
pub proof fn law_cut_message_within_limits_is_an_early_end(msg: MessageView, version: u16, k: int)
    requires
        version >= 4,
        in_limits(msg),
        0 <= k < encoded(msg, version).len(),
    ensures
        decoded(encoded(msg, version).take(k)) == Err::<(MessageView, Seq<u8>), ReadFailure>(
            cut_short(),
        ),
{
    let all = encoded(msg, version);
    let more = all.skip(k);
    law_decode_inverts_encode(msg, version, seq![]);
    assert(all + seq![] =~= all);
    assert(all.take(k) + more =~= all);
    lemma_message(all.take(k), more);
    if let Ok((value, rest)) = decoded(all.take(k)) {
        assert((rest + more).len() > 0);
    }
}

} // verus!
