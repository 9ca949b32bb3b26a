//! The handshake, what a session lets through, and frames.

use vstd::prelude::*;

use crate::bytes::{be_value, lemma_be_roundtrip, lemma_pow256_values};
use crate::protocol::{encoded, ClipboardMessage, ErrorView, IoErrorKind, MessageView};
use crate::protocol::ProtocolError;
use crate::transport::{client_hello, client_version, common_version, end_inside, first_message};
use crate::transport::{framed, is_oversized, payload_message, server_answer, stall_inside};
use crate::transport::{ConnectError, FrameReader, FrameView, HandshakeReply, Incoming, ReadEvent};
use crate::transport::{Role, Session, SessionView};
use crate::wire_laws::{be4, law_four_bytes};

verus! {

// ---------------------------------------------------------------------------
// The handshake

/// The connecting side says hello and that it speaks version 4.
pub proof fn law_hello_comes_first(hello: ClipboardMessage)
    requires
        call_ensures(client_hello, (), hello),
    ensures
        hello@ == (MessageView::Hello { protocol_version: 4 }),
{
}

/// The connecting side takes the version that the listening side names, in
/// answer to its hello and in no other message.
pub proof fn law_named_version_is_taken(reply: HandshakeReply, r: Result<u16, ConnectError>)
    requires
        call_ensures(client_version, (reply,), r),
    ensures
        r matches Ok(version) ==> reply matches HandshakeReply::Message(msg) && msg@ == (
        MessageView::HelloAck { protocol_version: version }),
        reply matches HandshakeReply::Message(msg) ==> msg@ is HelloAck ==> r is Ok,
        reply matches HandshakeReply::Message(msg) ==> !(msg@ is HelloAck) ==> (r matches Err(
            ConnectError::Refused(text),
        ) && text@ == "Expected HelloAck"@),
        reply matches HandshakeReply::Failed(e) ==> r == Err::<u16, ConnectError>(
            ConnectError::Protocol(e),
        ),
        reply is TimedOut ==> (r matches Err(ConnectError::Refused(text)) && text@
            == "Timed out waiting for HelloAck"@),
{
}

/// The listening side answers a hello, and nothing else, with the newest
/// version that both sides speak, and speaks that version.
pub proof fn law_hello_is_answered(reply: HandshakeReply, r: Option<(u16, ClipboardMessage)>)
    requires
        call_ensures(server_answer, (reply,), r),
    ensures
        r is Some <==> (reply matches HandshakeReply::Message(msg) && msg@ is Hello),
        r matches Some((version, answer)) ==> {
            &&& answer@ == (MessageView::HelloAck { protocol_version: version })
            &&& reply matches HandshakeReply::Message(msg)
            &&& msg@ matches MessageView::Hello { protocol_version }
            &&& version <= 4
            &&& version <= protocol_version
            &&& version == 4 || version == protocol_version
        },
{
}

/// The version of a session is the lesser of 4 and what the peer speaks.
pub proof fn law_lesser_version(theirs: u16)
    ensures
        theirs <= 4 ==> common_version(theirs) == theirs,
        theirs >= 4 ==> common_version(theirs) == 4,
{
}

/// Where both sides follow the handshake, they speak the same version.
pub proof fn law_sides_agree(
    hello: ClipboardMessage,
    version: u16,
    answer: ClipboardMessage,
    taken: Result<u16, ConnectError>,
)
    requires
        call_ensures(client_hello, (), hello),
        call_ensures(server_answer, (HandshakeReply::Message(hello),), Some((version, answer))),
        call_ensures(client_version, (HandshakeReply::Message(answer),), taken),
    ensures
        taken == Ok::<u16, ConnectError>(version),
        version == 4,
{
}

// ---------------------------------------------------------------------------
// The session

/// A request concerns the peer that has made an offer under its identifier,
/// data and errors the peer that has made a request, and every other message
/// concerns everyone.
pub proof fn law_who_is_concerned(session: SessionView, msg: MessageView)
    ensures
        msg matches MessageView::Request { id, .. } ==> (session.concerns(msg)
            <==> session.received_offers.contains(id)),
        msg matches MessageView::Data { id, .. } ==> (session.concerns(msg)
            <==> session.received_requests.contains(id)),
        msg matches MessageView::Error { id, .. } ==> (session.concerns(msg)
            <==> session.received_requests.contains(id)),
        !(msg is Request || msg is Data || msg is Error) ==> session.concerns(msg),
{
}

/// A new session has its role and version, and knows of no offer and no
/// request.
pub proof fn law_new_session(role: Role, version: u16, session: Session)
    requires
        call_ensures(Session::new, (role, version), session),
    ensures
        session@.role == role,
        session@.version == version,
        forall|id: u64| !(#[trigger] session@.received_offers.contains(id)),
        forall|id: u64| !(#[trigger] session@.received_requests.contains(id)),
{
}

/// Of what was read, offers and requests are remembered by their identifiers,
/// nothing is ever forgotten, and role and version last.
pub proof fn law_offers_and_requests_are_remembered(
    session: &mut Session,
    msg: ClipboardMessage,
    r: Incoming,
    id: u64,
)
    requires
        call_ensures(Session::incoming, (session, Ok::<ClipboardMessage, ProtocolError>(msg)), r),
    ensures
        final(session)@.role == old(session)@.role,
        final(session)@.version == old(session)@.version,
        final(session)@.received_offers.contains(id) <==> old(session)@.received_offers.contains(id)
            || (msg@ matches MessageView::Offer { id: own, .. } && own == id),
        final(session)@.received_requests.contains(id)
            <==> old(session)@.received_requests.contains(id)
            || (msg@ matches MessageView::Request { id: own, .. } && own == id),
{
}

/// Every message is handed on as it came, but for a hello that a listening
/// peer says: in version 1 that is passed over, and in any other it ends the
/// session.
pub proof fn law_messages_are_handed_on(session: &mut Session, msg: ClipboardMessage, r: Incoming)
    requires
        call_ensures(Session::incoming, (session, Ok::<ClipboardMessage, ProtocolError>(msg)), r),
    ensures
        !(old(session)@.role == Role::Client && msg@ is Hello) ==> r == Incoming::Forward(msg),
        old(session)@.role == Role::Client && msg@ is Hello ==> {
            &&& msg@ == (MessageView::Hello { protocol_version: 1 }) ==> r is Ignore
            &&& msg@ != (MessageView::Hello { protocol_version: 1 }) ==> r is Stop
        },
{
}

/// A frame that was too large is answered with error 413; any other failure
/// ends reading and writing. Nothing is remembered of either.
pub proof fn law_failed_reads(session: &mut Session, error: ProtocolError, r: Incoming)
    requires
        call_ensures(
            Session::incoming,
            (session, Err::<ClipboardMessage, ProtocolError>(error)),
            r,
        ),
    ensures
        final(session)@ == old(session)@,
        error is FrameTooLarge ==> (r matches Incoming::Reply(reply) && reply@ == (
        MessageView::Error { id: 0, code: 413 })),
        !(error is FrameTooLarge) ==> r is Abort,
{
}

/// A message that concerns the peer is written in a frame of its own, if the
/// version of the session can express it and it has at most 100 MiB. Nothing
/// is written for any other.
pub proof fn law_what_is_written(session: Session, msg: ClipboardMessage, r: Vec<u8>)
    requires
        call_ensures(Session::outgoing, (&session, &msg), r),
    ensures
        ({
            let payload = encoded(msg@, session@.version);
            let written = session@.concerns(msg@) && 0 < payload.len() <= 104_857_600;
            &&& !written ==> r@.len() == 0
            &&& written ==> r@ == be4(payload.len() as int) + payload
        }),
{
    law_four_bytes(encoded(msg@, session@.version).len());
}

// ---------------------------------------------------------------------------
// Frames

proof fn lemma_frame(head: Seq<u8>, payload: Seq<u8>, rest: Seq<u8>)
    requires
        head.len() == 4,
        be_value(head) == payload.len(),
    ensures
        ({
            let (read, left) = first_message(head + payload + rest);
            &&& left == rest
            &&& payload.len() <= 104_857_600 ==> read == payload_message(payload)
            &&& payload.len() > 104_857_600 ==> read == Err::<MessageView, ErrorView>(
                ErrorView::FrameTooLarge(payload.len() as u32),
            )
        }),
{
    let s = head + payload + rest;
    assert(s.take(4) =~= head);
    assert(s.skip(4) =~= payload + rest);
    assert((payload + rest).take(payload.len() as int) =~= payload);
    assert((payload + rest).skip(payload.len() as int) =~= rest);
}

proof fn lemma_cut_frame(head: Seq<u8>, payload: Seq<u8>, cut: int)
    requires
        head.len() == 4,
        be_value(head) == payload.len(),
        0 <= cut < payload.len() + 4,
    ensures
        ({
            let (read, left) = first_message((head + payload).take(cut));
            &&& left.len() == 0
            &&& read matches Err(ErrorView::Io(kind, text))
            &&& kind == IoErrorKind::UnexpectedEof
            &&& cut < 4 ==> text == "unexpected end of file"@
            &&& cut >= 4 && payload.len() <= 104_857_600 ==> text == "EOF during transfer"@
            &&& cut >= 4 && payload.len() > 104_857_600 ==> text == "EOF during discard"@
        }),
{
    let s = (head + payload).take(cut);
    if cut >= 4 {
        assert(s.take(4) =~= head);
    }
}

proof fn lemma_head(len: nat)
    requires
        len <= 0xFFFF_FFFF,
    ensures
        be4(len as int).len() == 4,
        be_value(be4(len as int)) == len,
{
    law_four_bytes(len);
    lemma_pow256_values();
    lemma_be_roundtrip(len, 4);
}

/// What a frame holds: the message, if the frame has at most 100 MiB. What
/// follows the frame is left, whatever the frame held.
pub proof fn law_frame_by_frame(payload: Seq<u8>, rest: Seq<u8>)
    requires
        payload.len() <= 0xFFFF_FFFF,
    ensures
        ({
            let (read, left) = first_message(be4(payload.len() as int) + payload + rest);
            &&& left == rest
            &&& payload.len() <= 104_857_600 ==> read == payload_message(payload)
            &&& payload.len() > 104_857_600 ==> read == Err::<MessageView, ErrorView>(
                ErrorView::FrameTooLarge(payload.len() as u32),
            )
        }),
{
    lemma_head(payload.len());
    lemma_frame(be4(payload.len() as int), payload, rest);
}

/// A stream that ends inside a frame is used up, and the end is reported.
pub proof fn law_cut_frame(payload: Seq<u8>, cut: int)
    requires
        payload.len() <= 0xFFFF_FFFF,
        0 <= cut < payload.len() + 4,
    ensures
        ({
            let (read, left) = first_message((be4(payload.len() as int) + payload).take(cut));
            &&& left.len() == 0
            &&& read matches Err(ErrorView::Io(kind, text))
            &&& kind == IoErrorKind::UnexpectedEof
            &&& cut < 4 ==> text == "unexpected end of file"@
            &&& cut >= 4 && payload.len() <= 104_857_600 ==> text == "EOF during transfer"@
            &&& cut >= 4 && payload.len() > 104_857_600 ==> text == "EOF during discard"@
        }),
{
    lemma_head(payload.len());
    lemma_cut_frame(be4(payload.len() as int), payload, cut);
}

/// A frame is too large beyond 100 MiB.
pub proof fn law_limit_of_a_frame(length: int)
    ensures
        is_oversized(length) <==> length > 104_857_600,
{
}

/// What is said where a stream ends or falls silent inside a frame.
pub proof fn law_broken_frames(length: int)
    ensures
        end_inside(length) == ErrorView::Io(
            IoErrorKind::UnexpectedEof,
            if length > 104_857_600 {
                "EOF during discard"@
            } else {
                "EOF during transfer"@
            },
        ),
        stall_inside(length) == ErrorView::Io(
            IoErrorKind::TimedOut,
            if length > 104_857_600 {
                "Transfer stalled during discard"@
            } else {
                "Transfer stalled"@
            },
        ),
{
}

/// A read never reaches beyond the frame. One that can be kept is read in one
/// go, one that is dropped in pieces of at most 8192 bytes.
pub proof fn law_reads_stay_in_the_frame(frame: FrameView)
    requires
        frame.received <= frame.length,
    ensures
        0 <= frame.wanted() <= frame.length - frame.received,
        frame.wanted() == 0 <==> frame.received == frame.length,
        frame.length <= 104_857_600 ==> frame.wanted() == frame.length - frame.received,
        frame.length > 104_857_600 && frame.length - frame.received <= 8192 ==> frame.wanted()
            == frame.length - frame.received,
        frame.length > 104_857_600 && frame.length - frame.received > 8192 ==> frame.wanted()
            == 8192,
        frame.is_complete() <==> frame.received == frame.length,
{
}

/// Bytes that were read bring the frame on by as many, and are kept in order
/// unless the frame is too large. No bytes, a failure and silence bring it on
/// by nothing, and each is reported.
pub proof fn law_reads_add_up(reader: &mut FrameReader, event: ReadEvent, r: Option<ProtocolError>)
    requires
        call_ensures(FrameReader::step, (reader, event), r),
    ensures
        final(reader)@.length == old(reader)@.length,
        r is None <==> (event matches ReadEvent::Bytes(bytes) && bytes@.len() > 0),
        r is Some ==> final(reader)@ == old(reader)@,
        event matches ReadEvent::Bytes(bytes) ==> bytes@.len() > 0 ==> {
            &&& final(reader)@.received == old(reader)@.received + bytes@.len()
            &&& old(reader)@.length <= 104_857_600 ==> final(reader)@.payload
                == old(reader)@.payload + bytes@
            &&& old(reader)@.length > 104_857_600 ==> final(reader)@.payload
                == old(reader)@.payload
        },
        event matches ReadEvent::Failed(e) ==> (r matches Some(ProtocolError::Io(error))
            && error.kind == e.kind && error.message@ == e.message@),
        event is TimedOut ==> (r matches Some(ProtocolError::Io(error)) && error.kind
            == IoErrorKind::TimedOut && error.message@ == if old(reader)@.length > 104_857_600 {
            "Transfer stalled during discard"@
        } else {
            "Transfer stalled"@
        }),
        event matches ReadEvent::Bytes(bytes) ==> bytes@.len() == 0 ==> (r matches Some(
            ProtocolError::Io(error),
        ) && error.kind == IoErrorKind::UnexpectedEof && error.message@ == if old(reader)@.length
            > 104_857_600 {
            "EOF during discard"@
        } else {
            "EOF during transfer"@
        }),
{
}

/// What is written to send a message: nothing, if the version cannot express
/// it, and otherwise its length in four bytes and the message. One of more
/// than 100 MiB is refused with its length, as far as that can be told.
pub proof fn law_frame_of_a_message(msg: MessageView, version: u16)
    ensures
        ({
            let payload = encoded(msg, version);
            let len = payload.len();
            &&& len == 0 ==> framed(msg, version) == Ok::<Seq<u8>, ErrorView>(seq![])
            &&& 0 < len <= 104_857_600 ==> framed(msg, version) == Ok::<Seq<u8>, ErrorView>(
                be4(len as int) + payload,
            )
            &&& 104_857_600 < len <= 0xFFFF_FFFF ==> framed(msg, version) == Err::<
                Seq<u8>,
                ErrorView,
            >(ErrorView::FrameTooLarge(len as u32))
            &&& len > 0xFFFF_FFFF ==> framed(msg, version) == Err::<Seq<u8>, ErrorView>(
                ErrorView::FrameTooLarge(0xFFFF_FFFF),
            )
        }),
{
    law_four_bytes(encoded(msg, version).len());
}

} // verus!
