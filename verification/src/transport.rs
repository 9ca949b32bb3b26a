//! Frames, the handshake and the rules of a clipboard session.
//!
//! A frame is the length of a message in four bytes and then the message.
//! [`FrameReader`] follows one frame through the reads of a stream;
//! [`read_message`] and [`write_message`] do the same on memory. After the
//! handshake a [`Session`] decides which messages pass in either direction.

use std::collections::HashSet;
use vstd::prelude::*;
use vstd::slice::slice_subrange;

use crate::bytes::{be_bytes, be_value, lemma_be_value_bound, lemma_pow256_values};
use crate::bytes::{push_all, push_be, read_be};
use crate::protocol::{decoded, encoded, ClipboardMessage, ErrorView, IoError, IoErrorKind};
use crate::protocol::{MessageView, ProtocolError};

verus! {

broadcast use vstd::std_specs::hash::group_hash_axioms;

/// The largest frame that is sent or accepted: 100 MiB.
pub const MAX_CLIPBOARD_FRAME_SIZE: u32 = 100 * 1024 * 1024;

/// The newest protocol version.
pub const PROTOCOL_VERSION: u16 = 4;

/// How much of an oversized frame is discarded at once.
pub const DISCARD_CHUNK: u32 = 8192;

/// What one read of a stream came to.
#[derive(Debug, Clone, PartialEq, Eq)]
pub enum ReadEvent {
    /// These bytes were read; none at all means that the stream has ended.
    Bytes(Vec<u8>),
    /// The read failed.
    Failed(IoError),
    /// Nothing arrived in time.
    TimedOut,
}

/// Follows one frame, whose length is known, through the reads of a stream.
///
/// A frame that is too large is read and dropped, so that the stream stands
/// at the next frame afterwards.
#[derive(Debug)]
pub struct FrameReader {
    length: u32,
    received: u32,
    payload: Vec<u8>,
}

/// What a [`FrameReader`] has seen so far.
pub struct FrameView {
    /// The length of the frame.
    pub length: u32,
    /// How many of its bytes have been read.
    pub received: nat,
    /// Those bytes, unless the frame is too large.
    pub payload: Seq<u8>,
}

/// Whether a frame of this length is dropped.
pub open spec fn is_oversized(length: int) -> bool {
    length > MAX_CLIPBOARD_FRAME_SIZE
}

/// What the payload of a frame holds.
pub open spec fn payload_message(payload: Seq<u8>) -> Result<MessageView, ErrorView> {
    match decoded(payload) {
        Ok((msg, _)) => Ok(msg),
        Err(e) => Err(e.error),
    }
}

/// The end of the stream inside a frame.
pub open spec fn end_inside(length: int) -> ErrorView {
    ErrorView::Io(
        IoErrorKind::UnexpectedEof,
        if is_oversized(length) {
            "EOF during discard"@
        } else {
            "EOF during transfer"@
        },
    )
}

/// Silence inside a frame.
pub open spec fn stall_inside(length: int) -> ErrorView {
    ErrorView::Io(
        IoErrorKind::TimedOut,
        if is_oversized(length) {
            "Transfer stalled during discard"@
        } else {
            "Transfer stalled"@
        },
    )
}

impl View for FrameReader {
    type V = FrameView;

    closed spec fn view(&self) -> FrameView {
        FrameView {
            length: self.length,
            received: self.received as nat,
            payload: self.payload@,
        }
    }
}

impl FrameView {
    /// Whether every byte of the frame has been read.
    pub open spec fn is_complete(self) -> bool {
        self.received == self.length
    }

    /// How many bytes the next read may bring.
    pub open spec fn wanted(self) -> int {
        let missing = self.length - self.received;
        if is_oversized(self.length as int) && missing > DISCARD_CHUNK {
            DISCARD_CHUNK as int
        } else {
            missing
        }
    }
}

impl FrameReader {
    /// No more is read than the frame holds, and what is read of a frame of
    /// acceptable size is kept.
    pub closed spec fn well_formed(&self) -> bool {
        &&& self.received <= self.length
        &&& self.payload@.len() == if is_oversized(self.length as int) {
            0
        } else {
            self.received as nat
        }
    }

    /// Starts on a frame of `length` bytes.
    pub fn new(length: u32) -> (r: FrameReader)
        ensures
            r.well_formed(),
            r@ == (FrameView { length, received: 0, payload: seq![] }),
    {
        FrameReader { length, received: 0, payload: Vec::new() }
    }

    /// How many bytes the next read may bring; none if the frame is complete.
    pub fn wanted(&self) -> (r: usize)
        requires
            self.well_formed(),
        ensures
            r == self@.wanted(),
            r == 0 <==> self@.is_complete(),
    {
        let missing: u32 = self.length - self.received;
        if self.length > MAX_CLIPBOARD_FRAME_SIZE && missing > DISCARD_CHUNK {
            DISCARD_CHUNK as usize
        } else {
            missing as usize
        }
    }

    /// Takes up what a read came to, or says why the frame cannot be read.
    pub fn step(&mut self, event: ReadEvent) -> (r: Option<ProtocolError>)
        requires
            old(self).well_formed(),
            !old(self)@.is_complete(),
            event matches ReadEvent::Bytes(bytes) ==> bytes@.len() <= old(self)@.wanted(),
        ensures
            final(self).well_formed(),
            match event {
                ReadEvent::Bytes(bytes) => if bytes@.len() == 0 {
                    &&& r matches Some(e) && e@ == end_inside(old(self)@.length as int)
                    &&& final(self)@ == old(self)@
                } else {
                    &&& r is None
                    &&& final(self)@ == (FrameView {
                        length: old(self)@.length,
                        received: old(self)@.received + bytes@.len(),
                        payload: if is_oversized(old(self)@.length as int) {
                            old(self)@.payload
                        } else {
                            old(self)@.payload + bytes@
                        },
                    })
                },
                ReadEvent::Failed(error) => {
                    &&& r matches Some(e) && e@ == ErrorView::Io(error.kind, error.message@)
                    &&& final(self)@ == old(self)@
                },
                ReadEvent::TimedOut => {
                    &&& r matches Some(e) && e@ == stall_inside(old(self)@.length as int)
                    &&& final(self)@ == old(self)@
                },
            },
    {
        let oversized = self.length > MAX_CLIPBOARD_FRAME_SIZE;
        match event {
            ReadEvent::Bytes(bytes) => {
                if bytes.len() == 0 {
                    let message = if oversized {
                        "EOF during discard".to_string()
                    } else {
                        "EOF during transfer".to_string()
                    };
                    Some(ProtocolError::Io(IoError { kind: IoErrorKind::UnexpectedEof, message }))
                } else {
                    self.received = self.received + bytes.len() as u32;
                    if !oversized {
                        push_all(&mut self.payload, bytes.as_slice());
                    }
                    None
                }
            },
            ReadEvent::Failed(error) => Some(ProtocolError::Io(error)),
            ReadEvent::TimedOut => {
                let message = if oversized {
                    "Transfer stalled during discard".to_string()
                } else {
                    "Transfer stalled".to_string()
                };
                Some(ProtocolError::Io(IoError { kind: IoErrorKind::TimedOut, message }))
            },
        }
    }

    /// What a complete frame holds.
    pub fn finish(self) -> (r: Result<ClipboardMessage, ProtocolError>)
        requires
            self.well_formed(),
            self@.is_complete(),
        ensures
            if is_oversized(self@.length as int) {
                r matches Err(e) && e@ == ErrorView::FrameTooLarge(self@.length)
            } else {
                match payload_message(self@.payload) {
                    Ok(msg) => r matches Ok(m) && m@ == msg,
                    Err(e) => r matches Err(x) && x@ == e,
                }
            },
    {
        if self.length > MAX_CLIPBOARD_FRAME_SIZE {
            return Err(ProtocolError::FrameTooLarge(self.length));
        }
        let mut payload: &[u8] = self.payload.as_slice();
        ClipboardMessage::decode(&mut payload)
    }
}

/// The message in the first frame of `s`, and what follows that frame. A
/// stream that ends inside the frame is used up.
pub open spec fn first_message(s: Seq<u8>) -> (Result<MessageView, ErrorView>, Seq<u8>) {
    if s.len() < 4 {
        (Err(ErrorView::Io(IoErrorKind::UnexpectedEof, "unexpected end of file"@)), seq![])
    } else {
        let length = be_value(s.take(4));
        if s.len() - 4 < length {
            (Err(end_inside(length as int)), seq![])
        } else {
            (
                if is_oversized(length as int) {
                    Err(ErrorView::FrameTooLarge(length as u32))
                } else {
                    payload_message(s.skip(4).take(length as int))
                },
                s.skip(4).skip(length as int),
            )
        }
    }
}

/// Reads the next message off `stream`.
pub fn read_message(stream: &mut &[u8]) -> (r: Result<ClipboardMessage, ProtocolError>)
    ensures
        match first_message(old(stream)@) {
            (Ok(msg), rest) => r matches Ok(m) && m@ == msg && final(stream)@ == rest,
            (Err(e), rest) => r matches Err(x) && x@ == e && final(stream)@ == rest,
        },
{
    let all: &[u8] = *stream;
    proof {
        lemma_pow256_values();
        lemma_be_value_bound(all@.take(4));
    }
    let length: u32 = match read_be(stream, 4) {
        Some(n) => n as u32,
        None => {
            *stream = slice_subrange(all, 0, 0);
            assert(stream@ =~= seq![]);
            return Err(
                ProtocolError::Io(
                    IoError {
                        kind: IoErrorKind::UnexpectedEof,
                        message: "unexpected end of file".to_string(),
                    },
                ),
            );
        },
    };
    let ghost body = stream@;
    let mut reader = FrameReader::new(length);
    assert(body.take(0) =~= seq![]);
    assert(body.skip(0) =~= body);
    loop
        invariant
            reader.well_formed(),
            reader@.length == length,
            reader@.received <= body.len(),
            body == old(stream)@.skip(4),
            length == be_value(old(stream)@.take(4)),
            old(stream)@.len() >= 4,
            reader@.payload == if is_oversized(length as int) {
                seq![]
            } else {
                body.take(reader@.received as int)
            },
            stream@ == body.skip(reader@.received as int),
        ensures
            reader.well_formed(),
            reader@.length == length,
            reader@.is_complete(),
            length <= body.len(),
            reader@.payload == if is_oversized(length as int) {
                seq![]
            } else {
                body.take(length as int)
            },
            stream@ == body.skip(length as int),
        decreases length - reader@.received,
    {
        let wanted: usize = reader.wanted();
        if wanted == 0 {
            break;
        }
        let all: &[u8] = *stream;
        let n: usize = if wanted <= all.len() {
            wanted
        } else {
            all.len()
        };
        let bytes = vstd::slice::slice_to_vec(slice_subrange(all, 0, n));
        *stream = slice_subrange(all, n, all.len());
        let ghost before = reader@.received;
        match reader.step(ReadEvent::Bytes(bytes)) {
            Some(e) => {
                assert(body.skip(before as int).len() == 0);
                assert(stream@ =~= seq![]);
                return Err(e);
            },
            None => {
                assert(body.take(before + n) =~= body.take(before as int) + body.skip(
                    before as int,
                ).subrange(0, n as int));
                assert(body.skip(before + n) =~= body.skip(before as int).subrange(
                    n as int,
                    body.len() - before,
                ));
            },
        }
    }
    reader.finish()
}

/// The length that is reported of a message of `len` bytes that is too large.
pub open spec fn reported_length(len: nat) -> u32 {
    if len <= u32::MAX {
        len as u32
    } else {
        u32::MAX
    }
}

/// What is written to send `msg`: nothing, if the version cannot express it.
pub open spec fn framed(msg: MessageView, version: u16) -> Result<Seq<u8>, ErrorView> {
    let payload = encoded(msg, version);
    if payload.len() == 0 {
        Ok(seq![])
    } else if is_oversized(payload.len() as int) {
        Err(ErrorView::FrameTooLarge(reported_length(payload.len())))
    } else {
        Ok(be_bytes(payload.len(), 4) + payload)
    }
}

/// The frame that carries `msg` in protocol version `version`; empty if the
/// version cannot express it.
pub fn frame_message(msg: &ClipboardMessage, version: u16) -> (r: Result<Vec<u8>, ProtocolError>)
    ensures
        match framed(msg@, version) {
            Ok(bytes) => r matches Ok(b) && b@ == bytes,
            Err(e) => r matches Err(x) && x@ == e,
        },
{
    let mut payload: Vec<u8> = Vec::new();
    if let Err(e) = msg.encode(&mut payload, version) {
        return Err(ProtocolError::Io(e));
    }
    assert(payload@ =~= encoded(msg@, version));
    if payload.len() == 0 {
        return Ok(Vec::new());
    }
    if payload.len() > MAX_CLIPBOARD_FRAME_SIZE as usize {
        let length: u32 = if payload.len() as u64 <= u32::MAX as u64 {
            payload.len() as u32
        } else {
            u32::MAX
        };
        return Err(ProtocolError::FrameTooLarge(length));
    }
    let mut frame: Vec<u8> = Vec::new();
    push_be(&mut frame, payload.len() as u64, 4);
    push_all(&mut frame, payload.as_slice());
    assert(frame@ =~= be_bytes(payload@.len(), 4) + payload@);
    Ok(frame)
}

/// Appends `msg` to `stream` in a frame of its own.
pub fn write_message(stream: &mut Vec<u8>, msg: &ClipboardMessage, version: u16) -> (r: Result<
    (),
    ProtocolError,
>)
    ensures
        match framed(msg@, version) {
            Ok(bytes) => r is Ok && final(stream)@ == old(stream)@ + bytes,
            Err(e) => r matches Err(x) && x@ == e && final(stream)@ == old(stream)@,
        },
{
    let frame = frame_message(msg, version)?;
    push_all(stream, frame.as_slice());
    Ok(())
}

/// What came back while waiting for the peer's part of the handshake.
#[derive(Debug, Clone, PartialEq, Eq)]
pub enum HandshakeReply {
    Message(ClipboardMessage),
    Failed(ProtocolError),
    TimedOut,
}

/// Why a connection attempt ended.
#[derive(Debug, Clone, PartialEq, Eq)]
pub enum ConnectError {
    Protocol(ProtocolError),
    Refused(String),
}

/// What the connecting side says first.
pub fn client_hello() -> (r: ClipboardMessage)
    ensures
        r@ == (MessageView::Hello { protocol_version: PROTOCOL_VERSION }),
{
    ClipboardMessage::Hello { protocol_version: PROTOCOL_VERSION }
}

/// The protocol version of the session, once the listening side has replied.
pub fn client_version(reply: HandshakeReply) -> (r: Result<u16, ConnectError>)
    ensures
        match reply {
            HandshakeReply::Message(msg) => match msg@ {
                MessageView::HelloAck { protocol_version } => r == Ok::<u16, ConnectError>(
                    protocol_version,
                ),
                _ => r matches Err(ConnectError::Refused(text)) && text@ == "Expected HelloAck"@,
            },
            HandshakeReply::Failed(e) => r == Err::<u16, ConnectError>(ConnectError::Protocol(e)),
            HandshakeReply::TimedOut => r matches Err(ConnectError::Refused(text)) && text@
                == "Timed out waiting for HelloAck"@,
        },
{
    match reply {
        HandshakeReply::Message(ClipboardMessage::HelloAck { protocol_version }) => Ok(
            protocol_version,
        ),
        HandshakeReply::Message(_) => Err(ConnectError::Refused("Expected HelloAck".to_string())),
        HandshakeReply::Failed(e) => Err(ConnectError::Protocol(e)),
        HandshakeReply::TimedOut => Err(
            ConnectError::Refused("Timed out waiting for HelloAck".to_string()),
        ),
    }
}

/// The lesser of the peer's protocol version and our own.
pub open spec fn common_version(theirs: u16) -> u16 {
    if theirs < PROTOCOL_VERSION {
        theirs
    } else {
        PROTOCOL_VERSION
    }
}

/// The protocol version of the session and the answer that announces it, if
/// the connecting side said hello.
pub fn server_answer(reply: HandshakeReply) -> (r: Option<(u16, ClipboardMessage)>)
    ensures
        match reply {
            HandshakeReply::Message(msg) => match msg@ {
                MessageView::Hello { protocol_version } => r matches Some((version, answer))
                    && version == common_version(protocol_version) && answer@ == (
                MessageView::HelloAck { protocol_version: version }),
                _ => r is None,
            },
            _ => r is None,
        },
{
    match reply {
        HandshakeReply::Message(ClipboardMessage::Hello { protocol_version }) => {
            let version: u16 = if protocol_version < PROTOCOL_VERSION {
                protocol_version
            } else {
                PROTOCOL_VERSION
            };
            Some((version, ClipboardMessage::HelloAck { protocol_version: version }))
        },
        _ => None,
    }
}

/// Which side of a connection this is.
#[derive(Debug, Clone, Copy, PartialEq, Eq, Structural)]
pub enum Role {
    /// The side that connected.
    Client,
    /// The side that listened.
    Server,
}

/// What to do about something that was read.
#[derive(Debug, Clone, PartialEq, Eq)]
pub enum Incoming {
    /// Hand the message to the clipboard.
    Forward(ClipboardMessage),
    /// Go on reading.
    Ignore,
    /// Queue this message for the peers and go on reading.
    Reply(ClipboardMessage),
    /// Stop reading.
    Stop,
    /// Stop reading and stop the writer.
    Abort,
}

/// One connection after its handshake.
#[derive(Debug)]
pub struct Session {
    role: Role,
    version: u16,
    received_offers: HashSet<u64>,
    received_requests: HashSet<u64>,
}

/// What a [`Session`] knows.
pub struct SessionView {
    pub role: Role,
    pub version: u16,
    /// The identifiers of the offers that the peer has made.
    pub received_offers: Set<u64>,
    /// The identifiers of the requests that the peer has made.
    pub received_requests: Set<u64>,
}

impl View for Session {
    type V = SessionView;

    closed spec fn view(&self) -> SessionView {
        SessionView {
            role: self.role,
            version: self.version,
            received_offers: self.received_offers@,
            received_requests: self.received_requests@,
        }
    }
}

impl SessionView {
    /// Whether this peer should see `msg`: requests go to the peer that made
    /// the offer, answers go to the peer that made the request, and all else
    /// goes to everyone.
    pub open spec fn concerns(self, msg: MessageView) -> bool {
        match msg {
            MessageView::Request { id, .. } => self.received_offers.contains(id),
            MessageView::Data { id, .. } => self.received_requests.contains(id),
            MessageView::Error { id, .. } => self.received_requests.contains(id),
            _ => true,
        }
    }

    /// The session after the peer has sent `msg`.
    pub open spec fn after(self, msg: MessageView) -> SessionView {
        match msg {
            MessageView::Offer { id, .. } => SessionView {
                received_offers: self.received_offers.insert(id),
                ..self
            },
            MessageView::Request { id, .. } => SessionView {
                received_requests: self.received_requests.insert(id),
                ..self
            },
            _ => self,
        }
    }
}

impl Session {
    /// The peer has neither offered nor requested anything.
    pub fn new(role: Role, version: u16) -> (r: Session)
        ensures
            r@ == (SessionView {
                role,
                version,
                received_offers: Set::empty(),
                received_requests: Set::empty(),
            }),
    {
        Session {
            role,
            version,
            received_offers: HashSet::new(),
            received_requests: HashSet::new(),
        }
    }

    /// The bytes to write for an outgoing message; none if the message does
    /// not concern this peer, cannot be expressed in this session's protocol
    /// version or is too large.
    pub fn outgoing(&self, msg: &ClipboardMessage) -> (r: Vec<u8>)
        ensures
            r@ == if !self@.concerns(msg@) {
                seq![]
            } else {
                match framed(msg@, self@.version) {
                    Ok(bytes) => bytes,
                    Err(_) => seq![],
                }
            },
    {
        let concerned = match msg {
            ClipboardMessage::Request { id, .. } => self.received_offers.contains(id),
            ClipboardMessage::Data { id, .. } => self.received_requests.contains(id),
            ClipboardMessage::Error { id, .. } => self.received_requests.contains(id),
            _ => true,
        };
        if !concerned {
            return Vec::new();
        }
        match frame_message(msg, self.version) {
            Ok(bytes) => bytes,
            Err(_) => Vec::new(),
        }
    }

    /// Takes note of what was read and says what to do about it.
    ///
    /// A peer that sends an oversized frame is told so. A listening peer has
    /// no business saying hello: version 1 does it and is ignored, any other
    /// version ends the session.
    pub fn incoming(&mut self, read: Result<ClipboardMessage, ProtocolError>) -> (r: Incoming)
        ensures
            match read {
                Ok(msg) => {
                    &&& final(self)@ == old(self)@.after(msg@)
                    &&& match msg@ {
                        MessageView::Hello { protocol_version } if old(self)@.role
                            == Role::Client => if protocol_version == 1 {
                            r is Ignore
                        } else {
                            r is Stop
                        },
                        _ => r == Incoming::Forward(msg),
                    }
                },
                Err(ProtocolError::FrameTooLarge(_)) => {
                    &&& final(self)@ == old(self)@
                    &&& r matches Incoming::Reply(reply) && reply@ == (MessageView::Error {
                        id: 0,
                        code: 413,
                    })
                },
                Err(_) => final(self)@ == old(self)@ && r is Abort,
            },
    {
        match read {
            Ok(msg) => {
                match &msg {
                    ClipboardMessage::Offer { id, .. } => {
                        self.received_offers.insert(*id);
                    },
                    ClipboardMessage::Request { id, .. } => {
                        self.received_requests.insert(*id);
                    },
                    ClipboardMessage::Hello { protocol_version } => {
                        if self.role == Role::Client {
                            return if *protocol_version == 1 {
                                Incoming::Ignore
                            } else {
                                Incoming::Stop
                            };
                        }
                    },
                    _ => {},
                }
                Incoming::Forward(msg)
            },
            Err(ProtocolError::FrameTooLarge(_)) => Incoming::Reply(
                ClipboardMessage::Error { id: 0, code: 413 },
            ),
            Err(_) => Incoming::Abort,
        }
    }
}

/// The version of a session is one that both sides speak, and the newest
/// such version.
pub proof fn law_common_version(theirs: u16)
    ensures
        common_version(theirs) <= theirs,
        common_version(theirs) <= PROTOCOL_VERSION,
        common_version(theirs) == theirs || common_version(theirs) == PROTOCOL_VERSION,
{
}

/// At the start of a session the peer has neither offered nor requested
/// anything, so it is sent no request, no data and no error.
pub proof fn law_nothing_unasked(role: Role, version: u16, msg: MessageView)
    requires
        msg is Request || msg is Data || msg is Error,
    ensures
        !(SessionView {
            role,
            version,
            received_offers: Set::empty(),
            received_requests: Set::empty(),
        }).concerns(msg),
{
}

/// A request concerns exactly the peers that offered under its identifier,
/// and an answer exactly those that requested it: no other message makes a
/// difference, and none takes the right away again.
pub proof fn law_answers_go_where_they_were_asked(
    session: SessionView,
    received: MessageView,
    msg: MessageView,
)
    ensures
        session.after(received).concerns(msg) <==> session.concerns(msg) || match (received, msg) {
            (MessageView::Offer { id: a, .. }, MessageView::Request { id: b, .. }) => a == b,
            (MessageView::Request { id: a, .. }, MessageView::Data { id: b, .. }) => a == b,
            (MessageView::Request { id: a, .. }, MessageView::Error { id: b, .. }) => a == b,
            _ => false,
        },
{
}

} // verus!
