//! The sending side of a file transfer.
//!
//! The requested files are sent one after the other, each in chunks. The next
//! chunk is read once the peer has acknowledged the last. A [`FileSender`]
//! says what to do next and is told what came of it.

use sha2::Sha256;
use vstd::prelude::*;

use crate::digest::{finish_hasher, hashed_bytes, new_hasher, sha256_of, update_hasher};
use crate::digest::MAX_HASHED;
use crate::protocol::{message_view, ClipboardMessage, MessageView};

verus! {

/// How much of a file is read at once: 256 KiB.
pub const CHUNK_SIZE: usize = 256 * 1024;

/// What came of the last thing that a [`FileSender`] asked for.
#[derive(Debug, Clone, PartialEq, Eq)]
pub enum SenderEvent {
    /// The file was opened.
    Opened,
    /// The file could not be opened.
    OpenFailed,
    /// These bytes were read; none at all means that the file has ended.
    Read(Vec<u8>),
    /// The file could not be read.
    ReadFailed,
    /// The peer acknowledged something.
    Acknowledged,
    /// The transfer was cancelled.
    Cancelled,
    /// The peer did not acknowledge the chunk in time.
    AckTimedOut,
}

/// What a [`FileSender`] asks for next.
#[derive(Debug, Clone, PartialEq, Eq)]
pub enum SenderAction {
    /// Open the file at this path.
    Open(String),
    /// Read the next chunk of the open file.
    Read,
    /// Wait for an acknowledgement.
    AwaitAck,
    /// Nothing: the transfer is over.
    Finish,
}

enum SenderState {
    Opening,
    Reading { offset: u64, hasher: Sha256 },
    Waiting { offset: u64, sent: u64, hasher: Sha256 },
    Finished,
}

/// Sends files, each under its index in the offer.
pub struct FileSender {
    id: u64,
    files: Vec<(u32, String)>,
    position: usize,
    state: SenderState,
}

/// Where a [`FileSender`] is with the current file.
#[verifier::ext_equal]
pub enum SenderPhase {
    /// It is to be opened.
    Opening,
    /// The next chunk is to be read; these bytes have been sent.
    Reading { sent: Seq<u8> },
    /// The last of these bytes, from `offset` on, are to be acknowledged.
    Waiting { offset: u64, sent: Seq<u8> },
    /// The transfer is over.
    Finished,
}

/// What a [`FileSender`] is doing.
#[verifier::ext_equal]
pub struct SenderView {
    pub id: u64,
    pub files: Seq<(u32, Seq<char>)>,
    /// Which of the files is current.
    pub position: nat,
    pub phase: SenderPhase,
}

/// What a [`SenderAction`] asks for.
pub enum SenderActionView {
    Open(Seq<char>),
    Read,
    AwaitAck,
    Finish,
}

impl View for SenderAction {
    type V = SenderActionView;

    open spec fn view(&self) -> SenderActionView {
        match self {
            SenderAction::Open(path) => SenderActionView::Open(path@),
            SenderAction::Read => SenderActionView::Read,
            SenderAction::AwaitAck => SenderActionView::AwaitAck,
            SenderAction::Finish => SenderActionView::Finish,
        }
    }
}

/// Indices and paths.
pub open spec fn indexed_paths(v: Seq<(u32, String)>) -> Seq<(u32, Seq<char>)> {
    v.map_values(|f: (u32, String)| (f.0, f.1@))
}

impl View for FileSender {
    type V = SenderView;

    closed spec fn view(&self) -> SenderView {
        SenderView {
            id: self.id,
            files: indexed_paths(self.files@),
            position: self.position as nat,
            phase: match self.state {
                SenderState::Opening => SenderPhase::Opening,
                SenderState::Reading { offset, hasher } => SenderPhase::Reading {
                    sent: hashed_bytes(hasher),
                },
                SenderState::Waiting { offset, sent, hasher } => SenderPhase::Waiting {
                    offset,
                    sent: hashed_bytes(hasher),
                },
                SenderState::Finished => SenderPhase::Finished,
            },
        }
    }
}

impl SenderView {
    /// A file is current until all is over, and no more has been sent of it
    /// than can be digested.
    pub open spec fn is_valid(self) -> bool {
        &&& self.phase is Finished || self.position < self.files.len()
        &&& self.phase matches SenderPhase::Reading { sent } ==> sent.len() <= MAX_HASHED
        &&& self.phase matches SenderPhase::Waiting { offset, sent } ==> offset <= sent.len()
            <= MAX_HASHED
    }

    /// Whether `event` answers what was asked for: no more is read at once than
    /// a chunk holds.
    pub open spec fn expects(self, event: SenderEvent) -> bool {
        match self.phase {
            SenderPhase::Opening => event is Opened || event is OpenFailed,
            SenderPhase::Reading { sent } => match event {
                SenderEvent::Read(data) => data@.len() <= CHUNK_SIZE && sent.len() + data@.len()
                    <= MAX_HASHED,
                SenderEvent::ReadFailed => true,
                _ => false,
            },
            SenderPhase::Waiting { .. } => event is Acknowledged || event is Cancelled
                || event is AckTimedOut,
            SenderPhase::Finished => false,
        }
    }

    /// The index of the current file.
    pub open spec fn index(self) -> u32 {
        self.files[self.position as int].0
    }

    /// The same transfer at the file `position`, or at its end.
    pub open spec fn at_file(self, position: nat) -> SenderView {
        SenderView {
            position,
            phase: if position < self.files.len() {
                SenderPhase::Opening
            } else {
                SenderPhase::Finished
            },
            ..self
        }
    }

    /// The same transfer in another phase.
    pub open spec fn in_phase(self, phase: SenderPhase) -> SenderView {
        SenderView { phase, ..self }
    }

    /// What is asked for in this state.
    pub open spec fn action(self) -> SenderActionView {
        match self.phase {
            SenderPhase::Opening => SenderActionView::Open(self.files[self.position as int].1),
            SenderPhase::Reading { .. } => SenderActionView::Read,
            SenderPhase::Waiting { .. } => SenderActionView::AwaitAck,
            SenderPhase::Finished => SenderActionView::Finish,
        }
    }

    /// What is sent because of `event`, and the state after it.
    pub open spec fn after(self, event: SenderEvent) -> (SenderView, Option<MessageView>) {
        let failure = |code: u16| Some(MessageView::Error { id: self.id, code });
        match event {
            SenderEvent::Opened => (self.in_phase(SenderPhase::Reading { sent: seq![] }), None),
            SenderEvent::OpenFailed => (self.at_file(self.position + 1), failure(500)),
            SenderEvent::Read(data) => {
                let sent = self.phase->Reading_sent;
                if data@.len() == 0 {
                    (
                        self.at_file(self.position + 1),
                        Some(
                            MessageView::FileComplete {
                                id: self.id,
                                file_index: self.index(),
                                size: sent.len() as u64,
                                sha256: sha256_of(sent),
                            },
                        ),
                    )
                } else {
                    (
                        self.in_phase(
                            SenderPhase::Waiting { offset: sent.len() as u64, sent: sent + data@ },
                        ),
                        Some(
                            MessageView::FileChunk {
                                id: self.id,
                                file_index: self.index(),
                                offset: sent.len() as u64,
                                data: data@,
                            },
                        ),
                    )
                }
            },
            SenderEvent::ReadFailed => (self.in_phase(SenderPhase::Finished), failure(500)),
            SenderEvent::Acknowledged => (
                self.in_phase(SenderPhase::Reading { sent: self.phase->Waiting_sent }),
                None,
            ),
            SenderEvent::Cancelled => (self.in_phase(SenderPhase::Finished), None),
            SenderEvent::AckTimedOut => (self.in_phase(SenderPhase::Finished), failure(504)),
        }
    }
}

impl FileSender {
    /// The digest runs over exactly what has been sent, and the offsets count
    /// it.
    pub closed spec fn well_formed(&self) -> bool {
        &&& self@.is_valid()
        &&& match self.state {
            SenderState::Reading { offset, hasher } => offset == hashed_bytes(hasher).len(),
            SenderState::Waiting { offset, sent, hasher } => offset + sent == hashed_bytes(
                hasher,
            ).len(),
            _ => true,
        }
    }

    /// Sends `files`, each an index and a path, in the transfer `id`.
    pub fn new(id: u64, files: Vec<(u32, String)>) -> (r: FileSender)
        ensures
            r.well_formed(),
            r@.is_valid(),
            r@ == (SenderView {
                id,
                files: indexed_paths(files@),
                position: 0,
                phase: SenderPhase::Finished,
            }).at_file(0),
    {
        let state = if files.len() > 0 {
            SenderState::Opening
        } else {
            SenderState::Finished
        };
        FileSender { id, files, position: 0, state }
    }

    /// What is to be done now.
    pub fn action(&self) -> (r: SenderAction)
        requires
            self.well_formed(),
        ensures
            r@ == self@.action(),
    {
        match &self.state {
            SenderState::Opening => SenderAction::Open(self.files[self.position].1.clone()),
            SenderState::Reading { .. } => SenderAction::Read,
            SenderState::Waiting { .. } => SenderAction::AwaitAck,
            SenderState::Finished => SenderAction::Finish,
        }
    }

    /// How much of the current file has been read.
    pub fn bytes_read(&self) -> (r: u64)
        requires
            self.well_formed(),
        ensures
            r == match self@.phase {
                SenderPhase::Reading { sent } => sent.len(),
                SenderPhase::Waiting { offset, sent } => sent.len(),
                _ => 0,
            },
    {
        match &self.state {
            SenderState::Reading { offset, .. } => *offset,
            SenderState::Waiting { offset, sent, .. } => *offset + *sent,
            _ => 0,
        }
    }

    fn next_file(&mut self)
        requires
            old(self).well_formed(),
            !(old(self)@.phase is Finished),
        ensures
            final(self).well_formed(),
            final(self)@ == old(self)@.at_file(old(self)@.position + 1),
    {
        let count: usize = self.files.len();
        self.position = self.position + 1;
        self.state = if self.position < count {
            SenderState::Opening
        } else {
            SenderState::Finished
        };
    }

    /// Takes up what came of the last action; the result is to be sent to the
    /// peer.
    ///
    /// A file that cannot be opened is reported and passed over. A file that
    /// cannot be read to its end, a missing acknowledgement or a cancellation
    /// ends the transfer. Any acknowledgement will do.
    pub fn step(&mut self, event: SenderEvent) -> (r: Option<ClipboardMessage>)
        requires
            old(self).well_formed(),
            old(self)@.expects(event),
        ensures
            final(self).well_formed(),
            final(self)@.is_valid(),
            (final(self)@, message_view(r)) == old(self)@.after(event),
    {
        let id: u64 = self.id;
        match event {
            SenderEvent::Opened => {
                self.state = SenderState::Reading { offset: 0, hasher: new_hasher() };
                None
            },
            SenderEvent::OpenFailed => {
                self.next_file();
                Some(ClipboardMessage::Error { id, code: 500 })
            },
            SenderEvent::Read(data) => {
                let mut state = SenderState::Finished;
                std::mem::swap(&mut self.state, &mut state);
                match state {
                    SenderState::Reading { offset, mut hasher } => {
                        let file_index: u32 = self.files[self.position].0;
                        if data.len() == 0 {
                            let sha256 = finish_hasher(hasher);
                            self.state = SenderState::Opening;
                            self.next_file();
                            Some(
                                ClipboardMessage::FileComplete {
                                    id,
                                    file_index,
                                    size: offset,
                                    sha256,
                                },
                            )
                        } else {
                            update_hasher(&mut hasher, data.as_slice());
                            let sent: u64 = data.len() as u64;
                            self.state = SenderState::Waiting { offset, sent, hasher };
                            Some(ClipboardMessage::FileChunk { id, file_index, offset, data })
                        }
                    },
                    _ => None,
                }
            },
            SenderEvent::ReadFailed => {
                self.state = SenderState::Finished;
                Some(ClipboardMessage::Error { id, code: 500 })
            },
            SenderEvent::Acknowledged => {
                let mut state = SenderState::Finished;
                std::mem::swap(&mut self.state, &mut state);
                if let SenderState::Waiting { offset, sent, hasher } = state {
                    self.state = SenderState::Reading { offset: offset + sent, hasher };
                }
                None
            },
            SenderEvent::Cancelled => {
                self.state = SenderState::Finished;
                None
            },
            SenderEvent::AckTimedOut => {
                self.state = SenderState::Finished;
                Some(ClipboardMessage::Error { id, code: 504 })
            },
        }
    }
}

} // verus!
