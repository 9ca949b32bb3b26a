//! The file transfers of the clipboard.
//!
//! [`FileTransfers`] holds the files that were offered to the peers and the
//! transfer that a peer has offered. It is told of messages and of what came
//! of its own actions, and answers with the actions to take next.

use sha2::Sha256;
use vstd::prelude::*;

use crate::digest::{finish_hasher, hashed_bytes, new_hasher, sha256_of, update_hasher};
use crate::digest::MAX_HASHED;
use crate::file_selection::FileSelection;
use crate::file_sender::indexed_paths;
use crate::paths::{components, is_one_component, is_safe_form_of, part_path, safe_name};
use crate::paths::{target_path, to_part_path, to_target_path};
use crate::protocol::{at_most, clone_files, file_views, ClipboardMessage, FileMetadata, FileView};
use crate::protocol::MessageView;
use crate::text::texts;

verus! {

/// A piece of a file that a peer has sent.
#[derive(Debug, Clone, PartialEq, Eq)]
pub struct FileChunk {
    pub id: u64,
    pub file_index: u32,
    pub offset: u64,
    pub data: Vec<u8>,
}

/// What a [`FileChunk`] holds.
#[verifier::ext_equal]
pub struct ChunkView {
    pub id: u64,
    pub file_index: u32,
    pub offset: u64,
    pub data: Seq<u8>,
}

impl View for FileChunk {
    type V = ChunkView;

    open spec fn view(&self) -> ChunkView {
        ChunkView {
            id: self.id,
            file_index: self.file_index,
            offset: self.offset,
            data: self.data@,
        }
    }
}

/// The announcement that a file has ended.
#[derive(Debug, Clone, PartialEq, Eq)]
pub struct FileEnd {
    pub id: u64,
    pub file_index: u32,
    pub sha256: [u8; 32],
}

/// What a [`FileEnd`] says.
#[verifier::ext_equal]
pub struct EndView {
    pub id: u64,
    pub file_index: u32,
    pub sha256: Seq<u8>,
}

impl View for FileEnd {
    type V = EndView;

    open spec fn view(&self) -> EndView {
        EndView { id: self.id, file_index: self.file_index, sha256: self.sha256@ }
    }
}

/// Something to do for the file transfers. Paths are given by their
/// components, from the directory of all transfers on.
#[derive(Debug, Clone, PartialEq, Eq)]
pub enum FileAction {
    /// Send this message to the peers.
    Send(ClipboardMessage),
    /// Make the directory of the transfer `id` and report to
    /// [`FileTransfers::dir_created`].
    CreateDir { id: u64, files: Vec<FileMetadata> },
    /// Remove the directory of the transfer `id` with all that is in it.
    RemoveDir { id: u64 },
    /// Open an empty file at `path` for writing and report to
    /// [`FileTransfers::part_opened`].
    OpenPart { path: Vec<String>, chunk: FileChunk },
    /// Open an empty file at `path` and report to
    /// [`FileTransfers::empty_created`].
    CreateEmpty { path: Vec<String>, end: FileEnd },
    /// Append the data to the open file and report to
    /// [`FileTransfers::part_written`].
    WritePart { chunk: FileChunk },
    /// Close the open file and rename it from `part` to `target`.
    Commit { part: Vec<String>, target: Vec<String> },
    /// Close the open file and remove it from `part`.
    Discard { part: Vec<String> },
    /// Put these files on the local clipboard.
    Publish { paths: Vec<Vec<String>> },
    /// Close the open file, if there is one: its transfer has ended.
    Close,
    /// Send these files, each with its index and path, in place of those that
    /// are being sent.
    StartSending { id: u64, queue: Vec<(u32, String)> },
    /// Stop sending files.
    StopSending,
    /// Hand this acknowledgement to the sender.
    DeliverAck { id: u64, file_index: u32, offset: u64 },
}

/// What a [`FileAction`] asks for.
#[verifier::ext_equal]
pub enum ActionView {
    Send(MessageView),
    CreateDir { id: u64, files: Seq<FileView> },
    RemoveDir { id: u64 },
    OpenPart { path: Seq<Seq<char>>, chunk: ChunkView },
    CreateEmpty { path: Seq<Seq<char>>, end: EndView },
    WritePart { chunk: ChunkView },
    Commit { part: Seq<Seq<char>>, target: Seq<Seq<char>> },
    Discard { part: Seq<Seq<char>> },
    Publish { paths: Seq<Seq<Seq<char>>> },
    Close,
    StartSending { id: u64, queue: Seq<(u32, Seq<char>)> },
    StopSending,
    DeliverAck { id: u64, file_index: u32, offset: u64 },
}

/// The components of several paths.
pub open spec fn all_components(paths: Seq<Vec<String>>) -> Seq<Seq<Seq<char>>> {
    paths.map_values(|p: Vec<String>| components(p@))
}

impl View for FileAction {
    type V = ActionView;

    open spec fn view(&self) -> ActionView {
        match self {
            FileAction::Send(msg) => ActionView::Send(msg@),
            FileAction::CreateDir { id, files } => ActionView::CreateDir {
                id: *id,
                files: file_views(files@),
            },
            FileAction::RemoveDir { id } => ActionView::RemoveDir { id: *id },
            FileAction::OpenPart { path, chunk } => ActionView::OpenPart {
                path: components(path@),
                chunk: chunk@,
            },
            FileAction::CreateEmpty { path, end } => ActionView::CreateEmpty {
                path: components(path@),
                end: end@,
            },
            FileAction::WritePart { chunk } => ActionView::WritePart { chunk: chunk@ },
            FileAction::Commit { part, target } => ActionView::Commit {
                part: components(part@),
                target: components(target@),
            },
            FileAction::Discard { part } => ActionView::Discard { part: components(part@) },
            FileAction::Publish { paths } => ActionView::Publish { paths: all_components(paths@) },
            FileAction::Close => ActionView::Close,
            FileAction::StartSending { id, queue } => ActionView::StartSending {
                id: *id,
                queue: indexed_paths(queue@),
            },
            FileAction::StopSending => ActionView::StopSending,
            FileAction::DeliverAck { id, file_index, offset } => ActionView::DeliverAck {
                id: *id,
                file_index: *file_index,
                offset: *offset,
            },
        }
    }
}

/// What several actions ask for.
pub open spec fn action_views(actions: Seq<FileAction>) -> Seq<ActionView> {
    actions.map_values(|a: FileAction| a@)
}

struct OutgoingTransfer {
    id: u64,
    paths: Vec<String>,
    metadata: Vec<FileMetadata>,
    sending: bool,
}

struct PartFile {
    index: u32,
    written: u64,
    hasher: Option<Sha256>,
}

struct IncomingTransfer {
    id: u64,
    metadata: Vec<FileMetadata>,
    names: Vec<String>,
    kept: Vec<bool>,
    current: Option<PartFile>,
}

/// The file transfers in either direction.
pub struct FileTransfers {
    outgoing: Option<OutgoingTransfer>,
    incoming: Option<IncomingTransfer>,
}

/// The files that are on offer to the peers.
#[verifier::ext_equal]
pub struct OutgoingView {
    pub id: u64,
    pub paths: Seq<Seq<char>>,
    pub files: Seq<FileView>,
    /// Whether a peer has requested them.
    pub sending: bool,
}

/// The file that was last begun to be received.
#[verifier::ext_equal]
pub struct PartView {
    pub index: u32,
    /// How many bytes were written to it.
    pub written: nat,
    /// What was written to it, while it is open.
    pub content: Option<Seq<u8>>,
}

/// The transfer that a peer has offered.
#[verifier::ext_equal]
pub struct IncomingView {
    pub id: u64,
    pub files: Seq<FileView>,
    /// The names that the files get here.
    pub names: Seq<Seq<char>>,
    /// Which of the files have arrived intact and were committed.
    pub kept: Seq<bool>,
    pub current: Option<PartView>,
}

/// What a [`FileTransfers`] holds.
#[verifier::ext_equal]
pub struct TransfersView {
    pub outgoing: Option<OutgoingView>,
    pub incoming: Option<IncomingView>,
}

impl View for OutgoingTransfer {
    type V = OutgoingView;

    closed spec fn view(&self) -> OutgoingView {
        OutgoingView {
            id: self.id,
            paths: texts(self.paths@),
            files: file_views(self.metadata@),
            sending: self.sending,
        }
    }
}

impl View for PartFile {
    type V = PartView;

    closed spec fn view(&self) -> PartView {
        PartView {
            index: self.index,
            written: self.written as nat,
            content: match self.hasher {
                Some(hasher) => Some(hashed_bytes(hasher)),
                None => None,
            },
        }
    }
}

impl View for IncomingTransfer {
    type V = IncomingView;

    closed spec fn view(&self) -> IncomingView {
        IncomingView {
            id: self.id,
            files: file_views(self.metadata@),
            names: texts(self.names@),
            kept: self.kept@,
            current: match self.current {
                Some(part) => Some(part@),
                None => None,
            },
        }
    }
}

impl View for FileTransfers {
    type V = TransfersView;

    closed spec fn view(&self) -> TransfersView {
        TransfersView {
            outgoing: match self.outgoing {
                Some(t) => Some(t@),
                None => None,
            },
            incoming: match self.incoming {
                Some(t) => Some(t@),
                None => None,
            },
        }
    }
}

/// The files that are requested by `indices`, each with its index. An index
/// beyond the offer is passed over.
pub open spec fn requested_files(paths: Seq<Seq<char>>, indices: Seq<u32>) -> Seq<
    (u32, Seq<char>),
>
    decreases indices.len(),
{
    if indices.len() == 0 {
        seq![]
    } else {
        let before = requested_files(paths, indices.drop_last());
        if indices.last() < paths.len() {
            before.push((indices.last(), paths[indices.last() as int]))
        } else {
            before
        }
    }
}

/// How many files an index can tell apart.
pub const MAX_INDICES: u64 = 0x1_0000_0000;

/// The indices of `count` files.
pub open spec fn all_indices(count: nat) -> Seq<u32> {
    Seq::new(count, |i: int| i as u32)
}

impl IncomingView {
    /// Every file has a name of one component; the last has not arrived, which
    /// would end the transfer; the current file is one of them; and what is
    /// digested is what was written.
    pub open spec fn is_valid(self) -> bool {
        &&& self.names.len() == self.files.len()
        &&& self.kept.len() == self.files.len()
        &&& self.kept.len() > 0 ==> !self.kept.last()
        &&& forall|i: int| 0 <= i < self.names.len() ==> is_one_component(#[trigger] self.names[i])
        &&& self.current matches Some(part) ==> {
            &&& part.index < self.files.len()
            &&& part.written <= MAX_HASHED
            &&& part.content matches Some(bytes) ==> bytes.len() == part.written
        }
    }

    /// Whether `index` is the file that is being received.
    pub open spec fn is_at(self, index: u32) -> bool {
        self.current matches Some(part) && part.index == index
    }

    /// Whether the file `index` has neither arrived nor is being received.
    pub open spec fn misses(self, index: u32) -> bool {
        index < self.files.len() && !self.kept[index as int] && !self.is_at(index)
    }

    /// The transfer once an empty file was opened for the file `index`.
    pub open spec fn begun(self, index: u32) -> IncomingView {
        IncomingView {
            current: Some(PartView { index, written: 0, content: Some(seq![]) }),
            ..self
        }
    }

    /// What is done about a chunk once its file is open, if it could be
    /// opened: it is written where the open file ends, and nowhere else.
    pub open spec fn write_actions(self, chunk: ChunkView) -> Seq<ActionView> {
        match self.current {
            Some(part) if part.content is Some && part.written == chunk.offset => seq![
                ActionView::WritePart { chunk },
            ],
            _ => seq![],
        }
    }

    /// Whether all files have arrived intact.
    pub open spec fn is_whole(self) -> bool {
        forall|i: int| 0 <= i < self.kept.len() ==> #[trigger] self.kept[i]
    }

    /// The paths at which all files end up.
    pub open spec fn target_paths(self) -> Seq<Seq<Seq<char>>> {
        self.names.map_values(|n: Seq<char>| target_path(self.id, n))
    }

    /// The transfer after the current file was said to be complete, and what
    /// is done about it. Only the announced size and digest make it a file.
    pub open spec fn completed(self, size: u64, sha256: Seq<u8>) -> (
        IncomingView,
        Seq<ActionView>,
    ) {
        let part = self.current->0;
        let name = self.names[part.index as int];
        let closed = IncomingView {
            current: Some(PartView { content: None, ..part }),
            ..self
        };
        if part.written != size || part.content is None {
            (self, seq![])
        } else if sha256_of(part.content->0) == sha256 {
            (
                IncomingView { kept: self.kept.update(part.index as int, true), ..closed },
                seq![
                    ActionView::Commit {
                        part: part_path(self.id, name),
                        target: target_path(self.id, name),
                    },
                ],
            )
        } else {
            (closed, seq![ActionView::Discard { part: part_path(self.id, name) }])
        }
    }

    /// What is done once the last file was said to be complete: the files are
    /// published if all of them have arrived intact.
    pub open spec fn ending(self) -> ActionView {
        if self.is_whole() {
            ActionView::Publish { paths: self.target_paths() }
        } else {
            ActionView::Close
        }
    }
}

impl TransfersView {
    /// Every offered file has a path, and the transfer that is being received
    /// is in order.
    pub open spec fn is_valid(self) -> bool {
        &&& self.outgoing matches Some(t) ==> t.paths.len() == t.files.len()
        &&& self.incoming matches Some(t) ==> t.is_valid()
    }

    /// Whether a transfer with the identifier `id` has been offered.
    pub open spec fn is_receiving(self, id: u64) -> bool {
        self.incoming matches Some(t) && t.id == id
    }

    /// Whether files are on offer under the identifier `id`.
    pub open spec fn is_offering(self, id: u64) -> bool {
        self.outgoing matches Some(t) && t.id == id
    }

    /// Whether the open file can take `len` more bytes.
    pub open spec fn has_room_for(self, len: nat) -> bool {
        self.incoming matches Some(t) ==> (t.current matches Some(part) ==> part.written + len
            <= MAX_HASHED)
    }

    /// The state after `msg` was received, and what is done about it.
    pub open spec fn after_message(self, msg: MessageView) -> (TransfersView, Seq<ActionView>) {
        match msg {
            MessageView::FileOffer { id, files } => (
                self,
                seq![ActionView::CreateDir { id, files }],
            ),
            MessageView::FileRequest { id, file_indices } if self.is_offering(id) => (
                TransfersView {
                    outgoing: Some(OutgoingView { sending: true, ..self.outgoing->0 }),
                    ..self
                },
                seq![
                    ActionView::StartSending {
                        id,
                        queue: requested_files(self.outgoing->0.paths, file_indices),
                    },
                ],
            ),
            MessageView::FileChunk { id, file_index, offset, data } if self.is_receiving(id) => {
                let t = self.incoming->0;
                let chunk = ChunkView { id, file_index, offset, data };
                (
                    self,
                    if !t.is_at(file_index) && file_index < t.files.len() {
                        seq![
                            ActionView::OpenPart {
                                path: part_path(id, t.names[file_index as int]),
                                chunk,
                            },
                        ]
                    } else {
                        t.write_actions(chunk)
                    },
                )
            },
            MessageView::FileComplete { id, file_index, size, sha256 } if self.is_receiving(id)
                && self.incoming->0.is_at(file_index) => {
                let t = self.incoming->0;
                let (after, actions) = t.completed(size, sha256);
                if file_index == t.files.len() - 1 {
                    (TransfersView { incoming: None, ..self }, actions.push(after.ending()))
                } else {
                    (TransfersView { incoming: Some(after), ..self }, actions)
                }
            },
            MessageView::FileComplete { id, file_index, size, sha256 } if self.is_receiving(id)
                && self.incoming->0.misses(file_index) && size == 0 => (
                self,
                seq![
                    ActionView::CreateEmpty {
                        path: part_path(id, self.incoming->0.names[file_index as int]),
                        end: EndView { id, file_index, sha256 },
                    },
                ],
            ),
            MessageView::Error { id, code } => (
                TransfersView {
                    outgoing: if self.is_offering(id) {
                        None
                    } else {
                        self.outgoing
                    },
                    incoming: if self.is_receiving(id) {
                        None
                    } else {
                        self.incoming
                    },
                },
                (if self.is_receiving(id) {
                    seq![ActionView::RemoveDir { id }]
                } else {
                    seq![]
                }) + (if self.is_offering(id) {
                    seq![ActionView::StopSending]
                } else {
                    seq![]
                }),
            ),
            MessageView::FileChunkAck { id, file_index, offset } if self.is_offering(id)
                && self.outgoing->0.sending => (
                self,
                seq![ActionView::DeliverAck { id, file_index, offset }],
            ),
            _ => (self, seq![]),
        }
    }

    /// The state once the directory of an offered transfer exists and its
    /// files have names: all of them are requested, as far as an index can
    /// name them.
    pub open spec fn after_accept(self, id: u64, files: Seq<FileView>, names: Seq<Seq<char>>) -> (
        TransfersView,
        Seq<ActionView>,
    ) {
        (
            TransfersView {
                incoming: Some(
                    IncomingView {
                        id,
                        files,
                        names,
                        kept: Seq::new(files.len(), |i: int| false),
                        current: None,
                    },
                ),
                ..self
            },
            seq![
                ActionView::Send(
                    MessageView::FileRequest {
                        id,
                        file_indices: all_indices(at_most(files.len(), MAX_INDICES as nat)),
                    },
                ),
            ],
        )
    }

    /// The state once the file of `chunk` was opened, or could not be.
    pub open spec fn after_open(self, chunk: ChunkView, ok: bool) -> (
        TransfersView,
        Seq<ActionView>,
    ) {
        if self.is_receiving(chunk.id) && chunk.file_index < self.incoming->0.files.len() {
            let t = if ok {
                self.incoming->0.begun(chunk.file_index)
            } else {
                self.incoming->0
            };
            (TransfersView { incoming: Some(t), ..self }, t.write_actions(chunk))
        } else {
            (self, seq![])
        }
    }

    /// The state once an empty file was opened for a file that has ended without
    /// any content, or could not be: it is complete at once.
    pub open spec fn after_empty(self, end: EndView, ok: bool) -> (
        TransfersView,
        Seq<ActionView>,
    ) {
        if ok && self.is_receiving(end.id) && self.incoming->0.misses(end.file_index) {
            TransfersView {
                incoming: Some(self.incoming->0.begun(end.file_index)),
                ..self
            }.after_message(
                MessageView::FileComplete {
                    id: end.id,
                    file_index: end.file_index,
                    size: 0,
                    sha256: end.sha256,
                },
            )
        } else {
            (self, seq![])
        }
    }

    /// The state once `chunk` was written, or could not be: a chunk that was
    /// written is acknowledged.
    pub open spec fn after_write(self, chunk: ChunkView, ok: bool) -> (
        TransfersView,
        Seq<ActionView>,
    ) {
        if ok && self.is_receiving(chunk.id) && self.incoming->0.write_actions(chunk).len() > 0 {
            let part = self.incoming->0.current->0;
            (
                TransfersView {
                    incoming: Some(
                        IncomingView {
                            current: Some(
                                PartView {
                                    written: part.written + chunk.data.len(),
                                    content: Some(part.content->0 + chunk.data),
                                    ..part
                                },
                            ),
                            ..self.incoming->0
                        },
                    ),
                    ..self
                },
                seq![
                    ActionView::Send(
                        MessageView::FileChunkAck {
                            id: chunk.id,
                            file_index: chunk.file_index,
                            offset: chunk.offset,
                        },
                    ),
                ],
            )
        } else {
            (self, seq![])
        }
    }

    /// The state after the files `paths` were chosen for an offer.
    pub open spec fn after_local_files(
        self,
        id: u64,
        paths: Seq<Seq<char>>,
        files: Seq<FileView>,
    ) -> (TransfersView, Seq<ActionView>) {
        if files.len() == 0 {
            (self, seq![])
        } else {
            (
                TransfersView {
                    outgoing: Some(OutgoingView { id, paths, files, sending: false }),
                    ..self
                },
                (if self.outgoing is Some {
                    seq![ActionView::StopSending]
                } else {
                    seq![]
                }).push(ActionView::Send(MessageView::FileOffer { id, files })),
            )
        }
    }

    /// What is sent to a peer that has just connected.
    pub open spec fn connect_actions(self) -> Seq<ActionView> {
        match self.outgoing {
            Some(t) => seq![ActionView::Send(MessageView::FileOffer { id: t.id, files: t.files })],
            None => seq![],
        }
    }
}

fn list_of(action: FileAction) -> (r: Vec<FileAction>)
    ensures
        action_views(r@) == seq![action@],
{
    let r = vec![action];
    assert(action_views(r@) =~= seq![action@]);
    r
}

fn no_actions() -> (r: Vec<FileAction>)
    ensures
        action_views(r@) == Seq::<ActionView>::empty(),
{
    let r: Vec<FileAction> = Vec::new();
    assert(action_views(r@) =~= Seq::<ActionView>::empty());
    r
}

fn push_action(actions: &mut Vec<FileAction>, action: FileAction)
    ensures
        action_views(final(actions)@) == action_views(old(actions)@).push(action@),
{
    actions.push(action);
    assert(action_views(actions@) =~= action_views(old(actions)@).push(action@));
}

fn choose_requested(paths: &Vec<String>, indices: &Vec<u32>) -> (r: Vec<(u32, String)>)
    ensures
        indexed_paths(r@) == requested_files(texts(paths@), indices@),
{
    let mut r: Vec<(u32, String)> = Vec::new();
    let mut i: usize = 0;
    assert(indexed_paths(r@) =~= requested_files(texts(paths@), indices@.take(0)));
    while i < indices.len()
        invariant
            i <= indices.len(),
            indexed_paths(r@) == requested_files(texts(paths@), indices@.take(i as int)),
        decreases indices.len() - i,
    {
        let index: u32 = indices[i];
        let ghost before = r@;
        assert(indices@.take(i + 1).drop_last() =~= indices@.take(i as int));
        if (index as usize) < paths.len() {
            r.push((index, paths[index as usize].clone()));
            assert(indexed_paths(r@) =~= indexed_paths(before).push(
                (index, paths@[index as int]@),
            ));
        }
        i = i + 1;
    }
    assert(indices@.take(i as int) =~= indices@);
    r
}

fn count_up_to(count: u64) -> (r: Vec<u32>)
    requires
        count <= MAX_INDICES,
    ensures
        r@ == all_indices(count as nat),
{
    let mut r: Vec<u32> = Vec::new();
    let mut i: u64 = 0;
    while i < count
        invariant
            i <= count <= MAX_INDICES,
            r@ == all_indices(i as nat),
        decreases count - i,
    {
        r.push(i as u32);
        i = i + 1;
        assert(r@ =~= all_indices(i as nat));
    }
    r
}

fn none_kept(count: usize) -> (r: Vec<bool>)
    ensures
        r@ == Seq::new(count as nat, |i: int| false),
{
    let mut r: Vec<bool> = Vec::new();
    let mut i: usize = 0;
    while i < count
        invariant
            i <= count,
            r@ == Seq::new(i as nat, |i: int| false),
        decreases count - i,
    {
        r.push(false);
        i = i + 1;
        assert(r@ =~= Seq::new(i as nat, |i: int| false));
    }
    r
}

fn same_digest(a: &[u8; 32], b: &[u8; 32]) -> (r: bool)
    ensures
        r == (a@ == b@),
{
    let mut i: usize = 0;
    while i < 32
        invariant
            i <= 32,
            forall|j: int| 0 <= j < i ==> a@[j] == b@[j],
        decreases 32 - i,
    {
        if a[i] != b[i] {
            return false;
        }
        i = i + 1;
    }
    assert(a@ =~= b@);
    true
}

impl IncomingTransfer {
    fn write_actions(&self, chunk: FileChunk) -> (r: Vec<FileAction>)
        ensures
            action_views(r@) == self@.write_actions(chunk@),
    {
        match &self.current {
            Some(part) => if part.hasher.is_some() && part.written == chunk.offset {
                list_of(FileAction::WritePart { chunk })
            } else {
                no_actions()
            },
            None => no_actions(),
        }
    }

    fn is_whole(&self) -> (r: bool)
        ensures
            r == self@.is_whole(),
    {
        let mut i: usize = 0;
        while i < self.kept.len()
            invariant
                i <= self.kept.len(),
                forall|j: int| 0 <= j < i ==> self.kept@[j],
            decreases self.kept.len() - i,
        {
            if !self.kept[i] {
                assert(!self@.kept[i as int]);
                return false;
            }
            i = i + 1;
        }
        true
    }

    fn ending(&self) -> (r: FileAction)
        ensures
            r@ == self@.ending(),
    {
        if self.is_whole() {
            FileAction::Publish { paths: self.target_paths() }
        } else {
            FileAction::Close
        }
    }

    fn target_paths(&self) -> (r: Vec<Vec<String>>)
        ensures
            all_components(r@) == self@.target_paths(),
    {
        let mut r: Vec<Vec<String>> = Vec::new();
        let mut i: usize = 0;
        while i < self.names.len()
            invariant
                i <= self.names.len(),
                r@.len() == i,
                forall|j: int|
                    0 <= j < i ==> components((#[trigger] r@[j])@) == target_path(
                        self.id,
                        self.names@[j]@,
                    ),
            decreases self.names.len() - i,
        {
            r.push(to_target_path(self.id, &self.names[i]));
            i = i + 1;
        }
        assert(all_components(r@) =~= self@.target_paths());
        r
    }
}

/// The names that the files of an offer get here.
fn safe_names(files: &Vec<FileMetadata>) -> (r: Vec<String>)
    ensures
        are_safe_forms_of(file_views(files@), texts(r@)),
{
    let mut r: Vec<String> = Vec::new();
    let mut i: usize = 0;
    while i < files.len()
        invariant
            i <= files.len(),
            r@.len() == i,
            forall|j: int|
                0 <= j < i ==> is_safe_form_of(files@[j].name@, (#[trigger] r@[j])@)
                    && is_one_component(r@[j]@),
        decreases files.len() - i,
    {
        r.push(safe_name(&files[i].name));
        i = i + 1;
    }
    r
}

/// Whether `names` are what is left of the names of `files`.
pub open spec fn are_safe_forms_of(files: Seq<FileView>, names: Seq<Seq<char>>) -> bool {
    &&& names.len() == files.len()
    &&& forall|i: int|
        0 <= i < names.len() ==> is_safe_form_of(files[i].name, #[trigger] names[i])
            && is_one_component(names[i])
}

impl FileTransfers {
    /// The transfers in both directions are in order.
    pub open spec fn well_formed(&self) -> bool {
        self@.is_valid()
    }

    /// No transfer in either direction.
    pub fn new() -> (r: FileTransfers)
        ensures
            r.well_formed(),
            r@ == (TransfersView { outgoing: None, incoming: None }),
    {
        FileTransfers { outgoing: None, incoming: None }
    }

    /// Takes up a message of a peer.
    pub fn handle_incoming_message(&mut self, msg: ClipboardMessage) -> (r: Vec<FileAction>)
        requires
            old(self).well_formed(),
        ensures
            final(self).well_formed(),
            (final(self)@, action_views(r@)) == old(self)@.after_message(msg@),
    {
        match msg {
            ClipboardMessage::FileOffer { id, files } => list_of(
                FileAction::CreateDir { id, files },
            ),
            ClipboardMessage::FileRequest { id, file_indices } => self.file_request(
                id,
                &file_indices,
            ),
            ClipboardMessage::FileChunk { id, file_index, offset, data } => self.file_chunk(
                FileChunk { id, file_index, offset, data },
            ),
            ClipboardMessage::FileComplete { id, file_index, size, sha256 } => {
                if size == 0 && self.misses(id, file_index) {
                    self.create_empty(FileEnd { id, file_index, sha256 })
                } else {
                    self.file_complete(id, file_index, size, &sha256)
                }
            },
            ClipboardMessage::Error { id, code } => self.peer_error(id, code),
            ClipboardMessage::FileChunkAck { id, file_index, offset } => {
                match &self.outgoing {
                    Some(t) => if t.id == id && t.sending {
                        list_of(FileAction::DeliverAck { id, file_index, offset })
                    } else {
                        no_actions()
                    },
                    None => no_actions(),
                }
            },
            _ => no_actions(),
        }
    }

    fn file_request(&mut self, id: u64, file_indices: &Vec<u32>) -> (r: Vec<FileAction>)
        requires
            old(self).well_formed(),
        ensures
            final(self).well_formed(),
            (final(self)@, action_views(r@)) == old(self)@.after_message(
                MessageView::FileRequest { id, file_indices: file_indices@ },
            ),
    {
        match self.outgoing.take() {
            Some(mut t) => {
                if t.id != id {
                    self.outgoing = Some(t);
                    return no_actions();
                }
                let queue = choose_requested(&t.paths, file_indices);
                t.sending = true;
                self.outgoing = Some(t);
                list_of(FileAction::StartSending { id, queue })
            },
            None => no_actions(),
        }
    }

    fn file_chunk(&self, chunk: FileChunk) -> (r: Vec<FileAction>)
        requires
            self.well_formed(),
        ensures
            (self@, action_views(r@)) == self@.after_message(
                MessageView::FileChunk {
                    id: chunk.id,
                    file_index: chunk.file_index,
                    offset: chunk.offset,
                    data: chunk.data@,
                },
            ),
    {
        match &self.incoming {
            Some(t) => {
                if t.id != chunk.id {
                    return no_actions();
                }
                let is_current = match &t.current {
                    Some(part) => part.index == chunk.file_index,
                    None => false,
                };
                if !is_current && (chunk.file_index as usize) < t.names.len() {
                    let path = to_part_path(chunk.id, &t.names[chunk.file_index as usize]);
                    list_of(FileAction::OpenPart { path, chunk })
                } else {
                    t.write_actions(chunk)
                }
            },
            None => no_actions(),
        }
    }

    fn misses(&self, id: u64, file_index: u32) -> (r: bool)
        requires
            self.well_formed(),
        ensures
            r == (self@.is_receiving(id) && self@.incoming->0.misses(file_index)),
    {
        match &self.incoming {
            Some(t) => {
                if t.id != id || file_index as usize >= t.kept.len() {
                    return false;
                }
                let is_current = match &t.current {
                    Some(part) => part.index == file_index,
                    None => false,
                };
                !is_current && !t.kept[file_index as usize]
            },
            None => false,
        }
    }

    fn create_empty(&self, end: FileEnd) -> (r: Vec<FileAction>)
        requires
            self.well_formed(),
            self@.is_receiving(end.id),
            self@.incoming->0.misses(end.file_index),
        ensures
            (self@, action_views(r@)) == self@.after_message(
                MessageView::FileComplete {
                    id: end.id,
                    file_index: end.file_index,
                    size: 0,
                    sha256: end.sha256@,
                },
            ),
    {
        match &self.incoming {
            Some(t) => {
                let path = to_part_path(end.id, &t.names[end.file_index as usize]);
                list_of(FileAction::CreateEmpty { path, end })
            },
            None => no_actions(),
        }
    }

    fn file_complete(&mut self, id: u64, file_index: u32, size: u64, sha256: &[u8; 32]) -> (r: Vec<
        FileAction,
    >)
        requires
            old(self).well_formed(),
            !(size == 0 && old(self)@.is_receiving(id) && old(self)@.incoming->0.misses(
                file_index,
            )),
        ensures
            final(self).well_formed(),
            (final(self)@, action_views(r@)) == old(self)@.after_message(
                MessageView::FileComplete { id, file_index, size, sha256: sha256@ },
            ),
    {
        let mut t = match self.incoming.take() {
            Some(t) => t,
            None => return no_actions(),
        };
        let mut part = match t.current.take() {
            Some(part) => part,
            None => {
                self.incoming = Some(t);
                return no_actions();
            },
        };
        if t.id != id || part.index != file_index {
            t.current = Some(part);
            self.incoming = Some(t);
            return no_actions();
        }
        let mut actions = no_actions();
        if part.written == size {
            if let Some(hasher) = part.hasher.take() {
                let digest = finish_hasher(hasher);
                let name = &t.names[file_index as usize];
                let path = to_part_path(id, name);
                if same_digest(&digest, sha256) {
                    let target = to_target_path(id, name);
                    t.kept.set(file_index as usize, true);
                    push_action(&mut actions, FileAction::Commit { part: path, target });
                } else {
                    push_action(&mut actions, FileAction::Discard { part: path });
                }
            }
        }
        t.current = Some(part);
        if file_index as usize == t.names.len() - 1 {
            push_action(&mut actions, t.ending());
        } else {
            self.incoming = Some(t);
        }
        actions
    }

    fn peer_error(&mut self, id: u64, code: u16) -> (r: Vec<FileAction>)
        requires
            old(self).well_formed(),
        ensures
            final(self).well_formed(),
            (final(self)@, action_views(r@)) == old(self)@.after_message(
                MessageView::Error { id, code },
            ),
    {
        let mut actions = no_actions();
        let receiving = match &self.incoming {
            Some(t) => t.id == id,
            None => false,
        };
        if receiving {
            push_action(&mut actions, FileAction::RemoveDir { id });
            self.incoming = None;
        }
        let offering = match &self.outgoing {
            Some(t) => t.id == id,
            None => false,
        };
        if offering {
            push_action(&mut actions, FileAction::StopSending);
            self.outgoing = None;
        }
        assert(action_views(actions@) =~= old(self)@.after_message(
            MessageView::Error { id, code },
        ).1);
        actions
    }

    /// Accepts the offer `id`, whose files get the names `names` here.
    pub fn accept(&mut self, id: u64, files: Vec<FileMetadata>, names: Vec<String>) -> (r: Vec<
        FileAction,
    >)
        requires
            old(self).well_formed(),
            names@.len() == files@.len(),
            forall|i: int| 0 <= i < names@.len() ==> is_one_component((#[trigger] names@[i])@),
        ensures
            final(self).well_formed(),
            (final(self)@, action_views(r@)) == old(self)@.after_accept(
                id,
                file_views(files@),
                texts(names@),
            ),
    {
        let count: u64 = if files.len() as u64 <= MAX_INDICES {
            files.len() as u64
        } else {
            MAX_INDICES
        };
        let kept = none_kept(files.len());
        self.incoming = Some(IncomingTransfer { id, metadata: files, names, kept, current: None });
        list_of(
            FileAction::Send(
                ClipboardMessage::FileRequest { id, file_indices: count_up_to(count) },
            ),
        )
    }

    /// Takes up whether the directory of the offer `id` could be made. If it
    /// could not, the offer is forgotten.
    pub fn dir_created(&mut self, id: u64, files: Vec<FileMetadata>, ok: bool) -> (r: Vec<
        FileAction,
    >)
        requires
            old(self).well_formed(),
        ensures
            final(self).well_formed(),
            !ok ==> final(self)@ == old(self)@ && r@.len() == 0,
            ok ==> exists|names: Seq<Seq<char>>| #[trigger]
                are_safe_forms_of(file_views(files@), names) && (
                final(self)@,
                action_views(r@),
                ) == old(self)@.after_accept(id, file_views(files@), names),
    {
        if !ok {
            return Vec::new();
        }
        let names = safe_names(&files);
        assert forall|i: int| 0 <= i < names@.len() implies is_one_component(
            (#[trigger] names@[i])@,
        ) by {
            assert(texts(names@)[i] == names@[i]@);
        }
        self.accept(id, files, names)
    }

    /// Takes up whether the file of `chunk` could be opened.
    pub fn part_opened(&mut self, chunk: FileChunk, ok: bool) -> (r: Vec<FileAction>)
        requires
            old(self).well_formed(),
        ensures
            final(self).well_formed(),
            (final(self)@, action_views(r@)) == old(self)@.after_open(chunk@, ok),
    {
        match self.incoming.take() {
            Some(mut t) => {
                if t.id != chunk.id || chunk.file_index as usize >= t.names.len() {
                    self.incoming = Some(t);
                    return no_actions();
                }
                if ok {
                    t.current = Some(
                        PartFile {
                            index: chunk.file_index,
                            written: 0,
                            hasher: Some(new_hasher()),
                        },
                    );
                }
                let actions = t.write_actions(chunk);
                self.incoming = Some(t);
                actions
            },
            None => no_actions(),
        }
    }

    /// Takes up whether an empty file could be opened for a file that has ended
    /// without any content.
    pub fn empty_created(&mut self, end: FileEnd, ok: bool) -> (r: Vec<FileAction>)
        requires
            old(self).well_formed(),
        ensures
            final(self).well_formed(),
            (final(self)@, action_views(r@)) == old(self)@.after_empty(end@, ok),
    {
        if !ok || !self.misses(end.id, end.file_index) {
            return no_actions();
        }
        match self.incoming.take() {
            Some(mut t) => {
                t.current = Some(
                    PartFile { index: end.file_index, written: 0, hasher: Some(new_hasher()) },
                );
                self.incoming = Some(t);
                self.file_complete(end.id, end.file_index, 0, &end.sha256)
            },
            None => no_actions(),
        }
    }

    /// Whether the open file can take `len` more bytes.
    pub fn has_room_for(&self, len: usize) -> (r: bool)
        requires
            self.well_formed(),
        ensures
            r == self@.has_room_for(len as nat),
    {
        match &self.incoming {
            Some(t) => match &t.current {
                Some(part) => len as u64 <= MAX_HASHED - part.written,
                None => true,
            },
            None => true,
        }
    }

    /// Takes up whether `chunk` could be written to the open file.
    pub fn part_written(&mut self, chunk: &FileChunk, ok: bool) -> (r: Vec<FileAction>)
        requires
            old(self).well_formed(),
            old(self)@.has_room_for(chunk.data@.len()),
        ensures
            final(self).well_formed(),
            (final(self)@, action_views(r@)) == old(self)@.after_write(chunk@, ok),
    {
        if !ok {
            return no_actions();
        }
        let mut t = match self.incoming.take() {
            Some(t) => t,
            None => return no_actions(),
        };
        let mut part = match t.current.take() {
            Some(part) => part,
            None => {
                self.incoming = Some(t);
                return no_actions();
            },
        };
        let mut actions = no_actions();
        if t.id == chunk.id && part.written == chunk.offset {
            if let Some(mut hasher) = part.hasher.take() {
                update_hasher(&mut hasher, chunk.data.as_slice());
                part.hasher = Some(hasher);
                part.written = part.written + chunk.data.len() as u64;
                push_action(
                    &mut actions,
                    FileAction::Send(
                        ClipboardMessage::FileChunkAck {
                            id: chunk.id,
                            file_index: chunk.file_index,
                            offset: chunk.offset,
                        },
                    ),
                );
            }
        }
        t.current = Some(part);
        self.incoming = Some(t);
        actions
    }

    /// Offers the chosen files to the peers under the identifier `id`, unless
    /// there are none.
    pub fn handle_local_clipboard_change(
        &mut self,
        id: u64,
        selection: FileSelection,
    ) -> (r: Vec<FileAction>)
        requires
            old(self).well_formed(),
            selection.well_formed(),
        ensures
            final(self).well_formed(),
            (final(self)@, action_views(r@)) == old(self)@.after_local_files(
                id,
                selection@.paths,
                selection@.files,
            ),
    {
        let (paths, metadata) = selection.into_parts();
        if metadata.len() == 0 {
            return no_actions();
        }
        let mut actions = no_actions();
        if self.outgoing.is_some() {
            push_action(&mut actions, FileAction::StopSending);
        }
        let files = clone_files(&metadata);
        self.outgoing = Some(OutgoingTransfer { id, paths, metadata, sending: false });
        push_action(&mut actions, FileAction::Send(ClipboardMessage::FileOffer { id, files }));
        actions
    }

    /// What to do when a peer connects: the current offer is repeated.
    pub fn peer_connected(&self) -> (r: Vec<FileAction>)
        requires
            self.well_formed(),
        ensures
            action_views(r@) == self@.connect_actions(),
    {
        match &self.outgoing {
            Some(t) => list_of(
                FileAction::Send(
                    ClipboardMessage::FileOffer { id: t.id, files: clone_files(&t.metadata) },
                ),
            ),
            None => no_actions(),
        }
    }
}

} // verus!
