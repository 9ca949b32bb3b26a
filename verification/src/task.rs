//! The clipboard task: offers, requests and the data that answers them.
//!
//! A [`ClipboardTask`] is told of the messages of the peers and of changes of
//! the local clipboard, and answers with what to send and what to do with the
//! local clipboard.

use vstd::prelude::*;

use crate::protocol::{message_view, ClipboardMessage, MessageView};
use crate::text::{clone_texts, contains_text, texts};

verus! {

/// How much data one offer may bring: 250 MiB.
pub const MAX_CLIPBOARD_BUNDLE_SIZE: usize = 250 * 1024 * 1024;

/// How much data one representation may bring: 100 MiB.
pub const MAX_CLIPBOARD_ITEM_SIZE: usize = 100 * 1024 * 1024;

/// One representation of what is on the clipboard.
#[derive(Debug, Clone, PartialEq, Eq)]
pub struct ClipboardItem {
    pub mime_type: String,
    pub data: Vec<u8>,
}

/// What a [`ClipboardItem`] holds.
#[verifier::ext_equal]
pub struct ItemView {
    pub mime_type: Seq<char>,
    pub data: Seq<u8>,
}

impl View for ClipboardItem {
    type V = ItemView;

    open spec fn view(&self) -> ItemView {
        ItemView { mime_type: self.mime_type@, data: self.data@ }
    }
}

/// What several representations hold.
pub open spec fn item_views(items: Seq<ClipboardItem>) -> Seq<ItemView> {
    items.map_values(|i: ClipboardItem| i@)
}

/// The MIME types of several representations.
pub open spec fn item_types(items: Seq<ItemView>) -> Seq<Seq<char>> {
    items.map_values(|i: ItemView| i.mime_type)
}

/// How much data several representations bring.
pub open spec fn bundle_size(items: Seq<ItemView>) -> nat
    decreases items.len(),
{
    if items.len() == 0 {
        0
    } else {
        bundle_size(items.drop_last()) + items.last().data.len()
    }
}

/// What the local clipboard can do.
#[derive(Debug, Clone, PartialEq, Eq)]
pub struct PortalInfo {
    /// The MIME types that it takes.
    pub supported_mime_types: Vec<String>,
    /// Whether offered data is to be requested at once.
    pub eager_fetch: bool,
}

/// What a [`PortalInfo`] says.
#[verifier::ext_equal]
pub struct PortalView {
    pub supported: Seq<Seq<char>>,
    pub eager_fetch: bool,
}

impl View for PortalInfo {
    type V = PortalView;

    open spec fn view(&self) -> PortalView {
        PortalView { supported: texts(self.supported_mime_types@), eager_fetch: self.eager_fetch }
    }
}

/// The MIME types that a clipboard takes unless it says otherwise.
pub fn default_supported_mime_types() -> (r: Vec<String>)
    ensures
        texts(r@) == seq!["text/plain"@, "text/html"@, "image/png"@, "image/jpeg"@],
{
    let r = vec![
        "text/plain".to_string(),
        "text/html".to_string(),
        "image/png".to_string(),
        "image/jpeg".to_string(),
    ];
    assert(texts(r@) =~= seq!["text/plain"@, "text/html"@, "image/png"@, "image/jpeg"@]);
    r
}

/// Something to do for the clipboard.
#[derive(Debug, Clone, PartialEq, Eq)]
pub enum TaskAction {
    /// Send this message to the peers.
    Send(ClipboardMessage),
    /// Announce on the local clipboard that this MIME type can be had.
    SetSelection(String),
    /// Read this MIME type off the local clipboard and send
    /// [`read_reply`] of the outcome.
    ReadSelection { id: u64, mime_type: String },
    /// Put these representations on the local clipboard.
    WriteSelection(Vec<ClipboardItem>),
}

/// What a [`TaskAction`] asks for.
#[verifier::ext_equal]
pub enum TaskActionView {
    Send(MessageView),
    SetSelection(Seq<char>),
    ReadSelection { id: u64, mime_type: Seq<char> },
    WriteSelection(Seq<ItemView>),
}

impl View for TaskAction {
    type V = TaskActionView;

    open spec fn view(&self) -> TaskActionView {
        match self {
            TaskAction::Send(msg) => TaskActionView::Send(msg@),
            TaskAction::SetSelection(mime_type) => TaskActionView::SetSelection(mime_type@),
            TaskAction::ReadSelection { id, mime_type } => TaskActionView::ReadSelection {
                id: *id,
                mime_type: mime_type@,
            },
            TaskAction::WriteSelection(items) => TaskActionView::WriteSelection(
                item_views(items@),
            ),
        }
    }
}

/// What several actions ask for.
pub open spec fn task_action_views(actions: Seq<TaskAction>) -> Seq<TaskActionView> {
    actions.map_values(|a: TaskAction| a@)
}

struct ClipboardTransfer {
    id: u64,
    expected_mimes: Vec<String>,
    received_items: Vec<ClipboardItem>,
    total_bytes: usize,
}

/// The state of the clipboard between this machine and its peers.
pub struct ClipboardTask {
    portal: Option<PortalInfo>,
    current_offer_id: u64,
    next_offer_id: u64,
    active_transfer: Option<ClipboardTransfer>,
}

/// An offer of a peer whose data is awaited.
#[verifier::ext_equal]
pub struct TransferView {
    pub id: u64,
    /// The MIME types that are awaited, each once.
    pub expected: Seq<Seq<char>>,
    /// What has arrived.
    pub items: Seq<ItemView>,
}

/// What a [`ClipboardTask`] knows.
#[verifier::ext_equal]
pub struct TaskView {
    /// The local clipboard, if there is one.
    pub portal: Option<PortalView>,
    /// The offer that is current, local or not.
    pub current_offer_id: u64,
    /// The identifier of the next local offer.
    pub next_offer_id: u64,
    pub transfer: Option<TransferView>,
}

impl View for ClipboardTransfer {
    type V = TransferView;

    closed spec fn view(&self) -> TransferView {
        TransferView {
            id: self.id,
            expected: texts(self.expected_mimes@),
            items: item_views(self.received_items@),
        }
    }
}

impl View for ClipboardTask {
    type V = TaskView;

    closed spec fn view(&self) -> TaskView {
        TaskView {
            portal: match self.portal {
                Some(p) => Some(p@),
                None => None,
            },
            current_offer_id: self.current_offer_id,
            next_offer_id: self.next_offer_id,
            transfer: match self.active_transfer {
                Some(t) => Some(t@),
                None => None,
            },
        }
    }
}

/// Which of the offered MIME types are requested: the supported ones, each
/// once, in the order of the offer.
pub open spec fn requested_types(offered: Seq<Seq<char>>, supported: Seq<Seq<char>>) -> Seq<
    Seq<char>,
>
    decreases offered.len(),
{
    if offered.len() == 0 {
        seq![]
    } else {
        let before = requested_types(offered.drop_last(), supported);
        if supported.contains(offered.last()) && !before.contains(offered.last()) {
            before.push(offered.last())
        } else {
            before
        }
    }
}

impl TransferView {
    /// Something is awaited, nothing twice; what has arrived was awaited,
    /// came once and keeps within the limits; and something is missing.
    pub open spec fn is_valid(self) -> bool {
        &&& self.expected.no_duplicates()
        &&& item_types(self.items).no_duplicates()
        &&& forall|i: int|
            0 <= i < self.items.len() ==> self.expected.contains(
                (#[trigger] self.items[i]).mime_type,
            ) && self.items[i].data.len() <= MAX_CLIPBOARD_ITEM_SIZE
        &&& self.items.len() < self.expected.len()
        &&& bundle_size(self.items) <= MAX_CLIPBOARD_BUNDLE_SIZE
    }

    /// Whether this representation is still missing.
    pub open spec fn awaits(self, id: u64, mime_type: Seq<char>) -> bool {
        &&& self.id == id
        &&& self.expected.contains(mime_type)
        &&& !item_types(self.items).contains(mime_type)
    }

    /// Whether another `len` bytes keep within the limits.
    pub open spec fn has_room_for(self, len: nat) -> bool {
        &&& len <= MAX_CLIPBOARD_ITEM_SIZE
        &&& bundle_size(self.items) + len <= MAX_CLIPBOARD_BUNDLE_SIZE
    }
}

impl TaskView {
    /// What is awaited is in order.
    pub open spec fn is_valid(self) -> bool {
        self.transfer matches Some(t) ==> t.is_valid()
    }

    /// The same task with another transfer.
    pub open spec fn with_transfer(self, transfer: Option<TransferView>) -> TaskView {
        TaskView { transfer, ..self }
    }

    /// The state after `msg` was received, and what is done about it. Without
    /// a local clipboard nothing is.
    pub open spec fn after_message(self, msg: MessageView) -> (TaskView, Seq<TaskActionView>) {
        match (self.portal, msg) {
            (Some(portal), MessageView::Offer { id, mime_types }) => {
                let requested = requested_types(mime_types, portal.supported);
                let current = TaskView { current_offer_id: id, ..self };
                if requested.len() == 0 {
                    (current.with_transfer(None), seq![])
                } else {
                    (
                        current.with_transfer(
                            Some(TransferView { id, expected: requested, items: seq![] }),
                        ),
                        (if portal.eager_fetch {
                            seq![
                                TaskActionView::Send(
                                    MessageView::Request { id, mime_types: requested },
                                ),
                            ]
                        } else {
                            seq![]
                        }) + requested.map_values(
                            |t: Seq<char>| TaskActionView::SetSelection(t),
                        ),
                    )
                }
            },
            (Some(_), MessageView::Request { id, mime_types }) => (
                self,
                if id != self.current_offer_id {
                    seq![TaskActionView::Send(MessageView::Error { id, code: 404 })]
                } else {
                    mime_types.map_values(
                        |t: Seq<char>| TaskActionView::ReadSelection { id, mime_type: t },
                    )
                },
            ),
            (Some(_), MessageView::Data { id, mime_type, data }) => match self.transfer {
                Some(t) if t.awaits(id, mime_type) => {
                    let items = t.items.push(ItemView { mime_type, data });
                    if !t.has_room_for(data.len()) {
                        (self.with_transfer(None), seq![])
                    } else if items.len() == t.expected.len() {
                        (self.with_transfer(None), seq![TaskActionView::WriteSelection(items)])
                    } else {
                        (self.with_transfer(Some(TransferView { items, ..t })), seq![])
                    }
                },
                _ => (self, seq![]),
            },
            (Some(_), MessageView::Error { id, code }) => match self.transfer {
                Some(t) if t.id == id => (self.with_transfer(None), seq![]),
                _ => (self, seq![]),
            },
            _ => (self, seq![]),
        }
    }

    /// What an offer lists, if the local clipboard holds `available`.
    pub open spec fn offered_types(self, available: Option<Seq<Seq<char>>>) -> Seq<Seq<char>> {
        match (self.portal, available) {
            (Some(_), Some(types)) => types,
            _ => seq![],
        }
    }

    /// The state after the local clipboard has changed.
    pub open spec fn after_owner_changed(self) -> TaskView {
        TaskView {
            current_offer_id: self.next_offer_id,
            next_offer_id: (self.next_offer_id + 1) as u64,
            ..self
        }
    }

    /// The offer that a change of the local clipboard causes, if it has
    /// anything to offer.
    pub open spec fn fresh_offer(self, available: Option<Seq<Seq<char>>>) -> Option<MessageView> {
        let mime_types = self.offered_types(available);
        if mime_types.len() == 0 {
            None
        } else {
            Some(MessageView::Offer { id: self.next_offer_id, mime_types })
        }
    }

    /// The offer that a peer gets when it connects, if there has been one.
    pub open spec fn repeated_offer(self, available: Option<Seq<Seq<char>>>) -> Option<
        MessageView,
    > {
        if self.current_offer_id == 0 {
            None
        } else {
            Some(
                MessageView::Offer {
                    id: self.current_offer_id,
                    mime_types: self.offered_types(available),
                },
            )
        }
    }
}

/// What is said in answer to a request, once the local clipboard was read.
pub fn read_reply(id: u64, mime_type: String, read: Result<Vec<u8>, String>) -> (r:
    ClipboardMessage)
    ensures
        r@ == match read {
            Ok(data) => MessageView::Data { id, mime_type: mime_type@, data: data@ },
            Err(_) => MessageView::Error { id, code: 500 },
        },
{
    match read {
        Ok(data) => ClipboardMessage::Data { id, mime_type, data },
        Err(_) => ClipboardMessage::Error { id, code: 500 },
    }
}

/// What is available, if it could be found out.
pub open spec fn available_view(available: Option<Vec<String>>) -> Option<Seq<Seq<char>>> {
    match available {
        Some(types) => Some(texts(types@)),
        None => None,
    }
}

/// No MIME type is requested twice.
pub proof fn lemma_requested_types(offered: Seq<Seq<char>>, supported: Seq<Seq<char>>)
    ensures
        requested_types(offered, supported).no_duplicates(),
        requested_types(offered, supported).len() <= offered.len(),
    decreases offered.len(),
{
    if offered.len() > 0 {
        lemma_requested_types(offered.drop_last(), supported);
    }
}

fn choose_types(offered: &Vec<String>, supported: &Vec<String>) -> (r: Vec<String>)
    ensures
        texts(r@) == requested_types(texts(offered@), texts(supported@)),
{
    let mut r: Vec<String> = Vec::new();
    let mut i: usize = 0;
    let ghost view = texts(offered@);
    assert(texts(r@) =~= requested_types(view.take(0), texts(supported@)));
    while i < offered.len()
        invariant
            i <= offered.len(),
            view == texts(offered@),
            texts(r@) == requested_types(view.take(i as int), texts(supported@)),
        decreases offered.len() - i,
    {
        let mime = &offered[i];
        let ghost before = r@;
        assert(view.take(i + 1).drop_last() =~= view.take(i as int));
        assert(view.take(i + 1).last() == mime@);
        if contains_text(supported, mime.as_str()) && !contains_text(&r, mime.as_str()) {
            r.push(mime.clone());
            assert(texts(r@) =~= texts(before).push(mime@));
        }
        i = i + 1;
    }
    assert(view.take(i as int) =~= view);
    r
}

impl ClipboardTransfer {
    spec fn well_formed(&self) -> bool {
        &&& self@.is_valid()
        &&& self.total_bytes == bundle_size(self@.items)
    }

    fn has_received(&self, mime_type: &String) -> (r: bool)
        ensures
            r == item_types(self@.items).contains(mime_type@),
    {
        let mut i: usize = 0;
        while i < self.received_items.len()
            invariant
                i <= self.received_items.len(),
                forall|j: int| 0 <= j < i ==> self.received_items@[j].mime_type@ != mime_type@,
            decreases self.received_items.len() - i,
        {
            if self.received_items[i].mime_type == *mime_type {
                assert(item_types(self@.items)[i as int] == mime_type@);
                return true;
            }
            i = i + 1;
        }
        assert forall|j: int| 0 <= j < item_types(self@.items).len() implies item_types(
            self@.items,
        )[j] != mime_type@ by {
            assert(item_types(self@.items)[j] == self.received_items@[j].mime_type@);
        }
        false
    }
}

impl ClipboardTask {
    /// What is awaited is in order, and its size is known.
    pub closed spec fn well_formed(&self) -> bool {
        self.active_transfer matches Some(t) ==> t.well_formed()
    }

    /// Starts without a local clipboard. The identifiers of local offers
    /// begin at `first_offer_id`.
    pub fn new(first_offer_id: u64) -> (r: ClipboardTask)
        ensures
            r.well_formed(),
            r@ == (TaskView {
                portal: None,
                current_offer_id: 0,
                next_offer_id: first_offer_id,
                transfer: None,
            }),
    {
        ClipboardTask {
            portal: None,
            current_offer_id: 0,
            next_offer_id: first_offer_id,
            active_transfer: None,
        }
    }

    /// Takes up that the session has changed, and with it the local
    /// clipboard. What was awaited is given up.
    pub fn session_changed(&mut self, portal: Option<PortalInfo>)
        requires
            old(self).well_formed(),
        ensures
            final(self).well_formed(),
            final(self)@ == (TaskView {
                portal: match portal {
                    Some(p) => Some(p@),
                    None => None,
                },
                transfer: None,
                ..old(self)@
            }),
    {
        self.portal = portal;
        self.active_transfer = None;
    }

    /// Takes up a message of a peer.
    pub fn handle_incoming_message(&mut self, msg: ClipboardMessage) -> (r: Vec<TaskAction>)
        requires
            old(self).well_formed(),
        ensures
            final(self).well_formed(),
            final(self)@.is_valid(),
            (final(self)@, task_action_views(r@)) == old(self)@.after_message(msg@),
    {
        if self.portal.is_none() {
            let r: Vec<TaskAction> = Vec::new();
            assert(task_action_views(r@) =~= seq![]);
            return r;
        }
        match msg {
            ClipboardMessage::Offer { id, mime_types } => self.handle_offer(id, &mime_types),
            ClipboardMessage::Request { id, mime_types } => self.handle_request(id, &mime_types),
            ClipboardMessage::Data { id, mime_type, data } => self.handle_data(
                id,
                mime_type,
                data,
            ),
            ClipboardMessage::Error { id, .. } => {
                let concerned = match &self.active_transfer {
                    Some(t) => t.id == id,
                    None => false,
                };
                if concerned {
                    self.active_transfer = None;
                }
                let r: Vec<TaskAction> = Vec::new();
                assert(task_action_views(r@) =~= seq![]);
                r
            },
            _ => {
                let r: Vec<TaskAction> = Vec::new();
                assert(task_action_views(r@) =~= seq![]);
                r
            },
        }
    }

    fn handle_offer(&mut self, id: u64, mime_types: &Vec<String>) -> (r: Vec<TaskAction>)
        requires
            old(self).well_formed(),
            old(self)@.portal is Some,
        ensures
            final(self).well_formed(),
            (final(self)@, task_action_views(r@)) == old(self)@.after_message(
                MessageView::Offer { id, mime_types: texts(mime_types@) },
            ),
    {
        self.current_offer_id = id;
        let (requested, eager_fetch) = match &self.portal {
            Some(portal) => (
                choose_types(mime_types, &portal.supported_mime_types),
                portal.eager_fetch,
            ),
            None => (Vec::new(), false),
        };
        proof {
            lemma_requested_types(texts(mime_types@), old(self)@.portal->0.supported);
        }
        let mut actions: Vec<TaskAction> = Vec::new();
        if requested.len() == 0 {
            self.active_transfer = None;
            assert(task_action_views(actions@) =~= seq![]);
            return actions;
        }
        if eager_fetch {
            actions.push(
                TaskAction::Send(
                    ClipboardMessage::Request { id, mime_types: clone_texts(&requested) },
                ),
            );
        }
        let ghost first = task_action_views(actions@);
        let ghost announce = |t: Seq<char>| TaskActionView::SetSelection(t);
        let ghost view = texts(requested@);
        let mut i: usize = 0;
        assert(task_action_views(actions@) =~= first + view.take(0).map_values(announce));
        while i < requested.len()
            invariant
                i <= requested.len(),
                view == texts(requested@),
                announce == (|t: Seq<char>| TaskActionView::SetSelection(t)),
                task_action_views(actions@) == first + view.take(i as int).map_values(announce),
            decreases requested.len() - i,
        {
            let ghost before = actions@;
            actions.push(TaskAction::SetSelection(requested[i].clone()));
            assert(task_action_views(actions@) =~= task_action_views(before).push(
                TaskActionView::SetSelection(view[i as int]),
            ));
            i = i + 1;
            assert(task_action_views(actions@) =~= first + view.take(i as int).map_values(
                announce,
            ));
        }
        assert(view.take(i as int) =~= view);
        let t = ClipboardTransfer {
            id,
            expected_mimes: requested,
            received_items: Vec::new(),
            total_bytes: 0,
        };
        assert(item_types(t@.items) =~= seq![]);
        assert(t@.items =~= seq![]);
        self.active_transfer = Some(t);
        assert(task_action_views(actions@) =~= old(self)@.after_message(
            MessageView::Offer { id, mime_types: texts(mime_types@) },
        ).1);
        actions
    }

    fn handle_request(&self, id: u64, mime_types: &Vec<String>) -> (r: Vec<TaskAction>)
        requires
            self@.portal is Some,
        ensures
            (self@, task_action_views(r@)) == self@.after_message(
                MessageView::Request { id, mime_types: texts(mime_types@) },
            ),
    {
        let mut actions: Vec<TaskAction> = Vec::new();
        if id != self.current_offer_id {
            actions.push(TaskAction::Send(ClipboardMessage::Error { id, code: 404 }));
            assert(task_action_views(actions@) =~= seq![
                TaskActionView::Send(MessageView::Error { id, code: 404 }),
            ]);
            return actions;
        }
        let mut i: usize = 0;
        while i < mime_types.len()
            invariant
                i <= mime_types.len(),
                actions@.len() == i,
                forall|j: int|
                    0 <= j < i ==> (#[trigger] actions@[j])@ == (TaskActionView::ReadSelection {
                        id,
                        mime_type: mime_types@[j]@,
                    }),
            decreases mime_types.len() - i,
        {
            actions.push(TaskAction::ReadSelection { id, mime_type: mime_types[i].clone() });
            i = i + 1;
        }
        assert(task_action_views(actions@) =~= self@.after_message(
            MessageView::Request { id, mime_types: texts(mime_types@) },
        ).1);
        actions
    }

    fn handle_data(&mut self, id: u64, mime_type: String, data: Vec<u8>) -> (r: Vec<TaskAction>)
        requires
            old(self).well_formed(),
            old(self)@.portal is Some,
        ensures
            final(self).well_formed(),
            (final(self)@, task_action_views(r@)) == old(self)@.after_message(
                MessageView::Data { id, mime_type: mime_type@, data: data@ },
            ),
    {
        let mut actions: Vec<TaskAction> = Vec::new();
        assert(task_action_views(actions@) =~= seq![]);
        let mut t = match self.active_transfer.take() {
            Some(t) => t,
            None => return actions,
        };
        if t.id != id || !contains_text(&t.expected_mimes, mime_type.as_str()) || t.has_received(
            &mime_type,
        ) {
            self.active_transfer = Some(t);
            return actions;
        }
        if data.len() > MAX_CLIPBOARD_ITEM_SIZE {
            return actions;
        }
        if t.total_bytes + data.len() > MAX_CLIPBOARD_BUNDLE_SIZE {
            return actions;
        }
        let ghost before = t@;
        let ghost item = ItemView { mime_type: mime_type@, data: data@ };
        t.total_bytes = t.total_bytes + data.len();
        t.received_items.push(ClipboardItem { mime_type, data });
        proof {
            assert(t@.items =~= before.items.push(item));
            assert(t@.items.drop_last() =~= before.items);
            assert(item_types(t@.items) =~= item_types(before.items).push(item.mime_type));
            assert forall|i: int| 0 <= i < t@.items.len() implies t@.expected.contains(
                (#[trigger] t@.items[i]).mime_type,
            ) && t@.items[i].data.len() <= MAX_CLIPBOARD_ITEM_SIZE by {
                if i < before.items.len() {
                    assert(t@.items[i] == before.items[i]);
                }
            }
        }
        if t.received_items.len() == t.expected_mimes.len() {
            actions.push(TaskAction::WriteSelection(t.received_items));
            assert(task_action_views(actions@) =~= seq![
                TaskActionView::WriteSelection(before.items.push(item)),
            ]);
        } else {
            self.active_transfer = Some(t);
        }
        actions
    }

    /// Takes up that the local clipboard has changed and now holds
    /// `available`: the change gets an identifier and is offered to the
    /// peers, unless nothing is there to be offered.
    pub fn handle_owner_changed(&mut self, available: Option<Vec<String>>) -> (r: Option<
        ClipboardMessage,
    >)
        requires
            old(self).well_formed(),
            old(self)@.next_offer_id < u64::MAX,
        ensures
            final(self).well_formed(),
            final(self)@ == old(self)@.after_owner_changed(),
            message_view(r) == old(self)@.fresh_offer(available_view(available)),
    {
        let id: u64 = self.next_offer_id;
        self.next_offer_id = id + 1;
        self.current_offer_id = id;
        let mime_types = self.generate_offer_mime_types(available);
        assert(texts(mime_types@).len() == mime_types@.len());
        if mime_types.len() == 0 {
            None
        } else {
            Some(ClipboardMessage::Offer { id, mime_types })
        }
    }

    /// What to send to a peer that has just connected: the current offer, if
    /// there has been one.
    pub fn handle_peer_connected(&self, available: Option<Vec<String>>) -> (r: Option<
        ClipboardMessage,
    >)
        ensures
            message_view(r) == self@.repeated_offer(available_view(available)),
    {
        if self.current_offer_id > 0 {
            let mime_types = self.generate_offer_mime_types(available);
            Some(ClipboardMessage::Offer { id: self.current_offer_id, mime_types })
        } else {
            None
        }
    }

    /// What to send when a local application asks for the contents of the
    /// clipboard: a request for all that is awaited, or for plain text.
    pub fn handle_transfer(&self) -> (r: ClipboardMessage)
        ensures
            r@ == match self@.transfer {
                Some(t) => MessageView::Request { id: t.id, mime_types: t.expected },
                None => MessageView::Request {
                    id: self@.current_offer_id,
                    mime_types: seq!["text/plain"@],
                },
            },
    {
        match &self.active_transfer {
            Some(t) => ClipboardMessage::Request {
                id: t.id,
                mime_types: clone_texts(&t.expected_mimes),
            },
            None => {
                let mime_types = vec!["text/plain".to_string()];
                assert(texts(mime_types@) =~= seq!["text/plain"@]);
                ClipboardMessage::Request { id: self.current_offer_id, mime_types }
            },
        }
    }

    fn generate_offer_mime_types(&self, available: Option<Vec<String>>) -> (r: Vec<String>)
        ensures
            texts(r@) == self@.offered_types(available_view(available)),
    {
        if self.portal.is_some() {
            if let Some(types) = available {
                return types;
            }
        }
        let r: Vec<String> = Vec::new();
        assert(texts(r@) =~= seq![]);
        r
    }
}

/// What is put on the local clipboard is one representation for each MIME
/// type that was requested, and nothing else.
pub proof fn law_bundle_is_complete(task: TaskView, msg: MessageView, i: int)
    requires
        task.is_valid(),
        0 <= i < task.after_message(msg).1.len(),
        task.after_message(msg).1[i] is WriteSelection,
    ensures
        ({
            let items = task.after_message(msg).1[i]->WriteSelection_0;
            let expected = task.transfer->0.expected;
            &&& task.transfer is Some
            &&& item_types(items).no_duplicates()
            &&& item_types(items).to_set() == expected.to_set()
            &&& bundle_size(items) <= MAX_CLIPBOARD_BUNDLE_SIZE
        }),
{
    let items = task.after_message(msg).1[i]->WriteSelection_0;
    let t = task.transfer->0;
    let types = item_types(items);
    assert(types =~= item_types(t.items).push(items.last().mime_type));
    assert(items.drop_last() =~= t.items);
    assert forall|m: Seq<char>| types.to_set().contains(m) implies t.expected.to_set().contains(
        m,
    ) by {
        let j = choose|j: int| 0 <= j < types.len() && types[j] == m;
        if j < t.items.len() {
            assert(t.expected.contains(t.items[j].mime_type));
        }
    }
    types.unique_seq_to_set();
    t.expected.unique_seq_to_set();
    vstd::set_lib::lemma_subset_equality(types.to_set(), t.expected.to_set());
}

/// A peer that connects after a change of the local clipboard is sent the
/// very offer that the change caused.
pub proof fn law_reconnect_repeats_the_offer(task: TaskView, available: Option<Seq<Seq<char>>>)
    requires
        task.next_offer_id > 0,
        task.offered_types(available).len() > 0,
    ensures
        task.after_owner_changed().repeated_offer(available) == task.fresh_offer(available),
{
}

/// Every change of the local clipboard gets an identifier of its own, above
/// all that came before.
pub proof fn law_offer_ids_increase(task: TaskView)
    requires
        task.next_offer_id < u64::MAX,
    ensures
        task.after_owner_changed().current_offer_id == task.next_offer_id,
        task.after_owner_changed().next_offer_id > task.after_owner_changed().current_offer_id,
{
}

/// A request for an offer that is no longer current is answered with an
/// error, and with nothing else.
pub proof fn law_superseded_request_is_refused(task: TaskView, id: u64, mime_types: Seq<Seq<char>>)
    requires
        task.portal is Some,
        id != task.current_offer_id,
    ensures
        task.after_message(MessageView::Request { id, mime_types }) == (
            task,
            seq![TaskActionView::Send(MessageView::Error { id, code: 404 })],
        ),
{
}

/// Data that is not awaited changes nothing: data of another offer, of a MIME
/// type that was not requested, or of one that has already arrived.
pub proof fn law_stale_data_is_dropped(
    task: TaskView,
    id: u64,
    mime_type: Seq<char>,
    data: Seq<u8>,
)
    requires
        task.transfer matches Some(t) ==> !t.awaits(id, mime_type),
    ensures
        task.after_message(MessageView::Data { id, mime_type, data }) == (
            task,
            Seq::<TaskActionView>::empty(),
        ),
{
}

/// An offer of one supported MIME type and the data for it put that data on
/// the local clipboard.
pub proof fn law_offered_data_arrives(
    task: TaskView,
    id: u64,
    mime_type: Seq<char>,
    data: Seq<u8>,
)
    requires
        task.portal matches Some(portal) && portal.supported.contains(mime_type),
        data.len() <= MAX_CLIPBOARD_ITEM_SIZE,
    ensures
        ({
            let offered = task.after_message(
                MessageView::Offer { id, mime_types: seq![mime_type] },
            ).0;
            let (after, actions) = offered.after_message(
                MessageView::Data { id, mime_type, data },
            );
            &&& actions == seq![
                TaskActionView::WriteSelection(seq![ItemView { mime_type, data }]),
            ]
            &&& after == offered.with_transfer(None)
            &&& after.current_offer_id == id
        }),
{
    let supported = task.portal->0.supported;
    let types = seq![mime_type];
    reveal_with_fuel(requested_types, 2);
    assert(types.drop_last() =~= seq![]);
    assert(requested_types(types, supported) =~= types);
    assert(types.contains(types[0]));
    let offered = task.after_message(MessageView::Offer { id, mime_types: types }).0;
    assert(item_types(offered.transfer->0.items) =~= seq![]);
    assert(seq![].push(ItemView { mime_type, data }) =~= seq![ItemView { mime_type, data }]);
}

} // verus!
