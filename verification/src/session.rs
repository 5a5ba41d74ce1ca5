//! The course of a session, as a machine that is told what the transport did
//! and answers what to do next.
//!
//! A session sends the `sync` request, then the `get_registry` request, and
//! then reads messages, a header and then a body at a time, until the peer
//! closes the stream or the budget of messages is used up. The machine never
//! touches the transport: whoever drives it writes and reads the bytes.

use crate::byte_order::ByteOrder;
use crate::catalog::{EntryModel, InterfaceCatalog};
use crate::dispatch::{dispatch, dispatched, Handled};
use crate::error::WireError;
use crate::objects::{InterfaceTag, ObjectTable, TableModel};
use crate::wire::{
    body_of,
    encode_get_registry,
    encode_sync,
    message_bytes,
    take_body,
    MessageHeader,
    DISPLAY_ID,
    HEADER_LEN,
    WL_DISPLAY_GET_REGISTRY,
    WL_DISPLAY_SYNC,
};
use vstd::prelude::*;

verus! {

/// Why a session is over.
#[derive(Clone, Copy, Debug, PartialEq, Eq, Structural)]
pub enum SessionEnd {
    /// The peer closed the stream between two messages.
    EndOfStream,
    /// As many messages were read as the budget allows.
    BudgetExhausted,
    /// The stream ended inside a message, or a header declared a size below
    /// its own length. What follows on the stream cannot be told apart into
    /// messages any more.
    Broken(WireError),
    /// The transport failed to write or to read.
    TransportError,
    /// The driver reported something that the pending action cannot have
    /// led to.
    UnexpectedEvent,
}

impl SessionEnd {
    /// Whether the session ended in a failure. The end of the stream between
    /// two messages and the end of the budget are no failures.
    pub open spec fn is_failure_spec(&self) -> bool {
        !(*self == SessionEnd::EndOfStream || *self == SessionEnd::BudgetExhausted)
    }

    /// Whether the session ended in a failure. The end of the stream between
    /// two messages and the end of the budget are no failures.
    #[verifier::when_used_as_spec(is_failure_spec)]
    pub fn is_failure(&self) -> (failure: bool)
        ensures
            failure == self.is_failure_spec(),
    {
        match self {
            SessionEnd::EndOfStream => false,
            SessionEnd::BudgetExhausted => false,
            _ => true,
        }
    }
}

/// Where a session stands.
#[derive(Clone, Copy, Debug, PartialEq, Eq, Structural)]
pub enum Phase {
    /// Nothing has been sent.
    Idle,
    /// The `sync` request is on its way; the callback with this id is not
    /// live yet.
    SendingSync(u32),
    /// The `get_registry` request is on its way; the registry with this id
    /// is not live yet.
    SendingGetRegistry(u32),
    /// The next header is awaited.
    AwaitingHeader,
    /// The body that this header declares is awaited.
    AwaitingBody(MessageHeader),
    /// The session is over.
    Finished(SessionEnd),
}

/// What the driver reports.
#[derive(Debug)]
pub enum Event {
    /// The transport is connected.
    Connected,
    /// The bytes of the last `Send` have been written, all of them.
    Sent,
    /// The bytes that the last `Receive` has read: as many as were asked
    /// for, or fewer when the stream ended first.
    Received(Vec<u8>),
    /// The transport failed during the last action.
    Failed,
}

/// What the driver is to do next.
#[derive(Debug)]
pub enum Action {
    /// Write these bytes, all of them.
    Send(Vec<u8>),
    /// Read this many bytes, or up to the end of the stream.
    Receive(usize),
    /// Stop: the session is over.
    Finish(SessionEnd),
}

/// An action and, where a message has just been handled, what became of it.
#[derive(Debug)]
pub struct Step {
    pub action: Action,
    pub handled: Option<Handled>,
}

/// What an event amounts to.
pub enum EventModel {
    Connected,
    Sent,
    Received(Seq<u8>),
    Failed,
}

/// What an action amounts to.
pub enum ActionModel {
    Send(Seq<u8>),
    Receive(nat),
    Finish(SessionEnd),
}

/// What a step amounts to: the session after it, and what it answers.
pub struct StepModel {
    pub next: SessionModel,
    pub action: ActionModel,
    pub handled: Option<Handled>,
}

impl View for Event {
    type V = EventModel;

    open spec fn view(&self) -> EventModel {
        match self {
            Event::Connected => EventModel::Connected,
            Event::Sent => EventModel::Sent,
            Event::Received(bytes) => EventModel::Received(bytes@),
            Event::Failed => EventModel::Failed,
        }
    }
}

impl View for Action {
    type V = ActionModel;

    open spec fn view(&self) -> ActionModel {
        match self {
            Action::Send(bytes) => ActionModel::Send(bytes@),
            Action::Receive(count) => ActionModel::Receive(*count as nat),
            Action::Finish(end) => ActionModel::Finish(*end),
        }
    }
}

/// What a session amounts to.
pub struct SessionModel {
    /// The order of the bytes in every word on the wire.
    pub order: ByteOrder,
    /// The live objects.
    pub objects: TableModel,
    /// The globals announced so far.
    pub catalog: Map<u32, EntryModel>,
    /// Where the session stands.
    pub phase: Phase,
    /// How many more messages may be read.
    pub remaining: u32,
}

impl SessionModel {
    /// A session before anything is sent, with a budget of `budget`
    /// messages.
    pub open spec fn initial(order: ByteOrder, budget: u32) -> SessionModel {
        SessionModel {
            order,
            objects: TableModel::initial(),
            catalog: Map::empty(),
            phase: Phase::Idle,
            remaining: budget,
        }
    }

    /// The table is well formed and has the ids left that the phase still
    /// needs; an id in flight has been handed out; an awaited body belongs
    /// to a well-formed header and to a budget that is not used up.
    pub open spec fn wf(self) -> bool {
        &&& self.objects.wf()
        &&& self.objects.next_id <= u32::MAX
        &&& match self.phase {
            Phase::Idle => self.objects.next_id + 2 <= u32::MAX,
            Phase::SendingSync(id) => self.objects.allocated(id) && self.objects.next_id + 1
                <= u32::MAX,
            Phase::SendingGetRegistry(id) => self.objects.allocated(id),
            Phase::AwaitingHeader => self.remaining > 0,
            Phase::AwaitingBody(header) => header.wf() && self.remaining > 0,
            Phase::Finished(_) => true,
        }
    }

    /// The session comes to its end.
    pub open spec fn stop(self, end: SessionEnd) -> StepModel {
        StepModel {
            next: SessionModel { phase: Phase::Finished(end), ..self },
            action: ActionModel::Finish(end),
            handled: None,
        }
    }

    /// The session turns to the next message: it asks for a header while the
    /// budget lasts, and ends when it is used up.
    pub open spec fn await_next(self, handled: Option<Handled>) -> StepModel {
        if self.remaining == 0 {
            StepModel {
                next: SessionModel { phase: Phase::Finished(SessionEnd::BudgetExhausted), ..self },
                action: ActionModel::Finish(SessionEnd::BudgetExhausted),
                handled,
            }
        } else {
            StepModel {
                next: SessionModel { phase: Phase::AwaitingHeader, ..self },
                action: ActionModel::Receive(8),
                handled,
            }
        }
    }

    /// The transport is connected: a callback id is handed out and the
    /// `sync` request goes out.
    pub open spec fn connected(self) -> StepModel {
        let id = self.objects.next_id as u32;
        StepModel {
            next: SessionModel {
                objects: self.objects.allocate(),
                phase: Phase::SendingSync(id),
                ..self
            },
            action: ActionModel::Send(
                message_bytes(self.order, DISPLAY_ID, WL_DISPLAY_SYNC, Some(id)),
            ),
            handled: None,
        }
    }

    /// The `sync` request is out: its callback becomes live, a registry id
    /// is handed out and the `get_registry` request goes out.
    pub open spec fn sync_sent(self, callback_id: u32) -> StepModel {
        let objects = self.objects.register(callback_id, InterfaceTag::Callback);
        let id = objects.next_id as u32;
        StepModel {
            next: SessionModel {
                objects: objects.allocate(),
                phase: Phase::SendingGetRegistry(id),
                ..self
            },
            action: ActionModel::Send(
                message_bytes(self.order, DISPLAY_ID, WL_DISPLAY_GET_REGISTRY, Some(id)),
            ),
            handled: None,
        }
    }

    /// The `get_registry` request is out: the registry becomes live, and the
    /// session turns to reading.
    pub open spec fn get_registry_sent(self, registry_id: u32) -> StepModel {
        SessionModel {
            objects: self.objects.register(registry_id, InterfaceTag::Registry),
            ..self
        }.await_next(None)
    }

    /// The bytes of a header have arrived, or fewer. No byte at all is the
    /// orderly end of the stream; any other shortfall, and a size below the
    /// header's length, break the session.
    pub open spec fn header_arrived(self, bytes: Seq<u8>) -> StepModel {
        match MessageHeader::from_wire(self.order, bytes) {
            Ok(header) => StepModel {
                next: SessionModel { phase: Phase::AwaitingBody(header), ..self },
                action: ActionModel::Receive(header.body_len_spec()),
                handled: None,
            },
            Err(WireError::ShortRead) => self.stop(SessionEnd::EndOfStream),
            Err(e) => self.stop(SessionEnd::Broken(e)),
        }
    }

    /// The bytes of a body have arrived, or fewer. A whole body is handled
    /// and counted against the budget; a shortfall breaks the session.
    pub open spec fn body_arrived(self, header: MessageHeader, bytes: Seq<u8>) -> StepModel {
        match body_of(header, bytes) {
            Ok(body) => {
                let (catalog, handled) = dispatched(
                    self.objects,
                    self.catalog,
                    header,
                    body,
                    self.order,
                );
                SessionModel {
                    catalog,
                    remaining: (self.remaining - 1) as u32,
                    ..self
                }.await_next(Some(handled))
            },
            Err(e) => self.stop(SessionEnd::Broken(e)),
        }
    }

    /// The session after an event, and what it answers. A session that is
    /// over stays over. A failure of the transport ends any other session;
    /// so does an event that the phase does not wait for.
    pub open spec fn step(self, event: EventModel) -> StepModel {
        match (self.phase, event) {
            (Phase::Finished(end), _) => self.stop(end),
            (_, EventModel::Failed) => self.stop(SessionEnd::TransportError),
            (Phase::Idle, EventModel::Connected) => self.connected(),
            (Phase::SendingSync(id), EventModel::Sent) => self.sync_sent(id),
            (Phase::SendingGetRegistry(id), EventModel::Sent) => self.get_registry_sent(id),
            (Phase::AwaitingHeader, EventModel::Received(bytes)) => self.header_arrived(bytes),
            (Phase::AwaitingBody(header), EventModel::Received(bytes)) => self.body_arrived(
                header,
                bytes,
            ),
            _ => self.stop(SessionEnd::UnexpectedEvent),
        }
    }
}

/// A session: its byte order, its objects, its catalog, and where it stands.
pub struct Session {
    order: ByteOrder,
    objects: ObjectTable,
    catalog: InterfaceCatalog,
    phase: Phase,
    remaining: u32,
}

impl View for Session {
    type V = SessionModel;

    closed spec fn view(&self) -> SessionModel {
        SessionModel {
            order: self.order,
            objects: self.objects@,
            catalog: self.catalog@,
            phase: self.phase,
            remaining: self.remaining,
        }
    }
}

impl Session {
    /// The table and the catalog are well formed, and so is the model.
    pub closed spec fn wf(&self) -> bool {
        &&& self.objects.wf()
        &&& self.catalog.wf()
        &&& self@.wf()
    }

    /// A well-formed session has a well-formed model.
    pub proof fn lemma_wf(&self)
        requires
            self.wf(),
        ensures
            self@.wf(),
    {
    }

    /// A session before anything is sent. It will read at most `budget`
    /// messages.
    pub fn new(order: ByteOrder, budget: u32) -> (session: Session)
        ensures
            session.wf(),
            session@ == SessionModel::initial(order, budget),
    {
        Session {
            order,
            objects: ObjectTable::new(),
            catalog: InterfaceCatalog::new(),
            phase: Phase::Idle,
            remaining: budget,
        }
    }

    /// The order of the bytes in every word on the wire.
    pub fn order(&self) -> (order: ByteOrder)
        ensures
            order == self@.order,
    {
        self.order
    }

    /// Where the session stands.
    pub fn phase(&self) -> (phase: Phase)
        ensures
            phase == self@.phase,
    {
        self.phase
    }

    /// How many more messages may be read.
    pub fn remaining(&self) -> (remaining: u32)
        ensures
            remaining == self@.remaining,
    {
        self.remaining
    }

    /// The live objects.
    pub fn objects(&self) -> (objects: &ObjectTable)
        requires
            self.wf(),
        ensures
            objects.wf(),
            objects@ == self@.objects,
    {
        &self.objects
    }

    /// The globals announced so far.
    pub fn catalog(&self) -> (catalog: &InterfaceCatalog)
        requires
            self.wf(),
        ensures
            catalog.wf(),
            catalog@ == self@.catalog,
    {
        &self.catalog
    }

    fn stop(&mut self, end: SessionEnd) -> (step: Step)
        requires
            old(self).wf(),
        ensures
            final(self).wf(),
            final(self)@ == old(self)@.stop(end).next,
            step.action@ == old(self)@.stop(end).action,
            step.handled == old(self)@.stop(end).handled,
    {
        self.phase = Phase::Finished(end);
        Step { action: Action::Finish(end), handled: None }
    }

    fn await_next(&mut self, handled: Option<Handled>) -> (step: Step)
        requires
            old(self).objects.wf(),
            old(self).catalog.wf(),
            old(self)@.objects.next_id <= u32::MAX,
        ensures
            final(self).wf(),
            final(self)@ == old(self)@.await_next(handled).next,
            step.action@ == old(self)@.await_next(handled).action,
            step.handled == old(self)@.await_next(handled).handled,
    {
        proof {
            self.objects.lemma_wf();
        }
        if self.remaining == 0 {
            self.phase = Phase::Finished(SessionEnd::BudgetExhausted);
            Step { action: Action::Finish(SessionEnd::BudgetExhausted), handled }
        } else {
            self.phase = Phase::AwaitingHeader;
            Step { action: Action::Receive(HEADER_LEN), handled }
        }
    }

    fn connected(&mut self) -> (step: Step)
        requires
            old(self).wf(),
            old(self)@.phase == Phase::Idle,
        ensures
            final(self).wf(),
            final(self)@ == old(self)@.connected().next,
            step.action@ == old(self)@.connected().action,
            step.handled == old(self)@.connected().handled,
    {
        let id: u32 = self.objects.allocate();
        self.phase = Phase::SendingSync(id);
        Step { action: Action::Send(encode_sync(id, self.order)), handled: None }
    }

    fn sync_sent(&mut self, callback_id: u32) -> (step: Step)
        requires
            old(self).wf(),
            old(self)@.phase == Phase::SendingSync(callback_id),
        ensures
            final(self).wf(),
            final(self)@ == old(self)@.sync_sent(callback_id).next,
            step.action@ == old(self)@.sync_sent(callback_id).action,
            step.handled == old(self)@.sync_sent(callback_id).handled,
    {
        self.objects.register(callback_id, InterfaceTag::Callback);
        let id: u32 = self.objects.allocate();
        self.phase = Phase::SendingGetRegistry(id);
        Step { action: Action::Send(encode_get_registry(id, self.order)), handled: None }
    }

    fn get_registry_sent(&mut self, registry_id: u32) -> (step: Step)
        requires
            old(self).wf(),
            old(self)@.phase == Phase::SendingGetRegistry(registry_id),
        ensures
            final(self).wf(),
            final(self)@ == old(self)@.get_registry_sent(registry_id).next,
            step.action@ == old(self)@.get_registry_sent(registry_id).action,
            step.handled == old(self)@.get_registry_sent(registry_id).handled,
    {
        self.objects.register(registry_id, InterfaceTag::Registry);
        self.await_next(None)
    }

    fn header_arrived(&mut self, bytes: &[u8]) -> (step: Step)
        requires
            old(self).wf(),
            old(self)@.phase == Phase::AwaitingHeader,
        ensures
            final(self).wf(),
            final(self)@ == old(self)@.header_arrived(bytes@).next,
            step.action@ == old(self)@.header_arrived(bytes@).action,
            step.handled == old(self)@.header_arrived(bytes@).handled,
    {
        match MessageHeader::decode(bytes, self.order) {
            Ok(header) => {
                self.phase = Phase::AwaitingBody(header);
                Step { action: Action::Receive(header.body_len()), handled: None }
            },
            Err(WireError::ShortRead) => self.stop(SessionEnd::EndOfStream),
            Err(e) => self.stop(SessionEnd::Broken(e)),
        }
    }

    fn body_arrived(&mut self, header: MessageHeader, bytes: &[u8]) -> (step: Step)
        requires
            old(self).wf(),
            old(self)@.phase == Phase::AwaitingBody(header),
        ensures
            final(self).wf(),
            final(self)@ == old(self)@.body_arrived(header, bytes@).next,
            step.action@ == old(self)@.body_arrived(header, bytes@).action,
            step.handled == old(self)@.body_arrived(header, bytes@).handled,
    {
        match take_body(&header, bytes) {
            Ok(body) => {
                let handled: Handled = dispatch(
                    &self.objects,
                    &mut self.catalog,
                    &header,
                    body,
                    self.order,
                );
                self.remaining = self.remaining - 1;
                self.await_next(Some(handled))
            },
            Err(e) => self.stop(SessionEnd::Broken(e)),
        }
    }

    /// Takes the session one step on: told what the transport did, it
    /// answers what to do next, and what became of a message that the step
    /// has handled.
    pub fn step(&mut self, event: Event) -> (step: Step)
        requires
            old(self).wf(),
        ensures
            final(self).wf(),
            final(self)@ == old(self)@.step(event@).next,
            step.action@ == old(self)@.step(event@).action,
            step.handled == old(self)@.step(event@).handled,
    {
        let phase: Phase = self.phase;
        if let Phase::Finished(end) = phase {
            return self.stop(end);
        }
        match event {
            Event::Failed => self.stop(SessionEnd::TransportError),
            Event::Connected => match phase {
                Phase::Idle => self.connected(),
                _ => self.stop(SessionEnd::UnexpectedEvent),
            },
            Event::Sent => match phase {
                Phase::SendingSync(id) => self.sync_sent(id),
                Phase::SendingGetRegistry(id) => self.get_registry_sent(id),
                _ => self.stop(SessionEnd::UnexpectedEvent),
            },
            Event::Received(bytes) => match phase {
                Phase::AwaitingHeader => self.header_arrived(bytes.as_slice()),
                Phase::AwaitingBody(header) => self.body_arrived(header, bytes.as_slice()),
                _ => self.stop(SessionEnd::UnexpectedEvent),
            },
        }
    }
}

/// A step leaves a well-formed session well formed.
pub proof fn lemma_step_keeps_wf(session: SessionModel, event: EventModel)
    requires
        session.wf(),
    ensures
        session.step(event).next.wf(),
{
}

/// A message to an id that is not live is reported as unhandled and leaves
/// the catalog as it is. Its body is taken off the stream whole, so the
/// session goes on to ask for the next header, and reads that header as it
/// would have read it after any other message.
pub proof fn lemma_unknown_object_keeps_framing(
    session: SessionModel,
    header: MessageHeader,
    body: Seq<u8>,
    next_header: Seq<u8>,
)
    requires
        session.wf(),
        session.phase == Phase::AwaitingBody(header),
        !session.objects.tags.contains_key(header.object_id),
        body.len() >= header.body_len_spec(),
    ensures
        ({
            let after = session.step(EventModel::Received(body));
            &&& after.handled == Some(Handled::UnhandledMessage)
            &&& after.next.catalog == session.catalog
            &&& after.next.objects == session.objects
            &&& session.remaining > 1 ==> {
                &&& after.next.phase == Phase::AwaitingHeader
                &&& after.action == ActionModel::Receive(8)
                &&& after.next.step(EventModel::Received(next_header)) == SessionModel {
                    phase: Phase::AwaitingHeader,
                    remaining: (session.remaining - 1) as u32,
                    ..session
                }.header_arrived(next_header)
            }
            &&& session.remaining == 1 ==> after.action == ActionModel::Finish(
                SessionEnd::BudgetExhausted,
            )
        }),
{
}

/// When the peer closes the stream before any byte of the next header, the
/// session ends there: nothing is handled, the catalog stays as it is, and
/// the end is no failure.
pub proof fn lemma_clean_close_ends_session(session: SessionModel)
    requires
        session.wf(),
        session.phase == Phase::AwaitingHeader,
    ensures
        ({
            let after = session.step(EventModel::Received(Seq::empty()));
            &&& after.action == ActionModel::Finish(SessionEnd::EndOfStream)
            &&& after.next.phase == Phase::Finished(SessionEnd::EndOfStream)
            &&& after.handled == None::<Handled>
            &&& after.next.catalog == session.catalog
            &&& after.next.objects == session.objects
            &&& !SessionEnd::EndOfStream.is_failure()
        }),
{
}

/// Nothing but a whole body changes the catalog: a step on any other event,
/// or in any other phase, leaves it as it is.
pub proof fn lemma_only_bodies_touch_catalog(session: SessionModel, event: EventModel)
    requires
        !(session.phase is AwaitingBody && event is Received),
    ensures
        session.step(event).next.catalog == session.catalog,
{
}

} // verus!
