//! The dispatcher of one connection: its life cycle, the ids it issues, the
//! queue that feeds the writer, and the routing of what comes in.

use crate::correlator::{all_failed, distinct_ids, has_slot, Failed, ReplyCorrelator, Slot};
use crate::correlator::{lemma_not_due, lemma_without, not_due, due, without};
use crate::error::{Error, ProtocolFault};
use crate::event::{checked_event, optional_text, Event, EventType, EventView};
use crate::registry::{lookup_in, same_text, EntryView, HandlerRegistry};
use std::collections::VecDeque;
use vstd::prelude::*;

verus! {

/// Where a connection is in its life.
#[derive(Debug, Clone, Copy, PartialEq, Eq, Structural)]
pub enum ConnectionState {
    Starting,
    Handshaking,
    Running,
    Closing,
    Closed,
}

/// What can happen to a connection.
#[derive(Debug, Clone, Copy, PartialEq, Eq, Structural)]
pub enum Signal {
    /// The transport connected, or accepted a peer.
    Connected { encrypted: bool },
    /// The handshake of the encrypted stream succeeded.
    HandshakeSucceeded,
    /// The handshake of the encrypted stream failed.
    HandshakeFailed,
    /// The peer closed the stream.
    PeerClosed,
    /// Something failed; only a fatal failure changes the state.
    Failure(Error),
    /// The user asked for a shutdown.
    ShutdownRequested,
    /// The read loop has ended and the handlers were cancelled.
    TornDown,
}

/// The state that follows `state` when `signal` happens. A signal that has
/// no meaning in a state leaves it as it is.
pub open spec fn next_state(state: ConnectionState, signal: Signal) -> ConnectionState {
    match (state, signal) {
        (ConnectionState::Starting, Signal::Connected { encrypted }) => if encrypted {
            ConnectionState::Handshaking
        } else {
            ConnectionState::Running
        },
        (ConnectionState::Handshaking, Signal::HandshakeSucceeded) => ConnectionState::Running,
        (ConnectionState::Handshaking, Signal::HandshakeFailed) => ConnectionState::Closed,
        (ConnectionState::Running, Signal::PeerClosed) => ConnectionState::Closing,
        (ConnectionState::Running, Signal::ShutdownRequested) => ConnectionState::Closing,
        (ConnectionState::Running, Signal::Failure(e)) => if e.fatal() {
            ConnectionState::Closing
        } else {
            ConnectionState::Running
        },
        (ConnectionState::Closing, Signal::TornDown) => ConnectionState::Closed,
        _ => state,
    }
}

/// The state that follows `state` when `signal` happens.
pub fn step(state: ConnectionState, signal: Signal) -> (next: ConnectionState)
    ensures
        next == next_state(state, signal),
{
    match (state, signal) {
        (ConnectionState::Starting, Signal::Connected { encrypted }) => if encrypted {
            ConnectionState::Handshaking
        } else {
            ConnectionState::Running
        },
        (ConnectionState::Handshaking, Signal::HandshakeSucceeded) => ConnectionState::Running,
        (ConnectionState::Handshaking, Signal::HandshakeFailed) => ConnectionState::Closed,
        (ConnectionState::Running, Signal::PeerClosed) => ConnectionState::Closing,
        (ConnectionState::Running, Signal::ShutdownRequested) => ConnectionState::Closing,
        (ConnectionState::Running, Signal::Failure(e)) => if e.is_fatal() {
            ConnectionState::Closing
        } else {
            ConnectionState::Running
        },
        (ConnectionState::Closing, Signal::TornDown) => ConnectionState::Closed,
        _ => state,
    }
}

/// A closed connection stays closed, and a connection never goes back to an
/// earlier state.
pub proof fn lemma_state_moves_forward(state: ConnectionState, signal: Signal)
    ensures
        state == ConnectionState::Closed ==> next_state(state, signal) == ConnectionState::Closed,
        rank(state) <= rank(next_state(state, signal)),
{
}

/// The place of a state in the life of a connection.
pub open spec fn rank(state: ConnectionState) -> nat {
    match state {
        ConnectionState::Starting => 0,
        ConnectionState::Handshaking => 1,
        ConnectionState::Running => 2,
        ConnectionState::Closing => 3,
        ConnectionState::Closed => 4,
    }
}

/// Where an event that came in goes.
#[derive(Debug, Clone, Copy, PartialEq, Eq, Structural)]
pub enum Route {
    /// To the waiter of the event with this id: its slot was taken out.
    Reply(u64),
    /// To the handler with this number.
    Handler(usize),
    /// Nowhere: no handler answers to it.
    Unknown,
}

/// Where `event` goes: a response for which a slot waits goes to the
/// waiter; anything else to the handler that answers to its namespace and
/// name, where there is one.
pub open spec fn route_of(pending: Seq<Slot>, handlers: Seq<EntryView>, event: EventView) -> Route {
    if event.event_type == EventType::Response && has_slot(pending, event.reference_id) {
        Route::Reply(event.reference_id)
    } else {
        match lookup_in(handlers, event.namespace, event.name) {
            Some(handler) => Route::Handler(handler),
            None => Route::Unknown,
        }
    }
}

/// The content of an error response: the event it answers, a code that
/// names the kind of failure, and a message.
#[derive(Debug, PartialEq, Eq)]
pub struct ErrorNotice {
    pub reference_id: u64,
    pub code: String,
    pub message: String,
}

/// An error notice, as the contracts speak of it.
pub struct ErrorNoticeView {
    pub reference_id: u64,
    pub code: Seq<char>,
    pub message: Seq<char>,
}

impl View for ErrorNotice {
    type V = ErrorNoticeView;

    open spec fn view(&self) -> ErrorNoticeView {
        ErrorNoticeView {
            reference_id: self.reference_id,
            code: self.code@,
            message: self.message@,
        }
    }
}

/// Whether an event is an error response: a response called `error`.
pub open spec fn is_error_response(event: EventView) -> bool {
    event.event_type == EventType::Response && event.name == "error"@
}

/// The notice for an event that no handler answers to: it names the event.
pub fn unknown_event_notice(event: &Event) -> (notice: ErrorNotice)
    ensures
        notice@ == (ErrorNoticeView {
            reference_id: event@.id,
            code: "UnknownEvent"@,
            message: event@.name,
        }),
{
    ErrorNotice {
        reference_id: event.id(),
        code: "UnknownEvent".to_owned(),
        message: event.name().to_owned(),
    }
}

/// The notice for an event whose handler failed with `message`. The failure
/// of a handler of an error response is answered by nothing, so that two
/// peers do not answer each other's errors for ever.
pub fn handler_failure_notice(event: &Event, message: String) -> (notice: Option<ErrorNotice>)
    ensures
        is_error_response(event@) ==> notice is None,
        !is_error_response(event@) ==> {
            &&& notice matches Some(n)
            &&& n@ == (ErrorNoticeView {
                reference_id: event@.id,
                code: "HandlerFailure"@,
                message: message@,
            })
        },
{
    let is_response = match event.event_type() {
        EventType::Response => true,
        EventType::Initial => false,
    };
    if is_response && same_text(event.name(), "error") {
        None
    } else {
        Some(ErrorNotice { reference_id: event.id(), code: "HandlerFailure".to_owned(), message })
    }
}

/// A connection, as the contracts speak of it.
pub struct ConnectionView {
    pub state: ConnectionState,
    /// The id that the next event gets.
    pub next_id: u64,
    /// Every event that was accepted for sending, in the order of acceptance.
    pub issued: Seq<EventView>,
    /// The events that were handed to the writer, in the order of handing.
    pub written: Seq<EventView>,
    /// The events that wait for the writer, the oldest first.
    pub queued: Seq<EventView>,
    /// The reply slots that wait.
    pub pending: Seq<Slot>,
    pub pending_cap: usize,
    pub handlers: Seq<EntryView>,
    pub payload_cap: u64,
}

impl ConnectionView {
    /// What holds of a connection at all times: ids are issued from 1 on,
    /// one after the other; what was issued is what was written followed by
    /// what is queued; the slots wait on different ids, each one issued
    /// here, and are no more than allowed; and only a running connection
    /// has slots.
    pub open spec fn wf(self) -> bool {
        &&& self.next_id >= 1
        &&& self.issued.len() == self.next_id - 1
        &&& forall|i: int| 0 <= i < self.issued.len() ==> (#[trigger] self.issued[i]).id == i + 1
        &&& self.issued == self.written + self.queued
        &&& distinct_ids(self.pending)
        &&& self.pending.len() <= self.pending_cap
        &&& forall|i: int|
            0 <= i < self.pending.len() ==> 1 <= (#[trigger] self.pending[i]).id < self.next_id
        &&& self.state != ConnectionState::Running ==> self.pending.len() == 0
    }
}

/// What a request to send comes to: the event that is queued, or the reason
/// for which nothing is.
pub open spec fn emit_result(
    c: ConnectionView,
    reference: Option<u64>,
    namespace: Option<Seq<char>>,
    name: Seq<char>,
    payload: Seq<u8>,
) -> Result<EventView, Error> {
    if c.state != ConnectionState::Running {
        Err(Error::Closed)
    } else if c.next_id == u64::MAX {
        Err(Error::Protocol(ProtocolFault::IdsExhausted))
    } else {
        checked_event(c.next_id, reference, namespace, name, payload)
    }
}

/// What a request to wait for the reply to the event `id` comes to.
pub open spec fn await_result(c: ConnectionView, id: u64) -> Result<(), Error> {
    if c.state != ConnectionState::Running {
        Err(Error::Closed)
    } else if id == 0 || id >= c.next_id {
        Err(Error::Protocol(ProtocolFault::UnknownId))
    } else if has_slot(c.pending, id) {
        Err(Error::Protocol(ProtocolFault::DuplicateId))
    } else if c.pending.len() >= c.pending_cap {
        Err(Error::Protocol(ProtocolFault::TooManyPending))
    } else {
        Ok(())
    }
}

/// What the sender of an event gets back: the id that the event was given.
#[derive(Debug, Clone, Copy, PartialEq, Eq, Structural)]
pub struct EmitMetadata {
    pub id: u64,
}

/// The events that a queue holds, as the contracts speak of them.
pub open spec fn views_of(queue: Seq<Event>) -> Seq<EventView> {
    Seq::new(queue.len(), |i: int| queue[i]@)
}

/// One connection: its state, its handlers, its reply slots and the events
/// that wait to be written.
pub struct Connection {
    state: ConnectionState,
    next_id: u64,
    queue: VecDeque<Event>,
    correlator: ReplyCorrelator,
    registry: HandlerRegistry,
    payload_cap: u64,
    issued: Ghost<Seq<EventView>>,
    written: Ghost<Seq<EventView>>,
}

impl View for Connection {
    type V = ConnectionView;

    closed spec fn view(&self) -> ConnectionView {
        ConnectionView {
            state: self.state,
            next_id: self.next_id,
            issued: self.issued@,
            written: self.written@,
            queued: views_of(self.queue@),
            pending: self.correlator@,
            pending_cap: self.correlator.cap(),
            handlers: self.registry@,
            payload_cap: self.payload_cap,
        }
    }
}

impl Connection {
    /// A connection that has not started, with the handlers it will serve,
    /// the longest payload it takes and the number of reply slots it holds.
    pub fn new(registry: HandlerRegistry, payload_cap: u64, pending_cap: usize) -> (c: Self)
        ensures
            c@ == (ConnectionView {
                state: ConnectionState::Starting,
                next_id: 1,
                issued: Seq::empty(),
                written: Seq::empty(),
                queued: Seq::empty(),
                pending: Seq::empty(),
                pending_cap,
                handlers: registry@,
                payload_cap,
            }),
            c@.wf(),
    {
        let c = Connection {
            state: ConnectionState::Starting,
            next_id: 1,
            queue: VecDeque::new(),
            correlator: ReplyCorrelator::new(pending_cap),
            registry,
            payload_cap,
            issued: Ghost(Seq::empty()),
            written: Ghost(Seq::empty()),
        };
        assert(c@.queued =~= Seq::<EventView>::empty());
        assert(c@.issued =~= c@.written + c@.queued);
        c
    }

    /// Where the connection is in its life.
    pub fn state(&self) -> (r: ConnectionState)
        ensures
            r == self@.state,
    {
        self.state
    }

    /// The longest payload that the connection takes.
    pub fn payload_cap(&self) -> (r: u64)
        ensures
            r == self@.payload_cap,
    {
        self.payload_cap
    }

    /// The number of reply slots that wait.
    pub fn pending_len(&self) -> (r: usize)
        ensures
            r == self@.pending.len(),
    {
        self.correlator.len()
    }

    /// The number of events that wait for the writer.
    pub fn queued_len(&self) -> (r: usize)
        ensures
            r == self@.queued.len(),
    {
        self.queue.len()
    }

    /// Takes note of what happened. A connection that is closing or closed
    /// holds no reply slots: those that waited are returned, failed because
    /// the connection closed. In any other state they stay.
    pub fn handle(&mut self, signal: Signal) -> (failed: Vec<Failed>)
        ensures
            final(self)@.state == next_state(old(self)@.state, signal),
            final(self)@.state == ConnectionState::Closing || final(self)@.state
                == ConnectionState::Closed ==> {
                &&& failed@ == all_failed(old(self)@.pending, Error::Closed)
                &&& final(self)@ == (ConnectionView {
                    state: final(self)@.state,
                    pending: Seq::empty(),
                    ..old(self)@
                })
            },
            final(self)@.state != ConnectionState::Closing && final(self)@.state
                != ConnectionState::Closed ==> {
                &&& failed@ == Seq::<Failed>::empty()
                &&& final(self)@ == (ConnectionView { state: final(self)@.state, ..old(self)@ })
            },
            old(self)@.wf() ==> final(self)@.wf(),
    {
        let next = step(self.state, signal);
        self.state = next;
        match next {
            ConnectionState::Closing | ConnectionState::Closed => self.correlator.drain_all(
                Error::Closed,
            ),
            _ => Vec::new(),
        }
    }

    /// Queues an event with the next id, where the connection runs and the
    /// fields make an event.
    fn enqueue(
        &mut self,
        reference: Option<u64>,
        namespace: Option<String>,
        name: String,
        payload: Vec<u8>,
    ) -> (r: Result<EmitMetadata, Error>)
        ensures
            match r {
                Ok(metadata) => {
                    &&& emit_result(
                        old(self)@,
                        reference,
                        optional_text(namespace),
                        name@,
                        payload@,
                    ) matches Ok(event)
                    &&& metadata.id == old(self)@.next_id
                    &&& event.id == metadata.id
                    &&& final(self)@ == (ConnectionView {
                        next_id: (old(self)@.next_id + 1) as u64,
                        issued: old(self)@.issued.push(event),
                        queued: old(self)@.queued.push(event),
                        ..old(self)@
                    })
                },
                Err(e) => {
                    &&& emit_result(
                        old(self)@,
                        reference,
                        optional_text(namespace),
                        name@,
                        payload@,
                    ) == Err::<EventView, _>(e)
                    &&& final(self)@ == old(self)@
                },
            },
            old(self)@.wf() ==> final(self)@.wf(),
    {
        match self.state {
            ConnectionState::Running => {},
            _ => {
                return Err(Error::Closed);
            },
        }
        if self.next_id == u64::MAX {
            return Err(Error::Protocol(ProtocolFault::IdsExhausted));
        }
        let id = self.next_id;
        let event = match Event::new(id, reference, namespace, name, payload) {
            Ok(event) => event,
            Err(e) => {
                return Err(e);
            },
        };
        let ghost view = event@;
        self.queue.push_back(event);
        self.next_id = id + 1;
        self.issued = Ghost(self.issued@.push(view));
        proof {
            assert(self@.queued =~= old(self)@.queued.push(view));
            if old(self)@.wf() {
                assert(self@.issued =~= self@.written + self@.queued);
            }
        }
        Ok(EmitMetadata { id })
    }

    /// Sends an initial event without a namespace.
    pub fn emit(&mut self, name: String, payload: Vec<u8>) -> (r: Result<EmitMetadata, Error>)
        ensures
            match r {
                Ok(metadata) => {
                    &&& emit_result(old(self)@, None, None, name@, payload@) matches Ok(event)
                    &&& metadata.id == old(self)@.next_id
                    &&& event.id == metadata.id
                    &&& final(self)@ == (ConnectionView {
                        next_id: (old(self)@.next_id + 1) as u64,
                        issued: old(self)@.issued.push(event),
                        queued: old(self)@.queued.push(event),
                        ..old(self)@
                    })
                },
                Err(e) => {
                    &&& emit_result(old(self)@, None, None, name@, payload@) == Err::<
                        EventView,
                        _,
                    >(e)
                    &&& final(self)@ == old(self)@
                },
            },
            old(self)@.wf() ==> final(self)@.wf(),
    {
        self.enqueue(None, None, name, payload)
    }

    /// Sends an initial event in a namespace.
    pub fn emit_to(&mut self, namespace: String, name: String, payload: Vec<u8>) -> (r: Result<
        EmitMetadata,
        Error,
    >)
        ensures
            match r {
                Ok(metadata) => {
                    &&& emit_result(old(self)@, None, Some(namespace@), name@, payload@) matches Ok(
                        event,
                    )
                    &&& metadata.id == old(self)@.next_id
                    &&& event.id == metadata.id
                    &&& final(self)@ == (ConnectionView {
                        next_id: (old(self)@.next_id + 1) as u64,
                        issued: old(self)@.issued.push(event),
                        queued: old(self)@.queued.push(event),
                        ..old(self)@
                    })
                },
                Err(e) => {
                    &&& emit_result(old(self)@, None, Some(namespace@), name@, payload@) == Err::<
                        EventView,
                        _,
                    >(e)
                    &&& final(self)@ == old(self)@
                },
            },
            old(self)@.wf() ==> final(self)@.wf(),
    {
        self.enqueue(None, Some(namespace), name, payload)
    }

    /// Sends a response to the event `reference_id`, without a namespace.
    pub fn emit_response(&mut self, reference_id: u64, name: String, payload: Vec<u8>) -> (r:
        Result<EmitMetadata, Error>)
        ensures
            match r {
                Ok(metadata) => {
                    &&& emit_result(old(self)@, Some(reference_id), None, name@, payload@) matches Ok(
                        event,
                    )
                    &&& metadata.id == old(self)@.next_id
                    &&& event.id == metadata.id
                    &&& final(self)@ == (ConnectionView {
                        next_id: (old(self)@.next_id + 1) as u64,
                        issued: old(self)@.issued.push(event),
                        queued: old(self)@.queued.push(event),
                        ..old(self)@
                    })
                },
                Err(e) => {
                    &&& emit_result(old(self)@, Some(reference_id), None, name@, payload@) == Err::<
                        EventView,
                        _,
                    >(e)
                    &&& final(self)@ == old(self)@
                },
            },
            old(self)@.wf() ==> final(self)@.wf(),
    {
        self.enqueue(Some(reference_id), None, name, payload)
    }

    /// Sends a response to the event `reference_id`, in a namespace.
    pub fn emit_response_to(
        &mut self,
        reference_id: u64,
        namespace: String,
        name: String,
        payload: Vec<u8>,
    ) -> (r: Result<EmitMetadata, Error>)
        ensures
            match r {
                Ok(metadata) => {
                    &&& emit_result(
                        old(self)@,
                        Some(reference_id),
                        Some(namespace@),
                        name@,
                        payload@,
                    ) matches Ok(event)
                    &&& metadata.id == old(self)@.next_id
                    &&& event.id == metadata.id
                    &&& final(self)@ == (ConnectionView {
                        next_id: (old(self)@.next_id + 1) as u64,
                        issued: old(self)@.issued.push(event),
                        queued: old(self)@.queued.push(event),
                        ..old(self)@
                    })
                },
                Err(e) => {
                    &&& emit_result(
                        old(self)@,
                        Some(reference_id),
                        Some(namespace@),
                        name@,
                        payload@,
                    ) == Err::<EventView, _>(e)
                    &&& final(self)@ == old(self)@
                },
            },
            old(self)@.wf() ==> final(self)@.wf(),
    {
        self.enqueue(Some(reference_id), Some(namespace), name, payload)
    }

    /// Hands the oldest queued event to the writer, as the frame that goes
    /// on the wire. `None` where nothing is queued.
    pub fn next_frame(&mut self) -> (r: Option<Vec<u8>>)
        ensures
            match r {
                Some(frame) => {
                    &&& old(self)@.queued.len() > 0
                    &&& frame@ == old(self)@.queued[0].frame()
                    &&& final(self)@ == (ConnectionView {
                        written: old(self)@.written.push(old(self)@.queued[0]),
                        queued: old(self)@.queued.drop_first(),
                        ..old(self)@
                    })
                },
                None => old(self)@.queued.len() == 0 && final(self)@ == old(self)@,
            },
            old(self)@.wf() ==> final(self)@.wf(),
    {
        match self.queue.pop_front() {
            Some(event) => {
                let frame = event.to_bytes();
                self.written = Ghost(self.written@.push(event@));
                proof {
                    assert(old(self)@.queued[0] == event@);
                    assert(self@.queued =~= old(self)@.queued.drop_first());
                    if old(self)@.wf() {
                        assert(self@.issued =~= self@.written + self@.queued);
                    }
                }
                Some(frame)
            },
            None => None,
        }
    }

    /// Installs a reply slot for an event that this connection sent, to
    /// wait until `deadline`.
    pub fn await_reply(&mut self, metadata: &EmitMetadata, deadline: u64) -> (r: Result<(), Error>)
        ensures
            r == await_result(old(self)@, metadata.id),
            final(self)@ == (if r is Ok {
                ConnectionView {
                    pending: old(self)@.pending.push(Slot { id: metadata.id, deadline }),
                    ..old(self)@
                }
            } else {
                old(self)@
            }),
            old(self)@.wf() ==> final(self)@.wf(),
    {
        match self.state {
            ConnectionState::Running => {},
            _ => {
                return Err(Error::Closed);
            },
        }
        if metadata.id == 0 || metadata.id >= self.next_id {
            return Err(Error::Protocol(ProtocolFault::UnknownId));
        }
        self.correlator.register(metadata.id, deadline)
    }

    /// Routes an event that came in. A response for which a slot waits has
    /// its slot taken out, for the event to be handed to the waiter.
    /// A connection that does not run routes nothing.
    pub fn receive(&mut self, event: &Event) -> (r: Result<Route, Error>)
        ensures
            r == (if old(self)@.state == ConnectionState::Running {
                Ok::<_, Error>(route_of(old(self)@.pending, old(self)@.handlers, event@))
            } else {
                Err::<Route, _>(Error::Closed)
            }),
            final(self)@ == (match r {
                Ok(Route::Reply(id)) => ConnectionView {
                    pending: without(old(self)@.pending, id),
                    ..old(self)@
                },
                _ => old(self)@,
            }),
            old(self)@.wf() ==> final(self)@.wf(),
    {
        match self.state {
            ConnectionState::Running => {},
            _ => {
                return Err(Error::Closed);
            },
        }
        match event.reference_id() {
            Some(id) => {
                proof {
                    lemma_without(self.correlator@, id);
                    if self@.wf() {
                        lemma_without_issued(self.correlator@, id, self.next_id);
                    }
                }
                if self.correlator.resolve(id) {
                    return Ok(Route::Reply(id));
                }
            },
            None => {},
        }
        let namespace = match event.namespace() {
            Some(text) => Some(text.as_str()),
            None => None,
        };
        match self.registry.lookup(namespace, event.name()) {
            Some(handler) => Ok(Route::Handler(handler)),
            None => Ok(Route::Unknown),
        }
    }

    /// Takes out every reply slot whose deadline is `now` or earlier, and
    /// returns them failed with a timeout.
    pub fn expire_due(&mut self, now: u64) -> (expired: Vec<Failed>)
        ensures
            expired@ == due(old(self)@.pending, now),
            final(self)@ == (ConnectionView {
                pending: not_due(old(self)@.pending, now),
                ..old(self)@
            }),
            old(self)@.wf() ==> final(self)@.wf(),
    {
        proof {
            lemma_not_due(self.correlator@, now);
            if self@.wf() {
                lemma_not_due_issued(self.correlator@, now, self.next_id);
            }
        }
        self.correlator.expire_due(now)
    }
}

/// No two events that a connection has issued have the same id, and the id
/// that the next event gets was given to none of them.
pub proof fn lemma_ids_unique(c: ConnectionView)
    requires
        c.wf(),
    ensures
        forall|i: int, j: int|
            0 <= i < j < c.issued.len() ==> (#[trigger] c.issued[i]).id != (#[trigger] c.issued[j]).id,
        forall|i: int| 0 <= i < c.issued.len() ==> (#[trigger] c.issued[i]).id != c.next_id,
{
}

/// The writer gets the events in the order in which they were accepted:
/// what was written is the beginning of what was issued, event for event,
/// and the event that is written next is the one that was accepted next.
pub proof fn lemma_wire_order(c: ConnectionView)
    requires
        c.wf(),
    ensures
        c.written.len() <= c.issued.len(),
        c.written == c.issued.take(c.written.len() as int),
        c.queued == c.issued.skip(c.written.len() as int),
        c.queued.len() > 0 ==> c.queued[0] == c.issued[c.written.len() as int],
{
    let n = c.written.len() as int;
    assert(c.issued.take(n) =~= c.written);
    assert(c.issued.skip(n) =~= c.queued);
    if c.queued.len() > 0 {
        assert(c.issued[n] == c.queued[0]);
    }
}

/// A response that is handed to a waiter answers an event that this
/// connection issued before, and so does every response that refers to an
/// id below the next one. A response that refers to an id that was never
/// issued here finds no waiter and goes to the handlers.
pub proof fn lemma_reply_answers_issued(c: ConnectionView, event: EventView)
    requires
        c.wf(),
        event.wf(),
        event.event_type == EventType::Response,
        route_of(c.pending, c.handlers, event) is Reply || event.reference_id < c.next_id,
    ensures
        route_of(c.pending, c.handlers, event) is Reply ==> route_of(c.pending, c.handlers, event)
            == Route::Reply(event.reference_id),
        1 <= event.reference_id < c.next_id,
        exists|i: int| 0 <= i < c.issued.len() && (#[trigger] c.issued[i]).id == event.reference_id,
{
    if route_of(c.pending, c.handlers, event) is Reply {
        let k = choose|k: int|
            0 <= k < c.pending.len() && #[trigger] c.pending[k].id == event.reference_id;
        assert(1 <= c.pending[k].id < c.next_id);
    }
    let i = event.reference_id - 1;
    assert(c.issued[i].id == event.reference_id);
}

/// When a connection closes, every reply slot that waits is failed because
/// the connection closed, each once, and none is left.
pub proof fn lemma_close_fails_every_slot(c: ConnectionView, signal: Signal)
    requires
        c.wf(),
        next_state(c.state, signal) == ConnectionState::Closing || next_state(c.state, signal)
            == ConnectionState::Closed,
    ensures
        all_failed(c.pending, Error::Closed).len() == c.pending.len(),
        forall|i: int|
            0 <= i < c.pending.len() ==> (#[trigger] all_failed(c.pending, Error::Closed)[i])
                == (Failed { id: c.pending[i].id, error: Error::Closed }),
        forall|i: int, j: int|
            0 <= i < j < c.pending.len() ==> (#[trigger] all_failed(c.pending, Error::Closed)[i]).id
                != (#[trigger] all_failed(c.pending, Error::Closed)[j]).id,
        (ConnectionView {
            state: next_state(c.state, signal),
            pending: Seq::empty(),
            ..c
        }).wf(),
{
    assert forall|i: int, j: int| 0 <= i < j < c.pending.len() implies (#[trigger] all_failed(
        c.pending,
        Error::Closed,
    )[i]).id != (#[trigger] all_failed(c.pending, Error::Closed)[j]).id by {
        assert(c.pending[i].id != c.pending[j].id);
    }
}

/// Where every slot waits on an id that was issued, so does every slot that
/// is left once those for `id` are gone.
proof fn lemma_without_issued(slots: Seq<Slot>, id: u64, next_id: u64)
    requires
        forall|i: int| 0 <= i < slots.len() ==> 1 <= (#[trigger] slots[i]).id < next_id,
    ensures
        forall|i: int|
            0 <= i < without(slots, id).len() ==> 1 <= (#[trigger] without(slots, id)[i]).id
                < next_id,
    decreases slots.len(),
{
    if slots.len() > 0 {
        let head = slots.drop_last();
        assert forall|i: int| 0 <= i < head.len() implies 1 <= (#[trigger] head[i]).id < next_id by {
            assert(slots[i] == head[i]);
        }
        lemma_without_issued(head, id, next_id);
        let out = without(slots, id);
        let sub = without(head, id);
        assert forall|i: int| 0 <= i < out.len() implies 1 <= (#[trigger] out[i]).id < next_id by {
            if i < sub.len() {
                assert(out[i] == sub[i]);
            } else {
                assert(out[i] == slots[slots.len() - 1]);
            }
        }
    }
}

/// Where every slot waits on an id that was issued, so does every slot that
/// is not due.
proof fn lemma_not_due_issued(slots: Seq<Slot>, now: u64, next_id: u64)
    requires
        forall|i: int| 0 <= i < slots.len() ==> 1 <= (#[trigger] slots[i]).id < next_id,
    ensures
        forall|i: int|
            0 <= i < not_due(slots, now).len() ==> 1 <= (#[trigger] not_due(slots, now)[i]).id
                < next_id,
    decreases slots.len(),
{
    if slots.len() > 0 {
        let head = slots.drop_last();
        assert forall|i: int| 0 <= i < head.len() implies 1 <= (#[trigger] head[i]).id < next_id by {
            assert(slots[i] == head[i]);
        }
        lemma_not_due_issued(head, now, next_id);
        let out = not_due(slots, now);
        let sub = not_due(head, now);
        assert forall|i: int| 0 <= i < out.len() implies 1 <= (#[trigger] out[i]).id < next_id by {
            if i < sub.len() {
                assert(out[i] == sub[i]);
            } else {
                assert(out[i] == slots[slots.len() - 1]);
            }
        }
    }
}

} // verus!
