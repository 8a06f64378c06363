//! The session state machine: one per accepted connection.
//!
//! A session starts unauthenticated. The first text frame of the peer is its
//! key; the session asks for the key to be looked up and, when the display
//! name comes back, registers itself and greets the peer. From then on it
//! relays what arrives on its channel, until the connection ends and it
//! takes itself out of the registry.
//!
//! The machine waits for nothing itself. The caller hands it one event at a
//! time and carries out the directive that comes back.

use crate::channel::{channel_bound, open_session_channel, share, SESSION_CHANNEL_CAPACITY};
use crate::envelope::{envelope_wire, Envelope, CODE_AUTHENTICATED, CODE_PUSHED_EVENT};
use crate::registry::Registry;
use tokio::sync::mpsc::{Receiver, Sender};
use vstd::prelude::*;

verus! {

/// An inbound frame, as far as a session tells frames apart.
#[derive(Debug)]
pub enum Inbound {
    /// A text frame and its text.
    Text(String),
    /// A ping; the connection layer answers it.
    Ping,
    /// A pong.
    Pong,
    /// A close frame.
    Close,
    /// Any other frame.
    Other,
}

/// How reading from the connection failed.
#[derive(Clone, Copy, Debug, PartialEq, Eq, Structural)]
pub enum LinkFailure {
    /// The connection had already been closed.
    ConnectionClosed,
    /// The peer reset the connection.
    ConnectionReset,
    /// Any other failure.
    Other,
}

/// What the credential store said of a key.
#[derive(Debug)]
pub enum LookupOutcome {
    /// The key is valid; this is its display name.
    Found(String),
    /// The store does not know the key.
    NotFound,
    /// The store could not answer.
    Failed,
}

/// One thing that happened to a session.
#[derive(Debug)]
pub enum Event {
    /// A frame arrived.
    Frame(Inbound),
    /// Reading from the connection failed.
    Failure(LinkFailure),
    /// The credential store answered the pending lookup.
    Lookup(LookupOutcome),
    /// The session's channel yielded a payload, or reported that it has no
    /// sending half left.
    ChannelItem(Option<String>),
}

/// Why a session ended.
#[derive(Clone, Copy, Debug, PartialEq, Eq, Structural)]
pub enum Termination {
    /// The store does not know the key.
    AuthenticationFailed,
    /// The store could not answer.
    StoreUnavailable,
    /// The key already had a live session.
    AlreadyConnected,
    /// The peer closed the connection in good order.
    ConnectionClosedGraceful,
    /// The peer reset the connection.
    ConnectionClosedAbnormal,
    /// Reading from the connection failed in another way.
    ConnectionError,
}

/// The failures a session reports to whoever ran it.
#[derive(Clone, Copy, Debug, PartialEq, Eq, Structural)]
pub enum SessionError {
    /// The store does not know the key.
    NoSuchKey,
    /// The store could not answer.
    LookupFailed,
    /// The key already had a live session.
    AlreadyConnected,
}

/// Where a session stands.
#[derive(Debug)]
pub enum SessionState {
    /// No key has been accepted. `pending` is the key whose lookup is under
    /// way, if one is.
    Unauthenticated { pending: Option<String> },
    /// The session is registered under `key`.
    Authenticated { key: String },
    /// The session has ended.
    Terminated { cause: Termination },
}

/// What the caller is to do after an event.
#[derive(Debug)]
pub enum Directive {
    /// Nothing; wait for the next event.
    Wait,
    /// Look this key up in the credential store and hand back the outcome.
    Lookup(String),
    /// Send these bytes to the peer as one binary frame.
    SendBinary(Vec<u8>),
    /// Send a close frame to the peer, then end the session.
    CloseAndStop(Termination),
    /// End the session.
    Stop(Termination),
}

/// Where a session stands, with texts as sequences of characters.
pub enum Phase {
    Unauthenticated { pending: Option<Seq<char>> },
    Authenticated { key: Seq<char> },
    Terminated { cause: Termination },
}

/// A directive, with texts and bytes as sequences.
pub enum Order {
    Wait,
    Lookup(Seq<char>),
    SendBinary(Seq<u8>),
    CloseAndStop(Termination),
    Stop(Termination),
}

/// The result of one step: the phase the session is in afterwards, the
/// registry afterwards, and what the caller is told to do.
pub struct Step {
    pub phase: Phase,
    pub registry: Map<Seq<char>, Sender<String>>,
    pub order: Order,
}

impl View for SessionState {
    type V = Phase;

    open spec fn view(&self) -> Phase {
        match *self {
            SessionState::Unauthenticated { pending } => Phase::Unauthenticated {
                pending: pending.deep_view(),
            },
            SessionState::Authenticated { key } => Phase::Authenticated { key: key@ },
            SessionState::Terminated { cause } => Phase::Terminated { cause },
        }
    }
}

impl View for Directive {
    type V = Order;

    open spec fn view(&self) -> Order {
        match *self {
            Directive::Wait => Order::Wait,
            Directive::Lookup(key) => Order::Lookup(key@),
            Directive::SendBinary(bytes) => Order::SendBinary(bytes@),
            Directive::CloseAndStop(cause) => Order::CloseAndStop(cause),
            Directive::Stop(cause) => Order::Stop(cause),
        }
    }
}

/// The cause recorded for a failure to read from the connection.
pub open spec fn cause_of(failure: LinkFailure) -> Termination {
    match failure {
        LinkFailure::ConnectionClosed => Termination::ConnectionClosedGraceful,
        LinkFailure::ConnectionReset => Termination::ConnectionClosedAbnormal,
        LinkFailure::Other => Termination::ConnectionError,
    }
}

/// What running a session reports for each cause of its end: a session that
/// ended with its connection reports success, one that was turned away
/// reports why.
pub open spec fn report_of(cause: Termination) -> Result<(), SessionError> {
    match cause {
        Termination::AuthenticationFailed => Err(SessionError::NoSuchKey),
        Termination::StoreUnavailable => Err(SessionError::LookupFailed),
        Termination::AlreadyConnected => Err(SessionError::AlreadyConnected),
        Termination::ConnectionClosedGraceful => Ok(()),
        Termination::ConnectionClosedAbnormal => Ok(()),
        Termination::ConnectionError => Ok(()),
    }
}

/// A step that ends the session and leaves the registry as it is.
pub open spec fn ended(
    registry: Map<Seq<char>, Sender<String>>,
    order: Order,
    cause: Termination,
) -> Step {
    Step { phase: Phase::Terminated { cause }, registry, order }
}

/// A step that ends the session with a close frame for the peer and leaves
/// the registry as it is.
pub open spec fn turned_away(registry: Map<Seq<char>, Sender<String>>, cause: Termination) -> Step {
    ended(registry, Order::CloseAndStop(cause), cause)
}

/// The step of a session that has accepted no key yet.
///
/// The first text frame is the key, and its lookup is ordered; while that
/// lookup is under way further text frames are passed over. A valid key is
/// registered with the session's sending half and the peer is greeted with
/// the display name, unless the key already has a live session. An unknown
/// key or a failed lookup ends the session with a close frame. A close
/// frame or a failed read ends it as well. Nothing is ever taken out of the
/// registry here.
pub open spec fn unauthenticated_step(
    pending: Option<Seq<char>>,
    registry: Map<Seq<char>, Sender<String>>,
    sender: Sender<String>,
    event: Event,
) -> Step {
    let stay = Step { phase: Phase::Unauthenticated { pending }, registry, order: Order::Wait };
    match event {
        Event::Frame(Inbound::Text(text)) => if pending is None {
            Step {
                phase: Phase::Unauthenticated { pending: Some(text@) },
                registry,
                order: Order::Lookup(text@),
            }
        } else {
            stay
        },
        Event::Frame(Inbound::Close) => ended(
            registry,
            Order::Stop(Termination::ConnectionClosedGraceful),
            Termination::ConnectionClosedGraceful,
        ),
        Event::Frame(_) => stay,
        Event::Failure(failure) => ended(registry, Order::Stop(cause_of(failure)), cause_of(failure)),
        Event::Lookup(outcome) => match pending {
            None => stay,
            Some(key) => match outcome {
                LookupOutcome::Found(name) => if registry.dom().contains(key) {
                    turned_away(registry, Termination::AlreadyConnected)
                } else {
                    Step {
                        phase: Phase::Authenticated { key },
                        registry: registry.insert(key, sender),
                        order: Order::SendBinary(envelope_wire(CODE_AUTHENTICATED, name@)),
                    }
                },
                LookupOutcome::NotFound => turned_away(registry, Termination::AuthenticationFailed),
                LookupOutcome::Failed => turned_away(registry, Termination::StoreUnavailable),
            },
        },
        Event::ChannelItem(_) => stay,
    }
}

/// The step of a session registered under `key`.
///
/// A payload from the channel goes to the peer as a pushed event. A close
/// frame or a failed read takes the key out of the registry and ends the
/// session. Every other frame, a channel without sending halves and a stray
/// lookup outcome change nothing.
pub open spec fn authenticated_step(
    key: Seq<char>,
    registry: Map<Seq<char>, Sender<String>>,
    event: Event,
) -> Step {
    let stay = Step { phase: Phase::Authenticated { key }, registry, order: Order::Wait };
    match event {
        Event::Frame(Inbound::Close) => ended(
            registry.remove(key),
            Order::Stop(Termination::ConnectionClosedGraceful),
            Termination::ConnectionClosedGraceful,
        ),
        Event::Frame(_) => stay,
        Event::Failure(failure) => ended(
            registry.remove(key),
            Order::Stop(cause_of(failure)),
            cause_of(failure),
        ),
        Event::Lookup(_) => stay,
        Event::ChannelItem(Some(item)) => Step {
            phase: Phase::Authenticated { key },
            registry,
            order: Order::SendBinary(envelope_wire(CODE_PUSHED_EVENT, item@)),
        },
        Event::ChannelItem(None) => stay,
    }
}

/// One step of a session: from the phase it is in, the registry, its
/// sending half and an event to the next phase, the registry afterwards
/// and the directive. A session that has ended stays so, touches nothing
/// and repeats why it ended.
pub open spec fn step(
    phase: Phase,
    registry: Map<Seq<char>, Sender<String>>,
    sender: Sender<String>,
    event: Event,
) -> Step {
    match phase {
        Phase::Unauthenticated { pending } => unauthenticated_step(
            pending,
            registry,
            sender,
            event,
        ),
        Phase::Authenticated { key } => authenticated_step(key, registry, event),
        Phase::Terminated { cause } => ended(registry, Order::Stop(cause), cause),
    }
}

/// What a run of steps leaves behind: the phase and the registry at its
/// end, and the directives it gave, in order.
pub struct Trace {
    pub phase: Phase,
    pub registry: Map<Seq<char>, Sender<String>>,
    pub orders: Seq<Order>,
}

/// A session taking a sequence of events, one step after the other.
pub open spec fn run(
    phase: Phase,
    registry: Map<Seq<char>, Sender<String>>,
    sender: Sender<String>,
    events: Seq<Event>,
) -> Trace
    decreases events.len(),
{
    if events.len() == 0 {
        Trace { phase, registry, orders: Seq::empty() }
    } else {
        let before = run(phase, registry, sender, events.drop_last());
        let last = step(before.phase, before.registry, sender, events.last());
        Trace {
            phase: last.phase,
            registry: last.registry,
            orders: before.orders.push(last.order),
        }
    }
}

/// The cause recorded for a failure to read from the connection.
pub fn termination_cause(failure: LinkFailure) -> (cause: Termination)
    ensures
        cause == cause_of(failure),
{
    match failure {
        LinkFailure::ConnectionClosed => Termination::ConnectionClosedGraceful,
        LinkFailure::ConnectionReset => Termination::ConnectionClosedAbnormal,
        LinkFailure::Other => Termination::ConnectionError,
    }
}

/// What running a session reports once it has ended for `cause`.
pub fn session_result(cause: Termination) -> (report: Result<(), SessionError>)
    ensures
        report == report_of(cause),
{
    match cause {
        Termination::AuthenticationFailed => Err(SessionError::NoSuchKey),
        Termination::StoreUnavailable => Err(SessionError::LookupFailed),
        Termination::AlreadyConnected => Err(SessionError::AlreadyConnected),
        Termination::ConnectionClosedGraceful => Ok(()),
        Termination::ConnectionClosedAbnormal => Ok(()),
        Termination::ConnectionError => Ok(()),
    }
}

/// The next state and the directive of a session that has accepted no key
/// yet.
pub fn step_unauthenticated(
    pending: Option<String>,
    sender: &Sender<String>,
    registry: &mut Registry,
    event: Event,
) -> (next: (SessionState, Directive))
    ensures
        next.0@ == unauthenticated_step(
            pending.deep_view(),
            old(registry)@,
            *sender,
            event,
        ).phase,
        final(registry)@ == unauthenticated_step(
            pending.deep_view(),
            old(registry)@,
            *sender,
            event,
        ).registry,
        next.1@ == unauthenticated_step(
            pending.deep_view(),
            old(registry)@,
            *sender,
            event,
        ).order,
{
    match event {
        Event::Frame(Inbound::Text(text)) => {
            if pending.is_none() {
                let key = text.clone();
                (SessionState::Unauthenticated { pending: Some(text) }, Directive::Lookup(key))
            } else {
                (SessionState::Unauthenticated { pending }, Directive::Wait)
            }
        },
        Event::Frame(Inbound::Close) => {
            let cause = Termination::ConnectionClosedGraceful;
            (SessionState::Terminated { cause }, Directive::Stop(cause))
        },
        Event::Frame(_) => (SessionState::Unauthenticated { pending }, Directive::Wait),
        Event::Failure(failure) => {
            let cause = termination_cause(failure);
            (SessionState::Terminated { cause }, Directive::Stop(cause))
        },
        Event::Lookup(outcome) => match pending {
            None => (SessionState::Unauthenticated { pending: None }, Directive::Wait),
            Some(key) => match outcome {
                LookupOutcome::Found(name) => {
                    match registry.insert(key.clone(), share(sender)) {
                        Ok(()) => {
                            let greeting = Envelope::authenticated(name).encode();
                            (SessionState::Authenticated { key }, Directive::SendBinary(greeting))
                        },
                        Err(_) => {
                            let cause = Termination::AlreadyConnected;
                            (SessionState::Terminated { cause }, Directive::CloseAndStop(cause))
                        },
                    }
                },
                LookupOutcome::NotFound => {
                    let cause = Termination::AuthenticationFailed;
                    (SessionState::Terminated { cause }, Directive::CloseAndStop(cause))
                },
                LookupOutcome::Failed => {
                    let cause = Termination::StoreUnavailable;
                    (SessionState::Terminated { cause }, Directive::CloseAndStop(cause))
                },
            },
        },
        Event::ChannelItem(_) => (SessionState::Unauthenticated { pending }, Directive::Wait),
    }
}

/// The next state and the directive of a session registered under `key`.
pub fn step_authenticated(key: String, registry: &mut Registry, event: Event) -> (next: (
    SessionState,
    Directive,
))
    ensures
        next.0@ == authenticated_step(key@, old(registry)@, event).phase,
        final(registry)@ == authenticated_step(key@, old(registry)@, event).registry,
        next.1@ == authenticated_step(key@, old(registry)@, event).order,
{
    match event {
        Event::Frame(Inbound::Close) => {
            let cause = Termination::ConnectionClosedGraceful;
            registry.remove(key.as_str());
            (SessionState::Terminated { cause }, Directive::Stop(cause))
        },
        Event::Frame(_) => (SessionState::Authenticated { key }, Directive::Wait),
        Event::Failure(failure) => {
            let cause = termination_cause(failure);
            registry.remove(key.as_str());
            (SessionState::Terminated { cause }, Directive::Stop(cause))
        },
        Event::Lookup(_) => (SessionState::Authenticated { key }, Directive::Wait),
        Event::ChannelItem(Some(item)) => {
            let pushed = Envelope::pushed_event(item).encode();
            (SessionState::Authenticated { key }, Directive::SendBinary(pushed))
        },
        Event::ChannelItem(None) => (SessionState::Authenticated { key }, Directive::Wait),
    }
}

/// One session: its state and the sending half of its channel.
pub struct Session {
    state: SessionState,
    sender: Sender<String>,
}

impl View for Session {
    type V = Phase;

    /// The phase the session is in.
    closed spec fn view(&self) -> Phase {
        self.state@
    }
}

impl Session {
    /// The sending half of the session's channel.
    pub closed spec fn channel(&self) -> Sender<String> {
        self.sender
    }

    /// Opens a session and its channel. The receiving half of the channel
    /// comes back beside the session: whoever runs the session waits on it.
    pub fn open() -> (pair: (Session, Receiver<String>))
        ensures
            pair.0@ == (Phase::Unauthenticated { pending: None }),
            channel_bound(pair.0.channel()) == SESSION_CHANNEL_CAPACITY,
    {
        let (sender, receiver) = open_session_channel();
        (Session { state: SessionState::Unauthenticated { pending: None }, sender }, receiver)
    }

    /// The state the session is in.
    pub fn state(&self) -> (state: &SessionState)
        ensures
            state@ == self@,
    {
        &self.state
    }

    /// Why the session ended, once it has.
    pub fn termination(&self) -> (cause: Option<Termination>)
        ensures
            cause == match self@ {
                Phase::Terminated { cause } => Some(cause),
                _ => None::<Termination>,
            },
    {
        match &self.state {
            SessionState::Terminated { cause } => Some(*cause),
            _ => None,
        }
    }

    /// Takes one event: moves the session to its next state, registers or
    /// deregisters it where the step says so, and returns what the caller
    /// is to do.
    pub fn on_event(&mut self, registry: &mut Registry, event: Event) -> (directive: Directive)
        ensures
            final(self)@ == step(old(self)@, old(registry)@, old(self).channel(), event).phase,
            final(registry)@ == step(
                old(self)@,
                old(registry)@,
                old(self).channel(),
                event,
            ).registry,
            directive@ == step(old(self)@, old(registry)@, old(self).channel(), event).order,
            final(self).channel() == old(self).channel(),
    {
        let mut state = SessionState::Unauthenticated { pending: None };
        core::mem::swap(&mut self.state, &mut state);
        let (next, directive) = match state {
            SessionState::Unauthenticated { pending } => step_unauthenticated(
                pending,
                &self.sender,
                registry,
                event,
            ),
            SessionState::Authenticated { key } => step_authenticated(key, registry, event),
            SessionState::Terminated { cause } => (
                SessionState::Terminated { cause },
                Directive::Stop(cause),
            ),
        };
        self.state = next;
        directive
    }
}

} // verus!
