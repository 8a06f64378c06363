//! What holds of every session and every registry, proved from the step
//! function and the registry's model.

use crate::envelope::{envelope_wire, CODE_AUTHENTICATED, CODE_PUSHED_EVENT};
use crate::session::{run, step, Event, Inbound, LookupOutcome, Order, Phase, Termination};
use tokio::sync::mpsc::Sender;
use vstd::prelude::*;

verus! {

/// An event that ends a registered session: a close frame, or a failure to
/// read from the connection.
pub open spec fn ends_connection(event: Event) -> bool {
    event matches Event::Frame(Inbound::Close) || event is Failure
}

/// The pushed-event orders for a sequence of payloads, one for each, in
/// their order.
pub open spec fn pushed_orders(items: Seq<String>) -> Seq<Order> {
    Seq::new(items.len(), |i: int| Order::SendBinary(envelope_wire(CODE_PUSHED_EVENT, items[i]@)))
}

/// The events of a channel yielding a sequence of payloads, one for each,
/// in their order.
pub open spec fn channel_events(items: Seq<String>) -> Seq<Event> {
    Seq::new(items.len(), |i: int| Event::ChannelItem(Some(items[i])))
}

/// A session that has ended stays ended, leaves the registry alone and
/// only ever tells its caller to stop, whatever events it is handed.
pub proof fn lemma_ended_session_is_inert(
    cause: Termination,
    registry: Map<Seq<char>, Sender<String>>,
    sender: Sender<String>,
    events: Seq<Event>,
)
    ensures
        run(Phase::Terminated { cause }, registry, sender, events).phase == (Phase::Terminated {
            cause,
        }),
        run(Phase::Terminated { cause }, registry, sender, events).registry == registry,
        forall|i: int|
            0 <= i < events.len() ==> run(
                Phase::Terminated { cause },
                registry,
                sender,
                events,
            ).orders[i] == Order::Stop(cause),
        run(Phase::Terminated { cause }, registry, sender, events).orders.len() == events.len(),
    decreases events.len(),
{
    if events.len() > 0 {
        lemma_ended_session_is_inert(cause, registry, sender, events.drop_last());
    }
}

/// Every event gets exactly one directive, in the order of the events.
pub proof fn lemma_one_order_per_event(
    phase: Phase,
    registry: Map<Seq<char>, Sender<String>>,
    sender: Sender<String>,
    events: Seq<Event>,
)
    ensures
        run(phase, registry, sender, events).orders.len() == events.len(),
    decreases events.len(),
{
    if events.len() > 0 {
        lemma_one_order_per_event(phase, registry, sender, events.drop_last());
    }
}

/// As long as a session is unauthenticated it has sent the peer nothing:
/// no greeting and no pushed event.
pub proof fn lemma_nothing_sent_before_authentication(
    registry: Map<Seq<char>, Sender<String>>,
    sender: Sender<String>,
    events: Seq<Event>,
)
    requires
        run(Phase::Unauthenticated { pending: None }, registry, sender, events).phase
            is Unauthenticated,
    ensures
        forall|i: int|
            0 <= i < events.len() ==> !(run(
                Phase::Unauthenticated { pending: None },
                registry,
                sender,
                events,
            ).orders[i] is SendBinary),
    decreases events.len(),
{
    if events.len() > 0 {
        lemma_one_order_per_event(
            Phase::Unauthenticated { pending: None },
            registry,
            sender,
            events.drop_last(),
        );
        lemma_nothing_sent_before_authentication(registry, sender, events.drop_last());
    }
}

/// A session that presents a key the store does not know is told to close
/// the connection, never greets the peer, and leaves the registry as it
/// found it, whatever events follow.
pub proof fn lemma_unknown_key_never_registered(
    key: String,
    registry: Map<Seq<char>, Sender<String>>,
    sender: Sender<String>,
    later: Seq<Event>,
)
    ensures
        ({
            let asked = step(
                Phase::Unauthenticated { pending: None },
                registry,
                sender,
                Event::Frame(Inbound::Text(key)),
            );
            let answered = step(
                asked.phase,
                asked.registry,
                sender,
                Event::Lookup(LookupOutcome::NotFound),
            );
            let after = run(answered.phase, answered.registry, sender, later);
            &&& asked.order == Order::Lookup(key@)
            &&& asked.registry == registry
            &&& answered.order == Order::CloseAndStop(Termination::AuthenticationFailed)
            &&& answered.phase == (Phase::Terminated { cause: Termination::AuthenticationFailed })
            &&& answered.registry == registry
            &&& after.registry == registry
            &&& forall|i: int| 0 <= i < later.len() ==> !(after.orders[i] is SendBinary)
        }),
{
    lemma_ended_session_is_inert(Termination::AuthenticationFailed, registry, sender, later);
}

/// Right after a store has found a session's key, the registry holds that
/// key: under this session's sending half if the key was free, and then the
/// session is authenticated and greets the peer with the display name; as
/// it was if the key already had a live session, and then this session is
/// turned away. No other key is touched.
pub proof fn lemma_registered_after_authentication(
    key: Seq<char>,
    name: String,
    registry: Map<Seq<char>, Sender<String>>,
    sender: Sender<String>,
)
    ensures
        ({
            let found = step(
                Phase::Unauthenticated { pending: Some(key) },
                registry,
                sender,
                Event::Lookup(LookupOutcome::Found(name)),
            );
            &&& found.registry.dom().contains(key)
            &&& found.registry.remove(key) == registry.remove(key)
            &&& !registry.dom().contains(key) ==> {
                &&& found.phase == (Phase::Authenticated { key })
                &&& found.registry[key] == sender
                &&& found.order == Order::SendBinary(envelope_wire(CODE_AUTHENTICATED, name@))
            }
            &&& registry.dom().contains(key) ==> {
                &&& found.phase == (Phase::Terminated { cause: Termination::AlreadyConnected })
                &&& found.registry == registry
                &&& found.order == Order::CloseAndStop(Termination::AlreadyConnected)
            }
        }),
{
    let found = step(
        Phase::Unauthenticated { pending: Some(key) },
        registry,
        sender,
        Event::Lookup(LookupOutcome::Found(name)),
    );
    assert(found.registry.remove(key) =~= registry.remove(key));
}

/// Once the connection of a registered session has ended, by a close frame
/// or by any failure, its key is out of the registry, no other key has been
/// touched, and the session has ended; whatever events follow change
/// nothing of that.
pub proof fn lemma_deregistered_after_close(
    key: Seq<char>,
    registry: Map<Seq<char>, Sender<String>>,
    sender: Sender<String>,
    event: Event,
    later: Seq<Event>,
)
    requires
        ends_connection(event),
    ensures
        ({
            let closed = step(Phase::Authenticated { key }, registry, sender, event);
            let after = run(closed.phase, closed.registry, sender, later);
            &&& closed.phase is Terminated
            &&& closed.order is Stop
            &&& closed.registry == registry.remove(key)
            &&& !closed.registry.dom().contains(key)
            &&& after.registry == registry.remove(key)
            &&& after.phase == closed.phase
        }),
{
    let closed = step(Phase::Authenticated { key }, registry, sender, event);
    lemma_ended_session_is_inert(closed.phase->cause, closed.registry, sender, later);
}

/// A session that runs undisturbed changes the registry at its own key
/// alone, and only for as long as it is authenticated: before that and
/// after its end the registry is as the session found it, and in between it
/// holds one entry more, the session's sending half under the session's key.
pub proof fn lemma_session_leaves_registry_as_found(
    registry: Map<Seq<char>, Sender<String>>,
    sender: Sender<String>,
    events: Seq<Event>,
)
    ensures
        match run(Phase::Unauthenticated { pending: None }, registry, sender, events).phase {
            Phase::Unauthenticated { .. } => run(
                Phase::Unauthenticated { pending: None },
                registry,
                sender,
                events,
            ).registry == registry,
            Phase::Authenticated { key } => !registry.dom().contains(key) && run(
                Phase::Unauthenticated { pending: None },
                registry,
                sender,
                events,
            ).registry == registry.insert(key, sender),
            Phase::Terminated { .. } => run(
                Phase::Unauthenticated { pending: None },
                registry,
                sender,
                events,
            ).registry == registry,
        },
    decreases events.len(),
{
    if events.len() > 0 {
        lemma_session_leaves_registry_as_found(registry, sender, events.drop_last());
        let before = run(
            Phase::Unauthenticated { pending: None },
            registry,
            sender,
            events.drop_last(),
        );
        if let Phase::Authenticated { key } = before.phase {
            assert(registry.insert(key, sender).remove(key) =~= registry);
        }
    }
}

/// A registered session hands the payloads of its channel to the peer one
/// for one and in the order in which the channel yielded them, each as a
/// pushed event; it stays registered and leaves the registry alone.
pub proof fn lemma_relay_keeps_order(
    key: Seq<char>,
    registry: Map<Seq<char>, Sender<String>>,
    sender: Sender<String>,
    items: Seq<String>,
)
    ensures
        run(Phase::Authenticated { key }, registry, sender, channel_events(items)).orders
            == pushed_orders(items),
        run(Phase::Authenticated { key }, registry, sender, channel_events(items)).phase == (
        Phase::Authenticated { key }),
        run(Phase::Authenticated { key }, registry, sender, channel_events(items)).registry
            == registry,
    decreases items.len(),
{
    if items.len() > 0 {
        lemma_relay_keeps_order(key, registry, sender, items.drop_last());
        assert(channel_events(items).drop_last() =~= channel_events(items.drop_last()));
        assert(pushed_orders(items) =~= pushed_orders(items.drop_last()).push(
            Order::SendBinary(envelope_wire(CODE_PUSHED_EVENT, items.last()@)),
        ));
    }
}

/// Taking a key out of the registry twice leaves the registry as taking it
/// out once does.
pub proof fn lemma_deregistration_idempotent(
    registry: Map<Seq<char>, Sender<String>>,
    key: Seq<char>,
)
    ensures
        registry.remove(key).remove(key) == registry.remove(key),
{
    assert(registry.remove(key).remove(key) =~= registry.remove(key));
}

/// Two events that each end the connection of a registered session, one
/// after the other, leave the registry as the first alone does: the key is
/// taken out once, and the second event finds the session ended.
pub proof fn lemma_second_close_changes_nothing(
    key: Seq<char>,
    registry: Map<Seq<char>, Sender<String>>,
    sender: Sender<String>,
    first: Event,
    second: Event,
)
    requires
        ends_connection(first),
        ends_connection(second),
    ensures
        run(Phase::Authenticated { key }, registry, sender, seq![first, second]).registry == run(
            Phase::Authenticated { key },
            registry,
            sender,
            seq![first],
        ).registry,
        run(Phase::Authenticated { key }, registry, sender, seq![first, second]).registry
            == registry.remove(key),
{
    reveal_with_fuel(run, 3);
    assert(seq![first, second].drop_last() =~= seq![first]);
    assert(seq![first].drop_last() =~= Seq::<Event>::empty());
}

} // verus!
