//! What holds of every run of the protocol.

use vstd::prelude::*;
use crate::codec::spec_decode;
use crate::endpoint::{Endpoint, Transport};
use crate::event::{frame_event, ActionView, EventView, NetEventView};
use crate::message::{InternalMessageView, NetMessageView};
use crate::protocol::{announced_target, broadcast, ActorState, Phase};
use crate::registry::{
    lemma_with_adds_one,
    lemma_without_keeps_the_rest,
    with_endpoint,
    without_endpoint,
};

verus! {

/// The state and the actions after a run of events, taken one at a time.
pub open spec fn replay(s: ActorState, events: Seq<EventView>) -> (ActorState, Seq<ActionView>)
    decreases events.len(),
{
    if events.len() == 0 {
        (s, Seq::empty())
    } else {
        let (before, earlier) = replay(s, events.drop_last());
        let (after, last) = before.step(events.last());
        (after, earlier + last)
    }
}

proof fn lemma_added_keeps_wf(s: ActorState, endpoint: Endpoint)
    requires
        s.wf(),
        endpoint.transport == Transport::Tcp,
        endpoint != s.listen,
    ensures
        (ActorState {
            connections: with_endpoint(s.connections, endpoint),
            pending: s.pending.remove(endpoint),
            ..s
        }).wf(),
{
    lemma_with_adds_one(s.connections, endpoint);
}

proof fn lemma_closed_keeps_wf(s: ActorState, endpoint: Endpoint)
    requires
        s.wf(),
    ensures
        s.on_closed(endpoint).0.wf(),
{
    lemma_without_keeps_the_rest(s.connections, endpoint);
    let after = without_endpoint(s.connections, endpoint);
    assert forall|i: int| 0 <= i < after.len() implies (#[trigger] after[i]).transport
        == Transport::Tcp by {
        assert(after.contains(after[i]));
        let j = choose|j: int| 0 <= j < s.connections.len() && s.connections[j] == after[i];
        assert(s.connections[j].transport == Transport::Tcp);
    }
}

/// Every step leads from a well-formed state to a well-formed state. So no
/// connection is ever held twice, and the node's own listening socket is
/// never among the connections nor among the attempts.
pub proof fn lemma_step_keeps_wf(s: ActorState, event: EventView)
    requires
        s.wf(),
    ensures
        s.step(event).0.wf(),
{
    if s.running {
        match event {
            EventView::Network(NetEventView::Message(from, NetMessageView::HelloUser(_))) => {
                if from.transport == Transport::Tcp && from != s.listen {
                    lemma_added_keeps_wf(s, from);
                }
            },
            EventView::Network(NetEventView::Connected(endpoint, established)) => {
                if s.pending.dom().contains(endpoint) && established {
                    lemma_added_keeps_wf(s, endpoint);
                }
            },
            EventView::Network(NetEventView::RemovedEndpoint(endpoint)) => {
                lemma_closed_keeps_wf(s, endpoint);
            },
            EventView::SendFailed(endpoint) => {
                lemma_closed_keeps_wf(s, endpoint);
            },
            _ => {},
        }
    }
}

/// The node never connects to itself. Its own announcement, which the group
/// sends back to it, is known by the socket it names and dropped: no action
/// follows and nothing changes, whatever name the announcement carries.
pub proof fn lemma_own_announcement_is_discarded(
    s: ActorState,
    from: Endpoint,
    name: Seq<char>,
    port: u16,
)
    requires
        announced_target(from, port) == s.listen,
    ensures
        s.step(
            EventView::Network(NetEventView::Message(from, NetMessageView::HelloLan(name, port))),
        ) == (s, Seq::<ActionView>::empty()),
{
}

/// No step asks for a connection to the node's own listening socket, and
/// that socket is not among the connections afterwards.
pub proof fn lemma_never_connects_to_itself(s: ActorState, event: EventView)
    requires
        s.wf(),
    ensures
        forall|i: int|
            0 <= i < s.step(event).1.len() ==> #[trigger] s.step(event).1[i] != ActionView::Connect(
                s.listen,
            ),
        !s.step(event).0.connections.contains(s.listen),
        s.step(event).0.listen == s.listen,
{
    lemma_step_keeps_wf(s, event);
}

/// Whatever events come, in whatever order: the actor never asks for a
/// connection to its own listening socket, and that socket is never among
/// its connections.
pub proof fn lemma_never_its_own_peer(name: Seq<char>, listen: Endpoint, events: Seq<EventView>)
    ensures
        replay(ActorState::initial(name, listen), events).0.wf(),
        replay(ActorState::initial(name, listen), events).0.listen == listen,
        !replay(ActorState::initial(name, listen), events).0.connections.contains(listen),
        forall|i: int|
            0 <= i < replay(ActorState::initial(name, listen), events).1.len()
                ==> #[trigger] replay(ActorState::initial(name, listen), events).1[i]
                != ActionView::Connect(listen),
    decreases events.len(),
{
    let start = ActorState::initial(name, listen);
    if events.len() > 0 {
        lemma_never_its_own_peer(name, listen, events.drop_last());
        let (before, earlier) = replay(start, events.drop_last());
        lemma_never_connects_to_itself(before, events.last());
        let added = before.step(events.last()).1;
        let all = replay(start, events).1;
        assert forall|i: int| 0 <= i < all.len() implies #[trigger] all[i] != ActionView::Connect(
            listen,
        ) by {
            if i < earlier.len() {
                assert(all[i] == earlier[i]);
            } else {
                assert(all[i] == added[i - earlier.len()]);
            }
        }
    }
}

/// The action tells the consumer the name of `endpoint`.
pub open spec fn names(action: ActionView, endpoint: Endpoint) -> bool {
    action matches ActionView::Deliver(InternalMessageView::User(e, _)) && e == endpoint
}

/// The action hands the consumer chat from `endpoint`.
pub open spec fn quotes(action: ActionView, endpoint: Endpoint) -> bool {
    action matches ActionView::Deliver(InternalMessageView::Content(e, _)) && e == endpoint
}

/// Among the first `count` actions one tells the name of `endpoint`.
pub open spec fn named_within(actions: Seq<ActionView>, count: int, endpoint: Endpoint) -> bool {
    exists|i: int| 0 <= i < count && i < actions.len() && names(#[trigger] actions[i], endpoint)
}

/// Chat from an endpoint is delivered only after its name.
pub open spec fn names_come_first(actions: Seq<ActionView>) -> bool {
    forall|j: int, endpoint: Endpoint|
        0 <= j < actions.len() && #[trigger] quotes(actions[j], endpoint) ==> named_within(
            actions,
            j,
            endpoint,
        )
}

spec fn members_are_named(s: ActorState, actions: Seq<ActionView>) -> bool {
    forall|endpoint: Endpoint| #[trigger]
        s.connections.contains(endpoint) ==> named_within(actions, actions.len() as int, endpoint)
}

proof fn lemma_named_within_grows(
    actions: Seq<ActionView>,
    more: Seq<ActionView>,
    count: int,
    endpoint: Endpoint,
)
    requires
        named_within(actions, count, endpoint),
    ensures
        named_within(actions + more, count, endpoint),
        named_within(actions + more, (actions + more).len() as int, endpoint),
{
    let i = choose|i: int|
        0 <= i < count && i < actions.len() && names(#[trigger] actions[i], endpoint);
    assert((actions + more)[i] == actions[i]);
}

proof fn lemma_step_keeps_order(s: ActorState, actions: Seq<ActionView>, event: EventView)
    requires
        s.wf(),
        members_are_named(s, actions),
        names_come_first(actions),
    ensures
        members_are_named(s.step(event).0, actions + s.step(event).1),
        names_come_first(actions + s.step(event).1),
{
    let (after, added) = s.step(event);
    let all = actions + added;
    let n = actions.len() as int;
    // What was in order stays in order.
    assert forall|j: int, endpoint: Endpoint|
        0 <= j < n && #[trigger] quotes(all[j], endpoint) implies named_within(
        all,
        j,
        endpoint,
    ) by {
        assert(quotes(actions[j], endpoint));
        assert(all[j] == actions[j]);
        assert(named_within(actions, j, endpoint));
        lemma_named_within_grows(actions, added, j, endpoint);
    }
    // Every member of before is still named.
    assert forall|endpoint: Endpoint| #[trigger]
        s.connections.contains(endpoint) implies named_within(all, all.len() as int, endpoint) by {
        lemma_named_within_grows(actions, added, n, endpoint);
    }
    // Chat that this step delivers comes from a member of before.
    assert forall|j: int, endpoint: Endpoint|
        n <= j < all.len() && #[trigger] quotes(all[j], endpoint) implies named_within(
        all,
        j,
        endpoint,
    ) by {
        assert(all[j] == added[j - n]);
        assert(s.connections.contains(endpoint));
        lemma_named_within_grows(actions, added, n, endpoint);
        let i = choose|i: int|
            0 <= i < n && i < actions.len() && names(#[trigger] actions[i], endpoint);
        assert(all[i] == actions[i]);
    }
    // Every member of after is a member of before or named by this step.
    assert forall|endpoint: Endpoint| #[trigger]
        after.connections.contains(endpoint) implies named_within(
        all,
        all.len() as int,
        endpoint,
    ) by {
        if !s.connections.contains(endpoint) {
            lemma_new_member_is_named(s, event, endpoint);
            let k = choose|k: int| 0 <= k < added.len() && names(#[trigger] added[k], endpoint);
            assert(all[n + k] == added[k]);
        }
    }
}

proof fn lemma_new_member_is_named(s: ActorState, event: EventView, endpoint: Endpoint)
    requires
        s.wf(),
        !s.connections.contains(endpoint),
        s.step(event).0.connections.contains(endpoint),
    ensures
        exists|k: int|
            0 <= k < s.step(event).1.len() && names(#[trigger] s.step(event).1[k], endpoint),
{
    let added = s.step(event).1;
    match event {
        EventView::Network(NetEventView::Message(from, NetMessageView::HelloUser(_))) => {
            lemma_with_adds_one(s.connections, from);
            assert(names(added[0], endpoint));
        },
        EventView::Network(NetEventView::Connected(e, established)) => {
            lemma_with_adds_one(s.connections, e);
            assert(names(added[1], endpoint));
        },
        EventView::Network(NetEventView::RemovedEndpoint(e)) => {
            lemma_without_keeps_the_rest(s.connections, e);
        },
        EventView::SendFailed(e) => {
            lemma_without_keeps_the_rest(s.connections, e);
        },
        _ => {},
    }
}

proof fn lemma_replay_keeps_order(name: Seq<char>, listen: Endpoint, events: Seq<EventView>)
    ensures
        replay(ActorState::initial(name, listen), events).0.wf(),
        members_are_named(
            replay(ActorState::initial(name, listen), events).0,
            replay(ActorState::initial(name, listen), events).1,
        ),
        names_come_first(replay(ActorState::initial(name, listen), events).1),
    decreases events.len(),
{
    let start = ActorState::initial(name, listen);
    if events.len() > 0 {
        lemma_replay_keeps_order(name, listen, events.drop_last());
        let (before, earlier) = replay(start, events.drop_last());
        lemma_step_keeps_wf(before, events.last());
        lemma_step_keeps_order(before, earlier, events.last());
    }
}

/// Whatever events come, in whatever order: the actor hands chat from an
/// endpoint to the consumer only after it has handed over that endpoint's
/// name. The consumer takes what is handed over in that same order, so it
/// never has to label chat from an endpoint it cannot name.
pub proof fn lemma_name_before_chat(name: Seq<char>, listen: Endpoint, events: Seq<EventView>)
    ensures
        names_come_first(replay(ActorState::initial(name, listen), events).1),
        replay(ActorState::initial(name, listen), events).0.wf(),
{
    lemma_replay_keeps_order(name, listen, events);
}

/// After a connection is gone its endpoint is not among the connections;
/// after a new handshake from the same address it is there again.
pub proof fn lemma_gone_until_greeted_again(s: ActorState, endpoint: Endpoint, name: Seq<char>)
    requires
        s.wf(),
        s.running,
        endpoint.transport == Transport::Tcp,
        endpoint != s.listen,
    ensures
        ({
            let gone = s.step(EventView::Network(NetEventView::RemovedEndpoint(endpoint))).0;
            let back = gone.step(
                EventView::Network(
                    NetEventView::Message(endpoint, NetMessageView::HelloUser(name)),
                ),
            ).0;
            &&& !gone.connections.contains(endpoint)
            &&& forall|e: Endpoint|
                e != endpoint ==> (gone.connections.contains(e) <==> s.connections.contains(e))
            &&& back.connections.contains(endpoint)
        }),
{
    let gone = s.step(EventView::Network(NetEventView::RemovedEndpoint(endpoint))).0;
    lemma_without_keeps_the_rest(s.connections, endpoint);
    lemma_with_adds_one(gone.connections, endpoint);
}

/// A text that the consumer submits goes once to every connection and to
/// nobody else, and leaves the state as it is.
pub proof fn lemma_broadcast_reaches_each_once(s: ActorState, text: Seq<char>)
    requires
        s.wf(),
        s.running,
    ensures
        ({
            let (after, actions) = s.step(EventView::SendUiMsgToNetwork(text));
            &&& after == s
            &&& actions.len() == s.connections.len()
            &&& forall|i: int|
                0 <= i < actions.len() ==> #[trigger] actions[i] == ActionView::Send(
                    s.connections[i],
                    NetMessageView::UserMessage(text),
                )
            &&& forall|i: int, j: int|
                0 <= i < actions.len() && 0 <= j < actions.len() && i != j ==> actions[i]
                    != actions[j]
            &&& forall|e: Endpoint|
                actions.contains(ActionView::Send(e, NetMessageView::UserMessage(text)))
                    <==> s.connections.contains(e)
        }),
{
    let actions = broadcast(s.connections, text);
    assert forall|e: Endpoint|
        actions.contains(ActionView::Send(e, NetMessageView::UserMessage(text)))
            <==> s.connections.contains(e) by {
        let wanted = ActionView::Send(e, NetMessageView::UserMessage(text));
        if actions.contains(wanted) {
            let i = choose|i: int| 0 <= i < actions.len() && actions[i] == wanted;
            assert(s.connections[i] == e);
        }
        if s.connections.contains(e) {
            let i = choose|i: int| 0 <= i < s.connections.len() && s.connections[i] == e;
            assert(actions[i] == wanted);
        }
    }
}

/// A frame that is no message does no harm: no action follows, nothing
/// changes, the connection it came over included. So whatever comes next is
/// handled as if the frame had never arrived.
pub proof fn lemma_malformed_frame_changes_nothing(s: ActorState, from: Endpoint, frame: Seq<u8>)
    requires
        spec_decode(frame) is Err,
    ensures
        frame_event(from, frame) == NetEventView::DeserializationError(from),
        s.step(EventView::Network(frame_event(from, frame))) == (s, Seq::<ActionView>::empty()),
{
}

/// The connections change only by a handshake or a teardown: an endpoint
/// that joins them was greeted in this step, and one that leaves them was
/// reported closed or unwritable.
pub proof fn lemma_connections_change_by_handshake_or_teardown(
    s: ActorState,
    event: EventView,
    endpoint: Endpoint,
)
    requires
        s.wf(),
    ensures
        !s.connections.contains(endpoint) && s.step(event).0.connections.contains(endpoint) ==> {
            ||| event matches EventView::Network(
                NetEventView::Message(from, NetMessageView::HelloUser(_)),
            ) && from == endpoint
            ||| event == EventView::Network(NetEventView::Connected(endpoint, true))
                && s.phase(endpoint) == Phase::Connecting
        },
        s.connections.contains(endpoint) && !s.step(event).0.connections.contains(endpoint) ==> {
            ||| event == EventView::Network(NetEventView::RemovedEndpoint(endpoint))
            ||| event == EventView::SendFailed(endpoint)
        },
{
    match event {
        EventView::Network(NetEventView::Message(from, NetMessageView::HelloUser(_))) => {
            lemma_with_adds_one(s.connections, from);
        },
        EventView::Network(NetEventView::Connected(e, established)) => {
            lemma_with_adds_one(s.connections, e);
        },
        EventView::Network(NetEventView::RemovedEndpoint(e)) => {
            lemma_without_keeps_the_rest(s.connections, e);
        },
        EventView::SendFailed(e) => {
            lemma_without_keeps_the_rest(s.connections, e);
        },
        _ => {},
    }
}

/// The event reports a failure that concerns `endpoint` alone: a frame from
/// it that was no message, a connection to it that was refused, a frame for
/// it that could not be written, or its connection going down.
pub open spec fn is_failure_of(event: EventView, endpoint: Endpoint) -> bool {
    ||| event == EventView::Network(NetEventView::DeserializationError(endpoint))
    ||| event == EventView::Network(NetEventView::Connected(endpoint, false))
    ||| event == EventView::Network(NetEventView::RemovedEndpoint(endpoint))
    ||| event == EventView::SendFailed(endpoint)
}

/// Every step moves the dealings with every address along the protocol:
/// they start in the phase in which the address rested, each phase they go
/// through leads to the next, and the address rests afterwards where they
/// ended.
pub proof fn lemma_phases_follow_the_protocol(s: ActorState, event: EventView, endpoint: Endpoint)
    requires
        s.wf(),
    ensures
        s.passage(event, endpoint).len() >= 1,
        s.passage(event, endpoint).first() == s.phase(endpoint),
        forall|i: int|
            0 <= i < s.passage(event, endpoint).len() - 1 ==> (#[trigger] s.passage(
                event,
                endpoint,
            )[i]).leads_to(s.passage(event, endpoint)[i + 1]),
        s.passage(event, endpoint).last().at_rest() == s.step(event).0.phase(endpoint),
{
    if s.running {
        match event {
            EventView::Network(NetEventView::Message(from, NetMessageView::HelloUser(_))) => {
                lemma_with_adds_one(s.connections, from);
            },
            EventView::Network(NetEventView::Connected(to, _)) => {
                lemma_with_adds_one(s.connections, to);
            },
            EventView::Network(NetEventView::RemovedEndpoint(gone)) => {
                lemma_without_keeps_the_rest(s.connections, gone);
            },
            EventView::SendFailed(gone) => {
                lemma_without_keeps_the_rest(s.connections, gone);
            },
            _ => {},
        }
    }
}

/// What is closed stays closed: the protocol leads from there to no phase.
/// Only new dealings with the address, which start from unknown, bring it
/// back.
pub proof fn lemma_closed_is_final(next: Phase)
    ensures
        !Phase::Closed.leads_to(next),
        Phase::Closed.at_rest() == Phase::Unknown,
{
}

/// A failure stays with the endpoint it concerns. The actor goes on
/// running, asks for nothing, and every other address is in the phase it
/// was in.
pub proof fn lemma_failures_are_isolated(s: ActorState, event: EventView, endpoint: Endpoint)
    requires
        s.wf(),
        is_failure_of(event, endpoint),
    ensures
        s.step(event).0.running == s.running,
        s.step(event).1 == Seq::<ActionView>::empty(),
        forall|other: Endpoint|
            other != endpoint ==> s.step(event).0.phase(other) == s.phase(other),
{
    lemma_without_keeps_the_rest(s.connections, endpoint);
}

} // verus!
