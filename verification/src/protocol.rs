//! The discovery protocol and the actor's rules, as a function from a state
//! and an event to the next state and the actions to take.
//!
//! Seen from one node, the dealings with a remote address go through the
//! phases of [`Phase`]. Three of them are states in which an address rests
//! between two events, and the actor keeps them:
//!
//! - [`Phase::Unknown`]: nothing is going on with it;
//! - [`Phase::Connecting`]: it has announced itself and a connection to it
//!   was asked for;
//! - [`Phase::Established`]: a connection with it stands and a greeting has
//!   passed over it, so chat is sent to it.
//!
//! The other two are passed through within a step. An announcement is
//! answered in the very step that hears it, so no address rests in
//! [`Phase::Announced`]. A connection that reaches [`Phase::Closed`] is
//! forgotten: it never comes back, and its address is unknown again until a
//! new handshake starts over.

use vstd::prelude::*;
use crate::endpoint::{Endpoint, Transport, DISCOVERY_GROUP, DISCOVERY_PORT, IpAddress};
use crate::event::{ActionView, EventView, NetEventView};
use crate::message::{InternalMessageView, NetMessageView};
use crate::registry::{with_endpoint, without_endpoint};

verus! {

/// Where the dealings with a remote address stand.
#[derive(Clone, Copy, Debug, PartialEq, Eq, Structural)]
pub enum Phase {
    /// Nothing was heard of the address.
    Unknown,
    /// Its announcement was heard.
    Announced,
    /// A connection to it was asked for.
    Connecting,
    /// A connection with it stands, and a greeting has passed over it.
    Established,
    /// The connection is gone, or never came about.
    Closed,
}

impl Phase {
    /// Whether the protocol goes from this phase to `next` in one move: from
    /// unknown to announced when the announcement is heard, on to connecting
    /// when the connection is asked for, on to established when it stands
    /// and the peer is greeted, or to closed when it is refused; from
    /// unknown or connecting to established when the peer greets first; and
    /// from established to closed when the connection goes down. Nothing
    /// follows on closed.
    pub open spec fn leads_to(self, next: Phase) -> bool {
        match (self, next) {
            (Phase::Unknown, Phase::Announced) => true,
            (Phase::Announced, Phase::Connecting) => true,
            (Phase::Connecting, Phase::Established) => true,
            (Phase::Connecting, Phase::Closed) => true,
            (Phase::Unknown, Phase::Established) => true,
            (Phase::Established, Phase::Closed) => true,
            _ => false,
        }
    }

    /// The phase in which an address rests after its dealings have reached
    /// this one: where they are closed, the address is unknown again.
    pub open spec fn at_rest(self) -> Phase {
        if self == Phase::Closed {
            Phase::Unknown
        } else {
            self
        }
    }
}

/// All that the actor knows.
#[verifier::ext_equal]
pub struct ActorState {
    /// The name under which this node announces and greets.
    pub name: Seq<char>,
    /// The socket on which this node accepts connections.
    pub listen: Endpoint,
    /// The endpoints that chat is sent to, in the order they were added.
    pub connections: Seq<Endpoint>,
    /// The addresses to which a connection was asked for, each with the name
    /// it announced.
    pub pending: Map<Endpoint, Seq<char>>,
    /// Whether the actor still takes events.
    pub running: bool,
}

/// The socket that an announcement speaks of: the TCP port it names, at the
/// address it came from.
pub open spec fn announced_target(from: Endpoint, port: u16) -> Endpoint {
    Endpoint { ip: from.ip, port, transport: Transport::Tcp }
}

/// The address of the discovery group.
pub open spec fn discovery_group() -> Endpoint {
    Endpoint {
        ip: IpAddress::V4(DISCOVERY_GROUP),
        port: DISCOVERY_PORT,
        transport: Transport::Udp,
    }
}

/// One `UserMessage` with `text` for each connection, in their order.
pub open spec fn broadcast(connections: Seq<Endpoint>, text: Seq<char>) -> Seq<ActionView> {
    Seq::new(
        connections.len(),
        |i: int| ActionView::Send(connections[i], NetMessageView::UserMessage(text)),
    )
}

impl ActorState {
    /// The state of an actor that has seen no event.
    pub open spec fn initial(name: Seq<char>, listen: Endpoint) -> ActorState {
        ActorState {
            name,
            listen,
            connections: Seq::empty(),
            pending: Map::empty(),
            running: true,
        }
    }

    /// What holds of every state that the actor reaches: no connection is
    /// held twice, none is attempted while it stands, every connection and
    /// every attempt is a TCP one, and none of them is with the node's own
    /// listening socket.
    pub open spec fn wf(self) -> bool {
        &&& self.connections.no_duplicates()
        &&& !self.connections.contains(self.listen)
        &&& !self.pending.dom().contains(self.listen)
        &&& forall|e: Endpoint| #[trigger]
            self.pending.dom().contains(e) ==> !self.connections.contains(e)
        &&& forall|i: int|
            0 <= i < self.connections.len() ==> (#[trigger] self.connections[i]).transport
                == Transport::Tcp
        &&& forall|e: Endpoint| #[trigger]
            self.pending.dom().contains(e) ==> e.transport == Transport::Tcp
    }

    /// The phase in which a remote address rests.
    pub open spec fn phase(self, endpoint: Endpoint) -> Phase {
        if self.connections.contains(endpoint) {
            Phase::Established
        } else if self.pending.dom().contains(endpoint) {
            Phase::Connecting
        } else {
            Phase::Unknown
        }
    }

    /// The announcement that this node sends to the discovery group.
    pub open spec fn announcement(self) -> ActionView {
        ActionView::Send(discovery_group(), NetMessageView::HelloLan(self.name, self.listen.port))
    }

    /// An announcement came from `from`. The node's own, which the group
    /// sends back to it, is discarded: it is known by the socket it names,
    /// whatever name it carries. For an address that is unknown so far a
    /// connection is asked for. For any other nothing is done.
    pub open spec fn on_hello_lan(self, from: Endpoint, name: Seq<char>, port: u16) -> (
        ActorState,
        Seq<ActionView>,
    ) {
        let target = announced_target(from, port);
        if target == self.listen || self.phase(target) != Phase::Unknown {
            (self, Seq::empty())
        } else {
            (
                ActorState { pending: self.pending.insert(target, name), ..self },
                seq![ActionView::Connect(target)],
            )
        }
    }

    /// A greeting came from `from`. Over a TCP connection it establishes the
    /// peer: the endpoint joins the connections, an attempt to connect to it
    /// is given up, and the consumer learns the name. From anywhere else it
    /// is ignored.
    pub open spec fn on_hello_user(self, from: Endpoint, name: Seq<char>) -> (
        ActorState,
        Seq<ActionView>,
    ) {
        if from.transport == Transport::Tcp && from != self.listen {
            (
                ActorState {
                    connections: with_endpoint(self.connections, from),
                    pending: self.pending.remove(from),
                    ..self
                },
                seq![ActionView::Deliver(InternalMessageView::User(from, name))],
            )
        } else {
            (self, Seq::empty())
        }
    }

    /// Chat came from `from`. It is delivered if `from` is an established
    /// peer, and dropped if not: the consumer never hears of an endpoint
    /// before it has heard its name.
    pub open spec fn on_user_message(self, from: Endpoint, text: Seq<char>) -> (
        ActorState,
        Seq<ActionView>,
    ) {
        if self.connections.contains(from) {
            (self, seq![ActionView::Deliver(InternalMessageView::Content(from, text))])
        } else {
            (self, Seq::empty())
        }
    }

    /// An attempt to connect has ended. If it was asked for, it is no longer
    /// pending; if it succeeded as well, the peer is greeted and established
    /// under the name it had announced. A failure costs nothing but the
    /// attempt.
    pub open spec fn on_connected(self, endpoint: Endpoint, established: bool) -> (
        ActorState,
        Seq<ActionView>,
    ) {
        if !self.pending.dom().contains(endpoint) {
            (self, Seq::empty())
        } else if established {
            (
                ActorState {
                    connections: with_endpoint(self.connections, endpoint),
                    pending: self.pending.remove(endpoint),
                    ..self
                },
                seq![
                    ActionView::Send(endpoint, NetMessageView::HelloUser(self.name)),
                    ActionView::Deliver(
                        InternalMessageView::User(endpoint, self.pending[endpoint]),
                    ),
                ],
            )
        } else {
            (ActorState { pending: self.pending.remove(endpoint), ..self }, Seq::empty())
        }
    }

    /// The connection with `endpoint` is gone, or writing to it failed: it
    /// leaves the connections. Nothing is announced again.
    pub open spec fn on_closed(self, endpoint: Endpoint) -> (ActorState, Seq<ActionView>) {
        (
            ActorState { connections: without_endpoint(self.connections, endpoint), ..self },
            Seq::empty(),
        )
    }

    /// Something happened on a socket. A frame that was no message, and a
    /// peer that has merely connected, change nothing.
    pub open spec fn on_network(self, event: NetEventView) -> (ActorState, Seq<ActionView>) {
        match event {
            NetEventView::Message(from, NetMessageView::HelloLan(name, port)) => self.on_hello_lan(
                from,
                name,
                port,
            ),
            NetEventView::Message(from, NetMessageView::HelloUser(name)) => self.on_hello_user(
                from,
                name,
            ),
            NetEventView::Message(from, NetMessageView::UserMessage(text)) => self.on_user_message(
                from,
                text,
            ),
            NetEventView::AddedEndpoint(_) => (self, Seq::empty()),
            NetEventView::RemovedEndpoint(endpoint) => self.on_closed(endpoint),
            NetEventView::DeserializationError(_) => (self, Seq::empty()),
            NetEventView::Connected(endpoint, established) => self.on_connected(
                endpoint,
                established,
            ),
        }
    }

    /// The phases that the dealings with `endpoint` go through in the step
    /// that `event` sets off, from the phase in which the address rests
    /// before to the one they end in. An event that does not concern the
    /// address leaves it where it is.
    pub open spec fn passage(self, event: EventView, endpoint: Endpoint) -> Seq<Phase> {
        let before = self.phase(endpoint);
        if !self.running {
            seq![before]
        } else {
            match event {
                EventView::Network(
                    NetEventView::Message(from, NetMessageView::HelloLan(_, port)),
                ) => if announced_target(from, port) == endpoint && endpoint != self.listen
                    && before == Phase::Unknown {
                    seq![Phase::Unknown, Phase::Announced, Phase::Connecting]
                } else {
                    seq![before]
                },
                EventView::Network(
                    NetEventView::Message(from, NetMessageView::HelloUser(_)),
                ) => if from == endpoint && endpoint.transport == Transport::Tcp && endpoint
                    != self.listen && before != Phase::Established {
                    seq![before, Phase::Established]
                } else {
                    seq![before]
                },
                EventView::Network(NetEventView::Connected(to, established)) => if to == endpoint
                    && before == Phase::Connecting {
                    if established {
                        seq![Phase::Connecting, Phase::Established]
                    } else {
                        seq![Phase::Connecting, Phase::Closed]
                    }
                } else {
                    seq![before]
                },
                EventView::Network(NetEventView::RemovedEndpoint(gone)) => if gone == endpoint
                    && before == Phase::Established {
                    seq![Phase::Established, Phase::Closed]
                } else {
                    seq![before]
                },
                EventView::SendFailed(gone) => if gone == endpoint && before
                    == Phase::Established {
                    seq![Phase::Established, Phase::Closed]
                } else {
                    seq![before]
                },
                _ => seq![before],
            }
        }
    }

    /// One step of the actor: the state after `event` and the actions it
    /// asks for, in the order in which they are to be taken. An actor that
    /// has stopped ignores every event.
    pub open spec fn step(self, event: EventView) -> (ActorState, Seq<ActionView>) {
        if !self.running {
            (self, Seq::empty())
        } else {
            match event {
                EventView::SendUiMsgToNetwork(text) => (self, broadcast(self.connections, text)),
                EventView::Network(net_event) => self.on_network(net_event),
                EventView::Close => (ActorState { running: false, ..self }, seq![ActionView::Stop]),
                EventView::SendFailed(endpoint) => self.on_closed(endpoint),
                EventView::ConsumerGone => (
                    ActorState { running: false, ..self },
                    seq![ActionView::Stop],
                ),
            }
        }
    }
}

} // verus!
