//! The network actor: the one owner of the connection registry and of the
//! discovery state.
//!
//! It takes one event at a time, finishes with it, and answers with the
//! actions that the event calls for. What it does is `ActorState::step`; this
//! module is the code that runs it.

use vstd::prelude::*;
use crate::directory::NameDirectory;
use crate::endpoint::Endpoint;
use crate::event::{frame_event, Action, ActionView, Event, EventView, NetEvent};
use crate::laws::lemma_step_keeps_wf;
use crate::message::{InternalMessage, NetMessage, NetMessageView};
use crate::protocol::{broadcast, ActorState, Phase};
use crate::registry::ConnectionSet;

verus! {

/// The actor.
pub struct NetworkActor {
    name: String,
    listen: Endpoint,
    connections: ConnectionSet,
    pending: NameDirectory,
    running: bool,
}

impl View for NetworkActor {
    type V = ActorState;

    closed spec fn view(&self) -> ActorState {
        ActorState {
            name: self.name@,
            listen: self.listen,
            connections: self.connections@,
            pending: self.pending@,
            running: self.running,
        }
    }
}

fn no_action() -> (actions: Vec<Action>)
    ensures
        actions.deep_view() == Seq::<ActionView>::empty(),
{
    let actions: Vec<Action> = Vec::new();
    assert(actions.deep_view() =~= Seq::<ActionView>::empty());
    actions
}

fn one_action(action: Action) -> (actions: Vec<Action>)
    ensures
        actions.deep_view() == seq![action@],
{
    let mut actions: Vec<Action> = Vec::new();
    actions.push(action);
    assert(actions.deep_view() =~= seq![action@]);
    actions
}

impl NetworkActor {
    /// The state is one that the protocol reaches.
    pub closed spec fn wf(&self) -> bool {
        &&& self.connections.wf()
        &&& self.pending.wf()
        &&& self@.wf()
    }

    /// An actor that goes by `name` and accepts connections on `listen`. It
    /// has no connection yet.
    pub fn new(name: String, listen: Endpoint) -> (actor: NetworkActor)
        ensures
            actor.wf(),
            actor@ == ActorState::initial(name@, listen),
    {
        let actor = NetworkActor {
            name,
            listen,
            connections: ConnectionSet::new(),
            pending: NameDirectory::new(),
            running: true,
        };
        assert(actor@ =~= ActorState::initial(name@, listen));
        actor
    }

    /// The announcement to send once the sockets are open.
    pub fn announce(&self) -> (action: Action)
        ensures
            action@ == self@.announcement(),
    {
        Action::Send(
            Endpoint::discovery_group(),
            NetMessage::HelloLan(self.name.clone(), self.listen.port),
        )
    }

    /// Whether the actor still takes events.
    pub fn is_running(&self) -> (b: bool)
        ensures
            b == self@.running,
    {
        self.running
    }

    /// The name under which this node announces and greets.
    pub fn name(&self) -> (name: &String)
        ensures
            name@ == self@.name,
    {
        &self.name
    }

    /// The socket on which this node accepts connections.
    pub fn listen(&self) -> (endpoint: Endpoint)
        ensures
            endpoint == self@.listen,
    {
        self.listen
    }

    /// The endpoints that chat is sent to now.
    pub fn snapshot(&self) -> (endpoints: Vec<Endpoint>)
        ensures
            endpoints@ == self@.connections,
    {
        self.connections.snapshot()
    }

    /// The phase in which a remote address rests: unknown, connecting or
    /// established.
    pub fn phase(&self, endpoint: Endpoint) -> (phase: Phase)
        requires
            self.wf(),
        ensures
            phase == self@.phase(endpoint),
    {
        if self.connections.contains(endpoint) {
            Phase::Established
        } else if self.pending.contains(endpoint) {
            Phase::Connecting
        } else {
            Phase::Unknown
        }
    }

    fn fan_out(&self, text: &String) -> (actions: Vec<Action>)
        ensures
            actions.deep_view() == broadcast(self@.connections, text@),
    {
        let targets = self.connections.snapshot();
        let mut actions: Vec<Action> = Vec::new();
        let mut i: usize = 0;
        while i < targets.len()
            invariant
                i <= targets@.len(),
                actions@.len() == i,
                forall|k: int|
                    0 <= k < i ==> (#[trigger] actions@[k])@ == ActionView::Send(
                        targets@[k],
                        NetMessageView::UserMessage(text@),
                    ),
            decreases targets@.len() - i,
        {
            actions.push(Action::Send(targets[i], NetMessage::UserMessage(text.clone())));
            i += 1;
        }
        assert(actions.deep_view() =~= broadcast(self@.connections, text@));
        actions
    }

    fn on_hello_lan(&mut self, from: Endpoint, name: String, port: u16) -> (actions: Vec<Action>)
        requires
            old(self).wf(),
        ensures
            final(self).connections.wf(),
            final(self).pending.wf(),
            final(self)@ == old(self)@.on_hello_lan(from, name@, port).0,
            actions.deep_view() == old(self)@.on_hello_lan(from, name@, port).1,
    {
        let target = Endpoint::tcp(from.ip, port);
        if target == self.listen || self.connections.contains(target) || self.pending.contains(
            target,
        ) {
            no_action()
        } else {
            self.pending.insert(target, name);
            assert(self@ =~= old(self)@.on_hello_lan(from, name@, port).0);
            one_action(Action::Connect(target))
        }
    }

    fn on_hello_user(&mut self, from: Endpoint, name: String) -> (actions: Vec<Action>)
        requires
            old(self).wf(),
        ensures
            final(self).connections.wf(),
            final(self).pending.wf(),
            final(self)@ == old(self)@.on_hello_user(from, name@).0,
            actions.deep_view() == old(self)@.on_hello_user(from, name@).1,
    {
        if from.is_tcp() && from != self.listen {
            self.connections.add(from);
            self.pending.remove(from);
            assert(self@ =~= old(self)@.on_hello_user(from, name@).0);
            one_action(Action::Deliver(InternalMessage::User(from, name)))
        } else {
            no_action()
        }
    }

    fn on_user_message(&self, from: Endpoint, text: String) -> (actions: Vec<Action>)
        ensures
            actions.deep_view() == self@.on_user_message(from, text@).1,
    {
        if self.connections.contains(from) {
            one_action(Action::Deliver(InternalMessage::Content(from, text)))
        } else {
            no_action()
        }
    }

    fn on_connected(&mut self, endpoint: Endpoint, established: bool) -> (actions: Vec<Action>)
        requires
            old(self).wf(),
        ensures
            final(self).connections.wf(),
            final(self).pending.wf(),
            final(self)@ == old(self)@.on_connected(endpoint, established).0,
            actions.deep_view() == old(self)@.on_connected(endpoint, established).1,
    {
        match self.pending.remove(endpoint) {
            None => {
                assert(self@ =~= old(self)@);
                no_action()
            },
            Some(peer) => {
                if established {
                    self.connections.add(endpoint);
                    assert(self@ =~= old(self)@.on_connected(endpoint, established).0);
                    let mut actions: Vec<Action> = Vec::new();
                    actions.push(Action::Send(endpoint, NetMessage::HelloUser(self.name.clone())));
                    actions.push(Action::Deliver(InternalMessage::User(endpoint, peer)));
                    assert(actions.deep_view() =~= old(self)@.on_connected(
                        endpoint,
                        established,
                    ).1);
                    actions
                } else {
                    assert(self@ =~= old(self)@.on_connected(endpoint, established).0);
                    no_action()
                }
            },
        }
    }

    fn on_closed(&mut self, endpoint: Endpoint) -> (actions: Vec<Action>)
        requires
            old(self).wf(),
        ensures
            final(self).connections.wf(),
            final(self).pending.wf(),
            final(self)@ == old(self)@.on_closed(endpoint).0,
            actions.deep_view() == old(self)@.on_closed(endpoint).1,
    {
        self.connections.remove(endpoint);
        assert(self@ =~= old(self)@.on_closed(endpoint).0);
        no_action()
    }

    fn stop(&mut self) -> (actions: Vec<Action>)
        ensures
            final(self).connections == old(self).connections,
            final(self).pending == old(self).pending,
            final(self)@ == (ActorState { running: false, ..old(self)@ }),
            actions.deep_view() == seq![ActionView::Stop],
    {
        self.running = false;
        one_action(Action::Stop)
    }

    /// Takes one event and answers with the actions it calls for, in the
    /// order in which they are to be taken.
    pub fn handle(&mut self, event: Event) -> (actions: Vec<Action>)
        requires
            old(self).wf(),
        ensures
            final(self).wf(),
            final(self)@ == old(self)@.step(event@).0,
            actions.deep_view() == old(self)@.step(event@).1,
    {
        proof {
            lemma_step_keeps_wf(self@, event@);
        }
        if !self.running {
            return no_action();
        }
        match event {
            Event::SendUiMsgToNetwork(text) => self.fan_out(&text),
            Event::Network(NetEvent::Message(from, NetMessage::HelloLan(name, port))) => {
                self.on_hello_lan(from, name, port)
            },
            Event::Network(NetEvent::Message(from, NetMessage::HelloUser(name))) => {
                self.on_hello_user(from, name)
            },
            Event::Network(NetEvent::Message(from, NetMessage::UserMessage(text))) => {
                self.on_user_message(from, text)
            },
            Event::Network(NetEvent::AddedEndpoint(_)) => no_action(),
            Event::Network(NetEvent::RemovedEndpoint(endpoint)) => self.on_closed(endpoint),
            Event::Network(NetEvent::DeserializationError(_)) => no_action(),
            Event::Network(NetEvent::Connected(endpoint, established)) => {
                self.on_connected(endpoint, established)
            },
            Event::Close => self.stop(),
            Event::SendFailed(endpoint) => self.on_closed(endpoint),
            Event::ConsumerGone => self.stop(),
        }
    }

    /// Takes a frame that arrived from `from`: reads it and handles what it
    /// amounts to. A frame that is no message changes nothing, and the
    /// connection it came over stays as it is.
    pub fn on_frame(&mut self, from: Endpoint, frame: &[u8]) -> (actions: Vec<Action>)
        requires
            old(self).wf(),
        ensures
            final(self).wf(),
            final(self)@ == old(self)@.step(EventView::Network(frame_event(from, frame@))).0,
            actions.deep_view() == old(self)@.step(
                EventView::Network(frame_event(from, frame@)),
            ).1,
    {
        self.handle(Event::Network(NetEvent::from_frame(from, frame)))
    }
}

} // verus!
