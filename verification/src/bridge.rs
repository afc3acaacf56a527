//! The event bridge: the two queues between the actor and the consumer.
//!
//! One queue carries what the actor delivers, the other what the consumer
//! asks for. Both are unbounded and first in, first out. Taking from an
//! empty queue returns at once with nothing, so neither side ever waits for
//! the other. The bridge is a plain value: where the two sides run on two
//! threads, the program puts it behind a lock.

use std::collections::VecDeque;
use vstd::prelude::*;
use crate::event::{Event, EventView};
use crate::message::{InternalMessage, InternalMessageView};

verus! {

/// The consumer has hung up: nothing can be delivered any more.
#[derive(Clone, Copy, Debug, PartialEq, Eq, Structural)]
pub struct ChannelClosedError;

/// What the two queues hold, oldest first.
#[verifier::ext_equal]
pub struct BridgeView {
    /// Delivered by the actor and not yet taken by the consumer.
    pub inbound: Seq<InternalMessageView>,
    /// Asked for by the consumer and not yet taken by the actor.
    pub outbound: Seq<EventView>,
    /// Whether the consumer is still there.
    pub open: bool,
}

impl BridgeView {
    /// Two empty queues and a consumer at their end.
    pub open spec fn fresh() -> BridgeView {
        BridgeView { inbound: Seq::empty(), outbound: Seq::empty(), open: true }
    }

    /// After the actor has delivered `message`: it waits behind all that
    /// waited, unless the consumer has hung up.
    pub open spec fn deliver(self, message: InternalMessageView) -> BridgeView {
        if self.open {
            BridgeView { inbound: self.inbound.push(message), ..self }
        } else {
            self
        }
    }

    /// After the consumer has polled, and what it got: the message that
    /// waited longest, if any waited.
    pub open spec fn poll(self) -> (BridgeView, Option<InternalMessageView>) {
        if self.inbound.len() > 0 {
            (BridgeView { inbound: self.inbound.drop_first(), ..self }, Some(self.inbound[0]))
        } else {
            (self, None)
        }
    }

    /// After the consumer has asked for `command`: it waits behind all that
    /// the consumer asked for before.
    pub open spec fn ask(self, command: EventView) -> BridgeView {
        BridgeView { outbound: self.outbound.push(command), ..self }
    }

    /// After the actor has taken a command, and what it got: the one that
    /// waited longest, if any waited.
    pub open spec fn next_command(self) -> (BridgeView, Option<EventView>) {
        if self.outbound.len() > 0 {
            (BridgeView { outbound: self.outbound.drop_first(), ..self }, Some(self.outbound[0]))
        } else {
            (self, None)
        }
    }

    /// After the consumer has hung up: what waited for it is thrown away.
    pub open spec fn hang_up(self) -> BridgeView {
        BridgeView { inbound: Seq::empty(), open: false, ..self }
    }
}

/// The two queues.
pub struct Bridge {
    inbound: VecDeque<InternalMessage>,
    outbound: VecDeque<Event>,
    open: bool,
}

/// What `poll` returns, by its view.
pub open spec fn message_view(message: Option<InternalMessage>) -> Option<InternalMessageView> {
    match message {
        Some(m) => Some(m@),
        None => None,
    }
}

/// What `next_command` returns, by its view.
pub open spec fn command_view(command: Option<Event>) -> Option<EventView> {
    match command {
        Some(c) => Some(c@),
        None => None,
    }
}

impl View for Bridge {
    type V = BridgeView;

    closed spec fn view(&self) -> BridgeView {
        BridgeView {
            inbound: Seq::new(self.inbound@.len(), |i: int| self.inbound@[i]@),
            outbound: Seq::new(self.outbound@.len(), |i: int| self.outbound@[i]@),
            open: self.open,
        }
    }
}

impl Bridge {
    /// A bridge with two empty queues and a consumer at its end.
    pub fn new() -> (bridge: Bridge)
        ensures
            bridge@ == BridgeView::fresh(),
    {
        let bridge = Bridge { inbound: VecDeque::new(), outbound: VecDeque::new(), open: true };
        assert(bridge@ =~= BridgeView::fresh());
        bridge
    }

    /// The actor's side: queues a message for the consumer, behind all that
    /// wait already. Fails, and queues nothing, once the consumer has hung
    /// up.
    pub fn deliver(&mut self, message: InternalMessage) -> (sent: Result<(), ChannelClosedError>)
        ensures
            sent is Ok <==> old(self)@.open,
            final(self)@ == old(self)@.deliver(message@),
    {
        if self.open {
            self.inbound.push_back(message);
            assert(self@ =~= old(self)@.deliver(message@));
            Ok(())
        } else {
            Err(ChannelClosedError)
        }
    }

    /// The consumer's side: takes the message that has waited longest, or
    /// nothing if none waits. It never waits itself.
    pub fn poll(&mut self) -> (message: Option<InternalMessage>)
        ensures
            (final(self)@, message_view(message)) == old(self)@.poll(),
    {
        let message = self.inbound.pop_front();
        assert(self@ =~= old(self)@.poll().0);
        message
    }

    /// The consumer's side: queues a text to be sent to every peer, behind
    /// all that the consumer has asked for already.
    pub fn submit(&mut self, text: String)
        ensures
            final(self)@ == old(self)@.ask(EventView::SendUiMsgToNetwork(text@)),
    {
        self.outbound.push_back(Event::SendUiMsgToNetwork(text));
        assert(self@ =~= old(self)@.ask(EventView::SendUiMsgToNetwork(text@)));
    }

    /// The consumer's side: asks the actor to stop, once it has done what
    /// was asked for before.
    pub fn close(&mut self)
        ensures
            final(self)@ == old(self)@.ask(EventView::Close),
    {
        self.outbound.push_back(Event::Close);
        assert(self@ =~= old(self)@.ask(EventView::Close));
    }

    /// The consumer's side: hangs up. What waits for the consumer is thrown
    /// away, and the actor is told with its next delivery.
    pub fn hang_up(&mut self)
        ensures
            final(self)@ == old(self)@.hang_up(),
    {
        self.inbound.clear();
        self.open = false;
        assert(self@ =~= old(self)@.hang_up());
    }

    /// The actor's side: takes the command that has waited longest, or
    /// nothing if none waits.
    pub fn next_command(&mut self) -> (command: Option<Event>)
        ensures
            (final(self)@, command_view(command)) == old(self)@.next_command(),
    {
        let command = self.outbound.pop_front();
        assert(self@ =~= old(self)@.next_command().0);
        command
    }

    /// Whether the consumer is still there.
    pub fn is_open(&self) -> (b: bool)
        ensures
            b == self@.open,
    {
        self.open
    }

    /// How many messages wait for the consumer.
    pub fn waiting(&self) -> (n: usize)
        ensures
            n == self@.inbound.len(),
    {
        self.inbound.len()
    }
}

/// One use of the queue towards the consumer.
pub enum Move {
    /// The actor delivers this message.
    Deliver(InternalMessageView),
    /// The consumer polls.
    Poll,
}

/// A bridge, with all that was ever delivered over it and all that the
/// consumer ever got from it, each oldest first.
pub struct Trace {
    pub bridge: BridgeView,
    pub delivered: Seq<InternalMessageView>,
    pub received: Seq<InternalMessageView>,
}

/// The trace of a fresh bridge after `moves`, in their order.
pub open spec fn play(moves: Seq<Move>) -> Trace
    decreases moves.len(),
{
    if moves.len() == 0 {
        Trace { bridge: BridgeView::fresh(), delivered: Seq::empty(), received: Seq::empty() }
    } else {
        let before = play(moves.drop_last());
        match moves.last() {
            Move::Deliver(message) => Trace {
                bridge: before.bridge.deliver(message),
                delivered: before.delivered.push(message),
                ..before
            },
            Move::Poll => match before.bridge.poll().1 {
                Some(message) => Trace {
                    bridge: before.bridge.poll().0,
                    received: before.received.push(message),
                    ..before
                },
                None => before,
            },
        }
    }
}

/// First in, first out: however deliveries and polls alternate, what the
/// consumer has got so far, followed by what still waits for it, is what the
/// actor has delivered, in the order of delivery. Nothing is lost, doubled
/// or reordered on the way.
pub proof fn lemma_first_in_first_out(moves: Seq<Move>)
    ensures
        play(moves).bridge.open,
        play(moves).received + play(moves).bridge.inbound == play(moves).delivered,
    decreases moves.len(),
{
    if moves.len() > 0 {
        lemma_first_in_first_out(moves.drop_last());
        let before = play(moves.drop_last());
        let after = play(moves);
        assert(after.received + after.bridge.inbound =~= after.delivered);
    }
}

} // verus!
