//! What the actor is told, and what it answers.
//!
//! The actor touches no socket. The program that owns the sockets turns what
//! happens on them into an [`Event`], hands it to the actor, and performs
//! each [`Action`] of the answer. Where an action fails, it says so with the
//! next event.

use vstd::prelude::*;
use crate::codec::{decode, spec_decode};
use crate::endpoint::Endpoint;
use crate::message::{InternalMessage, InternalMessageView, NetMessage, NetMessageView};

verus! {

/// Something that happened on a socket.
#[derive(Debug, PartialEq, Eq)]
pub enum NetEvent {
    /// A frame arrived from this endpoint and was read as this message.
    Message(Endpoint, NetMessage),
    /// This endpoint has connected to the listening socket.
    AddedEndpoint(Endpoint),
    /// The connection with this endpoint is gone.
    RemovedEndpoint(Endpoint),
    /// A frame arrived from this endpoint and was no message.
    DeserializationError(Endpoint),
    /// The attempt to connect to this endpoint has ended: `true` if the
    /// connection stands, `false` if it was refused or timed out.
    Connected(Endpoint, bool),
}

/// What a [`NetEvent`] holds, with its message by its view.
pub enum NetEventView {
    Message(Endpoint, NetMessageView),
    AddedEndpoint(Endpoint),
    RemovedEndpoint(Endpoint),
    DeserializationError(Endpoint),
    Connected(Endpoint, bool),
}

impl View for NetEvent {
    type V = NetEventView;

    open spec fn view(&self) -> NetEventView {
        match *self {
            NetEvent::Message(from, message) => NetEventView::Message(from, message@),
            NetEvent::AddedEndpoint(endpoint) => NetEventView::AddedEndpoint(endpoint),
            NetEvent::RemovedEndpoint(endpoint) => NetEventView::RemovedEndpoint(endpoint),
            NetEvent::DeserializationError(from) => NetEventView::DeserializationError(from),
            NetEvent::Connected(endpoint, established) => NetEventView::Connected(
                endpoint,
                established,
            ),
        }
    }
}

/// The event that a frame from `from` amounts to.
pub open spec fn frame_event(from: Endpoint, frame: Seq<u8>) -> NetEventView {
    match spec_decode(frame) {
        Ok(message) => NetEventView::Message(from, message),
        Err(_) => NetEventView::DeserializationError(from),
    }
}

impl NetEvent {
    /// Reads a frame that arrived from `from`: the message it holds, or
    /// the report that it holds none.
    pub fn from_frame(from: Endpoint, frame: &[u8]) -> (event: NetEvent)
        ensures
            event@ == frame_event(from, frame@),
    {
        match decode(frame) {
            Ok(message) => NetEvent::Message(from, message),
            Err(_) => NetEvent::DeserializationError(from),
        }
    }
}

/// One input of the actor.
#[derive(Debug, PartialEq, Eq)]
pub enum Event {
    /// The consumer wants this text sent to every connected peer.
    SendUiMsgToNetwork(String),
    /// Something happened on a socket.
    Network(NetEvent),
    /// The consumer wants the actor to stop.
    Close,
    /// A frame for this endpoint could not be written: its connection is
    /// closed or broken.
    SendFailed(Endpoint),
    /// Nobody takes what the actor delivers any more.
    ConsumerGone,
}

/// What an [`Event`] holds, with its text by its view.
pub enum EventView {
    SendUiMsgToNetwork(Seq<char>),
    Network(NetEventView),
    Close,
    SendFailed(Endpoint),
    ConsumerGone,
}

impl View for Event {
    type V = EventView;

    open spec fn view(&self) -> EventView {
        match *self {
            Event::SendUiMsgToNetwork(text) => EventView::SendUiMsgToNetwork(text@),
            Event::Network(net_event) => EventView::Network(net_event@),
            Event::Close => EventView::Close,
            Event::SendFailed(endpoint) => EventView::SendFailed(endpoint),
            Event::ConsumerGone => EventView::ConsumerGone,
        }
    }
}

/// One thing the actor wants done.
#[derive(Debug, PartialEq, Eq)]
pub enum Action {
    /// Open a connection to this endpoint, and report the outcome as
    /// [`NetEvent::Connected`].
    Connect(Endpoint),
    /// Write this message to this endpoint, and report a failure as
    /// [`Event::SendFailed`].
    Send(Endpoint, NetMessage),
    /// Hand this to the consumer, and report its absence as
    /// [`Event::ConsumerGone`].
    Deliver(InternalMessage),
    /// Leave the event loop.
    Stop,
}

/// What an [`Action`] holds, with its message by its view.
pub enum ActionView {
    Connect(Endpoint),
    Send(Endpoint, NetMessageView),
    Deliver(InternalMessageView),
    Stop,
}

impl View for Action {
    type V = ActionView;

    open spec fn view(&self) -> ActionView {
        match *self {
            Action::Connect(endpoint) => ActionView::Connect(endpoint),
            Action::Send(to, message) => ActionView::Send(to, message@),
            Action::Deliver(message) => ActionView::Deliver(message@),
            Action::Stop => ActionView::Stop,
        }
    }
}

impl DeepView for Action {
    type V = ActionView;

    open spec fn deep_view(&self) -> ActionView {
        self@
    }
}

} // verus!
