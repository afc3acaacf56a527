//! The messages that nodes exchange, and those handed to the consumer.

use vstd::prelude::*;
use crate::endpoint::Endpoint;

verus! {

/// A message as it travels between two nodes.
#[derive(Debug, PartialEq, Eq)]
pub enum NetMessage {
    /// Sent to the discovery group: the sender's name and the TCP port on
    /// which it accepts connections.
    HelloLan(String, u16),
    /// Sent first on a new connection: the sender's name.
    HelloUser(String),
    /// A line of chat.
    UserMessage(String),
}

/// What a [`NetMessage`] holds, with its text as a sequence of characters.
pub enum NetMessageView {
    HelloLan(Seq<char>, u16),
    HelloUser(Seq<char>),
    UserMessage(Seq<char>),
}

impl View for NetMessage {
    type V = NetMessageView;

    open spec fn view(&self) -> NetMessageView {
        match *self {
            NetMessage::HelloLan(name, port) => NetMessageView::HelloLan(name@, port),
            NetMessage::HelloUser(name) => NetMessageView::HelloUser(name@),
            NetMessage::UserMessage(text) => NetMessageView::UserMessage(text@),
        }
    }
}

impl DeepView for NetMessage {
    type V = NetMessageView;

    open spec fn deep_view(&self) -> NetMessageView {
        self@
    }
}

impl Clone for NetMessage {
    fn clone(&self) -> (copy: NetMessage)
        ensures
            copy@ == self@,
    {
        match self {
            NetMessage::HelloLan(name, port) => NetMessage::HelloLan(name.clone(), *port),
            NetMessage::HelloUser(name) => NetMessage::HelloUser(name.clone()),
            NetMessage::UserMessage(text) => NetMessage::UserMessage(text.clone()),
        }
    }
}

impl NetMessageView {
    /// The one string that every message carries.
    pub open spec fn text(self) -> Seq<char> {
        match self {
            NetMessageView::HelloLan(name, _) => name,
            NetMessageView::HelloUser(name) => name,
            NetMessageView::UserMessage(text) => text,
        }
    }
}

/// What the actor hands to the consumer.
#[derive(Debug, PartialEq, Eq)]
pub enum InternalMessage {
    /// The peer behind this endpoint has told its name.
    User(Endpoint, String),
    /// The peer behind this endpoint has said something.
    Content(Endpoint, String),
}

/// What an [`InternalMessage`] holds, with its text as a sequence of
/// characters.
pub enum InternalMessageView {
    User(Endpoint, Seq<char>),
    Content(Endpoint, Seq<char>),
}

impl View for InternalMessage {
    type V = InternalMessageView;

    open spec fn view(&self) -> InternalMessageView {
        match *self {
            InternalMessage::User(endpoint, name) => InternalMessageView::User(endpoint, name@),
            InternalMessage::Content(endpoint, text) => InternalMessageView::Content(
                endpoint,
                text@,
            ),
        }
    }
}

impl DeepView for InternalMessage {
    type V = InternalMessageView;

    open spec fn deep_view(&self) -> InternalMessageView {
        self@
    }
}

impl Clone for InternalMessage {
    fn clone(&self) -> (copy: InternalMessage)
        ensures
            copy@ == self@,
    {
        match self {
            InternalMessage::User(endpoint, name) => InternalMessage::User(*endpoint, name.clone()),
            InternalMessage::Content(endpoint, text) => InternalMessage::Content(
                *endpoint,
                text.clone(),
            ),
        }
    }
}

impl InternalMessageView {
    /// The endpoint that the message is about.
    pub open spec fn endpoint(self) -> Endpoint {
        match self {
            InternalMessageView::User(endpoint, _) => endpoint,
            InternalMessageView::Content(endpoint, _) => endpoint,
        }
    }
}

} // verus!
