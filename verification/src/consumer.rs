//! The consumer's side: what it makes of the messages handed to it, and how
//! it words a line that the user has typed.

use vstd::prelude::*;
use vstd::string::StringExecFns;
use crate::directory::NameDirectory;
use crate::endpoint::Endpoint;
use crate::event::ActionView;
use crate::laws::{named_within, names, names_come_first, quotes};
use crate::message::{InternalMessage, InternalMessageView};

verus! {

/// What became of a message that was handed to the consumer.
#[derive(Debug, PartialEq, Eq)]
pub enum Observation {
    /// A name was taken down. There is nothing to show.
    Identified,
    /// A line to show.
    Line(String),
    /// Chat from an endpoint without a name. It was dropped.
    UnknownSender,
}

/// What an [`Observation`] holds, with its text as a sequence of characters.
pub enum ObservationView {
    Identified,
    Line(Seq<char>),
    UnknownSender,
}

impl View for Observation {
    type V = ObservationView;

    open spec fn view(&self) -> ObservationView {
        match *self {
            Observation::Identified => ObservationView::Identified,
            Observation::Line(line) => ObservationView::Line(line@),
            Observation::UnknownSender => ObservationView::UnknownSender,
        }
    }
}

/// The line that shows `text` as said by `name`: the name, a colon and a
/// space, the text, and a line feed.
pub open spec fn labelled(name: Seq<char>, text: Seq<char>) -> Seq<char> {
    name + seq![':', ' '] + text + seq!['\n']
}

/// The line that shows what the user has said: as [`labelled`], under the
/// name `me`.
pub open spec fn echoed(text: Seq<char>) -> Seq<char> {
    labelled(seq!['m', 'e'], text)
}

/// The directory after `message`, and what the consumer makes of it.
pub open spec fn observed(known: Map<Endpoint, Seq<char>>, message: InternalMessageView) -> (
    Map<Endpoint, Seq<char>>,
    ObservationView,
) {
    match message {
        InternalMessageView::User(endpoint, name) => (
            known.insert(endpoint, name),
            ObservationView::Identified,
        ),
        InternalMessageView::Content(endpoint, text) => if known.dom().contains(endpoint) {
            (known, ObservationView::Line(labelled(known[endpoint], text)))
        } else {
            (known, ObservationView::UnknownSender)
        },
    }
}

/// The line that shows `text` as said by `name`.
pub fn label(name: &str, text: &str) -> (line: String)
    ensures
        line@ == labelled(name@, text@),
{
    proof {
        reveal_strlit(": ");
        reveal_strlit("\n");
    }
    let mut line = String::from_str(name);
    line.append(": ");
    line.append(text);
    line.append("\n");
    assert(": "@ =~= seq![':', ' ']);
    assert("\n"@ =~= seq!['\n']);
    line
}

impl NameDirectory {
    /// Takes a message from the actor. A name is taken down; chat is worded
    /// as a line under the name of its sender. Chat from an endpoint that
    /// has no name is dropped, which is told apart from a line.
    pub fn observe(&mut self, message: InternalMessage) -> (seen: Observation)
        requires
            old(self).wf(),
        ensures
            final(self).wf(),
            (final(self)@, seen@) == observed(old(self)@, message@),
    {
        match message {
            InternalMessage::User(endpoint, name) => {
                self.insert(endpoint, name);
                Observation::Identified
            },
            InternalMessage::Content(endpoint, text) => {
                match self.name_of(endpoint) {
                    Some(name) => Observation::Line(label(name.as_str(), text.as_str())),
                    None => Observation::UnknownSender,
                }
            },
        }
    }
}

/// What `str::trim` returns for a text: the text without the white space at
/// its two ends.
pub uninterp spec fn trimmed(text: Seq<char>) -> Seq<char>;

/// `str::trim`: the slice of `text` between its leading and its trailing
/// white space.
#[verifier::external_body]
fn trim(text: &str) -> (inner: &str)
    ensures
        inner@ == trimmed(text@),
{
    text.trim()
}

/// The line that shows `text` as the user's own.
pub fn echo(text: &str) -> (line: String)
    ensures
        line@ == echoed(text@),
{
    proof {
        reveal_strlit("me");
    }
    assert("me"@ =~= seq!['m', 'e']);
    label("me", text)
}

/// Takes what the user has typed: the text to submit, which is what was
/// typed without the white space at its ends, and the line that shows it as
/// the user's own.
pub fn compose(typed: &str) -> (out: (String, String))
    ensures
        out.0@ == trimmed(typed@),
        out.1@ == echoed(trimmed(typed@)),
{
    let text = trim(typed);
    (String::from_str(text), echo(text))
}

/// The directory after the consumer has taken, in their order, what the
/// actions deliver.
pub open spec fn directory_after(known: Map<Endpoint, Seq<char>>, actions: Seq<ActionView>) -> Map<
    Endpoint,
    Seq<char>,
>
    decreases actions.len(),
{
    if actions.len() == 0 {
        known
    } else {
        let before = directory_after(known, actions.drop_last());
        match actions.last() {
            ActionView::Deliver(message) => observed(before, message).0,
            _ => before,
        }
    }
}

proof fn lemma_named_is_listed(
    known: Map<Endpoint, Seq<char>>,
    actions: Seq<ActionView>,
    endpoint: Endpoint,
)
    requires
        named_within(actions, actions.len() as int, endpoint),
    ensures
        directory_after(known, actions).dom().contains(endpoint),
    decreases actions.len(),
{
    let i = choose|i: int|
        0 <= i < actions.len() && i < actions.len() && names(#[trigger] actions[i], endpoint);
    if i < actions.len() - 1 {
        assert(actions.drop_last()[i] == actions[i]);
        lemma_named_is_listed(known, actions.drop_last(), endpoint);
    }
}

/// Where names come before chat, the consumer can label all chat: when it
/// takes the message at place `at`, its directory, which started empty or
/// not, lists the sender. So with the actions of any run of the actor no
/// chat is ever dropped for want of a name.
pub proof fn lemma_every_chat_is_labelled(
    known: Map<Endpoint, Seq<char>>,
    actions: Seq<ActionView>,
    at: int,
)
    requires
        names_come_first(actions),
        0 <= at < actions.len(),
        actions[at] is Deliver,
    ensures
        observed(directory_after(known, actions.take(at)), actions[at]->Deliver_0).1
            !is UnknownSender,
{
    match actions[at] {
        ActionView::Deliver(InternalMessageView::Content(endpoint, _)) => {
            assert(quotes(actions[at], endpoint));
            assert(named_within(actions, at, endpoint));
            let i = choose|i: int|
                0 <= i < at && i < actions.len() && names(#[trigger] actions[i], endpoint);
            assert(actions.take(at)[i] == actions[i]);
            assert(named_within(actions.take(at), actions.take(at).len() as int, endpoint));
            lemma_named_is_listed(known, actions.take(at), endpoint);
        },
        _ => {},
    }
}

} // verus!
