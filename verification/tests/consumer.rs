use lan_chat::bridge::{Bridge, ChannelClosedError};
use lan_chat::consumer::{compose, echo, label, Observation};
use lan_chat::directory::NameDirectory;
use lan_chat::endpoint::{Endpoint, IpAddress};
use lan_chat::event::Event;
use lan_chat::message::InternalMessage;

fn peer(last: u32) -> Endpoint {
    Endpoint::tcp(IpAddress::V4(0xC0A8_0100 + last), 40_000)
}

#[test]
fn a_line_is_name_colon_space_text_line_feed() {
    assert_eq!(label("Alice", "hi"), "Alice: hi\n");
    assert_eq!(label("", ""), ": \n");
}

#[test]
fn a_directory_lists_inserts_and_strikes() {
    let mut names = NameDirectory::new();
    assert!(!names.contains(peer(1)));
    assert_eq!(names.name_of(peer(1)), None);
    names.insert(peer(1), "Alice".to_string());
    names.insert(peer(2), "Bob".to_string());
    assert!(names.contains(peer(1)));
    assert_eq!(names.name_of(peer(1)), Some(&"Alice".to_string()));
    assert_eq!(names.name_of(peer(2)), Some(&"Bob".to_string()));
    names.insert(peer(1), "Alicia".to_string());
    assert_eq!(names.name_of(peer(1)), Some(&"Alicia".to_string()));
    assert_eq!(names.remove(peer(1)), Some("Alicia".to_string()));
    assert_eq!(names.remove(peer(1)), None);
    assert_eq!(names.name_of(peer(1)), None);
    assert_eq!(names.name_of(peer(2)), Some(&"Bob".to_string()));
}

#[test]
fn chat_is_shown_under_the_name_of_its_sender() {
    let mut names = NameDirectory::new();
    assert_eq!(
        names.observe(InternalMessage::User(peer(1), "Alice".to_string())),
        Observation::Identified
    );
    assert_eq!(
        names.observe(InternalMessage::User(peer(2), "Bob".to_string())),
        Observation::Identified
    );
    assert_eq!(
        names.observe(InternalMessage::Content(peer(2), "hi".to_string())),
        Observation::Line("Bob: hi\n".to_string())
    );
    assert_eq!(
        names.observe(InternalMessage::Content(peer(1), "hello".to_string())),
        Observation::Line("Alice: hello\n".to_string())
    );
}

#[test]
fn chat_without_a_name_is_dropped_not_a_crash() {
    let mut names = NameDirectory::new();
    assert_eq!(
        names.observe(InternalMessage::Content(peer(1), "hi".to_string())),
        Observation::UnknownSender
    );
    assert!(!names.contains(peer(1)));
}

#[test]
fn a_later_name_replaces_the_earlier() {
    let mut names = NameDirectory::new();
    names.observe(InternalMessage::User(peer(1), "Alice".to_string()));
    names.observe(InternalMessage::User(peer(1), "Al".to_string()));
    assert_eq!(
        names.observe(InternalMessage::Content(peer(1), "hi".to_string())),
        Observation::Line("Al: hi\n".to_string())
    );
}

#[test]
fn the_own_text_is_shown_under_me() {
    assert_eq!(echo("hi"), "me: hi\n");
    assert_eq!(echo(""), "me: \n");
}

#[test]
fn what_is_typed_loses_the_white_space_at_its_ends() {
    let (text, line) = compose("  hi there \n");
    assert_eq!(text, "hi there");
    assert_eq!(line, "me: hi there\n");
    let (text, line) = compose("\t\n ");
    assert_eq!(text, "");
    assert_eq!(line, "me: \n");
    let (text, line) = compose("as it is");
    assert_eq!(text, "as it is");
    assert_eq!(line, "me: as it is\n");
}

#[test]
fn a_new_bridge_is_open_and_empty() {
    let mut bridge = Bridge::new();
    assert!(bridge.is_open());
    assert_eq!(bridge.waiting(), 0);
    assert_eq!(bridge.poll(), None);
    assert_eq!(bridge.next_command(), None);
}

#[test]
fn the_consumer_takes_in_the_order_of_delivery() {
    let mut bridge = Bridge::new();
    let name = InternalMessage::User(peer(1), "Alice".to_string());
    let first = InternalMessage::Content(peer(1), "one".to_string());
    let second = InternalMessage::Content(peer(1), "two".to_string());
    assert_eq!(bridge.deliver(name.clone()), Ok(()));
    assert_eq!(bridge.deliver(first.clone()), Ok(()));
    assert_eq!(bridge.waiting(), 2);
    assert_eq!(bridge.poll(), Some(name));
    assert_eq!(bridge.deliver(second.clone()), Ok(()));
    assert_eq!(bridge.poll(), Some(first));
    assert_eq!(bridge.poll(), Some(second));
    assert_eq!(bridge.poll(), None);
}

#[test]
fn what_is_typed_reaches_the_actor_trimmed() {
    let mut bridge = Bridge::new();
    let (text, _) = compose(" hi ");
    bridge.submit(text);
    assert_eq!(
        bridge.next_command(),
        Some(Event::SendUiMsgToNetwork("hi".to_string()))
    );
}

#[test]
fn the_actor_takes_in_the_order_of_submission() {
    let mut bridge = Bridge::new();
    bridge.submit("one".to_string());
    bridge.submit("two".to_string());
    bridge.close();
    assert_eq!(
        bridge.next_command(),
        Some(Event::SendUiMsgToNetwork("one".to_string()))
    );
    assert_eq!(
        bridge.next_command(),
        Some(Event::SendUiMsgToNetwork("two".to_string()))
    );
    assert_eq!(bridge.next_command(), Some(Event::Close));
    assert_eq!(bridge.next_command(), None);
}

#[test]
fn nothing_is_delivered_once_the_consumer_hung_up() {
    let mut bridge = Bridge::new();
    bridge.deliver(InternalMessage::User(peer(1), "Alice".to_string())).unwrap();
    bridge.hang_up();
    assert!(!bridge.is_open());
    assert_eq!(bridge.waiting(), 0);
    assert_eq!(
        bridge.deliver(InternalMessage::Content(peer(1), "hi".to_string())),
        Err(ChannelClosedError)
    );
    assert_eq!(bridge.poll(), None);
}
