use lan_chat::actor::NetworkActor;
use lan_chat::codec::encode;
use lan_chat::endpoint::{Endpoint, IpAddress};
use lan_chat::event::{Action, Event, NetEvent};
use lan_chat::message::{InternalMessage, NetMessage};
use lan_chat::protocol::Phase;

const X_IP: IpAddress = IpAddress::V4(0xC0A8_010A);
const Y_IP: IpAddress = IpAddress::V4(0xC0A8_010B);

fn node(name: &str, ip: IpAddress, port: u16) -> NetworkActor {
    NetworkActor::new(name.to_string(), Endpoint::tcp(ip, port))
}

fn peer(last: u32) -> Endpoint {
    Endpoint::tcp(IpAddress::V4(0xC0A8_0100 + last), 40_000)
}

fn message(from: Endpoint, message: NetMessage) -> Event {
    Event::Network(NetEvent::Message(from, message))
}

fn greeted(actor: &mut NetworkActor, from: Endpoint, name: &str) {
    let actions = actor.handle(message(from, NetMessage::HelloUser(name.to_string())));
    assert_eq!(
        actions,
        vec![Action::Deliver(InternalMessage::User(from, name.to_string()))]
    );
}

#[test]
fn a_new_actor_runs_and_knows_nobody() {
    let actor = node("Alice", X_IP, 9100);
    assert!(actor.is_running());
    assert_eq!(actor.listen(), Endpoint::tcp(X_IP, 9100));
    assert_eq!(actor.snapshot(), vec![]);
    assert_eq!(actor.phase(peer(1)), Phase::Unknown);
}

#[test]
fn the_announcement_goes_to_the_group_with_name_and_port() {
    let actor = node("Alice", X_IP, 9100);
    assert_eq!(
        actor.announce(),
        Action::Send(
            Endpoint::discovery_group(),
            NetMessage::HelloLan("Alice".to_string(), 9100)
        )
    );
}

#[test]
fn an_announcement_is_answered_with_a_connection() {
    let mut y = node("Bob", Y_IP, 9200);
    let actions = y.handle(message(
        Endpoint::udp(X_IP, 5877),
        NetMessage::HelloLan("Alice".to_string(), 9100),
    ));
    assert_eq!(actions, vec![Action::Connect(Endpoint::tcp(X_IP, 9100))]);
    assert_eq!(y.phase(Endpoint::tcp(X_IP, 9100)), Phase::Connecting);
    assert_eq!(y.snapshot(), vec![]);
}

#[test]
fn the_own_announcement_is_dropped() {
    let mut x = node("Alice", X_IP, 9100);
    let actions = x.handle(message(
        Endpoint::udp(X_IP, 51_000),
        NetMessage::HelloLan("Alice".to_string(), 9100),
    ));
    assert_eq!(actions, vec![]);
    assert_eq!(x.snapshot(), vec![]);
    assert_eq!(x.phase(Endpoint::tcp(X_IP, 9100)), Phase::Unknown);
}

#[test]
fn the_own_announcement_is_known_by_its_socket_not_its_name() {
    let mut x = node("Alice", X_IP, 9100);
    // the own socket under another name is still the own socket
    let actions = x.handle(message(
        Endpoint::udp(X_IP, 51_000),
        NetMessage::HelloLan("Mallory".to_string(), 9100),
    ));
    assert_eq!(actions, vec![]);
    // a peer that picked the same name is a peer
    let actions = x.handle(message(
        Endpoint::udp(Y_IP, 51_000),
        NetMessage::HelloLan("Alice".to_string(), 9100),
    ));
    assert_eq!(actions, vec![Action::Connect(Endpoint::tcp(Y_IP, 9100))]);
    // and so is another socket of the same host
    let actions = x.handle(message(
        Endpoint::udp(X_IP, 51_000),
        NetMessage::HelloLan("Alice".to_string(), 9101),
    ));
    assert_eq!(actions, vec![Action::Connect(Endpoint::tcp(X_IP, 9101))]);
}

#[test]
fn a_second_announcement_asks_for_no_second_connection() {
    let mut y = node("Bob", Y_IP, 9200);
    let announce = || {
        message(
            Endpoint::udp(X_IP, 5877),
            NetMessage::HelloLan("Alice".to_string(), 9100),
        )
    };
    assert_eq!(y.handle(announce()).len(), 1);
    assert_eq!(y.handle(announce()), vec![]);
    y.handle(Event::Network(NetEvent::Connected(Endpoint::tcp(X_IP, 9100), true)));
    assert_eq!(y.phase(Endpoint::tcp(X_IP, 9100)), Phase::Established);
    assert_eq!(y.handle(announce()), vec![]);
}

#[test]
fn a_connection_that_stands_is_greeted_and_established() {
    let mut y = node("Bob", Y_IP, 9200);
    let x = Endpoint::tcp(X_IP, 9100);
    y.handle(message(
        Endpoint::udp(X_IP, 5877),
        NetMessage::HelloLan("Alice".to_string(), 9100),
    ));
    let actions = y.handle(Event::Network(NetEvent::Connected(x, true)));
    assert_eq!(
        actions,
        vec![
            Action::Send(x, NetMessage::HelloUser("Bob".to_string())),
            Action::Deliver(InternalMessage::User(x, "Alice".to_string())),
        ]
    );
    assert_eq!(y.snapshot(), vec![x]);
    assert_eq!(y.phase(x), Phase::Established);
}

#[test]
fn a_connection_that_fails_costs_only_the_attempt() {
    let mut y = node("Bob", Y_IP, 9200);
    let x = Endpoint::tcp(X_IP, 9100);
    greeted(&mut y, peer(7), "Carol");
    y.handle(message(
        Endpoint::udp(X_IP, 5877),
        NetMessage::HelloLan("Alice".to_string(), 9100),
    ));
    let actions = y.handle(Event::Network(NetEvent::Connected(x, false)));
    assert_eq!(actions, vec![]);
    assert!(y.is_running());
    assert_eq!(y.phase(x), Phase::Unknown);
    assert_eq!(y.snapshot(), vec![peer(7)]);
    // the peer may announce again and is then tried again
    let actions = y.handle(message(
        Endpoint::udp(X_IP, 5877),
        NetMessage::HelloLan("Alice".to_string(), 9100),
    ));
    assert_eq!(actions, vec![Action::Connect(x)]);
}

#[test]
fn a_connection_nobody_asked_for_is_ignored() {
    let mut y = node("Bob", Y_IP, 9200);
    let actions = y.handle(Event::Network(NetEvent::Connected(peer(1), true)));
    assert_eq!(actions, vec![]);
    assert_eq!(y.snapshot(), vec![]);
}

#[test]
fn a_greeting_over_tcp_establishes_the_peer() {
    let mut x = node("Alice", X_IP, 9100);
    let y = Endpoint::tcp(Y_IP, 43_210);
    assert_eq!(x.handle(Event::Network(NetEvent::AddedEndpoint(y))), vec![]);
    assert_eq!(x.snapshot(), vec![]);
    greeted(&mut x, y, "Bob");
    assert_eq!(x.snapshot(), vec![y]);
    assert_eq!(x.phase(y), Phase::Established);
}

#[test]
fn a_greeting_over_udp_establishes_nothing() {
    let mut x = node("Alice", X_IP, 9100);
    let actions = x.handle(message(
        Endpoint::udp(Y_IP, 5877),
        NetMessage::HelloUser("Bob".to_string()),
    ));
    assert_eq!(actions, vec![]);
    assert_eq!(x.snapshot(), vec![]);
}

#[test]
fn a_greeting_from_the_own_socket_establishes_nothing() {
    let mut x = node("Alice", X_IP, 9100);
    let actions = x.handle(message(
        Endpoint::tcp(X_IP, 9100),
        NetMessage::HelloUser("Alice".to_string()),
    ));
    assert_eq!(actions, vec![]);
    assert_eq!(x.snapshot(), vec![]);
}

#[test]
fn chat_from_a_peer_is_delivered_after_its_name() {
    let mut x = node("Alice", X_IP, 9100);
    let y = Endpoint::tcp(Y_IP, 43_210);
    let mut delivered = Vec::new();
    let events = vec![
        Event::Network(NetEvent::AddedEndpoint(y)),
        message(y, NetMessage::UserMessage("too early".to_string())),
        message(y, NetMessage::HelloUser("Bob".to_string())),
        message(y, NetMessage::UserMessage("hi".to_string())),
        message(y, NetMessage::UserMessage("there".to_string())),
    ];
    for event in events {
        for action in x.handle(event) {
            if let Action::Deliver(m) = action {
                delivered.push(m);
            }
        }
    }
    assert_eq!(
        delivered,
        vec![
            InternalMessage::User(y, "Bob".to_string()),
            InternalMessage::Content(y, "hi".to_string()),
            InternalMessage::Content(y, "there".to_string()),
        ]
    );
}

#[test]
fn chat_from_a_stranger_is_dropped() {
    let mut x = node("Alice", X_IP, 9100);
    let actions = x.handle(message(peer(1), NetMessage::UserMessage("psst".to_string())));
    assert_eq!(actions, vec![]);
    assert_eq!(x.snapshot(), vec![]);
}

#[test]
fn a_text_goes_once_to_each_connection_and_nowhere_else() {
    let mut x = node("Alice", X_IP, 9100);
    let (a, b, c, d) = (peer(1), peer(2), peer(3), peer(4));
    greeted(&mut x, a, "A");
    greeted(&mut x, b, "B");
    greeted(&mut x, c, "C");
    greeted(&mut x, d, "D");
    x.handle(Event::Network(NetEvent::RemovedEndpoint(d)));
    let actions = x.handle(Event::SendUiMsgToNetwork("hi".to_string()));
    assert_eq!(
        actions,
        vec![
            Action::Send(a, NetMessage::UserMessage("hi".to_string())),
            Action::Send(b, NetMessage::UserMessage("hi".to_string())),
            Action::Send(c, NetMessage::UserMessage("hi".to_string())),
        ]
    );
    assert_eq!(x.snapshot(), vec![a, b, c]);
}

#[test]
fn a_text_with_no_connection_goes_nowhere() {
    let mut x = node("Alice", X_IP, 9100);
    assert_eq!(x.handle(Event::SendUiMsgToNetwork("hi".to_string())), vec![]);
}

#[test]
fn a_closed_connection_leaves_and_a_new_handshake_brings_it_back() {
    let mut x = node("Alice", X_IP, 9100);
    let (a, b) = (peer(1), peer(2));
    greeted(&mut x, a, "A");
    greeted(&mut x, b, "B");
    assert_eq!(x.handle(Event::Network(NetEvent::RemovedEndpoint(a))), vec![]);
    assert_eq!(x.snapshot(), vec![b]);
    assert_eq!(x.phase(a), Phase::Unknown);
    // chat from the closed endpoint does not bring it back
    assert_eq!(
        x.handle(message(a, NetMessage::UserMessage("still here?".to_string()))),
        vec![]
    );
    assert_eq!(x.snapshot(), vec![b]);
    greeted(&mut x, a, "A");
    assert_eq!(x.snapshot(), vec![b, a]);
}

#[test]
fn a_failed_send_removes_the_endpoint_and_nothing_else() {
    let mut x = node("Alice", X_IP, 9100);
    let (a, b) = (peer(1), peer(2));
    greeted(&mut x, a, "A");
    greeted(&mut x, b, "B");
    assert_eq!(x.handle(Event::SendFailed(a)), vec![]);
    assert_eq!(x.snapshot(), vec![b]);
    assert!(x.is_running());
}

#[test]
fn a_malformed_frame_changes_nothing_and_the_next_frame_is_read() {
    let mut x = node("Alice", X_IP, 9100);
    let y = Endpoint::tcp(Y_IP, 43_210);
    let greeting = encode(&NetMessage::HelloUser("Bob".to_string()));
    assert_eq!(x.on_frame(y, &greeting).len(), 1);
    let chat = encode(&NetMessage::UserMessage("hi".to_string()));
    assert_eq!(x.on_frame(y, &chat[..chat.len() - 1]), vec![]);
    assert_eq!(x.on_frame(y, &[0xFF, 0x00]), vec![]);
    assert_eq!(x.on_frame(y, &[]), vec![]);
    assert_eq!(x.handle(Event::Network(NetEvent::DeserializationError(y))), vec![]);
    assert_eq!(x.snapshot(), vec![y]);
    assert!(x.is_running());
    assert_eq!(
        x.on_frame(y, &chat),
        vec![Action::Deliver(InternalMessage::Content(y, "hi".to_string()))]
    );
}

#[test]
fn a_frame_is_read_as_the_event_it_holds() {
    let y = Endpoint::tcp(Y_IP, 43_210);
    let frame = encode(&NetMessage::UserMessage("hi".to_string()));
    assert_eq!(
        NetEvent::from_frame(y, &frame),
        NetEvent::Message(y, NetMessage::UserMessage("hi".to_string()))
    );
    assert_eq!(
        NetEvent::from_frame(y, &frame[..3]),
        NetEvent::DeserializationError(y)
    );
}

#[test]
fn close_stops_the_actor() {
    let mut x = node("Alice", X_IP, 9100);
    greeted(&mut x, peer(1), "A");
    assert_eq!(x.handle(Event::Close), vec![Action::Stop]);
    assert!(!x.is_running());
    assert_eq!(x.handle(Event::SendUiMsgToNetwork("hi".to_string())), vec![]);
    assert_eq!(x.handle(Event::Close), vec![]);
    assert_eq!(x.snapshot(), vec![peer(1)]);
}

#[test]
fn a_consumer_that_is_gone_stops_the_actor() {
    let mut x = node("Alice", X_IP, 9100);
    assert_eq!(x.handle(Event::ConsumerGone), vec![Action::Stop]);
    assert!(!x.is_running());
}

#[test]
fn two_nodes_find_each_other() {
    let mut x = node("Alice", X_IP, 9100);
    let mut y = node("Bob", Y_IP, 9200);

    // X announces; the group hands the frame to Y and back to X.
    let (group, frame) = match x.announce() {
        Action::Send(to, message) => (to, encode(&message)),
        other => panic!("unexpected {:?}", other),
    };
    assert_eq!(group, Endpoint::discovery_group());
    let x_udp = Endpoint::udp(X_IP, 50_123);
    assert_eq!(x.on_frame(x_udp, &frame), vec![]);
    let actions = y.on_frame(x_udp, &frame);
    let x_tcp = Endpoint::tcp(X_IP, 9100);
    assert_eq!(actions, vec![Action::Connect(x_tcp)]);

    // The connection stands. X sees it come from a port of Y's choosing.
    let y_tcp = Endpoint::tcp(Y_IP, 43_210);
    assert_eq!(x.handle(Event::Network(NetEvent::AddedEndpoint(y_tcp))), vec![]);
    let actions = y.handle(Event::Network(NetEvent::Connected(x_tcp, true)));
    assert_eq!(
        actions,
        vec![
            Action::Send(x_tcp, NetMessage::HelloUser("Bob".to_string())),
            Action::Deliver(InternalMessage::User(x_tcp, "Alice".to_string())),
        ]
    );
    let greeting = match &actions[0] {
        Action::Send(_, message) => encode(message),
        other => panic!("unexpected {:?}", other),
    };
    let actions = x.on_frame(y_tcp, &greeting);
    assert_eq!(
        actions,
        vec![Action::Deliver(InternalMessage::User(y_tcp, "Bob".to_string()))]
    );

    assert_eq!(x.snapshot(), vec![y_tcp]);
    assert_eq!(y.snapshot(), vec![x_tcp]);

    // And they talk.
    let actions = y.handle(Event::SendUiMsgToNetwork("hi".to_string()));
    assert_eq!(
        actions,
        vec![Action::Send(x_tcp, NetMessage::UserMessage("hi".to_string()))]
    );
    let chat = encode(&NetMessage::UserMessage("hi".to_string()));
    assert_eq!(
        x.on_frame(y_tcp, &chat),
        vec![Action::Deliver(InternalMessage::Content(y_tcp, "hi".to_string()))]
    );
}

#[test]
fn a_greeting_from_an_address_being_connected_settles_it() {
    let mut y = node("Bob", Y_IP, 9200);
    let x = Endpoint::tcp(X_IP, 9100);
    y.handle(message(
        Endpoint::udp(X_IP, 5877),
        NetMessage::HelloLan("Alice".to_string(), 9100),
    ));
    assert_eq!(y.phase(x), Phase::Connecting);
    greeted(&mut y, x, "Alice");
    assert_eq!(y.phase(x), Phase::Established);
    // the attempt was given up: its outcome changes nothing
    assert_eq!(y.handle(Event::Network(NetEvent::Connected(x, true))), vec![]);
    assert_eq!(y.snapshot(), vec![x]);
    // and once the connection is gone the address is unknown again
    y.handle(Event::Network(NetEvent::RemovedEndpoint(x)));
    assert_eq!(y.phase(x), Phase::Unknown);
    assert_eq!(y.snapshot(), vec![]);
}

#[test]
fn the_name_is_the_one_given() {
    let actor = node("Alice", X_IP, 9100);
    assert_eq!(actor.name(), "Alice");
}
