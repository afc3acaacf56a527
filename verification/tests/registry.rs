use lan_chat::endpoint::{Endpoint, IpAddress, Transport, DISCOVERY_GROUP, DISCOVERY_PORT};
use lan_chat::registry::ConnectionSet;

fn peer(last: u32, port: u16) -> Endpoint {
    Endpoint::tcp(IpAddress::V4(0xC0A8_0100 + last), port)
}

#[test]
fn the_discovery_group_is_238_255_0_1_port_5877() {
    let group = Endpoint::discovery_group();
    assert_eq!(group.ip, IpAddress::V4((238 << 24) | (255 << 16) | 1));
    assert_eq!(group.port, 5877);
    assert_eq!(group.transport, Transport::Udp);
    assert_eq!(DISCOVERY_GROUP, 0xEEFF_0001);
    assert_eq!(DISCOVERY_PORT, 5877);
}

#[test]
fn endpoints_differ_by_any_part() {
    let a = Endpoint::tcp(IpAddress::V4(1), 80);
    assert_eq!(a, Endpoint { ip: IpAddress::V4(1), port: 80, transport: Transport::Tcp });
    assert_ne!(a, Endpoint::tcp(IpAddress::V4(2), 80));
    assert_ne!(a, Endpoint::tcp(IpAddress::V4(1), 81));
    assert_ne!(a, Endpoint::udp(IpAddress::V4(1), 80));
    assert_ne!(a, Endpoint::tcp(IpAddress::V6(1), 80));
    assert!(a.is_tcp());
    assert!(!Endpoint::udp(IpAddress::V4(1), 80).is_tcp());
}

#[test]
fn a_new_set_is_empty() {
    let set = ConnectionSet::new();
    assert!(set.is_empty());
    assert_eq!(set.len(), 0);
    assert_eq!(set.snapshot(), vec![]);
    assert!(!set.contains(peer(1, 9000)));
}

#[test]
fn add_keeps_the_order_and_takes_nothing_twice() {
    let mut set = ConnectionSet::new();
    assert!(set.add(peer(1, 9000)));
    assert!(set.add(peer(2, 9000)));
    assert!(!set.add(peer(1, 9000)));
    assert!(set.add(peer(1, 9001)));
    assert_eq!(set.snapshot(), vec![peer(1, 9000), peer(2, 9000), peer(1, 9001)]);
    assert_eq!(set.len(), 3);
    assert!(!set.is_empty());
    assert!(set.contains(peer(2, 9000)));
}

#[test]
fn remove_takes_one_and_keeps_the_others_in_order() {
    let mut set = ConnectionSet::new();
    set.add(peer(1, 9000));
    set.add(peer(2, 9000));
    set.add(peer(3, 9000));
    assert!(set.remove(peer(2, 9000)));
    assert_eq!(set.snapshot(), vec![peer(1, 9000), peer(3, 9000)]);
    assert!(!set.remove(peer(2, 9000)));
    assert!(!set.remove(peer(9, 9000)));
    assert_eq!(set.len(), 2);
}

#[test]
fn gone_after_disconnect_and_back_after_handshake() {
    let mut set = ConnectionSet::new();
    set.add(peer(1, 9000));
    set.add(peer(2, 9000));
    set.remove(peer(1, 9000));
    assert!(!set.snapshot().contains(&peer(1, 9000)));
    set.add(peer(1, 9000));
    assert!(set.snapshot().contains(&peer(1, 9000)));
    assert_eq!(set.snapshot(), vec![peer(2, 9000), peer(1, 9000)]);
}

#[test]
fn a_snapshot_does_not_follow_the_set() {
    let mut set = ConnectionSet::new();
    set.add(peer(1, 9000));
    let before = set.snapshot();
    set.add(peer(2, 9000));
    assert_eq!(before, vec![peer(1, 9000)]);
}
