use std::collections::VecDeque;
use vg::event::{Event, KeyEvent, Key, Digital};
use vg::laminar::{C2S, C2SLaminar, Laminar, S2CLaminar};

fn ev(code: u32) -> Event {
    Event::Key(KeyEvent { key: Key(code), state: Digital::Pressed })
}

fn unpack(p: Option<C2SLaminar>) -> (u64, Vec<Event>) {
    match p {
        Some(C2SLaminar::Event { seq, events }) => (seq, events.into_iter().collect()),
        None => panic!("expected a datagram"),
    }
}

fn packet(seq: u64, events: &[Event]) -> Option<C2SLaminar> {
    Some(C2SLaminar::Event { seq, events: events.iter().copied().collect::<VecDeque<_>>() })
}

#[test]
fn sender_resends_until_acknowledged() {
    let mut client = Laminar::new();
    let (s1, e1) = unpack(client.send_to_server(&C2S::Event { event: ev(1) }));
    assert_eq!((s1, e1), (1, vec![ev(1)]));
    let (s2, e2) = unpack(client.send_to_server(&C2S::Event { event: ev(2) }));
    assert_eq!((s2, e2), (2, vec![ev(1), ev(2)]));
    client.recv_from_server(Some(S2CLaminar::EventAck { seq: 1 }));
    let (s3, e3) = unpack(client.send_to_server(&C2S::Event { event: ev(3) }));
    assert_eq!((s3, e3), (3, vec![ev(2), ev(3)]));
    client.recv_from_server(Some(S2CLaminar::EventAck { seq: 3 }));
    let (s4, e4) = unpack(client.send_to_server(&C2S::Event { event: ev(4) }));
    assert_eq!((s4, e4), (4, vec![ev(4)]));
}

#[test]
fn stale_ack_changes_nothing() {
    let mut client = Laminar::new();
    client.send_to_server(&C2S::Event { event: ev(1) });
    client.send_to_server(&C2S::Event { event: ev(2) });
    client.recv_from_server(Some(S2CLaminar::EventAck { seq: 2 }));
    client.recv_from_server(Some(S2CLaminar::EventAck { seq: 1 }));
    client.recv_from_server(None);
    let (s, e) = unpack(client.send_to_server(&C2S::Event { event: ev(3) }));
    assert_eq!((s, e), (3, vec![ev(3)]));
}

#[test]
fn desync_is_not_sent_over_datagrams() {
    let mut client = Laminar::new();
    assert!(client.send_to_server(&C2S::Desync).is_none());
    let (s, e) = unpack(client.send_to_server(&C2S::Event { event: ev(9) }));
    assert_eq!((s, e), (1, vec![ev(9)]));
}

#[test]
fn receiver_skips_what_it_has_and_acks() {
    let mut server = Laminar::new();
    let (ack, msg) = server.recv_from_client(packet(2, &[ev(1), ev(2)]));
    assert_eq!(ack, Some(S2CLaminar::EventAck { seq: 2 }));
    assert_eq!(msg, Some(C2S::Event { event: ev(1) }));
    // a datagram that repeats event 2 and brings event 3
    let (ack, msg) = server.recv_from_client(packet(3, &[ev(2), ev(3)]));
    assert_eq!(ack, Some(S2CLaminar::EventAck { seq: 3 }));
    assert_eq!(msg, Some(C2S::Event { event: ev(2) }));
    let (ack, msg) = server.recv_from_client(None);
    assert_eq!(ack, None);
    assert_eq!(msg, Some(C2S::Event { event: ev(3) }));
    let (ack, msg) = server.recv_from_client(None);
    assert_eq!((ack, msg), (None, None));
}

#[test]
fn receiver_ignores_late_datagrams() {
    let mut server = Laminar::new();
    server.recv_from_client(packet(2, &[ev(1), ev(2)]));
    server.recv_from_client(None);
    let (ack, msg) = server.recv_from_client(packet(1, &[ev(1)]));
    assert_eq!(ack, None);
    assert_eq!(msg, None);
}

#[test]
fn lossy_link_delivers_each_event_once_in_order() {
    // Datagrams 1 and 3 are lost, datagram 2 arrives twice, acks are lost too.
    let mut client = Laminar::new();
    let mut server = Laminar::new();
    let mut delivered = vec![];
    let p1 = client.send_to_server(&C2S::Event { event: ev(1) });
    drop(p1);
    let (s2, e2) = unpack(client.send_to_server(&C2S::Event { event: ev(2) }));
    let (ack, msg) = server.recv_from_client(packet(s2, &e2));
    delivered.extend(msg);
    let (_, msg) = server.recv_from_client(packet(s2, &e2));
    delivered.extend(msg);
    client.recv_from_server(ack);
    let _p3 = client.send_to_server(&C2S::Event { event: ev(3) });
    let (s4, e4) = unpack(client.send_to_server(&C2S::Event { event: ev(4) }));
    let (_, msg) = server.recv_from_client(packet(s4, &e4));
    delivered.extend(msg);
    loop {
        let (_, msg) = server.recv_from_client(None);
        match msg {
            Some(m) => delivered.push(m),
            None => break,
        }
    }
    let want: Vec<C2S> = (1..=4).map(|c| C2S::Event { event: ev(c) }).collect();
    assert_eq!(delivered, want);
}

#[test]
fn sequence_counters() {
    let mut client = Laminar::new();
    let mut server = Laminar::new();
    assert_eq!((client.send_seq(), client.recv_seq()), (0, 0));
    let p = client.send_to_server(&C2S::Event { event: ev(1) });
    let p2 = client.send_to_server(&C2S::Event { event: ev(2) });
    assert_eq!(client.send_seq(), 2);
    drop(p);
    let (ack, _) = server.recv_from_client(p2);
    assert_eq!(ack, Some(S2CLaminar::EventAck { seq: 2 }));
    assert_eq!((server.send_seq(), server.recv_seq()), (0, 2));
}
