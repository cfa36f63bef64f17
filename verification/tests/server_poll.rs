use vg::event::{Digital, Event, Key, KeyEvent, PlayerEvent, PlayerId};
use vg::laminar::C2S;
use vg::ping::PingClock;
use vg::server::{latency, on_accept, on_message, rollback_ticks, schedule, sweep, NetPlayer};

fn player(conn: &'static str, id: u64) -> NetPlayer<&'static str> {
    NetPlayer { conn, id: PlayerId(id) }
}

#[test]
fn sweep_drops_closed_and_lagging_connections() {
    let players = vec![player("a", 1), player("b", 2), player("c", 3), player("d", 4)];
    let health = [(true, 10), (false, 5), (true, 500), (true, 499)];
    let mut events = vec![(7, PlayerEvent { player: PlayerId(9), kind: Event::Connected })];
    let kept = sweep(players, &health, 500, &mut events);
    let kept: Vec<(&str, u64)> = kept.iter().map(|p| (p.conn, p.id.0)).collect();
    assert_eq!(kept, vec![("a", 1), ("d", 4)]);
    assert_eq!(
        events,
        vec![
            (7, PlayerEvent { player: PlayerId(9), kind: Event::Connected }),
            (5, PlayerEvent { player: PlayerId(2), kind: Event::Disconnected }),
            (500, PlayerEvent { player: PlayerId(3), kind: Event::Disconnected }),
        ]
    );
}

#[test]
fn sweep_of_nobody_changes_nothing() {
    let mut events = Vec::new();
    let kept = sweep(Vec::<NetPlayer<u8>>::new(), &[], 100, &mut events);
    assert!(kept.is_empty());
    assert!(events.is_empty());
}

#[test]
fn tick_schedule() {
    assert_eq!(schedule(99, 100, 10), (false, 100, false));
    assert_eq!(schedule(100, 100, 10), (true, 110, false));
    assert_eq!(schedule(105, 100, 10), (true, 110, false));
    assert_eq!(schedule(110, 100, 10), (true, 110, true));
    assert_eq!(schedule(250, 100, 10), (true, 110, true));
}

#[test]
fn client_messages() {
    let mut events = Vec::new();
    let key = Event::Key(KeyEvent { key: Key(4), state: Digital::Pressed });
    assert!(!on_message(PlayerId(3), 20, Some(C2S::Event { event: key }), &mut events));
    assert_eq!(events, vec![(20, PlayerEvent { player: PlayerId(3), kind: key })]);
    assert!(on_message(PlayerId(3), 20, Some(C2S::Desync), &mut events));
    assert!(!on_message(PlayerId(3), 20, None, &mut events));
    assert_eq!(events.len(), 1);
    on_accept(PlayerId(8), 30, &mut events);
    assert_eq!(events[1], (30, PlayerEvent { player: PlayerId(8), kind: Event::Connected }));
}

#[test]
fn rollback_window_in_ticks() {
    assert_eq!(rollback_ticks(500, 100), 5);
    assert_eq!(rollback_ticks(501, 100), 6);
    assert_eq!(rollback_ticks(0, 100), 0);
    assert_eq!(rollback_ticks(99, 100), 1);
    assert_eq!(rollback_ticks(u64::MAX, 1), u64::MAX);
    assert_eq!(rollback_ticks(u64::MAX, 2), u64::MAX / 2 + 1);
}

#[test]
fn latency_is_half_the_round_trip() {
    assert_eq!(latency(101), 50);
    assert_eq!(latency(0), 0);
    assert_eq!(latency(u64::MAX), u64::MAX / 2);
}

#[test]
fn ping_clock_measures_round_trips() {
    let mut c = PingClock::new(1_000);
    assert_eq!(c.round_trip(), 0);
    c.pong(1_400);
    assert_eq!((c.round_trip(), c.latency()), (400, 200));
    c.pong(1_500);
    assert_eq!(c.round_trip(), 100);
    c.pong(1_200);
    assert_eq!(c.round_trip(), 0);
}
