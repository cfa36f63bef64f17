use vg::event::{Digital, Event, InputCache, Key, KeyEvent, MouseEvent, PlayerId, SteerKeys};

fn key_event(code: u32, state: Digital) -> Event {
    Event::Key(KeyEvent { key: Key(code), state })
}

#[test]
fn cache_starts_up_and_records_keys() {
    let mut c = InputCache::new();
    assert_eq!(c.key(Key(17)), Digital::Up);
    c.event(&key_event(17, Digital::Pressed));
    assert_eq!(c.key(Key(17)), Digital::Pressed);
    assert_eq!(c.key(Key(18)), Digital::Up);
    c.event(&key_event(17, Digital::Released));
    assert_eq!(c.key(Key(17)), Digital::Released);
}

#[test]
fn cache_ignores_other_events() {
    let mut c = InputCache::new();
    c.event(&key_event(3, Digital::Down));
    c.event(&Event::Text('x'));
    c.event(&Event::Mouse(MouseEvent {}));
    c.event(&Event::Connected);
    assert_eq!(c.key(Key(3)), Digital::Down);
    assert_eq!(c.key(Key(4)), Digital::Up);
}

#[test]
fn cache_tick_settles_edges() {
    let mut c = InputCache::new();
    c.event(&key_event(1, Digital::Pressed));
    c.event(&key_event(2, Digital::Released));
    c.event(&key_event(3, Digital::Down));
    c.tick();
    assert_eq!(c.key(Key(1)), Digital::Down);
    assert_eq!(c.key(Key(2)), Digital::Up);
    assert_eq!(c.key(Key(3)), Digital::Down);
    c.tick();
    assert_eq!(c.key(Key(1)), Digital::Down);
    assert_eq!(c.key(Key(2)), Digital::Up);
}

#[test]
fn engine_digital_down_and_up() {
    assert!(Digital::Pressed.down());
    assert!(Digital::Down.down());
    assert!(!Digital::Up.down());
    assert!(!Digital::Released.down());
    assert!(Digital::Released.up());
    assert_eq!(Digital::default(), Digital::Up);
}

#[test]
fn host_player_is_zero() {
    assert!(PlayerId::host().is_host());
    assert!(PlayerId(0).is_host());
    assert!(!PlayerId(7).is_host());
}

#[test]
fn from_hash_is_deterministic() {
    let a = PlayerId::from_hash("127.0.0.1:5555");
    let b = PlayerId::from_hash("127.0.0.1:5555");
    let c = PlayerId::from_hash("127.0.0.1:5556");
    assert_eq!(a, b);
    assert_ne!(a, c);
}

#[test]
fn keyboard_events_press_and_release() {
    assert_eq!(Event::keyboard(Key(12), true), Event::Key(KeyEvent { key: Key(12), state: Digital::Pressed }));
    assert_eq!(Event::keyboard(Key(12), false), Event::Key(KeyEvent { key: Key(12), state: Digital::Released }));
}

#[test]
fn player_id_as_text() {
    assert_eq!(PlayerId(0).to_string(), "0x0");
    assert_eq!(PlayerId(0xABC).to_string(), "0xABC");
    for n in [1u64, 15, 16, 255, 4096, 0x1234_5678_9ABC_DEF0, u64::MAX] {
        assert_eq!(PlayerId(n).to_string(), format!("{:#X}", n));
    }
}

#[test]
fn steering_keys_give_a_direction() {
    let keys = SteerKeys { up: (Key(1), Key(2)), down: (Key(3), Key(4)), right: (Key(5), Key(6)), left: (Key(7), Key(8)) };
    let mut c = InputCache::new();
    assert_eq!(c.wasd_arrows(&keys), [0, 0]);
    c.event(&key_event(2, Digital::Pressed));
    c.event(&key_event(5, Digital::Down));
    assert_eq!(c.wasd_arrows(&keys), [1, 1]);
    c.event(&key_event(7, Digital::Pressed));
    c.event(&key_event(1, Digital::Down));
    c.event(&key_event(3, Digital::Down));
    assert_eq!(c.wasd_arrows(&keys), [0, 0]);
    c.event(&key_event(5, Digital::Released));
    assert_eq!(c.wasd_arrows(&keys), [-1, 0]);
}
