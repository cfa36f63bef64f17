use vg::input::{key, wasd, Input, KeyExt};
use vg::protocol::{Digital, Event, Key, KEY_COUNT};
use vg::sfx::{play, print};
use vg::protocol::Call;

#[test]
fn new_input_has_every_key_up() {
    let input = Input::new();
    assert_eq!(key(&input, Key::A), Digital::Up);
    assert_eq!(key(&input, Key::Escape), Digital::Up);
    assert_eq!(key(&Input::default(), Key::Space), Digital::Up);
}

#[test]
fn key_indices_are_distinct_and_in_range() {
    let all = [Key::A, Key::Z, Key::Left, Key::Right, Key::Up, Key::Down, Key::Space, Key::Num1, Key::Num0, Key::Escape];
    for (i, a) in all.iter().enumerate() {
        assert!(a.index() < KEY_COUNT);
        for b in all.iter().skip(i + 1) {
            assert_ne!(a.index(), b.index());
        }
    }
    assert_eq!(Key::A.index(), 0);
    assert_eq!(Key::Escape.index(), KEY_COUNT - 1);
}

#[test]
fn set_then_read_gives_the_state() {
    let mut input = Input::new();
    input.set(Key::W, Digital::Pressed);
    assert_eq!(key(&input, Key::W), Digital::Pressed);
    assert_eq!(key(&input, Key::S), Digital::Up);
    input.set(Key::W, Digital::Raised);
    assert_eq!(key(&input, Key::W), Digital::Raised);
}

#[test]
fn step_states_settles_edges() {
    let mut input = Input::new();
    input.set(Key::A, Digital::Pressed);
    input.set(Key::B, Digital::Raised);
    input.set(Key::C, Digital::Down);
    input.step_states();
    assert_eq!(key(&input, Key::A), Digital::Down);
    assert_eq!(key(&input, Key::B), Digital::Up);
    assert_eq!(key(&input, Key::C), Digital::Down);
    assert_eq!(key(&input, Key::D), Digital::Up);
    input.step_states();
    assert_eq!(key(&input, Key::A), Digital::Down);
    assert_eq!(key(&input, Key::B), Digital::Up);
}

#[test]
fn frame_applies_events_after_stepping() {
    let mut input = Input::new();
    input.advance_frame(&[Event::Down(Key::W)]);
    assert_eq!(key(&input, Key::W), Digital::Pressed);
    input.advance_frame(&[]);
    assert_eq!(key(&input, Key::W), Digital::Down);
    input.advance_frame(&[Event::Up(Key::W), Event::Down(Key::S)]);
    assert_eq!(key(&input, Key::W), Digital::Raised);
    assert_eq!(key(&input, Key::S), Digital::Pressed);
    input.advance_frame(&[]);
    assert_eq!(key(&input, Key::W), Digital::Up);
    assert_eq!(key(&input, Key::S), Digital::Down);
}

#[test]
fn last_event_about_a_key_wins() {
    let mut input = Input::new();
    input.apply_events(&[Event::Down(Key::Q), Event::Up(Key::Q)]);
    assert_eq!(key(&input, Key::Q), Digital::Raised);
    input.apply_events(&[Event::Up(Key::Q), Event::Down(Key::Q)]);
    assert_eq!(key(&input, Key::Q), Digital::Pressed);
}

#[test]
fn key_ext_questions() {
    assert!(Digital::Down.down());
    assert!(Digital::Pressed.down());
    assert!(!Digital::Raised.down());
    assert!(Digital::Up.up());
    assert!(Digital::Pressed.changed());
    assert!(Digital::Raised.changed());
    assert!(!Digital::Down.changed());
    assert!(Digital::Pressed.pressed());
    assert!(!Digital::Down.pressed());
    assert!(Digital::Raised.raised());
    assert!(!Digital::Up.raised());
    assert!(Digital::Down.is_down());
    assert!(!Digital::Up.is_down());
}

#[test]
fn wasd_gives_direction() {
    let mut input = Input::new();
    assert_eq!(wasd(&input), [0, 0]);
    input.set(Key::D, Digital::Down);
    input.set(Key::W, Digital::Pressed);
    assert_eq!(wasd(&input), [1, 1]);
    input.set(Key::A, Digital::Down);
    input.set(Key::S, Digital::Down);
    assert_eq!(wasd(&input), [0, 0]);
    input.set(Key::D, Digital::Raised);
    input.set(Key::W, Digital::Up);
    assert_eq!(wasd(&input), [-1, -1]);
}

#[test]
fn play_builds_sound_request() {
    let p = play("boom.wav");
    match p.to_call() {
        Call::Play(pc) => {
            assert_eq!(pc.asset, "boom.wav");
            assert!(!pc.looping);
        }
        _ => panic!("expected a play call"),
    }
    let mut p = play("music.ogg");
    p.loops();
    match p.to_call() {
        Call::Play(pc) => {
            assert_eq!(pc.asset, "music.ogg");
            assert!(pc.looping);
        }
        _ => panic!("expected a play call"),
    }
}

#[test]
fn print_builds_print_request() {
    match print("hello") {
        Call::Print(s) => assert_eq!(s, "hello"),
        _ => panic!("expected a print call"),
    }
}
