use vg::event::{Digital, Event, InputCache, Key, KeyEvent, PlayerEvent, PlayerId};
use vg::executor::{halt_poll, keeps_running};
use vg::game::Vg;
use vg::graphics::{take_first_adapter, FrameCursor, GraphicsError, TextureError, TextureFormat, TextureLayout, TextureSettings};
use vg::host::{collect_tick, host_receive, is_desynced, MessageC2S, PeerQueue};
use vg::shader::{check_source, step_result, GLApi, Shader, ShaderError, GL_TRUE};

#[test]
fn halt_is_ready_once_per_clear() {
    let mut count: u8 = 0;
    assert!(keeps_running(count));
    assert!(halt_poll(&mut count));
    assert_eq!(count, 1);
    assert!(!keeps_running(count));
    assert!(!halt_poll(&mut count));
    assert_eq!(count, 2);
    let mut full: u8 = 255;
    assert!(!halt_poll(&mut full));
    assert_eq!(full, 0);
}

#[test]
fn frame_cursor_cycles() {
    let mut c = FrameCursor::new();
    let got: Vec<usize> = (0..7).map(|_| c.next_index(3)).collect();
    assert_eq!(got, vec![0, 1, 2, 0, 1, 2, 0]);
    let mut z = FrameCursor::new();
    assert_eq!(z.next_index(0), 0);
    assert_eq!(z.next_index(0), 0);
}

#[test]
fn first_adapter_is_taken() {
    let mut none: Vec<&str> = vec![];
    assert_eq!(take_first_adapter(&mut none), Err(GraphicsError::NoAdapter));
    let mut some = vec!["gpu0", "gpu1"];
    assert_eq!(take_first_adapter(&mut some), Ok("gpu0"));
    assert_eq!(some, vec!["gpu1"]);
}

#[test]
fn texture_formats_and_sizes() {
    let d = TextureSettings::default_settings();
    assert_eq!(d.format(), Some(TextureFormat::Rgba8UnormSrgb));
    assert_eq!(d.bytes_per_pixel(), 4);
    assert_eq!(d.check(2, 2, 16), Ok(TextureFormat::Rgba8UnormSrgb));
    assert_eq!(d.check(2, 2, 15), Err(TextureError::SizeMismatch));
    let hdr = TextureSettings { hdr: true, linear: true, channels: 4 };
    assert_eq!(hdr.bytes_per_pixel(), 16);
    assert_eq!(hdr.check(1, 1, 16), Ok(TextureFormat::Rgba32Float));
    let gray = TextureSettings { hdr: false, linear: true, channels: 1 };
    assert_eq!(gray.check(3, 3, 9), Ok(TextureFormat::R8Unorm));
    let bad = TextureSettings { hdr: false, linear: false, channels: 1 };
    assert_eq!(bad.check(1, 1, 1), Err(TextureError::Unsupported));
    assert_eq!(bad.format(), None);
    let huge = TextureSettings { hdr: true, linear: true, channels: 4 };
    assert_eq!(huge.check(u32::MAX, u32::MAX, 16), Err(TextureError::SizeMismatch));
}

#[test]
fn shader_source_and_status() {
    assert!(check_source("void main() {}").is_ok());
    assert!(matches!(check_source("a\0b"), Err(ShaderError::StringError)));
    assert!(matches!(step_result(7, GL_TRUE, vec![]), Ok(7)));
    match step_result(7, 0, b"bad token".to_vec()) {
        Err(ShaderError::CompileError(s)) => assert_eq!(s, "bad token"),
        _ => panic!("expected a compile error"),
    }
    assert!(matches!(step_result(7, 0, vec![0xff, 0xfe]), Err(ShaderError::StringError)));
    assert_eq!(Shader::new(3), Shader(3));
    let mut api = GLApi::new(800, 600);
    assert_eq!(api.size(), (800, 600));
    api.resize(1024, 768);
    assert_eq!(api.size(), (1024, 768));
}

#[test]
fn tick_collects_peer_then_local_events() {
    let mut a = PeerQueue::new(PlayerId(1));
    a.receive(vec![Event::Text('a')]);
    let b = PeerQueue::new(PlayerId(2));
    let mut peers = vec![a, b];
    let all = collect_tick(&mut peers, vec![Event::Text('h')], PlayerId(0));
    assert_eq!(all, vec![
        PlayerEvent { player: PlayerId(1), kind: Event::Connected },
        PlayerEvent { player: PlayerId(1), kind: Event::Text('a') },
        PlayerEvent { player: PlayerId(2), kind: Event::Connected },
        PlayerEvent { player: PlayerId(0), kind: Event::Text('h') },
    ]);
    assert!(peers.iter().all(|p| p.events.is_empty()));
    assert_eq!(peers[1].id, PlayerId(2));
    assert!(is_desynced(1, 2));
    assert!(!is_desynced(5, 5));
}

fn key_ev(p: u64, code: u32, state: Digital) -> PlayerEvent {
    PlayerEvent { player: PlayerId(p), kind: Event::Key(KeyEvent { key: Key(code), state }) }
}

#[test]
fn roster_join_input_leave() {
    let mut vg: Vg<u32, &str> = Vg::new(5);
    assert_eq!(*vg.game(), 5);
    assert!(vg.process_event(PlayerEvent { player: PlayerId(1), kind: Event::Connected }, Some("one")).is_none());
    assert!(vg.process_event(PlayerEvent { player: PlayerId(2), kind: Event::Connected }, Some("two")).is_none());
    assert!(vg.process_event(PlayerEvent { player: PlayerId(3), kind: Event::Connected }, Some("three")).is_none());
    assert_eq!(vg.players().len(), 3);
    vg.process_event(key_ev(2, 10, Digital::Pressed), None);
    assert_eq!(vg.players()[1].key(Key(10)), Digital::Pressed);
    assert_eq!(vg.players()[0].key(Key(10)), Digital::Up);
    vg.tick_inputs();
    assert_eq!(vg.players()[1].key(Key(10)), Digital::Down);
    // player 1 leaves: the last player takes its place
    let left = vg.process_event(PlayerEvent { player: PlayerId(1), kind: Event::Disconnected }, None);
    assert_eq!(left, Some("one"));
    let ids: Vec<u64> = vg.players().iter().map(|p| p.id().0).collect();
    assert_eq!(ids, vec![3, 2]);
    assert_eq!(*vg.players()[0].state(), "three");
    assert_eq!(vg.process_event(PlayerEvent { player: PlayerId(9), kind: Event::Disconnected }, None), None);
    assert_eq!(vg.players().len(), 2);
}

#[test]
fn join_then_leave_restores_roster() {
    let mut vg: Vg<(), u8> = Vg::new(());
    vg.process_event(PlayerEvent { player: PlayerId(4), kind: Event::Connected }, Some(1));
    vg.process_event(PlayerEvent { player: PlayerId(5), kind: Event::Connected }, Some(2));
    assert_eq!(vg.process_event(PlayerEvent { player: PlayerId(5), kind: Event::Disconnected }, None), Some(2));
    assert_eq!(vg.players().len(), 1);
    assert_eq!(vg.players()[0].id(), PlayerId(4));
}

#[test]
fn clock_advances() {
    let mut vg: Vg<(), ()> = Vg::new(());
    vg.advance_time(100);
    vg.advance_time(50);
    assert_eq!(vg.run_time(), 150);
    assert_eq!(vg.delta_time(), 50);
    *vg.game_mut() = ();
    let _ = InputCache::new();
}

#[test]
fn end_tick_settles_keys_then_advances_clock() {
    let mut vg: Vg<(), u8> = Vg::new(());
    vg.process_event(PlayerEvent { player: PlayerId(7), kind: Event::Connected }, Some(0));
    vg.process_event(key_ev(7, 3, Digital::Pressed), None);
    vg.process_event(key_ev(7, 4, Digital::Released), None);
    vg.advance_time(10);
    vg.end_tick(25);
    assert_eq!(vg.players()[0].key(Key(3)), Digital::Down);
    assert_eq!(vg.players()[0].key(Key(4)), Digital::Up);
    assert_eq!((vg.run_time(), vg.delta_time()), (35, 25));
}

#[test]
fn host_handles_peer_messages() {
    let mut peer = PeerQueue::new(PlayerId(6));
    let k = Event::Key(KeyEvent { key: Key(2), state: Digital::Pressed });
    assert!(!host_receive(&mut peer, MessageC2S::Event(vec![k, Event::Text('x')])));
    assert_eq!(peer.events, vec![Event::Connected, k, Event::Text('x')]);
    assert!(host_receive(&mut peer, MessageC2S::Desync(0xABCD)));
    assert_eq!(peer.events.len(), 3);
    assert_eq!(peer.id, PlayerId(6));
}

#[test]
fn texture_layout_and_mip_levels() {
    let rgba = TextureSettings::default_settings();
    assert_eq!(
        TextureLayout::new((256, 64), 256 * 64 * 4, rgba),
        TextureLayout { width: 256, height: 64, depth: 1, format: TextureFormat::Rgba8UnormSrgb, bpp: 4, mip_level_count: 9 }
    );
    let hdr = TextureSettings { hdr: true, linear: true, channels: 1 };
    let l = TextureLayout::new((3, 5), 3 * 5 * 4, hdr);
    assert_eq!((l.format, l.bpp, l.mip_level_count), (TextureFormat::R32Float, 4, 3));
    assert_eq!(TextureLayout::new((1, 1), 4, rgba).mip_level_count, 1);
    assert_eq!(TextureLayout::new((0, 0), 0, rgba).mip_level_count, 1);
    assert_eq!(TextureLayout::new((1024, 1023), 1024 * 1023 * 4, rgba).mip_level_count, 11);
}
