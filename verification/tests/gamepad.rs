use vg::controller::{get_button, get_button_down, get_button_up, pad_slot, Button, Controller, PadButton};

#[test]
fn button_edges_follow_frames() {
    let mut c = Controller::new();
    assert!(!get_button(&c, &Button::South));
    c.begin_frame();
    c.button_changed(Button::South, true);
    assert!(get_button(&c, &Button::South));
    assert!(get_button_down(&c, &Button::South));
    assert!(!get_button_up(&c, &Button::South));
    c.begin_frame();
    assert!(get_button(&c, &Button::South));
    assert!(!get_button_down(&c, &Button::South));
    c.button_changed(Button::South, false);
    assert!(get_button_up(&c, &Button::South));
    assert!(!get_button(&c, &Button::South));
    c.begin_frame();
    assert!(!get_button_up(&c, &Button::South));
}

#[test]
fn each_button_has_its_own_state() {
    let all = [
        Button::North, Button::East, Button::South, Button::West, Button::BumperLeft,
        Button::BumperRight, Button::DUp, Button::DRight, Button::DDown, Button::DLeft,
    ];
    for b in all.iter() {
        let mut c = Controller::new();
        c.button_changed(*b, true);
        for o in all.iter() {
            assert_eq!(get_button(&c, o), o == b);
        }
    }
}

#[test]
fn pad_buttons_drive_their_slots() {
    assert_eq!(pad_slot(PadButton::LeftTrigger), Some(Button::BumperLeft));
    assert_eq!(pad_slot(PadButton::DPadLeft), Some(Button::DLeft));
    assert_eq!(pad_slot(PadButton::Start), None);
    let mut c = Controller::new();
    c.pad_button(PadButton::South, true);
    c.pad_button(PadButton::LeftTrigger2, true);
    assert!(get_button(&c, &Button::South));
    assert!(get_button_down(&c, &Button::South));
    c.begin_frame();
    c.pad_button(PadButton::South, false);
    assert!(get_button_up(&c, &Button::South));
    assert!(!get_button(&c, &Button::BumperLeft));
}
