//! Gamepad button state, sampled once per frame.
use vstd::prelude::*;

verus! {

/// A digital gamepad button.
#[derive(Debug, Clone, Copy, PartialEq, Eq, Structural)]
pub enum Button {
    North,
    East,
    South,
    West,
    BumperLeft,
    BumperRight,
    DUp,
    DRight,
    DDown,
    DLeft,
}

/// An analog gamepad axis.
#[derive(Debug, Clone, Copy, PartialEq, Eq, Structural)]
pub enum Axis {
    MoveX,
    MoveY,
    ViewX,
    ViewY,
    TriggerL,
    TriggerR,
}

/// Which digital buttons are held.
#[derive(Debug, Clone, Copy)]
pub struct ControllerState {
    pub bumpers: (bool, bool),
    pub buttons: (bool, bool, bool, bool),
    pub dpad: (bool, bool, bool, bool),
}

/// Whether `b` is held in `s`.
pub open spec fn spec_held(s: ControllerState, b: Button) -> bool {
    match b {
        Button::North => s.buttons.0,
        Button::East => s.buttons.1,
        Button::South => s.buttons.2,
        Button::West => s.buttons.3,
        Button::BumperLeft => s.bumpers.0,
        Button::BumperRight => s.bumpers.1,
        Button::DUp => s.dpad.0,
        Button::DRight => s.dpad.1,
        Button::DDown => s.dpad.2,
        Button::DLeft => s.dpad.3,
    }
}

impl ControllerState {
    /// No button held.
    pub fn released() -> (s: ControllerState)
        ensures
            forall|b: Button| !#[trigger] spec_held(s, b),
    {
        ControllerState {
            bumpers: (false, false),
            buttons: (false, false, false, false),
            dpad: (false, false, false, false),
        }
    }

    /// Whether `b` is held.
    pub fn held(&self, b: &Button) -> (r: bool)
        ensures
            r == spec_held(*self, *b),
    {
        match b {
            Button::North => self.buttons.0,
            Button::East => self.buttons.1,
            Button::South => self.buttons.2,
            Button::West => self.buttons.3,
            Button::BumperLeft => self.bumpers.0,
            Button::BumperRight => self.bumpers.1,
            Button::DUp => self.dpad.0,
            Button::DRight => self.dpad.1,
            Button::DDown => self.dpad.2,
            Button::DLeft => self.dpad.3,
        }
    }

    /// Mark `b` held or released; the other buttons keep their state.
    pub fn set(&mut self, b: Button, held: bool)
        ensures
            spec_held(*final(self), b) == held,
            forall|o: Button| o != b ==> #[trigger] spec_held(*final(self), o) == spec_held(*old(self), o),
    {
        match b {
            Button::North => self.buttons.0 = held,
            Button::East => self.buttons.1 = held,
            Button::South => self.buttons.2 = held,
            Button::West => self.buttons.3 = held,
            Button::BumperLeft => self.bumpers.0 = held,
            Button::BumperRight => self.bumpers.1 = held,
            Button::DUp => self.dpad.0 = held,
            Button::DRight => self.dpad.1 = held,
            Button::DDown => self.dpad.2 = held,
            Button::DLeft => self.dpad.3 = held,
        }
    }
}

impl Default for ControllerState {
    fn default() -> (s: ControllerState)
        ensures
            forall|b: Button| !#[trigger] spec_held(s, b),
    {
        ControllerState::released()
    }
}

/// The buttons of this frame and of the frame before.
pub struct Controller {
    pub current: ControllerState,
    pub last: ControllerState,
}

impl Controller {
    /// A controller with nothing held now or before.
    pub fn new() -> (c: Controller)
        ensures
            forall|b: Button| !#[trigger] spec_held(c.current, b) && !spec_held(c.last, b),
    {
        Controller { current: ControllerState::released(), last: ControllerState::released() }
    }

    /// Start a new frame: the current buttons become the previous ones.
    pub fn begin_frame(&mut self)
        ensures
            final(self).last == old(self).current,
            final(self).current == old(self).current,
    {
        self.last = self.current;
    }

    /// A button was pressed (`true`) or released (`false`) during this frame.
    pub fn button_changed(&mut self, b: Button, pressed: bool)
        ensures
            final(self).last == old(self).last,
            spec_held(final(self).current, b) == pressed,
            forall|o: Button| o != b ==> #[trigger] spec_held(final(self).current, o)
                == spec_held(old(self).current, o),
    {
        self.current.set(b, pressed);
    }
}

/// A button as the gamepad layer names it.
#[derive(Debug, Clone, Copy, PartialEq, Eq, Structural)]
pub enum PadButton {
    South,
    East,
    North,
    West,
    C,
    Z,
    LeftTrigger,
    LeftTrigger2,
    RightTrigger,
    RightTrigger2,
    Select,
    Start,
    Mode,
    LeftThumb,
    RightThumb,
    DPadUp,
    DPadDown,
    DPadLeft,
    DPadRight,
    Unknown,
}

/// The button slot a gamepad button drives: the action pad, the bumpers (the
/// upper triggers) and the D-pad; the others drive none.
pub open spec fn spec_pad_slot(b: PadButton) -> Option<Button> {
    match b {
        PadButton::North => Some(Button::North),
        PadButton::East => Some(Button::East),
        PadButton::South => Some(Button::South),
        PadButton::West => Some(Button::West),
        PadButton::LeftTrigger => Some(Button::BumperLeft),
        PadButton::RightTrigger => Some(Button::BumperRight),
        PadButton::DPadUp => Some(Button::DUp),
        PadButton::DPadRight => Some(Button::DRight),
        PadButton::DPadDown => Some(Button::DDown),
        PadButton::DPadLeft => Some(Button::DLeft),
        _ => None,
    }
}

/// The button slot a gamepad button drives, if any.
pub fn pad_slot(b: PadButton) -> (r: Option<Button>)
    ensures
        r == spec_pad_slot(b),
        b == PadButton::North ==> r == Some(Button::North),
        b == PadButton::East ==> r == Some(Button::East),
        b == PadButton::South ==> r == Some(Button::South),
        b == PadButton::West ==> r == Some(Button::West),
        b == PadButton::LeftTrigger ==> r == Some(Button::BumperLeft),
        b == PadButton::RightTrigger ==> r == Some(Button::BumperRight),
        b == PadButton::DPadUp ==> r == Some(Button::DUp),
        b == PadButton::DPadRight ==> r == Some(Button::DRight),
        b == PadButton::DPadDown ==> r == Some(Button::DDown),
        b == PadButton::DPadLeft ==> r == Some(Button::DLeft),
        r is Some <==> (b == PadButton::North || b == PadButton::East || b == PadButton::South
            || b == PadButton::West || b == PadButton::LeftTrigger || b == PadButton::RightTrigger
            || b == PadButton::DPadUp || b == PadButton::DPadRight || b == PadButton::DPadDown
            || b == PadButton::DPadLeft),
{
    match b {
        PadButton::North => Some(Button::North),
        PadButton::East => Some(Button::East),
        PadButton::South => Some(Button::South),
        PadButton::West => Some(Button::West),
        PadButton::LeftTrigger => Some(Button::BumperLeft),
        PadButton::RightTrigger => Some(Button::BumperRight),
        PadButton::DPadUp => Some(Button::DUp),
        PadButton::DPadRight => Some(Button::DRight),
        PadButton::DPadDown => Some(Button::DDown),
        PadButton::DPadLeft => Some(Button::DLeft),
        _ => None,
    }
}

/// Each gamepad button drives the slot of the same name: the face buttons their
/// directions, the upper triggers the bumpers, the D-pad its directions; the
/// other buttons drive none. Two buttons never share a slot.
pub proof fn law_pad_slots(b: PadButton, o: PadButton)
    ensures
        spec_pad_slot(PadButton::North) == Some(Button::North),
        spec_pad_slot(PadButton::East) == Some(Button::East),
        spec_pad_slot(PadButton::South) == Some(Button::South),
        spec_pad_slot(PadButton::West) == Some(Button::West),
        spec_pad_slot(PadButton::LeftTrigger) == Some(Button::BumperLeft),
        spec_pad_slot(PadButton::RightTrigger) == Some(Button::BumperRight),
        spec_pad_slot(PadButton::DPadUp) == Some(Button::DUp),
        spec_pad_slot(PadButton::DPadRight) == Some(Button::DRight),
        spec_pad_slot(PadButton::DPadDown) == Some(Button::DDown),
        spec_pad_slot(PadButton::DPadLeft) == Some(Button::DLeft),
        spec_pad_slot(PadButton::C) is None,
        spec_pad_slot(PadButton::Z) is None,
        spec_pad_slot(PadButton::LeftTrigger2) is None,
        spec_pad_slot(PadButton::RightTrigger2) is None,
        spec_pad_slot(PadButton::Select) is None,
        spec_pad_slot(PadButton::Start) is None,
        spec_pad_slot(PadButton::Mode) is None,
        spec_pad_slot(PadButton::LeftThumb) is None,
        spec_pad_slot(PadButton::RightThumb) is None,
        spec_pad_slot(PadButton::Unknown) is None,
        b != o && spec_pad_slot(b) is Some ==> spec_pad_slot(b) != spec_pad_slot(o),
{
}

impl Controller {
    /// A gamepad button went down (`pressed`) or up: its slot, if it has one,
    /// follows; a button without a slot changes nothing.
    pub fn pad_button(&mut self, b: PadButton, pressed: bool)
        ensures
            final(self).last == old(self).last,
            match spec_pad_slot(b) {
                Some(slot) => {
                    &&& spec_held(final(self).current, slot) == pressed
                    &&& forall|o: Button| o != slot ==> #[trigger] spec_held(final(self).current, o)
                        == spec_held(old(self).current, o)
                },
                None => forall|o: Button| #[trigger] spec_held(final(self).current, o)
                    == spec_held(old(self).current, o),
            },
    {
        match pad_slot(b) {
            Some(slot) => self.button_changed(slot, pressed),
            None => {},
        }
    }
}

/// Whether `button` is held.
pub fn get_button(c: &Controller, button: &Button) -> (r: bool)
    ensures
        r == spec_held(c.current, *button),
{
    c.current.held(button)
}

/// Whether `button` went down this frame: held now, not held before.
pub fn get_button_down(c: &Controller, button: &Button) -> (r: bool)
    ensures
        r == (spec_held(c.current, *button) && !spec_held(c.last, *button)),
{
    c.current.held(button) && !c.last.held(button)
}

/// Whether `button` went up this frame: not held now, held before.
pub fn get_button_up(c: &Controller, button: &Button) -> (r: bool)
    ensures
        r == (!spec_held(c.current, *button) && spec_held(c.last, *button)),
{
    !c.current.held(button) && c.last.held(button)
}

/// A button never goes down and up in the same frame; going down means it is held
/// and going up means it is not.
pub proof fn law_edges_exclusive(current: ControllerState, last: ControllerState, b: Button)
    ensures
        !((spec_held(current, b) && !spec_held(last, b)) && (!spec_held(current, b) && spec_held(last, b))),
{
}

/// Right after a new frame starts, no button has gone down or up.
pub proof fn law_new_frame_has_no_edges(c: Controller, b: Button)
    ensures
        ({
            let c2 = Controller { last: c.current, current: c.current };
            !(spec_held(c2.current, b) && !spec_held(c2.last, b)) && !(!spec_held(c2.current, b)
                && spec_held(c2.last, b))
        }),
{
}

/// Which field of the controller state each button reads: the face buttons are
/// `buttons` north, east, south, west; the bumpers are `bumpers` left, right; the
/// D-pad is `dpad` up, right, down, left.
pub proof fn law_button_fields(s: ControllerState)
    ensures
        spec_held(s, Button::North) == s.buttons.0,
        spec_held(s, Button::East) == s.buttons.1,
        spec_held(s, Button::South) == s.buttons.2,
        spec_held(s, Button::West) == s.buttons.3,
        spec_held(s, Button::BumperLeft) == s.bumpers.0,
        spec_held(s, Button::BumperRight) == s.bumpers.1,
        spec_held(s, Button::DUp) == s.dpad.0,
        spec_held(s, Button::DRight) == s.dpad.1,
        spec_held(s, Button::DDown) == s.dpad.2,
        spec_held(s, Button::DLeft) == s.dpad.3,
{
}

} // verus!
