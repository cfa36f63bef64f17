//! Values exchanged between a game and the host that runs it.
use vstd::prelude::*;

verus! {

/// Memory-grow argument that asks the host to re-acquire the guest memory.
pub const MOVE_TRIGGER_MAGIC: usize = 0xCAFEBABE;

/// Number of keys that [`Key`] can name.
pub const KEY_COUNT: usize = 45;

/// A key of the keyboard that the host reports to the game.
#[derive(Debug, Clone, Copy, PartialEq, Eq, Hash, Structural)]
pub enum Key {
    A,
    B,
    C,
    D,
    E,
    F,
    G,
    H,
    I,
    J,
    K,
    L,
    M,
    N,
    O,
    P,
    Q,
    R,
    S,
    T,
    U,
    V,
    W,
    X,
    Y,
    Z,
    Left,
    Right,
    Up,
    Down,
    Space,
    Shift,
    Control,
    Tab,
    Num1,
    Num2,
    Num3,
    Num4,
    Num5,
    Num6,
    Num7,
    Num8,
    Num9,
    Num0,
    Escape,
}

/// Position of a key in the table of all keys.
pub open spec fn key_index(k: Key) -> nat {
    match k {
        Key::A => 0,
        Key::B => 1,
        Key::C => 2,
        Key::D => 3,
        Key::E => 4,
        Key::F => 5,
        Key::G => 6,
        Key::H => 7,
        Key::I => 8,
        Key::J => 9,
        Key::K => 10,
        Key::L => 11,
        Key::M => 12,
        Key::N => 13,
        Key::O => 14,
        Key::P => 15,
        Key::Q => 16,
        Key::R => 17,
        Key::S => 18,
        Key::T => 19,
        Key::U => 20,
        Key::V => 21,
        Key::W => 22,
        Key::X => 23,
        Key::Y => 24,
        Key::Z => 25,
        Key::Left => 26,
        Key::Right => 27,
        Key::Up => 28,
        Key::Down => 29,
        Key::Space => 30,
        Key::Shift => 31,
        Key::Control => 32,
        Key::Tab => 33,
        Key::Num1 => 34,
        Key::Num2 => 35,
        Key::Num3 => 36,
        Key::Num4 => 37,
        Key::Num5 => 38,
        Key::Num6 => 39,
        Key::Num7 => 40,
        Key::Num8 => 41,
        Key::Num9 => 42,
        Key::Num0 => 43,
        Key::Escape => 44,
    }
}

/// The key at a position of the table of all keys.
pub open spec fn key_at(i: nat) -> Key {
    if i == 0 {
        Key::A
    } else if i == 1 {
        Key::B
    } else if i == 2 {
        Key::C
    } else if i == 3 {
        Key::D
    } else if i == 4 {
        Key::E
    } else if i == 5 {
        Key::F
    } else if i == 6 {
        Key::G
    } else if i == 7 {
        Key::H
    } else if i == 8 {
        Key::I
    } else if i == 9 {
        Key::J
    } else if i == 10 {
        Key::K
    } else if i == 11 {
        Key::L
    } else if i == 12 {
        Key::M
    } else if i == 13 {
        Key::N
    } else if i == 14 {
        Key::O
    } else if i == 15 {
        Key::P
    } else if i == 16 {
        Key::Q
    } else if i == 17 {
        Key::R
    } else if i == 18 {
        Key::S
    } else if i == 19 {
        Key::T
    } else if i == 20 {
        Key::U
    } else if i == 21 {
        Key::V
    } else if i == 22 {
        Key::W
    } else if i == 23 {
        Key::X
    } else if i == 24 {
        Key::Y
    } else if i == 25 {
        Key::Z
    } else if i == 26 {
        Key::Left
    } else if i == 27 {
        Key::Right
    } else if i == 28 {
        Key::Up
    } else if i == 29 {
        Key::Down
    } else if i == 30 {
        Key::Space
    } else if i == 31 {
        Key::Shift
    } else if i == 32 {
        Key::Control
    } else if i == 33 {
        Key::Tab
    } else if i == 34 {
        Key::Num1
    } else if i == 35 {
        Key::Num2
    } else if i == 36 {
        Key::Num3
    } else if i == 37 {
        Key::Num4
    } else if i == 38 {
        Key::Num5
    } else if i == 39 {
        Key::Num6
    } else if i == 40 {
        Key::Num7
    } else if i == 41 {
        Key::Num8
    } else if i == 42 {
        Key::Num9
    } else if i == 43 {
        Key::Num0
    } else {
        Key::Escape
    }
}

/// Every key has its own position below `KEY_COUNT`.
pub proof fn lemma_key_index_bijective(k: Key)
    ensures
        key_index(k) < KEY_COUNT,
        key_at(key_index(k)) == k,
{
}

impl Key {
    /// Position of this key in the table of all keys.
    pub fn index(self) -> (i: usize)
        ensures
            i == key_index(self),
            i < KEY_COUNT,
    {
        match self {
            Key::A => 0,
            Key::B => 1,
            Key::C => 2,
            Key::D => 3,
            Key::E => 4,
            Key::F => 5,
            Key::G => 6,
            Key::H => 7,
            Key::I => 8,
            Key::J => 9,
            Key::K => 10,
            Key::L => 11,
            Key::M => 12,
            Key::N => 13,
            Key::O => 14,
            Key::P => 15,
            Key::Q => 16,
            Key::R => 17,
            Key::S => 18,
            Key::T => 19,
            Key::U => 20,
            Key::V => 21,
            Key::W => 22,
            Key::X => 23,
            Key::Y => 24,
            Key::Z => 25,
            Key::Left => 26,
            Key::Right => 27,
            Key::Up => 28,
            Key::Down => 29,
            Key::Space => 30,
            Key::Shift => 31,
            Key::Control => 32,
            Key::Tab => 33,
            Key::Num1 => 34,
            Key::Num2 => 35,
            Key::Num3 => 36,
            Key::Num4 => 37,
            Key::Num5 => 38,
            Key::Num6 => 39,
            Key::Num7 => 40,
            Key::Num8 => 41,
            Key::Num9 => 42,
            Key::Num0 => 43,
            Key::Escape => 44,
        }
    }
}

/// The state of a key as the game sees it during one frame.
#[derive(Debug, Clone, Copy, PartialEq, Eq, Structural)]
pub enum Digital {
    /// The key is idle.
    Up,
    /// The key is held.
    Down,
    /// The key went down during the last frame.
    Pressed,
    /// The key went up during the last frame.
    Raised,
}

/// A key counts as held when it is down or was just pressed.
pub open spec fn spec_is_down(d: Digital) -> bool {
    d == Digital::Down || d == Digital::Pressed
}

impl Digital {
    /// Whether the key counts as held (`Down` or `Pressed`).
    pub fn is_down(&self) -> (b: bool)
        ensures
            b == spec_is_down(*self),
    {
        match self {
            Digital::Up | Digital::Raised => false,
            Digital::Down | Digital::Pressed => true,
        }
    }
}

/// A key change that the host reports to the game.
#[derive(Debug, Clone, Copy, PartialEq, Eq, Structural)]
pub enum Event {
    /// The key was released.
    Up(Key),
    /// The key was pushed.
    Down(Key),
}

/// A request to play a sound asset.
#[derive(Debug, Clone)]
pub struct PlayCall {
    pub asset: String,
    pub looping: bool,
}

/// A request from the game to the host.
#[derive(Debug, Clone)]
pub enum Call {
    /// Exit the game.
    Exit,
    /// Play a sound.
    Play(PlayCall),
    /// Print a log message.
    Print(String),
}

} // verus!
