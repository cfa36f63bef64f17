//! Players, their input events and the per-player key cache of the networked engine.
use vstd::prelude::*;
use vstd::string::StringExecFns;

verus! {

/// The upper-case hexadecimal digit for `d` (below 16).
pub open spec fn hex_char(d: nat) -> char {
    if d == 0 {
        '0'
    } else
    if d == 1 {
        '1'
    } else
    if d == 2 {
        '2'
    } else
    if d == 3 {
        '3'
    } else
    if d == 4 {
        '4'
    } else
    if d == 5 {
        '5'
    } else
    if d == 6 {
        '6'
    } else
    if d == 7 {
        '7'
    } else
    if d == 8 {
        '8'
    } else
    if d == 9 {
        '9'
    } else
    if d == 10 {
        'A'
    } else
    if d == 11 {
        'B'
    } else
    if d == 12 {
        'C'
    } else
    if d == 13 {
        'D'
    } else
    if d == 14 {
        'E'
    } else {
        'F'
    }
}

/// The upper-case hexadecimal digits of `n`, without leading zeros (`0` for 0).
pub open spec fn hex_digits(n: nat) -> Seq<char>
    decreases n,
{
    if n < 16 {
        seq![hex_char(n)]
    } else {
        hex_digits(n / 16).push(hex_char(n % 16))
    }
}

/// The number a hexadecimal digit stands for.
pub open spec fn digit_value(c: char) -> int {
    if '0' <= c && c <= '9' {
        (c as int) - ('0' as int)
    } else if 'A' <= c && c <= 'F' {
        (c as int) - ('A' as int) + 10
    } else {
        -1
    }
}

/// The number that a string of hexadecimal digits stands for, most significant
/// digit first.
pub open spec fn hex_value(s: Seq<char>) -> int
    decreases s.len(),
{
    if s.len() == 0 {
        0
    } else {
        hex_value(s.drop_last()) * 16 + digit_value(s.last())
    }
}

proof fn lemma_hex_char(d: nat)
    requires
        d < 16,
    ensures
        digit_value(hex_char(d)) == d,
        (hex_char(d) == '0') == (d == 0),
{
}

/// The digits of `n` stand for `n`, most significant first, in upper case, with
/// no leading zero; digit `d` below 16 is `0`..`9`, `A`..`F`.
pub proof fn law_hex_digits(n: nat)
    ensures
        hex_value(hex_digits(n)) == n,
        hex_digits(n).len() > 0,
        n >= 16 ==> hex_digits(n)[0] != '0',
        hex_char(0) == '0' && hex_char(9) == '9' && hex_char(10) == 'A' && hex_char(15) == 'F',
    decreases n,
{
    if n < 16 {
        lemma_hex_char(n);
        let s = hex_digits(n);
        assert(s.drop_last() =~= Seq::<char>::empty());
        assert(hex_value(s.drop_last()) == 0);
        assert(s.last() == hex_char(n));
    } else {
        law_hex_digits(n / 16);
        lemma_hex_char(n % 16);
        let s = hex_digits(n);
        assert(s.drop_last() =~= hex_digits(n / 16));
        assert(s.last() == hex_char(n % 16));
        assert(hex_value(s) == hex_value(hex_digits(n / 16)) * 16 + digit_value(hex_char(n % 16)));
        assert((n / 16) * 16 + n % 16 == n);
        assert(s[0] == hex_digits(n / 16)[0]);
        if n / 16 < 16 {
            lemma_hex_char(n / 16);
        }
    }
}

fn hex_digit(d: u64) -> (s: &'static str)
    requires
        d < 16,
    ensures
        s@ == seq![hex_char(d as nat)],
{
    match d {
        0 => {
            proof {
                reveal_strlit("0");
            }
            "0"
        },
        1 => {
            proof {
                reveal_strlit("1");
            }
            "1"
        },
        2 => {
            proof {
                reveal_strlit("2");
            }
            "2"
        },
        3 => {
            proof {
                reveal_strlit("3");
            }
            "3"
        },
        4 => {
            proof {
                reveal_strlit("4");
            }
            "4"
        },
        5 => {
            proof {
                reveal_strlit("5");
            }
            "5"
        },
        6 => {
            proof {
                reveal_strlit("6");
            }
            "6"
        },
        7 => {
            proof {
                reveal_strlit("7");
            }
            "7"
        },
        8 => {
            proof {
                reveal_strlit("8");
            }
            "8"
        },
        9 => {
            proof {
                reveal_strlit("9");
            }
            "9"
        },
        10 => {
            proof {
                reveal_strlit("A");
            }
            "A"
        },
        11 => {
            proof {
                reveal_strlit("B");
            }
            "B"
        },
        12 => {
            proof {
                reveal_strlit("C");
            }
            "C"
        },
        13 => {
            proof {
                reveal_strlit("D");
            }
            "D"
        },
        14 => {
            proof {
                reveal_strlit("E");
            }
            "E"
        },
        _ => {
            proof {
                reveal_strlit("F");
            }
            "F"
        },
    }
}

fn push_hex(s: &mut String, n: u64)
    ensures
        final(s)@ == old(s)@ + hex_digits(n as nat),
    decreases n,
{
    if n >= 16 {
        push_hex(s, n / 16);
    }
    let ghost before = s@;
    s.append(hex_digit(n % 16));
    proof {
        if n >= 16 {
            assert(before + seq![hex_char((n % 16) as nat)] =~= old(s)@ + hex_digits(n as nat));
        } else {
            assert(n % 16 == n);
            assert(before + seq![hex_char((n % 16) as nat)] =~= old(s)@ + hex_digits(n as nat));
        }
    }
}

/// Identifies a player of a networked game; the host is player 0.
#[derive(Debug, Clone, Copy, PartialEq, Eq, Hash, Structural)]
pub struct PlayerId(pub u64);

impl PlayerId {
    /// The id of the hosting player.
    pub fn host() -> (id: PlayerId)
        ensures
            id == PlayerId(0),
    {
        PlayerId(0)
    }

    /// An id made from the hash that `std::collections::hash_map::DefaultHasher`
    /// gives `hash`; nothing is stated of its value.
    #[verifier::external_body]
    pub fn from_hash<H: std::hash::Hash>(hash: H) -> PlayerId {
        let mut hasher = std::collections::hash_map::DefaultHasher::new();
        hash.hash(&mut hasher);
        PlayerId(std::hash::Hasher::finish(&hasher))
    }

    /// The id as text: `0x` and its upper-case hexadecimal digits.
    pub fn to_string(&self) -> (s: String)
        ensures
            s@ == "0x"@ + hex_digits(self.0 as nat),
    {
        let mut s = String::new();
        proof {
            reveal_strlit("0x");
        }
        s.append("0x");
        push_hex(&mut s, self.0);
        s
    }

    /// Whether this is the hosting player.
    pub fn is_host(&self) -> (b: bool)
        ensures
            b == (self.0 == 0),
    {
        self.0 == 0
    }
}

/// A key as numbered by the windowing system.
#[derive(Debug, Clone, Copy, PartialEq, Eq, Hash, Structural)]
pub struct Key(pub u32);

/// A digital state of a button or a key.
#[derive(Debug, Clone, Copy, PartialEq, Eq, Structural)]
pub enum Digital {
    /// The input was released on this frame.
    Released,
    /// The input is idle.
    Up,
    /// The input has been pressed on this frame.
    Pressed,
    /// The button is currently down.
    Down,
}

/// `Pressed` and `Down` count as held.
pub open spec fn spec_down(d: Digital) -> bool {
    d == Digital::Pressed || d == Digital::Down
}

impl Digital {
    /// `true` if `self` is `Pressed` or `Down`.
    pub fn down(&self) -> (b: bool)
        ensures
            b == spec_down(*self),
    {
        match self {
            Digital::Pressed | Digital::Down => true,
            _ => false,
        }
    }

    /// `true` if the input is considered lifted (`Released` or `Up`).
    pub fn up(&self) -> (b: bool)
        ensures
            b == !spec_down(*self),
    {
        !self.down()
    }
}

impl Default for Digital {
    fn default() -> (d: Digital)
        ensures
            d == Digital::Up,
    {
        Digital::Up
    }
}

/// A keyboard event: which key, and its new state.
#[derive(Debug, Clone, Copy, PartialEq, Eq, Structural)]
pub struct KeyEvent {
    pub key: Key,
    pub state: Digital,
}

/// A gamepad event (carries no data yet).
#[derive(Debug, Clone, Copy, PartialEq, Eq, Structural)]
pub struct GamepadEvent {}

/// A mouse event (carries no data yet).
#[derive(Debug, Clone, Copy, PartialEq, Eq, Structural)]
pub struct MouseEvent {}

/// A touch event (carries no data yet).
#[derive(Debug, Clone, Copy, PartialEq, Eq, Structural)]
pub struct TouchEvent {}

/// Something a player did.
#[derive(Debug, Clone, Copy, PartialEq, Eq, Structural)]
pub enum Event {
    /// A player has connected to this game.
    Connected,
    /// A player has disconnected from this game.
    Disconnected,
    /// Text input.
    Text(char),
    /// Keyboard input.
    Key(KeyEvent),
    /// Mouse input.
    Mouse(MouseEvent),
    /// Touch input.
    Touch(TouchEvent),
    /// Gamepad input.
    Gamepad(GamepadEvent),
}

impl Event {
    /// The event for a key of the keyboard going down (`pressed`) or up: the key
    /// becomes `Pressed` or `Released`.
    pub fn keyboard(key: Key, pressed: bool) -> (e: Event)
        ensures
            e == Event::Key(KeyEvent { key, state: if pressed { Digital::Pressed } else { Digital::Released } }),
    {
        Event::Key(KeyEvent { key, state: if pressed { Digital::Pressed } else { Digital::Released } })
    }
}

/// An event together with the player it comes from.
#[derive(Debug, Clone, Copy, PartialEq, Eq, Structural)]
pub struct PlayerEvent {
    pub player: PlayerId,
    pub kind: Event,
}

/// What one tick does to a key state: `Pressed` becomes `Down`, `Released` becomes `Up`.
pub open spec fn tick_state(d: Digital) -> Digital {
    match d {
        Digital::Pressed => Digital::Down,
        Digital::Released => Digital::Up,
        other => other,
    }
}

/// The state of `k` in a list of recorded keys; the last entry for `k` wins and an
/// unrecorded key is `Up`.
pub open spec fn lookup(s: Seq<(Key, Digital)>, k: Key) -> Digital
    decreases s.len(),
{
    if s.len() == 0 {
        Digital::Up
    } else if s.last().0 == k {
        s.last().1
    } else {
        lookup(s.drop_last(), k)
    }
}

/// No key is recorded twice.
pub open spec fn distinct_keys(s: Seq<(Key, Digital)>) -> bool {
    forall|i: int, j: int| 0 <= i < j < s.len() ==> s[i].0 != s[j].0
}

proof fn lemma_lookup_absent(s: Seq<(Key, Digital)>, k: Key)
    requires
        forall|i: int| 0 <= i < s.len() ==> s[i].0 != k,
    ensures
        lookup(s, k) == Digital::Up,
    decreases s.len(),
{
    if s.len() > 0 {
        lemma_lookup_absent(s.drop_last(), k);
    }
}

proof fn lemma_lookup_at(s: Seq<(Key, Digital)>, i: int)
    requires
        distinct_keys(s),
        0 <= i < s.len(),
    ensures
        lookup(s, s[i].0) == s[i].1,
    decreases s.len(),
{
    if i < s.len() - 1 {
        lemma_lookup_at(s.drop_last(), i);
    }
}

proof fn lemma_lookup_update(s: Seq<(Key, Digital)>, j: int, v: Digital, k: Key)
    requires
        distinct_keys(s),
        0 <= j < s.len(),
    ensures
        lookup(s.update(j, (s[j].0, v)), k) == if k == s[j].0 { v } else { lookup(s, k) },
    decreases s.len(),
{
    let t = s.update(j, (s[j].0, v));
    if j == s.len() - 1 {
        assert(t.drop_last() =~= s.drop_last());
        if k != s[j].0 {
        } else {
        }
    } else {
        assert(t.drop_last() =~= s.drop_last().update(j, (s[j].0, v)));
        lemma_lookup_update(s.drop_last(), j, v, k);
    }
}

proof fn lemma_lookup_ticked(s: Seq<(Key, Digital)>, t: Seq<(Key, Digital)>, k: Key)
    requires
        t.len() == s.len(),
        forall|i: int| 0 <= i < s.len() ==> #[trigger] t[i] == (s[i].0, tick_state(s[i].1)),
    ensures
        lookup(t, k) == tick_state(lookup(s, k)),
    decreases s.len(),
{
    if s.len() > 0 {
        lemma_lookup_ticked(s.drop_last(), t.drop_last(), k);
    }
}

/// The key states of one player.
#[derive(Debug, Clone)]
pub struct InputCache {
    keys: Vec<(Key, Digital)>,
}

impl InputCache {
    /// Each key is recorded at most once.
    pub closed spec fn wf(&self) -> bool {
        distinct_keys(self.keys@)
    }

    /// The state of key `k`.
    pub closed spec fn state(&self, k: Key) -> Digital {
        lookup(self.keys@, k)
    }

    /// A cache in which every key is `Up`.
    pub fn new() -> (c: InputCache)
        ensures
            c.wf(),
            forall|k: Key| #[trigger] c.state(k) == Digital::Up,
    {
        InputCache { keys: Vec::new() }
    }

    /// Record a key event; other events leave the cache as it is.
    pub fn event(&mut self, event: &Event)
        requires
            old(self).wf(),
        ensures
            final(self).wf(),
            match *event {
                Event::Key(ke) => forall|k: Key| #[trigger] final(self).state(k)
                    == if k == ke.key { ke.state } else { old(self).state(k) },
                _ => *final(self) == *old(self),
            },
    {
        match event {
            Event::Key(ke) => self.set(ke.key, ke.state),
            _ => {},
        }
    }

    fn set(&mut self, key: Key, state: Digital)
        requires
            old(self).wf(),
        ensures
            final(self).wf(),
            forall|k: Key| #[trigger] final(self).state(k)
                == if k == key { state } else { old(self).state(k) },
    {
        let mut i: usize = 0;
        while i < self.keys.len()
            invariant
                i <= self.keys.len(),
                self.keys@ == old(self).keys@,
                distinct_keys(self.keys@),
                forall|j: int| 0 <= j < i ==> self.keys@[j].0 != key,
            decreases self.keys.len() - i,
        {
            if self.keys[i].0 == key {
                let ghost s = self.keys@;
                self.keys.set(i, (key, state));
                assert forall|k: Key| #[trigger] self.state(k)
                    == if k == key { state } else { old(self).state(k) } by {
                    lemma_lookup_update(s, i as int, state, k);
                }
                assert(self.keys@ == s.update(i as int, (s[i as int].0, state)));
                assert(distinct_keys(self.keys@));
                return;
            }
            i = i + 1;
        }
        let ghost s = self.keys@;
        self.keys.push((key, state));
        assert(self.keys@.drop_last() =~= s);
    }

    /// Advance every key by one tick: `Pressed` becomes `Down`, `Released` becomes `Up`.
    pub fn tick(&mut self)
        requires
            old(self).wf(),
        ensures
            final(self).wf(),
            forall|k: Key| #[trigger] final(self).state(k) == tick_state(old(self).state(k)),
    {
        let mut i: usize = 0;
        while i < self.keys.len()
            invariant
                i <= self.keys.len(),
                self.keys.len() == old(self).keys.len(),
                forall|j: int| 0 <= j < i ==> #[trigger] self.keys@[j] == (old(self).keys@[j].0, tick_state(old(self).keys@[j].1)),
                forall|j: int| i <= j < self.keys.len() ==> #[trigger] self.keys@[j] == old(self).keys@[j],
            decreases self.keys.len() - i,
        {
            let (k, d) = self.keys[i];
            let next = match d {
                Digital::Pressed => Digital::Down,
                Digital::Released => Digital::Up,
                other => other,
            };
            self.keys.set(i, (k, next));
            i = i + 1;
        }
        assert forall|k: Key| #[trigger] self.state(k) == tick_state(old(self).state(k)) by {
            lemma_lookup_ticked(old(self).keys@, self.keys@, k);
        }
    }

    /// The state of `key`; `Up` when it was never reported.
    pub fn key(&self, key: Key) -> (d: Digital)
        requires
            self.wf(),
        ensures
            d == self.state(key),
    {
        let mut i: usize = 0;
        while i < self.keys.len()
            invariant
                i <= self.keys.len(),
                distinct_keys(self.keys@),
                forall|j: int| 0 <= j < i ==> self.keys@[j].0 != key,
            decreases self.keys.len() - i,
        {
            if self.keys[i].0 == key {
                proof {
                    lemma_lookup_at(self.keys@, i as int);
                }
                return self.keys[i].1;
            }
            i = i + 1;
        }
        proof {
            lemma_lookup_absent(self.keys@, key);
        }
        Digital::Up
    }
}

/// The keys that steer, two for each direction (WASD and the arrow keys), as
/// the windowing system numbers them.
#[derive(Debug, Clone, Copy)]
pub struct SteerKeys {
    pub up: (Key, Key),
    pub down: (Key, Key),
    pub right: (Key, Key),
    pub left: (Key, Key),
}

/// 1 when either key of `keys` is held in `c`, else 0.
pub open spec fn either_held(c: InputCache, keys: (Key, Key)) -> int {
    if spec_down(c.state(keys.0)) || spec_down(c.state(keys.1)) { 1 } else { 0 }
}

impl InputCache {
    fn held_either(&self, keys: (Key, Key)) -> (h: i8)
        requires
            self.wf(),
        ensures
            h == either_held(*self, keys),
    {
        if self.key(keys.0).down() || self.key(keys.1).down() { 1 } else { 0 }
    }

    /// The steering keys as a direction `[x, y]`: right minus left, and up minus
    /// down, each direction counting 1 when either of its keys is held.
    pub fn wasd_arrows(&self, keys: &SteerKeys) -> (dir: [i8; 2])
        requires
            self.wf(),
        ensures
            dir[0] == either_held(*self, keys.right) - either_held(*self, keys.left),
            dir[1] == either_held(*self, keys.up) - either_held(*self, keys.down),
    {
        let right = self.held_either(keys.right);
        let left = self.held_either(keys.left);
        let up = self.held_either(keys.up);
        let down = self.held_either(keys.down);
        [right - left, up - down]
    }
}

/// A tick settles a key: pressed keys are held, released keys are idle, a second
/// tick changes nothing more, and whether the key is held does not change.
pub proof fn law_tick_settles(d: Digital)
    ensures
        tick_state(tick_state(d)) == tick_state(d),
        tick_state(d) == Digital::Up || tick_state(d) == Digital::Down,
        spec_down(tick_state(d)) == spec_down(d),
{
}

/// A key counts as held exactly when it is `Pressed` or `Down`.
pub proof fn law_down_states()
    ensures
        spec_down(Digital::Pressed),
        spec_down(Digital::Down),
        !spec_down(Digital::Up),
        !spec_down(Digital::Released),
{
}

} // verus!
