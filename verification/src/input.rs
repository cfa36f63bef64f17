//! The game's view of the keyboard, advanced once per frame.
use vstd::prelude::*;
use crate::protocol::{Digital, Event, Key, KEY_COUNT, key_index, spec_is_down, lemma_key_index_bijective};

verus! {

/// What a key state becomes when a frame passes without news about the key:
/// a fresh press turns into a hold and a fresh release into idleness.
pub open spec fn step_state(d: Digital) -> Digital {
    match d {
        Digital::Raised => Digital::Up,
        Digital::Pressed => Digital::Down,
        other => other,
    }
}

/// The state that a batch of host events leaves a key in, starting from `prior`:
/// the last event that names the key decides, `Up` giving `Raised` and `Down`
/// giving `Pressed`.
pub open spec fn state_after_events(events: Seq<Event>, k: Key, prior: Digital) -> Digital
    decreases events.len(),
{
    if events.len() == 0 {
        prior
    } else {
        match events.last() {
            Event::Up(e) if e == k => Digital::Raised,
            Event::Down(e) if e == k => Digital::Pressed,
            _ => state_after_events(events.drop_last(), k, prior),
        }
    }
}

/// The state of every key of the keyboard; keys never reported are `Up`.
pub struct Input {
    keys: Vec<Digital>,
}

impl Input {
    /// Every key has its slot.
    pub closed spec fn wf(self) -> bool {
        self.keys.len() == KEY_COUNT
    }

    /// The state of key `k`.
    pub closed spec fn state(self, k: Key) -> Digital {
        self.keys@[key_index(k) as int]
    }

    /// An input in which every key is `Up`.
    pub fn new() -> (input: Input)
        ensures
            input.wf(),
            forall|k: Key| #[trigger] input.state(k) == Digital::Up,
    {
        let mut keys: Vec<Digital> = Vec::new();
        let mut i: usize = 0;
        while i < KEY_COUNT
            invariant
                i <= KEY_COUNT,
                keys.len() == i,
                forall|j: int| 0 <= j < i ==> keys@[j] == Digital::Up,
            decreases KEY_COUNT - i,
        {
            keys.push(Digital::Up);
            i = i + 1;
        }
        let input = Input { keys };
        assert forall|k: Key| #[trigger] input.state(k) == Digital::Up by {
            lemma_key_index_bijective(k);
        }
        input
    }

    /// Record the state of one key; the other keys keep theirs.
    pub fn set(&mut self, key: Key, state: Digital)
        requires
            old(self).wf(),
        ensures
            final(self).wf(),
            final(self).state(key) == state,
            forall|k: Key| k != key ==> #[trigger] final(self).state(k) == old(self).state(k),
    {
        proof {
            lemma_key_index_bijective(key);
        }
        let i = key.index();
        self.keys.set(i, state);
        assert forall|k: Key| k != key implies #[trigger] self.state(k) == old(self).state(k) by {
            lemma_key_index_bijective(k);
        }
    }

    /// Advance every key by one frame: `Raised` becomes `Up`, `Pressed` becomes `Down`.
    pub fn step_states(&mut self)
        requires
            old(self).wf(),
        ensures
            final(self).wf(),
            forall|k: Key| #[trigger] final(self).state(k) == step_state(old(self).state(k)),
    {
        let mut i: usize = 0;
        while i < KEY_COUNT
            invariant
                i <= KEY_COUNT,
                self.keys.len() == KEY_COUNT,
                forall|j: int| 0 <= j < i ==> self.keys@[j] == step_state(old(self).keys@[j]),
                forall|j: int| i <= j < KEY_COUNT ==> self.keys@[j] == old(self).keys@[j],
            decreases KEY_COUNT - i,
        {
            let next = match self.keys[i] {
                Digital::Raised => Digital::Up,
                Digital::Pressed => Digital::Down,
                other => other,
            };
            self.keys.set(i, next);
            i = i + 1;
        }
        assert forall|k: Key| #[trigger] self.state(k) == step_state(old(self).state(k)) by {
            lemma_key_index_bijective(k);
        }
    }

    /// Apply a batch of host key events in order: `Up` marks the key `Raised`,
    /// `Down` marks it `Pressed`.
    pub fn apply_events(&mut self, events: &[Event])
        requires
            old(self).wf(),
        ensures
            final(self).wf(),
            forall|k: Key|
                #[trigger] final(self).state(k) == state_after_events(events@, k, old(self).state(k)),
    {
        let mut i: usize = 0;
        while i < events.len()
            invariant
                i <= events.len(),
                self.wf(),
                forall|k: Key|
                    #[trigger] self.state(k) == state_after_events(
                        events@.take(i as int),
                        k,
                        old(self).state(k),
                    ),
            decreases events.len() - i,
        {
            match events[i] {
                Event::Up(k) => self.set(k, Digital::Raised),
                Event::Down(k) => self.set(k, Digital::Pressed),
            }
            assert(events@.take(i + 1).drop_last() =~= events@.take(i as int));
            i = i + 1;
        }
        assert(events@.take(events.len() as int) =~= events@);
    }

    /// One frame of input: every key advances with [`Input::step_states`], then the
    /// host events that arrived since the last frame are applied.
    pub fn advance_frame(&mut self, events: &[Event])
        requires
            old(self).wf(),
        ensures
            final(self).wf(),
            forall|k: Key|
                #[trigger] final(self).state(k) == state_after_events(
                    events@,
                    k,
                    step_state(old(self).state(k)),
                ),
    {
        self.step_states();
        self.apply_events(events);
    }
}

impl Default for Input {
    fn default() -> (input: Input)
        ensures
            input.wf(),
            forall|k: Key| #[trigger] input.state(k) == Digital::Up,
    {
        Input::new()
    }
}

/// The state of `key` in `input`.
pub fn key(input: &Input, k: Key) -> (d: Digital)
    requires
        input.wf(),
    ensures
        d == input.state(k),
{
    proof {
        lemma_key_index_bijective(k);
    }
    input.keys[k.index()]
}

/// Questions about a key's state; `state` is the one method to provide.
pub trait KeyExt: Sized {
    /// The state that `state` reports.
    spec fn spec_state(self) -> Digital;

    /// The current state.
    fn state(self) -> (d: Digital)
        ensures
            d == self.spec_state(),
    ;

    /// Whether the key is held (`Down` or `Pressed`).
    fn down(self) -> (b: bool)
        ensures
            b == spec_is_down(self.spec_state()),
    {
        self.state().is_down()
    }

    /// Whether the key is not held (`Up` or `Raised`).
    fn up(self) -> (b: bool)
        ensures
            b == !spec_is_down(self.spec_state()),
    {
        !self.down()
    }

    /// Whether the key changed during the last frame (`Pressed` or `Raised`).
    fn changed(self) -> (b: bool)
        ensures
            b == (self.spec_state() == Digital::Pressed || self.spec_state() == Digital::Raised),
    {
        match self.state() {
            Digital::Pressed | Digital::Raised => true,
            _ => false,
        }
    }

    /// Whether the key went down during the last frame.
    fn pressed(self) -> (b: bool)
        ensures
            b == (self.spec_state() == Digital::Pressed),
    {
        match self.state() {
            Digital::Pressed => true,
            _ => false,
        }
    }

    /// Whether the key went up during the last frame.
    fn raised(self) -> (b: bool)
        ensures
            b == (self.spec_state() == Digital::Raised),
    {
        match self.state() {
            Digital::Raised => true,
            _ => false,
        }
    }
}

impl KeyExt for Digital {
    open spec fn spec_state(self) -> Digital {
        self
    }

    fn state(self) -> (d: Digital) {
        self
    }
}

/// 1 when the key is held, 0 otherwise.
pub open spec fn held(d: Digital) -> int {
    if spec_is_down(d) { 1 } else { 0 }
}

/// The WASD keys as a direction: `[D - A, W - S]`, each key counting 1 when held.
pub fn wasd(input: &Input) -> (dir: [i8; 2])
    requires
        input.wf(),
    ensures
        dir[0] == held(input.state(Key::D)) - held(input.state(Key::A)),
        dir[1] == held(input.state(Key::W)) - held(input.state(Key::S)),
{
    let d: i8 = if key(input, Key::D).is_down() { 1 } else { 0 };
    let a: i8 = if key(input, Key::A).is_down() { 1 } else { 0 };
    let w: i8 = if key(input, Key::W).is_down() { 1 } else { 0 };
    let s: i8 = if key(input, Key::S).is_down() { 1 } else { 0 };
    [d - a, w - s]
}

/// A frame without news settles a key: pressed keys are held, released keys are
/// idle, a second frame changes nothing more, and whether the key is held does
/// not change.
pub proof fn law_step_settles(d: Digital)
    ensures
        step_state(step_state(d)) == step_state(d),
        step_state(d) == Digital::Up || step_state(d) == Digital::Down,
        spec_is_down(step_state(d)) == spec_is_down(d),
{
}

/// Events about other keys leave a key's state alone.
pub proof fn law_other_keys_ignored(events: Seq<Event>, k: Key, prior: Digital)
    requires
        forall|i: int| 0 <= i < events.len() ==> #[trigger] events[i] != Event::Up(k) && events[i] != Event::Down(k),
    ensures
        state_after_events(events, k, prior) == prior,
    decreases events.len(),
{
    if events.len() > 0 {
        assert(events.last() == events[events.len() - 1]);
        law_other_keys_ignored(events.drop_last(), k, prior);
    }
}

/// A key pushed during a frame is `Pressed` in that frame and `Down` in the next
/// frame that brings no news about it; a released key is `Raised`, then `Up`.
pub proof fn law_press_then_hold(events: Seq<Event>, k: Key, prior: Digital)
    requires
        events.len() > 0,
    ensures
        events.last() == Event::Down(k) ==> state_after_events(events, k, prior) == Digital::Pressed
            && step_state(state_after_events(events, k, prior)) == Digital::Down,
        events.last() == Event::Up(k) ==> state_after_events(events, k, prior) == Digital::Raised
            && step_state(state_after_events(events, k, prior)) == Digital::Up,
{
}

/// A key is held exactly when it is `Down` or just `Pressed`, and counts 1 in a
/// direction then, 0 otherwise.
pub proof fn law_held_states()
    ensures
        spec_is_down(Digital::Down),
        spec_is_down(Digital::Pressed),
        !spec_is_down(Digital::Up),
        !spec_is_down(Digital::Raised),
        held(Digital::Down) == 1 && held(Digital::Pressed) == 1,
        held(Digital::Up) == 0 && held(Digital::Raised) == 0,
{
}

/// An event about another key, coming after a batch, leaves the state the batch
/// gave a key unchanged; an event about the key itself decides it.
pub proof fn law_later_event_about_another_key(events: Seq<Event>, e: Event, k: Key, prior: Digital)
    ensures
        e != Event::Up(k) && e != Event::Down(k) ==> state_after_events(events.push(e), k, prior)
            == state_after_events(events, k, prior),
        e == Event::Up(k) ==> state_after_events(events.push(e), k, prior) == Digital::Raised,
        e == Event::Down(k) ==> state_after_events(events.push(e), k, prior) == Digital::Pressed,
{
    assert(events.push(e).drop_last() =~= events);
}

} // verus!
