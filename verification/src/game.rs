//! The shared game state of the networked engine: the game, its players, and the
//! clock, advanced one tick at a time.
use vstd::prelude::*;
use crate::event::{either_held, Digital, Event, InputCache, Key, PlayerEvent, PlayerId, SteerKeys};

verus! {

/// A connected player: its id, the game's data for it, and its key states.
pub struct VgPlayer<S> {
    id: PlayerId,
    state: S,
    input: InputCache,
}

impl<S> VgPlayer<S> {
    /// The player's id.
    pub closed spec fn spec_id(&self) -> PlayerId {
        self.id
    }

    /// The game's data for this player.
    pub closed spec fn spec_state(&self) -> S {
        self.state
    }

    /// The player's key cache.
    pub closed spec fn spec_input(&self) -> InputCache {
        self.input
    }

    /// The player's id.
    pub fn id(&self) -> (id: PlayerId)
        ensures
            id == self.spec_id(),
    {
        self.id
    }

    /// The state of `key` for this player.
    pub fn key(&self, key: Key) -> (d: Digital)
        requires
            self.spec_input().wf(),
        ensures
            d == self.spec_input().state(key),
    {
        self.input.key(key)
    }

    /// The steering keys of this player as a direction `[x, y]`.
    pub fn wasd_arrows(&self, keys: &SteerKeys) -> (dir: [i8; 2])
        requires
            self.spec_input().wf(),
        ensures
            dir[0] == either_held(self.spec_input(), keys.right) - either_held(self.spec_input(), keys.left),
            dir[1] == either_held(self.spec_input(), keys.up) - either_held(self.spec_input(), keys.down),
    {
        self.input.wasd_arrows(keys)
    }

    /// The game's data for this player.
    pub fn state(&self) -> (s: &S)
        ensures
            *s == self.spec_state(),
    {
        &self.state
    }

    /// The game's data for this player, to change it.
    pub fn state_mut(&mut self) -> (s: &mut S)
        ensures
            *s == old(self).spec_state(),
            final(self).spec_state() == *final(s),
            final(self).spec_id() == old(self).spec_id(),
            final(self).spec_input() == old(self).spec_input(),
    {
        &mut self.state
    }
}

/// `i` is the position of the first player with id `id`.
pub open spec fn is_first<S>(players: Seq<VgPlayer<S>>, id: PlayerId, i: int) -> bool {
    &&& 0 <= i < players.len()
    &&& players[i].spec_id() == id
    &&& forall|j: int| 0 <= j < i ==> #[trigger] players[j].spec_id() != id
}

/// No player has id `id`.
pub open spec fn absent<S>(players: Seq<VgPlayer<S>>, id: PlayerId) -> bool {
    forall|j: int| 0 <= j < players.len() ==> #[trigger] players[j].spec_id() != id
}

/// The game, its players and its clock (in nanoseconds).
pub struct Vg<G, S> {
    run_time: u64,
    delta_time: u64,
    state: G,
    players: Vec<VgPlayer<S>>,
}

impl<G, S> Vg<G, S> {
    /// Every player's key cache is well formed.
    pub open spec fn wf(&self) -> bool {
        forall|i: int| 0 <= i < self.spec_players().len() ==> (#[trigger] self.spec_players()[i]).spec_input().wf()
    }

    /// The players, in the order they joined (a leaving player's place is taken by
    /// the last one).
    pub closed spec fn spec_players(&self) -> Seq<VgPlayer<S>> {
        self.players@
    }

    /// The game data.
    pub closed spec fn spec_game(&self) -> G {
        self.state
    }

    /// Time since the start of the game, in nanoseconds.
    pub closed spec fn spec_run_time(&self) -> nat {
        self.run_time as nat
    }

    /// Length of the last tick, in nanoseconds.
    pub closed spec fn spec_delta_time(&self) -> nat {
        self.delta_time as nat
    }

    /// A game with no players, at time zero.
    pub fn new(state: G) -> (vg: Vg<G, S>)
        ensures
            vg.wf(),
            vg.spec_game() == state,
            vg.spec_players().len() == 0,
            vg.spec_run_time() == 0,
            vg.spec_delta_time() == 0,
    {
        Vg { run_time: 0, delta_time: 0, state, players: Vec::new() }
    }

    /// Length of the last tick, in nanoseconds.
    pub fn delta_time(&self) -> (t: u64)
        ensures
            t == self.spec_delta_time(),
    {
        self.delta_time
    }

    /// Time since the start of the game, in nanoseconds.
    pub fn run_time(&self) -> (t: u64)
        ensures
            t == self.spec_run_time(),
    {
        self.run_time
    }

    /// The players.
    pub fn players(&self) -> (p: &[VgPlayer<S>])
        ensures
            p@ == self.spec_players(),
    {
        self.players.as_slice()
    }

    /// The game data.
    pub fn game(&self) -> (g: &G)
        ensures
            *g == self.spec_game(),
    {
        &self.state
    }

    /// The game data, to change it.
    #[verifier::spinoff_prover]
    pub fn game_mut(&mut self) -> (g: &mut G)
        ensures
            *g == old(self).spec_game(),
            final(self).spec_game() == *final(g),
            final(self).spec_players() == old(self).spec_players(),
            final(self).spec_run_time() == old(self).spec_run_time(),
            final(self).spec_delta_time() == old(self).spec_delta_time(),
            final(self).wf() == old(self).wf(),
    {
        &mut self.state
    }

    /// Let one tick of `delta` nanoseconds pass.
    pub fn advance_time(&mut self, delta: u64)
        requires
            old(self).spec_run_time() + delta <= u64::MAX,
        ensures
            final(self).spec_run_time() == old(self).spec_run_time() + delta,
            final(self).spec_delta_time() == delta,
            final(self).spec_game() == old(self).spec_game(),
            final(self).spec_players() == old(self).spec_players(),
            final(self).wf() == old(self).wf(),
    {
        self.run_time = self.run_time + delta;
        self.delta_time = delta;
    }

    /// Advance every player's key cache by one tick.
    pub fn tick_inputs(&mut self)
        requires
            old(self).wf(),
        ensures
            final(self).wf(),
            final(self).spec_game() == old(self).spec_game(),
            final(self).spec_run_time() == old(self).spec_run_time(),
            final(self).spec_delta_time() == old(self).spec_delta_time(),
            final(self).spec_players().len() == old(self).spec_players().len(),
            forall|i: int| 0 <= i < final(self).spec_players().len() ==> {
                let p = #[trigger] final(self).spec_players()[i];
                let q = old(self).spec_players()[i];
                &&& p.spec_id() == q.spec_id()
                &&& p.spec_state() == q.spec_state()
                &&& forall|k: Key| #[trigger] p.spec_input().state(k) == crate::event::tick_state(q.spec_input().state(k))
            },
    {
        let mut i: usize = 0;
        while i < self.players.len()
            invariant
                i <= self.players.len(),
                self.players.len() == old(self).players.len(),
                self.state == old(self).state,
                self.run_time == old(self).run_time,
                self.delta_time == old(self).delta_time,
                forall|j: int| 0 <= j < self.players.len() ==> (#[trigger] self.players@[j]).input.wf(),
                forall|j: int| i <= j < self.players.len() ==> #[trigger] self.players@[j] == old(self).players@[j],
                forall|j: int| 0 <= j < i ==> {
                    let p = #[trigger] self.players@[j];
                    let q = old(self).players@[j];
                    &&& p.id == q.id
                    &&& p.state == q.state
                    &&& forall|k: Key| #[trigger] p.input.state(k) == crate::event::tick_state(q.input.state(k))
                },
            decreases self.players.len() - i,
        {
            self.players[i].input.tick();
            i = i + 1;
        }
    }

    /// The bookkeeping that ends a tick once its events are applied: every
    /// player's keys advance by one tick, then `delta` nanoseconds pass.
    pub fn end_tick(&mut self, delta: u64)
        requires
            old(self).wf(),
            old(self).spec_run_time() + delta <= u64::MAX,
        ensures
            final(self).wf(),
            final(self).spec_game() == old(self).spec_game(),
            final(self).spec_run_time() == old(self).spec_run_time() + delta,
            final(self).spec_delta_time() == delta,
            final(self).spec_players().len() == old(self).spec_players().len(),
            forall|i: int| 0 <= i < final(self).spec_players().len() ==> {
                let p = #[trigger] final(self).spec_players()[i];
                let q = old(self).spec_players()[i];
                &&& p.spec_id() == q.spec_id()
                &&& p.spec_state() == q.spec_state()
                &&& forall|k: Key| #[trigger] p.spec_input().state(k) == crate::event::tick_state(q.spec_input().state(k))
            },
    {
        self.tick_inputs();
        self.advance_time(delta);
    }

    fn position(&self, id: PlayerId) -> (r: Option<usize>)
        ensures
            match r {
                Some(i) => is_first(self.players@, id, i as int),
                None => absent(self.players@, id),
            },
    {
        let mut i: usize = 0;
        while i < self.players.len()
            invariant
                i <= self.players.len(),
                forall|j: int| 0 <= j < i ==> #[trigger] self.players@[j].spec_id() != id,
            decreases self.players.len() - i,
        {
            if self.players[i].id == id {
                return Some(i);
            }
            i = i + 1;
        }
        None
    }

    /// Apply one player event. A key event updates the key cache of the first
    /// player with the event's id. `Connected` adds a player with the data
    /// `joined`; `Disconnected` removes the first player with the event's id (the
    /// last player takes its place) and returns its data.
    pub fn process_event(&mut self, event: PlayerEvent, joined: Option<S>) -> (left: Option<S>)
        requires
            old(self).wf(),
            event.kind == Event::Connected ==> joined is Some,
        ensures
            final(self).wf(),
            final(self).spec_game() == old(self).spec_game(),
            final(self).spec_run_time() == old(self).spec_run_time(),
            final(self).spec_delta_time() == old(self).spec_delta_time(),
            ({
                let ps = old(self).spec_players();
                let qs = final(self).spec_players();
                let id = event.player;
                match event.kind {
                    Event::Key(ke) => {
                        &&& left is None
                        &&& qs.len() == ps.len()
                        &&& absent(ps, id) ==> qs == ps
                        &&& forall|i: int| is_first(ps, id, i) ==> {
                            &&& forall|j: int| 0 <= j < ps.len() && j != i ==> #[trigger] qs[j] == ps[j]
                            &&& qs[i].spec_id() == ps[i].spec_id()
                            &&& qs[i].spec_state() == ps[i].spec_state()
                            &&& forall|k: Key| #[trigger] qs[i].spec_input().state(k)
                                == if k == ke.key { ke.state } else { ps[i].spec_input().state(k) }
                        }
                    },
                    Event::Connected => {
                        &&& left is None
                        &&& qs.len() == ps.len() + 1
                        &&& qs.drop_last() == ps
                        &&& qs.last().spec_id() == id
                        &&& Some(qs.last().spec_state()) == joined
                        &&& forall|k: Key| #[trigger] qs.last().spec_input().state(k) == Digital::Up
                    },
                    Event::Disconnected => {
                        &&& absent(ps, id) ==> left is None && qs == ps
                        &&& forall|i: int| is_first(ps, id, i) ==> {
                            &&& left == Some(ps[i].spec_state())
                            &&& qs == ps.update(i, ps.last()).drop_last()
                        }
                    },
                    _ => left is None && qs == ps,
                }
            }),
    {
        let found = self.position(event.player);
        match found {
            Some(i) => {
                let ghost before = self.players@;
                self.players[i].input.event(&event.kind);
                proof {
                    match event.kind {
                        Event::Key(_) => {},
                        _ => {
                            assert(self.players@ =~= before);
                        },
                    }
                }
            },
            None => {},
        }
        match event.kind {
            Event::Connected => {
                match joined {
                    Some(state) => {
                        let ghost before = self.players@;
                        self.players.push(VgPlayer { id: event.player, state, input: InputCache::new() });
                        assert(self.players@.drop_last() =~= before);
                    },
                    None => {},
                }
                None
            },
            Event::Disconnected => {
                match found {
                    Some(i) => {
                        let player = self.players.swap_remove(i);
                        Some(player.state)
                    },
                    None => None,
                }
            },
            _ => None,
        }
    }
}

/// A player that joins and leaves again, with no other player of the same id
/// around, leaves the roster as it was; its data comes back.
pub proof fn law_join_then_leave<S>(ps: Seq<VgPlayer<S>>, qs: Seq<VgPlayer<S>>, id: PlayerId)
    requires
        absent(ps, id),
        qs.len() == ps.len() + 1,
        qs.drop_last() == ps,
        qs.last().spec_id() == id,
    ensures
        is_first(qs, id, qs.len() - 1),
        qs.update(qs.len() - 1, qs.last()).drop_last() == ps,
{
    assert forall|j: int| 0 <= j < qs.len() - 1 implies #[trigger] qs[j].spec_id() != id by {
        assert(qs[j] == qs.drop_last()[j]);
    }
    assert(qs.update(qs.len() - 1, qs.last()) =~= qs);
}

} // verus!
