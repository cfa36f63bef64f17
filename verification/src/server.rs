//! The decisions the game server makes on each poll: which connections it keeps,
//! when the next tick is due, and what a client's message adds to the pending
//! events. Times and latencies are in nanoseconds; each pending event carries how
//! long ago it happened.
use vstd::prelude::*;
use crate::event::{Event, PlayerEvent, PlayerId};
use crate::laminar::C2S;

verus! {

/// A connected player: the connection it talks over, and its id.
pub struct NetPlayer<C> {
    pub conn: C,
    pub id: PlayerId,
}

/// A connection stays while it is open and its latency is under the rollback window.
pub open spec fn is_live(health: (bool, u64), rollback: u64) -> bool {
    health.0 && health.1 < rollback
}

/// The event that announces that `id` left, as old as the connection's latency.
pub open spec fn leave_event(id: PlayerId, latency: u64) -> (u64, PlayerEvent) {
    (latency, PlayerEvent { player: id, kind: Event::Disconnected })
}

/// The players that stay, in their order.
pub open spec fn spec_kept<C>(ps: Seq<NetPlayer<C>>, hs: Seq<(bool, u64)>, rollback: u64) -> Seq<NetPlayer<C>>
    decreases ps.len(),
{
    if ps.len() == 0 {
        Seq::empty()
    } else {
        let rest = spec_kept(ps.drop_last(), hs.drop_last(), rollback);
        if is_live(hs.last(), rollback) {
            rest.push(ps.last())
        } else {
            rest
        }
    }
}

/// The leave events of the players that are dropped, in their order.
pub open spec fn spec_left<C>(ps: Seq<NetPlayer<C>>, hs: Seq<(bool, u64)>, rollback: u64) -> Seq<(u64, PlayerEvent)>
    decreases ps.len(),
{
    if ps.len() == 0 {
        Seq::empty()
    } else {
        let rest = spec_left(ps.drop_last(), hs.drop_last(), rollback);
        if is_live(hs.last(), rollback) {
            rest
        } else {
            rest.push(leave_event(ps.last().id, hs.last().1))
        }
    }
}

/// Keep the players whose connection is live (`health[i]` is whether player `i`'s
/// connection is open, and its latency); each other player is dropped and its
/// leave event is appended to `events`.
pub fn sweep<C>(players: Vec<NetPlayer<C>>, health: &[(bool, u64)], rollback: u64, events: &mut Vec<(u64, PlayerEvent)>) -> (kept: Vec<NetPlayer<C>>)
    requires
        players.len() == health.len(),
    ensures
        kept@ == spec_kept(players@, health@, rollback),
        final(events)@ == old(events)@ + spec_left(players@, health@, rollback),
{
    let ghost ps = players@;
    let ghost hs = health@;
    let mut rest = players;
    let mut kept: Vec<NetPlayer<C>> = Vec::new();
    let mut i: usize = 0;
    assert(ps.take(0) =~= Seq::<NetPlayer<C>>::empty());
    assert(hs.take(0) =~= Seq::<(bool, u64)>::empty());
    assert(rest@ =~= ps.skip(0));
    assert(old(events)@ + Seq::<(u64, PlayerEvent)>::empty() =~= old(events)@);
    while i < health.len()
        invariant
            ps.len() == hs.len(),
            hs == health@,
            i <= ps.len(),
            rest@ == ps.skip(i as int),
            kept@ == spec_kept(ps.take(i as int), hs.take(i as int), rollback),
            events@ == old(events)@ + spec_left(ps.take(i as int), hs.take(i as int), rollback),
        decreases ps.len() - i,
    {
        let p = rest.remove(0);
        let h = health[i];
        proof {
            assert(ps.take(i + 1).drop_last() =~= ps.take(i as int));
            assert(hs.take(i + 1).drop_last() =~= hs.take(i as int));
            assert(ps.take(i + 1).last() == ps[i as int]);
            assert(hs.take(i + 1).last() == hs[i as int]);
            assert(ps.skip(i as int)[0] == ps[i as int]);
            assert(ps.skip(i as int).remove(0) =~= ps.skip(i + 1));
        }
        if h.0 && h.1 < rollback {
            kept.push(p);
        } else {
            let ghost before = events@;
            events.push((h.1, PlayerEvent { player: p.id, kind: Event::Disconnected }));
            proof {
                let l = spec_left(ps.take(i as int), hs.take(i as int), rollback);
                assert(before + l.push(leave_event(ps[i as int].id, hs[i as int].1))
                    =~= (before + l).push(leave_event(ps[i as int].id, hs[i as int].1)));
            }
        }
        i = i + 1;
    }
    assert(ps.take(ps.len() as int) =~= ps);
    assert(hs.take(hs.len() as int) =~= hs);
    kept
}

/// Every player is accounted for by a sweep: it stays, or its leave event is
/// announced.
pub proof fn law_sweep_accounts_for_everyone<C>(ps: Seq<NetPlayer<C>>, hs: Seq<(bool, u64)>, rollback: u64)
    requires
        ps.len() == hs.len(),
    ensures
        spec_kept(ps, hs, rollback).len() + spec_left(ps, hs, rollback).len() == ps.len(),
    decreases ps.len(),
{
    if ps.len() > 0 {
        law_sweep_accounts_for_everyone(ps.drop_last(), hs.drop_last(), rollback);
    }
}

/// Whether a tick is due at `now` (nanoseconds) for a tick planned at `next_tick`;
/// if so, the next one is planned a tick later, and the server is behind when
/// that one is already due too. Returns `(due, next_tick, behind)`.
pub fn schedule(now: u64, next_tick: u64, tick_rate: u64) -> (s: (bool, u64, bool))
    requires
        next_tick <= now ==> next_tick + tick_rate <= u64::MAX,
    ensures
        next_tick <= now ==> s == (true, (next_tick + tick_rate) as u64, next_tick + tick_rate <= now),
        now < next_tick ==> s == (false, next_tick, false),
{
    if next_tick <= now {
        let next = next_tick + tick_rate;
        (true, next, next <= now)
    } else {
        (false, next_tick, false)
    }
}

/// What a message from player `id` (whose latency is `latency`) does: an input
/// event joins the pending events; a desync report asks for the full state to be
/// sent to it (the result is `true` then).
pub fn on_message(id: PlayerId, latency: u64, msg: Option<C2S>, events: &mut Vec<(u64, PlayerEvent)>) -> (resync: bool)
    ensures
        match msg {
            Some(C2S::Event { event }) => {
                &&& !resync
                &&& final(events)@ == old(events)@.push((latency, PlayerEvent { player: id, kind: event }))
            },
            Some(C2S::Desync) => resync && final(events)@ == old(events)@,
            None => !resync && final(events)@ == old(events)@,
        },
{
    match msg {
        Some(C2S::Event { event }) => {
            events.push((latency, PlayerEvent { player: id, kind: event }));
            false
        },
        Some(C2S::Desync) => true,
        None => false,
    }
}

/// A new connection of player `id` adds its join event, as old as its latency.
pub fn on_accept(id: PlayerId, latency: u64, events: &mut Vec<(u64, PlayerEvent)>)
    ensures
        final(events)@ == old(events)@.push((latency, PlayerEvent { player: id, kind: Event::Connected })),
{
    events.push((latency, PlayerEvent { player: id, kind: Event::Connected }));
}

/// The number of ticks that cover the rollback window: `rollback / tick_rate`,
/// rounded up.
pub fn rollback_ticks(rollback: u64, tick_rate: u64) -> (n: u64)
    requires
        tick_rate > 0,
    ensures
        n == if rollback % tick_rate == 0 { (rollback / tick_rate) as int } else { rollback / tick_rate + 1 },
{
    let q = rollback / tick_rate;
    if rollback % tick_rate == 0 {
        q
    } else {
        assert(q < u64::MAX) by (nonlinear_arith)
            requires
                q == rollback / tick_rate,
                rollback % tick_rate != 0,
                tick_rate > 0,
        {
            if tick_rate == 1 {
                assert(rollback % tick_rate == 0);
            }
            assert(q * tick_rate <= rollback);
        }
        q + 1
    }
}

/// The one-way latency of a connection: half its round trip.
pub fn latency(round_trip: u64) -> (l: u64)
    ensures
        l == round_trip / 2,
{
    round_trip / 2
}

/// A sweep keeps exactly the players whose connection is open with a latency
/// under the rollback window, and announces exactly the others, each leave event
/// as old as that player's latency.
pub proof fn law_sweep_keeps_the_live<C>(ps: Seq<NetPlayer<C>>, hs: Seq<(bool, u64)>, rollback: u64)
    requires
        ps.len() == hs.len(),
    ensures
        forall|j: int| #![trigger spec_kept(ps, hs, rollback)[j]] 0 <= j < spec_kept(ps, hs, rollback).len() ==> exists|i: int|
            0 <= i < ps.len() && spec_kept(ps, hs, rollback)[j] == #[trigger] ps[i] && hs[i].0 && hs[i].1 < rollback,
        forall|i: int| 0 <= i < ps.len() && hs[i].0 && hs[i].1 < rollback
            ==> #[trigger] spec_kept(ps, hs, rollback).contains(ps[i]),
        forall|j: int| #![trigger spec_left(ps, hs, rollback)[j]] 0 <= j < spec_left(ps, hs, rollback).len() ==> exists|i: int|
            0 <= i < ps.len() && !(hs[i].0 && hs[i].1 < rollback)
            && spec_left(ps, hs, rollback)[j]
                == (#[trigger] hs[i].1, PlayerEvent { player: ps[i].id, kind: Event::Disconnected }),
        forall|i: int| 0 <= i < ps.len() && !(hs[i].0 && hs[i].1 < rollback)
            ==> #[trigger] spec_left(ps, hs, rollback).contains(
                (hs[i].1, PlayerEvent { player: ps[i].id, kind: Event::Disconnected }),
            ),
    decreases ps.len(),
{
    if ps.len() > 0 {
        let n = ps.len() - 1;
        let dp = ps.drop_last();
        let dh = hs.drop_last();
        law_sweep_keeps_the_live(dp, dh, rollback);
        let k0 = spec_kept(dp, dh, rollback);
        let l0 = spec_left(dp, dh, rollback);
        let ev = (hs[n].1, PlayerEvent { player: ps[n].id, kind: Event::Disconnected });
        assert(ps.last() == ps[n] && hs.last() == hs[n]);
        assert forall|j: int| #![trigger spec_kept(ps, hs, rollback)[j]] 0 <= j < spec_kept(ps, hs, rollback).len() implies exists|i: int|
            0 <= i < ps.len() && spec_kept(ps, hs, rollback)[j] == #[trigger] ps[i] && hs[i].0 && hs[i].1 < rollback by {
            if j < k0.len() {
                assert(spec_kept(ps, hs, rollback)[j] == k0[j]);
                let i = choose|i: int| 0 <= i < dp.len() && k0[j] == #[trigger] dp[i] && dh[i].0 && dh[i].1 < rollback;
                assert(dp[i] == ps[i] && dh[i] == hs[i]);
                assert(0 <= i < ps.len() && spec_kept(ps, hs, rollback)[j] == ps[i] && hs[i].0 && hs[i].1 < rollback);
            } else {
                assert(spec_kept(ps, hs, rollback)[j] == ps[n]);
                assert(0 <= n < ps.len() && spec_kept(ps, hs, rollback)[j] == ps[n] && hs[n].0 && hs[n].1 < rollback);
            }
        }
        assert forall|i: int| 0 <= i < ps.len() && hs[i].0 && hs[i].1 < rollback
            implies #[trigger] spec_kept(ps, hs, rollback).contains(ps[i]) by {
            if i < n {
                assert(dp[i] == ps[i] && dh[i] == hs[i]);
                assert(k0.contains(dp[i]));
                let j = choose|j: int| 0 <= j < k0.len() && k0[j] == dp[i];
                assert(spec_kept(ps, hs, rollback)[j] == k0[j]);
            } else {
                assert(spec_kept(ps, hs, rollback)[k0.len() as int] == ps[n]);
            }
        }
        assert forall|j: int| #![trigger spec_left(ps, hs, rollback)[j]] 0 <= j < spec_left(ps, hs, rollback).len() implies exists|i: int|
            0 <= i < ps.len() && !(hs[i].0 && hs[i].1 < rollback)
            && spec_left(ps, hs, rollback)[j] == (#[trigger] hs[i].1, PlayerEvent { player: ps[i].id, kind: Event::Disconnected }) by {
            if j < l0.len() {
                assert(spec_left(ps, hs, rollback)[j] == l0[j]);
                let i = choose|i: int| 0 <= i < dp.len() && !(dh[i].0 && dh[i].1 < rollback)
                    && l0[j] == (#[trigger] dh[i].1, PlayerEvent { player: dp[i].id, kind: Event::Disconnected });
                assert(dp[i] == ps[i] && dh[i] == hs[i]);
                assert(0 <= i < ps.len() && !(hs[i].0 && hs[i].1 < rollback)
                    && spec_left(ps, hs, rollback)[j] == (hs[i].1, PlayerEvent { player: ps[i].id, kind: Event::Disconnected }));
            } else {
                assert(spec_left(ps, hs, rollback)[j] == ev);
                assert(0 <= n < ps.len() && !(hs[n].0 && hs[n].1 < rollback)
                    && spec_left(ps, hs, rollback)[j] == (hs[n].1, PlayerEvent { player: ps[n].id, kind: Event::Disconnected }));
            }
        }
        assert forall|i: int| 0 <= i < ps.len() && !(hs[i].0 && hs[i].1 < rollback)
            implies #[trigger] spec_left(ps, hs, rollback).contains((hs[i].1, PlayerEvent { player: ps[i].id, kind: Event::Disconnected })) by {
            if i < n {
                assert(dp[i] == ps[i] && dh[i] == hs[i]);
                let e = (dh[i].1, PlayerEvent { player: dp[i].id, kind: Event::Disconnected });
                assert(l0.contains(e));
                let j = choose|j: int| 0 <= j < l0.len() && l0[j] == e;
                assert(spec_left(ps, hs, rollback)[j] == l0[j]);
            } else {
                assert(spec_left(ps, hs, rollback)[l0.len() as int] == ev);
            }
        }
    }
}

} // verus!
