//! The hosting side of a game: the events each peer sent since the last tick, and
//! the list of events a tick runs on.
use vstd::prelude::*;
use crate::event::{Event, PlayerEvent, PlayerId};

verus! {

/// The events of one connected peer that the next tick will run.
pub struct PeerQueue {
    pub id: PlayerId,
    pub events: Vec<Event>,
}

/// `events` as events of player `id`.
pub open spec fn tagged(id: PlayerId, events: Seq<Event>) -> Seq<PlayerEvent> {
    Seq::new(events.len(), |i: int| PlayerEvent { player: id, kind: events[i] })
}

/// The events of all peers, peer by peer in order, each peer's in the order they came.
pub open spec fn gathered(peers: Seq<PeerQueue>) -> Seq<PlayerEvent>
    decreases peers.len(),
{
    if peers.len() == 0 {
        Seq::empty()
    } else {
        gathered(peers.drop_last()) + tagged(peers.last().id, peers.last().events@)
    }
}

/// How many events the peers in `peers` have queued together.
pub open spec fn event_count(peers: Seq<PeerQueue>) -> nat
    decreases peers.len(),
{
    if peers.len() == 0 {
        0
    } else {
        event_count(peers.drop_last()) + peers.last().events@.len()
    }
}

proof fn lemma_count_step(peers: Seq<PeerQueue>, p: int)
    requires
        0 <= p < peers.len(),
    ensures
        event_count(peers.take(p + 1)) == event_count(peers.take(p)) + peers[p].events@.len(),
{
    assert(peers.take(p + 1).drop_last() =~= peers.take(p));
}

proof fn lemma_count_grows(peers: Seq<PeerQueue>, p: int, q: int)
    requires
        0 <= p <= q <= peers.len(),
    ensures
        event_count(peers.take(p)) <= event_count(peers.take(q)),
    decreases q - p,
{
    if p < q {
        lemma_count_step(peers, q - 1);
        lemma_count_grows(peers, p, q - 1);
    }
}

/// The events of all peers, peer by peer: peer `p`'s `j`-th event, as an event
/// of that peer, stands after all the events of the peers before it, at
/// `event_count(peers.take(p)) + j`.
pub proof fn law_gathered_in_order(peers: Seq<PeerQueue>)
    ensures
        gathered(peers).len() == event_count(peers),
        forall|p: int, j: int| 0 <= p < peers.len() && 0 <= j < peers[p].events@.len()
            ==> #[trigger] gathered(peers)[event_count(peers.take(p)) + j]
                == (PlayerEvent { player: peers[p].id, kind: peers[p].events@[j] }),
    decreases peers.len(),
{
    if peers.len() > 0 {
        let n = peers.len() as int;
        let d = peers.drop_last();
        law_gathered_in_order(d);
        assert(d.take(n - 1) =~= d);
        assert(peers.take(n - 1) =~= d);
        assert forall|p: int, j: int| 0 <= p < peers.len() && 0 <= j < peers[p].events@.len()
            implies #[trigger] gathered(peers)[event_count(peers.take(p)) + j]
                == (PlayerEvent { player: peers[p].id, kind: peers[p].events@[j] }) by {
            if p < n - 1 {
                assert(peers.take(p) =~= d.take(p));
                assert(d[p] == peers[p]);
                lemma_count_step(d, p);
                lemma_count_grows(d, p + 1, n - 1);
                assert(gathered(d)[event_count(d.take(p)) + j]
                    == (PlayerEvent { player: d[p].id, kind: d[p].events@[j] }));
            } else {
                assert(peers[p] == peers.last());
            }
        }
    }
}

impl PeerQueue {
    /// A newly connected peer: its first event is `Connected`.
    pub fn new(id: PlayerId) -> (p: PeerQueue)
        ensures
            p.id == id,
            p.events@ == seq![Event::Connected],
    {
        PeerQueue { id, events: vec![Event::Connected] }
    }

    /// Queue events that the peer sent.
    pub fn receive(&mut self, events: Vec<Event>)
        ensures
            final(self).id == old(self).id,
            final(self).events@ == old(self).events@ + events@,
    {
        let mut events = events;
        self.events.append(&mut events);
    }
}

/// The events of one tick: every peer's queued events, peer by peer, then the
/// host's own events as player `i_am`. Every queue is left empty.
pub fn collect_tick(peers: &mut Vec<PeerQueue>, local: Vec<Event>, i_am: PlayerId) -> (all: Vec<PlayerEvent>)
    ensures
        all@ == gathered(old(peers)@) + tagged(i_am, local@),
        final(peers)@.len() == old(peers)@.len(),
        forall|i: int| 0 <= i < final(peers)@.len() ==> (#[trigger] final(peers)@[i]).id == old(peers)@[i].id
            && final(peers)@[i].events@.len() == 0,
        all@.len() == event_count(old(peers)@) + local@.len(),
        forall|p: int, j: int| 0 <= p < old(peers)@.len() && 0 <= j < old(peers)@[p].events@.len()
            ==> #[trigger] all@[event_count(old(peers)@.take(p)) + j]
                == (PlayerEvent { player: old(peers)@[p].id, kind: old(peers)@[p].events@[j] }),
        forall|j: int| 0 <= j < local@.len() ==> #[trigger] all@[event_count(old(peers)@) + j]
            == (PlayerEvent { player: i_am, kind: local@[j] }),
{
    let mut all: Vec<PlayerEvent> = Vec::new();
    let mut i: usize = 0;
    while i < peers.len()
        invariant
            i <= peers.len(),
            peers.len() == old(peers).len(),
            all@ == gathered(old(peers)@.take(i as int)),
            forall|j: int| 0 <= j < i ==> (#[trigger] peers@[j]).id == old(peers)@[j].id && peers@[j].events@.len() == 0,
            forall|j: int| i <= j < peers.len() ==> #[trigger] peers@[j] == old(peers)@[j],
        decreases peers.len() - i,
    {
        let id = peers[i].id;
        let mut events: Vec<Event> = Vec::new();
        std::mem::swap(&mut events, &mut peers[i].events);
        let ghost before = all@;
        let mut k: usize = 0;
        while k < events.len()
            invariant
                k <= events.len(),
                all@ == before + tagged(id, events@.take(k as int)),
            decreases events.len() - k,
        {
            all.push(PlayerEvent { player: id, kind: events[k] });
            k = k + 1;
            assert(all@ =~= before + tagged(id, events@.take(k as int)));
        }
        assert(events@.take(events.len() as int) =~= events@);
        assert(old(peers)@.take(i + 1).drop_last() =~= old(peers)@.take(i as int));
        i = i + 1;
    }
    assert(old(peers)@.take(peers.len() as int) =~= old(peers)@);
    let ghost before = all@;
    let mut k: usize = 0;
    while k < local.len()
        invariant
            k <= local.len(),
            all@ == before + tagged(i_am, local@.take(k as int)),
        decreases local.len() - k,
    {
        all.push(PlayerEvent { player: i_am, kind: local[k] });
        k = k + 1;
        assert(all@ =~= before + tagged(i_am, local@.take(k as int)));
    }
    assert(local@.take(local.len() as int) =~= local@);
    proof {
        law_gathered_in_order(old(peers)@);
        let g = gathered(old(peers)@);
        assert forall|p: int, j: int| 0 <= p < old(peers)@.len() && 0 <= j < old(peers)@[p].events@.len()
            implies #[trigger] all@[event_count(old(peers)@.take(p)) + j]
                == (PlayerEvent { player: old(peers)@[p].id, kind: old(peers)@[p].events@[j] }) by {
            let ps = old(peers)@;
            lemma_count_step(ps, p);
            lemma_count_grows(ps, p + 1, ps.len() as int);
            assert(ps.take(ps.len() as int) =~= ps);
            assert(g[event_count(ps.take(p)) + j]
                == (PlayerEvent { player: ps[p].id, kind: ps[p].events@[j] }));
        }
    }
    all
}

/// A client is out of step with the host when its state hash differs from the
/// one the host sent with the tick.
pub fn is_desynced(my_hash: u64, host_hash: u64) -> (b: bool)
    ensures
        b == (my_hash != host_hash),
{
    my_hash != host_hash
}

/// A message from a client to the host.
pub enum MessageC2S {
    /// The client lost track of the game state; its state hash.
    Desync(u64),
    /// New input events of the client's player.
    Event(Vec<Event>),
}

/// What the host does with a message from a peer: input events join the peer's
/// queue for the next tick; a desync report asks for the full state to be sent
/// to the peer (the result is `true` then).
pub fn host_receive(peer: &mut PeerQueue, msg: MessageC2S) -> (send_state: bool)
    ensures
        final(peer).id == old(peer).id,
        match msg {
            MessageC2S::Event(events) => !send_state && final(peer).events@ == old(peer).events@ + events@,
            MessageC2S::Desync(_) => send_state && final(peer).events@ == old(peer).events@,
        },
{
    match msg {
        MessageC2S::Event(events) => {
            peer.receive(events);
            false
        },
        MessageC2S::Desync(_) => true,
    }
}

} // verus!
