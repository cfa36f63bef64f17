//! Low-latency event delivery over an unreliable datagram socket.
//!
//! The client keeps every event it has not seen acknowledged and sends the whole
//! buffer, stamped with the number of events it has ever queued, in each packet.
//! The server appends the part of a packet it has not seen yet and acknowledges
//! the stamp; the client then forgets the acknowledged events.
use vstd::prelude::*;
use std::collections::VecDeque;
use crate::event::Event;

verus! {

/// A message from a client to the server.
#[derive(Debug, Clone, Copy, PartialEq, Eq, Structural)]
pub enum C2S {
    /// A new input event of the client's player.
    Event { event: Event },
    /// The client lost track of the game state.
    Desync,
}

/// The datagram that carries a client's unacknowledged events.
pub enum C2SLaminar {
    Event { seq: u64, events: VecDeque<Event> },
}

/// The datagram that acknowledges every event up to `seq`.
#[derive(Debug, Clone, Copy, PartialEq, Eq, Structural)]
pub enum S2CLaminar {
    EventAck { seq: u64 },
}

/// The sequencing state of one connection: what the client still has to get
/// acknowledged, and what the server has received but not yet handed out.
pub struct Laminar {
    send_events: VecDeque<Event>,
    recv_events: VecDeque<Event>,
    send_seq: u64,
    recv_seq: u64,
}

/// The abstract state of a [`Laminar`].
#[verifier::ext_equal]
pub struct LaminarView {
    /// Events queued by this side and not yet acknowledged, oldest first.
    pub send_events: Seq<Event>,
    /// Events received from the peer and not yet handed out, oldest first.
    pub recv_events: Seq<Event>,
    /// Number of events this side has ever queued.
    pub send_seq: nat,
    /// Number of the peer's events this side has received.
    pub recv_seq: nat,
}

impl View for Laminar {
    type V = LaminarView;

    closed spec fn view(&self) -> LaminarView {
        LaminarView {
            send_events: self.send_events@,
            recv_events: self.recv_events@,
            send_seq: self.send_seq as nat,
            recv_seq: self.recv_seq as nat,
        }
    }
}

/// Queue one more event for sending.
pub open spec fn spec_queue(v: LaminarView, e: Event) -> LaminarView {
    LaminarView { send_events: v.send_events.push(e), send_seq: v.send_seq + 1, ..v }
}

/// A packet stamped `seq` carrying `events` leaves no gap: it reaches back at least
/// to the first event this side has not received.
pub open spec fn reaches_back(v: LaminarView, seq: nat, events: Seq<Event>) -> bool {
    seq > v.recv_seq ==> events.len() >= seq - v.recv_seq
}

/// Take in a packet: if it is newer than anything seen, append the events this
/// side has not received yet and advance to its stamp; otherwise ignore it.
pub open spec fn spec_receive(v: LaminarView, seq: nat, events: Seq<Event>) -> LaminarView {
    if seq > v.recv_seq {
        LaminarView {
            recv_events: v.recv_events + events.skip(events.len() - (seq - v.recv_seq)),
            recv_seq: seq,
            ..v
        }
    } else {
        v
    }
}

/// Forget the sent events that an acknowledgement of `seq` covers.
pub open spec fn spec_ack(v: LaminarView, seq: nat) -> LaminarView {
    let keep = v.send_seq - seq;
    if v.send_events.len() > keep {
        LaminarView { send_events: v.send_events.skip(v.send_events.len() - keep), ..v }
    } else {
        v
    }
}

/// Hand out the oldest received event, if any.
pub open spec fn spec_pop(v: LaminarView) -> LaminarView {
    if v.recv_events.len() > 0 {
        LaminarView { recv_events: v.recv_events.drop_first(), ..v }
    } else {
        v
    }
}

impl Laminar {
    /// A fresh connection: nothing sent, nothing received.
    pub fn new() -> (l: Laminar)
        ensures
            l@.send_events == Seq::<Event>::empty(),
            l@.recv_events == Seq::<Event>::empty(),
            l@.send_seq == 0,
            l@.recv_seq == 0,
    {
        Laminar { send_events: VecDeque::new(), recv_events: VecDeque::new(), send_seq: 0, recv_seq: 0 }
    }

    /// Number of events this side has ever queued.
    pub fn send_seq(&self) -> (n: u64)
        ensures
            n == self@.send_seq,
    {
        self.send_seq
    }

    /// Number of the peer's events this side has received.
    pub fn recv_seq(&self) -> (n: u64)
        ensures
            n == self@.recv_seq,
    {
        self.recv_seq
    }

    /// Client side: queue an event and build the datagram that carries every
    /// unacknowledged event. Other messages are not sent this way (`None`).
    pub fn send_to_server(&mut self, msg: &C2S) -> (payload: Option<C2SLaminar>)
        requires
            msg matches C2S::Event { .. } ==> old(self)@.send_seq < u64::MAX,
        ensures
            match *msg {
                C2S::Event { event } => {
                    &&& final(self)@ == spec_queue(old(self)@, event)
                    &&& payload matches Some(C2SLaminar::Event { seq, events })
                    &&& seq == final(self)@.send_seq
                    &&& events@ == final(self)@.send_events
                },
                C2S::Desync => final(self)@ == old(self)@ && payload is None,
            },
    {
        match msg {
            C2S::Event { event } => {
                self.send_events.push_back(*event);
                self.send_seq = self.send_seq + 1;
                let mut events: VecDeque<Event> = VecDeque::new();
                let mut i: usize = 0;
                while i < self.send_events.len()
                    invariant
                        i <= self.send_events@.len(),
                        events@ == self.send_events@.take(i as int),
                    decreases self.send_events.len() - i,
                {
                    events.push_back(self.send_events[i]);
                    i = i + 1;
                    assert(events@ =~= self.send_events@.take(i as int));
                }
                assert(events@ =~= self.send_events@);
                Some(C2SLaminar::Event { seq: self.send_seq, events })
            },
            C2S::Desync => None,
        }
    }

    /// Server side: take in a datagram (if one arrived) and hand out the oldest
    /// received event. Returns the acknowledgement to send back, if any, and the
    /// event as a client message.
    pub fn recv_from_client(&mut self, packet: Option<C2SLaminar>) -> (r: (Option<S2CLaminar>, Option<C2S>))
        requires
            packet matches Some(C2SLaminar::Event { seq, events }) ==> reaches_back(old(self)@, seq as nat, events@),
        ensures
            ({
                let mid = match packet {
                    Some(C2SLaminar::Event { seq, events }) => spec_receive(old(self)@, seq as nat, events@),
                    None => old(self)@,
                };
                &&& r.0 == match packet {
                    Some(C2SLaminar::Event { seq, .. }) => if seq > old(self)@.recv_seq {
                        Some(S2CLaminar::EventAck { seq })
                    } else {
                        None
                    },
                    None => None,
                }
                &&& final(self)@ == spec_pop(mid)
                &&& r.1 == if mid.recv_events.len() > 0 {
                    Some(C2S::Event { event: mid.recv_events[0] })
                } else {
                    None
                }
            }),
    {
        let mut ack: Option<S2CLaminar> = None;
        match packet {
            Some(C2SLaminar::Event { seq, mut events }) => {
                if seq > self.recv_seq {
                    let ghost orig = events@;
                    let discard: u64 = events.len() as u64 - (seq - self.recv_seq);
                    let mut i: u64 = 0;
                    while i < discard
                        invariant
                            i <= discard,
                            discard <= orig.len(),
                            events@ == orig.skip(i as int),
                        decreases discard - i,
                    {
                        events.pop_front();
                        i = i + 1;
                        assert(events@ =~= orig.skip(i as int));
                    }
                    self.recv_events.append(&mut events);
                    ack = Some(S2CLaminar::EventAck { seq });
                    self.recv_seq = seq;
                }
            },
            None => {},
        }
        let msg = match self.recv_events.pop_front() {
            Some(event) => Some(C2S::Event { event }),
            None => None,
        };
        (ack, msg)
    }

    /// Client side: take in an acknowledgement (if one arrived) and forget the
    /// events it covers.
    pub fn recv_from_server(&mut self, packet: Option<S2CLaminar>)
        requires
            packet matches Some(S2CLaminar::EventAck { seq }) ==> seq <= old(self)@.send_seq,
        ensures
            final(self)@ == match packet {
                Some(S2CLaminar::EventAck { seq }) => spec_ack(old(self)@, seq as nat),
                None => old(self)@,
            },
    {
        match packet {
            Some(S2CLaminar::EventAck { seq }) => {
                let num_not_acked: u64 = self.send_seq - seq;
                let ghost start = self.send_events@;
                while self.send_events.len() as u64 > num_not_acked
                    invariant
                        num_not_acked == old(self)@.send_seq - seq,
                        self.send_events@.len() <= start.len(),
                        start.len() > num_not_acked ==> self.send_events@.len() >= num_not_acked,
                        start.len() <= num_not_acked ==> self.send_events@.len() == start.len(),
                        self.send_events@ == start.skip(start.len() - self.send_events@.len()),
                        self.send_seq == old(self).send_seq,
                        self.recv_seq == old(self).recv_seq,
                        self.recv_events@ == old(self).recv_events@,
                        start == old(self).send_events@,
                    decreases self.send_events.len(),
                {
                    self.send_events.pop_front();
                    assert(self.send_events@ =~= start.skip(start.len() - self.send_events@.len()));
                }
                assert(start.skip(0) =~= start);
                assert(self@ =~= spec_ack(old(self)@, seq as nat));
            },
            None => {},
        }
    }
}

/// The client's buffer is the tail of `history`, the events it has ever queued.
pub open spec fn sender_matches(v: LaminarView, history: Seq<Event>) -> bool {
    &&& v.send_seq == history.len()
    &&& v.send_events.len() <= history.len()
    &&& v.send_events == history.skip(history.len() - v.send_events.len())
}

/// Position in the client's history of the oldest event it still keeps.
pub open spec fn window_start(v: LaminarView) -> int {
    v.send_seq - v.send_events.len()
}

/// The server has handed out `delivered` and holds the rest of the first
/// `recv_seq` events of `history`.
pub open spec fn receiver_matches(v: LaminarView, delivered: Seq<Event>, history: Seq<Event>) -> bool {
    &&& v.recv_seq <= history.len()
    &&& delivered + v.recv_events == history.take(v.recv_seq as int)
}

/// Both ends of one connection, with the client's history and what the server
/// has handed out so far.
pub struct Link {
    pub client: LaminarView,
    pub server: LaminarView,
    pub history: Seq<Event>,
    pub delivered: Seq<Event>,
}

/// The connection is consistent: the client's buffer is the tail of its history,
/// the server holds a prefix of it, and the client keeps everything from the
/// server's position on.
pub open spec fn link_ok(l: Link) -> bool {
    &&& sender_matches(l.client, l.history)
    &&& receiver_matches(l.server, l.delivered, l.history)
    &&& window_start(l.client) <= l.server.recv_seq
}

/// A datagram that the client sent on this connection: a stretch of its history
/// ending at `seq` and starting no later than the server's position.
pub open spec fn packet_ok(l: Link, seq: nat, events: Seq<Event>) -> bool {
    &&& seq <= l.history.len()
    &&& events.len() <= seq
    &&& events == l.history.subrange(seq - events.len(), seq as int)
    &&& seq - events.len() <= l.server.recv_seq
}

/// An acknowledgement that the server sent on this connection.
pub open spec fn ack_ok(l: Link, seq: nat) -> bool {
    seq <= l.server.recv_seq
}

/// The client queues `e`.
pub open spec fn link_send(l: Link, e: Event) -> Link {
    Link { client: spec_queue(l.client, e), history: l.history.push(e), ..l }
}

/// The server takes in a datagram and hands out its oldest event, if any.
pub open spec fn link_receive(l: Link, seq: nat, events: Seq<Event>) -> Link {
    let mid = spec_receive(l.server, seq, events);
    Link {
        server: spec_pop(mid),
        delivered: if mid.recv_events.len() > 0 { l.delivered.push(mid.recv_events[0]) } else { l.delivered },
        ..l
    }
}

/// The client takes in an acknowledgement.
pub open spec fn link_ack(l: Link, seq: nat) -> Link {
    Link { client: spec_ack(l.client, seq), ..l }
}

/// Two fresh ends form a consistent connection with nothing sent.
pub proof fn law_link_starts_ok(client: LaminarView, server: LaminarView)
    requires
        client.send_events.len() == 0,
        client.send_seq == 0,
        server.recv_events.len() == 0,
        server.recv_seq == 0,
    ensures
        link_ok(Link { client, server, history: Seq::empty(), delivered: Seq::empty() }),
{
    let h = Seq::<Event>::empty();
    assert(h.skip(0) =~= client.send_events);
    assert(Seq::<Event>::empty() + server.recv_events =~= h.take(0));
}

/// Queueing an event keeps the connection consistent; the datagram built for it
/// is one the server may take, and so stays every datagram sent before.
pub proof fn law_send_keeps_link(l: Link, e: Event, seq: nat, events: Seq<Event>)
    requires
        link_ok(l),
    ensures
        link_ok(link_send(l, e)),
        packet_ok(link_send(l, e), link_send(l, e).client.send_seq, link_send(l, e).client.send_events),
        packet_ok(l, seq, events) ==> packet_ok(link_send(l, e), seq, events),
        ack_ok(l, seq) ==> ack_ok(link_send(l, e), seq),
{
    let l2 = link_send(l, e);
    let h = l.history;
    let h2 = h.push(e);
    assert(l2.client.send_events =~= h2.skip(h2.len() - l2.client.send_events.len()));
    assert(h2.take(l.server.recv_seq as int) =~= h.take(l.server.recv_seq as int));
    assert(l2.client.send_events =~= h2.subrange(
        l2.client.send_seq - l2.client.send_events.len(),
        l2.client.send_seq as int,
    ));
    if packet_ok(l, seq, events) {
        assert(events =~= h2.subrange(seq - events.len(), seq as int));
    }
}

/// Taking in any datagram that the client sent never leaves a gap (the receive
/// precondition holds), keeps the connection consistent, and hands out the next
/// event of the client's history; datagrams and acknowledgements sent before stay
/// valid.
pub proof fn law_receive_keeps_link(l: Link, seq: nat, events: Seq<Event>, seq2: nat, events2: Seq<Event>)
    requires
        link_ok(l),
        packet_ok(l, seq, events),
    ensures
        reaches_back(l.server, seq, events),
        link_ok(link_receive(l, seq, events)),
        link_receive(l, seq, events).delivered.len() > l.delivered.len() ==>
            link_receive(l, seq, events).delivered == l.delivered.push(l.history[l.delivered.len() as int]),
        packet_ok(l, seq2, events2) ==> packet_ok(link_receive(l, seq, events), seq2, events2),
        ack_ok(l, seq2) ==> ack_ok(link_receive(l, seq, events), seq2),
        ack_ok(link_receive(l, seq, events), link_receive(l, seq, events).server.recv_seq),
{
    let h = l.history;
    let r = l.server;
    let mid = spec_receive(r, seq, events);
    if seq > r.recv_seq {
        let fresh = events.skip(events.len() - (seq - r.recv_seq));
        assert(fresh =~= h.subrange(r.recv_seq as int, seq as int));
        assert(mid.recv_events == r.recv_events + fresh);
        assert(l.delivered + (r.recv_events + fresh) =~= (l.delivered + r.recv_events) + fresh);
        assert(h.take(r.recv_seq as int) + h.subrange(r.recv_seq as int, seq as int) =~= h.take(seq as int));
        assert(l.delivered + mid.recv_events =~= h.take(seq as int));
    }
    assert(l.delivered + mid.recv_events == h.take(mid.recv_seq as int));
    if mid.recv_events.len() > 0 {
        let d2 = l.delivered.push(mid.recv_events[0]);
        assert(d2 + mid.recv_events.drop_first() =~= l.delivered + mid.recv_events);
        assert(h.take(mid.recv_seq as int)[l.delivered.len() as int] == h[l.delivered.len() as int]);
        assert((l.delivered + mid.recv_events)[l.delivered.len() as int] == mid.recv_events[0]);
    }
}

/// Taking in any acknowledgement that the server sent keeps the connection
/// consistent; datagrams and acknowledgements sent before stay valid.
pub proof fn law_ack_keeps_link(l: Link, seq: nat, seq2: nat, events2: Seq<Event>)
    requires
        link_ok(l),
        ack_ok(l, seq),
    ensures
        seq <= l.client.send_seq,
        link_ok(link_ack(l, seq)),
        packet_ok(l, seq2, events2) ==> packet_ok(link_ack(l, seq), seq2, events2),
        ack_ok(l, seq2) ==> ack_ok(link_ack(l, seq), seq2),
{
    let v = l.client;
    let h = l.history;
    let keep = v.send_seq - seq;
    if v.send_events.len() > keep {
        assert(v.send_events.skip(v.send_events.len() - keep) =~= h.skip(h.len() - keep));
    }
}

/// Whatever the server has handed out is the start of the client's history, in
/// order and without repetition.
pub proof fn law_delivered_is_prefix(l: Link)
    requires
        link_ok(l),
    ensures
        l.delivered.len() <= l.history.len(),
        l.delivered =~= l.history.take(l.delivered.len() as int),
{
    let k = l.server.recv_seq as int;
    assert(l.history.take(k).len() == k);
    assert((l.delivered + l.server.recv_events).len() == k);
    assert(l.delivered =~= (l.delivered + l.server.recv_events).take(l.delivered.len() as int));
    assert(l.history.take(k).take(l.delivered.len() as int) =~= l.history.take(l.delivered.len() as int));
}

} // verus!
