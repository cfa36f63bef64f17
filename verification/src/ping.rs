//! The round-trip clock of a connection: a ping goes out when the connection
//! opens and again each time the answer to the last one arrives; the time it
//! took is the round trip. Times are in nanoseconds.
use vstd::prelude::*;

verus! {

/// When the last ping went out, and the last round trip measured.
pub struct PingClock {
    sent: u64,
    round_trip: u64,
}

impl PingClock {
    /// When the ping in flight was sent.
    pub closed spec fn spec_sent(&self) -> u64 {
        self.sent
    }

    /// The last round trip measured (0 before the first answer).
    pub closed spec fn spec_round_trip(&self) -> u64 {
        self.round_trip
    }

    /// A connection opened at `now`, which sends its first ping.
    pub fn new(now: u64) -> (c: PingClock)
        ensures
            c.spec_sent() == now,
            c.spec_round_trip() == 0,
    {
        PingClock { sent: now, round_trip: 0 }
    }

    /// The answer to the ping arrived at `now`: the round trip is the time since
    /// it was sent (0 if the clock reads earlier), and the next ping goes out now.
    pub fn pong(&mut self, now: u64)
        ensures
            final(self).spec_round_trip() == if now >= old(self).spec_sent() {
                (now - old(self).spec_sent()) as u64
            } else {
                0u64
            },
            final(self).spec_sent() == now,
    {
        self.round_trip = if now >= self.sent { now - self.sent } else { 0 };
        self.sent = now;
    }

    /// The last round trip.
    pub fn round_trip(&self) -> (t: u64)
        ensures
            t == self.spec_round_trip(),
    {
        self.round_trip
    }

    /// The one-way latency: half the round trip.
    pub fn latency(&self) -> (t: u64)
        ensures
            t == self.spec_round_trip() / 2,
    {
        self.round_trip / 2
    }
}

} // verus!
