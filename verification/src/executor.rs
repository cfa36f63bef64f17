//! The halt signal of the single-future executor. `run` clears the counter and
//! polls the game's future while the counter stays 0; each poll of a `Halt`
//! future bumps the counter and is ready only on the first poll after a clear.
use vstd::prelude::*;

verus! {

/// What one poll of a `Halt` future does to the counter, and whether it is ready.
pub open spec fn spec_halt_poll(count: u8) -> (u8, bool) {
    (if count == 255 { 0u8 } else { (count + 1) as u8 }, count == 0)
}

/// Poll a `Halt` future against the counter: bump the counter (wrapping) and be
/// ready if it was 0.
pub fn halt_poll(count: &mut u8) -> (ready: bool)
    ensures
        (*final(count), ready) == spec_halt_poll(*old(count)),
{
    let ready = *count == 0;
    *count = if *count == 255 { 0 } else { *count + 1 };
    ready
}

/// The executor keeps polling its future while the counter is 0.
pub fn keeps_running(count: u8) -> (b: bool)
    ensures
        b == (count == 0),
{
    count == 0
}

/// After the counter is cleared, the first `Halt` poll is ready and stops the
/// executor; a second poll without a clear is pending.
pub proof fn law_halt_once()
    ensures
        spec_halt_poll(0).1,
        spec_halt_poll(0).0 != 0,
        !spec_halt_poll(spec_halt_poll(0).0).1,
{
}

/// Each poll adds one to the counter, wrapping at 256, and is ready exactly when
/// the counter was 0.
pub proof fn law_halt_counts(count: u8)
    ensures
        spec_halt_poll(count).0 == (count as int + 1) % 256,
        spec_halt_poll(count).1 <==> count == 0,
{
}

} // verus!
