//! Sound requests and log messages sent from the game to the host.
use vstd::prelude::*;
use crate::protocol::{Call, PlayCall};

verus! {

/// A sound to be played; the request goes to the host once it is built.
pub struct Play {
    asset: String,
    looping: bool,
}

/// A one-shot sound request for `asset`.
pub fn play(asset: &str) -> (p: Play)
    ensures
        p.asset() == asset@,
        !p.looping(),
{
    Play { asset: asset.to_owned(), looping: false }
}

impl Play {
    /// The asset that will be played.
    pub closed spec fn asset(&self) -> Seq<char> {
        self.asset@
    }

    /// Whether the sound repeats.
    pub closed spec fn looping(&self) -> bool {
        self.looping
    }

    /// Make the sound repeat; the asset stays the same.
    pub fn loops(&mut self) -> (r: &mut Self)
        ensures
            r.asset() == old(self).asset(),
            r.looping(),
            *final(self) == *final(r),
    {
        self.looping = true;
        self
    }

    /// The request that the host receives for this sound.
    pub fn to_call(&self) -> (c: Call)
        ensures
            c matches Call::Play(pc) && pc.asset@ == self.asset() && pc.looping == self.looping(),
    {
        Call::Play(PlayCall { asset: self.asset.clone(), looping: self.looping })
    }
}

/// The request that asks the host to print `s`.
pub fn print(s: &str) -> (c: Call)
    ensures
        c matches Call::Print(t) && t@ == s@,
{
    Call::Print(s.to_owned())
}

} // verus!
