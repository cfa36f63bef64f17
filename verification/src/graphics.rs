//! Renderer bookkeeping: adapter choice, frame slots and texture formats.
use vstd::prelude::*;

verus! {

/// Why the renderer could not start.
#[derive(Debug, Clone, Copy, PartialEq, Eq, Structural)]
pub enum GraphicsError {
    NoAdapter,
    NoWindowBuilder,
    WindowError,
}

/// Take the first of the available adapters; with none there is `NoAdapter`.
pub fn take_first_adapter<T>(adapters: &mut Vec<T>) -> (r: Result<T, GraphicsError>)
    ensures
        old(adapters)@.len() == 0 ==> r == Err::<T, GraphicsError>(GraphicsError::NoAdapter)
            && final(adapters)@ == old(adapters)@,
        old(adapters)@.len() > 0 ==> r == Ok::<T, GraphicsError>(old(adapters)@[0])
            && final(adapters)@ == old(adapters)@.drop_first(),
{
    if adapters.len() == 0 {
        return Err(GraphicsError::NoAdapter);
    }
    let a = adapters.remove(0);
    assert(adapters@ =~= old(adapters)@.drop_first());
    Ok(a)
}

/// Hands out the slots of a ring of frame resources in turn.
pub struct FrameCursor {
    last_ref: usize,
}

/// The slot handed out after `last_ref` slots were handed out before, out of `count`.
pub open spec fn spec_next_slot(last_ref: nat, count: nat) -> nat {
    if last_ref >= count { 0 } else { last_ref }
}

impl FrameCursor {
    /// A cursor that starts at slot 0.
    pub fn new() -> (c: FrameCursor)
        ensures
            c.spec_last_ref() == 0,
    {
        FrameCursor { last_ref: 0 }
    }

    /// The position after the last slot handed out.
    pub closed spec fn spec_last_ref(&self) -> nat {
        self.last_ref as nat
    }

    /// The next slot of a ring of `count` slots: the one after the last, wrapping
    /// to 0 at the end of the ring.
    pub fn next_index(&mut self, count: usize) -> (i: usize)
        ensures
            i == spec_next_slot(old(self).spec_last_ref(), count as nat),
            final(self).spec_last_ref() == i + 1,
            count > 0 ==> i < count,
    {
        if self.last_ref >= count {
            self.last_ref = 0;
        }
        let ret = self.last_ref;
        self.last_ref = self.last_ref + 1;
        ret
    }
}

/// Over a ring of `count` slots, the slot after slot `i` is `(i + 1) % count`.
pub proof fn law_slots_cycle(i: nat, count: nat)
    requires
        i < count,
    ensures
        spec_next_slot(i + 1, count) == (i + 1) % count,
{
    if i + 1 < count {
        vstd::arithmetic::div_mod::lemma_small_mod((i + 1) as nat, count);
    } else {
        vstd::arithmetic::div_mod::lemma_mod_self_0(count as int);
    }
}

/// Pixel format of a texture on the GPU.
#[derive(Debug, Clone, Copy, PartialEq, Eq, Structural)]
pub enum TextureFormat {
    R8Unorm,
    R32Float,
    Rgba8UnormSrgb,
    Rgba8Unorm,
    Rgba32Float,
}

/// How a texture's data is laid out.
#[derive(Debug, Clone, Copy, PartialEq, Eq, Structural)]
pub struct TextureSettings {
    /// 32-bit float channels rather than 8-bit ones.
    pub hdr: bool,
    /// Linear rather than sRGB color.
    pub linear: bool,
    /// 1 or 4.
    pub channels: u8,
}

/// Bytes per channel.
pub open spec fn channel_bytes(hdr: bool) -> nat {
    if hdr { 4 } else { 1 }
}

/// The GPU format for a layout; the layouts without one are `None`.
pub open spec fn spec_format(s: TextureSettings) -> Option<TextureFormat> {
    if s.channels == 1 && s.linear && !s.hdr {
        Some(TextureFormat::R8Unorm)
    } else if s.channels == 1 && s.linear && s.hdr {
        Some(TextureFormat::R32Float)
    } else if s.channels == 4 && !s.linear && !s.hdr {
        Some(TextureFormat::Rgba8UnormSrgb)
    } else if s.channels == 4 && s.linear && !s.hdr {
        Some(TextureFormat::Rgba8Unorm)
    } else if s.channels == 4 && s.linear && s.hdr {
        Some(TextureFormat::Rgba32Float)
    } else {
        None
    }
}

/// Why texture data cannot be uploaded.
#[derive(Debug, Clone, Copy, PartialEq, Eq, Structural)]
pub enum TextureError {
    /// The data is not `width * height * bytes per pixel` long.
    SizeMismatch,
    /// No GPU format has this layout.
    Unsupported,
}

impl TextureSettings {
    /// Four 8-bit sRGB channels.
    pub fn default_settings() -> (s: TextureSettings)
        ensures
            s == (TextureSettings { hdr: false, linear: false, channels: 4 }),
    {
        TextureSettings { hdr: false, linear: false, channels: 4 }
    }

    /// Bytes per pixel: channels times bytes per channel.
    pub fn bytes_per_pixel(&self) -> (b: u32)
        ensures
            b == self.channels * channel_bytes(self.hdr),
    {
        (self.channels as u32) * if self.hdr { 4 } else { 1 }
    }

    /// The GPU format for this layout, if there is one.
    pub fn format(&self) -> (f: Option<TextureFormat>)
        ensures
            f == spec_format(*self),
            (self.channels == 1 && self.linear && !self.hdr) ==> f == Some(TextureFormat::R8Unorm),
            (self.channels == 1 && self.linear && self.hdr) ==> f == Some(TextureFormat::R32Float),
            (self.channels == 4 && !self.linear && !self.hdr) ==> f == Some(TextureFormat::Rgba8UnormSrgb),
            (self.channels == 4 && self.linear && !self.hdr) ==> f == Some(TextureFormat::Rgba8Unorm),
            (self.channels == 4 && self.linear && self.hdr) ==> f == Some(TextureFormat::Rgba32Float),
            f is Some <==> ((self.channels == 1 && self.linear) || (self.channels == 4 && (self.linear || !self.hdr))),
    {
        match (self.channels, self.linear, self.hdr) {
            (1, true, false) => Some(TextureFormat::R8Unorm),
            (1, true, true) => Some(TextureFormat::R32Float),
            (4, false, false) => Some(TextureFormat::Rgba8UnormSrgb),
            (4, true, false) => Some(TextureFormat::Rgba8Unorm),
            (4, true, true) => Some(TextureFormat::Rgba32Float),
            _ => None,
        }
    }

    /// Check `data_len` bytes of texture data of `width` by `height` pixels: the
    /// length must be exact, then the layout must have a GPU format.
    pub fn check(&self, width: u32, height: u32, data_len: usize) -> (r: Result<TextureFormat, TextureError>)
        ensures
            width * height * channel_bytes(self.hdr) * self.channels != data_len ==> r == Err::<
                TextureFormat,
                TextureError,
            >(TextureError::SizeMismatch),
            width * height * channel_bytes(self.hdr) * self.channels == data_len ==> r == match spec_format(
                *self,
            ) {
                Some(f) => Ok::<TextureFormat, TextureError>(f),
                None => Err(TextureError::Unsupported),
            },
    {
        let w = width as u128;
        let h = height as u128;
        let cb: u128 = if self.hdr { 4 } else { 1 };
        let ch = self.channels as u128;
        assert(w * h <= 0xffff_ffffu128 * 0xffff_ffffu128) by (nonlinear_arith)
            requires
                w <= 0xffff_ffffu128,
                h <= 0xffff_ffffu128,
        ;
        assert(w * h * cb * ch <= 0xffff_ffffu128 * 0xffff_ffffu128 * 4 * 255) by (nonlinear_arith)
            requires
                w * h <= 0xffff_ffffu128 * 0xffff_ffffu128,
                cb <= 4,
                ch <= 255,
        ;
        let expected = w * h * cb * ch;
        if expected != data_len as u128 {
            return Err(TextureError::SizeMismatch);
        }
        match self.format() {
            Some(f) => Ok(f),
            None => Err(TextureError::Unsupported),
        }
    }
}

/// `floor(log2(n))`, and 0 for 0.
pub open spec fn floor_log2(n: nat) -> nat
    decreases n,
{
    if n <= 1 {
        0
    } else {
        1 + floor_log2(n / 2)
    }
}

/// `2^k`.
pub open spec fn two_to(k: nat) -> nat
    decreases k,
{
    if k == 0 {
        1
    } else {
        2 * two_to((k - 1) as nat)
    }
}

proof fn lemma_floor_log2_below(n: nat, k: nat)
    requires
        1 <= n < two_to(k),
    ensures
        floor_log2(n) < k,
    decreases n,
{
    if n > 1 {
        assert(k >= 1);
        lemma_floor_log2_below(n / 2, (k - 1) as nat);
    } else {
        if k == 0 {
            assert(two_to(0) == 1);
        }
    }
}

/// The larger of two sizes.
pub open spec fn larger(a: u32, b: u32) -> u32 {
    if a >= b { a } else { b }
}

/// What uploading a texture makes of its size, data and layout: the extent (one
/// layer deep), the GPU format, the bytes per pixel and the number of mip levels,
/// `floor(log2(max(width, height))) + 1`.
#[derive(Debug, Clone, Copy, PartialEq, Eq, Structural)]
pub struct TextureLayout {
    pub width: u32,
    pub height: u32,
    pub depth: u32,
    pub format: TextureFormat,
    pub bpp: u32,
    pub mip_level_count: u32,
}

impl TextureLayout {
    /// The layout of a `size.0` by `size.1` texture with `data_len` bytes of data
    /// laid out as `s`. The data must fill the texture exactly and the layout must
    /// have a GPU format ([`TextureSettings::check`] tells).
    pub fn new(size: (u32, u32), data_len: usize, s: TextureSettings) -> (l: TextureLayout)
        requires
            size.0 * size.1 * channel_bytes(s.hdr) * s.channels == data_len,
            spec_format(s) is Some,
        ensures
            l == (TextureLayout {
                width: size.0,
                height: size.1,
                depth: 1,
                format: spec_format(s).unwrap(),
                bpp: (s.channels * channel_bytes(s.hdr)) as u32,
                mip_level_count: (floor_log2(larger(size.0, size.1) as nat) + 1) as u32,
            }),
    {
        let format = match s.format() {
            Some(f) => f,
            None => {
                proof {
                    assert(false);
                }
                TextureFormat::R8Unorm
            },
        };
        let largest = if size.0 >= size.1 { size.0 } else { size.1 };
        let mut n = largest;
        let mut levels: u32 = 0;
        proof {
            if largest >= 1 {
                assert(two_to(32) == 4294967296) by {
                    reveal_with_fuel(two_to, 33);
                }
                lemma_floor_log2_below(largest as nat, 32);
            }
        }
        while n > 1
            invariant
                levels + floor_log2(n as nat) == floor_log2(largest as nat),
                floor_log2(largest as nat) < 32,
            decreases n,
        {
            n = n / 2;
            levels = levels + 1;
        }
        TextureLayout {
            width: size.0,
            height: size.1,
            depth: 1,
            format,
            bpp: s.bytes_per_pixel(),
            mip_level_count: levels + 1,
        }
    }
}

/// Whether a format keeps sRGB-encoded color.
pub open spec fn is_srgb(f: TextureFormat) -> bool {
    f == TextureFormat::Rgba8UnormSrgb
}

/// Whether a format holds 32-bit float channels.
pub open spec fn is_float(f: TextureFormat) -> bool {
    f == TextureFormat::R32Float || f == TextureFormat::Rgba32Float
}

/// Whether a format has one channel.
pub open spec fn is_single(f: TextureFormat) -> bool {
    f == TextureFormat::R8Unorm || f == TextureFormat::R32Float
}

/// The format matches the layout it is chosen for: one channel exactly when the
/// layout has one, float channels exactly when it is HDR, and sRGB exactly when it
/// is not linear. A layout gets a format exactly when it is one or four channels,
/// and a one-channel or HDR one is linear.
pub proof fn law_format_matches_layout(s: TextureSettings)
    ensures
        spec_format(s) is Some <==> ((s.channels == 1 && s.linear) || (s.channels == 4 && (s.linear || !s.hdr))),
        spec_format(s) matches Some(f) ==> {
            &&& is_single(f) <==> s.channels == 1
            &&& is_float(f) <==> s.hdr
            &&& is_srgb(f) <==> !s.linear
        },
{
}

/// An HDR channel is a 32-bit float (four bytes), any other channel one byte.
pub proof fn law_channel_bytes()
    ensures
        channel_bytes(true) == 4,
        channel_bytes(false) == 1,
{
}

/// `floor_log2(n)` is the exponent of the largest power of two that is at most
/// `n`, for every `n` from 1.
pub proof fn law_floor_log2(n: nat)
    requires
        n >= 1,
    ensures
        two_to(floor_log2(n)) <= n < two_to(floor_log2(n) + 1),
    decreases n,
{
    if n > 1 {
        law_floor_log2(n / 2);
        assert(two_to(floor_log2(n)) == 2 * two_to(floor_log2(n / 2)));
        assert(two_to(floor_log2(n) + 1) == 2 * two_to(floor_log2(n)));
    } else {
        assert(two_to(1) == 2 * two_to(0));
    }
}

} // verus!
