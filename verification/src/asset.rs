//! Raw asset bytes and PNG images made of them.
use vstd::prelude::*;

verus! {

/// Sample layout of a PNG image, as the `png` crate reports it.
#[derive(Debug, Clone, Copy, PartialEq, Eq, Structural)]
pub enum ColorType {
    Grayscale,
    RGB,
    Indexed,
    GrayscaleAlpha,
    RGBA,
}

/// Bits per sample of a PNG image, as the `png` crate reports it.
#[derive(Debug, Clone, Copy, PartialEq, Eq, Structural)]
pub enum BitDepth {
    One,
    Two,
    Four,
    Eight,
    Sixteen,
}

/// The header fields of a decoded PNG image, with the color type and bit depth
/// by the numbers the PNG format gives them.
#[derive(Debug, Clone, Copy, PartialEq, Eq, Structural)]
pub struct PngHeader {
    pub width: u32,
    pub height: u32,
    pub color_code: u8,
    pub depth_code: u8,
}

/// The color type that the PNG format numbers `code`.
pub open spec fn spec_color_type(code: u8) -> Option<ColorType> {
    if code == 0 {
        Some(ColorType::Grayscale)
    } else if code == 2 {
        Some(ColorType::RGB)
    } else if code == 3 {
        Some(ColorType::Indexed)
    } else if code == 4 {
        Some(ColorType::GrayscaleAlpha)
    } else if code == 6 {
        Some(ColorType::RGBA)
    } else {
        None
    }
}

/// The bit depth that the PNG format numbers `code`.
pub open spec fn spec_bit_depth(code: u8) -> Option<BitDepth> {
    if code == 1 {
        Some(BitDepth::One)
    } else if code == 2 {
        Some(BitDepth::Two)
    } else if code == 4 {
        Some(BitDepth::Four)
    } else if code == 8 {
        Some(BitDepth::Eight)
    } else if code == 16 {
        Some(BitDepth::Sixteen)
    } else {
        None
    }
}

impl ColorType {
    /// The color type that the PNG format numbers `code`.
    pub fn from_code(code: u8) -> (c: Option<ColorType>)
        ensures
            c == spec_color_type(code),
    {
        match code {
            0 => Some(ColorType::Grayscale),
            2 => Some(ColorType::RGB),
            3 => Some(ColorType::Indexed),
            4 => Some(ColorType::GrayscaleAlpha),
            6 => Some(ColorType::RGBA),
            _ => None,
        }
    }
}

impl BitDepth {
    /// The bit depth that the PNG format numbers `code`.
    pub fn from_code(code: u8) -> (d: Option<BitDepth>)
        ensures
            d == spec_bit_depth(code),
    {
        match code {
            1 => Some(BitDepth::One),
            2 => Some(BitDepth::Two),
            4 => Some(BitDepth::Four),
            8 => Some(BitDepth::Eight),
            16 => Some(BitDepth::Sixteen),
            _ => None,
        }
    }
}

/// Bytes per pixel of an eight-bit image with color type `c`.
pub open spec fn samples(c: ColorType) -> nat {
    match c {
        ColorType::Grayscale | ColorType::Indexed => 1,
        ColorType::GrayscaleAlpha => 2,
        ColorType::RGB => 3,
        ColorType::RGBA => 4,
    }
}

pub(crate) proof fn lemma_div_exact(n: int, k: int)
    requires
        n >= 0,
        k > 0,
    ensures
        (n * k) / k == n,
{
    vstd::arithmetic::div_mod::lemma_div_multiples_vanish(n, k);
    assert(n * k == k * n) by (nonlinear_arith);
}

/// What the `png` crate makes of `data`: the header that `Decoder::read_info`
/// reads (`None` when it fails) and the pixels that `Reader::next_frame` then
/// writes into a buffer of `OutputInfo::buffer_size` bytes (`None` when it fails).
pub uninterp spec fn png_decode(data: Seq<u8>) -> Option<(PngHeader, Option<Seq<u8>>)>;

/// Decodes `data` with `png::Decoder::new(data).read_info()` and, when that
/// succeeds, `Reader::next_frame` into a buffer of `buffer_size()` bytes. The
/// result is named ([`png_decode`]), not described.
#[verifier::external_body]
pub(crate) fn decode_png(data: &[u8]) -> (r: Option<(PngHeader, Option<Vec<u8>>)>)
    ensures
        decoded_view(r) == png_decode(data@),
        r matches Some((h, Some(px))) ==> (h.depth_code == 8 && spec_color_type(h.color_code) is Some
            ==> px.len() == h.width * h.height * samples(spec_color_type(h.color_code).unwrap())),
{
    let (info, mut reader) = png::Decoder::new(data).read_info().ok()?;
    let (color_code, depth_code) = (info.color_type as u8, info.bit_depth as u8);
    let mut buf = vec![0; info.buffer_size()];
    let frame = reader.next_frame(&mut buf).ok().map(|_| buf);
    Some((PngHeader { width: info.width, height: info.height, color_code, depth_code }, frame))
}

/// An image size in pixels.
#[derive(Debug, Clone, Copy, PartialEq, Eq, Structural)]
pub struct Size {
    pub w: u32,
    pub h: u32,
}

impl Size {
    pub fn new(w: u32, h: u32) -> (s: Size)
        ensures
            s == (Size { w, h }),
    {
        Size { w, h }
    }
}

/// One pixel, eight bits per channel.
#[derive(Debug, Clone, Copy, PartialEq, Eq, Structural)]
pub struct Rgba8 {
    pub r: u8,
    pub g: u8,
    pub b: u8,
    pub a: u8,
}

/// The bytes of an asset.
pub struct Asset {
    bytes: Vec<u8>,
}

impl Asset {
    /// An asset holding `bytes`.
    pub fn new(bytes: Vec<u8>) -> (a: Asset)
        ensures
            a.spec_bytes() == bytes@,
    {
        Asset { bytes }
    }

    /// The asset's bytes.
    pub closed spec fn spec_bytes(&self) -> Seq<u8> {
        self.bytes@
    }

    /// A copy of the asset's bytes.
    pub fn bytes(&self) -> (b: Vec<u8>)
        ensures
            b@ == self.spec_bytes(),
    {
        self.bytes.clone()
    }
}

/// Why a PNG asset could not be turned into pixels.
#[derive(Debug, Clone, Copy, PartialEq, Eq, Structural)]
pub enum PngError {
    /// The header could not be read.
    Invalid,
    /// The samples are not eight bits wide.
    NotEightBit,
    /// The pixel data could not be decoded.
    BadFrame,
    /// The layout is neither RGB nor RGBA.
    UnsupportedColor(ColorType),
    /// The pixel data does not end on a whole pixel.
    PartialPixel,
    /// The color type has a number the PNG format does not define.
    UnknownColor(u8),
}

/// The pixels of an RGB (`channels == 3`) or RGBA (`channels == 4`) buffer; RGB
/// pixels get full alpha.
pub open spec fn spec_pixels(buf: Seq<u8>, channels: nat) -> Seq<Rgba8> {
    Seq::new(
        buf.len() / channels,
        |i: int|
            Rgba8 {
                r: buf[channels * i],
                g: buf[channels * i + 1],
                b: buf[channels * i + 2],
                a: if channels == 4 { buf[channels * i + 3] } else { 255u8 },
            },
    )
}

/// A decoding result with the pixel buffer taken by its view.
pub open spec fn decoded_view(d: Option<(PngHeader, Option<Vec<u8>>)>) -> Option<(PngHeader, Option<Seq<u8>>)> {
    match d {
        Some((h, Some(buf))) => Some((h, Some(buf@))),
        Some((h, None)) => Some((h, None)),
        None => None,
    }
}

/// The pixels and size of a decoded PNG (its header, and its pixel bytes when the
/// frame could be read); an error names the first check that fails.
pub open spec fn spec_png_pixels(decoded: Option<(PngHeader, Option<Seq<u8>>)>) -> Result<(Seq<Rgba8>, Size), PngError> {
    match decoded {
        None => Err(PngError::Invalid),
        Some((info, frame)) => if spec_bit_depth(info.depth_code) != Some(BitDepth::Eight) {
            Err(PngError::NotEightBit)
        } else {
            match frame {
                None => Err(PngError::BadFrame),
                Some(buf) => match spec_color_type(info.color_code) {
                    Some(ColorType::RGB) => if buf.len() % 3 == 0 {
                        Ok((spec_pixels(buf, 3), Size { w: info.width, h: info.height }))
                    } else {
                        Err(PngError::PartialPixel)
                    },
                    Some(ColorType::RGBA) => if buf.len() % 4 == 0 {
                        Ok((spec_pixels(buf, 4), Size { w: info.width, h: info.height }))
                    } else {
                        Err(PngError::PartialPixel)
                    },
                    Some(other) => Err(PngError::UnsupportedColor(other)),
                    None => Err(PngError::UnknownColor(info.color_code)),
                },
            }
        },
    }
}

/// The result of decoding the PNG asset `data`.
pub open spec fn spec_png_load(data: Seq<u8>) -> Result<(Seq<Rgba8>, Size), PngError> {
    spec_png_pixels(png_decode(data))
}

/// Split an RGB (`channels == 3`) or RGBA (`channels == 4`) buffer into pixels.
pub fn to_pixels(buf: &[u8], channels: usize) -> (px: Vec<Rgba8>)
    requires
        channels == 3 || channels == 4,
        buf.len() % channels == 0,
    ensures
        px@ == spec_pixels(buf@, channels as nat),
{
    let n = buf.len() / channels;
    let mut px: Vec<Rgba8> = Vec::new();
    let mut i: usize = 0;
    while i < n
        invariant
            n == buf.len() / channels,
            channels == 3 || channels == 4,
            buf.len() % channels == 0,
            i <= n,
            px.len() == i,
            forall|j: int| 0 <= j < i ==> #[trigger] px@[j] == spec_pixels(buf@, channels as nat)[j],
        decreases n - i,
    {
        assert(channels * i + channels <= buf.len()) by (nonlinear_arith)
            requires
                i < n,
                n == buf.len() / channels,
                channels > 0,
        ;
        let o = channels * i;
        let a = if channels == 4 { buf[o + 3] } else { 255u8 };
        px.push(Rgba8 { r: buf[o], g: buf[o + 1], b: buf[o + 2], a });
        i = i + 1;
    }
    assert(px@ =~= spec_pixels(buf@, channels as nat));
    px
}

/// A PNG image stored in an asset.
pub struct PngSource(pub Asset);

impl PngSource {
    /// The PNG image in `asset`.
    pub fn new(asset: Asset) -> (p: PngSource)
        ensures
            p.0.spec_bytes() == asset.spec_bytes(),
    {
        PngSource(asset)
    }

    /// Decode the image into pixels and its size. Only eight-bit RGB and RGBA
    /// images are accepted.
    pub fn decode(&self) -> (r: Result<(Vec<Rgba8>, Size), PngError>)
        ensures
            match (r, spec_png_load(self.0.spec_bytes())) {
                (Ok((px, size)), Ok((spx, ssize))) => px@ == spx && size == ssize,
                (Err(e), Err(se)) => e == se,
                _ => false,
            },
            r matches Ok((px, size)) ==> px.len() == size.w * size.h,
    {
        let bytes = self.0.bytes();
        let decoded = decode_png(bytes.as_slice());
        let ghost dv = decoded_view(decoded);
        let ghost d = decoded;
        let r = png_pixels(decoded);
        proof {
            match d {
                Some((h, Some(buf))) => {
                    if h.depth_code == 8 {
                        let n = h.width * h.height;
                        if spec_color_type(h.color_code) == Some(ColorType::RGB) {
                            lemma_div_exact(n, 3);
                        } else if spec_color_type(h.color_code) == Some(ColorType::RGBA) {
                            lemma_div_exact(n, 4);
                        }
                    }
                },
                _ => {},
            }
        }
        r
    }
}

/// Turn a decoded PNG (its header, and its pixel bytes when the frame could be
/// read) into pixels and its size. Only eight-bit RGB and RGBA images are
/// accepted.
pub fn png_pixels(decoded: Option<(PngHeader, Option<Vec<u8>>)>) -> (r: Result<(Vec<Rgba8>, Size), PngError>)
    ensures
        match (r, spec_png_pixels(decoded_view(decoded))) {
            (Ok((px, size)), Ok((spx, ssize))) => px@ == spx && size == ssize,
            (Err(e), Err(se)) => e == se,
            _ => false,
        },
{
    match decoded {
        None => Err(PngError::Invalid),
        Some((info, frame)) => {
            match BitDepth::from_code(info.depth_code) {
                Some(BitDepth::Eight) => {},
                _ => {
                    return Err(PngError::NotEightBit);
                },
            }
            match frame {
                None => Err(PngError::BadFrame),
                Some(buf) => {
                    let size = Size::new(info.width, info.height);
                    match ColorType::from_code(info.color_code) {
                        Some(ColorType::RGB) => {
                            if buf.len() % 3 == 0 {
                                Ok((to_pixels(buf.as_slice(), 3), size))
                            } else {
                                Err(PngError::PartialPixel)
                            }
                        },
                        Some(ColorType::RGBA) => {
                            if buf.len() % 4 == 0 {
                                Ok((to_pixels(buf.as_slice(), 4), size))
                            } else {
                                Err(PngError::PartialPixel)
                            }
                        },
                        Some(other) => Err(PngError::UnsupportedColor(other)),
                        None => Err(PngError::UnknownColor(info.color_code)),
                    }
                },
            }
        },
    }
}

/// The PNG image in `asset`.
pub fn png(asset: Asset) -> (p: PngSource)
    ensures
        p.0.spec_bytes() == asset.spec_bytes(),
{
    PngSource::new(asset)
}

/// The PNG format's numbers: color types 0 (grayscale), 2 (RGB), 3 (indexed),
/// 4 (grayscale with alpha) and 6 (RGBA); bit depths 1, 2, 4, 8 and 16; no other
/// number names one. An eight-bit RGB pixel takes three bytes and an RGBA pixel
/// four.
pub proof fn law_png_numbers(code: u8)
    ensures
        spec_color_type(0) == Some(ColorType::Grayscale),
        spec_color_type(2) == Some(ColorType::RGB),
        spec_color_type(3) == Some(ColorType::Indexed),
        spec_color_type(4) == Some(ColorType::GrayscaleAlpha),
        spec_color_type(6) == Some(ColorType::RGBA),
        spec_color_type(code) is Some <==> (code == 0 || code == 2 || code == 3 || code == 4 || code == 6),
        spec_bit_depth(1) == Some(BitDepth::One),
        spec_bit_depth(2) == Some(BitDepth::Two),
        spec_bit_depth(4) == Some(BitDepth::Four),
        spec_bit_depth(8) == Some(BitDepth::Eight),
        spec_bit_depth(16) == Some(BitDepth::Sixteen),
        spec_bit_depth(code) is Some <==> (code == 1 || code == 2 || code == 4 || code == 8 || code == 16),
        samples(ColorType::RGB) == 3,
        samples(ColorType::RGBA) == 4,
{
}

/// Pixel `i` of an RGB buffer is bytes `3i`, `3i + 1`, `3i + 2` as red, green and
/// blue, fully opaque; of an RGBA buffer bytes `4i` to `4i + 3` as red, green,
/// blue and alpha. Every whole pixel of the buffer is there.
pub proof fn law_pixel_layout(buf: Seq<u8>, i: int)
    ensures
        spec_pixels(buf, 3).len() == buf.len() / 3,
        spec_pixels(buf, 4).len() == buf.len() / 4,
        0 <= i < buf.len() / 3 ==> spec_pixels(buf, 3)[i]
            == (Rgba8 { r: buf[3 * i], g: buf[3 * i + 1], b: buf[3 * i + 2], a: 255 }),
        0 <= i < buf.len() / 4 ==> spec_pixels(buf, 4)[i]
            == (Rgba8 { r: buf[4 * i], g: buf[4 * i + 1], b: buf[4 * i + 2], a: buf[4 * i + 3] }),
{
}

} // verus!
