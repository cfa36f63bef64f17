//! Loading of PNG textures on desktop platforms.
use vstd::prelude::*;
use crate::asset::{decode_png, decoded_view, png_decode, spec_bit_depth, spec_color_type, BitDepth, ColorType, PngHeader};

verus! {

/// The number of bits that `v` names, as text.
pub fn bit_depth_name(v: BitDepth) -> (s: &'static str)
    ensures
        s@ == match v {
            BitDepth::One => "1"@,
            BitDepth::Two => "2"@,
            BitDepth::Four => "4"@,
            BitDepth::Eight => "8"@,
            BitDepth::Sixteen => "16"@,
        },
{
    match v {
        BitDepth::One => "1",
        BitDepth::Two => "2",
        BitDepth::Four => "4",
        BitDepth::Eight => "8",
        BitDepth::Sixteen => "16",
    }
}

/// The name of the color layout `v`.
pub fn color_type_name(v: ColorType) -> (s: &'static str)
    ensures
        s@ == match v {
            ColorType::Grayscale => "Grayscale"@,
            ColorType::RGB => "RGB"@,
            ColorType::Indexed => "Indexed"@,
            ColorType::GrayscaleAlpha => "GrayscaleAlpha"@,
            ColorType::RGBA => "RGBA"@,
        },
{
    match v {
        ColorType::Grayscale => "Grayscale",
        ColorType::RGB => "RGB",
        ColorType::Indexed => "Indexed",
        ColorType::GrayscaleAlpha => "GrayscaleAlpha",
        ColorType::RGBA => "RGBA",
    }
}

/// The width, height and RGBA bytes of a decoded PNG (its header, and its pixel
/// bytes when the frame could be read); only eight-bit RGBA images are accepted,
/// and any failure gives `Err(())`.
pub open spec fn spec_rgba8_image(decoded: Option<(PngHeader, Option<Seq<u8>>)>) -> Result<(nat, nat, Seq<u8>), ()> {
    match decoded {
        Some((info, Some(buf))) => if spec_color_type(info.color_code) == Some(ColorType::RGBA)
            && spec_bit_depth(info.depth_code) == Some(BitDepth::Eight) {
            Ok((info.width as nat, info.height as nat, buf))
        } else {
            Err(())
        },
        _ => Err(()),
    }
}

/// A PNG texture's width, height and RGBA bytes.
pub open spec fn spec_load_png(data: Seq<u8>) -> Result<(nat, nat, Seq<u8>), ()> {
    spec_rgba8_image(png_decode(data))
}

/// The width, height and RGBA bytes of a decoded PNG; only eight-bit RGBA images
/// are accepted.
pub fn rgba8_image(decoded: Option<(PngHeader, Option<Vec<u8>>)>) -> (r: Result<(usize, usize, Vec<u8>), ()>)
    ensures
        match (r, spec_rgba8_image(decoded_view(decoded))) {
            (Ok((w, h, buf)), Ok((sw, sh, sbuf))) => w == sw && h == sh && buf@ == sbuf,
            (Err(_), Err(_)) => true,
            _ => false,
        },
{
    match decoded {
        Some((info, Some(buf))) => {
            match (ColorType::from_code(info.color_code), BitDepth::from_code(info.depth_code)) {
                (Some(ColorType::RGBA), Some(BitDepth::Eight)) => Ok(
                    (info.width as usize, info.height as usize, buf),
                ),
                _ => Err(()),
            }
        },
        _ => Err(()),
    }
}

/// Decode the PNG texture `data`: its width, height and RGBA bytes.
pub fn load_png(data: &[u8]) -> (r: Result<(usize, usize, Vec<u8>), ()>)
    ensures
        match (r, spec_load_png(data@)) {
            (Ok((w, h, buf)), Ok((sw, sh, sbuf))) => w == sw && h == sh && buf@ == sbuf,
            (Err(_), Err(_)) => true,
            _ => false,
        },
        r matches Ok((w, h, buf)) ==> buf.len() == 4 * w * h,
{
    let decoded = decode_png(data);
    let ghost d = decoded;
    let r = rgba8_image(decoded);
    proof {
        match d {
            Some((info, Some(buf))) => {
                assert(info.width * info.height * 4 == 4 * info.width * info.height) by (nonlinear_arith);
            },
            _ => {},
        }
    }
    r
}

} // verus!
