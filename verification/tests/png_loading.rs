use vg::asset::{png, png_pixels, Asset, BitDepth, ColorType, PngError, PngHeader, PngSource, Rgba8, Size};
use vg::desktop::{bit_depth_name, color_type_name, load_png, rgba8_image};

fn encode(w: u32, h: u32, color: png::ColorType, depth: png::BitDepth, data: &[u8]) -> Vec<u8> {
    let mut out = Vec::new();
    {
        let mut enc = png::Encoder::new(&mut out, w, h);
        enc.set_color(color);
        enc.set_depth(depth);
        let mut writer = enc.write_header().unwrap();
        writer.write_image_data(data).unwrap();
    }
    out
}

#[test]
fn load_png_accepts_rgba8() {
    let px = [1u8, 2, 3, 4, 5, 6, 7, 8];
    let bytes = encode(2, 1, png::ColorType::RGBA, png::BitDepth::Eight, &px);
    assert_eq!(load_png(&bytes), Ok((2, 1, px.to_vec())));
}

#[test]
fn load_png_rejects_rgb_and_garbage() {
    let bytes = encode(1, 1, png::ColorType::RGB, png::BitDepth::Eight, &[9, 9, 9]);
    assert_eq!(load_png(&bytes), Err(()));
    assert_eq!(load_png(&[1, 2, 3]), Err(()));
}

#[test]
fn png_source_expands_rgb() {
    let bytes = encode(2, 1, png::ColorType::RGB, png::BitDepth::Eight, &[10, 20, 30, 40, 50, 60]);
    let src = png(Asset::new(bytes));
    let (px, size) = src.decode().unwrap();
    assert_eq!(size, Size::new(2, 1));
    assert_eq!(px, vec![
        Rgba8 { r: 10, g: 20, b: 30, a: 255 },
        Rgba8 { r: 40, g: 50, b: 60, a: 255 },
    ]);
}

#[test]
fn png_source_keeps_rgba() {
    let bytes = encode(1, 1, png::ColorType::RGBA, png::BitDepth::Eight, &[1, 2, 3, 4]);
    let (px, _) = PngSource::new(Asset::new(bytes)).decode().unwrap();
    assert_eq!(px, vec![Rgba8 { r: 1, g: 2, b: 3, a: 4 }]);
}

#[test]
fn png_source_errors() {
    assert_eq!(png(Asset::new(vec![0, 1, 2])).decode().unwrap_err(), PngError::Invalid);
    let gray = encode(1, 1, png::ColorType::Grayscale, png::BitDepth::Eight, &[7]);
    assert_eq!(
        png(Asset::new(gray)).decode().unwrap_err(),
        PngError::UnsupportedColor(ColorType::Grayscale)
    );
}

#[test]
fn header_codes() {
    assert_eq!(ColorType::from_code(6), Some(ColorType::RGBA));
    assert_eq!(ColorType::from_code(2), Some(ColorType::RGB));
    assert_eq!(ColorType::from_code(5), None);
    assert_eq!(BitDepth::from_code(8), Some(BitDepth::Eight));
    assert_eq!(BitDepth::from_code(3), None);
    assert_eq!(bit_depth_name(BitDepth::Sixteen), "16");
    assert_eq!(color_type_name(ColorType::GrayscaleAlpha), "GrayscaleAlpha");
}

#[test]
fn asset_bytes_are_copied() {
    let a = Asset::new(vec![5, 6]);
    assert_eq!(a.bytes(), vec![5, 6]);
}

fn header(color_code: u8, depth_code: u8) -> PngHeader {
    PngHeader { width: 3, height: 2, color_code, depth_code }
}

#[test]
fn decoded_png_to_pixels() {
    assert_eq!(
        png_pixels(Some((header(2, 8), Some(vec![1, 2, 3, 4, 5, 6])))),
        Ok((vec![Rgba8 { r: 1, g: 2, b: 3, a: 255 }, Rgba8 { r: 4, g: 5, b: 6, a: 255 }], Size::new(3, 2)))
    );
    assert_eq!(
        png_pixels(Some((header(6, 8), Some(vec![1, 2, 3, 4])))),
        Ok((vec![Rgba8 { r: 1, g: 2, b: 3, a: 4 }], Size::new(3, 2)))
    );
    assert_eq!(png_pixels(None), Err(PngError::Invalid));
    assert_eq!(png_pixels(Some((header(6, 16), Some(vec![1, 2, 3, 4])))), Err(PngError::NotEightBit));
    assert_eq!(png_pixels(Some((header(6, 8), None))), Err(PngError::BadFrame));
    assert_eq!(png_pixels(Some((header(6, 8), Some(vec![1, 2, 3])))), Err(PngError::PartialPixel));
    assert_eq!(png_pixels(Some((header(2, 8), Some(vec![1, 2])))), Err(PngError::PartialPixel));
    assert_eq!(png_pixels(Some((header(3, 8), Some(vec![1])))), Err(PngError::UnsupportedColor(ColorType::Indexed)));
    assert_eq!(png_pixels(Some((header(7, 8), Some(vec![1])))), Err(PngError::UnknownColor(7)));
}

#[test]
fn decoded_png_to_rgba8_image() {
    assert_eq!(rgba8_image(Some((header(6, 8), Some(vec![9, 8, 7, 6])))), Ok((3, 2, vec![9, 8, 7, 6])));
    assert_eq!(rgba8_image(Some((header(2, 8), Some(vec![9, 8, 7])))), Err(()));
    assert_eq!(rgba8_image(Some((header(6, 16), Some(vec![9, 8, 7, 6])))), Err(()));
    assert_eq!(rgba8_image(Some((header(6, 8), None))), Err(()));
    assert_eq!(rgba8_image(None), Err(()));
}

#[test]
fn accepted_textures_have_four_bytes_per_pixel() {
    let px: Vec<u8> = (0..24).collect();
    let bytes = encode(3, 2, png::ColorType::RGBA, png::BitDepth::Eight, &px);
    let (w, h, buf) = load_png(&bytes).unwrap();
    assert_eq!(buf.len(), 4 * w * h);
    let rgb = encode(3, 2, png::ColorType::RGB, png::BitDepth::Eight, &px[..18]);
    let (pixels, size) = png(Asset::new(rgb)).decode().unwrap();
    assert_eq!(pixels.len(), (size.w * size.h) as usize);
}
