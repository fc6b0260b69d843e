use flate2::write::ZlibEncoder;
use flate2::Compression;
use png_to_ascii::{glyph, ColorType, FormatRule, Image, Img, PLTEEntry, PngError};
use std::io::Write;

fn image(width: u32, height: u32, bit_depth: u8, color_type: ColorType, data: &[u8]) -> Image {
    Image {
        width,
        height,
        bit_depth,
        color_type,
        interlaced: false,
        data: data.to_vec(),
        plte: None,
        background: None,
        transparancy: None,
    }
}

fn chunk(tag: &[u8; 4], payload: &[u8]) -> Vec<u8> {
    let mut out = Vec::new();
    out.extend_from_slice(&(payload.len() as u32).to_be_bytes());
    out.extend_from_slice(tag);
    out.extend_from_slice(payload);
    out.extend_from_slice(&[0; 4]);
    out
}

fn file(header: [u8; 13], palette: Option<&[u8]>, scanlines: &[u8]) -> Vec<u8> {
    let mut encoder = ZlibEncoder::new(Vec::new(), Compression::fast());
    encoder.write_all(scanlines).unwrap();
    let compressed = encoder.finish().unwrap();
    let mut out = vec![137, 80, 78, 71, 13, 10, 26, 10];
    out.extend(chunk(b"IHDR", &header));
    if let Some(palette) = palette {
        out.extend(chunk(b"PLTE", palette));
    }
    out.extend(chunk(b"IDAT", &compressed));
    out.extend(chunk(b"IEND", &[]));
    out
}

#[test]
fn grey_intensity_is_the_sample() {
    let img = Img::from_image(&image(3, 2, 8, ColorType::Greyscale, &[1, 2, 3, 4, 5, 6])).unwrap();
    assert_eq!(img.grid, vec![vec![1, 2, 3], vec![4, 5, 6]]);
}

#[test]
fn rgb_intensity_is_the_mean_of_three() {
    let data = [10, 20, 30, 255, 255, 255, 0, 0, 1, 1, 1, 0];
    let img = Img::from_image(&image(2, 2, 8, ColorType::RGB, &data)).unwrap();
    assert_eq!(img.grid, vec![vec![20, 255], vec![0, 0]]);
}

#[test]
fn grey_alpha_intensity_is_the_mean_of_two() {
    let data = [10, 21, 255, 255, 0, 1, 200, 100];
    let img = Img::from_image(&image(2, 2, 8, ColorType::GreyscaleAlpha, &data)).unwrap();
    assert_eq!(img.grid, vec![vec![15, 255], vec![0, 150]]);
}

#[test]
fn rgba_intensity_is_the_mean_of_four() {
    let data = [10, 20, 30, 40, 255, 255, 255, 255, 1, 1, 1, 0, 3, 0, 0, 0];
    let img = Img::from_image(&image(1, 4, 8, ColorType::RGBA, &data)).unwrap();
    assert_eq!(img.grid, vec![vec![25], vec![255], vec![0], vec![0]]);
}

#[test]
fn indexed_intensity_is_the_mean_of_the_palette_entry() {
    let mut indexed = image(2, 2, 8, ColorType::PaletteIndex, &[0, 1, 1, 2]);
    indexed.plte = Some(vec![
        PLTEEntry { red: 0, green: 0, blue: 0 },
        PLTEEntry { red: 30, green: 60, blue: 91 },
        PLTEEntry { red: 255, green: 255, blue: 255 },
    ]);
    let img = Img::from_image(&indexed).unwrap();
    assert_eq!(img.grid, vec![vec![0, 60], vec![60, 255]]);
}

#[test]
fn second_row_starts_behind_the_whole_first_row() {
    // with more than one channel the second row does not start `width` bytes in
    let data = [0, 0, 0, 30, 30, 30, 60, 60, 60, 90, 90, 90, 120, 120, 120, 150, 150, 150];
    let img = Img::from_image(&image(3, 2, 8, ColorType::RGB, &data)).unwrap();
    assert_eq!(img.grid, vec![vec![0, 30, 60], vec![90, 120, 150]]);
}

#[test]
fn sample_without_palette_entry_is_an_error() {
    let mut indexed = image(2, 2, 8, ColorType::PaletteIndex, &[0, 1, 1, 2]);
    indexed.plte = Some(vec![PLTEEntry { red: 0, green: 0, blue: 0 }; 2]);
    assert_eq!(Img::from_image(&indexed), Err(PngError::Format(FormatRule::PaletteIndex)));
    indexed.plte = None;
    assert_eq!(Img::from_image(&indexed), Err(PngError::Format(FormatRule::PaletteIndex)));
}

#[test]
fn other_bit_depths_are_not_reduced() {
    for depth in [1u8, 2, 4, 16] {
        let grey = image(1, 1, depth, ColorType::Greyscale, &[0, 0]);
        assert_eq!(Img::from_image(&grey), Err(PngError::UnsupportedDepth));
    }
    let rgb = image(1, 1, 16, ColorType::RGB, &[0; 6]);
    assert_eq!(Img::from_image(&rgb), Err(PngError::UnsupportedDepth));
}

#[test]
fn data_of_the_wrong_length_is_an_error() {
    let short = image(2, 2, 8, ColorType::RGB, &[0; 11]);
    assert_eq!(Img::from_image(&short), Err(PngError::Format(FormatRule::DataLength)));
    let long = image(2, 2, 8, ColorType::RGB, &[0; 13]);
    assert_eq!(Img::from_image(&long), Err(PngError::Format(FormatRule::DataLength)));
}

#[test]
fn grids_without_pixels() {
    let img = Img::from_image(&image(0, 3, 8, ColorType::RGB, &[])).unwrap();
    assert_eq!(img.grid, vec![Vec::<u8>::new(); 3]);
    let img = Img::from_image(&image(3, 0, 8, ColorType::RGB, &[])).unwrap();
    assert_eq!(img.grid, Vec::<Vec<u8>>::new());
}

#[test]
fn new_decodes_and_reduces() {
    let header = [0, 0, 0, 2, 0, 0, 0, 2, 8, 2, 0, 0, 0];
    let scanlines = [0, 10, 20, 30, 40, 50, 60, 2, 240, 220, 200, 221, 212, 203];
    let img = Img::new(&file(header, None, &scanlines)).unwrap();
    assert_eq!(img.grid, vec![vec![20, 50], vec![240, 6]]);
}

#[test]
fn new_reduces_indexed_images_through_the_palette() {
    let header = [0, 0, 0, 3, 0, 0, 0, 1, 8, 3, 0, 0, 0];
    let palette = [3, 3, 3, 100, 110, 120];
    let img = Img::new(&file(header, Some(&palette), &[0, 1, 0, 1])).unwrap();
    assert_eq!(img.grid, vec![vec![110, 3, 110]]);
    assert_eq!(
        Img::new(&file(header, Some(&palette), &[0, 1, 2, 1])),
        Err(PngError::Format(FormatRule::PaletteIndex))
    );
}

#[test]
fn new_hands_on_the_errors_of_decoding() {
    assert_eq!(Img::new(&[1, 2, 3]), Err(PngError::Signature));
    let header = [0, 0, 0, 2, 0, 0, 0, 2, 8, 2, 0, 0, 0];
    let mut broken = file(header, None, &[0; 14]);
    let len = broken.len();
    broken.truncate(len - 1);
    assert_eq!(Img::new(&broken), Err(PngError::Format(FormatRule::Truncated)));
    assert_eq!(
        Img::new(&file(header, None, &[0; 13])),
        Err(PngError::Format(FormatRule::ScanlineLength))
    );
    let sixteen = [0, 0, 0, 1, 0, 0, 0, 1, 16, 0, 0, 0, 0];
    assert_eq!(Img::new(&file(sixteen, None, &[0, 1, 2])), Err(PngError::UnsupportedDepth));
}

#[test]
fn glyphs_of_the_ramp() {
    let ramp: Vec<char> =
        " `^\",:;Il!i~+_-?][}{1)(|\\/tfjrxnuvczXYUJCLQ0OZmwqpdbkhao*#MW&8%B@$".chars().collect();
    assert_eq!(ramp.len(), 66);
    assert_eq!(glyph(0), ' ');
    assert_eq!(glyph(3), ' ');
    assert_eq!(glyph(4), '`');
    assert_eq!(glyph(128), 'v');
    assert_eq!(glyph(254), '$');
    assert_eq!(glyph(255), '$');
    for intensity in 0..=255u8 {
        let index = (66 * intensity as usize / 255).min(65);
        assert_eq!(glyph(intensity), ramp[index]);
    }
}
