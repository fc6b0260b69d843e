use png_to_ascii::{
    Assembler, Chunk, ColorType, FormatRule, IHDRData, Image, PLTEEntry, PngError, Transparancy,
    BKGD,
};

const SIGNATURE: [u8; 8] = [137, 80, 78, 71, 13, 10, 26, 10];

fn header(color_type: ColorType, bit_depth: u8) -> IHDRData {
    IHDRData { width: 4, height: 3, bit_depth, color_type, interlace_method: true }
}

fn started(color_type: ColorType, bit_depth: u8) -> Assembler {
    let mut state = Assembler::new();
    assert_eq!(state.accept(Chunk::IHDR(header(color_type, bit_depth))), Ok(()));
    state
}

fn entries(n: usize) -> Vec<PLTEEntry> {
    (0..n).map(|i| PLTEEntry { red: i as u8, green: 1, blue: 2 }).collect()
}

fn broken(rule: FormatRule) -> Result<(), PngError> {
    Err(PngError::Format(rule))
}

fn chunk(tag: &[u8; 4], payload: &[u8]) -> Vec<u8> {
    let mut out = Vec::new();
    out.extend_from_slice(&(payload.len() as u32).to_be_bytes());
    out.extend_from_slice(tag);
    out.extend_from_slice(payload);
    out.extend_from_slice(&[0; 4]);
    out
}

#[test]
fn new_assembler_is_empty() {
    let state = Assembler::new();
    assert!(!state.header_seen);
    assert!(!state.data_seen);
    assert!(state.compressed.is_empty());
    assert_eq!(
        state.image,
        Image {
            width: 0,
            height: 0,
            bit_depth: 0,
            color_type: ColorType::Greyscale,
            interlaced: false,
            data: vec![],
            plte: None,
            background: None,
            transparancy: None,
        }
    );
}

#[test]
fn header_fills_the_image() {
    let state = started(ColorType::RGBA, 16);
    assert!(state.header_seen);
    assert_eq!(state.image.width, 4);
    assert_eq!(state.image.height, 3);
    assert_eq!(state.image.bit_depth, 16);
    assert_eq!(state.image.color_type, ColorType::RGBA);
    assert!(state.image.interlaced);
}

#[test]
fn nothing_is_accepted_before_the_header() {
    let chunks = [
        Chunk::PLTE(entries(1)),
        Chunk::IDAT(&[1]),
        Chunk::IEND,
        Chunk::BKGD(BKGD::Greyscale(1)),
        Chunk::GAMA,
        Chunk::TRNS(&[0, 1]),
        Chunk::TEXT,
    ];
    for chunk in chunks {
        let mut state = Assembler::new();
        assert_eq!(state.accept(chunk), broken(FormatRule::HeaderMissing));
        assert!(!state.header_seen);
    }
}

#[test]
fn second_header_is_rejected_and_changes_nothing() {
    let mut state = started(ColorType::RGB, 8);
    assert_eq!(
        state.accept(Chunk::IHDR(header(ColorType::Greyscale, 1))),
        broken(FormatRule::HeaderRepeated)
    );
    assert_eq!(state.image.color_type, ColorType::RGB);
    assert_eq!(state.image.bit_depth, 8);
}

#[test]
fn palette_is_stored_once() {
    let mut state = started(ColorType::PaletteIndex, 8);
    assert_eq!(state.accept(Chunk::PLTE(entries(3))), Ok(()));
    assert_eq!(state.image.plte, Some(entries(3)));
    assert_eq!(state.accept(Chunk::PLTE(entries(2))), broken(FormatRule::PaletteRepeated));
    assert_eq!(state.image.plte, Some(entries(3)));
}

#[test]
fn palette_after_background_is_rejected() {
    let mut state = started(ColorType::RGB, 8);
    assert_eq!(state.accept(Chunk::BKGD(BKGD::RGB(1, 2, 3))), Ok(()));
    assert_eq!(state.accept(Chunk::PLTE(entries(2))), broken(FormatRule::PaletteAfterBackground));
    assert_eq!(state.image.plte, None);
}

#[test]
fn repeated_palette_is_reported_before_palette_after_background() {
    let mut state = started(ColorType::PaletteIndex, 8);
    assert_eq!(state.accept(Chunk::PLTE(entries(2))), Ok(()));
    assert_eq!(state.accept(Chunk::BKGD(BKGD::PaletteIndex(1))), Ok(()));
    assert_eq!(state.accept(Chunk::PLTE(entries(2))), broken(FormatRule::PaletteRepeated));
}

#[test]
fn image_data_is_gathered_in_order() {
    let mut state = started(ColorType::Greyscale, 8);
    assert!(!state.data_seen);
    assert_eq!(state.accept(Chunk::IDAT(&[1, 2])), Ok(()));
    assert!(state.data_seen);
    assert_eq!(state.accept(Chunk::TIME), Ok(()));
    assert_eq!(state.accept(Chunk::IDAT(&[])), Ok(()));
    assert_eq!(state.accept(Chunk::IDAT(&[3])), Ok(()));
    assert_eq!(state.compressed, vec![1, 2, 3]);
    assert!(state.image.data.is_empty());
}

#[test]
fn background_must_fit_the_colour_model() {
    let shapes = [BKGD::PaletteIndex(1), BKGD::Greyscale(2), BKGD::RGB(3, 4, 5)];
    let fitting = [
        (ColorType::Greyscale, 1usize),
        (ColorType::GreyscaleAlpha, 1),
        (ColorType::PaletteIndex, 0),
        (ColorType::RGB, 2),
        (ColorType::RGBA, 2),
    ];
    for (color_type, fits) in fitting {
        for (i, shape) in shapes.iter().enumerate() {
            let mut state = started(color_type, 8);
            if i == fits {
                assert_eq!(state.accept(Chunk::BKGD(*shape)), Ok(()));
                assert_eq!(state.image.background, Some(*shape));
            } else {
                assert_eq!(state.accept(Chunk::BKGD(*shape)), broken(FormatRule::BackgroundShape));
                assert_eq!(state.image.background, None);
            }
        }
    }
}

#[test]
fn background_after_data_is_rejected_whatever_its_shape() {
    let mut state = started(ColorType::Greyscale, 8);
    assert_eq!(state.accept(Chunk::IDAT(&[])), Ok(()));
    assert_eq!(
        state.accept(Chunk::BKGD(BKGD::Greyscale(1))),
        broken(FormatRule::BackgroundAfterData)
    );
    assert_eq!(
        state.accept(Chunk::BKGD(BKGD::RGB(1, 2, 3))),
        broken(FormatRule::BackgroundAfterData)
    );
}

#[test]
fn a_later_background_replaces_an_earlier_one() {
    let mut state = started(ColorType::Greyscale, 8);
    assert_eq!(state.accept(Chunk::BKGD(BKGD::Greyscale(1))), Ok(()));
    assert_eq!(state.accept(Chunk::BKGD(BKGD::Greyscale(2))), Ok(()));
    assert_eq!(state.image.background, Some(BKGD::Greyscale(2)));
}

#[test]
fn transparency_is_read_against_the_colour_model() {
    let mut state = started(ColorType::Greyscale, 8);
    assert_eq!(state.accept(Chunk::TRNS(&[1, 0])), Ok(()));
    assert_eq!(state.image.transparancy, Some(Transparancy::Greyscale(256)));
    assert_eq!(state.accept(Chunk::TRNS(&[1, 0, 0])), broken(FormatRule::TransparencyLength));
    assert_eq!(state.image.transparancy, Some(Transparancy::Greyscale(256)));

    let mut state = started(ColorType::RGB, 8);
    assert_eq!(state.accept(Chunk::TRNS(&[0, 1, 0, 2, 0, 3])), Ok(()));
    assert_eq!(state.image.transparancy, Some(Transparancy::RGB(1, 2, 3)));
    assert_eq!(state.accept(Chunk::TRNS(&[0, 1])), broken(FormatRule::TransparencyLength));

    let mut state = started(ColorType::PaletteIndex, 8);
    assert_eq!(state.accept(Chunk::TRNS(&[9])), broken(FormatRule::TransparencyBeforePalette));
    assert_eq!(state.accept(Chunk::PLTE(entries(3))), Ok(()));
    assert_eq!(state.accept(Chunk::TRNS(&[9])), Ok(()));
    assert_eq!(state.image.transparancy, Some(Transparancy::PaletteIndex(vec![9, 255, 255])));
    assert_eq!(state.accept(Chunk::TRNS(&[9; 4])), broken(FormatRule::TransparencyLength));

    for color_type in [ColorType::GreyscaleAlpha, ColorType::RGBA] {
        let mut state = started(color_type, 8);
        for payload in [&[][..], &[0, 1], &[0, 1, 0, 2, 0, 3]] {
            assert_eq!(
                state.accept(Chunk::TRNS(payload)),
                broken(FormatRule::TransparencyForbidden)
            );
        }
        assert_eq!(state.image.transparancy, None);
    }
}

#[test]
fn ignorable_and_end_chunks_change_nothing() {
    let chunks = [
        Chunk::IEND,
        Chunk::CHRM,
        Chunk::GAMA,
        Chunk::HIST,
        Chunk::PHYS,
        Chunk::SBIT,
        Chunk::TEXT,
        Chunk::TIME,
        Chunk::ZTXT,
    ];
    let mut state = started(ColorType::RGB, 8);
    let before = state.image.clone();
    for chunk in chunks {
        assert_eq!(state.accept(chunk), Ok(()));
    }
    assert_eq!(state.image, before);
    assert!(state.compressed.is_empty());
    assert!(!state.data_seen);
}

#[test]
fn finish_needs_a_header() {
    assert!(matches!(
        Assembler::new().finish(),
        Err(PngError::Format(FormatRule::HeaderMissing))
    ));
    assert!(started(ColorType::RGB, 8).finish().is_ok());
}

#[test]
fn legality_table() {
    let table: [(ColorType, &[u8]); 5] = [
        (ColorType::Greyscale, &[1, 2, 4, 8, 16]),
        (ColorType::GreyscaleAlpha, &[8, 16]),
        (ColorType::RGB, &[8, 16]),
        (ColorType::RGBA, &[8, 16]),
        (ColorType::PaletteIndex, &[1, 2, 4, 8]),
    ];
    for (color_type, depths) in table {
        for depth in 0..=255u8 {
            let mut state = started(color_type, depth);
            if color_type == ColorType::PaletteIndex {
                assert_eq!(state.accept(Chunk::PLTE(entries(1))), Ok(()));
            }
            let expected =
                if depths.contains(&depth) { Ok(()) } else { broken(FormatRule::BitDepth) };
            assert_eq!(state.image.check_legality(), expected);
        }
    }
}

#[test]
fn legality_of_the_palette() {
    for color_type in [ColorType::Greyscale, ColorType::GreyscaleAlpha] {
        let mut state = started(color_type, 8);
        assert_eq!(state.accept(Chunk::PLTE(entries(1))), Ok(()));
        assert_eq!(state.image.check_legality(), broken(FormatRule::PaletteForbidden));
    }
    for color_type in [ColorType::RGB, ColorType::RGBA] {
        let mut state = started(color_type, 8);
        assert_eq!(state.accept(Chunk::PLTE(entries(300))), Ok(()));
        assert_eq!(state.image.check_legality(), Ok(()));
    }
    let state = started(ColorType::PaletteIndex, 4);
    assert_eq!(state.image.check_legality(), broken(FormatRule::PaletteMissing));
    let mut state = started(ColorType::PaletteIndex, 4);
    assert_eq!(state.accept(Chunk::PLTE(entries(0))), Ok(()));
    assert_eq!(state.image.check_legality(), broken(FormatRule::PaletteEmpty));
    for (depth, capacity) in [(1u8, 2usize), (2, 4), (4, 16), (8, 256)] {
        let mut state = started(ColorType::PaletteIndex, depth);
        assert_eq!(state.accept(Chunk::PLTE(entries(capacity))), Ok(()));
        assert_eq!(state.image.check_legality(), Ok(()));
        let mut state = started(ColorType::PaletteIndex, depth);
        assert_eq!(state.accept(Chunk::PLTE(entries(capacity + 1))), Ok(()));
        assert_eq!(state.image.check_legality(), broken(FormatRule::PaletteTooLong));
    }
}

#[test]
fn read_gathers_without_decompressing() {
    let mut file = SIGNATURE.to_vec();
    file.extend(chunk(b"IHDR", &[0, 0, 0, 2, 0, 0, 0, 1, 8, 3, 0, 0, 0]));
    file.extend(chunk(b"PLTE", &[1, 2, 3, 4, 5, 6]));
    file.extend(chunk(b"IDAT", &[0xAA, 0xBB]));
    file.extend(chunk(b"IDAT", &[0xCC]));
    file.extend(chunk(b"IEND", &[]));
    let state = Assembler::read(&file).unwrap();
    assert!(state.header_seen);
    assert!(state.data_seen);
    assert_eq!(state.compressed, vec![0xAA, 0xBB, 0xCC]);
    assert_eq!(state.image.width, 2);
    assert_eq!(state.image.color_type, ColorType::PaletteIndex);
    assert_eq!(state.image.plte.as_ref().unwrap().len(), 2);
    assert!(state.image.data.is_empty());
}

#[test]
fn read_runs_the_final_pass() {
    let mut file = SIGNATURE.to_vec();
    file.extend(chunk(b"IHDR", &[0, 0, 0, 2, 0, 0, 0, 1, 8, 3, 0, 0, 0]));
    file.extend(chunk(b"IEND", &[]));
    assert!(matches!(
        Assembler::read(&file),
        Err(PngError::Format(FormatRule::PaletteMissing))
    ));
    assert!(matches!(Assembler::read(&file[1..]), Err(PngError::Signature)));
}

#[test]
fn into_image_takes_the_outcome_of_decompression() {
    let state = started(ColorType::Greyscale, 8);
    assert_eq!(state.into_image(None), Err(PngError::Decompression));
    let state = started(ColorType::Greyscale, 8);
    let image = state.into_image(Some(vec![0, 1, 2, 3, 4, 1, 1, 1, 1, 1, 2, 1, 1, 1, 1])).unwrap();
    assert_eq!(image.data, vec![1, 2, 3, 4, 1, 2, 3, 4, 2, 3, 4, 5]);
    assert_eq!(image.width, 4);
    assert_eq!(image.height, 3);
    let state = started(ColorType::Greyscale, 8);
    assert_eq!(
        state.into_image(Some(vec![0, 1, 2, 3, 4])),
        Err(PngError::Format(FormatRule::ScanlineLength))
    );
    let state = started(ColorType::Greyscale, 8);
    assert_eq!(
        state.into_image(Some(vec![7; 15])),
        Err(PngError::Format(FormatRule::FilterType))
    );
}
