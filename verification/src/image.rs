//! The decoded image and its geometry.

use crate::chunk::{ColorType, PLTEEntry, BKGD};
use crate::error::{FormatRule, PngError};
use crate::transparency::{Transparancy, TransparancyView};
use vstd::arithmetic::power2::{lemma2_to64, pow2};
use vstd::prelude::*;

verus! {

/// An image as a mathematical value.
pub struct ImageView {
    pub width: u32,
    pub height: u32,
    pub bit_depth: u8,
    pub color_type: ColorType,
    pub interlaced: bool,
    pub data: Seq<u8>,
    pub plte: Option<Seq<PLTEEntry>>,
    pub background: Option<BKGD>,
    pub transparancy: Option<TransparancyView>,
}

/// A decoded image.
#[derive(Clone, Debug, PartialEq, Eq)]
pub struct Image {
    /// width in pixels
    pub width: u32,
    /// height in pixels
    pub height: u32,
    /// the number of bits per sample or per palette index (not per pixel)
    pub bit_depth: u8,
    /// the interpretation of the image data
    pub color_type: ColorType,
    /// whether the rows are stored in interlaced order
    pub interlaced: bool,
    /// the raw samples, row after row, without padding between rows
    pub data: Vec<u8>,
    /// the palette
    pub plte: Option<Vec<PLTEEntry>>,
    /// the background colour
    pub background: Option<BKGD>,
    /// simple transparency
    pub transparancy: Option<Transparancy>,
}

impl View for Image {
    type V = ImageView;

    open spec fn view(&self) -> ImageView {
        ImageView {
            width: self.width,
            height: self.height,
            bit_depth: self.bit_depth,
            color_type: self.color_type,
            interlaced: self.interlaced,
            data: self.data@,
            plte: match self.plte {
                Some(entries) => Some(entries@),
                None => None,
            },
            background: self.background,
            transparancy: match self.transparancy {
                Some(t) => Some(t@),
                None => None,
            },
        }
    }
}

/// The distance in bytes between a sample and the sample of the same
/// channel in the pixel to its left; 1 where a pixel takes a byte or less.
pub open spec fn bytes_per_pixel(color_type: ColorType, bit_depth: u8) -> int {
    match color_type {
        ColorType::Greyscale => if bit_depth == 16 {
            2
        } else {
            1
        },
        ColorType::RGB => if bit_depth == 8 {
            3
        } else {
            6
        },
        ColorType::PaletteIndex => 1,
        ColorType::GreyscaleAlpha => if bit_depth == 8 {
            2
        } else {
            4
        },
        ColorType::RGBA => if bit_depth == 8 {
            4
        } else {
            8
        },
    }
}

/// The number of bytes that the samples of one row take: its bits, rounded
/// up to whole bytes.
pub open spec fn row_bytes(width: u32, color_type: ColorType, bit_depth: u8) -> int {
    (width * (color_type.channels() * bit_depth) + 7) / 8
}

impl ImageView {
    /// The distance in bytes between a pixel and its left neighbour.
    pub open spec fn bpp(self) -> int {
        bytes_per_pixel(self.color_type, self.bit_depth)
    }

    /// The number of bytes in one row of samples.
    pub open spec fn row_len(self) -> int {
        row_bytes(self.width, self.color_type, self.bit_depth)
    }
}

/// Whether a background is of the shape that a colour model asks for: a
/// palette index for indexed images, a grey level for the two greyscale
/// models, a colour for the two RGB models.
pub open spec fn background_fits(color_type: ColorType, background: BKGD) -> bool {
    match color_type {
        ColorType::PaletteIndex => background is PaletteIndex,
        ColorType::Greyscale | ColorType::GreyscaleAlpha => background is Greyscale,
        ColorType::RGB | ColorType::RGBA => background is RGB,
    }
}

/// Whether a transparency is of the shape that a colour model asks for:
/// one alpha value for each palette entry of an indexed image, a grey level
/// for greyscale, a colour for RGB, and none at all where the pixels carry
/// alpha themselves.
pub open spec fn transparency_fits(
    color_type: ColorType,
    plte: Option<Seq<PLTEEntry>>,
    transparency: TransparancyView,
) -> bool {
    match color_type {
        ColorType::PaletteIndex => {
            &&& transparency matches TransparancyView::PaletteIndex(alphas)
            &&& plte matches Some(entries)
            &&& alphas.len() == entries.len()
        },
        ColorType::Greyscale => transparency is Greyscale,
        ColorType::RGB => transparency is RGB,
        ColorType::GreyscaleAlpha | ColorType::RGBA => false,
    }
}

/// The table of legal bit depths: 1, 2, 4, 8 and 16 for greyscale, 1, 2,
/// 4 and 8 for indexed images, 8 and 16 for the other colour models.
pub open spec fn depth_is_legal(color_type: ColorType, bit_depth: u8) -> bool {
    match color_type {
        ColorType::Greyscale => bit_depth == 1 || bit_depth == 2 || bit_depth == 4 || bit_depth
            == 8 || bit_depth == 16,
        ColorType::PaletteIndex => bit_depth == 1 || bit_depth == 2 || bit_depth == 4
            || bit_depth == 8,
        ColorType::RGB | ColorType::GreyscaleAlpha | ColorType::RGBA => bit_depth == 8
            || bit_depth == 16,
    }
}

impl ImageView {
    /// The legality rules that are held against an image once its stream
    /// has ended. The bit depth must be one that the colour model allows. A
    /// greyscale image, with or without alpha, must have no palette; an
    /// indexed image must have one, with at least one entry and no more
    /// entries than 2 to the power of the bit depth.
    pub open spec fn legality(self) -> Result<(), PngError> {
        if !depth_is_legal(self.color_type, self.bit_depth) {
            Err(PngError::Format(FormatRule::BitDepth))
        } else {
            match self.color_type {
                ColorType::Greyscale | ColorType::GreyscaleAlpha => if self.plte is Some {
                    Err(PngError::Format(FormatRule::PaletteForbidden))
                } else {
                    Ok(())
                },
                ColorType::PaletteIndex => match self.plte {
                    None => Err(PngError::Format(FormatRule::PaletteMissing)),
                    Some(entries) => if entries.len() == 0 {
                        Err(PngError::Format(FormatRule::PaletteEmpty))
                    } else if entries.len() > pow2(self.bit_depth as nat) {
                        Err(PngError::Format(FormatRule::PaletteTooLong))
                    } else {
                        Ok(())
                    },
                },
                ColorType::RGB | ColorType::RGBA => Ok(()),
            }
        }
    }

    /// What holds of every image that comes out of a successful decode: it
    /// is legal, background and transparency fit its colour model, and its
    /// data is `height` rows of raw samples.
    pub open spec fn wf(self) -> bool {
        &&& self.legality() is Ok
        &&& self.background matches Some(background) ==> background_fits(
            self.color_type,
            background,
        )
        &&& self.transparancy matches Some(transparency) ==> transparency_fits(
            self.color_type,
            self.plte,
            transparency,
        )
        &&& self.data.len() == self.height * self.row_len()
    }
}

fn check_depth(color_type: ColorType, bit_depth: u8) -> (legal: bool)
    ensures
        legal == depth_is_legal(color_type, bit_depth),
{
    match color_type {
        ColorType::Greyscale => bit_depth == 1 || bit_depth == 2 || bit_depth == 4 || bit_depth
            == 8 || bit_depth == 16,
        ColorType::PaletteIndex => bit_depth == 1 || bit_depth == 2 || bit_depth == 4
            || bit_depth == 8,
        ColorType::RGB | ColorType::GreyscaleAlpha | ColorType::RGBA => bit_depth == 8
            || bit_depth == 16,
    }
}

impl Image {
    /// Holds the image against the legality rules of its colour model.
    pub fn check_legality(&self) -> (res: Result<(), PngError>)
        ensures
            res == self@.legality(),
    {
        if !check_depth(self.color_type, self.bit_depth) {
            return Err(PngError::Format(FormatRule::BitDepth));
        }
        match self.color_type {
            ColorType::Greyscale | ColorType::GreyscaleAlpha => {
                if self.plte.is_some() {
                    return Err(PngError::Format(FormatRule::PaletteForbidden));
                }
            },
            ColorType::PaletteIndex => match &self.plte {
                None => {
                    return Err(PngError::Format(FormatRule::PaletteMissing));
                },
                Some(entries) => {
                    let capacity: usize = 1usize << self.bit_depth;
                    assert(capacity == pow2(self.bit_depth as nat)) by {
                        lemma2_to64();
                        let depth = self.bit_depth;
                        assert(depth == 1 || depth == 2 || depth == 4 || depth == 8);
                        assert(1usize << 1u8 == 2) by (bit_vector);
                        assert(1usize << 2u8 == 4) by (bit_vector);
                        assert(1usize << 4u8 == 16) by (bit_vector);
                        assert(1usize << 8u8 == 256) by (bit_vector);
                    }
                    if entries.len() == 0 {
                        return Err(PngError::Format(FormatRule::PaletteEmpty));
                    }
                    if entries.len() > capacity {
                        return Err(PngError::Format(FormatRule::PaletteTooLong));
                    }
                },
            },
            ColorType::RGB | ColorType::RGBA => {},
        }
        Ok(())
    }
}

} // verus!
