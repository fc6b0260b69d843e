//! The intensity grid: one grey value for each pixel of an image.

use crate::chunk::ColorType;
use crate::decode::{decoded, lemma_sample_count};
use crate::error::{FormatRule, PngError};
use crate::image::{Image, ImageView};
use vstd::prelude::*;

verus! {

/// A grid of intensities, `height` rows of `width` values each.
#[derive(Clone, Debug, PartialEq, Eq)]
pub struct Img {
    pub grid: Vec<Vec<u8>>,
}

impl View for Img {
    type V = Seq<Seq<u8>>;

    open spec fn view(&self) -> Seq<Seq<u8>> {
        Seq::new(self.grid@.len(), |r: int| self.grid@[r]@)
    }
}

/// The intensity of the pixel whose first sample stands at `at` in the data
/// of an image of bit depth 8: the mean of its samples, rounded down; for
/// an indexed image the mean of the three channels of the palette entry
/// that the sample names, and `None` where there is no such entry.
pub open spec fn intensity_at(image: ImageView, at: int) -> Option<u8> {
    let data = image.data;
    match image.color_type {
        ColorType::Greyscale => Some(data[at]),
        ColorType::RGB => Some(((data[at] + data[at + 1] + data[at + 2]) / 3) as u8),
        ColorType::PaletteIndex => match image.plte {
            Some(entries) if data[at] < entries.len() => {
                let entry = entries[data[at] as int];
                Some(((entry.red + entry.green + entry.blue) / 3) as u8)
            },
            _ => None,
        },
        ColorType::GreyscaleAlpha => Some(((data[at] + data[at + 1]) / 2) as u8),
        ColorType::RGBA => Some(
            ((data[at] + data[at + 1] + data[at + 2] + data[at + 3]) / 4) as u8,
        ),
    }
}

/// The intensity of the `p`-th pixel in row-major order.
pub open spec fn pixel(image: ImageView, p: int) -> Option<u8> {
    intensity_at(image, p * image.color_type.channels())
}

/// The intensity grid of an image. Only bit depth 8 can be reduced. The
/// data must hold one byte for every channel of every pixel, and in an
/// indexed image every sample must name a palette entry.
pub open spec fn luminance(image: ImageView) -> Result<Seq<Seq<u8>>, PngError> {
    if image.bit_depth != 8 {
        Err(PngError::UnsupportedDepth)
    } else if image.data.len() != image.width * image.height * image.color_type.channels() {
        Err(PngError::Format(FormatRule::DataLength))
    } else if exists|p: int| 0 <= p < image.width * image.height && (#[trigger] pixel(image, p)) is None {
        Err(PngError::Format(FormatRule::PaletteIndex))
    } else {
        Ok(
            Seq::new(
                image.height as nat,
                |r: int|
                    Seq::new(
                        image.width as nat,
                        |c: int| pixel(image, r * image.width + c)->Some_0,
                    ),
            ),
        )
    }
}

fn intensity(image: &Image, at: usize) -> (res: Option<u8>)
    requires
        at + image.color_type.channels() <= image.data.len(),
    ensures
        res == intensity_at(image@, at as int),
{
    assert(1 <= image.color_type.channels() <= 4);
    match image.color_type {
        ColorType::Greyscale => Some(image.data[at]),
        ColorType::RGB => Some(
            ((image.data[at] as u32 + image.data[at + 1] as u32 + image.data[at + 2] as u32)
                / 3) as u8,
        ),
        ColorType::PaletteIndex => match &image.plte {
            None => None,
            Some(plte) => {
                let index: usize = image.data[at] as usize;
                if index < plte.len() {
                    let entry = &plte[index];
                    Some(((entry.red as u32 + entry.green as u32 + entry.blue as u32) / 3) as u8)
                } else {
                    None
                }
            },
        },
        ColorType::GreyscaleAlpha => Some(
            ((image.data[at] as u16 + image.data[at + 1] as u16) / 2) as u8,
        ),
        ColorType::RGBA => Some(
            ((image.data[at] as u32 + image.data[at + 1] as u32 + image.data[at + 2] as u32
                + image.data[at + 3] as u32) / 4) as u8,
        ),
    }
}

impl Img {
    /// Reduces a decoded image to its intensity grid.
    pub fn from_image(image: &Image) -> (res: Result<Img, PngError>)
        ensures
            match luminance(image@) {
                Ok(grid) => res matches Ok(img) && img@ == grid,
                Err(e) => res == Err::<Img, PngError>(e),
            },
    {
        if image.bit_depth != 8 {
            return Err(PngError::UnsupportedDepth);
        }
        let channels: usize = image.color_type.channel_count() as usize;
        let width: usize = image.width as usize;
        let height: usize = image.height as usize;
        assert(width * height * channels <= 0xFFFF_FFFF * 0xFFFF_FFFF * 4) by (nonlinear_arith)
            requires
                0 <= width <= 0xFFFF_FFFF,
                0 <= height <= 0xFFFF_FFFF,
                0 <= channels <= 4,
        ;
        assert(width * height <= 0xFFFF_FFFF * 0xFFFF_FFFF) by (nonlinear_arith)
            requires
                0 <= width <= 0xFFFF_FFFF,
                0 <= height <= 0xFFFF_FFFF,
        ;
        if image.data.len() as u128 != width as u128 * height as u128 * channels as u128 {
            return Err(PngError::Format(FormatRule::DataLength));
        }
        let mut grid: Vec<Vec<u8>> = Vec::new();
        let mut p: usize = 0;
        let mut r: usize = 0;
        while r < height
            invariant
                image.bit_depth == 8,
                channels == image.color_type.channels(),
                width == image.width,
                height == image.height,
                image.data.len() == width * height * channels,
                r <= height,
                p == r * width,
                grid@.len() == r,
                forall|q: int| 0 <= q < p ==> (#[trigger] pixel(image@, q)) is Some,
                forall|i: int| 0 <= i < r ==> (#[trigger] grid@[i])@.len() == width,
                forall|i: int, j: int|
                    0 <= i < r && 0 <= j < width ==> (#[trigger] grid@[i]@[j]) == pixel(
                        image@,
                        i * width + j,
                    )->Some_0,
            decreases height - r,
        {
            let mut row: Vec<u8> = Vec::new();
            let mut c: usize = 0;
            while c < width
                invariant
                    image.bit_depth == 8,
                    channels == image.color_type.channels(),
                    width == image.width,
                    height == image.height,
                    image.data.len() == width * height * channels,
                    r < height,
                    c <= width,
                    p == r * width + c,
                    row@.len() == c,
                    forall|q: int| 0 <= q < p ==> (#[trigger] pixel(image@, q)) is Some,
                    forall|j: int|
                        0 <= j < c ==> (#[trigger] row@[j]) == pixel(image@, r * width + j)->Some_0,
                decreases width - c,
            {
                proof {
                    assert(p + 1 <= width * height) by (nonlinear_arith)
                        requires
                            p == r * width + c,
                            r < height,
                            c < width,
                    ;
                    assert((p + 1) * channels <= width * height * channels) by (nonlinear_arith)
                        requires
                            p + 1 <= width * height,
                            channels >= 0,
                    ;
                    assert((p + 1) * channels == p * channels + channels) by (nonlinear_arith);
                    assert(p + 1 <= (p + 1) * channels) by (nonlinear_arith)
                        requires
                            p >= 0,
                            channels >= 1,
                    ;
                }
                let value: u8 = match intensity(image, p * channels) {
                    Some(value) => value,
                    None => {
                        assert(pixel(image@, p as int) is None);
                        return Err(PngError::Format(FormatRule::PaletteIndex));
                    },
                };
                row.push(value);
                p += 1;
                c += 1;
            }
            grid.push(row);
            proof {
                assert((r + 1) * width == r * width + width) by (nonlinear_arith);
            }
            r += 1;
        }
        let img = Img { grid };
        proof {
            assert(p == width * height) by (nonlinear_arith)
                requires
                    p == r * width,
                    r == height,
            ;
            let expected = luminance(image@)->Ok_0;
            assert(luminance(image@) is Ok);
            assert(img@.len() == expected.len());
            assert forall|i: int| 0 <= i < img@.len() implies img@[i] =~= expected[i] by {
                assert(img.grid@[i]@.len() == width);
                assert forall|j: int| 0 <= j < width implies img@[i][j] == expected[i][j] by {
                    assert(img.grid@[i]@[j] == pixel(image@, i * width + j)->Some_0);
                }
            }
            assert(img@ =~= expected);
        }
        Ok(img)
    }

    /// Decodes the bytes of a PNG file and reduces the image to its
    /// intensity grid.
    pub fn new(data: &[u8]) -> (res: Result<Img, PngError>)
        ensures
            match decoded(data@) {
                Err(e) => res == Err::<Img, PngError>(e),
                Ok(image) => match luminance(image) {
                    Ok(grid) => res matches Ok(img) && img@ == grid,
                    Err(e) => res == Err::<Img, PngError>(e),
                },
            },
    {
        let image = match Image::from(data) {
            Ok(image) => image,
            Err(e) => {
                return Err(e);
            },
        };
        Img::from_image(&image)
    }
}

/// The data of a well-formed image is never of the wrong length for the
/// reduction: an image that comes out of a decode is reduced unless its bit
/// depth is not 8 or one of its samples names no palette entry.
pub proof fn lemma_well_formed_has_data_length(image: ImageView)
    requires
        image.wf(),
    ensures
        luminance(image) != Err::<Seq<Seq<u8>>, PngError>(
            PngError::Format(FormatRule::DataLength),
        ),
{
    if image.bit_depth == 8 {
        lemma_sample_count(image);
    }
}

/// The characters by which intensities are shown, in rising order.
pub open spec fn ramp() -> Seq<char> {
    " `^\",:;Il!i~+_-?][}{1)(|\\/tfjrxnuvczXYUJCLQ0OZmwqpdbkhao*#MW&8%B@$"@
}

/// The place in the ramp that stands for an intensity: 66 steps over the
/// range of a byte, the last one folded into the one before.
pub open spec fn ramp_index(intensity: u8) -> int {
    if 66 * intensity / 255 > 65 {
        65
    } else {
        66 * intensity / 255
    }
}

/// The character that stands for an intensity.
pub fn glyph(intensity: u8) -> (c: char)
    ensures
        c == ramp()[ramp_index(intensity)],
{
    let chars = " `^\",:;Il!i~+_-?][}{1)(|\\/tfjrxnuvczXYUJCLQ0OZmwqpdbkhao*#MW&8%B@$";
    proof {
        reveal_strlit(" `^\",:;Il!i~+_-?][}{1)(|\\/tfjrxnuvczXYUJCLQ0OZmwqpdbkhao*#MW&8%B@$");
    }
    let idx: usize = ((66u16 * intensity as u16) / 255) as usize;
    let idx: usize = if idx > 65 {
        65
    } else {
        idx
    };
    chars.get_char(idx)
}

} // verus!
