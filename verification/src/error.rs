//! The ways in which decoding can fail.

use vstd::prelude::*;

verus! {

/// The rule of the format that a stream breaks.
#[derive(Clone, Copy, Debug, PartialEq, Eq, Structural)]
pub enum FormatRule {
    /// A length, tag, payload or checksum would lie beyond the end of the buffer.
    Truncated,
    /// The four-character tag is not one of the recognised chunk types.
    UnknownChunk,
    /// The header payload is not 13 bytes long.
    HeaderLength,
    /// The colour-model byte of the header is none of 0, 2, 3, 4, 6.
    ColorModel,
    /// The palette payload is not a whole number of 3-byte entries.
    PaletteLength,
    /// The end-of-image chunk carries a payload.
    EndNotEmpty,
    /// The background payload is not 1, 2 or 6 bytes long.
    BackgroundLength,
    /// The first chunk of the stream is not the header.
    HeaderMissing,
    /// A second header follows the first.
    HeaderRepeated,
    /// A second palette follows the first.
    PaletteRepeated,
    /// A palette follows a background chunk.
    PaletteAfterBackground,
    /// A background chunk follows image data.
    BackgroundAfterData,
    /// The background is not of the shape that the colour model asks for.
    BackgroundShape,
    /// A transparency chunk stands in an image whose pixels carry alpha.
    TransparencyForbidden,
    /// The transparency payload has the wrong size for the colour model.
    TransparencyLength,
    /// A transparency chunk of an indexed image precedes the palette.
    TransparencyBeforePalette,
    /// The bit depth is not legal for the colour model.
    BitDepth,
    /// A palette stands in a greyscale image.
    PaletteForbidden,
    /// An indexed image has no palette.
    PaletteMissing,
    /// An indexed image has a palette without entries.
    PaletteEmpty,
    /// The palette has more entries than the bit depth can address.
    PaletteTooLong,
    /// The decompressed data is not `height` scanlines of one filter byte and one row each.
    ScanlineLength,
    /// A scanline starts with a filter-type byte above 4.
    FilterType,
    /// The data of an image is not one byte for each channel of each pixel.
    DataLength,
    /// A sample of an indexed image refers to a palette entry that does not exist.
    PaletteIndex,
}

/// Why an image could not be decoded.
#[derive(Clone, Copy, Debug, PartialEq, Eq, Structural)]
pub enum PngError {
    /// The buffer does not begin with the eight signature bytes.
    Signature,
    /// The stream breaks a structural or legality rule.
    Format(FormatRule),
    /// The compressed image data is corrupt or truncated.
    Decompression,
    /// The image is legal, but its bit depth is not one that can be reduced to intensities.
    UnsupportedDepth,
}

} // verus!
