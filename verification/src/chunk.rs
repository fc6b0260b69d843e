//! The chunk stream: one length-prefixed, typed record after another.

use crate::bytes::{be_u16, be_u32, read_be_u16, read_be_u32};
use crate::error::{FormatRule, PngError};
use vstd::prelude::*;
use vstd::slice::slice_subrange;

verus! {

/// The eight bytes with which every stream begins.
pub open spec fn signature() -> Seq<u8> {
    seq![137u8, 80u8, 78u8, 71u8, 13u8, 10u8, 26u8, 10u8]
}

/// Whether `data` begins with the signature.
pub open spec fn has_signature(data: Seq<u8>) -> bool {
    data.len() >= 8 && data.subrange(0, 8) == signature()
}

pub const TAG_IHDR: u32 = 0x4948_4452;

pub const TAG_PLTE: u32 = 0x504C_5445;

pub const TAG_IDAT: u32 = 0x4944_4154;

pub const TAG_IEND: u32 = 0x4945_4E44;

pub const TAG_BKGD: u32 = 0x624B_4744;

pub const TAG_CHRM: u32 = 0x6348_524D;

pub const TAG_GAMA: u32 = 0x6741_4D41;

pub const TAG_HIST: u32 = 0x6849_5354;

pub const TAG_PHYS: u32 = 0x7048_5973;

pub const TAG_SBIT: u32 = 0x7342_4954;

pub const TAG_TEXT: u32 = 0x7445_5874;

pub const TAG_TIME: u32 = 0x7449_4D45;

pub const TAG_TRNS: u32 = 0x7452_4E53;

pub const TAG_ZTXT: u32 = 0x7A54_5874;

/// How the samples of a pixel are to be read.
#[derive(Clone, Copy, Debug, PartialEq, Eq, Structural)]
pub enum ColorType {
    Greyscale,
    RGB,
    PaletteIndex,
    GreyscaleAlpha,
    RGBA,
}

impl ColorType {
    /// The colour model that a header byte stands for, if any.
    pub open spec fn of_byte(byte: u8) -> Option<ColorType> {
        if byte == 0 {
            Some(ColorType::Greyscale)
        } else if byte == 2 {
            Some(ColorType::RGB)
        } else if byte == 3 {
            Some(ColorType::PaletteIndex)
        } else if byte == 4 {
            Some(ColorType::GreyscaleAlpha)
        } else if byte == 6 {
            Some(ColorType::RGBA)
        } else {
            None
        }
    }

    /// The number of samples that make up one pixel.
    pub open spec fn channels(self) -> int {
        match self {
            ColorType::Greyscale => 1,
            ColorType::RGB => 3,
            ColorType::PaletteIndex => 1,
            ColorType::GreyscaleAlpha => 2,
            ColorType::RGBA => 4,
        }
    }

    /// The number of samples that make up one pixel.
    pub fn channel_count(&self) -> (n: u8)
        ensures
            n == self.channels(),
    {
        match self {
            ColorType::Greyscale => 1,
            ColorType::RGB => 3,
            ColorType::PaletteIndex => 1,
            ColorType::GreyscaleAlpha => 2,
            ColorType::RGBA => 4,
        }
    }

    /// The name of the colour model in words.
    pub fn name(&self) -> (text: &'static str)
        ensures
            text@ == match *self {
                ColorType::Greyscale => "Greyscale"@,
                ColorType::RGB => "RGB"@,
                ColorType::PaletteIndex => "Palette Index"@,
                ColorType::GreyscaleAlpha => "Greyscale with Alpha"@,
                ColorType::RGBA => "RGB with Alpha"@,
            },
    {
        match self {
            ColorType::Greyscale => "Greyscale",
            ColorType::RGB => "RGB",
            ColorType::PaletteIndex => "Palette Index",
            ColorType::GreyscaleAlpha => "Greyscale with Alpha",
            ColorType::RGBA => "RGB with Alpha",
        }
    }
}

/// One colour of a palette.
#[derive(Clone, Copy, Debug, PartialEq, Eq, Structural)]
pub struct PLTEEntry {
    pub red: u8,
    pub green: u8,
    pub blue: u8,
}

/// The colour against which an image is meant to be shown.
#[derive(Clone, Copy, Debug, PartialEq, Eq, Structural)]
pub enum BKGD {
    PaletteIndex(u8),
    Greyscale(u16),
    RGB(u16, u16, u16),
}

/// The fields of the header chunk.
#[derive(Clone, Copy, Debug, PartialEq, Eq, Structural)]
pub struct IHDRData {
    /// width in pixels
    pub width: u32,
    /// height in pixels
    pub height: u32,
    /// the number of bits per sample or per palette index (not per pixel)
    pub bit_depth: u8,
    /// the interpretation of the image data
    pub color_type: ColorType,
    /// whether the rows are stored in interlaced order
    pub interlace_method: bool,
}

impl IHDRData {
    /// What a header payload holds: width and height as big-endian 32-bit
    /// integers at 0 and 4, the bit depth at 8, the colour model at 9, and
    /// the interlace flag at 12.
    pub open spec fn parse(payload: Seq<u8>) -> Result<IHDRData, PngError> {
        if payload.len() != 13 {
            Err(PngError::Format(FormatRule::HeaderLength))
        } else {
            match ColorType::of_byte(payload[9]) {
                None => Err(PngError::Format(FormatRule::ColorModel)),
                Some(color_type) => Ok(
                    IHDRData {
                        width: be_u32(payload, 0) as u32,
                        height: be_u32(payload, 4) as u32,
                        bit_depth: payload[8],
                        color_type,
                        interlace_method: payload[12] == 1,
                    },
                ),
            }
        }
    }

    /// Decodes a header payload.
    pub fn from(data: &[u8]) -> (res: Result<IHDRData, PngError>)
        ensures
            res == IHDRData::parse(data@),
    {
        if data.len() != 13 {
            return Err(PngError::Format(FormatRule::HeaderLength));
        }
        let color_type = match data[9] {
            0 => ColorType::Greyscale,
            2 => ColorType::RGB,
            3 => ColorType::PaletteIndex,
            4 => ColorType::GreyscaleAlpha,
            6 => ColorType::RGBA,
            _ => {
                return Err(PngError::Format(FormatRule::ColorModel));
            },
        };
        Ok(
            IHDRData {
                width: read_be_u32(data, 0),
                height: read_be_u32(data, 4),
                bit_depth: data[8],
                color_type,
                interlace_method: data[12] == 1,
            },
        )
    }
}

/// What a chunk holds, as a mathematical value.
pub enum Record {
    IHDR(IHDRData),
    PLTE(Seq<PLTEEntry>),
    IDAT(Seq<u8>),
    IEND,
    BKGD(BKGD),
    CHRM,
    GAMA,
    HIST,
    PHYS,
    SBIT,
    TEXT,
    TIME,
    TRNS(Seq<u8>),
    ZTXT,
}

/// One chunk of the stream. Image data and transparency payloads are views
/// into the buffer that is being read.
#[derive(Debug)]
pub enum Chunk<'a> {
    IHDR(IHDRData),
    PLTE(Vec<PLTEEntry>),
    IDAT(&'a [u8]),
    IEND,
    BKGD(BKGD),
    CHRM,
    GAMA,
    HIST,
    PHYS,
    SBIT,
    TEXT,
    TIME,
    TRNS(&'a [u8]),
    ZTXT,
}

impl<'a> View for Chunk<'a> {
    type V = Record;

    open spec fn view(&self) -> Record {
        match *self {
            Chunk::IHDR(header) => Record::IHDR(header),
            Chunk::PLTE(entries) => Record::PLTE(entries@),
            Chunk::IDAT(payload) => Record::IDAT(payload@),
            Chunk::IEND => Record::IEND,
            Chunk::BKGD(background) => Record::BKGD(background),
            Chunk::CHRM => Record::CHRM,
            Chunk::GAMA => Record::GAMA,
            Chunk::HIST => Record::HIST,
            Chunk::PHYS => Record::PHYS,
            Chunk::SBIT => Record::SBIT,
            Chunk::TEXT => Record::TEXT,
            Chunk::TIME => Record::TIME,
            Chunk::TRNS(payload) => Record::TRNS(payload@),
            Chunk::ZTXT => Record::ZTXT,
        }
    }
}

/// The palette that a payload of whole 3-byte groups holds.
pub open spec fn palette_of(payload: Seq<u8>) -> Seq<PLTEEntry> {
    Seq::new(
        (payload.len() / 3) as nat,
        |i: int|
            PLTEEntry { red: payload[3 * i], green: payload[3 * i + 1], blue: payload[3 * i + 2] },
    )
}

/// The background that a payload of 1, 2 or 6 bytes holds.
pub open spec fn background_of(payload: Seq<u8>) -> Result<BKGD, PngError> {
    if payload.len() == 1 {
        Ok(BKGD::PaletteIndex(payload[0]))
    } else if payload.len() == 2 {
        Ok(BKGD::Greyscale(be_u16(payload, 0) as u16))
    } else if payload.len() == 6 {
        Ok(
            BKGD::RGB(
                be_u16(payload, 0) as u16,
                be_u16(payload, 2) as u16,
                be_u16(payload, 4) as u16,
            ),
        )
    } else {
        Err(PngError::Format(FormatRule::BackgroundLength))
    }
}

/// The record that a payload under a given tag decodes to. A tag outside the
/// recognised ones is an error, whatever its letter case.
pub open spec fn decode_payload(tag: int, payload: Seq<u8>) -> Result<Record, PngError> {
    if tag == TAG_IHDR {
        match IHDRData::parse(payload) {
            Ok(header) => Ok(Record::IHDR(header)),
            Err(e) => Err(e),
        }
    } else if tag == TAG_PLTE {
        if payload.len() % 3 != 0 {
            Err(PngError::Format(FormatRule::PaletteLength))
        } else {
            Ok(Record::PLTE(palette_of(payload)))
        }
    } else if tag == TAG_IDAT {
        Ok(Record::IDAT(payload))
    } else if tag == TAG_IEND {
        if payload.len() != 0 {
            Err(PngError::Format(FormatRule::EndNotEmpty))
        } else {
            Ok(Record::IEND)
        }
    } else if tag == TAG_BKGD {
        match background_of(payload) {
            Ok(background) => Ok(Record::BKGD(background)),
            Err(e) => Err(e),
        }
    } else if tag == TAG_CHRM {
        Ok(Record::CHRM)
    } else if tag == TAG_GAMA {
        Ok(Record::GAMA)
    } else if tag == TAG_HIST {
        Ok(Record::HIST)
    } else if tag == TAG_PHYS {
        Ok(Record::PHYS)
    } else if tag == TAG_SBIT {
        Ok(Record::SBIT)
    } else if tag == TAG_TEXT {
        Ok(Record::TEXT)
    } else if tag == TAG_TIME {
        Ok(Record::TIME)
    } else if tag == TAG_TRNS {
        Ok(Record::TRNS(payload))
    } else if tag == TAG_ZTXT {
        Ok(Record::ZTXT)
    } else {
        Err(PngError::Format(FormatRule::UnknownChunk))
    }
}

/// The chunk that starts at `offset`: a big-endian length, a tag, that many
/// payload bytes and four checksum bytes, which are skipped unread. The
/// payload is decoded before the checksum is looked for.
pub open spec fn record_at(data: Seq<u8>, offset: int) -> Result<Record, PngError> {
    if offset < 0 || offset + 8 > data.len() {
        Err(PngError::Format(FormatRule::Truncated))
    } else if offset + 8 + be_u32(data, offset) > data.len() {
        Err(PngError::Format(FormatRule::Truncated))
    } else {
        let start = offset + 8;
        let end = start + be_u32(data, offset);
        match decode_payload(be_u32(data, offset + 4), data.subrange(start, end)) {
            Err(e) => Err(e),
            Ok(record) => if end + 4 > data.len() {
                Err(PngError::Format(FormatRule::Truncated))
            } else {
                Ok(record)
            },
        }
    }
}

/// Where the chunk after the one at `offset` starts.
pub open spec fn next_offset(data: Seq<u8>, offset: int) -> int {
    offset + 12 + be_u32(data, offset)
}

fn read_palette(payload: &[u8]) -> (entries: Vec<PLTEEntry>)
    requires
        payload@.len() % 3 == 0,
    ensures
        entries@ == palette_of(payload@),
{
    let mut entries: Vec<PLTEEntry> = Vec::new();
    let mut idx: usize = 0;
    while idx < payload.len()
        invariant
            payload@.len() % 3 == 0,
            idx % 3 == 0,
            idx <= payload@.len(),
            entries@.len() == idx / 3,
            forall|i: int| 0 <= i < entries@.len() ==> entries@[i] == palette_of(payload@)[i],
        decreases payload@.len() - idx,
    {
        entries.push(
            PLTEEntry { red: payload[idx], green: payload[idx + 1], blue: payload[idx + 2] },
        );
        idx += 3;
    }
    assert(entries@ =~= palette_of(payload@));
    entries
}

fn read_background(payload: &[u8]) -> (res: Result<BKGD, PngError>)
    ensures
        res == background_of(payload@),
{
    if payload.len() == 1 {
        Ok(BKGD::PaletteIndex(payload[0]))
    } else if payload.len() == 2 {
        Ok(BKGD::Greyscale(read_be_u16(payload, 0)))
    } else if payload.len() == 6 {
        Ok(BKGD::RGB(read_be_u16(payload, 0), read_be_u16(payload, 2), read_be_u16(payload, 4)))
    } else {
        Err(PngError::Format(FormatRule::BackgroundLength))
    }
}

/// A cursor over the chunks of a buffer.
#[derive(Debug)]
pub struct ImageHelper<'a> {
    /// Where the next chunk starts.
    pub offset: usize,
    /// The whole buffer, signature included.
    pub data: &'a [u8],
}

impl<'a> Chunk<'a> {
    /// Decodes a payload under its tag.
    pub fn decode(tag: u32, payload: &'a [u8]) -> (res: Result<Chunk<'a>, PngError>)
        ensures
            match decode_payload(tag as int, payload@) {
                Ok(record) => res matches Ok(chunk) && chunk@ == record,
                Err(e) => res == Err::<Chunk<'a>, PngError>(e),
            },
    {
        match tag {
            TAG_IHDR => match IHDRData::from(payload) {
                Ok(header) => Ok(Chunk::IHDR(header)),
                Err(e) => Err(e),
            },
            TAG_PLTE => {
                if payload.len() % 3 != 0 {
                    Err(PngError::Format(FormatRule::PaletteLength))
                } else {
                    Ok(Chunk::PLTE(read_palette(payload)))
                }
            },
            TAG_IDAT => Ok(Chunk::IDAT(payload)),
            TAG_IEND => {
                if payload.len() != 0 {
                    Err(PngError::Format(FormatRule::EndNotEmpty))
                } else {
                    Ok(Chunk::IEND)
                }
            },
            TAG_BKGD => match read_background(payload) {
                Ok(background) => Ok(Chunk::BKGD(background)),
                Err(e) => Err(e),
            },
            TAG_CHRM => Ok(Chunk::CHRM),
            TAG_GAMA => Ok(Chunk::GAMA),
            TAG_HIST => Ok(Chunk::HIST),
            TAG_PHYS => Ok(Chunk::PHYS),
            TAG_SBIT => Ok(Chunk::SBIT),
            TAG_TEXT => Ok(Chunk::TEXT),
            TAG_TIME => Ok(Chunk::TIME),
            TAG_TRNS => Ok(Chunk::TRNS(payload)),
            TAG_ZTXT => Ok(Chunk::ZTXT),
            _ => Err(PngError::Format(FormatRule::UnknownChunk)),
        }
    }

    /// Reads the chunk under the cursor and moves the cursor behind it. When
    /// the chunk cannot be read, the cursor stays where it was.
    pub fn new(image: &mut ImageHelper<'a>) -> (res: Result<Chunk<'a>, PngError>)
        ensures
            final(image).data == old(image).data,
            match record_at(old(image).data@, old(image).offset as int) {
                Ok(record) => {
                    &&& res matches Ok(chunk) && chunk@ == record
                    &&& final(image).offset == next_offset(
                        old(image).data@,
                        old(image).offset as int,
                    )
                },
                Err(e) => res == Err::<Chunk<'a>, PngError>(e) && final(image).offset == old(
                    image,
                ).offset,
            },
    {
        let data: &'a [u8] = image.data;
        let offset: usize = image.offset;
        if data.len() < offset || data.len() - offset < 8 {
            return Err(PngError::Format(FormatRule::Truncated));
        }
        let len: u32 = read_be_u32(data, offset);
        let tag: u32 = read_be_u32(data, offset + 4);
        let start: usize = offset + 8;
        if data.len() - start < len as usize {
            return Err(PngError::Format(FormatRule::Truncated));
        }
        let end: usize = start + len as usize;
        let chunk = match Chunk::decode(tag, slice_subrange(data, start, end)) {
            Ok(chunk) => chunk,
            Err(e) => {
                return Err(e);
            },
        };
        // the checksum is skipped, not verified
        if data.len() - end < 4 {
            return Err(PngError::Format(FormatRule::Truncated));
        }
        image.offset = end + 4;
        Ok(chunk)
    }
}

impl<'a> ImageHelper<'a> {
    /// Starts reading `data` behind its signature.
    pub fn from(data: &'a [u8]) -> (res: Result<ImageHelper<'a>, PngError>)
        ensures
            has_signature(data@) ==> (res matches Ok(reader) && reader.offset == 8 && reader.data
                == data),
            !has_signature(data@) ==> res == Err::<ImageHelper<'a>, PngError>(PngError::Signature),
    {
        if data.len() < 8 || data[0] != 137 || data[1] != 80 || data[2] != 78 || data[3] != 71
            || data[4] != 13 || data[5] != 10 || data[6] != 26 || data[7] != 10 {
            proof {
                if data@.len() >= 8 {
                    let head = data@.subrange(0, 8);
                    assert(head[0] == data@[0] && head[1] == data@[1] && head[2] == data@[2]
                        && head[3] == data@[3] && head[4] == data@[4] && head[5] == data@[5]
                        && head[6] == data@[6] && head[7] == data@[7]);
                }
            }
            return Err(PngError::Signature);
        }
        assert(data@.subrange(0, 8) =~= signature());
        Ok(ImageHelper { offset: 8, data })
    }

    /// Reads the next chunk; `None` stands for the end-of-image chunk.
    pub fn next(&mut self) -> (res: Result<Option<Chunk<'a>>, PngError>)
        ensures
            final(self).data == old(self).data,
            match record_at(old(self).data@, old(self).offset as int) {
                Ok(record) => {
                    &&& final(self).offset == next_offset(old(self).data@, old(self).offset as int)
                    &&& record is IEND ==> res == Ok::<Option<Chunk<'a>>, PngError>(None)
                    &&& record !is IEND ==> (res matches Ok(Some(chunk)) && chunk@ == record)
                },
                Err(e) => res == Err::<Option<Chunk<'a>>, PngError>(e) && final(self).offset
                    == old(self).offset,
            },
    {
        match Chunk::new(self) {
            Err(e) => Err(e),
            Ok(Chunk::IEND) => Ok(None),
            Ok(chunk) => Ok(Some(chunk)),
        }
    }
}

} // verus!
