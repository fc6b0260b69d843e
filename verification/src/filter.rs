//! Scanline defiltering: the five per-row predictive filters and their inverse.

use crate::chunk::ColorType;
use crate::error::{FormatRule, PngError};
use crate::image::{bytes_per_pixel, row_bytes, Image, ImageView};
use vstd::prelude::*;
use vstd::slice::slice_subrange;

verus! {

/// Absolute value of an integer.
pub open spec fn abs(x: int) -> int {
    if x < 0 {
        -x
    } else {
        x
    }
}

/// One of the three neighbours from which a byte is predicted.
#[derive(Clone, Copy, Debug, PartialEq, Eq, Structural)]
pub enum Neighbour {
    Left,
    Above,
    UpperLeft,
}

/// The neighbour that the Paeth predictor picks.
///
/// With `p = left + above - upper_left`, the neighbour nearest to `p` is
/// chosen; on equal distance `left` is preferred to `above`, and `above` to
/// `upper_left`.
pub open spec fn paeth_choice(left: int, above: int, upper_left: int) -> Neighbour {
    let p = left + above - upper_left;
    let d_left = abs(p - left);
    let d_above = abs(p - above);
    let d_upper_left = abs(p - upper_left);
    if d_left <= d_above && d_left <= d_upper_left {
        Neighbour::Left
    } else if d_above <= d_upper_left {
        Neighbour::Above
    } else {
        Neighbour::UpperLeft
    }
}

/// The Paeth predictor: the value of the neighbour that is picked.
pub open spec fn paeth(left: int, above: int, upper_left: int) -> int {
    match paeth_choice(left, above, upper_left) {
        Neighbour::Left => left,
        Neighbour::Above => above,
        Neighbour::UpperLeft => upper_left,
    }
}

/// Three equal neighbours predict their common value.
pub proof fn lemma_paeth_of_equal_neighbours(x: int)
    ensures
        paeth(x, x, x) == x,
        paeth_choice(x, x, x) == Neighbour::Left,
{
}

/// Where the left and the upper-left neighbour are equal, the upper-left
/// one is never picked, and the prediction is the value above: the left
/// neighbour wins the tie if all three are equal, the one above otherwise.
pub proof fn lemma_paeth_left_equals_upper_left(a: int, b: int)
    ensures
        paeth_choice(a, b, a) != Neighbour::UpperLeft,
        paeth_choice(a, b, a) == Neighbour::Left <==> a == b,
        paeth(a, b, a) == b,
{
}

fn distance(p: i16, x: u8) -> (d: i16)
    requires
        -255 <= p <= 510,
    ensures
        d == abs(p - x),
{
    let diff: i16 = p - x as i16;
    if diff < 0 {
        -diff
    } else {
        diff
    }
}

/// Computes the Paeth predictor of three neighbouring bytes.
pub fn paeth_predictor(left: u8, top: u8, top_left: u8) -> (predicted: u8)
    ensures
        predicted == paeth(left as int, top as int, top_left as int),
{
    let p: i16 = left as i16 + top as i16 - top_left as i16;
    let pleft: i16 = distance(p, left);
    let ptop: i16 = distance(p, top);
    let ptop_left: i16 = distance(p, top_left);
    if pleft <= ptop && pleft <= ptop_left {
        left
    } else if ptop <= ptop_left {
        top
    } else {
        top_left
    }
}

/// The predictive filter that a scanline was written with.
#[derive(Clone, Copy, Debug, PartialEq, Eq, Structural)]
pub enum FilterType {
    NoFilter,
    Sub,
    Up,
    Average,
    Paeth,
}

impl FilterType {
    /// The filter that the leading byte of a scanline stands for, if any.
    pub open spec fn of_byte(byte: u8) -> Option<FilterType> {
        if byte == 0 {
            Some(FilterType::NoFilter)
        } else if byte == 1 {
            Some(FilterType::Sub)
        } else if byte == 2 {
            Some(FilterType::Up)
        } else if byte == 3 {
            Some(FilterType::Average)
        } else if byte == 4 {
            Some(FilterType::Paeth)
        } else {
            None
        }
    }

    /// What the filter predicts for a byte from its three neighbours.
    pub open spec fn predict(self, left: int, above: int, upper_left: int) -> int {
        match self {
            FilterType::NoFilter => 0,
            FilterType::Sub => left,
            FilterType::Up => above,
            FilterType::Average => (left + above) / 2,
            FilterType::Paeth => paeth(left, above, upper_left),
        }
    }

    /// Reads the leading byte of a scanline.
    pub fn from(byte: u8) -> (res: Result<FilterType, PngError>)
        ensures
            res == match FilterType::of_byte(byte) {
                Some(filter) => Ok::<FilterType, PngError>(filter),
                None => Err(PngError::Format(FormatRule::FilterType)),
            },
    {
        match byte {
            0 => Ok(FilterType::NoFilter),
            1 => Ok(FilterType::Sub),
            2 => Ok(FilterType::Up),
            3 => Ok(FilterType::Average),
            4 => Ok(FilterType::Paeth),
            _ => Err(PngError::Format(FormatRule::FilterType)),
        }
    }

    /// Computes the prediction for a byte from its three neighbours.
    pub fn predictor(&self, left: u8, above: u8, upper_left: u8) -> (predicted: u8)
        ensures
            predicted == self.predict(left as int, above as int, upper_left as int),
    {
        match self {
            FilterType::NoFilter => 0,
            FilterType::Sub => left,
            FilterType::Up => above,
            FilterType::Average => ((left as u16 + above as u16) / 2) as u8,
            FilterType::Paeth => paeth_predictor(left, above, upper_left),
        }
    }
}

/// The byte `bpp` places to the left of place `i` in a row; 0 where the row
/// does not reach that far.
pub open spec fn left_of(row: Seq<u8>, i: int, bpp: int) -> int {
    if 0 <= i - bpp < row.len() {
        row[i - bpp] as int
    } else {
        0
    }
}

/// The byte at place `i` of the row above; 0 where there is no such byte.
pub open spec fn above_of(prev: Seq<u8>, i: int) -> int {
    if 0 <= i < prev.len() {
        prev[i] as int
    } else {
        0
    }
}

/// A filtered byte brought back to its raw value: the sum of the byte and
/// the prediction, modulo 256.
pub open spec fn reconstruct(filter: FilterType, byte: u8, left: int, above: int, upper_left: int)
    -> u8 {
    ((byte + filter.predict(left, above, upper_left)) % 256) as u8
}

/// A raw byte as it is written under a filter: the byte less the
/// prediction, modulo 256.
pub open spec fn encode(filter: FilterType, byte: u8, left: int, above: int, upper_left: int)
    -> u8 {
    ((byte - filter.predict(left, above, upper_left)) % 256) as u8
}

/// The raw row that a filtered row `cur` stands for, given the raw row
/// `prev` above it (empty for the first row of an image) and the distance
/// `bpp` to the left neighbour. Each byte rests on the raw bytes before it.
pub open spec fn unfiltered(filter: FilterType, cur: Seq<u8>, prev: Seq<u8>, bpp: int) -> Seq<u8>
    decreases cur.len(),
{
    if cur.len() == 0 {
        Seq::empty()
    } else {
        let head = unfiltered(filter, cur.drop_last(), prev, bpp);
        let i = cur.len() - 1;
        head.push(
            reconstruct(
                filter,
                cur[i],
                left_of(head, i, bpp),
                above_of(prev, i),
                left_of(prev, i, bpp),
            ),
        )
    }
}

/// The row that a raw row is written as under a filter.
pub open spec fn filtered_row(filter: FilterType, raw: Seq<u8>, prev: Seq<u8>, bpp: int) -> Seq<
    u8,
> {
    Seq::new(
        raw.len(),
        |i: int|
            encode(filter, raw[i], left_of(raw, i, bpp), above_of(prev, i), left_of(prev, i, bpp)),
    )
}

/// A row comes out as long as it went in.
pub proof fn lemma_unfiltered_len(filter: FilterType, cur: Seq<u8>, prev: Seq<u8>, bpp: int)
    ensures
        unfiltered(filter, cur, prev, bpp).len() == cur.len(),
    decreases cur.len(),
{
    if cur.len() > 0 {
        lemma_unfiltered_len(filter, cur.drop_last(), prev, bpp);
    }
}

/// Reverses the filter of one scanline.
pub fn unfilter(filter: FilterType, cur: &[u8], prev: &[u8], bpp: usize) -> (raw: Vec<u8>)
    requires
        bpp >= 1,
    ensures
        raw@ == unfiltered(filter, cur@, prev@, bpp as int),
{
    let mut raw: Vec<u8> = Vec::new();
    let mut i: usize = 0;
    assert(cur@.take(0) =~= Seq::<u8>::empty());
    while i < cur.len()
        invariant
            bpp >= 1,
            i <= cur@.len(),
            raw@.len() == i,
            raw@ == unfiltered(filter, cur@.take(i as int), prev@, bpp as int),
        decreases cur@.len() - i,
    {
        let left: u8 = if i >= bpp {
            raw[i - bpp]
        } else {
            0
        };
        let above: u8 = if i < prev.len() {
            prev[i]
        } else {
            0
        };
        let upper_left: u8 = if i >= bpp && i - bpp < prev.len() {
            prev[i - bpp]
        } else {
            0
        };
        let byte: u8 = cur[i].wrapping_add(filter.predictor(left, above, upper_left));
        proof {
            let next = cur@.take(i + 1);
            assert(next.drop_last() =~= cur@.take(i as int));
            assert(next[i as int] == cur@[i as int]);
        }
        raw.push(byte);
        i += 1;
    }
    assert(cur@.take(cur@.len() as int) =~= cur@);
    raw
}

/// Unfiltering is the inverse of filtering: a raw row that is written
/// under any of the five filters, with the same row above and the same
/// distance to the left neighbour, is read back as it was.
pub proof fn lemma_unfilter_inverts_filter(
    filter: FilterType,
    raw: Seq<u8>,
    prev: Seq<u8>,
    bpp: int,
)
    requires
        bpp >= 1,
    ensures
        unfiltered(filter, filtered_row(filter, raw, prev, bpp), prev, bpp) == raw,
    decreases raw.len(),
{
    let written = filtered_row(filter, raw, prev, bpp);
    if raw.len() == 0 {
        assert(unfiltered(filter, written, prev, bpp) =~= raw);
    } else {
        let i = raw.len() - 1;
        assert(written.drop_last() =~= filtered_row(filter, raw.drop_last(), prev, bpp));
        lemma_unfilter_inverts_filter(filter, raw.drop_last(), prev, bpp);
        let head = unfiltered(filter, written.drop_last(), prev, bpp);
        assert(head == raw.drop_last());
        assert(left_of(head, i, bpp) == left_of(raw, i, bpp));
        let p = filter.predict(left_of(raw, i, bpp), above_of(prev, i), left_of(prev, i, bpp));
        assert(((((raw[i] - p) % 256) as u8) + p) % 256 == raw[i]);
        assert(unfiltered(filter, written, prev, bpp) =~= raw);
    }
}

/// The raw bytes of the first `rows` scanlines of a decompressed buffer in
/// which every scanline is one filter-type byte followed by `row_len`
/// filtered bytes. Each row is unfiltered against the raw row above it, the
/// first against nothing. `None` where one of these scanlines starts with a
/// byte that names no filter.
pub open spec fn unfiltered_rows(filtered: Seq<u8>, row_len: int, bpp: int, rows: nat) -> Option<
    Seq<u8>,
>
    decreases rows,
{
    if rows == 0 {
        Some(Seq::empty())
    } else {
        let r = rows - 1;
        let start = r * (row_len + 1);
        match unfiltered_rows(filtered, row_len, bpp, r as nat) {
            None => None,
            Some(done) => match FilterType::of_byte(filtered[start]) {
                None => None,
                Some(filter) => {
                    let prev = if r == 0 {
                        Seq::empty()
                    } else {
                        done.subrange(done.len() - row_len, done.len() as int)
                    };
                    let cur = filtered.subrange(start + 1, start + 1 + row_len);
                    Some(done + unfiltered(filter, cur, prev, bpp))
                },
            },
        }
    }
}

/// The raw samples that a decompressed buffer holds for an image of the
/// given header fields. The buffer must be exactly `height` scanlines long,
/// and every scanline must name its filter.
pub open spec fn defiltered(filtered: Seq<u8>, image: ImageView) -> Result<Seq<u8>, PngError> {
    if filtered.len() != image.height * (image.row_len() + 1) {
        Err(PngError::Format(FormatRule::ScanlineLength))
    } else {
        match unfiltered_rows(filtered, image.row_len(), image.bpp(), image.height as nat) {
            None => Err(PngError::Format(FormatRule::FilterType)),
            Some(raw) => Ok(raw),
        }
    }
}

/// Unfiltering `rows` scanlines yields `rows` rows of `row_len` bytes.
pub proof fn lemma_unfiltered_rows_len(filtered: Seq<u8>, row_len: int, bpp: int, rows: nat)
    requires
        row_len >= 0,
        filtered.len() >= rows * (row_len + 1),
    ensures
        unfiltered_rows(filtered, row_len, bpp, rows) matches Some(raw) ==> raw.len() == rows
            * row_len,
    decreases rows,
{
    if rows == 0 {
        assert(rows * row_len == 0) by (nonlinear_arith)
            requires
                rows == 0,
        ;
    } else {
        let r = (rows - 1) as nat;
        assert(r * (row_len + 1) + row_len + 1 == rows * (row_len + 1)) by (nonlinear_arith)
            requires
                r == rows - 1,
        ;
        assert(r * row_len + row_len == rows * row_len) by (nonlinear_arith)
            requires
                r == rows - 1,
        ;
        assert(r * (row_len + 1) >= 0) by (nonlinear_arith)
            requires
                r >= 0,
                row_len >= 0,
        ;
        lemma_unfiltered_rows_len(filtered, row_len, bpp, r);
        match unfiltered_rows(filtered, row_len, bpp, r) {
            None => {},
            Some(done) => match FilterType::of_byte(filtered[r * (row_len + 1)]) {
                None => {},
                Some(filter) => {
                    let start = r * (row_len + 1);
                    let prev = if r == 0 {
                        Seq::empty()
                    } else {
                        done.subrange(done.len() - row_len, done.len() as int)
                    };
                    let cur = filtered.subrange(start + 1, start + 1 + row_len);
                    lemma_unfiltered_len(filter, cur, prev, bpp);
                    assert(cur.len() == row_len);
                    assert(done.len() == r * row_len);
                    assert((done + unfiltered(filter, cur, prev, bpp)).len() == rows * row_len);
                },
            },
        }
    }
}

fn pixel_distance(color_type: ColorType, bit_depth: u8) -> (bpp: usize)
    ensures
        bpp == bytes_per_pixel(color_type, bit_depth),
        1 <= bpp <= 8,
{
    match color_type {
        ColorType::Greyscale => if bit_depth == 16 {
            2
        } else {
            1
        },
        ColorType::RGB => if bit_depth == 8 {
            3
        } else {
            6
        },
        ColorType::PaletteIndex => 1,
        ColorType::GreyscaleAlpha => if bit_depth == 8 {
            2
        } else {
            4
        },
        ColorType::RGBA => if bit_depth == 8 {
            4
        } else {
            8
        },
    }
}

fn row_length(width: u32, color_type: ColorType, bit_depth: u8) -> (len: u64)
    ensures
        len == row_bytes(width, color_type, bit_depth),
        len < 0x100_0000_0000,
{
    let channels: u8 = color_type.channel_count();
    assert(channels * bit_depth <= 1020) by (nonlinear_arith)
        requires
            0 <= channels <= 4,
            0 <= bit_depth <= 255,
    ;
    let bits_per_pixel: u64 = channels as u64 * bit_depth as u64;
    assert(width * bits_per_pixel <= 0xFFFF_FFFF * 1020) by (nonlinear_arith)
        requires
            0 <= width <= 0xFFFF_FFFF,
            0 <= bits_per_pixel <= 1020,
    ;
    (width as u64 * bits_per_pixel + 7) / 8
}

/// Reverses the filters of a decompressed buffer and appends the raw
/// samples to the data of `image`, whose header fields say how long a row is
/// and how far a pixel is from its left neighbour. On an error the image is
/// left as it was.
pub fn reverse_filter(filtered: Vec<u8>, image: &mut Image) -> (res: Result<(), PngError>)
    ensures
        match defiltered(filtered@, old(image)@) {
            Ok(raw) => res is Ok && final(image)@ == (ImageView {
                data: old(image)@.data + raw,
                ..old(image)@
            }),
            Err(e) => res == Err::<(), PngError>(e) && final(image)@ == old(image)@,
        },
{
    let bpp: usize = pixel_distance(image.color_type, image.bit_depth);
    let row_len: u64 = row_length(image.width, image.color_type, image.bit_depth);
    let height: u32 = image.height;
    assert(height * (row_len + 1) <= 0xFFFF_FFFF * 0x100_0000_0000) by (nonlinear_arith)
        requires
            0 <= height <= 0xFFFF_FFFF,
            0 <= row_len < 0x100_0000_0000,
    ;
    if filtered.len() as u128 != height as u128 * (row_len as u128 + 1) {
        return Err(PngError::Format(FormatRule::ScanlineLength));
    }
    let mut raw: Vec<u8> = Vec::new();
    if height > 0 {
        assert(row_len + 1 <= height * (row_len + 1)) by (nonlinear_arith)
            requires
                height >= 1,
                row_len >= 0,
        ;
        let row_len: usize = row_len as usize;
        let mut prev: Vec<u8> = Vec::new();
        let mut r: u32 = 0;
        let mut start: usize = 0;
        while r < height
            invariant
                *image == *old(image),
                height == image.height,
                row_len == image@.row_len(),
                bpp == image@.bpp(),
                1 <= bpp <= 8,
                r <= height,
                filtered@.len() == height * (row_len + 1),
                start == r * (row_len + 1),
                unfiltered_rows(filtered@, row_len as int, bpp as int, r as nat) == Some(raw@),
                raw@.len() == r * row_len,
                prev@ == if r == 0 {
                    Seq::<u8>::empty()
                } else {
                    raw@.subrange(raw@.len() - row_len, raw@.len() as int)
                },
            decreases height - r,
        {
            proof {
                assert((r + 1) * (row_len + 1) == r * (row_len + 1) + row_len + 1)
                    by (nonlinear_arith);
                assert((r + 1) * (row_len + 1) <= height * (row_len + 1)) by (nonlinear_arith)
                    requires
                        r + 1 <= height,
                        row_len >= 0,
                ;
                assert((r + 1) * row_len == r * row_len + row_len) by (nonlinear_arith);
            }
            let filter = match FilterType::from(filtered[start]) {
                Ok(filter) => filter,
                Err(e) => {
                    proof {
                        lemma_bad_filter_byte(
                            filtered@,
                            row_len as int,
                            bpp as int,
                            r as nat,
                            height as nat,
                        );
                    }
                    return Err(e);
                },
            };
            let cur = slice_subrange(filtered.as_slice(), start + 1, start + 1 + row_len);
            let row = unfilter(filter, cur, prev.as_slice(), bpp);
            proof {
                lemma_unfiltered_len(filter, cur@, prev@, bpp as int);
            }
            let ghost done = raw@;
            raw.extend_from_slice(row.as_slice());
            assert(raw@ =~= done + row@);
            assert(raw@.subrange(raw@.len() - row_len, raw@.len() as int) =~= row@);
            prev = row;
            start = start + row_len + 1;
            r = r + 1;
        }
    }
    let mut raw = raw;
    image.data.append(&mut raw);
    Ok(())
}

/// Once a scanline names no filter, no number of further scanlines mends it.
proof fn lemma_bad_filter_byte(filtered: Seq<u8>, row_len: int, bpp: int, r: nat, rows: nat)
    requires
        r < rows,
        unfiltered_rows(filtered, row_len, bpp, r) is Some,
        FilterType::of_byte(filtered[r * (row_len + 1)]) is None,
    ensures
        unfiltered_rows(filtered, row_len, bpp, rows) is None,
    decreases rows,
{
    if rows > r + 1 {
        lemma_bad_filter_byte(filtered, row_len, bpp, r, (rows - 1) as nat);
    }
}

} // verus!
