//! Simple transparency: what a transparency payload means under each colour model.

use crate::bytes::{be_u16, read_be_u16};
use crate::error::{FormatRule, PngError};
use vstd::prelude::*;

verus! {

/// Transparency as a mathematical value.
pub enum TransparancyView {
    PaletteIndex(Seq<u8>),
    Greyscale(u16),
    RGB(u16, u16, u16),
}

/// Which samples of an image are transparent.
#[derive(Clone, Debug, PartialEq, Eq)]
pub enum Transparancy {
    /// One alpha value for each palette entry.
    PaletteIndex(Vec<u8>),
    /// The grey level that is transparent.
    Greyscale(u16),
    /// The colour that is transparent.
    RGB(u16, u16, u16),
}

impl View for Transparancy {
    type V = TransparancyView;

    open spec fn view(&self) -> TransparancyView {
        match *self {
            Transparancy::PaletteIndex(alphas) => TransparancyView::PaletteIndex(alphas@),
            Transparancy::Greyscale(grey) => TransparancyView::Greyscale(grey),
            Transparancy::RGB(red, green, blue) => TransparancyView::RGB(red, green, blue),
        }
    }
}

impl TransparancyView {
    /// Alpha values for a palette of `plte_len` entries: those of the
    /// payload, then 255 (opaque) for every entry that the payload leaves
    /// out. A payload longer than the palette is an error.
    pub open spec fn for_indexed_color(payload: Seq<u8>, plte_len: int) -> Result<
        TransparancyView,
        PngError,
    > {
        if payload.len() > plte_len {
            Err(PngError::Format(FormatRule::TransparencyLength))
        } else {
            Ok(
                TransparancyView::PaletteIndex(
                    Seq::new(
                        plte_len as nat,
                        |i: int|
                            if i < payload.len() {
                                payload[i]
                            } else {
                                255u8
                            },
                    ),
                ),
            )
        }
    }

    /// The transparent grey level: one big-endian 16-bit integer.
    pub open spec fn for_grayscale(payload: Seq<u8>) -> Result<TransparancyView, PngError> {
        if payload.len() != 2 {
            Err(PngError::Format(FormatRule::TransparencyLength))
        } else {
            Ok(TransparancyView::Greyscale(be_u16(payload, 0) as u16))
        }
    }

    /// The transparent colour: three big-endian 16-bit integers.
    pub open spec fn for_rgb(payload: Seq<u8>) -> Result<TransparancyView, PngError> {
        if payload.len() != 6 {
            Err(PngError::Format(FormatRule::TransparencyLength))
        } else {
            Ok(
                TransparancyView::RGB(
                    be_u16(payload, 0) as u16,
                    be_u16(payload, 2) as u16,
                    be_u16(payload, 4) as u16,
                ),
            )
        }
    }
}

impl Transparancy {
    /// Reads the transparency of an indexed image with `plte_len` palette entries.
    pub fn for_indexed_color(data: &[u8], plte_len: usize) -> (res: Result<Transparancy, PngError>)
        ensures
            match TransparancyView::for_indexed_color(data@, plte_len as int) {
                Ok(view) => res matches Ok(t) && t@ == view,
                Err(e) => res == Err::<Transparancy, PngError>(e),
            },
    {
        if data.len() > plte_len {
            return Err(PngError::Format(FormatRule::TransparencyLength));
        }
        let mut entries: Vec<u8> = Vec::new();
        let mut idx: usize = 0;
        while idx < plte_len
            invariant
                data@.len() <= plte_len,
                idx <= plte_len,
                entries@.len() == idx,
                forall|i: int|
                    0 <= i < idx ==> entries@[i] == if i < data@.len() {
                        data@[i]
                    } else {
                        255u8
                    },
            decreases plte_len - idx,
        {
            entries.push(
                if idx < data.len() {
                    data[idx]
                } else {
                    255
                },
            );
            idx += 1;
        }
        let t = Transparancy::PaletteIndex(entries);
        assert(TransparancyView::for_indexed_color(data@, plte_len as int) matches Ok(view)
            && t@->PaletteIndex_0 =~= view->PaletteIndex_0);
        Ok(t)
    }

    /// Reads the transparency of a greyscale image.
    pub fn for_grayscale(data: &[u8]) -> (res: Result<Transparancy, PngError>)
        ensures
            match TransparancyView::for_grayscale(data@) {
                Ok(view) => res matches Ok(t) && t@ == view,
                Err(e) => res == Err::<Transparancy, PngError>(e),
            },
    {
        if data.len() != 2 {
            return Err(PngError::Format(FormatRule::TransparencyLength));
        }
        Ok(Transparancy::Greyscale(read_be_u16(data, 0)))
    }

    /// Reads the transparency of an RGB image.
    pub fn for_rgb(data: &[u8]) -> (res: Result<Transparancy, PngError>)
        ensures
            match TransparancyView::for_rgb(data@) {
                Ok(view) => res matches Ok(t) && t@ == view,
                Err(e) => res == Err::<Transparancy, PngError>(e),
            },
    {
        if data.len() != 6 {
            return Err(PngError::Format(FormatRule::TransparencyLength));
        }
        Ok(
            Transparancy::RGB(
                read_be_u16(data, 0),
                read_be_u16(data, 2),
                read_be_u16(data, 4),
            ),
        )
    }
}

} // verus!
