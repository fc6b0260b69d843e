//! The image assembler: a state machine over the records of a stream.

use crate::chunk::{
    has_signature, next_offset, record_at, Chunk, ColorType, IHDRData, ImageHelper, PLTEEntry,
    Record, BKGD,
};
use crate::error::{FormatRule, PngError};
use crate::image::{background_fits, transparency_fits, Image, ImageView};
use crate::transparency::{Transparancy, TransparancyView};
use vstd::arithmetic::power2::pow2;
use vstd::prelude::*;

verus! {

/// The state of the assembler as a mathematical value.
pub struct AssemblerView {
    /// The image as far as it is known.
    pub image: ImageView,
    /// The image data of all data records so far, in stream order.
    pub compressed: Seq<u8>,
    /// Whether the header has been accepted.
    pub header_seen: bool,
    /// Whether a data record has been accepted.
    pub data_seen: bool,
}

/// The state of the assembler: the partly filled image, the compressed data
/// gathered so far, and what has been seen.
#[derive(Debug)]
pub struct Assembler {
    /// The image as far as it is known.
    pub image: Image,
    /// The image data of all data records so far, in stream order.
    pub compressed: Vec<u8>,
    /// Whether the header has been accepted.
    pub header_seen: bool,
    /// Whether a data record has been accepted.
    pub data_seen: bool,
}

impl View for Assembler {
    type V = AssemblerView;

    open spec fn view(&self) -> AssemblerView {
        AssemblerView {
            image: self.image@,
            compressed: self.compressed@,
            header_seen: self.header_seen,
            data_seen: self.data_seen,
        }
    }
}

/// The transparency that a payload means for an image of the given colour
/// model and palette. The two models with an alpha channel allow none.
pub open spec fn transparency_of(
    color_type: ColorType,
    plte: Option<Seq<PLTEEntry>>,
    payload: Seq<u8>,
) -> Result<TransparancyView, PngError> {
    match color_type {
        ColorType::PaletteIndex => match plte {
            None => Err(PngError::Format(FormatRule::TransparencyBeforePalette)),
            Some(entries) => TransparancyView::for_indexed_color(payload, entries.len() as int),
        },
        ColorType::Greyscale => TransparancyView::for_grayscale(payload),
        ColorType::RGB => TransparancyView::for_rgb(payload),
        ColorType::GreyscaleAlpha | ColorType::RGBA => Err(
            PngError::Format(FormatRule::TransparencyForbidden),
        ),
    }
}

impl AssemblerView {
    /// The state before any record.
    pub open spec fn initial() -> AssemblerView {
        AssemblerView {
            image: ImageView {
                width: 0,
                height: 0,
                bit_depth: 0,
                color_type: ColorType::Greyscale,
                interlaced: false,
                data: Seq::empty(),
                plte: None,
                background: None,
                transparancy: None,
            },
            compressed: Seq::empty(),
            header_seen: false,
            data_seen: false,
        }
    }

    /// The state after the header `header`.
    pub open spec fn with_header(self, header: IHDRData) -> AssemblerView {
        AssemblerView {
            image: ImageView {
                width: header.width,
                height: header.height,
                bit_depth: header.bit_depth,
                color_type: header.color_type,
                interlaced: header.interlace_method,
                ..self.image
            },
            header_seen: true,
            ..self
        }
    }

    /// The transition of the state machine: the state after `record`, or the
    /// rule that the record breaks in this state.
    ///
    /// The first record must be the header, and no later one may be. A
    /// palette must be the only one and must not follow a background. Image
    /// data is gathered. A background must precede all image data and fit
    /// the colour model. Transparency is read against the colour model and
    /// the palette. An end record and the ignorable records change nothing.
    pub open spec fn accept(self, record: Record) -> Result<AssemblerView, PngError> {
        if !self.header_seen {
            match record {
                Record::IHDR(header) => Ok(self.with_header(header)),
                _ => Err(PngError::Format(FormatRule::HeaderMissing)),
            }
        } else {
            match record {
                Record::IHDR(_) => Err(PngError::Format(FormatRule::HeaderRepeated)),
                Record::PLTE(entries) => if self.image.plte is Some {
                    Err(PngError::Format(FormatRule::PaletteRepeated))
                } else if self.image.background is Some {
                    Err(PngError::Format(FormatRule::PaletteAfterBackground))
                } else {
                    Ok(
                        AssemblerView {
                            image: ImageView { plte: Some(entries), ..self.image },
                            ..self
                        },
                    )
                },
                Record::IDAT(payload) => Ok(
                    AssemblerView {
                        compressed: self.compressed + payload,
                        data_seen: true,
                        ..self
                    },
                ),
                Record::BKGD(background) => if self.data_seen {
                    Err(PngError::Format(FormatRule::BackgroundAfterData))
                } else if !background_fits(self.image.color_type, background) {
                    Err(PngError::Format(FormatRule::BackgroundShape))
                } else {
                    Ok(
                        AssemblerView {
                            image: ImageView { background: Some(background), ..self.image },
                            ..self
                        },
                    )
                },
                Record::TRNS(payload) => match transparency_of(
                    self.image.color_type,
                    self.image.plte,
                    payload,
                ) {
                    Err(e) => Err(e),
                    Ok(transparency) => Ok(
                        AssemblerView {
                            image: ImageView { transparancy: Some(transparency), ..self.image },
                            ..self
                        },
                    ),
                },
                Record::IEND
                | Record::CHRM
                | Record::GAMA
                | Record::HIST
                | Record::PHYS
                | Record::SBIT
                | Record::TEXT
                | Record::TIME
                | Record::ZTXT => Ok(self),
            }
        }
    }

    /// The state after a sequence of records, or the first rule broken.
    pub open spec fn accept_all(self, records: Seq<Record>) -> Result<AssemblerView, PngError>
        decreases records.len(),
    {
        if records.len() == 0 {
            Ok(self)
        } else {
            match self.accept_all(records.drop_last()) {
                Err(e) => Err(e),
                Ok(state) => state.accept(records.last()),
            }
        }
    }

    /// The final pass over the state once the stream has ended: there must
    /// have been a header, and the image must be legal.
    pub open spec fn finish(self) -> Result<AssemblerView, PngError> {
        if !self.header_seen {
            Err(PngError::Format(FormatRule::HeaderMissing))
        } else {
            match self.image.legality() {
                Err(e) => Err(e),
                Ok(()) => Ok(self),
            }
        }
    }
}

/// What assembling a sequence of records gives: every record accepted in
/// turn, then the final pass.
pub open spec fn assemble(records: Seq<Record>) -> Result<AssemblerView, PngError> {
    match AssemblerView::initial().accept_all(records) {
        Err(e) => Err(e),
        Ok(state) => state.finish(),
    }
}

/// The records of a stream from `offset` up to its end record, and the
/// error at which reading stopped, if it did not reach an end record.
pub open spec fn records_from(data: Seq<u8>, offset: int) -> (Seq<Record>, Option<PngError>)
    decreases data.len() - offset,
{
    match record_at(data, offset) {
        Err(e) => (Seq::empty(), Some(e)),
        Ok(Record::IEND) => (Seq::empty(), None),
        Ok(record) => {
            let (rest, failure) = records_from(data, next_offset(data, offset));
            (seq![record] + rest, failure)
        },
    }
}

/// What assembling a whole buffer gives. Records are accepted as they are
/// read, so a rule that an earlier record breaks is reported before a later
/// chunk that cannot be read.
pub open spec fn assembled(data: Seq<u8>) -> Result<AssemblerView, PngError> {
    if !has_signature(data) {
        Err(PngError::Signature)
    } else {
        let (records, failure) = records_from(data, 8);
        match AssemblerView::initial().accept_all(records) {
            Err(e) => Err(e),
            Ok(state) => match failure {
                Some(e) => Err(e),
                None => state.finish(),
            },
        }
    }
}

/// Accepting two sequences one after the other is accepting them joined.
pub proof fn lemma_accept_all_concat(state: AssemblerView, first: Seq<Record>, rest: Seq<Record>)
    ensures
        state.accept_all(first + rest) == match state.accept_all(first) {
            Err(e) => Err(e),
            Ok(next) => next.accept_all(rest),
        },
    decreases rest.len(),
{
    if rest.len() == 0 {
        assert(first + rest =~= first);
    } else {
        assert((first + rest).drop_last() =~= first + rest.drop_last());
        assert((first + rest).last() == rest.last());
        lemma_accept_all_concat(state, first, rest.drop_last());
    }
}

/// Accepting one more record after a sequence.
pub proof fn lemma_accept_all_push(state: AssemblerView, records: Seq<Record>, record: Record)
    ensures
        state.accept_all(records.push(record)) == match state.accept_all(records) {
            Err(e) => Err(e),
            Ok(next) => next.accept(record),
        },
{
    assert(records.push(record).drop_last() =~= records);
}

fn check_background(color_type: ColorType, background: BKGD) -> (fits: bool)
    ensures
        fits == background_fits(color_type, background),
{
    match color_type {
        ColorType::PaletteIndex => match background {
            BKGD::PaletteIndex(_) => true,
            _ => false,
        },
        ColorType::Greyscale | ColorType::GreyscaleAlpha => match background {
            BKGD::Greyscale(_) => true,
            _ => false,
        },
        ColorType::RGB | ColorType::RGBA => match background {
            BKGD::RGB(_, _, _) => true,
            _ => false,
        },
    }
}

fn read_transparency(color_type: ColorType, plte: &Option<Vec<PLTEEntry>>, payload: &[u8]) -> (res:
    Result<Transparancy, PngError>)
    ensures
        match transparency_of(
            color_type,
            match *plte {
                Some(entries) => Some(entries@),
                None => None,
            },
            payload@,
        ) {
            Ok(view) => res matches Ok(t) && t@ == view,
            Err(e) => res == Err::<Transparancy, PngError>(e),
        },
{
    match color_type {
        ColorType::PaletteIndex => match plte {
            None => Err(PngError::Format(FormatRule::TransparencyBeforePalette)),
            Some(entries) => Transparancy::for_indexed_color(payload, entries.len()),
        },
        ColorType::Greyscale => Transparancy::for_grayscale(payload),
        ColorType::RGB => Transparancy::for_rgb(payload),
        ColorType::GreyscaleAlpha | ColorType::RGBA => Err(
            PngError::Format(FormatRule::TransparencyForbidden),
        ),
    }
}

impl Assembler {
    /// The assembler before any record.
    pub fn new() -> (state: Assembler)
        ensures
            state@ == AssemblerView::initial(),
    {
        Assembler {
            image: Image {
                width: 0,
                height: 0,
                bit_depth: 0,
                color_type: ColorType::Greyscale,
                interlaced: false,
                data: Vec::new(),
                plte: None,
                background: None,
                transparancy: None,
            },
            compressed: Vec::new(),
            header_seen: false,
            data_seen: false,
        }
    }

    /// Takes one chunk into the state. A chunk that breaks a rule leaves the
    /// state as it was.
    pub fn accept(&mut self, chunk: Chunk<'_>) -> (res: Result<(), PngError>)
        ensures
            match old(self)@.accept(chunk@) {
                Ok(next) => res is Ok && final(self)@ == next,
                Err(e) => res == Err::<(), PngError>(e) && final(self)@ == old(self)@,
            },
    {
        if !self.header_seen {
            return match chunk {
                Chunk::IHDR(ihdr) => {
                    self.image.width = ihdr.width;
                    self.image.height = ihdr.height;
                    self.image.bit_depth = ihdr.bit_depth;
                    self.image.color_type = ihdr.color_type;
                    self.image.interlaced = ihdr.interlace_method;
                    self.header_seen = true;
                    Ok(())
                },
                _ => Err(PngError::Format(FormatRule::HeaderMissing)),
            };
        }
        match chunk {
            Chunk::IHDR(_) => Err(PngError::Format(FormatRule::HeaderRepeated)),
            Chunk::PLTE(plte) => {
                if self.image.plte.is_some() {
                    return Err(PngError::Format(FormatRule::PaletteRepeated));
                }
                if self.image.background.is_some() {
                    return Err(PngError::Format(FormatRule::PaletteAfterBackground));
                }
                self.image.plte = Some(plte);
                Ok(())
            },
            Chunk::IDAT(data) => {
                let ghost before = self.compressed@;
                self.compressed.extend_from_slice(data);
                assert(self.compressed@ =~= before + data@);
                self.data_seen = true;
                Ok(())
            },
            Chunk::BKGD(background) => {
                if self.data_seen {
                    return Err(PngError::Format(FormatRule::BackgroundAfterData));
                }
                if !check_background(self.image.color_type, background) {
                    return Err(PngError::Format(FormatRule::BackgroundShape));
                }
                self.image.background = Some(background);
                Ok(())
            },
            Chunk::TRNS(data) => {
                match read_transparency(self.image.color_type, &self.image.plte, data) {
                    Err(e) => Err(e),
                    Ok(transparency) => {
                        self.image.transparancy = Some(transparency);
                        Ok(())
                    },
                }
            },
            Chunk::IEND
            | Chunk::CHRM
            | Chunk::GAMA
            | Chunk::HIST
            | Chunk::PHYS
            | Chunk::SBIT
            | Chunk::TEXT
            | Chunk::TIME
            | Chunk::ZTXT => Ok(()),
        }
    }

    /// The final pass, once the end record has been read.
    pub fn finish(self) -> (res: Result<Assembler, PngError>)
        ensures
            match self@.finish() {
                Ok(view) => res matches Ok(state) && state@ == view,
                Err(e) => res == Err::<Assembler, PngError>(e),
            },
    {
        if !self.header_seen {
            return Err(PngError::Format(FormatRule::HeaderMissing));
        }
        match self.image.check_legality() {
            Err(e) => Err(e),
            Ok(()) => Ok(self),
        }
    }

    /// Reads a whole buffer: checks the signature, takes every chunk up to
    /// the end record into the state, and makes the final pass.
    pub fn read(data: &[u8]) -> (res: Result<Assembler, PngError>)
        ensures
            match assembled(data@) {
                Ok(view) => res matches Ok(state) && state@ == view,
                Err(e) => res == Err::<Assembler, PngError>(e),
            },
    {
        let mut chunks = match ImageHelper::from(data) {
            Ok(chunks) => chunks,
            Err(e) => {
                return Err(e);
            },
        };
        let mut state = Assembler::new();
        let ghost mut seen: Seq<Record> = Seq::empty();
        assert(seen + records_from(data@, 8).0 =~= records_from(data@, 8).0);
        loop
            invariant
                has_signature(data@),
                chunks.data == data,
                chunks.offset <= data@.len(),
                AssemblerView::initial().accept_all(seen) == Ok::<AssemblerView, PngError>(state@),
                records_from(data@, 8).0 == seen + records_from(data@, chunks.offset as int).0,
                records_from(data@, 8).1 == records_from(data@, chunks.offset as int).1,
            decreases data@.len() - chunks.offset,
        {
            let ghost offset = chunks.offset as int;
            let ghost rest = records_from(data@, next_offset(data@, offset)).0;
            match chunks.next() {
                Err(e) => {
                    assert(seen + Seq::<Record>::empty() =~= seen);
                    return Err(e);
                },
                Ok(None) => {
                    assert(seen + Seq::<Record>::empty() =~= seen);
                    return state.finish();
                },
                Ok(Some(chunk)) => {
                    let ghost record = chunk@;
                    proof {
                        lemma_accept_all_push(AssemblerView::initial(), seen, record);
                        lemma_accept_all_concat(
                            AssemblerView::initial(),
                            seen.push(record),
                            rest,
                        );
                        assert(seen + (seq![record] + rest) =~= seen.push(record) + rest);
                    }
                    match state.accept(chunk) {
                        Err(e) => {
                            return Err(e);
                        },
                        Ok(()) => {
                            proof {
                                seen = seen.push(record);
                            }
                        },
                    }
                },
            }
        }
    }
}

impl AssemblerView {
    /// What holds of every state that the assembler reaches: no raw data
    /// yet, nothing but defaults before the header, and a background and a
    /// transparency that fit the colour model.
    pub open spec fn inv(self) -> bool {
        &&& self.image.data.len() == 0
        &&& !self.header_seen ==> {
            &&& self.image.plte is None
            &&& self.image.background is None
            &&& self.image.transparancy is None
            &&& !self.data_seen
        }
        &&& self.image.background matches Some(background) ==> background_fits(
            self.image.color_type,
            background,
        )
        &&& self.image.transparancy matches Some(transparency) ==> transparency_fits(
            self.image.color_type,
            self.image.plte,
            transparency,
        )
    }
}

/// Every accepted record leaves the state as the invariant describes it.
pub proof fn lemma_accept_keeps_inv(state: AssemblerView, record: Record)
    requires
        state.inv(),
    ensures
        state.accept(record) matches Ok(next) ==> next.inv(),
{
}

/// What a sequence of records looks like if the assembler accepts all of
/// it, and what the state then holds.
pub open spec fn accepted_shape(records: Seq<Record>, state: AssemblerView) -> bool {
    &&& state.inv()
    &&& state.header_seen <==> records.len() > 0
    &&& records.len() > 0 ==> {
        &&& records[0] matches Record::IHDR(header)
        &&& state.image.width == header.width
        &&& state.image.height == header.height
        &&& state.image.bit_depth == header.bit_depth
        &&& state.image.color_type == header.color_type
        &&& state.image.interlaced == header.interlace_method
    }
    &&& forall|k: int| 0 < k < records.len() ==> !(#[trigger] records[k] is IHDR)
    &&& forall|i: int, j: int|
        0 <= i < j < records.len() ==> !(#[trigger] records[i] is PLTE && #[trigger] records[j] is PLTE)
    &&& forall|i: int, j: int|
        0 <= i < j < records.len() ==> !(#[trigger] records[i] is IDAT && #[trigger] records[j] is BKGD)
    &&& forall|i: int, j: int|
        0 <= i < j < records.len() ==> !(#[trigger] records[i] is BKGD && #[trigger] records[j] is PLTE)
    &&& forall|k: int|
        0 <= k < records.len() ==> (#[trigger] records[k] matches Record::PLTE(entries)
            ==> state.image.plte == Some(entries))
    &&& (forall|k: int| 0 <= k < records.len() ==> !(#[trigger] records[k] is PLTE))
        ==> state.image.plte is None
    &&& forall|k: int|
        0 <= k < records.len() ==> (#[trigger] records[k] is IDAT ==> state.data_seen)
    &&& forall|k: int|
        0 <= k < records.len() ==> (#[trigger] records[k] is BKGD ==> state.image.background is Some)
    &&& forall|k: int|
        0 <= k < records.len() ==> (#[trigger] records[k] is TRNS ==> {
            &&& state.image.color_type != ColorType::GreyscaleAlpha
            &&& state.image.color_type != ColorType::RGBA
            &&& state.image.transparancy is Some
        })
}

/// A sequence of records that the assembler accepts from its initial state
/// has the accepted shape.
pub proof fn lemma_accepted_shape(records: Seq<Record>)
    ensures
        AssemblerView::initial().accept_all(records) matches Ok(state) ==> accepted_shape(
            records,
            state,
        ),
    decreases records.len(),
{
    if records.len() > 0 {
        let init = records.drop_last();
        lemma_accepted_shape(init);
        match AssemblerView::initial().accept_all(init) {
            Err(_) => {},
            Ok(before) => {
                lemma_accept_keeps_inv(before, records.last());
                match before.accept(records.last()) {
                    Err(_) => {},
                    Ok(state) => {
                        assert(forall|k: int| 0 <= k < init.len() ==> init[k] == records[k]);
                        assert(accepted_shape(records, state));
                    },
                }
            },
        }
    }
}

/// A buffer is rejected whenever the records read from it are, and a
/// buffer that is assembled yields what its records yield.
pub proof fn lemma_stream_assembles_as_its_records(data: Seq<u8>)
    ensures
        assemble(records_from(data, 8).0) is Err ==> assembled(data) is Err,
        assembled(data) matches Ok(state) ==> assemble(records_from(data, 8).0) == Ok::<
            AssemblerView,
            PngError,
        >(state) && state.inv(),
{
    lemma_accepted_shape(records_from(data, 8).0);
}

/// A sequence with two header records is rejected.
pub proof fn lemma_two_headers_rejected(records: Seq<Record>, i: int, j: int)
    requires
        0 <= i < j < records.len(),
        records[i] is IHDR,
        records[j] is IHDR,
    ensures
        assemble(records) is Err,
{
    lemma_accepted_shape(records);
}

/// A sequence with two palette records is rejected.
pub proof fn lemma_two_palettes_rejected(records: Seq<Record>, i: int, j: int)
    requires
        0 <= i < j < records.len(),
        records[i] is PLTE,
        records[j] is PLTE,
    ensures
        assemble(records) is Err,
{
    lemma_accepted_shape(records);
}

/// An indexed image without a palette record is rejected.
pub proof fn lemma_indexed_without_palette_rejected(records: Seq<Record>)
    requires
        records.len() > 0,
        records[0] matches Record::IHDR(header) && header.color_type == ColorType::PaletteIndex,
        forall|k: int| 0 <= k < records.len() ==> !(#[trigger] records[k] is PLTE),
    ensures
        assemble(records) is Err,
{
    lemma_accepted_shape(records);
}

/// A greyscale image, with or without alpha, that carries a palette is
/// rejected.
pub proof fn lemma_greyscale_with_palette_rejected(records: Seq<Record>, k: int)
    requires
        records.len() > 0,
        records[0] matches Record::IHDR(header) && (header.color_type == ColorType::Greyscale
            || header.color_type == ColorType::GreyscaleAlpha),
        0 <= k < records.len(),
        records[k] is PLTE,
    ensures
        assemble(records) is Err,
{
    lemma_accepted_shape(records);
}

/// An indexed image whose palette has more entries than 2 to the power of
/// its bit depth is rejected.
pub proof fn lemma_oversized_palette_rejected(records: Seq<Record>, k: int)
    requires
        records.len() > 0,
        0 <= k < records.len(),
        records[0] matches Record::IHDR(header) && header.color_type == ColorType::PaletteIndex
            && (records[k] matches Record::PLTE(entries) && entries.len() > pow2(
            header.bit_depth as nat,
        )),
    ensures
        assemble(records) is Err,
{
    lemma_accepted_shape(records);
}

/// A background record behind a data record is rejected.
pub proof fn lemma_background_after_data_rejected(records: Seq<Record>, i: int, j: int)
    requires
        0 <= i < j < records.len(),
        records[i] is IDAT,
        records[j] is BKGD,
    ensures
        assemble(records) is Err,
{
    lemma_accepted_shape(records);
}

/// A transparency record in an image whose pixels carry alpha is rejected.
pub proof fn lemma_transparency_with_alpha_rejected(records: Seq<Record>, k: int)
    requires
        records.len() > 0,
        records[0] matches Record::IHDR(header) && (header.color_type == ColorType::RGBA
            || header.color_type == ColorType::GreyscaleAlpha),
        0 <= k < records.len(),
        records[k] is TRNS,
    ensures
        assemble(records) is Err,
{
    lemma_accepted_shape(records);
}

} // verus!
