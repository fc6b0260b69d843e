//! The whole pipeline: from the bytes of a file to the decoded image.

use crate::assembler::{
    assembled, lemma_stream_assembles_as_its_records, Assembler, AssemblerView,
};
use crate::chunk::has_signature;
use crate::error::PngError;
use crate::filter::{defiltered, lemma_unfiltered_rows_len, reverse_filter};
use crate::image::{Image, ImageView};
use crate::inflate::{inflate, inflated};
use vstd::prelude::*;

verus! {

/// The image that an assembled state becomes once its image data has been
/// decompressed: `filtered` is what decompression gave, `None` if it
/// failed. The filters of the scanlines are reversed and the raw samples put
/// behind the data of the image.
pub open spec fn completed(state: AssemblerView, filtered: Option<Seq<u8>>) -> Result<
    ImageView,
    PngError,
> {
    match filtered {
        None => Err(PngError::Decompression),
        Some(filtered) => match defiltered(filtered, state.image) {
            Err(e) => Err(e),
            Ok(raw) => Ok(ImageView { data: state.image.data + raw, ..state.image }),
        },
    }
}

/// The image that a buffer decodes to: its chunks are assembled, the image
/// data gathered from them is decompressed, and the filters of the
/// scanlines are reversed. The first failure on the way is the result.
pub open spec fn decoded(data: Seq<u8>) -> Result<ImageView, PngError> {
    match assembled(data) {
        Err(e) => Err(e),
        Ok(state) => completed(state, inflated(state.compressed)),
    }
}

impl Assembler {
    /// Turns the state into the image, given what decompressing the
    /// gathered image data gave: `None` if it failed.
    pub fn into_image(self, filtered: Option<Vec<u8>>) -> (res: Result<Image, PngError>)
        ensures
            match completed(
                self@,
                match filtered {
                    Some(bytes) => Some(bytes@),
                    None => None,
                },
            ) {
                Ok(view) => res matches Ok(image) && image@ == view,
                Err(e) => res == Err::<Image, PngError>(e),
            },
    {
        let mut image = self.image;
        match filtered {
            None => Err(PngError::Decompression),
            Some(filtered) => match reverse_filter(filtered, &mut image) {
                Err(e) => Err(e),
                Ok(()) => Ok(image),
            },
        }
    }
}

impl Image {
    /// Decodes the bytes of a PNG file.
    pub fn from(data: &[u8]) -> (res: Result<Image, PngError>)
        ensures
            match decoded(data@) {
                Ok(view) => res matches Ok(image) && image@ == view && image@.wf(),
                Err(e) => res == Err::<Image, PngError>(e),
            },
            res matches Ok(image) ==> (image.bit_depth == 8 ==> image.data@.len() == image.width
                * image.height * image.color_type.channels()),
    {
        proof {
            lemma_decoded_is_well_formed(data@);
            if let Ok(view) = decoded(data@) {
                if view.bit_depth == 8 {
                    lemma_sample_count(view);
                }
            }
        }
        let state = match Assembler::read(data) {
            Ok(state) => state,
            Err(e) => {
                return Err(e);
            },
        };
        let filtered = inflate(state.compressed.as_slice());
        state.into_image(filtered)
    }
}

/// A buffer that does not begin with the signature is refused for that
/// reason, whatever else it holds.
pub proof fn lemma_signature_comes_first(data: Seq<u8>)
    requires
        !has_signature(data),
    ensures
        decoded(data) == Err::<ImageView, PngError>(PngError::Signature),
{
}

/// Every image that a buffer decodes to is well formed: it is legal for
/// its colour model, its background and transparency fit that model, and
/// its data is `height` rows of raw samples.
pub proof fn lemma_decoded_is_well_formed(data: Seq<u8>)
    ensures
        decoded(data) matches Ok(image) ==> image.wf(),
{
    lemma_stream_assembles_as_its_records(data);
    if let Ok(state) = assembled(data) {
        if let Some(filtered) = inflated(state.compressed) {
            let image = state.image;
            if let Ok(raw) = defiltered(filtered, image) {
                assert(image.row_len() >= 0);
                lemma_unfiltered_rows_len(
                    filtered,
                    image.row_len(),
                    image.bpp(),
                    image.height as nat,
                );
                assert(image.data + raw =~= raw);
            }
        }
    }
}

/// A well-formed image of bit depth 8 holds one byte for every channel of
/// every pixel: `width * height * channels` bytes in all.
pub proof fn lemma_sample_count(image: ImageView)
    requires
        image.wf(),
        image.bit_depth == 8,
    ensures
        image.data.len() == image.width * image.height * image.color_type.channels(),
{
    let w = image.width as int;
    let h = image.height as int;
    let c = image.color_type.channels();
    assert((w * (c * 8) + 7) / 8 == w * c) by (nonlinear_arith);
    assert(h * (w * c) == w * h * c) by (nonlinear_arith);
}

} // verus!
