//! Decoder for PNG images: chunk stream, image assembly, scanline defiltering.

pub mod assembler;
pub mod bytes;
pub mod chunk;
pub mod decode;
pub mod error;
pub mod filter;
pub mod image;
pub mod img;
pub mod inflate;
pub mod transparency;

pub use assembler::Assembler;
pub use chunk::{Chunk, ColorType, IHDRData, ImageHelper, PLTEEntry, BKGD};
pub use error::{FormatRule, PngError};
pub use filter::{paeth_predictor, reverse_filter, unfilter, FilterType};
pub use image::Image;
pub use img::{glyph, Img};
pub use transparency::Transparancy;
