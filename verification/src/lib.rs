//! A parser for the PNG container format: signature check, chunk framing with
//! CRC-32 validation, header and palette decoding, and reassembly of the
//! compressed image data, with every function's behaviour stated as a contract.
//!
//! [`PNGFile`] is the entry point: `PNGFile::init` takes the bytes of a
//! stream and `PNGFile::parse` decodes them into a [`DecodedImage`].
//! Decompression is left to `flate2`; everything else is proved.

pub mod bytes;
pub mod checksum;
pub mod chunk;
pub mod error;
pub mod header;
pub mod image;
pub mod inflate;
pub mod palette;
pub mod png;
pub mod scan;
pub mod source;
pub mod stream;

pub use crate::checksum::{crc, make_crc_table, update_crc, CrcTable};
pub use crate::chunk::{Chunk, ChunkKind};
pub use crate::error::PNGParseError;
pub use crate::header::ImageHeader;
pub use crate::image::DecodedImage;
pub use crate::palette::PaletteEntry;
pub use crate::png::PNGFile;
pub use crate::scan::{Accumulator, ScanEnd};
pub use crate::source::ByteSource;
