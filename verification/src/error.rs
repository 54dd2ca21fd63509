//! The ways in which parsing a PNG stream can fail.

use vstd::prelude::*;

verus! {

/// Why a PNG stream was rejected.
#[derive(Debug, Clone, Copy, PartialEq, Eq, Structural)]
pub enum PNGParseError {
    /// The stream does not start with the eight signature bytes.
    SignatureMismatch,
    /// The stream ends in the middle of a chunk.
    EndOfStream,
    /// A chunk's stored checksum is not the CRC-32 of its type and payload.
    CrcMismatch,
    /// The concatenated image data is not a valid zlib stream.
    DecompressionFailure,
    /// The end marker was reached before any image data.
    EmptyImageData,
}

impl PNGParseError {
    /// The text of [`PNGParseError::message`].
    pub open spec fn message_text(&self) -> Seq<char> {
        match self {
            PNGParseError::SignatureMismatch => "Invalid png file, wrong signature."@,
            PNGParseError::EndOfStream => "End of file inside a chunk."@,
            PNGParseError::CrcMismatch => "Invalid CRC."@,
            PNGParseError::DecompressionFailure => "Corrupt image data."@,
            PNGParseError::EmptyImageData => "No image data."@,
        }
    }

    /// A sentence that describes the error.
    pub fn message(&self) -> (text: &'static str)
        ensures
            text@ == self.message_text(),
    {
        match self {
            PNGParseError::SignatureMismatch => "Invalid png file, wrong signature.",
            PNGParseError::EndOfStream => "End of file inside a chunk.",
            PNGParseError::CrcMismatch => "Invalid CRC.",
            PNGParseError::DecompressionFailure => "Corrupt image data.",
            PNGParseError::EmptyImageData => "No image data.",
        }
    }
}

} // verus!
