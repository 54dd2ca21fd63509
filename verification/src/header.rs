//! The image header: the thirteen bytes of an `IHDR` chunk.

use crate::bytes::{be32, be32_bytes, lemma_be32_of_bytes, lemma_bytes_of_be32, push_be32, read_be32};
use vstd::prelude::*;

verus! {

/// The fields of the image header.
#[derive(Debug, Clone, Copy, PartialEq, Eq, Structural)]
pub struct ImageHeader {
    pub width: u32,
    pub height: u32,
    pub bit_depth: u8,
    pub color_type: u8,
    pub compression_method: u8,
    pub filter_method: u8,
    pub interlace_method: u8,
}

/// The byte at `at`, or zero where the payload is too short to have one.
pub open spec fn byte_or_zero(p: Seq<u8>, at: int) -> u8 {
    if 0 <= at < p.len() {
        p[at]
    } else {
        0
    }
}

/// The big-endian number at `p[at..at + 4]`, or zero where the payload does
/// not hold all four bytes.
pub open spec fn be32_or_zero(p: Seq<u8>, at: int) -> u32 {
    if 0 <= at && at + 4 <= p.len() {
        be32(p.subrange(at, at + 4))
    } else {
        0
    }
}

/// The header that a payload spells: width at offset 0, height at offset 4,
/// then one byte each for bit depth, color type, compression method, filter
/// method and interlace method. A field that the payload is too short to hold
/// is zero.
pub open spec fn header_of(p: Seq<u8>) -> ImageHeader {
    ImageHeader {
        width: be32_or_zero(p, 0),
        height: be32_or_zero(p, 4),
        bit_depth: byte_or_zero(p, 8),
        color_type: byte_or_zero(p, 9),
        compression_method: byte_or_zero(p, 10),
        filter_method: byte_or_zero(p, 11),
        interlace_method: byte_or_zero(p, 12),
    }
}

/// The thirteen payload bytes that spell a header.
pub open spec fn header_bytes(h: ImageHeader) -> Seq<u8> {
    be32_bytes(h.width) + be32_bytes(h.height) + seq![
        h.bit_depth,
        h.color_type,
        h.compression_method,
        h.filter_method,
        h.interlace_method,
    ]
}

/// Decoding a thirteen-byte payload and encoding the header again gives the
/// payload back, byte for byte.
pub proof fn lemma_header_bytes_round_trip(p: Seq<u8>)
    requires
        p.len() == 13,
    ensures
        header_bytes(header_of(p)) == p,
{
    lemma_bytes_of_be32(p.subrange(0, 4));
    lemma_bytes_of_be32(p.subrange(4, 8));
    assert(header_bytes(header_of(p)) =~= p);
}

/// Encoding a header gives thirteen bytes, and decoding them gives the header
/// back.
pub proof fn lemma_header_fields_round_trip(h: ImageHeader)
    ensures
        header_bytes(h).len() == 13,
        header_of(header_bytes(h)) == h,
{
    let p = header_bytes(h);
    lemma_be32_of_bytes(h.width);
    lemma_be32_of_bytes(h.height);
    assert(p.subrange(0, 4) =~= be32_bytes(h.width));
    assert(p.subrange(4, 8) =~= be32_bytes(h.height));
}

impl ImageHeader {
    /// The header with every field zero: what an image has before its header
    /// chunk is seen.
    pub open spec fn zero() -> ImageHeader {
        ImageHeader {
            width: 0,
            height: 0,
            bit_depth: 0,
            color_type: 0,
            compression_method: 0,
            filter_method: 0,
            interlace_method: 0,
        }
    }

    /// Decodes a header chunk's payload. A payload of any length is accepted:
    /// a field that it is too short to hold is zero, and bytes past the
    /// thirteenth are ignored.
    pub fn from_payload(payload: &[u8]) -> (h: ImageHeader)
        ensures
            h == header_of(payload@),
    {
        let n: usize = payload.len();
        ImageHeader {
            width: if n >= 4 { read_be32(payload, 0) } else { 0 },
            height: if n >= 8 { read_be32(payload, 4) } else { 0 },
            bit_depth: if n > 8 { payload[8] } else { 0 },
            color_type: if n > 9 { payload[9] } else { 0 },
            compression_method: if n > 10 { payload[10] } else { 0 },
            filter_method: if n > 11 { payload[11] } else { 0 },
            interlace_method: if n > 12 { payload[12] } else { 0 },
        }
    }

    /// Encodes the header as the thirteen bytes of a header chunk's payload.
    pub fn to_bytes(&self) -> (out: Vec<u8>)
        ensures
            out@ == header_bytes(*self),
            out@.len() == 13,
            header_of(out@) == *self,
    {
        let mut out: Vec<u8> = Vec::new();
        push_be32(&mut out, self.width);
        push_be32(&mut out, self.height);
        out.push(self.bit_depth);
        out.push(self.color_type);
        out.push(self.compression_method);
        out.push(self.filter_method);
        out.push(self.interlace_method);
        proof {
            assert(out@ =~= header_bytes(*self));
            lemma_header_fields_round_trip(*self);
        }
        out
    }
}

impl Default for ImageHeader {
    fn default() -> (h: ImageHeader)
        ensures
            h == ImageHeader::zero(),
    {
        ImageHeader {
            width: 0,
            height: 0,
            bit_depth: 0,
            color_type: 0,
            compression_method: 0,
            filter_method: 0,
            interlace_method: 0,
        }
    }
}

} // verus!
