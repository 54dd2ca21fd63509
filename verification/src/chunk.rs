//! Chunks: the length-prefixed, type-tagged, checksummed records that a PNG
//! stream is made of, and how one is laid out in bytes.

use crate::bytes::{be32, be32_bytes, lemma_be32_of_bytes, push_be32};
use crate::checksum::{crc32, lemma_crc32_detects_byte_change, lemma_crc_fold_concat, CrcTable};
use crate::error::PNGParseError;
use vstd::prelude::*;

verus! {

/// One chunk as it was read from the stream. The type tag is kept as the
/// four bytes that the stream holds, whether or not they are text.
#[derive(Debug)]
pub struct Chunk {
    /// The number of payload bytes.
    pub length: u32,
    /// The four bytes that name the chunk's type.
    pub type_tag: [u8; 4],
    /// The chunk's data.
    pub payload: Vec<u8>,
    /// The checksum that the stream stored for the type and the payload.
    pub crc: u32,
}

/// What a chunk holds, as plain values.
pub struct ChunkView {
    pub length: u32,
    pub type_tag: Seq<u8>,
    pub payload: Seq<u8>,
    pub crc: u32,
}

impl View for Chunk {
    type V = ChunkView;

    open spec fn view(&self) -> ChunkView {
        ChunkView {
            length: self.length,
            type_tag: self.type_tag@,
            payload: self.payload@,
            crc: self.crc,
        }
    }
}

impl ChunkView {
    /// The tag has four bytes, the length field counts the payload, and the
    /// stored checksum is the CRC-32 of the tag followed by the payload.
    pub open spec fn valid(self) -> bool {
        &&& self.type_tag.len() == 4
        &&& self.payload.len() == self.length
        &&& self.crc == crc32(self.type_tag + self.payload)
    }
}

/// The bytes of a chunk as a stream holds them: the length, big-endian; the
/// type tag; the payload; the checksum, big-endian.
pub open spec fn chunk_frame(c: ChunkView) -> Seq<u8> {
    be32_bytes(c.length) + c.type_tag + c.payload + be32_bytes(c.crc)
}

/// The payload length that the frame starting at `pos` announces.
pub open spec fn frame_length(input: Seq<u8>, pos: int) -> int {
    be32(input.subrange(pos, pos + 4)) as int
}

/// Whether `input` holds a whole frame at `pos`: the length and the type tag,
/// then as many payload bytes as the length says, then the checksum.
pub open spec fn frame_complete(input: Seq<u8>, pos: int) -> bool {
    &&& 0 <= pos
    &&& pos + 8 <= input.len()
    &&& pos + 12 + frame_length(input, pos) <= input.len()
}

/// Where the frame that starts at `pos` ends, and the next one starts.
pub open spec fn frame_end(input: Seq<u8>, pos: int) -> int {
    pos + 12 + frame_length(input, pos)
}

/// The chunk that the frame starting at `pos` holds.
pub open spec fn frame_chunk(input: Seq<u8>, pos: int) -> ChunkView {
    let n = frame_length(input, pos);
    ChunkView {
        length: be32(input.subrange(pos, pos + 4)),
        type_tag: input.subrange(pos + 4, pos + 8),
        payload: input.subrange(pos + 8, pos + 8 + n),
        crc: be32(input.subrange(pos + 8 + n, pos + 12 + n)),
    }
}

/// What reading one chunk at `pos` comes to: the chunk, where a whole frame
/// is there and its checksum matches; `EndOfStream`, where the stream ends
/// before the frame does; `CrcMismatch`, where the frame is whole and its
/// checksum does not match.
pub open spec fn read_outcome(input: Seq<u8>, pos: int) -> Result<ChunkView, PNGParseError> {
    if !frame_complete(input, pos) {
        Err(PNGParseError::EndOfStream)
    } else if !frame_chunk(input, pos).valid() {
        Err(PNGParseError::CrcMismatch)
    } else {
        Ok(frame_chunk(input, pos))
    }
}

/// A valid chunk, laid out as a frame anywhere in a stream, is found there
/// whole and unchanged: the same length, type tag, payload and checksum, and
/// the checksum is again the CRC-32 of the type tag and the payload.
pub proof fn lemma_frame_holds_chunk(before: Seq<u8>, c: ChunkView, after: Seq<u8>)
    requires
        c.valid(),
    ensures
        chunk_frame(c).len() == 12 + c.length,
        frame_complete(before + chunk_frame(c) + after, before.len() as int),
        frame_chunk(before + chunk_frame(c) + after, before.len() as int) == c,
        read_outcome(before + chunk_frame(c) + after, before.len() as int) == Ok::<
            ChunkView,
            PNGParseError,
        >(c),
        frame_end(before + chunk_frame(c) + after, before.len() as int) == before.len() + 12
            + c.length,
{
    let input = before + chunk_frame(c) + after;
    let pos = before.len() as int;
    let n = c.length as int;
    lemma_be32_of_bytes(c.length);
    lemma_be32_of_bytes(c.crc);
    assert(chunk_frame(c).len() == 12 + n);
    assert(input.subrange(pos, pos + 4) =~= be32_bytes(c.length));
    assert(input.subrange(pos + 4, pos + 8) =~= c.type_tag);
    assert(input.subrange(pos + 8, pos + 8 + n) =~= c.payload);
    assert(input.subrange(pos + 8 + n, pos + 12 + n) =~= be32_bytes(c.crc));
}

/// Changing one payload byte of a frame that holds a valid chunk leaves a
/// frame of the same extent whose checksum no longer matches.
pub proof fn lemma_corrupt_payload_is_invalid(input: Seq<u8>, pos: int, at: int, b: u8)
    requires
        frame_complete(input, pos),
        frame_chunk(input, pos).valid(),
        pos + 8 <= at < pos + 8 + frame_length(input, pos),
        b != input[at],
    ensures
        frame_complete(input.update(at, b), pos),
        frame_end(input.update(at, b), pos) == frame_end(input, pos),
        frame_chunk(input.update(at, b), pos).crc == frame_chunk(input, pos).crc,
        !frame_chunk(input.update(at, b), pos).valid(),
        read_outcome(input.update(at, b), pos) == Err::<ChunkView, PNGParseError>(
            PNGParseError::CrcMismatch,
        ),
{
    let n = frame_length(input, pos);
    let changed = input.update(at, b);
    let c = frame_chunk(input, pos);
    let d = frame_chunk(changed, pos);
    assert(changed.subrange(pos, pos + 4) =~= input.subrange(pos, pos + 4));
    assert(changed.subrange(pos + 8 + n, pos + 12 + n) =~= input.subrange(pos + 8 + n, pos + 12 + n));
    assert(d.type_tag =~= c.type_tag);
    let covered = c.type_tag + c.payload;
    assert(d.type_tag + d.payload =~= covered.update(at - pos - 4, b));
    lemma_crc32_detects_byte_change(covered, at - pos - 4, b);
}

/// The chunk types that the parser tells apart.
#[derive(Debug, Clone, Copy, PartialEq, Eq, Structural)]
pub enum ChunkKind {
    /// `IHDR`, the image header.
    Header,
    /// `IDAT`, a piece of the compressed image data.
    Data,
    /// `PLTE`, the palette.
    Palette,
    /// `IEND`, the end marker.
    End,
    /// Any other tag.
    Other,
}

/// The kind that a type tag names.
pub open spec fn tag_kind(tag: Seq<u8>) -> ChunkKind {
    if tag == seq![0x49u8, 0x48u8, 0x44u8, 0x52u8] {
        ChunkKind::Header
    } else if tag == seq![0x49u8, 0x44u8, 0x41u8, 0x54u8] {
        ChunkKind::Data
    } else if tag == seq![0x50u8, 0x4cu8, 0x54u8, 0x45u8] {
        ChunkKind::Palette
    } else if tag == seq![0x49u8, 0x45u8, 0x4eu8, 0x44u8] {
        ChunkKind::End
    } else {
        ChunkKind::Other
    }
}

/// Whether `tag` holds exactly the bytes `a`, `b`, `c`, `d`.
fn tag_is(tag: &[u8; 4], a: u8, b: u8, c: u8, d: u8) -> (same: bool)
    ensures
        same == (tag@ == seq![a, b, c, d]),
{
    let same = tag[0] == a && tag[1] == b && tag[2] == c && tag[3] == d;
    proof {
        if same {
            assert(tag@ =~= seq![a, b, c, d]);
        } else {
            let s = seq![a, b, c, d];
            assert(s[0] == a && s[1] == b && s[2] == c && s[3] == d);
        }
    }
    same
}

impl Chunk {
    /// Makes the chunk that carries `payload` under `type_tag`, with the
    /// length and the checksum that belong to them.
    pub fn new(type_tag: [u8; 4], payload: Vec<u8>, table: &CrcTable) -> (chunk: Chunk)
        requires
            payload@.len() <= u32::MAX,
        ensures
            chunk@.valid(),
            chunk@.type_tag == type_tag@,
            chunk@.payload == payload@,
    {
        let length: u32 = payload.len() as u32;
        let over_tag: u32 = table.update(0xffff_ffff, type_tag.as_slice());
        let over_both: u32 = table.update(over_tag, payload.as_slice());
        proof {
            lemma_crc_fold_concat(0xffff_ffffu32, type_tag@, payload@);
        }
        Chunk { length, type_tag, payload, crc: over_both ^ 0xffff_ffff }
    }

    /// The bytes of the chunk as a stream holds them: length, type tag,
    /// payload, checksum.
    pub fn to_bytes(&self) -> (out: Vec<u8>)
        ensures
            out@ == chunk_frame(self@),
    {
        let mut out: Vec<u8> = Vec::new();
        push_be32(&mut out, self.length);
        out.extend_from_slice(self.type_tag.as_slice());
        out.extend_from_slice(self.payload.as_slice());
        push_be32(&mut out, self.crc);
        proof {
            assert(out@ =~= chunk_frame(self@));
        }
        out
    }

    /// The kind that the chunk's type tag names.
    pub fn kind(&self) -> (k: ChunkKind)
        ensures
            k == tag_kind(self@.type_tag),
    {
        if tag_is(&self.type_tag, 0x49, 0x48, 0x44, 0x52) {
            ChunkKind::Header
        } else if tag_is(&self.type_tag, 0x49, 0x44, 0x41, 0x54) {
            ChunkKind::Data
        } else if tag_is(&self.type_tag, 0x50, 0x4c, 0x54, 0x45) {
            ChunkKind::Palette
        } else if tag_is(&self.type_tag, 0x49, 0x45, 0x4e, 0x44) {
            ChunkKind::End
        } else {
            ChunkKind::Other
        }
    }
}

} // verus!
