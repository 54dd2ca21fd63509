//! The PNG container parser.
//!
//! A stream is the eight signature bytes followed by chunks. The parser
//! checks the signature, reads chunk after chunk, folds each into the image
//! being built, and at the end marker decompresses the concatenated image
//! data.
//!
//! The policy on damaged streams: a chunk that is cut short or whose checksum
//! is wrong fails the whole parse; it is neither skipped nor taken for the
//! end of the stream. A stream that ends between two chunks without an end
//! marker gives an image without decompressed data.

use crate::bytes::read_be32;
use crate::checksum::{make_crc_table, CrcTable};
use crate::chunk::{frame_chunk, frame_end, read_outcome, Chunk, ChunkKind, ChunkView};
use crate::error::PNGParseError;
use crate::image::{DecodedImage, ImageView};
use crate::inflate::{inflate, zlib_inflated};
use crate::scan::{conclusion, image_of, scan, Accumulator, ScanEnd, ScanState};
use crate::source::ByteSource;
use vstd::prelude::*;
use vstd::slice::{slice_subrange, slice_to_vec};

verus! {

/// The eight bytes that every PNG stream starts with.
pub open spec fn signature() -> Seq<u8> {
    seq![137u8, 80u8, 78u8, 71u8, 13u8, 10u8, 26u8, 10u8]
}

/// Whether the eight bytes of `input` from `pos` on are the signature.
pub open spec fn has_signature(input: Seq<u8>, pos: int) -> bool {
    &&& 0 <= pos
    &&& pos + 8 <= input.len()
    &&& input.subrange(pos, pos + 8) == signature()
}

/// What parsing `input` from `pos` comes to.
///
/// Without the signature: `SignatureMismatch`. Otherwise the chunks behind
/// the signature are read. A chunk that cannot be read fails the parse with
/// its error. A stream that is used up between chunks gives the image
/// gathered so far, with no decompressed data. At the end marker the
/// compressed data is decompressed, see [`conclusion`].
pub open spec fn parse_outcome(input: Seq<u8>, pos: int) -> Result<ImageView, PNGParseError> {
    if !has_signature(input, pos) {
        Err(PNGParseError::SignatureMismatch)
    } else {
        let s = scan(input, pos + 8, ScanState::start());
        match s.end {
            ScanEnd::Failed(e) => Err(e),
            ScanEnd::Exhausted => Ok(image_of(s.state, Seq::empty())),
            ScanEnd::Terminal => conclusion(s.state, zlib_inflated(s.state.compressed)),
        }
    }
}

/// Where parsing `input` from `pos` leaves the read position: in place where
/// the signature is missing, else where reading the chunks stopped.
pub open spec fn parse_stop(input: Seq<u8>, pos: int) -> int {
    if !has_signature(input, pos) {
        pos
    } else {
        scan(input, pos + 8, ScanState::start()).pos
    }
}

/// A PNG stream and what has been decoded from it.
pub struct PNGFile {
    /// The stream that is parsed.
    pub source: ByteSource,
    /// The checksum table, built once and used for every chunk.
    pub table: CrcTable,
    /// What the last successful parse decoded; blank before it.
    pub image: DecodedImage,
}

impl PNGFile {
    /// A parser over the bytes of a PNG stream, with nothing decoded yet.
    pub fn init(data: Vec<u8>) -> (file: PNGFile)
        ensures
            file.source@.bytes == data@,
            file.source@.pos == 0,
            file.image@ == ImageView::blank(),
    {
        PNGFile { source: ByteSource::new(data), table: make_crc_table(), image: DecodedImage::new() }
    }

    /// Parses the stream from the read position on and stores the decoded
    /// image.
    ///
    /// Succeeds, and replaces the stored image, exactly where
    /// [`parse_outcome`] is an image; fails with the error that it names
    /// otherwise, and then leaves the stored image as it was. In particular
    /// a stream that does not start with the signature fails with
    /// `SignatureMismatch` and nothing is read.
    pub fn parse(&mut self) -> (r: Result<(), PNGParseError>)
        ensures
            final(self).source@.bytes == old(self).source@.bytes,
            final(self).source@.pos == parse_stop(old(self).source@.bytes, old(self).source@.pos),
            match parse_outcome(old(self).source@.bytes, old(self).source@.pos) {
                Ok(image) => r is Ok && final(self).image@ == image,
                Err(e) => r == Err::<(), _>(e) && final(self).image@ == old(self).image@,
            },
    {
        if !PNGFile::read_signature(&mut self.source) {
            return Err(PNGParseError::SignatureMismatch);
        }
        let (acc, end) = PNGFile::read_chunks(&mut self.source, &self.table);
        let decoded = match end {
            ScanEnd::Failed(e) => Err(e),
            ScanEnd::Exhausted => Ok(acc.into_image(Vec::new())),
            ScanEnd::Terminal => PNGFile::decode(acc),
        };
        match decoded {
            Ok(image) => {
                self.image = image;
                Ok(())
            },
            Err(e) => Err(e),
        }
    }

    /// Reads the signature: where the next eight bytes are the signature,
    /// moves past them and returns `true`; else leaves the position alone.
    pub fn read_signature(source: &mut ByteSource) -> (found: bool)
        ensures
            final(source)@.bytes == old(source)@.bytes,
            found == has_signature(old(source)@.bytes, old(source)@.pos),
            final(source)@.pos == if found {
                old(source)@.pos + 8
            } else {
                old(source)@.pos
            },
    {
        let pos: usize = source.position();
        if source.remaining() < 8 {
            return false;
        }
        let bytes: &[u8] = source.bytes();
        let found = bytes[pos] == 137 && bytes[pos + 1] == 80 && bytes[pos + 2] == 78 && bytes[pos
            + 3] == 71 && bytes[pos + 4] == 13 && bytes[pos + 5] == 10 && bytes[pos + 6] == 26
            && bytes[pos + 7] == 10;
        proof {
            let head = bytes@.subrange(pos as int, pos + 8);
            if found {
                assert(head =~= signature());
            } else {
                assert(head[0] == bytes@[pos as int]);
                assert(head[1] == bytes@[pos + 1]);
                assert(head[2] == bytes@[pos + 2]);
                assert(head[3] == bytes@[pos + 3]);
                assert(head[4] == bytes@[pos + 4]);
                assert(head[5] == bytes@[pos + 5]);
                assert(head[6] == bytes@[pos + 6]);
                assert(head[7] == bytes@[pos + 7]);
            }
        }
        if found {
            source.advance(8);
        }
        found
    }

    /// Reads chunks from `source` until the stream is used up, the end
    /// marker is read, or a chunk cannot be read, and returns what they
    /// added up to and how reading ended.
    pub fn read_chunks(source: &mut ByteSource, table: &CrcTable) -> (r: (Accumulator, ScanEnd))
        ensures
            final(source)@.bytes == old(source)@.bytes,
            ({
                let s = scan(old(source)@.bytes, old(source)@.pos, ScanState::start());
                &&& r.0@ == s.state
                &&& r.1 == s.end
                &&& final(source)@.pos == s.pos
            }),
    {
        let mut acc = Accumulator::new();
        let mut pos: usize = source.position();
        loop
            invariant
                source@.bytes == old(source)@.bytes,
                pos == source@.pos,
                acc.count <= pos <= source@.bytes.len() <= usize::MAX,
                scan(source@.bytes, source@.pos, acc@) == scan(
                    old(source)@.bytes,
                    old(source)@.pos,
                    ScanState::start(),
                ),
            decreases source@.bytes.len() - source@.pos,
        {
            if source.at_end() {
                return (acc, ScanEnd::Exhausted);
            }
            match PNGFile::read_chunk(source, table) {
                Err(e) => {
                    return (acc, ScanEnd::Failed(e));
                },
                Ok(chunk) => {
                    if chunk.kind() == ChunkKind::End {
                        return (acc, ScanEnd::Terminal);
                    }
                    acc.absorb(chunk);
                    pos = source.position();
                },
            }
        }
    }

    /// Ends a parse that has read the end marker: decompresses the
    /// compressed data, where there is any, and hands out the image.
    pub fn decode(acc: Accumulator) -> (r: Result<DecodedImage, PNGParseError>)
        ensures
            match conclusion(acc@, zlib_inflated(acc@.compressed)) {
                Ok(image) => r is Ok && r->Ok_0@ == image,
                Err(e) => r is Err && r->Err_0 == e,
            },
    {
        if acc.compressed.len() == 0 {
            acc.conclude(None)
        } else {
            let inflated = inflate(acc.compressed.as_slice());
            acc.conclude(inflated)
        }
    }

    /// Reads one chunk from `source`.
    ///
    /// Succeeds where the stream holds a whole frame at the read position and
    /// the frame's checksum is the CRC-32 of its type tag and payload; the
    /// position then moves to the end of the frame. Fails with `EndOfStream`
    /// where the stream ends before the frame does, and with `CrcMismatch`
    /// where the checksum differs; the position then stays where it was.
    pub fn read_chunk(source: &mut ByteSource, table: &CrcTable) -> (r: Result<
        Chunk,
        PNGParseError,
    >)
        ensures
            final(source)@.bytes == old(source)@.bytes,
            match r {
                Ok(chunk) => {
                    &&& read_outcome(old(source)@.bytes, old(source)@.pos) == Ok::<
                        ChunkView,
                        PNGParseError,
                    >(chunk@)
                    &&& final(source)@.pos == frame_end(old(source)@.bytes, old(source)@.pos)
                },
                Err(e) => {
                    &&& read_outcome(old(source)@.bytes, old(source)@.pos) == Err::<
                        ChunkView,
                        PNGParseError,
                    >(e)
                    &&& final(source)@.pos == old(source)@.pos
                },
            },
    {
        let pos: usize = source.position();
        let left: usize = source.remaining();
        if left < 8 {
            return Err(PNGParseError::EndOfStream);
        }
        let bytes: &[u8] = source.bytes();
        let length: u32 = read_be32(bytes, pos);
        let n: usize = length as usize;
        if left - 8 < n || left - 8 - n < 4 {
            return Err(PNGParseError::EndOfStream);
        }
        let type_tag: [u8; 4] = [bytes[pos + 4], bytes[pos + 5], bytes[pos + 6], bytes[pos + 7]];
        let stored: u32 = read_be32(bytes, pos + 8 + n);
        let computed: u32 = table.checksum(slice_subrange(bytes, pos + 4, pos + 8 + n));
        proof {
            let c = frame_chunk(bytes@, pos as int);
            assert(type_tag@ =~= c.type_tag);
            assert(bytes@.subrange(pos + 4, pos + 8 + n) =~= c.type_tag + c.payload);
        }
        if computed != stored {
            return Err(PNGParseError::CrcMismatch);
        }
        let payload: Vec<u8> = slice_to_vec(slice_subrange(bytes, pos + 8, pos + 8 + n));
        source.advance(12 + n);
        Ok(Chunk { length, type_tag, payload, crc: stored })
    }
}

} // verus!
