//! Folding a stream's chunks into the state of a parse.
//!
//! The policy on malformed input: a header chunk is read only as the first
//! chunk of the stream, and one met later is kept uninterpreted like a chunk
//! of unknown type; a header payload that is too short leaves the fields it
//! does not reach at zero; a palette payload's final partial group is
//! dropped.

use crate::chunk::{frame_end, read_outcome, tag_kind, Chunk, ChunkKind, ChunkView};
use crate::error::PNGParseError;
use crate::header::{header_of, ImageHeader};
use crate::image::{
    catalog_view, lemma_catalog_view_empty, lemma_catalog_view_insert, DecodedImage, ImageView,
};
use crate::palette::{extend_palette, palette_of, PaletteEntry};
use std::collections::HashMap;
use vstd::prelude::*;

verus! {

/// What a parse has gathered from the chunks read so far.
#[derive(Debug)]
pub struct Accumulator {
    /// The header fields; all zero until a header chunk is read.
    pub header: ImageHeader,
    /// The palette entries read so far.
    pub palette: Vec<PaletteEntry>,
    /// The payloads of the data chunks read so far, concatenated in stream
    /// order.
    pub compressed: Vec<u8>,
    /// The uninterpreted chunks, each under its position in the stream.
    pub ancillary: HashMap<usize, Chunk>,
    /// The number of chunks read so far.
    pub count: usize,
}

/// The state of a parse as plain values.
pub struct ScanState {
    pub header: ImageHeader,
    pub palette: Seq<PaletteEntry>,
    pub compressed: Seq<u8>,
    pub ancillary: Map<int, ChunkView>,
    pub count: int,
}

impl View for Accumulator {
    type V = ScanState;

    open spec fn view(&self) -> ScanState {
        ScanState {
            header: self.header,
            palette: self.palette@,
            compressed: self.compressed@,
            ancillary: catalog_view(self.ancillary@),
            count: self.count as int,
        }
    }
}

impl ScanState {
    /// The state before any chunk is read.
    pub open spec fn start() -> ScanState {
        ScanState {
            header: ImageHeader::zero(),
            palette: Seq::empty(),
            compressed: Seq::empty(),
            ancillary: Map::empty(),
            count: 0,
        }
    }

    /// The state after one more chunk, `c`, is read.
    ///
    /// A header chunk in first place sets the header. A data chunk's payload
    /// is appended to the compressed data. A palette chunk's entries are
    /// appended to the palette. An end marker changes nothing. Any other
    /// chunk, a header chunk in a later place included, is stored under its
    /// position. Every chunk counts.
    pub open spec fn absorb(self, c: ChunkView) -> ScanState {
        let kind = tag_kind(c.type_tag);
        let next = self.count + 1;
        if kind == ChunkKind::Header && self.count == 0 {
            ScanState { header: header_of(c.payload), count: next, ..self }
        } else if kind == ChunkKind::Data {
            ScanState { compressed: self.compressed + c.payload, count: next, ..self }
        } else if kind == ChunkKind::Palette {
            ScanState { palette: self.palette + palette_of(c.payload), count: next, ..self }
        } else if kind == ChunkKind::End {
            ScanState { count: next, ..self }
        } else {
            ScanState { ancillary: self.ancillary.insert(self.count, c), count: next, ..self }
        }
    }

    /// The state after the chunks of `cs` are read, first chunk first.
    pub open spec fn absorb_all(self, cs: Seq<ChunkView>) -> ScanState
        decreases cs.len(),
    {
        if cs.len() == 0 {
            self
        } else {
            self.absorb(cs[0]).absorb_all(cs.drop_first())
        }
    }
}

/// The payloads of the data chunks among `cs`, concatenated in the order of
/// `cs`.
pub open spec fn data_payloads(cs: Seq<ChunkView>) -> Seq<u8>
    decreases cs.len(),
{
    if cs.len() == 0 {
        Seq::empty()
    } else if tag_kind(cs[0].type_tag) == ChunkKind::Data {
        cs[0].payload + data_payloads(cs.drop_first())
    } else {
        data_payloads(cs.drop_first())
    }
}

/// Two data chunks read one after the other leave their payloads in the
/// compressed data one after the other, behind what was there.
pub proof fn lemma_data_chunks_concatenate(st: ScanState, a: ChunkView, b: ChunkView)
    requires
        tag_kind(a.type_tag) == ChunkKind::Data,
        tag_kind(b.type_tag) == ChunkKind::Data,
    ensures
        st.absorb(a).absorb(b).compressed == st.compressed + a.payload + b.payload,
{
}

/// Whatever chunks are read, and in whatever order the other kinds come, the
/// compressed data grows by exactly the data chunks' payloads, in the order
/// in which they were read.
pub proof fn lemma_compressed_is_data_payloads(st: ScanState, cs: Seq<ChunkView>)
    ensures
        st.absorb_all(cs).compressed == st.compressed + data_payloads(cs),
        st.absorb_all(cs).count == st.count + cs.len(),
    decreases cs.len(),
{
    if cs.len() == 0 {
        assert(st.compressed + data_payloads(cs) =~= st.compressed);
    } else {
        let next = st.absorb(cs[0]);
        lemma_compressed_is_data_payloads(next, cs.drop_first());
        assert(st.absorb_all(cs).compressed =~= st.compressed + data_payloads(cs));
    }
}

/// How reading the chunks of a stream ended.
pub enum ScanEnd {
    /// The stream ended where a chunk would have started.
    Exhausted,
    /// The end marker was read.
    Terminal,
    /// A chunk could not be read.
    Failed(PNGParseError),
}

/// What reading the chunks of a stream came to.
pub struct Scan {
    /// What the chunks before the stopping place added up to.
    pub state: ScanState,
    /// Where reading stopped.
    pub pos: int,
    /// Why it stopped.
    pub end: ScanEnd,
}

/// Reads chunk after chunk from `pos`, starting in state `st`, until the
/// stream is used up, the end marker is read, or a chunk cannot be read.
///
/// Reading stops for good at the end marker: what follows it is not looked
/// at. A chunk that is cut short or whose checksum is wrong stops the scan
/// with that failure, at the place where the chunk starts.
pub open spec fn scan(input: Seq<u8>, pos: int, st: ScanState) -> Scan
    decreases input.len() - pos,
{
    if pos >= input.len() {
        Scan { state: st, pos, end: ScanEnd::Exhausted }
    } else {
        match read_outcome(input, pos) {
            Err(e) => Scan { state: st, pos, end: ScanEnd::Failed(e) },
            Ok(c) => if tag_kind(c.type_tag) == ChunkKind::End {
                Scan { state: st, pos: frame_end(input, pos), end: ScanEnd::Terminal }
            } else {
                scan(input, frame_end(input, pos), st.absorb(c))
            },
        }
    }
}

/// The image that a parse in state `st` hands out, with `raw` as its
/// decompressed data.
pub open spec fn image_of(st: ScanState, raw: Seq<u8>) -> ImageView {
    ImageView { header: st.header, palette: st.palette, raw_data: raw, ancillary: st.ancillary }
}

/// What a parse that has read the end marker in state `st` comes to, where
/// decompressing its compressed data gave `inflated`.
///
/// No compressed data at all is `EmptyImageData`, whatever `inflated` is;
/// compressed data that could not be decompressed is `DecompressionFailure`;
/// otherwise the image holds the decompressed bytes.
pub open spec fn conclusion(st: ScanState, inflated: Option<Seq<u8>>) -> Result<
    ImageView,
    PNGParseError,
> {
    if st.compressed.len() == 0 {
        Err(PNGParseError::EmptyImageData)
    } else {
        match inflated {
            None => Err(PNGParseError::DecompressionFailure),
            Some(raw) => Ok(image_of(st, raw)),
        }
    }
}

/// The bytes of an optional buffer.
pub open spec fn option_bytes(v: Option<Vec<u8>>) -> Option<Seq<u8>> {
    match v {
        None => None,
        Some(bytes) => Some(bytes@),
    }
}

impl Accumulator {
    /// Hands out what was gathered as an image whose decompressed data is
    /// `raw`.
    pub fn into_image(self, raw: Vec<u8>) -> (image: DecodedImage)
        ensures
            image@ == image_of(self@, raw@),
    {
        DecodedImage {
            header: self.header,
            palette: self.palette,
            raw_data: raw,
            ancillary: self.ancillary,
        }
    }

    /// Ends a parse that has read the end marker, given what decompressing
    /// the compressed data came to: `None` where it failed.
    pub fn conclude(self, inflated: Option<Vec<u8>>) -> (r: Result<DecodedImage, PNGParseError>)
        ensures
            match conclusion(self@, option_bytes(inflated)) {
                Ok(image) => r is Ok && r->Ok_0@ == image,
                Err(e) => r is Err && r->Err_0 == e,
            },
    {
        if self.compressed.len() == 0 {
            Err(PNGParseError::EmptyImageData)
        } else {
            match inflated {
                None => Err(PNGParseError::DecompressionFailure),
                Some(raw) => Ok(self.into_image(raw)),
            }
        }
    }

    /// The state before any chunk is read.
    pub fn new() -> (acc: Accumulator)
        ensures
            acc@ == ScanState::start(),
    {
        let acc = Accumulator {
            header: ImageHeader::default(),
            palette: Vec::new(),
            compressed: Vec::new(),
            ancillary: HashMap::new(),
            count: 0,
        };
        proof {
            lemma_catalog_view_empty();
        }
        acc
    }

    /// Takes in one more chunk.
    pub fn absorb(&mut self, chunk: Chunk)
        requires
            old(self).count < usize::MAX,
        ensures
            final(self)@ == old(self)@.absorb(chunk@),
    {
        let ghost c = chunk@;
        let kind = chunk.kind();
        if kind == ChunkKind::Header && self.count == 0 {
            self.header = ImageHeader::from_payload(chunk.payload.as_slice());
        } else if kind == ChunkKind::Data {
            self.compressed.extend_from_slice(chunk.payload.as_slice());
            assert(self.compressed@ =~= old(self).compressed@ + c.payload);
        } else if kind == ChunkKind::Palette {
            extend_palette(&mut self.palette, chunk.payload.as_slice());
        } else if kind != ChunkKind::End {
            proof {
                lemma_catalog_view_insert(self.ancillary@, self.count, chunk);
            }
            self.ancillary.insert(self.count, chunk);
        }
        self.count = self.count + 1;
        proof {
            assert(self@ =~= old(self)@.absorb(c));
        }
    }
}

} // verus!
