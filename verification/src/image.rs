//! The result of parsing: header, palette, decompressed image data, and the
//! chunks that were kept uninterpreted.

use crate::chunk::{Chunk, ChunkView};
use crate::header::ImageHeader;
use crate::palette::PaletteEntry;
use std::collections::HashMap;
use vstd::prelude::*;

verus! {

/// What was decoded from a PNG stream.
#[derive(Debug)]
pub struct DecodedImage {
    /// The fields of the header chunk; all zero where the stream's first
    /// chunk was no header.
    pub header: ImageHeader,
    /// The palette entries, in stream order.
    pub palette: Vec<PaletteEntry>,
    /// The decompressed image data.
    pub raw_data: Vec<u8>,
    /// Every chunk that was not interpreted, under its position among all
    /// the chunks of the stream, counted from zero.
    pub ancillary: HashMap<usize, Chunk>,
}

/// What a decoded image holds, as plain values.
pub struct ImageView {
    pub header: ImageHeader,
    pub palette: Seq<PaletteEntry>,
    pub raw_data: Seq<u8>,
    pub ancillary: Map<int, ChunkView>,
}

/// The chunks of a catalog as plain values, under the same positions.
pub open spec fn catalog_view(m: Map<usize, Chunk>) -> Map<int, ChunkView> {
    Map::new(
        |k: int| 0 <= k <= usize::MAX && m.contains_key(k as usize),
        |k: int| m[k as usize]@,
    )
}

/// Storing a chunk in a catalog stores its plain value under the same
/// position.
pub proof fn lemma_catalog_view_insert(m: Map<usize, Chunk>, k: usize, c: Chunk)
    ensures
        catalog_view(m.insert(k, c)) == catalog_view(m).insert(k as int, c@),
{
    assert(catalog_view(m.insert(k, c)) =~= catalog_view(m).insert(k as int, c@));
}

/// The catalog with no chunk in it has the empty map as its plain value.
pub proof fn lemma_catalog_view_empty()
    ensures
        catalog_view(Map::<usize, Chunk>::empty()) == Map::<int, ChunkView>::empty(),
{
    assert(catalog_view(Map::<usize, Chunk>::empty()) =~= Map::<int, ChunkView>::empty());
}

impl View for DecodedImage {
    type V = ImageView;

    open spec fn view(&self) -> ImageView {
        ImageView {
            header: self.header,
            palette: self.palette@,
            raw_data: self.raw_data@,
            ancillary: catalog_view(self.ancillary@),
        }
    }
}

impl ImageView {
    /// The image of a stream from which nothing has been decoded.
    pub open spec fn blank() -> ImageView {
        ImageView {
            header: ImageHeader::zero(),
            palette: Seq::empty(),
            raw_data: Seq::empty(),
            ancillary: Map::empty(),
        }
    }
}

impl DecodedImage {
    /// An image with a zero header and nothing else.
    pub fn new() -> (image: DecodedImage)
        ensures
            image@ == ImageView::blank(),
    {
        let image = DecodedImage {
            header: ImageHeader::default(),
            palette: Vec::new(),
            raw_data: Vec::new(),
            ancillary: HashMap::new(),
        };
        proof {
            lemma_catalog_view_empty();
        }
        image
    }
}

} // verus!
