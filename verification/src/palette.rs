//! The color palette: the RGB triples of a `PLTE` chunk.

use vstd::prelude::*;

verus! {

/// One palette color.
#[derive(Debug, Clone, Copy, PartialEq, Eq, Structural)]
pub struct PaletteEntry {
    pub r: u8,
    pub g: u8,
    pub b: u8,
}

/// The entries that a payload spells: one for each whole group of three
/// bytes, in order. Up to two bytes left over at the end spell nothing.
pub open spec fn palette_of(p: Seq<u8>) -> Seq<PaletteEntry> {
    Seq::new(
        (p.len() / 3) as nat,
        |i: int| PaletteEntry { r: p[3 * i], g: p[3 * i + 1], b: p[3 * i + 2] },
    )
}

/// Decodes a palette chunk's payload and appends its entries to `palette`. A
/// final group of fewer than three bytes is dropped.
pub fn extend_palette(palette: &mut Vec<PaletteEntry>, payload: &[u8])
    ensures
        final(palette)@ == old(palette)@ + palette_of(payload@),
{
    let len: usize = payload.len();
    let groups: usize = len / 3;
    let mut i: usize = 0;
    while i < groups
        invariant
            len == payload@.len(),
            groups == len / 3,
            i <= groups,
            palette@ == old(palette)@ + palette_of(payload@).take(i as int),
        decreases groups - i,
    {
        assert(3 * i + 2 < len);
        let entry = PaletteEntry {
            r: payload[3 * i],
            g: payload[3 * i + 1],
            b: payload[3 * i + 2],
        };
        palette.push(entry);
        proof {
            assert(palette@ =~= old(palette)@ + palette_of(payload@).take(i + 1));
        }
        i += 1;
    }
    proof {
        assert(palette_of(payload@).take(i as int) =~= palette_of(payload@));
    }
}

} // verus!
