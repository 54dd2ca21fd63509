//! The CRC-32 of the PNG and zlib formats (reflected polynomial `0xEDB88320`).
//!
//! The checksum is defined bit by bit, as the formats define it. The executable
//! code works byte by byte from a 256-entry table and is proved equal to that
//! definition.

use vstd::prelude::*;

verus! {

/// One division step: shift right by one bit and subtract the polynomial when
/// the bit shifted out was set.
pub open spec fn crc_shift(c: u32) -> u32 {
    if c & 1 != 0 {
        0xedb8_8320u32 ^ (c >> 1)
    } else {
        c >> 1
    }
}

/// `n` division steps in a row.
pub open spec fn crc_shift_n(c: u32, n: nat) -> u32
    decreases n,
{
    if n == 0 {
        c
    } else {
        crc_shift(crc_shift_n(c, (n - 1) as nat))
    }
}

/// The register after one whole byte has been divided out: eight steps.
pub open spec fn crc_byte(c: u32) -> u32 {
    crc_shift_n(c, 8)
}

/// The running register after the bytes of `s` have been fed into `c`, first
/// byte first: each byte is added to the low end, then divided out.
pub open spec fn crc_fold(c: u32, s: Seq<u8>) -> u32
    decreases s.len(),
{
    if s.len() == 0 {
        c
    } else {
        crc_byte(crc_fold(c, s.drop_last()) ^ (s.last() as u32))
    }
}

/// The CRC-32 of a byte sequence: the register starts at all ones and the
/// result is its one's complement.
pub open spec fn crc32(s: Seq<u8>) -> u32 {
    crc_fold(0xffff_ffffu32, s) ^ 0xffff_ffffu32
}

/// Eight division steps written out, the form in which bit-level reasoning
/// sees them.
spec fn shift8(c: u32) -> u32 {
    crc_shift(crc_shift(crc_shift(crc_shift(crc_shift(crc_shift(crc_shift(crc_shift(c))))))))
}

proof fn lemma_crc_byte_unfold(c: u32)
    ensures
        crc_byte(c) == shift8(c),
{
    reveal_with_fuel(crc_shift_n, 9);
}

/// A table lookup on the low byte, combined with the rest of the register,
/// equals eight division steps on the whole register.
proof fn lemma_table_step(c: u32)
    ensures
        c & 0xff < 256,
        crc_byte(c) == crc_byte(c & 0xff) ^ (c >> 8),
{
    lemma_crc_byte_unfold(c);
    lemma_crc_byte_unfold(c & 0xff);
    assert(c & 0xff < 256) by (bit_vector);
    assert(shift8(c) == shift8(c & 0xff) ^ (c >> 8)) by (bit_vector);
}

/// A division step loses nothing: different registers stay different.
proof fn lemma_crc_shift_injective(a: u32, b: u32)
    requires
        a != b,
    ensures
        crc_shift(a) != crc_shift(b),
{
    assert(a != b ==> crc_shift(a) != crc_shift(b)) by (bit_vector);
}

proof fn lemma_crc_shift_n_injective(a: u32, b: u32, n: nat)
    requires
        a != b,
    ensures
        crc_shift_n(a, n) != crc_shift_n(b, n),
    decreases n,
{
    if n > 0 {
        lemma_crc_shift_n_injective(a, b, (n - 1) as nat);
        lemma_crc_shift_injective(crc_shift_n(a, (n - 1) as nat), crc_shift_n(b, (n - 1) as nat));
    }
}

/// Changing one byte of a sequence changes the register that the sequence
/// leaves behind, whatever register it started from.
pub proof fn lemma_crc_fold_detects_byte_change(c: u32, s: Seq<u8>, i: int, b: u8)
    requires
        0 <= i < s.len(),
        b != s[i],
    ensures
        crc_fold(c, s.update(i, b)) != crc_fold(c, s),
    decreases s.len(),
{
    let t = s.update(i, b);
    if i == s.len() - 1 {
        assert(t.drop_last() =~= s.drop_last());
        let p = crc_fold(c, s.drop_last());
        let x = s[i];
        assert(b != x ==> p ^ (b as u32) != p ^ (x as u32)) by (bit_vector);
        lemma_crc_shift_n_injective(p ^ (b as u32), p ^ (x as u32), 8);
    } else {
        assert(t.drop_last() =~= s.drop_last().update(i, b));
        lemma_crc_fold_detects_byte_change(c, s.drop_last(), i, b);
        let ra = crc_fold(c, t.drop_last());
        let rb = crc_fold(c, s.drop_last());
        let l = s.last() as u32;
        assert(ra != rb ==> ra ^ l != rb ^ l) by (bit_vector);
        lemma_crc_shift_n_injective(ra ^ l, rb ^ l, 8);
    }
}

/// Changing any single byte of a sequence changes its CRC-32.
pub proof fn lemma_crc32_detects_byte_change(s: Seq<u8>, i: int, b: u8)
    requires
        0 <= i < s.len(),
        b != s[i],
    ensures
        crc32(s.update(i, b)) != crc32(s),
{
    lemma_crc_fold_detects_byte_change(0xffff_ffffu32, s, i, b);
    let x = crc_fold(0xffff_ffffu32, s.update(i, b));
    let y = crc_fold(0xffff_ffffu32, s);
    assert(x != y ==> x ^ 0xffff_ffffu32 != y ^ 0xffff_ffffu32) by (bit_vector);
}

/// The CRC-32 of no bytes is zero.
pub proof fn lemma_crc32_empty()
    ensures
        crc32(Seq::<u8>::empty()) == 0,
{
    assert(0xffff_ffffu32 ^ 0xffff_ffffu32 == 0) by (bit_vector);
}

/// Feeding `a` and then `b` is the same as feeding their concatenation.
pub proof fn lemma_crc_fold_concat(c: u32, a: Seq<u8>, b: Seq<u8>)
    ensures
        crc_fold(c, a + b) == crc_fold(crc_fold(c, a), b),
    decreases b.len(),
{
    if b.len() == 0 {
        assert(a + b =~= a);
    } else {
        assert((a + b).drop_last() =~= a + b.drop_last());
        lemma_crc_fold_concat(c, a, b.drop_last());
    }
}

/// The entries of the lookup table of the byte-wise algorithm: for each of
/// the 256 byte values `n`, the register that eight division steps make of
/// `n`.
pub open spec fn crc_table() -> Seq<u32> {
    Seq::new(256, |n: int| crc_byte(n as u32))
}

/// The lookup table of the byte-wise algorithm: entry `n` is `crc_byte(n)`,
/// for each of the 256 byte values.
pub struct CrcTable {
    entries: Vec<u32>,
}

impl View for CrcTable {
    type V = Seq<u32>;

    /// The entries of the table, in order.
    closed spec fn view(&self) -> Seq<u32> {
        self.entries@
    }
}

impl CrcTable {
    /// The table holds, for each byte value, the register that eight division
    /// steps make of it.
    #[verifier::type_invariant]
    spec fn filled(&self) -> bool {
        &&& self.entries.len() == 256
        &&& forall|i: int| 0 <= i < 256 ==> #[trigger] self.entries[i] == crc_byte(i as u32)
    }

    /// Feeds `buf` into the running register `crc`.
    pub fn update(&self, crc: u32, buf: &[u8]) -> (r: u32)
        ensures
            r == crc_fold(crc, buf@),
    {
        proof {
            use_type_invariant(self);
        }
        let mut c: u32 = crc;
        let mut i: usize = 0;
        while i < buf.len()
            invariant
                self.filled(),
                i <= buf.len(),
                c == crc_fold(crc, buf@.take(i as int)),
            decreases buf.len() - i,
        {
            let x: u32 = c ^ (buf[i] as u32);
            proof {
                lemma_table_step(x);
                assert(buf@.take(i + 1).drop_last() =~= buf@.take(i as int));
            }
            let slot: usize = (x & 0xff) as usize;
            c = self.entries[slot] ^ (x >> 8);
            i += 1;
        }
        proof {
            assert(buf@.take(i as int) =~= buf@);
        }
        c
    }

    /// The CRC-32 of `buf`.
    pub fn checksum(&self, buf: &[u8]) -> (r: u32)
        ensures
            r == crc32(buf@),
    {
        self.update(0xffff_ffff, buf) ^ 0xffff_ffff
    }
}

/// Builds the lookup table: 256 entries, entry `n` being `n` after eight
/// division steps.
pub fn make_crc_table() -> (table: CrcTable)
    ensures
        table@ == crc_table(),
{
    let mut entries: Vec<u32> = Vec::new();
    let mut n: u32 = 0;
    while n < 256
        invariant
            n <= 256,
            entries.len() == n,
            forall|i: int| 0 <= i < n ==> #[trigger] entries[i] == crc_byte(i as u32),
        decreases 256 - n,
    {
        let mut c: u32 = n;
        let mut k: u32 = 0;
        while k < 8
            invariant
                k <= 8,
                c == crc_shift_n(n, k as nat),
            decreases 8 - k,
        {
            if c & 1 != 0 {
                c = 0xedb8_8320u32 ^ (c >> 1);
            } else {
                c = c >> 1;
            }
            k += 1;
        }
        entries.push(c);
        n += 1;
    }
    proof {
        assert(entries@ =~= crc_table());
    }
    CrcTable { entries }
}

/// Feeds `buf` into the running register `crc` and returns the new register.
/// The register starts at all ones; the transmitted checksum is the one's
/// complement of the final register.
///
/// Builds a table for this one call; hold a [`CrcTable`] to checksum many
/// buffers.
pub fn update_crc(crc: u32, buf: &[u8]) -> (r: u32)
    ensures
        r == crc_fold(crc, buf@),
{
    let table = make_crc_table();
    table.update(crc, buf)
}

/// The CRC-32 of `buf`.
///
/// Builds a table for this one call; hold a [`CrcTable`] to checksum many
/// buffers.
pub fn crc(buf: &[u8]) -> (r: u32)
    ensures
        r == crc32(buf@),
{
    update_crc(0xffff_ffff, buf) ^ 0xffff_ffff
}

} // verus!
