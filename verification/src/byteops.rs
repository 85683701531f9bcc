//! Byte-buffer primitives: big-endian 32-bit words, reading and writing a
//! region of a byte vector, and the `splice` model of an in-place overwrite.

use vstd::prelude::*;

verus! {

/// The 32-bit value stored big-endian in a 4-byte sequence.
pub open spec fn spec_u32_from_be(b: Seq<u8>) -> u32
    recommends
        b.len() == 4,
{
    (b[0] as u32) << 24 | (b[1] as u32) << 16 | (b[2] as u32) << 8 | (b[3] as u32)
}

/// The big-endian 4-byte encoding of a 32-bit value.
pub open spec fn spec_u32_to_be(x: u32) -> Seq<u8> {
    seq![
        ((x >> 24) & 0xff) as u8,
        ((x >> 16) & 0xff) as u8,
        ((x >> 8) & 0xff) as u8,
        (x & 0xff) as u8,
    ]
}

/// Big-endian encoding and decoding of a 32-bit value invert each other.
pub proof fn lemma_u32_be_round_trip(x: u32)
    ensures
        spec_u32_to_be(x).len() == 4,
        spec_u32_from_be(spec_u32_to_be(x)) == x,
{
    let b0 = ((x >> 24) & 0xff) as u8;
    let b1 = ((x >> 16) & 0xff) as u8;
    let b2 = ((x >> 8) & 0xff) as u8;
    let b3 = (x & 0xff) as u8;
    assert((b0 as u32) << 24 | (b1 as u32) << 16 | (b2 as u32) << 8 | (b3 as u32) == x)
        by (bit_vector)
        requires
            b0 == ((x >> 24) & 0xff) as u8 && b1 == ((x >> 16) & 0xff) as u8 && b2 == ((x >> 8)
                & 0xff) as u8 && b3 == (x & 0xff) as u8,
    ;
}

/// `s` with the bytes at `off ..= off + sub.len()` replaced by `sub`;
/// everything else, and the length, kept.
pub open spec fn splice(s: Seq<u8>, off: int, sub: Seq<u8>) -> Seq<u8>
    recommends
        0 <= off,
        off + sub.len() <= s.len(),
{
    Seq::new(
        s.len(),
        |i: int|
            if off <= i < off + sub.len() {
                sub[i - off]
            } else {
                s[i]
            },
    )
}

/// Reads `len` bytes of `v` starting at `off` into a fresh vector.
pub fn read_bytes(v: &Vec<u8>, off: usize, len: usize) -> (r: Vec<u8>)
    requires
        off + len <= v.len(),
    ensures
        r@ == v@.subrange(off as int, off + len),
{
    read_bytes_slice(v.as_slice(), off, len)
}

/// Reads `len` bytes of the slice `v` starting at `off` into a fresh vector.
pub fn read_bytes_slice(v: &[u8], off: usize, len: usize) -> (r: Vec<u8>)
    requires
        off + len <= v.len(),
    ensures
        r@ == v@.subrange(off as int, off + len),
{
    let mut r: Vec<u8> = Vec::new();
    let mut i: usize = 0;
    while i < len
        invariant
            i <= len,
            off + len <= v@.len(),
            off + len <= usize::MAX,
            r@ == v@.subrange(off as int, off + i),
        decreases len - i,
    {
        r.push(v[off + i]);
        i = i + 1;
        assert(r@ =~= v@.subrange(off as int, off + i));
    }
    r
}

/// Overwrites the bytes of `v` at `off ..= off + src.len()` with `src`.
pub fn write_bytes(v: &mut Vec<u8>, off: usize, src: &Vec<u8>)
    requires
        off + src.len() <= old(v).len(),
    ensures
        final(v)@ == splice(old(v)@, off as int, src@),
{
    let len = src.len();
    let mut i: usize = 0;
    while i < len
        invariant
            i <= len,
            len == src.len(),
            off + len <= v.len(),
            v@.len() == old(v)@.len(),
            forall|j: int| off <= j < off + i ==> v@[j] == src@[j - off],
            forall|j: int| 0 <= j < v@.len() && !(off <= j < off + i) ==> v@[j] == old(v)@[j],
        decreases len - i,
    {
        v.set(off + i, src[i]);
        i = i + 1;
    }
    assert(v@ =~= splice(old(v)@, off as int, src@));
}

/// Reads the big-endian 32-bit value at `off`.
pub fn read_u32_be(v: &Vec<u8>, off: usize) -> (r: u32)
    requires
        off + 4 <= v.len(),
    ensures
        r == spec_u32_from_be(v@.subrange(off as int, off + 4)),
{
    let r = (v[off] as u32) << 24 | (v[off + 1] as u32) << 16 | (v[off + 2] as u32) << 8 | (v[off
        + 3] as u32);
    proof {
        let b = v@.subrange(off as int, off + 4);
        assert(b[0] == v@[off as int] && b[1] == v@[off + 1] && b[2] == v@[off + 2] && b[3] == v@[
            off + 3
        ]);
    }
    r
}

/// Writes `x` big-endian into the 4 bytes of `v` at `off`.
pub fn write_u32_be(v: &mut Vec<u8>, off: usize, x: u32)
    requires
        off + 4 <= old(v).len(),
    ensures
        final(v)@ == splice(old(v)@, off as int, spec_u32_to_be(x)),
        spec_u32_from_be(final(v)@.subrange(off as int, off + 4)) == x,
{
    v.set(off, ((x >> 24) & 0xff) as u8);
    v.set(off + 1, ((x >> 16) & 0xff) as u8);
    v.set(off + 2, ((x >> 8) & 0xff) as u8);
    v.set(off + 3, (x & 0xff) as u8);
    proof {
        assert(v@ =~= splice(old(v)@, off as int, spec_u32_to_be(x)));
        lemma_u32_be_round_trip(x);
        assert(v@.subrange(off as int, off + 4) =~= spec_u32_to_be(x));
    }
}

} // verus!
