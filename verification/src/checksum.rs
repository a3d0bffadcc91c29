//! The rolling checksum algorithm: two running sums modulo 65521, combined
//! into one 32-bit value, plus its big-endian serialization into 4 bytes.

use vstd::prelude::*;

verus! {

/// Modulus of both running sums.
pub const SUM_MODULUS: u32 = 65521;

/// The pair of running sums after a whole byte sequence has been processed:
/// `.0` is `a` (starts at 1, adds each byte), `.1` is `b` (starts at 0, adds
/// each successive value of `a`).  Both are reduced modulo 65521 at every step.
pub open spec fn rolling_sums(s: Seq<u8>) -> (int, int)
    decreases s.len(),
{
    if s.len() == 0 {
        (1int, 0int)
    } else {
        let prev = rolling_sums(s.drop_last());
        let a = (prev.0 + s.last()) % 65521;
        let b = (prev.1 + a) % 65521;
        (a, b)
    }
}

/// The 32-bit checksum of a byte sequence: `b` in the high 16 bits, `a` in
/// the low 16 bits.
pub open spec fn rolling_checksum_of(s: Seq<u8>) -> int {
    rolling_sums(s).1 * 0x10000 + rolling_sums(s).0
}

/// Both running sums always lie in `[0, 65521)`.
pub proof fn lemma_rolling_sums_bounds(s: Seq<u8>)
    ensures
        0 <= rolling_sums(s).0 < 65521,
        0 <= rolling_sums(s).1 < 65521,
    decreases s.len(),
{
    if s.len() > 0 {
        lemma_rolling_sums_bounds(s.drop_last());
    }
}

/// The checksum of any byte sequence fits in 32 bits.
pub proof fn lemma_checksum_fits(s: Seq<u8>)
    ensures
        0 <= rolling_checksum_of(s) < 0x1_0000_0000,
{
    lemma_rolling_sums_bounds(s);
}

/// The four bytes of a 32-bit value, most significant first.
pub open spec fn be_bytes_of(x: int) -> Seq<u8> {
    seq![
        ((x / 0x100_0000) % 0x100) as u8,
        ((x / 0x1_0000) % 0x100) as u8,
        ((x / 0x100) % 0x100) as u8,
        (x % 0x100) as u8,
    ]
}

/// Computes the rolling checksum of `data` in one linear pass.
pub fn rolling_checksum(data: &[u8]) -> (r: u32)
    ensures
        r as int == rolling_checksum_of(data@),
{
    let mut a: u32 = 1;
    let mut b: u32 = 0;
    let mut i: usize = 0;
    while i < data.len()
        invariant
            i <= data.len(),
            (a as int, b as int) == rolling_sums(data@.take(i as int)),
            a < 65521,
            b < 65521,
        decreases data.len() - i,
    {
        a = (a + data[i] as u32) % SUM_MODULUS;
        b = (b + a) % SUM_MODULUS;
        i = i + 1;
        proof {
            assert(data@.take(i as int).drop_last() =~= data@.take(i as int - 1));
        }
    }
    proof {
        assert(data@.take(data@.len() as int) =~= data@);
    }
    b * 0x1_0000 + a
}

/// Serializes a 32-bit value into 4 bytes, most significant byte first.
pub fn to_be_bytes(x: u32) -> (r: [u8; 4])
    ensures
        r@ == be_bytes_of(x as int),
{
    let r: [u8; 4] = [
        (x / 0x100_0000 % 0x100) as u8,
        (x / 0x1_0000 % 0x100) as u8,
        (x / 0x100 % 0x100) as u8,
        (x % 0x100) as u8,
    ];
    assert(r@ =~= be_bytes_of(x as int));
    r
}

} // verus!
