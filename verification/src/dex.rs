//! The checksummed buffer: the full bytes of a DEX file image, with
//! operations to read, recompute, compare and repair the header checksum.
//!
//! The checksum field is stored at byte offsets 8..12; the payload it
//! protects runs from offset 12 to the end of the buffer.  A buffer shorter
//! than 12 bytes has no complete header and is rejected at construction.

use vstd::prelude::*;
use crate::checksum::{be_bytes_of, rolling_checksum_of, rolling_checksum, to_be_bytes};

verus! {

/// First byte offset of the payload; also the least length of a valid buffer.
pub const PAYLOAD_OFFSET: usize = 12;

/// The 4 stored checksum bytes of a buffer: bytes 8..12 verbatim.
pub open spec fn stored_checksum_of(s: Seq<u8>) -> Seq<u8> {
    s.subrange(8, 12)
}

/// The payload of a buffer: every byte from offset 12 to the end.
pub open spec fn payload_of(s: Seq<u8>) -> Seq<u8> {
    s.skip(12)
}

/// The checksum a buffer's header ought to hold: the rolling checksum of the
/// payload, serialized most significant byte first.
pub open spec fn expected_checksum_of(s: Seq<u8>) -> Seq<u8> {
    be_bytes_of(rolling_checksum_of(payload_of(s)))
}

/// A buffer's stored checksum agrees, byte for byte, with the checksum of
/// its payload.
pub open spec fn checksum_ok(s: Seq<u8>) -> bool {
    stored_checksum_of(s) == expected_checksum_of(s)
}

/// The buffer after a repair: bytes 8..12 replaced by the expected checksum,
/// everything else unchanged.
pub open spec fn repaired(s: Seq<u8>) -> Seq<u8> {
    s.subrange(0, 8) + expected_checksum_of(s) + s.skip(12)
}

/// Why a byte sequence was refused as a DEX image.
#[derive(Clone, Copy, Debug, PartialEq, Eq, Structural)]
pub enum DexError {
    /// Shorter than the 12-byte header prefix, so the checksum field is
    /// incomplete.
    TooShort,
}

/// The full contents of a DEX file image, at least 12 bytes long.
#[derive(Debug)]
pub struct Dex {
    bytes: Vec<u8>,
}

impl View for Dex {
    type V = Seq<u8>;

    closed spec fn view(&self) -> Seq<u8> {
        self.bytes@
    }
}

impl Dex {
    /// The buffer is long enough that the header checksum field exists.
    pub open spec fn wf(&self) -> bool {
        self@.len() >= 12
    }

    /// Takes ownership of a fully read byte sequence.  Succeeds exactly when
    /// the sequence is long enough to hold the 12-byte header prefix.
    pub fn from_bytes(bytes: Vec<u8>) -> (r: Result<Dex, DexError>)
        ensures
            bytes@.len() >= 12 ==> (r matches Ok(d) && d@ == bytes@ && d.wf()),
            bytes@.len() < 12 ==> (r matches Err(e) && e == DexError::TooShort),
    {
        if bytes.len() < PAYLOAD_OFFSET {
            Err(DexError::TooShort)
        } else {
            Ok(Dex { bytes })
        }
    }

    /// Number of bytes in the buffer.
    pub fn len(&self) -> (r: usize)
        ensures
            r == self@.len(),
    {
        self.bytes.len()
    }

    /// The buffer's contents, byte for byte.
    pub fn bytes(&self) -> (r: &Vec<u8>)
        ensures
            r@ == self@,
    {
        &self.bytes
    }

    /// The checksum stored in the header: bytes 8..12 verbatim, in file
    /// byte order.
    pub fn current_checksum(&self) -> (r: [u8; 4])
        requires
            self.wf(),
        ensures
            r@ == stored_checksum_of(self@),
    {
        let r: [u8; 4] = [
            self.bytes[8],
            self.bytes[9],
            self.bytes[10],
            self.bytes[11],
        ];
        assert(r@ =~= stored_checksum_of(self@));
        r
    }

    /// The checksum the header ought to hold: the rolling checksum of the
    /// payload (bytes 12..end), serialized most significant byte first.
    pub fn expect_checksum(&self) -> (r: [u8; 4])
        requires
            self.wf(),
        ensures
            r@ == expected_checksum_of(self@),
    {
        let payload = vstd::slice::slice_subrange(
            self.bytes.as_slice(),
            PAYLOAD_OFFSET,
            self.bytes.len(),
        );
        assert(payload@ =~= payload_of(self@));
        let c = rolling_checksum(payload);
        to_be_bytes(c)
    }

    /// True iff the stored and the expected checksum agree byte for byte.
    pub fn check_checksum(&self) -> (r: bool)
        requires
            self.wf(),
        ensures
            r == checksum_ok(self@),
    {
        let cur = self.current_checksum();
        let exp = self.expect_checksum();
        let eq = cur[0] == exp[0] && cur[1] == exp[1] && cur[2] == exp[2] && cur[3] == exp[3];
        proof {
            if eq {
                assert(cur@ =~= exp@);
            }
        }
        eq
    }

    /// Recomputes the expected checksum and, where the stored one differs,
    /// overwrites bytes 8..12 with it.  Returns true iff a correction was
    /// applied; an already-valid buffer is left untouched.
    pub fn correct_checksum(&mut self) -> (r: bool)
        requires
            old(self).wf(),
        ensures
            r == !checksum_ok(old(self)@),
            checksum_ok(old(self)@) ==> final(self)@ == old(self)@,
            !checksum_ok(old(self)@) ==> final(self)@ == repaired(old(self)@),
            final(self).wf(),
    {
        let exp = self.expect_checksum();
        let cur = self.current_checksum();
        let same = cur[0] == exp[0] && cur[1] == exp[1] && cur[2] == exp[2] && cur[3] == exp[3];
        proof {
            if same {
                assert(cur@ =~= exp@);
            }
        }
        if !same {
            self.bytes[8] = exp[0];
            self.bytes[9] = exp[1];
            self.bytes[10] = exp[2];
            self.bytes[11] = exp[3];
            assert(self@ =~= repaired(old(self)@));
            true
        } else {
            false
        }
    }
}

/// The rolling checksum is a function of the payload bytes alone: equal
/// payloads always give equal checksums, so repeated computations over an
/// unchanged buffer reproduce the same value.
pub proof fn lemma_checksum_deterministic(p1: Seq<u8>, p2: Seq<u8>)
    requires
        p1 == p2,
    ensures
        rolling_checksum_of(p1) == rolling_checksum_of(p2),
        be_bytes_of(rolling_checksum_of(p1)) == be_bytes_of(rolling_checksum_of(p2)),
{
}

/// An empty payload leaves both running sums at their initial values
/// (`a == 1`, `b == 0`), so its checksum is 1 and its serialized form is
/// `[0, 0, 0, 1]`.
pub proof fn lemma_empty_payload_checksum()
    ensures
        rolling_checksum_of(Seq::<u8>::empty()) == 1,
        be_bytes_of(rolling_checksum_of(Seq::<u8>::empty())) == seq![0u8, 0u8, 0u8, 1u8],
{
    assert(be_bytes_of(1) =~= seq![0u8, 0u8, 0u8, 1u8]);
}

/// A buffer of exactly 12 bytes has an empty payload, so the checksum its
/// header ought to hold is that of the empty sequence: `[0, 0, 0, 1]`.
pub proof fn lemma_minimal_buffer_expected_checksum(s: Seq<u8>)
    requires
        s.len() == 12,
    ensures
        payload_of(s) == Seq::<u8>::empty(),
        expected_checksum_of(s) == seq![0u8, 0u8, 0u8, 1u8],
{
    assert(payload_of(s) =~= Seq::<u8>::empty());
    lemma_empty_payload_checksum();
}

/// Repairing a buffer rewrites only the checksum field: the first 8 bytes
/// and the payload are unchanged, the length is kept, and bytes 8..12 hold
/// the expected checksum.
pub proof fn lemma_repaired_shape(s: Seq<u8>)
    requires
        s.len() >= 12,
    ensures
        repaired(s).len() == s.len(),
        repaired(s).subrange(0, 8) == s.subrange(0, 8),
        payload_of(repaired(s)) == payload_of(s),
        stored_checksum_of(repaired(s)) == expected_checksum_of(s),
{
    assert(repaired(s).subrange(0, 8) =~= s.subrange(0, 8));
    assert(payload_of(repaired(s)) =~= payload_of(s));
    assert(stored_checksum_of(repaired(s)) =~= expected_checksum_of(s));
}

/// A repaired buffer passes the check: its stored checksum agrees with the
/// checksum of its (unchanged) payload.  Hence correcting twice is a no-op
/// the second time: the repaired buffer is a fixed point of repair.
pub proof fn lemma_repair_makes_ok(s: Seq<u8>)
    requires
        s.len() >= 12,
    ensures
        checksum_ok(repaired(s)),
        repaired(repaired(s)) == repaired(s),
{
    lemma_repaired_shape(s);
    assert(repaired(repaired(s)) =~= repaired(s));
}

/// A buffer whose stored checksum already agrees with its payload is its own
/// repaired form: repair changes nothing on a valid buffer.
pub proof fn lemma_ok_buffer_is_fixed(s: Seq<u8>)
    requires
        s.len() >= 12,
        checksum_ok(s),
    ensures
        repaired(s) == s,
{
    assert(repaired(s) =~= s);
}

} // verus!
