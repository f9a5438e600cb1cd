//! Content fingerprinting: a deterministic 64-bit content hash rendered as
//! a fixed-width, 16-digit lowercase hex string, used for change detection.

use vstd::prelude::*;

use crate::strutil::push_char;

verus! {

/// The 64-bit hash that `seahash::hash` computes for a byte sequence.
/// The hash is a pure function of the bytes alone (the unseeded entry
/// point uses fixed internal constants), so it may be given a name.
pub uninterp spec fn seahash_of(bytes: Seq<u8>) -> u64;

/// Relies on `seahash::hash`: a deterministic, unseeded 64-bit hash of the
/// byte slice, depending on the bytes alone.
#[verifier::external_body]
fn seahash_u64(bytes: &[u8]) -> (r: u64)
    ensures
        r == seahash_of(bytes@),
{
    seahash::hash(bytes)
}

pub const HEX_DIGITS: [char; 16] = [
    '0', '1', '2', '3', '4', '5', '6', '7', '8', '9', 'a', 'b', 'c', 'd', 'e', 'f',
];

/// The fixed-width 16-digit lowercase hex rendering of a 64-bit value,
/// most significant digit first.
pub open spec fn hex16(h: u64) -> Seq<char> {
    Seq::new(16, |i: int| HEX_DIGITS@[((h >> ((15 - i) * 4)) & 0xf) as int])
}

/// The fingerprint of a byte sequence: its hash, rendered as fixed-width hex.
pub open spec fn spec_fingerprint(bytes: Seq<u8>) -> Seq<char> {
    hex16(seahash_of(bytes))
}

/// Renders a 64-bit value as exactly 16 lowercase hex digits.
pub fn to_hex16(h: u64) -> (r: String)
    ensures
        r@ == hex16(h),
{
    let mut r = String::new();
    for i in 0..16usize
        invariant
            r@ =~= hex16(h).take(i as int),
    {
        let shift: u64 = ((15 - i) as u64) * 4;
        let d: u64 = (h >> shift) & 0xf;
        assert((h >> shift) & 0xf < 16) by (bit_vector);
        push_char(&mut r, HEX_DIGITS[d as usize]);
        assert(r@ =~= hex16(h).take(i + 1));
    }
    assert(hex16(h).take(16) =~= hex16(h));
    r
}

/// Computes the fingerprint of the given bytes: the stable content hash,
/// rendered as a fixed-width 16-digit lowercase hex string.
pub fn fingerprint(bytes: &[u8]) -> (r: String)
    ensures
        r@ == spec_fingerprint(bytes@),
        r@.len() == 16,
{
    let h = seahash_u64(bytes);
    to_hex16(h)
}

/// The fingerprint is a pure function of the content: equal byte sequences
/// always fingerprint to the same string, across calls and across runs.
pub proof fn lemma_fingerprint_stable(b1: Seq<u8>, b2: Seq<u8>)
    requires
        b1 == b2,
    ensures
        spec_fingerprint(b1) == spec_fingerprint(b2),
{
}

} // verus!
