//! BLAKE3 content addresses, as `lava_outcome_chain::ContentHash`
//! holds them: 32 raw bytes, shown as 64 lowercase hex digits.

use vstd::prelude::*;
use crate::text::digit_char;

verus! {

/// The BLAKE3 digest of `data` (32 bytes), as `blake3::hash` computes it.
pub uninterp spec fn blake3_digest(data: Seq<u8>) -> Seq<u8>;

/// The lowercase hex digit for a nibble (`n < 16`).
pub open spec fn hex_digit(n: nat) -> char {
    if n < 10 {
        digit_char(n)
    } else if n == 10 {
        'a'
    } else if n == 11 {
        'b'
    } else if n == 12 {
        'c'
    } else if n == 13 {
        'd'
    } else if n == 14 {
        'e'
    } else {
        'f'
    }
}

/// Lowercase hex encoding: two digits per byte, high nibble first.
pub open spec fn hex_lower(bytes: Seq<u8>) -> Seq<char> {
    Seq::new(
        2 * bytes.len(),
        |i: int|
            if i % 2 == 0 {
                hex_digit((bytes[i / 2] / 16) as nat)
            } else {
                hex_digit((bytes[i / 2] % 16) as nat)
            },
    )
}

/// Calls `lava_outcome_chain::ContentHash::of`, which hashes `bytes`
/// with BLAKE3; the result is named [`blake3_digest`] of the bytes.
#[verifier::external_body]
fn blake3_of(bytes: &[u8]) -> (digest: [u8; 32])
    ensures
        digest@ == blake3_digest(bytes@),
{
    lava_outcome_chain::ContentHash::of(bytes).0
}

/// Calls `lava_outcome_chain::ContentHash::hex`, which encodes the 32
/// bytes with `hex::encode`: 64 lowercase hex digits, two per byte,
/// high nibble first.
#[verifier::external_body]
fn hex_encode(bytes: [u8; 32]) -> (s: String)
    ensures
        s@ == hex_lower(bytes@),
{
    lava_outcome_chain::ContentHash(bytes).hex()
}

/// A 32-byte BLAKE3 content address.
#[derive(Clone, Copy, Debug, PartialEq, Eq)]
pub struct ContentHash(pub [u8; 32]);

impl ContentHash {
    /// Hashes arbitrary bytes.
    pub fn of(bytes: &[u8]) -> (h: ContentHash)
        ensures
            h.0@ == blake3_digest(bytes@),
    {
        ContentHash(blake3_of(bytes))
    }

    /// The all-zero genesis sentinel.
    pub fn genesis() -> (h: ContentHash)
        ensures
            forall|i: int| 0 <= i < 32 ==> h.0@[i] == 0,
    {
        ContentHash([0u8; 32])
    }

    /// Is this the all-zero genesis sentinel?
    pub fn is_genesis(&self) -> (b: bool)
        ensures
            b == (forall|i: int| 0 <= i < 32 ==> self.0@[i] == 0),
    {
        let mut i: usize = 0;
        while i < 32
            invariant
                i <= 32,
                forall|j: int| 0 <= j < i ==> self.0@[j] == 0,
            decreases 32 - i,
        {
            if self.0[i] != 0 {
                return false;
            }
            i = i + 1;
        }
        true
    }

    /// The 64-digit lowercase hex form.
    pub fn hex(&self) -> (s: String)
        ensures
            s@ == hex_lower(self.0@),
    {
        hex_encode(self.0)
    }
}

} // verus!
