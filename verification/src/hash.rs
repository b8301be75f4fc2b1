//! BLAKE3 content addressing.
//!
//! [`ContentHash`] is a 32-byte BLAKE3 digest. It is the identity of a
//! receipt: every link of a chain names its predecessor by it.

use vstd::prelude::*;

use crate::text::{
    decimal, hex_bytes, lemma_hex_round_trip, hex_decode, hex_encode, hex_error_message, hex_text, is_hex_text,
    push_decimal, push_str,
};

verus! {

/// The BLAKE3 digest of a byte string (32 bytes).
pub uninterp spec fn blake3_digest(data: Seq<u8>) -> Seq<u8>;

/// `blake3::hash`: the 32-byte BLAKE3 digest of the data. The digest is a
/// function of the bytes alone and is named `blake3_digest`.
#[verifier::external_body]
fn blake3_hash(data: &[u8]) -> (d: [u8; 32])
    ensures
        d@ == blake3_digest(data@),
{
    *blake3::hash(data).as_bytes()
}

/// Thirty-two zero bytes: the genesis sentinel.
pub open spec fn zero_digest() -> Seq<u8> {
    Seq::new(32, |i: int| 0u8)
}

/// A 32-byte BLAKE3 digest.
#[derive(Clone, Copy, PartialEq, Eq, Hash, Debug)]
pub struct ContentHash(pub [u8; 32]);

impl View for ContentHash {
    type V = Seq<u8>;

    open spec fn view(&self) -> Seq<u8> {
        self.0@
    }
}

/// Text of the error for hex that decodes to the wrong number of bytes.
pub open spec fn wrong_length_message(n: nat) -> Seq<char> {
    "ContentHash expected 32 bytes (64 hex chars), got "@ + decimal(n)
}

impl ContentHash {
    /// Hash arbitrary bytes.
    pub fn of(bytes: &[u8]) -> (h: ContentHash)
        ensures
            h@ == blake3_digest(bytes@),
    {
        ContentHash(blake3_hash(bytes))
    }

    /// The genesis sentinel (all zero): the `prev_hash` of every chain's
    /// first receipt.
    pub fn genesis() -> (h: ContentHash)
        ensures
            h@ == zero_digest(),
    {
        let h = ContentHash([0u8; 32]);
        assert(h@ =~= zero_digest());
        h
    }

    /// Is this the genesis sentinel?
    pub fn is_genesis(&self) -> (b: bool)
        ensures
            b == (self@ == zero_digest()),
    {
        let mut i: usize = 0;
        while i < 32
            invariant
                i <= 32,
                forall|j: int| 0 <= j < i ==> self.0@[j] == 0u8,
            decreases 32 - i,
        {
            if self.0[i] != 0 {
                assert(self@[i as int] != zero_digest()[i as int]);
                return false;
            }
            i = i + 1;
        }
        assert(self@ =~= zero_digest());
        true
    }

    /// Do the two digests hold the same bytes?
    pub fn same_as(&self, other: &ContentHash) -> (b: bool)
        ensures
            b == (self@ == other@),
    {
        let mut i: usize = 0;
        while i < 32
            invariant
                i <= 32,
                forall|j: int| 0 <= j < i ==> self.0@[j] == other.0@[j],
            decreases 32 - i,
        {
            if self.0[i] != other.0[i] {
                return false;
            }
            i = i + 1;
        }
        assert(self@ =~= other@);
        true
    }

    /// Lowercase hexadecimal text (64 characters).
    pub fn hex(&self) -> (s: String)
        ensures
            s@ == hex_text(self@),
    {
        hex_encode(&self.0)
    }

    /// The short debugging form: `ContentHash(` and the first 16 hex
    /// digits, then `…)`.
    pub fn debug_text(&self) -> (s: String)
        ensures
            s@ == "ContentHash("@ + hex_text(self@).take(16) + "…)"@,
    {
        let mut head: Vec<u8> = Vec::new();
        let mut i: usize = 0;
        while i < 8
            invariant
                i <= 8,
                head@ == self@.take(i as int),
            decreases 8 - i,
        {
            head.push(self.0[i]);
            assert(self@.take(i + 1) =~= self@.take(i as int).push(self@[i as int]));
            i = i + 1;
        }
        let digits = hex_encode(head.as_slice());
        assert(hex_text(head@) =~= hex_text(self@).take(16));
        let mut s = String::new();
        push_str(&mut s, "ContentHash(");
        push_str(&mut s, digits.as_str());
        push_str(&mut s, "…)");
        s
    }

    /// Parse 64 hex digits (either case) back into a digest. Text that is
    /// not hex, or hex of any other length than 32 bytes, is refused.
    pub fn from_hex(text: &str) -> (r: Result<ContentHash, String>)
        ensures
            r is Ok <==> (is_hex_text(text@) && hex_bytes(text@).len() == 32),
            r matches Ok(h) ==> h@ == hex_bytes(text@),
            (is_hex_text(text@) && hex_bytes(text@).len() != 32) ==> (r matches Err(m) && m@
                == wrong_length_message(hex_bytes(text@).len())),
    {
        match hex_decode(text) {
            Err(e) => Err(hex_error_message(&e)),
            Ok(bytes) => {
                if bytes.len() != 32 {
                    let mut m = String::new();
                    push_str(&mut m, "ContentHash expected 32 bytes (64 hex chars), got ");
                    push_decimal(&mut m, bytes.len() as u64);
                    Err(m)
                } else {
                    let mut out = [0u8; 32];
                    let mut i: usize = 0;
                    while i < 32
                        invariant
                            i <= 32,
                            bytes@.len() == 32,
                            forall|j: int| 0 <= j < i ==> out@[j] == bytes@[j],
                        decreases 32 - i,
                    {
                        out[i] = bytes[i];
                        i = i + 1;
                    }
                    assert(out@ =~= bytes@);
                    Ok(ContentHash(out))
                }
            },
        }
    }
}

/// Parsing a digest's hex text gives the digest back: `from_hex(&h.hex())`
/// is `Ok` with the same bytes.
pub proof fn lemma_content_hash_hex_round_trip(h: ContentHash)
    ensures
        is_hex_text(hex_text(h@)),
        hex_bytes(hex_text(h@)) == h@,
        hex_bytes(hex_text(h@)).len() == 32,
{
    lemma_hex_round_trip(h@);
}

} // verus!
