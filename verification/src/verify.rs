//! Chain verifier.
//!
//! [`verify_chain`] walks a sequence of receipts and checks every invariant
//! a chain promises, receipt by receipt, in this order:
//!
//!   1. Sequence numbers start at 0 and increase by 1.
//!   2. The first `prev_hash` is the genesis sentinel; every later one is
//!      the previous receipt's `content_hash`.
//!   3. Each `content_hash` matches a fresh re-hash of the receipt's fields.
//!   4. Each present signature is accepted by the supplied verifier.
//!   5. Timestamps never go back.
//!
//! The first violation is reported as a typed [`VerifyError`].

use vstd::prelude::*;

use crate::hash::{zero_digest, ContentHash};
use crate::receipt::{rehash, unencodable_payload_text, Payload, Receipt, ReceiptModel};
use crate::signing::{signing_error_text, SignatureVerifier, SigningError};
use crate::sink::receipt_models;
use crate::text::{decimal, hex_text, push_decimal, push_str};
use crate::time::Timestamp;

verus! {

/// The first broken chain invariant.
#[derive(Debug)]
pub enum VerifyError {
    /// Receipt `at` carries sequence `actual` where `expected` was due.
    Sequence { at: usize, expected: u64, actual: u64 },
    /// Receipt `at` links to `actual` instead of the previous content hash.
    PrevHashMismatch { at: usize, expected: ContentHash, actual: ContentHash },
    /// Receipt `at`'s content hash is not the re-hash of its fields.
    ContentHashMismatch { at: usize, expected: ContentHash, actual: ContentHash },
    /// The verifier rejected receipt `at`'s signature.
    Signature { at: usize, source: SigningError },
    /// Receipt `at` is timestamped before its predecessor.
    TimestampRegression { at: usize, prev: Timestamp, actual: Timestamp },
    /// A receipt's fields could not be encoded for re-hashing.
    Encode(String),
}

/// The text describing a verification error.
pub open spec fn verify_error_text(e: VerifyError) -> Seq<char> {
    match e {
        VerifyError::Sequence { at, expected, actual } => "receipt "@ + decimal(at as nat)
            + ": sequence expected "@ + decimal(expected as nat) + ", got "@ + decimal(
            actual as nat,
        ),
        VerifyError::PrevHashMismatch { at, expected, actual } => "receipt "@ + decimal(at as nat)
            + ": prev_hash expected "@ + hex_text(expected@) + ", got "@ + hex_text(actual@),
        VerifyError::ContentHashMismatch { at, expected, actual } => "receipt "@ + decimal(
            at as nat,
        ) + ": content_hash expected "@ + hex_text(expected@) + ", got "@ + hex_text(actual@),
        VerifyError::Signature { at, source } => "receipt "@ + decimal(at as nat)
            + ": signature: "@ + signing_error_text(source),
        VerifyError::TimestampRegression { at, prev, actual } => "receipt "@ + decimal(at as nat)
            + ": timestamp "@ + actual.display_text()->0 + " regressed below previous "@
            + prev.display_text()->0,
        VerifyError::Encode(m) => "encode: "@ + m@,
    }
}

impl VerifyError {
    /// A human-readable description of the error.
    pub fn describe(&self) -> (s: String)
        ensures
            s@ == verify_error_text(*self),
    {
        let mut s = String::new();
        match self {
            VerifyError::Sequence { at, expected, actual } => {
                push_str(&mut s, "receipt ");
                push_decimal(&mut s, *at as u64);
                push_str(&mut s, ": sequence expected ");
                push_decimal(&mut s, *expected);
                push_str(&mut s, ", got ");
                push_decimal(&mut s, *actual);
            },
            VerifyError::PrevHashMismatch { at, expected, actual } => {
                push_str(&mut s, "receipt ");
                push_decimal(&mut s, *at as u64);
                push_str(&mut s, ": prev_hash expected ");
                push_str(&mut s, expected.hex().as_str());
                push_str(&mut s, ", got ");
                push_str(&mut s, actual.hex().as_str());
            },
            VerifyError::ContentHashMismatch { at, expected, actual } => {
                push_str(&mut s, "receipt ");
                push_decimal(&mut s, *at as u64);
                push_str(&mut s, ": content_hash expected ");
                push_str(&mut s, expected.hex().as_str());
                push_str(&mut s, ", got ");
                push_str(&mut s, actual.hex().as_str());
            },
            VerifyError::Signature { at, source } => {
                push_str(&mut s, "receipt ");
                push_decimal(&mut s, *at as u64);
                push_str(&mut s, ": signature: ");
                push_str(&mut s, source.describe().as_str());
            },
            VerifyError::TimestampRegression { at, prev, actual } => {
                push_str(&mut s, "receipt ");
                push_decimal(&mut s, *at as u64);
                push_str(&mut s, ": timestamp ");
                push_str(&mut s, actual.display().as_str());
                push_str(&mut s, " regressed below previous ");
                push_str(&mut s, prev.display().as_str());
            },
            VerifyError::Encode(m) => {
                push_str(&mut s, "encode: ");
                push_str(&mut s, m.as_str());
            },
        }
        s
    }
}

/// The `prev_hash` due at position `i`.
pub open spec fn expected_prev<V>(rs: Seq<ReceiptModel<V>>, i: int) -> Seq<u8> {
    if i == 0 {
        zero_digest()
    } else {
        rs[i - 1].content_hash
    }
}

/// Receipt `i` passes every check.
pub open spec fn receipt_checks<P: Payload, W: SignatureVerifier>(
    rs: Seq<ReceiptModel<P::V>>,
    i: int,
    verifier: W,
) -> bool {
    &&& rs[i].sequence == i
    &&& rs[i].prev_hash == expected_prev(rs, i)
    &&& rehash::<P>(rs[i]) == Some(rs[i].content_hash)
    &&& (rs[i].signature !is Unsigned ==> verifier.accepts(rs[i].content_hash, rs[i].signature))
    &&& (i > 0 ==> !rs[i].timestamp.before(rs[i - 1].timestamp))
}

/// Every receipt passes every check.
pub open spec fn chain_valid<P: Payload, W: SignatureVerifier>(
    rs: Seq<ReceiptModel<P::V>>,
    verifier: W,
) -> bool {
    forall|i: int| 0 <= i < rs.len() ==> #[trigger] receipt_checks::<P, W>(rs, i, verifier)
}

/// A chain passes every check exactly when, at every position `i`: the
/// sequence number is `i`; the previous hash is the genesis sentinel at 0
/// and the predecessor's content hash after; the content hash is what the
/// receipt's fields call for; a signature, when present, is accepted; and
/// the timestamp has no fewer whole seconds than the predecessor's, nor as
/// many and fewer nanoseconds.
pub proof fn lemma_chain_valid_checks_every_position<P: Payload, W: SignatureVerifier>(
    rs: Seq<ReceiptModel<P::V>>,
    verifier: W,
)
    ensures
        chain_valid::<P, W>(rs, verifier) <==> forall|i: int|
            0 <= i < rs.len() ==> {
                &&& (#[trigger] rs[i]).sequence == i
                &&& rs[i].prev_hash == (if i == 0 {
                    zero_digest()
                } else {
                    rs[i - 1].content_hash
                })
                &&& rehash::<P>(rs[i]) == Some(rs[i].content_hash)
                &&& (rs[i].signature !is Unsigned ==> verifier.accepts(
                    rs[i].content_hash,
                    rs[i].signature,
                ))
                &&& (i > 0 ==> !(rs[i].timestamp.secs_spec() < rs[i - 1].timestamp.secs_spec()
                    || (rs[i].timestamp.secs_spec() == rs[i - 1].timestamp.secs_spec()
                    && rs[i].timestamp.nanos_spec() < rs[i - 1].timestamp.nanos_spec())))
            },
{
    if chain_valid::<P, W>(rs, verifier) {
        assert forall|i: int| 0 <= i < rs.len() implies (#[trigger] rs[i]).sequence == i by {
            assert(receipt_checks::<P, W>(rs, i, verifier));
        }
        assert forall|i: int| 0 <= i < rs.len() implies {
            &&& (#[trigger] rs[i]).sequence == i
            &&& rs[i].prev_hash == (if i == 0 {
                zero_digest()
            } else {
                rs[i - 1].content_hash
            })
            &&& rehash::<P>(rs[i]) == Some(rs[i].content_hash)
            &&& (rs[i].signature !is Unsigned ==> verifier.accepts(
                rs[i].content_hash,
                rs[i].signature,
            ))
            &&& (i > 0 ==> !(rs[i].timestamp.secs_spec() < rs[i - 1].timestamp.secs_spec() || (
            rs[i].timestamp.secs_spec() == rs[i - 1].timestamp.secs_spec()
                && rs[i].timestamp.nanos_spec() < rs[i - 1].timestamp.nanos_spec())))
        } by {
            assert(receipt_checks::<P, W>(rs, i, verifier));
        }
    }
    assert forall|i: int|
        0 <= i < rs.len() && (forall|j: int|
            0 <= j < rs.len() ==> {
                &&& (#[trigger] rs[j]).sequence == j
                &&& rs[j].prev_hash == (if j == 0 {
                    zero_digest()
                } else {
                    rs[j - 1].content_hash
                })
                &&& rehash::<P>(rs[j]) == Some(rs[j].content_hash)
                &&& (rs[j].signature !is Unsigned ==> verifier.accepts(
                    rs[j].content_hash,
                    rs[j].signature,
                ))
                &&& (j > 0 ==> !(rs[j].timestamp.secs_spec() < rs[j - 1].timestamp.secs_spec()
                    || (rs[j].timestamp.secs_spec() == rs[j - 1].timestamp.secs_spec()
                    && rs[j].timestamp.nanos_spec() < rs[j - 1].timestamp.nanos_spec())))
            }) implies #[trigger] receipt_checks::<P, W>(rs, i, verifier) by {
        assert(rs[i].sequence == i);
    }
}

/// `e` reports the first check that receipt `i` fails.
pub open spec fn reports_fault<P: Payload, W: SignatureVerifier>(
    e: VerifyError,
    rs: Seq<ReceiptModel<P::V>>,
    i: int,
    verifier: W,
) -> bool {
    let r = rs[i];
    if r.sequence != i {
        e == VerifyError::Sequence { at: i as usize, expected: i as u64, actual: r.sequence }
    } else if r.prev_hash != expected_prev(rs, i) {
        e matches VerifyError::PrevHashMismatch { at, expected, actual } && at == i && expected@
            == expected_prev(rs, i) && actual@ == r.prev_hash
    } else if rehash::<P>(r) is None {
        e matches VerifyError::Encode(m) && m@ == "re-hash receipt "@ + decimal(i as nat) + ": "@
            + unencodable_payload_text()
    } else if rehash::<P>(r) != Some(r.content_hash) {
        e matches VerifyError::ContentHashMismatch { at, expected, actual } && at == i && rehash::<
            P,
        >(r) == Some(expected@) && actual@ == r.content_hash
    } else if r.signature !is Unsigned && !verifier.accepts(r.content_hash, r.signature) {
        e matches VerifyError::Signature { at, source } && at == i && verifier.rejects_with(
            r.content_hash,
            r.signature,
            source,
        )
    } else {
        e == VerifyError::TimestampRegression {
            at: i as usize,
            prev: rs[i - 1].timestamp,
            actual: r.timestamp,
        }
    }
}

/// The walk behind [`verify_chain`].
fn walk_chain<P: Payload, V: SignatureVerifier>(receipts: &[Receipt<P>], verifier: &V) -> (r:
    Result<(), VerifyError>)
    ensures
        r is Ok <==> chain_valid::<P, V>(receipt_models(receipts@), *verifier),
        r matches Err(e) ==> exists|i: int|
            0 <= i < receipts@.len() && (forall|j: int|
                0 <= j < i ==> #[trigger] receipt_checks::<P, V>(
                    receipt_models(receipts@),
                    j,
                    *verifier,
                )) && !receipt_checks::<P, V>(receipt_models(receipts@), i, *verifier)
                && #[trigger] reports_fault::<P, V>(e, receipt_models(receipts@), i, *verifier),
{
    let ghost rs = receipt_models(receipts@);
    let mut prev_hash = ContentHash::genesis();
    let mut i: usize = 0;
    while i < receipts.len()
        invariant
            i <= receipts@.len(),
            rs == receipt_models(receipts@),
            forall|j: int| 0 <= j < i ==> #[trigger] receipt_checks::<P, V>(rs, j, *verifier),
            i < receipts@.len() ==> prev_hash@ == expected_prev(rs, i as int),
        decreases receipts.len() - i,
    {
        let r = &receipts[i];
        assert(rs[i as int] == r@);
        let expected_sequence = i as u64;
        if r.sequence != expected_sequence {
            let e = VerifyError::Sequence { at: i, expected: expected_sequence, actual: r.sequence };
            assert(reports_fault::<P, V>(e, rs, i as int, *verifier));
            assert(!receipt_checks::<P, V>(rs, i as int, *verifier));
            return Err(e);
        }
        if !r.prev_hash.same_as(&prev_hash) {
            let e = VerifyError::PrevHashMismatch { at: i, expected: prev_hash, actual: r.prev_hash };
            assert(reports_fault::<P, V>(e, rs, i as int, *verifier));
            assert(!receipt_checks::<P, V>(rs, i as int, *verifier));
            return Err(e);
        }
        let recomputed = match r.recompute_content_hash() {
            Ok(h) => h,
            Err(detail) => {
                let mut m = String::new();
                push_str(&mut m, "re-hash receipt ");
                push_decimal(&mut m, i as u64);
                push_str(&mut m, ": ");
                push_str(&mut m, detail.as_str());
                let e = VerifyError::Encode(m);
                assert(reports_fault::<P, V>(e, rs, i as int, *verifier));
                assert(!receipt_checks::<P, V>(rs, i as int, *verifier));
                return Err(e);
            },
        };
        if !recomputed.same_as(&r.content_hash) {
            let e = VerifyError::ContentHashMismatch {
                at: i,
                expected: recomputed,
                actual: r.content_hash,
            };
            assert(reports_fault::<P, V>(e, rs, i as int, *verifier));
            assert(!receipt_checks::<P, V>(rs, i as int, *verifier));
            return Err(e);
        }
        if r.signature.is_some() {
            match verifier.verify(r.content_hash.0.as_slice(), &r.signature) {
                Ok(()) => {},
                Err(source) => {
                    let e = VerifyError::Signature { at: i, source };
                    assert(reports_fault::<P, V>(e, rs, i as int, *verifier));
                    assert(!receipt_checks::<P, V>(rs, i as int, *verifier));
                    return Err(e);
                },
            }
        }
        if i > 0 {
            let prev = &receipts[i - 1];
            assert(rs[i - 1] == prev@);
            if r.timestamp.is_before(&prev.timestamp) {
                let e = VerifyError::TimestampRegression {
                    at: i,
                    prev: prev.timestamp,
                    actual: r.timestamp,
                };
                assert(reports_fault::<P, V>(e, rs, i as int, *verifier));
                assert(!receipt_checks::<P, V>(rs, i as int, *verifier));
                return Err(e);
            }
        }
        assert(receipt_checks::<P, V>(rs, i as int, *verifier));
        prev_hash = r.content_hash;
        i = i + 1;
    }
    Ok(())
}

/// Walk the chain end to end: `Ok` exactly when every invariant holds;
/// otherwise the error reports the first check failed by the first failing
/// receipt.
pub fn verify_chain<P: Payload, V: SignatureVerifier>(receipts: &[Receipt<P>], verifier: &V) -> (r:
    Result<(), VerifyError>)
    ensures
        r is Ok <==> chain_valid::<P, V>(receipt_models(receipts@), *verifier),
        r is Ok <==> forall|i: int|
            0 <= i < receipts@.len() ==> {
                &&& (#[trigger] receipt_models(receipts@)[i]).sequence == i
                &&& receipt_models(receipts@)[i].prev_hash == (if i == 0 {
                    zero_digest()
                } else {
                    receipt_models(receipts@)[i - 1].content_hash
                })
                &&& rehash::<P>(receipt_models(receipts@)[i]) == Some(receipt_models(receipts@)[i].content_hash)
                &&& (receipt_models(receipts@)[i].signature !is Unsigned ==> verifier.accepts(
                    receipt_models(receipts@)[i].content_hash,
                    receipt_models(receipts@)[i].signature,
                ))
                &&& (i > 0 ==> !(receipt_models(receipts@)[i].timestamp.secs_spec() < receipt_models(receipts@)[i - 1].timestamp.secs_spec()
                    || (receipt_models(receipts@)[i].timestamp.secs_spec() == receipt_models(receipts@)[i - 1].timestamp.secs_spec()
                    && receipt_models(receipts@)[i].timestamp.nanos_spec() < receipt_models(receipts@)[i - 1].timestamp.nanos_spec())))
            },
        r matches Err(e) ==> exists|i: int|
            0 <= i < receipts@.len() && (forall|j: int|
                0 <= j < i ==> #[trigger] receipt_checks::<P, V>(
                    receipt_models(receipts@),
                    j,
                    *verifier,
                )) && !receipt_checks::<P, V>(receipt_models(receipts@), i, *verifier)
                && #[trigger] reports_fault::<P, V>(e, receipt_models(receipts@), i, *verifier),
{
    let r = walk_chain(receipts, verifier);
    proof {
        let rs = receipt_models(receipts@);
        lemma_chain_valid_checks_every_position::<P, V>(rs, *verifier);
    }
    r
}

} // verus!
