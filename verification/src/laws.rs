//! Properties that span several operations of the library.

use vstd::prelude::*;

use crate::chain::{append_outcome, next_prev_hash, sealed_after, AppendError};
use crate::receipt::{rehash, Payload, Receipt, ReceiptModel};
use crate::signing::{
    lemma_ed25519_signer_endorsed, Ed25519Signer, Ed25519Verifier, NoSigning, SignatureModel,
    SignatureVerifier, SigningProvider,
};
use crate::sink::{last_record, OutcomeSink, SinkModel};
use crate::time::Timestamp;
use crate::verify::{chain_valid, expected_prev, receipt_checks};

verus! {

/// The receipt before position `i`, if any.
pub open spec fn predecessor<V>(rs: Seq<ReceiptModel<V>>, i: int) -> Option<ReceiptModel<V>> {
    if i == 0 {
        None
    } else {
        Some(rs[i - 1])
    }
}

/// Every receipt of `rs` was sealed right after its predecessor by
/// `signer`, the way [`crate::OutcomeChain::append_at`] seals receipts.
pub open spec fn sealed_log<P: Payload, G: SigningProvider>(
    rs: Seq<ReceiptModel<P::V>>,
    signer: G,
) -> bool {
    forall|i: int|
        0 <= i < rs.len() ==> #[trigger] sealed_after::<P, G>(
            predecessor(rs, i),
            rs[i],
            signer,
        )
}

/// No receipt is timestamped before its predecessor.
pub open spec fn timestamps_nondecreasing<V>(rs: Seq<ReceiptModel<V>>) -> bool {
    forall|i: int| 0 < i < rs.len() ==> !(#[trigger] rs[i]).timestamp.before(rs[i - 1].timestamp)
}

/// Every signature that `signer` can make over any content is accepted by
/// `verifier`.
pub open spec fn endorses<G: SigningProvider, W: SignatureVerifier>(signer: G, verifier: W) -> bool {
    forall|content: Seq<u8>, sig: SignatureModel|
        #[trigger] signer.produces(content, sig) && sig !is Unsigned ==> verifier.accepts(
            content,
            sig,
        )
}

/// Appending a receipt sealed after the last one keeps a log sealed.
pub proof fn lemma_append_keeps_log_sealed<P: Payload, G: SigningProvider>(
    rs: Seq<ReceiptModel<P::V>>,
    next: ReceiptModel<P::V>,
    signer: G,
)
    requires
        sealed_log::<P, G>(rs, signer),
        sealed_after::<P, G>(last_record(rs), next, signer),
    ensures
        sealed_log::<P, G>(rs.push(next), signer),
{
    let grown = rs.push(next);
    assert forall|i: int| 0 <= i < grown.len() implies #[trigger] sealed_after::<P, G>(
        predecessor(grown, i),
        grown[i],
        signer,
    ) by {
        if i < rs.len() {
            assert(grown[i] == rs[i]);
            if i > 0 {
                assert(grown[i - 1] == rs[i - 1]);
            }
            assert(sealed_after::<P, G>(predecessor(rs, i), rs[i], signer));
            assert(predecessor(grown, i) == predecessor(rs, i));
        } else {
            if rs.len() > 0 {
                assert(grown[i - 1] == rs.last());
            }
        }
    }
}

/// The log of a fresh sink is sealed and in time order: with
/// [`lemma_append_keeps_sink_sealed`] at each append, any number of
/// successful appends through a chain over a retaining sink leave a log that
/// [`lemma_sealed_log_verifies`] shows `verify_chain` accepts.
pub proof fn lemma_empty_log_sealed<P: Payload, G: SigningProvider>(signer: G)
    ensures
        sealed_log::<P, G>(Seq::<ReceiptModel<P::V>>::empty(), signer),
        timestamps_nondecreasing(Seq::<ReceiptModel<P::V>>::empty()),
{
}

/// A successful append through a chain keeps the log of a retaining sink
/// sealed, and keeps its timestamps in order when the new receipt is not
/// timestamped before the last one.
pub proof fn lemma_append_keeps_sink_sealed<P: Payload, S: OutcomeSink<P>, G: SigningProvider>(
    m: SinkModel<P::V>,
    after: S,
    signer: G,
    payload: P::V,
    timestamp: Timestamp,
    r: Result<Receipt<P>, AppendError>,
)
    requires
        m.retains,
        sealed_log::<P, G>(m.records, signer),
        timestamps_nondecreasing(m.records),
        m.records.len() > 0 ==> !timestamp.before(m.records.last().timestamp),
        append_outcome::<P, S, G>(m, after, signer, payload, timestamp, r),
        r matches Ok(rc) && rc@.timestamp == timestamp,
    ensures
        sealed_log::<P, G>(after.model()->0.records, signer),
        timestamps_nondecreasing(after.model()->0.records),
{
    let rc = r->Ok_0;
    lemma_append_keeps_log_sealed::<P, G>(m.records, rc@, signer);
    let grown = m.records.push(rc@);
    assert forall|i: int| 0 < i < grown.len() implies !(#[trigger] grown[i]).timestamp.before(
        grown[i - 1].timestamp,
    ) by {
        if i < m.records.len() {
            assert(grown[i] == m.records[i] && grown[i - 1] == m.records[i - 1]);
        } else {
            assert(grown[i - 1] == m.records.last());
        }
    }
}

/// In a sealed log the sequence numbers are the positions.
proof fn lemma_sealed_log_sequences<P: Payload, G: SigningProvider>(
    rs: Seq<ReceiptModel<P::V>>,
    signer: G,
    n: int,
)
    requires
        sealed_log::<P, G>(rs, signer),
        rs.len() <= u64::MAX,
        0 <= n < rs.len(),
    ensures
        forall|i: int| 0 <= i <= n ==> (#[trigger] rs[i]).sequence == i,
    decreases n,
{
    assert(sealed_after::<P, G>(predecessor(rs, n), rs[n], signer));
    if n > 0 {
        lemma_sealed_log_sequences::<P, G>(rs, signer, n - 1);
        assert(rs[n - 1].sequence == n - 1);
    }
}

/// A log sealed by a signer whose signatures the verifier accepts, with
/// timestamps that never go back, passes every check of the verifier:
/// `verify_chain` returns `Ok` on it.
pub proof fn lemma_sealed_log_verifies<P: Payload, G: SigningProvider, W: SignatureVerifier>(
    rs: Seq<ReceiptModel<P::V>>,
    signer: G,
    verifier: W,
)
    requires
        sealed_log::<P, G>(rs, signer),
        timestamps_nondecreasing(rs),
        endorses(signer, verifier),
        rs.len() <= u64::MAX,
    ensures
        chain_valid::<P, W>(rs, verifier),
{
    if rs.len() > 0 {
        lemma_sealed_log_sequences::<P, G>(rs, signer, rs.len() - 1);
    }
    assert forall|i: int| 0 <= i < rs.len() implies #[trigger] receipt_checks::<P, W>(
        rs,
        i,
        verifier,
    ) by {
        let tail = predecessor(rs, i);
        assert(sealed_after::<P, G>(tail, rs[i], signer));
        assert(rs[i].sequence == i);
        assert(next_prev_hash(tail) == expected_prev(rs, i));
        assert(rehash::<P>(rs[i]) == Some(rs[i].content_hash));
        if rs[i].signature !is Unsigned {
            assert(signer.produces(rs[i].content_hash, rs[i].signature));
        }
    }
}

/// Unsigned receipts pass any verifier: every verifier endorses
/// [`NoSigning`].
pub proof fn lemma_no_signing_endorsed<W: SignatureVerifier>(signer: NoSigning, verifier: W)
    ensures
        endorses(signer, verifier),
{
}

/// An [`Ed25519Verifier`] holding an [`Ed25519Signer`]'s public key
/// endorses that signer.
pub proof fn lemma_ed25519_endorsed(signer: Ed25519Signer, verifier: Ed25519Verifier)
    requires
        signer.well_formed(),
        verifier.key_spec() == signer.public_spec(),
    ensures
        endorses(signer, verifier),
{
    lemma_ed25519_signer_endorsed(signer, verifier);
}

/// The content hash a receipt calls for does not depend on its signature:
/// a signature can be attached without changing what was signed.
pub proof fn lemma_rehash_ignores_signature<P: Payload>(
    r: ReceiptModel<P::V>,
    sig: SignatureModel,
)
    ensures
        rehash::<P>(r) == rehash::<P>(ReceiptModel { signature: sig, ..r }),
{
}

} // verus!
