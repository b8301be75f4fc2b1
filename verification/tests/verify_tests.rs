use lava_outcome_chain::{
    verify_chain, ChangeSummary, ContentHash, Ed25519Signer, Ed25519Verifier, InMemorySink,
    NoOpVerifier, NoSigning, OutcomeChain, OutcomePayload, Receipt, ResourceAddress, Signature,
    SigningError, Timestamp, VerifyError,
};

fn sample(kind: &str) -> OutcomePayload {
    OutcomePayload {
        resource: ResourceAddress::new("rio", "infra", "demo"),
        spec_hash: ContentHash::of(kind.as_bytes()),
        terraform_json_hash: ContentHash::of(b"json"),
        plan_id: None,
        phase: "Synthesized".into(),
        change_summary: ChangeSummary::default(),
        diagnostics: vec![],
    }
}

fn rehash(r: &Receipt<OutcomePayload>) -> ContentHash {
    Receipt::<OutcomePayload>::compute_content_hash(r.sequence, r.timestamp, r.prev_hash, &r.payload)
        .unwrap()
}

#[test]
fn three_receipt_chain_verifies_clean() {
    let mut chain = OutcomeChain::new(InMemorySink::<OutcomePayload>::default(), NoSigning);
    chain.append(sample("a")).unwrap();
    chain.append(sample("b")).unwrap();
    chain.append(sample("c")).unwrap();
    let receipts = chain.read_all().unwrap();
    verify_chain(&receipts, &NoOpVerifier).unwrap();
}

#[test]
fn ed25519_signed_chain_verifies_under_matching_verifier() {
    let signer = Ed25519Signer::generate().unwrap();
    let public = signer.verifying_key();
    let mut chain = OutcomeChain::new(InMemorySink::<OutcomePayload>::default(), signer);
    chain.append(sample("a")).unwrap();
    chain.append(sample("b")).unwrap();
    let receipts = chain.read_all().unwrap();
    verify_chain(&receipts, &Ed25519Verifier::new(public)).unwrap();
}

#[test]
fn tampered_payload_fails_content_hash_check() {
    let mut chain = OutcomeChain::new(InMemorySink::<OutcomePayload>::default(), NoSigning);
    chain.append(sample("a")).unwrap();
    chain.append(sample("b")).unwrap();
    let mut receipts = chain.read_all().unwrap();
    receipts[1].payload.diagnostics.push("attacker-edit".into());
    let err = verify_chain(&receipts, &NoOpVerifier).unwrap_err();
    assert!(matches!(err, VerifyError::ContentHashMismatch { at: 1, .. }));
}

#[test]
fn rebroken_prev_hash_link_surfaces_typed_error() {
    let mut chain = OutcomeChain::new(InMemorySink::<OutcomePayload>::default(), NoSigning);
    chain.append(sample("a")).unwrap();
    chain.append(sample("b")).unwrap();
    let mut receipts = chain.read_all().unwrap();
    receipts[1].prev_hash = ContentHash::of(b"forged-prev");
    receipts[1].content_hash = rehash(&receipts[1]);
    let err = verify_chain(&receipts, &NoOpVerifier).unwrap_err();
    assert!(matches!(err, VerifyError::PrevHashMismatch { at: 1, .. }));
}

#[test]
fn sequence_skip_surfaces_typed_error() {
    let mut chain = OutcomeChain::new(InMemorySink::<OutcomePayload>::default(), NoSigning);
    chain.append(sample("a")).unwrap();
    chain.append(sample("b")).unwrap();
    let mut receipts = chain.read_all().unwrap();
    receipts[1].sequence = 5;
    receipts[1].content_hash = rehash(&receipts[1]);
    let err = verify_chain(&receipts, &NoOpVerifier).unwrap_err();
    assert!(matches!(err, VerifyError::Sequence { at: 1, expected: 1, actual: 5 }));
}

#[test]
fn ed25519_chain_fails_under_different_public_key() {
    let signer = Ed25519Signer::generate().unwrap();
    let other = Ed25519Signer::generate().unwrap();
    let mut chain = OutcomeChain::new(InMemorySink::<OutcomePayload>::default(), signer);
    chain.append(sample("a")).unwrap();
    let receipts = chain.read_all().unwrap();
    let err = verify_chain(&receipts, &Ed25519Verifier::new(other.verifying_key())).unwrap_err();
    assert!(matches!(
        err,
        VerifyError::Signature { at: 0, source: SigningError::Mismatched(_) }
    ));
}

#[test]
fn empty_chain_verifies() {
    let receipts: Vec<Receipt<OutcomePayload>> = vec![];
    verify_chain(&receipts, &NoOpVerifier).unwrap();
}

#[test]
fn timestamp_regression_is_reported() {
    let mut chain = OutcomeChain::new(InMemorySink::<OutcomePayload>::default(), NoSigning);
    let t_late = Timestamp::from_unix(2_000, 0).unwrap();
    let t_early = Timestamp::from_unix(1_000, 0).unwrap();
    chain.append_at(sample("a"), t_late).unwrap();
    chain.append_at(sample("b"), t_early).unwrap();
    let receipts = chain.read_all().unwrap();
    let err = verify_chain(&receipts, &NoOpVerifier).unwrap_err();
    match err {
        VerifyError::TimestampRegression { at, prev, actual } => {
            assert_eq!(at, 1);
            assert_eq!(prev, t_late);
            assert_eq!(actual, t_early);
        }
        other => panic!("unexpected {other:?}"),
    }
}

#[test]
fn equal_timestamps_are_accepted() {
    let mut chain = OutcomeChain::new(InMemorySink::<OutcomePayload>::default(), NoSigning);
    let t = Timestamp::from_unix(5, 5).unwrap();
    chain.append_at(sample("a"), t).unwrap();
    chain.append_at(sample("b"), t).unwrap();
    verify_chain(&chain.read_all().unwrap(), &NoOpVerifier).unwrap();
}

#[test]
fn wrong_genesis_link_is_reported_at_zero() {
    let mut chain = OutcomeChain::new(InMemorySink::<OutcomePayload>::default(), NoSigning);
    chain.append(sample("a")).unwrap();
    let mut receipts = chain.read_all().unwrap();
    receipts[0].prev_hash = ContentHash::of(b"x");
    receipts[0].content_hash = rehash(&receipts[0]);
    match verify_chain(&receipts, &NoOpVerifier).unwrap_err() {
        VerifyError::PrevHashMismatch { at, expected, actual } => {
            assert_eq!(at, 0);
            assert!(expected.is_genesis());
            assert_eq!(actual, ContentHash::of(b"x"));
        }
        other => panic!("unexpected {other:?}"),
    }
}

#[test]
fn stripped_signature_still_verifies_and_forged_one_fails() {
    let signer = Ed25519Signer::generate().unwrap();
    let public = signer.verifying_key();
    let mut chain = OutcomeChain::new(InMemorySink::<OutcomePayload>::default(), signer);
    chain.append(sample("a")).unwrap();
    let mut receipts = chain.read_all().unwrap();
    receipts[0].signature = Signature::Unsigned;
    verify_chain(&receipts, &Ed25519Verifier::new(public)).unwrap();
    receipts[0].signature = Signature::Ed25519 {
        sig: "00".repeat(64),
        public_key: hex::encode(public.to_bytes()),
    };
    let err = verify_chain(&receipts, &Ed25519Verifier::new(public)).unwrap_err();
    assert!(matches!(
        err,
        VerifyError::Signature { at: 0, source: SigningError::Invalid(_) }
    ));
}

#[test]
fn forged_kind_fails_content_hash_check() {
    let mut chain = OutcomeChain::new(InMemorySink::<OutcomePayload>::default(), NoSigning);
    chain.append(sample("a")).unwrap();
    chain.append(sample("b")).unwrap();
    let mut receipts = chain.read_all().unwrap();
    receipts[1].kind = "forged.kind".into();
    let err = verify_chain(&receipts, &NoOpVerifier).unwrap_err();
    assert!(matches!(err, VerifyError::ContentHashMismatch { at: 1, .. }));
}

#[test]
fn recompute_content_hash_reads_the_stored_kind() {
    let mut chain = OutcomeChain::new(InMemorySink::<OutcomePayload>::default(), NoSigning);
    let r = chain.append(sample("a")).unwrap();
    assert_eq!(r.recompute_content_hash().unwrap(), r.content_hash);
    let mut forged = r.clone();
    forged.kind = "forged.kind".into();
    assert_ne!(forged.recompute_content_hash().unwrap(), r.content_hash);
}

#[test]
fn signature_failure_reports_the_verifier_error() {
    let signer = Ed25519Signer::generate().unwrap();
    let public = signer.verifying_key();
    let mut chain = OutcomeChain::new(InMemorySink::<OutcomePayload>::default(), signer);
    chain.append(sample("a")).unwrap();
    let mut receipts = chain.read_all().unwrap();
    let pk = match &receipts[0].signature {
        Signature::Ed25519 { public_key, .. } => public_key.clone(),
        Signature::Unsigned => panic!("signed receipt expected"),
    };
    receipts[0].signature = Signature::Ed25519 { sig: "zz".into(), public_key: pk };
    let err = verify_chain(&receipts, &Ed25519Verifier::new(public)).unwrap_err();
    match err {
        VerifyError::Signature { at: 0, source: SigningError::Invalid(m) } => {
            assert!(m.starts_with("sig hex: "))
        }
        other => panic!("unexpected {other:?}"),
    }
}
