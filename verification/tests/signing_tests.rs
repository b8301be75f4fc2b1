use ed25519_dalek::Signer as _;
use lava_outcome_chain::{
    default_signature, Ed25519Signer, Ed25519Verifier, NoOpVerifier, NoSigning, Signature,
    SignatureVerifier, SigningError, SigningProvider,
};

#[test]
fn no_signing_produces_none_variant() {
    let s = NoSigning.sign(b"x").unwrap();
    assert_eq!(s, Signature::Unsigned);
    assert!(!s.is_some());
}

#[test]
fn no_op_verifier_accepts_everything() {
    NoOpVerifier.verify(b"x", &Signature::Unsigned).unwrap();
    NoOpVerifier
        .verify(
            b"x",
            &Signature::Ed25519 {
                sig: "ff".repeat(64),
                public_key: "00".repeat(32),
            },
        )
        .unwrap();
}

#[test]
fn ed25519_round_trips_sign_and_verify() {
    let signer = Ed25519Signer::generate().unwrap();
    let verifier = Ed25519Verifier::new(signer.verifying_key());
    let payload = b"reconcile-tick-payload";
    let sig = signer.sign(payload).unwrap();
    assert!(sig.is_some());
    verifier.verify(payload, &sig).unwrap();
}

#[test]
fn ed25519_rejects_tampered_payload() {
    let signer = Ed25519Signer::generate().unwrap();
    let verifier = Ed25519Verifier::new(signer.verifying_key());
    let sig = signer.sign(b"original").unwrap();
    let err = verifier.verify(b"TAMPERED", &sig).unwrap_err();
    assert!(matches!(err, SigningError::Invalid(_)));
}

#[test]
fn ed25519_rejects_unknown_public_key() {
    let signer = Ed25519Signer::generate().unwrap();
    let other = Ed25519Signer::generate().unwrap();
    let verifier = Ed25519Verifier::new(other.verifying_key());
    let sig = signer.sign(b"payload").unwrap();
    let err = verifier.verify(b"payload", &sig).unwrap_err();
    assert!(matches!(err, SigningError::Mismatched(_)));
}

#[test]
fn ed25519_signer_debug_does_not_leak_secret() {
    let signer = Ed25519Signer::generate().unwrap();
    let dbg = signer.debug_string();
    assert!(!dbg.to_lowercase().contains("secret"));
    assert!(dbg.contains("public"));
    assert!(!dbg.contains(&hex::encode(signer.secret_bytes())));
}

#[test]
fn ed25519_signature_fields_are_hex() {
    let signer = Ed25519Signer::from_secret_bytes(&[7u8; 32]);
    let sig = signer.sign(b"m").unwrap();
    match sig {
        Signature::Ed25519 { sig, public_key } => {
            assert_eq!(sig.len(), 128);
            assert_eq!(public_key, hex::encode(signer.verifying_key().to_bytes()));
        }
        Signature::Unsigned => panic!("expected an Ed25519 signature"),
    }
}

#[test]
fn ed25519_signing_is_deterministic_and_matches_dalek() {
    let secret = [3u8; 32];
    let signer = Ed25519Signer::from_secret_bytes(&secret);
    let key = ed25519_dalek::SigningKey::from_bytes(&secret);
    let expected = hex::encode(key.sign(b"msg").to_bytes());
    let a = signer.sign(b"msg").unwrap();
    let b = signer.sign(b"msg").unwrap();
    assert_eq!(a, b);
    assert_eq!(
        a,
        Signature::Ed25519 {
            sig: expected,
            public_key: hex::encode(key.verifying_key().to_bytes())
        }
    );
    assert_eq!(signer.secret_bytes(), secret);
}

#[test]
fn ed25519_verifier_rejects_unsigned() {
    let signer = Ed25519Signer::generate().unwrap();
    let verifier = Ed25519Verifier::new(signer.verifying_key());
    let err = verifier.verify(b"x", &Signature::Unsigned).unwrap_err();
    assert!(matches!(err, SigningError::Mismatched(_)));
}

#[test]
fn ed25519_verifier_rejects_malformed_hex() {
    let signer = Ed25519Signer::generate().unwrap();
    let verifier = Ed25519Verifier::new(signer.verifying_key());
    let pk = hex::encode(signer.verifying_key().to_bytes());
    let bad_pk = Signature::Ed25519 { sig: "00".repeat(64), public_key: "xyz".into() };
    assert!(matches!(verifier.verify(b"x", &bad_pk).unwrap_err(), SigningError::Invalid(_)));
    let bad_sig = Signature::Ed25519 { sig: "q".repeat(128), public_key: pk.clone() };
    assert!(matches!(verifier.verify(b"x", &bad_sig).unwrap_err(), SigningError::Invalid(_)));
    let short_sig = Signature::Ed25519 { sig: "00".repeat(10), public_key: pk };
    match verifier.verify(b"x", &short_sig).unwrap_err() {
        SigningError::Invalid(m) => assert_eq!(m, "Ed25519 signature must be 64 bytes, got 10"),
        other => panic!("unexpected {other:?}"),
    }
}

#[test]
fn ed25519_verifier_accepts_uppercase_hex() {
    let signer = Ed25519Signer::generate().unwrap();
    let verifier = Ed25519Verifier::new(signer.verifying_key());
    let sig = signer.sign(b"x").unwrap();
    let upper = match sig {
        Signature::Ed25519 { sig, public_key } => Signature::Ed25519 {
            sig: sig.to_uppercase(),
            public_key: public_key.to_uppercase(),
        },
        Signature::Unsigned => panic!("expected an Ed25519 signature"),
    };
    verifier.verify(b"x", &upper).unwrap();
}

#[test]
fn from_public_bytes_accepts_real_key_and_rejects_bad_point() {
    let signer = Ed25519Signer::generate().unwrap();
    let bytes = signer.verifying_key().to_bytes();
    let verifier = Ed25519Verifier::from_public_bytes(&bytes).unwrap();
    let sig = signer.sign(b"m").unwrap();
    verifier.verify(b"m", &sig).unwrap();
    let mut rejected = 0;
    for b in 0u8..=255 {
        let mut candidate = [0u8; 32];
        candidate[0] = b;
        candidate[1] = 1;
        let dalek = ed25519_dalek::VerifyingKey::from_bytes(&candidate);
        let ours = Ed25519Verifier::from_public_bytes(&candidate);
        assert_eq!(dalek.is_ok(), ours.is_ok());
        if let Err(e) = ours {
            assert!(matches!(e, SigningError::Invalid(ref m) if m.starts_with("bad public key: ")));
            rejected += 1;
        }
    }
    assert!(rejected > 0);
}

#[test]
fn default_signature_is_unsigned() {
    assert_eq!(default_signature(), Signature::Unsigned);
}
