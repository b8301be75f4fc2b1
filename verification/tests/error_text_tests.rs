use lava_outcome_chain::{
    AppendError, ContentHash, SigningError, SinkError, Timestamp, VerifyError,
};

#[test]
fn signing_error_text() {
    assert_eq!(SigningError::Invalid("x".into()).describe(), "invalid signature: x");
    assert_eq!(
        SigningError::Mismatched("y".into()).describe(),
        "signature scheme mismatch: y"
    );
}

#[test]
fn sink_and_append_error_text() {
    assert_eq!(SinkError::Io("disk".into()).describe(), "io: disk");
    assert_eq!(SinkError::Invariant("z".into()).describe(), "sink invariant: z");
    assert_eq!(
        AppendError::Sink(SinkError::Decode("bad".into())).describe(),
        "sink: decode: bad"
    );
    assert_eq!(
        AppendError::Sign(SigningError::Invalid("k".into())).describe(),
        "sign: invalid signature: k"
    );
    assert_eq!(AppendError::Encode("e".into()).describe(), "encode: e");
}

#[test]
fn verify_error_text() {
    assert_eq!(
        VerifyError::Sequence { at: 1, expected: 1, actual: 5 }.describe(),
        "receipt 1: sequence expected 1, got 5"
    );
    let e = VerifyError::PrevHashMismatch {
        at: 0,
        expected: ContentHash::genesis(),
        actual: ContentHash::of(b"abc"),
    };
    assert_eq!(
        e.describe(),
        format!(
            "receipt 0: prev_hash expected {}, got {}",
            "0".repeat(64),
            "6437b3ac38465133ffb63b75273a8db548c558465d79db03fd359c6cd5bd9d85"
        )
    );
    let t0 = Timestamp::from_unix(1_431_648_000, 0).unwrap();
    let t1 = Timestamp::from_unix(1_431_647_999, 500_000_000).unwrap();
    assert_eq!(t0.display(), "2015-05-15 00:00:00 UTC");
    let e = VerifyError::TimestampRegression { at: 2, prev: t0, actual: t1 };
    assert_eq!(
        e.describe(),
        "receipt 2: timestamp 2015-05-14 23:59:59.500 UTC regressed below previous 2015-05-15 00:00:00 UTC"
    );
    let e = VerifyError::Signature { at: 3, source: SigningError::Mismatched("m".into()) };
    assert_eq!(e.describe(), "receipt 3: signature: signature scheme mismatch: m");
}
