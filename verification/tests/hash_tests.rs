use lava_outcome_chain::ContentHash;

#[test]
fn of_is_deterministic() {
    let a = ContentHash::of(b"hello");
    let b = ContentHash::of(b"hello");
    assert_eq!(a, b);
}

#[test]
fn of_distinguishes_distinct_inputs() {
    assert_ne!(ContentHash::of(b"a"), ContentHash::of(b"b"));
}

#[test]
fn genesis_is_all_zero() {
    assert!(ContentHash::genesis().is_genesis());
    assert!(!ContentHash::of(b"non-genesis").is_genesis());
}

#[test]
fn hex_round_trips_through_serde() {
    let h = ContentHash::of(b"data");
    let j = serde_json::to_string(&h.hex()).unwrap();
    let text: String = serde_json::from_str(&j).unwrap();
    let parsed = ContentHash::from_hex(&text).unwrap();
    assert_eq!(h, parsed);
}

#[test]
fn hex_is_64_chars_lowercase() {
    let h = ContentHash::of(b"data");
    let s = h.hex();
    assert_eq!(s.len(), 64);
    assert_eq!(s, s.to_lowercase());
}

#[test]
fn of_is_blake3() {
    let h = ContentHash::of(b"abc");
    assert_eq!(
        h.hex(),
        "6437b3ac38465133ffb63b75273a8db548c558465d79db03fd359c6cd5bd9d85"
    );
    assert_eq!(ContentHash::genesis().hex(), "0".repeat(64));
}

#[test]
fn from_hex_accepts_uppercase() {
    let h = ContentHash::of(b"abc");
    let upper = h.hex().to_uppercase();
    assert_eq!(ContentHash::from_hex(&upper).unwrap(), h);
}

#[test]
fn from_hex_rejects_wrong_length() {
    let err = ContentHash::from_hex("abcd").unwrap_err();
    assert_eq!(err, "ContentHash expected 32 bytes (64 hex chars), got 2");
    let err = ContentHash::from_hex(&"00".repeat(33)).unwrap_err();
    assert_eq!(err, "ContentHash expected 32 bytes (64 hex chars), got 33");
}

#[test]
fn from_hex_rejects_non_hex() {
    assert!(ContentHash::from_hex(&"zz".repeat(32)).is_err());
    assert!(ContentHash::from_hex(&"0".repeat(63)).is_err());
    assert!(ContentHash::from_hex("é0").is_err());
}

#[test]
fn same_as_compares_bytes() {
    let a = ContentHash::of(b"x");
    let b = ContentHash::of(b"x");
    let c = ContentHash::of(b"y");
    assert!(a.same_as(&b));
    assert!(!a.same_as(&c));
}

#[test]
fn debug_text_shows_the_first_sixteen_hex_digits() {
    let h = ContentHash::of(b"hello");
    assert_eq!(h.debug_text(), format!("ContentHash({}…)", &h.hex()[..16]));
    assert_eq!(ContentHash::genesis().debug_text(), "ContentHash(0000000000000000…)");
}
