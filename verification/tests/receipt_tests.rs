use lava_outcome_chain::{
    ChangeSummary, ContentHash, OutcomePayload, Payload, Receipt, ResourceAddress, Timestamp,
};

fn payload(spec: &[u8], plan_id: Option<String>) -> OutcomePayload {
    OutcomePayload {
        resource: ResourceAddress::new("c", "n", "x"),
        spec_hash: ContentHash::of(spec),
        terraform_json_hash: ContentHash::of(b"json"),
        plan_id,
        phase: "Applied".into(),
        change_summary: ChangeSummary::default(),
        diagnostics: vec![],
    }
}

#[test]
fn change_summary_total_and_has_changes() {
    let mut s = ChangeSummary::default();
    assert_eq!(s.total(), 0);
    assert!(!s.has_changes());
    s.create = 2;
    s.no_op = 5;
    assert_eq!(s.total(), 7);
    assert!(s.has_changes());
    s.create = 0;
    assert!(!s.has_changes());
}

#[test]
fn resource_address_dotted_form() {
    let a = ResourceAddress::new("rio", "infra", "prod-vpc");
    assert_eq!(a.dotted(), "rio/infra/prod-vpc");
}

#[test]
fn outcome_payload_kind_is_stable() {
    assert_eq!(OutcomePayload::KIND, "lava.outcome");
    assert_eq!(<OutcomePayload as Payload>::kind(), "lava.outcome");
}

#[test]
fn compute_content_hash_excludes_signature_by_construction() {
    let ts = Timestamp::now().unwrap();
    let p = payload(b"spec", Some("plan-1".into()));
    let h1 = Receipt::<OutcomePayload>::compute_content_hash(1, ts, ContentHash::genesis(), &p)
        .unwrap();
    let h2 = Receipt::<OutcomePayload>::compute_content_hash(1, ts, ContentHash::genesis(), &p)
        .unwrap();
    assert_eq!(h1, h2);
}

#[test]
fn compute_content_hash_responds_to_payload_changes() {
    let ts = Timestamp::now().unwrap();
    let p1 = payload(b"spec-1", None);
    let mut p2 = p1.clone();
    p2.spec_hash = ContentHash::of(b"spec-2");
    let h1 = Receipt::<OutcomePayload>::compute_content_hash(1, ts, ContentHash::genesis(), &p1)
        .unwrap();
    let h2 = Receipt::<OutcomePayload>::compute_content_hash(1, ts, ContentHash::genesis(), &p2)
        .unwrap();
    assert_ne!(h1, h2);
}

#[test]
fn change_summary_total_sums_every_count() {
    let s = ChangeSummary { create: 1, update: 2, delete: 3, no_op: 4 };
    assert_eq!(s.total(), 10);
    let only_no_op = ChangeSummary { create: 0, update: 0, delete: 0, no_op: 9 };
    assert!(!only_no_op.has_changes());
    let delete = ChangeSummary { create: 0, update: 0, delete: 1, no_op: 0 };
    assert!(delete.has_changes());
}

#[test]
fn payload_json_matches_serde_json_structure() {
    let mut p = payload(b"spec", Some("plan-\"7\"".into()));
    p.diagnostics = vec!["first".into(), "line\nbreak".into()];
    p.change_summary = ChangeSummary { create: 1, update: 2, delete: 3, no_op: 40 };
    let text = p.to_json().unwrap();
    let parsed: serde_json::Value = serde_json::from_str(&text).unwrap();
    assert_eq!(parsed["resource"]["cluster"], "c");
    assert_eq!(parsed["resource"]["namespace"], "n");
    assert_eq!(parsed["resource"]["name"], "x");
    assert_eq!(parsed["specHash"], ContentHash::of(b"spec").hex());
    assert_eq!(parsed["terraformJsonHash"], ContentHash::of(b"json").hex());
    assert_eq!(parsed["planId"], "plan-\"7\"");
    assert_eq!(parsed["phase"], "Applied");
    assert_eq!(parsed["changeSummary"]["noOp"], 40);
    assert_eq!(parsed["changeSummary"]["delete"], 3);
    assert_eq!(parsed["diagnostics"][1], "line\nbreak");
    assert!(text.starts_with("{\"resource\":{\"cluster\":\"c\""));
    assert!(text.ends_with("\"diagnostics\":[\"first\",\"line\\nbreak\"]}"));
}

#[test]
fn payload_json_writes_null_for_missing_plan() {
    let p = payload(b"spec", None);
    let text = p.to_json().unwrap();
    assert!(text.contains("\"planId\":null"));
    let parsed: serde_json::Value = serde_json::from_str(&text).unwrap();
    assert!(parsed["planId"].is_null());
    assert_eq!(parsed["diagnostics"], serde_json::Value::Array(vec![]));
}

#[test]
fn content_hash_is_blake3_of_canonical_json() {
    let ts = Timestamp::from_unix(1_700_000_000, 5).unwrap();
    let p = payload(b"spec", None);
    let h = Receipt::<OutcomePayload>::compute_content_hash(3, ts, ContentHash::genesis(), &p)
        .unwrap();
    let expected = format!(
        "{{\"sequence\":3,\"timestamp\":\"2023-11-14T22:13:20.000000005Z\",\"kind\":\"lava.outcome\",\"prevHash\":\"{}\",\"payload\":{}}}",
        "0".repeat(64),
        p.to_json().unwrap()
    );
    assert_eq!(h, ContentHash::of(expected.as_bytes()));
}

#[test]
fn content_hash_depends_on_sequence_and_link() {
    let ts = Timestamp::now().unwrap();
    let p = payload(b"spec", None);
    let base = Receipt::<OutcomePayload>::compute_content_hash(1, ts, ContentHash::genesis(), &p)
        .unwrap();
    let other_seq =
        Receipt::<OutcomePayload>::compute_content_hash(2, ts, ContentHash::genesis(), &p).unwrap();
    let other_prev =
        Receipt::<OutcomePayload>::compute_content_hash(1, ts, ContentHash::of(b"p"), &p).unwrap();
    assert_ne!(base, other_seq);
    assert_ne!(base, other_prev);
}

#[test]
fn timestamp_renders_and_orders() {
    let a = Timestamp::from_unix(10, 0).unwrap();
    let b = Timestamp::from_unix(10, 1).unwrap();
    let c = Timestamp::from_unix(11, 0).unwrap();
    assert!(a.is_before(&b));
    assert!(b.is_before(&c));
    assert!(!b.is_before(&a));
    assert!(!a.is_before(&a));
    assert_eq!(a.rfc3339(), "1970-01-01T00:00:10Z");
    assert_eq!(b.rfc3339(), "1970-01-01T00:00:10.000000001Z");
    assert!(Timestamp::from_unix(i64::MAX, 0).is_none());
    assert!(Timestamp::from_unix(0, 2_000_000_000).is_none());
    let now = Timestamp::now().unwrap();
    assert!(now.nanos() < 1_000_000_000);
}

#[test]
fn duplicate_keeps_every_field() {
    let mut p = payload(b"spec", Some("plan".into()));
    p.diagnostics = vec!["d".into()];
    let d = p.duplicate();
    assert_eq!(d, p);
}

#[test]
fn clock_readings_become_instants() {
    let t = Timestamp::from_clock_reading(Ok((1_700_000_000, 250))).unwrap();
    assert_eq!((t.secs(), t.nanos()), (1_700_000_000, 250));
    let before = Timestamp::from_clock_reading(Err((1, 500_000_000))).unwrap();
    assert_eq!((before.secs(), before.nanos()), (-2, 500_000_000));
    let whole = Timestamp::from_clock_reading(Err((5, 0))).unwrap();
    assert_eq!((whole.secs(), whole.nanos()), (-5, 0));
    assert!(Timestamp::from_clock_reading(Ok((u64::MAX, 0))).is_none());
    assert!(Timestamp::from_clock_reading(Ok((1, 1_000_000_000))).is_none());
    assert!(Timestamp::from_clock_reading(Err((u64::MAX, 1))).is_none());
}
