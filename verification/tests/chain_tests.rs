use lava_outcome_chain::{
    ChangeSummary, ContentHash, InMemorySink, NoSigning, NullSink, OutcomeChain, OutcomePayload,
    OutcomeSink, ResourceAddress, Timestamp,
};

fn sample(kind: &str) -> OutcomePayload {
    OutcomePayload {
        resource: ResourceAddress::new("rio", "infra", "demo"),
        spec_hash: ContentHash::of(kind.as_bytes()),
        terraform_json_hash: ContentHash::of(b"json"),
        plan_id: Some("plan-1".into()),
        phase: "Synthesized".into(),
        change_summary: ChangeSummary::default(),
        diagnostics: vec![],
    }
}

#[test]
fn first_append_produces_genesis_receipt() {
    let mut chain = OutcomeChain::new(InMemorySink::<OutcomePayload>::default(), NoSigning);
    let r = chain.append(sample("a")).unwrap();
    assert_eq!(r.sequence, 0);
    assert!(r.prev_hash.is_genesis());
    assert_eq!(r.kind, OutcomePayload::KIND);
}

#[test]
fn subsequent_appends_chain_via_prev_hash() {
    let mut chain = OutcomeChain::new(InMemorySink::<OutcomePayload>::default(), NoSigning);
    let r0 = chain.append(sample("a")).unwrap();
    let r1 = chain.append(sample("b")).unwrap();
    let r2 = chain.append(sample("c")).unwrap();
    assert_eq!(r1.sequence, 1);
    assert_eq!(r2.sequence, 2);
    assert_eq!(r1.prev_hash, r0.content_hash);
    assert_eq!(r2.prev_hash, r1.content_hash);
}

#[test]
fn append_writes_through_to_sink() {
    let mut chain = OutcomeChain::new(InMemorySink::<OutcomePayload>::default(), NoSigning);
    chain.append(sample("a")).unwrap();
    chain.append(sample("b")).unwrap();
    let all = chain.read_all().unwrap();
    assert_eq!(all.len(), 2);
    assert_eq!(all[0].sequence, 0);
    assert_eq!(all[1].sequence, 1);
}

#[test]
fn append_at_records_the_given_time() {
    let mut chain = OutcomeChain::new(InMemorySink::<OutcomePayload>::default(), NoSigning);
    let t0 = Timestamp::from_unix(100, 0).unwrap();
    let r0 = chain.append_at(sample("a"), t0).unwrap();
    assert_eq!(r0.timestamp, t0);
    let tail = chain.sink().tail().unwrap().unwrap();
    assert_eq!(tail.content_hash, r0.content_hash);
    assert_eq!(tail.payload, sample("a"));
    assert_eq!(chain.sink().len().unwrap(), 1);
}

#[test]
fn receipt_hash_matches_recomputation() {
    let mut chain = OutcomeChain::new(InMemorySink::<OutcomePayload>::default(), NoSigning);
    let r = chain.append(sample("a")).unwrap();
    let again = lava_outcome_chain::Receipt::<OutcomePayload>::compute_content_hash(
        r.sequence,
        r.timestamp,
        r.prev_hash,
        &r.payload,
    )
    .unwrap();
    assert_eq!(again, r.content_hash);
}

#[test]
fn null_sink_chain_restarts_at_zero() {
    let mut chain = OutcomeChain::new(NullSink::<OutcomePayload>::default(), NoSigning);
    let r0 = chain.append(sample("a")).unwrap();
    let r1 = chain.append(sample("b")).unwrap();
    assert_eq!(r0.sequence, 0);
    assert_eq!(r1.sequence, 0);
    assert!(r1.prev_hash.is_genesis());
}

#[test]
fn seal_links_after_the_given_tail() {
    let mut chain = OutcomeChain::new(InMemorySink::<OutcomePayload>::default(), NoSigning);
    let first = chain.append(sample("a")).unwrap();
    let ts = Timestamp::from_unix(1_700_000_000, 0).unwrap();
    let sealed = chain.seal(&Some(first.clone()), sample("b"), ts).unwrap();
    assert_eq!(sealed.sequence, 1);
    assert_eq!(sealed.prev_hash, first.content_hash);
    assert_eq!(sealed.timestamp, ts);
    assert_eq!(chain.sink().len().unwrap(), 1);
    let genesis = chain.seal(&None, sample("b"), ts).unwrap();
    assert_eq!(genesis.sequence, 0);
    assert!(genesis.prev_hash.is_genesis());
    let mut last = first.clone();
    last.sequence = u64::MAX;
    assert!(matches!(
        chain.seal(&Some(last), sample("b"), ts),
        Err(lava_outcome_chain::AppendError::Encode(ref m)) if m == "sequence overflow"
    ));
}
