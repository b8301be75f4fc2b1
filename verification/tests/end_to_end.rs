use lava_outcome_chain::{
    verify_chain, ChangeSummary, ContentHash, InMemorySink, NoOpVerifier, NoSigning, NullSink,
    OutcomeChain, OutcomePayload, ResourceAddress,
};

fn tick(phase: &str, plan_id: u32) -> OutcomePayload {
    OutcomePayload {
        resource: ResourceAddress::new("rio", "infra", "prod-vpc"),
        spec_hash: ContentHash::of(b"spec-v1"),
        terraform_json_hash: ContentHash::of(b"tfjson-v1"),
        plan_id: Some(format!("plan-{plan_id}")),
        phase: phase.to_string(),
        change_summary: ChangeSummary {
            create: 1,
            ..Default::default()
        },
        diagnostics: vec![],
    }
}

#[test]
fn in_memory_sink_with_no_signing_round_trips_5_ticks_and_verifies_clean() {
    let mut chain = OutcomeChain::new(InMemorySink::<OutcomePayload>::default(), NoSigning);
    for i in 0..5 {
        chain
            .append(tick(
                ["Pending", "Synthesized", "Planned", "Applied", "Drifted"][i],
                i as u32,
            ))
            .unwrap();
    }
    let receipts = chain.read_all().unwrap();
    assert_eq!(receipts.len(), 5);
    verify_chain(&receipts, &NoOpVerifier).unwrap();
}

#[test]
fn null_sink_chain_appends_succeed_but_persist_nothing() {
    let mut chain = OutcomeChain::new(NullSink::<OutcomePayload>::default(), NoSigning);
    let r0 = chain.append(tick("Applied", 0)).unwrap();
    let r1 = chain.append(tick("Applied", 1)).unwrap();
    assert_eq!(r0.sequence, 0);
    assert_eq!(r1.sequence, 0);
    assert_eq!(chain.read_all().unwrap().len(), 0);
}
