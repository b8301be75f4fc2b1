use lava_outcome_chain::{
    resource_key_from_dotted, ChangeSummary, ContentHash, FilesystemSink, InMemorySink, NullSink,
    OutcomePayload, OutcomeSink, Payload, Receipt, ResourceAddress, Signature, Timestamp,
};

fn sample() -> Receipt<OutcomePayload> {
    Receipt {
        sequence: 0,
        timestamp: Timestamp::now().unwrap(),
        kind: OutcomePayload::KIND.to_string(),
        prev_hash: ContentHash::genesis(),
        payload: OutcomePayload {
            resource: ResourceAddress::new("c", "n", "x"),
            spec_hash: ContentHash::of(b"s"),
            terraform_json_hash: ContentHash::of(b"t"),
            plan_id: None,
            phase: "Synthesized".into(),
            change_summary: ChangeSummary::default(),
            diagnostics: vec![],
        },
        signature: Signature::Unsigned,
        content_hash: ContentHash::of(b"c"),
    }
}

#[test]
fn in_memory_sink_appends_and_reads_in_order() {
    let mut s = InMemorySink::<OutcomePayload>::default();
    let mut r0 = sample();
    r0.sequence = 0;
    let mut r1 = sample();
    r1.sequence = 1;
    s.append(r0).unwrap();
    s.append(r1).unwrap();
    let all = s.read_all().unwrap();
    assert_eq!(all.len(), 2);
    assert_eq!(all[0].sequence, 0);
    assert_eq!(all[1].sequence, 1);
    assert_eq!(s.tail().unwrap().unwrap().sequence, 1);
}

#[test]
fn in_memory_sink_empty_invariants() {
    let s = InMemorySink::<OutcomePayload>::default();
    assert_eq!(s.len().unwrap(), 0);
    assert!(s.is_empty().unwrap());
    assert!(s.tail().unwrap().is_none());
}

#[test]
fn null_sink_swallows_and_reads_empty() {
    let mut s = NullSink::<OutcomePayload>::default();
    s.append(sample()).unwrap();
    assert_eq!(s.read_all().unwrap().len(), 0);
    assert!(s.tail().unwrap().is_none());
}

#[test]
fn resource_key_helper_replaces_unsafe_path_chars() {
    assert_eq!(resource_key_from_dotted("rio/infra/prod"), "rio-infra-prod");
    assert_eq!(resource_key_from_dotted("a b:c"), "a-b-c");
}

#[test]
fn filesystem_sink_uses_padded_sequence_names() {
    let name = FilesystemSink::<OutcomePayload>::receipt_file_name(42);
    assert!(name.starts_with("000"));
    assert!(name.ends_with("42.json"));
    assert_eq!(name, "00000000000000000042.json");
}

#[test]
fn receipt_file_names_cover_the_full_range() {
    assert_eq!(
        FilesystemSink::<OutcomePayload>::receipt_file_name(0),
        "00000000000000000000.json"
    );
    assert_eq!(
        FilesystemSink::<OutcomePayload>::receipt_file_name(u64::MAX),
        "18446744073709551615.json"
    );
}

#[test]
fn receipt_file_names_sort_in_sequence_order() {
    let sequences: Vec<u64> = vec![0, 9, 10, 99, 100, 1_000_000, u64::MAX - 1, u64::MAX];
    let names: Vec<Vec<u8>> = sequences
        .iter()
        .rev()
        .map(|s| FilesystemSink::<OutcomePayload>::receipt_file_name(*s).into_bytes())
        .collect();
    let chosen = FilesystemSink::<OutcomePayload>::select_receipt_files(&names);
    let expected: Vec<Vec<u8>> = sequences
        .iter()
        .map(|s| FilesystemSink::<OutcomePayload>::receipt_file_name(*s).into_bytes())
        .collect();
    assert_eq!(chosen, expected);
    assert!(
        FilesystemSink::<OutcomePayload>::receipt_file_name(9).as_bytes()
            < FilesystemSink::<OutcomePayload>::receipt_file_name(10).as_bytes()
    );
}

#[test]
fn select_receipt_files_filters_and_sorts() {
    let names: Vec<Vec<u8>> = vec![
        b"00000000000000000002.json".to_vec(),
        b"notes.txt".to_vec(),
        b".json".to_vec(),
        b"00000000000000000000.json".to_vec(),
        b"00000000000000000010.json".to_vec(),
        b"00000000000000000001.json".to_vec(),
        b"archive.json.bak".to_vec(),
    ];
    let chosen = FilesystemSink::<OutcomePayload>::select_receipt_files(&names);
    let expected: Vec<Vec<u8>> = vec![
        b"00000000000000000000.json".to_vec(),
        b"00000000000000000001.json".to_vec(),
        b"00000000000000000002.json".to_vec(),
        b"00000000000000000010.json".to_vec(),
    ];
    assert_eq!(chosen, expected);
}

#[test]
fn select_receipt_files_orders_bytewise() {
    let names: Vec<Vec<u8>> = vec![b"b.json".to_vec(), b"ab.json".to_vec(), b"a.json".to_vec()];
    let chosen = FilesystemSink::<OutcomePayload>::select_receipt_files(&names);
    assert_eq!(chosen, vec![b"a.json".to_vec(), b"ab.json".to_vec(), b"b.json".to_vec()]);
}

#[test]
fn filesystem_sink_keeps_its_layout() {
    let key = resource_key_from_dotted("rio/infra/prod-vpc");
    let s = FilesystemSink::<OutcomePayload>::new("/var/lib/lava", &key);
    assert_eq!(s.base_dir(), "/var/lib/lava");
    assert_eq!(s.resource_key(), "rio-infra-prod-vpc");
}

#[test]
fn in_memory_read_all_copies_receipts() {
    let mut s = InMemorySink::<OutcomePayload>::default();
    let mut r = sample();
    r.payload.diagnostics.push("kept".into());
    s.append(r).unwrap();
    let mut copy = s.read_all().unwrap();
    copy[0].payload.diagnostics.clear();
    let again = s.read_all().unwrap();
    assert_eq!(again[0].payload.diagnostics, vec!["kept".to_string()]);
    assert_eq!(again[0].payload.duplicate(), again[0].payload);
}

#[test]
fn filesystem_layout_admits_only_rising_sequences() {
    assert!(FilesystemSink::<OutcomePayload>::check_append_order(None, 0).is_ok());
    assert!(FilesystemSink::<OutcomePayload>::check_append_order(Some(4), 5).is_ok());
    let err = FilesystemSink::<OutcomePayload>::check_append_order(Some(5), 3).unwrap_err();
    assert_eq!(err.describe(), "sink invariant: sequence 3 does not follow 5");
    assert!(FilesystemSink::<OutcomePayload>::check_append_order(Some(5), 5).is_err());
}
