use fact_store::matching::{select_reference_matches, ReferenceCandidate};
use fact_store::reference::reference_plan;

fn cand(id: u128, hash_first: u8, object_type: &str, ledger: &[u8]) -> ReferenceCandidate {
    let mut content_hash = [0u8; 32];
    content_hash[0] = hash_first;
    ReferenceCandidate { object_id: id, content_hash, object_type: object_type.to_string(), ledger_id: ledger.to_vec() }
}

#[test]
fn matches_are_filtered_sorted_and_deduplicated() {
    let ledger = [7u8; 16];
    let other = [8u8; 16];
    let matches = vec![
        cand(3, 0x20, "proposition", &ledger),
        cand(1, 0x30, "revision", &ledger),
        cand(2, 0x10, "proposition", &other),
        cand(3, 0x20, "proposition", &ledger),
        cand(4, 0x20, "proposition", &ledger),
    ];
    let out = select_reference_matches(matches, None, &ledger, &[]);
    let ids: Vec<u128> = out.iter().map(|c| c.object_id).collect();
    assert_eq!(ids, vec![3, 4, 1]);

    let matches = vec![cand(3, 0x20, "proposition", &ledger), cand(1, 0x30, "revision", &ledger)];
    let out = select_reference_matches(matches, None, &ledger, &["revision", "cose"]);
    let ids: Vec<u128> = out.iter().map(|c| c.object_id).collect();
    assert_eq!(ids, vec![1]);
}

#[test]
fn tail_restricts_split_references() {
    let ledger = [1u8; 16];
    let a = 0x019f_b594_bf37_72c3_8c1e_3c8c_9254_fc4a_u128;
    let b = 0x019f_b594_bf37_76f1_9184_758b_0fad_5164_u128;
    let matches = vec![cand(a, 1, "revision", &ledger), cand(b, 2, "revision", &ledger)];
    let out = select_reference_matches(matches, Some("758b0"), &ledger, &[]);
    assert_eq!(out.len(), 1);
    assert_eq!(out[0].object_id, b);
}

#[test]
fn reference_plans() {
    let plan = reference_plan("019FB-3C8C9");
    assert_eq!(plan.split, Some(("019fb".to_string(), "3c8c9".to_string())));
    let (low, high) = plan.object_id_range.unwrap();
    assert_eq!(&low[..3], &[0x01, 0x9f, 0xb0]);
    assert_eq!(&high[..3], &[0x01, 0x9f, 0xbf]);
    assert!(plan.content_hash_range.is_none());

    let plan = reference_plan("abab");
    assert!(plan.split.is_none());
    assert_eq!(plan.object_id_range.unwrap().0[..2], [0xab, 0xab]);
    let (low, high) = plan.content_hash_range.unwrap();
    assert_eq!(low[..3], [0xab, 0xab, 0x00]);
    assert_eq!(high[..3], [0xab, 0xab, 0xff]);

    let plan = reference_plan("01900000-0000");
    assert!(plan.split.is_none());
    assert!(plan.object_id_range.is_some());
    assert!(plan.content_hash_range.is_none());

    let plan = reference_plan("xyz");
    assert!(plan.object_id_range.is_none());
    assert!(plan.content_hash_range.is_none());
}
