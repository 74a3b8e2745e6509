use fact_store::json::JsonValue;
use fact_store::roster::{
    candidate_union_matches, manifest_source_ids, roster_selection_valid, roster_sources_match, RosterCandidate,
    RosterSelection,
};

fn candidate(actor: u128, is_actor: bool, retired: bool) -> RosterCandidate {
    RosterCandidate { actor, is_actor, retired }
}

fn selection(actor: u128, basis: Option<&str>, is_actor: bool) -> RosterSelection {
    RosterSelection { actor, basis: basis.map(str::to_string), is_actor }
}

fn exclusion(actor: u128, reason: &str) -> (u128, String) {
    (actor, reason.to_string())
}

#[test]
fn union_eligible_selects_exactly_the_eligible_candidates() {
    let candidates = [candidate(1, true, false), candidate(2, true, true), candidate(3, false, false)];
    let excluded = vec![exclusion(2, "retired"), exclusion(3, "not-an-actor")];
    let selected = vec![selection(1, None, true)];
    assert!(roster_selection_valid(&candidates, "union_eligible", &selected, &excluded));
    let too_many = vec![selection(1, None, true), selection(2, None, true)];
    assert!(!roster_selection_valid(&candidates, "union_eligible", &too_many, &excluded));
    assert!(!roster_selection_valid(&candidates, "union_eligible", &vec![], &excluded));
    let excluding_eligible = vec![exclusion(2, "retired"), exclusion(3, "x"), exclusion(1, "governance_excluded")];
    assert!(!roster_selection_valid(&candidates, "union_eligible", &selected, &excluding_eligible));
}

#[test]
fn candidates_must_be_accounted_for() {
    let candidates = [candidate(1, true, false), candidate(2, true, true)];
    let selected = vec![selection(1, None, true)];
    assert!(!roster_selection_valid(&candidates, "union_eligible", &selected, &vec![]));
    assert!(!roster_selection_valid(&candidates, "union_eligible", &selected, &vec![exclusion(2, "left")]));
    let not_actor = [candidate(4, false, false)];
    assert!(!roster_selection_valid(&not_actor, "union_eligible", &vec![], &vec![]));
}

#[test]
fn governed_selection_explains_every_difference() {
    let candidates = [candidate(1, true, false), candidate(2, true, false)];
    let selected = vec![selection(1, None, true), selection(9, Some("governance_selected"), true)];
    let excluded = vec![exclusion(2, "governance_excluded")];
    assert!(roster_selection_valid(&candidates, "governed", &selected, &excluded));
    let unexplained = vec![exclusion(2, "other")];
    assert!(!roster_selection_valid(&candidates, "governed", &selected, &unexplained));
    let outsider = vec![selection(1, None, true), selection(9, Some("invited"), true)];
    assert!(!roster_selection_valid(&candidates, "governed", &outsider, &excluded));
    let not_actor = vec![selection(1, None, true), selection(9, Some("governance_selected"), false)];
    assert!(!roster_selection_valid(&candidates, "governed", &not_actor, &excluded));
    let later_reason_wins = vec![exclusion(2, "other"), exclusion(2, "governance_excluded")];
    assert!(roster_selection_valid(&candidates, "governed", &selected, &later_reason_wins));
}

fn id(v: u128) -> JsonValue {
    JsonValue::Text(uuid::Uuid::from_u128(v).to_string())
}

fn union_entry(actor: u128, sources: &[u128]) -> JsonValue {
    JsonValue::Object(vec![
        ("actor_id".to_string(), id(actor)),
        (
            "source_memberships".to_string(),
            JsonValue::Array(
                sources
                    .iter()
                    .map(|s| JsonValue::Object(vec![("deliberation_id".to_string(), id(*s))]))
                    .collect(),
            ),
        ),
    ])
}

#[test]
fn candidate_union_must_be_the_expected_one() {
    let expected = vec![(1, vec![10, 11]), (2, vec![11])];
    let items = vec![union_entry(1, &[11, 10, 10]), union_entry(2, &[11])];
    assert!(candidate_union_matches(&items, &expected));
    let missing = vec![union_entry(1, &[10, 11])];
    assert!(!candidate_union_matches(&missing, &expected));
    let extra = vec![union_entry(1, &[10, 11]), union_entry(2, &[11]), union_entry(3, &[10])];
    assert!(!candidate_union_matches(&extra, &expected));
    let wrong_sources = vec![union_entry(1, &[10]), union_entry(2, &[11])];
    assert!(!candidate_union_matches(&wrong_sources, &expected));
    let later_entry_wins = vec![union_entry(1, &[10]), union_entry(2, &[11]), union_entry(1, &[10, 11])];
    assert!(candidate_union_matches(&later_entry_wins, &expected));
    let unreadable = vec![union_entry(1, &[10, 11]), union_entry(2, &[11]), JsonValue::Null];
    assert!(!candidate_union_matches(&unreadable, &expected));
    assert!(candidate_union_matches(&vec![], &vec![]));
}

#[test]
fn roster_sources_are_the_sorted_manifest_conflicts() {
    let conflict = |d: u128| JsonValue::Object(vec![("deliberation_id".to_string(), id(d))]);
    let manifest = JsonValue::Object(vec![(
        "conflicts".to_string(),
        JsonValue::Array(vec![conflict(30), conflict(10), conflict(30), conflict(20)]),
    )]);
    let ids = manifest_source_ids(&manifest).unwrap();
    assert_eq!(ids, vec![10, 20, 30]);
    let roster = |sources: &[u128]| {
        JsonValue::Object(vec![(
            "roster_governance".to_string(),
            JsonValue::Object(vec![(
                "source_deliberation_ids".to_string(),
                JsonValue::Array(sources.iter().map(|s| id(*s)).collect()),
            )]),
        )])
    };
    assert!(roster_sources_match(&roster(&[10, 20, 30]), &ids));
    assert!(!roster_sources_match(&roster(&[30, 20, 10]), &ids));
    assert!(!roster_sources_match(&roster(&[10, 20]), &ids));
    assert!(!roster_sources_match(&JsonValue::Object(vec![]), &ids));
    assert_eq!(manifest_source_ids(&JsonValue::Null), None);
}
