use fact_store::error::Error;
use fact_store::rules::{projected_rank, relationship_edge_rule, relationship_rule, relationship_target_allowed};

#[test]
fn projection_ranks_follow_dependencies() {
    assert_eq!(projected_rank("actor"), 0);
    assert_eq!(projected_rank("key"), 1);
    assert_eq!(projected_rank("actor_key_binding"), 2);
    assert_eq!(projected_rank("delegation"), 3);
    assert_eq!(projected_rank("namespace_assertion"), 4);
    assert_eq!(projected_rank("proposition"), 5);
    assert_eq!(projected_rank("revision"), 6);
    assert_eq!(projected_rank("deliberation"), 7);
    assert_eq!(projected_rank("participant_invitation"), 8);
    assert_eq!(projected_rank("deliberation_participant_change"), 9);
    assert_eq!(projected_rank("deliberation_comment"), 10);
    assert_eq!(projected_rank("settlement"), 11);
    assert_eq!(projected_rank("delegation_revocation"), 12);
    assert_eq!(projected_rank("proposition_lifecycle"), 13);
    assert_eq!(projected_rank("genesis"), 14);
    assert_eq!(projected_rank(""), 14);
}

#[test]
fn relationship_rules_table() {
    let joins = relationship_rule("protocol:joins").unwrap();
    assert_eq!(joins.sources, &["deliberation_participant_change"]);
    assert_eq!(joins.targets, &["deliberation"]);
    assert_eq!(joins.minimum, 1);
    assert_eq!(joins.maximum, Some(1));

    let reconciles = relationship_rule("protocol:reconciles").unwrap();
    assert_eq!(reconciles.targets, &["revision", "deliberation", "settlement"]);
    assert_eq!(reconciles.minimum, 2);
    assert_eq!(reconciles.maximum, None);

    let references = relationship_rule("protocol:references").unwrap();
    assert_eq!(references.sources, &["any"]);
    assert_eq!(references.minimum, 0);

    let supersedes = relationship_rule("protocol:supersedes").unwrap();
    assert_eq!(supersedes.sources.len(), 8);
    assert_eq!(supersedes.sources, supersedes.targets);

    assert!(relationship_rule("protocol:unknown").is_none());
    assert!(relationship_rule("").is_none());
}

#[test]
fn relationship_edges_follow_their_rule() {
    let rule = relationship_edge_rule("protocol:parent-revision", "revision", 1).unwrap();
    assert!(relationship_target_allowed(&rule, "protocol:parent-revision", "revision", true));
    assert!(!relationship_target_allowed(&rule, "protocol:parent-revision", "revision", false));
    assert!(!relationship_target_allowed(&rule, "protocol:parent-revision", "deliberation", true));
    assert!(relationship_edge_rule("protocol:parent-revision", "revision", 2).is_err());
    assert_eq!(relationship_edge_rule("protocol:parent-revision", "deliberation", 1).err(), Some(Error::InvalidLineage));
    assert!(relationship_edge_rule("protocol:unknown", "revision", 1).is_err());
    let references = relationship_edge_rule("protocol:references", "decision", 0).unwrap();
    assert!(relationship_target_allowed(&references, "protocol:references", "settlement", false));
    assert!(relationship_edge_rule("protocol:reconciles", "revision", 1).is_err());
}
