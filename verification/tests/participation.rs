use fact_store::error::Error;
use fact_store::json::JsonValue;
use fact_store::participation::{
    comment_phase_valid, invitation_covers, join_authorization_check, join_policy_check, participation_check,
};

fn id(v: u128) -> JsonValue {
    JsonValue::Text(uuid::Uuid::from_u128(v).to_string())
}

fn obj(members: Vec<(&str, JsonValue)>) -> JsonValue {
    JsonValue::Object(members.into_iter().map(|(k, v)| (k.to_string(), v)).collect())
}

#[test]
fn join_policy_modes() {
    assert_eq!(join_policy_check("closed", true), Err(Error::InvalidLineage));
    assert_eq!(join_policy_check("invitation", false), Err(Error::InvalidLineage));
    assert_eq!(join_policy_check("invitation", true), Ok(()));
    assert_eq!(join_policy_check("open", false), Ok(()));
    assert_eq!(join_authorization_check("open", true, true), Ok(()));
    assert_eq!(join_authorization_check("attested", true, false), Err(Error::Unauthorized));
    assert_eq!(join_authorization_check("invitation", true, true), Err(Error::Unauthorized));
    assert_eq!(join_authorization_check("invitation", false, false), Ok(()));
}

#[test]
fn invitations_cover_their_target() {
    let deliberation_body = obj(vec![("proposition_id", id(2))]);
    let to_deliberation = obj(vec![("deliberation_id", id(4)), ("proposition_id", id(9))]);
    assert_eq!(invitation_covers(&to_deliberation, 4, &deliberation_body), Ok(true));
    assert_eq!(invitation_covers(&to_deliberation, 5, &deliberation_body), Ok(false));
    let to_proposition = obj(vec![("deliberation_id", JsonValue::Null), ("proposition_id", id(2))]);
    assert_eq!(invitation_covers(&to_proposition, 5, &deliberation_body), Ok(true));
    assert_eq!(invitation_covers(&obj(vec![]), 5, &deliberation_body), Ok(false));
    let broken = obj(vec![("deliberation_id", JsonValue::Text("x".to_string()))]);
    assert_eq!(invitation_covers(&broken, 5, &deliberation_body), Err(Error::InvalidLineage));
}

#[test]
fn standing_decides_joins_and_leaves() {
    assert_eq!(participation_check(Some("join"), false, false), Ok(()));
    assert_eq!(participation_check(Some("join"), true, false), Err(Error::InvalidLineage));
    assert_eq!(participation_check(Some("leave"), true, false), Ok(()));
    assert_eq!(participation_check(Some("leave"), true, true), Err(Error::InvalidLineage));
    assert_eq!(participation_check(Some("leave"), false, false), Err(Error::InvalidLineage));
    assert_eq!(participation_check(Some("pause"), true, false), Err(Error::InvalidLineage));
    assert_eq!(participation_check(None, true, false), Err(Error::InvalidLineage));
}

#[test]
fn comment_phases_follow_settlement() {
    assert!(comment_phase_valid("deliberation", false, false));
    assert!(comment_phase_valid("post-settlement", true, false));
    assert!(!comment_phase_valid("post-settlement", true, true));
    assert!(!comment_phase_valid("post-settlement", false, false));
    assert!(!comment_phase_valid("deliberation", true, false));
}
