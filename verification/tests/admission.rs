use fact_store::admission::{attestation_requirements_met, validity_covers};
use fact_store::error::Error;
use fact_store::json::JsonValue;

fn text(s: &str) -> JsonValue {
    JsonValue::Text(s.to_string())
}

fn id(v: u128) -> JsonValue {
    text(&uuid::Uuid::from_u128(v).to_string())
}

fn number(s: &str) -> JsonValue {
    JsonValue::Number(s.to_string())
}

fn requirement(claim: &str, issuers: &[u128], minimum: JsonValue) -> JsonValue {
    JsonValue::Object(vec![
        ("claim_type".to_string(), text(claim)),
        ("permitted_issuers".to_string(), JsonValue::Array(issuers.iter().map(|i| id(*i)).collect())),
        ("minimum_count".to_string(), minimum),
    ])
}

#[test]
fn requirements_count_claims_from_permitted_issuers() {
    let observed = vec![
        (1, "display-name".to_string()),
        (2, "display-name".to_string()),
        (3, "display-name".to_string()),
        (1, "email".to_string()),
    ];
    let two_names = vec![requirement("display-name", &[1, 2], number("2"))];
    assert_eq!(attestation_requirements_met(&two_names, &observed), Ok(()));
    let three_names = vec![requirement("display-name", &[1, 2], number("3"))];
    assert_eq!(attestation_requirements_met(&three_names, &observed), Err(Error::InvalidLineage));
    let both = vec![
        requirement("display-name", &[3], number("1")),
        requirement("email", &[1], number("1")),
    ];
    assert_eq!(attestation_requirements_met(&both, &observed), Ok(()));
    assert_eq!(attestation_requirements_met(&vec![], &observed), Ok(()));
}

#[test]
fn malformed_requirements_are_refused() {
    let observed = vec![(1, "email".to_string())];
    let fractional = vec![requirement("email", &[1], number("1.0"))];
    assert_eq!(attestation_requirements_met(&fractional, &observed), Err(Error::InvalidLineage));
    let negative = vec![requirement("email", &[1], number("-1"))];
    assert_eq!(attestation_requirements_met(&negative, &observed), Err(Error::InvalidLineage));
    let zero = vec![requirement("email", &[], number("0"))];
    assert_eq!(attestation_requirements_met(&zero, &observed), Ok(()));
    let not_object = vec![text("email")];
    assert_eq!(attestation_requirements_met(&not_object, &observed), Err(Error::InvalidLineage));
}

#[test]
fn numbers_read_as_unsigned_integers() {
    assert_eq!(number("18446744073709551615").as_u64(), Some(u64::MAX));
    assert_eq!(number("18446744073709551616").as_u64(), None);
    assert_eq!(number("0").as_u64(), Some(0));
    assert_eq!(number("").as_u64(), None);
    assert_eq!(number("1e3").as_u64(), None);
    assert_eq!(text("3").as_u64(), None);
}

#[test]
fn validity_window_is_half_open() {
    assert!(validity_covers(Some(10), Some(20), 10));
    assert!(!validity_covers(Some(10), Some(20), 20));
    assert!(!validity_covers(Some(10), None, 9));
    assert!(validity_covers(None, None, -5));
}
