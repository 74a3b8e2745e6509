use fact_store::error::Error;
use fact_store::json::{json_equal, parse_object_id_text, JsonValue};
use fact_store::modes::has_incremental_projector;
use fact_store::projection::{projection_row, ProjectionRow};

const ID: &str = "01900000-0000-7000-8000-000000000001";
const OTHER: &str = "01900000-0000-7000-8000-000000000002";

fn text(s: &str) -> JsonValue {
    JsonValue::Text(s.to_string())
}

fn obj(members: Vec<(&str, JsonValue)>) -> JsonValue {
    JsonValue::Object(members.into_iter().map(|(k, v)| (k.to_string(), v)).collect())
}

fn document(body: JsonValue) -> JsonValue {
    obj(vec![("id", text(ID)), ("body", body)])
}

#[test]
fn json_values_compare_structurally() {
    let a = obj(vec![("x", JsonValue::Array(vec![JsonValue::Null, JsonValue::Bool(true)])), ("y", text("t"))]);
    let b = obj(vec![("y", text("t")), ("x", JsonValue::Array(vec![JsonValue::Null, JsonValue::Bool(true)]))]);
    assert!(json_equal(&a, &b));
    let c = obj(vec![("y", text("t")), ("x", JsonValue::Array(vec![JsonValue::Bool(true), JsonValue::Null]))]);
    assert!(!json_equal(&a, &c));
    let d = obj(vec![("y", text("t"))]);
    assert!(!json_equal(&a, &d));
    assert!(!json_equal(&JsonValue::Number("1".to_string()), &text("1")));
}

#[test]
fn incremental_projector_families() {
    assert!(has_incremental_projector("actor"));
    assert!(has_incremental_projector("delegation_revocation"));
    assert!(has_incremental_projector("standing_participant_change"));
    assert!(!has_incremental_projector("genesis"));
    assert!(!has_incremental_projector("Actor"));
}

#[test]
fn projection_rows_of_documents() {
    match projection_row("actor", &document(obj(vec![("actor_type", text("agent"))]))) {
        Some(Ok(ProjectionRow::Actor { actor_id, actor_type })) => {
            assert_eq!(actor_id, 0x0190_0000_0000_7000_8000_0000_0000_0001);
            assert_eq!(actor_type, "agent");
        }
        _ => panic!("expected an actor row"),
    }
    match projection_row("key", &document(obj(vec![("purpose", text("signing")), ("public_key", obj(vec![("bytes", text("-_8"))]))]))) {
        Some(Ok(ProjectionRow::Key { purpose, public_key, .. })) => {
            assert_eq!(purpose, "signing");
            assert_eq!(public_key, vec![0xfb, 0xff]);
        }
        _ => panic!("expected a key row"),
    }
    assert!(matches!(
        projection_row("key", &document(obj(vec![("purpose", text("signing")), ("public_key", obj(vec![("bytes", text("Z"))]))]))),
        Some(Err(Error::ProjectedMismatch))
    ));
    assert!(matches!(projection_row("actor", &document(obj(vec![]))), Some(Err(Error::ProjectedMismatch))));
    assert!(matches!(projection_row("actor", &obj(vec![("id", text("x")), ("body", obj(vec![]))])), Some(Err(Error::InvalidLineage))));
    assert!(matches!(projection_row("actor", &obj(vec![("id", text(ID))])), Some(Err(Error::ProjectedMismatch))));
    match projection_row("recovery_policy", &document(obj(vec![("actor_id", text(OTHER))]))) {
        Some(Ok(ProjectionRow::Lifecycle { target_id, dimension, operation, effective_at })) => {
            assert_eq!(target_id, Some(0x0190_0000_0000_7000_8000_0000_0000_0002));
            assert_eq!(dimension, None);
            assert_eq!(operation, "update");
            assert_eq!(effective_at, None);
        }
        _ => panic!("expected a lifecycle row"),
    }
    assert!(projection_row("revision", &document(obj(vec![]))).is_none());
}

#[test]
fn identifier_text_forms() {
    let value = Some(0x0190_0000_0000_7000_8000_0000_0000_00abu128);
    for form in [
        "01900000-0000-7000-8000-0000000000ab",
        "01900000000070008000000000000AB",
        "019000000000700080000000000000AB",
        "{01900000-0000-7000-8000-0000000000AB}",
        "URN:uuid:01900000-0000-7000-8000-0000000000ab",
    ] {
        let expected = if form.len() == 31 { None } else { value };
        assert_eq!(parse_object_id_text(Some(&text(form))), expected, "{form}");
    }
    assert_eq!(parse_object_id_text(Some(&text("01900000-0000-7000-8000-0000000000ag"))), None);
    assert_eq!(parse_object_id_text(Some(&text("0190000-00000-7000-8000-0000000000ab"))), None);
    assert_eq!(parse_object_id_text(Some(&text("urn:uuid:01900000000070008000000000000000ab"))), None);
}
