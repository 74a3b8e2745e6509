use fact_store::matching::{select_reference_matches, ReferenceCandidate};
use fact_store::reference::reference_plan;
use rusqlite::Connection;

fn table() -> Connection {
    let conn = Connection::open_in_memory().unwrap();
    conn.execute_batch(
        "CREATE TABLE protocol_object(object_id BLOB PRIMARY KEY, ledger_id BLOB, object_type TEXT NOT NULL, content_hash BLOB NOT NULL)",
    )
    .unwrap();
    conn
}

fn insert(conn: &Connection, object_id: uuid::Uuid, ledger: uuid::Uuid, object_type: &str, hash: [u8; 32]) {
    conn.execute(
        "INSERT INTO protocol_object(object_id,ledger_id,object_type,content_hash) VALUES(?,?,?,?)",
        (object_id.as_bytes().as_slice(), ledger.as_bytes().as_slice(), object_type, hash.as_slice()),
    )
    .unwrap();
}

fn collect(conn: &Connection, column: &str, low: &[u8], high: &[u8], out: &mut Vec<ReferenceCandidate>) {
    let sql = format!(
        "SELECT object_id,content_hash,object_type,ledger_id FROM protocol_object WHERE {column} BETWEEN ? AND ?"
    );
    let mut statement = conn.prepare(&sql).unwrap();
    let rows = statement
        .query_map((low, high), |row| {
            Ok((
                row.get::<_, Vec<u8>>(0)?,
                row.get::<_, Vec<u8>>(1)?,
                row.get::<_, String>(2)?,
                row.get::<_, Vec<u8>>(3)?,
            ))
        })
        .unwrap();
    for row in rows {
        let (object_id, content_hash, object_type, ledger_id) = row.unwrap();
        out.push(ReferenceCandidate {
            object_id: uuid::Uuid::from_slice(&object_id).unwrap().as_u128(),
            content_hash: content_hash.try_into().unwrap(),
            object_type,
            ledger_id,
        });
    }
}

fn resolve(conn: &Connection, ledger: uuid::Uuid, reference: &str, allowed: &[&str]) -> Vec<ReferenceCandidate> {
    let plan = reference_plan(reference);
    let mut candidates = Vec::new();
    if let Some((low, high)) = plan.object_id_range {
        collect(conn, "object_id", &low, &high, &mut candidates);
    }
    if let Some((low, high)) = plan.content_hash_range {
        collect(conn, "content_hash", &low, &high, &mut candidates);
    }
    let tail = plan.split.as_ref().map(|(_, tail)| tail.as_str());
    select_reference_matches(candidates, tail, ledger.as_bytes(), allowed)
}

fn numbered_hash(seed: u64) -> [u8; 32] {
    let mut bytes = [0u8; 32];
    bytes[24..].copy_from_slice(&seed.to_be_bytes());
    bytes
}

#[test]
fn object_reference_resolution_matches_uuid_and_hash_prefixes() {
    let conn = table();
    let ledger = uuid::Uuid::parse_str("01900000-0000-7000-8000-000000000001").unwrap();
    let proposition = uuid::Uuid::parse_str("01900000-0000-7000-8000-000000000004").unwrap();
    let revision = uuid::Uuid::parse_str("01900000-0000-7000-8000-000000000005").unwrap();
    let proposition_hash = [0xab; 32];
    let revision_hash = [0xcd; 32];
    insert(&conn, proposition, ledger, "proposition", proposition_hash);
    insert(&conn, revision, ledger, "revision", revision_hash);

    let ambiguous = resolve(&conn, ledger, "01900000-0000", &[]);
    assert_eq!(ambiguous.len(), 2);

    let propositions = resolve(&conn, ledger, "01900000-0000", &["proposition"]);
    assert_eq!(propositions.len(), 1);
    assert_eq!(propositions[0].object_id, proposition.as_u128());

    let hash_matches = resolve(&conn, ledger, "abab", &[]);
    assert_eq!(hash_matches.len(), 1);
    assert_eq!(hash_matches[0].content_hash, proposition_hash);

    assert!(resolve(&conn, ledger, "abab%", &[]).is_empty());
}

#[test]
fn object_reference_resolution_accepts_split_uuid_short_refs() {
    let conn = table();
    let ledger = uuid::Uuid::parse_str("01900000-0000-7000-8000-000000000001").unwrap();
    let first = uuid::Uuid::parse_str("019fb594-bf37-72c3-8c1e-3c8c9254fc4a").unwrap();
    let second = uuid::Uuid::parse_str("019fb594-bf37-76f1-9184-758b0fad5164").unwrap();
    insert(&conn, first, ledger, "revision", numbered_hash(11));
    insert(&conn, second, ledger, "revision", numbered_hash(12));

    let leading = resolve(&conn, ledger, "019fb594-bf3", &[]);
    assert_eq!(leading.len(), 2);

    let first_split = resolve(&conn, ledger, "019fb-3c8c9", &[]);
    assert_eq!(first_split.len(), 1);
    assert_eq!(first_split[0].object_id, first.as_u128());

    let second_split = resolve(&conn, ledger, "019fb-758b0", &[]);
    assert_eq!(second_split.len(), 1);
    assert_eq!(second_split[0].object_id, second.as_u128());
}

#[test]
fn other_ledgers_do_not_resolve() {
    let conn = table();
    let ledger = uuid::Uuid::parse_str("01900000-0000-7000-8000-000000000001").unwrap();
    let other = uuid::Uuid::parse_str("01900000-0000-7000-8000-000000000009").unwrap();
    let object = uuid::Uuid::parse_str("01900000-0000-7000-8000-000000000004").unwrap();
    insert(&conn, object, other, "proposition", [0xab; 32]);
    assert!(resolve(&conn, ledger, "01900000-0000", &[]).is_empty());
    assert_eq!(resolve(&conn, other, "01900000-0000", &[]).len(), 1);
}

#[test]
fn a_full_uuid_with_more_text_resolves_nothing() {
    let conn = table();
    let ledger = uuid::Uuid::parse_str("01900000-0000-7000-8000-000000000001").unwrap();
    let object = uuid::Uuid::parse_str("01900000-0000-7000-8000-000000000004").unwrap();
    insert(&conn, object, ledger, "proposition", [0xab; 32]);
    assert_eq!(resolve(&conn, ledger, "01900000-0000-7000-8000-000000000004", &[]).len(), 1);
    assert!(resolve(&conn, ledger, "01900000-0000-7000-8000-000000000004z", &[]).is_empty());
}
