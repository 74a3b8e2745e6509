use fact_store::error::Error;

#[test]
fn error_messages() {
    assert_eq!(Error::Duplicate.message(), "object already exists");
    assert_eq!(Error::InvalidUuid("object_id").message(), "invalid object UUID field: object_id");
    assert_eq!(Error::SearchIndex("invalid term frequencies").message(), "search index: invalid term frequencies");
    assert_eq!(Error::IndexedPropositionStale.message(), "indexed proposition state is stale");
}
