use fact_store::metrics::{DebugMetric, StoreDebugMetricCounters, StoreDebugMetrics};
use fact_store::modes::{rebuild_after_incremental, Durability, ProjectedMode, ProjectionStep, PropositionLifecycleFilter};

#[test]
fn durability_policy_selects_sqlite_synchronous_mode() {
    let normal = rusqlite::Connection::open_in_memory().unwrap();
    normal
        .execute_batch(&format!("PRAGMA synchronous={};", Durability::Normal.synchronous_pragma()))
        .unwrap();
    let normal_mode: i64 = normal.query_row("PRAGMA synchronous", [], |row| row.get(0)).unwrap();
    assert_eq!(normal_mode, 1);

    let full = rusqlite::Connection::open_in_memory().unwrap();
    full.execute_batch(&format!("PRAGMA synchronous={};", Durability::Full.synchronous_pragma()))
        .unwrap();
    let full_mode: i64 = full.query_row("PRAGMA synchronous", [], |row| row.get(0)).unwrap();
    assert_eq!(full_mode, 2);
}

#[test]
fn projected_modes_choose_the_projection_step() {
    assert_eq!(ProjectedMode::Defer.projection_step(), ProjectionStep::Skip);
    assert_eq!(ProjectedMode::FullRebuild.projection_step(), ProjectionStep::Rebuild);
    assert_eq!(ProjectedMode::Incremental.projection_step(), ProjectionStep::IncrementalWithFallback);
    assert!(rebuild_after_incremental(false));
    assert!(!rebuild_after_incremental(true));
}

#[test]
fn lifecycle_filters_select_statuses() {
    assert_eq!(PropositionLifecycleFilter::Withdrawn.required_statuses(), (Some("withdrawn"), None));
    assert_eq!(PropositionLifecycleFilter::Archived.required_statuses(), (None, Some("archived")));
}

#[test]
fn debug_counters_record_and_reset() {
    let mut counters = StoreDebugMetricCounters::new();
    assert_eq!(counters.snapshot(), StoreDebugMetrics::default());
    counters.record(DebugMetric::GetPayload, 1);
    counters.record(DebugMetric::GetPayload, 1);
    counters.record(DebugMetric::SearchIndexCandidateRows, 40);
    let s = counters.snapshot();
    assert_eq!(s.get_payload, 2);
    assert_eq!(s.search_index_candidate_rows, 40);
    assert_eq!(s.list_objects, 0);
    counters.reset();
    assert_eq!(counters.snapshot(), StoreDebugMetrics::default());
}
