//! Debug counters of how often the store runs its expensive reads.

use vstd::prelude::*;

verus! {

/// A snapshot of the debug counters.
#[derive(Clone, Copy, Debug, Default, PartialEq, Eq, Structural)]
pub struct StoreDebugMetrics {
    pub list_objects: u64,
    pub list_object_hashes: u64,
    pub get_payload: u64,
    pub list_effective_state: u64,
    pub list_knowledge_effective_revision_ids: u64,
    pub list_knowledge_proposition_ids: u64,
    pub list_revision_search_payloads: u64,
    pub list_deliberation_projecteds: u64,
    pub list_lifecycle_rows: u64,
    pub list_object_payloads: u64,
    pub list_object_payloads_by_type: u64,
    pub list_deliberation_objects_by_type: u64,
    pub list_markdown_documents: u64,
    pub list_objects_by_deliberation: u64,
    pub list_objects_with_dependencies: u64,
    pub list_objects_with_dependencies_page: u64,
    pub list_dependency_closure_for_objects: u64,
    pub search_index_rebuilds: u64,
    pub search_index_candidate_rows: u64,
    pub projected_rebuilds: u64,
}

/// One of the debug counters.
#[derive(Clone, Copy, Debug, PartialEq, Eq, Structural)]
pub enum DebugMetric {
    ListObjects,
    ListObjectHashes,
    GetPayload,
    ListEffectiveState,
    ListKnowledgeEffectiveRevisionIds,
    ListKnowledgePropositionIds,
    ListRevisionSearchPayloads,
    ListDeliberationProjecteds,
    ListLifecycleRows,
    ListObjectPayloads,
    ListObjectPayloadsByType,
    ListDeliberationObjectsByType,
    ListMarkdownDocuments,
    ListObjectsByDeliberation,
    ListObjectsWithDependencies,
    ListObjectsWithDependenciesPage,
    ListDependencyClosureForObjects,
    SearchIndexRebuilds,
    SearchIndexCandidateRows,
    ProjectedRebuilds,
}

impl StoreDebugMetrics {
    /// The value of one counter in the snapshot.
    pub open spec fn value(&self, m: DebugMetric) -> u64 {
        match m {
            DebugMetric::ListObjects => self.list_objects,
            DebugMetric::ListObjectHashes => self.list_object_hashes,
            DebugMetric::GetPayload => self.get_payload,
            DebugMetric::ListEffectiveState => self.list_effective_state,
            DebugMetric::ListKnowledgeEffectiveRevisionIds => self.list_knowledge_effective_revision_ids,
            DebugMetric::ListKnowledgePropositionIds => self.list_knowledge_proposition_ids,
            DebugMetric::ListRevisionSearchPayloads => self.list_revision_search_payloads,
            DebugMetric::ListDeliberationProjecteds => self.list_deliberation_projecteds,
            DebugMetric::ListLifecycleRows => self.list_lifecycle_rows,
            DebugMetric::ListObjectPayloads => self.list_object_payloads,
            DebugMetric::ListObjectPayloadsByType => self.list_object_payloads_by_type,
            DebugMetric::ListDeliberationObjectsByType => self.list_deliberation_objects_by_type,
            DebugMetric::ListMarkdownDocuments => self.list_markdown_documents,
            DebugMetric::ListObjectsByDeliberation => self.list_objects_by_deliberation,
            DebugMetric::ListObjectsWithDependencies => self.list_objects_with_dependencies,
            DebugMetric::ListObjectsWithDependenciesPage => self.list_objects_with_dependencies_page,
            DebugMetric::ListDependencyClosureForObjects => self.list_dependency_closure_for_objects,
            DebugMetric::SearchIndexRebuilds => self.search_index_rebuilds,
            DebugMetric::SearchIndexCandidateRows => self.search_index_candidate_rows,
            DebugMetric::ProjectedRebuilds => self.projected_rebuilds,
        }
    }

    /// Every counter is zero.
    pub open spec fn is_zero(&self) -> bool {
        forall|m: DebugMetric| #[trigger] self.value(m) == 0
    }
}

/// The live debug counters of a store.
pub struct StoreDebugMetricCounters {
    counts: StoreDebugMetrics,
}

impl StoreDebugMetricCounters {
    /// The current counts.
    pub closed spec fn view(&self) -> StoreDebugMetrics {
        self.counts
    }

    /// Counters that all start at zero.
    pub fn new() -> (r: Self)
        ensures
            r.view().is_zero(),
    {
        StoreDebugMetricCounters {
            counts: StoreDebugMetrics {
                list_objects: 0,
                list_object_hashes: 0,
                get_payload: 0,
                list_effective_state: 0,
                list_knowledge_effective_revision_ids: 0,
                list_knowledge_proposition_ids: 0,
                list_revision_search_payloads: 0,
                list_deliberation_projecteds: 0,
                list_lifecycle_rows: 0,
                list_object_payloads: 0,
                list_object_payloads_by_type: 0,
                list_deliberation_objects_by_type: 0,
                list_markdown_documents: 0,
                list_objects_by_deliberation: 0,
                list_objects_with_dependencies: 0,
                list_objects_with_dependencies_page: 0,
                list_dependency_closure_for_objects: 0,
                search_index_rebuilds: 0,
                search_index_candidate_rows: 0,
                projected_rebuilds: 0,
            },
        }
    }

    /// Sets every counter back to zero.
    pub fn reset(&mut self)
        ensures
            final(self).view().is_zero(),
    {
        self.counts = StoreDebugMetrics {
            list_objects: 0,
            list_object_hashes: 0,
            get_payload: 0,
            list_effective_state: 0,
            list_knowledge_effective_revision_ids: 0,
            list_knowledge_proposition_ids: 0,
            list_revision_search_payloads: 0,
            list_deliberation_projecteds: 0,
            list_lifecycle_rows: 0,
            list_object_payloads: 0,
            list_object_payloads_by_type: 0,
            list_deliberation_objects_by_type: 0,
            list_markdown_documents: 0,
            list_objects_by_deliberation: 0,
            list_objects_with_dependencies: 0,
            list_objects_with_dependencies_page: 0,
            list_dependency_closure_for_objects: 0,
            search_index_rebuilds: 0,
            search_index_candidate_rows: 0,
            projected_rebuilds: 0,
        };
    }

    /// The current counts.
    pub fn snapshot(&self) -> (r: StoreDebugMetrics)
        ensures
            r == self.view(),
    {
        self.counts
    }

    /// Adds `amount` to one counter and leaves the others as they are.
    pub fn record(&mut self, metric: DebugMetric, amount: u64)
        requires
            old(self).view().value(metric) + amount <= u64::MAX,
        ensures
            final(self).view().value(metric) == old(self).view().value(metric) + amount,
            forall|m: DebugMetric|
                m != metric ==> #[trigger] final(self).view().value(m) == old(self).view().value(m),
    {
        match metric {
            DebugMetric::ListObjects => self.counts.list_objects = self.counts.list_objects + amount,
            DebugMetric::ListObjectHashes => self.counts.list_object_hashes = self.counts.list_object_hashes + amount,
            DebugMetric::GetPayload => self.counts.get_payload = self.counts.get_payload + amount,
            DebugMetric::ListEffectiveState => self.counts.list_effective_state = self.counts.list_effective_state + amount,
            DebugMetric::ListKnowledgeEffectiveRevisionIds => self.counts.list_knowledge_effective_revision_ids = self.counts.list_knowledge_effective_revision_ids + amount,
            DebugMetric::ListKnowledgePropositionIds => self.counts.list_knowledge_proposition_ids = self.counts.list_knowledge_proposition_ids + amount,
            DebugMetric::ListRevisionSearchPayloads => self.counts.list_revision_search_payloads = self.counts.list_revision_search_payloads + amount,
            DebugMetric::ListDeliberationProjecteds => self.counts.list_deliberation_projecteds = self.counts.list_deliberation_projecteds + amount,
            DebugMetric::ListLifecycleRows => self.counts.list_lifecycle_rows = self.counts.list_lifecycle_rows + amount,
            DebugMetric::ListObjectPayloads => self.counts.list_object_payloads = self.counts.list_object_payloads + amount,
            DebugMetric::ListObjectPayloadsByType => self.counts.list_object_payloads_by_type = self.counts.list_object_payloads_by_type + amount,
            DebugMetric::ListDeliberationObjectsByType => self.counts.list_deliberation_objects_by_type = self.counts.list_deliberation_objects_by_type + amount,
            DebugMetric::ListMarkdownDocuments => self.counts.list_markdown_documents = self.counts.list_markdown_documents + amount,
            DebugMetric::ListObjectsByDeliberation => self.counts.list_objects_by_deliberation = self.counts.list_objects_by_deliberation + amount,
            DebugMetric::ListObjectsWithDependencies => self.counts.list_objects_with_dependencies = self.counts.list_objects_with_dependencies + amount,
            DebugMetric::ListObjectsWithDependenciesPage => self.counts.list_objects_with_dependencies_page = self.counts.list_objects_with_dependencies_page + amount,
            DebugMetric::ListDependencyClosureForObjects => self.counts.list_dependency_closure_for_objects = self.counts.list_dependency_closure_for_objects + amount,
            DebugMetric::SearchIndexRebuilds => self.counts.search_index_rebuilds = self.counts.search_index_rebuilds + amount,
            DebugMetric::SearchIndexCandidateRows => self.counts.search_index_candidate_rows = self.counts.search_index_candidate_rows + amount,
            DebugMetric::ProjectedRebuilds => self.counts.projected_rebuilds = self.counts.projected_rebuilds + amount,
        }
    }
}

} // verus!
