use cmem::domain::{MemoryId, ObjectType, RelationType, RetentionState, CURRENT_SCHEMA_VERSION};
use cmem::errors::CustomError;
use cmem::frontier::{apply_link_ref_fanout_limits, bounded_incident_link_refs, fanout_limit_for_pair, LinkRef};
use cmem::graph::{
    GraphExpansionBoundedFailure, GraphExpansionBoundedFailureReason, GraphExpansionFailurePolicy,
    GraphExpansionFanoutOverride, GraphExpansionQuery, GraphObjectRef,
};
use cmem::link::{admit_link, link_stats_endpoint_refs, object_type_has_stats_state, LinkAdmissionDecision, LinkAdmissionEvidence};
use cmem::objects::{DerivedMemory, MemoryLink};
use cmem::remember::{embedding_count_error, RememberPipelineOutcome, VectorIndexingFailure};
use cmem::selectivity::{
    conservative_fallback_fanout, fanout_specs, increment_telemetry, record_selectivity_choice, selectivity_decision,
    selectivity_inputs, spec_allowed_by_graph_scope, RetrievalLifecyclePolicy, SelectivityCountScope,
    SelectivityDecision, SelectivityPlan, SelectivityStatsContext, SelectivityTelemetry,
};
use cmem::selectivity::{ContextLoad, ContextLoadAction, ContextLoadEvent, ContextLoadNext};
use cmem::stats::{RetrievalStatsHealth, RetrievalStatsHealthState};
use cmem::settings::{EmbeddingModel, EmbeddingProviderSettings, VectorMemoryRepositorySettings};
use cmem::sparql::{
    literal_select_binding, named_graph_quads_query, sparql_escape_literal, sparql_iri, sparql_iri_values,
    sparql_literal_values, RdfSubjectValues, SparqlBinding,
};
use cmem::stats::{edge, InMemoryRetrievalStatsStore, RetrievalStatsCounter};
use cmem::vector::{
    default_vector_candidate_object_types, parse_object_type, parse_vector_surface, qdrant_point_id, surface_name,
    validate_collection_vector_config, CollectionVectorsShape, VectorCandidateFilters, VectorSurface, VectorTimeField,
    VectorTimeRangeFilter,
};
use cmem::write_validation::{validate_derived_memory_lifecycle, validate_required_candidate_identity};

fn id(value: &str) -> MemoryId {
    uuid::Uuid::parse_str(value).unwrap().as_u128()
}

fn memory_link(relation: RelationType, from_type: ObjectType, to_type: ObjectType) -> MemoryLink {
    MemoryLink {
        id: id("550e8400-e29b-41d4-a716-446655470001"),
        object_type: ObjectType::MemoryLink,
        from_id: id("550e8400-e29b-41d4-a716-446655470002"),
        from_type,
        to_id: id("550e8400-e29b-41d4-a716-446655470003"),
        to_type,
        relation,
        rationale: None,
        created_at: 0,
        schema_version: CURRENT_SCHEMA_VERSION.to_owned(),
    }
}

#[test]
fn zero_fanout_is_not_reported_as_high_selectivity() {
    let score: f64 = 1.0;
    let support_factor: f64 = 2.0;
    let decision = selectivity_decision(score >= 0.5, support_factor > 1.0, 0, false);

    assert_eq!(decision, SelectivityDecision::LowSelectivityRejected);
}

#[test]
fn selectivity_decisions_follow_fallback_score_and_support() {
    assert_eq!(selectivity_decision(true, true, 3, true), SelectivityDecision::ConservativeFallback);
    assert_eq!(selectivity_decision(true, false, 3, false), SelectivityDecision::HighSelectivity);
    assert_eq!(selectivity_decision(false, true, 3, false), SelectivityDecision::LowSelectivitySupported);
    assert_eq!(selectivity_decision(false, false, 3, false), SelectivityDecision::LowSelectivityRejected);
}

#[test]
fn count_scope_follows_lifecycle_policy() {
    let default = RetrievalLifecyclePolicy::default();
    assert_eq!(SelectivityCountScope::from(default), SelectivityCountScope::Current);
    assert_eq!(
        SelectivityCountScope::from(RetrievalLifecyclePolicy { include_non_current: true, ..default }),
        SelectivityCountScope::Active
    );
    assert_eq!(
        SelectivityCountScope::from(RetrievalLifecyclePolicy { include_suppressed: true, ..default }),
        SelectivityCountScope::Total
    );
    let counter = RetrievalStatsCounter { total_count: 3, active_count: 2, current_count: 1 };
    assert_eq!(SelectivityCountScope::Total.count(counter), 3);
    assert_eq!(SelectivityCountScope::Active.count(counter), 2);
    assert_eq!(SelectivityCountScope::Current.count(counter), 1);
}

#[test]
fn fanout_specs_and_scope_filtering() {
    let specs = fanout_specs();
    assert_eq!(specs.len(), 3);
    assert_eq!((specs[0].relation, specs[0].object_type, specs[0].max_fanout), (RelationType::About, ObjectType::DerivedMemory, 20));
    assert_eq!((specs[1].relation, specs[1].object_type, specs[1].max_fanout), (RelationType::Involves, ObjectType::Episode, 5));
    assert_eq!((specs[2].relation, specs[2].object_type, specs[2].max_fanout), (RelationType::PartOfThread, ObjectType::DerivedMemory, 15));
    assert!(spec_allowed_by_graph_scope(&specs[0], &Vec::new(), &Vec::new()));
    assert!(!spec_allowed_by_graph_scope(&specs[1], &vec![ObjectType::DerivedMemory], &Vec::new()));
    assert!(!spec_allowed_by_graph_scope(&specs[2], &Vec::new(), &vec![RelationType::About]));
    assert_eq!(conservative_fallback_fanout(0), 0);
    assert_eq!(conservative_fallback_fanout(20), 1);
}

#[test]
fn telemetry_counts_each_decision_once() {
    let mut telemetry = SelectivityTelemetry::new();
    increment_telemetry(&mut telemetry, SelectivityDecision::ConservativeFallback);
    increment_telemetry(&mut telemetry, SelectivityDecision::HighSelectivity);
    assert_eq!(telemetry.decision_count, 2);
    assert_eq!(telemetry.fallback_count, 1);
    assert_eq!(telemetry.high_selectivity_count, 1);
}

#[test]
fn selectivity_inputs_use_lifecycle_scoped_counts_and_fall_back_without_stats() {
    let mut stats = InMemoryRetrievalStatsStore::new();
    let entity_id = id("550e8400-e29b-41d4-a716-446655462003");
    stats.record_edges(&vec![
        edge(entity_id, RelationType::About, id("550e8400-e29b-41d4-a716-446655462004"), ObjectType::DerivedMemory, RetentionState::Active, true, 0),
        edge(entity_id, RelationType::About, id("550e8400-e29b-41d4-a716-446655462005"), ObjectType::DerivedMemory, RetentionState::Active, false, 0),
        edge(entity_id, RelationType::About, id("550e8400-e29b-41d4-a716-446655462006"), ObjectType::DerivedMemory, RetentionState::Suppressed, false, 0),
    ]);
    let context = SelectivityStatsContext::load_with_scope(&stats, &Vec::new(), &Vec::new());
    assert_eq!(context.specs.len(), 3);

    let active = selectivity_inputs(
        entity_id,
        ObjectType::Entity,
        20,
        &stats,
        &context,
        RetrievalLifecyclePolicy { include_non_current: true, ..RetrievalLifecyclePolicy::default() },
    );
    assert_eq!(active[0].entity_count, Some(2));
    assert_eq!(active[0].global_count, Some(2));
    assert!(!active[0].fallback);
    assert!(active[1].fallback);
    assert_eq!(active[1].max_fanout, 5);

    let total = selectivity_inputs(
        entity_id,
        ObjectType::Entity,
        20,
        &stats,
        &context,
        RetrievalLifecyclePolicy { include_suppressed: true, ..RetrievalLifecyclePolicy::default() },
    );
    assert_eq!(total[0].entity_count, Some(3));
    assert_eq!(total[0].global_count, Some(3));

    let not_entity = selectivity_inputs(entity_id, ObjectType::Episode, 20, &stats, &context, RetrievalLifecyclePolicy::default());
    assert!(not_entity.is_empty());

    stats.mark_unhealthy("stats unavailable".to_owned());
    let unhealthy = SelectivityStatsContext::load_with_scope(&stats, &Vec::new(), &Vec::new());
    let fallback = selectivity_inputs(entity_id, ObjectType::Entity, 20, &stats, &unhealthy, RetrievalLifecyclePolicy::default());
    assert!(fallback.iter().all(|input| input.fallback));

    let mut plan = SelectivityPlan::new();
    for input in &fallback {
        let chosen = conservative_fallback_fanout(input.max_fanout);
        record_selectivity_choice(&mut plan, input, chosen, false, false);
    }
    assert_eq!(plan.telemetry.fallback_count, fanout_specs().len());
    assert!(plan.fanout_overrides.iter().all(|o| o.max_fanout == 1));
}

#[test]
fn selectivity_plan_skips_specs_excluded_by_graph_scope() {
    let stats = InMemoryRetrievalStatsStore::new();
    let context = SelectivityStatsContext::load_with_scope(&stats, &vec![ObjectType::Episode], &vec![RelationType::Involves]);
    assert_eq!(context.specs.len(), 1);
    assert_eq!(context.specs[0].relation, RelationType::Involves);
    let none = SelectivityStatsContext::load_with_scope(&stats, &vec![ObjectType::Observation], &Vec::new());
    assert!(none.specs.is_empty());
}

#[test]
fn explicit_intent_allows_associated_with_links_by_default() {
    let link = memory_link(RelationType::AssociatedWith, ObjectType::Entity, ObjectType::Episode);
    assert_eq!(admit_link(&link, LinkAdmissionEvidence::ExplicitCallerIntent), LinkAdmissionDecision::Accepted);
}

#[test]
fn low_information_guard_rejects_weak_associated_with_candidate() {
    let link = memory_link(RelationType::AssociatedWith, ObjectType::Entity, ObjectType::Episode);
    assert_eq!(
        admit_link(&link, LinkAdmissionEvidence::LowSelectivityCoOccurrenceOnly),
        LinkAdmissionDecision::RejectedLowInformationCoOccurrence
    );
    let typed = memory_link(RelationType::Involves, ObjectType::Entity, ObjectType::Episode);
    assert_eq!(admit_link(&typed, LinkAdmissionEvidence::LowSelectivityCoOccurrenceOnly), LinkAdmissionDecision::Accepted);
}

#[test]
fn link_stats_endpoints_are_objects_with_lifecycle() {
    assert!(object_type_has_stats_state(ObjectType::Episode));
    assert!(!object_type_has_stats_state(ObjectType::Entity));
    let link = memory_link(RelationType::About, ObjectType::Entity, ObjectType::DerivedMemory);
    assert_eq!(link_stats_endpoint_refs(&link), vec![GraphObjectRef::new(link.to_id, ObjectType::DerivedMemory)]);
    let both = memory_link(RelationType::DerivedFrom, ObjectType::DerivedMemory, ObjectType::Observation);
    assert_eq!(
        link_stats_endpoint_refs(&both),
        vec![GraphObjectRef::new(both.from_id, ObjectType::DerivedMemory), GraphObjectRef::new(both.to_id, ObjectType::Observation)]
    );
}

fn link_ref(n: u128, from: GraphObjectRef, to: GraphObjectRef, relation: RelationType) -> LinkRef {
    LinkRef { link_id: n, from, to, relation }
}

#[test]
fn fanout_overrides_cap_pairs_under_the_node_cap() {
    let root = GraphObjectRef::new(1, ObjectType::Entity);
    let mut query = GraphExpansionQuery::new(1, ObjectType::Entity, 2, 50).with_max_fanout_per_node(3);
    query.fanout_overrides = vec![GraphExpansionFanoutOverride { relation: RelationType::About, object_type: ObjectType::DerivedMemory, max_fanout: 1 }];
    assert_eq!(fanout_limit_for_pair(&query, RelationType::About, ObjectType::DerivedMemory), 1);
    assert_eq!(fanout_limit_for_pair(&query, RelationType::Involves, ObjectType::Episode), 3);

    let links = vec![
        link_ref(10, root, GraphObjectRef::new(100, ObjectType::DerivedMemory), RelationType::About),
        link_ref(11, root, GraphObjectRef::new(101, ObjectType::DerivedMemory), RelationType::About),
        link_ref(12, root, GraphObjectRef::new(102, ObjectType::Episode), RelationType::Involves),
        link_ref(13, root, GraphObjectRef::new(103, ObjectType::Episode), RelationType::Involves),
        link_ref(14, root, GraphObjectRef::new(104, ObjectType::Episode), RelationType::Involves),
    ];
    let with_overrides = apply_link_ref_fanout_limits(&query, root, links.clone(), true);
    assert_eq!(with_overrides.iter().map(|l| l.link_id).collect::<Vec<_>>(), vec![10, 12, 13]);
    let without = apply_link_ref_fanout_limits(&query, root, links, false);
    assert_eq!(without.iter().map(|l| l.link_id).collect::<Vec<_>>(), vec![10, 11, 12]);
}

#[test]
fn incident_link_refs_record_or_fail_on_hubs() {
    let root = GraphObjectRef::new(1, ObjectType::Entity);
    let links = vec![
        link_ref(10, root, GraphObjectRef::new(100, ObjectType::DerivedMemory), RelationType::About),
        link_ref(11, GraphObjectRef::new(101, ObjectType::Episode), root, RelationType::Involves),
        link_ref(12, GraphObjectRef::new(5, ObjectType::Entity), GraphObjectRef::new(6, ObjectType::Episode), RelationType::Involves),
    ];
    let partial = GraphExpansionQuery::new(1, ObjectType::Entity, 2, 50).with_max_hub_edges(1);
    let mut failure = None;
    let followed = bounded_incident_link_refs(&partial, root, root, 0, &links, &mut failure).unwrap();
    assert_eq!(followed.len(), 1);
    assert_eq!(followed[0].link_id, 11);
    assert_eq!(failure, Some(GraphExpansionBoundedFailure { reason: GraphExpansionBoundedFailureReason::HubLimit, at: Some(root) }));

    let closed = partial.with_failure_policy(GraphExpansionFailurePolicy { timeout_ms: Some(250), allow_partial_results: false });
    let mut untouched = None;
    let error = bounded_incident_link_refs(&closed, root, root, 0, &links, &mut untouched).unwrap_err();
    assert!(matches!(error, CustomError::GraphExpansionBounded { reason, .. } if reason == "hub_limit"));
    assert_eq!(untouched, None);
}

#[test]
fn validates_existing_collection_vector_size() {
    let config = Some(Some(CollectionVectorsShape::Params { size: 1536, distance: 1 }));

    assert!(validate_collection_vector_config("memories", 1536, config.clone()).is_ok());

    let error = validate_collection_vector_config("memories", 3072, config).expect_err("mismatched existing collection should fail");
    assert!(matches!(
        error,
        CustomError::DatabaseError(message)
            if message.contains("memories") && message.contains("expected 3072") && message.contains("found 1536")
    ));
}

#[test]
fn rejects_existing_collection_with_wrong_distance_metric() {
    let config = Some(Some(CollectionVectorsShape::Params { size: 1536, distance: 2 }));

    let error = validate_collection_vector_config("memories", 1536, config).expect_err("same-size collection with wrong distance should fail");
    assert!(matches!(
        error,
        CustomError::DatabaseError(message)
            if message.contains("memories") && message.contains("expected Cosine") && message.contains("Euclid")
    ));
}

#[test]
fn rejects_named_vector_collection_config() {
    let config = Some(Some(CollectionVectorsShape::ParamsMap { names: vec!["content".to_owned()] }));

    let error = validate_collection_vector_config("memories", 1536, config).expect_err("named vectors should not be accepted for unnamed vector store");
    assert!(matches!(
        error,
        CustomError::DatabaseError(message) if message.contains("named vectors") && message.contains("content")
    ));
}

#[test]
fn collection_messages_are_exact() {
    assert_eq!(
        validate_collection_vector_config("memories", 8, None),
        Err(CustomError::DatabaseError(
            "Qdrant collection 'memories' is missing vector configuration; expected unnamed vectors with size 8.".to_owned()
        ))
    );
    assert_eq!(
        validate_collection_vector_config("memories", 8, Some(None)),
        Err(CustomError::DatabaseError(
            "Qdrant collection 'memories' vector configuration is empty; expected unnamed vectors with size 8.".to_owned()
        ))
    );
    assert_eq!(
        validate_collection_vector_config("m", 8, Some(Some(CollectionVectorsShape::ParamsMap { names: vec!["b".to_owned(), "a".to_owned()] }))),
        Err(CustomError::DatabaseError("Qdrant collection 'm' uses named vectors (a, b) but CharacterMemory expects an unnamed vector with size 8.".to_owned()))
    );
    assert_eq!(
        validate_collection_vector_config("m", 8, Some(Some(CollectionVectorsShape::Params { size: 8, distance: -7 }))),
        Err(CustomError::DatabaseError("Qdrant collection 'm' vector distance mismatch: expected Cosine, found -7.".to_owned()))
    );
}

#[test]
fn point_ids_are_unique_per_object_surface_and_identity_stays_in_payload() {
    let object_id = id("550e8400-e29b-41d4-a716-446655480001");
    let summary = qdrant_point_id(object_id, VectorSurface::Summary);
    let text = qdrant_point_id(object_id, VectorSurface::Text);

    assert_ne!(summary, text);
    assert_eq!(qdrant_point_id(object_id, VectorSurface::Summary), summary);
    let point = uuid::Uuid::from_u128(summary);
    assert_eq!(point.get_version_num(), 5);
    assert_eq!(point.get_variant(), uuid::Variant::RFC4122);
}

#[test]
fn payload_names_round_trip() {
    for surface in [VectorSurface::Summary, VectorSurface::Text, VectorSurface::Name, VectorSurface::DerivedText, VectorSurface::Query] {
        assert_eq!(parse_vector_surface(surface_name(surface).to_owned()), Ok(surface));
    }
    assert_eq!(parse_object_type("derived_memory".to_owned()), Ok(ObjectType::DerivedMemory));
    assert_eq!(
        parse_object_type("thing".to_owned()),
        Err(CustomError::DatabaseError("Unknown Qdrant object_type payload value: thing".to_owned()))
    );
    assert_eq!(
        parse_vector_surface("scene".to_owned()),
        Err(CustomError::DatabaseError("Unknown Qdrant surface payload value: scene".to_owned()))
    );
}

#[test]
fn vector_candidate_search_can_express_default_types_and_payload_hint_filters() {
    let thread_id = id("550e8400-e29b-41d4-a716-446655480002");
    let entity_id = id("550e8400-e29b-41d4-a716-446655480003");
    let episode_id = id("550e8400-e29b-41d4-a716-446655480004");
    let timestamp = chrono::DateTime::parse_from_rfc3339("2026-04-29T10:00:00Z").unwrap().timestamp_micros();
    let filters = VectorCandidateFilters::new()
        .with_retention_states(vec![RetentionState::Active])
        .current_only()
        .with_thread_ids(vec![thread_id])
        .with_entity_ids(vec![entity_id])
        .with_episode_ids(vec![episode_id])
        .with_time_range(VectorTimeRangeFilter::new(VectorTimeField::Observed, Some(timestamp), None));

    assert_eq!(
        default_vector_candidate_object_types(),
        vec![ObjectType::Episode, ObjectType::Observation, ObjectType::DerivedMemory, ObjectType::MemoryThread, ObjectType::Entity]
    );
    assert_eq!(filters.is_current, Some(true));
    assert_eq!(filters.is_superseded, Some(false));
    assert_eq!(filters.thread_ids, vec![thread_id]);
    assert_eq!(filters.time_ranges.len(), 1);
}

#[test]
fn sparql_text_escapes_and_quotes() {
    assert_eq!(sparql_escape_literal("a\"b\\c\nd\re\tf"), "a\\\"b\\\\c\\nd\\re\\tf");
    assert_eq!(sparql_iri("urn:x>y"), "urn:x%3Ey");
    assert_eq!(sparql_iri_values("g", &vec!["urn:a".to_owned(), "urn:b".to_owned()]), "VALUES ?g { <urn:a> <urn:b> }");
    assert_eq!(sparql_iri_values("g", &Vec::new()), "");
    assert_eq!(sparql_literal_values("id", &vec!["x\"y".to_owned()]), "VALUES ?id { \"x\\\"y\" }");
    let query = named_graph_quads_query(&vec!["urn:a".to_owned()]);
    assert!(query.contains("VALUES ?g { <urn:a> }"));
    assert!(query.contains("GRAPH ?g { ?s ?p ?o }"));
}

#[test]
fn sparql_bindings_and_subject_values_read_back() {
    let row = vec![
        ("id".to_owned(), SparqlBinding { kind: "literal".to_owned(), value: "7".to_owned() }),
        ("node".to_owned(), SparqlBinding { kind: "uri".to_owned(), value: "urn:x".to_owned() }),
    ];
    assert_eq!(literal_select_binding(&row, "id"), Ok("7".to_owned()));
    assert_eq!(
        literal_select_binding(&row, "node"),
        Err(CustomError::DatabaseError("Oxigraph SPARQL binding node must be a literal, got uri".to_owned()))
    );
    assert_eq!(
        literal_select_binding(&row, "missing"),
        Err(CustomError::DatabaseError("Oxigraph SPARQL result is missing binding missing".to_owned()))
    );
    let mut values = RdfSubjectValues::new();
    values.push_literal("p".to_owned(), "one".to_owned());
    values.push_literal("p".to_owned(), "two".to_owned());
    values.push_resource("r".to_owned(), "urn:r".to_owned());
    assert_eq!(values.literal("s", "p"), Ok("one".to_owned()));
    assert_eq!(values.literal_values("p"), vec!["one".to_owned(), "two".to_owned()]);
    assert_eq!(values.optional_literal("q"), None);
    assert_eq!(values.resource_values("r"), vec!["urn:r".to_owned()]);
    assert_eq!(
        values.resource("s", "p"),
        Err(CustomError::DatabaseError("Oxigraph RDF object s is missing required predicate p".to_owned()))
    );
}

fn derived_memory(is_current: bool, retention_state: RetentionState, supersedes: Vec<MemoryId>) -> DerivedMemory {
    DerivedMemory {
        id: id("550e8400-e29b-41d4-a716-446655490001"),
        object_type: ObjectType::DerivedMemory,
        derived_type: cmem::domain::DerivedType::Correction,
        text: "new correction".to_owned(),
        derived_from_episode_ids: Vec::new(),
        derived_from_observation_ids: Vec::new(),
        thread_ids: Vec::new(),
        entity_ids: Vec::new(),
        assertions: Vec::new(),
        given_by_application: false,
        salience_score: 0.5f32.to_bits(),
        is_current,
        supersedes,
        retention_state,
        created_at: 0,
        updated_at: 0,
        schema_version: CURRENT_SCHEMA_VERSION.to_owned(),
    }
}

#[test]
fn rejects_suppressed_current_derived_memory() {
    let errors = validate_derived_memory_lifecycle(&derived_memory(true, RetentionState::Suppressed, Vec::new()));
    assert_eq!(errors, vec!["suppressed memories are not current".to_owned()]);
}

#[test]
fn rejects_current_superseding_derived_memory_unless_historical() {
    let supersedes = vec![id("550e8400-e29b-41d4-a716-446655490002")];
    let errors = validate_derived_memory_lifecycle(&derived_memory(true, RetentionState::Active, supersedes.clone()));
    assert_eq!(errors, vec!["superseded memories are not current unless explicitly historical".to_owned()]);
    assert!(validate_derived_memory_lifecycle(&derived_memory(true, RetentionState::Archived, supersedes)).is_empty());
}

#[test]
fn rejects_missing_candidate_id_and_schema_version() {
    assert_eq!(
        validate_required_candidate_identity("episode candidate", None, Some("   ")),
        vec!["episode candidate id must be present".to_owned(), "episode candidate schema_version must be present".to_owned()]
    );
    assert_eq!(validate_required_candidate_identity("episode candidate", Some(0), Some(CURRENT_SCHEMA_VERSION)), vec!["episode candidate id must be present".to_owned()]);
    assert!(validate_required_candidate_identity("episode candidate", Some(7), Some(CURRENT_SCHEMA_VERSION)).is_empty());
}

#[test]
fn wrong_embedding_count_returns_clear_partial_failure() {
    assert_eq!(embedding_count_error(2, 2), None);
    assert_eq!(embedding_count_error(1, 2), Some("embedder returned 1 embeddings for 2 vector records".to_owned()));
    let mut outcome = RememberPipelineOutcome::graph_persisted(&Vec::new(), &vec![memory_link(RelationType::About, ObjectType::Entity, ObjectType::Episode)]);
    assert_eq!(outcome.persisted_link_ids, vec![id("550e8400-e29b-41d4-a716-446655470001")]);
    outcome.record_indexing(vec![5, 6], Err("vector store down".to_owned()));
    assert_eq!(
        outcome.vector_indexing_failure,
        Some(VectorIndexingFailure { unindexed_object_ids: vec![5, 6], error_message: "vector store down".to_owned() })
    );
    assert!(outcome.vector_indexed_object_ids.is_empty());
}

#[test]
fn settings_keep_their_values() {
    let provider = EmbeddingProviderSettings::new("dummy_key".to_owned(), EmbeddingModel::TextEmbedding3Large);
    assert_eq!(provider.api_key, "dummy_key");
    assert_eq!(provider.model.as_str(), "text-embedding-3-large");
    let repository = VectorMemoryRepositorySettings::new("http://localhost:6334".to_owned(), "memories".to_owned(), EmbeddingModel::TextEmbedding3Large);
    assert_eq!(repository.collection_name, "memories");
    assert_eq!(repository.url, "http://localhost:6334");
}

#[test]
fn unreadable_stats_fall_back_with_the_read_error() {
    let stats = InMemoryRetrievalStatsStore::new();
    let context = SelectivityStatsContext::unreadable(&vec![ObjectType::Episode], &vec![RelationType::Involves], "counter read failed".to_owned());
    assert_eq!(context.specs.len(), 1);
    assert!(context.global_counters.is_empty());
    assert_eq!(context.health.last_error_message, Some("counter read failed".to_owned()));
    let inputs = selectivity_inputs(7, ObjectType::Entity, 20, &stats, &context, RetrievalLifecyclePolicy::default());
    assert_eq!(inputs.len(), 1);
    assert!(inputs.iter().all(|input| input.fallback));
}

fn drive_context_load(
    health: Result<RetrievalStatsHealth, String>,
    counters: Vec<Result<Option<RetrievalStatsCounter>, String>>,
) -> (SelectivityStatsContext, Vec<String>) {
    let (mut load, mut action) = ContextLoad::start(&Vec::new(), &Vec::new());
    let mut counters = counters.into_iter();
    let mut marks = Vec::new();
    loop {
        let event = match action {
            ContextLoadAction::ReadHealth => match health.clone() {
                Ok(h) => ContextLoadEvent::Health(h),
                Err(m) => ContextLoadEvent::Failed(m),
            },
            ContextLoadAction::ReadGlobalCounter(_, _) => match counters.next().expect("no more counter reads scripted") {
                Ok(c) => ContextLoadEvent::Counter(c),
                Err(m) => ContextLoadEvent::Failed(m),
            },
            ContextLoadAction::MarkUnhealthy(m) => {
                marks.push(m);
                ContextLoadEvent::Marked
            }
        };
        match load.step(event) {
            ContextLoadNext::Act(next, next_action) => {
                load = next;
                action = next_action;
            }
            ContextLoadNext::Finished(context) => return (context, marks),
        }
    }
}

fn healthy() -> RetrievalStatsHealth {
    RetrievalStatsHealth { state: RetrievalStatsHealthState::Healthy, last_error_message: None }
}

#[test]
fn context_load_reads_every_global_counter_of_a_healthy_store() {
    let scoped = SelectivityStatsContext::load_with_scope(&InMemoryRetrievalStatsStore::new(), &Vec::new(), &Vec::new());
    let n = scoped.specs.len();
    assert!(n > 1);
    let reads = (0..n).map(|k| Ok(Some(RetrievalStatsCounter { total_count: k as u64, active_count: 0, current_count: 0 }))).collect();
    let (context, marks) = drive_context_load(Ok(healthy()), reads);
    assert!(marks.is_empty());
    assert_eq!(context.specs, scoped.specs);
    assert_eq!(context.global_counters.len(), n);
    for (k, (relation, object_type, counter)) in context.global_counters.iter().enumerate() {
        assert_eq!(*relation, context.specs[k].relation);
        assert_eq!(*object_type, context.specs[k].object_type);
        assert_eq!(counter.unwrap().total_count, k as u64);
    }
}

#[test]
fn context_load_falls_back_and_marks_the_store_when_a_read_fails() {
    let (context, marks) = drive_context_load(Err("health read failed".to_owned()), vec![]);
    assert_eq!(marks, vec!["health read failed".to_owned()]);
    assert_eq!(context.health.state, RetrievalStatsHealthState::Unhealthy);
    assert_eq!(context.health.last_error_message, Some("health read failed".to_owned()));
    assert!(context.global_counters.is_empty());
    assert!(!context.specs.is_empty());

    let (context, marks) = drive_context_load(Ok(healthy()), vec![Ok(None), Err("counter read failed".to_owned())]);
    assert_eq!(marks, vec!["counter read failed".to_owned()]);
    assert_eq!(context.health.last_error_message, Some("counter read failed".to_owned()));
    assert!(context.global_counters.is_empty());
}

#[test]
fn context_load_reads_no_counter_of_an_unhealthy_store() {
    let unhealthy = RetrievalStatsHealth { state: RetrievalStatsHealthState::Unhealthy, last_error_message: Some("earlier".to_owned()) };
    let (context, marks) = drive_context_load(Ok(unhealthy.clone()), vec![]);
    assert!(marks.is_empty());
    assert_eq!(context.health, unhealthy);
    assert!(context.global_counters.is_empty());
}
