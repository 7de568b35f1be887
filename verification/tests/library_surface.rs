use std::str::FromStr;

use cmem::domain::{MemoryObjectRef, ObjectType, RelationType, RetentionState};
use cmem::errors::{TransportStatus, VectorDatabaseError, VectorDatabaseErrorKind};
use cmem::graph::{GraphExpansionQuery, GraphObjectRef};
use cmem::objects::{Scene, SceneParticipant, ScopeKey};
use cmem::retrieval::{GraphExpansionBoundedFailureTrace, GraphExpansionBoundedReason, GraphFailureMode};
use cmem::sparql::{push_optional_literal, sparql_node_iri_values, sparql_object_ref_values, RdfObject, RdfTriple};
use cmem::stats::retention_state_key;
use cmem::write_validation::{CandidateValidation, CandidateValidationIssue, CandidateValidationStatus, MemoryCandidateKind};

const ID: u128 = 0x550e8400_e29b_41d4_a716_446655440000;

#[test]
fn object_refs_convert_to_graph_refs() {
    let memory_ref = MemoryObjectRef::from_id_type(ID, ObjectType::Observation);
    assert_eq!(memory_ref, MemoryObjectRef::new(ObjectType::Observation, ID));
    assert_eq!(GraphObjectRef::from_memory_ref(memory_ref), GraphObjectRef::new(ID, ObjectType::Observation));
}

#[test]
fn expansion_queries_keep_relation_restrictions() {
    let query = GraphExpansionQuery::new(ID, ObjectType::Entity, 1, 5).with_allowed_relation_types(vec![RelationType::About]);
    assert_eq!(query.allowed_relation_types, vec![RelationType::About]);
    assert_eq!(query.max_nodes, 5);
}

#[test]
fn vector_database_errors_carry_a_retry_hint() {
    let error = VectorDatabaseError::new("qdrant", VectorDatabaseErrorKind::ResourceExhausted, Some(TransportStatus::ResourceExhausted), "slow down".to_owned())
        .with_retry_after_seconds(3);
    assert_eq!(error.retry_after_seconds, Some(3));
    assert_eq!(error.backend, "qdrant");
    assert_eq!(error.message, "slow down");
}

#[test]
fn validations_collect_warnings_without_changing_status() {
    let verdict = CandidateValidation::valid(2, MemoryCandidateKind::Episode)
        .with_warning(CandidateValidationIssue::MissingCandidateId);
    assert_eq!(verdict.status, CandidateValidationStatus::Valid);
    assert_eq!(verdict.warnings, vec![CandidateValidationIssue::MissingCandidateId]);
    assert!(verdict.errors.is_empty());
}

#[test]
fn scenes_drop_blank_participants_and_list_scope_keys() {
    let mut scene = Scene::at(1_000_000, 3600);
    scene.participants = vec![
        SceneParticipant { key: None, name: Some("  ".to_owned()), description: None },
        SceneParticipant { key: Some(ID), name: None, description: None },
        SceneParticipant { key: None, name: None, description: Some("a tall stranger".to_owned()) },
        SceneParticipant { key: None, name: None, description: None },
    ];
    scene.setting.key = Some("kitchen".to_owned());
    scene.custom_values = vec![("mood".to_owned(), "calm".to_owned())];

    let cleaned = scene.clone().without_blank_participants();
    assert_eq!(cleaned.participants, vec![scene.participants[1].clone(), scene.participants[2].clone()]);
    assert_eq!(cleaned.setting, scene.setting);
    assert_eq!(
        scene.scope_keys(),
        vec![
            ScopeKey::Setting("kitchen".to_owned()),
            ScopeKey::Custom { name: "mood".to_owned(), value: "calm".to_owned() },
        ]
    );
}

#[test]
fn sparql_values_name_nodes_by_uri_and_by_row() {
    let node = GraphObjectRef::new(ID, ObjectType::Episode);
    assert_eq!(
        sparql_node_iri_values("node", &vec![node]),
        "VALUES ?node { <urn:cmem:episode:550e8400-e29b-41d4-a716-446655440000> }"
    );
    assert_eq!(sparql_node_iri_values("node", &Vec::new()), "");
    assert_eq!(
        sparql_object_ref_values(&vec![node]),
        "VALUES (?id ?objectType) { (\"550e8400-e29b-41d4-a716-446655440000\" \"episode\") }"
    );
    assert_eq!(sparql_object_ref_values(&Vec::new()), "");
}

#[test]
fn optional_literals_are_pushed_only_when_present() {
    let mut triples: Vec<RdfTriple> = Vec::new();
    push_optional_literal(&mut triples, "urn:s", "urn:p", None);
    assert!(triples.is_empty());
    push_optional_literal(&mut triples, "urn:s", "urn:p", Some("v"));
    assert_eq!(
        triples,
        vec![RdfTriple { subject: "urn:s".to_owned(), predicate: "urn:p".to_owned(), object: RdfObject::Literal("v".to_owned()) }]
    );
}

#[test]
fn retention_keys_are_snake_case() {
    assert_eq!(retention_state_key(RetentionState::Active), "active");
    assert_eq!(retention_state_key(RetentionState::Suppressed), "suppressed");
}

#[test]
fn expansions_allow_partial_results_by_default() {
    assert_eq!(GraphFailureMode::default(), GraphFailureMode::AllowPartialResults);
    let trace = GraphExpansionBoundedFailureTrace {
        reason: GraphExpansionBoundedReason::HubLimit,
        at: Some(MemoryObjectRef::new(ObjectType::Entity, ID)),
    };
    assert_eq!(trace.reason, GraphExpansionBoundedReason::HubLimit);
}

#[test]
fn tokens_parse_through_from_str() {
    assert_eq!("memory_thread".parse::<ObjectType>(), Ok(ObjectType::MemoryThread));
    assert_eq!(ObjectType::from_str("thread"), Err("unknown object type token: thread".to_owned()));
    assert_eq!("derived_text".parse::<cmem::domain::VectorSurface>(), Ok(cmem::domain::VectorSurface::DerivedText));
    assert_eq!(
        "vectors".parse::<cmem::domain::VectorSurface>(),
        Err("unknown vector surface token: vectors".to_owned())
    );
}
