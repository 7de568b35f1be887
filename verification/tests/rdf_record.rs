use cmem::domain::{
    graph_uri, DerivedType, MemoryId, Modality, ObjectType, RelationType, RetentionState,
    ThreadStatus, CURRENT_SCHEMA_VERSION,
};
use cmem::errors::CustomError;
use cmem::objects::{
    DomainValidationError, DerivedMemory, Entity, Episode, MemoryLink, MemoryObject, MemoryThread, Observation, Scene,
    SceneParticipant, SceneSetting,
};
use cmem::rdf_read::memory_object_from_rdf;
use cmem::rdf_write::{graph_replacements, rdf_triples_for_object, subject_values};
use cmem::sparql::{sparql_string_literal, RdfObject, RdfTriple};
use cmem::graph_store::graph_service_endpoint;
use cmem::settings::check_embedding_input;

const BASE: &str = "550e8400-e29b-41d4-a716-446655440000";
// 2023-11-14T22:13:20Z
const T0: i64 = 1_700_000_000_000_000;

fn id(n: u128) -> MemoryId {
    uuid::Uuid::parse_str(BASE).unwrap().as_u128() + n
}

fn salience_bits() -> Vec<(String, u32)> {
    vec![("urn:cmem:property:salience_score".to_owned(), 0.75f32.to_bits())]
}

fn literal_of(triples: &[RdfTriple], predicate: &str) -> Vec<String> {
    triples
        .iter()
        .filter(|t| t.predicate == predicate)
        .filter_map(|t| match &t.object {
            RdfObject::Literal(v) => Some(v.clone()),
            RdfObject::Resource(_) => None,
        })
        .collect()
}

fn resources_of(triples: &[RdfTriple], predicate: &str) -> Vec<String> {
    triples
        .iter()
        .filter(|t| t.predicate == predicate)
        .filter_map(|t| match &t.object {
            RdfObject::Resource(v) => Some(v.clone()),
            RdfObject::Literal(_) => None,
        })
        .collect()
}

fn read_back(object: &MemoryObject, object_type: ObjectType, object_id: MemoryId) -> MemoryObject {
    let triples = rdf_triples_for_object(object, "0.75").unwrap();
    let subject = graph_uri(object_type, object_id);
    let values = subject_values(&triples, &subject);
    memory_object_from_rdf(&subject, &values, object_type, &salience_bits()).unwrap()
}

fn entity() -> Entity {
    Entity {
        id: id(1),
        object_type: ObjectType::Entity,
        created_at: T0,
        schema_version: CURRENT_SCHEMA_VERSION.to_owned(),
    }
}

fn episode() -> Episode {
    Episode {
        id: id(2),
        object_type: ObjectType::Episode,
        modality: Modality::Chat,
        scene: Scene {
            time: T0,
            offset_seconds: 0,
            participants: vec![
                SceneParticipant { key: Some(id(9)), name: None, description: None },
                SceneParticipant { key: Some(id(1)), name: None, description: None },
            ],
            setting: SceneSetting { key: None, words: None },
            custom_values: vec![],
        },
        ended_at: Some(T0 + 60_000_000),
        summary: "We talked about \"the garden\".".to_owned(),
        raw_ref: Some("conversation:7".to_owned()),
        salience_score: 0.75f32.to_bits(),
        retention_state: RetentionState::Active,
        created_at: T0,
        schema_version: CURRENT_SCHEMA_VERSION.to_owned(),
    }
}

#[test]
fn rdf_entity_record_has_typed_subject_identity_and_instant() {
    let e = entity();
    let triples = rdf_triples_for_object(&MemoryObject::Entity(e.clone()), "unused").unwrap();
    let subject = "urn:cmem:entity:550e8400-e29b-41d4-a716-446655440001";
    assert!(triples.iter().all(|t| t.subject == subject));
    assert_eq!(triples.len(), 6);
    assert_eq!(
        triples[0],
        RdfTriple {
            subject: subject.to_owned(),
            predicate: "http://www.w3.org/1999/02/22-rdf-syntax-ns#type".to_owned(),
            object: RdfObject::Resource("urn:cmem:class:Entity".to_owned()),
        }
    );
    assert_eq!(literal_of(&triples, "urn:cmem:property:object_id"), vec!["550e8400-e29b-41d4-a716-446655440001"]);
    assert_eq!(literal_of(&triples, "urn:cmem:property:object_type"), vec!["entity"]);
    assert_eq!(literal_of(&triples, "urn:cmem:property:graph_uri"), vec![subject]);
    assert_eq!(literal_of(&triples, "urn:cmem:property:schema_version"), vec![CURRENT_SCHEMA_VERSION]);
    assert_eq!(literal_of(&triples, "urn:cmem:property:created_at"), vec!["2023-11-14T22:13:20Z"]);
}

#[test]
fn rdf_entity_record_reads_back() {
    let e = entity();
    let read = read_back(&MemoryObject::Entity(e.clone()), ObjectType::Entity, e.id);
    assert_eq!(read, MemoryObject::Entity(e));
}

#[test]
fn rdf_episode_record_reads_back_with_participants_in_identity_order() {
    let e = episode();
    let triples = rdf_triples_for_object(&MemoryObject::Episode(e.clone()), "0.75").unwrap();
    assert_eq!(literal_of(&triples, "urn:cmem:property:salience_score"), vec!["0.75"]);
    assert_eq!(literal_of(&triples, "urn:cmem:property:started_at"), vec!["2023-11-14T22:13:20Z"]);
    assert_eq!(literal_of(&triples, "urn:cmem:property:ended_at"), vec!["2023-11-14T22:14:20Z"]);
    assert_eq!(
        resources_of(&triples, "urn:cmem:property:participant_entity"),
        vec![
            "urn:cmem:entity:550e8400-e29b-41d4-a716-446655440009",
            "urn:cmem:entity:550e8400-e29b-41d4-a716-446655440001",
        ]
    );
    let read = read_back(&MemoryObject::Episode(e.clone()), ObjectType::Episode, e.id);
    let mut expected = e;
    expected.scene.participants.reverse();
    assert_eq!(read, MemoryObject::Episode(expected));
}

#[test]
fn rdf_episode_record_drops_what_the_graph_does_not_keep() {
    let mut e = episode();
    e.scene.participants.push(SceneParticipant { key: None, name: Some("a stranger".to_owned()), description: None });
    e.scene.setting = SceneSetting { key: Some("kitchen".to_owned()), words: Some("warm".to_owned()) };
    e.ended_at = None;
    e.raw_ref = None;
    let read = read_back(&MemoryObject::Episode(e.clone()), ObjectType::Episode, e.id);
    match read {
        MemoryObject::Episode(o) => {
            assert_eq!(o.scene.participants.len(), 2);
            assert_eq!(o.scene.setting, SceneSetting { key: None, words: None });
            assert_eq!(o.ended_at, None);
            assert_eq!(o.raw_ref, None);
            assert_eq!(o.summary, e.summary);
        }
        other => panic!("expected an episode, got {other:?}"),
    }
}

#[test]
fn rdf_observation_record_reads_back() {
    let o = Observation {
        id: id(3),
        object_type: ObjectType::Observation,
        episode_id: id(2),
        speaker_entity_id: Some(id(1)),
        observed_at: Some(T0 + 1_000_000),
        modality: Modality::VoiceTranscript,
        text: "line one\nline two".to_owned(),
        raw_ref: None,
        salience_score: 0.75f32.to_bits(),
        retention_state: RetentionState::Archived,
        created_at: T0,
        schema_version: CURRENT_SCHEMA_VERSION.to_owned(),
    };
    let triples = rdf_triples_for_object(&MemoryObject::Observation(o.clone()), "0.75").unwrap();
    assert_eq!(
        resources_of(&triples, "urn:cmem:property:episode"),
        vec!["urn:cmem:episode:550e8400-e29b-41d4-a716-446655440002"]
    );
    let read = read_back(&MemoryObject::Observation(o.clone()), ObjectType::Observation, o.id);
    assert_eq!(read, MemoryObject::Observation(o));
}

#[test]
fn rdf_memory_thread_record_reads_back() {
    let t = MemoryThread {
        id: id(4),
        object_type: ObjectType::MemoryThread,
        title: "Garden".to_owned(),
        summary: "Plans for the garden".to_owned(),
        status: ThreadStatus::Active,
        last_touched_at: T0 + 2_000_000,
        salience_score: 0.75f32.to_bits(),
        canonical_key: Some("garden".to_owned()),
        created_at: T0,
        updated_at: T0 + 2_000_000,
        schema_version: CURRENT_SCHEMA_VERSION.to_owned(),
    };
    let read = read_back(&MemoryObject::MemoryThread(t.clone()), ObjectType::MemoryThread, t.id);
    assert_eq!(read, MemoryObject::MemoryThread(t));
}

#[test]
fn rdf_derived_memory_record_reads_back_with_sorted_sources() {
    let d = DerivedMemory {
        id: id(5),
        object_type: ObjectType::DerivedMemory,
        derived_type: DerivedType::Reflection,
        text: "The user loves tomatoes.".to_owned(),
        derived_from_episode_ids: vec![id(8), id(2)],
        derived_from_observation_ids: vec![id(3)],
        thread_ids: vec![id(4)],
        entity_ids: vec![id(1)],
        assertions: vec![],
        given_by_application: false,
        salience_score: 0.75f32.to_bits(),
        is_current: true,
        supersedes: vec![id(6)],
        retention_state: RetentionState::Active,
        created_at: T0,
        updated_at: T0,
        schema_version: CURRENT_SCHEMA_VERSION.to_owned(),
    };
    let triples = rdf_triples_for_object(&MemoryObject::DerivedMemory(d.clone()), "0.75").unwrap();
    assert_eq!(literal_of(&triples, "urn:cmem:property:is_current"), vec!["true"]);
    assert_eq!(
        resources_of(&triples, "urn:cmem:relation:part_of_thread"),
        vec!["urn:cmem:thread:550e8400-e29b-41d4-a716-446655440004"]
    );
    let read = read_back(&MemoryObject::DerivedMemory(d.clone()), ObjectType::DerivedMemory, d.id);
    let mut expected = d;
    expected.derived_from_episode_ids = vec![id(2), id(8)];
    assert_eq!(read, MemoryObject::DerivedMemory(expected));
}

#[test]
fn rdf_memory_link_record_reads_back_and_relates_its_endpoints() {
    let l = MemoryLink {
        id: id(7),
        object_type: ObjectType::MemoryLink,
        from_id: id(5),
        from_type: ObjectType::DerivedMemory,
        to_id: id(3),
        to_type: ObjectType::Observation,
        relation: RelationType::Supports,
        rationale: Some("said so".to_owned()),
        created_at: T0,
        schema_version: CURRENT_SCHEMA_VERSION.to_owned(),
    };
    let triples = rdf_triples_for_object(&MemoryObject::MemoryLink(l.clone()), "unused").unwrap();
    let relation: Vec<&RdfTriple> = triples.iter().filter(|t| t.predicate == "urn:cmem:relation:supports").collect();
    assert_eq!(relation.len(), 1);
    assert_eq!(relation[0].subject, "urn:cmem:derived-memory:550e8400-e29b-41d4-a716-446655440005");
    assert_eq!(
        relation[0].object,
        RdfObject::Resource("urn:cmem:observation:550e8400-e29b-41d4-a716-446655440003".to_owned())
    );
    let read = read_back(&MemoryObject::MemoryLink(l.clone()), ObjectType::MemoryLink, l.id);
    assert_eq!(read, MemoryObject::MemoryLink(l));
}

#[test]
fn rdf_mapping_refuses_unsupported_schema_versions() {
    let mut e = episode();
    e.schema_version = "legacy".to_owned();
    match rdf_triples_for_object(&MemoryObject::Episode(e), "0.75") {
        Err(CustomError::UnsupportedSchemaVersion { context, expected, actual }) => {
            assert_eq!(context, "RDF episode mapping");
            assert_eq!(expected, CURRENT_SCHEMA_VERSION);
            assert_eq!(actual, "legacy");
        }
        other => panic!("expected a schema refusal, got {other:?}"),
    }
}

#[test]
fn rdf_reading_refuses_a_record_without_its_instant() {
    let e = entity();
    let mut triples = rdf_triples_for_object(&MemoryObject::Entity(e.clone()), "unused").unwrap();
    triples.retain(|t| t.predicate != "urn:cmem:property:created_at");
    let subject = graph_uri(ObjectType::Entity, e.id);
    let values = subject_values(&triples, &subject);
    match memory_object_from_rdf(&subject, &values, ObjectType::Entity, &vec![]) {
        Err(CustomError::DatabaseError(m)) => {
            assert!(m.contains("urn:cmem:property:created_at"), "{m}");
            assert!(m.contains(&subject), "{m}");
        }
        other => panic!("expected a missing value, got {other:?}"),
    }
}

#[test]
fn rdf_reading_refuses_a_bad_identity_and_an_unknown_token() {
    let t = MemoryThread {
        id: id(4),
        object_type: ObjectType::MemoryThread,
        title: "Garden".to_owned(),
        summary: "Plans".to_owned(),
        status: ThreadStatus::Active,
        last_touched_at: T0,
        salience_score: 0.75f32.to_bits(),
        canonical_key: None,
        created_at: T0,
        updated_at: T0,
        schema_version: CURRENT_SCHEMA_VERSION.to_owned(),
    };
    let triples = rdf_triples_for_object(&MemoryObject::MemoryThread(t.clone()), "0.75").unwrap();
    let subject = graph_uri(ObjectType::MemoryThread, t.id);

    let mut bad_id = triples.clone();
    for triple in bad_id.iter_mut() {
        if triple.predicate == "urn:cmem:property:object_id" {
            triple.object = RdfObject::Literal("not-a-uuid".to_owned());
        }
    }
    let values = subject_values(&bad_id, &subject);
    match memory_object_from_rdf(&subject, &values, ObjectType::MemoryThread, &salience_bits()) {
        Err(CustomError::DatabaseError(m)) => {
            assert!(m.starts_with(&format!("Oxigraph RDF object {subject} has invalid predicate urn:cmem:property:object_id: ")), "{m}");
        }
        other => panic!("expected an invalid identity, got {other:?}"),
    }

    let mut bad_status = triples;
    for triple in bad_status.iter_mut() {
        if triple.predicate == "urn:cmem:property:thread_status" {
            triple.object = RdfObject::Literal("sleeping".to_owned());
        }
    }
    let values = subject_values(&bad_status, &subject);
    match memory_object_from_rdf(&subject, &values, ObjectType::MemoryThread, &salience_bits()) {
        Err(CustomError::DatabaseError(m)) => {
            assert_eq!(
                m,
                format!("Oxigraph RDF object {subject} has invalid predicate urn:cmem:property:thread_status: unknown thread status token: sleeping")
            );
        }
        other => panic!("expected an unknown token, got {other:?}"),
    }
}

#[test]
fn rdf_subject_values_keep_only_the_subject_in_order() {
    let triples = vec![
        RdfTriple::literal("urn:a", "urn:p", "1"),
        RdfTriple::literal("urn:b", "urn:p", "x"),
        RdfTriple::resource("urn:a", "urn:q", "urn:o"),
        RdfTriple::literal("urn:a", "urn:p", "2"),
    ];
    let values = subject_values(&triples, "urn:a");
    assert_eq!(values.literals, vec![("urn:p".to_owned(), vec!["1".to_owned(), "2".to_owned()])]);
    assert_eq!(values.resources, vec![("urn:q".to_owned(), vec!["urn:o".to_owned()])]);
}

#[test]
fn sparql_string_literal_escapes_as_json() {
    assert_eq!(sparql_string_literal("a\"b\\c\nd\u{1}é"), "\"a\\\"b\\\\c\\nd\\u0001é\"");
    assert_eq!(sparql_string_literal("\u{8}\u{c}\r\t/"), "\"\\b\\f\\r\\t/\"");
}

#[test]
fn graph_service_endpoint_is_trimmed_and_must_be_http() {
    assert_eq!(graph_service_endpoint("  http://localhost:7878/// \n").unwrap(), "http://localhost:7878");
    assert_eq!(graph_service_endpoint("https://graph.example/").unwrap(), "https://graph.example");
    let refusal = CustomError::ConfigParseError("Oxigraph service endpoint must start with http:// or https://".to_owned());
    assert_eq!(graph_service_endpoint("ftp://graph.example"), Err(refusal.clone()));
    assert_eq!(graph_service_endpoint("   "), Err(refusal.clone()));
    assert_eq!(graph_service_endpoint("localhost:7878"), Err(refusal));
}

#[test]
fn embedding_input_must_not_be_blank() {
    assert_eq!(
        check_embedding_input(" \t\n"),
        Err(CustomError::EmbeddingGenerationError("Input text is empty.".to_owned()))
    );
    assert_eq!(check_embedding_input(""), Err(CustomError::EmbeddingGenerationError("Input text is empty.".to_owned())));
    assert_eq!(check_embedding_input(" hello "), Ok(()));
}

#[test]
fn rdf_record_reads_back_instants_before_the_epoch() {
    // 1900-01-01T00:00:00Z and 0000-01-01T00:00:00Z
    for (created_at, text) in [(-2_208_988_800_000_000i64, "1900-01-01T00:00:00Z"), (-62_167_219_200_000_000i64, "0000-01-01T00:00:00Z")] {
        let mut e = entity();
        e.created_at = created_at;
        let triples = rdf_triples_for_object(&MemoryObject::Entity(e.clone()), "unused").unwrap();
        assert_eq!(literal_of(&triples, "urn:cmem:property:created_at"), vec![text]);
        let read = read_back(&MemoryObject::Entity(e.clone()), ObjectType::Entity, e.id);
        assert_eq!(read, MemoryObject::Entity(e));
    }
}

#[test]
fn graph_replacements_write_each_owner_graph_in_order() {
    let e = entity();
    let ep = episode();
    let l = MemoryLink {
        id: id(7),
        object_type: ObjectType::MemoryLink,
        from_id: id(2),
        from_type: ObjectType::Episode,
        to_id: id(1),
        to_type: ObjectType::Entity,
        relation: RelationType::Involves,
        rationale: None,
        created_at: T0,
        schema_version: CURRENT_SCHEMA_VERSION.to_owned(),
    };
    let objects = vec![MemoryObject::Entity(e.clone()), MemoryObject::Episode(ep.clone())];
    let reps = graph_replacements(&objects, &vec![l.clone()], &vec!["0".to_owned(), "0.75".to_owned()]).unwrap();
    assert_eq!(reps.len(), 3);
    assert_eq!(reps[0].0, graph_uri(ObjectType::Entity, e.id));
    assert_eq!(reps[0].1, rdf_triples_for_object(&objects[0], "0").unwrap());
    assert_eq!(reps[1].0, graph_uri(ObjectType::Episode, ep.id));
    assert_eq!(reps[1].1, rdf_triples_for_object(&objects[1], "0.75").unwrap());
    assert_eq!(reps[2].0, graph_uri(ObjectType::MemoryLink, l.id));
}

#[test]
fn graph_replacements_refuse_the_first_invalid_item() {
    let mut bad = episode();
    bad.summary = "   ".to_owned();
    let mut old = entity();
    old.schema_version = "future_schema".to_owned();
    let objects = vec![MemoryObject::Entity(entity()), MemoryObject::Episode(bad), MemoryObject::Entity(old.clone())];
    assert_eq!(
        graph_replacements(&objects, &vec![], &vec!["0".to_owned(); 3]),
        Err(CustomError::DomainValidation(DomainValidationError::EmptyEpisodeSummary))
    );
    match graph_replacements(&vec![MemoryObject::Entity(old)], &vec![], &vec!["0".to_owned()]) {
        Err(CustomError::UnsupportedSchemaVersion { context, actual, .. }) => {
            assert_eq!(context, "RDF entity mapping");
            assert_eq!(actual, "future_schema");
        }
        other => panic!("expected a schema refusal, got {other:?}"),
    }
}
