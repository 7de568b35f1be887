use cmem::domain::{
    graph_uri, DerivedType, MemoryId, MemoryObjectRef, Modality, ObjectType, RelationType,
    RetentionState, ThreadStatus, VectorSurface, CURRENT_SCHEMA_VERSION,
};
use cmem::errors::CustomError;
use cmem::graph::{
    derived_memories_by_provenance, derived_memories_by_thread, GraphDerivedMemoryProvenanceQuery,
    GraphDerivedMemoryThreadQuery,
    bounded_expansion, bounded_expansion_node_set, bounded_expansion_plan, root_not_found_message, GraphExpansion, GraphExpansionBoundedFailure,
    GraphExpansionBoundedFailureReason, GraphExpansionFailurePolicy, GraphExpansionFilteredReason,
    GraphExpansionLifecyclePolicy, GraphExpansionQuery, GraphObjectQuery, GraphObjectRef,
};
use cmem::store_expansion::expand_bounded_in_graph;
use cmem::rdf_write::{rdf_triples_for_link, rdf_triples_for_object};
use cmem::sparql::{RdfObject, RdfTriple};
use cmem::objects::{
    DerivedMemory, DomainValidationError, Entity, Episode, MemoryLink, MemoryObject,
    MemoryThread, Observation, Scene, SceneParticipant,
};

#[derive(Debug, Clone, Copy, PartialEq, Eq)]
enum EntityType {
    User,
    Assistant,
    Project,
    Concept,
}

#[derive(Debug, Clone)]
struct FixtureEntity {
    entity: Entity,
    entity_type: EntityType,
    id: MemoryId,
}

struct RepresentativeFixtures {
    episode: Episode,
    salient_observation: Observation,
    user_entity: FixtureEntity,
    assistant_entity: FixtureEntity,
    project_entity: FixtureEntity,
    hub_entity: FixtureEntity,
    soft_thread: MemoryThread,
    derived_reflection: DerivedMemory,
    user_preference: DerivedMemory,
    open_loop: DerivedMemory,
    commitment: DerivedMemory,
    correction: DerivedMemory,
    suppressed_seed: DerivedMemory,
    soft_thread_link: MemoryLink,
    hub_links: Vec<MemoryLink>,
}

fn fixture_id(n: u128) -> MemoryId {
    uuid::Uuid::parse_str("550e8400-e29b-41d4-a716-446655440000").unwrap().as_u128() + n
}

fn timestamp() -> i64 {
    at("2026-04-27T10:11:00Z")
}

fn at(value: &str) -> i64 {
    chrono::DateTime::parse_from_rfc3339(value).unwrap().timestamp_micros()
}

fn score(value: f32) -> u32 {
    value.to_bits()
}

fn entity(id: MemoryId, entity_type: EntityType) -> FixtureEntity {
    FixtureEntity {
        entity: Entity {
            id,
            object_type: ObjectType::Entity,
            created_at: timestamp(),
            schema_version: CURRENT_SCHEMA_VERSION.to_owned(),
        },
        entity_type,
        id,
    }
}

fn simple_episode() -> Episode {
    let mut scene = Scene::at(at("2026-04-27T10:00:00Z"), 0);
    scene.participants.push(SceneParticipant { key: Some(fixture_id(1)), name: None, description: None });
    scene.participants.push(SceneParticipant { key: Some(fixture_id(2)), name: None, description: None });
    Episode {
        id: fixture_id(10),
        object_type: ObjectType::Episode,
        modality: Modality::Chat,
        scene,
        ended_at: None,
        summary: "The user asked for service-free store contract tests.".to_owned(),
        raw_ref: Some("file:fixtures/raw/simple-episode.txt".to_owned()),
        salience_score: score(0.7),
        retention_state: RetentionState::Active,
        created_at: timestamp(),
        schema_version: CURRENT_SCHEMA_VERSION.to_owned(),
    }
}

fn salient_observation(episode_id: MemoryId, speaker: MemoryId) -> Observation {
    Observation {
        id: fixture_id(20),
        object_type: ObjectType::Observation,
        episode_id,
        speaker_entity_id: Some(speaker),
        observed_at: Some(timestamp()),
        modality: Modality::Chat,
        text: "Please keep the contract tests service-free.".to_owned(),
        raw_ref: Some("file:fixtures/raw/simple-episode.txt#turn=1".to_owned()),
        salience_score: score(0.9),
        retention_state: RetentionState::Active,
        created_at: timestamp(),
        schema_version: CURRENT_SCHEMA_VERSION.to_owned(),
    }
}

fn soft_thread() -> MemoryThread {
    MemoryThread {
        id: fixture_id(25),
        object_type: ObjectType::MemoryThread,
        title: "Store contracts".to_owned(),
        summary: "Work on service-free store contracts.".to_owned(),
        status: ThreadStatus::Active,
        last_touched_at: timestamp(),
        salience_score: score(0.6),
        canonical_key: None,
        created_at: timestamp(),
        updated_at: timestamp(),
        schema_version: CURRENT_SCHEMA_VERSION.to_owned(),
    }
}

#[allow(clippy::too_many_arguments)]
fn derived_memory(
    id: MemoryId,
    derived_type: DerivedType,
    text: &str,
    episode_id: MemoryId,
    observation_id: MemoryId,
    thread_ids: Vec<MemoryId>,
    entity_ids: Vec<MemoryId>,
    is_current: bool,
    supersedes: Vec<MemoryId>,
    retention_state: RetentionState,
) -> DerivedMemory {
    DerivedMemory {
        id,
        object_type: ObjectType::DerivedMemory,
        derived_type,
        text: text.to_owned(),
        derived_from_episode_ids: vec![episode_id],
        derived_from_observation_ids: vec![observation_id],
        thread_ids,
        entity_ids,
        assertions: Vec::new(),
        given_by_application: false,
        salience_score: score(0.7),
        is_current,
        supersedes,
        retention_state,
        created_at: timestamp(),
        updated_at: timestamp(),
        schema_version: CURRENT_SCHEMA_VERSION.to_owned(),
    }
}

fn link(
    id: MemoryId,
    from_id: MemoryId,
    from_type: ObjectType,
    to_id: MemoryId,
    to_type: ObjectType,
    relation: RelationType,
) -> MemoryLink {
    MemoryLink {
        id,
        object_type: ObjectType::MemoryLink,
        from_id,
        from_type,
        to_id,
        to_type,
        relation,
        rationale: None,
        created_at: timestamp(),
        schema_version: CURRENT_SCHEMA_VERSION.to_owned(),
    }
}

fn representative_fixtures() -> RepresentativeFixtures {
    let episode = simple_episode();
    let salient_observation = salient_observation(episode.id, fixture_id(1));
    let user_entity = entity(fixture_id(1), EntityType::User);
    let assistant_entity = entity(fixture_id(2), EntityType::Assistant);
    let project_entity = entity(fixture_id(3), EntityType::Project);
    let hub_entity = entity(fixture_id(4), EntityType::Concept);
    let soft_thread = soft_thread();
    let derived_reflection = derived_memory(
        fixture_id(30),
        DerivedType::Reflection,
        "The user wants service-free contract tests before pipeline wiring.",
        episode.id,
        salient_observation.id,
        vec![soft_thread.id],
        vec![user_entity.id, project_entity.id],
        true,
        Vec::new(),
        RetentionState::Active,
    );
    let user_preference = derived_memory(
        fixture_id(31),
        DerivedType::UserPreference,
        "Prefer deterministic local fakes for contract-level tests.",
        episode.id,
        salient_observation.id,
        vec![soft_thread.id],
        vec![user_entity.id],
        true,
        Vec::new(),
        RetentionState::Active,
    );
    let open_loop = derived_memory(
        fixture_id(32),
        DerivedType::OpenLoop,
        "Add pipeline tests once store contracts have reusable fakes.",
        episode.id,
        salient_observation.id,
        vec![soft_thread.id],
        vec![project_entity.id],
        true,
        Vec::new(),
        RetentionState::Active,
    );
    let commitment = derived_memory(
        fixture_id(33),
        DerivedType::Commitment,
        "Complete the contract work with service-free validation.",
        episode.id,
        salient_observation.id,
        vec![soft_thread.id],
        vec![assistant_entity.id, project_entity.id],
        true,
        Vec::new(),
        RetentionState::Active,
    );
    let correction = derived_memory(
        fixture_id(34),
        DerivedType::Correction,
        "Correction seed supersedes an outdated preference seed.",
        episode.id,
        salient_observation.id,
        vec![soft_thread.id],
        vec![user_entity.id],
        true,
        vec![fixture_id(35)],
        RetentionState::Active,
    );
    let suppressed_seed = derived_memory(
        fixture_id(35),
        DerivedType::UserPreference,
        "Suppressed seed retained to prove lifecycle preservation.",
        episode.id,
        salient_observation.id,
        vec![soft_thread.id],
        vec![user_entity.id],
        false,
        Vec::new(),
        RetentionState::Suppressed,
    );
    let soft_thread_link = link(
        fixture_id(50),
        salient_observation.id,
        ObjectType::Observation,
        soft_thread.id,
        ObjectType::MemoryThread,
        RelationType::PartOfThread,
    );
    let hub_links = vec![
        link(fixture_id(51), hub_entity.id, ObjectType::Entity, episode.id, ObjectType::Episode, RelationType::Involves),
        link(
            fixture_id(52),
            hub_entity.id,
            ObjectType::Entity,
            derived_reflection.id,
            ObjectType::DerivedMemory,
            RelationType::About,
        ),
        link(
            fixture_id(53),
            correction.id,
            ObjectType::DerivedMemory,
            suppressed_seed.id,
            ObjectType::DerivedMemory,
            RelationType::Supersedes,
        ),
        link(
            fixture_id(54),
            open_loop.id,
            ObjectType::DerivedMemory,
            commitment.id,
            ObjectType::DerivedMemory,
            RelationType::FulfillsCommitment,
        ),
    ];
    RepresentativeFixtures {
        episode,
        salient_observation,
        user_entity,
        assistant_entity,
        project_entity,
        hub_entity,
        soft_thread,
        derived_reflection,
        user_preference,
        open_loop,
        commitment,
        correction,
        suppressed_seed,
        soft_thread_link,
        hub_links,
    }
}

impl RepresentativeFixtures {
    fn objects(&self) -> Vec<MemoryObject> {
        vec![
            MemoryObject::Episode(self.episode.clone()),
            MemoryObject::Observation(self.salient_observation.clone()),
            MemoryObject::Entity(self.user_entity.entity.clone()),
            MemoryObject::Entity(self.assistant_entity.entity.clone()),
            MemoryObject::Entity(self.project_entity.entity.clone()),
            MemoryObject::Entity(self.hub_entity.entity.clone()),
            MemoryObject::MemoryThread(self.soft_thread.clone()),
            MemoryObject::DerivedMemory(self.derived_reflection.clone()),
            MemoryObject::DerivedMemory(self.user_preference.clone()),
            MemoryObject::DerivedMemory(self.open_loop.clone()),
            MemoryObject::DerivedMemory(self.commitment.clone()),
            MemoryObject::DerivedMemory(self.correction.clone()),
            MemoryObject::DerivedMemory(self.suppressed_seed.clone()),
        ]
    }

    fn links(&self) -> Vec<MemoryLink> {
        let mut links = vec![self.soft_thread_link.clone()];
        links.extend(self.hub_links.clone());
        links
    }
}

struct HighFanoutGraphFixture {
    hub_entity: FixtureEntity,
    episode: Episode,
    observation: Observation,
    derived_memories: Vec<DerivedMemory>,
    links: Vec<MemoryLink>,
}

impl HighFanoutGraphFixture {
    fn objects(&self) -> Vec<MemoryObject> {
        let mut objects = vec![
            MemoryObject::Entity(self.hub_entity.entity.clone()),
            MemoryObject::Episode(self.episode.clone()),
            MemoryObject::Observation(self.observation.clone()),
        ];
        objects.extend(self.derived_memories.iter().cloned().map(MemoryObject::DerivedMemory));
        objects
    }
}

fn high_fanout_graph_fixture() -> HighFanoutGraphFixture {
    let episode = simple_episode();
    let observation = salient_observation(episode.id, fixture_id(1));
    let hub_entity = entity(fixture_id(90), EntityType::Concept);
    let derived_memories = (0_u128..12)
        .map(|offset| {
            derived_memory(
                fixture_id(100 + offset),
                DerivedType::ProjectNote,
                &format!("High fanout derived memory {offset}."),
                episode.id,
                observation.id,
                Vec::new(),
                vec![hub_entity.id],
                true,
                Vec::new(),
                RetentionState::Active,
            )
        })
        .collect::<Vec<_>>();
    let mut links = vec![
        link(fixture_id(190), hub_entity.id, ObjectType::Entity, episode.id, ObjectType::Episode, RelationType::Involves),
        link(
            fixture_id(191),
            hub_entity.id,
            ObjectType::Entity,
            observation.id,
            ObjectType::Observation,
            RelationType::Mentions,
        ),
    ];
    links.extend(derived_memories.iter().rev().enumerate().map(|(index, memory)| {
        link(
            fixture_id(200 + index as u128),
            hub_entity.id,
            ObjectType::Entity,
            memory.id,
            ObjectType::DerivedMemory,
            RelationType::About,
        )
    }));
    HighFanoutGraphFixture { hub_entity, episode, observation, derived_memories, links }
}

fn cosine_similarity(left: &[f32], right: &[f32]) -> f32 {
    if left.len() != right.len() {
        return 0.0;
    }
    let dot_product: f32 = left.iter().zip(right.iter()).map(|(left, right)| left * right).sum();
    let left_magnitude = left.iter().map(|value| value * value).sum::<f32>().sqrt();
    let right_magnitude = right.iter().map(|value| value * value).sum::<f32>().sqrt();
    if left_magnitude == 0.0 || right_magnitude == 0.0 {
        0.0
    } else {
        dot_product / (left_magnitude * right_magnitude)
    }
}

#[test]
fn representative_fixtures_cover_canonical_memory_scenarios() {
    let fixtures = representative_fixtures();

    assert_eq!(fixtures.episode.object_type, ObjectType::Episode);
    assert_eq!(fixtures.salient_observation.object_type, ObjectType::Observation);
    assert_eq!(fixtures.user_entity.entity_type, EntityType::User);
    assert_eq!(fixtures.soft_thread.object_type, ObjectType::MemoryThread);
    assert_eq!(fixtures.derived_reflection.derived_type, DerivedType::Reflection);
    assert_eq!(fixtures.user_preference.derived_type, DerivedType::UserPreference);
    assert_eq!(fixtures.open_loop.derived_type, DerivedType::OpenLoop);
    assert_eq!(fixtures.commitment.derived_type, DerivedType::Commitment);
    assert_eq!(fixtures.correction.derived_type, DerivedType::Correction);
    assert_eq!(fixtures.suppressed_seed.retention_state, RetentionState::Suppressed);
    assert_eq!(fixtures.soft_thread_link.relation, RelationType::PartOfThread);
    assert!(fixtures.hub_links.iter().any(|link| link.from_id == fixtures.hub_entity.id));
    assert_eq!(fixtures.assistant_entity.entity_type, EntityType::Assistant);
    assert_eq!(fixtures.project_entity.entity_type, EntityType::Project);
    assert_eq!(fixtures.hub_entity.entity.object_type, ObjectType::Entity);
}

#[test]
fn cosine_similarity_rejects_mismatched_dimensions() {
    assert_eq!(cosine_similarity(&[1.0, 0.0], &[1.0, 0.0, 0.0]), 0.0);
}

#[test]
fn persisted_object_and_surface_tokens_round_trip() {
    for object_type in [
        ObjectType::Episode,
        ObjectType::Observation,
        ObjectType::Entity,
        ObjectType::MemoryThread,
        ObjectType::DerivedMemory,
        ObjectType::MemoryLink,
    ] {
        assert_eq!(ObjectType::parse(&object_type.to_string()), Ok(object_type));
    }
    for surface in [
        VectorSurface::Summary,
        VectorSurface::Text,
        VectorSurface::DerivedText,
        VectorSurface::SceneSetting,
        VectorSurface::SceneParticipants,
        VectorSurface::Query,
    ] {
        assert_eq!(VectorSurface::parse(&surface.to_string()), Ok(surface));
    }
}

#[test]
fn domain_enums_serialize_as_snake_case() {
    let cases = [
        ObjectType::Episode.token(),
        ObjectType::MemoryThread.token(),
        ObjectType::DerivedMemory.token(),
        ObjectType::MemoryLink.token(),
        Modality::VoiceTranscript.token(),
        DerivedType::AssistantPreference.token(),
        DerivedType::RelationshipNote.token(),
        RelationType::HasObservation.token(),
        RelationType::CreatesOpenLoop.token(),
        RelationType::FulfillsCommitment.token(),
        RetentionState::Suppressed.token(),
        ThreadStatus::Dormant.token(),
    ];

    assert_eq!(
        cases,
        [
            "episode",
            "memory_thread",
            "derived_memory",
            "memory_link",
            "voice_transcript",
            "assistant_preference",
            "relationship_note",
            "has_observation",
            "creates_open_loop",
            "fulfills_commitment",
            "suppressed",
            "dormant",
        ]
    );
}

#[test]
fn canonical_identity_and_order_ranks_are_stable() {
    let fixtures = representative_fixtures();
    let episode = MemoryObject::Episode(fixtures.episode.clone());

    assert_eq!(episode.id(), fixtures.episode.id);
    assert_eq!(episode.object_type(), ObjectType::Episode);
    assert_eq!(episode.object_ref(), MemoryObjectRef::new(ObjectType::Episode, episode.id()));
    assert_eq!(episode.stable_order_key(), (episode.id(), ObjectType::Episode.stable_rank()));

    let object_ranks = [
        ObjectType::Episode,
        ObjectType::Observation,
        ObjectType::Entity,
        ObjectType::MemoryThread,
        ObjectType::DerivedMemory,
        ObjectType::MemoryLink,
    ]
    .map(ObjectType::stable_rank);
    let relation_ranks = [
        RelationType::HasObservation,
        RelationType::ObservedIn,
        RelationType::Mentions,
        RelationType::Involves,
        RelationType::About,
        RelationType::DerivedFrom,
        RelationType::PartOfThread,
        RelationType::Supports,
        RelationType::Contradicts,
        RelationType::Supersedes,
        RelationType::Resolves,
        RelationType::CreatesOpenLoop,
        RelationType::FulfillsCommitment,
        RelationType::AssociatedWith,
    ]
    .map(RelationType::stable_rank);
    for ranks in [object_ranks.as_slice(), relation_ranks.as_slice()] {
        assert!(ranks.windows(2).all(|pair| pair[0] < pair[1]));
    }
    let retention_ranks = [RetentionState::Active, RetentionState::Suppressed].map(RetentionState::restrictiveness_rank);
    assert!(retention_ranks.windows(2).all(|pair| pair[0] < pair[1]));
}

#[test]
fn graph_uri_maps_object_types_to_stable_urns() {
    let id = uuid::Uuid::parse_str("550e8400-e29b-41d4-a716-446655440000").unwrap();
    let memory_id: MemoryId = id.as_u128();

    let cases = [
        (ObjectType::Episode, "urn:cmem:episode"),
        (ObjectType::Observation, "urn:cmem:observation"),
        (ObjectType::Entity, "urn:cmem:entity"),
        (ObjectType::MemoryThread, "urn:cmem:thread"),
        (ObjectType::DerivedMemory, "urn:cmem:derived-memory"),
        (ObjectType::MemoryLink, "urn:cmem:link"),
    ];

    for (object_type, prefix) in cases {
        assert_eq!(graph_uri(object_type, memory_id), format!("{prefix}:{id}"));
    }
}

#[test]
fn validation_accepts_representative_valid_objects() {
    let fixtures = representative_fixtures();
    let episode = fixtures.episode;
    let observation = fixtures.salient_observation;
    let derived = fixtures.derived_reflection;
    let link = fixtures.soft_thread_link;

    assert_eq!(episode.validate(), Ok(()));
    assert_eq!(observation.validate(), Ok(()));
    assert_eq!(derived.validate(), Ok(()));
    assert_eq!(link.validate(), Ok(()));
    assert_eq!(MemoryObject::Episode(episode).validate(), Ok(()));
}

#[test]
fn episode_validation_rejects_empty_or_whitespace_summary() {
    for summary in ["", "   \n\t"] {
        let mut episode = representative_fixtures().episode;
        episode.summary = summary.to_owned();

        assert_eq!(episode.validate(), Err(DomainValidationError::EmptyEpisodeSummary));
    }
}

#[test]
fn observation_validation_rejects_nil_episode_reference() {
    let mut observation = representative_fixtures().salient_observation;
    observation.episode_id = uuid::Uuid::nil().as_u128();

    assert_eq!(observation.validate(), Err(DomainValidationError::MissingEpisodeReference));
}

#[test]
fn derived_memory_validation_requires_episode_or_observation_source() {
    let mut derived = representative_fixtures().derived_reflection;
    derived.derived_from_episode_ids.clear();
    derived.derived_from_observation_ids.clear();

    assert_eq!(derived.validate(), Err(DomainValidationError::MissingDerivedSource));
}

#[test]
fn score_validation_rejects_out_of_range_and_nan_values() {
    let mut episode = representative_fixtures().episode;
    episode.salience_score = (-0.01f32).to_bits();
    assert!(matches!(
        episode.validate(),
        Err(DomainValidationError::InvalidScore { field: "Episode.salience_score", .. })
    ));

    let mut observation = representative_fixtures().salient_observation;
    observation.salience_score = (1.01f32).to_bits();
    assert!(matches!(
        observation.validate(),
        Err(DomainValidationError::InvalidScore { field: "Observation.salience_score", .. })
    ));

    let mut derived = representative_fixtures().derived_reflection;
    derived.salience_score = f32::NAN.to_bits();
    assert!(matches!(
        derived.validate(),
        Err(DomainValidationError::InvalidScore { field: "DerivedMemory.salience_score", .. })
    ));
}

#[test]
fn object_type_validation_rejects_mismatched_containing_type() {
    let mut episode = representative_fixtures().episode;
    episode.object_type = ObjectType::Observation;

    assert_eq!(
        episode.validate(),
        Err(DomainValidationError::ObjectTypeMismatch {
            field: "Episode.object_type",
            expected: ObjectType::Episode,
            actual: ObjectType::Observation,
        })
    );
}

#[test]
fn score_boundaries_accept_zero_one_and_negative_zero() {
    let mut episode = representative_fixtures().episode;
    for value in [0.0f32, 1.0f32, -0.0f32, 0.5f32] {
        episode.salience_score = value.to_bits();
        assert_eq!(episode.validate(), Ok(()));
    }
}

#[test]
fn correction_superseding_itself_is_a_self_link() {
    let mut correction = representative_fixtures().correction;
    correction.supersedes = vec![correction.id];
    assert_eq!(
        correction.validate(),
        Err(DomainValidationError::SelfLink { object_type: ObjectType::DerivedMemory, id: correction.id })
    );
}

fn test_link(
    id: MemoryId,
    from_id: MemoryId,
    from_type: ObjectType,
    to_id: MemoryId,
    to_type: ObjectType,
    relation: RelationType,
) -> MemoryLink {
    MemoryLink {
        id,
        object_type: ObjectType::MemoryLink,
        from_id,
        from_type,
        to_id,
        to_type,
        relation,
        rationale: None,
        created_at: timestamp(),
        schema_version: "test_schema".to_owned(),
    }
}

#[test]
fn graph_queries_use_domain_ids_and_object_types() {
    let episode_id = fixture_id(999);
    let by_ids = GraphObjectQuery::by_ids(vec![episode_id]);
    let by_refs = GraphObjectQuery::by_refs(vec![GraphObjectRef::new(episode_id, ObjectType::Episode)]);
    let by_types = GraphObjectQuery::by_types(vec![ObjectType::Episode], Some(5));

    assert_eq!(by_ids.object_ids, vec![episode_id]);
    assert_eq!(by_ids.object_types, Vec::<ObjectType>::new());
    assert_eq!(by_refs.object_refs[0].object_id, episode_id);
    assert_eq!(by_refs.object_refs[0].object_type, ObjectType::Episode);
    assert_eq!(by_types.object_types, vec![ObjectType::Episode]);
    assert_eq!(by_types.limit, Some(5));
}

#[test]
fn bounded_expansion_query_carries_explicit_limits() {
    let root_id = fixture_id(998);
    let query = GraphExpansionQuery::new(root_id, ObjectType::Entity, 2, 25)
        .with_allowed_object_types(vec![ObjectType::Observation, ObjectType::DerivedMemory]);

    assert_eq!(query.root_id, root_id);
    assert_eq!(query.root_type, ObjectType::Entity);
    assert_eq!(query.max_depth, 2);
    assert_eq!(query.max_nodes, 25);
    assert_eq!(query.max_fanout_per_node, usize::MAX);
    assert_eq!(query.max_hub_edges, usize::MAX);
    assert_eq!(query.allowed_object_types, vec![ObjectType::Observation, ObjectType::DerivedMemory]);
    assert_eq!(query.lifecycle_policy, GraphExpansionLifecyclePolicy::default());
    assert_eq!(query.failure_policy, GraphExpansionFailurePolicy::default());
}

#[test]
fn graph_expansion_groups_objects_and_links_without_store_behavior() {
    let expansion = GraphExpansion::new(Vec::new(), Vec::new());

    assert!(expansion.objects.is_empty());
    assert!(expansion.links.is_empty());
}

#[test]
fn bounded_expansion_reports_node_limit_when_traversal_truncates_results() {
    let fixtures = representative_fixtures();
    let query = GraphExpansionQuery::new(fixtures.hub_entity.id, ObjectType::Entity, 2, 1)
        .with_failure_policy(GraphExpansionFailurePolicy { timeout_ms: Some(250), allow_partial_results: true });

    let expansion = bounded_expansion(&query, fixtures.objects(), fixtures.links()).unwrap();

    assert_eq!(expansion.objects.len(), 1);
    assert!(matches!(
        expansion.bounded_failure,
        Some(GraphExpansionBoundedFailure { reason: GraphExpansionBoundedFailureReason::NodeLimit, at: Some(_) })
    ));
}

#[test]
fn bounded_expansion_fails_closed_when_node_limit_truncates_results() {
    let fixtures = representative_fixtures();
    let query = GraphExpansionQuery::new(fixtures.hub_entity.id, ObjectType::Entity, 2, 1)
        .with_failure_policy(GraphExpansionFailurePolicy { timeout_ms: Some(250), allow_partial_results: false });

    let error = bounded_expansion(&query, fixtures.objects(), fixtures.links()).unwrap_err();

    assert!(matches!(error, CustomError::GraphExpansionBounded { reason, .. } if reason == "node_limit"));
}

#[test]
fn bounded_expansion_applies_hub_limits_after_traversable_filtering() {
    let fixture = high_fanout_graph_fixture();
    let query = GraphExpansionQuery::new(fixture.hub_entity.id, ObjectType::Entity, 1, 5)
        .with_allowed_object_types(vec![ObjectType::Episode])
        .with_max_hub_edges(1)
        .with_failure_policy(GraphExpansionFailurePolicy { timeout_ms: Some(250), allow_partial_results: false });

    let expansion = bounded_expansion(&query, fixture.objects(), fixture.links.clone()).unwrap();

    assert!(expansion.bounded_failure.is_none());
    assert!(expansion
        .objects
        .iter()
        .any(|object| matches!(object, MemoryObject::Episode(episode) if episode.id == fixture.episode.id)));
    assert_eq!(expansion.links.len(), 1);
}

#[test]
fn bounded_expansion_node_limit_counts_unique_queued_nodes() {
    let fixtures = representative_fixtures();
    let links = vec![
        test_link(fixture_id(601), fixtures.hub_entity.id, ObjectType::Entity, fixtures.episode.id, ObjectType::Episode, RelationType::Involves),
        test_link(
            fixture_id(602),
            fixtures.hub_entity.id,
            ObjectType::Entity,
            fixtures.salient_observation.id,
            ObjectType::Observation,
            RelationType::Mentions,
        ),
        test_link(
            fixture_id(603),
            fixtures.episode.id,
            ObjectType::Episode,
            fixtures.derived_reflection.id,
            ObjectType::DerivedMemory,
            RelationType::DerivedFrom,
        ),
        test_link(
            fixture_id(604),
            fixtures.salient_observation.id,
            ObjectType::Observation,
            fixtures.derived_reflection.id,
            ObjectType::DerivedMemory,
            RelationType::DerivedFrom,
        ),
    ];
    let query = GraphExpansionQuery::new(fixtures.hub_entity.id, ObjectType::Entity, 2, 4)
        .with_allowed_object_types(vec![ObjectType::Episode, ObjectType::Observation, ObjectType::DerivedMemory])
        .with_max_fanout_per_node(2);

    let expansion = bounded_expansion(&query, fixtures.objects(), links).unwrap();

    assert!(expansion.bounded_failure.is_none());
    assert!(expansion.objects.iter().any(|object| {
        matches!(object, MemoryObject::DerivedMemory(memory) if memory.id == fixtures.derived_reflection.id)
    }));
}

#[test]
fn bounded_expansion_hides_suppressed_and_superseded_memories_by_default() {
    let fixtures = representative_fixtures();
    let query = GraphExpansionQuery::new(fixtures.correction.id, ObjectType::DerivedMemory, 1, 10);

    let expansion = bounded_expansion(&query, fixtures.objects(), fixtures.links()).unwrap();

    assert_eq!(expansion.objects.len(), 1);
    assert_eq!(expansion.filtered_nodes.len(), 1);
    assert_eq!(expansion.filtered_nodes[0].object_ref, GraphObjectRef::new(fixtures.suppressed_seed.id, ObjectType::DerivedMemory));
    assert_eq!(expansion.filtered_nodes[0].reason, GraphExpansionFilteredReason::Suppressed);
}

#[test]
fn bounded_expansion_refuses_link_roots_and_missing_roots() {
    let fixtures = representative_fixtures();
    let link_root = GraphExpansionQuery::new(fixtures.soft_thread_link.id, ObjectType::MemoryLink, 1, 10);
    assert!(matches!(
        bounded_expansion(&link_root, fixtures.objects(), fixtures.links()),
        Err(CustomError::MemoryValidation(message)) if message == "bounded graph expansion does not support MemoryLink roots"
    ));
    let missing = GraphExpansionQuery::new(fixture_id(997), ObjectType::Entity, 1, 10);
    assert_eq!(
        bounded_expansion(&missing, fixtures.objects(), fixtures.links()),
        Err(CustomError::GraphExpansionRootNotFound { object_type: ObjectType::Entity, object_id: fixture_id(997) })
    );
}

#[test]
fn bounded_expansion_bound_error_names_location() {
    let fixtures = representative_fixtures();
    let query = GraphExpansionQuery::new(fixtures.hub_entity.id, ObjectType::Entity, 2, 1)
        .with_failure_policy(GraphExpansionFailurePolicy { timeout_ms: Some(250), allow_partial_results: false });
    let error = bounded_expansion(&query, fixtures.objects(), fixtures.links()).unwrap_err();
    let expected_location = format!(" at object_type=episode object_id={}", uuid::Uuid::from_u128(fixtures.episode.id));
    assert_eq!(
        error,
        CustomError::GraphExpansionBounded { reason: "node_limit".to_owned(), location: expected_location }
    );
}

#[test]
fn zero_node_budget_stops_at_the_root() {
    let fixtures = representative_fixtures();
    let query = GraphExpansionQuery::new(fixtures.hub_entity.id, ObjectType::Entity, 2, 0);
    let expansion = bounded_expansion(&query, fixtures.objects(), fixtures.links()).unwrap();
    assert!(expansion.objects.is_empty());
    assert_eq!(
        expansion.bounded_failure,
        Some(GraphExpansionBoundedFailure {
            reason: GraphExpansionBoundedFailureReason::NodeLimit,
            at: Some(GraphObjectRef::new(fixtures.hub_entity.id, ObjectType::Entity)),
        })
    );
}

#[test]
fn node_set_expansion_follows_links_breadth_first() {
    let fixtures = representative_fixtures();
    let query = GraphExpansionQuery::new(fixtures.hub_entity.id, ObjectType::Entity, 1, 10);
    let nodes = bounded_expansion_node_set(&query, true, &fixtures.links()).unwrap();
    assert_eq!(
        nodes,
        vec![
            (fixtures.hub_entity.id, ObjectType::Entity),
            (fixtures.episode.id, ObjectType::Episode),
            (fixtures.derived_reflection.id, ObjectType::DerivedMemory),
        ]
    );
    let refused = GraphExpansionQuery::new(fixtures.hub_entity.id, ObjectType::Entity, 1, 10).with_max_hub_edges(3);
    assert!(matches!(
        bounded_expansion_node_set(&refused, true, &fixtures.links()),
        Err(CustomError::MemoryValidation(message)) if message == "bounded_expansion_node_set only supports basic depth/node/object-type bounds"
    ));
}

#[test]
fn node_set_validates_missing_root_before_zero_node_limit() {
    let query = GraphExpansionQuery::new(fixture_id(996), ObjectType::Entity, 1, 0);

    let error = bounded_expansion_node_set(&query, false, &Vec::new()).unwrap_err();

    assert!(matches!(error, CustomError::GraphExpansionRootNotFound { .. }));
    assert_eq!(
        error,
        CustomError::GraphExpansionRootNotFound { object_type: ObjectType::Entity, object_id: fixture_id(996) }
    );
    let text = root_not_found_message(ObjectType::Entity, fixture_id(996));
    assert!(text.contains("root not found"));
    assert_eq!(
        text,
        format!("Graph expansion root not found: Entity {}", uuid::Uuid::from_u128(fixture_id(996)))
    );
}

#[test]
fn graph_expansion_applies_bounds_after_graph_visibility_filtering() {
    let fixtures = representative_fixtures();
    let graph_visible_link = fixtures.hub_links[1].clone();
    let query = GraphExpansionQuery::new(fixtures.hub_entity.id, ObjectType::Entity, 1, 3).with_max_fanout_per_node(1);

    let expansion = expand_bounded_in_graph(&query, fixtures.objects(), vec![graph_visible_link.clone()]).unwrap();

    assert_eq!(expansion.links, vec![graph_visible_link]);
    assert!(expansion.objects.contains(&MemoryObject::Entity(fixtures.hub_entity.entity.clone())));
    assert!(expansion.objects.contains(&MemoryObject::DerivedMemory(fixtures.derived_reflection.clone())));
}

#[test]
fn graph_expansion_fails_closed_when_visibility_hits_hub_limit() {
    let fixture = high_fanout_graph_fixture();
    let query = GraphExpansionQuery::new(fixture.hub_entity.id, ObjectType::Entity, 1, 20)
        .with_max_hub_edges(1)
        .with_failure_policy(GraphExpansionFailurePolicy { timeout_ms: Some(250), allow_partial_results: false });

    let error = expand_bounded_in_graph(&query, fixture.objects(), fixture.links.clone()).unwrap_err();

    assert!(matches!(error, CustomError::GraphExpansionBounded { reason, .. } if reason == "hub_limit"));
}

#[test]
fn graph_expansion_keeps_the_visibility_bound_when_partial_results_are_allowed() {
    let fixture = high_fanout_graph_fixture();
    let query = GraphExpansionQuery::new(fixture.hub_entity.id, ObjectType::Entity, 1, 20).with_max_hub_edges(3);

    let expansion = expand_bounded_in_graph(&query, fixture.objects(), fixture.links.clone()).unwrap();

    assert_eq!(
        expansion.bounded_failure,
        Some(GraphExpansionBoundedFailure {
            reason: GraphExpansionBoundedFailureReason::HubLimit,
            at: Some(GraphObjectRef::new(fixture.hub_entity.id, ObjectType::Entity)),
        })
    );
    assert_eq!(expansion.links.len(), 3);
}

#[test]
fn graph_expansion_uses_targeted_supersession_evidence_outside_frontier() {
    let fixtures = representative_fixtures();
    let superseded_memory = fixtures.user_preference.clone();
    let replacement = fixtures.correction.clone();
    let hub_link = link(
        fixture_id(0x2002),
        fixtures.hub_entity.id,
        ObjectType::Entity,
        superseded_memory.id,
        ObjectType::DerivedMemory,
        RelationType::About,
    );
    let supersedes_link = link(
        fixture_id(0x2003),
        replacement.id,
        ObjectType::DerivedMemory,
        superseded_memory.id,
        ObjectType::DerivedMemory,
        RelationType::Supersedes,
    );
    let objects = vec![
        MemoryObject::Entity(fixtures.hub_entity.entity.clone()),
        MemoryObject::DerivedMemory(superseded_memory.clone()),
        MemoryObject::DerivedMemory(replacement.clone()),
    ];
    let links = vec![hub_link.clone(), supersedes_link];
    let superseded_ref = GraphObjectRef::new(superseded_memory.id, ObjectType::DerivedMemory);

    let depth_zero_root = expand_bounded_in_graph(
        &GraphExpansionQuery::new(superseded_memory.id, ObjectType::DerivedMemory, 0, 3),
        objects.clone(),
        links.clone(),
    )
    .unwrap();
    assert!(depth_zero_root.objects.is_empty());
    assert!(depth_zero_root.filtered_nodes.iter().any(|filtered| {
        filtered.object_ref == superseded_ref && filtered.reason == GraphExpansionFilteredReason::Superseded
    }));

    let depth_one_neighbor = expand_bounded_in_graph(
        &GraphExpansionQuery::new(fixtures.hub_entity.id, ObjectType::Entity, 1, 3),
        objects.clone(),
        links.clone(),
    )
    .unwrap();
    assert_eq!(depth_one_neighbor.objects, vec![MemoryObject::Entity(fixtures.hub_entity.entity.clone())]);
    assert!(depth_one_neighbor.links.is_empty());
    assert!(depth_one_neighbor.filtered_nodes.iter().any(|filtered| {
        filtered.object_ref == superseded_ref && filtered.reason == GraphExpansionFilteredReason::Superseded
    }));

    let historical_neighbor = expand_bounded_in_graph(
        &GraphExpansionQuery::new(fixtures.hub_entity.id, ObjectType::Entity, 1, 3).with_lifecycle_policy(
            GraphExpansionLifecyclePolicy { include_superseded: true, ..GraphExpansionLifecyclePolicy::default() },
        ),
        objects,
        links,
    )
    .unwrap();
    assert!(historical_neighbor.objects.contains(&MemoryObject::DerivedMemory(superseded_memory)));
    assert_eq!(historical_neighbor.links, vec![hub_link]);
}

#[test]
fn graph_expansion_maps_unsupported_or_missing_roots_to_custom_error() {
    let fixture = high_fanout_graph_fixture();
    let mut stored = fixture.objects();
    stored.extend(fixture.links.iter().cloned().map(MemoryObject::MemoryLink));

    let unsupported = expand_bounded_in_graph(
        &GraphExpansionQuery::new(fixture.links[0].id, ObjectType::MemoryLink, 1, 2),
        stored.clone(),
        fixture.links.clone(),
    )
    .unwrap_err();
    assert!(matches!(&unsupported, CustomError::MemoryValidation(message) if message.contains("does not support MemoryLink roots")));

    let missing_root = expand_bounded_in_graph(
        &GraphExpansionQuery::new(fixture_id(0xdead), ObjectType::Entity, 1, 2),
        stored,
        fixture.links.clone(),
    )
    .unwrap_err();
    assert!(matches!(missing_root, CustomError::GraphExpansionRootNotFound { .. }));
}

fn derived_ids(memories: &[DerivedMemory]) -> Vec<MemoryId> {
    memories.iter().map(|memory| memory.id).collect()
}

#[test]
fn provenance_queries_find_current_memories_of_their_sources() {
    let fixtures = representative_fixtures();
    let by_episode = GraphDerivedMemoryProvenanceQuery::by_sources(vec![fixtures.episode.id], Vec::new());

    let found = derived_memories_by_provenance(&by_episode, fixtures.objects(), fixtures.links());
    assert_eq!(derived_ids(&found), vec![fixture_id(30), fixture_id(31), fixture_id(32), fixture_id(33), fixture_id(34)]);

    let limited = derived_memories_by_provenance(&by_episode.clone().with_limit(2), fixtures.objects(), fixtures.links());
    assert_eq!(derived_ids(&limited), vec![fixture_id(30), fixture_id(31)]);

    let historical = derived_memories_by_provenance(
        &by_episode.with_lifecycle_policy(GraphExpansionLifecyclePolicy {
            include_suppressed: true,
            include_non_current: true,
            include_superseded: true,
            ..GraphExpansionLifecyclePolicy::default()
        }),
        fixtures.objects(),
        fixtures.links(),
    );
    assert!(derived_ids(&historical).contains(&fixture_id(35)));

    let nothing = GraphDerivedMemoryProvenanceQuery::by_sources(Vec::new(), Vec::new());
    assert!(derived_memories_by_provenance(&nothing, fixtures.objects(), fixtures.links()).is_empty());
}

#[test]
fn provenance_links_count_as_sources() {
    let fixtures = representative_fixtures();
    let other_episode = fixture_id(700);
    let mut cited = fixtures.user_preference.clone();
    cited.derived_from_episode_ids = Vec::new();
    cited.derived_from_observation_ids = Vec::new();
    let objects = vec![MemoryObject::DerivedMemory(cited.clone())];
    let derived_from = link(
        fixture_id(701),
        cited.id,
        ObjectType::DerivedMemory,
        other_episode,
        ObjectType::Episode,
        RelationType::DerivedFrom,
    );
    let query = GraphDerivedMemoryProvenanceQuery::by_sources(vec![other_episode], Vec::new());

    assert_eq!(derived_ids(&derived_memories_by_provenance(&query, objects.clone(), vec![derived_from])), vec![cited.id]);
    assert!(derived_memories_by_provenance(&query, objects, Vec::new()).is_empty());
}

#[test]
fn thread_queries_find_current_memories_of_their_threads() {
    let fixtures = representative_fixtures();
    let query = GraphDerivedMemoryThreadQuery::by_threads(vec![fixtures.soft_thread.id]);

    let found = derived_memories_by_thread(&query, fixtures.objects(), fixtures.links());
    assert_eq!(derived_ids(&found), vec![fixture_id(30), fixture_id(31), fixture_id(32), fixture_id(33), fixture_id(34)]);
    assert_eq!(derived_ids(&derived_memories_by_thread(&query.clone().with_limit(1), fixtures.objects(), fixtures.links())), vec![fixture_id(30)]);
    assert!(derived_memories_by_thread(
        &GraphDerivedMemoryThreadQuery::by_threads(Vec::new()),
        fixtures.objects(),
        fixtures.links()
    )
    .is_empty());
}

#[test]
fn bounded_expansion_never_returns_a_filtered_node_and_strict_plans_record_no_bound() {
    let fixtures = representative_fixtures();
    let query = GraphExpansionQuery::new(fixtures.correction.id, ObjectType::DerivedMemory, 2, 10)
        .with_failure_policy(GraphExpansionFailurePolicy { timeout_ms: Some(250), allow_partial_results: false });
    let expansion = bounded_expansion(&query, fixtures.objects(), fixtures.links()).unwrap();
    assert!(!expansion.filtered_nodes.is_empty());
    for filtered in &expansion.filtered_nodes {
        assert!(expansion.objects.iter().all(|object| object.id() != filtered.object_ref.object_id));
    }
    assert!(expansion.bounded_failure.is_none());
}

const GRAPH_URI_PREDICATE: &str = "urn:cmem:property:graph_uri";
const SCHEMA_VERSION_PREDICATE: &str = "urn:cmem:property:schema_version";

fn assert_contains_literal(triples: &[RdfTriple], predicate: &str, value: &str) {
    assert!(triples
        .iter()
        .any(|triple| triple.predicate == predicate && triple.object == RdfObject::Literal(value.to_owned())));
}

fn assert_contains_resource(triples: &[RdfTriple], predicate: &str, value: &str) {
    assert!(triples
        .iter()
        .any(|triple| triple.predicate == predicate && triple.object == RdfObject::Resource(value.to_owned())));
}

fn assert_no_literal_value_contains(triples: &[RdfTriple], forbidden: &str) {
    assert!(triples.iter().all(|triple| match &triple.object {
        RdfObject::Literal(value) => !value.contains(forbidden),
        RdfObject::Resource(_) => true,
    }));
}

fn set_schema_version(object: &mut MemoryObject, version: &str) {
    match object {
        MemoryObject::Episode(x) => x.schema_version = version.to_owned(),
        MemoryObject::Observation(x) => x.schema_version = version.to_owned(),
        MemoryObject::Entity(x) => x.schema_version = version.to_owned(),
        MemoryObject::MemoryThread(x) => x.schema_version = version.to_owned(),
        MemoryObject::DerivedMemory(x) => x.schema_version = version.to_owned(),
        MemoryObject::MemoryLink(x) => x.schema_version = version.to_owned(),
    }
}

#[test]
fn rdf_mapping_uses_canonical_graph_uris_for_all_object_subjects() {
    let fixtures = representative_fixtures();

    for object in fixtures.objects() {
        let triples = rdf_triples_for_object(&object, "0.5").expect("current schema maps");
        let identity = object.object_ref();
        let uri = graph_uri(identity.object_type, identity.id);

        assert!(triples.iter().all(|triple| triple.subject == uri));
        assert!(triples
            .iter()
            .any(|triple| triple.predicate == GRAPH_URI_PREDICATE && triple.object == RdfObject::Literal(uri.clone())));
    }
}

#[test]
fn rdf_mapping_covers_lifecycle_currentness_provenance_and_supersession() {
    let fixtures = representative_fixtures();
    let triples = rdf_triples_for_object(&MemoryObject::DerivedMemory(fixtures.correction.clone()), "0.5")
        .expect("current schema maps");

    assert_contains_literal(&triples, SCHEMA_VERSION_PREDICATE, CURRENT_SCHEMA_VERSION);
    assert_contains_literal(&triples, "urn:cmem:property:is_current", "true");
    assert_contains_literal(&triples, "urn:cmem:property:retention_state", "active");
    assert_contains_resource(
        &triples,
        "urn:cmem:property:derived_from_episode",
        &graph_uri(ObjectType::Episode, fixtures.episode.id),
    );
    assert_contains_resource(
        &triples,
        "urn:cmem:property:derived_from_observation",
        &graph_uri(ObjectType::Observation, fixtures.salient_observation.id),
    );
    assert_contains_resource(
        &triples,
        "urn:cmem:relation:part_of_thread",
        &graph_uri(ObjectType::MemoryThread, fixtures.soft_thread.id),
    );
    assert_contains_resource(
        &triples,
        "urn:cmem:property:about_entity",
        &graph_uri(ObjectType::Entity, fixtures.user_entity.id),
    );
    assert_contains_resource(
        &triples,
        "urn:cmem:property:supersedes",
        &graph_uri(ObjectType::DerivedMemory, fixtures.suppressed_seed.id),
    );
}

#[test]
fn rdf_mapping_preserves_schema_version_literals_for_objects_and_links() {
    let fixtures = representative_fixtures();

    for object in fixtures.objects() {
        let triples = rdf_triples_for_object(&object, "0.5").expect("current schema maps");
        assert_contains_literal(&triples, SCHEMA_VERSION_PREDICATE, CURRENT_SCHEMA_VERSION);
    }

    for link in fixtures.links() {
        let triples = rdf_triples_for_link(&link).expect("current schema maps");
        assert_contains_literal(&triples, SCHEMA_VERSION_PREDICATE, CURRENT_SCHEMA_VERSION);
    }
}

#[test]
fn rdf_mapping_preserves_source_pointers_without_raw_transcript_literals() {
    let fixtures = representative_fixtures();
    let raw_transcript = "verbatim raw transcript text must remain external";
    let mut episode = fixtures.episode.clone();
    episode.raw_ref = Some("file:fixtures/raw/source-episode.txt".to_owned());
    episode.summary = "Summarized source episode.".to_owned();
    let mut observation = fixtures.salient_observation.clone();
    observation.raw_ref = Some("file:fixtures/raw/source-observation.txt".to_owned());
    observation.text = "A concise observation excerpt.".to_owned();

    let episode_triples =
        rdf_triples_for_object(&MemoryObject::Episode(episode), "0.5").expect("current schema maps");
    let observation_triples =
        rdf_triples_for_object(&MemoryObject::Observation(observation), "0.5").expect("current schema maps");

    assert_contains_literal(&episode_triples, "urn:cmem:property:raw_ref", "file:fixtures/raw/source-episode.txt");
    assert_contains_literal(
        &observation_triples,
        "urn:cmem:property:raw_ref",
        "file:fixtures/raw/source-observation.txt",
    );
    assert_no_literal_value_contains(&episode_triples, raw_transcript);
    assert_no_literal_value_contains(&observation_triples, raw_transcript);
    assert!(!episode_triples.iter().any(|triple| triple.predicate.contains("rawTranscript")));
    assert!(!observation_triples.iter().any(|triple| triple.predicate.contains("rawTranscript")));
}

#[test]
fn rdf_mapping_reifies_memory_links_and_adds_typed_relation_triples() {
    let fixtures = representative_fixtures();
    let link = fixtures.soft_thread_link;
    let triples = rdf_triples_for_link(&link).expect("current schema maps");
    let from = graph_uri(link.from_type, link.from_id);
    let to = graph_uri(link.to_type, link.to_id);

    assert_contains_resource(&triples, "urn:cmem:property:from", &from);
    assert_contains_resource(&triples, "urn:cmem:property:to", &to);
    assert_contains_literal(&triples, "urn:cmem:property:relation", "part_of_thread");
    assert!(triples.iter().any(|triple| {
        triple.subject == from
            && triple.predicate == "urn:cmem:relation:part_of_thread"
            && triple.object == RdfObject::Resource(to.clone())
    }));
}

#[test]
fn rdf_mapping_rejects_unsupported_schema_versions_for_all_object_variants() {
    let fixtures = representative_fixtures();
    let mut objects = fixtures.objects();
    objects.push(MemoryObject::MemoryLink(fixtures.soft_thread_link.clone()));

    for mut object in objects {
        set_schema_version(&mut object, "future_schema");

        let error = rdf_triples_for_object(&object, "0.5").expect_err("unsupported schema fails");

        assert!(
            matches!(
                error,
                CustomError::UnsupportedSchemaVersion { expected: CURRENT_SCHEMA_VERSION, ref actual, .. }
                    if actual == "future_schema"
            ),
            "expected unsupported schema error for {object:?}, got {error:?}"
        );
    }
}

#[test]
fn rdf_link_mapping_rejects_unsupported_schema_versions() {
    let fixtures = representative_fixtures();
    let mut link = fixtures.soft_thread_link;
    link.schema_version = "future_schema".to_owned();

    let error = rdf_triples_for_link(&link).expect_err("unsupported schema fails");

    assert!(matches!(error, CustomError::UnsupportedSchemaVersion { context: "RDF memory link mapping", .. }));
}

#[test]
fn bounded_expansion_plan_ignores_the_order_of_the_objects() {
    let fixtures = representative_fixtures();
    let objects = fixtures.objects();
    let mut reversed = objects.clone();
    reversed.reverse();
    let links = fixtures.links();
    for (root, root_type) in [
        (fixtures.hub_entity.id, ObjectType::Entity),
        (fixtures.correction.id, ObjectType::DerivedMemory),
        (fixtures.episode.id, ObjectType::Episode),
    ] {
        let query = GraphExpansionQuery::new(root, root_type, 2, 4);
        assert_eq!(
            bounded_expansion_plan(&query, &objects, &links),
            bounded_expansion_plan(&query, &reversed, &links)
        );
    }
}

#[test]
fn bounded_expansion_plan_ignores_the_order_of_the_links() {
    let fixtures = representative_fixtures();
    let objects = fixtures.objects();
    let links = fixtures.links();
    let mut reversed = links.clone();
    reversed.reverse();
    let mut rotated = links.clone();
    rotated.rotate_left(1);
    for (root, root_type) in [
        (fixtures.hub_entity.id, ObjectType::Entity),
        (fixtures.correction.id, ObjectType::DerivedMemory),
        (fixtures.episode.id, ObjectType::Episode),
    ] {
        let query = GraphExpansionQuery::new(root, root_type, 2, 4);
        let plan = bounded_expansion_plan(&query, &objects, &links);
        assert_eq!(plan, bounded_expansion_plan(&query, &objects, &reversed));
        assert_eq!(plan, bounded_expansion_plan(&query, &objects, &rotated));
    }
}

#[test]
fn validation_refusals_are_shown_with_their_messages() {
    let id = fixture_id(7);
    let id_text = uuid::Uuid::from_u128(id).to_string();
    assert_eq!(
        DomainValidationError::ObjectTypeMismatch {
            field: "Episode.object_type",
            expected: ObjectType::Episode,
            actual: ObjectType::Entity,
        }
        .message(""),
        "Episode.object_type object_type must be Episode, got Entity"
    );
    assert_eq!(DomainValidationError::EmptyEpisodeSummary.message(""), "episode summary must not be empty");
    assert_eq!(
        DomainValidationError::InvalidSceneTimeOffset { offset_seconds: -90 }.message(""),
        "scene time offset -90 seconds must be a whole-minute RFC 3339 offset"
    );
    assert_eq!(
        DomainValidationError::InvalidSceneTimeOffset { offset_seconds: 30 }.message(""),
        "scene time offset 30 seconds must be a whole-minute RFC 3339 offset"
    );
    assert_eq!(
        DomainValidationError::InvalidScore { field: "Episode.salience_score", value: 1.5f32.to_bits() }
            .message(&1.5f32.to_string()),
        "Episode.salience_score must be in 0.0..=1.0 and finite, got 1.5"
    );
    assert_eq!(
        DomainValidationError::UnsupportedMemoryLinkEndpoint { field: "MemoryLink.from" }.message(""),
        "memory links cannot point at MemoryLink endpoints via MemoryLink.from"
    );
    assert_eq!(
        DomainValidationError::SelfLink { object_type: ObjectType::Entity, id }.message(""),
        format!("memory links cannot point from an object to itself: Entity {id_text}")
    );
    assert_eq!(
        DomainValidationError::InvalidBelief(cmem::belief::BeliefValidationError::EmptyAssertionName { subject: id })
            .message(""),
        format!("asserted name for {id_text} must not be empty after normalization")
    );
    assert_eq!(
        cmem::belief::BeliefValidationError::AssertionSubjectNotInMemory { subject: id }.message(),
        format!("assertion subject {id_text} must be among the memory's notion subjects")
    );
    assert_eq!(
        cmem::belief::BeliefValidationError::GivenWithSources.message(),
        "a belief given by the application cannot also cite source experiences"
    );
}
