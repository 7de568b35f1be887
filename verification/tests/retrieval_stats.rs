use cmem::domain::{DerivedType, MemoryId, Modality, ObjectType, RelationType, RetentionState, CURRENT_SCHEMA_VERSION};
use cmem::objects::{DerivedMemory, Episode, MemoryLink, MemoryObject, Observation, Scene, SceneParticipant};
use cmem::stats::{
    bool_delta, bool_int, edge, edge_upsert_change, more_restrictive_retention, more_restrictive_retention_key,
    non_negative_count, object_state_change, record_stats_after_write, retention_from_key, retention_key_rank,
    retrieval_stats_edges, retrieval_stats_object_states, InMemoryRetrievalStatsStore, RetrievalStatsCounterKey,
    RetrievalStatsHealthState, RetrievalStatsObjectState,
};

fn id(value: &str) -> MemoryId {
    uuid::Uuid::parse_str(value).unwrap().as_u128()
}

fn timestamp() -> i64 {
    timestamp_at("2026-04-28T12:00:00Z")
}

fn timestamp_at(value: &str) -> i64 {
    chrono::DateTime::parse_from_rfc3339(value).unwrap().timestamp_micros()
}

fn derived(memory_id: MemoryId, entity_ids: Vec<MemoryId>, is_current: bool, retention_state: RetentionState) -> DerivedMemory {
    DerivedMemory {
        id: memory_id,
        object_type: ObjectType::DerivedMemory,
        derived_type: DerivedType::Reflection,
        text: "memory".to_owned(),
        derived_from_episode_ids: Vec::new(),
        derived_from_observation_ids: Vec::new(),
        thread_ids: Vec::new(),
        entity_ids,
        assertions: Vec::new(),
        given_by_application: false,
        salience_score: 0.7f32.to_bits(),
        is_current,
        supersedes: Vec::new(),
        retention_state,
        created_at: timestamp(),
        updated_at: timestamp(),
        schema_version: CURRENT_SCHEMA_VERSION.to_owned(),
    }
}

fn about_link(link_id: MemoryId, entity_id: MemoryId, memory_id: MemoryId) -> MemoryLink {
    MemoryLink {
        id: link_id,
        object_type: ObjectType::MemoryLink,
        from_id: entity_id,
        from_type: ObjectType::Entity,
        to_id: memory_id,
        to_type: ObjectType::DerivedMemory,
        relation: RelationType::About,
        rationale: None,
        created_at: timestamp(),
        schema_version: CURRENT_SCHEMA_VERSION.to_owned(),
    }
}

#[test]
fn in_memory_store_counts_edges_idempotently() {
    let mut store = InMemoryRetrievalStatsStore::new();
    let entity_id = id("550e8400-e29b-41d4-a716-446655460001");
    let episode_id = id("550e8400-e29b-41d4-a716-446655460002");
    let edge = edge(entity_id, RelationType::Involves, episode_id, ObjectType::Episode, RetentionState::Active, true, timestamp());

    store.record_edges(&vec![edge.clone()]);
    store.record_edges(&vec![edge.clone()]);

    let counter = store
        .counter(&RetrievalStatsCounterKey { entity_id, relation_kind: RelationType::Involves, object_type: ObjectType::Episode })
        .unwrap();
    assert_eq!(counter.total_count, 1);
    assert_eq!(counter.active_count, 1);
    assert_eq!(counter.current_count, 1);
    let global = store.global_counter(RelationType::Involves, ObjectType::Episode).unwrap();
    assert_eq!(global.total_count, 1);
}

#[test]
fn in_memory_store_counts_global_relation_object_pairs() {
    let mut store = InMemoryRetrievalStatsStore::new();
    let first_entity_id = id("550e8400-e29b-41d4-a716-446655460031");
    let second_entity_id = id("550e8400-e29b-41d4-a716-446655460032");
    let first_episode_id = id("550e8400-e29b-41d4-a716-446655460033");
    let second_episode_id = id("550e8400-e29b-41d4-a716-446655460034");

    store.record_edges(&vec![
        edge(first_entity_id, RelationType::Involves, first_episode_id, ObjectType::Episode, RetentionState::Active, true, timestamp()),
        edge(second_entity_id, RelationType::Involves, second_episode_id, ObjectType::Episode, RetentionState::Suppressed, false, timestamp()),
    ]);

    let counter = store.global_counter(RelationType::Involves, ObjectType::Episode).unwrap();
    assert_eq!(counter.total_count, 2);
    assert_eq!(counter.active_count, 1);
    assert_eq!(counter.current_count, 1);
}

#[test]
fn in_memory_store_merges_duplicate_edge_timestamps() {
    let mut store = InMemoryRetrievalStatsStore::new();
    let entity_id = id("550e8400-e29b-41d4-a716-446655460041");
    let episode_id = id("550e8400-e29b-41d4-a716-446655460042");
    let later_edge = edge(entity_id, RelationType::Involves, episode_id, ObjectType::Episode, RetentionState::Active, true, timestamp_at("2026-04-28T13:00:00Z"));
    let earlier_edge = edge(entity_id, RelationType::Involves, episode_id, ObjectType::Episode, RetentionState::Active, true, timestamp_at("2026-04-28T11:00:00Z"));

    store.record_edges(&vec![later_edge]);
    store.record_edges(&vec![earlier_edge]);

    let stored = store
        .edge_with_key(&format!("{}:involves:episode:{}", uuid::Uuid::from_u128(entity_id), uuid::Uuid::from_u128(episode_id)))
        .unwrap();
    assert_eq!(stored.first_seen_at, timestamp_at("2026-04-28T11:00:00Z"));
    assert_eq!(stored.last_seen_at, timestamp_at("2026-04-28T13:00:00Z"));
}

#[test]
fn in_memory_store_updates_lifecycle_counts() {
    let mut store = InMemoryRetrievalStatsStore::new();
    let entity_id = id("550e8400-e29b-41d4-a716-446655460011");
    let memory_id = id("550e8400-e29b-41d4-a716-446655460012");
    store.record_edges(&vec![edge(entity_id, RelationType::About, memory_id, ObjectType::DerivedMemory, RetentionState::Active, true, timestamp())]);
    store.record_object_states(&vec![RetrievalStatsObjectState {
        object_id: memory_id,
        object_type: ObjectType::DerivedMemory,
        retention_state: RetentionState::Suppressed,
        is_current: false,
        observed_at: timestamp(),
    }]);

    let counter = store
        .counter(&RetrievalStatsCounterKey { entity_id, relation_kind: RelationType::About, object_type: ObjectType::DerivedMemory })
        .unwrap();
    assert_eq!(counter.total_count, 1);
    assert_eq!(counter.active_count, 0);
    assert_eq!(counter.current_count, 0);
}

#[test]
fn in_memory_object_state_updates_do_not_regress_last_seen_at() {
    let mut store = InMemoryRetrievalStatsStore::new();
    let entity_id = id("550e8400-e29b-41d4-a716-446655460051");
    let memory_id = id("550e8400-e29b-41d4-a716-446655460052");
    store.record_edges(&vec![edge(
        entity_id,
        RelationType::About,
        memory_id,
        ObjectType::DerivedMemory,
        RetentionState::Active,
        true,
        timestamp_at("2026-04-28T13:00:00Z"),
    )]);

    store.record_object_states(&vec![RetrievalStatsObjectState {
        object_id: memory_id,
        object_type: ObjectType::DerivedMemory,
        retention_state: RetentionState::Suppressed,
        is_current: false,
        observed_at: timestamp_at("2026-04-28T11:00:00Z"),
    }]);

    let stored = store
        .edge_with_key(&format!("{}:about:derived_memory:{}", uuid::Uuid::from_u128(entity_id), uuid::Uuid::from_u128(memory_id)))
        .unwrap();
    assert_eq!(stored.last_seen_at, timestamp_at("2026-04-28T13:00:00Z"));
}

#[test]
fn derives_entity_edges_from_objects_and_links() {
    let entity_id = id("550e8400-e29b-41d4-a716-446655460021");
    let episode_id = id("550e8400-e29b-41d4-a716-446655460022");
    let memory_id = id("550e8400-e29b-41d4-a716-446655460023");
    let mut scene = Scene::at(timestamp(), 0);
    scene.participants.push(SceneParticipant { key: Some(entity_id), name: None, description: None });
    let mut memory = derived(memory_id, vec![entity_id], true, RetentionState::Active);
    memory.derived_from_episode_ids = vec![episode_id];
    let objects = vec![
        MemoryObject::Episode(Episode {
            id: episode_id,
            object_type: ObjectType::Episode,
            modality: Modality::Chat,
            scene,
            ended_at: None,
            summary: "episode".to_owned(),
            raw_ref: None,
            salience_score: 0.5f32.to_bits(),
            retention_state: RetentionState::Active,
            created_at: timestamp(),
            schema_version: CURRENT_SCHEMA_VERSION.to_owned(),
        }),
        MemoryObject::DerivedMemory(memory),
    ];

    let edges = retrieval_stats_edges(&objects, &Vec::new());

    assert_eq!(edges.len(), 2);
    assert!(edges.iter().any(|edge| {
        edge.entity_id == entity_id && edge.relation_kind == RelationType::Involves && edge.object_id == episode_id
    }));
    assert!(edges.iter().any(|edge| {
        edge.entity_id == entity_id && edge.relation_kind == RelationType::About && edge.object_id == memory_id
    }));
}

#[test]
fn link_edges_use_available_object_lifecycle() {
    let entity_id = id("550e8400-e29b-41d4-a716-446655460031");
    let memory_id = id("550e8400-e29b-41d4-a716-446655460032");
    let link_id = id("550e8400-e29b-41d4-a716-446655460033");
    let objects = vec![MemoryObject::DerivedMemory(derived(memory_id, Vec::new(), false, RetentionState::Suppressed))];
    let link = about_link(link_id, entity_id, memory_id);

    let edges = retrieval_stats_edges(&objects, &vec![link]);

    let edge = edges.iter().find(|edge| edge.entity_id == entity_id && edge.object_id == memory_id).unwrap();
    assert_eq!(edge.retention_state, RetentionState::Suppressed);
    assert!(!edge.is_current);
}

#[test]
fn speaker_entity_id_does_not_count_as_mentions() {
    let entity_id = id("550e8400-e29b-41d4-a716-446655460061");
    let observation_id = id("550e8400-e29b-41d4-a716-446655460062");
    let objects = vec![MemoryObject::Observation(Observation {
        id: observation_id,
        object_type: ObjectType::Observation,
        episode_id: id("550e8400-e29b-41d4-a716-446655460063"),
        speaker_entity_id: Some(entity_id),
        observed_at: None,
        modality: Modality::Chat,
        text: "speaker relationship is not a mentions edge".to_owned(),
        raw_ref: None,
        salience_score: 0.5f32.to_bits(),
        retention_state: RetentionState::Active,
        created_at: timestamp(),
        schema_version: CURRENT_SCHEMA_VERSION.to_owned(),
    })];

    let edges = retrieval_stats_edges(&objects, &Vec::new());

    assert!(edges.is_empty());
}

#[test]
fn duplicate_edge_derivations_merge_lifecycle_deterministically() {
    let entity_id = id("550e8400-e29b-41d4-a716-446655460041");
    let memory_id = id("550e8400-e29b-41d4-a716-446655460042");
    let link_id = id("550e8400-e29b-41d4-a716-446655460043");
    let memory = MemoryObject::DerivedMemory(derived(memory_id, vec![entity_id], false, RetentionState::Suppressed));
    let link = about_link(link_id, entity_id, memory_id);

    let edges = retrieval_stats_edges(&vec![memory], &vec![link]);

    assert_eq!(edges.len(), 1);
    assert_eq!(edges[0].retention_state, RetentionState::Suppressed);
    assert!(!edges[0].is_current);
}

#[test]
fn health_tracks_internal_failure_markers() {
    let mut store = InMemoryRetrievalStatsStore::new();
    store.mark_unhealthy("stats write failed".to_owned());
    store.record_edges(&vec![edge(
        id("550e8400-e29b-41d4-a716-446655460071"),
        RelationType::Involves,
        id("550e8400-e29b-41d4-a716-446655460072"),
        ObjectType::Episode,
        RetentionState::Active,
        true,
        timestamp(),
    )]);

    let health = store.health();
    assert_eq!(health.state, RetrievalStatsHealthState::Unhealthy);
    assert_eq!(health.last_error_message.as_deref(), Some("stats write failed"));
}

#[test]
fn fallback_health_marker_survives_successful_writes() {
    let mut store = InMemoryRetrievalStatsStore::unhealthy("sqlite retrieval stats unavailable; using in-memory fallback".to_owned());
    let entity_id = id("550e8400-e29b-41d4-a716-446655460051");
    let episode_id = id("550e8400-e29b-41d4-a716-446655460052");

    store.record_edges(&vec![edge(entity_id, RelationType::Involves, episode_id, ObjectType::Episode, RetentionState::Active, true, timestamp())]);

    let health = store.health();
    assert_eq!(health.state, RetrievalStatsHealthState::Unhealthy);
    assert!(health.last_error_message.as_deref().unwrap().contains("in-memory fallback"));
}

#[test]
fn edge_keys_name_entity_relation_type_and_object() {
    let entity_id = id("550e8400-e29b-41d4-a716-446655460081");
    let memory_id = id("550e8400-e29b-41d4-a716-446655460082");
    let e = edge(entity_id, RelationType::PartOfThread, memory_id, ObjectType::DerivedMemory, RetentionState::Archived, false, timestamp());
    assert_eq!(
        e.edge_key,
        "550e8400-e29b-41d4-a716-446655460081:part_of_thread:derived_memory:550e8400-e29b-41d4-a716-446655460082"
    );
    assert_eq!(e.first_seen_at, e.last_seen_at);
}

#[test]
fn derived_edges_come_sorted_by_key() {
    let first = id("550e8400-e29b-41d4-a716-446655460091");
    let second = id("550e8400-e29b-41d4-a716-446655460092");
    let memory_id = id("550e8400-e29b-41d4-a716-446655460093");
    let objects = vec![MemoryObject::DerivedMemory(derived(memory_id, vec![second, first], true, RetentionState::Active))];
    let edges = retrieval_stats_edges(&objects, &Vec::new());
    assert_eq!(edges.len(), 2);
    assert_eq!(edges[0].entity_id, first);
    assert_eq!(edges[1].entity_id, second);
    assert!(edges[0].edge_key < edges[1].edge_key);
}

#[test]
fn object_states_cover_episodes_observations_and_derived_memories() {
    let memory_id = id("550e8400-e29b-41d4-a716-446655460094");
    let mut memory = derived(memory_id, Vec::new(), false, RetentionState::Archived);
    memory.updated_at = timestamp_at("2026-04-29T00:00:00Z");
    let states = retrieval_stats_object_states(&vec![MemoryObject::DerivedMemory(memory)]);
    assert_eq!(
        states,
        vec![RetrievalStatsObjectState {
            object_id: memory_id,
            object_type: ObjectType::DerivedMemory,
            retention_state: RetentionState::Archived,
            is_current: false,
            observed_at: timestamp_at("2026-04-29T00:00:00Z"),
        }]
    );
}

#[test]
fn recording_a_write_counts_its_edges_with_object_lifecycle() {
    let mut store = InMemoryRetrievalStatsStore::new();
    let entity_id = id("550e8400-e29b-41d4-a716-446655460095");
    let memory_id = id("550e8400-e29b-41d4-a716-446655460096");
    let objects = vec![MemoryObject::DerivedMemory(derived(memory_id, vec![entity_id], true, RetentionState::Active))];
    record_stats_after_write(&mut store, &objects, &Vec::new());
    record_stats_after_write(&mut store, &objects, &Vec::new());
    let counter = store
        .counter(&RetrievalStatsCounterKey { entity_id, relation_kind: RelationType::About, object_type: ObjectType::DerivedMemory })
        .unwrap();
    assert_eq!((counter.total_count, counter.active_count, counter.current_count), (1, 1, 1));
    assert_eq!(store.global_counter(RelationType::About, ObjectType::Episode), None);
}

#[test]
fn retention_helpers_order_and_read_keys() {
    assert_eq!(more_restrictive_retention(RetentionState::Archived, RetentionState::Suppressed), RetentionState::Suppressed);
    assert_eq!(more_restrictive_retention(RetentionState::Deleted, RetentionState::Active), RetentionState::Deleted);
    assert_eq!(retention_from_key("archived"), RetentionState::Archived);
    assert_eq!(retention_from_key("unknown"), RetentionState::Active);
    assert_eq!(retention_key_rank("deleted"), 3);
    assert_eq!(more_restrictive_retention_key("suppressed", RetentionState::Archived), RetentionState::Suppressed);
    assert_eq!(more_restrictive_retention_key("archived", RetentionState::Deleted), RetentionState::Deleted);
    assert_eq!(bool_delta(false, true), 1);
    assert_eq!(bool_delta(true, false), -1);
    assert_eq!(bool_delta(true, true), 0);
    assert_eq!(bool_int(true), 1);
    assert_eq!(non_negative_count(-1), None);
    assert_eq!(non_negative_count(7), Some(7));
}

#[test]
fn persisted_edge_changes_move_counts() {
    let entity_id = id("550e8400-e29b-41d4-a716-446655460097");
    let memory_id = id("550e8400-e29b-41d4-a716-446655460098");
    let incoming = edge(entity_id, RelationType::About, memory_id, ObjectType::DerivedMemory, RetentionState::Suppressed, true, timestamp());
    let new_edge = edge_upsert_change(None, &incoming);
    assert_eq!((new_edge.total_delta, new_edge.active_delta, new_edge.current_delta), (1, 0, 0));
    let merged = edge_upsert_change(Some(("active", true)), &incoming);
    assert_eq!(merged.retention_state, RetentionState::Suppressed);
    assert!(merged.is_current);
    assert_eq!((merged.total_delta, merged.active_delta, merged.current_delta), (0, -1, -1));
    let state = RetrievalStatsObjectState {
        object_id: memory_id,
        object_type: ObjectType::DerivedMemory,
        retention_state: RetentionState::Active,
        is_current: true,
        observed_at: timestamp(),
    };
    let restored = object_state_change("archived", false, &state);
    assert_eq!((restored.total_delta, restored.active_delta, restored.current_delta), (0, 1, 1));
}

#[test]
fn incremental_count_changes_match_recounting() {
    let entity = id("550e8400-e29b-41d4-a716-446655440001");
    let memory = id("550e8400-e29b-41d4-a716-446655440002");
    let key = RetrievalStatsCounterKey {
        entity_id: entity,
        relation_kind: RelationType::About,
        object_type: ObjectType::DerivedMemory,
    };
    let mut store = InMemoryRetrievalStatsStore::new();

    let first = edge(entity, RelationType::About, memory, ObjectType::DerivedMemory, RetentionState::Active, true, timestamp());
    let change = edge_upsert_change(None, &first);
    store.record_edges(&vec![first]);
    let counter = store.counter(&key).unwrap();
    assert_eq!(
        (counter.total_count as i64, counter.active_count as i64, counter.current_count as i64),
        (change.total_delta, change.active_delta, change.current_delta)
    );

    let again = edge(entity, RelationType::About, memory, ObjectType::DerivedMemory, RetentionState::Suppressed, true, timestamp());
    let change = edge_upsert_change(Some(("active", true)), &again);
    store.record_edges(&vec![again]);
    let after = store.counter(&key).unwrap();
    assert_eq!(after.total_count as i64, counter.total_count as i64 + change.total_delta);
    assert_eq!(after.active_count as i64, counter.active_count as i64 + change.active_delta);
    assert_eq!(after.current_count as i64, counter.current_count as i64 + change.current_delta);
    assert_eq!((after.total_count, after.active_count, after.current_count), (1, 0, 0));
}
