use cmem::domain::{ObjectType, RetentionState};
use cmem::prefilter::{
    any_field_matches, currentness_filter_condition, payload_hint_matches_or_missing, qdrant_candidate_filter,
    qdrant_filter_conditions, MatchValue, MinShould, PayloadCondition, PayloadField, PayloadFilter,
};
use cmem::vector::{VectorCandidateFilters, VectorTimeField, VectorTimeRangeFilter};

fn collect_condition_field_keys(condition: &PayloadCondition, keys: &mut Vec<PayloadField>) {
    match condition {
        PayloadCondition::Matches { field, .. }
        | PayloadCondition::IsEmpty { field }
        | PayloadCondition::IsNull { field }
        | PayloadCondition::DatetimeRange { field, .. } => keys.push(*field),
        PayloadCondition::Filter(filter) => collect_filter_field_keys(filter, keys),
    }
}

fn collect_filter_field_keys(filter: &PayloadFilter, keys: &mut Vec<PayloadField>) {
    for condition in filter.must.iter().chain(filter.should.iter()).chain(filter.must_not.iter()) {
        collect_condition_field_keys(condition, keys);
    }
    if let Some(min_should) = &filter.min_should {
        for condition in &min_should.conditions {
            collect_condition_field_keys(condition, keys);
        }
    }
}

fn field_keys(filter: &PayloadFilter) -> Vec<PayloadField> {
    let mut keys = Vec::new();
    collect_filter_field_keys(filter, &mut keys);
    keys
}

fn collect_condition_kinds(condition: &PayloadCondition, kinds: &mut Vec<String>) {
    match condition {
        PayloadCondition::Matches { field, .. } => kinds.push(format!("field:{field:?}")),
        PayloadCondition::IsEmpty { field } => kinds.push(format!("is_empty:{field:?}")),
        PayloadCondition::IsNull { field } => kinds.push(format!("is_null:{field:?}")),
        PayloadCondition::DatetimeRange { field, .. } => kinds.push(format!("range:{field:?}")),
        PayloadCondition::Filter(filter) => {
            for condition in filter.must.iter().chain(filter.should.iter()).chain(filter.must_not.iter()) {
                collect_condition_kinds(condition, kinds);
            }
            if let Some(min_should) = &filter.min_should {
                for condition in &min_should.conditions {
                    collect_condition_kinds(condition, kinds);
                }
            }
        }
    }
}

fn keyword(field: PayloadField, value: &str) -> PayloadCondition {
    PayloadCondition::Matches { field, value: MatchValue::Keyword(value.to_owned()) }
}

fn quorum_of_one(conditions: Vec<PayloadCondition>) -> PayloadCondition {
    PayloadCondition::Filter(PayloadFilter {
        must: Vec::new(),
        should: Vec::new(),
        must_not: Vec::new(),
        min_should: Some(MinShould { conditions, min_count: 1 }),
    })
}

#[test]
fn candidate_prefilter_construction_maps_payload_hint_fields() {
    let thread_id = 0x550e8400_e29b_41d4_a716_446655440001u128;
    let entity_id = 0x550e8400_e29b_41d4_a716_446655440002u128;
    let episode_id = 0x550e8400_e29b_41d4_a716_446655440003u128;
    let filters = VectorCandidateFilters::new()
        .with_retention_states(vec![RetentionState::Active])
        .current_only()
        .with_thread_ids(vec![thread_id])
        .with_entity_ids(vec![entity_id])
        .with_episode_ids(vec![episode_id])
        .with_time_range(VectorTimeRangeFilter::new(
            VectorTimeField::Updated,
            Some(1_777_456_800_000_000),
            Some(1_777_460_400_000_000),
        ));

    let filter = qdrant_candidate_filter(&vec![ObjectType::DerivedMemory, ObjectType::Observation], &filters)
        .expect("filter builds");
    let keys = field_keys(&filter);

    for expected in [
        PayloadField::ObjectType,
        PayloadField::RetentionState,
        PayloadField::ThreadIds,
        PayloadField::EpisodeIds,
        PayloadField::EntityIds,
        PayloadField::ParticipantEntityIds,
        PayloadField::SpeakerEntityId,
        PayloadField::UpdatedAt,
    ] {
        assert!(keys.contains(&expected), "missing {expected:?}");
    }
    assert!(keys.contains(&PayloadField::IsCurrent));
    assert!(keys.contains(&PayloadField::IsSuperseded));
}

#[test]
fn candidate_prefilter_scopes_currentness_to_derived_memory_searches() {
    let filter = qdrant_candidate_filter(&vec![ObjectType::DerivedMemory], &VectorCandidateFilters::new().current_only())
        .expect("filter builds");
    let keys = field_keys(&filter);

    assert!(keys.contains(&PayloadField::IsCurrent));
    assert!(keys.contains(&PayloadField::IsSuperseded));
}

#[test]
fn candidate_prefilter_allows_missing_currentness_hints_for_graph_verification() {
    let condition =
        currentness_filter_condition(&vec![ObjectType::DerivedMemory], &VectorCandidateFilters::new().current_only())
            .expect("currentness filter builds");
    let mut condition_kinds = Vec::new();
    collect_condition_kinds(&condition, &mut condition_kinds);

    assert!(condition_kinds.contains(&"field:IsCurrent".to_owned()));
    assert!(condition_kinds.contains(&"is_empty:IsCurrent".to_owned()));
    assert!(condition_kinds.contains(&"is_null:IsCurrent".to_owned()));
    assert!(condition_kinds.contains(&"field:IsSuperseded".to_owned()));
    assert!(condition_kinds.contains(&"is_empty:IsSuperseded".to_owned()));
    assert!(condition_kinds.contains(&"is_null:IsSuperseded".to_owned()));
}

#[test]
fn no_restriction_builds_no_prefilter() {
    assert!(qdrant_candidate_filter(&Vec::new(), &VectorCandidateFilters::new()).is_none());
    assert!(qdrant_filter_conditions(&VectorCandidateFilters::new()).is_empty());
    assert!(currentness_filter_condition(&Vec::new(), &VectorCandidateFilters::new()).is_none());
}

#[test]
fn one_value_matches_alone_and_several_form_a_quorum() {
    assert_eq!(any_field_matches(PayloadField::ObjectType, vec!["episode".to_owned()]), keyword(PayloadField::ObjectType, "episode"));
    assert_eq!(
        any_field_matches(PayloadField::ObjectType, vec!["episode".to_owned(), "entity".to_owned()]),
        quorum_of_one(vec![keyword(PayloadField::ObjectType, "episode"), keyword(PayloadField::ObjectType, "entity")])
    );
}

#[test]
fn currentness_passes_other_types_and_checks_derived_memories() {
    let filters = VectorCandidateFilters::new().current_only();
    let mixed = currentness_filter_condition(&vec![ObjectType::Episode, ObjectType::DerivedMemory], &filters).unwrap();
    let expected_derived = PayloadCondition::Filter(PayloadFilter {
        must: vec![
            keyword(PayloadField::ObjectType, "derived_memory"),
            payload_hint_matches_or_missing(PayloadField::IsCurrent, true),
            payload_hint_matches_or_missing(PayloadField::IsSuperseded, false),
        ],
        should: Vec::new(),
        must_not: Vec::new(),
        min_should: None,
    });
    assert_eq!(mixed, quorum_of_one(vec![keyword(PayloadField::ObjectType, "episode"), expected_derived]));

    let others_only = currentness_filter_condition(&vec![ObjectType::Episode], &filters).unwrap();
    assert_eq!(others_only, keyword(PayloadField::ObjectType, "episode"));

    let all_types = currentness_filter_condition(&Vec::new(), &filters).unwrap();
    match all_types {
        PayloadCondition::Filter(PayloadFilter { min_should: Some(MinShould { conditions, min_count: 1 }), .. }) => {
            assert_eq!(conditions.len(), 2);
            assert_eq!(
                conditions[0],
                PayloadCondition::Filter(PayloadFilter {
                    must: Vec::new(),
                    should: Vec::new(),
                    must_not: vec![keyword(PayloadField::ObjectType, "derived_memory")],
                    min_should: None,
                })
            );
        }
        other => panic!("unexpected {other:?}"),
    }
}

#[test]
fn entity_and_time_conditions_follow_the_hint_order() {
    let entity = 0x550e8400_e29b_41d4_a716_446655440002u128;
    let filters = VectorCandidateFilters::new()
        .with_entity_ids(vec![entity])
        .with_time_range(VectorTimeRangeFilter::new(VectorTimeField::Observed, None, Some(5)));
    let conditions = qdrant_filter_conditions(&filters);
    let text = "550e8400-e29b-41d4-a716-446655440002";
    assert_eq!(
        conditions,
        vec![
            quorum_of_one(vec![
                keyword(PayloadField::EntityIds, text),
                keyword(PayloadField::ParticipantEntityIds, text),
                keyword(PayloadField::SpeakerEntityId, text),
            ]),
            PayloadCondition::DatetimeRange { field: PayloadField::ObservedAt, gte: None, lte: Some(5) },
        ]
    );
}
