//! Candidate prefilters: the payload conditions a vector search is restricted by,
//! as a tree of conditions that an index client translates one for one.

use vstd::prelude::*;
use crate::domain::{MemoryId, ObjectType, RetentionState, object_type_token, retention_state_token};
use crate::ids::{uuid_hyphenated, uuid_text};
use crate::objects::Timestamp;
use crate::seqs::contains_object_type;
use crate::vector::{
    VectorCandidateFilters, VectorTimeField, VectorTimeRangeFilter, object_type_name, retention_state_name,
};

verus! {

/// A payload field of the vector index that prefilters read.
#[derive(Debug, Clone, Copy, PartialEq, Eq, Structural)]
pub enum PayloadField {
    ObjectType,
    RetentionState,
    ThreadIds,
    EpisodeIds,
    EntityIds,
    ParticipantEntityIds,
    SpeakerEntityId,
    IsCurrent,
    IsSuperseded,
    CreatedAt,
    UpdatedAt,
    StartedAt,
    EndedAt,
    ObservedAt,
    LastTouchedAt,
}

/// A value a field is matched against.
#[derive(Debug, Clone, PartialEq, Eq)]
pub enum MatchValue {
    Keyword(String),
    Flag(bool),
}

/// One payload condition.
#[derive(Debug, PartialEq, Eq)]
pub enum PayloadCondition {
    /// The field holds the value (for a list field: one of its items does).
    Matches { field: PayloadField, value: MatchValue },
    /// The field is absent or an empty list.
    IsEmpty { field: PayloadField },
    /// The field is null.
    IsNull { field: PayloadField },
    /// The field's time lies in `gte ..= lte`; an absent end is open.
    DatetimeRange { field: PayloadField, gte: Option<Timestamp>, lte: Option<Timestamp> },
    /// A nested filter holds.
    Filter(PayloadFilter),
}

/// At least `min_count` of the conditions hold.
#[derive(Debug, PartialEq, Eq)]
pub struct MinShould {
    pub conditions: Vec<PayloadCondition>,
    pub min_count: u64,
}

/// A filter: all of `must`, at least one of `should` when it is not empty, none of
/// `must_not`, and the `min_should` quorum when there is one.
#[derive(Debug, PartialEq, Eq)]
pub struct PayloadFilter {
    pub must: Vec<PayloadCondition>,
    pub should: Vec<PayloadCondition>,
    pub must_not: Vec<PayloadCondition>,
    pub min_should: Option<MinShould>,
}

/// The content of a match value.
pub enum ValueModel {
    Keyword(Seq<char>),
    Flag(bool),
}

/// The content of a condition.
pub enum ConditionModel {
    Matches(PayloadField, ValueModel),
    IsEmpty(PayloadField),
    IsNull(PayloadField),
    DatetimeRange(PayloadField, Option<Timestamp>, Option<Timestamp>),
    Nested(FilterModel),
}

/// The content of a quorum.
pub struct MinShouldModel {
    pub conditions: Seq<ConditionModel>,
    pub min_count: u64,
}

/// The content of a filter.
pub struct FilterModel {
    pub must: Seq<ConditionModel>,
    pub should: Seq<ConditionModel>,
    pub must_not: Seq<ConditionModel>,
    pub min_should: Option<MinShouldModel>,
}

/// The content of a match value.
pub open spec fn value_model(v: MatchValue) -> ValueModel {
    match v {
        MatchValue::Keyword(s) => ValueModel::Keyword(s@),
        MatchValue::Flag(b) => ValueModel::Flag(b),
    }
}

/// The content of a condition.
pub open spec fn condition_model(c: PayloadCondition) -> ConditionModel
    decreases c,
{
    match c {
        PayloadCondition::Matches { field, value } => ConditionModel::Matches(field, value_model(value)),
        PayloadCondition::IsEmpty { field } => ConditionModel::IsEmpty(field),
        PayloadCondition::IsNull { field } => ConditionModel::IsNull(field),
        PayloadCondition::DatetimeRange { field, gte, lte } => ConditionModel::DatetimeRange(field, gte, lte),
        PayloadCondition::Filter(f) => ConditionModel::Nested(filter_model(f)),
    }
}

/// The content of a filter.
pub open spec fn filter_model(f: PayloadFilter) -> FilterModel
    decreases f,
{
    proof {
        vstd::std_specs::vec::axiom_vec_decreases_to_view(f.must);
        vstd::std_specs::vec::axiom_vec_decreases_to_view(f.should);
        vstd::std_specs::vec::axiom_vec_decreases_to_view(f.must_not);
    }
    FilterModel {
        must: conditions_model(f.must@),
        should: conditions_model(f.should@),
        must_not: conditions_model(f.must_not@),
        min_should: match f.min_should {
            Some(m) => {
                proof {
                    vstd::std_specs::vec::axiom_vec_decreases_to_view(m.conditions);
                }
                Some(MinShouldModel { conditions: conditions_model(m.conditions@), min_count: m.min_count })
            },
            None => None,
        },
    }
}

/// The contents of conditions, in order.
pub open spec fn conditions_model(s: Seq<PayloadCondition>) -> Seq<ConditionModel>
    decreases s,
{
    if s.len() == 0 {
        Seq::empty()
    } else {
        proof {
            vstd::seq::axiom_seq_subrange_decreases(s, 0, s.len() - 1);
            vstd::seq::axiom_seq_index_decreases(s, s.len() - 1);
        }
        conditions_model(s.subrange(0, s.len() - 1)).push(condition_model(s[s.len() - 1]))
    }
}

proof fn lemma_conditions_push(s: Seq<PayloadCondition>, c: PayloadCondition)
    ensures
        conditions_model(s.push(c)) == conditions_model(s).push(condition_model(c)),
{
    assert(s.push(c).subrange(0, s.len() as int) =~= s);
}

/// A filter whose quorum of one is over `cs`.
pub open spec fn min_should_model(cs: Seq<ConditionModel>) -> FilterModel {
    FilterModel { must: seq![], should: seq![], must_not: seq![], min_should: Some(MinShouldModel { conditions: cs, min_count: 1 }) }
}

/// A filter requiring all of `cs`.
pub open spec fn must_model(cs: Seq<ConditionModel>) -> FilterModel {
    FilterModel { must: cs, should: seq![], must_not: seq![], min_should: None }
}

/// The filter holding when at least one of `conditions` holds.
pub fn min_should_one(conditions: Vec<PayloadCondition>) -> (f: PayloadFilter)
    ensures
        filter_model(f) == min_should_model(conditions_model(conditions@)),
{
    let f = PayloadFilter {
        must: Vec::new(),
        should: Vec::new(),
        must_not: Vec::new(),
        min_should: Some(MinShould { conditions, min_count: 1 }),
    };
    proof {
        assert(f.must@ =~= Seq::<PayloadCondition>::empty());
        assert(f.should@ =~= Seq::<PayloadCondition>::empty());
        assert(f.must_not@ =~= Seq::<PayloadCondition>::empty());
        assert(conditions_model(f.must@) =~= Seq::<ConditionModel>::empty());
    }
    f
}

/// The filter holding when all of `conditions` hold.
pub fn must_all(conditions: Vec<PayloadCondition>) -> (f: PayloadFilter)
    ensures
        filter_model(f) == must_model(conditions_model(conditions@)),
{
    let f = PayloadFilter { must: conditions, should: Vec::new(), must_not: Vec::new(), min_should: None };
    proof {
        assert(f.should@ =~= Seq::<PayloadCondition>::empty());
        assert(f.must_not@ =~= Seq::<PayloadCondition>::empty());
    }
    f
}

/// `field` matching one of `values`: the single match when there is one value,
/// else a quorum of one over one match per value, in order.
pub open spec fn any_match_model(field: PayloadField, values: Seq<Seq<char>>) -> ConditionModel {
    let ms = values.map_values(|v: Seq<char>| ConditionModel::Matches(field, ValueModel::Keyword(v)));
    if ms.len() == 1 {
        ms[0]
    } else {
        ConditionModel::Nested(min_should_model(ms))
    }
}

/// The texts of strings.
pub open spec fn texts_of(v: Seq<String>) -> Seq<Seq<char>> {
    v.map_values(|s: String| s@)
}

/// The condition that `field` matches one of `values`.
pub fn any_field_matches(field: PayloadField, values: Vec<String>) -> (c: PayloadCondition)
    ensures
        condition_model(c) == any_match_model(field, texts_of(values@)),
{
    let ghost ms = texts_of(values@).map_values(|v: Seq<char>| ConditionModel::Matches(field, ValueModel::Keyword(v)));
    let mut conds: Vec<PayloadCondition> = Vec::new();
    let mut i: usize = 0;
    while i < values.len()
        invariant
            i <= values@.len(),
            ms == texts_of(values@).map_values(|v: Seq<char>| ConditionModel::Matches(field, ValueModel::Keyword(v))),
            conds@.len() == i,
            conditions_model(conds@) =~= ms.take(i as int),
        decreases values@.len() - i,
    {
        let c = PayloadCondition::Matches { field, value: MatchValue::Keyword(values[i].clone()) };
        proof {
            lemma_conditions_push(conds@, c);
            assert(ms.take(i + 1) =~= ms.take(i as int).push(ms[i as int]));
        }
        conds.push(c);
        i = i + 1;
    }
    proof {
        assert(ms.take(i as int) =~= ms);
    }
    if conds.len() == 1 {
        let ghost before = conds@;
        let c = conds.pop().unwrap();
        proof {
            assert(before.subrange(0, 0) =~= Seq::<PayloadCondition>::empty());
            assert(conditions_model(Seq::<PayloadCondition>::empty()) =~= Seq::<ConditionModel>::empty());
            assert(conditions_model(before) =~= seq![condition_model(before[0])]);
        }
        c
    } else {
        PayloadCondition::Filter(min_should_one(conds))
    }
}

proof fn lemma_conditions_concat(a: Seq<PayloadCondition>, b: Seq<PayloadCondition>)
    ensures
        conditions_model(a + b) == conditions_model(a) + conditions_model(b),
    decreases b.len(),
{
    if b.len() == 0 {
        assert(a + b =~= a);
        assert(conditions_model(b) =~= Seq::<ConditionModel>::empty());
        assert(conditions_model(a) + conditions_model(b) =~= conditions_model(a));
    } else {
        let b0 = b.subrange(0, b.len() - 1);
        let x = b[b.len() - 1];
        assert(b =~= b0.push(x));
        assert(a + b =~= (a + b0).push(x));
        lemma_conditions_concat(a, b0);
        lemma_conditions_push(a + b0, x);
        lemma_conditions_push(b0, x);
        assert(conditions_model(a) + conditions_model(b0).push(condition_model(x))
            =~= (conditions_model(a) + conditions_model(b0)).push(condition_model(x)));
    }
}

proof fn lemma_conditions_len(s: Seq<PayloadCondition>)
    ensures
        conditions_model(s).len() == s.len(),
    decreases s.len(),
{
    if s.len() > 0 {
        lemma_conditions_len(s.subrange(0, s.len() - 1));
    }
}

/// The payload texts of object types.
pub open spec fn type_texts(ts: Seq<ObjectType>) -> Seq<Seq<char>> {
    ts.map_values(|t: ObjectType| object_type_token(t))
}

/// The payload texts of retention states.
pub open spec fn retention_texts(rs: Seq<RetentionState>) -> Seq<Seq<char>> {
    rs.map_values(|r: RetentionState| retention_state_token(r))
}

/// The payload texts of identities: their hyphenated UUID form.
pub open spec fn id_texts(ids: Seq<MemoryId>) -> Seq<Seq<char>> {
    ids.map_values(|id: MemoryId| uuid_hyphenated(id))
}

fn object_type_texts(types: &Vec<ObjectType>) -> (v: Vec<String>)
    ensures
        texts_of(v@) == type_texts(types@),
{
    let mut v: Vec<String> = Vec::new();
    let mut i: usize = 0;
    while i < types.len()
        invariant
            i <= types@.len(),
            texts_of(v@) =~= type_texts(types@).take(i as int),
        decreases types@.len() - i,
    {
        let s = String::from_str(object_type_name(types[i]));
        proof {
            assert(texts_of(v@.push(s)) =~= texts_of(v@).push(s@));
            assert(type_texts(types@).take(i + 1) =~= type_texts(types@).take(i as int).push(object_type_token(types@[i as int])));
        }
        v.push(s);
        i = i + 1;
    }
    proof {
        assert(type_texts(types@).take(i as int) =~= type_texts(types@));
    }
    v
}

fn retention_state_texts(states: &Vec<RetentionState>) -> (v: Vec<String>)
    ensures
        texts_of(v@) == retention_texts(states@),
{
    let mut v: Vec<String> = Vec::new();
    let mut i: usize = 0;
    while i < states.len()
        invariant
            i <= states@.len(),
            texts_of(v@) =~= retention_texts(states@).take(i as int),
        decreases states@.len() - i,
    {
        let s = String::from_str(retention_state_name(states[i]));
        proof {
            assert(texts_of(v@.push(s)) =~= texts_of(v@).push(s@));
            assert(retention_texts(states@).take(i + 1) =~= retention_texts(states@).take(i as int).push(retention_state_token(states@[i as int])));
        }
        v.push(s);
        i = i + 1;
    }
    proof {
        assert(retention_texts(states@).take(i as int) =~= retention_texts(states@));
    }
    v
}

fn memory_id_texts(ids: &Vec<MemoryId>) -> (v: Vec<String>)
    ensures
        texts_of(v@) == id_texts(ids@),
{
    let mut v: Vec<String> = Vec::new();
    let mut i: usize = 0;
    while i < ids.len()
        invariant
            i <= ids@.len(),
            texts_of(v@) =~= id_texts(ids@).take(i as int),
        decreases ids@.len() - i,
    {
        let s = uuid_text(ids[i]);
        proof {
            assert(texts_of(v@.push(s)) =~= texts_of(v@).push(s@));
            assert(id_texts(ids@).take(i + 1) =~= id_texts(ids@).take(i as int).push(uuid_hyphenated(ids@[i as int])));
        }
        v.push(s);
        i = i + 1;
    }
    proof {
        assert(id_texts(ids@).take(i as int) =~= id_texts(ids@));
    }
    v
}

/// The payload field holding a time.
pub open spec fn time_field(f: VectorTimeField) -> PayloadField {
    match f {
        VectorTimeField::Created => PayloadField::CreatedAt,
        VectorTimeField::Updated => PayloadField::UpdatedAt,
        VectorTimeField::Started => PayloadField::StartedAt,
        VectorTimeField::Ended => PayloadField::EndedAt,
        VectorTimeField::Observed => PayloadField::ObservedAt,
        VectorTimeField::LastTouched => PayloadField::LastTouchedAt,
    }
}

/// The payload field holding a time.
pub fn time_payload_field(field: VectorTimeField) -> (p: PayloadField)
    ensures
        p == time_field(field),
{
    match field {
        VectorTimeField::Created => PayloadField::CreatedAt,
        VectorTimeField::Updated => PayloadField::UpdatedAt,
        VectorTimeField::Started => PayloadField::StartedAt,
        VectorTimeField::Ended => PayloadField::EndedAt,
        VectorTimeField::Observed => PayloadField::ObservedAt,
        VectorTimeField::LastTouched => PayloadField::LastTouchedAt,
    }
}

/// The condition of a time window.
pub open spec fn range_model(r: VectorTimeRangeFilter) -> ConditionModel {
    ConditionModel::DatetimeRange(time_field(r.field), r.after, r.before)
}

/// The entity condition: one of the identities among the memory's entities, its
/// participants, or as its speaker.
pub open spec fn entity_model(ids: Seq<MemoryId>) -> ConditionModel {
    ConditionModel::Nested(min_should_model(seq![
        any_match_model(PayloadField::EntityIds, id_texts(ids)),
        any_match_model(PayloadField::ParticipantEntityIds, id_texts(ids)),
        any_match_model(PayloadField::SpeakerEntityId, id_texts(ids)),
    ]))
}

/// `c` alone when `present`, else nothing.
pub open spec fn when(present: bool, c: ConditionModel) -> Seq<ConditionModel> {
    if present {
        seq![c]
    } else {
        seq![]
    }
}

/// The conditions of the payload-hint filters, in order: retention states,
/// threads, episodes, entities, then one per time window. An empty list adds none.
pub open spec fn filter_conditions_model(f: VectorCandidateFilters) -> Seq<ConditionModel> {
    when(f.retention_states@.len() > 0, any_match_model(PayloadField::RetentionState, retention_texts(f.retention_states@)))
        + when(f.thread_ids@.len() > 0, any_match_model(PayloadField::ThreadIds, id_texts(f.thread_ids@)))
        + when(f.episode_ids@.len() > 0, any_match_model(PayloadField::EpisodeIds, id_texts(f.episode_ids@)))
        + when(f.entity_ids@.len() > 0, entity_model(f.entity_ids@))
        + f.time_ranges@.map_values(|r: VectorTimeRangeFilter| range_model(r))
}

fn push_condition(v: &mut Vec<PayloadCondition>, c: PayloadCondition)
    ensures
        final(v)@ == old(v)@.push(c),
        conditions_model(final(v)@) == conditions_model(old(v)@).push(condition_model(c)),
{
    proof {
        lemma_conditions_push(v@, c);
    }
    v.push(c);
}

/// The conditions of the payload-hint filters, as `filter_conditions_model` says.
pub fn qdrant_filter_conditions(filters: &VectorCandidateFilters) -> (v: Vec<PayloadCondition>)
    ensures
        conditions_model(v@) == filter_conditions_model(*filters),
{
    let mut conds: Vec<PayloadCondition> = Vec::new();
    let ghost f = *filters;
    let ghost a = when(f.retention_states@.len() > 0, any_match_model(PayloadField::RetentionState, retention_texts(f.retention_states@)));
    let ghost b = when(f.thread_ids@.len() > 0, any_match_model(PayloadField::ThreadIds, id_texts(f.thread_ids@)));
    let ghost c = when(f.episode_ids@.len() > 0, any_match_model(PayloadField::EpisodeIds, id_texts(f.episode_ids@)));
    let ghost d = when(f.entity_ids@.len() > 0, entity_model(f.entity_ids@));
    if filters.retention_states.len() > 0 {
        push_condition(&mut conds, any_field_matches(PayloadField::RetentionState, retention_state_texts(&filters.retention_states)));
    }
    assert(conditions_model(conds@) =~= a);
    if filters.thread_ids.len() > 0 {
        push_condition(&mut conds, any_field_matches(PayloadField::ThreadIds, memory_id_texts(&filters.thread_ids)));
    }
    assert(conditions_model(conds@) =~= a + b);
    if filters.episode_ids.len() > 0 {
        push_condition(&mut conds, any_field_matches(PayloadField::EpisodeIds, memory_id_texts(&filters.episode_ids)));
    }
    assert(conditions_model(conds@) =~= a + b + c);
    if filters.entity_ids.len() > 0 {
        let mut entity: Vec<PayloadCondition> = Vec::new();
        push_condition(&mut entity, any_field_matches(PayloadField::EntityIds, memory_id_texts(&filters.entity_ids)));
        push_condition(&mut entity, any_field_matches(PayloadField::ParticipantEntityIds, memory_id_texts(&filters.entity_ids)));
        push_condition(&mut entity, any_field_matches(PayloadField::SpeakerEntityId, memory_id_texts(&filters.entity_ids)));
        proof {
            assert(conditions_model(Seq::<PayloadCondition>::empty()) =~= Seq::<ConditionModel>::empty());
        }
        assert(conditions_model(entity@) =~= seq![
            any_match_model(PayloadField::EntityIds, id_texts(f.entity_ids@)),
            any_match_model(PayloadField::ParticipantEntityIds, id_texts(f.entity_ids@)),
            any_match_model(PayloadField::SpeakerEntityId, id_texts(f.entity_ids@)),
        ]);
        push_condition(&mut conds, PayloadCondition::Filter(min_should_one(entity)));
    }
    assert(conditions_model(conds@) =~= a + b + c + d);
    let ghost base = a + b + c + d;
    let ghost ranges = f.time_ranges@.map_values(|r: VectorTimeRangeFilter| range_model(r));
    let mut i: usize = 0;
    while i < filters.time_ranges.len()
        invariant
            f == *filters,
            i <= f.time_ranges@.len(),
            ranges == f.time_ranges@.map_values(|r: VectorTimeRangeFilter| range_model(r)),
            conditions_model(conds@) =~= base + ranges.take(i as int),
        decreases f.time_ranges@.len() - i,
    {
        let r = filters.time_ranges[i];
        push_condition(&mut conds, PayloadCondition::DatetimeRange { field: time_payload_field(r.field), gte: r.after, lte: r.before });
        proof {
            assert(ranges.take(i + 1) =~= ranges.take(i as int).push(range_model(r)));
        }
        i = i + 1;
    }
    proof {
        assert(ranges.take(i as int) =~= ranges);
    }
    conds
}

/// A hint that must hold when present: the field matches `value`, or is empty, or
/// is null (so objects indexed before the hint existed are left to the graph).
pub open spec fn hint_model(field: PayloadField, value: bool) -> ConditionModel {
    ConditionModel::Nested(min_should_model(seq![
        ConditionModel::Matches(field, ValueModel::Flag(value)),
        ConditionModel::IsEmpty(field),
        ConditionModel::IsNull(field),
    ]))
}

/// The condition that `field` matches `value` or is missing.
pub fn payload_hint_matches_or_missing(field: PayloadField, value: bool) -> (c: PayloadCondition)
    ensures
        condition_model(c) == hint_model(field, value),
{
    let mut conds: Vec<PayloadCondition> = Vec::new();
    push_condition(&mut conds, PayloadCondition::Matches { field, value: MatchValue::Flag(value) });
    push_condition(&mut conds, PayloadCondition::IsEmpty { field });
    push_condition(&mut conds, PayloadCondition::IsNull { field });
    proof {
        assert(conditions_model(Seq::<PayloadCondition>::empty()) =~= Seq::<ConditionModel>::empty());
        assert(conditions_model(conds@) =~= seq![
            ConditionModel::Matches(field, ValueModel::Flag(value)),
            ConditionModel::IsEmpty(field),
            ConditionModel::IsNull(field),
        ]);
    }
    PayloadCondition::Filter(min_should_one(conds))
}

/// The currentness hints, in order: current, then superseded.
pub open spec fn currentness_conditions_model(f: VectorCandidateFilters) -> Seq<ConditionModel> {
    (match f.is_current {
        Some(v) => seq![hint_model(PayloadField::IsCurrent, v)],
        None => seq![],
    }) + (match f.is_superseded {
        Some(v) => seq![hint_model(PayloadField::IsSuperseded, v)],
        None => seq![],
    })
}

/// The currentness hints, as `currentness_conditions_model` says.
pub fn currentness_conditions(filters: &VectorCandidateFilters) -> (v: Vec<PayloadCondition>)
    ensures
        conditions_model(v@) == currentness_conditions_model(*filters),
{
    let mut conds: Vec<PayloadCondition> = Vec::new();
    proof {
        assert(conditions_model(conds@) =~= Seq::<ConditionModel>::empty());
    }
    if let Some(v) = filters.is_current {
        push_condition(&mut conds, payload_hint_matches_or_missing(PayloadField::IsCurrent, v));
    }
    if let Some(v) = filters.is_superseded {
        push_condition(&mut conds, payload_hint_matches_or_missing(PayloadField::IsSuperseded, v));
    }
    assert(conditions_model(conds@) =~= currentness_conditions_model(*filters));
    conds
}

/// The object types other than derived memories, in order.
pub open spec fn non_derived_types(ts: Seq<ObjectType>) -> Seq<ObjectType>
    decreases ts.len(),
{
    if ts.len() == 0 {
        ts
    } else {
        let k = non_derived_types(ts.drop_last());
        if ts.last() != ObjectType::DerivedMemory {
            k.push(ts.last())
        } else {
            k
        }
    }
}

fn non_derived(types: &Vec<ObjectType>) -> (v: Vec<ObjectType>)
    ensures
        v@ == non_derived_types(types@),
{
    let mut v: Vec<ObjectType> = Vec::new();
    let mut i: usize = 0;
    proof {
        assert(types@.take(0) =~= Seq::<ObjectType>::empty());
    }
    while i < types.len()
        invariant
            i <= types@.len(),
            v@ == non_derived_types(types@.take(i as int)),
        decreases types@.len() - i,
    {
        proof {
            assert(types@.take(i + 1).drop_last() =~= types@.take(i as int));
        }
        if types[i] != ObjectType::DerivedMemory {
            v.push(types[i]);
        }
        i = i + 1;
    }
    proof {
        assert(types@.take(i as int) =~= types@);
    }
    v
}

/// The payload match of derived memories.
pub open spec fn derived_type_match() -> ConditionModel {
    ConditionModel::Matches(PayloadField::ObjectType, ValueModel::Keyword(object_type_token(ObjectType::DerivedMemory)))
}

/// The currentness condition of a search over `types` (all types when empty):
/// objects other than derived memories pass untouched; derived memories must meet
/// the currentness hints. No condition when no hint is set, or when no branch is
/// left; a single branch stands alone, several form a quorum of one.
pub open spec fn currentness_model(types: Seq<ObjectType>, f: VectorCandidateFilters) -> Option<ConditionModel> {
    let cc = currentness_conditions_model(f);
    if !f.has_currentness() || cc.len() == 0 {
        None
    } else {
        let others = if types.len() == 0 {
            seq![ConditionModel::Nested(FilterModel { must: seq![], should: seq![], must_not: seq![derived_type_match()], min_should: None })]
        } else {
            when(non_derived_types(types).len() > 0, any_match_model(PayloadField::ObjectType, type_texts(non_derived_types(types))))
        };
        let derived = when(
            types.len() == 0 || types.contains(ObjectType::DerivedMemory),
            ConditionModel::Nested(must_model(seq![derived_type_match()] + cc)),
        );
        let branches = others + derived;
        if branches.len() == 0 {
            None
        } else if branches.len() == 1 {
            Some(branches[0])
        } else {
            Some(ConditionModel::Nested(min_should_model(branches)))
        }
    }
}

fn derived_type_condition() -> (c: PayloadCondition)
    ensures
        condition_model(c) == derived_type_match(),
{
    PayloadCondition::Matches {
        field: PayloadField::ObjectType,
        value: MatchValue::Keyword(String::from_str(object_type_name(ObjectType::DerivedMemory))),
    }
}

/// The currentness condition of a search over `object_types`, as
/// `currentness_model` says.
pub fn currentness_filter_condition(object_types: &Vec<ObjectType>, filters: &VectorCandidateFilters) -> (r: Option<PayloadCondition>)
    ensures
        (match r {
            Some(c) => currentness_model(object_types@, *filters) == Some(condition_model(c)),
            None => currentness_model(object_types@, *filters) is None,
        }),
{
    if !filters.has_currentness_filters() {
        return None;
    }
    let cc = currentness_conditions(filters);
    proof {
        lemma_conditions_len(cc@);
    }
    if cc.len() == 0 {
        return None;
    }
    let ghost ccm = conditions_model(cc@);
    let mut branches: Vec<PayloadCondition> = Vec::new();
    proof {
        assert(conditions_model(branches@) =~= Seq::<ConditionModel>::empty());
    }
    if object_types.len() == 0 {
        let mut excluded: Vec<PayloadCondition> = Vec::new();
        push_condition(&mut excluded, derived_type_condition());
        let f = PayloadFilter { must: Vec::new(), should: Vec::new(), must_not: excluded, min_should: None };
        proof {
            assert(conditions_model(Seq::<PayloadCondition>::empty()) =~= Seq::<ConditionModel>::empty());
            assert(f.must@ =~= Seq::<PayloadCondition>::empty());
            assert(f.should@ =~= Seq::<PayloadCondition>::empty());
            assert(conditions_model(f.must_not@) =~= seq![derived_type_match()]);
        }
        push_condition(&mut branches, PayloadCondition::Filter(f));
    } else {
        let others = non_derived(object_types);
        if others.len() > 0 {
            push_condition(&mut branches, any_field_matches(PayloadField::ObjectType, object_type_texts(&others)));
        }
    }
    let ghost types = object_types@;
    let ghost others = if types.len() == 0 {
        seq![ConditionModel::Nested(FilterModel { must: seq![], should: seq![], must_not: seq![derived_type_match()], min_should: None })]
    } else {
        when(non_derived_types(types).len() > 0, any_match_model(PayloadField::ObjectType, type_texts(non_derived_types(types))))
    };
    let ghost derived_branch = when(
        types.len() == 0 || types.contains(ObjectType::DerivedMemory),
        ConditionModel::Nested(must_model(seq![derived_type_match()] + ccm)),
    );
    assert(conditions_model(branches@) =~= others);
    if object_types.len() == 0 || contains_object_type(object_types, ObjectType::DerivedMemory) {
        let mut derived: Vec<PayloadCondition> = Vec::new();
        push_condition(&mut derived, derived_type_condition());
        let ghost lead = derived@;
        let mut rest = cc;
        derived.append(&mut rest);
        proof {
            assert(conditions_model(Seq::<PayloadCondition>::empty()) =~= Seq::<ConditionModel>::empty());
            lemma_conditions_concat(lead, cc@);
            assert(conditions_model(lead) =~= seq![derived_type_match()]);
        }
        push_condition(&mut branches, PayloadCondition::Filter(must_all(derived)));
    }
    assert(conditions_model(branches@) =~= others + derived_branch);
    proof {
        lemma_conditions_len(branches@);
    }
    if branches.len() == 0 {
        None
    } else if branches.len() == 1 {
        let ghost before = branches@;
        let c = branches.pop().unwrap();
        proof {
            assert(before.subrange(0, 0) =~= Seq::<PayloadCondition>::empty());
            assert(conditions_model(Seq::<PayloadCondition>::empty()) =~= Seq::<ConditionModel>::empty());
            assert(conditions_model(before) =~= seq![condition_model(before[0])]);
        }
        Some(c)
    } else {
        Some(PayloadCondition::Filter(min_should_one(branches)))
    }
}

/// The prefilter of a search over `types` (all types when empty): the object types,
/// the payload-hint conditions, then the currentness condition; no filter when
/// nothing restricts.
pub open spec fn candidate_filter_model(types: Seq<ObjectType>, f: VectorCandidateFilters) -> Option<FilterModel> {
    let all = when(types.len() > 0, any_match_model(PayloadField::ObjectType, type_texts(types)))
        + filter_conditions_model(f)
        + (match currentness_model(types, f) {
            Some(c) => seq![c],
            None => seq![],
        });
    if all.len() == 0 {
        None
    } else {
        Some(must_model(all))
    }
}

/// The prefilter of a candidate search over `object_types` with `filters`, as
/// `candidate_filter_model` says.
pub fn qdrant_candidate_filter(object_types: &Vec<ObjectType>, filters: &VectorCandidateFilters) -> (r: Option<PayloadFilter>)
    ensures
        (match r {
            Some(f) => candidate_filter_model(object_types@, *filters) == Some(filter_model(f)),
            None => candidate_filter_model(object_types@, *filters) is None,
        }),
{
    let mut must: Vec<PayloadCondition> = Vec::new();
    proof {
        assert(conditions_model(must@) =~= Seq::<ConditionModel>::empty());
    }
    if object_types.len() > 0 {
        push_condition(&mut must, any_field_matches(PayloadField::ObjectType, object_type_texts(object_types)));
    }
    let ghost lead = must@;
    let mut hints = qdrant_filter_conditions(filters);
    let ghost hs = hints@;
    must.append(&mut hints);
    proof {
        lemma_conditions_concat(lead, hs);
    }
    let ghost types = object_types@;
    let ghost head = when(types.len() > 0, any_match_model(PayloadField::ObjectType, type_texts(types)));
    assert(conditions_model(must@) =~= head + filter_conditions_model(*filters));
    match currentness_filter_condition(object_types, filters) {
        Some(c) => push_condition(&mut must, c),
        None => {},
    }
    assert(conditions_model(must@) =~= head + filter_conditions_model(*filters) + (match currentness_model(types, *filters) {
        Some(c) => seq![c],
        None => seq![],
    }));
    proof {
        lemma_conditions_len(must@);
    }
    if must.len() == 0 {
        None
    } else {
        Some(must_all(must))
    }
}

proof fn lemma_non_derived_identity(ts: Seq<ObjectType>)
    requires
        !ts.contains(ObjectType::DerivedMemory),
    ensures
        non_derived_types(ts) == ts,
    decreases ts.len(),
{
    if ts.len() > 0 {
        assert(!ts.drop_last().contains(ObjectType::DerivedMemory)) by {
            if ts.drop_last().contains(ObjectType::DerivedMemory) {
                let k = choose|k: int| 0 <= k < ts.drop_last().len() && ts.drop_last()[k] == ObjectType::DerivedMemory;
                assert(ts[k] == ObjectType::DerivedMemory);
            }
        }
        lemma_non_derived_identity(ts.drop_last());
        assert(ts[ts.len() - 1] != ObjectType::DerivedMemory);
        assert(ts.drop_last().push(ts.last()) =~= ts);
    }
}

/// Currentness hints only ever constrain derived memories: a search over other
/// object types alone gets, for them, nothing but a match on those types.
pub proof fn law_currentness_leaves_other_types(types: Seq<ObjectType>, f: VectorCandidateFilters)
    requires
        types.len() > 0,
        !types.contains(ObjectType::DerivedMemory),
    ensures
        currentness_model(types, f) == (if f.has_currentness() {
            Some(any_match_model(PayloadField::ObjectType, type_texts(types)))
        } else {
            None::<ConditionModel>
        }),
{
    lemma_non_derived_identity(types);
    let cc = currentness_conditions_model(f);
    if f.has_currentness() {
        assert(cc.len() > 0);
        let others = when(true, any_match_model(PayloadField::ObjectType, type_texts(types)));
        assert(others + when(false, derived_type_match()) =~= others);
    }
}


/// Each time field filters on the payload field of its own name (creation time on
/// `created_at`, update time on `updated_at`, and so on), so no two time fields
/// share a payload field.
pub proof fn law_time_fields_keep_their_names(f: VectorTimeField)
    ensures
        (time_field(f) == PayloadField::CreatedAt) <==> (f == VectorTimeField::Created),
        (time_field(f) == PayloadField::UpdatedAt) <==> (f == VectorTimeField::Updated),
        (time_field(f) == PayloadField::StartedAt) <==> (f == VectorTimeField::Started),
        (time_field(f) == PayloadField::EndedAt) <==> (f == VectorTimeField::Ended),
        (time_field(f) == PayloadField::ObservedAt) <==> (f == VectorTimeField::Observed),
        (time_field(f) == PayloadField::LastTouchedAt) <==> (f == VectorTimeField::LastTouched),
        forall|g: VectorTimeField| time_field(g) == time_field(f) ==> g == f,
{
}


/// Each payload-hint filter conditions the payload field of its own kind, and
/// nothing else is added: the retention states match `retention_state` by their
/// tokens, the thread identities `thread_ids`, the episode identities
/// `episode_ids`, the entity identities the entities, participants or speaker, and
/// each time window bounds the time field it names, in the order given.
pub proof fn law_filters_condition_their_own_fields(f: VectorCandidateFilters)
    ensures
        ({
            let cs = filter_conditions_model(f);
            let r: int = if f.retention_states@.len() > 0 { 1 } else { 0 };
            let t: int = if f.thread_ids@.len() > 0 { 1 } else { 0 };
            let e: int = if f.episode_ids@.len() > 0 { 1 } else { 0 };
            let n: int = if f.entity_ids@.len() > 0 { 1 } else { 0 };
            &&& cs.len() == r + t + e + n + f.time_ranges@.len()
            &&& f.retention_states@.len() > 0 ==> cs[0] == any_match_model(
                PayloadField::RetentionState,
                f.retention_states@.map_values(|s: RetentionState| retention_state_token(s)),
            )
            &&& f.thread_ids@.len() > 0 ==> cs[r] == any_match_model(
                PayloadField::ThreadIds,
                f.thread_ids@.map_values(|id: MemoryId| uuid_hyphenated(id)),
            )
            &&& f.episode_ids@.len() > 0 ==> cs[r + t] == any_match_model(
                PayloadField::EpisodeIds,
                f.episode_ids@.map_values(|id: MemoryId| uuid_hyphenated(id)),
            )
            &&& f.entity_ids@.len() > 0 ==> cs[r + t + e] == ConditionModel::Nested(min_should_model(seq![
                any_match_model(PayloadField::EntityIds, f.entity_ids@.map_values(|id: MemoryId| uuid_hyphenated(id))),
                any_match_model(PayloadField::ParticipantEntityIds, f.entity_ids@.map_values(|id: MemoryId| uuid_hyphenated(id))),
                any_match_model(PayloadField::SpeakerEntityId, f.entity_ids@.map_values(|id: MemoryId| uuid_hyphenated(id))),
            ]))
            &&& forall|k: int| 0 <= k < f.time_ranges@.len() ==> cs[r + t + e + n + k] == ConditionModel::DatetimeRange(
                time_field(#[trigger] f.time_ranges@[k].field),
                f.time_ranges@[k].after,
                f.time_ranges@[k].before,
            )
        }),
{
    let a = when(f.retention_states@.len() > 0, any_match_model(PayloadField::RetentionState, retention_texts(f.retention_states@)));
    let b = when(f.thread_ids@.len() > 0, any_match_model(PayloadField::ThreadIds, id_texts(f.thread_ids@)));
    let c = when(f.episode_ids@.len() > 0, any_match_model(PayloadField::EpisodeIds, id_texts(f.episode_ids@)));
    let d = when(f.entity_ids@.len() > 0, entity_model(f.entity_ids@));
    let w = f.time_ranges@.map_values(|r: VectorTimeRangeFilter| range_model(r));
    assert(filter_conditions_model(f) == a + b + c + d + w);
    assert((a + b + c + d + w).len() == a.len() + b.len() + c.len() + d.len() + w.len());
    assert forall|k: int| 0 <= k < w.len() implies (a + b + c + d + w)[a.len() + b.len() + c.len() + d.len() + k]
        == w[k] by {}
}

} // verus!
