//! Retrieval statistics: entity-to-object edges derived from written objects and
//! links, merged by identity, and the counters that selectivity planning reads.

use vstd::prelude::*;
use crate::domain::{MemoryId, ObjectType, RelationType, RetentionState, relation_type_token, object_type_token, retention_state_token, retention_rank};
use crate::objects::{MemoryObject, MemoryLink, Timestamp, participant_keys_of};
use crate::sorting::{SortKey, sort_by_keys, sorted_by_keys};
use crate::text::{text_lt, text_less};

verus! {

/// One entity-to-object edge and the lifecycle it was last seen with.
#[derive(Debug, Clone, PartialEq, Eq)]
pub struct RetrievalStatsEdge {
    /// `entity:relation:object_type:object`, with the identifiers in UUID text.
    pub edge_key: String,
    pub entity_id: MemoryId,
    pub relation_kind: RelationType,
    pub object_id: MemoryId,
    pub object_type: ObjectType,
    pub retention_state: RetentionState,
    pub is_current: bool,
    pub first_seen_at: Timestamp,
    pub last_seen_at: Timestamp,
}

impl RetrievalStatsEdge {
    /// Whether the edge's object is active.
    pub fn is_active(&self) -> (b: bool)
        ensures
            b == (self.retention_state == RetentionState::Active),
    {
        self.retention_state == RetentionState::Active
    }
}

/// What an edge says, as plain values.
pub struct EdgeModel {
    pub key: Seq<char>,
    pub entity_id: MemoryId,
    pub relation_kind: RelationType,
    pub object_id: MemoryId,
    pub object_type: ObjectType,
    pub retention_state: RetentionState,
    pub is_current: bool,
    pub first_seen_at: Timestamp,
    pub last_seen_at: Timestamp,
}

impl View for RetrievalStatsEdge {
    type V = EdgeModel;

    open spec fn view(&self) -> EdgeModel {
        EdgeModel {
            key: self.edge_key@,
            entity_id: self.entity_id,
            relation_kind: self.relation_kind,
            object_id: self.object_id,
            object_type: self.object_type,
            retention_state: self.retention_state,
            is_current: self.is_current,
            first_seen_at: self.first_seen_at,
            last_seen_at: self.last_seen_at,
        }
    }
}

/// The models of edges.
pub open spec fn models(es: Seq<RetrievalStatsEdge>) -> Seq<EdgeModel> {
    es.map_values(|e: RetrievalStatsEdge| e@)
}

/// The lifecycle of an object as written.
#[derive(Debug, Clone, Copy, PartialEq, Eq, Structural)]
pub struct RetrievalStatsObjectState {
    pub object_id: MemoryId,
    pub object_type: ObjectType,
    pub retention_state: RetentionState,
    pub is_current: bool,
    pub observed_at: Timestamp,
}

/// The counter of one entity's edges of one relation to one object type.
#[derive(Debug, Clone, Copy, PartialEq, Eq, Hash, Structural)]
pub struct RetrievalStatsCounterKey {
    pub entity_id: MemoryId,
    pub relation_kind: RelationType,
    pub object_type: ObjectType,
}

/// Edge counts: all edges, those to active objects, and those to active current ones.
#[derive(Debug, Clone, Copy, PartialEq, Eq, Structural)]
pub struct RetrievalStatsCounter {
    pub total_count: u64,
    pub active_count: u64,
    pub current_count: u64,
}

/// Whether the statistics can be trusted.
#[derive(Debug, Clone, Copy, PartialEq, Eq, Structural)]
pub enum RetrievalStatsHealthState {
    Healthy,
    Unhealthy,
}

/// The health of the statistics and the last failure recorded.
#[derive(Debug, Clone, PartialEq, Eq)]
pub struct RetrievalStatsHealth {
    pub state: RetrievalStatsHealthState,
    pub last_error_message: Option<String>,
}

impl RetrievalStatsHealth {
    /// Healthy, with no failure recorded.
    pub fn default() -> (h: RetrievalStatsHealth)
        ensures
            h.state == RetrievalStatsHealthState::Healthy,
            h.last_error_message is None,
    {
        RetrievalStatsHealth { state: RetrievalStatsHealthState::Healthy, last_error_message: None }
    }
}

/// The statistics key of a relation.
pub fn relation_type_key(relation: RelationType) -> (s: &'static str)
    ensures
        s@ == relation_type_token(relation),
{
    relation.token()
}

/// The statistics key of an object type.
pub fn object_type_key(object_type: ObjectType) -> (s: &'static str)
    ensures
        s@ == object_type_token(object_type),
{
    object_type.token()
}

/// The statistics key of a retention state.
pub fn retention_state_key(retention_state: RetentionState) -> (s: &'static str)
    ensures
        s@ == retention_state_token(retention_state),
{
    retention_state.token()
}

/// The more restrictive of two retention states (the left one on a tie).
pub open spec fn stricter(left: RetentionState, right: RetentionState) -> RetentionState {
    if retention_rank(right) > retention_rank(left) {
        right
    } else {
        left
    }
}

/// The more restrictive of two retention states.
pub fn more_restrictive_retention(left: RetentionState, right: RetentionState) -> (r: RetentionState)
    ensures
        r == stricter(left, right),
{
    if right.restrictiveness_rank() > left.restrictiveness_rank() {
        right
    } else {
        left
    }
}

/// The text of an edge key.
pub open spec fn edge_key_text(entity_id: MemoryId, relation: RelationType, object_type: ObjectType, object_id: MemoryId) -> Seq<char> {
    crate::ids::uuid_hyphenated(entity_id) + ":"@ + relation_type_token(relation) + ":"@ + object_type_token(object_type)
        + ":"@ + crate::ids::uuid_hyphenated(object_id)
}

/// The edge first seen at `observed_at` with the given lifecycle, keyed by its identity.
pub open spec fn edge_model(
    entity_id: MemoryId,
    relation_kind: RelationType,
    object_id: MemoryId,
    object_type: ObjectType,
    retention_state: RetentionState,
    is_current: bool,
    observed_at: Timestamp,
) -> EdgeModel {
    EdgeModel {
        key: edge_key_text(entity_id, relation_kind, object_type, object_id),
        entity_id,
        relation_kind,
        object_id,
        object_type,
        retention_state,
        is_current,
        first_seen_at: observed_at,
        last_seen_at: observed_at,
    }
}

/// An edge seen at `observed_at`, keyed by its identity.
pub fn edge(
    entity_id: MemoryId,
    relation_kind: RelationType,
    object_id: MemoryId,
    object_type: ObjectType,
    retention_state: RetentionState,
    is_current: bool,
    observed_at: Timestamp,
) -> (e: RetrievalStatsEdge)
    ensures
        e@ == edge_model(entity_id, relation_kind, object_id, object_type, retention_state, is_current, observed_at),
{
    let mut key = crate::ids::uuid_text(entity_id);
    key.append(":");
    key.append(relation_type_key(relation_kind));
    key.append(":");
    key.append(object_type_key(object_type));
    key.append(":");
    let object_text = crate::ids::uuid_text(object_id);
    key.append(object_text.as_str());
    RetrievalStatsEdge {
        edge_key: key,
        entity_id,
        relation_kind,
        object_id,
        object_type,
        retention_state,
        is_current,
        first_seen_at: observed_at,
        last_seen_at: observed_at,
    }
}

/// Whether two edges have the same identity: the same key.
pub open spec fn same_edge(a: EdgeModel, b: EdgeModel) -> bool {
    a.key == b.key
}

/// An edge seen again: the earliest first sighting, the latest last sighting, the
/// more restrictive retention, and current only if current in both.
pub open spec fn merged(existing: EdgeModel, incoming: EdgeModel) -> EdgeModel {
    EdgeModel {
        first_seen_at: if incoming.first_seen_at < existing.first_seen_at {
            incoming.first_seen_at
        } else {
            existing.first_seen_at
        },
        last_seen_at: if incoming.last_seen_at > existing.last_seen_at {
            incoming.last_seen_at
        } else {
            existing.last_seen_at
        },
        retention_state: stricter(existing.retention_state, incoming.retention_state),
        is_current: existing.is_current && incoming.is_current,
        ..existing
    }
}

/// Merges a repeated sighting into an edge.
pub fn merge_edge(existing: &mut RetrievalStatsEdge, incoming: &RetrievalStatsEdge)
    ensures
        final(existing)@ == merged(old(existing)@, incoming@),
{
    if incoming.first_seen_at < existing.first_seen_at {
        existing.first_seen_at = incoming.first_seen_at;
    }
    if incoming.last_seen_at > existing.last_seen_at {
        existing.last_seen_at = incoming.last_seen_at;
    }
    existing.retention_state = more_restrictive_retention(existing.retention_state, incoming.retention_state);
    existing.is_current = existing.is_current && incoming.is_current;
}

/// The position of the edge with the identity of `e`, if any (the first one).
pub open spec fn find_edge(es: Seq<EdgeModel>, e: EdgeModel) -> Option<int>
    decreases es.len(),
{
    if es.len() == 0 {
        None
    } else {
        match find_edge(es.drop_last(), e) {
            Some(i) => Some(i),
            None => if same_edge(es.last(), e) {
                Some(es.len() - 1)
            } else {
                None
            },
        }
    }
}

/// Records one edge: merged into the edge with its identity, or added.
pub open spec fn insert_edge_spec(es: Seq<EdgeModel>, e: EdgeModel) -> Seq<EdgeModel> {
    match find_edge(es, e) {
        Some(i) => es.update(i, merged(es[i], e)),
        None => es.push(e),
    }
}

/// Records edges in order.
pub open spec fn insert_edges_spec(es: Seq<EdgeModel>, incoming: Seq<EdgeModel>) -> Seq<EdgeModel>
    decreases incoming.len(),
{
    if incoming.len() == 0 {
        es
    } else {
        insert_edge_spec(insert_edges_spec(es, incoming.drop_last()), incoming.last())
    }
}

/// No two edges share an identity.
pub open spec fn edges_distinct(es: Seq<EdgeModel>) -> bool {
    forall|i: int, j: int| 0 <= i < es.len() && 0 <= j < es.len() && i != j ==> !same_edge(#[trigger] es[i], #[trigger] es[j])
}

/// Where `find_edge` points: the first edge with the identity of `e`, if any.
pub proof fn lemma_find_edge(es: Seq<EdgeModel>, e: EdgeModel)
    ensures
        find_edge(es, e) matches Some(i) ==> 0 <= i < es.len() && same_edge(es[i], e)
            && forall|j: int| 0 <= j < i ==> !same_edge(#[trigger] es[j], e),
        find_edge(es, e) is None ==> forall|j: int| 0 <= j < es.len() ==> !same_edge(#[trigger] es[j], e),
    decreases es.len(),
{
    if es.len() > 0 {
        lemma_find_edge(es.drop_last(), e);
        assert forall|j: int| 0 <= j < es.len() - 1 implies es[j] == es.drop_last()[j] by {}
    }
}

fn find_edge_index(es: &Vec<RetrievalStatsEdge>, e: &RetrievalStatsEdge) -> (r: Option<usize>)
    ensures
        r matches Some(i) ==> find_edge(models(es@), e@) == Some(i as int),
        r is None ==> find_edge(models(es@), e@) is None,
{
    let ghost ms = models(es@);
    proof {
        lemma_find_edge(ms, e@);
    }
    let mut i: usize = 0;
    while i < es.len()
        invariant
            i <= es@.len(),
            ms == models(es@),
            forall|j: int| 0 <= j < i ==> !same_edge(#[trigger] ms[j], e@),
        decreases es@.len() - i,
    {
        if es[i].edge_key == e.edge_key {
            proof {
                lemma_find_edge(ms, e@);
                assert(same_edge(ms[i as int], e@));
                if let Some(k) = find_edge(ms, e@) {
                    if k < i {
                        assert(!same_edge(ms[k], e@));
                    } else if k > i {
                        assert(!same_edge(ms[i as int], e@));
                    }
                }
            }
            return Some(i);
        }
        i = i + 1;
    }
    None
}

/// Records one edge into a list of distinct edges.
pub fn insert_edge(edges: &mut Vec<RetrievalStatsEdge>, e: RetrievalStatsEdge)
    requires
        edges_distinct(models(old(edges)@)),
    ensures
        models(final(edges)@) == insert_edge_spec(models(old(edges)@), e@),
        edges_distinct(models(final(edges)@)),
{
    let ghost ms = models(edges@);
    proof {
        lemma_find_edge(ms, e@);
    }
    match find_edge_index(edges, &e) {
        Some(i) => {
            let mut existing = edges.remove(i);
            merge_edge(&mut existing, &e);
            edges.insert(i, existing);
            proof {
                assert(models(edges@) =~= ms.update(i as int, merged(ms[i as int], e@)));
                assert forall|a: int, b: int| 0 <= a < edges@.len() && 0 <= b < edges@.len() && a != b
                    implies !same_edge(#[trigger] models(edges@)[a], #[trigger] models(edges@)[b]) by {
                    assert(same_edge(models(edges@)[a], models(edges@)[b]) == same_edge(ms[a], ms[b]));
                }
            }
        },
        None => {
            edges.push(e);
            proof {
                assert(models(edges@) =~= ms.push(e@));
                assert forall|a: int, b: int| 0 <= a < edges@.len() && 0 <= b < edges@.len() && a != b
                    implies !same_edge(#[trigger] models(edges@)[a], #[trigger] models(edges@)[b]) by {
                    if a < ms.len() && b < ms.len() {
                        assert(models(edges@)[a] == ms[a]);
                        assert(models(edges@)[b] == ms[b]);
                    } else if a < ms.len() {
                        assert(models(edges@)[a] == ms[a]);
                        assert(!same_edge(ms[a], e@));
                    } else {
                        assert(models(edges@)[b] == ms[b]);
                        assert(!same_edge(ms[b], e@));
                    }
                }
            }
        },
    }
}

impl RetrievalStatsEdge {
    /// An exact copy of the edge.
    pub fn duplicate(&self) -> (r: RetrievalStatsEdge)
        ensures
            r == *self,
    {
        RetrievalStatsEdge {
            edge_key: self.edge_key.clone(),
            entity_id: self.entity_id,
            relation_kind: self.relation_kind,
            object_id: self.object_id,
            object_type: self.object_type,
            retention_state: self.retention_state,
            is_current: self.is_current,
            first_seen_at: self.first_seen_at,
            last_seen_at: self.last_seen_at,
        }
    }
}

impl RetrievalStatsHealth {
    /// An exact copy of the health.
    pub fn duplicate(&self) -> (r: RetrievalStatsHealth)
        ensures
            r == *self,
    {
        RetrievalStatsHealth { state: self.state, last_error_message: crate::objects::duplicate_text(&self.last_error_message) }
    }
}

/// Whether a written object state concerns the edge's object.
pub open spec fn state_applies(e: EdgeModel, st: RetrievalStatsObjectState) -> bool {
    e.object_id == st.object_id && e.object_type == st.object_type
}

/// An edge after its object's state was written: the new lifecycle, and the later of
/// its last sighting and the state's observation.
pub open spec fn with_state(e: EdgeModel, st: RetrievalStatsObjectState) -> EdgeModel {
    if state_applies(e, st) {
        EdgeModel {
            retention_state: st.retention_state,
            is_current: st.is_current,
            last_seen_at: if st.observed_at > e.last_seen_at {
                st.observed_at
            } else {
                e.last_seen_at
            },
            ..e
        }
    } else {
        e
    }
}

/// Edges after one object state was written.
pub open spec fn apply_state(es: Seq<EdgeModel>, st: RetrievalStatsObjectState) -> Seq<EdgeModel> {
    es.map_values(|e: EdgeModel| with_state(e, st))
}

/// Edges after object states were written in order.
pub open spec fn apply_states(es: Seq<EdgeModel>, sts: Seq<RetrievalStatsObjectState>) -> Seq<EdgeModel>
    decreases sts.len(),
{
    if sts.len() == 0 {
        es
    } else {
        apply_state(apply_states(es, sts.drop_last()), sts.last())
    }
}

/// Edge counts (all, to active objects, to active current objects) of the selected edges.
pub open spec fn tally(es: Seq<EdgeModel>, sel: spec_fn(EdgeModel) -> bool) -> (nat, nat, nat)
    decreases es.len(),
{
    if es.len() == 0 {
        (0, 0, 0)
    } else {
        let t = tally(es.drop_last(), sel);
        let e = es.last();
        if sel(e) {
            (
                t.0 + 1,
                if e.retention_state == RetentionState::Active { t.1 + 1 } else { t.1 },
                if e.retention_state == RetentionState::Active && e.is_current { t.2 + 1 } else { t.2 },
            )
        } else {
            t
        }
    }
}

/// Whether a counter holds the counts of the selected edges, none when no edge is selected.
pub open spec fn counter_of(r: Option<RetrievalStatsCounter>, es: Seq<EdgeModel>, sel: spec_fn(EdgeModel) -> bool) -> bool {
    let t = tally(es, sel);
    if t.0 == 0 {
        r is None
    } else {
        r matches Some(c) && c.total_count == t.0 && c.active_count == t.1 && c.current_count == t.2
    }
}

/// The counter of the selected edges, none when no edge is selected.
pub open spec fn counter_value(es: Seq<EdgeModel>, sel: spec_fn(EdgeModel) -> bool) -> Option<RetrievalStatsCounter> {
    let t = tally(es, sel);
    if t.0 == 0 {
        None
    } else {
        Some(RetrievalStatsCounter { total_count: t.0 as u64, active_count: t.1 as u64, current_count: t.2 as u64 })
    }
}

/// The edges a counter key selects.
pub open spec fn key_selects(key: RetrievalStatsCounterKey) -> spec_fn(EdgeModel) -> bool {
    |e: EdgeModel| e.entity_id == key.entity_id && e.relation_kind == key.relation_kind && e.object_type == key.object_type
}

/// The edges a (relation, object type) pair selects, over all entities.
pub open spec fn pair_selects(relation: RelationType, object_type: ObjectType) -> spec_fn(EdgeModel) -> bool {
    |e: EdgeModel| e.relation_kind == relation && e.object_type == object_type
}

proof fn lemma_tally_bounds(es: Seq<EdgeModel>, sel: spec_fn(EdgeModel) -> bool)
    ensures
        tally(es, sel).2 <= tally(es, sel).1 <= tally(es, sel).0 <= es.len(),
    decreases es.len(),
{
    if es.len() > 0 {
        lemma_tally_bounds(es.drop_last(), sel);
    }
}

fn count_edges(es: &Vec<RetrievalStatsEdge>, key: Option<RetrievalStatsCounterKey>, relation: RelationType, object_type: ObjectType) -> (r: Option<RetrievalStatsCounter>)
    ensures
        key matches Some(k) ==> counter_of(r, models(es@), key_selects(k)) && r == counter_value(models(es@), key_selects(k)),
        key is None ==> counter_of(r, models(es@), pair_selects(relation, object_type)) && r == counter_value(
            models(es@),
            pair_selects(relation, object_type),
        ),
{
    let ghost sel = match key {
        Some(k) => key_selects(k),
        None => pair_selects(relation, object_type),
    };
    let mut total: usize = 0;
    let mut active: usize = 0;
    let mut current: usize = 0;
    let mut i: usize = 0;
    let ghost ms = models(es@);
    proof {
        assert(ms.take(0) =~= Seq::<EdgeModel>::empty());
    }
    while i < es.len()
        invariant
            i <= es@.len(),
            ms == models(es@),
            sel == (match key {
                Some(k) => key_selects(k),
                None => pair_selects(relation, object_type),
            }),
            tally(ms.take(i as int), sel) == (total as nat, active as nat, current as nat),
            current <= active <= total <= i,
        decreases es@.len() - i,
    {
        let e = &es[i];
        proof {
            assert(ms.take(i + 1).drop_last() =~= ms.take(i as int));
            assert(ms.take(i + 1).last() == e@);
        }
        let selected = match key {
            Some(k) => e.entity_id == k.entity_id && e.relation_kind == k.relation_kind && e.object_type == k.object_type,
            None => e.relation_kind == relation && e.object_type == object_type,
        };
        if selected {
            total = total + 1;
            if e.is_active() {
                active = active + 1;
                if e.is_current {
                    current = current + 1;
                }
            }
        }
        i = i + 1;
    }
    proof {
        assert(ms.take(i as int) =~= ms);
    }
    if total == 0 {
        None
    } else {
        Some(RetrievalStatsCounter { total_count: total as u64, active_count: active as u64, current_count: current as u64 })
    }
}

/// Retrieval statistics held in memory: the edges recorded so far, each identity
/// once, and the health marker.
pub struct InMemoryRetrievalStatsStore {
    edges: Vec<RetrievalStatsEdge>,
    health: RetrievalStatsHealth,
}

impl InMemoryRetrievalStatsStore {
    /// The recorded edges, in the order their identities were first recorded.
    pub closed spec fn edges_view(&self) -> Seq<EdgeModel> {
        models(self.edges@)
    }

    /// The health marker.
    pub closed spec fn health_view(&self) -> RetrievalStatsHealth {
        self.health
    }

    /// The store's invariant: no two recorded edges share an identity.
    pub closed spec fn wf(&self) -> bool {
        edges_distinct(models(self.edges@))
    }

    /// An empty, healthy store.
    pub fn new() -> (s: InMemoryRetrievalStatsStore)
        ensures
            s.wf(),
            s.edges_view().len() == 0,
            s.health_view().state == RetrievalStatsHealthState::Healthy,
            s.health_view().last_error_message is None,
    {
        InMemoryRetrievalStatsStore { edges: Vec::new(), health: RetrievalStatsHealth::default() }
    }

    /// An empty store already marked unhealthy with `message`.
    pub fn unhealthy(message: String) -> (s: InMemoryRetrievalStatsStore)
        ensures
            s.wf(),
            s.edges_view().len() == 0,
            s.health_view().state == RetrievalStatsHealthState::Unhealthy,
            s.health_view().last_error_message == Some(message),
    {
        InMemoryRetrievalStatsStore {
            edges: Vec::new(),
            health: RetrievalStatsHealth { state: RetrievalStatsHealthState::Unhealthy, last_error_message: Some(message) },
        }
    }

    /// Records edges in order, merging each into the edge with its identity.
    pub fn record_edges(&mut self, edges: &Vec<RetrievalStatsEdge>)
        requires
            old(self).wf(),
        ensures
            final(self).wf(),
            final(self).edges_view() == insert_edges_spec(old(self).edges_view(), models(edges@)),
            final(self).health_view() == old(self).health_view(),
    {
        let mut i: usize = 0;
        let ghost inc = models(edges@);
        proof {
            assert(inc.take(0) =~= Seq::<EdgeModel>::empty());
        }
        while i < edges.len()
            invariant
                i <= edges@.len(),
                inc == models(edges@),
                edges_distinct(models(self.edges@)),
                models(self.edges@) == insert_edges_spec(models(old(self).edges@), inc.take(i as int)),
                self.health == old(self).health,
            decreases edges@.len() - i,
        {
            let e = edges[i].duplicate();
            proof {
                assert(inc.take(i + 1).drop_last() =~= inc.take(i as int));
                assert(inc.take(i + 1).last() == e@);
            }
            insert_edge(&mut self.edges, e);
            i = i + 1;
        }
        proof {
            assert(inc.take(i as int) =~= inc);
        }
    }

    /// Records written object states in order: every edge to the object takes its
    /// lifecycle, and its last sighting never moves back.
    pub fn record_object_states(&mut self, states: &Vec<RetrievalStatsObjectState>)
        requires
            old(self).wf(),
        ensures
            final(self).wf(),
            final(self).edges_view() == apply_states(old(self).edges_view(), states@),
            final(self).health_view() == old(self).health_view(),
    {
        let mut i: usize = 0;
        proof {
            assert(states@.take(0) =~= Seq::<RetrievalStatsObjectState>::empty());
        }
        while i < states.len()
            invariant
                i <= states@.len(),
                edges_distinct(models(self.edges@)),
                models(self.edges@) == apply_states(models(old(self).edges@), states@.take(i as int)),
                self.health == old(self).health,
            decreases states@.len() - i,
        {
            let st = states[i];
            proof {
                assert(states@.take(i + 1).drop_last() =~= states@.take(i as int));
                assert(states@.take(i + 1).last() == st);
            }
            let ghost before = models(self.edges@);
            let mut j: usize = 0;
            while j < self.edges.len()
                invariant
                    j <= self.edges@.len(),
                    self.health == old(self).health,
                    self.edges@.len() == before.len(),
                    forall|k: int| 0 <= k < j ==> self.edges@[k]@ == with_state(before[k], st),
                    forall|k: int| j <= k < before.len() ==> self.edges@[k]@ == before[k],
                decreases self.edges@.len() - j,
            {
                if self.edges[j].object_id == st.object_id && self.edges[j].object_type == st.object_type {
                    let mut e = self.edges.remove(j);
                    e.retention_state = st.retention_state;
                    e.is_current = st.is_current;
                    if st.observed_at > e.last_seen_at {
                        e.last_seen_at = st.observed_at;
                    }
                    self.edges.insert(j, e);
                }
                j = j + 1;
            }
            proof {
                assert(models(self.edges@) =~= apply_state(before, st));
                assert forall|a: int, b: int| 0 <= a < self.edges@.len() && 0 <= b < self.edges@.len() && a != b
                    implies !same_edge(#[trigger] models(self.edges@)[a], #[trigger] models(self.edges@)[b]) by {
                    assert(!same_edge(before[a], before[b]));
                }
            }
            i = i + 1;
        }
        proof {
            assert(states@.take(i as int) =~= states@);
        }
    }

    /// The counter of an entity's edges of a relation to an object type; none
    /// when there are no such edges.
    pub fn counter(&self, key: &RetrievalStatsCounterKey) -> (r: Option<RetrievalStatsCounter>)
        ensures
            counter_of(r, self.edges_view(), key_selects(*key)),
            r == counter_value(self.edges_view(), key_selects(*key)),
    {
        count_edges(&self.edges, Some(*key), key.relation_kind, key.object_type)
    }

    /// The counter of all entities' edges of a relation to an object type; none when
    /// there are no such edges.
    pub fn global_counter(&self, relation_kind: RelationType, object_type: ObjectType) -> (r: Option<RetrievalStatsCounter>)
        ensures
            counter_of(r, self.edges_view(), pair_selects(relation_kind, object_type)),
            r == counter_value(self.edges_view(), pair_selects(relation_kind, object_type)),
    {
        count_edges(&self.edges, None, relation_kind, object_type)
    }

    /// The recorded edge with this key, if any.
    pub fn edge_with_key(&self, key: &str) -> (r: Option<RetrievalStatsEdge>)
        ensures
            match r {
                Some(e) => exists|i: int| 0 <= i < self.edges_view().len() && self.edges_view()[i] == e@ && e.edge_key@ == key@,
                None => forall|i: int| 0 <= i < self.edges_view().len() ==> (#[trigger] self.edges_view()[i]).key != key@,
            },
    {
        let mut i: usize = 0;
        while i < self.edges.len()
            invariant
                i <= self.edges@.len(),
                forall|j: int| 0 <= j < i ==> (#[trigger] models(self.edges@)[j]).key != key@,
            decreases self.edges@.len() - i,
        {
            if crate::text::str_eq(self.edges[i].edge_key.as_str(), key) {
                let e = self.edges[i].duplicate();
                proof {
                    assert(models(self.edges@)[i as int] == e@);
                }
                return Some(e);
            }
            i = i + 1;
        }
        None
    }

    /// The health marker.
    pub fn health(&self) -> (h: RetrievalStatsHealth)
        ensures
            h == self.health_view(),
    {
        self.health.duplicate()
    }

    /// Marks the statistics unhealthy with `message`; the edges stay.
    pub fn mark_unhealthy(&mut self, message: String)
        requires
            old(self).wf(),
        ensures
            final(self).wf(),
            final(self).edges_view() == old(self).edges_view(),
            final(self).health_view().state == RetrievalStatsHealthState::Unhealthy,
            final(self).health_view().last_error_message == Some(message),
    {
        self.health = RetrievalStatsHealth { state: RetrievalStatsHealthState::Unhealthy, last_error_message: Some(message) };
    }
}

/// Every counter has no more current than active edges and no more active edges
/// than edges.
pub proof fn law_counter_ordering(es: Seq<EdgeModel>, sel: spec_fn(EdgeModel) -> bool)
    ensures
        tally(es, sel).2 <= tally(es, sel).1 <= tally(es, sel).0,
{
    lemma_tally_bounds(es, sel);
}

proof fn lemma_apply_state_keeps_last_seen(es: Seq<EdgeModel>, st: RetrievalStatsObjectState)
    ensures
        apply_state(es, st).len() == es.len(),
        forall|i: int| 0 <= i < es.len() ==> apply_state(es, st)[i].last_seen_at >= #[trigger] es[i].last_seen_at
            && same_edge(apply_state(es, st)[i], es[i]) && apply_state(es, st)[i].first_seen_at == es[i].first_seen_at,
{
}

/// Writing object states never moves an edge's last sighting back, and keeps every
/// edge's identity and first sighting.
pub proof fn law_object_states_keep_last_seen(es: Seq<EdgeModel>, sts: Seq<RetrievalStatsObjectState>)
    ensures
        apply_states(es, sts).len() == es.len(),
        forall|i: int| 0 <= i < es.len() ==> apply_states(es, sts)[i].last_seen_at >= #[trigger] es[i].last_seen_at
            && same_edge(apply_states(es, sts)[i], es[i]) && apply_states(es, sts)[i].first_seen_at == es[i].first_seen_at,
    decreases sts.len(),
{
    if sts.len() > 0 {
        law_object_states_keep_last_seen(es, sts.drop_last());
        let mid = apply_states(es, sts.drop_last());
        lemma_apply_state_keeps_last_seen(mid, sts.last());
        assert forall|i: int| 0 <= i < es.len() implies apply_states(es, sts)[i].last_seen_at >= #[trigger] es[i].last_seen_at
            && same_edge(apply_states(es, sts)[i], es[i]) && apply_states(es, sts)[i].first_seen_at == es[i].first_seen_at by {
            assert(mid[i].last_seen_at >= es[i].last_seen_at);
        }
    }
}

/// Whether the edge with the identity of `e` is recorded and already absorbed `e`.
pub open spec fn absorbed(es: Seq<EdgeModel>, e: EdgeModel) -> bool {
    find_edge(es, e) matches Some(i) && merged(es[i], e) == es[i]
}

proof fn lemma_merge_absorbs(x: EdgeModel, e: EdgeModel)
    ensures
        merged(merged(x, e), e) == merged(x, e),
        merged(e, e) == e,
{
}

proof fn lemma_merge_keeps_absorbed(x: EdgeModel, e: EdgeModel, f: EdgeModel)
    requires
        merged(x, f) == x,
    ensures
        merged(merged(x, e), f) == merged(x, e),
{
    assert(x.first_seen_at <= f.first_seen_at);
    assert(x.last_seen_at >= f.last_seen_at);
    assert(retention_rank(x.retention_state) >= retention_rank(f.retention_state));
}

proof fn lemma_find_after_update(es: Seq<EdgeModel>, i: int, y: EdgeModel, f: EdgeModel)
    requires
        0 <= i < es.len(),
        same_edge(y, es[i]),
    ensures
        find_edge(es.update(i, y), f) == find_edge(es, f),
    decreases es.len(),
{
    let u = es.update(i, y);
    if i == es.len() - 1 {
        assert(u.drop_last() =~= es.drop_last());
    } else {
        assert(u.drop_last() =~= es.drop_last().update(i, y));
        lemma_find_after_update(es.drop_last(), i, y, f);
    }
}

proof fn lemma_insert_absorbs(es: Seq<EdgeModel>, e: EdgeModel, f: EdgeModel)
    ensures
        absorbed(insert_edge_spec(es, e), e),
        absorbed(es, f) ==> absorbed(insert_edge_spec(es, e), f),
{
    lemma_find_edge(es, e);
    lemma_find_edge(es, f);
    lemma_merge_absorbs(e, e);
    match find_edge(es, e) {
        Some(i) => {
            lemma_merge_absorbs(es[i], e);
            let y = merged(es[i], e);
            lemma_find_after_update(es, i, y, e);
            lemma_find_after_update(es, i, y, f);
            if absorbed(es, f) {
                let j = find_edge(es, f)->0;
                if j == i {
                    lemma_merge_keeps_absorbed(es[j], e, f);
                }
            }
        },
        None => {
            assert(es.push(e).drop_last() =~= es);
            if absorbed(es, f) {
                let j = find_edge(es, f)->0;
                assert(find_edge(es.push(e), f) == Some(j));
                assert(es.push(e)[j] == es[j]);
            }
        },
    }
}

proof fn lemma_insert_all_absorbs(es: Seq<EdgeModel>, inc: Seq<EdgeModel>, f: EdgeModel)
    ensures
        forall|k: int| 0 <= k < inc.len() ==> absorbed(insert_edges_spec(es, inc), #[trigger] inc[k]),
        absorbed(es, f) ==> absorbed(insert_edges_spec(es, inc), f),
    decreases inc.len(),
{
    if inc.len() > 0 {
        let mid = insert_edges_spec(es, inc.drop_last());
        lemma_insert_all_absorbs(es, inc.drop_last(), f);
        lemma_insert_absorbs(mid, inc.last(), f);
        assert forall|k: int| 0 <= k < inc.len() implies absorbed(insert_edges_spec(es, inc), #[trigger] inc[k]) by {
            if k < inc.len() - 1 {
                lemma_insert_all_absorbs(es, inc.drop_last(), inc[k]);
                assert(inc.drop_last()[k] == inc[k]);
                lemma_insert_absorbs(mid, inc.last(), inc[k]);
            }
        }
    }
}

proof fn lemma_reinsert(es: Seq<EdgeModel>, inc: Seq<EdgeModel>)
    requires
        forall|k: int| 0 <= k < inc.len() ==> absorbed(es, #[trigger] inc[k]),
    ensures
        insert_edges_spec(es, inc) == es,
    decreases inc.len(),
{
    if inc.len() > 0 {
        assert forall|k: int| 0 <= k < inc.drop_last().len() implies absorbed(es, #[trigger] inc.drop_last()[k]) by {
            assert(inc.drop_last()[k] == inc[k]);
        }
        lemma_reinsert(es, inc.drop_last());
        assert(absorbed(es, inc[inc.len() - 1]));
        lemma_find_edge(es, inc.last());
        let i = find_edge(es, inc.last())->0;
        assert(es.update(i, merged(es[i], inc.last())) =~= es);
    }
}

/// Recording the same edges again changes nothing: every repeated sighting is
/// already merged into its edge.
pub proof fn law_record_edges_idempotent(es: Seq<EdgeModel>, inc: Seq<EdgeModel>)
    ensures
        insert_edges_spec(insert_edges_spec(es, inc), inc) == insert_edges_spec(es, inc),
{
    let once = insert_edges_spec(es, inc);
    lemma_insert_all_absorbs(es, inc, inc[0]);
    lemma_reinsert(once, inc);
}

/// Inserts `x` after every edge whose key does not order after its key.
pub open spec fn insert_by_text(s: Seq<EdgeModel>, x: EdgeModel) -> Seq<EdgeModel>
    decreases s.len(),
{
    if s.len() == 0 {
        seq![x]
    } else if text_lt(x.key, s.last().key) {
        insert_by_text(s.drop_last(), x).push(s.last())
    } else {
        s.push(x)
    }
}

/// Edges stably sorted by key.
pub open spec fn sort_by_text(s: Seq<EdgeModel>) -> Seq<EdgeModel>
    decreases s.len(),
{
    if s.len() == 0 {
        seq![]
    } else {
        insert_by_text(sort_by_text(s.drop_last()), s.last())
    }
}

proof fn lemma_insert_text_at(s: Seq<EdgeModel>, x: EdgeModel, j: int)
    requires
        0 <= j <= s.len(),
        forall|k: int| j <= k < s.len() ==> text_lt(x.key, #[trigger] s[k].key),
        j == 0 || !text_lt(x.key, s[j - 1].key),
    ensures
        insert_by_text(s, x) == s.take(j).push(x) + s.skip(j),
    decreases s.len(),
{
    if s.len() == 0 {
        assert(s.take(j).push(x) + s.skip(j) =~= seq![x]);
    } else if text_lt(x.key, s.last().key) {
        lemma_insert_text_at(s.drop_last(), x, j);
        assert(s.drop_last().take(j) =~= s.take(j));
        assert((s.drop_last().take(j).push(x) + s.drop_last().skip(j)).push(s.last()) =~= s.take(j).push(x)
            + s.skip(j));
    } else {
        assert(s.take(j).push(x) + s.skip(j) =~= s.push(x));
    }
}

/// Sorts edges stably by key.
pub fn sort_edges_by_key(items: Vec<RetrievalStatsEdge>) -> (r: Vec<RetrievalStatsEdge>)
    ensures
        models(r@) == sort_by_text(models(items@)),
{
    let ghost orig = models(items@);
    let n = items.len();
    let mut v = items;
    let mut i: usize = 0;
    assert(orig.take(0) =~= Seq::<EdgeModel>::empty());
    assert(models(v@).skip(0) =~= orig);
    while i < n
        invariant
            n == orig.len(),
            v@.len() == n,
            i <= n,
            models(v@).take(i as int) == sort_by_text(orig.take(i as int)),
            models(v@).skip(i as int) == orig.skip(i as int),
        decreases n - i,
    {
        let ghost before = models(v@);
        let ghost sorted = before.take(i as int);
        assert(before[i as int] == orig[i as int]) by {
            assert(before.skip(i as int)[0] == orig.skip(i as int)[0]);
        }
        let x = v.remove(i);
        let ghost removed = models(v@);
        assert(removed.take(i as int) =~= sorted);
        let mut j: usize = i;
        while j > 0 && text_less(x.edge_key.as_str(), v[j - 1].edge_key.as_str())
            invariant
                j <= i,
                i < n,
                v@.len() == n - 1,
                models(v@) == removed,
                removed.take(i as int) == sorted,
                forall|m: int| j <= m < i ==> text_lt(x@.key, #[trigger] sorted[m].key),
            decreases j,
        {
            assert(sorted[j - 1] == removed[j - 1]);
            j = j - 1;
        }
        proof {
            if j > 0 {
                assert(sorted[j - 1] == removed[j - 1]);
            }
            lemma_insert_text_at(sorted, x@, j as int);
            assert(orig.take(i + 1).drop_last() =~= orig.take(i as int));
            assert(orig.take(i + 1).last() == x@);
        }
        v.insert(j, x);
        proof {
            let after = models(v@);
            assert(after.take(i + 1) =~= sorted.take(j as int).push(x@) + sorted.skip(j as int));
            assert forall|m: int| 0 <= m < n - (i + 1) implies #[trigger] after.skip(i + 1)[m] == orig.skip(i + 1)[m] by {
                assert(after[i + 1 + m] == removed[i + m]);
                assert(removed[i + m] == before[i + 1 + m]);
                assert(before.skip(i as int)[m + 1] == orig.skip(i as int)[m + 1]);
            }
            assert(after.skip(i + 1) =~= orig.skip(i + 1));
        }
        i = i + 1;
    }
    proof {
        assert(orig.take(n as int) =~= orig);
        assert(models(v@).take(n as int) =~= models(v@));
    }
    v
}

/// The lifecycle an object was written with, if statistics track it.
pub open spec fn object_state_of(o: MemoryObject) -> Option<RetrievalStatsObjectState> {
    match o {
        MemoryObject::Episode(x) => Some(RetrievalStatsObjectState {
            object_id: x.id,
            object_type: ObjectType::Episode,
            retention_state: x.retention_state,
            is_current: true,
            observed_at: x.created_at,
        }),
        MemoryObject::Observation(x) => Some(RetrievalStatsObjectState {
            object_id: x.id,
            object_type: ObjectType::Observation,
            retention_state: x.retention_state,
            is_current: true,
            observed_at: x.created_at,
        }),
        MemoryObject::DerivedMemory(x) => Some(RetrievalStatsObjectState {
            object_id: x.id,
            object_type: ObjectType::DerivedMemory,
            retention_state: x.retention_state,
            is_current: x.is_current,
            observed_at: x.updated_at,
        }),
        _ => None,
    }
}

/// The lifecycle an object was written with: episodes and observations are always
/// current, derived memories carry their own currentness; other objects have none.
pub fn object_state(o: &MemoryObject) -> (r: Option<RetrievalStatsObjectState>)
    ensures
        r == object_state_of(*o),
{
    match o {
        MemoryObject::Episode(x) => Some(RetrievalStatsObjectState {
            object_id: x.id,
            object_type: ObjectType::Episode,
            retention_state: x.retention_state,
            is_current: true,
            observed_at: x.created_at,
        }),
        MemoryObject::Observation(x) => Some(RetrievalStatsObjectState {
            object_id: x.id,
            object_type: ObjectType::Observation,
            retention_state: x.retention_state,
            is_current: true,
            observed_at: x.created_at,
        }),
        MemoryObject::DerivedMemory(x) => Some(RetrievalStatsObjectState {
            object_id: x.id,
            object_type: ObjectType::DerivedMemory,
            retention_state: x.retention_state,
            is_current: x.is_current,
            observed_at: x.updated_at,
        }),
        _ => None,
    }
}

/// The object states of the objects that have one, in order.
pub open spec fn object_states_of(objs: Seq<MemoryObject>) -> Seq<RetrievalStatsObjectState>
    decreases objs.len(),
{
    if objs.len() == 0 {
        seq![]
    } else {
        let rest = object_states_of(objs.drop_last());
        match object_state_of(objs.last()) {
            Some(st) => rest.push(st),
            None => rest,
        }
    }
}

/// The object states of the written objects that have one, in order.
pub fn retrieval_stats_object_states(objects: &Vec<MemoryObject>) -> (r: Vec<RetrievalStatsObjectState>)
    ensures
        r@ == object_states_of(objects@),
{
    let mut out: Vec<RetrievalStatsObjectState> = Vec::new();
    let mut i: usize = 0;
    proof {
        assert(objects@.take(0) =~= Seq::<MemoryObject>::empty());
    }
    while i < objects.len()
        invariant
            i <= objects@.len(),
            out@ == object_states_of(objects@.take(i as int)),
        decreases objects@.len() - i,
    {
        proof {
            assert(objects@.take(i + 1).drop_last() =~= objects@.take(i as int));
            assert(objects@.take(i + 1).last() == objects@[i as int]);
        }
        match object_state(&objects[i]) {
            Some(st) => out.push(st),
            None => {},
        }
        i = i + 1;
    }
    proof {
        assert(objects@.take(i as int) =~= objects@);
    }
    out
}

/// The lifecycle of an object by the last state written for it, or active and
/// current when none was.
pub open spec fn lifecycle_of(states: Seq<RetrievalStatsObjectState>, id: MemoryId, t: ObjectType) -> (RetentionState, bool)
    decreases states.len(),
{
    if states.len() == 0 {
        (RetentionState::Active, true)
    } else if states.last().object_id == id && states.last().object_type == t {
        (states.last().retention_state, states.last().is_current)
    } else {
        lifecycle_of(states.drop_last(), id, t)
    }
}

/// The lifecycle of an object by the last state written for it.
pub fn edge_lifecycle(object_id: MemoryId, object_type: ObjectType, states: &Vec<RetrievalStatsObjectState>) -> (r: (RetentionState, bool))
    ensures
        r == lifecycle_of(states@, object_id, object_type),
{
    let mut i: usize = states.len();
    proof {
        assert(states@.take(i as int) =~= states@);
    }
    while i > 0
        invariant
            i <= states@.len(),
            lifecycle_of(states@, object_id, object_type) == lifecycle_of(states@.take(i as int), object_id, object_type),
        decreases i,
    {
        let st = states[i - 1];
        proof {
            assert(states@.take(i as int).drop_last() =~= states@.take(i - 1));
            assert(states@.take(i as int).last() == st);
        }
        if st.object_id == object_id && st.object_type == object_type {
            return (st.retention_state, st.is_current);
        }
        i = i - 1;
    }
    (RetentionState::Active, true)
}

/// The edges an object implies on its own: an episode involves its keyed scene
/// participants; a derived memory is about its notion subjects.
pub open spec fn intrinsic_models(o: MemoryObject) -> Seq<EdgeModel> {
    match o {
        MemoryObject::Episode(x) => participant_keys_of(x.scene.participants@).map_values(
            |k: MemoryId| edge_model(k, RelationType::Involves, x.id, ObjectType::Episode, x.retention_state, true, x.created_at),
        ),
        MemoryObject::DerivedMemory(x) => x.entity_ids@.map_values(
            |k: MemoryId| edge_model(k, RelationType::About, x.id, ObjectType::DerivedMemory, x.retention_state, x.is_current, x.created_at),
        ),
        _ => seq![],
    }
}

/// The edges a link implies: from each entity end to the other end, unless that
/// end is a link, with the other end's lifecycle.
pub open spec fn link_models(l: MemoryLink, states: Seq<RetrievalStatsObjectState>) -> Seq<EdgeModel> {
    let fwd = lifecycle_of(states, l.to_id, l.to_type);
    let back = lifecycle_of(states, l.from_id, l.from_type);
    let a = if l.from_type == ObjectType::Entity && l.to_type != ObjectType::MemoryLink {
        seq![edge_model(l.from_id, l.relation, l.to_id, l.to_type, fwd.0, fwd.1, l.created_at)]
    } else {
        seq![]
    };
    let b = if l.to_type == ObjectType::Entity && l.from_type != ObjectType::MemoryLink {
        seq![edge_model(l.to_id, l.relation, l.from_id, l.from_type, back.0, back.1, l.created_at)]
    } else {
        seq![]
    };
    a + b
}

/// The edges the objects imply, object by object.
pub open spec fn objects_models(objs: Seq<MemoryObject>) -> Seq<EdgeModel>
    decreases objs.len(),
{
    if objs.len() == 0 {
        seq![]
    } else {
        objects_models(objs.drop_last()) + intrinsic_models(objs.last())
    }
}

/// The edges the links imply, link by link.
pub open spec fn links_models(links: Seq<MemoryLink>, states: Seq<RetrievalStatsObjectState>) -> Seq<EdgeModel>
    decreases links.len(),
{
    if links.len() == 0 {
        seq![]
    } else {
        links_models(links.drop_last(), states) + link_models(links.last(), states)
    }
}

/// The statistics edges of a write: every implied edge, merged by key, sorted by key.
pub open spec fn derived_edges(objs: Seq<MemoryObject>, links: Seq<MemoryLink>, states: Seq<RetrievalStatsObjectState>) -> Seq<EdgeModel> {
    sort_by_text(insert_edges_spec(seq![], objects_models(objs) + links_models(links, states)))
}

proof fn lemma_insert_edges_append(es: Seq<EdgeModel>, a: Seq<EdgeModel>, b: Seq<EdgeModel>)
    ensures
        insert_edges_spec(es, a + b) == insert_edges_spec(insert_edges_spec(es, a), b),
    decreases b.len(),
{
    if b.len() == 0 {
        assert(a + b =~= a);
    } else {
        lemma_insert_edges_append(es, a, b.drop_last());
        assert((a + b).drop_last() =~= a + b.drop_last());
        assert((a + b).last() == b.last());
    }
}

fn insert_edge_list(edges: &mut Vec<RetrievalStatsEdge>, more: Vec<RetrievalStatsEdge>)
    requires
        edges_distinct(models(old(edges)@)),
    ensures
        edges_distinct(models(final(edges)@)),
        models(final(edges)@) == insert_edges_spec(models(old(edges)@), models(more@)),
{
    let ghost inc = models(more@);
    let mut rest = more;
    let ghost mut k: int = 0;
    proof {
        assert(inc.take(0) =~= Seq::<EdgeModel>::empty());
        assert(inc.skip(0) =~= inc);
    }
    while rest.len() > 0
        invariant
            0 <= k <= inc.len(),
            models(rest@) == inc.skip(k),
            edges_distinct(models(edges@)),
            models(edges@) == insert_edges_spec(models(old(edges)@), inc.take(k)),
        decreases rest@.len(),
    {
        let ghost old_rest = rest@;
        proof {
            assert(models(old_rest).len() == old_rest.len());
            assert(inc.skip(k).len() > 0);
        }
        let e = rest.remove(0);
        proof {
            assert(e == old_rest[0]);
            assert(models(old_rest)[0] == e@);
            assert(inc.skip(k)[0] == inc[k]);
            assert(inc.take(k + 1).drop_last() =~= inc.take(k));
            assert(inc.take(k + 1).last() == e@);
        }
        insert_edge(edges, e);
        proof {
            assert forall|m: int| 0 <= m < rest@.len() implies #[trigger] models(rest@)[m] == inc.skip(k + 1)[m] by {
                assert(rest@[m] == old_rest[m + 1]);
                assert(models(old_rest)[m + 1] == inc.skip(k)[m + 1]);
            }
            assert(models(rest@) =~= inc.skip(k + 1));
            k = k + 1;
        }
    }
    proof {
        assert(inc.take(k) =~= inc);
    }
}

/// Adds the edges an object implies on its own.
pub fn append_intrinsic_edges(edges: &mut Vec<RetrievalStatsEdge>, o: &MemoryObject)
    requires
        edges_distinct(models(old(edges)@)),
    ensures
        edges_distinct(models(final(edges)@)),
        models(final(edges)@) == insert_edges_spec(models(old(edges)@), intrinsic_models(*o)),
{
    let mut more: Vec<RetrievalStatsEdge> = Vec::new();
    match o {
        MemoryObject::Episode(x) => {
            let keys = x.scene.participant_keys();
            let mut i: usize = 0;
            while i < keys.len()
                invariant
                    i <= keys@.len(),
                    keys@ == participant_keys_of(x.scene.participants@),
                    models(more@) == keys@.take(i as int).map_values(
                        |k: MemoryId| edge_model(k, RelationType::Involves, x.id, ObjectType::Episode, x.retention_state, true, x.created_at),
                    ),
                decreases keys@.len() - i,
            {
                let e = edge(keys[i], RelationType::Involves, x.id, ObjectType::Episode, x.retention_state, true, x.created_at);
                let ghost old_v = more@;
                more.push(e);
                proof {
                    assert(keys@.take(i + 1) =~= keys@.take(i as int).push(keys@[i as int]));
                    assert(more@ == old_v.push(e));
                    assert(models(more@) =~= models(old_v).push(e@));
                    assert(models(more@) =~= keys@.take(i + 1).map_values(
                        |k: MemoryId| edge_model(k, RelationType::Involves, x.id, ObjectType::Episode, x.retention_state, true, x.created_at),
                    ));
                }
                i = i + 1;
            }
            proof {
                assert(keys@.take(i as int) =~= keys@);
            }
        },
        MemoryObject::DerivedMemory(x) => {
            let mut i: usize = 0;
            while i < x.entity_ids.len()
                invariant
                    i <= x.entity_ids@.len(),
                    models(more@) == x.entity_ids@.take(i as int).map_values(
                        |k: MemoryId| edge_model(k, RelationType::About, x.id, ObjectType::DerivedMemory, x.retention_state, x.is_current, x.created_at),
                    ),
                decreases x.entity_ids@.len() - i,
            {
                let e = edge(x.entity_ids[i], RelationType::About, x.id, ObjectType::DerivedMemory, x.retention_state, x.is_current, x.created_at);
                let ghost old_v = more@;
                more.push(e);
                proof {
                    assert(x.entity_ids@.take(i + 1) =~= x.entity_ids@.take(i as int).push(x.entity_ids@[i as int]));
                    assert(more@ == old_v.push(e));
                    assert(models(more@) =~= models(old_v).push(e@));
                    assert(models(more@) =~= x.entity_ids@.take(i + 1).map_values(
                        |k: MemoryId| edge_model(k, RelationType::About, x.id, ObjectType::DerivedMemory, x.retention_state, x.is_current, x.created_at),
                    ));
                }
                i = i + 1;
            }
            proof {
                assert(x.entity_ids@.take(i as int) =~= x.entity_ids@);
            }
        },
        _ => {
            proof {
                assert(models(more@) =~= Seq::<EdgeModel>::empty());
            }
        },
    }
    insert_edge_list(edges, more);
}

/// Adds the edges a link implies, with the lifecycle of its other end.
pub fn append_link_edges(edges: &mut Vec<RetrievalStatsEdge>, link: &MemoryLink, states: &Vec<RetrievalStatsObjectState>)
    requires
        edges_distinct(models(old(edges)@)),
    ensures
        edges_distinct(models(final(edges)@)),
        models(final(edges)@) == insert_edges_spec(models(old(edges)@), link_models(*link, states@)),
{
    let mut more: Vec<RetrievalStatsEdge> = Vec::new();
    if link.from_type == ObjectType::Entity && link.to_type != ObjectType::MemoryLink {
        let (retention, current) = edge_lifecycle(link.to_id, link.to_type, states);
        more.push(edge(link.from_id, link.relation, link.to_id, link.to_type, retention, current, link.created_at));
    }
    let ghost first = models(more@);
    if link.to_type == ObjectType::Entity && link.from_type != ObjectType::MemoryLink {
        let (retention, current) = edge_lifecycle(link.from_id, link.from_type, states);
        more.push(edge(link.to_id, link.relation, link.from_id, link.from_type, retention, current, link.created_at));
    }
    proof {
        assert(models(more@) =~= link_models(*link, states@));
    }
    insert_edge_list(edges, more);
}

/// The statistics edges of written objects and links, given the written object
/// states: every implied edge merged by key, sorted by key.
pub fn retrieval_stats_edges_with_states(
    objects: &Vec<MemoryObject>,
    links: &Vec<MemoryLink>,
    states: &Vec<RetrievalStatsObjectState>,
) -> (r: Vec<RetrievalStatsEdge>)
    ensures
        models(r@) == derived_edges(objects@, links@, states@),
{
    let mut edges: Vec<RetrievalStatsEdge> = Vec::new();
    let ghost om = objects_models(objects@);
    let mut i: usize = 0;
    proof {
        assert(objects@.take(0) =~= Seq::<MemoryObject>::empty());
        assert(models(edges@) =~= Seq::<EdgeModel>::empty());
    }
    while i < objects.len()
        invariant
            i <= objects@.len(),
            edges_distinct(models(edges@)),
            models(edges@) == insert_edges_spec(seq![], objects_models(objects@.take(i as int))),
        decreases objects@.len() - i,
    {
        let ghost before = models(edges@);
        append_intrinsic_edges(&mut edges, &objects[i]);
        proof {
            assert(objects@.take(i + 1).drop_last() =~= objects@.take(i as int));
            assert(objects@.take(i + 1).last() == objects@[i as int]);
            lemma_insert_edges_append(seq![], objects_models(objects@.take(i as int)), intrinsic_models(objects@[i as int]));
        }
        i = i + 1;
    }
    proof {
        assert(objects@.take(i as int) =~= objects@);
    }
    let mut j: usize = 0;
    proof {
        assert(links@.take(0) =~= Seq::<MemoryLink>::empty());
        assert(om + links_models(links@.take(0), states@) =~= om);
    }
    while j < links.len()
        invariant
            j <= links@.len(),
            om == objects_models(objects@),
            edges_distinct(models(edges@)),
            models(edges@) == insert_edges_spec(seq![], om + links_models(links@.take(j as int), states@)),
        decreases links@.len() - j,
    {
        append_link_edges(&mut edges, &links[j], states);
        proof {
            assert(links@.take(j + 1).drop_last() =~= links@.take(j as int));
            assert(links@.take(j + 1).last() == links@[j as int]);
            let lm = links_models(links@.take(j as int), states@);
            lemma_insert_edges_append(seq![], om + lm, link_models(links@[j as int], states@));
            assert(om + lm + link_models(links@[j as int], states@) =~= om + links_models(links@.take(j + 1), states@));
        }
        j = j + 1;
    }
    proof {
        assert(links@.take(j as int) =~= links@);
    }
    sort_edges_by_key(edges)
}

/// The statistics edges of written objects and links, with the lifecycle the
/// objects themselves were written with.
pub fn retrieval_stats_edges(objects: &Vec<MemoryObject>, links: &Vec<MemoryLink>) -> (r: Vec<RetrievalStatsEdge>)
    ensures
        models(r@) == derived_edges(objects@, links@, object_states_of(objects@)),
{
    let states = retrieval_stats_object_states(objects);
    retrieval_stats_edges_with_states(objects, links, &states)
}

/// Records the statistics of a write: its edges first, then, when there are any,
/// its object states.
pub fn record_stats_after_write(store: &mut InMemoryRetrievalStatsStore, objects: &Vec<MemoryObject>, links: &Vec<MemoryLink>)
    requires
        old(store).wf(),
    ensures
        final(store).wf(),
        final(store).edges_view() == apply_states(
            insert_edges_spec(old(store).edges_view(), derived_edges(objects@, links@, object_states_of(objects@))),
            object_states_of(objects@),
        ),
        final(store).health_view() == old(store).health_view(),
{
    let states = retrieval_stats_object_states(objects);
    let edges = retrieval_stats_edges_with_states(objects, links, &states);
    store.record_edges(&edges);
    if states.len() == 0 {
        return;
    }
    store.record_object_states(&states);
}

/// The change of a 0/1 indicator from `old` to `new`.
pub open spec fn indicator_delta(old: bool, new: bool) -> int {
    (if new { 1int } else { 0int }) - (if old { 1int } else { 0int })
}

/// The change of a 0/1 indicator from `old` to `new`: 1, -1 or 0.
pub fn bool_delta(old: bool, new: bool) -> (d: i64)
    ensures
        d == indicator_delta(old, new),
{
    match (old, new) {
        (false, true) => 1,
        (true, false) => -1,
        _ => 0,
    }
}

/// A flag as the integer 0 or 1.
pub fn bool_int(value: bool) -> (i: i64)
    ensures
        i == (if value { 1int } else { 0int }),
{
    if value {
        1
    } else {
        0
    }
}

/// The retention state a persisted key names; any other text reads as active.
pub open spec fn retention_of_key(value: Seq<char>) -> RetentionState {
    if value == "suppressed"@ {
        RetentionState::Suppressed
    } else if value == "archived"@ {
        RetentionState::Archived
    } else if value == "deleted"@ {
        RetentionState::Deleted
    } else {
        RetentionState::Active
    }
}

/// The retention state a persisted key names; any other text reads as active.
pub fn retention_from_key(value: &str) -> (r: RetentionState)
    ensures
        r == retention_of_key(value@),
{
    proof {
        reveal_strlit("suppressed");
        reveal_strlit("archived");
        reveal_strlit("deleted");
    }
    if crate::text::str_eq(value, "suppressed") {
        RetentionState::Suppressed
    } else if crate::text::str_eq(value, "archived") {
        RetentionState::Archived
    } else if crate::text::str_eq(value, "deleted") {
        RetentionState::Deleted
    } else {
        RetentionState::Active
    }
}

/// The restrictiveness rank of the retention state a persisted key names.
pub fn retention_key_rank(value: &str) -> (r: u8)
    ensures
        r == retention_rank(retention_of_key(value@)),
{
    retention_from_key(value).restrictiveness_rank()
}

/// The more restrictive of a persisted retention and an incoming one (the persisted
/// one on a tie).
pub fn more_restrictive_retention_key(existing: &str, incoming: RetentionState) -> (r: RetentionState)
    ensures
        r == stricter(retention_of_key(existing@), incoming),
{
    if incoming.restrictiveness_rank() > retention_key_rank(existing) {
        incoming
    } else {
        retention_from_key(existing)
    }
}

/// A persisted count read back: none when it is negative.
pub fn non_negative_count(value: i64) -> (r: Option<u64>)
    ensures
        value >= 0 ==> r == Some(value as u64),
        value < 0 ==> r is None,
{
    if value >= 0 {
        Some(value as u64)
    } else {
        None
    }
}

/// How one persisted edge changes: its new lifecycle and the changes of its
/// counter's total, active and current counts.
#[derive(Debug, Clone, Copy, PartialEq, Eq, Structural)]
pub struct EdgeCountChange {
    pub retention_state: RetentionState,
    pub is_current: bool,
    pub total_delta: i64,
    pub active_delta: i64,
    pub current_delta: i64,
}

/// Whether `c` moves an edge from one lifecycle to another, changing the total by `total`.
pub open spec fn counts_move(c: EdgeCountChange, old_active: bool, old_current: bool, total: int) -> bool {
    let new_active = c.retention_state == RetentionState::Active;
    &&& c.total_delta == total
    &&& c.active_delta == indicator_delta(old_active, new_active)
    &&& c.current_delta == indicator_delta(old_active && old_current, new_active && c.is_current)
}

/// How recording `edge` changes the persisted edge with its key, if any (its
/// persisted retention key and currentness): a new edge counts once; a known one
/// takes the more restrictive retention and stays current only if both are.
pub fn edge_upsert_change(existing: Option<(&str, bool)>, edge: &RetrievalStatsEdge) -> (c: EdgeCountChange)
    ensures
        match existing {
            Some((old_retention, old_current)) => {
                &&& c.retention_state == stricter(retention_of_key(old_retention@), edge.retention_state)
                &&& c.is_current == (old_current && edge.is_current)
                &&& counts_move(c, old_retention@ == "active"@, old_current, 0)
            },
            None => {
                &&& c.retention_state == edge.retention_state
                &&& c.is_current == edge.is_current
                &&& counts_move(c, false, false, 1)
            },
        },
{
    proof {
        reveal_strlit("active");
    }
    match existing {
        Some((old_retention, old_current)) => {
            let old_active = crate::text::str_eq(old_retention, "active");
            let retention = more_restrictive_retention_key(old_retention, edge.retention_state);
            let is_current = old_current && edge.is_current;
            let new_active = retention == RetentionState::Active;
            EdgeCountChange {
                retention_state: retention,
                is_current,
                total_delta: 0,
                active_delta: bool_delta(old_active, new_active),
                current_delta: bool_delta(old_active && old_current, new_active && is_current),
            }
        },
        None => {
            let active = edge.is_active();
            EdgeCountChange {
                retention_state: edge.retention_state,
                is_current: edge.is_current,
                total_delta: 1,
                active_delta: bool_int(active),
                current_delta: bool_int(active && edge.is_current),
            }
        },
    }
}

/// How a written object state changes a persisted edge to the object (its persisted
/// retention key and currentness): the edge takes the state's lifecycle.
pub fn object_state_change(old_retention: &str, old_current: bool, state: &RetrievalStatsObjectState) -> (c: EdgeCountChange)
    ensures
        c.retention_state == state.retention_state,
        c.is_current == state.is_current,
        counts_move(c, old_retention@ == "active"@, old_current, 0),
{
    proof {
        reveal_strlit("active");
    }
    let old_active = crate::text::str_eq(old_retention, "active");
    let new_active = state.retention_state == RetentionState::Active;
    EdgeCountChange {
        retention_state: state.retention_state,
        is_current: state.is_current,
        total_delta: 0,
        active_delta: bool_delta(old_active, new_active),
        current_delta: bool_delta(old_active && old_current, new_active && state.is_current),
    }
}

/// The contribution of one edge to the counts of the selected edges.
pub open spec fn contribution(e: EdgeModel, sel: spec_fn(EdgeModel) -> bool) -> (int, int, int) {
    if sel(e) {
        (
            1,
            if e.retention_state == RetentionState::Active { 1 } else { 0 },
            if e.retention_state == RetentionState::Active && e.is_current { 1 } else { 0 },
        )
    } else {
        (0, 0, 0)
    }
}

proof fn lemma_tally_update(s: Seq<EdgeModel>, i: int, x: EdgeModel, sel: spec_fn(EdgeModel) -> bool)
    requires
        0 <= i < s.len(),
    ensures
        tally(s.update(i, x), sel).0 == tally(s, sel).0 - contribution(s[i], sel).0 + contribution(x, sel).0,
        tally(s.update(i, x), sel).1 == tally(s, sel).1 - contribution(s[i], sel).1 + contribution(x, sel).1,
        tally(s.update(i, x), sel).2 == tally(s, sel).2 - contribution(s[i], sel).2 + contribution(x, sel).2,
    decreases s.len(),
{
    let u = s.update(i, x);
    if i == s.len() - 1 {
        assert(u.drop_last() =~= s.drop_last());
    } else {
        lemma_tally_update(s.drop_last(), i, x, sel);
        assert(u.drop_last() =~= s.drop_last().update(i, x));
        assert(u.last() == s.last());
    }
}

/// Counting incrementally agrees with counting again: recording an edge changes
/// the counts of every counter that selects it by exactly the change a persistent
/// store applies for it (computed from the recorded edge with its identity, if
/// any, as `edge_upsert_change` does), and leaves the other counters as they were.
/// A counter selects edges by entity, relation and object type alone.
pub proof fn law_incremental_counts_match_recount(
    es: Seq<EdgeModel>,
    e: EdgeModel,
    sel: spec_fn(EdgeModel) -> bool,
    c: EdgeCountChange,
)
    requires
        forall|a: EdgeModel, b: EdgeModel|
            a.entity_id == b.entity_id && a.relation_kind == b.relation_kind && a.object_type == b.object_type
                ==> #[trigger] sel(a) == #[trigger] sel(b),
        find_edge(es, e) matches Some(i) ==> sel(es[i]) == sel(e),
        match find_edge(es, e) {
            Some(i) => {
                &&& c.retention_state == stricter(es[i].retention_state, e.retention_state)
                &&& c.is_current == (es[i].is_current && e.is_current)
                &&& counts_move(c, es[i].retention_state == RetentionState::Active, es[i].is_current, 0)
            },
            None => {
                &&& c.retention_state == e.retention_state
                &&& c.is_current == e.is_current
                &&& counts_move(c, false, false, 1)
            },
        },
    ensures
        sel(e) ==> {
            let before = tally(es, sel);
            let after = tally(insert_edge_spec(es, e), sel);
            &&& after.0 == before.0 + c.total_delta
            &&& after.1 == before.1 + c.active_delta
            &&& after.2 == before.2 + c.current_delta
        },
        !sel(e) ==> tally(insert_edge_spec(es, e), sel) == tally(es, sel),
{
    lemma_find_edge(es, e);
    match find_edge(es, e) {
        Some(i) => {
            let m = merged(es[i], e);
            lemma_tally_update(es, i, m, sel);
            assert(sel(m) == sel(es[i]));
            if !sel(e) {
                assert(tally(es.update(i, m), sel) == tally(es, sel));
            }
        },
        None => {
            assert(es.push(e).drop_last() =~= es);
        },
    }
}

/// A retention state's persisted key reads back as that state, and names the
/// active state exactly when the state is active; so a persisted edge's key and
/// currentness give `edge_upsert_change` and `object_state_change` the lifecycle
/// that `law_incremental_counts_match_recount` speaks of.
pub proof fn lemma_retention_key_round_trip(r: RetentionState)
    ensures
        retention_of_key(retention_state_token(r)) == r,
        (retention_state_token(r) == "active"@) <==> (r == RetentionState::Active),
{
    reveal_strlit("active");
    reveal_strlit("suppressed");
    reveal_strlit("archived");
    reveal_strlit("deleted");
    assert("active"@.len() == 6 && "suppressed"@.len() == 10 && "archived"@.len() == 8 && "deleted"@.len() == 7);
    assert("archived"@ != "deleted"@ && "deleted"@ != "archived"@);
}

/// An edge keeps at least what an earlier state of it said: the same identity, a
/// first sighting no later, a last sighting no earlier, a retention at least as
/// restrictive, and current only if it was.
pub open spec fn keeps(new: EdgeModel, old: EdgeModel) -> bool {
    &&& new.key == old.key
    &&& new.first_seen_at <= old.first_seen_at
    &&& new.last_seen_at >= old.last_seen_at
    &&& retention_rank(new.retention_state) >= retention_rank(old.retention_state)
    &&& (new.is_current ==> old.is_current)
}

/// Recording an edge never loses what was recorded: every recorded edge keeps its
/// place and at least what it said (sightings only widen, the lifecycle only
/// becomes more restrictive), and the recorded edges then cover the new sighting.
pub proof fn law_recording_keeps_sightings(es: Seq<EdgeModel>, e: EdgeModel)
    ensures
        insert_edge_spec(es, e).len() >= es.len(),
        forall|j: int| 0 <= j < es.len() ==> keeps(#[trigger] insert_edge_spec(es, e)[j], es[j]),
        exists|j: int| 0 <= j < insert_edge_spec(es, e).len() && {
            let n = #[trigger] insert_edge_spec(es, e)[j];
            &&& n.key == e.key
            &&& n.first_seen_at <= e.first_seen_at
            &&& n.last_seen_at >= e.last_seen_at
            &&& retention_rank(n.retention_state) >= retention_rank(e.retention_state)
            &&& (n.is_current ==> e.is_current)
        },
{
    lemma_find_edge(es, e);
    let r = insert_edge_spec(es, e);
    match find_edge(es, e) {
        Some(i) => {
            assert(keeps(r[i], es[i]));
            assert(r[i].key == e.key);
        },
        None => {
            assert(r[es.len() as int] == e);
            assert forall|j: int| 0 <= j < es.len() implies keeps(#[trigger] r[j], es[j]) by {
                assert(r[j] == es[j]);
            }
        },
    }
}


/// An edge seen again keeps its identity, spans both sightings (the earlier first
/// sighting, the later last one), stays current only if both sightings are current,
/// and takes the more restrictive retention in the order active, archived,
/// suppressed, deleted, whichever sighting carries it.
pub proof fn law_repeated_sighting_is_stricter_and_wider(existing: EdgeModel, incoming: EdgeModel)
    ensures
        ({
            let m = merged(existing, incoming);
            &&& m.key == existing.key && m.entity_id == existing.entity_id && m.relation_kind == existing.relation_kind
            &&& m.object_id == existing.object_id && m.object_type == existing.object_type
            &&& m.first_seen_at <= existing.first_seen_at && m.first_seen_at <= incoming.first_seen_at
            &&& (m.first_seen_at == existing.first_seen_at || m.first_seen_at == incoming.first_seen_at)
            &&& m.last_seen_at >= existing.last_seen_at && m.last_seen_at >= incoming.last_seen_at
            &&& (m.last_seen_at == existing.last_seen_at || m.last_seen_at == incoming.last_seen_at)
            &&& m.is_current <==> (existing.is_current && incoming.is_current)
            &&& m.retention_state == stricter(incoming.retention_state, existing.retention_state)
            &&& (m.retention_state == existing.retention_state || m.retention_state == incoming.retention_state)
            &&& (existing.retention_state == RetentionState::Deleted || incoming.retention_state == RetentionState::Deleted)
                ==> m.retention_state == RetentionState::Deleted
            &&& existing.retention_state == RetentionState::Active ==> m.retention_state == incoming.retention_state
            &&& incoming.retention_state == RetentionState::Active ==> m.retention_state == existing.retention_state
            &&& ((existing.retention_state == RetentionState::Suppressed || incoming.retention_state
                == RetentionState::Suppressed) && existing.retention_state != RetentionState::Deleted
                && incoming.retention_state != RetentionState::Deleted) ==> m.retention_state == RetentionState::Suppressed
        }),
{
}

} // verus!
