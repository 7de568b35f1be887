//! Graph-authority queries and the provider-neutral expansion rules: which derived
//! memories a provenance or thread query selects, which objects lifecycle policy
//! hides, and the bounded breadth-first expansion around a root object.

use vstd::prelude::*;
use crate::domain::{MemoryId, ObjectType, RelationType, RetentionState, ThreadStatus, MemoryObjectRef, object_type_rank, relation_type_rank};
use crate::objects::{MemoryObject, MemoryLink, DerivedMemory, object_id, object_kind};
use crate::seqs::{contains_id, contains_object_type, contains_relation};
use crate::sorting::{SortKey, sort_by_keys, sorted_by_keys};
use crate::errors::CustomError;

verus! {

/// A typed reference to a graph node.
#[derive(Debug, Clone, Copy, PartialEq, Eq, Hash, Structural)]
pub struct GraphObjectRef {
    pub object_id: MemoryId,
    pub object_type: ObjectType,
}

impl GraphObjectRef {
    /// The node `object_id` of type `object_type`.
    pub fn new(object_id: MemoryId, object_type: ObjectType) -> (r: GraphObjectRef)
        ensures
            r.object_id == object_id,
            r.object_type == object_type,
    {
        GraphObjectRef { object_id, object_type }
    }

    /// The graph node that a domain object reference names.
    pub fn from_memory_ref(value: MemoryObjectRef) -> (r: GraphObjectRef)
        ensures
            r.object_id == value.id,
            r.object_type == value.object_type,
    {
        GraphObjectRef { object_id: value.id, object_type: value.object_type }
    }
}

/// Selection of stored objects by reference, identity and type.
#[derive(Debug, Clone, PartialEq, Eq)]
pub struct GraphObjectQuery {
    pub object_refs: Vec<GraphObjectRef>,
    pub object_ids: Vec<MemoryId>,
    pub object_types: Vec<ObjectType>,
    pub limit: Option<usize>,
}

impl GraphObjectQuery {
    /// Objects with any of these identities.
    pub fn by_ids(object_ids: Vec<MemoryId>) -> (r: GraphObjectQuery)
        ensures
            r.object_refs@.len() == 0,
            r.object_ids == object_ids,
            r.object_types@.len() == 0,
            r.limit is None,
    {
        GraphObjectQuery { object_refs: Vec::new(), object_ids, object_types: Vec::new(), limit: None }
    }

    /// Objects with any of these typed references.
    pub fn by_refs(object_refs: Vec<GraphObjectRef>) -> (r: GraphObjectQuery)
        ensures
            r.object_refs == object_refs,
            r.object_ids@.len() == 0,
            r.object_types@.len() == 0,
            r.limit is None,
    {
        GraphObjectQuery { object_refs, object_ids: Vec::new(), object_types: Vec::new(), limit: None }
    }

    /// Objects of any of these types, at most `limit` of them.
    pub fn by_types(object_types: Vec<ObjectType>, limit: Option<usize>) -> (r: GraphObjectQuery)
        ensures
            r.object_refs@.len() == 0,
            r.object_ids@.len() == 0,
            r.object_types == object_types,
            r.limit == limit,
    {
        GraphObjectQuery { object_refs: Vec::new(), object_ids: Vec::new(), object_types, limit }
    }
}

/// Which lifecycle-hidden objects a query still wants to see.
#[derive(Debug, Clone, Copy, PartialEq, Eq, Structural)]
pub struct GraphExpansionLifecyclePolicy {
    pub include_archived: bool,
    pub include_suppressed: bool,
    pub include_deleted: bool,
    pub include_non_current: bool,
    pub include_superseded: bool,
}

impl GraphExpansionLifecyclePolicy {
    /// The default policy: hide everything that is not active, current and unsuperseded.
    pub fn default() -> (r: GraphExpansionLifecyclePolicy)
        ensures
            r == default_lifecycle_policy(),
    {
        GraphExpansionLifecyclePolicy {
            include_archived: false,
            include_suppressed: false,
            include_deleted: false,
            include_non_current: false,
            include_superseded: false,
        }
    }
}

/// The default lifecycle policy.
pub open spec fn default_lifecycle_policy() -> GraphExpansionLifecyclePolicy {
    GraphExpansionLifecyclePolicy {
        include_archived: false,
        include_suppressed: false,
        include_deleted: false,
        include_non_current: false,
        include_superseded: false,
    }
}

/// Derived memories that cite any of the given source episodes or observations.
#[derive(Debug, Clone, PartialEq, Eq)]
pub struct GraphDerivedMemoryProvenanceQuery {
    pub episode_ids: Vec<MemoryId>,
    pub observation_ids: Vec<MemoryId>,
    pub lifecycle_policy: GraphExpansionLifecyclePolicy,
    pub limit: Option<usize>,
}

impl GraphDerivedMemoryProvenanceQuery {
    /// A query for memories derived from these sources, under the default policy, unlimited.
    pub fn by_sources(episode_ids: Vec<MemoryId>, observation_ids: Vec<MemoryId>) -> (r: GraphDerivedMemoryProvenanceQuery)
        ensures
            r.episode_ids == episode_ids,
            r.observation_ids == observation_ids,
            r.lifecycle_policy == default_lifecycle_policy(),
            r.limit is None,
    {
        GraphDerivedMemoryProvenanceQuery {
            episode_ids,
            observation_ids,
            lifecycle_policy: GraphExpansionLifecyclePolicy::default(),
            limit: None,
        }
    }

    /// The same query under another lifecycle policy.
    pub fn with_lifecycle_policy(self, lifecycle_policy: GraphExpansionLifecyclePolicy) -> (r: GraphDerivedMemoryProvenanceQuery)
        ensures
            r == (GraphDerivedMemoryProvenanceQuery { lifecycle_policy, ..self }),
    {
        GraphDerivedMemoryProvenanceQuery { lifecycle_policy, ..self }
    }

    /// The same query returning at most `limit` memories.
    pub fn with_limit(self, limit: usize) -> (r: GraphDerivedMemoryProvenanceQuery)
        ensures
            r == (GraphDerivedMemoryProvenanceQuery { limit: Some(limit), ..self }),
    {
        GraphDerivedMemoryProvenanceQuery { limit: Some(limit), ..self }
    }
}

/// Derived memories that are part of any of the given threads.
#[derive(Debug, Clone, PartialEq, Eq)]
pub struct GraphDerivedMemoryThreadQuery {
    pub thread_ids: Vec<MemoryId>,
    pub lifecycle_policy: GraphExpansionLifecyclePolicy,
    pub limit: Option<usize>,
}

impl GraphDerivedMemoryThreadQuery {
    /// A query for memories in these threads, under the default policy, unlimited.
    pub fn by_threads(thread_ids: Vec<MemoryId>) -> (r: GraphDerivedMemoryThreadQuery)
        ensures
            r.thread_ids == thread_ids,
            r.lifecycle_policy == default_lifecycle_policy(),
            r.limit is None,
    {
        GraphDerivedMemoryThreadQuery {
            thread_ids,
            lifecycle_policy: GraphExpansionLifecyclePolicy::default(),
            limit: None,
        }
    }

    /// The same query under another lifecycle policy.
    pub fn with_lifecycle_policy(self, lifecycle_policy: GraphExpansionLifecyclePolicy) -> (r: GraphDerivedMemoryThreadQuery)
        ensures
            r == (GraphDerivedMemoryThreadQuery { lifecycle_policy, ..self }),
    {
        GraphDerivedMemoryThreadQuery { lifecycle_policy, ..self }
    }

    /// The same query returning at most `limit` memories.
    pub fn with_limit(self, limit: usize) -> (r: GraphDerivedMemoryThreadQuery)
        ensures
            r == (GraphDerivedMemoryThreadQuery { limit: Some(limit), ..self }),
    {
        GraphDerivedMemoryThreadQuery { limit: Some(limit), ..self }
    }
}

/// Why an object is hidden from expansion and queries.
#[derive(Debug, Clone, Copy, PartialEq, Eq, Structural)]
pub enum GraphExpansionFilteredReason {
    Archived,
    Suppressed,
    Deleted,
    NonCurrent,
    Superseded,
}

/// The graph node of an object: its identity and declared type.
pub open spec fn graph_ref_of(o: MemoryObject) -> GraphObjectRef {
    GraphObjectRef { object_id: object_id(o), object_type: object_kind(o) }
}

/// The source endpoint of a link.
pub open spec fn link_from(l: MemoryLink) -> GraphObjectRef {
    GraphObjectRef { object_id: l.from_id, object_type: l.from_type }
}

/// The target endpoint of a link.
pub open spec fn link_to(l: MemoryLink) -> GraphObjectRef {
    GraphObjectRef { object_id: l.to_id, object_type: l.to_type }
}

/// Ordering key of a node: identity, then type rank.
pub open spec fn node_key(r: GraphObjectRef) -> SortKey {
    (r.object_id, 0, 0, object_type_rank(r.object_type), 0, 0)
}

/// Ordering key of an identity.
pub open spec fn id_key(id: MemoryId) -> SortKey {
    (id, 0, 0, 0, 0, 0)
}

/// Ordering key of a link: target, source, link identity, then the ranks.
pub open spec fn link_key(l: MemoryLink) -> SortKey {
    (
        l.to_id,
        l.from_id,
        l.id,
        object_type_rank(l.to_type),
        object_type_rank(l.from_type),
        relation_type_rank(l.relation),
    )
}

/// The node of an object.
pub fn graph_object_ref(o: &MemoryObject) -> (r: GraphObjectRef)
    ensures
        r == graph_ref_of(*o),
{
    GraphObjectRef { object_id: o.id(), object_type: o.object_type() }
}

/// Ordering key of a node.
pub fn stable_node_key(r: GraphObjectRef) -> (k: SortKey)
    ensures
        k == node_key(r),
{
    (r.object_id, 0, 0, r.object_type.stable_rank(), 0, 0)
}

/// Ordering key of a link.
pub fn stable_link_key(l: &MemoryLink) -> (k: SortKey)
    ensures
        k == link_key(*l),
{
    (l.to_id, l.from_id, l.id, l.to_type.stable_rank(), l.from_type.stable_rank(), l.relation.stable_rank())
}

/// Whether a link touches a node at either end.
pub open spec fn touches(l: MemoryLink, r: GraphObjectRef) -> bool {
    link_from(l) == r || link_to(l) == r
}

/// The endpoint of a link opposite to `r` (its target when `r` is its source).
pub open spec fn other_end(l: MemoryLink, r: GraphObjectRef) -> GraphObjectRef {
    if link_from(l) == r {
        link_to(l)
    } else {
        link_from(l)
    }
}

/// Whether the link touches `object_ref`.
pub fn link_touches_ref(link: &MemoryLink, object_ref: GraphObjectRef) -> (r: bool)
    ensures
        r == touches(*link, object_ref),
{
    (link.from_id == object_ref.object_id && link.from_type == object_ref.object_type) || (
    link.to_id == object_ref.object_id && link.to_type == object_ref.object_type)
}

/// The endpoint of `link` opposite to `object_ref`.
pub fn other_endpoint(link: &MemoryLink, object_ref: GraphObjectRef) -> (r: GraphObjectRef)
    ensures
        r == other_end(*link, object_ref),
{
    if link.from_id == object_ref.object_id && link.from_type == object_ref.object_type {
        GraphObjectRef { object_id: link.to_id, object_type: link.to_type }
    } else {
        GraphObjectRef { object_id: link.from_id, object_type: link.from_type }
    }
}

/// Whether some link supersedes the derived memory `id` (a derived memory to derived
/// memory `Supersedes` link pointing at it).
pub open spec fn is_superseded_by_links(links: Seq<MemoryLink>, id: MemoryId) -> bool {
    exists|i: int|
        0 <= i < links.len() && (#[trigger] links[i]).relation == RelationType::Supersedes
            && links[i].from_type == ObjectType::DerivedMemory && links[i].to_type
            == ObjectType::DerivedMemory && links[i].to_id == id
}

/// The identities of the derived memories that some link supersedes.
pub fn superseded_derived_memory_ids(links: &Vec<MemoryLink>) -> (r: Vec<MemoryId>)
    ensures
        forall|id: MemoryId| r@.contains(id) <==> is_superseded_by_links(links@, id),
{
    let mut out: Vec<MemoryId> = Vec::new();
    let mut i: usize = 0;
    while i < links.len()
        invariant
            i <= links@.len(),
            forall|id: MemoryId| out@.contains(id) <==> is_superseded_by_links(links@.take(i as int), id),
        decreases links@.len() - i,
    {
        let l = &links[i];
        let ghost prev = links@.take(i as int);
        let ghost next = links@.take(i + 1);
        let ghost old_out = out@;
        assert(next =~= prev.push(links@[i as int]));
        let hit = l.relation == RelationType::Supersedes && l.from_type == ObjectType::DerivedMemory
            && l.to_type == ObjectType::DerivedMemory;
        if hit {
            out.push(l.to_id);
        }
        proof {
            assert forall|id: MemoryId| out@.contains(id) <==> is_superseded_by_links(next, id) by {
                if is_superseded_by_links(prev, id) {
                    let k = choose|k: int|
                        0 <= k < prev.len() && (#[trigger] prev[k]).relation == RelationType::Supersedes
                            && prev[k].from_type == ObjectType::DerivedMemory && prev[k].to_type
                            == ObjectType::DerivedMemory && prev[k].to_id == id;
                    assert(next[k] == prev[k]);
                    assert(old_out.contains(id));
                    if hit {
                        assert(out@ == old_out.push(links@[i as int].to_id));
                        let j = choose|j: int| 0 <= j < old_out.len() && old_out[j] == id;
                        assert(out@[j] == id);
                    }
                }
                if hit && id == links@[i as int].to_id {
                    assert(next[i as int] == links@[i as int]);
                    assert(out@[old_out.len() as int] == id);
                }
                if is_superseded_by_links(next, id) {
                    let k = choose|k: int|
                        0 <= k < next.len() && (#[trigger] next[k]).relation == RelationType::Supersedes
                            && next[k].from_type == ObjectType::DerivedMemory && next[k].to_type
                            == ObjectType::DerivedMemory && next[k].to_id == id;
                    if k < i {
                        assert(prev[k] == next[k]);
                    }
                }
                if out@.contains(id) {
                    let j = choose|j: int| 0 <= j < out@.len() && out@[j] == id;
                    if j < old_out.len() {
                        assert(old_out[j] == id);
                        assert(old_out.contains(id));
                    }
                }
            }
        }
        i = i + 1;
    }
    assert(links@.take(i as int) =~= links@);
    out
}

/// The filter reason for a retention state under a policy.
pub open spec fn retention_reason(state: RetentionState, policy: GraphExpansionLifecyclePolicy) -> Option<
    GraphExpansionFilteredReason,
> {
    match state {
        RetentionState::Active => None,
        RetentionState::Archived => if !policy.include_archived {
            Some(GraphExpansionFilteredReason::Archived)
        } else {
            None
        },
        RetentionState::Suppressed => if !policy.include_suppressed {
            Some(GraphExpansionFilteredReason::Suppressed)
        } else {
            None
        },
        RetentionState::Deleted => if !policy.include_deleted {
            Some(GraphExpansionFilteredReason::Deleted)
        } else {
            None
        },
    }
}

/// The filter reason for a derived memory: retention first, then currentness, then supersession.
pub open spec fn derived_reason(
    m: DerivedMemory,
    superseded: bool,
    policy: GraphExpansionLifecyclePolicy,
) -> Option<GraphExpansionFilteredReason> {
    if retention_reason(m.retention_state, policy) is Some {
        retention_reason(m.retention_state, policy)
    } else if !m.is_current && !policy.include_non_current {
        Some(GraphExpansionFilteredReason::NonCurrent)
    } else if superseded && !policy.include_superseded {
        Some(GraphExpansionFilteredReason::Superseded)
    } else {
        None
    }
}

/// The filter reason for any object, given the links that may supersede it.
pub open spec fn lifecycle_reason(
    o: MemoryObject,
    links: Seq<MemoryLink>,
    policy: GraphExpansionLifecyclePolicy,
) -> Option<GraphExpansionFilteredReason> {
    match o {
        MemoryObject::Episode(x) => retention_reason(x.retention_state, policy),
        MemoryObject::Observation(x) => retention_reason(x.retention_state, policy),
        MemoryObject::MemoryThread(x) => if x.status == ThreadStatus::Archived
            && !policy.include_archived {
            Some(GraphExpansionFilteredReason::Archived)
        } else {
            None
        },
        MemoryObject::DerivedMemory(x) => derived_reason(
            x,
            is_superseded_by_links(links, x.id),
            policy,
        ),
        MemoryObject::Entity(_) => None,
        MemoryObject::MemoryLink(_) => None,
    }
}

/// The reason a retention state hides an object under `policy`, if it does.
pub fn retention_filter_reason(state: RetentionState, policy: GraphExpansionLifecyclePolicy) -> (r: Option<
    GraphExpansionFilteredReason,
>)
    ensures
        r == retention_reason(state, policy),
{
    match state {
        RetentionState::Active => None,
        RetentionState::Archived => if !policy.include_archived {
            Some(GraphExpansionFilteredReason::Archived)
        } else {
            None
        },
        RetentionState::Suppressed => if !policy.include_suppressed {
            Some(GraphExpansionFilteredReason::Suppressed)
        } else {
            None
        },
        RetentionState::Deleted => if !policy.include_deleted {
            Some(GraphExpansionFilteredReason::Deleted)
        } else {
            None
        },
    }
}

/// The reason a derived memory is hidden under `policy`, if it is.
pub fn derived_memory_lifecycle_filter_reason(
    m: &DerivedMemory,
    superseded: &Vec<MemoryId>,
    policy: GraphExpansionLifecyclePolicy,
) -> (r: Option<GraphExpansionFilteredReason>)
    ensures
        r == derived_reason(*m, superseded@.contains(m.id), policy),
{
    let retention = retention_filter_reason(m.retention_state, policy);
    if retention.is_some() {
        retention
    } else if !m.is_current && !policy.include_non_current {
        Some(GraphExpansionFilteredReason::NonCurrent)
    } else if contains_id(superseded, m.id) && !policy.include_superseded {
        Some(GraphExpansionFilteredReason::Superseded)
    } else {
        None
    }
}

/// The reason an object is hidden under `policy`, if it is; `superseded` lists the
/// derived memories that some link supersedes.
fn lifecycle_filter_reason(
    o: &MemoryObject,
    superseded: &Vec<MemoryId>,
    policy: GraphExpansionLifecyclePolicy,
    links: Ghost<Seq<MemoryLink>>,
) -> (r: Option<GraphExpansionFilteredReason>)
    requires
        forall|id: MemoryId| superseded@.contains(id) <==> is_superseded_by_links(links@, id),
    ensures
        r == lifecycle_reason(*o, links@, policy),
{
    match o {
        MemoryObject::Episode(x) => retention_filter_reason(x.retention_state, policy),
        MemoryObject::Observation(x) => retention_filter_reason(x.retention_state, policy),
        MemoryObject::MemoryThread(x) => if x.status == ThreadStatus::Archived
            && !policy.include_archived {
            Some(GraphExpansionFilteredReason::Archived)
        } else {
            None
        },
        MemoryObject::DerivedMemory(x) => derived_memory_lifecycle_filter_reason(x, superseded, policy),
        MemoryObject::Entity(_) => None,
        MemoryObject::MemoryLink(_) => None,
    }
}


/// Whether some identity of `a` occurs in `b`.
pub open spec fn shares_id(a: Seq<MemoryId>, b: Seq<MemoryId>) -> bool {
    exists|i: int| 0 <= i < a.len() && b.contains(#[trigger] a[i])
}

/// Whether some identity of `a` occurs in `b`.
pub fn any_shared(a: &Vec<MemoryId>, b: &Vec<MemoryId>) -> (r: bool)
    ensures
        r == shares_id(a@, b@),
{
    let mut i: usize = 0;
    while i < a.len()
        invariant
            i <= a@.len(),
            forall|j: int| 0 <= j < i ==> !b@.contains(#[trigger] a@[j]),
        decreases a@.len() - i,
    {
        if contains_id(b, a[i]) {
            return true;
        }
        i = i + 1;
    }
    false
}

/// The derived memory a `DerivedFrom` link ties to one of the given sources, if any.
pub open spec fn provenance_link_target(ep: Seq<MemoryId>, ob: Seq<MemoryId>, l: MemoryLink) -> Option<
    MemoryId,
> {
    if l.from_type == ObjectType::DerivedMemory && l.to_type == ObjectType::Episode && ep.contains(
        l.to_id,
    ) {
        Some(l.from_id)
    } else if l.from_type == ObjectType::Episode && l.to_type == ObjectType::DerivedMemory
        && ep.contains(l.from_id) {
        Some(l.to_id)
    } else if l.from_type == ObjectType::DerivedMemory && l.to_type == ObjectType::Observation
        && ob.contains(l.to_id) {
        Some(l.from_id)
    } else if l.from_type == ObjectType::Observation && l.to_type == ObjectType::DerivedMemory
        && ob.contains(l.from_id) {
        Some(l.to_id)
    } else {
        None
    }
}

/// Whether a `DerivedFrom` link ties the derived memory `id` to one of the given sources.
pub open spec fn provenance_linked(ep: Seq<MemoryId>, ob: Seq<MemoryId>, links: Seq<MemoryLink>, id: MemoryId) -> bool {
    exists|i: int|
        0 <= i < links.len() && (#[trigger] links[i]).relation == RelationType::DerivedFrom
            && provenance_link_target(ep, ob, links[i]) == Some(id)
}

/// Whether a derived memory is derived from one of the given sources, by its own
/// source lists or through a `DerivedFrom` link.
pub open spec fn matches_provenance(
    ep: Seq<MemoryId>,
    ob: Seq<MemoryId>,
    m: DerivedMemory,
    links: Seq<MemoryLink>,
) -> bool {
    ||| (ep.len() > 0 && shares_id(m.derived_from_episode_ids@, ep))
    ||| (ob.len() > 0 && shares_id(m.derived_from_observation_ids@, ob))
    ||| provenance_linked(ep, ob, links, m.id)
}

fn provenance_linked_derived_memory_id(
    episode_ids: &Vec<MemoryId>,
    observation_ids: &Vec<MemoryId>,
    link: &MemoryLink,
) -> (r: Option<MemoryId>)
    ensures
        r == provenance_link_target(episode_ids@, observation_ids@, *link),
{
    if link.from_type == ObjectType::DerivedMemory && link.to_type == ObjectType::Episode
        && contains_id(episode_ids, link.to_id) {
        Some(link.from_id)
    } else if link.from_type == ObjectType::Episode && link.to_type == ObjectType::DerivedMemory
        && contains_id(episode_ids, link.from_id) {
        Some(link.to_id)
    } else if link.from_type == ObjectType::DerivedMemory && link.to_type
        == ObjectType::Observation && contains_id(observation_ids, link.to_id) {
        Some(link.from_id)
    } else if link.from_type == ObjectType::Observation && link.to_type
        == ObjectType::DerivedMemory && contains_id(observation_ids, link.from_id) {
        Some(link.to_id)
    } else {
        None
    }
}

fn provenance_linked_derived_memory_ids(
    episode_ids: &Vec<MemoryId>,
    observation_ids: &Vec<MemoryId>,
    links: &Vec<MemoryLink>,
) -> (r: Vec<MemoryId>)
    ensures
        forall|id: MemoryId| r@.contains(id) <==> provenance_linked(episode_ids@, observation_ids@, links@, id),
{
    let ghost ep = episode_ids@;
    let ghost ob = observation_ids@;
    let mut out: Vec<MemoryId> = Vec::new();
    let mut i: usize = 0;
    while i < links.len()
        invariant
            ep == episode_ids@,
            ob == observation_ids@,
            i <= links@.len(),
            forall|id: MemoryId| out@.contains(id) <==> provenance_linked(ep, ob, links@.take(i as int), id),
        decreases links@.len() - i,
    {
        let l = &links[i];
        let ghost prev = links@.take(i as int);
        let ghost next = links@.take(i + 1);
        let ghost old_out = out@;
        assert(next =~= prev.push(links@[i as int]));
        let mut hit: Option<MemoryId> = None;
        if l.relation == RelationType::DerivedFrom {
            hit = provenance_linked_derived_memory_id(episode_ids, observation_ids, l);
        }
        match hit {
            Some(id) => out.push(id),
            None => {},
        }
        proof {
            assert forall|id: MemoryId| out@.contains(id) <==> provenance_linked(ep, ob, next, id) by {
                if provenance_linked(ep, ob, prev, id) {
                    let k = choose|k: int|
                        0 <= k < prev.len() && (#[trigger] prev[k]).relation == RelationType::DerivedFrom
                            && provenance_link_target(ep, ob, prev[k]) == Some(id);
                    assert(next[k] == prev[k]);
                    assert(old_out.contains(id));
                    let j = choose|j: int| 0 <= j < old_out.len() && old_out[j] == id;
                    assert(out@[j] == id);
                }
                if hit == Some(id) {
                    assert(next[i as int] == links@[i as int]);
                    assert(out@[old_out.len() as int] == id);
                }
                if provenance_linked(ep, ob, next, id) {
                    let k = choose|k: int|
                        0 <= k < next.len() && (#[trigger] next[k]).relation == RelationType::DerivedFrom
                            && provenance_link_target(ep, ob, next[k]) == Some(id);
                    if k < i {
                        assert(prev[k] == next[k]);
                    }
                }
                if out@.contains(id) {
                    let j = choose|j: int| 0 <= j < out@.len() && out@[j] == id;
                    if j < old_out.len() {
                        assert(old_out[j] == id);
                        assert(old_out.contains(id));
                    }
                }
            }
        }
        i = i + 1;
    }
    assert(links@.take(i as int) =~= links@);
    out
}

/// The first `limit` items, or all of them when there is no limit.
pub open spec fn limited<T>(s: Seq<T>, limit: Option<usize>) -> Seq<T> {
    match limit {
        Some(n) => if n < s.len() {
            s.take(n as int)
        } else {
            s
        },
        None => s,
    }
}

/// Ordering keys of derived memories by identity.
pub open spec fn memory_id_keys(ms: Seq<DerivedMemory>) -> Seq<SortKey> {
    ms.map_values(|m: DerivedMemory| id_key(m.id))
}

/// The derived memories among `objs`, in order, that satisfy `selected`.
pub open spec fn derived_memories_where(objs: Seq<MemoryObject>, selected: spec_fn(DerivedMemory) -> bool) -> Seq<
    DerivedMemory,
>
    decreases objs.len(),
{
    if objs.len() == 0 {
        seq![]
    } else {
        let rest = derived_memories_where(objs.drop_last(), selected);
        match objs.last() {
            MemoryObject::DerivedMemory(m) => if selected(m) {
                rest.push(m)
            } else {
                rest
            },
            _ => rest,
        }
    }
}

/// Whether a provenance query selects a derived memory.
pub open spec fn provenance_selects(
    q: GraphDerivedMemoryProvenanceQuery,
    links: Seq<MemoryLink>,
    m: DerivedMemory,
) -> bool {
    &&& matches_provenance(q.episode_ids@, q.observation_ids@, m, links)
    &&& derived_reason(m, is_superseded_by_links(links, m.id), q.lifecycle_policy) is None
}

/// Whether a thread query selects a derived memory.
pub open spec fn thread_selects(q: GraphDerivedMemoryThreadQuery, links: Seq<MemoryLink>, m: DerivedMemory) -> bool {
    &&& q.thread_ids@.len() > 0
    &&& shares_id(m.thread_ids@, q.thread_ids@)
    &&& derived_reason(m, is_superseded_by_links(links, m.id), q.lifecycle_policy) is None
}

/// The result of a derived-memory query: the selected memories, stably ordered by
/// identity, cut to the limit.
pub open spec fn derived_query_result(selected: Seq<DerivedMemory>, limit: Option<usize>) -> Seq<DerivedMemory> {
    limited(sorted_by_keys(selected, memory_id_keys(selected)), limit)
}

/// The derived memories that cite one of the query's source episodes or observations
/// (directly or through a `DerivedFrom` link) and that the query's lifecycle policy
/// does not hide, ordered by identity and cut to the query's limit.
pub fn derived_memories_by_provenance(
    query: &GraphDerivedMemoryProvenanceQuery,
    objects: Vec<MemoryObject>,
    links: Vec<MemoryLink>,
) -> (r: Vec<DerivedMemory>)
    ensures
        r@ == derived_query_result(
            derived_memories_where(objects@, |m: DerivedMemory| provenance_selects(*query, links@, m)),
            query.limit,
        ),
{
    let superseded = superseded_derived_memory_ids(&links);
    let linked = provenance_linked_derived_memory_ids(&query.episode_ids, &query.observation_ids, &links);
    let ghost orig = objects@;
    let mut rest = objects;
    let mut memories: Vec<DerivedMemory> = Vec::new();
    let mut keys: Vec<SortKey> = Vec::new();
    let ghost mut i: int = 0;
    assert(orig.skip(0) =~= orig);
    assert(orig.take(0) =~= Seq::<MemoryObject>::empty());
    while rest.len() > 0
        invariant
            0 <= i <= orig.len(),
            rest@ == orig.skip(i),
            memories@ == derived_memories_where(orig.take(i), |m: DerivedMemory| provenance_selects(*query, links@, m)),
            keys@ == memory_id_keys(memories@),
            forall|id: MemoryId| superseded@.contains(id) <==> is_superseded_by_links(links@, id),
            forall|id: MemoryId| linked@.contains(id) <==> provenance_linked(query.episode_ids@, query.observation_ids@, links@, id),
        decreases rest@.len(),
    {
        let o = rest.remove(0);
        proof {
            assert(orig.skip(i)[0] == orig[i]);
            assert(o == orig[i]);
            assert(orig.take(i + 1).last() == o);
            assert(orig.take(i + 1).drop_last() =~= orig.take(i));
            assert(orig.skip(i).remove(0) =~= orig.skip(i + 1));
        }
        match o {
            MemoryObject::DerivedMemory(m) => {
                proof {
                    assert(linked@.contains(m.id) == provenance_linked(query.episode_ids@, query.observation_ids@, links@, m.id));
                }
                let matched = (query.episode_ids.len() > 0 && any_shared(&m.derived_from_episode_ids, &query.episode_ids))
                    || (query.observation_ids.len() > 0 && any_shared(&m.derived_from_observation_ids, &query.observation_ids))
                    || contains_id(&linked, m.id);
                let keep = matched && derived_memory_lifecycle_filter_reason(&m, &superseded, query.lifecycle_policy).is_none();
                proof {
                    assert(superseded@.contains(m.id) == is_superseded_by_links(links@, m.id));
                    assert(matched == matches_provenance(query.episode_ids@, query.observation_ids@, m, links@));
                    assert(keep == provenance_selects(*query, links@, m));
                    assert(orig.take(i + 1).last() == MemoryObject::DerivedMemory(m));
                }
                if keep {
                    let k = (m.id, 0u128, 0u128, 0u8, 0u8, 0u8);
                    memories.push(m);
                    keys.push(k);
                    proof {
                        assert(keys@ =~= memory_id_keys(memories@));
                    }
                }
            },
            _ => {},
        }
        proof {
            i = i + 1;
        }
    }
    proof {
        assert(i == orig.len());
        assert(orig.take(i) =~= orig);
    }
    let mut sorted = sort_by_keys(memories, keys);
    match query.limit {
        Some(n) => sorted.truncate(n),
        None => {},
    }
    sorted
}

/// The derived memories that are part of one of the query's threads and that the
/// query's lifecycle policy does not hide, ordered by identity and cut to the limit.
/// A query naming no thread selects nothing.
pub fn derived_memories_by_thread(
    query: &GraphDerivedMemoryThreadQuery,
    objects: Vec<MemoryObject>,
    links: Vec<MemoryLink>,
) -> (r: Vec<DerivedMemory>)
    ensures
        r@ == derived_query_result(
            derived_memories_where(objects@, |m: DerivedMemory| thread_selects(*query, links@, m)),
            query.limit,
        ),
{
    let superseded = superseded_derived_memory_ids(&links);
    let ghost orig = objects@;
    let mut rest = objects;
    let mut memories: Vec<DerivedMemory> = Vec::new();
    let mut keys: Vec<SortKey> = Vec::new();
    let ghost mut i: int = 0;
    assert(orig.skip(0) =~= orig);
    assert(orig.take(0) =~= Seq::<MemoryObject>::empty());
    while rest.len() > 0
        invariant
            0 <= i <= orig.len(),
            rest@ == orig.skip(i),
            memories@ == derived_memories_where(orig.take(i), |m: DerivedMemory| thread_selects(*query, links@, m)),
            keys@ == memory_id_keys(memories@),
            forall|id: MemoryId| superseded@.contains(id) <==> is_superseded_by_links(links@, id),
        decreases rest@.len(),
    {
        let o = rest.remove(0);
        proof {
            assert(orig.skip(i)[0] == orig[i]);
            assert(o == orig[i]);
            assert(orig.take(i + 1).last() == o);
            assert(orig.take(i + 1).drop_last() =~= orig.take(i));
            assert(orig.skip(i).remove(0) =~= orig.skip(i + 1));
        }
        match o {
            MemoryObject::DerivedMemory(m) => {
                let matched = query.thread_ids.len() > 0 && any_shared(&m.thread_ids, &query.thread_ids);
                let keep = matched && derived_memory_lifecycle_filter_reason(&m, &superseded, query.lifecycle_policy).is_none();
                proof {
                    assert(superseded@.contains(m.id) == is_superseded_by_links(links@, m.id));
                    assert(keep == thread_selects(*query, links@, m));
                    assert(orig.take(i + 1).last() == MemoryObject::DerivedMemory(m));
                }
                if keep {
                    let k = (m.id, 0u128, 0u128, 0u8, 0u8, 0u8);
                    memories.push(m);
                    keys.push(k);
                    proof {
                        assert(keys@ =~= memory_id_keys(memories@));
                    }
                }
            },
            _ => {},
        }
        proof {
            i = i + 1;
        }
    }
    proof {
        assert(i == orig.len());
        assert(orig.take(i) =~= orig);
    }
    let mut sorted = sort_by_keys(memories, keys);
    match query.limit {
        Some(n) => sorted.truncate(n),
        None => {},
    }
    sorted
}


/// Timeout and partial-result handling of an expansion.
#[derive(Debug, Clone, Copy, PartialEq, Eq, Structural)]
pub struct GraphExpansionFailurePolicy {
    pub timeout_ms: Option<u64>,
    pub allow_partial_results: bool,
}

impl GraphExpansionFailurePolicy {
    /// The default: a 250 ms budget, partial results allowed.
    pub fn default() -> (r: GraphExpansionFailurePolicy)
        ensures
            r == default_failure_policy(),
    {
        GraphExpansionFailurePolicy { timeout_ms: Some(250), allow_partial_results: true }
    }
}

/// The default failure policy.
pub open spec fn default_failure_policy() -> GraphExpansionFailurePolicy {
    GraphExpansionFailurePolicy { timeout_ms: Some(250), allow_partial_results: true }
}

/// A per-(relation, neighbor type) fanout cap chosen by selectivity planning.
#[derive(Debug, Clone, Copy, PartialEq, Eq, Structural)]
pub struct GraphExpansionFanoutOverride {
    pub relation: RelationType,
    pub object_type: ObjectType,
    pub max_fanout: usize,
}

/// A bounded expansion around a root object.
#[derive(Debug, Clone, PartialEq, Eq)]
pub struct GraphExpansionQuery {
    pub root_id: MemoryId,
    pub root_type: ObjectType,
    pub max_depth: u8,
    pub max_nodes: usize,
    pub max_fanout_per_node: usize,
    pub max_hub_edges: usize,
    pub allowed_object_types: Vec<ObjectType>,
    pub allowed_relation_types: Vec<RelationType>,
    pub lifecycle_policy: GraphExpansionLifecyclePolicy,
    pub failure_policy: GraphExpansionFailurePolicy,
    pub fanout_overrides: Vec<GraphExpansionFanoutOverride>,
}

impl GraphExpansionQuery {
    /// An expansion around `root` bounded by depth and node count only, with default
    /// policies and no type restrictions.
    pub fn new(root_id: MemoryId, root_type: ObjectType, max_depth: u8, max_nodes: usize) -> (r: GraphExpansionQuery)
        ensures
            r.root_id == root_id,
            r.root_type == root_type,
            r.max_depth == max_depth,
            r.max_nodes == max_nodes,
            r.max_fanout_per_node == usize::MAX,
            r.max_hub_edges == usize::MAX,
            r.allowed_object_types@.len() == 0,
            r.allowed_relation_types@.len() == 0,
            r.lifecycle_policy == default_lifecycle_policy(),
            r.failure_policy == default_failure_policy(),
            r.fanout_overrides@.len() == 0,
    {
        GraphExpansionQuery {
            root_id,
            root_type,
            max_depth,
            max_nodes,
            max_fanout_per_node: usize::MAX,
            max_hub_edges: usize::MAX,
            allowed_object_types: Vec::new(),
            allowed_relation_types: Vec::new(),
            lifecycle_policy: GraphExpansionLifecyclePolicy::default(),
            failure_policy: GraphExpansionFailurePolicy::default(),
            fanout_overrides: Vec::new(),
        }
    }

    /// The same query, restricted to neighbors of these types.
    pub fn with_allowed_object_types(self, object_types: Vec<ObjectType>) -> (r: GraphExpansionQuery)
        ensures
            r == (GraphExpansionQuery { allowed_object_types: object_types, ..self }),
    {
        GraphExpansionQuery { allowed_object_types: object_types, ..self }
    }

    /// The same query, following only these relations.
    pub fn with_allowed_relation_types(self, relation_types: Vec<RelationType>) -> (r: GraphExpansionQuery)
        ensures
            r == (GraphExpansionQuery { allowed_relation_types: relation_types, ..self }),
    {
        GraphExpansionQuery { allowed_relation_types: relation_types, ..self }
    }

    /// The same query, following at most `max_fanout_per_node` links from each node.
    pub fn with_max_fanout_per_node(self, max_fanout_per_node: usize) -> (r: GraphExpansionQuery)
        ensures
            r == (GraphExpansionQuery { max_fanout_per_node, ..self }),
    {
        GraphExpansionQuery { max_fanout_per_node, ..self }
    }

    /// The same query, treating nodes with more than `max_hub_edges` links as hubs.
    pub fn with_max_hub_edges(self, max_hub_edges: usize) -> (r: GraphExpansionQuery)
        ensures
            r == (GraphExpansionQuery { max_hub_edges, ..self }),
    {
        GraphExpansionQuery { max_hub_edges, ..self }
    }

    /// The same query under another lifecycle policy.
    pub fn with_lifecycle_policy(self, lifecycle_policy: GraphExpansionLifecyclePolicy) -> (r: GraphExpansionQuery)
        ensures
            r == (GraphExpansionQuery { lifecycle_policy, ..self }),
    {
        GraphExpansionQuery { lifecycle_policy, ..self }
    }

    /// The same query under another failure policy.
    pub fn with_failure_policy(self, failure_policy: GraphExpansionFailurePolicy) -> (r: GraphExpansionQuery)
        ensures
            r == (GraphExpansionQuery { failure_policy, ..self }),
    {
        GraphExpansionQuery { failure_policy, ..self }
    }
}

/// A node hidden from an expansion, and why.
#[derive(Debug, Clone, Copy, PartialEq, Eq, Structural)]
pub struct GraphExpansionFilteredNode {
    pub object_ref: GraphObjectRef,
    pub reason: GraphExpansionFilteredReason,
}

/// Which bound stopped an expansion.
#[derive(Debug, Clone, Copy, PartialEq, Eq, Structural)]
pub enum GraphExpansionBoundedFailureReason {
    NodeLimit,
    Timeout,
    HubLimit,
}

/// A bound that stopped an expansion, and the node where it did.
#[derive(Debug, Clone, Copy, PartialEq, Eq, Structural)]
pub struct GraphExpansionBoundedFailure {
    pub reason: GraphExpansionBoundedFailureReason,
    pub at: Option<GraphObjectRef>,
}

/// A link traversed by an expansion, with its distance from the root.
#[derive(Debug, Clone, Copy, PartialEq, Eq, Structural)]
pub struct GraphExpansionRelation {
    pub link_id: MemoryId,
    pub from: GraphObjectRef,
    pub to: GraphObjectRef,
    pub relation: RelationType,
    pub proximity: u8,
}

/// Whether the query follows links of this relation.
pub open spec fn relation_ok(q: GraphExpansionQuery, r: RelationType) -> bool {
    q.allowed_relation_types@.len() == 0 || q.allowed_relation_types@.contains(r)
}

/// Whether the query enters neighbors of this type.
pub open spec fn object_type_ok(q: GraphExpansionQuery, t: ObjectType) -> bool {
    q.allowed_object_types@.len() == 0 || q.allowed_object_types@.contains(t)
}

/// Whether the query follows links of this relation.
pub fn relation_allowed(q: &GraphExpansionQuery, r: RelationType) -> (b: bool)
    ensures
        b == relation_ok(*q, r),
{
    q.allowed_relation_types.len() == 0 || contains_relation(&q.allowed_relation_types, r)
}

/// Whether the query enters neighbors of this type.
pub fn object_type_allowed(q: &GraphExpansionQuery, t: ObjectType) -> (b: bool)
    ensures
        b == object_type_ok(*q, t),
{
    q.allowed_object_types.len() == 0 || contains_object_type(&q.allowed_object_types, t)
}

/// Whether some object is the node `r`.
pub open spec fn node_present(objs: Seq<MemoryObject>, r: GraphObjectRef) -> bool {
    exists|i: int| 0 <= i < objs.len() && graph_ref_of(#[trigger] objs[i]) == r
}

/// The lifecycle reason of node `r`: that of the last object that is the node `r`.
pub open spec fn node_reason(
    objs: Seq<MemoryObject>,
    links: Seq<MemoryLink>,
    policy: GraphExpansionLifecyclePolicy,
    r: GraphObjectRef,
) -> Option<GraphExpansionFilteredReason>
    decreases objs.len(),
{
    if objs.len() == 0 {
        None
    } else if graph_ref_of(objs.last()) == r {
        lifecycle_reason(objs.last(), links, policy)
    } else {
        node_reason(objs.drop_last(), links, policy, r)
    }
}

/// The links incident to `r` that the query may follow into a present neighbor, in
/// link order, each with the neighbor it leads to.
pub open spec fn incident_candidates(
    q: GraphExpansionQuery,
    objs: Seq<MemoryObject>,
    links: Seq<MemoryLink>,
    r: GraphObjectRef,
    n: int,
) -> Seq<(usize, GraphObjectRef)>
    decreases n,
{
    if n <= 0 {
        seq![]
    } else {
        let rest = incident_candidates(q, objs, links, r, n - 1);
        let l = links[n - 1];
        let nb = other_end(l, r);
        if relation_ok(q, l.relation) && touches(l, r) && node_present(objs, nb) && object_type_ok(
            q,
            nb.object_type,
        ) {
            rest.push(((n - 1) as usize, nb))
        } else {
            rest
        }
    }
}

/// Ordering keys of incident candidates: the keys of their links.
pub open spec fn incident_keys(links: Seq<MemoryLink>, c: Seq<(usize, GraphObjectRef)>) -> Seq<SortKey> {
    c.map_values(|x: (usize, GraphObjectRef)| link_key(links[x.0 as int]))
}

/// The incident candidates of `r`, stably ordered by link key.
pub open spec fn incident_sorted(
    q: GraphExpansionQuery,
    objs: Seq<MemoryObject>,
    links: Seq<MemoryLink>,
    r: GraphObjectRef,
) -> Seq<(usize, GraphObjectRef)> {
    let c = incident_candidates(q, objs, links, r, links.len() as int);
    sorted_by_keys(c, incident_keys(links, c))
}

/// The first `n` items, or all when there are fewer.
pub open spec fn at_most<T>(s: Seq<T>, n: int) -> Seq<T> {
    if n < s.len() {
        s.take(n)
    } else {
        s
    }
}

/// The working state of an expansion.
pub struct ExpansionState {
    pub visited: Seq<GraphObjectRef>,
    pub queue: Seq<(GraphObjectRef, u8)>,
    pub relations: Seq<GraphExpansionRelation>,
    pub filtered: Seq<GraphExpansionFilteredNode>,
    pub failure: Option<GraphExpansionBoundedFailure>,
}

/// Whether the queue holds node `r`.
pub open spec fn queue_has(queue: Seq<(GraphObjectRef, u8)>, r: GraphObjectRef) -> bool {
    exists|i: int| 0 <= i < queue.len() && (#[trigger] queue[i]).0 == r
}

/// Whether a traversed relation was recorded for link `id`.
pub open spec fn has_relation_for(rels: Seq<GraphExpansionRelation>, id: MemoryId) -> bool {
    exists|i: int| 0 <= i < rels.len() && (#[trigger] rels[i]).link_id == id
}

/// Records a filtered node once.
pub open spec fn with_filtered(
    filtered: Seq<GraphExpansionFilteredNode>,
    r: GraphObjectRef,
    reason: GraphExpansionFilteredReason,
) -> Seq<GraphExpansionFilteredNode> {
    if exists|i: int| 0 <= i < filtered.len() && (#[trigger] filtered[i]).object_ref == r {
        filtered
    } else {
        filtered.push(GraphExpansionFilteredNode { object_ref: r, reason })
    }
}

/// Keeps the first bounded failure.
pub open spec fn first_failure(
    existing: Option<GraphExpansionBoundedFailure>,
    f: GraphExpansionBoundedFailure,
) -> Option<GraphExpansionBoundedFailure> {
    if existing is Some {
        existing
    } else {
        Some(f)
    }
}

/// A bound reached: fatal when partial results are refused, else remembered once.
pub open spec fn on_bound(
    q: GraphExpansionQuery,
    st: ExpansionState,
    f: GraphExpansionBoundedFailure,
) -> Result<ExpansionState, GraphExpansionBoundedFailure> {
    if !q.failure_policy.allow_partial_results {
        Err(f)
    } else {
        Ok(ExpansionState { failure: first_failure(st.failure, f), ..st })
    }
}

/// Following one incident link from a node at `depth` to `nb`.
pub open spec fn neighbor_step(
    q: GraphExpansionQuery,
    objs: Seq<MemoryObject>,
    links: Seq<MemoryLink>,
    st: ExpansionState,
    depth: u8,
    item: (usize, GraphObjectRef),
) -> Result<ExpansionState, GraphExpansionBoundedFailure> {
    let l = links[item.0 as int];
    let nb = item.1;
    let st1 = if has_relation_for(st.relations, l.id) {
        st
    } else {
        ExpansionState {
            relations: st.relations.push(
                GraphExpansionRelation {
                    link_id: l.id,
                    from: link_from(l),
                    to: link_to(l),
                    relation: l.relation,
                    proximity: (depth + 1) as u8,
                },
            ),
            ..st
        }
    };
    match node_reason(objs, links, q.lifecycle_policy, nb) {
        Some(reason) => Ok(ExpansionState { filtered: with_filtered(st1.filtered, nb, reason), ..st1 }),
        None => if st1.visited.len() + st1.queue.len() >= q.max_nodes && !st1.visited.contains(nb)
            && !queue_has(st1.queue, nb) {
            on_bound(
                q,
                st1,
                GraphExpansionBoundedFailure {
                    reason: GraphExpansionBoundedFailureReason::NodeLimit,
                    at: Some(nb),
                },
            )
        } else if !queue_has(st1.queue, nb) {
            Ok(ExpansionState { queue: st1.queue.push((nb, (depth + 1) as u8)), ..st1 })
        } else {
            Ok(st1)
        },
    }
}

/// Following a list of incident links in order; the first fatal bound stops it.
pub open spec fn follow_links(
    q: GraphExpansionQuery,
    objs: Seq<MemoryObject>,
    links: Seq<MemoryLink>,
    st: ExpansionState,
    depth: u8,
    items: Seq<(usize, GraphObjectRef)>,
) -> Result<ExpansionState, GraphExpansionBoundedFailure>
    decreases items.len(),
{
    if items.len() == 0 {
        Ok(st)
    } else {
        match follow_links(q, objs, links, st, depth, items.drop_last()) {
            Err(f) => Err(f),
            Ok(s) => neighbor_step(q, objs, links, s, depth, items.last()),
        }
    }
}

/// Following links only queues neighbors: the visited nodes stay as they were.
pub proof fn lemma_follow_keeps_visited(
    q: GraphExpansionQuery,
    objs: Seq<MemoryObject>,
    links: Seq<MemoryLink>,
    st: ExpansionState,
    depth: u8,
    items: Seq<(usize, GraphObjectRef)>,
)
    ensures
        follow_links(q, objs, links, st, depth, items) matches Ok(s) ==> s.visited == st.visited,
    decreases items.len(),
{
    if items.len() > 0 {
        lemma_follow_keeps_visited(q, objs, links, st, depth, items.drop_last());
    }
}

/// The links followed from a freshly visited node: its incident candidates, cut to the
/// fanout cap, or, at a hub, to the smaller of the fanout and hub caps after recording
/// the hub bound.
pub open spec fn expand_node(
    q: GraphExpansionQuery,
    objs: Seq<MemoryObject>,
    links: Seq<MemoryLink>,
    st: ExpansionState,
    r: GraphObjectRef,
    depth: u8,
) -> Result<ExpansionState, GraphExpansionBoundedFailure> {
    let inc = incident_sorted(q, objs, links, r);
    if inc.len() > q.max_hub_edges {
        match on_bound(
            q,
            st,
            GraphExpansionBoundedFailure { reason: GraphExpansionBoundedFailureReason::HubLimit, at: Some(r) },
        ) {
            Err(f) => Err(f),
            Ok(s) => {
                let cap = if q.max_fanout_per_node < q.max_hub_edges {
                    q.max_fanout_per_node
                } else {
                    q.max_hub_edges
                };
                follow_links(q, objs, links, s, depth, at_most(inc, cap as int))
            },
        }
    } else {
        follow_links(q, objs, links, st, depth, at_most(inc, q.max_fanout_per_node as int))
    }
}

/// Taking the next node off the queue.
pub open spec fn pop_step(
    q: GraphExpansionQuery,
    objs: Seq<MemoryObject>,
    links: Seq<MemoryLink>,
    st: ExpansionState,
) -> Result<ExpansionState, GraphExpansionBoundedFailure> {
    let (r, depth) = st.queue[0];
    let st1 = ExpansionState { queue: st.queue.drop_first(), ..st };
    if st1.visited.contains(r) {
        Ok(st1)
    } else if st1.visited.len() >= q.max_nodes {
        on_bound(
            q,
            st1,
            GraphExpansionBoundedFailure { reason: GraphExpansionBoundedFailureReason::NodeLimit, at: Some(r) },
        )
    } else {
        match node_reason(objs, links, q.lifecycle_policy, r) {
            Some(reason) => Ok(ExpansionState { filtered: with_filtered(st1.filtered, r, reason), ..st1 }),
            None => {
                let st2 = ExpansionState { visited: st1.visited.push(r), ..st1 };
                if depth >= q.max_depth {
                    Ok(st2)
                } else {
                    expand_node(q, objs, links, st2, r, depth)
                }
            },
        }
    }
}

/// Each step of the expansion makes progress: either the queue shrinks with the
/// visited nodes unchanged, or one more node is visited, below the node cap.
pub proof fn lemma_pop_step_measure(
    q: GraphExpansionQuery,
    objs: Seq<MemoryObject>,
    links: Seq<MemoryLink>,
    st: ExpansionState,
)
    requires
        st.queue.len() > 0,
    ensures
        pop_step(q, objs, links, st) matches Ok(s) ==> (s.visited == st.visited && s.queue.len()
            == st.queue.len() - 1) || (s.visited.len() == st.visited.len() + 1 && st.visited.len()
            < q.max_nodes),
{
    let (r, depth) = st.queue[0];
    let st1 = ExpansionState { queue: st.queue.drop_first(), ..st };
    let st2 = ExpansionState { visited: st1.visited.push(r), ..st1 };
    if !st1.visited.contains(r) && st1.visited.len() < q.max_nodes && node_reason(
        objs,
        links,
        q.lifecycle_policy,
        r,
    ) is None && depth < q.max_depth {
        let inc = incident_sorted(q, objs, links, r);
        let bound = GraphExpansionBoundedFailure {
            reason: GraphExpansionBoundedFailureReason::HubLimit,
            at: Some(r),
        };
        let cap = if q.max_fanout_per_node < q.max_hub_edges {
            q.max_fanout_per_node
        } else {
            q.max_hub_edges
        };
        if inc.len() > q.max_hub_edges {
            if let Ok(s) = on_bound(q, st2, bound) {
                lemma_follow_keeps_visited(q, objs, links, s, depth, at_most(inc, cap as int));
            }
        } else {
            lemma_follow_keeps_visited(
                q,
                objs,
                links,
                st2,
                depth,
                at_most(inc, q.max_fanout_per_node as int),
            );
        }
    }
}

/// Running the expansion until the queue is empty or a fatal bound is reached.
pub open spec fn run_expansion(
    q: GraphExpansionQuery,
    objs: Seq<MemoryObject>,
    links: Seq<MemoryLink>,
    st: ExpansionState,
) -> Result<ExpansionState, GraphExpansionBoundedFailure>
    decreases q.max_nodes - st.visited.len(), st.queue.len(),
{
    if st.queue.len() == 0 {
        Ok(st)
    } else {
        match pop_step(q, objs, links, st) {
            Err(f) => Err(f),
            Ok(s) => {
                proof {
                    lemma_pop_step_measure(q, objs, links, st);
                }
                run_expansion(q, objs, links, s)
            },
        }
    }
}


/// The message for expansions rooted at a link.
pub open spec fn link_root_message() -> Seq<char> {
    "bounded graph expansion does not support MemoryLink roots"@
}

/// The persisted name of a bound.
pub open spec fn bound_reason_name(r: GraphExpansionBoundedFailureReason) -> Seq<char> {
    match r {
        GraphExpansionBoundedFailureReason::NodeLimit => "node_limit"@,
        GraphExpansionBoundedFailureReason::Timeout => "timeout"@,
        GraphExpansionBoundedFailureReason::HubLimit => "hub_limit"@,
    }
}

/// Where a bound was reached, as the error message writes it.
pub open spec fn bound_location(at: Option<GraphObjectRef>) -> Seq<char> {
    match at {
        Some(r) => " at object_type="@ + crate::domain::object_type_token(r.object_type)
            + " object_id="@ + crate::ids::uuid_hyphenated(r.object_id),
        None => Seq::empty(),
    }
}

/// Whether `e` reports the bound `f`.
pub open spec fn is_bounded_error(e: CustomError, f: GraphExpansionBoundedFailure) -> bool {
    e matches CustomError::GraphExpansionBounded { reason, location } && reason@ == bound_reason_name(
        f.reason,
    ) && location@ == bound_location(f.at)
}

/// The persisted name of a bound.
pub fn bounded_failure_reason_name(r: GraphExpansionBoundedFailureReason) -> (s: &'static str)
    ensures
        s@ == bound_reason_name(r),
{
    match r {
        GraphExpansionBoundedFailureReason::NodeLimit => "node_limit",
        GraphExpansionBoundedFailureReason::Timeout => "timeout",
        GraphExpansionBoundedFailureReason::HubLimit => "hub_limit",
    }
}

/// The error reporting a bound that stopped a fail-closed expansion.
pub fn graph_expansion_bounded_error(f: GraphExpansionBoundedFailure) -> (e: CustomError)
    ensures
        is_bounded_error(e, f),
{
    let reason = String::from_str(bounded_failure_reason_name(f.reason));
    let mut location = String::new();
    match f.at {
        Some(r) => {
            location.append(" at object_type=");
            location.append(r.object_type.token());
            location.append(" object_id=");
            let id = crate::ids::uuid_text(r.object_id);
            location.append(id.as_str());
        },
        None => {},
    }
    proof {
        if f.at is None {
            assert(location@ =~= bound_location(f.at));
        }
    }
    CustomError::GraphExpansionBounded { reason, location }
}

/// The starting state: the root queued at depth zero.
pub open spec fn initial_state(root: GraphObjectRef) -> ExpansionState {
    ExpansionState {
        visited: seq![],
        queue: seq![(root, 0u8)],
        relations: seq![],
        filtered: seq![],
        failure: None,
    }
}

/// An expansion that stopped before it started, at the root.
pub open spec fn stopped_state(f: GraphExpansionBoundedFailure) -> ExpansionState {
    ExpansionState { visited: seq![], queue: seq![], relations: seq![], filtered: seq![], failure: Some(f) }
}

/// What an expansion plan comes to.
pub enum PlanOutcome {
    LinkRoot,
    RootMissing,
    Bounded(GraphExpansionBoundedFailure),
    Planned(ExpansionState),
}

/// The root node of a query.
pub open spec fn root_of(q: GraphExpansionQuery) -> GraphObjectRef {
    GraphObjectRef { object_id: q.root_id, object_type: q.root_type }
}

/// A bound reached at the root before expanding.
pub open spec fn stopped_at_root(q: GraphExpansionQuery, reason: GraphExpansionBoundedFailureReason) -> PlanOutcome {
    let f = GraphExpansionBoundedFailure { reason, at: Some(root_of(q)) };
    if q.failure_policy.allow_partial_results {
        PlanOutcome::Planned(stopped_state(f))
    } else {
        PlanOutcome::Bounded(f)
    }
}

/// The outcome of planning an expansion: links cannot be roots; the root must be
/// present; a zero timeout or node budget stops at the root; otherwise the
/// breadth-first expansion runs to completion or to a fatal bound.
pub open spec fn plan_outcome(q: GraphExpansionQuery, objs: Seq<MemoryObject>, links: Seq<MemoryLink>) -> PlanOutcome {
    if q.root_type == ObjectType::MemoryLink {
        PlanOutcome::LinkRoot
    } else if !node_present(objs, root_of(q)) {
        PlanOutcome::RootMissing
    } else if q.failure_policy.timeout_ms == Some(0u64) {
        stopped_at_root(q, GraphExpansionBoundedFailureReason::Timeout)
    } else if q.max_nodes == 0 {
        stopped_at_root(q, GraphExpansionBoundedFailureReason::NodeLimit)
    } else {
        match run_expansion(q, objs, links, initial_state(root_of(q))) {
            Err(f) => PlanOutcome::Bounded(f),
            Ok(st) => PlanOutcome::Planned(st),
        }
    }
}

/// Ordering key of a traversed relation: proximity, link, then target node.
pub open spec fn relation_key(r: GraphExpansionRelation) -> SortKey {
    (r.proximity as u128, r.link_id, r.to.object_id, object_type_rank(r.to.object_type), 0, 0)
}

/// Ordering keys of relations.
pub open spec fn relation_keys(rs: Seq<GraphExpansionRelation>) -> Seq<SortKey> {
    rs.map_values(|r: GraphExpansionRelation| relation_key(r))
}

/// Ordering keys of filtered nodes.
pub open spec fn filtered_keys(fs: Seq<GraphExpansionFilteredNode>) -> Seq<SortKey> {
    fs.map_values(|f: GraphExpansionFilteredNode| node_key(f.object_ref))
}

/// Removes consecutive filtered nodes for the same node, keeping the first.
pub open spec fn dedup_filtered(s: Seq<GraphExpansionFilteredNode>) -> Seq<GraphExpansionFilteredNode>
    decreases s.len(),
{
    if s.len() == 0 {
        s
    } else {
        let d = dedup_filtered(s.drop_last());
        if d.len() > 0 && d.last().object_ref == s.last().object_ref {
            d
        } else {
            d.push(s.last())
        }
    }
}

/// The result of a bounded expansion, before objects are hydrated.
#[derive(Debug, Clone, PartialEq, Eq)]
pub struct BoundedExpansionPlan {
    pub visited: Vec<GraphObjectRef>,
    pub relations: Vec<GraphExpansionRelation>,
    pub filtered_nodes: Vec<GraphExpansionFilteredNode>,
    pub bounded_failure: Option<GraphExpansionBoundedFailure>,
}

/// Whether a plan is the presentation of a final expansion state: visited nodes in
/// visiting order, relations by proximity, link and target, filtered nodes by node
/// once each, and the first bound met.
pub open spec fn presents(p: BoundedExpansionPlan, st: ExpansionState) -> bool {
    &&& p.visited@ == st.visited
    &&& p.relations@ == sorted_by_keys(st.relations, relation_keys(st.relations))
    &&& p.filtered_nodes@ == dedup_filtered(sorted_by_keys(st.filtered, filtered_keys(st.filtered)))
    &&& p.bounded_failure == st.failure
}

/// What `bounded_expansion_plan` returns for an outcome.
pub open spec fn plan_result_matches(r: Result<BoundedExpansionPlan, CustomError>, q: GraphExpansionQuery, o: PlanOutcome) -> bool {
    match o {
        PlanOutcome::LinkRoot => r matches Err(CustomError::MemoryValidation(m)) && m@ == link_root_message(),
        PlanOutcome::RootMissing => r == Err::<BoundedExpansionPlan, CustomError>(
            CustomError::GraphExpansionRootNotFound { object_type: q.root_type, object_id: q.root_id },
        ),
        PlanOutcome::Bounded(f) => r matches Err(e) && is_bounded_error(e, f),
        PlanOutcome::Planned(st) => r matches Ok(p) && presents(p, st),
    }
}

pub(crate) fn contains_ref(v: &Vec<GraphObjectRef>, x: GraphObjectRef) -> (r: bool)
    ensures
        r == v@.contains(x),
{
    let mut i: usize = 0;
    while i < v.len()
        invariant
            i <= v@.len(),
            forall|j: int| 0 <= j < i ==> v@[j] != x,
        decreases v@.len() - i,
    {
        if v[i] == x {
            assert(v@[i as int] == x);
            return true;
        }
        i = i + 1;
    }
    false
}

pub(crate) fn node_present_in(objects: &Vec<MemoryObject>, r: GraphObjectRef) -> (b: bool)
    ensures
        b == node_present(objects@, r),
{
    let mut i: usize = 0;
    while i < objects.len()
        invariant
            i <= objects@.len(),
            forall|j: int| 0 <= j < i ==> graph_ref_of(#[trigger] objects@[j]) != r,
        decreases objects@.len() - i,
    {
        if graph_object_ref(&objects[i]) == r {
            return true;
        }
        i = i + 1;
    }
    false
}

fn node_lifecycle(
    objects: &Vec<MemoryObject>,
    reasons: &Vec<Option<GraphExpansionFilteredReason>>,
    r: GraphObjectRef,
    links: Ghost<Seq<MemoryLink>>,
    policy: Ghost<GraphExpansionLifecyclePolicy>,
) -> (out: Option<GraphExpansionFilteredReason>)
    requires
        reasons@.len() == objects@.len(),
        forall|j: int| 0 <= j < objects@.len() ==> #[trigger] reasons@[j] == lifecycle_reason(objects@[j], links@, policy@),
    ensures
        out == node_reason(objects@, links@, policy@, r),
{
    let mut i: usize = objects.len();
    assert(objects@.take(i as int) =~= objects@);
    while i > 0
        invariant
            i <= objects@.len(),
            reasons@.len() == objects@.len(),
            forall|j: int| 0 <= j < objects@.len() ==> #[trigger] reasons@[j] == lifecycle_reason(objects@[j], links@, policy@),
            node_reason(objects@, links@, policy@, r) == node_reason(objects@.take(i as int), links@, policy@, r),
        decreases i,
    {
        let ghost pre = objects@.take(i as int);
        assert(pre.last() == objects@[i - 1]);
        assert(pre.drop_last() =~= objects@.take(i - 1));
        if graph_object_ref(&objects[i - 1]) == r {
            return reasons[i - 1];
        }
        i = i - 1;
    }
    None
}

fn incident_links_sorted(
    q: &GraphExpansionQuery,
    objects: &Vec<MemoryObject>,
    links: &Vec<MemoryLink>,
    r: GraphObjectRef,
) -> (out: Vec<(usize, GraphObjectRef)>)
    ensures
        out@ == incident_sorted(*q, objects@, links@, r),
        forall|k: int| 0 <= k < out@.len() ==> (#[trigger] out@[k]).0 < links@.len(),
{
    let mut cands: Vec<(usize, GraphObjectRef)> = Vec::new();
    let mut keys: Vec<SortKey> = Vec::new();
    let mut li: usize = 0;
    while li < links.len()
        invariant
            li <= links@.len(),
            cands@ == incident_candidates(*q, objects@, links@, r, li as int),
            keys@ == incident_keys(links@, cands@),
            forall|k: int| 0 <= k < cands@.len() ==> (#[trigger] cands@[k]).0 < li,
        decreases links@.len() - li,
    {
        let l = &links[li];
        let nb = other_endpoint(l, r);
        if relation_allowed(q, l.relation) && link_touches_ref(l, r) && node_present_in(objects, nb)
            && object_type_allowed(q, nb.object_type) {
            cands.push((li, nb));
            keys.push(stable_link_key(l));
            proof {
                assert(keys@ =~= incident_keys(links@, cands@));
            }
        }
        li = li + 1;
    }
    let ghost c = cands@;
    let ghost kk = keys@;
    proof {
        crate::sorting::lemma_sorted_by_keys_elements(c, kk);
    }
    let out = sort_by_keys(cands, keys);
    proof {
        assert forall|k: int| 0 <= k < out@.len() implies (#[trigger] out@[k]).0 < links@.len() by {
            assert(c.contains(out@[k]));
            let m = choose|m: int| 0 <= m < c.len() && c[m] == out@[k];
            assert(c[m].0 < links@.len());
        }
    }
    out
}

fn queue_holds(queue: &Vec<(GraphObjectRef, u8)>, head: usize, r: GraphObjectRef) -> (b: bool)
    requires
        head <= queue@.len(),
    ensures
        b == queue_has(queue@.skip(head as int), r),
{
    let mut i: usize = head;
    while i < queue.len()
        invariant
            head <= i <= queue@.len(),
            forall|j: int| head <= j < i ==> (#[trigger] queue@[j]).0 != r,
        decreases queue@.len() - i,
    {
        if queue[i].0 == r {
            assert(queue@.skip(head as int)[i - head] == queue@[i as int]);
            return true;
        }
        i = i + 1;
    }
    proof {
        assert forall|j: int| 0 <= j < queue@.skip(head as int).len() implies (#[trigger] queue@.skip(head as int)[j]).0 != r by {
            assert(queue@.skip(head as int)[j] == queue@[head + j]);
        }
    }
    false
}

fn has_relation(rels: &Vec<GraphExpansionRelation>, id: MemoryId) -> (b: bool)
    ensures
        b == has_relation_for(rels@, id),
{
    let mut i: usize = 0;
    while i < rels.len()
        invariant
            i <= rels@.len(),
            forall|j: int| 0 <= j < i ==> (#[trigger] rels@[j]).link_id != id,
        decreases rels@.len() - i,
    {
        if rels[i].link_id == id {
            assert(rels@[i as int].link_id == id);
            return true;
        }
        i = i + 1;
    }
    false
}

fn push_filtered_node(
    filtered: &mut Vec<GraphExpansionFilteredNode>,
    r: GraphObjectRef,
    reason: GraphExpansionFilteredReason,
)
    ensures
        final(filtered)@ == with_filtered(old(filtered)@, r, reason),
{
    let mut i: usize = 0;
    while i < filtered.len()
        invariant
            i <= filtered@.len(),
            filtered@ == old(filtered)@,
            forall|j: int| 0 <= j < i ==> (#[trigger] filtered@[j]).object_ref != r,
        decreases filtered@.len() - i,
    {
        if filtered[i].object_ref == r {
            assert(filtered@[i as int].object_ref == r);
            return;
        }
        i = i + 1;
    }
    filtered.push(GraphExpansionFilteredNode { object_ref: r, reason });
}


proof fn lemma_follow_prefix_err(
    q: GraphExpansionQuery,
    objs: Seq<MemoryObject>,
    links: Seq<MemoryLink>,
    st: ExpansionState,
    depth: u8,
    items: Seq<(usize, GraphObjectRef)>,
    k: int,
    f: GraphExpansionBoundedFailure,
)
    requires
        0 <= k <= items.len(),
        follow_links(q, objs, links, st, depth, items.take(k)) == Err::<ExpansionState, GraphExpansionBoundedFailure>(f),
    ensures
        follow_links(q, objs, links, st, depth, items) == Err::<ExpansionState, GraphExpansionBoundedFailure>(f),
    decreases items.len(),
{
    if k == items.len() {
        assert(items.take(k) =~= items);
    } else {
        assert(items.drop_last().take(k) =~= items.take(k));
        lemma_follow_prefix_err(q, objs, links, st, depth, items.drop_last(), k, f);
    }
}

/// The working state held by the executable expansion.
pub open spec fn state_of(
    visited: Seq<GraphObjectRef>,
    queue: Seq<(GraphObjectRef, u8)>,
    head: int,
    relations: Seq<GraphExpansionRelation>,
    filtered: Seq<GraphExpansionFilteredNode>,
    failure: Option<GraphExpansionBoundedFailure>,
) -> ExpansionState {
    ExpansionState { visited, queue: queue.skip(head), relations, filtered, failure }
}

fn dedup_filtered_nodes(s: Vec<GraphExpansionFilteredNode>) -> (r: Vec<GraphExpansionFilteredNode>)
    ensures
        r@ == dedup_filtered(s@),
{
    let mut out: Vec<GraphExpansionFilteredNode> = Vec::new();
    let mut i: usize = 0;
    assert(s@.take(0) =~= Seq::<GraphExpansionFilteredNode>::empty());
    while i < s.len()
        invariant
            i <= s@.len(),
            out@ == dedup_filtered(s@.take(i as int)),
        decreases s@.len() - i,
    {
        assert(s@.take(i + 1).drop_last() =~= s@.take(i as int));
        let x = s[i];
        if out.len() > 0 && out[out.len() - 1].object_ref == x.object_ref {
        } else {
            out.push(x);
        }
        i = i + 1;
    }
    assert(s@.take(i as int) =~= s@);
    out
}

fn finish_plan(
    visited: Vec<GraphObjectRef>,
    relations: Vec<GraphExpansionRelation>,
    filtered: Vec<GraphExpansionFilteredNode>,
    failure: Option<GraphExpansionBoundedFailure>,
) -> (p: BoundedExpansionPlan)
    ensures
        presents(p, ExpansionState { visited: visited@, queue: seq![], relations: relations@, filtered: filtered@, failure }),
{
    let mut rkeys: Vec<SortKey> = Vec::new();
    let mut i: usize = 0;
    while i < relations.len()
        invariant
            i <= relations@.len(),
            rkeys@ == relation_keys(relations@.take(i as int)),
        decreases relations@.len() - i,
    {
        let rel = relations[i];
        rkeys.push((rel.proximity as u128, rel.link_id, rel.to.object_id, rel.to.object_type.stable_rank(), 0u8, 0u8));
        assert(relations@.take(i + 1) =~= relations@.take(i as int).push(rel));
        assert(rkeys@ =~= relation_keys(relations@.take(i + 1)));
        i = i + 1;
    }
    assert(relations@.take(i as int) =~= relations@);
    let mut fkeys: Vec<SortKey> = Vec::new();
    let mut j: usize = 0;
    while j < filtered.len()
        invariant
            j <= filtered@.len(),
            fkeys@ == filtered_keys(filtered@.take(j as int)),
        decreases filtered@.len() - j,
    {
        let fnode = filtered[j];
        fkeys.push(stable_node_key(fnode.object_ref));
        assert(filtered@.take(j + 1) =~= filtered@.take(j as int).push(fnode));
        assert(fkeys@ =~= filtered_keys(filtered@.take(j + 1)));
        j = j + 1;
    }
    assert(filtered@.take(j as int) =~= filtered@);
    let sorted_relations = sort_by_keys(relations, rkeys);
    let sorted_filtered = sort_by_keys(filtered, fkeys);
    BoundedExpansionPlan {
        visited,
        relations: sorted_relations,
        filtered_nodes: dedup_filtered_nodes(sorted_filtered),
        bounded_failure: failure,
    }
}

/// Plans a bounded breadth-first expansion around the query's root over the given
/// objects and links: nodes are visited in queue order up to the depth and node
/// bounds, hidden nodes are recorded instead of visited, each node follows its
/// allowed incident links in link order up to its fanout (and hub) caps, and a bound
/// either fails the expansion (fail-closed) or is recorded once (partial results).
pub fn bounded_expansion_plan(
    q: &GraphExpansionQuery,
    objects: &Vec<MemoryObject>,
    links: &Vec<MemoryLink>,
) -> (r: Result<BoundedExpansionPlan, CustomError>)
    ensures
        plan_result_matches(r, *q, plan_outcome(*q, objects@, links@)),
{
    if q.root_type == ObjectType::MemoryLink {
        return Err(CustomError::MemoryValidation(String::from_str("bounded graph expansion does not support MemoryLink roots")));
    }
    let root = GraphObjectRef { object_id: q.root_id, object_type: q.root_type };
    if !node_present_in(objects, root) {
        return Err(CustomError::GraphExpansionRootNotFound { object_type: q.root_type, object_id: q.root_id });
    }
    if q.failure_policy.timeout_ms == Some(0u64) || q.max_nodes == 0 {
        let reason = if q.failure_policy.timeout_ms == Some(0u64) {
            GraphExpansionBoundedFailureReason::Timeout
        } else {
            GraphExpansionBoundedFailureReason::NodeLimit
        };
        let f = GraphExpansionBoundedFailure { reason, at: Some(root) };
        if !q.failure_policy.allow_partial_results {
            return Err(graph_expansion_bounded_error(f));
        }
        let p = BoundedExpansionPlan { visited: Vec::new(), relations: Vec::new(), filtered_nodes: Vec::new(), bounded_failure: Some(f) };
        proof {
            assert(sorted_by_keys(Seq::<GraphExpansionRelation>::empty(), relation_keys(Seq::<GraphExpansionRelation>::empty())) =~= Seq::<GraphExpansionRelation>::empty());
            assert(sorted_by_keys(Seq::<GraphExpansionFilteredNode>::empty(), filtered_keys(Seq::<GraphExpansionFilteredNode>::empty())) =~= Seq::<GraphExpansionFilteredNode>::empty());
            assert(p.visited@ =~= Seq::<GraphObjectRef>::empty());
            assert(p.relations@ =~= Seq::<GraphExpansionRelation>::empty());
            assert(p.filtered_nodes@ =~= Seq::<GraphExpansionFilteredNode>::empty());
        }
        return Ok(p);
    }
    let ghost qs = *q;
    let ghost objs = objects@;
    let ghost ls = links@;
    let superseded = superseded_derived_memory_ids(links);
    let mut reasons: Vec<Option<GraphExpansionFilteredReason>> = Vec::new();
    let mut oi: usize = 0;
    while oi < objects.len()
        invariant
            oi <= objects@.len(),
            reasons@.len() == oi,
            forall|id: MemoryId| superseded@.contains(id) <==> is_superseded_by_links(links@, id),
            forall|j: int| 0 <= j < oi ==> #[trigger] reasons@[j] == lifecycle_reason(objects@[j], links@, q.lifecycle_policy),
        decreases objects@.len() - oi,
    {
        let reason = lifecycle_filter_reason(&objects[oi], &superseded, q.lifecycle_policy, Ghost(links@));
        reasons.push(reason);
        oi = oi + 1;
    }
    let mut visited: Vec<GraphObjectRef> = Vec::new();
    let mut queue: Vec<(GraphObjectRef, u8)> = Vec::new();
    queue.push((root, 0u8));
    let mut head: usize = 0;
    let mut relations: Vec<GraphExpansionRelation> = Vec::new();
    let mut filtered: Vec<GraphExpansionFilteredNode> = Vec::new();
    let mut failure: Option<GraphExpansionBoundedFailure> = None;
    proof {
        assert(state_of(visited@, queue@, head as int, relations@, filtered@, failure) == initial_state(root_of(qs))) by {
            assert(queue@.skip(0) =~= seq![(root, 0u8)]);
            assert(visited@ =~= Seq::<GraphObjectRef>::empty());
            assert(relations@ =~= Seq::<GraphExpansionRelation>::empty());
            assert(filtered@ =~= Seq::<GraphExpansionFilteredNode>::empty());
        }
    }
    while head < queue.len()
        invariant
            qs == *q,
            objs == objects@,
            ls == links@,
            q.max_nodes > 0,
            head <= queue@.len(),
            visited@.len() <= q.max_nodes,
            reasons@.len() == objects@.len(),
            forall|j: int| 0 <= j < objects@.len() ==> #[trigger] reasons@[j] == lifecycle_reason(objects@[j], links@, q.lifecycle_policy),
            q.root_type != ObjectType::MemoryLink,
            node_present(objs, root_of(qs)),
            q.failure_policy.timeout_ms != Some(0u64),
            run_expansion(qs, objs, ls, state_of(visited@, queue@, head as int, relations@, filtered@, failure))
                == run_expansion(qs, objs, ls, initial_state(root_of(qs))),
        decreases q.max_nodes - visited@.len(), queue@.len() - head,
    {
        let ghost st = state_of(visited@, queue@, head as int, relations@, filtered@, failure);
        let (r, depth) = queue[head];
        head = head + 1;
        proof {
            assert(st.queue[0] == (r, depth));
            assert(queue@.skip(head as int) =~= st.queue.drop_first());
        }
        if contains_ref(&visited, r) {
            continue;
        }
        if visited.len() >= q.max_nodes {
            let f = GraphExpansionBoundedFailure { reason: GraphExpansionBoundedFailureReason::NodeLimit, at: Some(r) };
            if !q.failure_policy.allow_partial_results {
                proof {
                    assert(pop_step(qs, objs, ls, st) == Err::<ExpansionState, GraphExpansionBoundedFailure>(f));
                }
                return Err(graph_expansion_bounded_error(f));
            }
            if failure.is_none() {
                failure = Some(f);
            }
            continue;
        }
        match node_lifecycle(objects, &reasons, r, Ghost(links@), Ghost(q.lifecycle_policy)) {
            Some(reason) => {
                push_filtered_node(&mut filtered, r, reason);
                continue;
            },
            None => {},
        }
        visited.push(r);
        if depth >= q.max_depth {
            continue;
        }
        let ghost st2 = state_of(visited@, queue@, head as int, relations@, filtered@, failure);
        let mut incident = incident_links_sorted(q, objects, links, r);
        let ghost inc = incident@;
        if incident.len() > q.max_hub_edges {
            let f = GraphExpansionBoundedFailure { reason: GraphExpansionBoundedFailureReason::HubLimit, at: Some(r) };
            if !q.failure_policy.allow_partial_results {
                proof {
                    assert(expand_node(qs, objs, ls, st2, r, depth) == Err::<ExpansionState, GraphExpansionBoundedFailure>(f));
                    assert(pop_step(qs, objs, ls, st) == Err::<ExpansionState, GraphExpansionBoundedFailure>(f));
                }
                return Err(graph_expansion_bounded_error(f));
            }
            if failure.is_none() {
                failure = Some(f);
            }
            let cap = if q.max_fanout_per_node < q.max_hub_edges { q.max_fanout_per_node } else { q.max_hub_edges };
            incident.truncate(cap);
        } else {
            incident.truncate(q.max_fanout_per_node);
        }
        let ghost items = incident@;
        let ghost st3 = state_of(visited@, queue@, head as int, relations@, filtered@, failure);
        proof {
            let cap = if q.max_fanout_per_node < q.max_hub_edges { q.max_fanout_per_node } else { q.max_hub_edges };
            if inc.len() > q.max_hub_edges {
                assert(items =~= at_most(inc, cap as int));
            } else {
                assert(items =~= at_most(inc, q.max_fanout_per_node as int));
            }
            assert(expand_node(qs, objs, ls, st2, r, depth) == follow_links(qs, objs, ls, st3, depth, items));
            assert(pop_step(qs, objs, ls, st) == expand_node(qs, objs, ls, st2, r, depth));
            assert(items.take(0) =~= Seq::<(usize, GraphObjectRef)>::empty());
        }
        let mut j: usize = 0;
        while j < incident.len()
            invariant
                qs == *q,
                objs == objects@,
                ls == links@,
                items == incident@,
                j <= items.len(),
                head <= queue@.len(),
                visited@.len() <= q.max_nodes,
                depth < q.max_depth,
                reasons@.len() == objects@.len(),
                forall|jj: int| 0 <= jj < objects@.len() ==> #[trigger] reasons@[jj] == lifecycle_reason(objects@[jj], links@, q.lifecycle_policy),
                forall|k: int| 0 <= k < items.len() ==> (#[trigger] items[k]).0 < links@.len(),
                q.root_type != ObjectType::MemoryLink,
                node_present(objs, root_of(qs)),
                q.failure_policy.timeout_ms != Some(0u64),
                st.queue.len() > 0,
                run_expansion(qs, objs, ls, st) == run_expansion(qs, objs, ls, initial_state(root_of(qs))),
                pop_step(qs, objs, ls, st) == follow_links(qs, objs, ls, st3, depth, items),
                follow_links(qs, objs, ls, st3, depth, items.take(j as int))
                    == Ok::<ExpansionState, GraphExpansionBoundedFailure>(state_of(visited@, queue@, head as int, relations@, filtered@, failure)),
            decreases items.len() - j,
        {
            let ghost before = state_of(visited@, queue@, head as int, relations@, filtered@, failure);
            let (li, nb) = incident[j];
            let link = &links[li];
            proof {
                assert(items.take(j + 1).drop_last() =~= items.take(j as int));
                assert(items.take(j + 1).last() == (li, nb));
            }
            if !has_relation(&relations, link.id) {
                relations.push(GraphExpansionRelation {
                    link_id: link.id,
                    from: GraphObjectRef { object_id: link.from_id, object_type: link.from_type },
                    to: GraphObjectRef { object_id: link.to_id, object_type: link.to_type },
                    relation: link.relation,
                    proximity: depth + 1,
                });
            }
            match node_lifecycle(objects, &reasons, nb, Ghost(links@), Ghost(q.lifecycle_policy)) {
                Some(reason) => {
                    push_filtered_node(&mut filtered, nb, reason);
                },
                None => {
                    let queued = queue_holds(&queue, head, nb);
                    let seen = contains_ref(&visited, nb);
                    let pending = queue.len() - head;
                    if pending >= q.max_nodes - visited.len() && !seen && !queued {
                        let f = GraphExpansionBoundedFailure { reason: GraphExpansionBoundedFailureReason::NodeLimit, at: Some(nb) };
                        if !q.failure_policy.allow_partial_results {
                            proof {
                                assert(neighbor_step(qs, objs, ls, before, depth, (li, nb)) == Err::<ExpansionState, GraphExpansionBoundedFailure>(f));
                                assert(follow_links(qs, objs, ls, st3, depth, items.take(j + 1)) == Err::<ExpansionState, GraphExpansionBoundedFailure>(f));
                                lemma_follow_prefix_err(qs, objs, ls, st3, depth, items, j + 1, f);
                            }
                            return Err(graph_expansion_bounded_error(f));
                        }
                        if failure.is_none() {
                            failure = Some(f);
                        }
                    } else if !queued {
                        queue.push((nb, depth + 1));
                        proof {
                            assert(queue@.skip(head as int) =~= before.queue.push((nb, (depth + 1) as u8)));
                        }
                    }
                },
            }
            j = j + 1;
        }
        proof {
            assert(items.take(j as int) =~= items);
        }
    }
    proof {
        assert(queue@.skip(head as int) =~= Seq::<(GraphObjectRef, u8)>::empty());
    }
    Ok(finish_plan(visited, relations, filtered, failure))
}

/// The objects and links reached by a bounded expansion, with its traversal trace.
#[derive(Debug, Clone, PartialEq, Eq)]
pub struct GraphExpansion {
    pub objects: Vec<MemoryObject>,
    pub links: Vec<MemoryLink>,
    pub relations: Vec<GraphExpansionRelation>,
    pub filtered_nodes: Vec<GraphExpansionFilteredNode>,
    pub bounded_failure: Option<GraphExpansionBoundedFailure>,
}

impl GraphExpansion {
    /// An expansion of the given objects and links, with no trace.
    pub fn new(objects: Vec<MemoryObject>, links: Vec<MemoryLink>) -> (r: GraphExpansion)
        ensures
            r.objects@ == objects@,
            r.links@ == links@,
            r.relations@.len() == 0,
            r.filtered_nodes@.len() == 0,
            r.bounded_failure is None,
    {
        GraphExpansion {
            objects,
            links,
            relations: Vec::new(),
            filtered_nodes: Vec::new(),
            bounded_failure: None,
        }
    }
}

/// The objects whose node was visited, in their given order.
pub open spec fn kept_objects(objs: Seq<MemoryObject>, visited: Seq<GraphObjectRef>) -> Seq<MemoryObject>
    decreases objs.len(),
{
    if objs.len() == 0 {
        objs
    } else {
        let k = kept_objects(objs.drop_last(), visited);
        if visited.contains(graph_ref_of(objs.last())) {
            k.push(objs.last())
        } else {
            k
        }
    }
}

/// Node keys of objects.
pub open spec fn object_keys(objs: Seq<MemoryObject>) -> Seq<SortKey> {
    objs.map_values(|o: MemoryObject| node_key(graph_ref_of(o)))
}

/// Whether a link belongs to an expansion: it was traversed and both its ends were visited.
pub open spec fn link_kept(l: MemoryLink, st: ExpansionState) -> bool {
    has_relation_for(st.relations, l.id) && st.visited.contains(link_from(l)) && st.visited.contains(link_to(l))
}

/// The links that belong to an expansion, in their given order.
pub open spec fn kept_links(links: Seq<MemoryLink>, st: ExpansionState) -> Seq<MemoryLink>
    decreases links.len(),
{
    if links.len() == 0 {
        links
    } else {
        let k = kept_links(links.drop_last(), st);
        if link_kept(links.last(), st) {
            k.push(links.last())
        } else {
            k
        }
    }
}

/// Identifier keys of links.
pub open spec fn link_id_keys(ls: Seq<MemoryLink>) -> Seq<SortKey> {
    ls.map_values(|l: MemoryLink| id_key(l.id))
}

/// Whether an expansion is the hydration of a final expansion state: the visited
/// objects by node, the traversed links between visited nodes by identifier, and the
/// trace as the plan presents it.
pub open spec fn hydrates(e: GraphExpansion, objs: Seq<MemoryObject>, links: Seq<MemoryLink>, st: ExpansionState) -> bool {
    let ko = kept_objects(objs, st.visited);
    let kl = kept_links(links, st);
    &&& e.objects@ == sorted_by_keys(ko, object_keys(ko))
    &&& e.links@ == sorted_by_keys(kl, link_id_keys(kl))
    &&& e.relations@ == sorted_by_keys(st.relations, relation_keys(st.relations))
    &&& e.filtered_nodes@ == dedup_filtered(sorted_by_keys(st.filtered, filtered_keys(st.filtered)))
    &&& e.bounded_failure == st.failure
}

/// What `bounded_expansion` returns for an outcome.
pub open spec fn expansion_result_matches(
    r: Result<GraphExpansion, CustomError>,
    q: GraphExpansionQuery,
    objs: Seq<MemoryObject>,
    links: Seq<MemoryLink>,
    o: PlanOutcome,
) -> bool {
    match o {
        PlanOutcome::LinkRoot => r matches Err(CustomError::MemoryValidation(m)) && m@ == link_root_message(),
        PlanOutcome::RootMissing => r == Err::<GraphExpansion, CustomError>(
            CustomError::GraphExpansionRootNotFound { object_type: q.root_type, object_id: q.root_id },
        ),
        PlanOutcome::Bounded(f) => r matches Err(e) && is_bounded_error(e, f),
        PlanOutcome::Planned(st) => r matches Ok(e) && hydrates(e, objs, links, st),
    }
}

/// Expands the graph around the query's root as `bounded_expansion_plan` plans it, and
/// hydrates the result: the objects of the visited nodes sorted by node, and the
/// traversed links whose two ends were visited, sorted by identifier.
pub fn bounded_expansion(
    q: &GraphExpansionQuery,
    objects: Vec<MemoryObject>,
    links: Vec<MemoryLink>,
) -> (r: Result<GraphExpansion, CustomError>)
    ensures
        expansion_result_matches(r, *q, objects@, links@, plan_outcome(*q, objects@, links@)),
{
    let ghost objs = objects@;
    let ghost ls = links@;
    let p = match bounded_expansion_plan(q, &objects, &links) {
        Err(e) => return Err(e),
        Ok(p) => p,
    };
    let ghost st = match plan_outcome(*q, objs, ls) {
        PlanOutcome::Planned(st) => st,
        _ => arbitrary(),
    };
    proof {
        let sorted = sorted_by_keys(st.relations, relation_keys(st.relations));
        crate::sorting::lemma_sorted_by_keys_contains(st.relations, relation_keys(st.relations));
        assert(p.relations@ == sorted);
        assert forall|id: MemoryId| has_relation_for(p.relations@, id) <==> has_relation_for(st.relations, id) by {
            if has_relation_for(p.relations@, id) {
                let i = choose|i: int| 0 <= i < sorted.len() && (#[trigger] sorted[i]).link_id == id;
                assert(sorted.contains(sorted[i]));
                assert(st.relations.contains(sorted[i]));
                let j = choose|j: int| 0 <= j < st.relations.len() && st.relations[j] == sorted[i];
                assert(st.relations[j].link_id == id);
            }
            if has_relation_for(st.relations, id) {
                let j = choose|j: int| 0 <= j < st.relations.len() && (#[trigger] st.relations[j]).link_id == id;
                assert(st.relations.contains(st.relations[j]));
                assert(sorted.contains(st.relations[j]));
                let i = choose|i: int| 0 <= i < sorted.len() && sorted[i] == st.relations[j];
                assert(sorted[i].link_id == id);
            }
        }
    }
    let mut rest = objects;
    let mut kept: Vec<MemoryObject> = Vec::new();
    let mut keys: Vec<SortKey> = Vec::new();
    let ghost mut taken: int = 0;
    proof {
        assert(objs.take(0) =~= Seq::<MemoryObject>::empty());
        assert(objs.skip(0) =~= objs);
    }
    while rest.len() > 0
        invariant
            0 <= taken <= objs.len(),
            rest@ == objs.skip(taken),
            p.visited@ == st.visited,
            kept@ == kept_objects(objs.take(taken), st.visited),
            keys@ == object_keys(kept@),
        decreases rest@.len(),
    {
        let o = rest.remove(0);
        proof {
            assert(o == objs[taken]);
            assert(objs.take(taken + 1).drop_last() =~= objs.take(taken));
            assert(objs.take(taken + 1).last() == o);
        }
        let node = graph_object_ref(&o);
        if contains_ref(&p.visited, node) {
            keys.push(stable_node_key(node));
            kept.push(o);
            proof {
                assert(keys@ =~= object_keys(kept@));
            }
        }
        proof {
            taken = taken + 1;
            assert(objs.skip(taken) =~= rest@);
        }
    }
    proof {
        assert(objs.take(taken) =~= objs);
    }
    let sorted_objects = sort_by_keys(kept, keys);
    let mut rest_links = links;
    let mut kept_l: Vec<MemoryLink> = Vec::new();
    let mut lkeys: Vec<SortKey> = Vec::new();
    let ghost mut tl: int = 0;
    proof {
        assert(ls.take(0) =~= Seq::<MemoryLink>::empty());
        assert(ls.skip(0) =~= ls);
    }
    while rest_links.len() > 0
        invariant
            0 <= tl <= ls.len(),
            rest_links@ == ls.skip(tl),
            p.visited@ == st.visited,
            forall|id: MemoryId| has_relation_for(p.relations@, id) <==> has_relation_for(st.relations, id),
            kept_l@ == kept_links(ls.take(tl), st),
            lkeys@ == link_id_keys(kept_l@),
        decreases rest_links@.len(),
    {
        let l = rest_links.remove(0);
        proof {
            assert(l == ls[tl]);
            assert(ls.take(tl + 1).drop_last() =~= ls.take(tl));
            assert(ls.take(tl + 1).last() == l);
        }
        let from = GraphObjectRef { object_id: l.from_id, object_type: l.from_type };
        let to = GraphObjectRef { object_id: l.to_id, object_type: l.to_type };
        if has_relation(&p.relations, l.id) && contains_ref(&p.visited, from) && contains_ref(&p.visited, to) {
            lkeys.push((l.id, 0u128, 0u128, 0u8, 0u8, 0u8));
            kept_l.push(l);
            proof {
                assert(lkeys@ =~= link_id_keys(kept_l@));
            }
        }
        proof {
            tl = tl + 1;
            assert(ls.skip(tl) =~= rest_links@);
        }
    }
    proof {
        assert(ls.take(tl) =~= ls);
    }
    let sorted_links = sort_by_keys(kept_l, lkeys);
    Ok(GraphExpansion {
        objects: sorted_objects,
        links: sorted_links,
        relations: p.relations,
        filtered_nodes: p.filtered_nodes,
        bounded_failure: p.bounded_failure,
    })
}

/// Whether a traversed relation records link `k` of `links`.
pub open spec fn records_link(rel: GraphExpansionRelation, links: Seq<MemoryLink>, k: int) -> bool {
    &&& 0 <= k < links.len()
    &&& links[k].id == rel.link_id
    &&& link_from(links[k]) == rel.from
    &&& link_to(links[k]) == rel.to
    &&& links[k].relation == rel.relation
}

/// What a planned expansion promises: at most `max_nodes` visited nodes, each once,
/// the first being the root, each present among the objects and not hidden by the
/// lifecycle policy; every traversed relation records one of the links, is of an
/// allowed relation type, and lies within the depth bound.
pub open spec fn expansion_bounds_hold(
    q: GraphExpansionQuery,
    objs: Seq<MemoryObject>,
    links: Seq<MemoryLink>,
    st: ExpansionState,
) -> bool {
    &&& st.visited.len() <= q.max_nodes
    &&& st.visited.no_duplicates()
    &&& st.visited.len() > 0 ==> st.visited[0] == root_of(q)
    &&& forall|i: int| 0 <= i < st.visited.len() ==> node_present(objs, #[trigger] st.visited[i])
        && node_reason(objs, links, q.lifecycle_policy, st.visited[i]) is None
    &&& forall|i: int| 0 <= i < st.relations.len() ==> relation_ok(q, (#[trigger] st.relations[i]).relation)
        && 1 <= st.relations[i].proximity <= q.max_depth
        && exists|k: int| records_link(st.relations[i], links, k)
}

/// What every intermediate state of an expansion keeps besides the promised bounds.
pub open spec fn expansion_state_ok(
    q: GraphExpansionQuery,
    objs: Seq<MemoryObject>,
    links: Seq<MemoryLink>,
    st: ExpansionState,
) -> bool {
    &&& expansion_bounds_hold(q, objs, links, st)
    &&& forall|i: int| 0 <= i < st.queue.len() ==> node_present(objs, (#[trigger] st.queue[i]).0)
        && st.queue[i].1 <= q.max_depth
    &&& st.visited.len() == 0 ==> st.queue.len() <= 1 && (st.queue.len() == 1 ==> st.queue[0].0 == root_of(q))
}

/// Whether an incident item may be followed: its link exists, has an allowed
/// relation type, and leads to a present node.
pub open spec fn followable(
    q: GraphExpansionQuery,
    objs: Seq<MemoryObject>,
    links: Seq<MemoryLink>,
    r: GraphObjectRef,
    item: (usize, GraphObjectRef),
) -> bool {
    &&& item.0 < links.len()
    &&& relation_ok(q, links[item.0 as int].relation)
    &&& node_present(objs, item.1)
}

proof fn lemma_candidates_followable(
    q: GraphExpansionQuery,
    objs: Seq<MemoryObject>,
    links: Seq<MemoryLink>,
    r: GraphObjectRef,
    n: int,
)
    requires
        n <= links.len(),
        links.len() <= usize::MAX,
    ensures
        forall|i: int| 0 <= i < incident_candidates(q, objs, links, r, n).len() ==> followable(
            q,
            objs,
            links,
            r,
            #[trigger] incident_candidates(q, objs, links, r, n)[i],
        ),
    decreases n,
{
    if n > 0 {
        lemma_candidates_followable(q, objs, links, r, n - 1);
        let rest = incident_candidates(q, objs, links, r, n - 1);
        let c = incident_candidates(q, objs, links, r, n);
        assert forall|i: int| 0 <= i < c.len() implies followable(q, objs, links, r, #[trigger] c[i]) by {
            if i < rest.len() {
                assert(c[i] == rest[i]);
            }
        }
    }
}

proof fn lemma_followed_items(
    q: GraphExpansionQuery,
    objs: Seq<MemoryObject>,
    links: Seq<MemoryLink>,
    r: GraphObjectRef,
    cap: int,
)
    requires
        links.len() <= usize::MAX,
        cap >= 0,
    ensures
        forall|i: int| 0 <= i < at_most(incident_sorted(q, objs, links, r), cap).len() ==> followable(
            q,
            objs,
            links,
            r,
            #[trigger] at_most(incident_sorted(q, objs, links, r), cap)[i],
        ),
{
    let c = incident_candidates(q, objs, links, r, links.len() as int);
    lemma_candidates_followable(q, objs, links, r, links.len() as int);
    crate::sorting::lemma_sorted_by_keys_elements(c, incident_keys(links, c));
    let srt = incident_sorted(q, objs, links, r);
    assert forall|i: int| 0 <= i < at_most(srt, cap).len() implies followable(q, objs, links, r, #[trigger] at_most(srt, cap)[i]) by {
        assert(at_most(srt, cap)[i] == srt[i]);
        assert(c.contains(srt[i]));
        let m = choose|m: int| 0 <= m < c.len() && c[m] == srt[i];
        assert(followable(q, objs, links, r, c[m]));
    }
}

proof fn lemma_neighbor_step_ok(
    q: GraphExpansionQuery,
    objs: Seq<MemoryObject>,
    links: Seq<MemoryLink>,
    st: ExpansionState,
    depth: u8,
    r: GraphObjectRef,
    item: (usize, GraphObjectRef),
)
    requires
        expansion_state_ok(q, objs, links, st),
        st.visited.len() > 0,
        depth < q.max_depth,
        followable(q, objs, links, r, item),
    ensures
        neighbor_step(q, objs, links, st, depth, item) matches Ok(s) ==> expansion_state_ok(q, objs, links, s)
            && s.visited == st.visited,
{
    let l = links[item.0 as int];
    let st1 = if has_relation_for(st.relations, l.id) {
        st
    } else {
        ExpansionState {
            relations: st.relations.push(
                GraphExpansionRelation {
                    link_id: l.id,
                    from: link_from(l),
                    to: link_to(l),
                    relation: l.relation,
                    proximity: (depth + 1) as u8,
                },
            ),
            ..st
        }
    };
    assert forall|i: int| 0 <= i < st1.relations.len() implies relation_ok(q, (#[trigger] st1.relations[i]).relation)
        && 1 <= st1.relations[i].proximity <= q.max_depth
        && exists|k: int| records_link(st1.relations[i], links, k) by {
        if i < st.relations.len() {
            assert(st1.relations[i] == st.relations[i]);
        } else {
            assert(records_link(st1.relations[i], links, item.0 as int));
        }
    }
    assert(expansion_state_ok(q, objs, links, st1));
    if let Ok(s) = neighbor_step(q, objs, links, st, depth, item) {
        if node_reason(objs, links, q.lifecycle_policy, item.1) is None && !queue_has(st1.queue, item.1)
            && !(st1.visited.len() + st1.queue.len() >= q.max_nodes && !st1.visited.contains(item.1)) {
            assert(s.queue == st1.queue.push((item.1, (depth + 1) as u8)));
            assert forall|i: int| 0 <= i < s.queue.len() implies node_present(objs, (#[trigger] s.queue[i]).0)
                && s.queue[i].1 <= q.max_depth by {
                if i < st1.queue.len() {
                    assert(s.queue[i] == st1.queue[i]);
                }
            }
        }
    }
}

proof fn lemma_follow_ok(
    q: GraphExpansionQuery,
    objs: Seq<MemoryObject>,
    links: Seq<MemoryLink>,
    st: ExpansionState,
    depth: u8,
    r: GraphObjectRef,
    items: Seq<(usize, GraphObjectRef)>,
)
    requires
        expansion_state_ok(q, objs, links, st),
        st.visited.len() > 0,
        depth < q.max_depth,
        forall|i: int| 0 <= i < items.len() ==> followable(q, objs, links, r, #[trigger] items[i]),
    ensures
        follow_links(q, objs, links, st, depth, items) matches Ok(s) ==> expansion_state_ok(q, objs, links, s)
            && s.visited == st.visited,
    decreases items.len(),
{
    if items.len() > 0 {
        lemma_follow_ok(q, objs, links, st, depth, r, items.drop_last());
        if let Ok(s) = follow_links(q, objs, links, st, depth, items.drop_last()) {
            assert(followable(q, objs, links, r, items[items.len() - 1]));
            lemma_neighbor_step_ok(q, objs, links, s, depth, r, items.last());
        }
    }
}

proof fn lemma_pop_step_ok(
    q: GraphExpansionQuery,
    objs: Seq<MemoryObject>,
    links: Seq<MemoryLink>,
    st: ExpansionState,
)
    requires
        links.len() <= usize::MAX,
        expansion_state_ok(q, objs, links, st),
        st.queue.len() > 0,
    ensures
        pop_step(q, objs, links, st) matches Ok(s) ==> expansion_state_ok(q, objs, links, s),
{
    let (r, depth) = st.queue[0];
    let st1 = ExpansionState { queue: st.queue.drop_first(), ..st };
    assert forall|i: int| 0 <= i < st1.queue.len() implies node_present(objs, (#[trigger] st1.queue[i]).0)
        && st1.queue[i].1 <= q.max_depth by {
        assert(st1.queue[i] == st.queue[i + 1]);
    }
    assert(expansion_state_ok(q, objs, links, st1));
    if !st1.visited.contains(r) && st1.visited.len() < q.max_nodes && node_reason(objs, links, q.lifecycle_policy, r) is None {
        let st2 = ExpansionState { visited: st1.visited.push(r), ..st1 };
        assert(node_present(objs, st.queue[0].0));
        assert forall|i: int| 0 <= i < st2.visited.len() implies node_present(objs, #[trigger] st2.visited[i])
            && node_reason(objs, links, q.lifecycle_policy, st2.visited[i]) is None by {
            if i < st1.visited.len() {
                assert(st2.visited[i] == st1.visited[i]);
            }
        }
        assert(st2.visited.no_duplicates()) by {
            assert forall|i: int, j: int| 0 <= i < st2.visited.len() && 0 <= j < st2.visited.len() && i != j
                implies st2.visited[i] != st2.visited[j] by {
                if i < st1.visited.len() && j < st1.visited.len() {
                } else if i < st1.visited.len() {
                    assert(st1.visited.contains(st2.visited[i]));
                } else if j < st1.visited.len() {
                    assert(st1.visited.contains(st2.visited[j]));
                }
            }
        }
        assert(expansion_state_ok(q, objs, links, st2));
        if depth < q.max_depth {
            let inc = incident_sorted(q, objs, links, r);
            let cap = if q.max_fanout_per_node < q.max_hub_edges {
                q.max_fanout_per_node
            } else {
                q.max_hub_edges
            };
            if inc.len() > q.max_hub_edges {
                let bound = GraphExpansionBoundedFailure {
                    reason: GraphExpansionBoundedFailureReason::HubLimit,
                    at: Some(r),
                };
                if let Ok(s) = on_bound(q, st2, bound) {
                    lemma_followed_items(q, objs, links, r, cap as int);
                    lemma_follow_ok(q, objs, links, s, depth, r, at_most(inc, cap as int));
                }
            } else {
                lemma_followed_items(q, objs, links, r, q.max_fanout_per_node as int);
                lemma_follow_ok(q, objs, links, st2, depth, r, at_most(inc, q.max_fanout_per_node as int));
            }
        }
    }
}

proof fn lemma_run_ok(
    q: GraphExpansionQuery,
    objs: Seq<MemoryObject>,
    links: Seq<MemoryLink>,
    st: ExpansionState,
)
    requires
        links.len() <= usize::MAX,
        expansion_state_ok(q, objs, links, st),
    ensures
        run_expansion(q, objs, links, st) matches Ok(s) ==> expansion_state_ok(q, objs, links, s),
    decreases q.max_nodes - st.visited.len(), st.queue.len(),
{
    if st.queue.len() > 0 {
        if let Ok(s) = pop_step(q, objs, links, st) {
            lemma_pop_step_measure(q, objs, links, st);
            lemma_pop_step_ok(q, objs, links, st);
            lemma_run_ok(q, objs, links, s);
        }
    }
}

/// A planned expansion keeps its bounds: it visits at most `max_nodes` distinct
/// nodes, starting at the root, each present and not hidden by the lifecycle
/// policy, and it traverses only given links of allowed relation types within the
/// depth bound.
pub proof fn law_planned_expansion_bounds(q: GraphExpansionQuery, objs: Seq<MemoryObject>, links: Seq<MemoryLink>)
    requires
        links.len() <= usize::MAX,
    ensures
        plan_outcome(q, objs, links) matches PlanOutcome::Planned(st) ==> expansion_bounds_hold(q, objs, links, st),
{
    if q.root_type != ObjectType::MemoryLink && node_present(objs, root_of(q))
        && q.failure_policy.timeout_ms != Some(0u64) && q.max_nodes != 0 {
        let init = initial_state(root_of(q));
        assert(init.visited.no_duplicates());
        assert(expansion_state_ok(q, objs, links, init));
        lemma_run_ok(q, objs, links, init);
    } else {
        let f = GraphExpansionBoundedFailure { reason: GraphExpansionBoundedFailureReason::NodeLimit, at: Some(root_of(q)) };
        assert(stopped_state(f).visited.no_duplicates());
        let g = GraphExpansionBoundedFailure { reason: GraphExpansionBoundedFailureReason::Timeout, at: Some(root_of(q)) };
        assert(stopped_state(g).visited.no_duplicates());
    }
}

/// Whether a query asks only for what the plain node-set expansion supports: depth,
/// node and object-type bounds, with default policies and no other caps.
pub open spec fn node_set_supported(q: GraphExpansionQuery) -> bool {
    &&& q.max_fanout_per_node == usize::MAX
    &&& q.max_hub_edges == usize::MAX
    &&& q.allowed_relation_types@.len() == 0
    &&& q.lifecycle_policy == default_lifecycle_policy()
    &&& q.failure_policy == default_failure_policy()
}

/// The message refusing a query the node-set expansion does not support.
pub open spec fn node_set_unsupported_message() -> Seq<char> {
    "bounded_expansion_node_set only supports basic depth/node/object-type bounds"@
}

/// The neighbors of `r` through the first `n` links, in link order, restricted to
/// the allowed object types.
pub open spec fn plain_neighbors(q: GraphExpansionQuery, links: Seq<MemoryLink>, r: GraphObjectRef, n: int) -> Seq<GraphObjectRef>
    decreases n,
{
    if n <= 0 {
        seq![]
    } else {
        let rest = plain_neighbors(q, links, r, n - 1);
        let l = links[n - 1];
        if touches(l, r) && object_type_ok(q, other_end(l, r).object_type) {
            rest.push(other_end(l, r))
        } else {
            rest
        }
    }
}

/// Node keys of nodes.
pub open spec fn node_keys(ns: Seq<GraphObjectRef>) -> Seq<SortKey> {
    ns.map_values(|r: GraphObjectRef| node_key(r))
}

/// The neighbors of `r`, stably ordered by node.
pub open spec fn sorted_neighbors(q: GraphExpansionQuery, links: Seq<MemoryLink>, r: GraphObjectRef) -> Seq<GraphObjectRef> {
    let ns = plain_neighbors(q, links, r, links.len() as int);
    sorted_by_keys(ns, node_keys(ns))
}

/// Queues neighbors at `depth + 1`; once visited and queued nodes reach the node
/// bound, only already visited neighbors are queued.
pub open spec fn queue_neighbors(
    q: GraphExpansionQuery,
    visited: Seq<GraphObjectRef>,
    queue: Seq<(GraphObjectRef, u8)>,
    depth: u8,
    nbs: Seq<GraphObjectRef>,
) -> Seq<(GraphObjectRef, u8)>
    decreases nbs.len(),
{
    if nbs.len() == 0 {
        queue
    } else {
        let qu = queue_neighbors(q, visited, queue, depth, nbs.drop_last());
        let nb = nbs.last();
        if visited.len() + qu.len() >= q.max_nodes && !visited.contains(nb) {
            qu
        } else {
            qu.push((nb, (depth + 1) as u8))
        }
    }
}

/// The plain breadth-first node-set expansion: each queued node not yet visited is
/// visited while the node bound allows, and, below the depth bound, queues its
/// neighbors.
pub open spec fn node_set_run(
    q: GraphExpansionQuery,
    links: Seq<MemoryLink>,
    visited: Seq<GraphObjectRef>,
    queue: Seq<(GraphObjectRef, u8)>,
) -> Seq<GraphObjectRef>
    decreases q.max_nodes - visited.len(), queue.len(),
{
    if queue.len() == 0 {
        visited
    } else {
        let (r, depth) = queue[0];
        let rest = queue.drop_first();
        if visited.len() >= q.max_nodes || visited.contains(r) {
            node_set_run(q, links, visited, rest)
        } else {
            let v2 = visited.push(r);
            if depth >= q.max_depth {
                node_set_run(q, links, v2, rest)
            } else {
                node_set_run(q, links, v2, queue_neighbors(q, v2, rest, depth, sorted_neighbors(q, links, r)))
            }
        }
    }
}

/// Nodes as identifier and type pairs.
pub open spec fn node_pairs(ns: Seq<GraphObjectRef>) -> Seq<(MemoryId, ObjectType)> {
    ns.map_values(|r: GraphObjectRef| (r.object_id, r.object_type))
}

/// Expands the plain node set around the query's root: the nodes reached breadth
/// first through any link, up to the depth and node bounds, restricted to the
/// allowed object types. Queries with other caps or non-default policies are refused.
pub fn bounded_expansion_node_set(
    q: &GraphExpansionQuery,
    root_exists: bool,
    links: &Vec<MemoryLink>,
) -> (r: Result<Vec<(MemoryId, ObjectType)>, CustomError>)
    ensures
        !node_set_supported(*q) ==> (r matches Err(CustomError::MemoryValidation(m)) && m@ == node_set_unsupported_message()),
        node_set_supported(*q) && q.root_type == ObjectType::MemoryLink ==> (r matches Err(CustomError::MemoryValidation(m))
            && m@ == link_root_message()),
        node_set_supported(*q) && q.root_type != ObjectType::MemoryLink && !root_exists ==> r == Err::<Vec<(MemoryId, ObjectType)>, CustomError>(
            CustomError::GraphExpansionRootNotFound { object_type: q.root_type, object_id: q.root_id }),
        node_set_supported(*q) && q.root_type != ObjectType::MemoryLink && root_exists ==> (r matches Ok(v)
            && v@ == node_pairs(node_set_run(*q, links@, seq![], seq![(root_of(*q), 0u8)]))),
{
    if q.max_fanout_per_node != usize::MAX || q.max_hub_edges != usize::MAX || q.allowed_relation_types.len() != 0
        || q.lifecycle_policy != GraphExpansionLifecyclePolicy::default()
        || q.failure_policy != GraphExpansionFailurePolicy::default() {
        return Err(CustomError::MemoryValidation(
            String::from_str("bounded_expansion_node_set only supports basic depth/node/object-type bounds"),
        ));
    }
    if q.root_type == ObjectType::MemoryLink {
        return Err(CustomError::MemoryValidation(String::from_str("bounded graph expansion does not support MemoryLink roots")));
    }
    if !root_exists {
        return Err(CustomError::GraphExpansionRootNotFound { object_type: q.root_type, object_id: q.root_id });
    }
    let root = GraphObjectRef { object_id: q.root_id, object_type: q.root_type };
    let ghost ls = links@;
    let ghost init = node_set_run(*q, ls, seq![], seq![(root, 0u8)]);
    if q.max_nodes == 0 {
        proof {
            assert(seq![(root, 0u8)].drop_first() =~= Seq::<(GraphObjectRef, u8)>::empty());
            assert(node_set_run(*q, ls, seq![], Seq::<(GraphObjectRef, u8)>::empty()) == Seq::<GraphObjectRef>::empty());
            assert(init == Seq::<GraphObjectRef>::empty());
        }
        let out: Vec<(MemoryId, ObjectType)> = Vec::new();
        proof {
            assert(out@ =~= node_pairs(init));
        }
        return Ok(out);
    }
    let mut visited: Vec<GraphObjectRef> = Vec::new();
    let mut queue: Vec<(GraphObjectRef, u8)> = Vec::new();
    queue.push((root, 0u8));
    let mut head: usize = 0;
    proof {
        assert(queue@.skip(0) =~= seq![(root, 0u8)]);
        assert(visited@ =~= Seq::<GraphObjectRef>::empty());
    }
    while head < queue.len()
        invariant
            ls == links@,
            head <= queue@.len(),
            visited@.len() <= q.max_nodes,
            node_set_run(*q, ls, visited@, queue@.skip(head as int)) == init,
        decreases q.max_nodes - visited@.len(), queue@.len() - head,
    {
        let ghost qs = queue@.skip(head as int);
        let (r, depth) = queue[head];
        head = head + 1;
        proof {
            assert(qs[0] == (r, depth));
            assert(queue@.skip(head as int) =~= qs.drop_first());
        }
        if visited.len() >= q.max_nodes || contains_ref(&visited, r) {
            continue;
        }
        visited.push(r);
        if depth >= q.max_depth {
            continue;
        }
        let mut nbs: Vec<GraphObjectRef> = Vec::new();
        let mut keys: Vec<SortKey> = Vec::new();
        let mut li: usize = 0;
        while li < links.len()
            invariant
                ls == links@,
                li <= links@.len(),
                nbs@ == plain_neighbors(*q, ls, r, li as int),
                keys@ == node_keys(nbs@),
            decreases links@.len() - li,
        {
            let l = &links[li];
            if link_touches_ref(l, r) {
                let nb = other_endpoint(l, r);
                if object_type_allowed(q, nb.object_type) {
                    keys.push(stable_node_key(nb));
                    nbs.push(nb);
                    proof {
                        assert(keys@ =~= node_keys(nbs@));
                    }
                }
            }
            li = li + 1;
        }
        let sorted = sort_by_keys(nbs, keys);
        let ghost rest0 = queue@.skip(head as int);
        proof {
            assert(sorted@.take(0) =~= Seq::<GraphObjectRef>::empty());
        }
        let mut j: usize = 0;
        while j < sorted.len()
            invariant
                head <= queue@.len(),
                j <= sorted@.len(),
                visited@.len() <= q.max_nodes,
                depth < q.max_depth,
                queue@.skip(head as int) == queue_neighbors(*q, visited@, rest0, depth, sorted@.take(j as int)),
            decreases sorted@.len() - j,
        {
            let nb = sorted[j];
            proof {
                assert(sorted@.take(j + 1).drop_last() =~= sorted@.take(j as int));
                assert(sorted@.take(j + 1).last() == nb);
            }
            let pending = queue.len() - head;
            if pending >= q.max_nodes - visited.len() && !contains_ref(&visited, nb) {
            } else {
                let ghost before = queue@.skip(head as int);
                queue.push((nb, depth + 1));
                proof {
                    assert(queue@.skip(head as int) =~= before.push((nb, (depth + 1) as u8)));
                }
            }
            j = j + 1;
        }
        proof {
            assert(sorted@.take(j as int) =~= sorted@);
        }
    }
    proof {
        assert(queue@.skip(head as int) =~= Seq::<(GraphObjectRef, u8)>::empty());
    }
    let mut out: Vec<(MemoryId, ObjectType)> = Vec::new();
    let mut k: usize = 0;
    while k < visited.len()
        invariant
            k <= visited@.len(),
            out@ == node_pairs(visited@.take(k as int)),
        decreases visited@.len() - k,
    {
        let v = visited[k];
        out.push((v.object_id, v.object_type));
        proof {
            assert(visited@.take(k + 1) =~= visited@.take(k as int).push(v));
            assert(out@ =~= node_pairs(visited@.take(k + 1)));
        }
        k = k + 1;
    }
    proof {
        assert(visited@.take(k as int) =~= visited@);
    }
    Ok(out)
}

proof fn lemma_node_set_run_bounds(
    q: GraphExpansionQuery,
    links: Seq<MemoryLink>,
    visited: Seq<GraphObjectRef>,
    queue: Seq<(GraphObjectRef, u8)>,
)
    requires
        visited.len() <= q.max_nodes,
        visited.no_duplicates(),
    ensures
        node_set_run(q, links, visited, queue).len() <= q.max_nodes,
        node_set_run(q, links, visited, queue).no_duplicates(),
    decreases q.max_nodes - visited.len(), queue.len(),
{
    if queue.len() > 0 {
        let (r, depth) = queue[0];
        let rest = queue.drop_first();
        if visited.len() >= q.max_nodes || visited.contains(r) {
            lemma_node_set_run_bounds(q, links, visited, rest);
        } else {
            let v2 = visited.push(r);
            assert(v2.no_duplicates()) by {
                assert forall|i: int, j: int| 0 <= i < v2.len() && 0 <= j < v2.len() && i != j implies v2[i] != v2[j] by {
                    if i < visited.len() && j < visited.len() {
                    } else if i < visited.len() {
                        assert(visited.contains(v2[i]));
                    } else if j < visited.len() {
                        assert(visited.contains(v2[j]));
                    }
                }
            }
            if depth >= q.max_depth {
                lemma_node_set_run_bounds(q, links, v2, rest);
            } else {
                lemma_node_set_run_bounds(q, links, v2, queue_neighbors(q, v2, rest, depth, sorted_neighbors(q, links, r)));
            }
        }
    }
}

/// The plain node-set expansion reaches each node at most once and no more than
/// `max_nodes` nodes.
pub proof fn law_node_set_bounds(q: GraphExpansionQuery, links: Seq<MemoryLink>)
    ensures
        node_set_run(q, links, seq![], seq![(root_of(q), 0u8)]).len() <= q.max_nodes,
        node_set_run(q, links, seq![], seq![(root_of(q), 0u8)]).no_duplicates(),
{
    lemma_node_set_run_bounds(q, links, seq![], seq![(root_of(q), 0u8)]);
}

/// Whether a node is selected by an object query (an empty selector selects every node).
pub open spec fn query_selects(q: GraphObjectQuery, r: GraphObjectRef) -> bool {
    &&& (q.object_refs@.len() == 0 || q.object_refs@.contains(r))
    &&& (q.object_ids@.len() == 0 || q.object_ids@.contains(r.object_id))
    &&& (q.object_types@.len() == 0 || q.object_types@.contains(r.object_type))
}

/// Whether a node is selected by an object query.
pub fn object_matches_query(object_ref: GraphObjectRef, q: &GraphObjectQuery) -> (b: bool)
    ensures
        b == query_selects(*q, object_ref),
{
    (q.object_refs.len() == 0 || contains_ref(&q.object_refs, object_ref))
        && (q.object_ids.len() == 0 || contains_id(&q.object_ids, object_ref.object_id))
        && (q.object_types.len() == 0 || contains_object_type(&q.object_types, object_ref.object_type))
}

/// Sorts nodes by identity, then type rank.
pub fn sort_graph_object_refs(refs: Vec<GraphObjectRef>) -> (r: Vec<GraphObjectRef>)
    ensures
        r@ == sorted_by_keys(refs@, node_keys(refs@)),
{
    let mut keys: Vec<SortKey> = Vec::new();
    let mut i: usize = 0;
    while i < refs.len()
        invariant
            i <= refs@.len(),
            keys@ == node_keys(refs@).take(i as int),
        decreases refs@.len() - i,
    {
        keys.push(stable_node_key(refs[i]));
        proof {
            assert(keys@ =~= node_keys(refs@).take(i + 1));
        }
        i = i + 1;
    }
    proof {
        assert(node_keys(refs@).take(i as int) =~= node_keys(refs@));
    }
    sort_by_keys(refs, keys)
}

/// What every state of an expansion keeps of its filtered nodes and its failure:
/// each filtered node is recorded with the reason the lifecycle policy gives it,
/// and no failure is remembered when partial results are refused.
pub open spec fn filtered_and_failure_ok(
    q: GraphExpansionQuery,
    objs: Seq<MemoryObject>,
    links: Seq<MemoryLink>,
    st: ExpansionState,
) -> bool {
    &&& forall|i: int| 0 <= i < st.filtered.len() ==> node_reason(objs, links, q.lifecycle_policy, (#[trigger] st.filtered[i]).object_ref)
        == Some(st.filtered[i].reason)
    &&& !q.failure_policy.allow_partial_results ==> st.failure is None
}

proof fn lemma_with_filtered_ok(
    q: GraphExpansionQuery,
    objs: Seq<MemoryObject>,
    links: Seq<MemoryLink>,
    st: ExpansionState,
    r: GraphObjectRef,
    reason: GraphExpansionFilteredReason,
)
    requires
        filtered_and_failure_ok(q, objs, links, st),
        node_reason(objs, links, q.lifecycle_policy, r) == Some(reason),
    ensures
        filtered_and_failure_ok(q, objs, links, ExpansionState { filtered: with_filtered(st.filtered, r, reason), ..st }),
{
}

proof fn lemma_neighbor_step_filtered_ok(
    q: GraphExpansionQuery,
    objs: Seq<MemoryObject>,
    links: Seq<MemoryLink>,
    st: ExpansionState,
    depth: u8,
    item: (usize, GraphObjectRef),
)
    requires
        filtered_and_failure_ok(q, objs, links, st),
    ensures
        neighbor_step(q, objs, links, st, depth, item) matches Ok(s) ==> filtered_and_failure_ok(q, objs, links, s),
{
    let l = links[item.0 as int];
    let nb = item.1;
    let st1 = if has_relation_for(st.relations, l.id) {
        st
    } else {
        ExpansionState {
            relations: st.relations.push(
                GraphExpansionRelation {
                    link_id: l.id,
                    from: link_from(l),
                    to: link_to(l),
                    relation: l.relation,
                    proximity: (depth + 1) as u8,
                },
            ),
            ..st
        }
    };
    assert(filtered_and_failure_ok(q, objs, links, st1));
    match node_reason(objs, links, q.lifecycle_policy, nb) {
        Some(reason) => {
            lemma_with_filtered_ok(q, objs, links, st1, nb, reason);
        },
        None => {},
    }
}

proof fn lemma_follow_links_filtered_ok(
    q: GraphExpansionQuery,
    objs: Seq<MemoryObject>,
    links: Seq<MemoryLink>,
    st: ExpansionState,
    depth: u8,
    items: Seq<(usize, GraphObjectRef)>,
)
    requires
        filtered_and_failure_ok(q, objs, links, st),
    ensures
        follow_links(q, objs, links, st, depth, items) matches Ok(s) ==> filtered_and_failure_ok(q, objs, links, s),
    decreases items.len(),
{
    if items.len() > 0 {
        lemma_follow_links_filtered_ok(q, objs, links, st, depth, items.drop_last());
        if let Ok(s) = follow_links(q, objs, links, st, depth, items.drop_last()) {
            lemma_neighbor_step_filtered_ok(q, objs, links, s, depth, items.last());
        }
    }
}

proof fn lemma_pop_step_filtered_ok(
    q: GraphExpansionQuery,
    objs: Seq<MemoryObject>,
    links: Seq<MemoryLink>,
    st: ExpansionState,
)
    requires
        st.queue.len() > 0,
        filtered_and_failure_ok(q, objs, links, st),
    ensures
        pop_step(q, objs, links, st) matches Ok(s) ==> filtered_and_failure_ok(q, objs, links, s),
{
    let (r, depth) = st.queue[0];
    let st1 = ExpansionState { queue: st.queue.drop_first(), ..st };
    let st2 = ExpansionState { visited: st1.visited.push(r), ..st1 };
    assert(filtered_and_failure_ok(q, objs, links, st1));
    assert(filtered_and_failure_ok(q, objs, links, st2));
    if !st1.visited.contains(r) && st1.visited.len() < q.max_nodes {
        match node_reason(objs, links, q.lifecycle_policy, r) {
            Some(reason) => {
                lemma_with_filtered_ok(q, objs, links, st1, r, reason);
            },
            None => {
                if depth < q.max_depth {
                    let inc = incident_sorted(q, objs, links, r);
                    let bound = GraphExpansionBoundedFailure {
                        reason: GraphExpansionBoundedFailureReason::HubLimit,
                        at: Some(r),
                    };
                    let cap = if q.max_fanout_per_node < q.max_hub_edges {
                        q.max_fanout_per_node
                    } else {
                        q.max_hub_edges
                    };
                    if inc.len() > q.max_hub_edges {
                        if let Ok(s) = on_bound(q, st2, bound) {
                            assert(filtered_and_failure_ok(q, objs, links, s));
                            lemma_follow_links_filtered_ok(q, objs, links, s, depth, at_most(inc, cap as int));
                        }
                    } else {
                        lemma_follow_links_filtered_ok(q, objs, links, st2, depth, at_most(inc, q.max_fanout_per_node as int));
                    }
                }
            },
        }
    }
}

proof fn lemma_run_filtered_ok(
    q: GraphExpansionQuery,
    objs: Seq<MemoryObject>,
    links: Seq<MemoryLink>,
    st: ExpansionState,
)
    requires
        filtered_and_failure_ok(q, objs, links, st),
    ensures
        run_expansion(q, objs, links, st) matches Ok(s) ==> filtered_and_failure_ok(q, objs, links, s),
    decreases q.max_nodes - st.visited.len(), st.queue.len(),
{
    if st.queue.len() > 0 {
        if let Ok(s) = pop_step(q, objs, links, st) {
            lemma_pop_step_measure(q, objs, links, st);
            lemma_pop_step_filtered_ok(q, objs, links, st);
            lemma_run_filtered_ok(q, objs, links, s);
        }
    }
}

/// A planned expansion never both visits and filters a node: every filtered node
/// is hidden by the lifecycle policy, for the reason recorded, while every visited
/// node is not; and an expansion that refuses partial results, when it is planned
/// at all, records no bound.
pub proof fn law_filtered_nodes_are_not_visited(q: GraphExpansionQuery, objs: Seq<MemoryObject>, links: Seq<MemoryLink>)
    requires
        links.len() <= usize::MAX,
    ensures
        plan_outcome(q, objs, links) matches PlanOutcome::Planned(st) ==> {
            &&& forall|i: int, j: int| 0 <= i < st.filtered.len() && 0 <= j < st.visited.len()
                ==> (#[trigger] st.filtered[i]).object_ref != #[trigger] st.visited[j]
            &&& forall|i: int| 0 <= i < st.filtered.len() ==> node_reason(objs, links, q.lifecycle_policy, (#[trigger] st.filtered[i]).object_ref)
                == Some(st.filtered[i].reason)
            &&& !q.failure_policy.allow_partial_results ==> st.failure is None
        },
{
    law_planned_expansion_bounds(q, objs, links);
    if q.root_type != ObjectType::MemoryLink && node_present(objs, root_of(q))
        && q.failure_policy.timeout_ms != Some(0u64) && q.max_nodes != 0 {
        let init = initial_state(root_of(q));
        assert(filtered_and_failure_ok(q, objs, links, init));
        lemma_run_filtered_ok(q, objs, links, init);
    }
    if let PlanOutcome::Planned(st) = plan_outcome(q, objs, links) {
        assert forall|i: int, j: int| 0 <= i < st.filtered.len() && 0 <= j < st.visited.len()
            implies (#[trigger] st.filtered[i]).object_ref != #[trigger] st.visited[j] by {
            assert(node_reason(objs, links, q.lifecycle_policy, st.visited[j]) is None);
            assert(node_reason(objs, links, q.lifecycle_policy, st.filtered[i].object_ref) is Some);
        }
    }
}

/// Whether two object lists hold the same nodes, each with the same lifecycle reason.
pub open spec fn same_nodes(
    objs: Seq<MemoryObject>,
    objs2: Seq<MemoryObject>,
    links: Seq<MemoryLink>,
    policy: GraphExpansionLifecyclePolicy,
) -> bool {
    &&& forall|r: GraphObjectRef| #![trigger node_present(objs, r)] #![trigger node_present(objs2, r)]
        node_present(objs, r) == node_present(objs2, r)
    &&& forall|r: GraphObjectRef| #![trigger node_reason(objs, links, policy, r)] #![trigger node_reason(objs2, links, policy, r)]
        node_reason(objs, links, policy, r) == node_reason(objs2, links, policy, r)
}

proof fn lemma_same_nodes_candidates(
    q: GraphExpansionQuery,
    objs: Seq<MemoryObject>,
    objs2: Seq<MemoryObject>,
    links: Seq<MemoryLink>,
    r: GraphObjectRef,
    n: int,
)
    requires
        same_nodes(objs, objs2, links, q.lifecycle_policy),
    ensures
        incident_candidates(q, objs, links, r, n) == incident_candidates(q, objs2, links, r, n),
    decreases n,
{
    if n > 0 {
        lemma_same_nodes_candidates(q, objs, objs2, links, r, n - 1);
        let nb = other_end(links[n - 1], r);
        assert(node_present(objs, nb) == node_present(objs2, nb));
    }
}

proof fn lemma_same_nodes_follow(
    q: GraphExpansionQuery,
    objs: Seq<MemoryObject>,
    objs2: Seq<MemoryObject>,
    links: Seq<MemoryLink>,
    st: ExpansionState,
    depth: u8,
    items: Seq<(usize, GraphObjectRef)>,
)
    requires
        same_nodes(objs, objs2, links, q.lifecycle_policy),
    ensures
        follow_links(q, objs, links, st, depth, items) == follow_links(q, objs2, links, st, depth, items),
    decreases items.len(),
{
    if items.len() > 0 {
        lemma_same_nodes_follow(q, objs, objs2, links, st, depth, items.drop_last());
        let nb = items.last().1;
        assert(node_reason(objs, links, q.lifecycle_policy, nb) == node_reason(objs2, links, q.lifecycle_policy, nb));
    }
}

proof fn lemma_same_nodes_pop(
    q: GraphExpansionQuery,
    objs: Seq<MemoryObject>,
    objs2: Seq<MemoryObject>,
    links: Seq<MemoryLink>,
    st: ExpansionState,
)
    requires
        st.queue.len() > 0,
        same_nodes(objs, objs2, links, q.lifecycle_policy),
    ensures
        pop_step(q, objs, links, st) == pop_step(q, objs2, links, st),
{
    let (r, depth) = st.queue[0];
    assert(node_reason(objs, links, q.lifecycle_policy, r) == node_reason(objs2, links, q.lifecycle_policy, r));
    lemma_same_nodes_candidates(q, objs, objs2, links, r, links.len() as int);
    let st1 = ExpansionState { queue: st.queue.drop_first(), ..st };
    let st2 = ExpansionState { visited: st1.visited.push(r), ..st1 };
    let inc = incident_sorted(q, objs, links, r);
    assert(inc == incident_sorted(q, objs2, links, r));
    let cap = if q.max_fanout_per_node < q.max_hub_edges {
        q.max_fanout_per_node
    } else {
        q.max_hub_edges
    };
    let bound = GraphExpansionBoundedFailure { reason: GraphExpansionBoundedFailureReason::HubLimit, at: Some(r) };
    if let Ok(s) = on_bound(q, st2, bound) {
        lemma_same_nodes_follow(q, objs, objs2, links, s, depth, at_most(inc, cap as int));
    }
    lemma_same_nodes_follow(q, objs, objs2, links, st2, depth, at_most(inc, q.max_fanout_per_node as int));
}

proof fn lemma_same_nodes_run(
    q: GraphExpansionQuery,
    objs: Seq<MemoryObject>,
    objs2: Seq<MemoryObject>,
    links: Seq<MemoryLink>,
    st: ExpansionState,
)
    requires
        same_nodes(objs, objs2, links, q.lifecycle_policy),
    ensures
        run_expansion(q, objs, links, st) == run_expansion(q, objs2, links, st),
    decreases q.max_nodes - st.visited.len(), st.queue.len(),
{
    if st.queue.len() > 0 {
        lemma_same_nodes_pop(q, objs, objs2, links, st);
        if let Ok(s) = pop_step(q, objs, links, st) {
            lemma_pop_step_measure(q, objs, links, st);
            lemma_same_nodes_run(q, objs, objs2, links, s);
        }
    }
}

/// Whether no two objects are the same node.
pub open spec fn distinct_nodes(objs: Seq<MemoryObject>) -> bool {
    forall|i: int, j: int| 0 <= i < objs.len() && 0 <= j < objs.len() && i != j
        ==> graph_ref_of(#[trigger] objs[i]) != graph_ref_of(#[trigger] objs[j])
}

proof fn lemma_node_reason_of(
    objs: Seq<MemoryObject>,
    links: Seq<MemoryLink>,
    policy: GraphExpansionLifecyclePolicy,
    r: GraphObjectRef,
)
    requires
        distinct_nodes(objs),
    ensures
        (forall|i: int| 0 <= i < objs.len() ==> graph_ref_of(#[trigger] objs[i]) != r) ==> node_reason(objs, links, policy, r) is None,
        forall|i: int| 0 <= i < objs.len() && graph_ref_of(#[trigger] objs[i]) == r ==> node_reason(objs, links, policy, r)
            == lifecycle_reason(objs[i], links, policy),
    decreases objs.len(),
{
    if objs.len() > 0 {
        let rest = objs.drop_last();
        assert forall|i: int, j: int| 0 <= i < rest.len() && 0 <= j < rest.len() && i != j
            implies graph_ref_of(#[trigger] rest[i]) != graph_ref_of(#[trigger] rest[j]) by {
            assert(rest[i] == objs[i] && rest[j] == objs[j]);
        }
        lemma_node_reason_of(rest, links, policy, r);
        assert forall|i: int| 0 <= i < objs.len() && graph_ref_of(#[trigger] objs[i]) == r implies node_reason(objs, links, policy, r)
            == lifecycle_reason(objs[i], links, policy) by {
            if i < objs.len() - 1 {
                assert(rest[i] == objs[i]);
                assert(graph_ref_of(objs[objs.len() - 1]) != graph_ref_of(objs[i]));
            }
        }
        if forall|i: int| 0 <= i < objs.len() ==> graph_ref_of(#[trigger] objs[i]) != r {
            assert(graph_ref_of(objs[objs.len() - 1]) != r);
            assert forall|i: int| 0 <= i < rest.len() implies graph_ref_of(#[trigger] rest[i]) != r by {
                assert(rest[i] == objs[i]);
            }
        }
    }
}

proof fn lemma_permuted_same_nodes(
    objs: Seq<MemoryObject>,
    objs2: Seq<MemoryObject>,
    links: Seq<MemoryLink>,
    policy: GraphExpansionLifecyclePolicy,
)
    requires
        distinct_nodes(objs),
        distinct_nodes(objs2),
        objs.to_multiset() == objs2.to_multiset(),
    ensures
        same_nodes(objs, objs2, links, policy),
{
    broadcast use vstd::seq_lib::to_multiset_contains;
    assert forall|r: GraphObjectRef| node_present(objs, r) implies node_present(objs2, r) by {
        let i = choose|i: int| 0 <= i < objs.len() && graph_ref_of(#[trigger] objs[i]) == r;
        assert(objs.contains(objs[i]));
        assert(objs.to_multiset().count(objs[i]) > 0);
        assert(objs2.to_multiset().count(objs[i]) > 0);
        assert(objs2.contains(objs[i]));
        let j = choose|j: int| 0 <= j < objs2.len() && objs2[j] == objs[i];
        assert(graph_ref_of(objs2[j]) == r);
    }
    assert forall|r: GraphObjectRef| node_present(objs2, r) implies node_present(objs, r) by {
        let i = choose|i: int| 0 <= i < objs2.len() && graph_ref_of(#[trigger] objs2[i]) == r;
        assert(objs2.contains(objs2[i]));
        assert(objs2.to_multiset().count(objs2[i]) > 0);
        assert(objs.to_multiset().count(objs2[i]) > 0);
        assert(objs.contains(objs2[i]));
        let j = choose|j: int| 0 <= j < objs.len() && objs[j] == objs2[i];
        assert(graph_ref_of(objs[j]) == r);
    }
    assert forall|r: GraphObjectRef| node_reason(objs, links, policy, r) == node_reason(objs2, links, policy, r) by {
        lemma_node_reason_of(objs, links, policy, r);
        lemma_node_reason_of(objs2, links, policy, r);
        if exists|i: int| 0 <= i < objs.len() && graph_ref_of(#[trigger] objs[i]) == r {
            let i = choose|i: int| 0 <= i < objs.len() && graph_ref_of(#[trigger] objs[i]) == r;
            assert(objs.contains(objs[i]));
            assert(objs.to_multiset().count(objs[i]) > 0);
            assert(objs2.to_multiset().count(objs[i]) > 0);
            assert(objs2.contains(objs[i]));
            let j = choose|j: int| 0 <= j < objs2.len() && objs2[j] == objs[i];
            assert(graph_ref_of(objs2[j]) == r);
        } else if exists|j: int| 0 <= j < objs2.len() && graph_ref_of(#[trigger] objs2[j]) == r {
            let j = choose|j: int| 0 <= j < objs2.len() && graph_ref_of(#[trigger] objs2[j]) == r;
            assert(objs2.contains(objs2[j]));
            assert(objs2.to_multiset().count(objs2[j]) > 0);
            assert(objs.to_multiset().count(objs2[j]) > 0);
            assert(objs.contains(objs2[j]));
            let i = choose|i: int| 0 <= i < objs.len() && objs[i] == objs2[j];
            assert(graph_ref_of(objs[i]) == r);
        }
    }
}

/// The order in which the objects are given does not matter to an expansion plan:
/// for objects that are pairwise distinct nodes, any reordering of them gives the
/// same outcome (the same plan, or the same refusal).
pub proof fn law_plan_ignores_object_order(
    q: GraphExpansionQuery,
    objs: Seq<MemoryObject>,
    objs2: Seq<MemoryObject>,
    links: Seq<MemoryLink>,
)
    requires
        distinct_nodes(objs),
        distinct_nodes(objs2),
        objs.to_multiset() == objs2.to_multiset(),
    ensures
        plan_outcome(q, objs, links) == plan_outcome(q, objs2, links),
{
    lemma_permuted_same_nodes(objs, objs2, links, q.lifecycle_policy);
    assert(node_present(objs, root_of(q)) == node_present(objs2, root_of(q)));
    lemma_same_nodes_run(q, objs, objs2, links, initial_state(root_of(q)));
}

/// The text a missing-root refusal is shown with: `Graph expansion root not found:`,
/// the root's type by name and its identity.
pub open spec fn root_not_found_text(object_type: ObjectType, object_id: MemoryId) -> Seq<char> {
    "Graph expansion root not found: "@ + crate::domain::object_type_variant_name(object_type) + " "@
        + crate::ids::uuid_hyphenated(object_id)
}

/// The text of `CustomError::GraphExpansionRootNotFound { object_type, object_id }`.
pub fn root_not_found_message(object_type: ObjectType, object_id: MemoryId) -> (r: String)
    ensures
        r@ == root_not_found_text(object_type, object_id),
{
    let mut m = String::from_str("Graph expansion root not found: ");
    m.append(object_type.variant_name());
    m.append(" ");
    let id = crate::ids::uuid_text(object_id);
    m.append(id.as_str());
    proof {
        reveal_strlit("Graph expansion root not found: ");
        reveal_strlit(" ");
    }
    m
}


/// A retention state hides an object exactly when it is not active and the policy
/// does not include objects in that state, and the reason is named after the state:
/// archived, suppressed and deleted objects are hidden as archived, suppressed and
/// deleted unless the policy includes them; an active object is never hidden by its
/// retention.
pub proof fn law_retention_reason_names_the_state(state: RetentionState, policy: GraphExpansionLifecyclePolicy)
    ensures
        (retention_reason(state, policy) == Some(GraphExpansionFilteredReason::Archived))
            <==> (state == RetentionState::Archived && !policy.include_archived),
        (retention_reason(state, policy) == Some(GraphExpansionFilteredReason::Suppressed))
            <==> (state == RetentionState::Suppressed && !policy.include_suppressed),
        (retention_reason(state, policy) == Some(GraphExpansionFilteredReason::Deleted))
            <==> (state == RetentionState::Deleted && !policy.include_deleted),
        (retention_reason(state, policy) is None) <==> ({
            ||| state == RetentionState::Active
            ||| (state == RetentionState::Archived && policy.include_archived)
            ||| (state == RetentionState::Suppressed && policy.include_suppressed)
            ||| (state == RetentionState::Deleted && policy.include_deleted)
        }),
{
}

/// An episode, observation or derived memory in a retention state that the query's
/// lifecycle policy does not include is hidden for the reason named after that
/// state, and a planned expansion never visits it.
pub proof fn law_excluded_retention_is_never_visited(
    q: GraphExpansionQuery,
    objs: Seq<MemoryObject>,
    links: Seq<MemoryLink>,
    i: int,
    state: RetentionState,
)
    requires
        links.len() <= usize::MAX,
        distinct_nodes(objs),
        0 <= i < objs.len(),
        (objs[i] matches MemoryObject::Episode(e) && e.retention_state == state)
            || (objs[i] matches MemoryObject::Observation(o) && o.retention_state == state)
            || (objs[i] matches MemoryObject::DerivedMemory(m) && m.retention_state == state),
        (state == RetentionState::Archived && !q.lifecycle_policy.include_archived)
            || (state == RetentionState::Suppressed && !q.lifecycle_policy.include_suppressed)
            || (state == RetentionState::Deleted && !q.lifecycle_policy.include_deleted),
    ensures
        node_reason(objs, links, q.lifecycle_policy, graph_ref_of(objs[i])) == Some(
            if state == RetentionState::Archived {
                GraphExpansionFilteredReason::Archived
            } else if state == RetentionState::Suppressed {
                GraphExpansionFilteredReason::Suppressed
            } else {
                GraphExpansionFilteredReason::Deleted
            },
        ),
        plan_outcome(q, objs, links) matches PlanOutcome::Planned(st) ==> !st.visited.contains(graph_ref_of(objs[i])),
{
    lemma_node_reason_of(objs, links, q.lifecycle_policy, graph_ref_of(objs[i]));
    law_planned_expansion_bounds(q, objs, links);
}

/// A `DerivedFrom` link between a derived memory and one of the queried source
/// episodes or observations, in either direction, ties that derived memory to the
/// sources: it matches the provenance, and a provenance query selects it unless its
/// lifecycle hides it.
pub proof fn law_derived_from_link_ties_provenance(
    q: GraphDerivedMemoryProvenanceQuery,
    links: Seq<MemoryLink>,
    k: int,
    m: DerivedMemory,
)
    requires
        0 <= k < links.len(),
        links[k].relation == RelationType::DerivedFrom,
        ({
            let l = links[k];
            ||| (l.from_type == ObjectType::DerivedMemory && l.from_id == m.id && l.to_type == ObjectType::Episode
                && q.episode_ids@.contains(l.to_id))
            ||| (l.from_type == ObjectType::DerivedMemory && l.from_id == m.id && l.to_type == ObjectType::Observation
                && q.observation_ids@.contains(l.to_id))
            ||| (l.to_type == ObjectType::DerivedMemory && l.to_id == m.id && l.from_type == ObjectType::Episode
                && q.episode_ids@.contains(l.from_id))
            ||| (l.to_type == ObjectType::DerivedMemory && l.to_id == m.id && l.from_type == ObjectType::Observation
                && q.observation_ids@.contains(l.from_id))
        }),
    ensures
        provenance_linked(q.episode_ids@, q.observation_ids@, links, m.id),
        matches_provenance(q.episode_ids@, q.observation_ids@, m, links),
        derived_reason(m, is_superseded_by_links(links, m.id), q.lifecycle_policy) is None
            ==> provenance_selects(q, links, m),
{
    assert(provenance_link_target(q.episode_ids@, q.observation_ids@, links[k]) == Some(m.id));
}


/// The lifecycle of a derived memory hides it first for its retention, then for not
/// being current, then for being superseded, each unless the policy includes it; a
/// memory thread is hidden only when archived and archived objects are not included;
/// an entity is never hidden.
pub proof fn law_derived_and_thread_lifecycle(
    o: MemoryObject,
    links: Seq<MemoryLink>,
    policy: GraphExpansionLifecyclePolicy,
)
    ensures
        o matches MemoryObject::DerivedMemory(m) ==> {
            let kept_by_retention = retention_reason(m.retention_state, policy) is None;
            &&& !kept_by_retention ==> lifecycle_reason(o, links, policy) == retention_reason(m.retention_state, policy)
            &&& (lifecycle_reason(o, links, policy) == Some(GraphExpansionFilteredReason::NonCurrent))
                <==> (kept_by_retention && !m.is_current && !policy.include_non_current)
            &&& (lifecycle_reason(o, links, policy) == Some(GraphExpansionFilteredReason::Superseded))
                <==> (kept_by_retention && (m.is_current || policy.include_non_current)
                && is_superseded_by_links(links, m.id) && !policy.include_superseded)
        },
        o matches MemoryObject::MemoryThread(t) ==> lifecycle_reason(o, links, policy) == (if t.status
            == ThreadStatus::Archived && !policy.include_archived {
            Some(GraphExpansionFilteredReason::Archived)
        } else {
            None::<GraphExpansionFilteredReason>
        }),
        o is Entity ==> lifecycle_reason(o, links, policy) is None,
{
}

} // verus!
