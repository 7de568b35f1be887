//! Frontier-at-a-time expansion against a store that reports links by reference:
//! which incident links of a frontier node are followed, under the hub bound, the
//! node fanout cap and the per-(relation, neighbor type) caps of selectivity
//! planning.

use vstd::prelude::*;
use crate::domain::{MemoryId, ObjectType, RelationType, object_type_rank, relation_type_rank};
use crate::graph::{
    GraphObjectRef, GraphExpansionQuery, GraphExpansionBoundedFailure,
    GraphExpansionBoundedFailureReason, GraphExpansionFanoutOverride, relation_ok, object_type_ok,
    relation_allowed, object_type_allowed, is_bounded_error, graph_expansion_bounded_error,
    first_failure, at_most,
};
use crate::sorting::{SortKey, sort_by_keys, sorted_by_keys};
use crate::errors::CustomError;

verus! {

/// A link as a store reports it: identity, endpoints and relation.
#[derive(Debug, Clone, Copy, PartialEq, Eq, Structural)]
pub struct LinkRef {
    pub link_id: MemoryId,
    pub from: GraphObjectRef,
    pub to: GraphObjectRef,
    pub relation: RelationType,
}

/// Whether the link has `r` at either end.
pub open spec fn ref_touches(l: LinkRef, r: GraphObjectRef) -> bool {
    l.from == r || l.to == r
}

/// The end of the link opposite to `r` (its target when `r` is its source).
pub open spec fn ref_other(l: LinkRef, r: GraphObjectRef) -> GraphObjectRef {
    if l.from == r {
        l.to
    } else {
        l.from
    }
}

impl LinkRef {
    /// Whether the link has `r` at either end.
    pub fn touches(&self, r: GraphObjectRef) -> (b: bool)
        ensures
            b == ref_touches(*self, r),
    {
        self.from == r || self.to == r
    }

    /// The end of the link opposite to `r`.
    pub fn other_endpoint(&self, r: GraphObjectRef) -> (o: GraphObjectRef)
        ensures
            o == ref_other(*self, r),
    {
        if self.from == r {
            self.to
        } else {
            self.from
        }
    }
}

/// Ordering key of a link reference: target, source, identity, then the ranks.
pub open spec fn link_ref_key(l: LinkRef) -> SortKey {
    (
        l.to.object_id,
        l.from.object_id,
        l.link_id,
        object_type_rank(l.to.object_type),
        object_type_rank(l.from.object_type),
        relation_type_rank(l.relation),
    )
}

/// Ordering key of a link reference.
pub fn stable_link_ref_key(l: LinkRef) -> (k: SortKey)
    ensures
        k == link_ref_key(l),
{
    (
        l.to.object_id,
        l.from.object_id,
        l.link_id,
        l.to.object_type.stable_rank(),
        l.from.object_type.stable_rank(),
        l.relation.stable_rank(),
    )
}

/// The cap of the first override for the pair, if any.
pub open spec fn override_for(os: Seq<GraphExpansionFanoutOverride>, rel: RelationType, t: ObjectType) -> Option<usize>
    decreases os.len(),
{
    if os.len() == 0 {
        None
    } else if os[0].relation == rel && os[0].object_type == t {
        Some(os[0].max_fanout)
    } else {
        override_for(os.drop_first(), rel, t)
    }
}

/// The fanout cap of a (relation, neighbor type) pair: its override, or the node
/// cap, never above the node cap.
pub open spec fn pair_limit(q: GraphExpansionQuery, rel: RelationType, t: ObjectType) -> usize {
    let base = match override_for(q.fanout_overrides@, rel, t) {
        Some(m) => m,
        None => q.max_fanout_per_node,
    };
    if base < q.max_fanout_per_node {
        base
    } else {
        q.max_fanout_per_node
    }
}

/// The fanout cap of a (relation, neighbor type) pair.
pub fn fanout_limit_for_pair(q: &GraphExpansionQuery, relation: RelationType, object_type: ObjectType) -> (m: usize)
    ensures
        m == pair_limit(*q, relation, object_type),
{
    let mut i: usize = 0;
    proof {
        assert(q.fanout_overrides@.skip(0) =~= q.fanout_overrides@);
    }
    while i < q.fanout_overrides.len()
        invariant
            i <= q.fanout_overrides@.len(),
            override_for(q.fanout_overrides@, relation, object_type) == override_for(
                q.fanout_overrides@.skip(i as int),
                relation,
                object_type,
            ),
        decreases q.fanout_overrides@.len() - i,
    {
        let o = q.fanout_overrides[i];
        proof {
            assert(q.fanout_overrides@.skip(i as int)[0] == o);
            assert(q.fanout_overrides@.skip(i as int).drop_first() =~= q.fanout_overrides@.skip(i + 1));
        }
        if o.relation == relation && o.object_type == object_type {
            let m = o.max_fanout;
            return if m < q.max_fanout_per_node {
                m
            } else {
                q.max_fanout_per_node
            };
        }
        i = i + 1;
    }
    proof {
        assert(q.fanout_overrides@.skip(i as int) =~= Seq::<GraphExpansionFanoutOverride>::empty());
    }
    q.max_fanout_per_node
}

/// How many retained links have the relation and lead from `r` to a node of type `t`.
pub open spec fn pair_count(k: Seq<LinkRef>, r: GraphObjectRef, rel: RelationType, t: ObjectType) -> nat
    decreases k.len(),
{
    if k.len() == 0 {
        0
    } else {
        pair_count(k.drop_last(), r, rel, t) + if k.last().relation == rel && ref_other(k.last(), r).object_type == t {
            1nat
        } else {
            0nat
        }
    }
}

/// The links retained under the per-pair caps, in order, up to the node cap.
pub open spec fn pair_retained(q: GraphExpansionQuery, r: GraphObjectRef, links: Seq<LinkRef>) -> Seq<LinkRef>
    decreases links.len(),
{
    if links.len() == 0 {
        links
    } else {
        let k = pair_retained(q, r, links.drop_last());
        let l = links.last();
        let t = ref_other(l, r).object_type;
        if k.len() >= q.max_fanout_per_node || pair_count(k, r, l.relation, t) >= pair_limit(q, l.relation, t) {
            k
        } else {
            k.push(l)
        }
    }
}

/// The links followed from a node: the first `max_fanout_per_node` ones, or, where
/// selectivity overrides exist and apply, those retained under the per-pair caps.
pub open spec fn fanout_limited(q: GraphExpansionQuery, r: GraphObjectRef, links: Seq<LinkRef>, apply: bool) -> Seq<LinkRef> {
    if q.fanout_overrides@.len() == 0 || !apply {
        at_most(links, q.max_fanout_per_node as int)
    } else {
        pair_retained(q, r, links)
    }
}

fn count_pair(retained: &Vec<LinkRef>, r: GraphObjectRef, rel: RelationType, t: ObjectType) -> (c: usize)
    ensures
        c == pair_count(retained@, r, rel, t),
{
    let mut c: usize = 0;
    let mut i: usize = 0;
    proof {
        assert(retained@.take(0) =~= Seq::<LinkRef>::empty());
    }
    while i < retained.len()
        invariant
            i <= retained@.len(),
            c == pair_count(retained@.take(i as int), r, rel, t),
            c <= i,
        decreases retained@.len() - i,
    {
        let l = retained[i];
        proof {
            assert(retained@.take(i + 1).drop_last() =~= retained@.take(i as int));
            assert(retained@.take(i + 1).last() == l);
        }
        if l.relation == rel && l.other_endpoint(r).object_type == t {
            c = c + 1;
        }
        i = i + 1;
    }
    proof {
        assert(retained@.take(i as int) =~= retained@);
    }
    c
}

/// Limits the links followed from `object_ref`: by the node cap alone, or, when
/// selectivity overrides apply, by the per-pair caps as well.
pub fn apply_link_ref_fanout_limits(
    q: &GraphExpansionQuery,
    object_ref: GraphObjectRef,
    incident: Vec<LinkRef>,
    apply_selectivity_overrides: bool,
) -> (out: Vec<LinkRef>)
    ensures
        out@ == fanout_limited(*q, object_ref, incident@, apply_selectivity_overrides),
{
    if q.fanout_overrides.len() == 0 || !apply_selectivity_overrides {
        let mut v = incident;
        v.truncate(q.max_fanout_per_node);
        proof {
            if q.max_fanout_per_node < incident@.len() {
                assert(v@ =~= incident@.take(q.max_fanout_per_node as int));
            } else {
                assert(v@ =~= incident@);
            }
        }
        return v;
    }
    let mut retained: Vec<LinkRef> = Vec::new();
    let mut i: usize = 0;
    proof {
        assert(incident@.take(0) =~= Seq::<LinkRef>::empty());
    }
    while i < incident.len()
        invariant
            i <= incident@.len(),
            retained@ == pair_retained(*q, object_ref, incident@.take(i as int)),
        decreases incident@.len() - i,
    {
        let l = incident[i];
        proof {
            assert(incident@.take(i + 1).drop_last() =~= incident@.take(i as int));
            assert(incident@.take(i + 1).last() == l);
        }
        if retained.len() < q.max_fanout_per_node {
            let t = l.other_endpoint(object_ref).object_type;
            let limit = fanout_limit_for_pair(q, l.relation, t);
            if count_pair(&retained, object_ref, l.relation, t) < limit {
                retained.push(l);
            }
        }
        i = i + 1;
    }
    proof {
        assert(incident@.take(i as int) =~= incident@);
    }
    retained
}

/// The links of `refs` that `r` may follow: allowed relation, touching `r`, leading
/// to an allowed node type, in their given order.
pub open spec fn incident_refs(q: GraphExpansionQuery, r: GraphObjectRef, refs: Seq<LinkRef>) -> Seq<LinkRef>
    decreases refs.len(),
{
    if refs.len() == 0 {
        refs
    } else {
        let k = incident_refs(q, r, refs.drop_last());
        let l = refs.last();
        if relation_ok(q, l.relation) && ref_touches(l, r) && object_type_ok(q, ref_other(l, r).object_type) {
            k.push(l)
        } else {
            k
        }
    }
}

/// Ordering keys of link references.
pub open spec fn link_ref_keys(ls: Seq<LinkRef>) -> Seq<SortKey> {
    ls.map_values(|l: LinkRef| link_ref_key(l))
}

/// The incident links of `r`, stably ordered by link key.
pub open spec fn sorted_incident_refs(q: GraphExpansionQuery, r: GraphObjectRef, refs: Seq<LinkRef>) -> Seq<LinkRef> {
    let inc = incident_refs(q, r, refs);
    sorted_by_keys(inc, link_ref_keys(inc))
}

/// Whether selectivity overrides apply at a node: only at the root, at depth zero.
pub open spec fn overrides_apply(root: GraphObjectRef, r: GraphObjectRef, depth: u8) -> bool {
    depth == 0 && r == root
}

/// What frontier node `r`, at `depth`, follows among `refs`: its incident links in
/// link order; at a hub (more than `max_hub_edges` of them) the hub bound either
/// fails the expansion or is recorded once (after `failure`) and the links are cut
/// to the hub cap; then the fanout caps apply. The result also carries the bounded
/// failure kept afterwards.
pub open spec fn incident_selection(
    q: GraphExpansionQuery,
    root: GraphObjectRef,
    r: GraphObjectRef,
    depth: u8,
    refs: Seq<LinkRef>,
    failure: Option<GraphExpansionBoundedFailure>,
) -> Result<(Seq<LinkRef>, Option<GraphExpansionBoundedFailure>), GraphExpansionBoundedFailure> {
    let inc = sorted_incident_refs(q, r, refs);
    let f = GraphExpansionBoundedFailure { reason: GraphExpansionBoundedFailureReason::HubLimit, at: Some(r) };
    let apply = overrides_apply(root, r, depth);
    if inc.len() > q.max_hub_edges {
        if !q.failure_policy.allow_partial_results {
            Err(f)
        } else {
            Ok((fanout_limited(q, r, inc.take(q.max_hub_edges as int), apply), first_failure(failure, f)))
        }
    } else {
        Ok((fanout_limited(q, r, inc, apply), failure))
    }
}

/// Selects the links that frontier node `object_ref`, at `depth`, follows, as
/// `incident_selection` says, and keeps the bounded failure it records.
pub fn bounded_incident_link_refs(
    q: &GraphExpansionQuery,
    root_ref: GraphObjectRef,
    object_ref: GraphObjectRef,
    depth: u8,
    link_refs: &Vec<LinkRef>,
    bounded_failure: &mut Option<GraphExpansionBoundedFailure>,
) -> (r: Result<Vec<LinkRef>, CustomError>)
    ensures
        (match incident_selection(*q, root_ref, object_ref, depth, link_refs@, *old(bounded_failure)) {
            Err(f) => r matches Err(e) && is_bounded_error(e, f) && *final(bounded_failure) == *old(bounded_failure),
            Ok(sel) => r matches Ok(v) && v@ == sel.0 && *final(bounded_failure) == sel.1,
        }),
{
    let mut inc: Vec<LinkRef> = Vec::new();
    let mut keys: Vec<SortKey> = Vec::new();
    let mut i: usize = 0;
    proof {
        assert(link_refs@.take(0) =~= Seq::<LinkRef>::empty());
    }
    while i < link_refs.len()
        invariant
            i <= link_refs@.len(),
            inc@ == incident_refs(*q, object_ref, link_refs@.take(i as int)),
            keys@ == link_ref_keys(inc@),
        decreases link_refs@.len() - i,
    {
        let l = link_refs[i];
        proof {
            assert(link_refs@.take(i + 1).drop_last() =~= link_refs@.take(i as int));
            assert(link_refs@.take(i + 1).last() == l);
        }
        if relation_allowed(q, l.relation) && l.touches(object_ref) && object_type_allowed(
            q,
            l.other_endpoint(object_ref).object_type,
        ) {
            keys.push(stable_link_ref_key(l));
            inc.push(l);
            proof {
                assert(keys@ =~= link_ref_keys(inc@));
            }
        }
        i = i + 1;
    }
    proof {
        assert(link_refs@.take(i as int) =~= link_refs@);
    }
    let mut sorted = sort_by_keys(inc, keys);
    if sorted.len() > q.max_hub_edges {
        let f = GraphExpansionBoundedFailure {
            reason: GraphExpansionBoundedFailureReason::HubLimit,
            at: Some(object_ref),
        };
        if !q.failure_policy.allow_partial_results {
            return Err(graph_expansion_bounded_error(f));
        }
        if bounded_failure.is_none() {
            *bounded_failure = Some(f);
        }
        let ghost full = sorted@;
        sorted.truncate(q.max_hub_edges);
        proof {
            assert(sorted@ =~= full.take(q.max_hub_edges as int));
        }
    }
    let apply = depth == 0 && object_ref == root_ref;
    Ok(apply_link_ref_fanout_limits(q, object_ref, sorted, apply))
}

proof fn lemma_pair_retained_len(q: GraphExpansionQuery, r: GraphObjectRef, links: Seq<LinkRef>)
    ensures
        pair_retained(q, r, links).len() <= q.max_fanout_per_node,
        pair_retained(q, r, links).len() <= links.len(),
    decreases links.len(),
{
    if links.len() > 0 {
        lemma_pair_retained_len(q, r, links.drop_last());
    }
}

/// A node never follows more links than its fanout cap, nor more than it has.
pub proof fn law_fanout_within_node_cap(q: GraphExpansionQuery, r: GraphObjectRef, links: Seq<LinkRef>, apply: bool)
    ensures
        fanout_limited(q, r, links, apply).len() <= q.max_fanout_per_node,
        fanout_limited(q, r, links, apply).len() <= links.len(),
{
    lemma_pair_retained_len(q, r, links);
}

} // verus!
