//! Why an expansion plan does not depend on the order in which the links are
//! given: each node's incident links are followed in link-key order, and a link's
//! position in the input plays no other part.

use vstd::prelude::*;
use crate::domain::{MemoryId, ObjectType};
use crate::graph::{
    ExpansionState, GraphExpansionBoundedFailure, GraphExpansionBoundedFailureReason,
    GraphExpansionLifecyclePolicy, GraphExpansionQuery, GraphObjectRef, PlanOutcome, at_most,
    expand_node, follow_links, incident_candidates, incident_keys, incident_sorted,
    initial_state, is_superseded_by_links, lemma_pop_step_measure, lifecycle_reason, link_key,
    neighbor_step, node_present, node_reason, object_type_ok, on_bound, other_end, plan_outcome,
    pop_step, relation_ok, root_of, run_expansion, touches,
};
use crate::objects::{MemoryLink, MemoryObject};
use crate::sorting::{
    SortKey, key_lt, keyed, keys_ordered, lemma_sort_elements, lemma_sort_len, lemma_sort_map,
    lemma_sort_multiset, lemma_sort_ordered, lemma_strictly_ordered_unique, map_items,
    sort_by_key_spec, sorted_by_keys,
};

verus! {

/// Whether no two links share an identity.
pub open spec fn distinct_link_ids(links: Seq<MemoryLink>) -> bool {
    forall|i: int, j: int| 0 <= i < links.len() && 0 <= j < links.len() && i != j
        ==> (#[trigger] links[i]).id != (#[trigger] links[j]).id
}

/// Incident items with their positions replaced by the links they name.
pub open spec fn resolve(links: Seq<MemoryLink>, items: Seq<(usize, GraphObjectRef)>) -> Seq<(MemoryLink, GraphObjectRef)> {
    items.map_values(|x: (usize, GraphObjectRef)| (links[x.0 as int], x.1))
}

/// Whether a link may be followed from `r`.
pub open spec fn followable_from(q: GraphExpansionQuery, objs: Seq<MemoryObject>, l: MemoryLink, r: GraphObjectRef) -> bool {
    relation_ok(q, l.relation) && touches(l, r) && node_present(objs, other_end(l, r)) && object_type_ok(
        q,
        other_end(l, r).object_type,
    )
}

proof fn lemma_candidates_shape(
    q: GraphExpansionQuery,
    objs: Seq<MemoryObject>,
    links: Seq<MemoryLink>,
    r: GraphObjectRef,
    n: int,
)
    requires
        0 <= n <= links.len(),
        links.len() <= usize::MAX,
    ensures
        ({
            let c = incident_candidates(q, objs, links, r, n);
            &&& forall|k: int| 0 <= k < c.len() ==> (#[trigger] c[k]).0 < n && c[k].1 == other_end(links[c[k].0 as int], r)
                && followable_from(q, objs, links[c[k].0 as int], r)
            &&& forall|k: int, m: int| 0 <= k < m < c.len() ==> (#[trigger] c[k]).0 < (#[trigger] c[m]).0
            &&& forall|m: int| 0 <= m < n && followable_from(q, objs, #[trigger] links[m], r) ==> exists|k: int|
                0 <= k < c.len() && (#[trigger] c[k]).0 == m
        }),
    decreases n,
{
    if n > 0 {
        lemma_candidates_shape(q, objs, links, r, n - 1);
        let rest = incident_candidates(q, objs, links, r, n - 1);
        let c = incident_candidates(q, objs, links, r, n);
        if followable_from(q, objs, links[n - 1], r) {
            assert(c == rest.push(((n - 1) as usize, other_end(links[n - 1], r))));
            assert forall|m: int| 0 <= m < n && followable_from(q, objs, #[trigger] links[m], r) implies exists|k: int|
                0 <= k < c.len() && (#[trigger] c[k]).0 == m by {
                if m == n - 1 {
                    assert(c[rest.len() as int] == ((n - 1) as usize, other_end(links[n - 1], r)));
                    assert(c[rest.len() as int].0 == m);
                } else {
                    let k = choose|k: int| 0 <= k < rest.len() && (#[trigger] rest[k]).0 == m;
                    assert(c[k] == rest[k]);
                }
            }
        } else {
            assert(c == rest);
        }
    }
}

/// The resolved candidates of `r`: exactly the followable links of the list, each
/// once, with the node each leads to.
proof fn lemma_resolved_candidates(
    q: GraphExpansionQuery,
    objs: Seq<MemoryObject>,
    links: Seq<MemoryLink>,
    r: GraphObjectRef,
)
    requires
        distinct_link_ids(links),
        links.len() <= usize::MAX,
    ensures
        ({
            let rc = resolve(links, incident_candidates(q, objs, links, r, links.len() as int));
            &&& rc.no_duplicates()
            &&& forall|y: (MemoryLink, GraphObjectRef)| rc.contains(y) <==> (links.contains(y.0)
                && followable_from(q, objs, y.0, r) && y.1 == other_end(y.0, r))
        }),
{
    let n = links.len() as int;
    lemma_candidates_shape(q, objs, links, r, n);
    let c = incident_candidates(q, objs, links, r, n);
    let rc = resolve(links, c);
    assert forall|i: int, j: int| 0 <= i < rc.len() && 0 <= j < rc.len() && i != j implies rc[i] != rc[j] by {
        if i < j {
            assert(c[i].0 < c[j].0);
        } else {
            assert(c[j].0 < c[i].0);
        }
        assert(links[c[i].0 as int].id != links[c[j].0 as int].id);
    }
    assert forall|y: (MemoryLink, GraphObjectRef)| rc.contains(y) implies (links.contains(y.0)
        && followable_from(q, objs, y.0, r) && y.1 == other_end(y.0, r)) by {
        let k = choose|k: int| 0 <= k < rc.len() && rc[k] == y;
        assert(links[c[k].0 as int] == y.0);
    }
    assert forall|y: (MemoryLink, GraphObjectRef)| (links.contains(y.0) && followable_from(q, objs, y.0, r)
        && y.1 == other_end(y.0, r)) implies rc.contains(y) by {
        let m = choose|m: int| 0 <= m < links.len() && links[m] == y.0;
        assert(followable_from(q, objs, links[m], r));
        let k = choose|k: int| 0 <= k < c.len() && (#[trigger] c[k]).0 == m;
        assert(rc[k] == y);
    }
}

/// Following items depends only on the links they name and the nodes they lead to.
proof fn lemma_follow_resolved(
    q: GraphExpansionQuery,
    objs: Seq<MemoryObject>,
    links: Seq<MemoryLink>,
    links2: Seq<MemoryLink>,
    st: ExpansionState,
    depth: u8,
    items: Seq<(usize, GraphObjectRef)>,
    items2: Seq<(usize, GraphObjectRef)>,
)
    requires
        resolve(links, items) == resolve(links2, items2),
        forall|x: GraphObjectRef| #[trigger] node_reason(objs, links, q.lifecycle_policy, x) == node_reason(objs, links2, q.lifecycle_policy, x),
    ensures
        follow_links(q, objs, links, st, depth, items) == follow_links(q, objs, links2, st, depth, items2),
    decreases items.len(),
{
    assert(items.len() == resolve(links, items).len());
    assert(items2.len() == resolve(links2, items2).len());
    if items.len() > 0 {
        assert(resolve(links, items.drop_last()) =~= resolve(links, items).drop_last());
        assert(resolve(links2, items2.drop_last()) =~= resolve(links2, items2).drop_last());
        lemma_follow_resolved(q, objs, links, links2, st, depth, items.drop_last(), items2.drop_last());
        let a = items.last();
        let b = items2.last();
        assert(resolve(links, items)[items.len() - 1] == resolve(links2, items2)[items2.len() - 1]);
        assert(links[a.0 as int] == links2[b.0 as int] && a.1 == b.1);
        assert(node_reason(objs, links, q.lifecycle_policy, a.1) == node_reason(objs, links2, q.lifecycle_policy, a.1));
    }
}

/// Lifecycle reasons read the links as a set.
proof fn lemma_reasons_ignore_link_order(
    objs: Seq<MemoryObject>,
    links: Seq<MemoryLink>,
    links2: Seq<MemoryLink>,
    policy: GraphExpansionLifecyclePolicy,
)
    requires
        forall|l: MemoryLink| links.contains(l) <==> links2.contains(l),
    ensures
        forall|x: GraphObjectRef| #[trigger] node_reason(objs, links, policy, x) == node_reason(objs, links2, policy, x),
    decreases objs.len(),
{
    assert forall|id: MemoryId| is_superseded_by_links(links, id) == is_superseded_by_links(links2, id) by {
        if is_superseded_by_links(links, id) {
            let i = choose|i: int| 0 <= i < links.len() && (#[trigger] links[i]).relation == crate::domain::RelationType::Supersedes
                && links[i].from_type == ObjectType::DerivedMemory && links[i].to_type == ObjectType::DerivedMemory
                && links[i].to_id == id;
            assert(links.contains(links[i]));
            let j = choose|j: int| 0 <= j < links2.len() && links2[j] == links[i];
            assert(links2[j].relation == crate::domain::RelationType::Supersedes);
        }
        if is_superseded_by_links(links2, id) {
            let i = choose|i: int| 0 <= i < links2.len() && (#[trigger] links2[i]).relation == crate::domain::RelationType::Supersedes
                && links2[i].from_type == ObjectType::DerivedMemory && links2[i].to_type == ObjectType::DerivedMemory
                && links2[i].to_id == id;
            assert(links2.contains(links2[i]));
            let j = choose|j: int| 0 <= j < links.len() && links[j] == links2[i];
            assert(links[j].relation == crate::domain::RelationType::Supersedes);
        }
    }
    assert forall|o: MemoryObject| #[trigger] lifecycle_reason(o, links, policy) == lifecycle_reason(o, links2, policy) by {
        match o {
            MemoryObject::DerivedMemory(x) => {
                assert(is_superseded_by_links(links, x.id) == is_superseded_by_links(links2, x.id));
            },
            _ => {},
        }
    }
    if objs.len() > 0 {
        lemma_reasons_ignore_link_order(objs.drop_last(), links, links2, policy);
        assert forall|x: GraphObjectRef| #[trigger] node_reason(objs, links, policy, x) == node_reason(objs, links2, policy, x) by {
            assert(lifecycle_reason(objs.last(), links, policy) == lifecycle_reason(objs.last(), links2, policy));
            assert(node_reason(objs.drop_last(), links, policy, x) == node_reason(objs.drop_last(), links2, policy, x));
        }
    }
}

/// The key a resolved item is followed by: its link's key.
pub open spec fn item_key(y: (MemoryLink, GraphObjectRef)) -> SortKey {
    link_key(y.0)
}

/// The keys of resolved items.
pub open spec fn item_keys(ys: Seq<(MemoryLink, GraphObjectRef)>) -> Seq<SortKey> {
    ys.map_values(|y: (MemoryLink, GraphObjectRef)| item_key(y))
}

proof fn lemma_resolve_sorted(
    q: GraphExpansionQuery,
    objs: Seq<MemoryObject>,
    links: Seq<MemoryLink>,
    r: GraphObjectRef,
)
    ensures
        ({
            let rc = resolve(links, incident_candidates(q, objs, links, r, links.len() as int));
            resolve(links, incident_sorted(q, objs, links, r)) == sorted_by_keys(rc, item_keys(rc))
        }),
{
    let c = incident_candidates(q, objs, links, r, links.len() as int);
    let k = incident_keys(links, c);
    let f = |x: (usize, GraphObjectRef)| (links[x.0 as int], x.1);
    let kd = keyed(c, k);
    let rc = resolve(links, c);
    lemma_sort_map(kd, f);
    assert(map_items(kd, f) =~= keyed(rc, item_keys(rc)));
    lemma_sort_len(kd);
    let sorted = sort_by_key_spec(kd);
    assert(resolve(links, incident_sorted(q, objs, links, r)) =~= map_items(sorted, f).map_values(
        |p: ((MemoryLink, GraphObjectRef), SortKey)| p.0,
    ));
}

/// Sorting resolved items by their keys gives the same sequence for any two lists
/// of the same items, each without repeats, when no two items share a key.
proof fn lemma_sorted_items_unique(a: Seq<(MemoryLink, GraphObjectRef)>, b: Seq<(MemoryLink, GraphObjectRef)>)
    requires
        a.no_duplicates(),
        b.no_duplicates(),
        forall|y: (MemoryLink, GraphObjectRef)| a.contains(y) <==> b.contains(y),
        forall|y: (MemoryLink, GraphObjectRef), z: (MemoryLink, GraphObjectRef)| a.contains(y) && a.contains(z)
            && item_key(y) == item_key(z) ==> y == z,
    ensures
        sorted_by_keys(a, item_keys(a)) == sorted_by_keys(b, item_keys(b)),
{
    broadcast use vstd::seq_lib::group_to_multiset_ensures;

    let ka = keyed(a, item_keys(a));
    let kb = keyed(b, item_keys(b));
    let sa = sort_by_key_spec(ka);
    let sb = sort_by_key_spec(kb);
    lemma_sort_multiset(ka);
    lemma_sort_multiset(kb);
    lemma_sort_ordered(ka);
    lemma_sort_ordered(kb);
    lemma_sort_len(ka);
    lemma_sort_len(kb);
    assert forall|p: ((MemoryLink, GraphObjectRef), SortKey)| ka.contains(p) <==> (a.contains(p.0) && p.1 == item_key(p.0)) by {
        if ka.contains(p) {
            let i = choose|i: int| 0 <= i < ka.len() && ka[i] == p;
            assert(a[i] == p.0);
        }
        if a.contains(p.0) && p.1 == item_key(p.0) {
            let i = choose|i: int| 0 <= i < a.len() && a[i] == p.0;
            assert(ka[i] == p);
        }
    }
    assert forall|p: ((MemoryLink, GraphObjectRef), SortKey)| kb.contains(p) <==> (b.contains(p.0) && p.1 == item_key(p.0)) by {
        if kb.contains(p) {
            let i = choose|i: int| 0 <= i < kb.len() && kb[i] == p;
            assert(b[i] == p.0);
        }
        if b.contains(p.0) && p.1 == item_key(p.0) {
            let i = choose|i: int| 0 <= i < b.len() && b[i] == p.0;
            assert(kb[i] == p);
        }
    }
    assert forall|p: ((MemoryLink, GraphObjectRef), SortKey)| sa.contains(p) <==> ka.contains(p) by {
        assert(sa.to_multiset().count(p) == ka.to_multiset().count(p));
    }
    assert forall|p: ((MemoryLink, GraphObjectRef), SortKey)| sb.contains(p) <==> kb.contains(p) by {
        assert(sb.to_multiset().count(p) == kb.to_multiset().count(p));
    }
    assert(ka.no_duplicates()) by {
        assert forall|i: int, j: int| 0 <= i < ka.len() && 0 <= j < ka.len() && i != j implies ka[i] != ka[j] by {
            assert(a[i] != a[j]);
        }
    }
    assert(kb.no_duplicates()) by {
        assert forall|i: int, j: int| 0 <= i < kb.len() && 0 <= j < kb.len() && i != j implies kb[i] != kb[j] by {
            assert(b[i] != b[j]);
        }
    }
    ka.lemma_multiset_has_no_duplicates();
    kb.lemma_multiset_has_no_duplicates();
    sa.lemma_multiset_has_no_duplicates_conv();
    sb.lemma_multiset_has_no_duplicates_conv();
    assert forall|i: int, j: int| 0 <= i < j < sa.len() implies key_lt(#[trigger] sa[i].1, #[trigger] sa[j].1) by {
        assert(sa.contains(sa[i]) && sa.contains(sa[j]));
        assert(sa[i] != sa[j]);
        assert(sa[i].0 != sa[j].0);
        assert(sa[i].1 != sa[j].1);
        assert(!key_lt(sa[j].1, sa[i].1));
    }
    assert forall|i: int, j: int| 0 <= i < j < sb.len() implies key_lt(#[trigger] sb[i].1, #[trigger] sb[j].1) by {
        assert(sb.contains(sb[i]) && sb.contains(sb[j]));
        assert(sb[i] != sb[j]);
        assert(sb[i].0 != sb[j].0);
        assert(sb[i].1 != sb[j].1);
        assert(!key_lt(sb[j].1, sb[i].1));
    }
    lemma_strictly_ordered_unique(sa, sb);
}

/// Whether two link lists hold the same links, each list naming each identity once.
pub open spec fn same_link_set(links: Seq<MemoryLink>, links2: Seq<MemoryLink>) -> bool {
    &&& distinct_link_ids(links)
    &&& distinct_link_ids(links2)
    &&& forall|l: MemoryLink| links.contains(l) <==> links2.contains(l)
    &&& links.len() <= usize::MAX
    &&& links2.len() <= usize::MAX
}

proof fn lemma_keys_identify(
    q: GraphExpansionQuery,
    objs: Seq<MemoryObject>,
    links: Seq<MemoryLink>,
    r: GraphObjectRef,
)
    requires
        distinct_link_ids(links),
        links.len() <= usize::MAX,
    ensures
        ({
            let rc = resolve(links, incident_candidates(q, objs, links, r, links.len() as int));
            forall|y: (MemoryLink, GraphObjectRef), z: (MemoryLink, GraphObjectRef)| rc.contains(y) && rc.contains(z)
                && item_key(y) == item_key(z) ==> y == z
        }),
{
    lemma_resolved_candidates(q, objs, links, r);
    let rc = resolve(links, incident_candidates(q, objs, links, r, links.len() as int));
    assert forall|y: (MemoryLink, GraphObjectRef), z: (MemoryLink, GraphObjectRef)| rc.contains(y) && rc.contains(z)
        && item_key(y) == item_key(z) implies y == z by {
        let i = choose|i: int| 0 <= i < links.len() && links[i] == y.0;
        let j = choose|j: int| 0 <= j < links.len() && links[j] == z.0;
        assert(links[i].id == links[j].id);
        assert(i == j);
    }
}

/// The incident links of a node, in the order they are followed, are the same for
/// two lists of the same links.
proof fn lemma_incident_same(
    q: GraphExpansionQuery,
    objs: Seq<MemoryObject>,
    links: Seq<MemoryLink>,
    links2: Seq<MemoryLink>,
    r: GraphObjectRef,
)
    requires
        same_link_set(links, links2),
    ensures
        resolve(links, incident_sorted(q, objs, links, r)) == resolve(links2, incident_sorted(q, objs, links2, r)),
{
    lemma_resolved_candidates(q, objs, links, r);
    lemma_resolved_candidates(q, objs, links2, r);
    lemma_keys_identify(q, objs, links, r);
    lemma_resolve_sorted(q, objs, links, r);
    lemma_resolve_sorted(q, objs, links2, r);
    let a = resolve(links, incident_candidates(q, objs, links, r, links.len() as int));
    let b = resolve(links2, incident_candidates(q, objs, links2, r, links2.len() as int));
    assert forall|y: (MemoryLink, GraphObjectRef)| a.contains(y) <==> b.contains(y) by {
        assert(links.contains(y.0) <==> links2.contains(y.0));
    }
    lemma_sorted_items_unique(a, b);
}

proof fn lemma_at_most_resolved(links: Seq<MemoryLink>, items: Seq<(usize, GraphObjectRef)>, n: int)
    requires
        0 <= n,
    ensures
        resolve(links, at_most(items, n)) == at_most(resolve(links, items), n),
{
    assert(resolve(links, at_most(items, n)) =~= at_most(resolve(links, items), n));
}

proof fn lemma_pop_same_links(
    q: GraphExpansionQuery,
    objs: Seq<MemoryObject>,
    links: Seq<MemoryLink>,
    links2: Seq<MemoryLink>,
    st: ExpansionState,
)
    requires
        st.queue.len() > 0,
        same_link_set(links, links2),
    ensures
        pop_step(q, objs, links, st) == pop_step(q, objs, links2, st),
{
    lemma_reasons_ignore_link_order(objs, links, links2, q.lifecycle_policy);
    let (r, depth) = st.queue[0];
    assert(node_reason(objs, links, q.lifecycle_policy, r) == node_reason(objs, links2, q.lifecycle_policy, r));
    let st1 = ExpansionState { queue: st.queue.drop_first(), ..st };
    let st2 = ExpansionState { visited: st1.visited.push(r), ..st1 };
    let inc = incident_sorted(q, objs, links, r);
    let inc2 = incident_sorted(q, objs, links2, r);
    lemma_incident_same(q, objs, links, links2, r);
    assert(inc.len() == resolve(links, inc).len() && inc2.len() == resolve(links2, inc2).len());
    let cap = if q.max_fanout_per_node < q.max_hub_edges {
        q.max_fanout_per_node
    } else {
        q.max_hub_edges
    };
    lemma_at_most_resolved(links, inc, cap as int);
    lemma_at_most_resolved(links2, inc2, cap as int);
    lemma_at_most_resolved(links, inc, q.max_fanout_per_node as int);
    lemma_at_most_resolved(links2, inc2, q.max_fanout_per_node as int);
    let bound = GraphExpansionBoundedFailure { reason: GraphExpansionBoundedFailureReason::HubLimit, at: Some(r) };
    if let Ok(s) = on_bound(q, st2, bound) {
        lemma_follow_resolved(q, objs, links, links2, s, depth, at_most(inc, cap as int), at_most(inc2, cap as int));
    }
    lemma_follow_resolved(q, objs, links, links2, st2, depth, at_most(inc, q.max_fanout_per_node as int), at_most(inc2, q.max_fanout_per_node as int));
    assert(expand_node(q, objs, links, st2, r, depth) == expand_node(q, objs, links2, st2, r, depth));
}

proof fn lemma_run_same_links(
    q: GraphExpansionQuery,
    objs: Seq<MemoryObject>,
    links: Seq<MemoryLink>,
    links2: Seq<MemoryLink>,
    st: ExpansionState,
)
    requires
        same_link_set(links, links2),
    ensures
        run_expansion(q, objs, links, st) == run_expansion(q, objs, links2, st),
    decreases q.max_nodes - st.visited.len(), st.queue.len(),
{
    if st.queue.len() > 0 {
        lemma_pop_same_links(q, objs, links, links2, st);
        if let Ok(s) = pop_step(q, objs, links, st) {
            lemma_pop_step_measure(q, objs, links, st);
            lemma_run_same_links(q, objs, links, links2, s);
        }
    }
}

/// The order in which the links are given does not matter to an expansion plan:
/// for links with pairwise distinct identities, any reordering of them gives the
/// same outcome (the same plan, or the same refusal).
pub proof fn law_plan_ignores_link_order(
    q: GraphExpansionQuery,
    objs: Seq<MemoryObject>,
    links: Seq<MemoryLink>,
    links2: Seq<MemoryLink>,
)
    requires
        distinct_link_ids(links),
        distinct_link_ids(links2),
        links.to_multiset() == links2.to_multiset(),
        links.len() <= usize::MAX,
    ensures
        plan_outcome(q, objs, links) == plan_outcome(q, objs, links2),
{
    broadcast use vstd::seq_lib::to_multiset_contains;

    assert forall|l: MemoryLink| links.contains(l) implies links2.contains(l) by {
        assert(links.to_multiset().count(l) > 0);
        assert(links2.to_multiset().count(l) > 0);
    }
    assert forall|l: MemoryLink| links2.contains(l) implies links.contains(l) by {
        assert(links2.to_multiset().count(l) > 0);
        assert(links.to_multiset().count(l) > 0);
    }
    links.to_multiset_ensures();
    links2.to_multiset_ensures();
    assert(links2.len() == links.len());
    lemma_run_same_links(q, objs, links, links2, initial_state(root_of(q)));
}

/// The order of the inputs does not matter to an expansion plan: objects that are
/// pairwise distinct nodes and links with pairwise distinct identities, each given
/// in any order, give the same outcome.
pub proof fn law_plan_ignores_input_order(
    q: GraphExpansionQuery,
    objs: Seq<MemoryObject>,
    objs2: Seq<MemoryObject>,
    links: Seq<MemoryLink>,
    links2: Seq<MemoryLink>,
)
    requires
        crate::graph::distinct_nodes(objs),
        crate::graph::distinct_nodes(objs2),
        objs.to_multiset() == objs2.to_multiset(),
        distinct_link_ids(links),
        distinct_link_ids(links2),
        links.to_multiset() == links2.to_multiset(),
        links.len() <= usize::MAX,
    ensures
        plan_outcome(q, objs, links) == plan_outcome(q, objs2, links2),
{
    crate::graph::law_plan_ignores_object_order(q, objs, objs2, links2);
    law_plan_ignores_link_order(q, objs, links, links2);
}

} // verus!
