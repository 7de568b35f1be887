//! Bounded expansion over a graph held in memory, the way a graph store runs it:
//! the root is looked up, the visible nodes and links are found frontier by
//! frontier, only they are hydrated, and the expansion runs over them.

use vstd::prelude::*;
use crate::domain::{MemoryId, ObjectType};
use crate::errors::CustomError;
use crate::frontier::LinkRef;
use crate::graph::{
    GraphExpansion, GraphExpansionQuery, GraphObjectRef, PlanOutcome, bounded_expansion,
    contains_ref, expansion_result_matches, graph_object_ref, graph_ref_of, hydrates, id_key,
    is_bounded_error, link_from, link_id_keys, link_to, node_present, node_present_in, object_keys,
    plan_outcome, root_of, stable_node_key,
};
use crate::objects::{MemoryLink, MemoryObject};
use crate::seqs::contains_id;
use crate::sorting::{SortKey, sort_by_keys, sorted_by_keys};
use crate::visibility::{
    bounded_graph_visible_refs, lifecycle_ids, touching_refs, visibility_run, visibility_start,
};

verus! {

/// A link as a store reports it by reference.
pub open spec fn link_ref_of(l: MemoryLink) -> LinkRef {
    LinkRef { link_id: l.id, from: link_from(l), to: link_to(l), relation: l.relation }
}

/// The references of links.
pub open spec fn link_refs_of(ls: Seq<MemoryLink>) -> Seq<LinkRef> {
    ls.map_values(|l: MemoryLink| link_ref_of(l))
}

/// The objects hydrated for the visible nodes `refs`: those, other than links,
/// whose node is visible, in their given order.
pub open spec fn hydrated_objects(objs: Seq<MemoryObject>, refs: Seq<GraphObjectRef>) -> Seq<MemoryObject>
    decreases objs.len(),
{
    if objs.len() == 0 {
        objs
    } else {
        let k = hydrated_objects(objs.drop_last(), refs);
        let r = graph_ref_of(objs.last());
        if r.object_type != ObjectType::MemoryLink && refs.contains(r) {
            k.push(objs.last())
        } else {
            k
        }
    }
}

/// Whether a link is hydrated: followed with both ends visible, or supersession
/// evidence.
pub open spec fn link_hydrated(
    l: MemoryLink,
    traversal: Seq<MemoryId>,
    lifecycle: Seq<MemoryId>,
    refs: Seq<GraphObjectRef>,
) -> bool {
    (traversal.contains(l.id) && refs.contains(link_from(l)) && refs.contains(link_to(l))) || lifecycle.contains(l.id)
}

/// The links hydrated, in their given order.
pub open spec fn hydrated_links(
    ls: Seq<MemoryLink>,
    traversal: Seq<MemoryId>,
    lifecycle: Seq<MemoryId>,
    refs: Seq<GraphObjectRef>,
) -> Seq<MemoryLink>
    decreases ls.len(),
{
    if ls.len() == 0 {
        ls
    } else {
        let k = hydrated_links(ls.drop_last(), traversal, lifecycle, refs);
        if link_hydrated(ls.last(), traversal, lifecycle, refs) {
            k.push(ls.last())
        } else {
            k
        }
    }
}

/// What expanding a graph of `objs` and `links` returns: the root must exist; the
/// visibility is computed over the links; the visible objects (by node) and the
/// hydrated links (by identifier) are expanded; the expansion keeps its own first
/// bound, else the visibility's.
pub open spec fn graph_expansion_result(
    r: Result<GraphExpansion, CustomError>,
    q: GraphExpansionQuery,
    objs: Seq<MemoryObject>,
    links: Seq<MemoryLink>,
) -> bool {
    let root = root_of(q);
    if !node_present(objs, root) {
        r == Err::<GraphExpansion, CustomError>(
            CustomError::GraphExpansionRootNotFound { object_type: q.root_type, object_id: q.root_id },
        )
    } else {
        match visibility_run(q, root, link_refs_of(links), visibility_start(root), seq![root], 0) {
            Err(f) => r matches Err(e) && is_bounded_error(e, f),
            Ok(m) => {
                let lc = lifecycle_ids(m.refs, touching_refs(m.refs, link_refs_of(links)));
                let ho = hydrated_objects(objs, m.refs);
                let ho_sorted = sorted_by_keys(ho, object_keys(ho));
                let hl = hydrated_links(sorted_by_keys(links, link_id_keys(links)), m.ids, lc, m.refs);
                match plan_outcome(q, ho_sorted, hl) {
                    PlanOutcome::Planned(st) => r matches Ok(e) && {
                        &&& hydrates(GraphExpansion { bounded_failure: st.failure, ..e }, ho_sorted, hl, st)
                        &&& e.bounded_failure == (if st.failure is Some {
                            st.failure
                        } else {
                            m.failure
                        })
                    },
                    o => expansion_result_matches(r, q, ho_sorted, hl, o),
                }
            },
        }
    }
}

fn link_refs(links: &Vec<MemoryLink>) -> (v: Vec<LinkRef>)
    ensures
        v@ == link_refs_of(links@),
{
    let mut v: Vec<LinkRef> = Vec::new();
    let mut i: usize = 0;
    while i < links.len()
        invariant
            i <= links@.len(),
            v@ =~= link_refs_of(links@).take(i as int),
        decreases links@.len() - i,
    {
        let l = &links[i];
        v.push(LinkRef {
            link_id: l.id,
            from: GraphObjectRef { object_id: l.from_id, object_type: l.from_type },
            to: GraphObjectRef { object_id: l.to_id, object_type: l.to_type },
            relation: l.relation,
        });
        proof {
            assert(link_refs_of(links@).take(i + 1) =~= link_refs_of(links@).take(i as int).push(link_ref_of(links@[i as int])));
        }
        i = i + 1;
    }
    proof {
        assert(link_refs_of(links@).take(i as int) =~= link_refs_of(links@));
    }
    v
}

/// Expands the graph of `objects` and `links` around the query's root, as
/// `graph_expansion_result` says.
pub fn expand_bounded_in_graph(
    q: &GraphExpansionQuery,
    objects: Vec<MemoryObject>,
    links: Vec<MemoryLink>,
) -> (r: Result<GraphExpansion, CustomError>)
    ensures
        graph_expansion_result(r, *q, objects@, links@),
{
    let ghost objs = objects@;
    let ghost ls = links@;
    let root = GraphObjectRef::new(q.root_id, q.root_type);
    if !node_present_in(&objects, root) {
        return Err(CustomError::GraphExpansionRootNotFound { object_type: q.root_type, object_id: q.root_id });
    }
    let refs = link_refs(&links);
    let vis = match bounded_graph_visible_refs(root, q, &refs) {
        Ok(v) => v,
        Err(e) => {
            return Err(e);
        },
    };
    let ghost m = visibility_run(*q, root, link_refs_of(ls), visibility_start(root), seq![root], 0)->Ok_0;
    let mut rest = objects;
    let mut kept: Vec<MemoryObject> = Vec::new();
    let mut keys: Vec<SortKey> = Vec::new();
    let ghost mut taken: int = 0;
    proof {
        assert(objs.take(0) =~= Seq::<MemoryObject>::empty());
        assert(objs.skip(0) =~= objs);
    }
    while rest.len() > 0
        invariant
            0 <= taken <= objs.len(),
            rest@ == objs.skip(taken),
            vis.object_refs@ == m.refs,
            kept@ == hydrated_objects(objs.take(taken), m.refs),
            keys@ == object_keys(kept@),
        decreases rest@.len(),
    {
        let o = rest.remove(0);
        proof {
            assert(o == objs[taken]);
            assert(objs.take(taken + 1).drop_last() =~= objs.take(taken));
            assert(objs.take(taken + 1).last() == o);
        }
        let node = graph_object_ref(&o);
        if node.object_type != ObjectType::MemoryLink && contains_ref(&vis.object_refs, node) {
            keys.push(stable_node_key(node));
            kept.push(o);
            proof {
                assert(keys@ =~= object_keys(kept@));
            }
        }
        proof {
            taken = taken + 1;
            assert(objs.skip(taken) =~= rest@);
        }
    }
    proof {
        assert(objs.take(taken) =~= objs);
    }
    let hydrated = sort_by_keys(kept, keys);
    let mut lkeys: Vec<SortKey> = Vec::new();
    let mut i: usize = 0;
    while i < links.len()
        invariant
            i <= links@.len(),
            lkeys@ =~= link_id_keys(links@).take(i as int),
        decreases links@.len() - i,
    {
        lkeys.push((links[i].id, 0u128, 0u128, 0u8, 0u8, 0u8));
        proof {
            assert(link_id_keys(links@).take(i + 1) =~= link_id_keys(links@).take(i as int).push(id_key(links@[i as int].id)));
        }
        i = i + 1;
    }
    proof {
        assert(link_id_keys(links@).take(i as int) =~= link_id_keys(links@));
    }
    let by_id = sort_by_keys(links, lkeys);
    let ghost sl = by_id@;
    let lifecycle = vis.lifecycle_link_ids;
    let mut rest_links = by_id;
    let mut kept_links: Vec<MemoryLink> = Vec::new();
    let ghost mut tl: int = 0;
    proof {
        assert(sl.take(0) =~= Seq::<MemoryLink>::empty());
        assert(sl.skip(0) =~= sl);
    }
    while rest_links.len() > 0
        invariant
            0 <= tl <= sl.len(),
            rest_links@ == sl.skip(tl),
            kept_links@ == hydrated_links(sl.take(tl), vis.traversal_link_ids@, lifecycle@, vis.object_refs@),
        decreases rest_links@.len(),
    {
        let l = rest_links.remove(0);
        proof {
            assert(l == sl[tl]);
            assert(sl.take(tl + 1).drop_last() =~= sl.take(tl));
            assert(sl.take(tl + 1).last() == l);
        }
        let from = GraphObjectRef { object_id: l.from_id, object_type: l.from_type };
        let to = GraphObjectRef { object_id: l.to_id, object_type: l.to_type };
        if (contains_id(&vis.traversal_link_ids, l.id) && contains_ref(&vis.object_refs, from) && contains_ref(&vis.object_refs, to))
            || contains_id(&lifecycle, l.id) {
            kept_links.push(l);
        }
        proof {
            tl = tl + 1;
            assert(sl.skip(tl) =~= rest_links@);
        }
    }
    proof {
        assert(sl.take(tl) =~= sl);
    }
    let result = bounded_expansion(q, hydrated, kept_links);
    match result {
        Err(e) => Err(e),
        Ok(mut expansion) => {
            if expansion.bounded_failure.is_none() {
                expansion.bounded_failure = vis.bounded_failure;
            }
            Ok(expansion)
        },
    }
}

} // verus!
