//! Bounded graph visibility, computed one frontier at a time against a store that
//! answers which links touch a set of nodes: the nodes and links a bounded
//! expansion may see, and the supersession links that settle their lifecycle.

use vstd::prelude::*;
use crate::domain::{MemoryId, ObjectType, RelationType};
use crate::graph::{GraphObjectRef, GraphExpansionQuery, GraphExpansionBoundedFailure, is_bounded_error, contains_ref};
use crate::frontier::{LinkRef, ref_other, incident_selection, bounded_incident_link_refs};
use crate::seqs::contains_id;
use crate::errors::CustomError;

verus! {

/// What a bounded expansion has seen so far: the nodes reached (each once, in the
/// order reached), the links followed (each once), and the first bound met.
#[derive(Debug, Clone, PartialEq, Eq)]
pub struct FrontierVisibility {
    pub object_refs: Vec<GraphObjectRef>,
    pub traversal_link_ids: Vec<MemoryId>,
    pub bounded_failure: Option<GraphExpansionBoundedFailure>,
}

/// The content of a visibility state, with the next frontier it is growing.
pub struct VisibilityModel {
    pub refs: Seq<GraphObjectRef>,
    pub ids: Seq<MemoryId>,
    pub failure: Option<GraphExpansionBoundedFailure>,
    pub next: Seq<GraphObjectRef>,
}

impl FrontierVisibility {
    /// This state, growing the frontier `next`.
    pub open spec fn model(&self, next: Seq<GraphObjectRef>) -> VisibilityModel {
        VisibilityModel {
            refs: self.object_refs@,
            ids: self.traversal_link_ids@,
            failure: self.bounded_failure,
            next,
        }
    }

    /// Nothing seen but the root.
    pub fn new(root_ref: GraphObjectRef) -> (v: FrontierVisibility)
        ensures
            v.object_refs@ == seq![root_ref],
            v.traversal_link_ids@ == Seq::<MemoryId>::empty(),
            v.bounded_failure is None,
    {
        FrontierVisibility { object_refs: vec![root_ref], traversal_link_ids: Vec::new(), bounded_failure: None }
    }
}

/// Following the selected links `ls` of node `r`: each link is recorded once, and
/// each neighbor not seen before is seen and joins the next frontier.
pub open spec fn follow_selected(m: VisibilityModel, r: GraphObjectRef, ls: Seq<LinkRef>) -> VisibilityModel
    decreases ls.len(),
{
    if ls.len() == 0 {
        m
    } else {
        let m1 = follow_selected(m, r, ls.drop_last());
        let l = ls.last();
        let n = ref_other(l, r);
        let ids = if m1.ids.contains(l.link_id) {
            m1.ids
        } else {
            m1.ids.push(l.link_id)
        };
        if m1.refs.contains(n) {
            VisibilityModel { ids, ..m1 }
        } else {
            VisibilityModel { ids, refs: m1.refs.push(n), next: m1.next.push(n), ..m1 }
        }
    }
}

/// One frontier at `depth`, its nodes in order, each following what
/// `incident_selection` selects among `refs`; the first fatal bound ends it.
pub open spec fn visit_frontier(
    q: GraphExpansionQuery,
    root: GraphObjectRef,
    depth: u8,
    refs: Seq<LinkRef>,
    m: VisibilityModel,
    frontier: Seq<GraphObjectRef>,
) -> Result<VisibilityModel, GraphExpansionBoundedFailure>
    decreases frontier.len(),
{
    if frontier.len() == 0 {
        Ok(m)
    } else {
        match visit_frontier(q, root, depth, refs, m, frontier.drop_last()) {
            Err(f) => Err(f),
            Ok(m1) => {
                let r = frontier.last();
                match incident_selection(q, root, r, depth, refs, m1.failure) {
                    Err(f) => Err(f),
                    Ok(sel) => Ok(follow_selected(VisibilityModel { failure: sel.1, ..m1 }, r, sel.0)),
                }
            },
        }
    }
}

proof fn lemma_visit_err_extends(
    q: GraphExpansionQuery,
    root: GraphObjectRef,
    depth: u8,
    refs: Seq<LinkRef>,
    m: VisibilityModel,
    frontier: Seq<GraphObjectRef>,
    k: int,
    f: GraphExpansionBoundedFailure,
)
    requires
        0 <= k <= frontier.len(),
        visit_frontier(q, root, depth, refs, m, frontier.take(k)) == Err::<VisibilityModel, GraphExpansionBoundedFailure>(f),
    ensures
        visit_frontier(q, root, depth, refs, m, frontier) == Err::<VisibilityModel, GraphExpansionBoundedFailure>(f),
    decreases frontier.len() - k,
{
    if k < frontier.len() {
        assert(frontier.take(k + 1).drop_last() =~= frontier.take(k));
        lemma_visit_err_extends(q, root, depth, refs, m, frontier, k + 1, f);
    } else {
        assert(frontier.take(k) =~= frontier);
    }
}

/// Advances one frontier at `depth`: every node of `frontier`, in order, follows
/// the links `bounded_incident_link_refs` selects for it among `link_refs` (the
/// store's links touching the frontier). Returns the grown state and the next
/// frontier (the nodes reached for the first time), or the bound that failed.
pub fn advance_frontier(
    q: &GraphExpansionQuery,
    root_ref: GraphObjectRef,
    depth: u8,
    frontier: &Vec<GraphObjectRef>,
    link_refs: &Vec<LinkRef>,
    visibility: FrontierVisibility,
) -> (r: Result<(FrontierVisibility, Vec<GraphObjectRef>), CustomError>)
    ensures
        (match visit_frontier(*q, root_ref, depth, link_refs@, visibility.model(seq![]), frontier@) {
            Err(f) => r matches Err(e) && is_bounded_error(e, f),
            Ok(m) => r matches Ok(p) && p.0.model(p.1@) == m,
        }),
{
    let ghost start = visibility.model(seq![]);
    let mut vis = visibility;
    let mut next: Vec<GraphObjectRef> = Vec::new();
    let mut i: usize = 0;
    proof {
        assert(frontier@.take(0) =~= Seq::<GraphObjectRef>::empty());
        assert(vis.model(next@) == start);
    }
    while i < frontier.len()
        invariant
            i <= frontier@.len(),
            start == visibility.model(seq![]),
            visit_frontier(*q, root_ref, depth, link_refs@, start, frontier@.take(i as int))
                == Ok::<VisibilityModel, GraphExpansionBoundedFailure>(vis.model(next@)),
        decreases frontier@.len() - i,
    {
        let r = frontier[i];
        proof {
            assert(frontier@.take(i + 1).drop_last() =~= frontier@.take(i as int));
            assert(frontier@.take(i + 1).last() == r);
        }
        let ghost before = vis.model(next@);
        let mut bf = vis.bounded_failure;
        let selected = match bounded_incident_link_refs(q, root_ref, r, depth, link_refs, &mut bf) {
            Ok(v) => v,
            Err(e) => {
                proof {
                    let f = incident_selection(*q, root_ref, r, depth, link_refs@, before.failure)->Err_0;
                    lemma_visit_err_extends(*q, root_ref, depth, link_refs@, start, frontier@, i + 1, f);
                }
                return Err(e);
            },
        };
        vis.bounded_failure = bf;
        let ghost base = vis.model(next@);
        let mut j: usize = 0;
        proof {
            assert(selected@.take(0) =~= Seq::<LinkRef>::empty());
        }
        while j < selected.len()
            invariant
                j <= selected@.len(),
                vis.model(next@) == follow_selected(base, r, selected@.take(j as int)),
            decreases selected@.len() - j,
        {
            let l = selected[j];
            proof {
                assert(selected@.take(j + 1).drop_last() =~= selected@.take(j as int));
                assert(selected@.take(j + 1).last() == l);
            }
            if !contains_id(&vis.traversal_link_ids, l.link_id) {
                vis.traversal_link_ids.push(l.link_id);
            }
            let n = l.other_endpoint(r);
            if !contains_ref(&vis.object_refs, n) {
                vis.object_refs.push(n);
                next.push(n);
            }
            j = j + 1;
        }
        proof {
            assert(selected@.take(j as int) =~= selected@);
        }
        i = i + 1;
    }
    proof {
        assert(frontier@.take(i as int) =~= frontier@);
    }
    Ok((vis, next))
}

/// The links among `links` with an end among `nodes`, in their order.
pub open spec fn touching_refs(nodes: Seq<GraphObjectRef>, links: Seq<LinkRef>) -> Seq<LinkRef>
    decreases links.len(),
{
    if links.len() == 0 {
        links
    } else {
        let k = touching_refs(nodes, links.drop_last());
        let l = links.last();
        if nodes.contains(l.from) || nodes.contains(l.to) {
            k.push(l)
        } else {
            k
        }
    }
}

/// The links among `links` with an end among `nodes`, in their order: what a
/// store holding `links` answers for those nodes.
pub fn links_touching(nodes: &Vec<GraphObjectRef>, links: &Vec<LinkRef>) -> (r: Vec<LinkRef>)
    ensures
        r@ == touching_refs(nodes@, links@),
{
    let mut out: Vec<LinkRef> = Vec::new();
    let mut i: usize = 0;
    proof {
        assert(links@.take(0) =~= Seq::<LinkRef>::empty());
    }
    while i < links.len()
        invariant
            i <= links@.len(),
            out@ == touching_refs(nodes@, links@.take(i as int)),
        decreases links@.len() - i,
    {
        let l = links[i];
        proof {
            assert(links@.take(i + 1).drop_last() =~= links@.take(i as int));
            assert(links@.take(i + 1).last() == l);
        }
        if contains_ref(nodes, l.from) || contains_ref(nodes, l.to) {
            out.push(l);
        }
        i = i + 1;
    }
    proof {
        assert(links@.take(i as int) =~= links@);
    }
    out
}

/// Whether a link is supersession evidence for a node of `nodes`: it supersedes a
/// derived memory among them.
pub open spec fn is_lifecycle_evidence(nodes: Seq<GraphObjectRef>, l: LinkRef) -> bool {
    l.relation == RelationType::Supersedes && l.to.object_type == ObjectType::DerivedMemory && nodes.contains(l.to)
}

/// The identities of the supersession evidence among `links`, each once, in order.
pub open spec fn lifecycle_ids(nodes: Seq<GraphObjectRef>, links: Seq<LinkRef>) -> Seq<MemoryId>
    decreases links.len(),
{
    if links.len() == 0 {
        Seq::empty()
    } else {
        let k = lifecycle_ids(nodes, links.drop_last());
        let l = links.last();
        if is_lifecycle_evidence(nodes, l) && !k.contains(l.link_id) {
            k.push(l.link_id)
        } else {
            k
        }
    }
}

/// The identities of the links among `link_refs` that supersede a derived memory
/// among `object_refs`, each once.
pub fn lifecycle_link_ids(object_refs: &Vec<GraphObjectRef>, link_refs: &Vec<LinkRef>) -> (r: Vec<MemoryId>)
    ensures
        r@ == lifecycle_ids(object_refs@, link_refs@),
{
    let mut out: Vec<MemoryId> = Vec::new();
    let mut i: usize = 0;
    proof {
        assert(link_refs@.take(0) =~= Seq::<LinkRef>::empty());
    }
    while i < link_refs.len()
        invariant
            i <= link_refs@.len(),
            out@ == lifecycle_ids(object_refs@, link_refs@.take(i as int)),
        decreases link_refs@.len() - i,
    {
        let l = link_refs[i];
        proof {
            assert(link_refs@.take(i + 1).drop_last() =~= link_refs@.take(i as int));
            assert(link_refs@.take(i + 1).last() == l);
        }
        if l.relation == RelationType::Supersedes && l.to.object_type == ObjectType::DerivedMemory
            && contains_ref(object_refs, l.to) && !contains_id(&out, l.link_id) {
            out.push(l.link_id);
        }
        i = i + 1;
    }
    proof {
        assert(link_refs@.take(i as int) =~= link_refs@);
    }
    out
}

/// Frontier after frontier from `depth` on, over a store holding `links`: each
/// frontier is advanced against the links touching it, until the depth limit, an
/// empty frontier, or a fatal bound.
pub open spec fn visibility_run(
    q: GraphExpansionQuery,
    root: GraphObjectRef,
    links: Seq<LinkRef>,
    m: VisibilityModel,
    frontier: Seq<GraphObjectRef>,
    depth: nat,
) -> Result<VisibilityModel, GraphExpansionBoundedFailure>
    decreases q.max_depth - depth,
{
    if depth >= q.max_depth {
        Ok(m)
    } else {
        match visit_frontier(q, root, depth as u8, touching_refs(frontier, links), VisibilityModel { next: seq![], ..m }, frontier) {
            Err(f) => Err(f),
            Ok(m2) => if m2.next.len() == 0 {
                Ok(m2)
            } else {
                visibility_run(q, root, links, m2, m2.next, depth + 1)
            },
        }
    }
}

/// Where a bounded expansion from `root` starts: the root seen, and the frontier
/// holding it.
pub open spec fn visibility_start(root: GraphObjectRef) -> VisibilityModel {
    VisibilityModel { refs: seq![root], ids: seq![], failure: None, next: seq![root] }
}

/// What a bounded expansion may see: its nodes and followed links, the
/// supersession links that settle the lifecycle of its derived memories, and the
/// first bound it met.
#[derive(Debug, Clone, PartialEq, Eq)]
pub struct BoundedGraphVisibility {
    pub object_refs: Vec<GraphObjectRef>,
    pub traversal_link_ids: Vec<MemoryId>,
    pub lifecycle_link_ids: Vec<MemoryId>,
    pub bounded_failure: Option<GraphExpansionBoundedFailure>,
}

/// The bounded visibility from `root_ref` over a store holding `links`: frontier
/// after frontier, up to `max_depth`, as `visibility_run` says; then the
/// supersession links touching what was seen.
pub fn bounded_graph_visible_refs(
    root_ref: GraphObjectRef,
    q: &GraphExpansionQuery,
    links: &Vec<LinkRef>,
) -> (r: Result<BoundedGraphVisibility, CustomError>)
    ensures
        (match visibility_run(*q, root_ref, links@, visibility_start(root_ref), seq![root_ref], 0) {
            Err(f) => r matches Err(e) && is_bounded_error(e, f),
            Ok(m) => r matches Ok(v) && {
                &&& v.object_refs@ == m.refs
                &&& v.traversal_link_ids@ == m.ids
                &&& v.bounded_failure == m.failure
                &&& v.lifecycle_link_ids@ == lifecycle_ids(m.refs, touching_refs(m.refs, links@))
            },
        }),
{
    let ghost whole = visibility_run(*q, root_ref, links@, visibility_start(root_ref), seq![root_ref], 0);
    let mut vis = FrontierVisibility::new(root_ref);
    let mut frontier: Vec<GraphObjectRef> = vec![root_ref];
    let mut depth: u8 = 0;
    let mut done = false;
    proof {
        assert(vis.traversal_link_ids@ =~= seq![]);
        assert(frontier@ =~= seq![root_ref]);
        assert(vis.model(frontier@) == visibility_start(root_ref));
    }
    while depth < q.max_depth && !done
        invariant
            depth <= q.max_depth,
            whole == visibility_run(*q, root_ref, links@, visibility_start(root_ref), seq![root_ref], 0),
            !done ==> whole == visibility_run(*q, root_ref, links@, vis.model(frontier@), frontier@, depth as nat),
            done ==> whole == Ok::<VisibilityModel, GraphExpansionBoundedFailure>(vis.model(seq![])),
        decreases q.max_depth - depth,
    {
        let touching = links_touching(&frontier, links);
        proof {
            assert(VisibilityModel { next: seq![], ..vis.model(frontier@) } == vis.model(seq![]));
        }
        match advance_frontier(q, root_ref, depth, &frontier, &touching, vis) {
            Err(e) => {
                return Err(e);
            },
            Ok(p) => {
                let (v2, next) = p;
                vis = v2;
                if next.len() == 0 {
                    done = true;
                    proof {
                        assert(next@ =~= Seq::<GraphObjectRef>::empty());
                    }
                } else {
                    frontier = next;
                }
            },
        }
        depth = depth + 1;
    }
    let touching_all = links_touching(&vis.object_refs, links);
    let lifecycle = lifecycle_link_ids(&vis.object_refs, &touching_all);
    Ok(BoundedGraphVisibility {
        object_refs: vis.object_refs,
        traversal_link_ids: vis.traversal_link_ids,
        lifecycle_link_ids: lifecycle,
        bounded_failure: vis.bounded_failure,
    })
}

proof fn lemma_follow_selected(m: VisibilityModel, r: GraphObjectRef, ls: Seq<LinkRef>)
    requires
        m.refs.no_duplicates(),
        m.ids.no_duplicates(),
    ensures
        ({
            let m2 = follow_selected(m, r, ls);
            &&& m2.refs.no_duplicates()
            &&& m2.ids.no_duplicates()
            &&& m2.failure == m.failure
            &&& m.refs.len() <= m2.refs.len() <= m.refs.len() + ls.len()
            &&& m2.refs.take(m.refs.len() as int) == m.refs
            &&& m2.next == m.next + m2.refs.skip(m.refs.len() as int)
        }),
    decreases ls.len(),
{
    if ls.len() == 0 {
        assert(m.refs.take(m.refs.len() as int) =~= m.refs);
        assert(m.next + m.refs.skip(m.refs.len() as int) =~= m.next);
    } else {
        let m1 = follow_selected(m, r, ls.drop_last());
        lemma_follow_selected(m, r, ls.drop_last());
        let l = ls.last();
        let n = ref_other(l, r);
        let len = m.refs.len() as int;
        if !m1.ids.contains(l.link_id) {
            let ids2 = m1.ids.push(l.link_id);
            assert forall|i: int, j: int| 0 <= i < ids2.len() && 0 <= j < ids2.len() && i != j implies ids2[i] != ids2[j] by {
                if i < m1.ids.len() && j < m1.ids.len() {
                } else if i == m1.ids.len() {
                    assert(m1.ids[j] == ids2[j]);
                } else {
                    assert(m1.ids[i] == ids2[i]);
                }
            }
        }
        if !m1.refs.contains(n) {
            let refs2 = m1.refs.push(n);
            assert forall|i: int, j: int| 0 <= i < refs2.len() && 0 <= j < refs2.len() && i != j implies refs2[i] != refs2[j] by {
                if i < m1.refs.len() && j < m1.refs.len() {
                } else if i == m1.refs.len() {
                    assert(m1.refs[j] == refs2[j]);
                } else {
                    assert(m1.refs[i] == refs2[i]);
                }
            }
            assert(refs2.take(len) =~= m1.refs.take(len));
            assert(m1.next.push(n) =~= m.next + refs2.skip(len)) by {
                assert(refs2.skip(len) =~= m1.refs.skip(len).push(n));
            }
        }
    }
}

proof fn lemma_visit_frontier(
    q: GraphExpansionQuery,
    root: GraphObjectRef,
    depth: u8,
    refs: Seq<LinkRef>,
    m: VisibilityModel,
    frontier: Seq<GraphObjectRef>,
)
    requires
        m.refs.no_duplicates(),
        m.ids.no_duplicates(),
    ensures
        visit_frontier(q, root, depth, refs, m, frontier) matches Ok(m2) ==> {
            &&& m2.refs.no_duplicates()
            &&& m2.ids.no_duplicates()
            &&& m.refs.len() <= m2.refs.len() <= m.refs.len() + frontier.len() * q.max_fanout_per_node
            &&& m2.refs.take(m.refs.len() as int) == m.refs
            &&& m2.next == m.next + m2.refs.skip(m.refs.len() as int)
        },
    decreases frontier.len(),
{
    if frontier.len() == 0 {
        assert(m.refs.take(m.refs.len() as int) =~= m.refs);
        assert(m.next + m.refs.skip(m.refs.len() as int) =~= m.next);
    } else {
        lemma_visit_frontier(q, root, depth, refs, m, frontier.drop_last());
        if let Ok(m1) = visit_frontier(q, root, depth, refs, m, frontier.drop_last()) {
            let r = frontier.last();
            if let Ok(sel) = incident_selection(q, root, r, depth, refs, m1.failure) {
                let inc = crate::frontier::sorted_incident_refs(q, r, refs);
                let apply = crate::frontier::overrides_apply(root, r, depth);
                crate::frontier::law_fanout_within_node_cap(q, r, inc, apply);
                crate::frontier::law_fanout_within_node_cap(q, r, inc.take(q.max_hub_edges as int), apply);
                let mf = VisibilityModel { failure: sel.1, ..m1 };
                lemma_follow_selected(mf, r, sel.0);
                let m2 = follow_selected(mf, r, sel.0);
                let len = m.refs.len() as int;
                let k = frontier.len() - 1;
                let cap = q.max_fanout_per_node as int;
                assert(k * cap + cap == frontier.len() * cap) by (nonlinear_arith)
                    requires
                        k == frontier.len() - 1,
                ;
                assert(m2.refs.take(len) =~= m1.refs.take(len)) by {
                    assert(m2.refs.take(m1.refs.len() as int) == m1.refs);
                }
                assert(m2.next =~= m.next + m2.refs.skip(len)) by {
                    assert(m2.next == m1.next + m2.refs.skip(m1.refs.len() as int));
                    assert(m1.next == m.next + m1.refs.skip(len));
                    assert(m2.refs.skip(len) =~= m1.refs.skip(len) + m2.refs.skip(m1.refs.len() as int));
                }
            }
        }
    }
}

/// Advancing a frontier never sees a node or follows a link twice, keeps what was
/// seen before in place, and reaches at most `max_fanout_per_node` new nodes per
/// frontier node; the next frontier grows by exactly the newly seen nodes, in the
/// order they were seen.
pub proof fn law_frontier_growth(
    q: GraphExpansionQuery,
    root: GraphObjectRef,
    depth: u8,
    refs: Seq<LinkRef>,
    m: VisibilityModel,
    frontier: Seq<GraphObjectRef>,
)
    requires
        m.refs.no_duplicates(),
        m.ids.no_duplicates(),
    ensures
        visit_frontier(q, root, depth, refs, m, frontier) matches Ok(m2) ==> {
            &&& m2.refs.no_duplicates()
            &&& m2.ids.no_duplicates()
            &&& m2.refs.len() <= m.refs.len() + frontier.len() * q.max_fanout_per_node
            &&& m2.refs.take(m.refs.len() as int) == m.refs
            &&& m2.next == m.next + m2.refs.skip(m.refs.len() as int)
        },
{
    lemma_visit_frontier(q, root, depth, refs, m, frontier);
}

proof fn lemma_visibility_run(
    q: GraphExpansionQuery,
    root: GraphObjectRef,
    links: Seq<LinkRef>,
    m: VisibilityModel,
    frontier: Seq<GraphObjectRef>,
    depth: nat,
)
    requires
        m.refs.no_duplicates(),
        m.ids.no_duplicates(),
        m.refs.len() >= 1,
        m.refs[0] == root,
    ensures
        visibility_run(q, root, links, m, frontier, depth) matches Ok(m2) ==> {
            &&& m2.refs.no_duplicates()
            &&& m2.ids.no_duplicates()
            &&& m2.refs.len() >= 1
            &&& m2.refs[0] == root
        },
    decreases q.max_depth - depth,
{
    if depth < q.max_depth {
        let m0 = VisibilityModel { next: seq![], ..m };
        lemma_visit_frontier(q, root, depth as u8, touching_refs(frontier, links), m0, frontier);
        if let Ok(m2) = visit_frontier(q, root, depth as u8, touching_refs(frontier, links), m0, frontier) {
            assert(m2.refs[0] == m2.refs.take(m.refs.len() as int)[0]);
            if m2.next.len() != 0 {
                lemma_visibility_run(q, root, links, m2, m2.next, depth + 1);
            }
        }
    }
}

/// A bounded visibility sees its root first and every node and every followed
/// link once.
pub proof fn law_visibility_sees_each_once(q: GraphExpansionQuery, root: GraphObjectRef, links: Seq<LinkRef>)
    ensures
        visibility_run(q, root, links, visibility_start(root), seq![root], 0) matches Ok(m) ==> {
            &&& m.refs.no_duplicates()
            &&& m.ids.no_duplicates()
            &&& m.refs.len() >= 1
            &&& m.refs[0] == root
        },
{
    lemma_visibility_run(q, root, links, visibility_start(root), seq![root], 0);
}

} // verus!
