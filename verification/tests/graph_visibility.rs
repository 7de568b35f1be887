use cmem::domain::{ObjectType, RelationType};
use cmem::errors::CustomError;
use cmem::frontier::LinkRef;
use cmem::graph::{
    GraphExpansionBoundedFailure, GraphExpansionBoundedFailureReason, GraphExpansionFailurePolicy,
    GraphExpansionFanoutOverride, GraphExpansionQuery, GraphObjectRef,
};
use cmem::visibility::{
    advance_frontier, bounded_graph_visible_refs, lifecycle_link_ids, links_touching, FrontierVisibility,
};

fn link(n: u128, from: GraphObjectRef, to: GraphObjectRef, relation: RelationType) -> LinkRef {
    LinkRef { link_id: n, from, to, relation }
}

fn hub() -> GraphObjectRef {
    GraphObjectRef::new(1, ObjectType::Entity)
}

fn hub_with_memories(count: u128) -> Vec<LinkRef> {
    (0..count)
        .map(|i| link(100 + i, hub(), GraphObjectRef::new(200 + i, ObjectType::DerivedMemory), RelationType::About))
        .collect()
}

#[test]
fn visibility_applies_selectivity_fanout_before_hydration() {
    let mut query = GraphExpansionQuery::new(1, ObjectType::Entity, 1, 20)
        .with_allowed_object_types(vec![ObjectType::DerivedMemory])
        .with_max_fanout_per_node(20);
    query.fanout_overrides = vec![GraphExpansionFanoutOverride {
        relation: RelationType::About,
        object_type: ObjectType::DerivedMemory,
        max_fanout: 1,
    }];

    let visibility = bounded_graph_visible_refs(hub(), &query, &hub_with_memories(5)).unwrap();

    assert_eq!(visibility.traversal_link_ids, vec![100]);
    assert_eq!(visibility.object_refs, vec![hub(), GraphObjectRef::new(200, ObjectType::DerivedMemory)]);
    assert_eq!(visibility.bounded_failure, None);
}

#[test]
fn visibility_fails_closed_at_a_hub() {
    let query = GraphExpansionQuery::new(1, ObjectType::Entity, 1, 20)
        .with_max_hub_edges(1)
        .with_failure_policy(GraphExpansionFailurePolicy { timeout_ms: Some(250), allow_partial_results: false });

    let error = bounded_graph_visible_refs(hub(), &query, &hub_with_memories(3)).unwrap_err();

    assert!(matches!(error, CustomError::GraphExpansionBounded { reason, .. } if reason == "hub_limit"));
}

#[test]
fn visibility_records_a_hub_once_when_partial_results_are_allowed() {
    let query = GraphExpansionQuery::new(1, ObjectType::Entity, 1, 20).with_max_hub_edges(2);

    let visibility = bounded_graph_visible_refs(hub(), &query, &hub_with_memories(3)).unwrap();

    assert_eq!(visibility.traversal_link_ids, vec![100, 101]);
    assert_eq!(
        visibility.bounded_failure,
        Some(GraphExpansionBoundedFailure { reason: GraphExpansionBoundedFailureReason::HubLimit, at: Some(hub()) })
    );
}

#[test]
fn visibility_stops_at_the_depth_limit_and_sees_each_node_once() {
    let a = GraphObjectRef::new(10, ObjectType::Episode);
    let b = GraphObjectRef::new(11, ObjectType::Observation);
    let c = GraphObjectRef::new(12, ObjectType::DerivedMemory);
    let links = vec![
        link(1, hub(), a, RelationType::Involves),
        link(2, a, b, RelationType::HasObservation),
        link(3, b, c, RelationType::DerivedFrom),
        link(4, hub(), b, RelationType::Mentions),
    ];

    let depth_one = bounded_graph_visible_refs(hub(), &GraphExpansionQuery::new(1, ObjectType::Entity, 1, 20), &links).unwrap();
    assert_eq!(depth_one.object_refs, vec![hub(), a, b]);
    assert_eq!(depth_one.traversal_link_ids, vec![1, 4]);

    let depth_two = bounded_graph_visible_refs(hub(), &GraphExpansionQuery::new(1, ObjectType::Entity, 2, 20), &links).unwrap();
    assert_eq!(depth_two.object_refs, vec![hub(), a, b, c]);
    assert_eq!(depth_two.traversal_link_ids, vec![1, 4, 2, 3]);

    let depth_zero = bounded_graph_visible_refs(hub(), &GraphExpansionQuery::new(1, ObjectType::Entity, 0, 20), &links).unwrap();
    assert_eq!(depth_zero.object_refs, vec![hub()]);
    assert!(depth_zero.traversal_link_ids.is_empty());
}

#[test]
fn visibility_uses_supersession_evidence_outside_the_frontier() {
    let superseded = GraphObjectRef::new(20, ObjectType::DerivedMemory);
    let replacement = GraphObjectRef::new(21, ObjectType::DerivedMemory);
    let links = vec![
        link(2, hub(), superseded, RelationType::About),
        link(3, replacement, superseded, RelationType::Supersedes),
    ];
    let query = GraphExpansionQuery::new(20, ObjectType::DerivedMemory, 0, 3);

    let visibility = bounded_graph_visible_refs(superseded, &query, &links).unwrap();

    assert_eq!(visibility.object_refs, vec![superseded]);
    assert_eq!(visibility.lifecycle_link_ids, vec![3]);
}

#[test]
fn touching_links_and_lifecycle_evidence_keep_store_order() {
    let d = GraphObjectRef::new(30, ObjectType::DerivedMemory);
    let e = GraphObjectRef::new(31, ObjectType::DerivedMemory);
    let links = vec![
        link(7, e, d, RelationType::Supersedes),
        link(8, hub(), e, RelationType::About),
        link(9, GraphObjectRef::new(40, ObjectType::Entity), GraphObjectRef::new(41, ObjectType::Episode), RelationType::Involves),
        link(7, e, d, RelationType::Supersedes),
    ];
    let touching = links_touching(&vec![d], &links);
    assert_eq!(touching.iter().map(|l| l.link_id).collect::<Vec<_>>(), vec![7, 7]);
    assert_eq!(lifecycle_link_ids(&vec![d, e], &links), vec![7]);
    assert!(lifecycle_link_ids(&vec![e], &links).is_empty());
}

#[test]
fn advancing_a_frontier_returns_only_new_nodes() {
    let a = GraphObjectRef::new(10, ObjectType::Episode);
    let links = vec![link(1, hub(), a, RelationType::Involves), link(2, a, hub(), RelationType::Mentions)];
    let query = GraphExpansionQuery::new(1, ObjectType::Entity, 2, 20);

    let (visibility, next) =
        advance_frontier(&query, hub(), 0, &vec![hub()], &links, FrontierVisibility::new(hub())).unwrap();
    assert_eq!(next, vec![a]);
    assert_eq!(visibility.traversal_link_ids, vec![2, 1]);

    let (again, none) = advance_frontier(&query, hub(), 1, &next, &links, visibility).unwrap();
    assert!(none.is_empty());
    assert_eq!(again.object_refs, vec![hub(), a]);
}
