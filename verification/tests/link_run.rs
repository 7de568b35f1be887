use cmem::domain::{ObjectType, RelationType, CURRENT_SCHEMA_VERSION};
use cmem::errors::CustomError;
use cmem::graph::GraphObjectRef;
use cmem::link::{LinkAction, LinkAdmissionEvidence, LinkEvent, LinkNext, LinkPhase, LinkRun};
use cmem::objects::MemoryLink;

fn link(relation: RelationType, from_type: ObjectType, to_type: ObjectType) -> MemoryLink {
    MemoryLink {
        id: 100,
        object_type: ObjectType::MemoryLink,
        from_id: 1,
        from_type,
        to_id: 2,
        to_type,
        relation,
        rationale: None,
        created_at: 0,
        schema_version: CURRENT_SCHEMA_VERSION.to_owned(),
    }
}

fn rejection() -> CustomError {
    CustomError::MemoryValidation("low-information co-occurrence link rejected".to_owned())
}

fn act(next: LinkNext) -> (LinkRun, LinkAction) {
    match next {
        LinkNext::Act(run, action) => (run, action),
        other => panic!("expected an action, got {other:?}"),
    }
}

fn finished(next: LinkNext) -> Result<MemoryLink, CustomError> {
    match next {
        LinkNext::Finished(result) => result,
        other => panic!("expected a result, got {other:?}"),
    }
}

#[test]
fn link_run_refuses_low_information_co_occurrence_after_counting_it() {
    let l = link(RelationType::AssociatedWith, ObjectType::Entity, ObjectType::Entity);
    let (run, action) = LinkRun::start(l, LinkAdmissionEvidence::LowSelectivityCoOccurrenceOnly);
    assert!(matches!(action, LinkAction::RecordRejectedLink));
    assert_eq!(finished(run.step(LinkEvent::Succeeded)), Err(rejection()));
}

#[test]
fn link_run_marks_stats_unhealthy_when_counting_a_refusal_fails() {
    let l = link(RelationType::AssociatedWith, ObjectType::Entity, ObjectType::Entity);
    let (run, _) = LinkRun::start(l, LinkAdmissionEvidence::LowSelectivityCoOccurrenceOnly);
    let (run, action) = act(run.step(LinkEvent::Failed("stats down".to_owned())));
    assert_eq!(run.phase, LinkPhase::MarkingRejectionUnhealthy);
    assert!(matches!(action, LinkAction::MarkStatsUnhealthy(ref m) if m == "stats down"));
    assert_eq!(finished(run.step(LinkEvent::Succeeded)), Err(rejection()));
}

#[test]
fn link_run_returns_the_graph_write_error() {
    let l = link(RelationType::AssociatedWith, ObjectType::Entity, ObjectType::Entity);
    let (run, action) = LinkRun::start(l, LinkAdmissionEvidence::ExplicitCallerIntent);
    assert!(matches!(action, LinkAction::UpsertLink));
    let error = CustomError::DatabaseError("link write failed".to_owned());
    assert_eq!(finished(run.step(LinkEvent::StoreFailed(error.clone()))), Err(error));
}

#[test]
fn link_run_reads_tracked_endpoints_then_records_stats() {
    let l = link(RelationType::Supports, ObjectType::DerivedMemory, ObjectType::Entity);
    let (run, _) = LinkRun::start(l.clone(), LinkAdmissionEvidence::ExplicitCallerIntent);
    let (run, action) = act(run.step(LinkEvent::Succeeded));
    match action {
        LinkAction::QueryEndpoints(refs) => {
            assert_eq!(refs, vec![GraphObjectRef::new(1, ObjectType::DerivedMemory)]);
        }
        other => panic!("expected an endpoint query, got {other:?}"),
    }
    let (run, action) = act(run.step(LinkEvent::Objects(vec![])));
    assert!(matches!(action, LinkAction::RecordStats(ref objs) if objs.is_empty()));
    assert_eq!(finished(run.step(LinkEvent::Succeeded)), Ok(l));
}

#[test]
fn link_run_marks_stats_unhealthy_when_the_endpoint_read_fails_and_keeps_the_link() {
    let l = link(RelationType::Supports, ObjectType::Episode, ObjectType::Observation);
    let (run, _) = LinkRun::start(l.clone(), LinkAdmissionEvidence::ExplicitCallerIntent);
    let (run, _) = act(run.step(LinkEvent::Succeeded));
    let (run, action) = act(run.step(LinkEvent::Failed("graph read failed".to_owned())));
    assert!(matches!(action, LinkAction::MarkStatsUnhealthy(ref m) if m == "graph read failed"));
    assert_eq!(finished(run.step(LinkEvent::Succeeded)), Ok(l));
}

#[test]
fn link_run_between_untracked_endpoints_records_stats_without_reading() {
    let l = link(RelationType::Mentions, ObjectType::Entity, ObjectType::MemoryThread);
    let (run, _) = LinkRun::start(l.clone(), LinkAdmissionEvidence::LowSelectivityCoOccurrenceOnly);
    let (run, action) = act(run.step(LinkEvent::Succeeded));
    assert!(matches!(action, LinkAction::RecordStats(ref objs) if objs.is_empty()));
    assert_eq!(finished(run.step(LinkEvent::Succeeded)), Ok(l));
}

#[test]
fn link_run_asks_again_for_the_endpoint_read_when_answered_with_a_write_error() {
    let l = link(RelationType::Supports, ObjectType::Episode, ObjectType::Observation);
    let (run, _) = LinkRun::start(l.clone(), LinkAdmissionEvidence::ExplicitCallerIntent);
    let (run, _) = act(run.step(LinkEvent::Succeeded));
    let (run, action) = act(run.step(LinkEvent::StoreFailed(CustomError::DatabaseError("x".to_owned()))));
    assert_eq!(run.phase, LinkPhase::QueryingEndpoints);
    assert!(matches!(action, LinkAction::QueryEndpoints(ref refs) if refs.len() == 2));
}
