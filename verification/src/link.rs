//! Link admission: which typed links are written, and which of their endpoints
//! carry a lifecycle that link statistics read.

use vstd::prelude::*;
use crate::domain::{ObjectType, RelationType};
use crate::objects::{MemoryLink, MemoryObject};
use crate::errors::CustomError;
use crate::graph::GraphObjectRef;

verus! {

/// Why a link is being written.
#[derive(Debug, Clone, Copy, PartialEq, Eq, Structural)]
pub enum LinkAdmissionEvidence {
    ExplicitCallerIntent,
    LowSelectivityCoOccurrenceOnly,
}

/// Whether a link is written.
#[derive(Debug, Clone, Copy, PartialEq, Eq, Structural)]
pub enum LinkAdmissionDecision {
    Accepted,
    RejectedLowInformationCoOccurrence,
}

/// A link is refused only when it is a bare association supported by nothing but
/// low-selectivity co-occurrence.
pub open spec fn admission_of(link: MemoryLink, evidence: LinkAdmissionEvidence) -> LinkAdmissionDecision {
    if link.relation == RelationType::AssociatedWith && evidence == LinkAdmissionEvidence::LowSelectivityCoOccurrenceOnly {
        LinkAdmissionDecision::RejectedLowInformationCoOccurrence
    } else {
        LinkAdmissionDecision::Accepted
    }
}

/// Decides whether a link is written.
pub fn admit_link(link: &MemoryLink, evidence: LinkAdmissionEvidence) -> (d: LinkAdmissionDecision)
    ensures
        d == admission_of(*link, evidence),
{
    if link.relation == RelationType::AssociatedWith && evidence == LinkAdmissionEvidence::LowSelectivityCoOccurrenceOnly {
        LinkAdmissionDecision::RejectedLowInformationCoOccurrence
    } else {
        LinkAdmissionDecision::Accepted
    }
}

/// The object types whose lifecycle statistics track.
pub open spec fn has_stats_state(t: ObjectType) -> bool {
    t == ObjectType::Episode || t == ObjectType::Observation || t == ObjectType::DerivedMemory
}

/// Whether statistics track the lifecycle of objects of this type.
pub fn object_type_has_stats_state(object_type: ObjectType) -> (b: bool)
    ensures
        b == has_stats_state(object_type),
{
    match object_type {
        ObjectType::Episode | ObjectType::Observation | ObjectType::DerivedMemory => true,
        _ => false,
    }
}

/// The endpoints of a link whose lifecycle statistics need, source first.
pub open spec fn stats_endpoints(link: MemoryLink) -> Seq<GraphObjectRef> {
    let from = GraphObjectRef { object_id: link.from_id, object_type: link.from_type };
    let to = GraphObjectRef { object_id: link.to_id, object_type: link.to_type };
    let a: Seq<GraphObjectRef> = if has_stats_state(link.from_type) {
        seq![from]
    } else {
        seq![]
    };
    if has_stats_state(link.to_type) {
        a.push(to)
    } else {
        a
    }
}

/// The endpoints of a link whose lifecycle statistics need, source first.
pub fn link_stats_endpoint_refs(link: &MemoryLink) -> (v: Vec<GraphObjectRef>)
    ensures
        v@ == stats_endpoints(*link),
{
    let mut refs: Vec<GraphObjectRef> = Vec::new();
    if object_type_has_stats_state(link.from_type) {
        refs.push(GraphObjectRef::new(link.from_id, link.from_type));
    }
    if object_type_has_stats_state(link.to_type) {
        refs.push(GraphObjectRef::new(link.to_id, link.to_type));
    }
    proof {
        assert(refs@ =~= stats_endpoints(*link));
    }
    refs
}

/// The message refusing a low-information co-occurrence link.
pub open spec fn rejection_message() -> Seq<char> {
    "low-information co-occurrence link rejected"@
}

/// Where a link run stands: which call it is waiting on.
#[derive(Debug, Clone, Copy, PartialEq, Eq)]
pub enum LinkPhase {
    RecordingRejection,
    MarkingRejectionUnhealthy,
    WritingLink,
    QueryingEndpoints,
    RecordingStats,
    MarkingStatsUnhealthy,
}

/// What the caller does next for a link run.
#[derive(Debug)]
pub enum LinkAction {
    /// Count a rejected low-information link in the statistics.
    RecordRejectedLink,
    /// Mark the statistics unhealthy with this message.
    MarkStatsUnhealthy(String),
    /// Upsert the link into the graph store.
    UpsertLink,
    /// Read these endpoints of the link from the graph store.
    QueryEndpoints(Vec<GraphObjectRef>),
    /// Record the link's statistics, with the endpoints that were read.
    RecordStats(Vec<MemoryObject>),
}

/// How the caller's last call ended.
#[derive(Debug)]
pub enum LinkEvent {
    /// The call succeeded.
    Succeeded,
    /// The graph store refused the write.
    StoreFailed(CustomError),
    /// A statistics call or the endpoint query failed; the text of its error.
    Failed(String),
    /// The endpoint query returned these objects.
    Objects(Vec<MemoryObject>),
}

/// A link run in progress.
#[derive(Debug)]
pub struct LinkRun {
    pub phase: LinkPhase,
    pub link: MemoryLink,
}

/// The next step of a link run: a call to make, or the run's result.
#[derive(Debug)]
pub enum LinkNext {
    Act(LinkRun, LinkAction),
    Finished(Result<MemoryLink, CustomError>),
}

/// Whether `r` is the refusal of a low-information link.
pub open spec fn is_rejection(r: Result<MemoryLink, CustomError>) -> bool {
    r matches Err(CustomError::MemoryValidation(m)) && m@ == rejection_message()
}

fn rejection() -> (r: Result<MemoryLink, CustomError>)
    ensures
        is_rejection(r),
{
    proof {
        reveal_strlit("low-information co-occurrence link rejected");
    }
    Err(CustomError::MemoryValidation(String::from_str("low-information co-occurrence link rejected")))
}

impl LinkRun {
    /// Starts writing a validated link: a refused link is only counted in the
    /// statistics; an admitted one is written to the graph first.
    pub fn start(link: MemoryLink, evidence: LinkAdmissionEvidence) -> (r: (LinkRun, LinkAction))
        ensures
            r.0.link == link,
            admission_of(link, evidence) == LinkAdmissionDecision::RejectedLowInformationCoOccurrence ==> r.0.phase
                == LinkPhase::RecordingRejection && r.1 is RecordRejectedLink,
            admission_of(link, evidence) == LinkAdmissionDecision::Accepted ==> r.0.phase == LinkPhase::WritingLink
                && r.1 is UpsertLink,
    {
        match admit_link(&link, evidence) {
            LinkAdmissionDecision::RejectedLowInformationCoOccurrence => (
                LinkRun { phase: LinkPhase::RecordingRejection, link },
                LinkAction::RecordRejectedLink,
            ),
            LinkAdmissionDecision::Accepted => (LinkRun { phase: LinkPhase::WritingLink, link }, LinkAction::UpsertLink),
        }
    }

    /// Takes the result of the last call. A refused link ends refused whatever the
    /// statistics say, marking them unhealthy when counting it failed. A failed graph
    /// write ends the run with its error. After the write the link's statistics are
    /// recorded, with its tracked endpoints read first; a failed read, reported with
    /// the text of its error, marks the statistics unhealthy with that text; either
    /// way the written link is the result. A write error answers no read: the read is
    /// asked for again. Any other event that does not answer the pending call is taken
    /// as that call's success.
    pub fn step(self, event: LinkEvent) -> (r: LinkNext)
        ensures
            match self.phase {
                LinkPhase::RecordingRejection => match event {
                    LinkEvent::Failed(m) => r matches LinkNext::Act(n, LinkAction::MarkStatsUnhealthy(x))
                        && n.phase == LinkPhase::MarkingRejectionUnhealthy && n.link == self.link && x == m,
                    _ => r matches LinkNext::Finished(res) && is_rejection(res),
                },
                LinkPhase::MarkingRejectionUnhealthy => r matches LinkNext::Finished(res) && is_rejection(res),
                LinkPhase::WritingLink => match event {
                    LinkEvent::StoreFailed(e) => r == LinkNext::Finished(Err(e)),
                    _ => if stats_endpoints(self.link).len() == 0 {
                        r matches LinkNext::Act(n, LinkAction::RecordStats(objs)) && n.phase == LinkPhase::RecordingStats
                            && n.link == self.link && objs@.len() == 0
                    } else {
                        r matches LinkNext::Act(n, LinkAction::QueryEndpoints(refs)) && n.phase
                            == LinkPhase::QueryingEndpoints && n.link == self.link && refs@ == stats_endpoints(self.link)
                    },
                },
                LinkPhase::QueryingEndpoints => match event {
                    LinkEvent::Objects(objs) => r matches LinkNext::Act(n, LinkAction::RecordStats(o)) && n.phase
                        == LinkPhase::RecordingStats && n.link == self.link && o == objs,
                    LinkEvent::Failed(m) => r matches LinkNext::Act(n, LinkAction::MarkStatsUnhealthy(x)) && n.phase
                        == LinkPhase::MarkingStatsUnhealthy && n.link == self.link && x == m,
                    LinkEvent::StoreFailed(_) => r matches LinkNext::Act(n, LinkAction::QueryEndpoints(refs)) && n.phase
                        == LinkPhase::QueryingEndpoints && n.link == self.link && refs@ == stats_endpoints(self.link),
                    LinkEvent::Succeeded => r matches LinkNext::Act(n, LinkAction::RecordStats(o)) && n.phase
                        == LinkPhase::RecordingStats && n.link == self.link && o@.len() == 0,
                },
                LinkPhase::RecordingStats => r == LinkNext::Finished(Ok(self.link)),
                LinkPhase::MarkingStatsUnhealthy => r == LinkNext::Finished(Ok(self.link)),
            },
    {
        let LinkRun { phase, link } = self;
        match phase {
            LinkPhase::RecordingRejection => match event {
                LinkEvent::Failed(m) => LinkNext::Act(
                    LinkRun { phase: LinkPhase::MarkingRejectionUnhealthy, link },
                    LinkAction::MarkStatsUnhealthy(m),
                ),
                _ => LinkNext::Finished(rejection()),
            },
            LinkPhase::MarkingRejectionUnhealthy => LinkNext::Finished(rejection()),
            LinkPhase::WritingLink => match event {
                LinkEvent::StoreFailed(e) => LinkNext::Finished(Err(e)),
                _ => {
                    let refs = link_stats_endpoint_refs(&link);
                    if refs.len() == 0 {
                        LinkNext::Act(LinkRun { phase: LinkPhase::RecordingStats, link }, LinkAction::RecordStats(Vec::new()))
                    } else {
                        LinkNext::Act(LinkRun { phase: LinkPhase::QueryingEndpoints, link }, LinkAction::QueryEndpoints(refs))
                    }
                },
            },
            LinkPhase::QueryingEndpoints => match event {
                LinkEvent::Objects(objs) => LinkNext::Act(
                    LinkRun { phase: LinkPhase::RecordingStats, link },
                    LinkAction::RecordStats(objs),
                ),
                LinkEvent::Failed(m) => LinkNext::Act(
                    LinkRun { phase: LinkPhase::MarkingStatsUnhealthy, link },
                    LinkAction::MarkStatsUnhealthy(m),
                ),
                LinkEvent::StoreFailed(_) => {
                    let refs = link_stats_endpoint_refs(&link);
                    LinkNext::Act(LinkRun { phase: LinkPhase::QueryingEndpoints, link }, LinkAction::QueryEndpoints(refs))
                },
                LinkEvent::Succeeded => LinkNext::Act(
                    LinkRun { phase: LinkPhase::RecordingStats, link },
                    LinkAction::RecordStats(Vec::new()),
                ),
            },
            LinkPhase::RecordingStats => LinkNext::Finished(Ok(link)),
            LinkPhase::MarkingStatsUnhealthy => LinkNext::Finished(Ok(link)),
        }
    }
}

} // verus!
