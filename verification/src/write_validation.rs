//! Per-candidate verdicts of write-plan validation.

use vstd::prelude::*;
use crate::domain::{MemoryId, MemoryObjectRef, ObjectType, RetentionState};
use crate::objects::DerivedMemory;
use crate::text::is_blank_text;

verus! {

/// Kinds of candidates a write plan may carry.
#[derive(Debug, Clone, Copy, PartialEq, Eq, Structural)]
pub enum MemoryCandidateKind {
    Episode,
    Observation,
    Entity,
    MemoryThread,
    DerivedMemory,
    MemoryLink,
    VectorIndex,
    StatsUpdate,
}

/// Whether a candidate passed validation.
#[derive(Debug, Clone, Copy, PartialEq, Eq, Structural)]
pub enum CandidateValidationStatus {
    Valid,
    Invalid,
}

/// The verdict on one candidate of a write plan.
#[derive(Debug, Clone, PartialEq, Eq)]
pub struct CandidateValidation {
    pub candidate_index: usize,
    pub candidate_kind: MemoryCandidateKind,
    pub status: CandidateValidationStatus,
    pub errors: Vec<CandidateValidationIssue>,
    pub warnings: Vec<CandidateValidationIssue>,
}

impl CandidateValidation {
    /// A valid verdict with no errors or warnings.
    pub fn valid(candidate_index: usize, candidate_kind: MemoryCandidateKind) -> (r: CandidateValidation)
        ensures
            r.candidate_index == candidate_index,
            r.candidate_kind == candidate_kind,
            r.status == CandidateValidationStatus::Valid,
            r.errors@.len() == 0,
            r.warnings@.len() == 0,
    {
        CandidateValidation {
            candidate_index,
            candidate_kind,
            status: CandidateValidationStatus::Valid,
            errors: Vec::new(),
            warnings: Vec::new(),
        }
    }

    /// An invalid verdict carrying exactly `error`.
    pub fn invalid(
        candidate_index: usize,
        candidate_kind: MemoryCandidateKind,
        error: CandidateValidationIssue,
    ) -> (r: CandidateValidation)
        ensures
            r.candidate_index == candidate_index,
            r.candidate_kind == candidate_kind,
            r.status == CandidateValidationStatus::Invalid,
            r.errors@ == seq![error],
            r.warnings@.len() == 0,
    {
        let mut errors = Vec::new();
        errors.push(error);
        CandidateValidation {
            candidate_index,
            candidate_kind,
            status: CandidateValidationStatus::Invalid,
            errors,
            warnings: Vec::new(),
        }
    }

    /// The same verdict with `warning` appended to its warnings.
    pub fn with_warning(self, warning: CandidateValidationIssue) -> (r: CandidateValidation)
        ensures
            r.candidate_index == self.candidate_index,
            r.candidate_kind == self.candidate_kind,
            r.status == self.status,
            r.errors == self.errors,
            r.warnings@ == self.warnings@.push(warning),
    {
        let mut v = self;
        v.warnings.push(warning);
        v
    }
}

/// A reason a candidate is refused or warned about.
#[derive(Debug, Clone, PartialEq, Eq)]
pub enum CandidateValidationIssue {
    MissingPlanIdentity { field: PlanIdentityField },
    MissingCandidateId,
    MissingCandidateSchemaVersion,
    MissingTimestamp { field: CandidateTimestampField },
    ObjectTypeMismatch { expected: ObjectType, actual: ObjectType },
    EmptyEpisodeSummary,
    MissingEpisodeReference,
    MissingDerivedSource,
    InvalidScore { field: CandidateScoreField, actual: String },
    UnsupportedMemoryLinkEndpoint { endpoint: MemoryLinkEndpoint },
    SelfLink { referenced: MemoryObjectRef },
    MissingObjectSchemaVersion,
    MemoryLinkRejectedByAdmissionPolicy,
    SuppressedMemoryMarkedCurrent,
    SupersedingMemoryMarkedCurrent,
    InvalidProvenance { reason: CandidateProvenanceIssue },
    InvalidSourceSpan { reason: CandidateSourceSpanIssue },
    EmptyVectorEmbeddingText,
    IncompleteStatsRelationObjectPair,
    UnknownObjectRef { role: CandidateReferenceRole, referenced: MemoryObjectRef },
    ReferenceNotInPlan { role: CandidateReferenceRole, referenced: MemoryObjectRef },
    DuplicateObservationEcho { echo_surface: String, matching_episode_ids: Vec<MemoryId> },
}

/// Identity fields a write plan must carry.
#[derive(Debug, Clone, Copy, PartialEq, Eq, Structural)]
pub enum PlanIdentityField {
    OperationId,
    IdempotencyKey,
}

/// Candidate timestamps required for a deterministic commit.
#[derive(Debug, Clone, Copy, PartialEq, Eq, Structural)]
pub enum CandidateTimestampField {
    CreatedAt,
    UpdatedAt,
    LastTouchedAt,
}

/// Candidate scores that must lie in `0.0..=1.0`.
#[derive(Debug, Clone, Copy, PartialEq, Eq, Structural)]
pub enum CandidateScoreField {
    EpisodeSalience,
    ObservationSalience,
    MemoryThreadSalience,
    DerivedMemoryConfidence,
    DerivedMemorySalience,
    MemoryLinkConfidence,
}

/// The two endpoints of a memory link.
#[derive(Debug, Clone, Copy, PartialEq, Eq, Structural)]
pub enum MemoryLinkEndpoint {
    From,
    To,
}

/// Ways a candidate's provenance is inconsistent.
#[derive(Debug, Clone, Copy, PartialEq, Eq, Structural)]
pub enum CandidateProvenanceIssue {
    NonCallerClaimedCallerRationale,
    EmptyRationaleText,
    EmptyExternalReference,
}

/// Ways a candidate's source span is malformed.
#[derive(Debug, Clone, Copy, PartialEq, Eq, Structural)]
pub enum CandidateSourceSpanIssue {
    EmptySourceRef,
    EmptyRawRef,
    EmptyMessageId,
    EmptyTranscriptSegmentId,
    InvalidTurnRange,
    InvalidCharRange,
    InvalidByteRange,
    InvalidTimestampRange,
}

/// The role an object reference plays in a candidate.
#[derive(Debug, Clone, Copy, PartialEq, Eq, Structural)]
pub enum CandidateReferenceRole {
    DerivedSourceEpisode,
    DerivedSourceObservation,
    MemoryLinkFrom,
    MemoryLinkTo,
    VectorIndexTarget,
    StatsUpdateSubject,
    StatsUpdateObject,
}

/// The lifecycle problems of a derived memory: suppressed memories are not current,
/// and superseding memories are not current unless archived as historical.
pub open spec fn derived_lifecycle_errors(m: DerivedMemory) -> Seq<Seq<char>> {
    let a: Seq<Seq<char>> = if m.retention_state == RetentionState::Suppressed && m.is_current {
        seq!["suppressed memories are not current"@]
    } else {
        seq![]
    };
    if m.supersedes@.len() > 0 && m.is_current && m.retention_state != RetentionState::Archived {
        a.push("superseded memories are not current unless explicitly historical"@)
    } else {
        a
    }
}

/// The lifecycle problems of a derived memory, as messages.
pub fn validate_derived_memory_lifecycle(m: &DerivedMemory) -> (r: Vec<String>)
    ensures
        crate::vector::texts(r@) == derived_lifecycle_errors(*m),
{
    let mut errors: Vec<String> = Vec::new();
    if m.retention_state == RetentionState::Suppressed && m.is_current {
        errors.push(String::from_str("suppressed memories are not current"));
    }
    if m.supersedes.len() > 0 && m.is_current && m.retention_state != RetentionState::Archived {
        errors.push(String::from_str("superseded memories are not current unless explicitly historical"));
    }
    proof {
        assert(crate::vector::texts(errors@) =~= derived_lifecycle_errors(*m));
    }
    errors
}

/// The identity problems of a candidate: a missing or nil id, and a missing or
/// blank schema version, each named by the candidate's label.
pub open spec fn identity_errors(label: Seq<char>, id: Option<MemoryId>, schema_version: Option<Seq<char>>) -> Seq<Seq<char>> {
    let a: Seq<Seq<char>> = if id matches Some(i) && i != 0 {
        seq![]
    } else {
        seq![label + " id must be present"@]
    };
    if schema_version matches Some(v) && !is_blank_text(v) {
        a
    } else {
        a.push(label + " schema_version must be present"@)
    }
}

/// The identity problems of a candidate, as messages.
pub fn validate_required_candidate_identity(label: &str, id: Option<MemoryId>, schema_version: Option<&str>) -> (r: Vec<String>)
    ensures
        crate::vector::texts(r@) == identity_errors(label@, id, match schema_version {
            Some(v) => Some(v@),
            None => None,
        }),
{
    let mut errors: Vec<String> = Vec::new();
    let missing_id = match id {
        Some(i) => crate::ids::uuid_is_nil(i),
        None => true,
    };
    if missing_id {
        let mut m = String::from_str(label);
        m.append(" id must be present");
        errors.push(m);
    }
    let missing_version = match schema_version {
        Some(v) => crate::text::is_blank(v),
        None => true,
    };
    if missing_version {
        let mut m = String::from_str(label);
        m.append(" schema_version must be present");
        errors.push(m);
    }
    proof {
        assert(crate::vector::texts(errors@) =~= identity_errors(label@, id, match schema_version {
            Some(v) => Some(v@),
            None => None,
        }));
    }
    errors
}

} // verus!
