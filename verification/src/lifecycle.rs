//! Lifecycle (correction and forgetting) request vocabulary.

use vstd::prelude::*;
use crate::domain::ObjectType;
use crate::belief::BeliefValidationError;

verus! {

/// Which original source reference a correction names.
#[derive(Debug, Clone, Copy, PartialEq, Eq, Structural)]
pub enum SourceReferenceKind {
    Raw,
    SettingKey,
}

/// Why a lifecycle request is refused before it touches storage.
#[derive(Debug, Clone, Copy, PartialEq, Eq, Structural)]
pub enum LifecycleDtoValidationError {
    EmptyRationale,
    EmptyCorrectionOrigin,
    EmptyReplacementText,
    MissingReplacementSource,
    MissingGivenReplacement,
    InvalidBelief(BeliefValidationError),
    MissingCorrectionTarget,
    MissingForgetTarget,
    UnsupportedLifecycleTarget(ObjectType),
}

} // verus!
