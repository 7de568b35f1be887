//! Error values of the library, each holding plain values.

use vstd::prelude::*;
use crate::domain::{MemoryId, MemoryObjectRef, ObjectType};
use crate::objects::DomainValidationError;
use crate::write_validation::CandidateValidation;
use crate::lifecycle::{LifecycleDtoValidationError, SourceReferenceKind};

verus! {

/// What failed inside a vector database.
#[derive(Debug, Clone, PartialEq, Eq)]
pub enum VectorDatabaseErrorKind {
    Engine,
    Response,
    ResourceExhausted,
    Conversion,
    InvalidUri,
    NoSnapshotFound,
    Io { io_kind: String },
    HttpTimeout,
    HttpConnect,
    HttpStatus,
    Http,
    JsonToPayload,
    PayloadDeserialization,
}

/// Transport status codes reported by a vector database.
#[derive(Debug, Clone, PartialEq, Eq)]
pub enum TransportStatus {
    StatusOk,
    Cancelled,
    Unknown,
    InvalidArgument,
    DeadlineExceeded,
    NotFound,
    AlreadyExists,
    PermissionDenied,
    ResourceExhausted,
    FailedPrecondition,
    Aborted,
    OutOfRange,
    Unimplemented,
    Internal,
    Unavailable,
    DataLoss,
    Unauthenticated,
    Unrecognized(String),
}

/// A vector database failure with its backend, kind, status and retry hint.
#[derive(Debug, Clone, PartialEq, Eq)]
pub struct VectorDatabaseError {
    pub backend: String,
    pub kind: VectorDatabaseErrorKind,
    pub status: Option<TransportStatus>,
    pub message: String,
    pub retry_after_seconds: Option<u64>,
}

impl VectorDatabaseError {
    /// An error from `backend` with no retry hint.
    pub fn new(
        backend: &'static str,
        kind: VectorDatabaseErrorKind,
        status: Option<TransportStatus>,
        message: String,
    ) -> (r: VectorDatabaseError)
        ensures
            r.backend@ == backend@,
            r.kind == kind,
            r.status == status,
            r.message == message,
            r.retry_after_seconds is None,
    {
        VectorDatabaseError {
            backend: String::from_str(backend),
            kind,
            status,
            message,
            retry_after_seconds: None,
        }
    }

    /// The same error, advising a retry after `retry_after_seconds`.
    pub fn with_retry_after_seconds(self, retry_after_seconds: u64) -> (r: VectorDatabaseError)
        ensures
            r == (VectorDatabaseError { retry_after_seconds: Some(retry_after_seconds), ..self }),
    {
        VectorDatabaseError { retry_after_seconds: Some(retry_after_seconds), ..self }
    }
}

/// Failures of an embedding provider.
#[derive(Debug, Clone, PartialEq, Eq)]
pub enum EmbeddingError {
    MissingApiKey,
    InvalidVectorSize { actual: usize },
    BlankInput { index: Option<usize> },
    Transport { transport_kind: EmbeddingTransportErrorKind, detail: String },
    HttpStatus { status: u16, body: String },
    InvalidJson { detail: String },
    MissingData,
    CountMismatch { expected: usize, actual: usize },
    MissingIndex { item: usize },
    IndexOutOfRange { index: usize, expected_count: usize },
    DuplicateIndex { index: usize },
    MissingEmbedding { item: usize },
    DimensionMismatch { index: usize, expected: usize, actual: usize },
    NonNumericValue { index: usize, component: usize },
    MissingResponseIndex { index: usize },
    Unrecognized { detail: String },
}

/// Where an embedding request failed in transport.
#[derive(Debug, Clone, Copy, PartialEq, Eq, Structural)]
pub enum EmbeddingTransportErrorKind {
    Timeout,
    Connect,
    Request,
    Body,
    Other,
}

/// Why indexing vectors for stored objects failed.
#[derive(Debug, Clone, PartialEq, Eq)]
pub enum VectorIndexingCause {
    GraphQuery(GraphQueryError),
    Embedding(EmbeddingError),
    CardinalityMismatch { expected: usize, actual: usize },
    ZeroNormEmbedding { object: MemoryObjectRef },
    VectorDatabase(VectorDatabaseError),
}

/// Graph authority query failures.
#[derive(Debug, Clone, PartialEq, Eq)]
pub enum GraphQueryError {
    Selection { detail: String },
    Hydration { detail: String },
}

impl GraphQueryError {
    /// An exact copy of this error.
    pub fn duplicate(&self) -> (r: GraphQueryError)
        ensures
            r == *self,
    {
        match self {
            GraphQueryError::Selection { detail } => GraphQueryError::Selection { detail: detail.clone() },
            GraphQueryError::Hydration { detail } => GraphQueryError::Hydration { detail: detail.clone() },
        }
    }
}

/// Retrieval statistics store failures.
#[derive(Debug, Clone, PartialEq, Eq)]
pub enum RetrievalStatsStoreError {
    NegativeCounter { value: i64 },
    Sqlite { detail: String },
    Filesystem { io_kind: String, detail: String },
    LockPoisoned,
    HealthSerialization { detail: String },
    HealthDeserialization { detail: String },
}

impl RetrievalStatsStoreError {
    /// An exact copy of this error.
    pub fn duplicate(&self) -> (r: RetrievalStatsStoreError)
        ensures
            r == *self,
    {
        match self {
            RetrievalStatsStoreError::NegativeCounter { value } => RetrievalStatsStoreError::NegativeCounter {
                value: *value,
            },
            RetrievalStatsStoreError::Sqlite { detail } => RetrievalStatsStoreError::Sqlite {
                detail: detail.clone(),
            },
            RetrievalStatsStoreError::Filesystem { io_kind, detail } => RetrievalStatsStoreError::Filesystem {
                io_kind: io_kind.clone(),
                detail: detail.clone(),
            },
            RetrievalStatsStoreError::LockPoisoned => RetrievalStatsStoreError::LockPoisoned,
            RetrievalStatsStoreError::HealthSerialization { detail } => RetrievalStatsStoreError::HealthSerialization {
                detail: detail.clone(),
            },
            RetrievalStatsStoreError::HealthDeserialization { detail } => RetrievalStatsStoreError::HealthDeserialization {
                detail: detail.clone(),
            },
        }
    }
}

/// Why a statistics update after a write failed.
#[derive(Debug, Clone, PartialEq, Eq)]
pub enum StatsUpdateCause {
    GraphRead { error: GraphQueryError },
    EdgeWrite { error: RetrievalStatsStoreError },
    ObjectStateWrite { error: RetrievalStatsStoreError },
    HealthCheck { error: RetrievalStatsStoreError },
    HealthMark { error: RetrievalStatsStoreError },
    StoreUnhealthy { health_cause: Option<RetrievalStatsHealthCause> },
}

/// The operation whose failure made the statistics store unhealthy.
#[derive(Debug, Clone, PartialEq, Eq)]
pub enum RetrievalStatsHealthCause {
    StoreInitialization { error: RetrievalStatsStoreError },
    GraphRead { error: GraphQueryError },
    EdgeWrite { error: RetrievalStatsStoreError },
    ObjectStateWrite { error: RetrievalStatsStoreError },
    HealthCheck { error: RetrievalStatsStoreError },
    CounterRead { error: RetrievalStatsStoreError },
    GlobalCounterRead { error: RetrievalStatsStoreError },
}

/// The health cause that a statistics update failure records, if any.
pub open spec fn stats_health_cause(cause: StatsUpdateCause) -> Option<RetrievalStatsHealthCause> {
    match cause {
        StatsUpdateCause::GraphRead { error } => Some(RetrievalStatsHealthCause::GraphRead { error }),
        StatsUpdateCause::EdgeWrite { error } => Some(RetrievalStatsHealthCause::EdgeWrite { error }),
        StatsUpdateCause::ObjectStateWrite { error } => Some(
            RetrievalStatsHealthCause::ObjectStateWrite { error },
        ),
        StatsUpdateCause::HealthCheck { error } => Some(RetrievalStatsHealthCause::HealthCheck { error }),
        StatsUpdateCause::HealthMark { .. } => None,
        StatsUpdateCause::StoreUnhealthy { .. } => None,
    }
}

impl StatsUpdateCause {
    /// The health cause to record for this failure: the failing operation with its
    /// error; none for a failed health mark or an already unhealthy store.
    pub fn health_cause(&self) -> (r: Option<RetrievalStatsHealthCause>)
        ensures
            r == stats_health_cause(*self),
    {
        match self {
            StatsUpdateCause::GraphRead { error } => Some(
                RetrievalStatsHealthCause::GraphRead { error: error.duplicate() },
            ),
            StatsUpdateCause::EdgeWrite { error } => Some(
                RetrievalStatsHealthCause::EdgeWrite { error: error.duplicate() },
            ),
            StatsUpdateCause::ObjectStateWrite { error } => Some(
                RetrievalStatsHealthCause::ObjectStateWrite { error: error.duplicate() },
            ),
            StatsUpdateCause::HealthCheck { error } => Some(
                RetrievalStatsHealthCause::HealthCheck { error: error.duplicate() },
            ),
            StatsUpdateCause::HealthMark { .. } => None,
            StatsUpdateCause::StoreUnhealthy { .. } => None,
        }
    }
}

/// A collection whose stored configuration does not match what the store expects.
#[derive(Debug, Clone, PartialEq, Eq)]
pub struct CollectionCompatibilityError {
    pub collection: String,
    pub mismatch: CollectionMismatch,
}

/// How a collection's configuration differs from the expected one.
#[derive(Debug, Clone, PartialEq, Eq)]
pub enum CollectionMismatch {
    CollectionName { expected: String, actual: String },
    MissingVectorConfiguration,
    VectorSize { expected: u64, actual: u64 },
    Distance { expected: &'static str, actual: String },
    NamedVectors { names: Vec<String> },
    EmptyVectorConfiguration,
}

/// Configuration values that failed validation.
#[derive(Debug, Clone, PartialEq, Eq)]
pub struct ConfigValidationError {
    pub keys: Vec<&'static str>,
    pub reason: ConfigValidationReason,
}

/// Why configuration values were refused.
#[derive(Debug, Clone, PartialEq, Eq)]
pub enum ConfigValidationReason {
    MissingValue,
    MissingForMode { mode_key: &'static str, mode: &'static str },
    OutOfDomain { expected: &'static str, actual: String },
}

/// A replacement identity that conflicts with the plan or stored content.
#[derive(Debug, Clone, PartialEq, Eq)]
pub struct ReplacementIdentityConflictError {
    pub replacement_id: MemoryId,
    pub conflict: ReplacementIdentityConflict,
}

/// The kind of replacement identity conflict.
#[derive(Debug, Clone, Copy, PartialEq, Eq, Structural)]
pub enum ReplacementIdentityConflict {
    DuplicateInPlan,
    DivergentExisting,
}

/// The library's error.
#[derive(Debug, Clone, PartialEq, Eq)]
pub enum CustomError {
    ConfigParseError(String),
    ConfigValidation(ConfigValidationError),
    DomainValidation(DomainValidationError),
    MissingOriginalSourceReference { target: MemoryObjectRef },
    OriginalSourceReferenceMismatch {
        target: MemoryObjectRef,
        kind: SourceReferenceKind,
        provided: String,
        stored: Option<String>,
    },
    DeterministicIdCollision { object: MemoryObjectRef },
    ReplacementIdentityConflict(ReplacementIdentityConflictError),
    WritePlanValidationRejected { validations: Vec<CandidateValidation> },
    DatabaseError(String),
    MemoryValidation(String),
    GraphQuery(GraphQueryError),
    RetrievalStatsStore(RetrievalStatsStoreError),
    CollectionIncompatible(CollectionCompatibilityError),
    UnsupportedSchemaVersion { context: &'static str, expected: &'static str, actual: String },
    UnsupportedExpansionRoot { object: MemoryObjectRef },
    GraphExpansionRootNotFound { object_type: ObjectType, object_id: MemoryId },
    GraphExpansionBounded { reason: String, location: String },
    LifecycleDraftInvalid(LifecycleDtoValidationError),
    VectorDatabaseError(VectorDatabaseError),
    Embedding(EmbeddingError),
    EmbeddingInitializationError(String),
    EmbeddingGenerationError(String),
    SerializationError(String),
}

} // verus!
