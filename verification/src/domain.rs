//! The canonical memory model: object kinds, relations, lifecycle states and the
//! persisted tokens they are written as.

use vstd::prelude::*;
use crate::text::{str_eq};
use crate::ids::{uuid_hyphenated, uuid_parse, uuid_text};

verus! {

/// Identity of a memory object: the 128-bit value of its UUID.
pub type MemoryId = u128;

/// The current (and only) storage schema version.
pub const CURRENT_SCHEMA_VERSION: &'static str = "episodic_memory_initial";

/// Kinds of canonical memory objects.
#[derive(Debug, Clone, Copy, PartialEq, Eq, Hash, Structural)]
pub enum ObjectType {
    Episode,
    Observation,
    Entity,
    MemoryThread,
    DerivedMemory,
    MemoryLink,
}

/// The persisted snake_case token of an object type.
pub open spec fn object_type_token(t: ObjectType) -> Seq<char> {
    match t {
        ObjectType::Episode => "episode"@,
        ObjectType::Observation => "observation"@,
        ObjectType::Entity => "entity"@,
        ObjectType::MemoryThread => "memory_thread"@,
        ObjectType::DerivedMemory => "derived_memory"@,
        ObjectType::MemoryLink => "memory_link"@,
    }
}

/// The URN path segment of an object type.
pub open spec fn graph_segment_text(t: ObjectType) -> Seq<char> {
    match t {
        ObjectType::Episode => "episode"@,
        ObjectType::Observation => "observation"@,
        ObjectType::Entity => "entity"@,
        ObjectType::MemoryThread => "thread"@,
        ObjectType::DerivedMemory => "derived-memory"@,
        ObjectType::MemoryLink => "link"@,
    }
}

/// Canonical ordering rank of an object type.
pub open spec fn object_type_rank(t: ObjectType) -> u8 {
    match t {
        ObjectType::Episode => 0,
        ObjectType::Observation => 1,
        ObjectType::Entity => 2,
        ObjectType::MemoryThread => 3,
        ObjectType::DerivedMemory => 4,
        ObjectType::MemoryLink => 5,
    }
}

impl ObjectType {
    /// The persisted token (`episode`, `memory_thread`, ...).
    pub fn token(self) -> (r: &'static str)
        ensures
            r@ == object_type_token(self),
    {
        match self {
            ObjectType::Episode => "episode",
            ObjectType::Observation => "observation",
            ObjectType::Entity => "entity",
            ObjectType::MemoryThread => "memory_thread",
            ObjectType::DerivedMemory => "derived_memory",
            ObjectType::MemoryLink => "memory_link",
        }
    }

    /// The persisted token as an owned string.
    pub fn to_string(self) -> (r: String)
        ensures
            r@ == object_type_token(self),
    {
        String::from_str(self.token())
    }

    /// Reads a persisted token back; unknown tokens are refused with a message naming them.
    pub fn parse(value: &str) -> (r: Result<ObjectType, String>)
        ensures
            match r {
                Ok(t) => object_type_token(t) == value@,
                Err(message) => (forall|t: ObjectType| object_type_token(t) != value@)
                    && message@ == "unknown object type token: "@ + value@,
            },
    {
        if str_eq(value, "episode") {
            Ok(ObjectType::Episode)
        } else if str_eq(value, "observation") {
            Ok(ObjectType::Observation)
        } else if str_eq(value, "entity") {
            Ok(ObjectType::Entity)
        } else if str_eq(value, "memory_thread") {
            Ok(ObjectType::MemoryThread)
        } else if str_eq(value, "derived_memory") {
            Ok(ObjectType::DerivedMemory)
        } else if str_eq(value, "memory_link") {
            Ok(ObjectType::MemoryLink)
        } else {
            let mut message = String::from_str("unknown object type token: ");
            message.append(value);
            Err(message)
        }
    }

    /// The variant's name, as error messages show the type (`MemoryThread`, ...).
    pub fn variant_name(self) -> (r: &'static str)
        ensures
            r@ == object_type_variant_name(self),
    {
        match self {
            ObjectType::Episode => "Episode",
            ObjectType::Observation => "Observation",
            ObjectType::Entity => "Entity",
            ObjectType::MemoryThread => "MemoryThread",
            ObjectType::DerivedMemory => "DerivedMemory",
            ObjectType::MemoryLink => "MemoryLink",
        }
    }

    /// The path segment used in graph URNs (`thread`, `derived-memory`, ...).
    pub fn graph_segment(self) -> (r: &'static str)
        ensures
            r@ == graph_segment_text(self),
    {
        match self {
            ObjectType::Episode => "episode",
            ObjectType::Observation => "observation",
            ObjectType::Entity => "entity",
            ObjectType::MemoryThread => "thread",
            ObjectType::DerivedMemory => "derived-memory",
            ObjectType::MemoryLink => "link",
        }
    }

    /// Canonical ordering rank, used to break ties between equal ids.
    pub fn stable_rank(self) -> (r: u8)
        ensures
            r == object_type_rank(self),
    {
        match self {
            ObjectType::Episode => 0,
            ObjectType::Observation => 1,
            ObjectType::Entity => 2,
            ObjectType::MemoryThread => 3,
            ObjectType::DerivedMemory => 4,
            ObjectType::MemoryLink => 5,
        }
    }
}

/// Distinct object types have distinct persisted tokens, so a token reads back as
/// the type that wrote it.
pub proof fn lemma_object_type_tokens_distinct(a: ObjectType, b: ObjectType)
    ensures
        object_type_token(a) == object_type_token(b) ==> a == b,
{
    reveal_strlit("episode");
    reveal_strlit("observation");
    reveal_strlit("entity");
    reveal_strlit("memory_thread");
    reveal_strlit("derived_memory");
    reveal_strlit("memory_link");
    if object_type_token(a) == object_type_token(b) && a != b {
        assert(object_type_token(a).len() != object_type_token(b).len() || exists|i: int|
            0 <= i < object_type_token(a).len() && object_type_token(a)[i] != object_type_token(
                b,
            )[i]) by {
            match (a, b) {
                _ => {
                    if object_type_token(a).len() == object_type_token(b).len() {
                        assert(object_type_token(a)[0] != object_type_token(b)[0]
                            || object_type_token(a)[2] != object_type_token(b)[2]
                            || object_type_token(a)[7] != object_type_token(b)[7]);
                    }
                }
            }
        }
    }
}

/// Ranks order the object types strictly: episode, observation, entity, thread,
/// derived memory, link.
pub proof fn lemma_object_type_rank_injective(a: ObjectType, b: ObjectType)
    ensures
        object_type_rank(a) == object_type_rank(b) <==> a == b,
{
}


/// Which text of a memory object an embedding was made from.
#[derive(Debug, Clone, Copy, PartialEq, Eq, Hash, Structural)]
pub enum VectorSurface {
    Summary,
    Text,
    DerivedText,
    SceneSetting,
    SceneParticipants,
    Query,
}

/// The persisted snake_case token of a `VectorSurface`.
pub open spec fn vector_surface_token(v: VectorSurface) -> Seq<char> {
    match v {
        VectorSurface::Summary => "summary"@,
        VectorSurface::Text => "text"@,
        VectorSurface::DerivedText => "derived_text"@,
        VectorSurface::SceneSetting => "scene_setting"@,
        VectorSurface::SceneParticipants => "scene_participants"@,
        VectorSurface::Query => "query"@,
    }
}

impl VectorSurface {
    /// The persisted snake_case token.
    pub fn token(self) -> (r: &'static str)
        ensures
            r@ == vector_surface_token(self),
    {
        match self {
            VectorSurface::Summary => "summary",
            VectorSurface::Text => "text",
            VectorSurface::DerivedText => "derived_text",
            VectorSurface::SceneSetting => "scene_setting",
            VectorSurface::SceneParticipants => "scene_participants",
            VectorSurface::Query => "query",
        }
    }
}

/// How an experience reached the character.
#[derive(Debug, Clone, Copy, PartialEq, Eq, Hash, Structural)]
pub enum Modality {
    Chat,
    VoiceTranscript,
}

/// The persisted snake_case token of a `Modality`.
pub open spec fn modality_token(v: Modality) -> Seq<char> {
    match v {
        Modality::Chat => "chat"@,
        Modality::VoiceTranscript => "voice_transcript"@,
    }
}

impl Modality {
    /// The persisted snake_case token.
    pub fn token(self) -> (r: &'static str)
        ensures
            r@ == modality_token(self),
    {
        match self {
            Modality::Chat => "chat",
            Modality::VoiceTranscript => "voice_transcript",
        }
    }
}

/// Kinds of interpreted (derived) memories.
#[derive(Debug, Clone, Copy, PartialEq, Eq, Hash, Structural)]
pub enum DerivedType {
    Reflection,
    UserPreference,
    AssistantPreference,
    Commitment,
    OpenLoop,
    CharacterSignal,
    RelationshipNote,
    ProjectNote,
    Claim,
    Correction,
}

/// The persisted snake_case token of a `DerivedType`.
pub open spec fn derived_type_token(v: DerivedType) -> Seq<char> {
    match v {
        DerivedType::Reflection => "reflection"@,
        DerivedType::UserPreference => "user_preference"@,
        DerivedType::AssistantPreference => "assistant_preference"@,
        DerivedType::Commitment => "commitment"@,
        DerivedType::OpenLoop => "open_loop"@,
        DerivedType::CharacterSignal => "character_signal"@,
        DerivedType::RelationshipNote => "relationship_note"@,
        DerivedType::ProjectNote => "project_note"@,
        DerivedType::Claim => "claim"@,
        DerivedType::Correction => "correction"@,
    }
}

impl DerivedType {
    /// The persisted snake_case token.
    pub fn token(self) -> (r: &'static str)
        ensures
            r@ == derived_type_token(self),
    {
        match self {
            DerivedType::Reflection => "reflection",
            DerivedType::UserPreference => "user_preference",
            DerivedType::AssistantPreference => "assistant_preference",
            DerivedType::Commitment => "commitment",
            DerivedType::OpenLoop => "open_loop",
            DerivedType::CharacterSignal => "character_signal",
            DerivedType::RelationshipNote => "relationship_note",
            DerivedType::ProjectNote => "project_note",
            DerivedType::Claim => "claim",
            DerivedType::Correction => "correction",
        }
    }
}

/// Typed relations carried by memory links.
#[derive(Debug, Clone, Copy, PartialEq, Eq, Hash, Structural)]
pub enum RelationType {
    HasObservation,
    ObservedIn,
    Mentions,
    Involves,
    About,
    DerivedFrom,
    PartOfThread,
    Supports,
    Contradicts,
    Supersedes,
    Resolves,
    CreatesOpenLoop,
    FulfillsCommitment,
    AssociatedWith,
}

/// The persisted snake_case token of a `RelationType`.
pub open spec fn relation_type_token(v: RelationType) -> Seq<char> {
    match v {
        RelationType::HasObservation => "has_observation"@,
        RelationType::ObservedIn => "observed_in"@,
        RelationType::Mentions => "mentions"@,
        RelationType::Involves => "involves"@,
        RelationType::About => "about"@,
        RelationType::DerivedFrom => "derived_from"@,
        RelationType::PartOfThread => "part_of_thread"@,
        RelationType::Supports => "supports"@,
        RelationType::Contradicts => "contradicts"@,
        RelationType::Supersedes => "supersedes"@,
        RelationType::Resolves => "resolves"@,
        RelationType::CreatesOpenLoop => "creates_open_loop"@,
        RelationType::FulfillsCommitment => "fulfills_commitment"@,
        RelationType::AssociatedWith => "associated_with"@,
    }
}

impl RelationType {
    /// The persisted snake_case token.
    pub fn token(self) -> (r: &'static str)
        ensures
            r@ == relation_type_token(self),
    {
        match self {
            RelationType::HasObservation => "has_observation",
            RelationType::ObservedIn => "observed_in",
            RelationType::Mentions => "mentions",
            RelationType::Involves => "involves",
            RelationType::About => "about",
            RelationType::DerivedFrom => "derived_from",
            RelationType::PartOfThread => "part_of_thread",
            RelationType::Supports => "supports",
            RelationType::Contradicts => "contradicts",
            RelationType::Supersedes => "supersedes",
            RelationType::Resolves => "resolves",
            RelationType::CreatesOpenLoop => "creates_open_loop",
            RelationType::FulfillsCommitment => "fulfills_commitment",
            RelationType::AssociatedWith => "associated_with",
        }
    }
}

/// Lifecycle retention of a memory object, from least to most restrictive.
#[derive(Debug, Clone, Copy, PartialEq, Eq, Hash, Structural)]
pub enum RetentionState {
    Active,
    Archived,
    Suppressed,
    Deleted,
}

/// The persisted snake_case token of a `RetentionState`.
pub open spec fn retention_state_token(v: RetentionState) -> Seq<char> {
    match v {
        RetentionState::Active => "active"@,
        RetentionState::Archived => "archived"@,
        RetentionState::Suppressed => "suppressed"@,
        RetentionState::Deleted => "deleted"@,
    }
}

impl RetentionState {
    /// The persisted snake_case token.
    pub fn token(self) -> (r: &'static str)
        ensures
            r@ == retention_state_token(self),
    {
        match self {
            RetentionState::Active => "active",
            RetentionState::Archived => "archived",
            RetentionState::Suppressed => "suppressed",
            RetentionState::Deleted => "deleted",
        }
    }
}

/// Status of a memory thread.
#[derive(Debug, Clone, Copy, PartialEq, Eq, Hash, Structural)]
pub enum ThreadStatus {
    Active,
    Dormant,
    Resolved,
    Archived,
}

/// The persisted snake_case token of a `ThreadStatus`.
pub open spec fn thread_status_token(v: ThreadStatus) -> Seq<char> {
    match v {
        ThreadStatus::Active => "active"@,
        ThreadStatus::Dormant => "dormant"@,
        ThreadStatus::Resolved => "resolved"@,
        ThreadStatus::Archived => "archived"@,
    }
}

impl ThreadStatus {
    /// The persisted snake_case token.
    pub fn token(self) -> (r: &'static str)
        ensures
            r@ == thread_status_token(self),
    {
        match self {
            ThreadStatus::Active => "active",
            ThreadStatus::Dormant => "dormant",
            ThreadStatus::Resolved => "resolved",
            ThreadStatus::Archived => "archived",
        }
    }
}

/// Canonical ordering rank of a relation type.
pub open spec fn relation_type_rank(r: RelationType) -> u8 {
    match r {
        RelationType::HasObservation => 0,
        RelationType::ObservedIn => 1,
        RelationType::Mentions => 2,
        RelationType::Involves => 3,
        RelationType::About => 4,
        RelationType::DerivedFrom => 5,
        RelationType::PartOfThread => 6,
        RelationType::Supports => 7,
        RelationType::Contradicts => 8,
        RelationType::Supersedes => 9,
        RelationType::Resolves => 10,
        RelationType::CreatesOpenLoop => 11,
        RelationType::FulfillsCommitment => 12,
        RelationType::AssociatedWith => 13,
    }
}

impl RelationType {
    /// Canonical ordering rank, used to order links deterministically.
    pub fn stable_rank(self) -> (r: u8)
        ensures
            r == relation_type_rank(self),
    {
        match self {
            RelationType::HasObservation => 0,
            RelationType::ObservedIn => 1,
            RelationType::Mentions => 2,
            RelationType::Involves => 3,
            RelationType::About => 4,
            RelationType::DerivedFrom => 5,
            RelationType::PartOfThread => 6,
            RelationType::Supports => 7,
            RelationType::Contradicts => 8,
            RelationType::Supersedes => 9,
            RelationType::Resolves => 10,
            RelationType::CreatesOpenLoop => 11,
            RelationType::FulfillsCommitment => 12,
            RelationType::AssociatedWith => 13,
        }
    }
}

/// Restrictiveness of a retention state: active < archived < suppressed < deleted.
pub open spec fn retention_rank(s: RetentionState) -> u8 {
    match s {
        RetentionState::Active => 0,
        RetentionState::Archived => 1,
        RetentionState::Suppressed => 2,
        RetentionState::Deleted => 3,
    }
}

impl RetentionState {
    /// Restrictiveness rank of this state.
    pub fn restrictiveness_rank(self) -> (r: u8)
        ensures
            r == retention_rank(self),
    {
        match self {
            RetentionState::Active => 0,
            RetentionState::Archived => 1,
            RetentionState::Suppressed => 2,
            RetentionState::Deleted => 3,
        }
    }
}

/// Ranks order relation types strictly in their declaration order.
pub proof fn lemma_relation_type_rank_injective(a: RelationType, b: RelationType)
    ensures
        relation_type_rank(a) == relation_type_rank(b) <==> a == b,
{
}

/// Retention ranks order the states strictly.
pub proof fn lemma_retention_rank_injective(a: RetentionState, b: RetentionState)
    ensures
        retention_rank(a) == retention_rank(b) <==> a == b,
{
}


impl VectorSurface {
    /// Reads a persisted surface token back; unknown tokens are refused with a message naming them.
    pub fn parse(value: &str) -> (r: Result<VectorSurface, String>)
        ensures
            match r {
                Ok(s) => vector_surface_token(s) == value@,
                Err(message) => (forall|s: VectorSurface| vector_surface_token(s) != value@)
                    && message@ == "unknown vector surface token: "@ + value@,
            },
    {
        if str_eq(value, "summary") {
            Ok(VectorSurface::Summary)
        } else if str_eq(value, "text") {
            Ok(VectorSurface::Text)
        } else if str_eq(value, "derived_text") {
            Ok(VectorSurface::DerivedText)
        } else if str_eq(value, "scene_setting") {
            Ok(VectorSurface::SceneSetting)
        } else if str_eq(value, "scene_participants") {
            Ok(VectorSurface::SceneParticipants)
        } else if str_eq(value, "query") {
            Ok(VectorSurface::Query)
        } else {
            let mut message = String::from_str("unknown vector surface token: ");
            message.append(value);
            Err(message)
        }
    }

    /// The persisted token as an owned string.
    pub fn to_string(self) -> (r: String)
        ensures
            r@ == vector_surface_token(self),
    {
        String::from_str(self.token())
    }
}

/// Distinct vector surfaces have distinct persisted tokens.
pub proof fn lemma_vector_surface_tokens_distinct(a: VectorSurface, b: VectorSurface)
    ensures
        vector_surface_token(a) == vector_surface_token(b) ==> a == b,
{
    reveal_strlit("summary");
    reveal_strlit("text");
    reveal_strlit("derived_text");
    reveal_strlit("scene_setting");
    reveal_strlit("scene_participants");
    reveal_strlit("query");
    if vector_surface_token(a) == vector_surface_token(b) && a != b {
        if vector_surface_token(a).len() == vector_surface_token(b).len() {
            assert(vector_surface_token(a)[0] != vector_surface_token(b)[0]
                || vector_surface_token(a)[6] != vector_surface_token(b)[6]);
        }
    }
}

/// Writing an object type as its token and reading the token back gives the same type.
pub proof fn lemma_object_type_token_round_trip(t: ObjectType)
    ensures
        forall|u: ObjectType| object_type_token(u) == object_type_token(t) ==> u == t,
{
    assert forall|u: ObjectType| object_type_token(u) == object_type_token(t) implies u == t by {
        lemma_object_type_tokens_distinct(u, t);
    }
}

/// Writing a vector surface as its token and reading the token back gives the same surface.
pub proof fn lemma_vector_surface_token_round_trip(s: VectorSurface)
    ensures
        forall|u: VectorSurface| vector_surface_token(u) == vector_surface_token(s) ==> u == s,
{
    assert forall|u: VectorSurface| vector_surface_token(u) == vector_surface_token(s) implies u
        == s by {
        lemma_vector_surface_tokens_distinct(u, s);
    }
}

/// A typed reference to a memory object.
#[derive(Debug, Clone, Copy, PartialEq, Eq, Hash, Structural)]
pub struct MemoryObjectRef {
    pub object_type: ObjectType,
    pub id: MemoryId,
}

impl MemoryObjectRef {
    /// A reference to the object of `object_type` with identity `id`.
    pub fn new(object_type: ObjectType, id: MemoryId) -> (r: MemoryObjectRef)
        ensures
            r.object_type == object_type,
            r.id == id,
    {
        MemoryObjectRef { object_type, id }
    }

    /// The same reference, built from the identity first.
    pub fn from_id_type(id: MemoryId, object_type: ObjectType) -> (r: MemoryObjectRef)
        ensures
            r.object_type == object_type,
            r.id == id,
    {
        MemoryObjectRef { object_type, id }
    }

    /// Deterministic ordering key: identity first, then the type rank.
    pub fn stable_order_key(self) -> (r: (MemoryId, u8))
        ensures
            r == (self.id, object_type_rank(self.object_type)),
    {
        (self.id, self.object_type.stable_rank())
    }
}


/// The name of an object type's variant, as error messages show the type.
pub open spec fn object_type_variant_name(t: ObjectType) -> Seq<char> {
    match t {
        ObjectType::Episode => "Episode"@,
        ObjectType::Observation => "Observation"@,
        ObjectType::Entity => "Entity"@,
        ObjectType::MemoryThread => "MemoryThread"@,
        ObjectType::DerivedMemory => "DerivedMemory"@,
        ObjectType::MemoryLink => "MemoryLink"@,
    }
}

/// The graph URN of an object: `urn:cmem:<segment>:<uuid>`.
pub open spec fn graph_uri_text(object_type: ObjectType, id: MemoryId) -> Seq<char> {
    "urn:cmem:"@ + graph_segment_text(object_type) + ":"@ + uuid_hyphenated(id)
}

/// The stable graph URN of a memory object.
pub fn graph_uri(object_type: ObjectType, id: MemoryId) -> (r: String)
    ensures
        r@ == graph_uri_text(object_type, id),
        uuid_parse(uuid_hyphenated(id)) == Ok::<u128, Seq<char>>(id),
{
    let mut uri = String::from_str("urn:cmem:");
    uri.append(object_type.graph_segment());
    uri.append(":");
    let id_text = uuid_text(id);
    uri.append(id_text.as_str());
    uri
}

impl core::str::FromStr for ObjectType {
    type Err = String;

    /// Reads a persisted token back, as `ObjectType::parse` does.
    fn from_str(value: &str) -> (r: Result<ObjectType, String>)
        ensures
            match r {
                Ok(t) => object_type_token(t) == value@,
                Err(message) => (forall|t: ObjectType| object_type_token(t) != value@)
                    && message@ == "unknown object type token: "@ + value@,
            },
    {
        ObjectType::parse(value)
    }
}

impl core::str::FromStr for VectorSurface {
    type Err = String;

    /// Reads a persisted token back, as `VectorSurface::parse` does.
    fn from_str(value: &str) -> (r: Result<VectorSurface, String>)
        ensures
            match r {
                Ok(s) => vector_surface_token(s) == value@,
                Err(message) => (forall|s: VectorSurface| vector_surface_token(s) != value@)
                    && message@ == "unknown vector surface token: "@ + value@,
            },
    {
        VectorSurface::parse(value)
    }
}

} // verus!
