//! The canonical memory objects and their structural validation.

use vstd::prelude::*;
use crate::domain::{MemoryId, ObjectType, MemoryObjectRef, Modality, DerivedType, RelationType, RetentionState, ThreadStatus, object_type_rank};
use crate::belief::{BeliefAssertion, BeliefValidationError, belief_validation, validate_belief};
use crate::text::{is_blank_text, is_blank};
use crate::ids::uuid_is_nil;
use crate::seqs::contains_id;
use crate::domain::object_type_variant_name;
use crate::belief::belief_error_text;
use crate::ids::{uuid_hyphenated, uuid_text};
use crate::vector::{signed_decimal, append_signed_decimal};

verus! {

/// Microseconds since the Unix epoch, UTC.
pub type Timestamp = i64;

/// A score in `0.0..=1.0`, held as the IEEE-754 bits of its `f32` value.
pub type ScoreBits = u32;

/// Whether the `f32` with these bits is finite and within `0.0..=1.0`: the bits of
/// `+0.0..=1.0` form the range `0..=0x3f80_0000`, and `-0.0` compares equal to `0.0`.
pub open spec fn score_in_unit_range(bits: ScoreBits) -> bool {
    bits <= 0x3f80_0000 || bits == 0x8000_0000
}

/// A person or notion present in a scene, as perceived.
#[derive(Debug, Clone, PartialEq, Eq)]
pub struct SceneParticipant {
    pub key: Option<MemoryId>,
    pub name: Option<String>,
    pub description: Option<String>,
}

/// The setting of a scene: an application-owned context key and perceived words.
#[derive(Debug, Clone, PartialEq, Eq)]
pub struct SceneSetting {
    pub key: Option<String>,
    pub words: Option<String>,
}

/// The situation as perceived. Omitted participants do not mean nobody was present.
#[derive(Debug, Clone, PartialEq, Eq)]
pub struct Scene {
    /// The instant of the scene, in microseconds since the epoch (UTC).
    pub time: Timestamp,
    /// The UTC offset the scene's time was stated in, in seconds.
    pub offset_seconds: i32,
    pub participants: Vec<SceneParticipant>,
    pub setting: SceneSetting,
    /// Application values, ordered by name.
    pub custom_values: Vec<(String, String)>,
}

/// Internal context values of a scene, never identifiers supplied to retrieval.
#[derive(Debug, Clone, PartialEq, Eq)]
pub enum ScopeKey {
    Setting(String),
    Custom { name: String, value: String },
}

/// Whether a participant says anything: a known key, or a name or description with
/// a non-whitespace character.
pub open spec fn participant_is_informative(p: SceneParticipant) -> bool {
    ||| p.key is Some
    ||| (p.name matches Some(n) && !is_blank_text(n@))
    ||| (p.description matches Some(d) && !is_blank_text(d@))
}

/// The keys of the keyed participants, in order.
pub open spec fn participant_keys_of(ps: Seq<SceneParticipant>) -> Seq<MemoryId>
    decreases ps.len(),
{
    if ps.len() == 0 {
        seq![]
    } else {
        let rest = participant_keys_of(ps.drop_last());
        match ps.last().key {
            Some(k) => rest.push(k),
            None => rest,
        }
    }
}

/// The participants that say something, in order.
pub open spec fn informative_participants(ps: Seq<SceneParticipant>) -> Seq<SceneParticipant>
    decreases ps.len(),
{
    if ps.len() == 0 {
        seq![]
    } else {
        let rest = informative_participants(ps.drop_last());
        if participant_is_informative(ps.last()) {
            rest.push(ps.last())
        } else {
            rest
        }
    }
}

/// A scene's time offset is a whole number of minutes, as RFC 3339 can write it.
pub open spec fn scene_time_valid(scene: Scene) -> bool {
    scene.offset_seconds % 60 == 0
}

fn text_is_informative(t: &Option<String>) -> (r: bool)
    ensures
        r == (t matches Some(s) && !is_blank_text(s@)),
{
    match t {
        Some(s) => !is_blank(s.as_str()),
        None => false,
    }
}

/// An exact copy of an optional text.
pub fn duplicate_text(t: &Option<String>) -> (r: Option<String>)
    ensures
        r == *t,
{
    match t {
        Some(s) => Some(s.clone()),
        None => None,
    }
}

impl SceneParticipant {
    /// An exact copy of this participant.
    pub fn duplicate(&self) -> (r: SceneParticipant)
        ensures
            r == *self,
    {
        SceneParticipant {
            key: self.key,
            name: duplicate_text(&self.name),
            description: duplicate_text(&self.description),
        }
    }
}

impl Scene {
    /// A scene at `time` (UTC offset `offset_seconds`), with no participants, setting or values.
    pub fn at(time: Timestamp, offset_seconds: i32) -> (r: Scene)
        ensures
            r.time == time,
            r.offset_seconds == offset_seconds,
            r.participants@.len() == 0,
            r.setting.key is None,
            r.setting.words is None,
            r.custom_values@.len() == 0,
    {
        Scene {
            time,
            offset_seconds,
            participants: Vec::new(),
            setting: SceneSetting { key: None, words: None },
            custom_values: Vec::new(),
        }
    }

    /// Checks that the scene's offset is a whole-minute RFC 3339 offset.
    pub fn validate_time(&self) -> (r: Result<(), DomainValidationError>)
        ensures
            r == (if scene_time_valid(*self) {
                Ok(())
            } else {
                Err(DomainValidationError::InvalidSceneTimeOffset { offset_seconds: self.offset_seconds })
            }),
    {
        if self.offset_seconds % 60 == 0 {
            Ok(())
        } else {
            Err(DomainValidationError::InvalidSceneTimeOffset { offset_seconds: self.offset_seconds })
        }
    }

    /// The scene without participants that carry no key and only blank words.
    pub fn without_blank_participants(self) -> (r: Scene)
        ensures
            r.participants@ == informative_participants(self.participants@),
            r.time == self.time,
            r.offset_seconds == self.offset_seconds,
            r.setting == self.setting,
            r.custom_values == self.custom_values,
    {
        let Scene { time, offset_seconds, participants, setting, custom_values } = self;
        let mut kept: Vec<SceneParticipant> = Vec::new();
        let mut i: usize = 0;
        let ghost ps = participants@;
        assert(ps.take(0) =~= Seq::<SceneParticipant>::empty());
        while i < participants.len()
            invariant
                ps == participants@,
                i <= ps.len(),
                kept@ == informative_participants(ps.take(i as int)),
            decreases ps.len() - i,
        {
            let p = &participants[i];
            assert(ps.take(i + 1).drop_last() =~= ps.take(i as int));
            if p.key.is_some() || text_is_informative(&p.name) || text_is_informative(
                &p.description,
            ) {
                kept.push(p.duplicate());
            }
            i = i + 1;
        }
        assert(ps.take(ps.len() as int) =~= ps);
        Scene { time, offset_seconds, participants: kept, setting, custom_values }
    }

    /// The keys of the keyed participants, in order.
    pub fn participant_keys(&self) -> (r: Vec<MemoryId>)
        ensures
            r@ == participant_keys_of(self.participants@),
    {
        let mut keys: Vec<MemoryId> = Vec::new();
        let mut i: usize = 0;
        let ghost ps = self.participants@;
        assert(ps.take(0) =~= Seq::<SceneParticipant>::empty());
        while i < self.participants.len()
            invariant
                ps == self.participants@,
                i <= ps.len(),
                keys@ == participant_keys_of(ps.take(i as int)),
            decreases ps.len() - i,
        {
            assert(ps.take(i + 1).drop_last() =~= ps.take(i as int));
            match self.participants[i].key {
                Some(k) => keys.push(k),
                None => {},
            }
            i = i + 1;
        }
        assert(ps.take(ps.len() as int) =~= ps);
        keys
    }
}


/// The scope keys of a scene: its setting key, then each custom value in order.
pub open spec fn scope_keys_of(scene: Scene) -> Seq<ScopeKey> {
    let setting = match scene.setting.key {
        Some(k) => seq![ScopeKey::Setting(k)],
        None => seq![],
    };
    setting + scene.custom_values@.map_values(
        |pair: (String, String)| ScopeKey::Custom { name: pair.0, value: pair.1 },
    )
}

impl Scene {
    /// The internal scope keys of this scene.
    pub fn scope_keys(&self) -> (r: Vec<ScopeKey>)
        ensures
            r@ == scope_keys_of(*self),
    {
        let mut keys: Vec<ScopeKey> = Vec::new();
        match &self.setting.key {
            Some(k) => keys.push(ScopeKey::Setting(k.clone())),
            None => {},
        }
        let ghost start = keys@;
        let mut i: usize = 0;
        while i < self.custom_values.len()
            invariant
                i <= self.custom_values@.len(),
                keys@ == start + self.custom_values@.take(i as int).map_values(
                    |pair: (String, String)| ScopeKey::Custom { name: pair.0, value: pair.1 },
                ),
            decreases self.custom_values@.len() - i,
        {
            let (name, value) = &self.custom_values[i];
            keys.push(ScopeKey::Custom { name: name.clone(), value: value.clone() });
            assert(self.custom_values@.take(i + 1) =~= self.custom_values@.take(i as int).push(
                self.custom_values@[i as int],
            ));
            assert(keys@ =~= start + self.custom_values@.take(i + 1).map_values(
                |pair: (String, String)| ScopeKey::Custom { name: pair.0, value: pair.1 },
            ));
            i = i + 1;
        }
        assert(self.custom_values@.take(i as int) =~= self.custom_values@);
        keys
    }
}

/// Why a memory object is structurally invalid.
#[derive(Debug, Clone, PartialEq, Eq)]
pub enum DomainValidationError {
    ObjectTypeMismatch { field: &'static str, expected: ObjectType, actual: ObjectType },
    EmptyEpisodeSummary,
    MissingScene,
    InvalidSceneTimeOffset { offset_seconds: i32 },
    MissingEpisodeReference,
    MissingDerivedSource,
    InvalidBelief(BeliefValidationError),
    InvalidScore { field: &'static str, value: ScoreBits },
    AuthoredSupersedesLink,
    AuthoredBeliefAboutLink,
    UnsupportedMemoryLinkEndpoint { field: &'static str },
    SelfLink { object_type: ObjectType, id: MemoryId },
}

/// The message a validation refusal is shown with. A score is held by its bits, so
/// the text of an out-of-range score is given as `score_text`, the way the
/// application writes that `f32`.
pub open spec fn domain_error_text(e: DomainValidationError, score_text: Seq<char>) -> Seq<char> {
    match e {
        DomainValidationError::ObjectTypeMismatch { field, expected, actual } => field@ + " object_type must be "@
            + object_type_variant_name(expected) + ", got "@ + object_type_variant_name(actual),
        DomainValidationError::EmptyEpisodeSummary => "episode summary must not be empty"@,
        DomainValidationError::MissingScene => "a caller-built episode must state its scene"@,
        DomainValidationError::InvalidSceneTimeOffset { offset_seconds } => "scene time offset "@
            + signed_decimal(offset_seconds as int) + " seconds must be a whole-minute RFC 3339 offset"@,
        DomainValidationError::MissingEpisodeReference => "observation episode_id must reference an episode"@,
        DomainValidationError::MissingDerivedSource =>
            "derived memory must cite a source episode or observation, or declare application-given grounding"@,
        DomainValidationError::InvalidBelief(b) => belief_error_text(b),
        DomainValidationError::InvalidScore { field, value } => field@ + " must be in 0.0..=1.0 and finite, got "@
            + score_text,
        DomainValidationError::AuthoredSupersedesLink =>
            "Supersedes links are derived from a memory supersedes list and cannot be authored"@,
        DomainValidationError::AuthoredBeliefAboutLink =>
            "About links between interpreted memories and entities must be derived from the memory subject list"@,
        DomainValidationError::UnsupportedMemoryLinkEndpoint { field } =>
            "memory links cannot point at MemoryLink endpoints via "@ + field@,
        DomainValidationError::SelfLink { object_type, id } => "memory links cannot point from an object to itself: "@
            + object_type_variant_name(object_type) + " "@ + uuid_hyphenated(id),
    }
}

impl DomainValidationError {
    /// The message this refusal is shown with; `score_text` is the text of the
    /// offending score, read only for an out-of-range score.
    pub fn message(&self, score_text: &str) -> (r: String)
        ensures
            r@ == domain_error_text(*self, score_text@),
    {
        proof {
            reveal_strlit(" object_type must be ");
            reveal_strlit(", got ");
            reveal_strlit("episode summary must not be empty");
            reveal_strlit("a caller-built episode must state its scene");
            reveal_strlit("scene time offset ");
            reveal_strlit(" seconds must be a whole-minute RFC 3339 offset");
            reveal_strlit("observation episode_id must reference an episode");
            reveal_strlit("derived memory must cite a source episode or observation, or declare application-given grounding");
            reveal_strlit(" must be in 0.0..=1.0 and finite, got ");
            reveal_strlit("Supersedes links are derived from a memory supersedes list and cannot be authored");
            reveal_strlit("About links between interpreted memories and entities must be derived from the memory subject list");
            reveal_strlit("memory links cannot point at MemoryLink endpoints via ");
            reveal_strlit("memory links cannot point from an object to itself: ");
            reveal_strlit(" ");
        }
        match self {
            DomainValidationError::ObjectTypeMismatch { field, expected, actual } => {
                let mut m = String::from_str(field);
                m.append(" object_type must be ");
                m.append(expected.variant_name());
                m.append(", got ");
                m.append(actual.variant_name());
                m
            },
            DomainValidationError::EmptyEpisodeSummary => String::from_str("episode summary must not be empty"),
            DomainValidationError::MissingScene => String::from_str("a caller-built episode must state its scene"),
            DomainValidationError::InvalidSceneTimeOffset { offset_seconds } => {
                let mut m = String::from_str("scene time offset ");
                append_signed_decimal(&mut m, *offset_seconds);
                m.append(" seconds must be a whole-minute RFC 3339 offset");
                m
            },
            DomainValidationError::MissingEpisodeReference => String::from_str(
                "observation episode_id must reference an episode",
            ),
            DomainValidationError::MissingDerivedSource => String::from_str(
                "derived memory must cite a source episode or observation, or declare application-given grounding",
            ),
            DomainValidationError::InvalidBelief(b) => b.message(),
            DomainValidationError::InvalidScore { field, value: _ } => {
                let mut m = String::from_str(field);
                m.append(" must be in 0.0..=1.0 and finite, got ");
                m.append(score_text);
                m
            },
            DomainValidationError::AuthoredSupersedesLink => String::from_str(
                "Supersedes links are derived from a memory supersedes list and cannot be authored",
            ),
            DomainValidationError::AuthoredBeliefAboutLink => String::from_str(
                "About links between interpreted memories and entities must be derived from the memory subject list",
            ),
            DomainValidationError::UnsupportedMemoryLinkEndpoint { field } => {
                let mut m = String::from_str("memory links cannot point at MemoryLink endpoints via ");
                m.append(field);
                m
            },
            DomainValidationError::SelfLink { object_type, id } => {
                let mut m = String::from_str("memory links cannot point from an object to itself: ");
                m.append(object_type.variant_name());
                m.append(" ");
                let t = uuid_text(*id);
                m.append(t.as_str());
                m
            },
        }
    }
}

/// An experience as a whole (a conversation or a stretch of one).
#[derive(Debug, Clone, PartialEq, Eq)]
pub struct Episode {
    pub id: MemoryId,
    pub object_type: ObjectType,
    pub modality: Modality,
    pub scene: Scene,
    pub ended_at: Option<Timestamp>,
    pub summary: String,
    pub raw_ref: Option<String>,
    pub salience_score: ScoreBits,
    pub retention_state: RetentionState,
    pub created_at: Timestamp,
    pub schema_version: String,
}

/// One observed utterance or event within an episode.
#[derive(Debug, Clone, PartialEq, Eq)]
pub struct Observation {
    pub id: MemoryId,
    pub object_type: ObjectType,
    pub episode_id: MemoryId,
    pub speaker_entity_id: Option<MemoryId>,
    pub observed_at: Option<Timestamp>,
    pub modality: Modality,
    pub text: String,
    pub raw_ref: Option<String>,
    pub salience_score: ScoreBits,
    pub retention_state: RetentionState,
    pub created_at: Timestamp,
    pub schema_version: String,
}

/// A notion identity (a person, place, project ...).
#[derive(Debug, Clone, PartialEq, Eq)]
pub struct Entity {
    pub id: MemoryId,
    pub object_type: ObjectType,
    pub created_at: Timestamp,
    pub schema_version: String,
}

/// A continuing topic that memories are part of.
#[derive(Debug, Clone, PartialEq, Eq)]
pub struct MemoryThread {
    pub id: MemoryId,
    pub object_type: ObjectType,
    pub title: String,
    pub summary: String,
    pub status: ThreadStatus,
    pub last_touched_at: Timestamp,
    pub salience_score: ScoreBits,
    pub canonical_key: Option<String>,
    pub created_at: Timestamp,
    pub updated_at: Timestamp,
    pub schema_version: String,
}

/// An interpreted memory derived from experiences or given by the application.
#[derive(Debug, Clone, PartialEq, Eq)]
pub struct DerivedMemory {
    pub id: MemoryId,
    pub object_type: ObjectType,
    pub derived_type: DerivedType,
    pub text: String,
    pub derived_from_episode_ids: Vec<MemoryId>,
    pub derived_from_observation_ids: Vec<MemoryId>,
    pub thread_ids: Vec<MemoryId>,
    /// The notions this interpreted memory is about (its subjects).
    pub entity_ids: Vec<MemoryId>,
    /// The character's commitments about subjects in `entity_ids`.
    pub assertions: Vec<BeliefAssertion>,
    /// Source-free grounding given by the application; requires at least one notion subject.
    pub given_by_application: bool,
    pub salience_score: ScoreBits,
    /// Whether the memory is the current interpretation.
    pub is_current: bool,
    pub supersedes: Vec<MemoryId>,
    pub retention_state: RetentionState,
    pub created_at: Timestamp,
    pub updated_at: Timestamp,
    pub schema_version: String,
}

/// A typed, directed relation between two memory objects.
#[derive(Debug, Clone, PartialEq, Eq)]
pub struct MemoryLink {
    pub id: MemoryId,
    pub object_type: ObjectType,
    pub from_id: MemoryId,
    pub from_type: ObjectType,
    pub to_id: MemoryId,
    pub to_type: ObjectType,
    pub relation: RelationType,
    pub rationale: Option<String>,
    pub created_at: Timestamp,
    pub schema_version: String,
}

/// Any canonical memory object.
#[derive(Debug, Clone, PartialEq, Eq)]
pub enum MemoryObject {
    Episode(Episode),
    Observation(Observation),
    Entity(Entity),
    MemoryThread(MemoryThread),
    DerivedMemory(DerivedMemory),
    MemoryLink(MemoryLink),
}

/// First failure of two checks.
pub open spec fn then_check(
    first: Result<(), DomainValidationError>,
    second: Result<(), DomainValidationError>,
) -> Result<(), DomainValidationError> {
    if first is Err {
        first
    } else {
        second
    }
}

/// The check that an object's declared type is the type of the value holding it.
pub open spec fn object_type_check(field: &'static str, actual: ObjectType, expected: ObjectType) -> Result<
    (),
    DomainValidationError,
> {
    if actual != expected {
        Err(DomainValidationError::ObjectTypeMismatch { field, expected, actual })
    } else {
        Ok(())
    }
}

/// The check that a score is finite and within `0.0..=1.0`.
pub open spec fn score_check(field: &'static str, value: ScoreBits) -> Result<(), DomainValidationError> {
    if score_in_unit_range(value) {
        Ok(())
    } else {
        Err(DomainValidationError::InvalidScore { field, value })
    }
}

/// The check that a link endpoint is not itself a link.
pub open spec fn link_endpoint_check(field: &'static str, object_type: ObjectType) -> Result<
    (),
    DomainValidationError,
> {
    if object_type == ObjectType::MemoryLink {
        Err(DomainValidationError::UnsupportedMemoryLinkEndpoint { field })
    } else {
        Ok(())
    }
}

/// The outcome of validating an episode.
pub open spec fn episode_validation(e: Episode) -> Result<(), DomainValidationError> {
    then_check(
        object_type_check("Episode.object_type", e.object_type, ObjectType::Episode),
        if !scene_time_valid(e.scene) {
            Err(DomainValidationError::InvalidSceneTimeOffset { offset_seconds: e.scene.offset_seconds })
        } else if is_blank_text(e.summary@) {
            Err(DomainValidationError::EmptyEpisodeSummary)
        } else {
            score_check("Episode.salience_score", e.salience_score)
        },
    )
}

/// The outcome of validating an observation.
pub open spec fn observation_validation(o: Observation) -> Result<(), DomainValidationError> {
    then_check(
        object_type_check("Observation.object_type", o.object_type, ObjectType::Observation),
        if o.episode_id == 0 {
            Err(DomainValidationError::MissingEpisodeReference)
        } else {
            score_check("Observation.salience_score", o.salience_score)
        },
    )
}

/// The outcome of validating an entity.
pub open spec fn entity_validation(e: Entity) -> Result<(), DomainValidationError> {
    object_type_check("Entity.object_type", e.object_type, ObjectType::Entity)
}

/// The outcome of validating a memory thread.
pub open spec fn memory_thread_validation(t: MemoryThread) -> Result<(), DomainValidationError> {
    then_check(
        object_type_check("MemoryThread.object_type", t.object_type, ObjectType::MemoryThread),
        score_check("MemoryThread.salience_score", t.salience_score),
    )
}

/// Whether a derived memory cites a source episode or observation.
pub open spec fn derived_has_sources(m: DerivedMemory) -> bool {
    m.derived_from_episode_ids@.len() > 0 || m.derived_from_observation_ids@.len() > 0
}

/// The outcome of validating a derived memory.
pub open spec fn derived_memory_validation(m: DerivedMemory) -> Result<(), DomainValidationError> {
    then_check(
        object_type_check("DerivedMemory.object_type", m.object_type, ObjectType::DerivedMemory),
        match belief_validation(
            m.entity_ids@,
            derived_has_sources(m),
            m.given_by_application,
            m.assertions@,
        ) {
            Err(e) => Err(DomainValidationError::InvalidBelief(e)),
            Ok(_) => if !derived_has_sources(m) && !m.given_by_application {
                Err(DomainValidationError::MissingDerivedSource)
            } else if m.supersedes@.contains(m.id) {
                Err(DomainValidationError::SelfLink { object_type: ObjectType::DerivedMemory, id: m.id })
            } else {
                score_check("DerivedMemory.salience_score", m.salience_score)
            },
        },
    )
}

/// The outcome of validating a memory link.
pub open spec fn memory_link_validation(l: MemoryLink) -> Result<(), DomainValidationError> {
    then_check(
        object_type_check("MemoryLink.object_type", l.object_type, ObjectType::MemoryLink),
        then_check(
            link_endpoint_check("MemoryLink.from_type", l.from_type),
            then_check(
                link_endpoint_check("MemoryLink.to_type", l.to_type),
                if l.from_id == l.to_id && l.from_type == l.to_type {
                    Err(DomainValidationError::SelfLink { object_type: l.from_type, id: l.from_id })
                } else {
                    Ok(())
                },
            ),
        ),
    )
}

fn validate_object_type(field: &'static str, actual: ObjectType, expected: ObjectType) -> (r: Result<
    (),
    DomainValidationError,
>)
    ensures
        r == object_type_check(field, actual, expected),
{
    if actual != expected {
        return Err(DomainValidationError::ObjectTypeMismatch { field, expected, actual });
    }
    Ok(())
}

fn validate_score(field: &'static str, value: ScoreBits) -> (r: Result<(), DomainValidationError>)
    ensures
        r == score_check(field, value),
{
    if !(value <= 0x3f80_0000 || value == 0x8000_0000) {
        return Err(DomainValidationError::InvalidScore { field, value });
    }
    Ok(())
}

/// Refuses a link endpoint that is itself a link.
pub fn validate_link_endpoint(field: &'static str, object_type: ObjectType) -> (r: Result<
    (),
    DomainValidationError,
>)
    ensures
        r == link_endpoint_check(field, object_type),
{
    if object_type == ObjectType::MemoryLink {
        return Err(DomainValidationError::UnsupportedMemoryLinkEndpoint { field });
    }
    Ok(())
}

impl Episode {
    /// Checks the type tag, the scene's time offset, a non-blank summary and the salience score.
    pub fn validate(&self) -> (r: Result<(), DomainValidationError>)
        ensures
            r == episode_validation(*self),
    {
        validate_object_type("Episode.object_type", self.object_type, ObjectType::Episode)?;
        self.scene.validate_time()?;
        if is_blank(self.summary.as_str()) {
            return Err(DomainValidationError::EmptyEpisodeSummary);
        }
        validate_score("Episode.salience_score", self.salience_score)
    }
}

impl Observation {
    /// Checks the type tag, a non-nil episode reference and the salience score.
    pub fn validate(&self) -> (r: Result<(), DomainValidationError>)
        ensures
            r == observation_validation(*self),
    {
        validate_object_type("Observation.object_type", self.object_type, ObjectType::Observation)?;
        if uuid_is_nil(self.episode_id) {
            return Err(DomainValidationError::MissingEpisodeReference);
        }
        validate_score("Observation.salience_score", self.salience_score)
    }
}

impl Entity {
    /// Checks the type tag.
    pub fn validate(&self) -> (r: Result<(), DomainValidationError>)
        ensures
            r == entity_validation(*self),
    {
        validate_object_type("Entity.object_type", self.object_type, ObjectType::Entity)
    }
}

impl MemoryThread {
    /// Checks the type tag and the salience score.
    pub fn validate(&self) -> (r: Result<(), DomainValidationError>)
        ensures
            r == memory_thread_validation(*self),
    {
        validate_object_type(
            "MemoryThread.object_type",
            self.object_type,
            ObjectType::MemoryThread,
        )?;
        validate_score("MemoryThread.salience_score", self.salience_score)
    }
}

impl DerivedMemory {
    /// Checks the type tag, the beliefs, a source or application grounding, that the
    /// memory does not supersede itself, and the salience score.
    pub fn validate(&self) -> (r: Result<(), DomainValidationError>)
        ensures
            r == derived_memory_validation(*self),
    {
        validate_object_type(
            "DerivedMemory.object_type",
            self.object_type,
            ObjectType::DerivedMemory,
        )?;
        let has_sources = self.derived_from_episode_ids.len() > 0
            || self.derived_from_observation_ids.len() > 0;
        match validate_belief(
            &self.entity_ids,
            has_sources,
            self.given_by_application,
            &self.assertions,
        ) {
            Err(e) => {
                return Err(DomainValidationError::InvalidBelief(e));
            },
            Ok(_) => {},
        }
        if !has_sources && !self.given_by_application {
            return Err(DomainValidationError::MissingDerivedSource);
        }
        if contains_id(&self.supersedes, self.id) {
            return Err(DomainValidationError::SelfLink { object_type: ObjectType::DerivedMemory, id: self.id });
        }
        validate_score("DerivedMemory.salience_score", self.salience_score)
    }
}

impl MemoryLink {
    /// Checks the type tag, that neither endpoint is a link, and that the link does
    /// not point from an object to itself.
    pub fn validate(&self) -> (r: Result<(), DomainValidationError>)
        ensures
            r == memory_link_validation(*self),
    {
        validate_object_type("MemoryLink.object_type", self.object_type, ObjectType::MemoryLink)?;
        validate_link_endpoint("MemoryLink.from_type", self.from_type)?;
        validate_link_endpoint("MemoryLink.to_type", self.to_type)?;
        if self.from_id == self.to_id && self.from_type == self.to_type {
            return Err(DomainValidationError::SelfLink { object_type: self.from_type, id: self.from_id });
        }
        Ok(())
    }
}

/// The identity of an object.
pub open spec fn object_id(o: MemoryObject) -> MemoryId {
    match o {
        MemoryObject::Episode(x) => x.id,
        MemoryObject::Observation(x) => x.id,
        MemoryObject::Entity(x) => x.id,
        MemoryObject::MemoryThread(x) => x.id,
        MemoryObject::DerivedMemory(x) => x.id,
        MemoryObject::MemoryLink(x) => x.id,
    }
}

/// The declared type tag of an object.
pub open spec fn object_kind(o: MemoryObject) -> ObjectType {
    match o {
        MemoryObject::Episode(x) => x.object_type,
        MemoryObject::Observation(x) => x.object_type,
        MemoryObject::Entity(x) => x.object_type,
        MemoryObject::MemoryThread(x) => x.object_type,
        MemoryObject::DerivedMemory(x) => x.object_type,
        MemoryObject::MemoryLink(x) => x.object_type,
    }
}

/// The schema version an object was written with.
pub open spec fn object_schema_version(o: MemoryObject) -> Seq<char> {
    match o {
        MemoryObject::Episode(x) => x.schema_version@,
        MemoryObject::Observation(x) => x.schema_version@,
        MemoryObject::Entity(x) => x.schema_version@,
        MemoryObject::MemoryThread(x) => x.schema_version@,
        MemoryObject::DerivedMemory(x) => x.schema_version@,
        MemoryObject::MemoryLink(x) => x.schema_version@,
    }
}

/// The outcome of validating any object.
pub open spec fn object_validation(o: MemoryObject) -> Result<(), DomainValidationError> {
    match o {
        MemoryObject::Episode(x) => episode_validation(x),
        MemoryObject::Observation(x) => observation_validation(x),
        MemoryObject::Entity(x) => entity_validation(x),
        MemoryObject::MemoryThread(x) => memory_thread_validation(x),
        MemoryObject::DerivedMemory(x) => derived_memory_validation(x),
        MemoryObject::MemoryLink(x) => memory_link_validation(x),
    }
}

impl MemoryObject {
    /// The object's identity.
    pub fn id(&self) -> (r: MemoryId)
        ensures
            r == object_id(*self),
    {
        match self {
            MemoryObject::Episode(x) => x.id,
            MemoryObject::Observation(x) => x.id,
            MemoryObject::Entity(x) => x.id,
            MemoryObject::MemoryThread(x) => x.id,
            MemoryObject::DerivedMemory(x) => x.id,
            MemoryObject::MemoryLink(x) => x.id,
        }
    }

    /// The object's declared type tag.
    pub fn object_type(&self) -> (r: ObjectType)
        ensures
            r == object_kind(*self),
    {
        match self {
            MemoryObject::Episode(x) => x.object_type,
            MemoryObject::Observation(x) => x.object_type,
            MemoryObject::Entity(x) => x.object_type,
            MemoryObject::MemoryThread(x) => x.object_type,
            MemoryObject::DerivedMemory(x) => x.object_type,
            MemoryObject::MemoryLink(x) => x.object_type,
        }
    }

    /// A typed reference to this object.
    pub fn object_ref(&self) -> (r: MemoryObjectRef)
        ensures
            r == (MemoryObjectRef { object_type: object_kind(*self), id: object_id(*self) }),
    {
        MemoryObjectRef::new(self.object_type(), self.id())
    }

    /// Deterministic ordering key: identity, then type rank.
    pub fn stable_order_key(&self) -> (r: (MemoryId, u8))
        ensures
            r == (object_id(*self), object_type_rank(object_kind(*self))),
    {
        (self.id(), self.object_type().stable_rank())
    }

    /// The schema version the object was written with.
    pub fn schema_version(&self) -> (r: &String)
        ensures
            r@ == object_schema_version(*self),
    {
        match self {
            MemoryObject::Episode(x) => &x.schema_version,
            MemoryObject::Observation(x) => &x.schema_version,
            MemoryObject::Entity(x) => &x.schema_version,
            MemoryObject::MemoryThread(x) => &x.schema_version,
            MemoryObject::DerivedMemory(x) => &x.schema_version,
            MemoryObject::MemoryLink(x) => &x.schema_version,
        }
    }

    /// Validates the object by its kind.
    pub fn validate(&self) -> (r: Result<(), DomainValidationError>)
        ensures
            r == object_validation(*self),
    {
        match self {
            MemoryObject::Episode(x) => x.validate(),
            MemoryObject::Observation(x) => x.validate(),
            MemoryObject::Entity(x) => x.validate(),
            MemoryObject::MemoryThread(x) => x.validate(),
            MemoryObject::DerivedMemory(x) => x.validate(),
            MemoryObject::MemoryLink(x) => x.validate(),
        }
    }
}


impl Observation {
    /// An exact copy of this observation.
    pub fn duplicate(&self) -> (r: Observation)
        ensures
            r == *self,
    {
        Observation {
            id: self.id,
            object_type: self.object_type,
            episode_id: self.episode_id,
            speaker_entity_id: self.speaker_entity_id,
            observed_at: self.observed_at,
            modality: self.modality,
            text: self.text.clone(),
            raw_ref: duplicate_text(&self.raw_ref),
            salience_score: self.salience_score,
            retention_state: self.retention_state,
            created_at: self.created_at,
            schema_version: self.schema_version.clone(),
        }
    }
}

impl Entity {
    /// An exact copy of this entity.
    pub fn duplicate(&self) -> (r: Entity)
        ensures
            r == *self,
    {
        Entity {
            id: self.id,
            object_type: self.object_type,
            created_at: self.created_at,
            schema_version: self.schema_version.clone(),
        }
    }
}

impl MemoryThread {
    /// An exact copy of this thread.
    pub fn duplicate(&self) -> (r: MemoryThread)
        ensures
            r == *self,
    {
        MemoryThread {
            id: self.id,
            object_type: self.object_type,
            title: self.title.clone(),
            summary: self.summary.clone(),
            status: self.status,
            last_touched_at: self.last_touched_at,
            salience_score: self.salience_score,
            canonical_key: duplicate_text(&self.canonical_key),
            created_at: self.created_at,
            updated_at: self.updated_at,
            schema_version: self.schema_version.clone(),
        }
    }
}

impl MemoryLink {
    /// An exact copy of this link.
    pub fn duplicate(&self) -> (r: MemoryLink)
        ensures
            r == *self,
    {
        MemoryLink {
            id: self.id,
            object_type: self.object_type,
            from_id: self.from_id,
            from_type: self.from_type,
            to_id: self.to_id,
            to_type: self.to_type,
            relation: self.relation,
            rationale: duplicate_text(&self.rationale),
            created_at: self.created_at,
            schema_version: self.schema_version.clone(),
        }
    }
}


/// A derived memory given by the application must have a subject and cite no source
/// episode or observation, and one that is not given must cite a source: a given
/// derived memory without sources and without any subject is refused for the missing
/// subject, and every accepted derived memory keeps these rules.
pub proof fn law_given_derived_memory_needs_a_subject(m: DerivedMemory)
    ensures
        m.object_type == ObjectType::DerivedMemory && m.given_by_application && m.derived_from_episode_ids@.len() == 0
            && m.derived_from_observation_ids@.len() == 0 && m.entity_ids@.len() == 0 ==> derived_memory_validation(m)
            == Err::<(), DomainValidationError>(
            DomainValidationError::InvalidBelief(BeliefValidationError::GivenWithoutSubject),
        ),
        derived_memory_validation(m) is Ok ==> if m.given_by_application {
            &&& m.entity_ids@.len() > 0
            &&& m.derived_from_episode_ids@.len() == 0
            &&& m.derived_from_observation_ids@.len() == 0
        } else {
            m.derived_from_episode_ids@.len() > 0 || m.derived_from_observation_ids@.len() > 0
        },
{
    crate::belief::law_given_beliefs_need_a_subject_and_no_sources(
        m.entity_ids@,
        derived_has_sources(m),
        m.given_by_application,
        m.assertions@,
    );
}


/// A memory link is accepted exactly when it is declared a memory link, neither of
/// its endpoints is itself a memory link, and it does not point from an object to
/// itself; a well-typed link whose endpoints are one and the same object is refused
/// as a self link naming that object.
pub proof fn law_links_join_two_distinct_objects(l: MemoryLink)
    ensures
        (memory_link_validation(l) is Ok) <==> (l.object_type == ObjectType::MemoryLink
            && l.from_type != ObjectType::MemoryLink && l.to_type != ObjectType::MemoryLink
            && !(l.from_id == l.to_id && l.from_type == l.to_type)),
        l.object_type == ObjectType::MemoryLink && l.from_type != ObjectType::MemoryLink && l.from_type == l.to_type
            && l.from_id == l.to_id ==> memory_link_validation(l) == Err::<(), DomainValidationError>(
            DomainValidationError::SelfLink { object_type: l.from_type, id: l.from_id },
        ),
        l.object_type == ObjectType::MemoryLink && l.from_type == ObjectType::MemoryLink ==> memory_link_validation(l)
            == Err::<(), DomainValidationError>(
            DomainValidationError::UnsupportedMemoryLinkEndpoint { field: "MemoryLink.from_type" },
        ),
{
}

} // verus!
