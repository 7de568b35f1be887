//! Reading a memory object back from the values a graph store holds for its
//! subject: identities, instants, tokens, flags and scores, each required field
//! refused with a message naming the subject and the predicate.

use vstd::prelude::*;
use crate::domain::{
    MemoryId, Modality, ObjectType, RelationType, RetentionState, ThreadStatus, DerivedType,
    modality_token, object_type_token, relation_type_token, retention_state_token,
    thread_status_token, derived_type_token,
};
use crate::errors::CustomError;
use crate::ids::{parse_uuid, uuid_parse};
use crate::objects::{
    DerivedMemory, Entity, Episode, MemoryLink, MemoryObject, MemoryThread, Observation, Scene,
    SceneParticipant, SceneSetting, ScoreBits, Timestamp,
};
use crate::rdf_vocabulary::{
    ABOUT_ENTITY, CANONICAL_KEY, CREATED_AT, DERIVED_FROM_EPISODE, DERIVED_FROM_OBSERVATION,
    DERIVED_TYPE, ENDED_AT, EPISODE, FROM, FROM_TYPE, IS_CURRENT, LAST_TOUCHED_AT, MODALITY,
    OBJECT_ID, OBSERVED_AT, PARTICIPANT_ENTITY, PART_OF_THREAD, RATIONALE, RAW_REF, RELATION,
    RETENTION_STATE, SALIENCE_SCORE, SCHEMA_VERSION, SPEAKER_ENTITY, STARTED_AT, SUMMARY,
    SUPERSEDES, TEXT, THREAD_STATUS, TITLE, TO, TO_TYPE, UPDATED_AT,
};
use crate::sorting::sorted_by_keys;
use crate::sparql::{RdfSubjectValues, values_for, missing_value_message};
use crate::sparql_results::{
    id_keys, memory_id_from_resource, memory_ids_from_resources, resource_id_result,
    resource_ids_result,
};
use crate::text::str_eq;
use crate::timestamps::{parse_rfc3339, rfc3339_instant};

verus! {

/// The first literal of a predicate, if any.
pub open spec fn first_literal(values: RdfSubjectValues, p: Seq<char>) -> Option<String> {
    match values_for(values.literals@, p) {
        Some(vs) => if vs.len() > 0 {
            Some(vs[0])
        } else {
            None
        },
        None => None,
    }
}

/// The first resource of a predicate, if any.
pub open spec fn first_resource(values: RdfSubjectValues, p: Seq<char>) -> Option<String> {
    match values_for(values.resources@, p) {
        Some(vs) => if vs.len() > 0 {
            Some(vs[0])
        } else {
            None
        },
        None => None,
    }
}

/// Every resource of a predicate, as text, in the order read.
pub open spec fn resource_texts(values: RdfSubjectValues, p: Seq<char>) -> Seq<Seq<char>> {
    match values_for(values.resources@, p) {
        Some(vs) => vs.map_values(|v: String| v@),
        None => seq![],
    }
}

/// A required value: present, or refused as missing.
pub open spec fn required(subject: Seq<char>, p: Seq<char>, v: Option<String>) -> Result<String, Seq<char>> {
    match v {
        Some(s) => Ok(s),
        None => Err(missing_value_message(subject, p)),
    }
}

/// The message refusing a value that does not read.
pub open spec fn invalid_message(subject: Seq<char>, p: Seq<char>, detail: Seq<char>) -> Seq<char> {
    "Oxigraph RDF object "@ + subject + " has invalid predicate "@ + p + ": "@ + detail
}

/// The error of a reading, if it failed.
pub open spec fn err_of<T>(r: Result<T, Seq<char>>) -> Option<Seq<char>> {
    match r {
        Ok(_) => None,
        Err(m) => Some(m),
    }
}

/// The first of two errors.
pub open spec fn or_else(a: Option<Seq<char>>, b: Option<Seq<char>>) -> Option<Seq<char>> {
    if a is Some {
        a
    } else {
        b
    }
}

/// Whether an executable result is the reading `s`, an error as a database error.
pub open spec fn reads_as<T>(r: Result<T, CustomError>, s: Result<T, Seq<char>>) -> bool {
    match s {
        Ok(v) => r == Ok::<T, CustomError>(v),
        Err(m) => r matches Err(CustomError::DatabaseError(x)) && x@ == m,
    }
}

/// A required literal.
pub open spec fn literal_result(subject: Seq<char>, values: RdfSubjectValues, p: Seq<char>) -> Result<String, Seq<char>> {
    required(subject, p, first_literal(values, p))
}

/// A required identity literal.
pub open spec fn id_literal_result(subject: Seq<char>, values: RdfSubjectValues, p: Seq<char>) -> Result<MemoryId, Seq<char>> {
    match literal_result(subject, values, p) {
        Err(m) => Err(m),
        Ok(s) => match uuid_parse(s@) {
            Ok(id) => Ok(id),
            Err(e) => Err(invalid_message(subject, p, e)),
        },
    }
}

/// A required instant literal.
pub open spec fn time_literal_result(subject: Seq<char>, values: RdfSubjectValues, p: Seq<char>) -> Result<Timestamp, Seq<char>> {
    match literal_result(subject, values, p) {
        Err(m) => Err(m),
        Ok(s) => match rfc3339_instant(s@) {
            Ok(t) => Ok(t),
            Err(e) => Err(invalid_message(subject, p, e)),
        },
    }
}

/// An optional instant literal; a bad one is refused under the subject `<optional>`.
pub open spec fn optional_time_result(values: RdfSubjectValues, p: Seq<char>) -> Result<Option<Timestamp>, Seq<char>> {
    match first_literal(values, p) {
        None => Ok(None),
        Some(s) => match rfc3339_instant(s@) {
            Ok(t) => Ok(Some(t)),
            Err(e) => Err(invalid_message("<optional>"@, p, e)),
        },
    }
}

/// A required flag literal: `true` or `false`.
pub open spec fn bool_literal_result(subject: Seq<char>, values: RdfSubjectValues, p: Seq<char>) -> Result<bool, Seq<char>> {
    match literal_result(subject, values, p) {
        Err(m) => Err(m),
        Ok(s) => if s@ == "true"@ {
            Ok(true)
        } else if s@ == "false"@ {
            Ok(false)
        } else {
            Err(invalid_message(subject, p, "provided string was not `true` or `false`"@))
        },
    }
}

/// A required token literal of a kind: its text when `known` says some value has
/// that token, else refused as unknown.
pub open spec fn token_result(
    subject: Seq<char>,
    values: RdfSubjectValues,
    p: Seq<char>,
    kind: Seq<char>,
    known: spec_fn(Seq<char>) -> bool,
) -> Result<Seq<char>, Seq<char>> {
    match literal_result(subject, values, p) {
        Err(m) => Err(m),
        Ok(s) => if known(s@) {
            Ok(s@)
        } else {
            Err(invalid_message(subject, p, "unknown "@ + kind + " token: "@ + s@))
        },
    }
}

/// The score read for a predicate (the first pair for it).
pub open spec fn score_for(scores: Seq<(String, ScoreBits)>, p: Seq<char>) -> Option<ScoreBits>
    decreases scores.len(),
{
    if scores.len() == 0 {
        None
    } else if scores[0].0@ == p {
        Some(scores[0].1)
    } else {
        score_for(scores.drop_first(), p)
    }
}

/// A required score.
pub open spec fn score_result(subject: Seq<char>, scores: Seq<(String, ScoreBits)>, p: Seq<char>) -> Result<ScoreBits, Seq<char>> {
    match score_for(scores, p) {
        Some(b) => Ok(b),
        None => Err(missing_value_message(subject, p)),
    }
}

/// A required single resource naming an object by its graph URI.
pub open spec fn resource_id_field(subject: Seq<char>, values: RdfSubjectValues, p: Seq<char>) -> Result<MemoryId, Seq<char>> {
    match required(subject, p, first_resource(values, p)) {
        Err(m) => Err(m),
        Ok(s) => resource_id_result(s@),
    }
}

/// An optional single resource naming an object by its graph URI (the first one).
pub open spec fn optional_resource_id(values: RdfSubjectValues, p: Seq<char>) -> Result<Option<MemoryId>, Seq<char>> {
    match first_resource(values, p) {
        None => Ok(None),
        Some(s) => match resource_id_result(s@) {
            Ok(id) => Ok(Some(id)),
            Err(m) => Err(m),
        },
    }
}

/// The identities of every resource of a predicate, in identity order.
pub open spec fn ids_result(values: RdfSubjectValues, p: Seq<char>) -> Result<Seq<MemoryId>, Seq<char>> {
    match resource_ids_result(resource_texts(values, p)) {
        Err(m) => Err(m),
        Ok(ids) => Ok(sorted_by_keys(ids, id_keys(ids))),
    }
}

/// A required modality token literal.
pub open spec fn modality_result(subject: Seq<char>, values: RdfSubjectValues, p: Seq<char>) -> Result<Seq<char>, Seq<char>> {
    token_result(subject, values, p, "modality"@, |s: Seq<char>| exists|x: Modality| modality_token(x) == s)
}

/// A required retention state token literal.
pub open spec fn retention_state_result(subject: Seq<char>, values: RdfSubjectValues, p: Seq<char>) -> Result<Seq<char>, Seq<char>> {
    token_result(subject, values, p, "retention state"@, |s: Seq<char>| exists|x: RetentionState| retention_state_token(x) == s)
}

/// A required thread status token literal.
pub open spec fn thread_status_result(subject: Seq<char>, values: RdfSubjectValues, p: Seq<char>) -> Result<Seq<char>, Seq<char>> {
    token_result(subject, values, p, "thread status"@, |s: Seq<char>| exists|x: ThreadStatus| thread_status_token(x) == s)
}

/// A required derived type token literal.
pub open spec fn derived_type_result(subject: Seq<char>, values: RdfSubjectValues, p: Seq<char>) -> Result<Seq<char>, Seq<char>> {
    token_result(subject, values, p, "derived type"@, |s: Seq<char>| exists|x: DerivedType| derived_type_token(x) == s)
}

/// A required object type token literal.
pub open spec fn object_type_result(subject: Seq<char>, values: RdfSubjectValues, p: Seq<char>) -> Result<Seq<char>, Seq<char>> {
    token_result(subject, values, p, "object type"@, |s: Seq<char>| exists|x: ObjectType| object_type_token(x) == s)
}

/// A required relation type token literal.
pub open spec fn relation_type_result(subject: Seq<char>, values: RdfSubjectValues, p: Seq<char>) -> Result<Seq<char>, Seq<char>> {
    token_result(subject, values, p, "relation type"@, |s: Seq<char>| exists|x: RelationType| relation_type_token(x) == s)
}

fn invalid_value(subject: &str, p: &str, detail: &str) -> (e: CustomError)
    ensures
        e matches CustomError::DatabaseError(m) && m@ == invalid_message(subject@, p@, detail@),
{
    let mut m = String::from_str("Oxigraph RDF object ");
    m.append(subject);
    m.append(" has invalid predicate ");
    m.append(p);
    m.append(": ");
    m.append(detail);
    proof {
        reveal_strlit("Oxigraph RDF object ");
        reveal_strlit(" has invalid predicate ");
        reveal_strlit(": ");
    }
    CustomError::DatabaseError(m)
}

fn read_literal(subject: &str, values: &RdfSubjectValues, p: &str) -> (r: Result<String, CustomError>)
    ensures
        reads_as(r, literal_result(subject@, *values, p@)),
{
    values.literal(subject, p)
}

fn read_id(subject: &str, values: &RdfSubjectValues, p: &str) -> (r: Result<MemoryId, CustomError>)
    ensures
        reads_as(r, id_literal_result(subject@, *values, p@)),
{
    let s = match values.literal(subject, p) {
        Ok(s) => s,
        Err(e) => {
            return Err(e);
        },
    };
    match parse_uuid(s.as_str()) {
        Ok(id) => Ok(id),
        Err(detail) => Err(invalid_value(subject, p, detail.as_str())),
    }
}

fn read_time(subject: &str, values: &RdfSubjectValues, p: &str) -> (r: Result<Timestamp, CustomError>)
    ensures
        reads_as(r, time_literal_result(subject@, *values, p@)),
{
    let s = match values.literal(subject, p) {
        Ok(s) => s,
        Err(e) => {
            return Err(e);
        },
    };
    match parse_rfc3339(s.as_str()) {
        Ok(t) => Ok(t),
        Err(detail) => Err(invalid_value(subject, p, detail.as_str())),
    }
}

fn read_optional_time(values: &RdfSubjectValues, p: &str) -> (r: Result<Option<Timestamp>, CustomError>)
    ensures
        reads_as(r, optional_time_result(*values, p@)),
{
    match values.optional_literal(p) {
        None => Ok(None),
        Some(s) => match parse_rfc3339(s.as_str()) {
            Ok(t) => Ok(Some(t)),
            Err(detail) => {
                proof {
                    reveal_strlit("<optional>");
                }
                Err(invalid_value("<optional>", p, detail.as_str()))
            },
        },
    }
}

fn read_bool(subject: &str, values: &RdfSubjectValues, p: &str) -> (r: Result<bool, CustomError>)
    ensures
        reads_as(r, bool_literal_result(subject@, *values, p@)),
{
    let s = match values.literal(subject, p) {
        Ok(s) => s,
        Err(e) => {
            return Err(e);
        },
    };
    proof {
        reveal_strlit("true");
        reveal_strlit("false");
        reveal_strlit("provided string was not `true` or `false`");
    }
    if str_eq(s.as_str(), "true") {
        Ok(true)
    } else if str_eq(s.as_str(), "false") {
        Ok(false)
    } else {
        Err(invalid_value(subject, p, "provided string was not `true` or `false`"))
    }
}

fn read_score(subject: &str, scores: &Vec<(String, ScoreBits)>, p: &str) -> (r: Result<ScoreBits, CustomError>)
    ensures
        reads_as(r, score_result(subject@, scores@, p@)),
{
    let mut i: usize = 0;
    proof {
        assert(scores@.skip(0) =~= scores@);
    }
    while i < scores.len()
        invariant
            i <= scores@.len(),
            score_for(scores@, p@) == score_for(scores@.skip(i as int), p@),
        decreases scores@.len() - i,
    {
        proof {
            assert(scores@.skip(i as int)[0] == scores@[i as int]);
            assert(scores@.skip(i as int).drop_first() =~= scores@.skip(i + 1));
        }
        if str_eq(scores[i].0.as_str(), p) {
            return Ok(scores[i].1);
        }
        i = i + 1;
    }
    proof {
        assert(scores@.skip(i as int) =~= Seq::<(String, ScoreBits)>::empty());
    }
    Err(crate::sparql::missing_rdf_value(subject, p))
}

fn read_resource_id(subject: &str, values: &RdfSubjectValues, p: &str) -> (r: Result<MemoryId, CustomError>)
    ensures
        reads_as(r, resource_id_field(subject@, *values, p@)),
{
    let s = match values.resource(subject, p) {
        Ok(s) => s,
        Err(e) => {
            return Err(e);
        },
    };
    memory_id_from_resource(s.as_str())
}

fn read_optional_resource_id(values: &RdfSubjectValues, p: &str) -> (r: Result<Option<MemoryId>, CustomError>)
    ensures
        reads_as(r, optional_resource_id(*values, p@)),
{
    let all = values.resource_values(p);
    if all.len() == 0 {
        return Ok(None);
    }
    match memory_id_from_resource(all[0].as_str()) {
        Ok(id) => Ok(Some(id)),
        Err(e) => Err(e),
    }
}

fn read_ids(values: &RdfSubjectValues, p: &str) -> (r: Result<Vec<MemoryId>, CustomError>)
    ensures
        (match ids_result(*values, p@) {
            Ok(ids) => r matches Ok(v) && v@ == ids,
            Err(m) => r matches Err(CustomError::DatabaseError(x)) && x@ == m,
        }),
{
    let all = values.resource_values(p);
    proof {
        assert(all@.map_values(|v: String| v@) =~= resource_texts(*values, p@));
    }
    memory_ids_from_resources(all)
}

fn read_modality(subject: &str, values: &RdfSubjectValues, p: &str) -> (r: Result<Modality, CustomError>)
    ensures
        (match modality_result(subject@, *values, p@) {
            Ok(t) => r matches Ok(m) && modality_token(m) == t,
            Err(msg) => r matches Err(CustomError::DatabaseError(x)) && x@ == msg,
        }),
{
    let s = match values.literal(subject, p) {
        Ok(s) => s,
        Err(e) => {
            return Err(e);
        },
    };
    if str_eq(s.as_str(), Modality::Chat.token()) {
        return Ok(Modality::Chat);
    }
    if str_eq(s.as_str(), Modality::VoiceTranscript.token()) {
        return Ok(Modality::VoiceTranscript);
    }
    proof {
        reveal_strlit("modality");
        assert forall|m: Modality| modality_token(m) != s@ by {
            match m {
                Modality::Chat => {},
                Modality::VoiceTranscript => {},
            }
        }
    }
    Err(unknown_token(subject, p, "modality", s.as_str()))
}

fn unknown_token(subject: &str, p: &str, kind: &str, value: &str) -> (e: CustomError)
    ensures
        e matches CustomError::DatabaseError(m) && m@ == invalid_message(subject@, p@, "unknown "@ + kind@ + " token: "@ + value@),
{
    let mut detail = String::from_str("unknown ");
    detail.append(kind);
    detail.append(" token: ");
    detail.append(value);
    proof {
        reveal_strlit("unknown ");
        reveal_strlit(" token: ");
    }
    invalid_value(subject, p, detail.as_str())
}

fn read_retention_state(subject: &str, values: &RdfSubjectValues, p: &str) -> (r: Result<RetentionState, CustomError>)
    ensures
        (match retention_state_result(subject@, *values, p@) {
            Ok(t) => r matches Ok(x) && retention_state_token(x) == t,
            Err(msg) => r matches Err(CustomError::DatabaseError(e)) && e@ == msg,
        }),
{
    let s = match values.literal(subject, p) {
        Ok(s) => s,
        Err(e) => {
            return Err(e);
        },
    };
    if str_eq(s.as_str(), RetentionState::Active.token()) {
        return Ok(RetentionState::Active);
    }
    if str_eq(s.as_str(), RetentionState::Archived.token()) {
        return Ok(RetentionState::Archived);
    }
    if str_eq(s.as_str(), RetentionState::Suppressed.token()) {
        return Ok(RetentionState::Suppressed);
    }
    if str_eq(s.as_str(), RetentionState::Deleted.token()) {
        return Ok(RetentionState::Deleted);
    }
    proof {
        reveal_strlit("retention state");
        assert forall|x: RetentionState| retention_state_token(x) != s@ by {
            match x {
                RetentionState::Active => {},
                RetentionState::Archived => {},
                RetentionState::Suppressed => {},
                RetentionState::Deleted => {},
            }
        }
    }
    Err(unknown_token(subject, p, "retention state", s.as_str()))
}

fn read_thread_status(subject: &str, values: &RdfSubjectValues, p: &str) -> (r: Result<ThreadStatus, CustomError>)
    ensures
        (match thread_status_result(subject@, *values, p@) {
            Ok(t) => r matches Ok(x) && thread_status_token(x) == t,
            Err(msg) => r matches Err(CustomError::DatabaseError(e)) && e@ == msg,
        }),
{
    let s = match values.literal(subject, p) {
        Ok(s) => s,
        Err(e) => {
            return Err(e);
        },
    };
    if str_eq(s.as_str(), ThreadStatus::Active.token()) {
        return Ok(ThreadStatus::Active);
    }
    if str_eq(s.as_str(), ThreadStatus::Dormant.token()) {
        return Ok(ThreadStatus::Dormant);
    }
    if str_eq(s.as_str(), ThreadStatus::Resolved.token()) {
        return Ok(ThreadStatus::Resolved);
    }
    if str_eq(s.as_str(), ThreadStatus::Archived.token()) {
        return Ok(ThreadStatus::Archived);
    }
    proof {
        reveal_strlit("thread status");
        assert forall|x: ThreadStatus| thread_status_token(x) != s@ by {
            match x {
                ThreadStatus::Active => {},
                ThreadStatus::Dormant => {},
                ThreadStatus::Resolved => {},
                ThreadStatus::Archived => {},
            }
        }
    }
    Err(unknown_token(subject, p, "thread status", s.as_str()))
}

fn read_derived_type(subject: &str, values: &RdfSubjectValues, p: &str) -> (r: Result<DerivedType, CustomError>)
    ensures
        (match derived_type_result(subject@, *values, p@) {
            Ok(t) => r matches Ok(x) && derived_type_token(x) == t,
            Err(msg) => r matches Err(CustomError::DatabaseError(e)) && e@ == msg,
        }),
{
    let s = match values.literal(subject, p) {
        Ok(s) => s,
        Err(e) => {
            return Err(e);
        },
    };
    if str_eq(s.as_str(), DerivedType::Reflection.token()) {
        return Ok(DerivedType::Reflection);
    }
    if str_eq(s.as_str(), DerivedType::UserPreference.token()) {
        return Ok(DerivedType::UserPreference);
    }
    if str_eq(s.as_str(), DerivedType::AssistantPreference.token()) {
        return Ok(DerivedType::AssistantPreference);
    }
    if str_eq(s.as_str(), DerivedType::Commitment.token()) {
        return Ok(DerivedType::Commitment);
    }
    if str_eq(s.as_str(), DerivedType::OpenLoop.token()) {
        return Ok(DerivedType::OpenLoop);
    }
    if str_eq(s.as_str(), DerivedType::CharacterSignal.token()) {
        return Ok(DerivedType::CharacterSignal);
    }
    if str_eq(s.as_str(), DerivedType::RelationshipNote.token()) {
        return Ok(DerivedType::RelationshipNote);
    }
    if str_eq(s.as_str(), DerivedType::ProjectNote.token()) {
        return Ok(DerivedType::ProjectNote);
    }
    if str_eq(s.as_str(), DerivedType::Claim.token()) {
        return Ok(DerivedType::Claim);
    }
    if str_eq(s.as_str(), DerivedType::Correction.token()) {
        return Ok(DerivedType::Correction);
    }
    proof {
        reveal_strlit("derived type");
        assert forall|x: DerivedType| derived_type_token(x) != s@ by {
            match x {
                DerivedType::Reflection => {},
                DerivedType::UserPreference => {},
                DerivedType::AssistantPreference => {},
                DerivedType::Commitment => {},
                DerivedType::OpenLoop => {},
                DerivedType::CharacterSignal => {},
                DerivedType::RelationshipNote => {},
                DerivedType::ProjectNote => {},
                DerivedType::Claim => {},
                DerivedType::Correction => {},
            }
        }
    }
    Err(unknown_token(subject, p, "derived type", s.as_str()))
}

fn read_object_type(subject: &str, values: &RdfSubjectValues, p: &str) -> (r: Result<ObjectType, CustomError>)
    ensures
        (match object_type_result(subject@, *values, p@) {
            Ok(t) => r matches Ok(x) && object_type_token(x) == t,
            Err(msg) => r matches Err(CustomError::DatabaseError(e)) && e@ == msg,
        }),
{
    let s = match values.literal(subject, p) {
        Ok(s) => s,
        Err(e) => {
            return Err(e);
        },
    };
    if str_eq(s.as_str(), ObjectType::Episode.token()) {
        return Ok(ObjectType::Episode);
    }
    if str_eq(s.as_str(), ObjectType::Observation.token()) {
        return Ok(ObjectType::Observation);
    }
    if str_eq(s.as_str(), ObjectType::Entity.token()) {
        return Ok(ObjectType::Entity);
    }
    if str_eq(s.as_str(), ObjectType::MemoryThread.token()) {
        return Ok(ObjectType::MemoryThread);
    }
    if str_eq(s.as_str(), ObjectType::DerivedMemory.token()) {
        return Ok(ObjectType::DerivedMemory);
    }
    if str_eq(s.as_str(), ObjectType::MemoryLink.token()) {
        return Ok(ObjectType::MemoryLink);
    }
    proof {
        reveal_strlit("object type");
        assert forall|x: ObjectType| object_type_token(x) != s@ by {
            match x {
                ObjectType::Episode => {},
                ObjectType::Observation => {},
                ObjectType::Entity => {},
                ObjectType::MemoryThread => {},
                ObjectType::DerivedMemory => {},
                ObjectType::MemoryLink => {},
            }
        }
    }
    Err(unknown_token(subject, p, "object type", s.as_str()))
}

fn read_relation_type(subject: &str, values: &RdfSubjectValues, p: &str) -> (r: Result<RelationType, CustomError>)
    ensures
        (match relation_type_result(subject@, *values, p@) {
            Ok(t) => r matches Ok(x) && relation_type_token(x) == t,
            Err(msg) => r matches Err(CustomError::DatabaseError(e)) && e@ == msg,
        }),
{
    let s = match values.literal(subject, p) {
        Ok(s) => s,
        Err(e) => {
            return Err(e);
        },
    };
    if str_eq(s.as_str(), RelationType::HasObservation.token()) {
        return Ok(RelationType::HasObservation);
    }
    if str_eq(s.as_str(), RelationType::ObservedIn.token()) {
        return Ok(RelationType::ObservedIn);
    }
    if str_eq(s.as_str(), RelationType::Mentions.token()) {
        return Ok(RelationType::Mentions);
    }
    if str_eq(s.as_str(), RelationType::Involves.token()) {
        return Ok(RelationType::Involves);
    }
    if str_eq(s.as_str(), RelationType::About.token()) {
        return Ok(RelationType::About);
    }
    if str_eq(s.as_str(), RelationType::DerivedFrom.token()) {
        return Ok(RelationType::DerivedFrom);
    }
    if str_eq(s.as_str(), RelationType::PartOfThread.token()) {
        return Ok(RelationType::PartOfThread);
    }
    if str_eq(s.as_str(), RelationType::Supports.token()) {
        return Ok(RelationType::Supports);
    }
    if str_eq(s.as_str(), RelationType::Contradicts.token()) {
        return Ok(RelationType::Contradicts);
    }
    if str_eq(s.as_str(), RelationType::Supersedes.token()) {
        return Ok(RelationType::Supersedes);
    }
    if str_eq(s.as_str(), RelationType::Resolves.token()) {
        return Ok(RelationType::Resolves);
    }
    if str_eq(s.as_str(), RelationType::CreatesOpenLoop.token()) {
        return Ok(RelationType::CreatesOpenLoop);
    }
    if str_eq(s.as_str(), RelationType::FulfillsCommitment.token()) {
        return Ok(RelationType::FulfillsCommitment);
    }
    if str_eq(s.as_str(), RelationType::AssociatedWith.token()) {
        return Ok(RelationType::AssociatedWith);
    }
    proof {
        reveal_strlit("relation type");
        assert forall|x: RelationType| relation_type_token(x) != s@ by {
            match x {
                RelationType::HasObservation => {},
                RelationType::ObservedIn => {},
                RelationType::Mentions => {},
                RelationType::Involves => {},
                RelationType::About => {},
                RelationType::DerivedFrom => {},
                RelationType::PartOfThread => {},
                RelationType::Supports => {},
                RelationType::Contradicts => {},
                RelationType::Supersedes => {},
                RelationType::Resolves => {},
                RelationType::CreatesOpenLoop => {},
                RelationType::FulfillsCommitment => {},
                RelationType::AssociatedWith => {},
            }
        }
    }
    Err(unknown_token(subject, p, "relation type", s.as_str()))
}

/// The participants of a scene known only by key.
pub open spec fn keyed_participants(ids: Seq<MemoryId>) -> Seq<SceneParticipant> {
    ids.map_values(|k: MemoryId| SceneParticipant { key: Some(k), name: None, description: None })
}

/// Why the graph record of a episode does not read (the first field that does not), if it does not.
pub open spec fn episode_error(subject: Seq<char>, values: RdfSubjectValues, scores: Seq<(String, ScoreBits)>) -> Option<Seq<char>> {
    or_else(err_of(id_literal_result(subject, values, OBJECT_ID@)), or_else(err_of(modality_result(subject, values, MODALITY@)), or_else(err_of(time_literal_result(subject, values, STARTED_AT@)), or_else(err_of(optional_time_result(values, ENDED_AT@)), or_else(err_of(ids_result(values, PARTICIPANT_ENTITY@)), or_else(err_of(literal_result(subject, values, SUMMARY@)), or_else(err_of(score_result(subject, scores, SALIENCE_SCORE@)), or_else(err_of(retention_state_result(subject, values, RETENTION_STATE@)), or_else(err_of(time_literal_result(subject, values, CREATED_AT@)), err_of(literal_result(subject, values, SCHEMA_VERSION@)))))))))))
}

/// Whether `o` is what the graph record of a episode says.
pub open spec fn episode_fields(o: Episode, subject: Seq<char>, values: RdfSubjectValues, scores: Seq<(String, ScoreBits)>) -> bool {
    &&& o.id == id_literal_result(subject, values, OBJECT_ID@)->Ok_0
    &&& o.object_type == ObjectType::Episode
    &&& modality_token(o.modality) == modality_result(subject, values, MODALITY@)->Ok_0
    &&& o.ended_at == optional_time_result(values, ENDED_AT@)->Ok_0
    &&& o.summary == literal_result(subject, values, SUMMARY@)->Ok_0
    &&& o.raw_ref == first_literal(values, RAW_REF@)
    &&& o.salience_score == score_result(subject, scores, SALIENCE_SCORE@)->Ok_0
    &&& retention_state_token(o.retention_state) == retention_state_result(subject, values, RETENTION_STATE@)->Ok_0
    &&& o.created_at == time_literal_result(subject, values, CREATED_AT@)->Ok_0
    &&& o.schema_version == literal_result(subject, values, SCHEMA_VERSION@)->Ok_0
    &&& o.scene.time == time_literal_result(subject, values, STARTED_AT@)->Ok_0
    &&& o.scene.offset_seconds == 0
    &&& o.scene.participants@ == keyed_participants(ids_result(values, PARTICIPANT_ENTITY@)->Ok_0)
    &&& o.scene.setting == (SceneSetting { key: None, words: None })
    &&& o.scene.custom_values@.len() == 0
}

/// Reads a episode back from the values of its graph record.
pub fn episode_from_rdf(subject: &str, values: &RdfSubjectValues, scores: &Vec<(String, ScoreBits)>) -> (r: Result<Episode, CustomError>)
    ensures
        (match episode_error(subject@, *values, scores@) {
            Some(m) => r matches Err(CustomError::DatabaseError(x)) && x@ == m,
            None => r matches Ok(o) && episode_fields(o, subject@, *values, scores@),
        }),
{
    let id = match read_id(subject, values, OBJECT_ID) {
        Ok(v) => v,
        Err(e) => {
            return Err(e);
        },
    };
    let modality = match read_modality(subject, values, MODALITY) {
        Ok(v) => v,
        Err(e) => {
            return Err(e);
        },
    };
    let scene_time = match read_time(subject, values, STARTED_AT) {
        Ok(v) => v,
        Err(e) => {
            return Err(e);
        },
    };
    let ended_at = match read_optional_time(values, ENDED_AT) {
        Ok(v) => v,
        Err(e) => {
            return Err(e);
        },
    };
    let participants = match read_ids(values, PARTICIPANT_ENTITY) {
        Ok(v) => v,
        Err(e) => {
            return Err(e);
        },
    };
    let summary = match read_literal(subject, values, SUMMARY) {
        Ok(v) => v,
        Err(e) => {
            return Err(e);
        },
    };
    let raw_ref = values.optional_literal(RAW_REF);
    let salience_score = match read_score(subject, scores, SALIENCE_SCORE) {
        Ok(v) => v,
        Err(e) => {
            return Err(e);
        },
    };
    let retention_state = match read_retention_state(subject, values, RETENTION_STATE) {
        Ok(v) => v,
        Err(e) => {
            return Err(e);
        },
    };
    let created_at = match read_time(subject, values, CREATED_AT) {
        Ok(v) => v,
        Err(e) => {
            return Err(e);
        },
    };
    let schema_version = match read_literal(subject, values, SCHEMA_VERSION) {
        Ok(v) => v,
        Err(e) => {
            return Err(e);
        },
    };
    let mut people: Vec<SceneParticipant> = Vec::new();
    let mut i: usize = 0;
    while i < participants.len()
        invariant
            i <= participants@.len(),
            people@ =~= keyed_participants(participants@.take(i as int)),
        decreases participants@.len() - i,
    {
        people.push(SceneParticipant { key: Some(participants[i]), name: None, description: None });
        proof {
            assert(participants@.take(i + 1) =~= participants@.take(i as int).push(participants@[i as int]));
        }
        i = i + 1;
    }
    proof {
        assert(participants@.take(i as int) =~= participants@);
    }
    Ok(Episode {
        id,
        object_type: ObjectType::Episode,
        modality,
        ended_at,
        summary,
        raw_ref,
        salience_score,
        retention_state,
        created_at,
        schema_version,
        scene: Scene { time: scene_time, offset_seconds: 0, participants: people, setting: SceneSetting { key: None, words: None }, custom_values: Vec::new() }
    })
}

/// Why the graph record of a observation does not read (the first field that does not), if it does not.
pub open spec fn observation_error(subject: Seq<char>, values: RdfSubjectValues, scores: Seq<(String, ScoreBits)>) -> Option<Seq<char>> {
    or_else(err_of(id_literal_result(subject, values, OBJECT_ID@)), or_else(err_of(resource_id_field(subject, values, EPISODE@)), or_else(err_of(optional_resource_id(values, SPEAKER_ENTITY@)), or_else(err_of(optional_time_result(values, OBSERVED_AT@)), or_else(err_of(modality_result(subject, values, MODALITY@)), or_else(err_of(literal_result(subject, values, TEXT@)), or_else(err_of(score_result(subject, scores, SALIENCE_SCORE@)), or_else(err_of(retention_state_result(subject, values, RETENTION_STATE@)), or_else(err_of(time_literal_result(subject, values, CREATED_AT@)), err_of(literal_result(subject, values, SCHEMA_VERSION@)))))))))))
}

/// Whether `o` is what the graph record of a observation says.
pub open spec fn observation_fields(o: Observation, subject: Seq<char>, values: RdfSubjectValues, scores: Seq<(String, ScoreBits)>) -> bool {
    &&& o.id == id_literal_result(subject, values, OBJECT_ID@)->Ok_0
    &&& o.object_type == ObjectType::Observation
    &&& o.episode_id == resource_id_field(subject, values, EPISODE@)->Ok_0
    &&& o.speaker_entity_id == optional_resource_id(values, SPEAKER_ENTITY@)->Ok_0
    &&& o.observed_at == optional_time_result(values, OBSERVED_AT@)->Ok_0
    &&& modality_token(o.modality) == modality_result(subject, values, MODALITY@)->Ok_0
    &&& o.text == literal_result(subject, values, TEXT@)->Ok_0
    &&& o.raw_ref == first_literal(values, RAW_REF@)
    &&& o.salience_score == score_result(subject, scores, SALIENCE_SCORE@)->Ok_0
    &&& retention_state_token(o.retention_state) == retention_state_result(subject, values, RETENTION_STATE@)->Ok_0
    &&& o.created_at == time_literal_result(subject, values, CREATED_AT@)->Ok_0
    &&& o.schema_version == literal_result(subject, values, SCHEMA_VERSION@)->Ok_0
}

/// Reads a observation back from the values of its graph record.
pub fn observation_from_rdf(subject: &str, values: &RdfSubjectValues, scores: &Vec<(String, ScoreBits)>) -> (r: Result<Observation, CustomError>)
    ensures
        (match observation_error(subject@, *values, scores@) {
            Some(m) => r matches Err(CustomError::DatabaseError(x)) && x@ == m,
            None => r matches Ok(o) && observation_fields(o, subject@, *values, scores@),
        }),
{
    let id = match read_id(subject, values, OBJECT_ID) {
        Ok(v) => v,
        Err(e) => {
            return Err(e);
        },
    };
    let episode_id = match read_resource_id(subject, values, EPISODE) {
        Ok(v) => v,
        Err(e) => {
            return Err(e);
        },
    };
    let speaker_entity_id = match read_optional_resource_id(values, SPEAKER_ENTITY) {
        Ok(v) => v,
        Err(e) => {
            return Err(e);
        },
    };
    let observed_at = match read_optional_time(values, OBSERVED_AT) {
        Ok(v) => v,
        Err(e) => {
            return Err(e);
        },
    };
    let modality = match read_modality(subject, values, MODALITY) {
        Ok(v) => v,
        Err(e) => {
            return Err(e);
        },
    };
    let text = match read_literal(subject, values, TEXT) {
        Ok(v) => v,
        Err(e) => {
            return Err(e);
        },
    };
    let raw_ref = values.optional_literal(RAW_REF);
    let salience_score = match read_score(subject, scores, SALIENCE_SCORE) {
        Ok(v) => v,
        Err(e) => {
            return Err(e);
        },
    };
    let retention_state = match read_retention_state(subject, values, RETENTION_STATE) {
        Ok(v) => v,
        Err(e) => {
            return Err(e);
        },
    };
    let created_at = match read_time(subject, values, CREATED_AT) {
        Ok(v) => v,
        Err(e) => {
            return Err(e);
        },
    };
    let schema_version = match read_literal(subject, values, SCHEMA_VERSION) {
        Ok(v) => v,
        Err(e) => {
            return Err(e);
        },
    };
    Ok(Observation {
        id,
        object_type: ObjectType::Observation,
        episode_id,
        speaker_entity_id,
        observed_at,
        modality,
        text,
        raw_ref,
        salience_score,
        retention_state,
        created_at,
        schema_version
    })
}

/// Why the graph record of a entity does not read (the first field that does not), if it does not.
pub open spec fn entity_error(subject: Seq<char>, values: RdfSubjectValues, scores: Seq<(String, ScoreBits)>) -> Option<Seq<char>> {
    or_else(err_of(id_literal_result(subject, values, OBJECT_ID@)), or_else(err_of(time_literal_result(subject, values, CREATED_AT@)), err_of(literal_result(subject, values, SCHEMA_VERSION@))))
}

/// Whether `o` is what the graph record of a entity says.
pub open spec fn entity_fields(o: Entity, subject: Seq<char>, values: RdfSubjectValues, scores: Seq<(String, ScoreBits)>) -> bool {
    &&& o.id == id_literal_result(subject, values, OBJECT_ID@)->Ok_0
    &&& o.object_type == ObjectType::Entity
    &&& o.created_at == time_literal_result(subject, values, CREATED_AT@)->Ok_0
    &&& o.schema_version == literal_result(subject, values, SCHEMA_VERSION@)->Ok_0
}

/// Reads a entity back from the values of its graph record.
pub fn entity_from_rdf(subject: &str, values: &RdfSubjectValues, scores: &Vec<(String, ScoreBits)>) -> (r: Result<Entity, CustomError>)
    ensures
        (match entity_error(subject@, *values, scores@) {
            Some(m) => r matches Err(CustomError::DatabaseError(x)) && x@ == m,
            None => r matches Ok(o) && entity_fields(o, subject@, *values, scores@),
        }),
{
    let id = match read_id(subject, values, OBJECT_ID) {
        Ok(v) => v,
        Err(e) => {
            return Err(e);
        },
    };
    let created_at = match read_time(subject, values, CREATED_AT) {
        Ok(v) => v,
        Err(e) => {
            return Err(e);
        },
    };
    let schema_version = match read_literal(subject, values, SCHEMA_VERSION) {
        Ok(v) => v,
        Err(e) => {
            return Err(e);
        },
    };
    Ok(Entity {
        id,
        object_type: ObjectType::Entity,
        created_at,
        schema_version
    })
}

/// Why the graph record of a memory thread does not read (the first field that does not), if it does not.
pub open spec fn memory_thread_error(subject: Seq<char>, values: RdfSubjectValues, scores: Seq<(String, ScoreBits)>) -> Option<Seq<char>> {
    or_else(err_of(id_literal_result(subject, values, OBJECT_ID@)), or_else(err_of(literal_result(subject, values, TITLE@)), or_else(err_of(literal_result(subject, values, SUMMARY@)), or_else(err_of(thread_status_result(subject, values, THREAD_STATUS@)), or_else(err_of(time_literal_result(subject, values, LAST_TOUCHED_AT@)), or_else(err_of(score_result(subject, scores, SALIENCE_SCORE@)), or_else(err_of(time_literal_result(subject, values, CREATED_AT@)), or_else(err_of(time_literal_result(subject, values, UPDATED_AT@)), err_of(literal_result(subject, values, SCHEMA_VERSION@))))))))))
}

/// Whether `o` is what the graph record of a memory thread says.
pub open spec fn memory_thread_fields(o: MemoryThread, subject: Seq<char>, values: RdfSubjectValues, scores: Seq<(String, ScoreBits)>) -> bool {
    &&& o.id == id_literal_result(subject, values, OBJECT_ID@)->Ok_0
    &&& o.object_type == ObjectType::MemoryThread
    &&& o.title == literal_result(subject, values, TITLE@)->Ok_0
    &&& o.summary == literal_result(subject, values, SUMMARY@)->Ok_0
    &&& thread_status_token(o.status) == thread_status_result(subject, values, THREAD_STATUS@)->Ok_0
    &&& o.last_touched_at == time_literal_result(subject, values, LAST_TOUCHED_AT@)->Ok_0
    &&& o.salience_score == score_result(subject, scores, SALIENCE_SCORE@)->Ok_0
    &&& o.canonical_key == first_literal(values, CANONICAL_KEY@)
    &&& o.created_at == time_literal_result(subject, values, CREATED_AT@)->Ok_0
    &&& o.updated_at == time_literal_result(subject, values, UPDATED_AT@)->Ok_0
    &&& o.schema_version == literal_result(subject, values, SCHEMA_VERSION@)->Ok_0
}

/// Reads a memory thread back from the values of its graph record.
pub fn memory_thread_from_rdf(subject: &str, values: &RdfSubjectValues, scores: &Vec<(String, ScoreBits)>) -> (r: Result<MemoryThread, CustomError>)
    ensures
        (match memory_thread_error(subject@, *values, scores@) {
            Some(m) => r matches Err(CustomError::DatabaseError(x)) && x@ == m,
            None => r matches Ok(o) && memory_thread_fields(o, subject@, *values, scores@),
        }),
{
    let id = match read_id(subject, values, OBJECT_ID) {
        Ok(v) => v,
        Err(e) => {
            return Err(e);
        },
    };
    let title = match read_literal(subject, values, TITLE) {
        Ok(v) => v,
        Err(e) => {
            return Err(e);
        },
    };
    let summary = match read_literal(subject, values, SUMMARY) {
        Ok(v) => v,
        Err(e) => {
            return Err(e);
        },
    };
    let status = match read_thread_status(subject, values, THREAD_STATUS) {
        Ok(v) => v,
        Err(e) => {
            return Err(e);
        },
    };
    let last_touched_at = match read_time(subject, values, LAST_TOUCHED_AT) {
        Ok(v) => v,
        Err(e) => {
            return Err(e);
        },
    };
    let salience_score = match read_score(subject, scores, SALIENCE_SCORE) {
        Ok(v) => v,
        Err(e) => {
            return Err(e);
        },
    };
    let canonical_key = values.optional_literal(CANONICAL_KEY);
    let created_at = match read_time(subject, values, CREATED_AT) {
        Ok(v) => v,
        Err(e) => {
            return Err(e);
        },
    };
    let updated_at = match read_time(subject, values, UPDATED_AT) {
        Ok(v) => v,
        Err(e) => {
            return Err(e);
        },
    };
    let schema_version = match read_literal(subject, values, SCHEMA_VERSION) {
        Ok(v) => v,
        Err(e) => {
            return Err(e);
        },
    };
    Ok(MemoryThread {
        id,
        object_type: ObjectType::MemoryThread,
        title,
        summary,
        status,
        last_touched_at,
        salience_score,
        canonical_key,
        created_at,
        updated_at,
        schema_version
    })
}

/// Why the graph record of a derived memory does not read (the first field that does not), if it does not.
pub open spec fn derived_memory_error(subject: Seq<char>, values: RdfSubjectValues, scores: Seq<(String, ScoreBits)>) -> Option<Seq<char>> {
    or_else(err_of(id_literal_result(subject, values, OBJECT_ID@)), or_else(err_of(derived_type_result(subject, values, DERIVED_TYPE@)), or_else(err_of(literal_result(subject, values, TEXT@)), or_else(err_of(ids_result(values, DERIVED_FROM_EPISODE@)), or_else(err_of(ids_result(values, DERIVED_FROM_OBSERVATION@)), or_else(err_of(ids_result(values, PART_OF_THREAD@)), or_else(err_of(ids_result(values, ABOUT_ENTITY@)), or_else(err_of(score_result(subject, scores, SALIENCE_SCORE@)), or_else(err_of(bool_literal_result(subject, values, IS_CURRENT@)), or_else(err_of(ids_result(values, SUPERSEDES@)), or_else(err_of(retention_state_result(subject, values, RETENTION_STATE@)), or_else(err_of(time_literal_result(subject, values, CREATED_AT@)), or_else(err_of(time_literal_result(subject, values, UPDATED_AT@)), err_of(literal_result(subject, values, SCHEMA_VERSION@)))))))))))))))
}

/// Whether `o` is what the graph record of a derived memory says.
pub open spec fn derived_memory_fields(o: DerivedMemory, subject: Seq<char>, values: RdfSubjectValues, scores: Seq<(String, ScoreBits)>) -> bool {
    &&& o.id == id_literal_result(subject, values, OBJECT_ID@)->Ok_0
    &&& o.object_type == ObjectType::DerivedMemory
    &&& derived_type_token(o.derived_type) == derived_type_result(subject, values, DERIVED_TYPE@)->Ok_0
    &&& o.text == literal_result(subject, values, TEXT@)->Ok_0
    &&& o.derived_from_episode_ids@ == ids_result(values, DERIVED_FROM_EPISODE@)->Ok_0
    &&& o.derived_from_observation_ids@ == ids_result(values, DERIVED_FROM_OBSERVATION@)->Ok_0
    &&& o.thread_ids@ == ids_result(values, PART_OF_THREAD@)->Ok_0
    &&& o.entity_ids@ == ids_result(values, ABOUT_ENTITY@)->Ok_0
    &&& o.salience_score == score_result(subject, scores, SALIENCE_SCORE@)->Ok_0
    &&& o.is_current == bool_literal_result(subject, values, IS_CURRENT@)->Ok_0
    &&& o.supersedes@ == ids_result(values, SUPERSEDES@)->Ok_0
    &&& retention_state_token(o.retention_state) == retention_state_result(subject, values, RETENTION_STATE@)->Ok_0
    &&& o.created_at == time_literal_result(subject, values, CREATED_AT@)->Ok_0
    &&& o.updated_at == time_literal_result(subject, values, UPDATED_AT@)->Ok_0
    &&& o.schema_version == literal_result(subject, values, SCHEMA_VERSION@)->Ok_0
    &&& o.assertions@.len() == 0
    &&& !o.given_by_application
}

/// Reads a derived memory back from the values of its graph record.
pub fn derived_memory_from_rdf(subject: &str, values: &RdfSubjectValues, scores: &Vec<(String, ScoreBits)>) -> (r: Result<DerivedMemory, CustomError>)
    ensures
        (match derived_memory_error(subject@, *values, scores@) {
            Some(m) => r matches Err(CustomError::DatabaseError(x)) && x@ == m,
            None => r matches Ok(o) && derived_memory_fields(o, subject@, *values, scores@),
        }),
{
    let id = match read_id(subject, values, OBJECT_ID) {
        Ok(v) => v,
        Err(e) => {
            return Err(e);
        },
    };
    let derived_type = match read_derived_type(subject, values, DERIVED_TYPE) {
        Ok(v) => v,
        Err(e) => {
            return Err(e);
        },
    };
    let text = match read_literal(subject, values, TEXT) {
        Ok(v) => v,
        Err(e) => {
            return Err(e);
        },
    };
    let derived_from_episode_ids = match read_ids(values, DERIVED_FROM_EPISODE) {
        Ok(v) => v,
        Err(e) => {
            return Err(e);
        },
    };
    let derived_from_observation_ids = match read_ids(values, DERIVED_FROM_OBSERVATION) {
        Ok(v) => v,
        Err(e) => {
            return Err(e);
        },
    };
    let thread_ids = match read_ids(values, PART_OF_THREAD) {
        Ok(v) => v,
        Err(e) => {
            return Err(e);
        },
    };
    let entity_ids = match read_ids(values, ABOUT_ENTITY) {
        Ok(v) => v,
        Err(e) => {
            return Err(e);
        },
    };
    let salience_score = match read_score(subject, scores, SALIENCE_SCORE) {
        Ok(v) => v,
        Err(e) => {
            return Err(e);
        },
    };
    let is_current = match read_bool(subject, values, IS_CURRENT) {
        Ok(v) => v,
        Err(e) => {
            return Err(e);
        },
    };
    let supersedes = match read_ids(values, SUPERSEDES) {
        Ok(v) => v,
        Err(e) => {
            return Err(e);
        },
    };
    let retention_state = match read_retention_state(subject, values, RETENTION_STATE) {
        Ok(v) => v,
        Err(e) => {
            return Err(e);
        },
    };
    let created_at = match read_time(subject, values, CREATED_AT) {
        Ok(v) => v,
        Err(e) => {
            return Err(e);
        },
    };
    let updated_at = match read_time(subject, values, UPDATED_AT) {
        Ok(v) => v,
        Err(e) => {
            return Err(e);
        },
    };
    let schema_version = match read_literal(subject, values, SCHEMA_VERSION) {
        Ok(v) => v,
        Err(e) => {
            return Err(e);
        },
    };
    Ok(DerivedMemory {
        id,
        object_type: ObjectType::DerivedMemory,
        derived_type,
        text,
        derived_from_episode_ids,
        derived_from_observation_ids,
        thread_ids,
        entity_ids,
        salience_score,
        is_current,
        supersedes,
        retention_state,
        created_at,
        updated_at,
        schema_version,
        assertions: Vec::new(),
        given_by_application: false
    })
}

/// Why the graph record of a memory link does not read (the first field that does not), if it does not.
pub open spec fn memory_link_error(subject: Seq<char>, values: RdfSubjectValues, scores: Seq<(String, ScoreBits)>) -> Option<Seq<char>> {
    or_else(err_of(id_literal_result(subject, values, OBJECT_ID@)), or_else(err_of(resource_id_field(subject, values, FROM@)), or_else(err_of(object_type_result(subject, values, FROM_TYPE@)), or_else(err_of(resource_id_field(subject, values, TO@)), or_else(err_of(object_type_result(subject, values, TO_TYPE@)), or_else(err_of(relation_type_result(subject, values, RELATION@)), or_else(err_of(time_literal_result(subject, values, CREATED_AT@)), err_of(literal_result(subject, values, SCHEMA_VERSION@)))))))))
}

/// Whether `o` is what the graph record of a memory link says.
pub open spec fn memory_link_fields(o: MemoryLink, subject: Seq<char>, values: RdfSubjectValues, scores: Seq<(String, ScoreBits)>) -> bool {
    &&& o.id == id_literal_result(subject, values, OBJECT_ID@)->Ok_0
    &&& o.object_type == ObjectType::MemoryLink
    &&& o.from_id == resource_id_field(subject, values, FROM@)->Ok_0
    &&& object_type_token(o.from_type) == object_type_result(subject, values, FROM_TYPE@)->Ok_0
    &&& o.to_id == resource_id_field(subject, values, TO@)->Ok_0
    &&& object_type_token(o.to_type) == object_type_result(subject, values, TO_TYPE@)->Ok_0
    &&& relation_type_token(o.relation) == relation_type_result(subject, values, RELATION@)->Ok_0
    &&& o.rationale == first_literal(values, RATIONALE@)
    &&& o.created_at == time_literal_result(subject, values, CREATED_AT@)->Ok_0
    &&& o.schema_version == literal_result(subject, values, SCHEMA_VERSION@)->Ok_0
}

/// Reads a memory link back from the values of its graph record.
pub fn memory_link_from_rdf(subject: &str, values: &RdfSubjectValues, scores: &Vec<(String, ScoreBits)>) -> (r: Result<MemoryLink, CustomError>)
    ensures
        (match memory_link_error(subject@, *values, scores@) {
            Some(m) => r matches Err(CustomError::DatabaseError(x)) && x@ == m,
            None => r matches Ok(o) && memory_link_fields(o, subject@, *values, scores@),
        }),
{
    let id = match read_id(subject, values, OBJECT_ID) {
        Ok(v) => v,
        Err(e) => {
            return Err(e);
        },
    };
    let from_id = match read_resource_id(subject, values, FROM) {
        Ok(v) => v,
        Err(e) => {
            return Err(e);
        },
    };
    let from_type = match read_object_type(subject, values, FROM_TYPE) {
        Ok(v) => v,
        Err(e) => {
            return Err(e);
        },
    };
    let to_id = match read_resource_id(subject, values, TO) {
        Ok(v) => v,
        Err(e) => {
            return Err(e);
        },
    };
    let to_type = match read_object_type(subject, values, TO_TYPE) {
        Ok(v) => v,
        Err(e) => {
            return Err(e);
        },
    };
    let relation = match read_relation_type(subject, values, RELATION) {
        Ok(v) => v,
        Err(e) => {
            return Err(e);
        },
    };
    let rationale = values.optional_literal(RATIONALE);
    let created_at = match read_time(subject, values, CREATED_AT) {
        Ok(v) => v,
        Err(e) => {
            return Err(e);
        },
    };
    let schema_version = match read_literal(subject, values, SCHEMA_VERSION) {
        Ok(v) => v,
        Err(e) => {
            return Err(e);
        },
    };
    Ok(MemoryLink {
        id,
        object_type: ObjectType::MemoryLink,
        from_id,
        from_type,
        to_id,
        to_type,
        relation,
        rationale,
        created_at,
        schema_version
    })
}

/// Why the graph record of an object of type `t` does not read, if it does not.
pub open spec fn object_error(subject: Seq<char>, values: RdfSubjectValues, t: ObjectType, scores: Seq<(String, ScoreBits)>) -> Option<Seq<char>> {
    match t {
        ObjectType::Episode => episode_error(subject, values, scores),
        ObjectType::Observation => observation_error(subject, values, scores),
        ObjectType::Entity => entity_error(subject, values, scores),
        ObjectType::MemoryThread => memory_thread_error(subject, values, scores),
        ObjectType::DerivedMemory => derived_memory_error(subject, values, scores),
        ObjectType::MemoryLink => memory_link_error(subject, values, scores),
    }
}

/// Whether `o` is what the graph record of an object of type `t` says.
pub open spec fn object_fields(o: MemoryObject, subject: Seq<char>, values: RdfSubjectValues, t: ObjectType, scores: Seq<(String, ScoreBits)>) -> bool {
    match t {
        ObjectType::Episode => o matches MemoryObject::Episode(x) && episode_fields(x, subject, values, scores),
        ObjectType::Observation => o matches MemoryObject::Observation(x) && observation_fields(x, subject, values, scores),
        ObjectType::Entity => o matches MemoryObject::Entity(x) && entity_fields(x, subject, values, scores),
        ObjectType::MemoryThread => o matches MemoryObject::MemoryThread(x) && memory_thread_fields(x, subject, values, scores),
        ObjectType::DerivedMemory => o matches MemoryObject::DerivedMemory(x) && derived_memory_fields(x, subject, values, scores),
        ObjectType::MemoryLink => o matches MemoryObject::MemoryLink(x) && memory_link_fields(x, subject, values, scores),
    }
}

/// Whether `r` is the reading of the graph record of an object of type `t`: the
/// object its values say, or the refusal of the first field that does not read.
pub open spec fn object_from_rdf(
    r: Result<MemoryObject, CustomError>,
    subject: Seq<char>,
    values: RdfSubjectValues,
    t: ObjectType,
    scores: Seq<(String, ScoreBits)>,
) -> bool {
    match object_error(subject, values, t, scores) {
        Some(m) => r matches Err(CustomError::DatabaseError(x)) && x@ == m,
        None => r matches Ok(o) && object_fields(o, subject, values, t, scores),
    }
}

/// Reads a memory object of type `object_type` back from the values its graph
/// record holds for `subject`. Scores arrive already read, as `(predicate, bits)`
/// pairs; a score with no pair is refused as missing.
pub fn memory_object_from_rdf(
    subject: &str,
    values: &RdfSubjectValues,
    object_type: ObjectType,
    score_bits: &Vec<(String, ScoreBits)>,
) -> (r: Result<MemoryObject, CustomError>)
    ensures
        object_from_rdf(r, subject@, *values, object_type, score_bits@),
{
    match object_type {
        ObjectType::Episode => match episode_from_rdf(subject, values, score_bits) {
            Ok(x) => Ok(MemoryObject::Episode(x)),
            Err(e) => Err(e),
        },
        ObjectType::Observation => match observation_from_rdf(subject, values, score_bits) {
            Ok(x) => Ok(MemoryObject::Observation(x)),
            Err(e) => Err(e),
        },
        ObjectType::Entity => match entity_from_rdf(subject, values, score_bits) {
            Ok(x) => Ok(MemoryObject::Entity(x)),
            Err(e) => Err(e),
        },
        ObjectType::MemoryThread => match memory_thread_from_rdf(subject, values, score_bits) {
            Ok(x) => Ok(MemoryObject::MemoryThread(x)),
            Err(e) => Err(e),
        },
        ObjectType::DerivedMemory => match derived_memory_from_rdf(subject, values, score_bits) {
            Ok(x) => Ok(MemoryObject::DerivedMemory(x)),
            Err(e) => Err(e),
        },
        ObjectType::MemoryLink => match memory_link_from_rdf(subject, values, score_bits) {
            Ok(x) => Ok(MemoryObject::MemoryLink(x)),
            Err(e) => Err(e),
        },
    }
}

} // verus!
