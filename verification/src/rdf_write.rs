//! Writing a memory object as the triples of its graph record: the subject's
//! class, identity, type, graph URI and schema version, then one triple per
//! field the record keeps. Scores are floating-point values written by the
//! application; they arrive here as their text.

use vstd::prelude::*;
use crate::domain::{
    MemoryId, ObjectType, graph_uri, graph_uri_text, modality_token, object_type_token,
    relation_type_token, retention_state_token, thread_status_token, derived_type_token,
};
use crate::errors::CustomError;
use crate::ids::{uuid_hyphenated, uuid_text};
use crate::objects::{
    memory_link_validation, object_id, object_kind, object_validation,
    DerivedMemory, Entity, Episode, MemoryLink, MemoryObject, MemoryThread, Observation,
    SceneParticipant, Timestamp,
};
use crate::rdf_vocabulary::{
    ABOUT_ENTITY, CANONICAL_KEY, CLASS_DERIVED_MEMORY, CLASS_ENTITY, CLASS_EPISODE,
    CLASS_MEMORY_LINK, CLASS_MEMORY_THREAD, CLASS_OBSERVATION, CREATED_AT, DERIVED_FROM_EPISODE,
    DERIVED_FROM_OBSERVATION, DERIVED_TYPE, ENDED_AT, EPISODE, FROM, FROM_TYPE, GRAPH_URI,
    IS_CURRENT, LAST_TOUCHED_AT, MODALITY, OBJECT_ID, OBJECT_TYPE, OBSERVED_AT,
    PARTICIPANT_ENTITY, PART_OF_THREAD, RATIONALE, RAW_REF, RDF_TYPE, RELATION, RETENTION_STATE,
    SALIENCE_SCORE, SCHEMA_VERSION, SPEAKER_ENTITY, STARTED_AT, SUMMARY, SUPERSEDES, TEXT,
    THREAD_STATUS, TITLE, TO, TO_TYPE, UPDATED_AT, relation_predicate, relation_predicate_text,
};
use crate::schema::{is_schema_refusal, require_current_schema_version};
use crate::domain::CURRENT_SCHEMA_VERSION;
use crate::sparql::{RdfObject, RdfSubjectValues, RdfTriple, values_for};
use crate::text::str_eq;
use crate::timestamps::{format_rfc3339, rfc3339_text};
use crate::rdf_round_trip::{
    id_reads_back, ids_read_back, lemma_derived_memory_record, lemma_entity_record,
    lemma_episode_record, lemma_memory_link_record, lemma_memory_thread_record,
    lemma_observation_record, optional_time_reads_back, reads_back_as, time_reads_back, writable,
};

verus! {

/// What a triple says, by text: its subject, its predicate, whether its object is
/// a resource, and the object's text.
pub type Statement = (Seq<char>, Seq<char>, bool, Seq<char>);

/// What a triple says.
pub open spec fn statement(t: RdfTriple) -> Statement {
    match t.object {
        RdfObject::Resource(o) => (t.subject@, t.predicate@, true, o@),
        RdfObject::Literal(o) => (t.subject@, t.predicate@, false, o@),
    }
}

/// What triples say, in order.
pub open spec fn statements(ts: Seq<RdfTriple>) -> Seq<Statement> {
    ts.map_values(|t: RdfTriple| statement(t))
}

/// A statement with a literal object.
pub open spec fn literal_statement(s: Seq<char>, p: Seq<char>, v: Seq<char>) -> Statement {
    (s, p, false, v)
}

/// A statement with a resource object.
pub open spec fn resource_statement(s: Seq<char>, p: Seq<char>, v: Seq<char>) -> Statement {
    (s, p, true, v)
}

/// A literal statement when there is a value, else none.
pub open spec fn optional_literal_statement(s: Seq<char>, p: Seq<char>, v: Option<Seq<char>>) -> Seq<Statement> {
    match v {
        Some(x) => seq![literal_statement(s, p, x)],
        None => seq![],
    }
}

/// The text of an optional text.
pub open spec fn optional_text(v: Option<String>) -> Option<Seq<char>> {
    match v {
        Some(x) => Some(x@),
        None => None,
    }
}

/// The RFC 3339 text of an optional instant.
pub open spec fn optional_time_text(v: Option<Timestamp>) -> Option<Seq<char>> {
    match v {
        Some(t) => Some(rfc3339_text(t)),
        None => None,
    }
}

/// The text of a flag.
pub open spec fn bool_text(b: bool) -> Seq<char> {
    if b {
        "true"@
    } else {
        "false"@
    }
}

/// One resource statement per identity, naming the object of type `t` it identifies.
pub open spec fn id_statements(s: Seq<char>, p: Seq<char>, t: ObjectType, ids: Seq<MemoryId>) -> Seq<Statement> {
    ids.map_values(|k: MemoryId| resource_statement(s, p, graph_uri_text(t, k)))
}

/// The keys of the participants that have one, in order.
pub open spec fn participant_keys(ps: Seq<SceneParticipant>) -> Seq<MemoryId>
    decreases ps.len(),
{
    if ps.len() == 0 {
        seq![]
    } else {
        participant_keys(ps.drop_last()) + match ps.last().key {
            Some(k) => seq![k],
            None => seq![],
        }
    }
}

/// The statements every record starts with: class, identity, type, graph URI and
/// schema version.
pub open spec fn base_statements(s: Seq<char>, id: MemoryId, t: ObjectType, class: Seq<char>, schema: Seq<char>) -> Seq<Statement> {
    seq![
        resource_statement(s, RDF_TYPE@, class),
        literal_statement(s, OBJECT_ID@, uuid_hyphenated(id)),
        literal_statement(s, OBJECT_TYPE@, object_type_token(t)),
        literal_statement(s, GRAPH_URI@, s),
        literal_statement(s, SCHEMA_VERSION@, schema),
    ]
}

/// The graph record of an episode, its salience written as `salience`.
pub open spec fn episode_statements(e: Episode, salience: Seq<char>) -> Seq<Statement> {
    let s = graph_uri_text(ObjectType::Episode, e.id);
    base_statements(s, e.id, e.object_type, CLASS_EPISODE@, e.schema_version@) + seq![
        literal_statement(s, MODALITY@, modality_token(e.modality)),
        literal_statement(s, SUMMARY@, e.summary@),
        literal_statement(s, SALIENCE_SCORE@, salience),
        literal_statement(s, RETENTION_STATE@, retention_state_token(e.retention_state)),
        literal_statement(s, CREATED_AT@, rfc3339_text(e.created_at)),
        literal_statement(s, STARTED_AT@, rfc3339_text(e.scene.time)),
    ] + optional_literal_statement(s, ENDED_AT@, optional_time_text(e.ended_at))
        + optional_literal_statement(s, RAW_REF@, optional_text(e.raw_ref))
        + id_statements(s, PARTICIPANT_ENTITY@, ObjectType::Entity, participant_keys(e.scene.participants@))
}

/// The graph record of an observation, its salience written as `salience`.
pub open spec fn observation_statements(o: Observation, salience: Seq<char>) -> Seq<Statement> {
    let s = graph_uri_text(ObjectType::Observation, o.id);
    base_statements(s, o.id, o.object_type, CLASS_OBSERVATION@, o.schema_version@) + seq![
        resource_statement(s, EPISODE@, graph_uri_text(ObjectType::Episode, o.episode_id)),
        literal_statement(s, MODALITY@, modality_token(o.modality)),
        literal_statement(s, TEXT@, o.text@),
        literal_statement(s, SALIENCE_SCORE@, salience),
        literal_statement(s, RETENTION_STATE@, retention_state_token(o.retention_state)),
        literal_statement(s, CREATED_AT@, rfc3339_text(o.created_at)),
    ] + match o.speaker_entity_id {
        Some(k) => seq![resource_statement(s, SPEAKER_ENTITY@, graph_uri_text(ObjectType::Entity, k))],
        None => seq![],
    } + optional_literal_statement(s, OBSERVED_AT@, optional_time_text(o.observed_at))
        + optional_literal_statement(s, RAW_REF@, optional_text(o.raw_ref))
}

/// The graph record of an entity.
pub open spec fn entity_statements(e: Entity) -> Seq<Statement> {
    let s = graph_uri_text(ObjectType::Entity, e.id);
    base_statements(s, e.id, e.object_type, CLASS_ENTITY@, e.schema_version@) + seq![
        literal_statement(s, CREATED_AT@, rfc3339_text(e.created_at)),
    ]
}

/// The graph record of a memory thread, its salience written as `salience`.
pub open spec fn memory_thread_statements(t: MemoryThread, salience: Seq<char>) -> Seq<Statement> {
    let s = graph_uri_text(ObjectType::MemoryThread, t.id);
    base_statements(s, t.id, t.object_type, CLASS_MEMORY_THREAD@, t.schema_version@) + seq![
        literal_statement(s, TITLE@, t.title@),
        literal_statement(s, SUMMARY@, t.summary@),
        literal_statement(s, THREAD_STATUS@, thread_status_token(t.status)),
        literal_statement(s, LAST_TOUCHED_AT@, rfc3339_text(t.last_touched_at)),
        literal_statement(s, SALIENCE_SCORE@, salience),
        literal_statement(s, CREATED_AT@, rfc3339_text(t.created_at)),
        literal_statement(s, UPDATED_AT@, rfc3339_text(t.updated_at)),
    ] + optional_literal_statement(s, CANONICAL_KEY@, optional_text(t.canonical_key))
}

/// The graph record of a derived memory, its salience written as `salience`.
pub open spec fn derived_memory_statements(m: DerivedMemory, salience: Seq<char>) -> Seq<Statement> {
    let s = graph_uri_text(ObjectType::DerivedMemory, m.id);
    base_statements(s, m.id, m.object_type, CLASS_DERIVED_MEMORY@, m.schema_version@) + seq![
        literal_statement(s, DERIVED_TYPE@, derived_type_token(m.derived_type)),
        literal_statement(s, TEXT@, m.text@),
        literal_statement(s, SALIENCE_SCORE@, salience),
        literal_statement(s, IS_CURRENT@, bool_text(m.is_current)),
        literal_statement(s, RETENTION_STATE@, retention_state_token(m.retention_state)),
        literal_statement(s, CREATED_AT@, rfc3339_text(m.created_at)),
        literal_statement(s, UPDATED_AT@, rfc3339_text(m.updated_at)),
    ] + id_statements(s, DERIVED_FROM_EPISODE@, ObjectType::Episode, m.derived_from_episode_ids@)
        + id_statements(s, DERIVED_FROM_OBSERVATION@, ObjectType::Observation, m.derived_from_observation_ids@)
        + id_statements(s, PART_OF_THREAD@, ObjectType::MemoryThread, m.thread_ids@)
        + id_statements(s, ABOUT_ENTITY@, ObjectType::Entity, m.entity_ids@)
        + id_statements(s, SUPERSEDES@, ObjectType::DerivedMemory, m.supersedes@)
}

/// The graph record of a link, and the typed relation triple between its endpoints.
pub open spec fn memory_link_statements(l: MemoryLink) -> Seq<Statement> {
    let s = graph_uri_text(ObjectType::MemoryLink, l.id);
    let from = graph_uri_text(l.from_type, l.from_id);
    let to = graph_uri_text(l.to_type, l.to_id);
    base_statements(s, l.id, ObjectType::MemoryLink, CLASS_MEMORY_LINK@, l.schema_version@) + seq![
        resource_statement(s, FROM@, from),
        literal_statement(s, FROM_TYPE@, object_type_token(l.from_type)),
        resource_statement(s, TO@, to),
        literal_statement(s, TO_TYPE@, object_type_token(l.to_type)),
        literal_statement(s, RELATION@, relation_type_token(l.relation)),
        literal_statement(s, CREATED_AT@, rfc3339_text(l.created_at)),
        resource_statement(from, relation_predicate_text(l.relation), to),
    ] + optional_literal_statement(s, RATIONALE@, optional_text(l.rationale))
}

proof fn lemma_statements_push(ts: Seq<RdfTriple>, t: RdfTriple)
    ensures
        statements(ts.push(t)) == statements(ts).push(statement(t)),
{
    assert(statements(ts.push(t)) =~= statements(ts).push(statement(t)));
}

fn push_literal_text(triples: &mut Vec<RdfTriple>, subject: &str, predicate: &str, value: &str)
    ensures
        statements(final(triples)@) == statements(old(triples)@).push(literal_statement(subject@, predicate@, value@)),
{
    let t = RdfTriple::literal(subject, predicate, value);
    proof {
        lemma_statements_push(triples@, t);
    }
    triples.push(t);
}

fn push_resource_text(triples: &mut Vec<RdfTriple>, subject: &str, predicate: &str, value: &str)
    ensures
        statements(final(triples)@) == statements(old(triples)@).push(resource_statement(subject@, predicate@, value@)),
{
    let t = RdfTriple::resource(subject, predicate, value);
    proof {
        lemma_statements_push(triples@, t);
    }
    triples.push(t);
}

fn push_time(triples: &mut Vec<RdfTriple>, subject: &str, predicate: &str, t: Timestamp)
    ensures
        statements(final(triples)@) == statements(old(triples)@).push(literal_statement(subject@, predicate@, rfc3339_text(t))),
        time_reads_back(t),
{
    let text = format_rfc3339(t);
    push_literal_text(triples, subject, predicate, text.as_str());
}

fn push_optional_text(triples: &mut Vec<RdfTriple>, subject: &str, predicate: &str, value: &Option<String>)
    ensures
        statements(final(triples)@) == statements(old(triples)@) + optional_literal_statement(subject@, predicate@, optional_text(*value)),
{
    match value {
        Some(v) => push_literal_text(triples, subject, predicate, v.as_str()),
        None => {},
    }
    proof {
        assert(statements(triples@) =~= statements(old(triples)@) + optional_literal_statement(subject@, predicate@, optional_text(*value)));
    }
}

fn push_optional_time(triples: &mut Vec<RdfTriple>, subject: &str, predicate: &str, value: Option<Timestamp>)
    ensures
        statements(final(triples)@) == statements(old(triples)@) + optional_literal_statement(subject@, predicate@, optional_time_text(value)),
        optional_time_reads_back(value),
{
    match value {
        Some(t) => push_time(triples, subject, predicate, t),
        None => {},
    }
    proof {
        assert(statements(triples@) =~= statements(old(triples)@) + optional_literal_statement(subject@, predicate@, optional_time_text(value)));
    }
}

fn push_ids(triples: &mut Vec<RdfTriple>, subject: &str, predicate: &str, t: ObjectType, ids: &Vec<MemoryId>)
    ensures
        statements(final(triples)@) == statements(old(triples)@) + id_statements(subject@, predicate@, t, ids@),
        ids_read_back(ids@),
{
    let ghost start = statements(triples@);
    let mut i: usize = 0;
    while i < ids.len()
        invariant
            i <= ids@.len(),
            statements(triples@) == start + id_statements(subject@, predicate@, t, ids@.take(i as int)),
            ids_read_back(ids@.take(i as int)),
        decreases ids@.len() - i,
    {
        let uri = graph_uri(t, ids[i]);
        push_resource_text(triples, subject, predicate, uri.as_str());
        proof {
            assert(ids@.take(i + 1) =~= ids@.take(i as int).push(ids@[i as int]));
            assert(id_statements(subject@, predicate@, t, ids@.take(i + 1)) =~= id_statements(subject@, predicate@, t, ids@.take(i as int)).push(resource_statement(subject@, predicate@, graph_uri_text(t, ids@[i as int]))));
        }
        i = i + 1;
    }
    proof {
        assert(ids@.take(i as int) =~= ids@);
    }
}

fn push_participants(triples: &mut Vec<RdfTriple>, subject: &str, ps: &Vec<SceneParticipant>)
    ensures
        statements(final(triples)@) == statements(old(triples)@) + id_statements(subject@, PARTICIPANT_ENTITY@, ObjectType::Entity, participant_keys(ps@)),
        ids_read_back(participant_keys(ps@)),
{
    let ghost start = statements(triples@);
    let mut i: usize = 0;
    while i < ps.len()
        invariant
            i <= ps@.len(),
            statements(triples@) == start + id_statements(subject@, PARTICIPANT_ENTITY@, ObjectType::Entity, participant_keys(ps@.take(i as int))),
            ids_read_back(participant_keys(ps@.take(i as int))),
        decreases ps@.len() - i,
    {
        proof {
            assert(ps@.take(i + 1).drop_last() =~= ps@.take(i as int));
        }
        match ps[i].key {
            Some(k) => {
                let uri = graph_uri(ObjectType::Entity, k);
                push_resource_text(triples, subject, PARTICIPANT_ENTITY, uri.as_str());
                proof {
                    let keys = participant_keys(ps@.take(i as int));
                    assert(participant_keys(ps@.take(i + 1)) =~= keys.push(k));
                    assert(id_statements(subject@, PARTICIPANT_ENTITY@, ObjectType::Entity, keys.push(k)) =~= id_statements(subject@, PARTICIPANT_ENTITY@, ObjectType::Entity, keys).push(resource_statement(subject@, PARTICIPANT_ENTITY@, graph_uri_text(ObjectType::Entity, k))));
                }
            },
            None => {
                proof {
                    assert(participant_keys(ps@.take(i + 1)) =~= participant_keys(ps@.take(i as int)));
                }
            },
        }
        i = i + 1;
    }
    proof {
        assert(ps@.take(i as int) =~= ps@);
    }
}

fn base_triples(subject: &str, id: MemoryId, t: ObjectType, class: &str, schema_version: &str) -> (r: Vec<RdfTriple>)
    ensures
        statements(r@) == base_statements(subject@, id, t, class@, schema_version@),
        id_reads_back(id),
{
    let mut triples: Vec<RdfTriple> = Vec::new();
    push_resource_text(&mut triples, subject, RDF_TYPE, class);
    let id_text = uuid_text(id);
    push_literal_text(&mut triples, subject, OBJECT_ID, id_text.as_str());
    push_literal_text(&mut triples, subject, OBJECT_TYPE, t.token());
    push_literal_text(&mut triples, subject, GRAPH_URI, subject);
    push_literal_text(&mut triples, subject, SCHEMA_VERSION, schema_version);
    proof {
        assert(statements(triples@) =~= base_statements(subject@, id, t, class@, schema_version@));
    }
    triples
}

/// The triples of an episode's graph record; `salience` is the text the
/// application writes for its salience score.
pub fn episode_triples(episode: &Episode, salience: &str) -> (r: Vec<RdfTriple>)
    ensures
        statements(r@) == episode_statements(*episode, salience@),
        writable(MemoryObject::Episode(*episode)) ==> reads_back_as(statements(r@), MemoryObject::Episode(*episode)),
{
    let subject = graph_uri(ObjectType::Episode, episode.id);
    let s = subject.as_str();
    let mut triples = base_triples(s, episode.id, episode.object_type, CLASS_EPISODE, episode.schema_version.as_str());
    let ghost base = statements(triples@);
    push_literal_text(&mut triples, s, MODALITY, episode.modality.token());
    push_literal_text(&mut triples, s, SUMMARY, episode.summary.as_str());
    push_literal_text(&mut triples, s, SALIENCE_SCORE, salience);
    push_literal_text(&mut triples, s, RETENTION_STATE, episode.retention_state.token());
    push_time(&mut triples, s, CREATED_AT, episode.created_at);
    push_time(&mut triples, s, STARTED_AT, episode.scene.time);
    let ghost fixed = statements(triples@);
    push_optional_time(&mut triples, s, ENDED_AT, episode.ended_at);
    push_optional_text(&mut triples, s, RAW_REF, &episode.raw_ref);
    push_participants(&mut triples, s, &episode.scene.participants);
    proof {
        let e = *episode;
        let sv = graph_uri_text(ObjectType::Episode, e.id);
        assert(fixed =~= base_statements(sv, e.id, e.object_type, CLASS_EPISODE@, e.schema_version@) + seq![
            literal_statement(sv, MODALITY@, modality_token(e.modality)),
            literal_statement(sv, SUMMARY@, e.summary@),
            literal_statement(sv, SALIENCE_SCORE@, salience@),
            literal_statement(sv, RETENTION_STATE@, retention_state_token(e.retention_state)),
            literal_statement(sv, CREATED_AT@, rfc3339_text(e.created_at)),
            literal_statement(sv, STARTED_AT@, rfc3339_text(e.scene.time)),
        ]);
        assert(statements(triples@) =~= episode_statements(e, salience@));
        if writable(MemoryObject::Episode(e)) {
            lemma_episode_record(e, salience@);
        }
    }
    triples
}

/// The triples of an observation's graph record; `salience` is the text the
/// application writes for its salience score.
pub fn observation_triples(observation: &Observation, salience: &str) -> (r: Vec<RdfTriple>)
    ensures
        statements(r@) == observation_statements(*observation, salience@),
        writable(MemoryObject::Observation(*observation)) ==> reads_back_as(statements(r@), MemoryObject::Observation(*observation)),
{
    let subject = graph_uri(ObjectType::Observation, observation.id);
    let s = subject.as_str();
    let mut triples = base_triples(s, observation.id, observation.object_type, CLASS_OBSERVATION, observation.schema_version.as_str());
    let episode = graph_uri(ObjectType::Episode, observation.episode_id);
    push_resource_text(&mut triples, s, EPISODE, episode.as_str());
    push_literal_text(&mut triples, s, MODALITY, observation.modality.token());
    push_literal_text(&mut triples, s, TEXT, observation.text.as_str());
    push_literal_text(&mut triples, s, SALIENCE_SCORE, salience);
    push_literal_text(&mut triples, s, RETENTION_STATE, observation.retention_state.token());
    push_time(&mut triples, s, CREATED_AT, observation.created_at);
    let ghost fixed = statements(triples@);
    match observation.speaker_entity_id {
        Some(k) => {
            let speaker = graph_uri(ObjectType::Entity, k);
            push_resource_text(&mut triples, s, SPEAKER_ENTITY, speaker.as_str());
        },
        None => {},
    }
    let ghost spoken = statements(triples@);
    push_optional_time(&mut triples, s, OBSERVED_AT, observation.observed_at);
    push_optional_text(&mut triples, s, RAW_REF, &observation.raw_ref);
    proof {
        let o = *observation;
        let sv = graph_uri_text(ObjectType::Observation, o.id);
        assert(spoken =~= fixed + match o.speaker_entity_id {
            Some(k) => seq![resource_statement(sv, SPEAKER_ENTITY@, graph_uri_text(ObjectType::Entity, k))],
            None => Seq::<Statement>::empty(),
        });
        assert(statements(triples@) =~= observation_statements(o, salience@));
        if writable(MemoryObject::Observation(o)) {
            lemma_observation_record(o, salience@);
        }
    }
    triples
}

/// The triples of an entity's graph record.
pub fn entity_triples(entity: &Entity) -> (r: Vec<RdfTriple>)
    ensures
        statements(r@) == entity_statements(*entity),
        writable(MemoryObject::Entity(*entity)) ==> reads_back_as(statements(r@), MemoryObject::Entity(*entity)),
{
    let subject = graph_uri(ObjectType::Entity, entity.id);
    let s = subject.as_str();
    let mut triples = base_triples(s, entity.id, entity.object_type, CLASS_ENTITY, entity.schema_version.as_str());
    push_time(&mut triples, s, CREATED_AT, entity.created_at);
    proof {
        assert(statements(triples@) =~= entity_statements(*entity));
        if writable(MemoryObject::Entity(*entity)) {
            lemma_entity_record(*entity);
        }
    }
    triples
}

/// The triples of a memory thread's graph record; `salience` is the text the
/// application writes for its salience score.
pub fn memory_thread_triples(thread: &MemoryThread, salience: &str) -> (r: Vec<RdfTriple>)
    ensures
        statements(r@) == memory_thread_statements(*thread, salience@),
        writable(MemoryObject::MemoryThread(*thread)) ==> reads_back_as(statements(r@), MemoryObject::MemoryThread(*thread)),
{
    let subject = graph_uri(ObjectType::MemoryThread, thread.id);
    let s = subject.as_str();
    let mut triples = base_triples(s, thread.id, thread.object_type, CLASS_MEMORY_THREAD, thread.schema_version.as_str());
    push_literal_text(&mut triples, s, TITLE, thread.title.as_str());
    push_literal_text(&mut triples, s, SUMMARY, thread.summary.as_str());
    push_literal_text(&mut triples, s, THREAD_STATUS, thread.status.token());
    push_time(&mut triples, s, LAST_TOUCHED_AT, thread.last_touched_at);
    push_literal_text(&mut triples, s, SALIENCE_SCORE, salience);
    push_time(&mut triples, s, CREATED_AT, thread.created_at);
    push_time(&mut triples, s, UPDATED_AT, thread.updated_at);
    push_optional_text(&mut triples, s, CANONICAL_KEY, &thread.canonical_key);
    proof {
        assert(statements(triples@) =~= memory_thread_statements(*thread, salience@));
        if writable(MemoryObject::MemoryThread(*thread)) {
            lemma_memory_thread_record(*thread, salience@);
        }
    }
    triples
}

fn bool_literal(b: bool) -> (r: &'static str)
    ensures
        r@ == bool_text(b),
{
    if b {
        "true"
    } else {
        "false"
    }
}

/// The triples of a derived memory's graph record; `salience` is the text the
/// application writes for its salience score.
pub fn derived_memory_triples(memory: &DerivedMemory, salience: &str) -> (r: Vec<RdfTriple>)
    ensures
        statements(r@) == derived_memory_statements(*memory, salience@),
        writable(MemoryObject::DerivedMemory(*memory)) ==> reads_back_as(statements(r@), MemoryObject::DerivedMemory(*memory)),
{
    let subject = graph_uri(ObjectType::DerivedMemory, memory.id);
    let s = subject.as_str();
    let mut triples = base_triples(s, memory.id, memory.object_type, CLASS_DERIVED_MEMORY, memory.schema_version.as_str());
    push_literal_text(&mut triples, s, DERIVED_TYPE, memory.derived_type.token());
    push_literal_text(&mut triples, s, TEXT, memory.text.as_str());
    push_literal_text(&mut triples, s, SALIENCE_SCORE, salience);
    push_literal_text(&mut triples, s, IS_CURRENT, bool_literal(memory.is_current));
    push_literal_text(&mut triples, s, RETENTION_STATE, memory.retention_state.token());
    push_time(&mut triples, s, CREATED_AT, memory.created_at);
    push_time(&mut triples, s, UPDATED_AT, memory.updated_at);
    let ghost fixed = statements(triples@);
    push_ids(&mut triples, s, DERIVED_FROM_EPISODE, ObjectType::Episode, &memory.derived_from_episode_ids);
    push_ids(&mut triples, s, DERIVED_FROM_OBSERVATION, ObjectType::Observation, &memory.derived_from_observation_ids);
    push_ids(&mut triples, s, PART_OF_THREAD, ObjectType::MemoryThread, &memory.thread_ids);
    push_ids(&mut triples, s, ABOUT_ENTITY, ObjectType::Entity, &memory.entity_ids);
    push_ids(&mut triples, s, SUPERSEDES, ObjectType::DerivedMemory, &memory.supersedes);
    proof {
        let m = *memory;
        let sv = graph_uri_text(ObjectType::DerivedMemory, m.id);
        assert(fixed =~= base_statements(sv, m.id, m.object_type, CLASS_DERIVED_MEMORY@, m.schema_version@) + seq![
            literal_statement(sv, DERIVED_TYPE@, derived_type_token(m.derived_type)),
            literal_statement(sv, TEXT@, m.text@),
            literal_statement(sv, SALIENCE_SCORE@, salience@),
            literal_statement(sv, IS_CURRENT@, bool_text(m.is_current)),
            literal_statement(sv, RETENTION_STATE@, retention_state_token(m.retention_state)),
            literal_statement(sv, CREATED_AT@, rfc3339_text(m.created_at)),
            literal_statement(sv, UPDATED_AT@, rfc3339_text(m.updated_at)),
        ]);
        assert(statements(triples@) =~= derived_memory_statements(m, salience@));
        if writable(MemoryObject::DerivedMemory(m)) {
            lemma_derived_memory_record(m, salience@);
        }
    }
    triples
}

/// The triples of a link's graph record, with the typed relation triple from its
/// source to its target.
pub fn memory_link_triples(link: &MemoryLink) -> (r: Vec<RdfTriple>)
    ensures
        statements(r@) == memory_link_statements(*link),
        writable(MemoryObject::MemoryLink(*link)) ==> reads_back_as(statements(r@), MemoryObject::MemoryLink(*link)),
{
    let subject = graph_uri(ObjectType::MemoryLink, link.id);
    let s = subject.as_str();
    let from = graph_uri(link.from_type, link.from_id);
    let to = graph_uri(link.to_type, link.to_id);
    let mut triples = base_triples(s, link.id, ObjectType::MemoryLink, CLASS_MEMORY_LINK, link.schema_version.as_str());
    push_resource_text(&mut triples, s, FROM, from.as_str());
    push_literal_text(&mut triples, s, FROM_TYPE, link.from_type.token());
    push_resource_text(&mut triples, s, TO, to.as_str());
    push_literal_text(&mut triples, s, TO_TYPE, link.to_type.token());
    push_literal_text(&mut triples, s, RELATION, link.relation.token());
    push_time(&mut triples, s, CREATED_AT, link.created_at);
    let predicate = relation_predicate(link.relation);
    push_resource_text(&mut triples, from.as_str(), predicate.as_str(), to.as_str());
    push_optional_text(&mut triples, s, RATIONALE, &link.rationale);
    proof {
        assert(statements(triples@) =~= memory_link_statements(*link));
        if writable(MemoryObject::MemoryLink(*link)) {
            lemma_memory_link_record(*link);
        }
    }
    triples
}

/// The schema version an object carries.
pub open spec fn object_schema_version(o: MemoryObject) -> Seq<char> {
    match o {
        MemoryObject::Episode(x) => x.schema_version@,
        MemoryObject::Observation(x) => x.schema_version@,
        MemoryObject::Entity(x) => x.schema_version@,
        MemoryObject::MemoryThread(x) => x.schema_version@,
        MemoryObject::DerivedMemory(x) => x.schema_version@,
        MemoryObject::MemoryLink(x) => x.schema_version@,
    }
}

/// The boundary named when an object's schema version is refused.
pub open spec fn mapping_context(o: MemoryObject) -> &'static str {
    match o {
        MemoryObject::Episode(_) => "RDF episode mapping",
        MemoryObject::Observation(_) => "RDF observation mapping",
        MemoryObject::Entity(_) => "RDF entity mapping",
        MemoryObject::MemoryThread(_) => "RDF memory thread mapping",
        MemoryObject::DerivedMemory(_) => "RDF derived memory mapping",
        MemoryObject::MemoryLink(_) => "RDF memory link mapping",
    }
}

/// The graph record of any object, its salience (where it has one) written as `salience`.
pub open spec fn object_statements(o: MemoryObject, salience: Seq<char>) -> Seq<Statement> {
    match o {
        MemoryObject::Episode(x) => episode_statements(x, salience),
        MemoryObject::Observation(x) => observation_statements(x, salience),
        MemoryObject::Entity(x) => entity_statements(x),
        MemoryObject::MemoryThread(x) => memory_thread_statements(x, salience),
        MemoryObject::DerivedMemory(x) => derived_memory_statements(x, salience),
        MemoryObject::MemoryLink(x) => memory_link_statements(x),
    }
}

/// The triples of a link's graph record, refused unless the link carries the
/// current schema version.
pub fn rdf_triples_for_link(link: &MemoryLink) -> (r: Result<Vec<RdfTriple>, CustomError>)
    ensures
        link.schema_version@ == CURRENT_SCHEMA_VERSION@ ==> (r matches Ok(ts) && statements(ts@) == memory_link_statements(*link)
            && (writable(MemoryObject::MemoryLink(*link)) ==> reads_back_as(statements(ts@), MemoryObject::MemoryLink(*link)))),
        link.schema_version@ != CURRENT_SCHEMA_VERSION@ ==> (r matches Err(e) && is_schema_refusal(e, link.schema_version@, "RDF memory link mapping")),
{
    match require_current_schema_version(link.schema_version.as_str(), "RDF memory link mapping") {
        Ok(()) => Ok(memory_link_triples(link)),
        Err(e) => Err(e),
    }
}

/// The triples of an object's graph record, refused unless the object carries the
/// current schema version; `salience` is the text the application writes for the
/// salience score of the kinds that have one.
pub fn rdf_triples_for_object(object: &MemoryObject, salience: &str) -> (r: Result<Vec<RdfTriple>, CustomError>)
    ensures
        object_schema_version(*object) == CURRENT_SCHEMA_VERSION@ ==> (r matches Ok(ts) && statements(ts@) == object_statements(*object, salience@)
            && (writable(*object) ==> reads_back_as(statements(ts@), *object))),
        object_schema_version(*object) != CURRENT_SCHEMA_VERSION@ ==> (r matches Err(e) && is_schema_refusal(e, object_schema_version(*object), mapping_context(*object))),
{
    match object {
        MemoryObject::Episode(x) => match require_current_schema_version(x.schema_version.as_str(), "RDF episode mapping") {
            Ok(()) => Ok(episode_triples(x, salience)),
            Err(e) => Err(e),
        },
        MemoryObject::Observation(x) => match require_current_schema_version(x.schema_version.as_str(), "RDF observation mapping") {
            Ok(()) => Ok(observation_triples(x, salience)),
            Err(e) => Err(e),
        },
        MemoryObject::Entity(x) => match require_current_schema_version(x.schema_version.as_str(), "RDF entity mapping") {
            Ok(()) => Ok(entity_triples(x)),
            Err(e) => Err(e),
        },
        MemoryObject::MemoryThread(x) => match require_current_schema_version(x.schema_version.as_str(), "RDF memory thread mapping") {
            Ok(()) => Ok(memory_thread_triples(x, salience)),
            Err(e) => Err(e),
        },
        MemoryObject::DerivedMemory(x) => match require_current_schema_version(x.schema_version.as_str(), "RDF derived memory mapping") {
            Ok(()) => Ok(derived_memory_triples(x, salience)),
            Err(e) => Err(e),
        },
        MemoryObject::MemoryLink(x) => rdf_triples_for_link(x),
    }
}

/// The texts of the literals that statements give a subject under a predicate, in order.
pub open spec fn literal_values_of(sts: Seq<Statement>, s: Seq<char>, p: Seq<char>) -> Seq<Seq<char>>
    decreases sts.len(),
{
    if sts.len() == 0 {
        seq![]
    } else {
        let t = sts.last();
        literal_values_of(sts.drop_last(), s, p) + if t.0 == s && t.1 == p && !t.2 {
            seq![t.3]
        } else {
            seq![]
        }
    }
}

/// The texts of the resources that statements give a subject under a predicate, in order.
pub open spec fn resource_values_of(sts: Seq<Statement>, s: Seq<char>, p: Seq<char>) -> Seq<Seq<char>>
    decreases sts.len(),
{
    if sts.len() == 0 {
        seq![]
    } else {
        let t = sts.last();
        resource_values_of(sts.drop_last(), s, p) + if t.0 == s && t.1 == p && t.2 {
            seq![t.3]
        } else {
            seq![]
        }
    }
}

/// The texts of the values recorded for a predicate (none when it has no entry).
pub open spec fn value_texts(o: Option<Seq<String>>) -> Seq<Seq<char>> {
    match o {
        Some(vs) => vs.map_values(|v: String| v@),
        None => seq![],
    }
}

/// Whether `v` holds exactly what the statements say of `subject`: for every
/// predicate, its literals and its resources in order, and no predicate recorded
/// without a value.
pub open spec fn holds_values_of(v: RdfSubjectValues, sts: Seq<Statement>, subject: Seq<char>) -> bool {
    &&& forall|p: Seq<char>| value_texts(#[trigger] values_for(v.literals@, p)) == literal_values_of(sts, subject, p)
    &&& forall|p: Seq<char>| value_texts(#[trigger] values_for(v.resources@, p)) == resource_values_of(sts, subject, p)
    &&& forall|p: Seq<char>| #[trigger] values_for(v.literals@, p) matches Some(vs) ==> vs.len() > 0
    &&& forall|p: Seq<char>| #[trigger] values_for(v.resources@, p) matches Some(vs) ==> vs.len() > 0
}

/// The values that triples give one subject, by predicate, in the order of the
/// triples; triples about other subjects are passed over.
pub fn subject_values(triples: &Vec<RdfTriple>, subject: &str) -> (v: RdfSubjectValues)
    ensures
        holds_values_of(v, statements(triples@), subject@),
{
    let mut v = RdfSubjectValues::new();
    let mut i: usize = 0;
    proof {
        assert(statements(triples@).take(0) =~= Seq::<Statement>::empty());
    }
    while i < triples.len()
        invariant
            i <= triples@.len(),
            holds_values_of(v, statements(triples@).take(i as int), subject@),
        decreases triples@.len() - i,
    {
        let ghost sts = statements(triples@);
        let ghost old_v = v;
        let t = &triples[i];
        proof {
            assert(sts.take(i + 1).drop_last() =~= sts.take(i as int));
            assert(sts.take(i + 1).last() == statement(*t));
        }
        if str_eq(t.subject.as_str(), subject) {
            match &t.object {
                RdfObject::Literal(o) => {
                    v.push_literal(t.predicate.clone(), o.clone());
                    proof {
                        assert forall|p: Seq<char>| value_texts(#[trigger] values_for(v.literals@, p)) == literal_values_of(sts.take(i + 1), subject@, p) by {
                            if p == t.predicate@ {
                                match values_for(old_v.literals@, p) {
                                    Some(vs) => {
                                        assert(vs.push(*o).map_values(|x: String| x@) =~= vs.map_values(|x: String| x@).push(o@));
                                    },
                                    None => {
                                        assert(seq![*o].map_values(|x: String| x@) =~= seq![o@]);
                                    },
                                }
                            }
                        }
                        assert forall|p: Seq<char>| value_texts(#[trigger] values_for(v.resources@, p)) == resource_values_of(sts.take(i + 1), subject@, p) by {
                            assert(values_for(v.resources@, p) == values_for(old_v.resources@, p));
                        }
                        assert forall|p: Seq<char>| #[trigger] values_for(v.literals@, p) matches Some(vs) ==> vs.len() > 0 by {
                            if p != t.predicate@ {
                                assert(values_for(v.literals@, p) == values_for(old_v.literals@, p));
                            }
                        }
                        assert forall|p: Seq<char>| #[trigger] values_for(v.resources@, p) matches Some(vs) ==> vs.len() > 0 by {
                            assert(values_for(v.resources@, p) == values_for(old_v.resources@, p));
                        }
                    }
                },
                RdfObject::Resource(o) => {
                    v.push_resource(t.predicate.clone(), o.clone());
                    proof {
                        assert forall|p: Seq<char>| value_texts(#[trigger] values_for(v.resources@, p)) == resource_values_of(sts.take(i + 1), subject@, p) by {
                            if p == t.predicate@ {
                                match values_for(old_v.resources@, p) {
                                    Some(vs) => {
                                        assert(vs.push(*o).map_values(|x: String| x@) =~= vs.map_values(|x: String| x@).push(o@));
                                    },
                                    None => {
                                        assert(seq![*o].map_values(|x: String| x@) =~= seq![o@]);
                                    },
                                }
                            }
                        }
                        assert forall|p: Seq<char>| value_texts(#[trigger] values_for(v.literals@, p)) == literal_values_of(sts.take(i + 1), subject@, p) by {
                            assert(values_for(v.literals@, p) == values_for(old_v.literals@, p));
                        }
                        assert forall|p: Seq<char>| #[trigger] values_for(v.resources@, p) matches Some(vs) ==> vs.len() > 0 by {
                            if p != t.predicate@ {
                                assert(values_for(v.resources@, p) == values_for(old_v.resources@, p));
                            }
                        }
                        assert forall|p: Seq<char>| #[trigger] values_for(v.literals@, p) matches Some(vs) ==> vs.len() > 0 by {
                            assert(values_for(v.literals@, p) == values_for(old_v.literals@, p));
                        }
                    }
                },
            }
        } else {
            proof {
                assert forall|p: Seq<char>| value_texts(#[trigger] values_for(v.literals@, p)) == literal_values_of(sts.take(i + 1), subject@, p) by {}
                assert forall|p: Seq<char>| value_texts(#[trigger] values_for(v.resources@, p)) == resource_values_of(sts.take(i + 1), subject@, p) by {}
            }
        }
        i = i + 1;
    }
    proof {
        assert(statements(triples@).take(i as int) =~= statements(triples@));
    }
    v
}

/// Whether `e` is the refusal of writing `o`: its validation error when it is
/// invalid, else the refusal of a schema version that is not current.
pub open spec fn object_refusal(o: MemoryObject, e: CustomError) -> bool {
    match object_validation(o) {
        Err(v) => e == CustomError::DomainValidation(v),
        Ok(_) => is_schema_refusal(e, object_schema_version(o), mapping_context(o)),
    }
}

/// Whether `o` can be written: it is valid and carries the current schema version.
pub open spec fn object_writable(o: MemoryObject) -> bool {
    object_validation(o) is Ok && object_schema_version(o) == CURRENT_SCHEMA_VERSION@
}

/// Whether `e` is the refusal of writing link `l`.
pub open spec fn link_refusal(l: MemoryLink, e: CustomError) -> bool {
    match memory_link_validation(l) {
        Err(v) => e == CustomError::DomainValidation(v),
        Ok(_) => is_schema_refusal(e, l.schema_version@, "RDF memory link mapping"),
    }
}

/// Whether link `l` can be written.
pub open spec fn link_writable(l: MemoryLink) -> bool {
    memory_link_validation(l) is Ok && l.schema_version@ == CURRENT_SCHEMA_VERSION@
}

/// Whether `reps` replace, in order, the graph of each object with its record (its
/// salience written as the matching text), then the graph of each link with its record.
pub open spec fn replaces_records(
    reps: Seq<(String, Vec<RdfTriple>)>,
    objs: Seq<MemoryObject>,
    links: Seq<MemoryLink>,
    saliences: Seq<String>,
) -> bool {
    &&& reps.len() == objs.len() + links.len()
    &&& forall|i: int| 0 <= i < objs.len() ==> (#[trigger] reps[i]).0@ == graph_uri_text(object_kind(objs[i]), object_id(objs[i]))
        && statements(reps[i].1@) == object_statements(objs[i], saliences[i]@)
    &&& forall|j: int| 0 <= j < links.len() ==> (#[trigger] reps[objs.len() + j]).0@ == graph_uri_text(ObjectType::MemoryLink, links[j].id)
        && statements(reps[objs.len() + j].1@) == memory_link_statements(links[j])
}

/// The graph replacements that write objects and then links, each owner graph with
/// the triples of its record, in order; `saliences` holds the text the application
/// writes for each object's salience score. Nothing is written unless everything
/// can be: the first object, and then the first link, that is invalid or carries a
/// schema version that is not current refuses the whole write (an invalid item with
/// its validation error).
pub fn graph_replacements(
    objects: &Vec<MemoryObject>,
    links: &Vec<MemoryLink>,
    saliences: &Vec<String>,
) -> (r: Result<Vec<(String, Vec<RdfTriple>)>, CustomError>)
    requires
        saliences@.len() == objects@.len(),
    ensures
        match r {
            Ok(reps) => (forall|i: int| 0 <= i < objects@.len() ==> object_writable(#[trigger] objects@[i]))
                && (forall|j: int| 0 <= j < links@.len() ==> link_writable(#[trigger] links@[j]))
                && replaces_records(reps@, objects@, links@, saliences@),
            Err(e) => (exists|i: int| 0 <= i < objects@.len() && !object_writable(#[trigger] objects@[i])
                && (forall|k: int| 0 <= k < i ==> object_writable(#[trigger] objects@[k])) && object_refusal(objects@[i], e))
                || ((forall|i: int| 0 <= i < objects@.len() ==> object_writable(#[trigger] objects@[i]))
                && exists|j: int| 0 <= j < links@.len() && !link_writable(#[trigger] links@[j])
                && (forall|k: int| 0 <= k < j ==> link_writable(#[trigger] links@[k])) && link_refusal(links@[j], e)),
        },
{
    let mut reps: Vec<(String, Vec<RdfTriple>)> = Vec::new();
    let mut i: usize = 0;
    while i < objects.len()
        invariant
            i <= objects@.len(),
            saliences@.len() == objects@.len(),
            reps@.len() == i,
            forall|k: int| 0 <= k < i ==> object_writable(#[trigger] objects@[k]),
            forall|k: int| 0 <= k < i ==> (#[trigger] reps@[k]).0@ == graph_uri_text(object_kind(objects@[k]), object_id(objects@[k]))
                && statements(reps@[k].1@) == object_statements(objects@[k], saliences@[k]@),
        decreases objects@.len() - i,
    {
        let object = &objects[i];
        match object.validate() {
            Err(v) => {
                return Err(CustomError::DomainValidation(v));
            },
            Ok(()) => {},
        }
        let triples = match rdf_triples_for_object(object, saliences[i].as_str()) {
            Ok(ts) => ts,
            Err(e) => {
                return Err(e);
            },
        };
        let identity = object.object_ref();
        let owner = graph_uri(identity.object_type, identity.id);
        reps.push((owner, triples));
        i = i + 1;
    }
    let mut j: usize = 0;
    while j < links.len()
        invariant
            j <= links@.len(),
            i == objects@.len(),
            saliences@.len() == objects@.len(),
            reps@.len() == i + j,
            forall|k: int| 0 <= k < objects@.len() ==> object_writable(#[trigger] objects@[k]),
            forall|k: int| 0 <= k < j ==> link_writable(#[trigger] links@[k]),
            forall|k: int| 0 <= k < objects@.len() ==> (#[trigger] reps@[k]).0@ == graph_uri_text(object_kind(objects@[k]), object_id(objects@[k]))
                && statements(reps@[k].1@) == object_statements(objects@[k], saliences@[k]@),
            forall|k: int| 0 <= k < j ==> (#[trigger] reps@[objects@.len() + k]).0@ == graph_uri_text(ObjectType::MemoryLink, links@[k].id)
                && statements(reps@[objects@.len() + k].1@) == memory_link_statements(links@[k]),
        decreases links@.len() - j,
    {
        let link = &links[j];
        match link.validate() {
            Err(v) => {
                return Err(CustomError::DomainValidation(v));
            },
            Ok(()) => {},
        }
        let triples = match rdf_triples_for_link(link) {
            Ok(ts) => ts,
            Err(e) => {
                return Err(e);
            },
        };
        let owner = graph_uri(ObjectType::MemoryLink, link.id);
        reps.push((owner, triples));
        proof {
            assert(reps@[objects@.len() + j as int] == reps@[i + j as int]);
        }
        j = j + 1;
    }
    Ok(reps)
}

} // verus!
