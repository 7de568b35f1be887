//! Reading a written graph record back: the values a record's triples give its
//! subject read back as the object that was written, as far as the record keeps it.

use vstd::prelude::*;
use crate::domain::{MemoryId, ObjectType, graph_uri_text, graph_segment_text};
use crate::ids::{hex_digit, hex_digits, uuid_hyphenated, uuid_parse};
use crate::objects::{MemoryObject, DerivedMemory, Episode, SceneSetting, Entity, MemoryLink, MemoryThread, Observation, ScoreBits, Timestamp};
use crate::domain::{derived_type_token, modality_token, object_type_token, relation_type_token, retention_state_token, thread_status_token};
use crate::rdf_read::{
    object_error, object_fields, object_from_rdf,
    bool_literal_result, derived_memory_error, derived_memory_fields,
    episode_error, episode_fields, ids_result, keyed_participants,
    memory_link_error, memory_link_fields,
    observation_error, observation_fields,
    memory_thread_error, memory_thread_fields, score_for,
    entity_error, entity_fields, first_literal, first_resource,
    resource_texts,
};
use crate::rdf_vocabulary::{
    CLASS_DERIVED_MEMORY, DERIVED_TYPE, IS_CURRENT, DERIVED_FROM_EPISODE, DERIVED_FROM_OBSERVATION,
    PART_OF_THREAD, ABOUT_ENTITY, SUPERSEDES,
    CLASS_EPISODE, ENDED_AT, PARTICIPANT_ENTITY, STARTED_AT,
    CLASS_MEMORY_LINK, FROM, FROM_TYPE, RATIONALE, RELATION, TO, TO_TYPE, relation_predicate_text,
    lemma_relation_predicate_shape,
    CLASS_MEMORY_THREAD, CLASS_OBSERVATION, EPISODE, MODALITY, OBSERVED_AT, RAW_REF, RETENTION_STATE, SPEAKER_ENTITY, TEXT,
    CANONICAL_KEY, CREATED_AT, LAST_TOUCHED_AT, OBJECT_ID, SALIENCE_SCORE, SCHEMA_VERSION, SUMMARY,
    THREAD_STATUS, TITLE, UPDATED_AT, lemma_predicate_shapes,
};
use crate::rdf_write::{
    Statement, bool_text, derived_memory_statements, episode_statements, participant_keys, entity_statements, memory_link_statements, memory_thread_statements, optional_text, observation_statements,
    base_statements, literal_statement, resource_statement, optional_literal_statement, optional_time_text, holds_values_of, id_statements, literal_values_of,
    resource_values_of, value_texts,
};
use crate::sparql::{RdfSubjectValues, values_for};
use crate::errors::CustomError;
use crate::sorting::sorted_by_keys;
use crate::sparql_results::{id_keys, last_segment, resource_id_result, resource_ids_result, segment_start};
use crate::timestamps::{YEAR_0_MICROS, YEAR_10000_MICROS, rfc3339_instant, rfc3339_text};

verus! {

/// Whether an instant is a whole second from the year 0 up to the year 10000, the
/// instants its RFC 3339 text keeps exactly.
pub open spec fn whole_second(t: Timestamp) -> bool {
    YEAR_0_MICROS <= t < YEAR_10000_MICROS && t % 1_000_000 == 0
}

/// Whether `uuid` reads the written text of an identity back as the identity.
pub open spec fn id_reads_back(id: MemoryId) -> bool {
    uuid_parse(uuid_hyphenated(id)) == Ok::<MemoryId, Seq<char>>(id)
}

/// Whether `chrono` reads the written text of a whole-second instant back as the instant.
pub open spec fn time_reads_back(t: Timestamp) -> bool {
    whole_second(t) ==> rfc3339_instant(rfc3339_text(t)) == Ok::<Timestamp, Seq<char>>(t)
}

proof fn lemma_literal_values_concat(a: Seq<Statement>, b: Seq<Statement>, s: Seq<char>, p: Seq<char>)
    ensures
        literal_values_of(a + b, s, p) == literal_values_of(a, s, p) + literal_values_of(b, s, p),
    decreases b.len(),
{
    if b.len() == 0 {
        assert(a + b =~= a);
        assert(literal_values_of(a, s, p) + literal_values_of(b, s, p) =~= literal_values_of(a, s, p));
    } else {
        assert((a + b).drop_last() =~= a + b.drop_last());
        assert((a + b).last() == b.last());
        lemma_literal_values_concat(a, b.drop_last(), s, p);
        assert(literal_values_of(a + b, s, p) =~= literal_values_of(a, s, p) + literal_values_of(b, s, p));
    }
}

proof fn lemma_resource_values_concat(a: Seq<Statement>, b: Seq<Statement>, s: Seq<char>, p: Seq<char>)
    ensures
        resource_values_of(a + b, s, p) == resource_values_of(a, s, p) + resource_values_of(b, s, p),
    decreases b.len(),
{
    if b.len() == 0 {
        assert(a + b =~= a);
        assert(resource_values_of(a, s, p) + resource_values_of(b, s, p) =~= resource_values_of(a, s, p));
    } else {
        assert((a + b).drop_last() =~= a + b.drop_last());
        assert((a + b).last() == b.last());
        lemma_resource_values_concat(a, b.drop_last(), s, p);
        assert(resource_values_of(a + b, s, p) =~= resource_values_of(a, s, p) + resource_values_of(b, s, p));
    }
}

/// The graph URIs of identities' objects of type `t`.
pub open spec fn id_uris(t: ObjectType, ids: Seq<MemoryId>) -> Seq<Seq<char>> {
    ids.map_values(|k: MemoryId| graph_uri_text(t, k))
}

#[verifier::spinoff_prover]
#[verifier::rlimit(40)]
proof fn lemma_id_statement_values(s: Seq<char>, q: Seq<char>, t: ObjectType, ids: Seq<MemoryId>, p: Seq<char>)
    ensures
        literal_values_of(id_statements(s, q, t, ids), s, p) == Seq::<Seq<char>>::empty(),
        resource_values_of(id_statements(s, q, t, ids), s, p) == if q == p {
            id_uris(t, ids)
        } else {
            Seq::<Seq<char>>::empty()
        },
    decreases ids.len(),
{
    if ids.len() > 0 {
        assert(id_statements(s, q, t, ids).drop_last() =~= id_statements(s, q, t, ids.drop_last()));
        lemma_id_statement_values(s, q, t, ids.drop_last(), p);
        assert(id_uris(t, ids) =~= id_uris(t, ids.drop_last()).push(graph_uri_text(t, ids.last())));
        assert(literal_values_of(id_statements(s, q, t, ids), s, p) =~= Seq::<Seq<char>>::empty());
    } else {
        assert(id_uris(t, ids) =~= Seq::<Seq<char>>::empty());
        assert(ids =~= Seq::<MemoryId>::empty());
        assert(resource_ids_result(id_uris(t, ids)) == Ok::<Seq<MemoryId>, Seq<char>>(seq![]));
        assert(resource_ids_result(id_uris(t, ids)) == Ok::<Seq<MemoryId>, Seq<char>>(ids));
    }
}

/// What the first literal of a predicate is, from the statements the values hold.
proof fn lemma_first_literal(values: RdfSubjectValues, sts: Seq<Statement>, s: Seq<char>, p: Seq<char>)
    requires
        holds_values_of(values, sts, s),
    ensures
        literal_values_of(sts, s, p).len() == 0 ==> first_literal(values, p) is None,
        literal_values_of(sts, s, p).len() > 0 ==> (first_literal(values, p) matches Some(x) && x@ == literal_values_of(sts, s, p)[0]),
{
    assert(value_texts(values_for(values.literals@, p)) == literal_values_of(sts, s, p));
    match values_for(values.literals@, p) {
        Some(vs) => {
            assert(vs.len() > 0);
            assert(vs.map_values(|v: String| v@)[0] == vs[0]@);
        },
        None => {},
    }
}

/// What the resources of a predicate are, from the statements the values hold.
proof fn lemma_resources(values: RdfSubjectValues, sts: Seq<Statement>, s: Seq<char>, p: Seq<char>)
    requires
        holds_values_of(values, sts, s),
    ensures
        resource_texts(values, p) == resource_values_of(sts, s, p),
        resource_values_of(sts, s, p).len() == 0 ==> first_resource(values, p) is None,
        resource_values_of(sts, s, p).len() > 0 ==> (first_resource(values, p) matches Some(x) && x@ == resource_values_of(sts, s, p)[0]),
{
    assert(value_texts(values_for(values.resources@, p)) == resource_values_of(sts, s, p));
    match values_for(values.resources@, p) {
        Some(vs) => {
            assert(vs.len() > 0);
            assert(vs.map_values(|v: String| v@)[0] == vs[0]@);
        },
        None => {},
    }
}

/// Whether `o` is the entity `e` as its graph record keeps it.
pub open spec fn same_entity(o: Entity, e: Entity) -> bool {
    &&& o.id == e.id
    &&& o.object_type == e.object_type
    &&& o.created_at == e.created_at
    &&& o.schema_version@ == e.schema_version@
}

/// The values an entity's graph record gives its subject read back as the entity.
#[verifier::spinoff_prover]
#[verifier::rlimit(40)]
pub proof fn lemma_entity_reads_back(e: Entity, values: RdfSubjectValues, scores: Seq<(String, ScoreBits)>)
    requires
        e.object_type == ObjectType::Entity,
        whole_second(e.created_at),
        id_reads_back(e.id),
        time_reads_back(e.created_at),
        holds_values_of(values, entity_statements(e), graph_uri_text(ObjectType::Entity, e.id)),
    ensures
        entity_error(graph_uri_text(ObjectType::Entity, e.id), values, scores) is None,
        forall|o: Entity| entity_fields(o, graph_uri_text(ObjectType::Entity, e.id), values, scores) ==> same_entity(o, e),
{
    let s = graph_uri_text(ObjectType::Entity, e.id);
    let sts = entity_statements(e);
    lemma_predicate_shapes();
    reveal_with_fuel(literal_values_of, 7);
    assert(literal_values_of(sts, s, OBJECT_ID@) =~= seq![uuid_hyphenated(e.id)]);
    assert(literal_values_of(sts, s, CREATED_AT@) =~= seq![rfc3339_text(e.created_at)]);
    assert(literal_values_of(sts, s, SCHEMA_VERSION@) =~= seq![e.schema_version@]);
    lemma_first_literal(values, sts, s, OBJECT_ID@);
    lemma_first_literal(values, sts, s, CREATED_AT@);
    lemma_first_literal(values, sts, s, SCHEMA_VERSION@);
}

proof fn lemma_hex_digits_no_colon(v: nat, count: nat)
    ensures
        forall|i: int| 0 <= i < hex_digits(v, count).len() ==> hex_digits(v, count)[i] != ':',
        hex_digits(v, count).len() == count,
    decreases count,
{
    if count > 0 {
        lemma_hex_digits_no_colon(v / 16, (count - 1) as nat);
        let n = (v % 16) as int;
        assert(hex_digit(n) != ':') by {
            if n < 10 {
                assert((('0' as int) + n) as char == (('0' as int) + n) as char);
            }
        }
    }
}

/// The text of an identity holds no `:`.
proof fn lemma_uuid_no_colon(id: MemoryId)
    ensures
        forall|i: int| 0 <= i < uuid_hyphenated(id).len() ==> uuid_hyphenated(id)[i] != ':',
{
    lemma_hex_digits_no_colon(id as nat, 32);
}

proof fn lemma_segment_start_after(pre: Seq<char>, u: Seq<char>, j: int)
    requires
        pre.len() > 0,
        pre.last() == ':',
        forall|i: int| 0 <= i < u.len() ==> u[i] != ':',
        0 <= j <= u.len(),
    ensures
        segment_start(pre + u, pre.len() + j) == pre.len(),
    decreases j,
{
    if j > 0 {
        assert((pre + u)[pre.len() + j - 1] == u[j - 1]);
        lemma_segment_start_after(pre, u, j - 1);
    } else {
        assert((pre + u)[pre.len() - 1] == ':');
    }
}

/// The identity in the graph URI of an object whose identity text reads back.
#[verifier::spinoff_prover]
#[verifier::rlimit(40)]
proof fn lemma_uri_reads_back(t: ObjectType, k: MemoryId)
    requires
        id_reads_back(k),
    ensures
        resource_id_result(graph_uri_text(t, k)) == Ok::<MemoryId, Seq<char>>(k),
{
    reveal_strlit(":");
    let pre = "urn:cmem:"@ + graph_segment_text(t) + ":"@;
    let u = uuid_hyphenated(k);
    assert(graph_uri_text(t, k) == pre + u);
    lemma_uuid_no_colon(k);
    lemma_segment_start_after(pre, u, u.len() as int);
    assert(last_segment(pre + u) =~= u);
}

/// The identities in the graph URIs of objects whose identity texts read back.
proof fn lemma_uris_read_back(t: ObjectType, ids: Seq<MemoryId>)
    requires
        forall|i: int| 0 <= i < ids.len() ==> id_reads_back(#[trigger] ids[i]),
    ensures
        resource_ids_result(id_uris(t, ids)) is Ok,
        resource_ids_result(id_uris(t, ids))->Ok_0 =~= ids,
    decreases ids.len(),
{
    if ids.len() > 0 {
        assert(id_uris(t, ids).drop_last() =~= id_uris(t, ids.drop_last()));
        lemma_uris_read_back(t, ids.drop_last());
        assert(id_reads_back(ids[ids.len() - 1]));
        lemma_uri_reads_back(t, ids.last());
        let vs = id_uris(t, ids);
        assert(vs.len() == ids.len());
        assert(vs.last() == graph_uri_text(t, ids.last()));
        assert(resource_ids_result(vs.drop_last()) == Ok::<Seq<MemoryId>, Seq<char>>(ids.drop_last()));
        assert(resource_id_result(vs.last()) == Ok::<MemoryId, Seq<char>>(ids.last()));
        assert(resource_ids_result(vs) == Ok::<Seq<MemoryId>, Seq<char>>(ids.drop_last().push(ids.last())));
        assert(ids.drop_last().push(ids.last()) =~= ids);
        assert(resource_ids_result(id_uris(t, ids)) == Ok::<Seq<MemoryId>, Seq<char>>(ids));
    } else {
        assert(id_uris(t, ids) =~= Seq::<Seq<char>>::empty());
    }
}

/// Whether `o` is the memory thread `t` as its graph record keeps it.
pub open spec fn same_memory_thread(o: MemoryThread, t: MemoryThread) -> bool {
    &&& o.id == t.id
    &&& o.object_type == t.object_type
    &&& o.title@ == t.title@
    &&& o.summary@ == t.summary@
    &&& thread_status_token(o.status) == thread_status_token(t.status)
    &&& o.last_touched_at == t.last_touched_at
    &&& o.salience_score == t.salience_score
    &&& optional_text(o.canonical_key) == optional_text(t.canonical_key)
    &&& o.created_at == t.created_at
    &&& o.updated_at == t.updated_at
    &&& o.schema_version@ == t.schema_version@
}

/// The part of a memory thread's graph record every thread has.
pub open spec fn memory_thread_fixed(t: MemoryThread, salience: Seq<char>) -> Seq<Statement> {
    let s = graph_uri_text(ObjectType::MemoryThread, t.id);
    base_statements(s, t.id, t.object_type, CLASS_MEMORY_THREAD@, t.schema_version@) + seq![
        literal_statement(s, TITLE@, t.title@),
        literal_statement(s, SUMMARY@, t.summary@),
        literal_statement(s, THREAD_STATUS@, thread_status_token(t.status)),
        literal_statement(s, LAST_TOUCHED_AT@, rfc3339_text(t.last_touched_at)),
        literal_statement(s, SALIENCE_SCORE@, salience),
        literal_statement(s, CREATED_AT@, rfc3339_text(t.created_at)),
        literal_statement(s, UPDATED_AT@, rfc3339_text(t.updated_at)),
    ]
}

#[verifier::spinoff_prover]
#[verifier::rlimit(40)]
proof fn lemma_memory_thread_fixed_values(t: MemoryThread, salience: Seq<char>)
    ensures ({
        let s = graph_uri_text(ObjectType::MemoryThread, t.id);
        let f = memory_thread_fixed(t, salience);
        &&& literal_values_of(f, s, OBJECT_ID@) == seq![uuid_hyphenated(t.id)]
        &&& literal_values_of(f, s, TITLE@) == seq![t.title@]
        &&& literal_values_of(f, s, SUMMARY@) == seq![t.summary@]
        &&& literal_values_of(f, s, THREAD_STATUS@) == seq![thread_status_token(t.status)]
        &&& literal_values_of(f, s, LAST_TOUCHED_AT@) == seq![rfc3339_text(t.last_touched_at)]
        &&& literal_values_of(f, s, CREATED_AT@) == seq![rfc3339_text(t.created_at)]
        &&& literal_values_of(f, s, UPDATED_AT@) == seq![rfc3339_text(t.updated_at)]
        &&& literal_values_of(f, s, SCHEMA_VERSION@) == seq![t.schema_version@]
        &&& literal_values_of(f, s, CANONICAL_KEY@) == Seq::<Seq<char>>::empty()
    }),
{
    let s = graph_uri_text(ObjectType::MemoryThread, t.id);
    let f = memory_thread_fixed(t, salience);
    lemma_predicate_shapes();
    reveal_with_fuel(literal_values_of, 13);
    assert(literal_values_of(f, s, OBJECT_ID@) =~= seq![uuid_hyphenated(t.id)]);
    assert(literal_values_of(f, s, TITLE@) =~= seq![t.title@]);
    assert(literal_values_of(f, s, SUMMARY@) =~= seq![t.summary@]);
    assert(literal_values_of(f, s, THREAD_STATUS@) =~= seq![thread_status_token(t.status)]);
    assert(literal_values_of(f, s, LAST_TOUCHED_AT@) =~= seq![rfc3339_text(t.last_touched_at)]);
    assert(literal_values_of(f, s, CREATED_AT@) =~= seq![rfc3339_text(t.created_at)]);
    assert(literal_values_of(f, s, UPDATED_AT@) =~= seq![rfc3339_text(t.updated_at)]);
    assert(literal_values_of(f, s, SCHEMA_VERSION@) =~= seq![t.schema_version@]);
    assert(literal_values_of(f, s, CANONICAL_KEY@) =~= Seq::<Seq<char>>::empty());
}

/// What the values of a memory thread's record hold, predicate by predicate.
#[verifier::spinoff_prover]
#[verifier::rlimit(40)]
proof fn lemma_memory_thread_values(t: MemoryThread, salience: Seq<char>, values: RdfSubjectValues)
    requires
        holds_values_of(values, memory_thread_statements(t, salience), graph_uri_text(ObjectType::MemoryThread, t.id)),
    ensures
        first_literal(values, OBJECT_ID@) matches Some(x) && x@ == uuid_hyphenated(t.id),
        first_literal(values, TITLE@) matches Some(x) && x@ == t.title@,
        first_literal(values, SUMMARY@) matches Some(x) && x@ == t.summary@,
        first_literal(values, THREAD_STATUS@) matches Some(x) && x@ == thread_status_token(t.status),
        first_literal(values, LAST_TOUCHED_AT@) matches Some(x) && x@ == rfc3339_text(t.last_touched_at),
        first_literal(values, CREATED_AT@) matches Some(x) && x@ == rfc3339_text(t.created_at),
        first_literal(values, UPDATED_AT@) matches Some(x) && x@ == rfc3339_text(t.updated_at),
        first_literal(values, SCHEMA_VERSION@) matches Some(x) && x@ == t.schema_version@,
        optional_text(first_literal(values, CANONICAL_KEY@)) == optional_text(t.canonical_key),
{
    let s = graph_uri_text(ObjectType::MemoryThread, t.id);
    let sts = memory_thread_statements(t, salience);
    let fixed = memory_thread_fixed(t, salience);
    let key = optional_literal_statement(s, CANONICAL_KEY@, optional_text(t.canonical_key));
    assert(sts == fixed + key);
    lemma_memory_thread_fixed_values(t, salience);
    lemma_predicate_shapes();
    reveal_with_fuel(literal_values_of, 2);
    let ps = seq![OBJECT_ID@, TITLE@, SUMMARY@, THREAD_STATUS@, LAST_TOUCHED_AT@, CREATED_AT@, UPDATED_AT@, SCHEMA_VERSION@, CANONICAL_KEY@];
    assert forall|i: int| 0 <= i < ps.len() implies literal_values_of(sts, s, #[trigger] ps[i]) == literal_values_of(fixed, s, ps[i]) + literal_values_of(key, s, ps[i]) by {
        lemma_literal_values_concat(fixed, key, s, ps[i]);
    }
    assert(ps[0] == OBJECT_ID@ && ps[1] == TITLE@ && ps[2] == SUMMARY@ && ps[3] == THREAD_STATUS@ && ps[4] == LAST_TOUCHED_AT@);
    assert(ps[5] == CREATED_AT@ && ps[6] == UPDATED_AT@ && ps[7] == SCHEMA_VERSION@ && ps[8] == CANONICAL_KEY@);
    assert(literal_values_of(sts, s, OBJECT_ID@) =~= seq![uuid_hyphenated(t.id)]);
    assert(literal_values_of(sts, s, TITLE@) =~= seq![t.title@]);
    assert(literal_values_of(sts, s, SUMMARY@) =~= seq![t.summary@]);
    assert(literal_values_of(sts, s, THREAD_STATUS@) =~= seq![thread_status_token(t.status)]);
    assert(literal_values_of(sts, s, LAST_TOUCHED_AT@) =~= seq![rfc3339_text(t.last_touched_at)]);
    assert(literal_values_of(sts, s, CREATED_AT@) =~= seq![rfc3339_text(t.created_at)]);
    assert(literal_values_of(sts, s, UPDATED_AT@) =~= seq![rfc3339_text(t.updated_at)]);
    assert(literal_values_of(sts, s, SCHEMA_VERSION@) =~= seq![t.schema_version@]);
    assert(literal_values_of(sts, s, CANONICAL_KEY@) =~= literal_values_of(key, s, CANONICAL_KEY@));
    lemma_first_literal(values, sts, s, OBJECT_ID@);
    lemma_first_literal(values, sts, s, TITLE@);
    lemma_first_literal(values, sts, s, SUMMARY@);
    lemma_first_literal(values, sts, s, THREAD_STATUS@);
    lemma_first_literal(values, sts, s, LAST_TOUCHED_AT@);
    lemma_first_literal(values, sts, s, CREATED_AT@);
    lemma_first_literal(values, sts, s, UPDATED_AT@);
    lemma_first_literal(values, sts, s, SCHEMA_VERSION@);
    lemma_first_literal(values, sts, s, CANONICAL_KEY@);
}

/// The values a memory thread's graph record gives its subject, with its
/// salience score read back, read back as the thread.
#[verifier::spinoff_prover]
#[verifier::rlimit(40)]
pub(crate) proof fn lemma_memory_thread_reads_back(t: MemoryThread, salience: Seq<char>, values: RdfSubjectValues, scores: Seq<(String, ScoreBits)>)
    requires
        t.object_type == ObjectType::MemoryThread,
        whole_second(t.last_touched_at),
        whole_second(t.created_at),
        whole_second(t.updated_at),
        id_reads_back(t.id),
        time_reads_back(t.last_touched_at),
        time_reads_back(t.created_at),
        time_reads_back(t.updated_at),
        score_for(scores, SALIENCE_SCORE@) == Some(t.salience_score),
        holds_values_of(values, memory_thread_statements(t, salience), graph_uri_text(ObjectType::MemoryThread, t.id)),
    ensures
        memory_thread_error(graph_uri_text(ObjectType::MemoryThread, t.id), values, scores) is None,
        forall|o: MemoryThread| memory_thread_fields(o, graph_uri_text(ObjectType::MemoryThread, t.id), values, scores) ==> same_memory_thread(o, t),
{
    lemma_memory_thread_values(t, salience, values);
}

/// Whether an optional instant, when there is one, is a whole second its text keeps.
pub open spec fn optional_whole_second(t: Option<Timestamp>) -> bool {
    match t {
        Some(x) => whole_second(x),
        None => true,
    }
}

/// Whether an optional instant, when there is one, reads back from its text.
pub open spec fn optional_time_reads_back(t: Option<Timestamp>) -> bool {
    match t {
        Some(x) => time_reads_back(x),
        None => true,
    }
}

/// Whether `o` is the observation `b` as its graph record keeps it.
pub open spec fn same_observation(o: Observation, b: Observation) -> bool {
    &&& o.id == b.id
    &&& o.object_type == b.object_type
    &&& o.episode_id == b.episode_id
    &&& o.speaker_entity_id == b.speaker_entity_id
    &&& o.observed_at == b.observed_at
    &&& modality_token(o.modality) == modality_token(b.modality)
    &&& o.text@ == b.text@
    &&& optional_text(o.raw_ref) == optional_text(b.raw_ref)
    &&& o.salience_score == b.salience_score
    &&& retention_state_token(o.retention_state) == retention_state_token(b.retention_state)
    &&& o.created_at == b.created_at
    &&& o.schema_version@ == b.schema_version@
}

/// The part of an observation's graph record every observation has.
pub open spec fn observation_fixed(b: Observation, salience: Seq<char>) -> Seq<Statement> {
    let s = graph_uri_text(ObjectType::Observation, b.id);
    base_statements(s, b.id, b.object_type, CLASS_OBSERVATION@, b.schema_version@) + seq![
        resource_statement(s, EPISODE@, graph_uri_text(ObjectType::Episode, b.episode_id)),
        literal_statement(s, MODALITY@, modality_token(b.modality)),
        literal_statement(s, TEXT@, b.text@),
        literal_statement(s, SALIENCE_SCORE@, salience),
        literal_statement(s, RETENTION_STATE@, retention_state_token(b.retention_state)),
        literal_statement(s, CREATED_AT@, rfc3339_text(b.created_at)),
    ]
}

#[verifier::spinoff_prover]
#[verifier::rlimit(40)]
proof fn lemma_observation_fixed_values(b: Observation, salience: Seq<char>)
    ensures ({
        let s = graph_uri_text(ObjectType::Observation, b.id);
        let f = observation_fixed(b, salience);
        &&& literal_values_of(f, s, OBJECT_ID@) == seq![uuid_hyphenated(b.id)]
        &&& literal_values_of(f, s, MODALITY@) == seq![modality_token(b.modality)]
        &&& literal_values_of(f, s, TEXT@) == seq![b.text@]
        &&& literal_values_of(f, s, RETENTION_STATE@) == seq![retention_state_token(b.retention_state)]
        &&& literal_values_of(f, s, CREATED_AT@) == seq![rfc3339_text(b.created_at)]
        &&& literal_values_of(f, s, SCHEMA_VERSION@) == seq![b.schema_version@]
        &&& literal_values_of(f, s, OBSERVED_AT@) == Seq::<Seq<char>>::empty()
        &&& literal_values_of(f, s, RAW_REF@) == Seq::<Seq<char>>::empty()
        &&& resource_values_of(f, s, EPISODE@) == seq![graph_uri_text(ObjectType::Episode, b.episode_id)]
        &&& resource_values_of(f, s, SPEAKER_ENTITY@) == Seq::<Seq<char>>::empty()
    }),
{
    let s = graph_uri_text(ObjectType::Observation, b.id);
    let f = observation_fixed(b, salience);
    lemma_predicate_shapes();
    reveal_with_fuel(literal_values_of, 12);
    reveal_with_fuel(resource_values_of, 12);
    assert(literal_values_of(f, s, OBJECT_ID@) =~= seq![uuid_hyphenated(b.id)]);
    assert(literal_values_of(f, s, MODALITY@) =~= seq![modality_token(b.modality)]);
    assert(literal_values_of(f, s, TEXT@) =~= seq![b.text@]);
    assert(literal_values_of(f, s, RETENTION_STATE@) =~= seq![retention_state_token(b.retention_state)]);
    assert(literal_values_of(f, s, CREATED_AT@) =~= seq![rfc3339_text(b.created_at)]);
    assert(literal_values_of(f, s, SCHEMA_VERSION@) =~= seq![b.schema_version@]);
    assert(literal_values_of(f, s, OBSERVED_AT@) =~= Seq::<Seq<char>>::empty());
    assert(literal_values_of(f, s, RAW_REF@) =~= Seq::<Seq<char>>::empty());
    assert(resource_values_of(f, s, EPISODE@) =~= seq![graph_uri_text(ObjectType::Episode, b.episode_id)]);
    assert(resource_values_of(f, s, SPEAKER_ENTITY@) =~= Seq::<Seq<char>>::empty());
}

/// The speaker part of an observation's graph record.
pub open spec fn observation_speaker(b: Observation) -> Seq<Statement> {
    match b.speaker_entity_id {
        Some(k) => seq![resource_statement(graph_uri_text(ObjectType::Observation, b.id), SPEAKER_ENTITY@, graph_uri_text(ObjectType::Entity, k))],
        None => Seq::<Statement>::empty(),
    }
}

proof fn lemma_split4_literal(a: Seq<Statement>, b: Seq<Statement>, c: Seq<Statement>, d: Seq<Statement>, s: Seq<char>, p: Seq<char>)
    ensures
        literal_values_of(a + b + c + d, s, p) == literal_values_of(a, s, p) + literal_values_of(b, s, p) + literal_values_of(c, s, p) + literal_values_of(d, s, p),
        resource_values_of(a + b + c + d, s, p) == resource_values_of(a, s, p) + resource_values_of(b, s, p) + resource_values_of(c, s, p) + resource_values_of(d, s, p),
{
    lemma_literal_values_concat(a + b + c, d, s, p);
    lemma_literal_values_concat(a + b, c, s, p);
    lemma_literal_values_concat(a, b, s, p);
    lemma_resource_values_concat(a + b + c, d, s, p);
    lemma_resource_values_concat(a + b, c, s, p);
    lemma_resource_values_concat(a, b, s, p);
}

/// What the values of an observation's record hold, predicate by predicate.
#[verifier::spinoff_prover]
#[verifier::rlimit(40)]
proof fn lemma_observation_values(b: Observation, salience: Seq<char>, values: RdfSubjectValues)
    requires
        holds_values_of(values, observation_statements(b, salience), graph_uri_text(ObjectType::Observation, b.id)),
    ensures
        first_literal(values, OBJECT_ID@) matches Some(x) && x@ == uuid_hyphenated(b.id),
        first_literal(values, MODALITY@) matches Some(x) && x@ == modality_token(b.modality),
        first_literal(values, TEXT@) matches Some(x) && x@ == b.text@,
        first_literal(values, RETENTION_STATE@) matches Some(x) && x@ == retention_state_token(b.retention_state),
        first_literal(values, CREATED_AT@) matches Some(x) && x@ == rfc3339_text(b.created_at),
        first_literal(values, SCHEMA_VERSION@) matches Some(x) && x@ == b.schema_version@,
        optional_text(first_literal(values, OBSERVED_AT@)) == optional_time_text(b.observed_at),
        optional_text(first_literal(values, RAW_REF@)) == optional_text(b.raw_ref),
        first_resource(values, EPISODE@) matches Some(x) && x@ == graph_uri_text(ObjectType::Episode, b.episode_id),
        optional_text(first_resource(values, SPEAKER_ENTITY@)) == match b.speaker_entity_id {
            Some(k) => Some(graph_uri_text(ObjectType::Entity, k)),
            None => None,
        },
{
    let s = graph_uri_text(ObjectType::Observation, b.id);
    let sts = observation_statements(b, salience);
    let fixed = observation_fixed(b, salience);
    let speaker = observation_speaker(b);
    let observed = optional_literal_statement(s, OBSERVED_AT@, optional_time_text(b.observed_at));
    let raw = optional_literal_statement(s, RAW_REF@, optional_text(b.raw_ref));
    assert(sts == fixed + speaker + observed + raw);
    lemma_observation_fixed_values(b, salience);
    lemma_predicate_shapes();
    reveal_with_fuel(literal_values_of, 2);
    reveal_with_fuel(resource_values_of, 2);
    lemma_split4_literal(fixed, speaker, observed, raw, s, OBJECT_ID@);
    assert(literal_values_of(sts, s, OBJECT_ID@) =~= seq![uuid_hyphenated(b.id)]);
    lemma_split4_literal(fixed, speaker, observed, raw, s, MODALITY@);
    assert(literal_values_of(sts, s, MODALITY@) =~= seq![modality_token(b.modality)]);
    lemma_split4_literal(fixed, speaker, observed, raw, s, TEXT@);
    assert(literal_values_of(sts, s, TEXT@) =~= seq![b.text@]);
    lemma_split4_literal(fixed, speaker, observed, raw, s, RETENTION_STATE@);
    assert(literal_values_of(sts, s, RETENTION_STATE@) =~= seq![retention_state_token(b.retention_state)]);
    lemma_split4_literal(fixed, speaker, observed, raw, s, CREATED_AT@);
    assert(literal_values_of(sts, s, CREATED_AT@) =~= seq![rfc3339_text(b.created_at)]);
    lemma_split4_literal(fixed, speaker, observed, raw, s, SCHEMA_VERSION@);
    assert(literal_values_of(sts, s, SCHEMA_VERSION@) =~= seq![b.schema_version@]);
    lemma_split4_literal(fixed, speaker, observed, raw, s, OBSERVED_AT@);
    assert(literal_values_of(sts, s, OBSERVED_AT@) =~= literal_values_of(observed, s, OBSERVED_AT@));
    lemma_split4_literal(fixed, speaker, observed, raw, s, RAW_REF@);
    assert(literal_values_of(sts, s, RAW_REF@) =~= literal_values_of(raw, s, RAW_REF@));
    lemma_split4_literal(fixed, speaker, observed, raw, s, EPISODE@);
    assert(resource_values_of(sts, s, EPISODE@) =~= seq![graph_uri_text(ObjectType::Episode, b.episode_id)]);
    lemma_split4_literal(fixed, speaker, observed, raw, s, SPEAKER_ENTITY@);
    assert(resource_values_of(sts, s, SPEAKER_ENTITY@) =~= resource_values_of(speaker, s, SPEAKER_ENTITY@));
    lemma_first_literal(values, sts, s, OBJECT_ID@);
    lemma_first_literal(values, sts, s, MODALITY@);
    lemma_first_literal(values, sts, s, TEXT@);
    lemma_first_literal(values, sts, s, RETENTION_STATE@);
    lemma_first_literal(values, sts, s, CREATED_AT@);
    lemma_first_literal(values, sts, s, SCHEMA_VERSION@);
    lemma_first_literal(values, sts, s, OBSERVED_AT@);
    lemma_first_literal(values, sts, s, RAW_REF@);
    lemma_resources(values, sts, s, EPISODE@);
    lemma_resources(values, sts, s, SPEAKER_ENTITY@);
}

/// The values an observation's graph record gives its subject, with its salience
/// score read back, read back as the observation.
#[verifier::spinoff_prover]
#[verifier::rlimit(40)]
pub(crate) proof fn lemma_observation_reads_back(b: Observation, salience: Seq<char>, values: RdfSubjectValues, scores: Seq<(String, ScoreBits)>)
    requires
        b.object_type == ObjectType::Observation,
        whole_second(b.created_at),
        optional_whole_second(b.observed_at),
        optional_time_reads_back(b.observed_at),
        id_reads_back(b.id),
        id_reads_back(b.episode_id),
        b.speaker_entity_id matches Some(k) ==> id_reads_back(k),
        time_reads_back(b.created_at),
        score_for(scores, SALIENCE_SCORE@) == Some(b.salience_score),
        holds_values_of(values, observation_statements(b, salience), graph_uri_text(ObjectType::Observation, b.id)),
    ensures
        observation_error(graph_uri_text(ObjectType::Observation, b.id), values, scores) is None,
        forall|o: Observation| observation_fields(o, graph_uri_text(ObjectType::Observation, b.id), values, scores) ==> same_observation(o, b),
{
    lemma_observation_values(b, salience, values);
    lemma_uri_reads_back(ObjectType::Episode, b.episode_id);
    match b.speaker_entity_id {
        Some(k) => {
            lemma_uri_reads_back(ObjectType::Entity, k);
        },
        None => {},
    }
}

/// Whether `o` is the link `l` as its graph record keeps it.
pub open spec fn same_memory_link(o: MemoryLink, l: MemoryLink) -> bool {
    &&& o.id == l.id
    &&& o.object_type == l.object_type
    &&& o.from_id == l.from_id
    &&& object_type_token(o.from_type) == object_type_token(l.from_type)
    &&& o.to_id == l.to_id
    &&& object_type_token(o.to_type) == object_type_token(l.to_type)
    &&& relation_type_token(o.relation) == relation_type_token(l.relation)
    &&& optional_text(o.rationale) == optional_text(l.rationale)
    &&& o.created_at == l.created_at
    &&& o.schema_version@ == l.schema_version@
}

/// The part of a link's graph record every link has.
pub open spec fn memory_link_fixed(l: MemoryLink) -> Seq<Statement> {
    let s = graph_uri_text(ObjectType::MemoryLink, l.id);
    let from = graph_uri_text(l.from_type, l.from_id);
    let to = graph_uri_text(l.to_type, l.to_id);
    base_statements(s, l.id, ObjectType::MemoryLink, CLASS_MEMORY_LINK@, l.schema_version@) + seq![
        resource_statement(s, FROM@, from),
        literal_statement(s, FROM_TYPE@, object_type_token(l.from_type)),
        resource_statement(s, TO@, to),
        literal_statement(s, TO_TYPE@, object_type_token(l.to_type)),
        literal_statement(s, RELATION@, relation_type_token(l.relation)),
        literal_statement(s, CREATED_AT@, rfc3339_text(l.created_at)),
        resource_statement(from, relation_predicate_text(l.relation), to),
    ]
}

#[verifier::spinoff_prover]
#[verifier::rlimit(40)]
proof fn lemma_memory_link_fixed_values(l: MemoryLink)
    ensures ({
        let s = graph_uri_text(ObjectType::MemoryLink, l.id);
        let f = memory_link_fixed(l);
        &&& literal_values_of(f, s, OBJECT_ID@) == seq![uuid_hyphenated(l.id)]
        &&& literal_values_of(f, s, FROM_TYPE@) == seq![object_type_token(l.from_type)]
        &&& literal_values_of(f, s, TO_TYPE@) == seq![object_type_token(l.to_type)]
        &&& literal_values_of(f, s, RELATION@) == seq![relation_type_token(l.relation)]
        &&& literal_values_of(f, s, CREATED_AT@) == seq![rfc3339_text(l.created_at)]
        &&& literal_values_of(f, s, SCHEMA_VERSION@) == seq![l.schema_version@]
        &&& literal_values_of(f, s, RATIONALE@) == Seq::<Seq<char>>::empty()
        &&& resource_values_of(f, s, FROM@) == seq![graph_uri_text(l.from_type, l.from_id)]
        &&& resource_values_of(f, s, TO@) == seq![graph_uri_text(l.to_type, l.to_id)]
    }),
{
    let s = graph_uri_text(ObjectType::MemoryLink, l.id);
    let f = memory_link_fixed(l);
    lemma_predicate_shapes();
    lemma_relation_predicate_shape(l.relation);
    reveal_with_fuel(literal_values_of, 13);
    reveal_with_fuel(resource_values_of, 13);
    assert(literal_values_of(f, s, OBJECT_ID@) =~= seq![uuid_hyphenated(l.id)]);
    assert(literal_values_of(f, s, FROM_TYPE@) =~= seq![object_type_token(l.from_type)]);
    assert(literal_values_of(f, s, TO_TYPE@) =~= seq![object_type_token(l.to_type)]);
    assert(literal_values_of(f, s, RELATION@) =~= seq![relation_type_token(l.relation)]);
    assert(literal_values_of(f, s, CREATED_AT@) =~= seq![rfc3339_text(l.created_at)]);
    assert(literal_values_of(f, s, SCHEMA_VERSION@) =~= seq![l.schema_version@]);
    assert(literal_values_of(f, s, RATIONALE@) =~= Seq::<Seq<char>>::empty());
    assert(relation_predicate_text(l.relation) != FROM@);
    assert(relation_predicate_text(l.relation) != TO@);
    assert(resource_values_of(f, s, FROM@) =~= seq![graph_uri_text(l.from_type, l.from_id)]);
    assert(resource_values_of(f, s, TO@) =~= seq![graph_uri_text(l.to_type, l.to_id)]);
}

/// What the values of a link's record hold, predicate by predicate.
#[verifier::spinoff_prover]
#[verifier::rlimit(40)]
proof fn lemma_memory_link_values(l: MemoryLink, values: RdfSubjectValues)
    requires
        holds_values_of(values, memory_link_statements(l), graph_uri_text(ObjectType::MemoryLink, l.id)),
    ensures
        first_literal(values, OBJECT_ID@) matches Some(x) && x@ == uuid_hyphenated(l.id),
        first_literal(values, FROM_TYPE@) matches Some(x) && x@ == object_type_token(l.from_type),
        first_literal(values, TO_TYPE@) matches Some(x) && x@ == object_type_token(l.to_type),
        first_literal(values, RELATION@) matches Some(x) && x@ == relation_type_token(l.relation),
        first_literal(values, CREATED_AT@) matches Some(x) && x@ == rfc3339_text(l.created_at),
        first_literal(values, SCHEMA_VERSION@) matches Some(x) && x@ == l.schema_version@,
        optional_text(first_literal(values, RATIONALE@)) == optional_text(l.rationale),
        first_resource(values, FROM@) matches Some(x) && x@ == graph_uri_text(l.from_type, l.from_id),
        first_resource(values, TO@) matches Some(x) && x@ == graph_uri_text(l.to_type, l.to_id),
{
    let s = graph_uri_text(ObjectType::MemoryLink, l.id);
    let sts = memory_link_statements(l);
    let fixed = memory_link_fixed(l);
    let rationale = optional_literal_statement(s, RATIONALE@, optional_text(l.rationale));
    assert(sts == fixed + rationale);
    lemma_memory_link_fixed_values(l);
    lemma_predicate_shapes();
    reveal_with_fuel(literal_values_of, 2);
    reveal_with_fuel(resource_values_of, 2);
    let ps = seq![OBJECT_ID@, FROM_TYPE@, TO_TYPE@, RELATION@, CREATED_AT@, SCHEMA_VERSION@, RATIONALE@, FROM@, TO@];
    assert forall|i: int| 0 <= i < ps.len() implies literal_values_of(sts, s, #[trigger] ps[i]) == literal_values_of(fixed, s, ps[i]) + literal_values_of(rationale, s, ps[i])
        && resource_values_of(sts, s, ps[i]) == resource_values_of(fixed, s, ps[i]) + resource_values_of(rationale, s, ps[i]) by {
        lemma_literal_values_concat(fixed, rationale, s, ps[i]);
        lemma_resource_values_concat(fixed, rationale, s, ps[i]);
    }
    assert(ps[0] == OBJECT_ID@ && ps[1] == FROM_TYPE@ && ps[2] == TO_TYPE@ && ps[3] == RELATION@ && ps[4] == CREATED_AT@);
    assert(ps[5] == SCHEMA_VERSION@ && ps[6] == RATIONALE@ && ps[7] == FROM@ && ps[8] == TO@);
    assert(literal_values_of(sts, s, OBJECT_ID@) =~= seq![uuid_hyphenated(l.id)]);
    assert(literal_values_of(sts, s, FROM_TYPE@) =~= seq![object_type_token(l.from_type)]);
    assert(literal_values_of(sts, s, TO_TYPE@) =~= seq![object_type_token(l.to_type)]);
    assert(literal_values_of(sts, s, RELATION@) =~= seq![relation_type_token(l.relation)]);
    assert(literal_values_of(sts, s, CREATED_AT@) =~= seq![rfc3339_text(l.created_at)]);
    assert(literal_values_of(sts, s, SCHEMA_VERSION@) =~= seq![l.schema_version@]);
    assert(literal_values_of(sts, s, RATIONALE@) =~= literal_values_of(rationale, s, RATIONALE@));
    assert(resource_values_of(sts, s, FROM@) =~= seq![graph_uri_text(l.from_type, l.from_id)]);
    assert(resource_values_of(sts, s, TO@) =~= seq![graph_uri_text(l.to_type, l.to_id)]);
    lemma_first_literal(values, sts, s, OBJECT_ID@);
    lemma_first_literal(values, sts, s, FROM_TYPE@);
    lemma_first_literal(values, sts, s, TO_TYPE@);
    lemma_first_literal(values, sts, s, RELATION@);
    lemma_first_literal(values, sts, s, CREATED_AT@);
    lemma_first_literal(values, sts, s, SCHEMA_VERSION@);
    lemma_first_literal(values, sts, s, RATIONALE@);
    lemma_resources(values, sts, s, FROM@);
    lemma_resources(values, sts, s, TO@);
}

/// The values a link's graph record gives its subject read back as the link.
#[verifier::spinoff_prover]
#[verifier::rlimit(40)]
pub(crate) proof fn lemma_memory_link_reads_back(l: MemoryLink, values: RdfSubjectValues, scores: Seq<(String, ScoreBits)>)
    requires
        l.object_type == ObjectType::MemoryLink,
        whole_second(l.created_at),
        id_reads_back(l.id),
        id_reads_back(l.from_id),
        id_reads_back(l.to_id),
        time_reads_back(l.created_at),
        holds_values_of(values, memory_link_statements(l), graph_uri_text(ObjectType::MemoryLink, l.id)),
    ensures
        memory_link_error(graph_uri_text(ObjectType::MemoryLink, l.id), values, scores) is None,
        forall|o: MemoryLink| memory_link_fields(o, graph_uri_text(ObjectType::MemoryLink, l.id), values, scores) ==> same_memory_link(o, l),
{
    lemma_memory_link_values(l, values);
    lemma_uri_reads_back(l.from_type, l.from_id);
    lemma_uri_reads_back(l.to_type, l.to_id);
}

/// Identities in identity order, as a record's resources read back.
pub open spec fn id_order(ids: Seq<MemoryId>) -> Seq<MemoryId> {
    sorted_by_keys(ids, id_keys(ids))
}

/// Whether every identity's written text reads back as the identity.
pub open spec fn ids_read_back(ids: Seq<MemoryId>) -> bool {
    forall|i: int| 0 <= i < ids.len() ==> id_reads_back(#[trigger] ids[i])
}

/// How an identity list written as resources under `p` reads back from the values.
proof fn lemma_ids_read_back(values: RdfSubjectValues, sts: Seq<Statement>, s: Seq<char>, p: Seq<char>, t: ObjectType, ids: Seq<MemoryId>)
    requires
        holds_values_of(values, sts, s),
        resource_values_of(sts, s, p) == id_uris(t, ids),
        ids_read_back(ids),
    ensures
        ids_result(values, p) == Ok::<Seq<MemoryId>, Seq<char>>(id_order(ids)),
{
    lemma_resources(values, sts, s, p);
    lemma_uris_read_back(t, ids);
    let r = resource_ids_result(id_uris(t, ids))->Ok_0;
    assert(r == ids);
}

/// Whether `o` is the episode `e` as its graph record keeps it: its scene is the
/// start instant and the keyed participants, in identity order.
pub open spec fn same_episode(o: Episode, e: Episode) -> bool {
    &&& o.id == e.id
    &&& o.object_type == e.object_type
    &&& modality_token(o.modality) == modality_token(e.modality)
    &&& o.scene.time == e.scene.time
    &&& o.scene.offset_seconds == 0
    &&& o.scene.participants@ == keyed_participants(id_order(participant_keys(e.scene.participants@)))
    &&& o.scene.setting == (SceneSetting { key: None, words: None })
    &&& o.scene.custom_values@.len() == 0
    &&& o.ended_at == e.ended_at
    &&& o.summary@ == e.summary@
    &&& optional_text(o.raw_ref) == optional_text(e.raw_ref)
    &&& o.salience_score == e.salience_score
    &&& retention_state_token(o.retention_state) == retention_state_token(e.retention_state)
    &&& o.created_at == e.created_at
    &&& o.schema_version@ == e.schema_version@
}

/// The part of an episode's graph record every episode has.
pub open spec fn episode_fixed(e: Episode, salience: Seq<char>) -> Seq<Statement> {
    let s = graph_uri_text(ObjectType::Episode, e.id);
    base_statements(s, e.id, e.object_type, CLASS_EPISODE@, e.schema_version@) + seq![
        literal_statement(s, MODALITY@, modality_token(e.modality)),
        literal_statement(s, SUMMARY@, e.summary@),
        literal_statement(s, SALIENCE_SCORE@, salience),
        literal_statement(s, RETENTION_STATE@, retention_state_token(e.retention_state)),
        literal_statement(s, CREATED_AT@, rfc3339_text(e.created_at)),
        literal_statement(s, STARTED_AT@, rfc3339_text(e.scene.time)),
    ]
}

#[verifier::spinoff_prover]
#[verifier::rlimit(40)]
proof fn lemma_episode_fixed_values(e: Episode, salience: Seq<char>)
    ensures ({
        let s = graph_uri_text(ObjectType::Episode, e.id);
        let f = episode_fixed(e, salience);
        &&& literal_values_of(f, s, OBJECT_ID@) == seq![uuid_hyphenated(e.id)]
        &&& literal_values_of(f, s, MODALITY@) == seq![modality_token(e.modality)]
        &&& literal_values_of(f, s, SUMMARY@) == seq![e.summary@]
        &&& literal_values_of(f, s, RETENTION_STATE@) == seq![retention_state_token(e.retention_state)]
        &&& literal_values_of(f, s, CREATED_AT@) == seq![rfc3339_text(e.created_at)]
        &&& literal_values_of(f, s, STARTED_AT@) == seq![rfc3339_text(e.scene.time)]
        &&& literal_values_of(f, s, SCHEMA_VERSION@) == seq![e.schema_version@]
        &&& literal_values_of(f, s, ENDED_AT@) == Seq::<Seq<char>>::empty()
        &&& literal_values_of(f, s, RAW_REF@) == Seq::<Seq<char>>::empty()
        &&& resource_values_of(f, s, PARTICIPANT_ENTITY@) == Seq::<Seq<char>>::empty()
    }),
{
    let s = graph_uri_text(ObjectType::Episode, e.id);
    let f = episode_fixed(e, salience);
    lemma_predicate_shapes();
    reveal_with_fuel(literal_values_of, 12);
    reveal_with_fuel(resource_values_of, 12);
    assert(literal_values_of(f, s, OBJECT_ID@) =~= seq![uuid_hyphenated(e.id)]);
    assert(literal_values_of(f, s, MODALITY@) =~= seq![modality_token(e.modality)]);
    assert(literal_values_of(f, s, SUMMARY@) =~= seq![e.summary@]);
    assert(literal_values_of(f, s, RETENTION_STATE@) =~= seq![retention_state_token(e.retention_state)]);
    assert(literal_values_of(f, s, CREATED_AT@) =~= seq![rfc3339_text(e.created_at)]);
    assert(literal_values_of(f, s, STARTED_AT@) =~= seq![rfc3339_text(e.scene.time)]);
    assert(literal_values_of(f, s, SCHEMA_VERSION@) =~= seq![e.schema_version@]);
    assert(literal_values_of(f, s, ENDED_AT@) =~= Seq::<Seq<char>>::empty());
    assert(literal_values_of(f, s, RAW_REF@) =~= Seq::<Seq<char>>::empty());
    assert(resource_values_of(f, s, PARTICIPANT_ENTITY@) =~= Seq::<Seq<char>>::empty());
}

/// What the values of an episode's record hold, predicate by predicate.
#[verifier::spinoff_prover]
#[verifier::rlimit(40)]
proof fn lemma_episode_values(e: Episode, salience: Seq<char>, values: RdfSubjectValues)
    requires
        holds_values_of(values, episode_statements(e, salience), graph_uri_text(ObjectType::Episode, e.id)),
    ensures
        first_literal(values, OBJECT_ID@) matches Some(x) && x@ == uuid_hyphenated(e.id),
        first_literal(values, MODALITY@) matches Some(x) && x@ == modality_token(e.modality),
        first_literal(values, SUMMARY@) matches Some(x) && x@ == e.summary@,
        first_literal(values, RETENTION_STATE@) matches Some(x) && x@ == retention_state_token(e.retention_state),
        first_literal(values, CREATED_AT@) matches Some(x) && x@ == rfc3339_text(e.created_at),
        first_literal(values, STARTED_AT@) matches Some(x) && x@ == rfc3339_text(e.scene.time),
        first_literal(values, SCHEMA_VERSION@) matches Some(x) && x@ == e.schema_version@,
        optional_text(first_literal(values, ENDED_AT@)) == optional_time_text(e.ended_at),
        optional_text(first_literal(values, RAW_REF@)) == optional_text(e.raw_ref),
        resource_values_of(episode_statements(e, salience), graph_uri_text(ObjectType::Episode, e.id), PARTICIPANT_ENTITY@)
            == id_uris(ObjectType::Entity, participant_keys(e.scene.participants@)),
{
    let s = graph_uri_text(ObjectType::Episode, e.id);
    let sts = episode_statements(e, salience);
    let fixed = episode_fixed(e, salience);
    let ended = optional_literal_statement(s, ENDED_AT@, optional_time_text(e.ended_at));
    let raw = optional_literal_statement(s, RAW_REF@, optional_text(e.raw_ref));
    let keys = participant_keys(e.scene.participants@);
    let people = id_statements(s, PARTICIPANT_ENTITY@, ObjectType::Entity, keys);
    assert(sts == fixed + ended + raw + people);
    lemma_episode_fixed_values(e, salience);
    lemma_predicate_shapes();
    reveal_with_fuel(literal_values_of, 2);
    reveal_with_fuel(resource_values_of, 2);
    let ps = seq![OBJECT_ID@, MODALITY@, SUMMARY@, RETENTION_STATE@, CREATED_AT@, STARTED_AT@, SCHEMA_VERSION@, ENDED_AT@, RAW_REF@, PARTICIPANT_ENTITY@];
    assert forall|i: int| 0 <= i < ps.len() implies literal_values_of(sts, s, #[trigger] ps[i]) == literal_values_of(fixed, s, ps[i]) + literal_values_of(ended, s, ps[i]) + literal_values_of(raw, s, ps[i])
        && resource_values_of(sts, s, ps[i]) == resource_values_of(fixed, s, ps[i]) + resource_values_of(ended, s, ps[i]) + resource_values_of(raw, s, ps[i]) + resource_values_of(people, s, ps[i]) by {
        lemma_split4_literal(fixed, ended, raw, people, s, ps[i]);
        lemma_id_statement_values(s, PARTICIPANT_ENTITY@, ObjectType::Entity, keys, ps[i]);
        assert(literal_values_of(fixed, s, ps[i]) + literal_values_of(ended, s, ps[i]) + literal_values_of(raw, s, ps[i]) + Seq::<Seq<char>>::empty()
            =~= literal_values_of(fixed, s, ps[i]) + literal_values_of(ended, s, ps[i]) + literal_values_of(raw, s, ps[i]));
    }
    assert(ps[0] == OBJECT_ID@ && ps[1] == MODALITY@ && ps[2] == SUMMARY@ && ps[3] == RETENTION_STATE@ && ps[4] == CREATED_AT@);
    assert(ps[5] == STARTED_AT@ && ps[6] == SCHEMA_VERSION@ && ps[7] == ENDED_AT@ && ps[8] == RAW_REF@ && ps[9] == PARTICIPANT_ENTITY@);
    assert(literal_values_of(sts, s, OBJECT_ID@) =~= seq![uuid_hyphenated(e.id)]);
    assert(literal_values_of(sts, s, MODALITY@) =~= seq![modality_token(e.modality)]);
    assert(literal_values_of(sts, s, SUMMARY@) =~= seq![e.summary@]);
    assert(literal_values_of(sts, s, RETENTION_STATE@) =~= seq![retention_state_token(e.retention_state)]);
    assert(literal_values_of(sts, s, CREATED_AT@) =~= seq![rfc3339_text(e.created_at)]);
    assert(literal_values_of(sts, s, STARTED_AT@) =~= seq![rfc3339_text(e.scene.time)]);
    assert(literal_values_of(sts, s, SCHEMA_VERSION@) =~= seq![e.schema_version@]);
    assert(literal_values_of(sts, s, ENDED_AT@) =~= literal_values_of(ended, s, ENDED_AT@));
    assert(literal_values_of(sts, s, RAW_REF@) =~= literal_values_of(raw, s, RAW_REF@));
    lemma_id_statement_values(s, PARTICIPANT_ENTITY@, ObjectType::Entity, keys, PARTICIPANT_ENTITY@);
    assert(resource_values_of(sts, s, PARTICIPANT_ENTITY@) =~= id_uris(ObjectType::Entity, keys));
    lemma_first_literal(values, sts, s, OBJECT_ID@);
    lemma_first_literal(values, sts, s, MODALITY@);
    lemma_first_literal(values, sts, s, SUMMARY@);
    lemma_first_literal(values, sts, s, RETENTION_STATE@);
    lemma_first_literal(values, sts, s, CREATED_AT@);
    lemma_first_literal(values, sts, s, STARTED_AT@);
    lemma_first_literal(values, sts, s, SCHEMA_VERSION@);
    lemma_first_literal(values, sts, s, ENDED_AT@);
    lemma_first_literal(values, sts, s, RAW_REF@);
}

/// The values an episode's graph record gives its subject, with its salience score
/// read back, read back as the episode.
#[verifier::spinoff_prover]
#[verifier::rlimit(40)]
pub(crate) proof fn lemma_episode_reads_back(e: Episode, salience: Seq<char>, values: RdfSubjectValues, scores: Seq<(String, ScoreBits)>)
    requires
        e.object_type == ObjectType::Episode,
        whole_second(e.created_at),
        whole_second(e.scene.time),
        optional_whole_second(e.ended_at),
        optional_time_reads_back(e.ended_at),
        id_reads_back(e.id),
        ids_read_back(participant_keys(e.scene.participants@)),
        time_reads_back(e.created_at),
        time_reads_back(e.scene.time),
        score_for(scores, SALIENCE_SCORE@) == Some(e.salience_score),
        holds_values_of(values, episode_statements(e, salience), graph_uri_text(ObjectType::Episode, e.id)),
    ensures
        episode_error(graph_uri_text(ObjectType::Episode, e.id), values, scores) is None,
        forall|o: Episode| episode_fields(o, graph_uri_text(ObjectType::Episode, e.id), values, scores) ==> same_episode(o, e),
{
    lemma_episode_values(e, salience, values);
    lemma_ids_read_back(values, episode_statements(e, salience), graph_uri_text(ObjectType::Episode, e.id), PARTICIPANT_ENTITY@, ObjectType::Entity, participant_keys(e.scene.participants@));
}

/// Whether `o` is the derived memory `m` as its graph record keeps it: its
/// identity lists in identity order, with no belief assertions and not given by
/// the application.
pub open spec fn same_derived_memory(o: DerivedMemory, m: DerivedMemory) -> bool {
    &&& o.id == m.id
    &&& o.object_type == m.object_type
    &&& derived_type_token(o.derived_type) == derived_type_token(m.derived_type)
    &&& o.text@ == m.text@
    &&& o.derived_from_episode_ids@ == id_order(m.derived_from_episode_ids@)
    &&& o.derived_from_observation_ids@ == id_order(m.derived_from_observation_ids@)
    &&& o.thread_ids@ == id_order(m.thread_ids@)
    &&& o.entity_ids@ == id_order(m.entity_ids@)
    &&& o.assertions@.len() == 0
    &&& !o.given_by_application
    &&& o.salience_score == m.salience_score
    &&& o.is_current == m.is_current
    &&& o.supersedes@ == id_order(m.supersedes@)
    &&& retention_state_token(o.retention_state) == retention_state_token(m.retention_state)
    &&& o.created_at == m.created_at
    &&& o.updated_at == m.updated_at
    &&& o.schema_version@ == m.schema_version@
}

/// The part of a derived memory's graph record every derived memory has.
pub open spec fn derived_memory_fixed(m: DerivedMemory, salience: Seq<char>) -> Seq<Statement> {
    let s = graph_uri_text(ObjectType::DerivedMemory, m.id);
    base_statements(s, m.id, m.object_type, CLASS_DERIVED_MEMORY@, m.schema_version@) + seq![
        literal_statement(s, DERIVED_TYPE@, derived_type_token(m.derived_type)),
        literal_statement(s, TEXT@, m.text@),
        literal_statement(s, SALIENCE_SCORE@, salience),
        literal_statement(s, IS_CURRENT@, bool_text(m.is_current)),
        literal_statement(s, RETENTION_STATE@, retention_state_token(m.retention_state)),
        literal_statement(s, CREATED_AT@, rfc3339_text(m.created_at)),
        literal_statement(s, UPDATED_AT@, rfc3339_text(m.updated_at)),
    ]
}

#[verifier::spinoff_prover]
#[verifier::rlimit(40)]
proof fn lemma_derived_memory_fixed_values(m: DerivedMemory, salience: Seq<char>)
    ensures ({
        let s = graph_uri_text(ObjectType::DerivedMemory, m.id);
        let f = derived_memory_fixed(m, salience);
        &&& literal_values_of(f, s, OBJECT_ID@) == seq![uuid_hyphenated(m.id)]
        &&& literal_values_of(f, s, DERIVED_TYPE@) == seq![derived_type_token(m.derived_type)]
        &&& literal_values_of(f, s, TEXT@) == seq![m.text@]
        &&& literal_values_of(f, s, IS_CURRENT@) == seq![bool_text(m.is_current)]
        &&& literal_values_of(f, s, RETENTION_STATE@) == seq![retention_state_token(m.retention_state)]
        &&& literal_values_of(f, s, CREATED_AT@) == seq![rfc3339_text(m.created_at)]
        &&& literal_values_of(f, s, UPDATED_AT@) == seq![rfc3339_text(m.updated_at)]
        &&& literal_values_of(f, s, SCHEMA_VERSION@) == seq![m.schema_version@]
        &&& resource_values_of(f, s, DERIVED_FROM_EPISODE@) == Seq::<Seq<char>>::empty()
        &&& resource_values_of(f, s, DERIVED_FROM_OBSERVATION@) == Seq::<Seq<char>>::empty()
        &&& resource_values_of(f, s, PART_OF_THREAD@) == Seq::<Seq<char>>::empty()
        &&& resource_values_of(f, s, ABOUT_ENTITY@) == Seq::<Seq<char>>::empty()
        &&& resource_values_of(f, s, SUPERSEDES@) == Seq::<Seq<char>>::empty()
    }),
{
    let s = graph_uri_text(ObjectType::DerivedMemory, m.id);
    let f = derived_memory_fixed(m, salience);
    lemma_predicate_shapes();
    reveal_with_fuel(literal_values_of, 13);
    reveal_with_fuel(resource_values_of, 13);
    assert(literal_values_of(f, s, OBJECT_ID@) =~= seq![uuid_hyphenated(m.id)]);
    assert(literal_values_of(f, s, DERIVED_TYPE@) =~= seq![derived_type_token(m.derived_type)]);
    assert(literal_values_of(f, s, TEXT@) =~= seq![m.text@]);
    assert(literal_values_of(f, s, IS_CURRENT@) =~= seq![bool_text(m.is_current)]);
    assert(literal_values_of(f, s, RETENTION_STATE@) =~= seq![retention_state_token(m.retention_state)]);
    assert(literal_values_of(f, s, CREATED_AT@) =~= seq![rfc3339_text(m.created_at)]);
    assert(literal_values_of(f, s, UPDATED_AT@) =~= seq![rfc3339_text(m.updated_at)]);
    assert(literal_values_of(f, s, SCHEMA_VERSION@) =~= seq![m.schema_version@]);
    assert(resource_values_of(f, s, DERIVED_FROM_EPISODE@) =~= Seq::<Seq<char>>::empty());
    assert(resource_values_of(f, s, DERIVED_FROM_OBSERVATION@) =~= Seq::<Seq<char>>::empty());
    assert(resource_values_of(f, s, PART_OF_THREAD@) =~= Seq::<Seq<char>>::empty());
    assert(resource_values_of(f, s, ABOUT_ENTITY@) =~= Seq::<Seq<char>>::empty());
    assert(resource_values_of(f, s, SUPERSEDES@) =~= Seq::<Seq<char>>::empty());
}

/// The identity-list part of a derived memory's graph record.
pub open spec fn derived_memory_lists(m: DerivedMemory) -> Seq<Statement> {
    let s = graph_uri_text(ObjectType::DerivedMemory, m.id);
    id_statements(s, DERIVED_FROM_EPISODE@, ObjectType::Episode, m.derived_from_episode_ids@)
        + id_statements(s, DERIVED_FROM_OBSERVATION@, ObjectType::Observation, m.derived_from_observation_ids@)
        + id_statements(s, PART_OF_THREAD@, ObjectType::MemoryThread, m.thread_ids@)
        + id_statements(s, ABOUT_ENTITY@, ObjectType::Entity, m.entity_ids@)
        + id_statements(s, SUPERSEDES@, ObjectType::DerivedMemory, m.supersedes@)
}

#[verifier::spinoff_prover]
#[verifier::rlimit(40)]
proof fn lemma_derived_memory_list_values(m: DerivedMemory, p: Seq<char>)
    ensures ({
        let s = graph_uri_text(ObjectType::DerivedMemory, m.id);
        let l = derived_memory_lists(m);
        &&& literal_values_of(l, s, p) == Seq::<Seq<char>>::empty()
        &&& p == DERIVED_FROM_EPISODE@ ==> resource_values_of(l, s, p) == id_uris(ObjectType::Episode, m.derived_from_episode_ids@)
        &&& p == DERIVED_FROM_OBSERVATION@ ==> resource_values_of(l, s, p) == id_uris(ObjectType::Observation, m.derived_from_observation_ids@)
        &&& p == PART_OF_THREAD@ ==> resource_values_of(l, s, p) == id_uris(ObjectType::MemoryThread, m.thread_ids@)
        &&& p == ABOUT_ENTITY@ ==> resource_values_of(l, s, p) == id_uris(ObjectType::Entity, m.entity_ids@)
        &&& p == SUPERSEDES@ ==> resource_values_of(l, s, p) == id_uris(ObjectType::DerivedMemory, m.supersedes@)
    }),
{
    let s = graph_uri_text(ObjectType::DerivedMemory, m.id);
    let a = id_statements(s, DERIVED_FROM_EPISODE@, ObjectType::Episode, m.derived_from_episode_ids@);
    let b = id_statements(s, DERIVED_FROM_OBSERVATION@, ObjectType::Observation, m.derived_from_observation_ids@);
    let c = id_statements(s, PART_OF_THREAD@, ObjectType::MemoryThread, m.thread_ids@);
    let d = id_statements(s, ABOUT_ENTITY@, ObjectType::Entity, m.entity_ids@);
    let e = id_statements(s, SUPERSEDES@, ObjectType::DerivedMemory, m.supersedes@);
    lemma_split4_literal(a, b, c, d, s, p);
    lemma_literal_values_concat(a + b + c + d, e, s, p);
    lemma_resource_values_concat(a + b + c + d, e, s, p);
    lemma_id_statement_values(s, DERIVED_FROM_EPISODE@, ObjectType::Episode, m.derived_from_episode_ids@, p);
    lemma_id_statement_values(s, DERIVED_FROM_OBSERVATION@, ObjectType::Observation, m.derived_from_observation_ids@, p);
    lemma_id_statement_values(s, PART_OF_THREAD@, ObjectType::MemoryThread, m.thread_ids@, p);
    lemma_id_statement_values(s, ABOUT_ENTITY@, ObjectType::Entity, m.entity_ids@, p);
    lemma_id_statement_values(s, SUPERSEDES@, ObjectType::DerivedMemory, m.supersedes@, p);
    lemma_predicate_shapes();
    let z = Seq::<Seq<char>>::empty();
    assert(z + z + z + z + z =~= z);
    assert(literal_values_of(derived_memory_lists(m), s, p) =~= z);
    if p == DERIVED_FROM_EPISODE@ {
        assert(resource_values_of(derived_memory_lists(m), s, p) =~= id_uris(ObjectType::Episode, m.derived_from_episode_ids@));
    }
    if p == DERIVED_FROM_OBSERVATION@ {
        assert(resource_values_of(derived_memory_lists(m), s, p) =~= id_uris(ObjectType::Observation, m.derived_from_observation_ids@));
    }
    if p == PART_OF_THREAD@ {
        assert(resource_values_of(derived_memory_lists(m), s, p) =~= id_uris(ObjectType::MemoryThread, m.thread_ids@));
    }
    if p == ABOUT_ENTITY@ {
        assert(resource_values_of(derived_memory_lists(m), s, p) =~= id_uris(ObjectType::Entity, m.entity_ids@));
    }
    if p == SUPERSEDES@ {
        assert(resource_values_of(derived_memory_lists(m), s, p) =~= id_uris(ObjectType::DerivedMemory, m.supersedes@));
    }
}

/// What the values of a derived memory's record hold, predicate by predicate.
#[verifier::spinoff_prover]
#[verifier::rlimit(40)]
proof fn lemma_derived_memory_values(m: DerivedMemory, salience: Seq<char>, values: RdfSubjectValues)
    requires
        holds_values_of(values, derived_memory_statements(m, salience), graph_uri_text(ObjectType::DerivedMemory, m.id)),
    ensures
        first_literal(values, OBJECT_ID@) matches Some(x) && x@ == uuid_hyphenated(m.id),
        first_literal(values, DERIVED_TYPE@) matches Some(x) && x@ == derived_type_token(m.derived_type),
        first_literal(values, TEXT@) matches Some(x) && x@ == m.text@,
        first_literal(values, IS_CURRENT@) matches Some(x) && x@ == bool_text(m.is_current),
        first_literal(values, RETENTION_STATE@) matches Some(x) && x@ == retention_state_token(m.retention_state),
        first_literal(values, CREATED_AT@) matches Some(x) && x@ == rfc3339_text(m.created_at),
        first_literal(values, UPDATED_AT@) matches Some(x) && x@ == rfc3339_text(m.updated_at),
        first_literal(values, SCHEMA_VERSION@) matches Some(x) && x@ == m.schema_version@,
        ({
            let s = graph_uri_text(ObjectType::DerivedMemory, m.id);
            let sts = derived_memory_statements(m, salience);
            &&& resource_values_of(sts, s, DERIVED_FROM_EPISODE@) == id_uris(ObjectType::Episode, m.derived_from_episode_ids@)
            &&& resource_values_of(sts, s, DERIVED_FROM_OBSERVATION@) == id_uris(ObjectType::Observation, m.derived_from_observation_ids@)
            &&& resource_values_of(sts, s, PART_OF_THREAD@) == id_uris(ObjectType::MemoryThread, m.thread_ids@)
            &&& resource_values_of(sts, s, ABOUT_ENTITY@) == id_uris(ObjectType::Entity, m.entity_ids@)
            &&& resource_values_of(sts, s, SUPERSEDES@) == id_uris(ObjectType::DerivedMemory, m.supersedes@)
        }),
{
    let s = graph_uri_text(ObjectType::DerivedMemory, m.id);
    let sts = derived_memory_statements(m, salience);
    let fixed = derived_memory_fixed(m, salience);
    let lists = derived_memory_lists(m);
    assert(sts =~= fixed + lists);
    lemma_derived_memory_fixed_values(m, salience);
    assert(literal_values_of(sts, s, OBJECT_ID@) == literal_values_of(fixed, s, OBJECT_ID@)) by {
        lemma_literal_values_concat(fixed, lists, s, OBJECT_ID@);
        lemma_derived_memory_list_values(m, OBJECT_ID@);
        assert(literal_values_of(fixed, s, OBJECT_ID@) + Seq::<Seq<char>>::empty() =~= literal_values_of(fixed, s, OBJECT_ID@));
    }
    assert(literal_values_of(sts, s, DERIVED_TYPE@) == literal_values_of(fixed, s, DERIVED_TYPE@)) by {
        lemma_literal_values_concat(fixed, lists, s, DERIVED_TYPE@);
        lemma_derived_memory_list_values(m, DERIVED_TYPE@);
        assert(literal_values_of(fixed, s, DERIVED_TYPE@) + Seq::<Seq<char>>::empty() =~= literal_values_of(fixed, s, DERIVED_TYPE@));
    }
    assert(literal_values_of(sts, s, TEXT@) == literal_values_of(fixed, s, TEXT@)) by {
        lemma_literal_values_concat(fixed, lists, s, TEXT@);
        lemma_derived_memory_list_values(m, TEXT@);
        assert(literal_values_of(fixed, s, TEXT@) + Seq::<Seq<char>>::empty() =~= literal_values_of(fixed, s, TEXT@));
    }
    assert(literal_values_of(sts, s, IS_CURRENT@) == literal_values_of(fixed, s, IS_CURRENT@)) by {
        lemma_literal_values_concat(fixed, lists, s, IS_CURRENT@);
        lemma_derived_memory_list_values(m, IS_CURRENT@);
        assert(literal_values_of(fixed, s, IS_CURRENT@) + Seq::<Seq<char>>::empty() =~= literal_values_of(fixed, s, IS_CURRENT@));
    }
    assert(literal_values_of(sts, s, RETENTION_STATE@) == literal_values_of(fixed, s, RETENTION_STATE@)) by {
        lemma_literal_values_concat(fixed, lists, s, RETENTION_STATE@);
        lemma_derived_memory_list_values(m, RETENTION_STATE@);
        assert(literal_values_of(fixed, s, RETENTION_STATE@) + Seq::<Seq<char>>::empty() =~= literal_values_of(fixed, s, RETENTION_STATE@));
    }
    assert(literal_values_of(sts, s, CREATED_AT@) == literal_values_of(fixed, s, CREATED_AT@)) by {
        lemma_literal_values_concat(fixed, lists, s, CREATED_AT@);
        lemma_derived_memory_list_values(m, CREATED_AT@);
        assert(literal_values_of(fixed, s, CREATED_AT@) + Seq::<Seq<char>>::empty() =~= literal_values_of(fixed, s, CREATED_AT@));
    }
    assert(literal_values_of(sts, s, UPDATED_AT@) == literal_values_of(fixed, s, UPDATED_AT@)) by {
        lemma_literal_values_concat(fixed, lists, s, UPDATED_AT@);
        lemma_derived_memory_list_values(m, UPDATED_AT@);
        assert(literal_values_of(fixed, s, UPDATED_AT@) + Seq::<Seq<char>>::empty() =~= literal_values_of(fixed, s, UPDATED_AT@));
    }
    assert(literal_values_of(sts, s, SCHEMA_VERSION@) == literal_values_of(fixed, s, SCHEMA_VERSION@)) by {
        lemma_literal_values_concat(fixed, lists, s, SCHEMA_VERSION@);
        lemma_derived_memory_list_values(m, SCHEMA_VERSION@);
        assert(literal_values_of(fixed, s, SCHEMA_VERSION@) + Seq::<Seq<char>>::empty() =~= literal_values_of(fixed, s, SCHEMA_VERSION@));
    }
    assert(resource_values_of(sts, s, DERIVED_FROM_EPISODE@) == resource_values_of(lists, s, DERIVED_FROM_EPISODE@)) by {
        lemma_resource_values_concat(fixed, lists, s, DERIVED_FROM_EPISODE@);
        assert(Seq::<Seq<char>>::empty() + resource_values_of(lists, s, DERIVED_FROM_EPISODE@) =~= resource_values_of(lists, s, DERIVED_FROM_EPISODE@));
    }
    assert(resource_values_of(sts, s, DERIVED_FROM_OBSERVATION@) == resource_values_of(lists, s, DERIVED_FROM_OBSERVATION@)) by {
        lemma_resource_values_concat(fixed, lists, s, DERIVED_FROM_OBSERVATION@);
        assert(Seq::<Seq<char>>::empty() + resource_values_of(lists, s, DERIVED_FROM_OBSERVATION@) =~= resource_values_of(lists, s, DERIVED_FROM_OBSERVATION@));
    }
    assert(resource_values_of(sts, s, PART_OF_THREAD@) == resource_values_of(lists, s, PART_OF_THREAD@)) by {
        lemma_resource_values_concat(fixed, lists, s, PART_OF_THREAD@);
        assert(Seq::<Seq<char>>::empty() + resource_values_of(lists, s, PART_OF_THREAD@) =~= resource_values_of(lists, s, PART_OF_THREAD@));
    }
    assert(resource_values_of(sts, s, ABOUT_ENTITY@) == resource_values_of(lists, s, ABOUT_ENTITY@)) by {
        lemma_resource_values_concat(fixed, lists, s, ABOUT_ENTITY@);
        assert(Seq::<Seq<char>>::empty() + resource_values_of(lists, s, ABOUT_ENTITY@) =~= resource_values_of(lists, s, ABOUT_ENTITY@));
    }
    assert(resource_values_of(sts, s, SUPERSEDES@) == resource_values_of(lists, s, SUPERSEDES@)) by {
        lemma_resource_values_concat(fixed, lists, s, SUPERSEDES@);
        assert(Seq::<Seq<char>>::empty() + resource_values_of(lists, s, SUPERSEDES@) =~= resource_values_of(lists, s, SUPERSEDES@));
    }
    lemma_derived_memory_list_values(m, DERIVED_FROM_EPISODE@);
    lemma_derived_memory_list_values(m, DERIVED_FROM_OBSERVATION@);
    lemma_derived_memory_list_values(m, PART_OF_THREAD@);
    lemma_derived_memory_list_values(m, ABOUT_ENTITY@);
    lemma_derived_memory_list_values(m, SUPERSEDES@);
    lemma_first_literal(values, sts, s, OBJECT_ID@);
    lemma_first_literal(values, sts, s, DERIVED_TYPE@);
    lemma_first_literal(values, sts, s, TEXT@);
    lemma_first_literal(values, sts, s, IS_CURRENT@);
    lemma_first_literal(values, sts, s, RETENTION_STATE@);
    lemma_first_literal(values, sts, s, CREATED_AT@);
    lemma_first_literal(values, sts, s, UPDATED_AT@);
    lemma_first_literal(values, sts, s, SCHEMA_VERSION@);
}

/// The values a derived memory's graph record gives its subject, with its salience
/// score read back, read back as the derived memory.
#[verifier::spinoff_prover]
#[verifier::rlimit(40)]
pub(crate) proof fn lemma_derived_memory_reads_back(m: DerivedMemory, salience: Seq<char>, values: RdfSubjectValues, scores: Seq<(String, ScoreBits)>)
    requires
        m.object_type == ObjectType::DerivedMemory,
        whole_second(m.created_at),
        whole_second(m.updated_at),
        id_reads_back(m.id),
        ids_read_back(m.derived_from_episode_ids@),
        ids_read_back(m.derived_from_observation_ids@),
        ids_read_back(m.thread_ids@),
        ids_read_back(m.entity_ids@),
        ids_read_back(m.supersedes@),
        time_reads_back(m.created_at),
        time_reads_back(m.updated_at),
        score_for(scores, SALIENCE_SCORE@) == Some(m.salience_score),
        holds_values_of(values, derived_memory_statements(m, salience), graph_uri_text(ObjectType::DerivedMemory, m.id)),
    ensures
        derived_memory_error(graph_uri_text(ObjectType::DerivedMemory, m.id), values, scores) is None,
        forall|o: DerivedMemory| derived_memory_fields(o, graph_uri_text(ObjectType::DerivedMemory, m.id), values, scores) ==> same_derived_memory(o, m),
{
    let s = graph_uri_text(ObjectType::DerivedMemory, m.id);
    let sts = derived_memory_statements(m, salience);
    lemma_derived_memory_values(m, salience, values);
    lemma_ids_read_back(values, sts, s, DERIVED_FROM_EPISODE@, ObjectType::Episode, m.derived_from_episode_ids@);
    lemma_ids_read_back(values, sts, s, DERIVED_FROM_OBSERVATION@, ObjectType::Observation, m.derived_from_observation_ids@);
    lemma_ids_read_back(values, sts, s, PART_OF_THREAD@, ObjectType::MemoryThread, m.thread_ids@);
    lemma_ids_read_back(values, sts, s, ABOUT_ENTITY@, ObjectType::Entity, m.entity_ids@);
    lemma_ids_read_back(values, sts, s, SUPERSEDES@, ObjectType::DerivedMemory, m.supersedes@);
    reveal_strlit("true");
    reveal_strlit("false");
    assert("true"@.len() != "false"@.len());
    assert(bool_literal_result(s, values, IS_CURRENT@) == Ok::<bool, Seq<char>>(m.is_current));
    assert forall|o: DerivedMemory| derived_memory_fields(o, s, values, scores) implies same_derived_memory(o, m) by {
        assert(o.id == m.id);
        assert(o.derived_from_episode_ids@ == id_order(m.derived_from_episode_ids@));
        assert(o.is_current == m.is_current);
        assert(o.supersedes@ == id_order(m.supersedes@));
    }
}

/// The type an object is stored under.
pub open spec fn object_kind(m: MemoryObject) -> ObjectType {
    match m {
        MemoryObject::Episode(_) => ObjectType::Episode,
        MemoryObject::Observation(_) => ObjectType::Observation,
        MemoryObject::Entity(_) => ObjectType::Entity,
        MemoryObject::MemoryThread(_) => ObjectType::MemoryThread,
        MemoryObject::DerivedMemory(_) => ObjectType::DerivedMemory,
        MemoryObject::MemoryLink(_) => ObjectType::MemoryLink,
    }
}

/// The subject of an object's graph record: its graph URI.
pub open spec fn object_subject(m: MemoryObject) -> Seq<char> {
    match m {
        MemoryObject::Episode(x) => graph_uri_text(ObjectType::Episode, x.id),
        MemoryObject::Observation(x) => graph_uri_text(ObjectType::Observation, x.id),
        MemoryObject::Entity(x) => graph_uri_text(ObjectType::Entity, x.id),
        MemoryObject::MemoryThread(x) => graph_uri_text(ObjectType::MemoryThread, x.id),
        MemoryObject::DerivedMemory(x) => graph_uri_text(ObjectType::DerivedMemory, x.id),
        MemoryObject::MemoryLink(x) => graph_uri_text(ObjectType::MemoryLink, x.id),
    }
}

/// Whether an object's record can be read back exactly: its type field names its
/// kind, and every instant it holds is a whole second from the year 0 up to the
/// year 10000 (the record writes instants to the second).
pub open spec fn writable(m: MemoryObject) -> bool {
    match m {
        MemoryObject::Episode(e) => e.object_type == ObjectType::Episode && whole_second(e.created_at)
            && whole_second(e.scene.time) && optional_whole_second(e.ended_at),
        MemoryObject::Observation(b) => b.object_type == ObjectType::Observation && whole_second(b.created_at)
            && optional_whole_second(b.observed_at),
        MemoryObject::Entity(e) => e.object_type == ObjectType::Entity && whole_second(e.created_at),
        MemoryObject::MemoryThread(t) => t.object_type == ObjectType::MemoryThread && whole_second(t.last_touched_at)
            && whole_second(t.created_at) && whole_second(t.updated_at),
        MemoryObject::DerivedMemory(d) => d.object_type == ObjectType::DerivedMemory && whole_second(d.created_at)
            && whole_second(d.updated_at),
        MemoryObject::MemoryLink(l) => l.object_type == ObjectType::MemoryLink && whole_second(l.created_at),
    }
}

/// Whether the scores read for a record give the object's salience score (the
/// kinds without one read no score).
pub open spec fn salience_agrees(m: MemoryObject, scores: Seq<(String, ScoreBits)>) -> bool {
    match m {
        MemoryObject::Episode(x) => score_for(scores, SALIENCE_SCORE@) == Some(x.salience_score),
        MemoryObject::Observation(x) => score_for(scores, SALIENCE_SCORE@) == Some(x.salience_score),
        MemoryObject::Entity(_) => true,
        MemoryObject::MemoryThread(x) => score_for(scores, SALIENCE_SCORE@) == Some(x.salience_score),
        MemoryObject::DerivedMemory(x) => score_for(scores, SALIENCE_SCORE@) == Some(x.salience_score),
        MemoryObject::MemoryLink(_) => true,
    }
}

/// Whether `o` is the object `m` as its graph record keeps it.
pub open spec fn same_object(o: MemoryObject, m: MemoryObject) -> bool {
    match (o, m) {
        (MemoryObject::Episode(x), MemoryObject::Episode(y)) => same_episode(x, y),
        (MemoryObject::Observation(x), MemoryObject::Observation(y)) => same_observation(x, y),
        (MemoryObject::Entity(x), MemoryObject::Entity(y)) => same_entity(x, y),
        (MemoryObject::MemoryThread(x), MemoryObject::MemoryThread(y)) => same_memory_thread(x, y),
        (MemoryObject::DerivedMemory(x), MemoryObject::DerivedMemory(y)) => same_derived_memory(x, y),
        (MemoryObject::MemoryLink(x), MemoryObject::MemoryLink(y)) => same_memory_link(x, y),
        _ => false,
    }
}

/// Whether a record read back gives `m`: for any values that hold exactly what the
/// statements say of `m`'s subject, and any scores that give its salience, the
/// reading of an object of `m`'s type succeeds, and what it reads is `m` as the
/// record keeps it.
pub open spec fn reads_back_as(sts: Seq<Statement>, m: MemoryObject) -> bool {
    forall|values: RdfSubjectValues, scores: Seq<(String, ScoreBits)>|
        #![trigger holds_values_of(values, sts, object_subject(m)), object_error(object_subject(m), values, object_kind(m), scores)]
        holds_values_of(values, sts, object_subject(m)) && salience_agrees(m, scores) ==> {
            &&& object_error(object_subject(m), values, object_kind(m), scores) is None
            &&& forall|o: MemoryObject| object_fields(o, object_subject(m), values, object_kind(m), scores) ==> same_object(o, m)
        }
}

#[verifier::spinoff_prover]
#[verifier::rlimit(40)]
pub(crate) proof fn lemma_episode_record(e: Episode, salience: Seq<char>)
    requires
        writable(MemoryObject::Episode(e)),
        id_reads_back(e.id),
        ids_read_back(participant_keys(e.scene.participants@)),
        time_reads_back(e.created_at),
        time_reads_back(e.scene.time),
        optional_time_reads_back(e.ended_at),
    ensures
        reads_back_as(episode_statements(e, salience), MemoryObject::Episode(e)),
{
    let m = MemoryObject::Episode(e);
    assert forall|values: RdfSubjectValues, scores: Seq<(String, ScoreBits)>|
        holds_values_of(values, episode_statements(e, salience), object_subject(m)) && salience_agrees(m, scores) implies {
            &&& object_error(object_subject(m), values, object_kind(m), scores) is None
            &&& forall|o: MemoryObject| object_fields(o, object_subject(m), values, object_kind(m), scores) ==> same_object(o, m)
        } by {
        lemma_episode_reads_back(e, salience, values, scores);
    }
}

#[verifier::spinoff_prover]
#[verifier::rlimit(40)]
pub(crate) proof fn lemma_observation_record(b: Observation, salience: Seq<char>)
    requires
        writable(MemoryObject::Observation(b)),
        id_reads_back(b.id),
        id_reads_back(b.episode_id),
        b.speaker_entity_id matches Some(k) ==> id_reads_back(k),
        time_reads_back(b.created_at),
        optional_time_reads_back(b.observed_at),
    ensures
        reads_back_as(observation_statements(b, salience), MemoryObject::Observation(b)),
{
    let m = MemoryObject::Observation(b);
    assert forall|values: RdfSubjectValues, scores: Seq<(String, ScoreBits)>|
        holds_values_of(values, observation_statements(b, salience), object_subject(m)) && salience_agrees(m, scores) implies {
            &&& object_error(object_subject(m), values, object_kind(m), scores) is None
            &&& forall|o: MemoryObject| object_fields(o, object_subject(m), values, object_kind(m), scores) ==> same_object(o, m)
        } by {
        lemma_observation_reads_back(b, salience, values, scores);
    }
}

#[verifier::spinoff_prover]
#[verifier::rlimit(40)]
pub(crate) proof fn lemma_entity_record(e: Entity)
    requires
        writable(MemoryObject::Entity(e)),
        id_reads_back(e.id),
        time_reads_back(e.created_at),
    ensures
        reads_back_as(entity_statements(e), MemoryObject::Entity(e)),
{
    let m = MemoryObject::Entity(e);
    assert forall|values: RdfSubjectValues, scores: Seq<(String, ScoreBits)>|
        holds_values_of(values, entity_statements(e), object_subject(m)) && salience_agrees(m, scores) implies {
            &&& object_error(object_subject(m), values, object_kind(m), scores) is None
            &&& forall|o: MemoryObject| object_fields(o, object_subject(m), values, object_kind(m), scores) ==> same_object(o, m)
        } by {
        lemma_entity_reads_back(e, values, scores);
    }
}

#[verifier::spinoff_prover]
#[verifier::rlimit(40)]
pub(crate) proof fn lemma_memory_thread_record(t: MemoryThread, salience: Seq<char>)
    requires
        writable(MemoryObject::MemoryThread(t)),
        id_reads_back(t.id),
        time_reads_back(t.last_touched_at),
        time_reads_back(t.created_at),
        time_reads_back(t.updated_at),
    ensures
        reads_back_as(memory_thread_statements(t, salience), MemoryObject::MemoryThread(t)),
{
    let m = MemoryObject::MemoryThread(t);
    assert forall|values: RdfSubjectValues, scores: Seq<(String, ScoreBits)>|
        holds_values_of(values, memory_thread_statements(t, salience), object_subject(m)) && salience_agrees(m, scores) implies {
            &&& object_error(object_subject(m), values, object_kind(m), scores) is None
            &&& forall|o: MemoryObject| object_fields(o, object_subject(m), values, object_kind(m), scores) ==> same_object(o, m)
        } by {
        lemma_memory_thread_reads_back(t, salience, values, scores);
    }
}

#[verifier::spinoff_prover]
#[verifier::rlimit(40)]
pub(crate) proof fn lemma_derived_memory_record(d: DerivedMemory, salience: Seq<char>)
    requires
        writable(MemoryObject::DerivedMemory(d)),
        id_reads_back(d.id),
        ids_read_back(d.derived_from_episode_ids@),
        ids_read_back(d.derived_from_observation_ids@),
        ids_read_back(d.thread_ids@),
        ids_read_back(d.entity_ids@),
        ids_read_back(d.supersedes@),
        time_reads_back(d.created_at),
        time_reads_back(d.updated_at),
    ensures
        reads_back_as(derived_memory_statements(d, salience), MemoryObject::DerivedMemory(d)),
{
    let m = MemoryObject::DerivedMemory(d);
    assert forall|values: RdfSubjectValues, scores: Seq<(String, ScoreBits)>|
        holds_values_of(values, derived_memory_statements(d, salience), object_subject(m)) && salience_agrees(m, scores) implies {
            &&& object_error(object_subject(m), values, object_kind(m), scores) is None
            &&& forall|o: MemoryObject| object_fields(o, object_subject(m), values, object_kind(m), scores) ==> same_object(o, m)
        } by {
        lemma_derived_memory_reads_back(d, salience, values, scores);
    }
}

#[verifier::spinoff_prover]
#[verifier::rlimit(40)]
pub(crate) proof fn lemma_memory_link_record(l: MemoryLink)
    requires
        writable(MemoryObject::MemoryLink(l)),
        id_reads_back(l.id),
        id_reads_back(l.from_id),
        id_reads_back(l.to_id),
        time_reads_back(l.created_at),
    ensures
        reads_back_as(memory_link_statements(l), MemoryObject::MemoryLink(l)),
{
    let m = MemoryObject::MemoryLink(l);
    assert forall|values: RdfSubjectValues, scores: Seq<(String, ScoreBits)>|
        holds_values_of(values, memory_link_statements(l), object_subject(m)) && salience_agrees(m, scores) implies {
            &&& object_error(object_subject(m), values, object_kind(m), scores) is None
            &&& forall|o: MemoryObject| object_fields(o, object_subject(m), values, object_kind(m), scores) ==> same_object(o, m)
        } by {
        lemma_memory_link_reads_back(l, values, scores);
    }
}

/// Writing an object and reading it back gives the object: when `ts` are triples a
/// writer produced for `m` (whose contract gives `reads_back_as` for an object it
/// can record exactly), `values` are the values `subject_values` gathers from them
/// for `m`'s subject, `scores` give its salience, and `r` is what
/// `memory_object_from_rdf` reads from those values for `m`'s type, then `r` is an
/// object, and it is `m` as the graph record keeps it.
pub proof fn law_written_record_reads_back(
    ts: Seq<Statement>,
    m: MemoryObject,
    values: RdfSubjectValues,
    scores: Seq<(String, ScoreBits)>,
    r: Result<MemoryObject, CustomError>,
)
    requires
        reads_back_as(ts, m),
        holds_values_of(values, ts, object_subject(m)),
        salience_agrees(m, scores),
        object_from_rdf(r, object_subject(m), values, object_kind(m), scores),
    ensures
        r matches Ok(o) && same_object(o, m),
{
    assert(object_error(object_subject(m), values, object_kind(m), scores) is None);
}

} // verus!
