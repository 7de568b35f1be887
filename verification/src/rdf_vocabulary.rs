//! The IRIs of the graph record of a memory object: its class under
//! `urn:cmem:class:`, one predicate per field under `urn:cmem:property:`, and the
//! typed relations between objects under `urn:cmem:relation:`.

use vstd::prelude::*;
use crate::domain::{RelationType, relation_type_token};

verus! {

pub const RDF_TYPE: &'static str = "http://www.w3.org/1999/02/22-rdf-syntax-ns#type";
pub const CLASS_EPISODE: &'static str = "urn:cmem:class:Episode";
pub const CLASS_OBSERVATION: &'static str = "urn:cmem:class:Observation";
pub const CLASS_ENTITY: &'static str = "urn:cmem:class:Entity";
pub const CLASS_MEMORY_THREAD: &'static str = "urn:cmem:class:MemoryThread";
pub const CLASS_DERIVED_MEMORY: &'static str = "urn:cmem:class:DerivedMemory";
pub const CLASS_MEMORY_LINK: &'static str = "urn:cmem:class:MemoryLink";
pub const OBJECT_TYPE: &'static str = "urn:cmem:property:object_type";
pub const GRAPH_URI: &'static str = "urn:cmem:property:graph_uri";
pub const OBJECT_ID: &'static str = "urn:cmem:property:object_id";
pub const SCHEMA_VERSION: &'static str = "urn:cmem:property:schema_version";
pub const CREATED_AT: &'static str = "urn:cmem:property:created_at";
pub const UPDATED_AT: &'static str = "urn:cmem:property:updated_at";
pub const MODALITY: &'static str = "urn:cmem:property:modality";
pub const SUMMARY: &'static str = "urn:cmem:property:summary";
pub const RAW_REF: &'static str = "urn:cmem:property:raw_ref";
pub const SALIENCE_SCORE: &'static str = "urn:cmem:property:salience_score";
pub const RETENTION_STATE: &'static str = "urn:cmem:property:retention_state";
pub const STARTED_AT: &'static str = "urn:cmem:property:started_at";
pub const ENDED_AT: &'static str = "urn:cmem:property:ended_at";
pub const PARTICIPANT_ENTITY: &'static str = "urn:cmem:property:participant_entity";
pub const EPISODE: &'static str = "urn:cmem:property:episode";
pub const SPEAKER_ENTITY: &'static str = "urn:cmem:property:speaker_entity";
pub const OBSERVED_AT: &'static str = "urn:cmem:property:observed_at";
pub const TEXT: &'static str = "urn:cmem:property:text";
pub const TITLE: &'static str = "urn:cmem:property:title";
pub const THREAD_STATUS: &'static str = "urn:cmem:property:thread_status";
pub const LAST_TOUCHED_AT: &'static str = "urn:cmem:property:last_touched_at";
pub const CANONICAL_KEY: &'static str = "urn:cmem:property:canonical_key";
pub const DERIVED_TYPE: &'static str = "urn:cmem:property:derived_type";
pub const DERIVED_FROM_EPISODE: &'static str = "urn:cmem:property:derived_from_episode";
pub const DERIVED_FROM_OBSERVATION: &'static str = "urn:cmem:property:derived_from_observation";
pub const PART_OF_THREAD: &'static str = "urn:cmem:relation:part_of_thread";
pub const ABOUT_ENTITY: &'static str = "urn:cmem:property:about_entity";
pub const IS_CURRENT: &'static str = "urn:cmem:property:is_current";
pub const SUPERSEDES: &'static str = "urn:cmem:property:supersedes";
pub const FROM: &'static str = "urn:cmem:property:from";
pub const FROM_TYPE: &'static str = "urn:cmem:property:from_type";
pub const TO: &'static str = "urn:cmem:property:to";
pub const TO_TYPE: &'static str = "urn:cmem:property:to_type";
pub const RELATION: &'static str = "urn:cmem:property:relation";
pub const RATIONALE: &'static str = "urn:cmem:property:rationale";
pub const RELATION_PREFIX: &'static str = "urn:cmem:relation:";

/// The predicate of the typed relation triple a link adds between its endpoints.
pub open spec fn relation_predicate_text(relation: RelationType) -> Seq<char> {
    RELATION_PREFIX@ + relation_type_token(relation)
}

/// The predicate of the typed relation triple a link adds between its endpoints:
/// `urn:cmem:relation:` and the relation's token.
pub fn relation_predicate(relation: RelationType) -> (r: String)
    ensures
        r@ == relation_predicate_text(relation),
{
    let mut p = String::from_str(RELATION_PREFIX);
    p.append(relation.token());
    p
}

/// The length of each predicate IRI and the characters that tell them apart:
/// the first letter of the property name, and the `p` of `property` against the
/// `r` of `relation`.
pub proof fn lemma_predicate_shapes()
    ensures
        OBJECT_ID@.len() == 27,
        OBJECT_ID@[18] == 'o',
        OBJECT_TYPE@.len() == 29,
        OBJECT_TYPE@[18] == 'o',
        OBJECT_TYPE@[20] == 'j',
        GRAPH_URI@.len() == 27,
        GRAPH_URI@[18] == 'g',
        SCHEMA_VERSION@.len() == 32,
        SCHEMA_VERSION@[18] == 's',
        SCHEMA_VERSION@[19] == 'c',
        MODALITY@.len() == 26,
        MODALITY@[18] == 'm',
        SUMMARY@.len() == 25,
        SUMMARY@[18] == 's',
        SALIENCE_SCORE@.len() == 32,
        SALIENCE_SCORE@[18] == 's',
        SALIENCE_SCORE@[19] == 'a',
        RETENTION_STATE@.len() == 33,
        RETENTION_STATE@[18] == 'r',
        CREATED_AT@.len() == 28,
        CREATED_AT@[18] == 'c',
        STARTED_AT@.len() == 28,
        STARTED_AT@[18] == 's',
        ENDED_AT@.len() == 26,
        ENDED_AT@[18] == 'e',
        RAW_REF@.len() == 25,
        RAW_REF@[18] == 'r',
        TEXT@.len() == 22,
        TEXT@[18] == 't',
        OBSERVED_AT@.len() == 29,
        OBSERVED_AT@[18] == 'o',
        OBSERVED_AT@[20] == 's',
        TITLE@.len() == 23,
        TITLE@[18] == 't',
        THREAD_STATUS@.len() == 31,
        THREAD_STATUS@[18] == 't',
        LAST_TOUCHED_AT@.len() == 33,
        LAST_TOUCHED_AT@[18] == 'l',
        UPDATED_AT@.len() == 28,
        UPDATED_AT@[18] == 'u',
        CANONICAL_KEY@.len() == 31,
        CANONICAL_KEY@[18] == 'c',
        DERIVED_TYPE@.len() == 30,
        DERIVED_TYPE@[18] == 'd',
        IS_CURRENT@.len() == 28,
        IS_CURRENT@[18] == 'i',
        FROM_TYPE@.len() == 27,
        FROM_TYPE@[18] == 'f',
        TO_TYPE@.len() == 25,
        TO_TYPE@[18] == 't',
        RELATION@.len() == 26,
        RELATION@[18] == 'r',
        RATIONALE@.len() == 27,
        RATIONALE@[18] == 'r',
        RDF_TYPE@.len() == 47,
        EPISODE@.len() == 25,
        EPISODE@[18] == 'e',
        SPEAKER_ENTITY@.len() == 32,
        SPEAKER_ENTITY@[18] == 's',
        SPEAKER_ENTITY@[9] == 'p',
        PARTICIPANT_ENTITY@.len() == 36,
        PARTICIPANT_ENTITY@[18] == 'p',
        DERIVED_FROM_EPISODE@.len() == 38,
        DERIVED_FROM_EPISODE@[18] == 'd',
        DERIVED_FROM_OBSERVATION@.len() == 42,
        DERIVED_FROM_OBSERVATION@[18] == 'd',
        PART_OF_THREAD@.len() == 32,
        PART_OF_THREAD@[18] == 'p',
        PART_OF_THREAD@[9] == 'r',
        ABOUT_ENTITY@.len() == 30,
        ABOUT_ENTITY@[18] == 'a',
        SUPERSEDES@.len() == 28,
        SUPERSEDES@[18] == 's',
        FROM@.len() == 22,
        FROM@[9] == 'p',
        FROM@[18] == 'f',
        TO@.len() == 20,
        TO@[9] == 'p',
        TO@[18] == 't',
        RELATION_PREFIX@.len() == 18,
        RELATION_PREFIX@[9] == 'r',
{
    reveal_strlit("urn:cmem:property:object_id");
    reveal_strlit("urn:cmem:property:object_type");
    reveal_strlit("urn:cmem:property:graph_uri");
    reveal_strlit("urn:cmem:property:schema_version");
    reveal_strlit("urn:cmem:property:modality");
    reveal_strlit("urn:cmem:property:summary");
    reveal_strlit("urn:cmem:property:salience_score");
    reveal_strlit("urn:cmem:property:retention_state");
    reveal_strlit("urn:cmem:property:created_at");
    reveal_strlit("urn:cmem:property:started_at");
    reveal_strlit("urn:cmem:property:ended_at");
    reveal_strlit("urn:cmem:property:raw_ref");
    reveal_strlit("urn:cmem:property:text");
    reveal_strlit("urn:cmem:property:observed_at");
    reveal_strlit("urn:cmem:property:title");
    reveal_strlit("urn:cmem:property:thread_status");
    reveal_strlit("urn:cmem:property:last_touched_at");
    reveal_strlit("urn:cmem:property:updated_at");
    reveal_strlit("urn:cmem:property:canonical_key");
    reveal_strlit("urn:cmem:property:derived_type");
    reveal_strlit("urn:cmem:property:is_current");
    reveal_strlit("urn:cmem:property:from_type");
    reveal_strlit("urn:cmem:property:to_type");
    reveal_strlit("urn:cmem:property:relation");
    reveal_strlit("urn:cmem:property:rationale");
    reveal_strlit("http://www.w3.org/1999/02/22-rdf-syntax-ns#type");
    reveal_strlit("urn:cmem:property:episode");
    reveal_strlit("urn:cmem:property:speaker_entity");
    reveal_strlit("urn:cmem:property:participant_entity");
    reveal_strlit("urn:cmem:property:derived_from_episode");
    reveal_strlit("urn:cmem:property:derived_from_observation");
    reveal_strlit("urn:cmem:relation:part_of_thread");
    reveal_strlit("urn:cmem:property:about_entity");
    reveal_strlit("urn:cmem:property:supersedes");
    reveal_strlit("urn:cmem:property:from");
    reveal_strlit("urn:cmem:property:to");
    reveal_strlit("urn:cmem:relation:");
}

/// A relation predicate is longer than its prefix and reads `r` where a property
/// IRI reads `p`.
pub proof fn lemma_relation_predicate_shape(relation: RelationType)
    ensures
        relation_predicate_text(relation).len() >= 18,
        relation_predicate_text(relation)[9] == 'r',
{
    lemma_predicate_shapes();
}

} // verus!
