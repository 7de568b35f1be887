//! The outcome of remembering: what the graph persisted and what the vector index
//! took, and the checks between embedding and indexing.

use vstd::prelude::*;
use crate::domain::MemoryId;
use crate::objects::{MemoryObject, MemoryLink, object_id};
use crate::vector::decimal;
use crate::errors::CustomError;

verus! {

/// Objects whose vectors could not be indexed, and why.
#[derive(Debug, Clone, PartialEq, Eq)]
pub struct VectorIndexingFailure {
    pub unindexed_object_ids: Vec<MemoryId>,
    pub error_message: String,
}

/// What a remember call wrote.
#[derive(Debug, Clone, PartialEq, Eq)]
pub struct RememberPipelineOutcome {
    pub persisted_object_ids: Vec<MemoryId>,
    pub persisted_link_ids: Vec<MemoryId>,
    pub vector_indexed_object_ids: Vec<MemoryId>,
    pub vector_indexing_failure: Option<VectorIndexingFailure>,
}

/// The identifiers of objects, in order.
pub open spec fn object_ids(objs: Seq<MemoryObject>) -> Seq<MemoryId> {
    objs.map_values(|o: MemoryObject| object_id(o))
}

/// The identifiers of links, in order.
pub open spec fn link_ids(links: Seq<MemoryLink>) -> Seq<MemoryId> {
    links.map_values(|l: MemoryLink| l.id)
}

/// The identifier of a memory object.
pub fn memory_object_id(o: &MemoryObject) -> (id: MemoryId)
    ensures
        id == object_id(*o),
{
    o.id()
}

impl RememberPipelineOutcome {
    /// The outcome once the graph persisted the objects and links, before indexing.
    pub fn graph_persisted(objects: &Vec<MemoryObject>, links: &Vec<MemoryLink>) -> (r: RememberPipelineOutcome)
        ensures
            r.persisted_object_ids@ == object_ids(objects@),
            r.persisted_link_ids@ == link_ids(links@),
            r.vector_indexed_object_ids@.len() == 0,
            r.vector_indexing_failure is None,
    {
        let mut oids: Vec<MemoryId> = Vec::new();
        let mut i: usize = 0;
        while i < objects.len()
            invariant
                i <= objects@.len(),
                oids@ == object_ids(objects@).take(i as int),
            decreases objects@.len() - i,
        {
            oids.push(memory_object_id(&objects[i]));
            proof {
                assert(oids@ =~= object_ids(objects@).take(i + 1));
            }
            i = i + 1;
        }
        let mut lids: Vec<MemoryId> = Vec::new();
        let mut j: usize = 0;
        while j < links.len()
            invariant
                j <= links@.len(),
                lids@ == link_ids(links@).take(j as int),
            decreases links@.len() - j,
        {
            lids.push(links[j].id);
            proof {
                assert(lids@ =~= link_ids(links@).take(j + 1));
            }
            j = j + 1;
        }
        proof {
            assert(object_ids(objects@).take(i as int) =~= object_ids(objects@));
            assert(link_ids(links@).take(j as int) =~= link_ids(links@));
        }
        RememberPipelineOutcome {
            persisted_object_ids: oids,
            persisted_link_ids: lids,
            vector_indexed_object_ids: Vec::new(),
            vector_indexing_failure: None,
        }
    }

    /// Records how indexing the vector records of `record_object_ids` ended: the
    /// indexed objects, or every record's object as unindexed with the error.
    pub fn record_indexing(&mut self, record_object_ids: Vec<MemoryId>, result: Result<Vec<MemoryId>, String>)
        ensures
            final(self).persisted_object_ids == old(self).persisted_object_ids,
            final(self).persisted_link_ids == old(self).persisted_link_ids,
            match result {
                Ok(ids) => final(self).vector_indexed_object_ids == ids && final(self).vector_indexing_failure
                    == old(self).vector_indexing_failure,
                Err(message) => final(self).vector_indexed_object_ids == old(self).vector_indexed_object_ids
                    && final(self).vector_indexing_failure == Some(
                    VectorIndexingFailure { unindexed_object_ids: record_object_ids, error_message: message },
                ),
            },
    {
        match result {
            Ok(ids) => {
                self.vector_indexed_object_ids = ids;
            },
            Err(message) => {
                self.vector_indexing_failure = Some(
                    VectorIndexingFailure { unindexed_object_ids: record_object_ids, error_message: message },
                );
            },
        }
    }
}

/// The message of an embedder that returned the wrong number of embeddings.
pub open spec fn embedding_count_message(embeddings: nat, records: nat) -> Seq<char> {
    "embedder returned "@ + decimal(embeddings) + " embeddings for "@ + decimal(records) + " vector records"@
}

/// Checks that the embedder returned one embedding per vector record.
pub fn embedding_count_error(embedding_count: usize, record_count: usize) -> (r: Option<String>)
    ensures
        embedding_count == record_count ==> r is None,
        embedding_count != record_count ==> (r matches Some(m) && m@ == embedding_count_message(
            embedding_count as nat,
            record_count as nat,
        )),
{
    if embedding_count == record_count {
        return None;
    }
    let mut m = String::from_str("embedder returned ");
    crate::vector::append_decimal(&mut m, embedding_count as u64);
    m.append(" embeddings for ");
    crate::vector::append_decimal(&mut m, record_count as u64);
    m.append(" vector records");
    proof {
        reveal_strlit("embedder returned ");
        reveal_strlit(" embeddings for ");
        reveal_strlit(" vector records");
        assert(m@ =~= embedding_count_message(embedding_count as nat, record_count as nat));
    }
    Some(m)
}

/// Where a remember run stands: which write it is waiting on.
#[derive(Debug, Clone, Copy, PartialEq, Eq)]
pub enum RememberPhase {
    WritingObjects,
    WritingLinks,
    Embedding,
    IndexingVectors,
}

/// What the caller does next for a remember run.
#[derive(Debug, Clone, Copy, PartialEq, Eq)]
pub enum RememberAction {
    /// Upsert the validated objects into the graph store.
    WriteObjects,
    /// Upsert the validated links into the graph store.
    WriteLinks,
    /// Embed the vector records, all in one batch.
    EmbedRecords,
    /// Upsert the vector records with their embeddings.
    WriteVectors,
}

/// How the caller's last action ended.
#[derive(Debug, Clone, PartialEq, Eq)]
pub enum RememberEvent {
    /// A graph store write succeeded.
    StoreWritten,
    /// A graph store write failed.
    StoreFailed(CustomError),
    /// The embedder returned this many embeddings.
    Embedded(usize),
    /// The embedder failed, with this message.
    EmbeddingFailed(String),
    /// The vector store took the records.
    VectorsWritten,
    /// The vector store refused the records, with this message.
    VectorsFailed(String),
}

/// A remember run in progress: the phase, the outcome so far, and the objects
/// whose vector records are to be indexed.
#[derive(Debug)]
pub struct RememberRun {
    pub phase: RememberPhase,
    pub outcome: RememberPipelineOutcome,
    pub record_object_ids: Vec<MemoryId>,
}

/// The next step of a remember run: an action to perform, or the run's result.
#[derive(Debug)]
pub enum RememberNext {
    Act(RememberRun, RememberAction),
    Finished(Result<RememberPipelineOutcome, CustomError>),
}

/// The action a phase waits on.
pub open spec fn pending_action(phase: RememberPhase) -> RememberAction {
    match phase {
        RememberPhase::WritingObjects => RememberAction::WriteObjects,
        RememberPhase::WritingLinks => RememberAction::WriteLinks,
        RememberPhase::Embedding => RememberAction::EmbedRecords,
        RememberPhase::IndexingVectors => RememberAction::WriteVectors,
    }
}

/// The outcome with every record's object left unindexed, for `message`.
pub open spec fn with_indexing_failure(run: RememberRun, message: Seq<char>, o: RememberPipelineOutcome) -> bool {
    &&& o.persisted_object_ids == run.outcome.persisted_object_ids
    &&& o.persisted_link_ids == run.outcome.persisted_link_ids
    &&& o.vector_indexed_object_ids == run.outcome.vector_indexed_object_ids
    &&& o.vector_indexing_failure matches Some(f) && f.unindexed_object_ids == run.record_object_ids
        && f.error_message@ == message
}

impl RememberRun {
    /// Starts remembering validated objects and links: the graph writes come
    /// first, objects then links; the outcome names them all as persisted.
    pub fn start(objects: &Vec<MemoryObject>, links: &Vec<MemoryLink>, record_object_ids: Vec<MemoryId>) -> (r: (RememberRun, RememberAction))
        ensures
            r.0.phase == RememberPhase::WritingObjects,
            r.0.outcome.persisted_object_ids@ == object_ids(objects@),
            r.0.outcome.persisted_link_ids@ == link_ids(links@),
            r.0.outcome.vector_indexed_object_ids@.len() == 0,
            r.0.outcome.vector_indexing_failure is None,
            r.0.record_object_ids == record_object_ids,
            r.1 == RememberAction::WriteObjects,
    {
        let outcome = RememberPipelineOutcome::graph_persisted(objects, links);
        (RememberRun { phase: RememberPhase::WritingObjects, outcome, record_object_ids }, RememberAction::WriteObjects)
    }

    /// Takes the result of the last action. A failed graph write ends the run with
    /// its error, before anything is embedded or indexed; once both graph writes
    /// succeed the run is a success: with no vector records it ends there, and
    /// otherwise an embedding or vector write failure, or a wrong number of
    /// embeddings, leaves every record's object unindexed with the message. An
    /// event that does not answer the pending action changes nothing and asks for
    /// that action again.
    pub fn step(self, event: RememberEvent) -> (r: RememberNext)
        ensures
            match (self.phase, event) {
                (RememberPhase::WritingObjects, RememberEvent::StoreWritten) => r matches RememberNext::Act(n, a)
                    && n.phase == RememberPhase::WritingLinks && n.outcome == self.outcome
                    && n.record_object_ids == self.record_object_ids && a == RememberAction::WriteLinks,
                (RememberPhase::WritingObjects, RememberEvent::StoreFailed(e)) => r == RememberNext::Finished(Err(e)),
                (RememberPhase::WritingLinks, RememberEvent::StoreFailed(e)) => r == RememberNext::Finished(Err(e)),
                (RememberPhase::WritingLinks, RememberEvent::StoreWritten) => if self.record_object_ids@.len() == 0 {
                    r == RememberNext::Finished(Ok(self.outcome))
                } else {
                    r matches RememberNext::Act(n, a) && n.phase == RememberPhase::Embedding && n.outcome == self.outcome
                        && n.record_object_ids == self.record_object_ids && a == RememberAction::EmbedRecords
                },
                (RememberPhase::Embedding, RememberEvent::Embedded(count)) => if count == self.record_object_ids@.len() {
                    r matches RememberNext::Act(n, a) && n.phase == RememberPhase::IndexingVectors && n.outcome == self.outcome
                        && n.record_object_ids == self.record_object_ids && a == RememberAction::WriteVectors
                } else {
                    r matches RememberNext::Finished(Ok(o)) && with_indexing_failure(
                        self,
                        embedding_count_message(count as nat, self.record_object_ids@.len()),
                        o,
                    )
                },
                (RememberPhase::Embedding, RememberEvent::EmbeddingFailed(m)) => r matches RememberNext::Finished(Ok(o))
                    && with_indexing_failure(self, m@, o),
                (RememberPhase::IndexingVectors, RememberEvent::VectorsWritten) => r matches RememberNext::Finished(Ok(o))
                    && o.persisted_object_ids == self.outcome.persisted_object_ids
                    && o.persisted_link_ids == self.outcome.persisted_link_ids
                    && o.vector_indexed_object_ids == self.record_object_ids
                    && o.vector_indexing_failure == self.outcome.vector_indexing_failure,
                (RememberPhase::IndexingVectors, RememberEvent::VectorsFailed(m)) => r matches RememberNext::Finished(Ok(o))
                    && with_indexing_failure(self, m@, o),
                _ => r matches RememberNext::Act(n, a) && n == self && a == pending_action(self.phase),
            },
    {
        let RememberRun { phase, outcome, record_object_ids } = self;
        let mut outcome = outcome;
        match (phase, event) {
            (RememberPhase::WritingObjects, RememberEvent::StoreWritten) => RememberNext::Act(
                RememberRun { phase: RememberPhase::WritingLinks, outcome, record_object_ids },
                RememberAction::WriteLinks,
            ),
            (RememberPhase::WritingObjects, RememberEvent::StoreFailed(e)) => RememberNext::Finished(Err(e)),
            (RememberPhase::WritingLinks, RememberEvent::StoreFailed(e)) => RememberNext::Finished(Err(e)),
            (RememberPhase::WritingLinks, RememberEvent::StoreWritten) => {
                if record_object_ids.len() == 0 {
                    RememberNext::Finished(Ok(outcome))
                } else {
                    RememberNext::Act(
                        RememberRun { phase: RememberPhase::Embedding, outcome, record_object_ids },
                        RememberAction::EmbedRecords,
                    )
                }
            },
            (RememberPhase::Embedding, RememberEvent::Embedded(count)) => {
                match embedding_count_error(count, record_object_ids.len()) {
                    None => RememberNext::Act(
                        RememberRun { phase: RememberPhase::IndexingVectors, outcome, record_object_ids },
                        RememberAction::WriteVectors,
                    ),
                    Some(m) => {
                        outcome.record_indexing(record_object_ids, Err(m));
                        RememberNext::Finished(Ok(outcome))
                    },
                }
            },
            (RememberPhase::Embedding, RememberEvent::EmbeddingFailed(m)) => {
                outcome.record_indexing(record_object_ids, Err(m));
                RememberNext::Finished(Ok(outcome))
            },
            (RememberPhase::IndexingVectors, RememberEvent::VectorsWritten) => {
                let ids = record_object_ids;
                outcome.vector_indexed_object_ids = ids;
                RememberNext::Finished(Ok(outcome))
            },
            (RememberPhase::IndexingVectors, RememberEvent::VectorsFailed(m)) => {
                outcome.record_indexing(record_object_ids, Err(m));
                RememberNext::Finished(Ok(outcome))
            },
            (phase, event) => {
                let action = match phase {
                    RememberPhase::WritingObjects => RememberAction::WriteObjects,
                    RememberPhase::WritingLinks => RememberAction::WriteLinks,
                    RememberPhase::Embedding => RememberAction::EmbedRecords,
                    RememberPhase::IndexingVectors => RememberAction::WriteVectors,
                };
                RememberNext::Act(RememberRun { phase, outcome, record_object_ids }, action)
            },
        }
    }
}

} // verus!
