use cmem::domain::{MemoryId, ObjectType, RelationType, CURRENT_SCHEMA_VERSION};
use cmem::errors::CustomError;
use cmem::objects::{Entity, MemoryLink, MemoryObject};
use cmem::remember::{
    RememberAction, RememberEvent, RememberNext, RememberPipelineOutcome, RememberRun,
};

#[derive(Debug, Clone, PartialEq, Eq)]
enum Call {
    GraphObjects,
    GraphLinks,
    EmbedBatch(usize),
    VectorUpsert(usize),
}

#[derive(Default)]
struct Script {
    fail_objects: bool,
    fail_links: bool,
    embedding_count: Option<usize>,
    fail_embedding: bool,
    fail_vectors: bool,
}

fn objects() -> Vec<MemoryObject> {
    (1..=5u128)
        .map(|n| {
            MemoryObject::Entity(Entity {
                id: n,
                object_type: ObjectType::Entity,
                created_at: 0,
                schema_version: CURRENT_SCHEMA_VERSION.to_owned(),
            })
        })
        .collect()
}

fn links() -> Vec<MemoryLink> {
    [10u128, 11]
        .iter()
        .map(|id| MemoryLink {
            id: *id,
            object_type: ObjectType::MemoryLink,
            from_id: 1,
            from_type: ObjectType::Entity,
            to_id: 2,
            to_type: ObjectType::Entity,
            relation: RelationType::AssociatedWith,
            rationale: None,
            created_at: 0,
            schema_version: CURRENT_SCHEMA_VERSION.to_owned(),
        })
        .collect()
}

fn drive(script: &Script, record_ids: Vec<MemoryId>) -> (Result<RememberPipelineOutcome, CustomError>, Vec<Call>) {
    let records = record_ids.len();
    let (mut run, mut action) = RememberRun::start(&objects(), &links(), record_ids);
    let mut calls = Vec::new();
    loop {
        let event = match action {
            RememberAction::WriteObjects => {
                calls.push(Call::GraphObjects);
                if script.fail_objects {
                    RememberEvent::StoreFailed(CustomError::DatabaseError("object write failed".to_owned()))
                } else {
                    RememberEvent::StoreWritten
                }
            }
            RememberAction::WriteLinks => {
                calls.push(Call::GraphLinks);
                if script.fail_links {
                    RememberEvent::StoreFailed(CustomError::DatabaseError("link write failed".to_owned()))
                } else {
                    RememberEvent::StoreWritten
                }
            }
            RememberAction::EmbedRecords => {
                calls.push(Call::EmbedBatch(records));
                if script.fail_embedding {
                    RememberEvent::EmbeddingFailed("embedding failed".to_owned())
                } else {
                    RememberEvent::Embedded(script.embedding_count.unwrap_or(records))
                }
            }
            RememberAction::WriteVectors => {
                calls.push(Call::VectorUpsert(records));
                if script.fail_vectors {
                    RememberEvent::VectorsFailed("vector write failed".to_owned())
                } else {
                    RememberEvent::VectorsWritten
                }
            }
        };
        match run.step(event) {
            RememberNext::Act(next, next_action) => {
                run = next;
                action = next_action;
            }
            RememberNext::Finished(result) => return (result, calls),
        }
    }
}

#[test]
fn persists_graph_objects_links_then_vectors_in_stable_order() {
    let (result, calls) = drive(&Script::default(), vec![1, 2, 3, 4, 5]);
    let outcome = result.expect("remember draft should persist");
    assert_eq!(outcome.persisted_object_ids, vec![1, 2, 3, 4, 5]);
    assert_eq!(outcome.persisted_link_ids, vec![10, 11]);
    assert_eq!(outcome.vector_indexed_object_ids, outcome.persisted_object_ids);
    assert_eq!(outcome.vector_indexing_failure, None);
    assert_eq!(calls, vec![Call::GraphObjects, Call::GraphLinks, Call::EmbedBatch(5), Call::VectorUpsert(5)]);
}

#[test]
fn graph_object_failure_prevents_link_embedding_and_vector_writes() {
    let script = Script { fail_objects: true, ..Script::default() };
    let (result, calls) = drive(&script, vec![1, 2, 3, 4, 5]);
    assert_eq!(result, Err(CustomError::DatabaseError("object write failed".to_owned())));
    assert_eq!(calls, vec![Call::GraphObjects]);
}

#[test]
fn graph_link_failure_prevents_embedding_and_vector_writes() {
    let script = Script { fail_links: true, ..Script::default() };
    let (result, calls) = drive(&script, vec![1, 2, 3, 4, 5]);
    assert_eq!(result, Err(CustomError::DatabaseError("link write failed".to_owned())));
    assert_eq!(calls, vec![Call::GraphObjects, Call::GraphLinks]);
}

#[test]
fn remember_without_vector_records_ends_after_the_graph_writes() {
    let (result, calls) = drive(&Script::default(), vec![]);
    let outcome = result.unwrap();
    assert_eq!(outcome.persisted_link_ids, vec![10, 11]);
    assert!(outcome.vector_indexed_object_ids.is_empty());
    assert_eq!(outcome.vector_indexing_failure, None);
    assert_eq!(calls, vec![Call::GraphObjects, Call::GraphLinks]);
}

#[test]
fn vector_upsert_failure_returns_partial_success_with_graph_ids() {
    let script = Script { fail_vectors: true, ..Script::default() };
    let (result, _) = drive(&script, vec![1, 2, 3, 4, 5]);
    let outcome = result.expect("graph success with vector failure should return partial outcome");
    assert_eq!(outcome.persisted_object_ids, vec![1, 2, 3, 4, 5]);
    assert_eq!(outcome.persisted_link_ids, vec![10, 11]);
    assert!(outcome.vector_indexed_object_ids.is_empty());
    let failure = outcome.vector_indexing_failure.clone().expect("vector failure should be explicit");
    assert_eq!(failure.unindexed_object_ids, outcome.persisted_object_ids);
    assert!(failure.error_message.contains("vector write failed"));
}

#[test]
fn wrong_embedding_count_returns_clear_partial_failure_without_vector_write() {
    let script = Script { embedding_count: Some(4), ..Script::default() };
    let (result, calls) = drive(&script, vec![1, 2, 3, 4, 5]);
    let outcome = result.expect("graph success with embedding mismatch should return partial outcome");
    assert!(outcome.vector_indexed_object_ids.is_empty());
    let failure = outcome.vector_indexing_failure.clone().expect("embedding mismatch should be explicit");
    assert_eq!(failure.unindexed_object_ids, outcome.persisted_object_ids);
    assert_eq!(failure.error_message, "embedder returned 4 embeddings for 5 vector records");
    assert!(!calls.iter().any(|call| matches!(call, Call::VectorUpsert(_))));
}

#[test]
fn embedding_failure_leaves_every_record_unindexed() {
    let script = Script { fail_embedding: true, ..Script::default() };
    let (result, calls) = drive(&script, vec![2, 4]);
    let outcome = result.unwrap();
    let failure = outcome.vector_indexing_failure.unwrap();
    assert_eq!(failure.unindexed_object_ids, vec![2, 4]);
    assert_eq!(failure.error_message, "embedding failed");
    assert_eq!(calls, vec![Call::GraphObjects, Call::GraphLinks, Call::EmbedBatch(2)]);
}

#[test]
fn an_event_that_does_not_answer_the_pending_action_changes_nothing() {
    let (run, action) = RememberRun::start(&objects(), &links(), vec![1]);
    assert_eq!(action, RememberAction::WriteObjects);
    match run.step(RememberEvent::VectorsWritten) {
        RememberNext::Act(next, again) => {
            assert_eq!(again, RememberAction::WriteObjects);
            assert_eq!(next.record_object_ids, vec![1]);
        }
        other => panic!("expected the pending action again, got {other:?}"),
    }
}
