use cmem::errors::CustomError;
use cmem::raw_reference::{RawReference, RawReferenceResolver};

#[derive(Debug)]
struct StaticRawReferenceResolver {
    result: StaticRawReferenceResult,
}

#[derive(Debug)]
enum StaticRawReferenceResult {
    Resolved(Option<RawReference>),
    DatabaseError(String),
    MemoryValidation(String),
}

impl RawReferenceResolver for StaticRawReferenceResolver {
    fn resolve(&self, _reference: &str) -> Result<Option<RawReference>, CustomError> {
        match &self.result {
            StaticRawReferenceResult::Resolved(raw_reference) => Ok(raw_reference.clone()),
            StaticRawReferenceResult::DatabaseError(message) => Err(CustomError::DatabaseError(message.clone())),
            StaticRawReferenceResult::MemoryValidation(message) => Err(CustomError::MemoryValidation(message.clone())),
        }
    }
}

#[test]
fn raw_reference_is_resolved_content_not_storage_configuration() {
    let raw = RawReference::new("chat://conversation/1#turn=2".to_owned(), "hello".to_owned());

    assert_eq!(raw.reference, "chat://conversation/1#turn=2");
    assert_eq!(raw.text, "hello");
}

#[test]
fn raw_reference_resolver_can_resolve_internal_source_content() {
    let resolver = StaticRawReferenceResolver {
        result: StaticRawReferenceResult::Resolved(Some(RawReference::new(
            "raw://conversation/1#turn=2".to_owned(),
            "resolved fixture text".to_owned(),
        ))),
    };

    let resolved = resolver.resolve("raw://conversation/1#turn=2").unwrap().unwrap();

    assert_eq!(resolved.reference, "raw://conversation/1#turn=2");
    assert_eq!(resolved.text, "resolved fixture text");
}

#[test]
fn raw_reference_resolver_reports_unavailable_reference_as_none() {
    let resolver = StaticRawReferenceResolver { result: StaticRawReferenceResult::Resolved(None) };

    let resolved = resolver.resolve("raw://conversation/missing#turn=9").unwrap();

    assert_eq!(resolved, None);
}

#[test]
fn raw_reference_resolver_propagates_resolver_failures_as_errors() {
    let resolver = StaticRawReferenceResolver {
        result: StaticRawReferenceResult::DatabaseError("resolver unavailable".to_owned()),
    };

    let error = resolver.resolve("raw://conversation/1#turn=2").unwrap_err();

    assert!(matches!(error, CustomError::DatabaseError(message) if message == "resolver unavailable"));
}

#[test]
fn raw_reference_resolver_fixture_can_return_non_database_errors() {
    let resolver = StaticRawReferenceResolver {
        result: StaticRawReferenceResult::MemoryValidation("invalid raw ref".to_owned()),
    };

    let error = resolver.resolve("raw://conversation/1#turn=2").unwrap_err();

    assert!(matches!(error, CustomError::MemoryValidation(message) if message == "invalid raw ref"));
}
