//! Storage schema boundary: only the current schema version is accepted.

use vstd::prelude::*;
use crate::domain::CURRENT_SCHEMA_VERSION;
use crate::errors::CustomError;
use crate::text::str_eq;

verus! {

/// Whether `e` is the refusal of `schema_version` at the boundary named `context`.
pub open spec fn is_schema_refusal(e: CustomError, schema_version: Seq<char>, context: &'static str) -> bool {
    e matches CustomError::UnsupportedSchemaVersion { context: c, expected: x, actual: a } && c
        == context && x == CURRENT_SCHEMA_VERSION && a@ == schema_version
}

/// Accepts the current schema version and refuses any other, naming the boundary,
/// the expected version and the version found.
pub fn require_current_schema_version(schema_version: &str, context: &'static str) -> (r: Result<
    (),
    CustomError,
>)
    ensures
        schema_version@ == CURRENT_SCHEMA_VERSION@ ==> r is Ok,
        schema_version@ != CURRENT_SCHEMA_VERSION@ ==> (r matches Err(e) && is_schema_refusal(
            e,
            schema_version@,
            context,
        )),
{
    if str_eq(schema_version, CURRENT_SCHEMA_VERSION) {
        return Ok(());
    }
    Err(CustomError::UnsupportedSchemaVersion {
        context,
        expected: CURRENT_SCHEMA_VERSION,
        actual: String::from_str(schema_version),
    })
}

/// Migrates a value written with `schema_version` to the current schema: the value is
/// returned unchanged when it is already current; any other version is refused, as no
/// forward migration exists yet.
pub fn migrate_current_schema<T>(value: T, schema_version: &str, context: &'static str) -> (r: Result<
    T,
    CustomError,
>)
    ensures
        schema_version@ == CURRENT_SCHEMA_VERSION@ ==> r == Ok::<T, CustomError>(value),
        schema_version@ != CURRENT_SCHEMA_VERSION@ ==> (r matches Err(e) && is_schema_refusal(
            e,
            schema_version@,
            context,
        )),
{
    match require_current_schema_version(schema_version, context) {
        Ok(_) => Ok(value),
        Err(e) => Err(e),
    }
}

} // verus!
