//! Conditional reads from object storage.
//!
//! A failed condition comes back as one error whichever way the condition was
//! meant. Here it is told apart again.

use object_store::Error as ObjectStoreError;
use vstd::prelude::*;

verus! {

/// `object_store::Error`, told apart by what the conditional reads need.
#[verifier::external_type_specification]
#[verifier::external_body]
pub struct ExObjectStoreError(ObjectStoreError);

/// The failures of object storage that conditional reads are about.
#[derive(Clone, Copy, Debug, PartialEq, Eq, Structural)]
pub enum StoreFailure {
    /// A condition did not hold.
    Precondition,
    /// Nothing has changed.
    NotModified,
    Other,
}

/// Which variant of `object_store::Error` an error is.
pub uninterp spec fn store_failure(error: ObjectStoreError) -> StoreFailure;

/// Tells the variants of `object_store::Error` apart.
#[verifier::external_body]
fn failure_of(error: &ObjectStoreError) -> (r: StoreFailure)
    ensures
        r == store_failure(*error),
{
    match error {
        ObjectStoreError::Precondition { .. } => StoreFailure::Precondition,
        ObjectStoreError::NotModified { .. } => StoreFailure::NotModified,
        _ => StoreFailure::Other,
    }
}

/// The `object_store::Error::NotModified` with the path and the cause that a
/// `Precondition` error has.
pub uninterp spec fn as_not_modified(error: ObjectStoreError) -> ObjectStoreError;

/// Makes an `object_store::Error::NotModified` with the path and the cause of a
/// `Precondition` error, and no other. Path and cause are not looked into.
#[verifier::external_body]
fn into_not_modified(error: ObjectStoreError) -> (r: ObjectStoreError)
    requires
        store_failure(error) == StoreFailure::Precondition,
    ensures
        r == as_not_modified(error),
        store_failure(r) == StoreFailure::NotModified,
{
    match error {
        ObjectStoreError::Precondition { path, source } => {
            ObjectStoreError::NotModified { path, source }
        },
        other => other,
    }
}

/// The conditions of a read, as far as they are set.
#[derive(Clone, Copy, Debug, PartialEq, Eq, Structural)]
pub struct GetConditions {
    pub if_match: bool,
    pub if_none_match: bool,
    pub if_modified_since: bool,
    pub if_unmodified_since: bool,
}

impl GetConditions {
    /// Whether a failed condition means that nothing has changed: there are only
    /// negative conditions.
    pub fn fail_as_not_modified(&self) -> (r: bool)
        ensures
            r == (!self.if_match && !self.if_unmodified_since && (self.if_none_match
                || self.if_modified_since)),
    {
        !self.if_match && !self.if_unmodified_since && (self.if_none_match
            || self.if_modified_since)
    }
}

/// Reports a condition that did not hold the way object storage means it: for a
/// negative condition, nothing has changed.
pub fn map_conditional_get_result<T>(
    result: std::result::Result<T, ObjectStoreError>,
    not_modified: bool,
) -> (r: std::result::Result<T, ObjectStoreError>)
    ensures
        result is Ok ==> r == result,
        result matches Err(error) ==> if not_modified && store_failure(error)
            == StoreFailure::Precondition {
            r matches Err(e) && e == as_not_modified(error) && store_failure(e)
                == StoreFailure::NotModified
        } else {
            r == result
        },
{
    match result {
        Ok(value) => Ok(value),
        Err(error) => {
            if not_modified {
                if let StoreFailure::Precondition = failure_of(&error) {
                    return Err(into_not_modified(error));
                }
            }
            Err(error)
        },
    }
}

} // verus!
