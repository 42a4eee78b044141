//! Conditional reads from object storage.

use object_store::Error as ObjectStoreError;
use slatefs::object_store_errors::{map_conditional_get_result, GetConditions};

fn precondition_error() -> ObjectStoreError {
    ObjectStoreError::Precondition {
        path: "conditional-get".to_string(),
        source: Box::new(std::io::Error::other("condition failed")),
    }
}

#[test]
fn fs_conditional_get_errors_follow_object_store_semantics() {
    let error = map_conditional_get_result::<()>(Err(precondition_error()), true)
        .expect_err("negative condition should report not modified");
    assert!(
        matches!(error, ObjectStoreError::NotModified { .. }),
        "unexpected error: {error:?}"
    );

    let error = map_conditional_get_result::<()>(Err(precondition_error()), false)
        .expect_err("positive condition should remain a precondition error");
    assert!(matches!(error, ObjectStoreError::Precondition { .. }));
}

#[test]
fn slatedb_object_store_conditional_get_errors_follow_object_store_semantics() {
    let error = map_conditional_get_result::<u8>(Err(precondition_error()), true)
        .expect_err("negative condition should report not modified");
    assert!(
        matches!(error, ObjectStoreError::NotModified { .. }),
        "unexpected error: {error:?}"
    );

    let error = map_conditional_get_result::<u8>(Err(precondition_error()), false)
        .expect_err("positive condition should remain a precondition error");
    assert!(matches!(error, ObjectStoreError::Precondition { .. }));
}

#[test]
fn the_path_and_the_cause_survive() {
    let error = map_conditional_get_result::<()>(Err(precondition_error()), true)
        .expect_err("not modified");
    match error {
        ObjectStoreError::NotModified { path, source } => {
            assert_eq!(path, "conditional-get");
            assert_eq!(source.to_string(), "condition failed");
        }
        other => panic!("unexpected error: {other:?}"),
    }
}

#[test]
fn other_results_pass_through() {
    assert_eq!(map_conditional_get_result(Ok(7), true).expect("value"), 7);
    let missing = ObjectStoreError::NotFound {
        path: "gone".to_string(),
        source: Box::new(std::io::Error::other("gone")),
    };
    let error = map_conditional_get_result::<()>(Err(missing), true).expect_err("missing");
    assert!(matches!(error, ObjectStoreError::NotFound { .. }));
}

#[test]
fn only_negative_conditions_fail_as_not_modified() {
    let none = GetConditions {
        if_match: false,
        if_none_match: false,
        if_modified_since: false,
        if_unmodified_since: false,
    };
    assert!(!none.fail_as_not_modified());
    let negative = GetConditions { if_none_match: true, ..none };
    assert!(negative.fail_as_not_modified());
    assert!(GetConditions { if_modified_since: true, ..none }.fail_as_not_modified());
    assert!(!GetConditions { if_match: true, ..negative }.fail_as_not_modified());
    assert!(!GetConditions { if_unmodified_since: true, ..negative }.fail_as_not_modified());
}
