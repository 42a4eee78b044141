//! Errors: what they say, and what is worth retrying.

use slatefs::error::{Error, ErrorCode};
use slatefs::error_struct::{ErrorStatus, ErrorStruct};

#[test]
fn decode_errors_are_permanent() {
    // A varint with the continuation bit set but no following byte.
    let decode_error = <u64 as prost::Message>::decode([0x08, 0x80].as_slice())
        .expect_err("truncated varint should not decode");

    let error = Error::from(decode_error);

    assert!(matches!(error, Error::MetadataDecode(_)));
    assert_eq!(error.status(), ErrorStatus::Permanent);
    assert!(error.to_string().contains("metadata decode error"));
}

#[test]
fn unavailable_slatedb_errors_are_temporary() {
    let error = Error::from(slatedb::Error::unavailable("object store down".to_string()));

    assert!(matches!(error, Error::SlateDb(_)));
    assert_eq!(error.status(), ErrorStatus::Temporary);
}

#[test]
fn invalid_slatedb_errors_are_permanent() {
    let error = Error::from(slatedb::Error::invalid("bad argument".to_string()));

    assert_eq!(error.status(), ErrorStatus::Permanent);
}

#[test]
fn conflicting_transactions_are_temporary() {
    let error = Error::from(slatedb::Error::transaction("conflict".to_string()));
    assert_eq!(error.status(), ErrorStatus::Temporary);
    assert!(error
        .to_string()
        .starts_with("slatedb error (temporary) at src/error.rs, caused by: "));
}

#[test]
fn interrupted_io_errors_are_temporary() {
    let error = Error::from(std::io::Error::new(
        std::io::ErrorKind::Interrupted,
        "try again",
    ));

    assert!(matches!(error, Error::Io(_)));
    assert_eq!(error.status(), ErrorStatus::Temporary);
    assert!(error.to_string().contains("io error"));
}

#[test]
fn io_errors_that_pass_are_temporary() {
    for kind in [std::io::ErrorKind::WouldBlock, std::io::ErrorKind::TimedOut] {
        assert_eq!(
            Error::from(std::io::Error::new(kind, "later")).status(),
            ErrorStatus::Temporary
        );
    }
}

#[test]
fn poisoned_locks_are_permanent_io_errors() {
    let error = Error::from(std::sync::PoisonError::new(0));

    assert!(matches!(error, Error::Io(_)));
    assert_eq!(error.status(), ErrorStatus::Permanent);
    assert!(error.to_string().contains("lock is poisoned"));
}

#[test]
fn not_found_io_errors_are_permanent() {
    let error = Error::from(std::io::Error::new(std::io::ErrorKind::NotFound, "missing"));

    assert!(matches!(error, Error::Io(_)));
    assert_eq!(error.status(), ErrorStatus::Permanent);
}

#[test]
fn display_includes_status_and_location() {
    let error = ErrorStruct::new(
        "boom".to_string(),
        ErrorStatus::Permanent,
        "src/error_struct.rs:90:21".to_string(),
    );

    let rendered = error.to_string();

    assert!(rendered.starts_with("boom (permanent) at "));
    assert!(rendered.contains("error_struct.rs"));
}

#[test]
fn display_includes_source() {
    let error = ErrorStruct::new(
        "boom".to_string(),
        ErrorStatus::Temporary,
        "here:1:2".to_string(),
    )
    .with_source(std::io::Error::other("disk on fire"));

    assert!(error.to_string().contains("caused by: disk on fire"));
}

#[test]
fn source_downcasts_to_the_original_error() {
    let error = ErrorStruct::new(
        "boom".to_string(),
        ErrorStatus::Permanent,
        "here:1:2".to_string(),
    )
    .with_source(std::io::Error::new(std::io::ErrorKind::NotFound, "gone"));

    let source = error.source().expect("source should be set");
    let io_error = source
        .downcast_ref::<std::io::Error>()
        .expect("source should be an io error");
    assert_eq!(io_error.kind(), std::io::ErrorKind::NotFound);
}

#[test]
fn an_error_is_rendered_on_one_line() {
    let error = ErrorStruct {
        message: "boom".to_string(),
        status: ErrorStatus::Temporary,
        source: None,
        location: None,
    };
    assert_eq!(error.to_string(), "boom (temporary)");
    let error = ErrorStruct::new(
        "boom".to_string(),
        ErrorStatus::Temporary,
        "here:1:2".to_string(),
    );
    assert_eq!(error.to_string(), "boom (temporary) at here:1:2");
    let error = error.with_source(std::io::Error::other("cause"));
    assert_eq!(
        error.to_string(),
        "boom (temporary) at here:1:2, caused by: cause"
    );
    assert_eq!(error.clone().to_string(), error.to_string());
}

#[test]
fn errors_say_where_they_come_from() {
    let error = Error::invalid_argument("boom".to_string(), "here:1:2");
    assert_eq!(error.to_string(), "boom (permanent) at here:1:2");
    let error = Error::read_only_violation("boom".to_string(), "here:1:2");
    assert_eq!(error.to_string(), "boom (permanent) at here:1:2");
    let error = Error::metadata_decode("boom".to_string(), "here:1:2");
    assert_eq!(error.to_string(), "boom (permanent) at here:1:2");
    let error = Error::poisoned_lock("here:1:2");
    assert_eq!(error.to_string(), "lock is poisoned (permanent) at here:1:2");
    let error = Error::slatedb_failure(slatedb::Error::data("bad".to_string()), "here:1:2");
    assert!(error
        .to_string()
        .starts_with("slatedb error (permanent) at here:1:2, caused by: "));
    let error = Error::io_failure(std::io::Error::other("cause"), "here:1:2");
    assert_eq!(
        error.to_string(),
        "io error (permanent) at here:1:2, caused by: cause"
    );

    let error = Error::from(std::io::Error::other("cause"));
    assert!(error.to_string().starts_with("io error (permanent) at "));
    let error = slatefs::FileOpenFlags::read_only()
        .ensure_writable(7)
        .expect_err("read only");
    assert!(error
        .to_string()
        .ends_with("(permanent) at src/flags.rs"));
}

#[test]
fn codes_are_stable() {
    let numbers = [
        (ErrorCode::MetadataDecode, 1),
        (ErrorCode::FileNotFound, 2),
        (ErrorCode::FileAlreadyExists, 3),
        (ErrorCode::ReadOnlyViolation, 4),
        (ErrorCode::SlateDb, 5),
        (ErrorCode::InvalidArgument, 6),
        (ErrorCode::Io, 7),
    ];
    for (code, number) in numbers {
        assert_eq!(code.as_i32(), number);
    }
}

#[test]
fn every_variant_has_its_code_and_status() {
    let inner = || {
        ErrorStruct::new(
            "x".to_string(),
            ErrorStatus::Temporary,
            "here".to_string(),
        )
    };
    let errors = [
        (Error::MetadataDecode(inner()), ErrorCode::MetadataDecode),
        (Error::FileNotFound(inner()), ErrorCode::FileNotFound),
        (Error::FileAlreadyExists(inner()), ErrorCode::FileAlreadyExists),
        (Error::ReadOnlyViolation(inner()), ErrorCode::ReadOnlyViolation),
        (Error::SlateDb(inner()), ErrorCode::SlateDb),
        (Error::InvalidArgument(inner()), ErrorCode::InvalidArgument),
        (Error::Io(inner()), ErrorCode::Io),
    ];
    for (error, code) in errors {
        assert_eq!(error.code(), code);
        assert_eq!(error.clone().code(), code);
        assert_eq!(error.status(), ErrorStatus::Temporary);
        assert_eq!(error.to_string(), "x (temporary) at here");
    }
}

#[test]
fn constructors_say_what_went_wrong() {
    let error = Error::file_not_found("duck.db", "here");
    assert_eq!(error.code(), ErrorCode::FileNotFound);
    assert_eq!(error.to_string(), "file not found: duck.db (permanent) at here");

    let error = Error::io_with_source(
        "no storage".to_string(),
        std::io::Error::other("cause"),
        "here",
    );
    assert_eq!(error.code(), ErrorCode::Io);
    assert_eq!(
        error.to_string(),
        "no storage (permanent) at here, caused by: cause"
    );

    let error = Error::metadata_decode_with_source(
        "bad".to_string(),
        std::io::Error::other("cause"),
        "here",
    );
    assert_eq!(error.code(), ErrorCode::MetadataDecode);
    assert_eq!(error.to_string(), "bad (permanent) at here, caused by: cause");

    assert_eq!(
        Error::read_only_violation("no".to_string(), "here").code(),
        ErrorCode::ReadOnlyViolation
    );
    assert_eq!(
        Error::metadata_decode("no".to_string(), "here").code(),
        ErrorCode::MetadataDecode
    );
}
