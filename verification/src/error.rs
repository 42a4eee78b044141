//! Errors returned by SlateFS operations.

use std::sync::Arc;

use anyhow::Error as AnyhowError;
use slatedb::Error as SlateDbError;
use std::io::Error as IoError;

use vstd::prelude::*;

use crate::error_struct;
use crate::error_struct::{ErrorStatus, ErrorStruct};
use crate::text;
use crate::text::join2;

verus! {

/// Where errors say that they come from if they come from here.
pub const HERE: &'static str = "src/error.rs";

/// Stable error codes exposed through the C ABI.
#[derive(Clone, Copy, Debug, PartialEq, Eq, Structural)]
pub enum ErrorCode {
    MetadataDecode,
    FileNotFound,
    FileAlreadyExists,
    ReadOnlyViolation,
    SlateDb,
    InvalidArgument,
    Io,
}

impl ErrorCode {
    /// The number a code is known by across the C ABI.
    pub open spec fn number(self) -> int {
        match self {
            ErrorCode::MetadataDecode => 1,
            ErrorCode::FileNotFound => 2,
            ErrorCode::FileAlreadyExists => 3,
            ErrorCode::ReadOnlyViolation => 4,
            ErrorCode::SlateDb => 5,
            ErrorCode::InvalidArgument => 6,
            ErrorCode::Io => 7,
        }
    }

    /// Returns the number of this code.
    pub fn as_i32(self) -> (r: i32)
        ensures
            r == self.number(),
    {
        match self {
            ErrorCode::MetadataDecode => 1,
            ErrorCode::FileNotFound => 2,
            ErrorCode::FileAlreadyExists => 3,
            ErrorCode::ReadOnlyViolation => 4,
            ErrorCode::SlateDb => 5,
            ErrorCode::InvalidArgument => 6,
            ErrorCode::Io => 7,
        }
    }
}

/// All errors returned by SlateFS operations.
#[derive(Debug)]
pub enum Error {
    /// Stored bytes could not be decoded into a known format.
    MetadataDecode(ErrorStruct),

    /// The requested file was not found.
    FileNotFound(ErrorStruct),

    /// A file already exists at the given path.
    FileAlreadyExists(ErrorStruct),

    /// A mutating operation was attempted through a read-only handle.
    ReadOnlyViolation(ErrorStruct),

    /// An error from the underlying SlateDB.
    SlateDb(ErrorStruct),

    /// An invalid argument was provided.
    InvalidArgument(ErrorStruct),

    /// An I/O error occurred.
    Io(ErrorStruct),
}

pub type Result<T> = std::result::Result<T, Error>;

/// What an [`Error`] says: its code and its payload.
#[verifier::ext_equal]
pub struct ErrorView {
    pub code: ErrorCode,
    pub message: Seq<char>,
    pub status: ErrorStatus,
    pub source: Option<Arc<AnyhowError>>,
    pub location: Option<Seq<char>>,
}

/// An error that has just been made: permanent, without cause, and from where it was
/// made.
pub open spec fn plain_error(
    code: ErrorCode,
    message: Seq<char>,
    location: Seq<char>,
) -> ErrorView {
    ErrorView {
        code,
        message,
        status: ErrorStatus::Permanent,
        source: None,
        location: Some(location),
    }
}

/// The error for a request that makes no sense.
pub open spec fn invalid_argument_error(message: Seq<char>, location: Seq<char>) -> ErrorView {
    plain_error(ErrorCode::InvalidArgument, message, location)
}

/// The error for a mutation through something read-only.
pub open spec fn read_only_error(message: Seq<char>, location: Seq<char>) -> ErrorView {
    plain_error(ErrorCode::ReadOnlyViolation, message, location)
}

/// The error for stored bytes that cannot be understood.
pub open spec fn metadata_decode_error(message: Seq<char>, location: Seq<char>) -> ErrorView {
    plain_error(ErrorCode::MetadataDecode, message, location)
}

/// The error for a path nothing is mapped at.
pub open spec fn file_not_found_error(path: Seq<char>, location: Seq<char>) -> ErrorView {
    plain_error(ErrorCode::FileNotFound, "file not found: "@ + path, location)
}

impl Error {
    /// The payload of this error.
    pub open spec fn payload(self) -> ErrorStruct {
        match self {
            Error::MetadataDecode(inner) => inner,
            Error::FileNotFound(inner) => inner,
            Error::FileAlreadyExists(inner) => inner,
            Error::ReadOnlyViolation(inner) => inner,
            Error::SlateDb(inner) => inner,
            Error::InvalidArgument(inner) => inner,
            Error::Io(inner) => inner,
        }
    }

    /// The code of this error.
    pub open spec fn code_of(self) -> ErrorCode {
        match self {
            Error::MetadataDecode(_) => ErrorCode::MetadataDecode,
            Error::FileNotFound(_) => ErrorCode::FileNotFound,
            Error::FileAlreadyExists(_) => ErrorCode::FileAlreadyExists,
            Error::ReadOnlyViolation(_) => ErrorCode::ReadOnlyViolation,
            Error::SlateDb(_) => ErrorCode::SlateDb,
            Error::InvalidArgument(_) => ErrorCode::InvalidArgument,
            Error::Io(_) => ErrorCode::Io,
        }
    }
}

impl View for Error {
    type V = ErrorView;

    open spec fn view(&self) -> ErrorView {
        let detail = self.payload()@;
        ErrorView {
            code: self.code_of(),
            message: detail.message,
            status: detail.status,
            source: detail.source,
            location: detail.location,
        }
    }
}

impl Error {
    /// Returns the stable code used by C ABI consumers.
    pub fn code(&self) -> (r: ErrorCode)
        ensures
            r == self@.code,
    {
        match self {
            Error::MetadataDecode(_) => ErrorCode::MetadataDecode,
            Error::FileNotFound(_) => ErrorCode::FileNotFound,
            Error::FileAlreadyExists(_) => ErrorCode::FileAlreadyExists,
            Error::ReadOnlyViolation(_) => ErrorCode::ReadOnlyViolation,
            Error::SlateDb(_) => ErrorCode::SlateDb,
            Error::InvalidArgument(_) => ErrorCode::InvalidArgument,
            Error::Io(_) => ErrorCode::Io,
        }
    }

    /// Returns the payload.
    pub fn detail(&self) -> (r: &ErrorStruct)
        ensures
            *r == self.payload(),
    {
        match self {
            Error::MetadataDecode(inner) => inner,
            Error::FileNotFound(inner) => inner,
            Error::FileAlreadyExists(inner) => inner,
            Error::ReadOnlyViolation(inner) => inner,
            Error::SlateDb(inner) => inner,
            Error::InvalidArgument(inner) => inner,
            Error::Io(inner) => inner,
        }
    }

    /// Returns whether retrying the failed operation could succeed.
    pub fn status(&self) -> (r: ErrorStatus)
        ensures
            r == self@.status,
    {
        self.detail().status
    }

    /// The one-line rendering of the error, which is that of its payload.
    pub fn to_string(&self) -> (r: String)
        ensures
            error_struct::renders(
                r@,
                self@.message,
                self@.status,
                self@.location,
                self@.source,
            ),
    {
        self.detail().to_string()
    }

    /// A request that makes no sense.
    pub fn invalid_argument(message: String, location: &str) -> (r: Self)
        ensures
            r@ == invalid_argument_error(message@, location@),
    {
        Error::InvalidArgument(
            ErrorStruct::new(message, ErrorStatus::Permanent, location.to_string()),
        )
    }

    /// A mutation through something read-only.
    pub fn read_only_violation(message: String, location: &str) -> (r: Self)
        ensures
            r@ == read_only_error(message@, location@),
    {
        Error::ReadOnlyViolation(
            ErrorStruct::new(message, ErrorStatus::Permanent, location.to_string()),
        )
    }

    /// Stored bytes that cannot be understood.
    pub fn metadata_decode(message: String, location: &str) -> (r: Self)
        ensures
            r@ == metadata_decode_error(message@, location@),
    {
        Error::MetadataDecode(
            ErrorStruct::new(message, ErrorStatus::Permanent, location.to_string()),
        )
    }

    /// Stored bytes that cannot be understood, and why.
    pub fn metadata_decode_with_source<S: Into<AnyhowError>>(
        message: String,
        source: S,
        location: &str,
    ) -> (r: Self)
        ensures
            error_struct::caused_by(r@.source, source),
            r@ == (ErrorView {
                source: r@.source,
                ..metadata_decode_error(message@, location@)
            }),
    {
        Error::MetadataDecode(
            ErrorStruct::new(
                message,
                ErrorStatus::Permanent,
                location.to_string(),
            ).with_source(source),
        )
    }

    /// A path nothing is mapped at.
    pub fn file_not_found(path: &str, location: &str) -> (r: Self)
        ensures
            r@ == file_not_found_error(path@, location@),
    {
        Error::FileNotFound(
            ErrorStruct::new(
                join2("file not found: ", path),
                ErrorStatus::Permanent,
                location.to_string(),
            ),
        )
    }

    /// A failure of the layer below, and why.
    pub fn io_with_source<S: Into<AnyhowError>>(
        message: String,
        source: S,
        location: &str,
    ) -> (r: Self)
        ensures
            error_struct::caused_by(r@.source, source),
            r@ == (ErrorView {
                source: r@.source,
                ..plain_error(ErrorCode::Io, message@, location@)
            }),
    {
        Error::Io(
            ErrorStruct::new(
                message,
                ErrorStatus::Permanent,
                location.to_string(),
            ).with_source(source),
        )
    }

    /// A stored record that protobuf cannot decode.
    pub fn undecodable(source: prost::DecodeError, location: &str) -> (r: Self)
        ensures
            error_struct::caused_by(r@.source, source),
            r@ == (ErrorView {
                source: r@.source,
                ..metadata_decode_error("metadata decode error"@, location@)
            }),
    {
        Error::metadata_decode_with_source("metadata decode error".to_string(), source, location)
    }

    /// A failure of SlateDB.
    pub fn slatedb_failure(source: SlateDbError, location: &str) -> (r: Self)
        ensures
            is_slatedb_failure(r, source, location@),
    {
        let status = kind_of_slatedb_error(&source).status();
        Error::SlateDb(
            ErrorStruct::new(
                "slatedb error".to_string(),
                status,
                location.to_string(),
            ).with_source(source),
        )
    }

    /// A lock that a panic left poisoned.
    pub fn poisoned_lock(location: &str) -> (r: Self)
        ensures
            r@ == plain_error(ErrorCode::Io, "lock is poisoned"@, location@),
    {
        Error::Io(
            ErrorStruct::new(
                "lock is poisoned".to_string(),
                ErrorStatus::Permanent,
                location.to_string(),
            ),
        )
    }

    /// A failure of I/O.
    pub fn io_failure(source: IoError, location: &str) -> (r: Self)
        ensures
            is_io_failure(r, source, location@),
    {
        let status = kind_of_io_error(&source).status();
        Error::Io(
            ErrorStruct::new("io error".to_string(), status, location.to_string()).with_source(
                source,
            ),
        )
    }
}

impl Clone for Error {
    fn clone(&self) -> (r: Self)
        ensures
            r@ == self@,
    {
        match self {
            Error::MetadataDecode(inner) => Error::MetadataDecode(inner.clone()),
            Error::FileNotFound(inner) => Error::FileNotFound(inner.clone()),
            Error::FileAlreadyExists(inner) => Error::FileAlreadyExists(inner.clone()),
            Error::ReadOnlyViolation(inner) => Error::ReadOnlyViolation(inner.clone()),
            Error::SlateDb(inner) => Error::SlateDb(inner.clone()),
            Error::InvalidArgument(inner) => Error::InvalidArgument(inner.clone()),
            Error::Io(inner) => Error::Io(inner.clone()),
        }
    }
}

/// `prost::DecodeError`, carried as a cause and never looked into.
#[verifier::external_type_specification]
#[verifier::external_body]
pub struct ExDecodeError(prost::DecodeError);

impl From<prost::DecodeError> for Error {
    fn from(source: prost::DecodeError) -> (r: Self)
        ensures
            error_struct::caused_by(r@.source, source),
            r@ == (ErrorView {
                source: r@.source,
                ..metadata_decode_error("metadata decode error"@, HERE@)
            }),
    {
        Error::undecodable(source, HERE)
    }
}

impl vstd::std_specs::convert::FromSpecImpl<prost::DecodeError> for Error {
    open spec fn obeys_from_spec() -> bool {
        false
    }

    open spec fn from_spec(source: prost::DecodeError) -> Error {
        arbitrary()
    }
}

/// `slatedb::Error`, carried as a cause and asked for its kind.
#[verifier::external_type_specification]
#[verifier::external_body]
pub struct ExSlateDbError(SlateDbError);

/// The kinds of SlateDB error that something depends on.
#[derive(Clone, Copy, Debug, PartialEq, Eq, Structural)]
pub enum SlateDbErrorKind {
    Unavailable,
    Transaction,
    Data,
    Other,
}

/// The kind that `slatedb::Error::kind` gives.
pub uninterp spec fn slatedb_error_kind(source: SlateDbError) -> SlateDbErrorKind;

/// `slatedb::Error::kind`: the kind the error was made with, those that nothing
/// depends on taken as one.
#[verifier::external_body]
pub(crate) fn kind_of_slatedb_error(source: &SlateDbError) -> (r: SlateDbErrorKind)
    ensures
        r == slatedb_error_kind(*source),
{
    match source.kind() {
        slatedb::ErrorKind::Unavailable => SlateDbErrorKind::Unavailable,
        slatedb::ErrorKind::Transaction => SlateDbErrorKind::Transaction,
        slatedb::ErrorKind::Data => SlateDbErrorKind::Data,
        _ => SlateDbErrorKind::Other,
    }
}

/// The kind and the message of a SlateDB error as it words them, with a colon and
/// a space between.
pub uninterp spec fn slatedb_error_head(source: SlateDbError) -> Seq<char>;

/// Whether a SlateDB error was caused by another error.
pub uninterp spec fn slatedb_error_is_caused(source: SlateDbError) -> bool;

/// Whether a SlateDB error can word itself as `words`.
pub uninterp spec fn slatedb_error_worded(source: SlateDbError, words: Seq<char>) -> bool;

/// `slatedb::Error`'s `Display` text: its kind and its message, and where another
/// error caused it, behind them that error's own words, of which nothing more is
/// claimed.
#[verifier::external_body]
pub(crate) fn words_of_slatedb_error(source: &SlateDbError) -> (r: String)
    ensures
        slatedb_error_worded(*source, r@),
        text::has_head(r@, slatedb_error_head(*source)),
        !slatedb_error_is_caused(*source) ==> r@ == slatedb_error_head(*source),
{
    source.to_string()
}

/// Whether a SlateDB error is worth retrying.
pub open spec fn slatedb_status(kind: SlateDbErrorKind) -> ErrorStatus {
    match kind {
        SlateDbErrorKind::Unavailable => ErrorStatus::Temporary,
        SlateDbErrorKind::Transaction => ErrorStatus::Temporary,
        SlateDbErrorKind::Data => ErrorStatus::Permanent,
        SlateDbErrorKind::Other => ErrorStatus::Permanent,
    }
}

impl SlateDbErrorKind {
    /// Whether an error of this kind is worth retrying. An unknown kind is not: a
    /// caller that keeps retrying an unknown failure is worse than one that
    /// surfaces it.
    pub fn status(self) -> (r: ErrorStatus)
        ensures
            r == slatedb_status(self),
    {
        match self {
            SlateDbErrorKind::Unavailable | SlateDbErrorKind::Transaction => ErrorStatus::Temporary,
            SlateDbErrorKind::Data | SlateDbErrorKind::Other => ErrorStatus::Permanent,
        }
    }
}

/// Whether `e` is the error for a failure of SlateDB.
pub open spec fn is_slatedb_failure(e: Error, source: SlateDbError, location: Seq<char>) -> bool {
    &&& error_struct::caused_by(e@.source, source)
    &&& e@ == (ErrorView {
        source: e@.source,
        status: slatedb_status(slatedb_error_kind(source)),
        ..plain_error(ErrorCode::SlateDb, "slatedb error"@, location)
    })
}

impl From<SlateDbError> for Error {
    fn from(source: SlateDbError) -> (r: Self)
        ensures
            is_slatedb_failure(r, source, HERE@),
    {
        Error::slatedb_failure(source, HERE)
    }
}

impl vstd::std_specs::convert::FromSpecImpl<SlateDbError> for Error {
    open spec fn obeys_from_spec() -> bool {
        false
    }

    open spec fn from_spec(source: SlateDbError) -> Error {
        arbitrary()
    }
}

/// `std::sync::PoisonError`, of which nothing is kept.
#[verifier::external_type_specification]
#[verifier::external_body]
#[verifier::reject_recursive_types(T)]
pub struct ExPoisonError<T>(std::sync::PoisonError<T>);

impl<T> From<std::sync::PoisonError<T>> for Error {
    fn from(source: std::sync::PoisonError<T>) -> (r: Self)
        ensures
            r@ == plain_error(ErrorCode::Io, "lock is poisoned"@, HERE@),
    {
        Error::poisoned_lock(HERE)
    }
}

impl<T> vstd::std_specs::convert::FromSpecImpl<std::sync::PoisonError<T>> for Error {
    open spec fn obeys_from_spec() -> bool {
        false
    }

    open spec fn from_spec(source: std::sync::PoisonError<T>) -> Error {
        arbitrary()
    }
}

/// `std::io::Error`, carried as a cause and asked for its kind.
#[verifier::external_type_specification]
#[verifier::external_body]
pub struct ExIoError(IoError);

/// The kinds of I/O error that retrying depends on.
#[derive(Clone, Copy, Debug, PartialEq, Eq, Structural)]
pub enum IoErrorKind {
    Interrupted,
    WouldBlock,
    TimedOut,
    Other,
}

/// The kind that `std::io::Error::kind` gives.
pub uninterp spec fn io_error_kind(source: IoError) -> IoErrorKind;

/// `std::io::Error::kind`: the kind the error was made with, those that retrying
/// does not depend on taken as one.
#[verifier::external_body]
fn kind_of_io_error(source: &IoError) -> (r: IoErrorKind)
    ensures
        r == io_error_kind(*source),
{
    match source.kind() {
        std::io::ErrorKind::Interrupted => IoErrorKind::Interrupted,
        std::io::ErrorKind::WouldBlock => IoErrorKind::WouldBlock,
        std::io::ErrorKind::TimedOut => IoErrorKind::TimedOut,
        _ => IoErrorKind::Other,
    }
}

/// Whether an I/O error is worth retrying.
pub open spec fn io_status(kind: IoErrorKind) -> ErrorStatus {
    match kind {
        IoErrorKind::Interrupted => ErrorStatus::Temporary,
        IoErrorKind::WouldBlock => ErrorStatus::Temporary,
        IoErrorKind::TimedOut => ErrorStatus::Temporary,
        IoErrorKind::Other => ErrorStatus::Permanent,
    }
}

impl IoErrorKind {
    /// Whether an error of this kind is worth retrying.
    pub fn status(self) -> (r: ErrorStatus)
        ensures
            r == io_status(self),
    {
        match self {
            IoErrorKind::Interrupted | IoErrorKind::WouldBlock | IoErrorKind::TimedOut => {
                ErrorStatus::Temporary
            },
            IoErrorKind::Other => ErrorStatus::Permanent,
        }
    }
}

/// Whether `e` is the error for a failure of I/O.
pub open spec fn is_io_failure(e: Error, source: IoError, location: Seq<char>) -> bool {
    &&& error_struct::caused_by(e@.source, source)
    &&& e@ == (ErrorView {
        source: e@.source,
        status: io_status(io_error_kind(source)),
        ..plain_error(ErrorCode::Io, "io error"@, location)
    })
}

impl From<IoError> for Error {
    fn from(source: IoError) -> (r: Self)
        ensures
            is_io_failure(r, source, HERE@),
    {
        Error::io_failure(source, HERE)
    }
}

impl vstd::std_specs::convert::FromSpecImpl<IoError> for Error {
    open spec fn obeys_from_spec() -> bool {
        false
    }

    open spec fn from_spec(source: IoError) -> Error {
        arbitrary()
    }
}

/// Each kind of error has the code that it has always had across the C ABI, none of
/// them is zero, and no two share one.
pub proof fn codes_tell_errors_apart(a: ErrorCode, b: ErrorCode)
    ensures
        a.number() == b.number() <==> a == b,
        1 <= a.number() <= 7,
        a.number() == 1 <==> a is MetadataDecode,
        a.number() == 2 <==> a is FileNotFound,
        a.number() == 3 <==> a is FileAlreadyExists,
        a.number() == 4 <==> a is ReadOnlyViolation,
        a.number() == 5 <==> a is SlateDb,
        a.number() == 6 <==> a is InvalidArgument,
        a.number() == 7 <==> a is Io,
{
}

/// Only what may pass is worth retrying: of SlateDB's failures storage that is not
/// available and a transaction that conflicted, and of I/O what was interrupted, would
/// block or took too long.
pub proof fn only_what_may_pass_is_worth_retrying(kind: SlateDbErrorKind, io_kind: IoErrorKind)
    ensures
        slatedb_status(kind) == ErrorStatus::Temporary <==> kind is Unavailable || kind
            is Transaction,
        slatedb_status(kind) == ErrorStatus::Permanent <==> kind is Data || kind is Other,
        io_status(io_kind) == ErrorStatus::Temporary <==> io_kind is Interrupted || io_kind
            is WouldBlock || io_kind is TimedOut,
        io_status(io_kind) == ErrorStatus::Permanent <==> io_kind is Other,
{
}

/// The failures of the layers below keep their cause, say where they came from, and are
/// worth retrying exactly if that kind of failure is.
pub proof fn failures_below_keep_their_cause(
    e: Error,
    source: SlateDbError,
    io: Error,
    io_source: IoError,
    location: Seq<char>,
)
    requires
        is_slatedb_failure(e, source, location),
        is_io_failure(io, io_source, location),
    ensures
        e is SlateDb,
        e@.source is Some,
        e@.location == Some(location),
        e@.status == ErrorStatus::Temporary <==> slatedb_error_kind(source) is Unavailable
            || slatedb_error_kind(source) is Transaction,
        io is Io,
        io@.source is Some,
        io@.location == Some(location),
        io@.status == ErrorStatus::Temporary <==> !(io_error_kind(io_source) is Other),
{
}

/// What an error says is what it was made with: its code is its variant's, and its
/// message, status, cause and place are its payload's.
pub proof fn errors_say_what_they_were_made_with(detail: ErrorStruct)
    ensures
        Error::MetadataDecode(detail)@.code is MetadataDecode,
        Error::FileNotFound(detail)@.code is FileNotFound,
        Error::FileAlreadyExists(detail)@.code is FileAlreadyExists,
        Error::ReadOnlyViolation(detail)@.code is ReadOnlyViolation,
        Error::SlateDb(detail)@.code is SlateDb,
        Error::InvalidArgument(detail)@.code is InvalidArgument,
        Error::Io(detail)@.code is Io,
        Error::Io(detail)@.message == detail.message@,
        Error::Io(detail)@.status == detail.status,
        Error::Io(detail)@.source == detail.source,
        Error::SlateDb(detail)@.message == detail.message@,
        Error::SlateDb(detail)@.status == detail.status,
{
}

/// Errors that the library makes itself are not worth retrying, have no cause, and say
/// where they come from and what is wrong.
pub proof fn own_errors_are_permanent(message: Seq<char>, location: Seq<char>)
    ensures
        invalid_argument_error(message, location).code is InvalidArgument,
        read_only_error(message, location).code is ReadOnlyViolation,
        metadata_decode_error(message, location).code is MetadataDecode,
        file_not_found_error(message, location).code is FileNotFound,
        invalid_argument_error(message, location).message == message,
        read_only_error(message, location).message == message,
        metadata_decode_error(message, location).message == message,
        file_not_found_error(message, location).message.len() > message.len(),
        file_not_found_error(message, location).message.skip(
            file_not_found_error(message, location).message.len() - message.len(),
        ) == message,
        forall|code: ErrorCode| #[trigger]
            plain_error(code, message, location).status == ErrorStatus::Permanent && plain_error(
                code,
                message,
                location,
            ).source is None && plain_error(code, message, location).location == Some(location),
{
    reveal_strlit("file not found: ");
    let shown = file_not_found_error(message, location).message;
    assert(shown.skip(shown.len() - message.len()) =~= message);
}

} // verus!
