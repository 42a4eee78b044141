//! Payload shared by every [`crate::Error`] variant.

use std::sync::Arc;

use anyhow::Error as AnyhowError;

use vstd::prelude::*;

verus! {

/// `anyhow::Error`, carried as the cause of an error and never looked into.
#[verifier::external_type_specification]
#[verifier::external_body]
pub struct ExAnyhowError(AnyhowError);

/// Whether an operation is worth retrying.
#[derive(Clone, Copy, Debug, PartialEq, Eq, Structural)]
pub enum ErrorStatus {
    /// May resolve on retry (e.g. storage unavailable, rate-limited).
    Temporary,
    /// Cannot be resolved by retrying (e.g. file not found, bad data).
    Permanent,
}

/// The word a status is shown as.
pub open spec fn status_word(status: ErrorStatus) -> Seq<char> {
    match status {
        ErrorStatus::Temporary => "temporary"@,
        ErrorStatus::Permanent => "permanent"@,
    }
}

impl ErrorStatus {
    /// The word this status is shown as.
    pub fn as_str(&self) -> (r: &'static str)
        ensures
            r@ == status_word(*self),
    {
        match self {
            ErrorStatus::Temporary => "temporary",
            ErrorStatus::Permanent => "permanent",
        }
    }
}

/// Message, retryability, source error and the call site that produced it.
#[derive(Debug)]
pub struct ErrorStruct {
    pub message: String,
    pub status: ErrorStatus,
    /// `Arc` so the enclosing [`crate::Error`] stays `Clone`.
    pub source: Option<Arc<AnyhowError>>,
    pub location: Option<String>,
}

/// What an [`ErrorStruct`] says.
#[verifier::ext_equal]
pub struct ErrorDetail {
    pub message: Seq<char>,
    pub status: ErrorStatus,
    pub source: Option<Arc<AnyhowError>>,
    pub location: Option<Seq<char>>,
}

impl View for ErrorStruct {
    type V = ErrorDetail;

    open spec fn view(&self) -> ErrorDetail {
        ErrorDetail {
            message: self.message@,
            status: self.status,
            source: self.source,
            location: match self.location {
                Some(location) => Some(location@),
                None => None,
            },
        }
    }
}

/// The one-line rendering of an error: the message, its status in brackets,
/// then the call site and the cause where they are known.
pub open spec fn rendered(
    message: Seq<char>,
    status: ErrorStatus,
    location: Option<Seq<char>>,
    cause: Option<Seq<char>>,
) -> Seq<char> {
    let head = message + " ("@ + status_word(status) + ")"@;
    let placed = match location {
        Some(location) => head + " at "@ + location,
        None => head,
    };
    match cause {
        Some(cause) => placed + ", caused by: "@ + cause,
        None => placed,
    }
}

/// The rendering of an error whose cause words itself as `cause`.
pub open spec fn rendered_with_cause(
    message: Seq<char>,
    status: ErrorStatus,
    location: Option<Seq<char>>,
    cause: Seq<char>,
) -> Seq<char> {
    rendered(message, status, location, Some(cause))
}

/// Whether `text` renders an error. The words of a cause are its own.
pub open spec fn renders(
    text: Seq<char>,
    message: Seq<char>,
    status: ErrorStatus,
    location: Option<Seq<char>>,
    source: Option<Arc<AnyhowError>>,
) -> bool {
    match source {
        Some(source) => exists|cause: Seq<char>|
            worded_as(*source, cause) && text == #[trigger] rendered_with_cause(
                message,
                status,
                location,
                cause,
            ),
        None => text == rendered(message, status, location, None),
    }
}

/// Renders an error whose cause, if any, is already text.
pub fn render_error(
    message: &str,
    status: ErrorStatus,
    location: Option<&str>,
    cause: Option<&str>,
) -> (r: String)
    ensures
        r@ == rendered(
            message@,
            status,
            match location {
                Some(location) => Some(location@),
                None => None,
            },
            match cause {
                Some(cause) => Some(cause@),
                None => None,
            },
        ),
{
    let mut text = message.to_string();
    text.append(" (");
    text.append(status.as_str());
    text.append(")");
    if let Some(location) = location {
        text.append(" at ");
        text.append(location);
    }
    if let Some(cause) = cause {
        text.append(", caused by: ");
        text.append(cause);
    }
    text
}

/// Whether a cause can word itself as `words`.
pub uninterp spec fn worded_as(cause: AnyhowError, words: Seq<char>) -> bool;

/// `anyhow::Error`'s `Display` text, which is the wrapped error's. How that error
/// words itself is up to it, so no more is claimed of the text than that it is the
/// cause's.
#[verifier::external_body]
fn cause_text(source: &AnyhowError) -> (r: String)
    ensures
        worded_as(*source, r@),
{
    source.to_string()
}

/// Whether what is held as a cause is what `source` converts into.
pub open spec fn caused_by<S: Into<AnyhowError>>(
    held: Option<Arc<AnyhowError>>,
    source: S,
) -> bool {
    exists|cause: AnyhowError| #[trigger]
        call_ensures(<S as Into<AnyhowError>>::into, (source,), cause) && held == Some(
            Arc::new(cause),
        )
}

impl ErrorStruct {
    /// An error with no cause yet, and the call site that produced it, so that
    /// error sites stay traceable across the C ABI where Rust backtraces are
    /// unavailable.
    pub fn new(message: String, status: ErrorStatus, location: String) -> (r: Self)
        ensures
            r@ == (ErrorDetail {
                message: message@,
                status,
                source: None,
                location: Some(location@),
            }),
    {
        ErrorStruct { message, status, source: None, location: Some(location) }
    }

    /// Attaches the underlying cause. The error must not have one already.
    pub fn with_source<S: Into<AnyhowError>>(self, source: S) -> (r: Self)
        requires
            self.source is None,
        ensures
            caused_by(r.source, source),
            r@ == (ErrorDetail { source: r.source, ..self@ }),
    {
        let cause: AnyhowError = source.into();
        ErrorStruct {
            message: self.message,
            status: self.status,
            source: Some(Arc::new(cause)),
            location: self.location,
        }
    }

    /// Returns the underlying cause, for downcasting to a concrete error type.
    pub fn source(&self) -> (r: Option<&AnyhowError>)
        ensures
            r is Some <==> self@.source is Some,
            r matches Some(source) ==> self@.source == Some(Arc::new(*source)),
    {
        match &self.source {
            Some(source) => Some(&**source),
            None => None,
        }
    }

    /// The one-line rendering of the error.
    pub fn to_string(&self) -> (r: String)
        ensures
            renders(r@, self@.message, self@.status, self@.location, self@.source),
    {
        let location: Option<&str> = match &self.location {
            Some(location) => Some(location.as_str()),
            None => None,
        };
        match &self.source {
            Some(source) => {
                let cause = cause_text(source);
                let text = render_error(
                    self.message.as_str(),
                    self.status,
                    location,
                    Some(cause.as_str()),
                );
                assert(worded_as(**source, cause@) && text@ == rendered_with_cause(
                    self@.message,
                    self@.status,
                    self@.location,
                    cause@,
                ));
                text
            },
            None => render_error(self.message.as_str(), self.status, location, None),
        }
    }
}

impl Clone for ErrorStruct {
    fn clone(&self) -> (r: Self)
        ensures
            r@ == self@,
    {
        ErrorStruct {
            message: self.message.clone(),
            status: self.status,
            source: match &self.source {
                Some(source) => Some(Arc::clone(source)),
                None => None,
            },
            location: match &self.location {
                Some(location) => Some(location.clone()),
                None => None,
            },
        }
    }
}

/// A rendering starts with the message, tells what is worth retrying from what is not,
/// and gains the place and then the cause where they are known.
pub proof fn renderings_say_everything(
    message: Seq<char>,
    status: ErrorStatus,
    location: Seq<char>,
    place: Option<Seq<char>>,
    cause: Seq<char>,
)
    ensures
        rendered(message, status, place, None).take(message.len() as int) == message,
        rendered(message, ErrorStatus::Temporary, None, None) == message + " (temporary)"@,
        rendered(message, ErrorStatus::Permanent, None, None) == message + " (permanent)"@,
        rendered(message, status, Some(location), None) == rendered(message, status, None, None)
            + " at "@ + location,
        rendered(message, status, place, Some(cause)) == rendered(message, status, place, None)
            + ", caused by: "@ + cause,
        rendered_with_cause(message, status, place, cause) == rendered(
            message,
            status,
            place,
            Some(cause),
        ),
{
    reveal_strlit(" (");
    reveal_strlit(")");
    reveal_strlit("temporary");
    reveal_strlit("permanent");
    reveal_strlit(" (temporary)");
    reveal_strlit(" (permanent)");
    assert(rendered(message, ErrorStatus::Temporary, None, None) =~= message + " (temporary)"@);
    assert(rendered(message, ErrorStatus::Permanent, None, None) =~= message + " (permanent)"@);
    assert(rendered(message, status, place, None).take(message.len() as int) =~= message);
}

} // verus!
