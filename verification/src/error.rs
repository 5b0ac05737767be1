//! Classified errors for the driver library.
//!
//! Every failure the library reports carries an [`ErrorKind`] that says which
//! layer failed, a human-readable detail string, and optionally the message of
//! the underlying cause.
use vstd::prelude::*;

verus! {

/// Which layer of the library an error came from.
#[derive(Debug, Clone, Copy, PartialEq, Eq, Structural)]
pub enum ErrorKind {
    /// Driver-level command dispatch failed.
    Driver,
    /// The supervised driver process or one of its channels failed.
    Service,
    /// The execution-context bridge failed.
    Context,
    /// The browser itself reported a failure.
    Gecko,
    /// Anything else.
    Other,
}

/// The boxed payload of a [`GeckError`]: its kind and, when one is known,
/// the message of the error that caused it.
#[derive(Debug)]
pub struct Inner {
    kind: ErrorKind,
    source: Option<String>,
}

/// The library's error type: a detail string plus a classified inner payload.
#[derive(Debug)]
pub struct GeckError {
    details: String,
    inner: Box<Inner>,
}

impl GeckError {
    /// Builds an error of the given kind, recording the causing error's
    /// message when one is supplied.
    pub fn new(kind: ErrorKind, source: Option<String>, msg: &str) -> (r: GeckError)
        ensures
            r.kind() == kind,
            r.details() == msg@,
            r.source_message() == source,
    {
        GeckError { details: msg.to_owned(), inner: Box::new(Inner { kind, source }) }
    }

    /// The layer this error was classified under.
    pub closed spec fn kind(&self) -> ErrorKind {
        self.inner.kind
    }

    /// The detail string, as a sequence of characters.
    pub closed spec fn details(&self) -> Seq<char> {
        self.details@
    }

    /// The message of the causing error, if one was recorded.
    pub closed spec fn source_message(&self) -> Option<String> {
        self.inner.source
    }

    /// Returns the kind this error was classified under.
    pub fn error_kind(&self) -> (k: ErrorKind)
        ensures
            k == self.kind(),
    {
        self.inner.kind
    }

    /// Renders the error as text, prefixed with the name of the failing layer.
    pub fn display_string(&self) -> (r: String)
        ensures
            r@ == spec_display_prefix(self.kind()) + self.details(),
    {
        let prefix: &str = match self.inner.kind {
            ErrorKind::Driver => "Driver Error: ",
            ErrorKind::Service => "Service Error: ",
            ErrorKind::Context => "Context Error: ",
            ErrorKind::Gecko => "Gecko Error: ",
            ErrorKind::Other => "Error: ",
        };
        let mut out = prefix.to_owned();
        out.append(self.details.as_str());
        out
    }
}

/// The text prefix [`GeckError::display_string`] uses for each kind.
pub open spec fn spec_display_prefix(kind: ErrorKind) -> Seq<char> {
    match kind {
        ErrorKind::Driver => "Driver Error: "@,
        ErrorKind::Service => "Service Error: "@,
        ErrorKind::Context => "Context Error: "@,
        ErrorKind::Gecko => "Gecko Error: "@,
        ErrorKind::Other => "Error: "@,
    }
}

} // verus!
