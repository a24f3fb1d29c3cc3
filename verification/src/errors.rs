//! The errors that the library's operations return.

use vstd::prelude::*;
use vstd::string::*;
use crate::permissions::{spec_type_name, PermissionType};
use crate::text::join_text;

verus! {

/// The class of an error, as a script sees it.
#[derive(Clone, Copy, Debug, PartialEq, Eq, Structural)]
pub enum ErrorKind {
    /// A permission check failed.
    Permission,
    /// Something the operation needs is not there.
    Missing,
    /// An argument is malformed.
    Type,
    /// A bound was reached.
    LimitExceeded,
    /// A permission set could not be built.
    Startup,
}

/// What exactly went wrong.
#[derive(Clone, Copy, Debug, PartialEq, Eq, Structural)]
pub enum Reason {
    /// The permission is not registered, or no pattern of its allow-list
    /// matches the resource.
    PermissionDenied(PermissionType),
    /// A filesystem permission was used without a root directory.
    RootNotSpecified,
    /// A path does not start with the separator.
    NotAbsolute,
    /// A path holds a parent-directory component.
    ParentDir,
    /// A pattern does not translate to a regular expression that compiles.
    InvalidPattern,
    /// No HTTP event is attached.
    UnsupportedEvent,
    /// The response has already been handed to the responder.
    ResponseSent,
    /// The request has no header of that name.
    MissingHeader,
    /// A header name is not a valid HTTP token.
    InvalidHeaderName,
    /// A header value holds a control character.
    InvalidHeaderValue,
    /// A header value is not visible ASCII.
    OpaqueHeaderValue,
    /// A map of headers cannot take another header.
    TooManyHeaders,
    /// The HTTP version string is not one of the five known ones.
    InvalidVersion,
    /// The status code is outside 100..=999.
    InvalidStatus,
    /// The seek origin is not 0, 1 or 2.
    InvalidWhence,
    /// A seek from the start of the file has a negative offset.
    InvalidOffset,
    /// The response body queue is full.
    QueueFull,
    /// A module URL has a scheme other than `file`.
    UnsupportedScheme,
    /// A module URL does not start with `file://`.
    NoFilePath,
}

/// An error: its class, its reason, and the text it is about (a path, a
/// header name, a version string; empty where there is none).
#[derive(Debug)]
pub struct Error {
    pub kind: ErrorKind,
    pub reason: Reason,
    pub subject: String,
}

/// The mathematical value of an [`Error`].
pub struct ErrorView {
    pub kind: ErrorKind,
    pub reason: Reason,
    pub subject: Seq<char>,
}

impl View for Error {
    type V = ErrorView;

    open spec fn view(&self) -> ErrorView {
        ErrorView { kind: self.kind, reason: self.reason, subject: self.subject@ }
    }
}

/// The error value with the given parts.
pub open spec fn failure(kind: ErrorKind, reason: Reason, subject: Seq<char>) -> ErrorView {
    ErrorView { kind, reason, subject }
}

/// The result `r` of an operation is the result `expected` that its
/// specification gives: both succeed, or both fail with the same error.
pub open spec fn agrees(r: Result<(), Error>, expected: Result<(), ErrorView>) -> bool {
    match (r, expected) {
        (Ok(_), Ok(_)) => true,
        (Err(e), Err(v)) => e@ == v,
        _ => false,
    }
}

/// What a reason says of itself, for every reason but a refused permission.
pub open spec fn reason_text(reason: Reason) -> Seq<char> {
    match reason {
        Reason::PermissionDenied(_) => "permission denied"@,
        Reason::RootNotSpecified => "root path not specified"@,
        Reason::NotAbsolute =>
            "expected an absolute path starting with a path separator"@,
        Reason::ParentDir => "no support for \"..\" paths"@,
        Reason::InvalidPattern => "pattern does not compile"@,
        Reason::UnsupportedEvent => "unsupported event, \"HttpEvent\""@,
        Reason::ResponseSent => "response already sent"@,
        Reason::MissingHeader => "missing header"@,
        Reason::InvalidHeaderName => "invalid header name"@,
        Reason::InvalidHeaderValue => "invalid header value"@,
        Reason::OpaqueHeaderValue => "header value is not visible ASCII"@,
        Reason::TooManyHeaders => "too many headers"@,
        Reason::InvalidVersion =>
            "invalid HTTP version, can be one of [\"0.9\", \"1.0\", \"1.1\", \"2\", \"3\"]"@,
        Reason::InvalidStatus => "invalid status code"@,
        Reason::InvalidWhence => "invalid whence value"@,
        Reason::InvalidOffset => "invalid seek offset"@,
        Reason::QueueFull => "maximum response body streaming queue limit reached"@,
        Reason::UnsupportedScheme => "unsupported URL scheme in import"@,
        Reason::NoFilePath => "getting path from specifier"@,
    }
}

/// The message of an error. A refused permission is shown with its full
/// name and the resource it was refused on; every other error with what its
/// reason says and, where there is one, its subject in quotes.
pub open spec fn spec_message(e: ErrorView) -> Seq<char> {
    match e.reason {
        Reason::PermissionDenied(permission) => if e.subject.len() == 0 {
            "permission type \""@ + spec_type_name(permission) + "\" does not exist"@
        } else {
            "permission type \""@ + spec_type_name(permission) + "\" does not exist for file \""@
                + e.subject + "\""@
        },
        _ => if e.subject.len() == 0 {
            reason_text(e.reason)
        } else {
            reason_text(e.reason) + ", \""@ + e.subject + "\""@
        },
    }
}

impl Error {
    /// The message of this error, see [`spec_message`].
    pub fn message(&self) -> (text: String)
        ensures
            text@ == spec_message(self@),
    {
        let has_subject = self.subject.as_str().unicode_len() > 0;
        match self.reason {
            Reason::PermissionDenied(permission) => {
                let name = permission.get_type();
                let mut text = join_text("permission type \"", name.as_str());
                if has_subject {
                    text.append("\" does not exist for file \"");
                    text.append(self.subject.as_str());
                    text.append("\"");
                } else {
                    text.append("\" does not exist");
                }
                text
            },
            _ => {
                let mut text = Error::reason_message(self.reason);
                if has_subject {
                    text.append(", \"");
                    text.append(self.subject.as_str());
                    text.append("\"");
                }
                text
            },
        }
    }

    /// What a reason says of itself.
    pub fn reason_message(reason: Reason) -> (text: String)
        ensures
            text@ == reason_text(reason),
    {
        let text: &str = match reason {
            Reason::PermissionDenied(_) => "permission denied",
            Reason::RootNotSpecified => "root path not specified",
            Reason::NotAbsolute => "expected an absolute path starting with a path separator",
            Reason::ParentDir => "no support for \"..\" paths",
            Reason::InvalidPattern => "pattern does not compile",
            Reason::UnsupportedEvent => "unsupported event, \"HttpEvent\"",
            Reason::ResponseSent => "response already sent",
            Reason::MissingHeader => "missing header",
            Reason::InvalidHeaderName => "invalid header name",
            Reason::InvalidHeaderValue => "invalid header value",
            Reason::OpaqueHeaderValue => "header value is not visible ASCII",
            Reason::TooManyHeaders => "too many headers",
            Reason::InvalidVersion =>
                "invalid HTTP version, can be one of [\"0.9\", \"1.0\", \"1.1\", \"2\", \"3\"]",
            Reason::InvalidStatus => "invalid status code",
            Reason::InvalidWhence => "invalid whence value",
            Reason::InvalidOffset => "invalid seek offset",
            Reason::QueueFull => "maximum response body streaming queue limit reached",
            Reason::UnsupportedScheme => "unsupported URL scheme in import",
            Reason::NoFilePath => "getting path from specifier",
        };
        text.to_owned()
    }

    /// An error about `subject`.
    pub fn new(kind: ErrorKind, reason: Reason, subject: &str) -> (e: Error)
        ensures
            e@ == failure(kind, reason, subject@),
    {
        Error { kind, reason, subject: subject.to_owned() }
    }

    /// The same error under another class.
    pub fn with_kind(self, kind: ErrorKind) -> (e: Error)
        ensures
            e@ == failure(kind, self@.reason, self@.subject),
    {
        Error { kind, reason: self.reason, subject: self.subject }
    }
}

} // verus!
