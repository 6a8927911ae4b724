//! Error values surfaced on the result channel.
//!
//! Every failure on a connection is converted into one of these and handed
//! to the consumer; none of them aborts a worker. Each exec enum has a
//! spec-level mirror so that contracts can speak about which error an input
//! produces.

use vstd::prelude::*;

verus! {

/// Spec mirror of `BuilderError`.
pub enum SpecBuilderError {
    CannotBind,
    MissingListener,
    MissingCallback,
}

/// Spec mirror of `ParseError`.
pub enum SpecParseError {
    NotFound(Seq<u8>),
    HeaderError(Seq<u8>),
    ParameterError(Seq<u8>),
}

/// Spec mirror of `HandleConnectionError`.
pub enum SpecHandleConnectionError {
    Empty,
    FormatUtf8Error,
    NoBodyError,
}

/// Spec mirror of `NotificationError`.
pub enum SpecNotificationError {
    MissingParameter(Seq<u8>),
    DateTimeError,
}

/// Spec mirror of `Error`.
pub enum SpecError {
    Builder(SpecBuilderError),
    TcpError,
    Parse(SpecParseError),
    SubscriptionError(Seq<u8>),
    HandleConnection(SpecHandleConnectionError),
    Notification(SpecNotificationError),
}

/// Failure to assemble a listener.
#[derive(Debug, PartialEq, Eq)]
pub enum BuilderError {
    /// The listening socket could not be bound.
    CannotBind,
    /// No listening socket was supplied.
    MissingListener,
    /// No callback URL was supplied.
    MissingCallback,
}

impl View for BuilderError {
    type V = SpecBuilderError;

    open spec fn view(&self) -> SpecBuilderError {
        match self {
            BuilderError::CannotBind => SpecBuilderError::CannotBind,
            BuilderError::MissingListener => SpecBuilderError::MissingListener,
            BuilderError::MissingCallback => SpecBuilderError::MissingCallback,
        }
    }
}

/// Failure to parse an inbound message, naming the missing or offending
/// token.
#[derive(Debug, PartialEq, Eq)]
pub enum ParseError {
    /// A required token is absent.
    NotFound(Vec<u8>),
    /// A header line has no `": "` separator.
    HeaderError(Vec<u8>),
    /// A query pair or parameter list is malformed.
    ParameterError(Vec<u8>),
}

impl View for ParseError {
    type V = SpecParseError;

    open spec fn view(&self) -> SpecParseError {
        match self {
            ParseError::NotFound(t) => SpecParseError::NotFound(t@),
            ParseError::HeaderError(t) => SpecParseError::HeaderError(t@),
            ParseError::ParameterError(t) => SpecParseError::ParameterError(t@),
        }
    }
}

/// Failure while turning a connection's bytes into a reaction.
#[derive(Debug, PartialEq, Eq)]
pub enum HandleConnectionError {
    /// The sender is not the expected one.
    Empty,
    /// The message bytes are not valid UTF-8.
    FormatUtf8Error,
    /// The message carries no body where one is required.
    NoBodyError,
}

impl View for HandleConnectionError {
    type V = SpecHandleConnectionError;

    open spec fn view(&self) -> SpecHandleConnectionError {
        match self {
            HandleConnectionError::Empty => SpecHandleConnectionError::Empty,
            HandleConnectionError::FormatUtf8Error => SpecHandleConnectionError::FormatUtf8Error,
            HandleConnectionError::NoBodyError => SpecHandleConnectionError::NoBodyError,
        }
    }
}

/// Failure to decode a notification body.
#[derive(Debug, PartialEq, Eq)]
pub enum NotificationError {
    /// A scanned tag is absent, named without its brackets.
    MissingParameter(Vec<u8>),
    /// A timestamp is not valid ISO-8601.
    DateTimeError,
}

impl View for NotificationError {
    type V = SpecNotificationError;

    open spec fn view(&self) -> SpecNotificationError {
        match self {
            NotificationError::MissingParameter(t) => SpecNotificationError::MissingParameter(t@),
            NotificationError::DateTimeError => SpecNotificationError::DateTimeError,
        }
    }
}

/// Any failure surfaced to the consumer.
#[derive(Debug, PartialEq, Eq)]
pub enum Error {
    /// The listener could not be assembled.
    Builder(BuilderError),
    /// The transport failed while reading or writing.
    TcpError,
    /// The message could not be parsed.
    Parse(ParseError),
    /// The hub rejected a subscription; the payload is the reason.
    SubscriptionError(Vec<u8>),
    /// The connection could not be handled.
    HandleConnection(HandleConnectionError),
    /// The notification body could not be decoded.
    Notification(NotificationError),
}

impl View for Error {
    type V = SpecError;

    open spec fn view(&self) -> SpecError {
        match self {
            Error::Builder(e) => SpecError::Builder(e@),
            Error::TcpError => SpecError::TcpError,
            Error::Parse(e) => SpecError::Parse(e@),
            Error::SubscriptionError(t) => SpecError::SubscriptionError(t@),
            Error::HandleConnection(e) => SpecError::HandleConnection(e@),
            Error::Notification(e) => SpecError::Notification(e@),
        }
    }
}

} // verus!
