use vstd::prelude::*;

verus! {

/// The error taxonomy of the library.
///
/// Parse errors abort the entire enclosing extraction call: a structural
/// mismatch signals that the extractor's assumptions are stale, and silently
/// dropping rows would risk under-reporting new content, so no partial result
/// is ever returned.
#[derive(Debug, PartialEq, Eq)]
pub enum Error {
    /// A network or HTTP failure reported by the transport, with its message.
    TransportError(String),
    /// Authentication or reply submission was rejected. The server signals
    /// this by HTTP status only, so "not authorized" and other submission
    /// failures are deliberately conflated.
    LoginError,
    /// Persisted session-cookie data was malformed or unreadable.
    SessionStoreError(String),
    /// A thread-listing page did not have the expected structure; carries the
    /// offending row's raw markup.
    ThreadParsingError(String),
    /// A thread page did not have the expected structure; carries the
    /// offending post's raw markup.
    PostParsingError(String),
    /// A reply-compose page was missing the form or one of its token fields.
    ReplyParsingError,
}

/// The mathematical shape of an [`Error`]: each message as a character
/// sequence.
pub enum ErrorV {
    TransportError(Seq<char>),
    LoginError,
    SessionStoreError(Seq<char>),
    ThreadParsingError(Seq<char>),
    PostParsingError(Seq<char>),
    ReplyParsingError,
}

impl View for Error {
    type V = ErrorV;

    open spec fn view(&self) -> ErrorV {
        match self {
            Error::TransportError(m) => ErrorV::TransportError(m@),
            Error::LoginError => ErrorV::LoginError,
            Error::SessionStoreError(m) => ErrorV::SessionStoreError(m@),
            Error::ThreadParsingError(m) => ErrorV::ThreadParsingError(m@),
            Error::PostParsingError(m) => ErrorV::PostParsingError(m@),
            Error::ReplyParsingError => ErrorV::ReplyParsingError,
        }
    }
}

} // verus!
