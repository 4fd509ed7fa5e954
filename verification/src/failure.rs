//! The failures of the engine.
//!
//! A failure is one of three things: a bare status, which is reported
//! without a word; a status with a message for the client; or an unexpected
//! failure, whose message is for the operator. The engine names the class
//! of a failure and leaves it to its caller to pick a transport code.

use vstd::prelude::*;
use vstd::string::StringExecFns;

verus! {

/// The classes of failure that a client can cause.
#[derive(Clone, Copy, Debug, PartialEq, Eq, Structural)]
pub enum Status {
    /// The upload has no body.
    InvalidInput,
    /// The token is not well-formed text.
    BadRequest,
    /// The token is unknown or has expired.
    Unauthorized,
    /// The object is missing or has expired.
    NotFound,
    /// The request asks for something that an object does not offer.
    MethodNotAllowed,
}

/// Why something failed: the first message, and the contexts that were
/// attached to it on the way up, oldest first.
#[derive(Debug)]
pub struct Cause {
    message: String,
    context: Vec<String>,
}

/// A failure of the engine.
#[derive(Debug)]
pub enum Failure {
    /// A status, reported without a message.
    Status(Status),
    /// A status, with a message that the client may see.
    StatusWithMessage(Status, Cause),
    /// A failure of the store, of the encoding or of the file system.
    Unexpected(Cause),
}

/// What a `Cause` holds.
pub struct CauseView {
    pub message: Seq<char>,
    pub context: Seq<Seq<char>>,
}

/// What a `Failure` holds.
pub enum FailureView {
    Status(Status),
    StatusWithMessage(Status, CauseView),
    Unexpected(CauseView),
}

/// How a failure is answered.
#[derive(Clone, Copy, Debug, PartialEq, Eq, Structural)]
pub enum Class {
    /// The client caused it: answer with this status.
    Rejected(Status),
    /// The engine failed: answer with an internal error.
    Internal,
}

/// The answer to a failure: its class, and the text to send along, if any.
#[derive(Debug)]
pub struct Reply {
    pub class: Class,
    pub body: Option<String>,
}

/// The texts of a list of strings.
pub open spec fn texts(strings: Seq<String>) -> Seq<Seq<char>> {
    Seq::new(strings.len(), |i: int| strings[i]@)
}

impl CauseView {
    /// A cause with one message and no context.
    pub open spec fn plain(message: Seq<char>) -> CauseView {
        CauseView { message, context: Seq::empty() }
    }

    /// This cause with one more context around it.
    pub open spec fn wrapped(self, context: Seq<char>) -> CauseView {
        CauseView { message: self.message, context: self.context.push(context) }
    }

    /// The line that stands for the cause: the context attached last, or
    /// the message where there is none.
    pub open spec fn headline(self) -> Seq<char> {
        if self.context.len() > 0 {
            self.context.last()
        } else {
            self.message
        }
    }
}

impl FailureView {
    /// This failure under `status`, unless it has a bare status of its own.
    pub open spec fn with_status(self, status: Status) -> FailureView {
        match self {
            FailureView::Status(s) => FailureView::Status(s),
            FailureView::StatusWithMessage(_, cause) => FailureView::StatusWithMessage(status, cause),
            FailureView::Unexpected(cause) => FailureView::StatusWithMessage(status, cause),
        }
    }

    /// This failure with `message` as its new headline.
    pub open spec fn with_message(self, message: Seq<char>) -> FailureView {
        match self {
            FailureView::Status(s) => FailureView::StatusWithMessage(s, CauseView::plain(message)),
            FailureView::StatusWithMessage(s, cause) => FailureView::StatusWithMessage(
                s,
                cause.wrapped(message),
            ),
            FailureView::Unexpected(cause) => FailureView::Unexpected(cause.wrapped(message)),
        }
    }

    /// The one line that describes this failure.
    pub open spec fn describe(self) -> Seq<char> {
        match self {
            FailureView::Status(s) => spec_label(s),
            FailureView::StatusWithMessage(s, cause) => spec_label(s) + ": "@ + cause.headline(),
            FailureView::Unexpected(cause) => cause.headline(),
        }
    }

    /// The class under which this failure is answered.
    pub open spec fn class(self) -> Class {
        match self {
            FailureView::Status(s) => Class::Rejected(s),
            FailureView::StatusWithMessage(s, _) => Class::Rejected(s),
            FailureView::Unexpected(_) => Class::Internal,
        }
    }

    /// The text that goes to the client with the answer: none for a bare
    /// status, else the headline of the cause.
    pub open spec fn body(self) -> Option<Seq<char>> {
        match self {
            FailureView::Status(_) => None,
            FailureView::StatusWithMessage(_, cause) => Some(cause.headline()),
            FailureView::Unexpected(cause) => Some(cause.headline()),
        }
    }

    /// Whether this is an unexpected failure.
    pub open spec fn is_unexpected(self) -> bool {
        self is Unexpected
    }
}

/// The words for a status.
pub open spec fn spec_label(status: Status) -> Seq<char> {
    match status {
        Status::InvalidInput => "invalid input"@,
        Status::BadRequest => "bad request"@,
        Status::Unauthorized => "unauthorized"@,
        Status::NotFound => "not found"@,
        Status::MethodNotAllowed => "method not allowed"@,
    }
}

impl Status {
    /// The words for this status.
    pub fn label(&self) -> (words: &'static str)
        ensures
            words@ == spec_label(*self),
    {
        match self {
            Status::InvalidInput => "invalid input",
            Status::BadRequest => "bad request",
            Status::Unauthorized => "unauthorized",
            Status::NotFound => "not found",
            Status::MethodNotAllowed => "method not allowed",
        }
    }
}

impl View for Cause {
    type V = CauseView;

    closed spec fn view(&self) -> CauseView {
        CauseView { message: self.message@, context: texts(self.context@) }
    }
}

impl Cause {
    /// A cause with one message and no context.
    pub fn new(message: String) -> (cause: Cause)
        ensures
            cause@ == CauseView::plain(message@),
    {
        let cause = Cause { message, context: Vec::new() };
        assert(texts(cause.context@) =~= Seq::<Seq<char>>::empty());
        cause
    }

    /// This cause with one more context around it.
    pub fn context(self, context: String) -> (cause: Cause)
        ensures
            cause@ == self@.wrapped(context@),
    {
        let mut layers = self.context;
        layers.push(context);
        let cause = Cause { message: self.message, context: layers };
        assert(texts(cause.context@) =~= texts(self.context@).push(context@));
        cause
    }

    /// The line that stands for the cause.
    pub fn headline(&self) -> (line: String)
        ensures
            line@ == self@.headline(),
    {
        let n = self.context.len();
        if n > 0 {
            self.context[n - 1].clone()
        } else {
            self.message.clone()
        }
    }
}

impl View for Failure {
    type V = FailureView;

    open spec fn view(&self) -> FailureView {
        match self {
            Failure::Status(s) => FailureView::Status(*s),
            Failure::StatusWithMessage(s, cause) => FailureView::StatusWithMessage(*s, cause@),
            Failure::Unexpected(cause) => FailureView::Unexpected(cause@),
        }
    }
}

impl Failure {
    /// An unexpected failure with one message.
    pub fn unexpected(message: String) -> (e: Failure)
        ensures
            e@ == FailureView::Unexpected(CauseView::plain(message@)),
    {
        Failure::Unexpected(Cause::new(message))
    }

    /// A failure of class `status` with a message for the client.
    pub fn rejected(status: Status, message: &str) -> (e: Failure)
        ensures
            e@ == FailureView::StatusWithMessage(status, CauseView::plain(message@)),
    {
        Failure::StatusWithMessage(status, Cause::new(String::from_str(message)))
    }

    /// Puts this failure under `status`. A failure that has a bare status
    /// keeps it.
    pub fn with_status(self, status: Status) -> (e: Failure)
        ensures
            e@ == self@.with_status(status),
    {
        match self {
            Failure::Status(s) => Failure::Status(s),
            Failure::StatusWithMessage(_, cause) => Failure::StatusWithMessage(status, cause),
            Failure::Unexpected(cause) => Failure::StatusWithMessage(status, cause),
        }
    }

    /// Attaches `message` to this failure as its new headline. The class
    /// stays; what was said before stays below the new message.
    pub fn with_message(self, message: &str) -> (e: Failure)
        ensures
            e@ == self@.with_message(message@),
    {
        let text = String::from_str(message);
        match self {
            Failure::Status(s) => Failure::StatusWithMessage(s, Cause::new(text)),
            Failure::StatusWithMessage(s, cause) => Failure::StatusWithMessage(s, cause.context(text)),
            Failure::Unexpected(cause) => Failure::Unexpected(cause.context(text)),
        }
    }

    /// The one line that describes this failure: the words for its status,
    /// then the headline of its cause, as far as it has either.
    pub fn describe(&self) -> (line: String)
        ensures
            line@ == self@.describe(),
    {
        match self {
            Failure::Status(s) => String::from_str(s.label()),
            Failure::StatusWithMessage(s, cause) => {
                let mut line = String::from_str(s.label());
                line.append(": ");
                let headline = cause.headline();
                line.append(headline.as_str());
                line
            },
            Failure::Unexpected(cause) => cause.headline(),
        }
    }

    /// How this failure is answered: a bare status goes out without a
    /// body, every other failure with the headline of its cause, and an
    /// unexpected one as an internal error.
    pub fn reply(&self) -> (reply: Reply)
        ensures
            reply.class == self@.class(),
            match reply.body {
                Some(text) => self@.body() == Some(text@),
                None => self@.body() is None,
            },
    {
        match self {
            Failure::Status(s) => Reply { class: Class::Rejected(*s), body: None },
            Failure::StatusWithMessage(s, cause) => Reply {
                class: Class::Rejected(*s),
                body: Some(cause.headline()),
            },
            Failure::Unexpected(cause) => Reply { class: Class::Internal, body: Some(cause.headline()) },
        }
    }
}

/// Puts the failure of `result`, if it is one, under `status`.
pub fn with_status<T>(result: Result<T, Failure>, status: Status) -> (out: Result<T, Failure>)
    ensures
        match (result, out) {
            (Ok(a), Ok(b)) => a == b,
            (Err(e), Err(f)) => f@ == e@.with_status(status),
            _ => false,
        },
{
    match result {
        Ok(value) => Ok(value),
        Err(e) => Err(e.with_status(status)),
    }
}

/// Attaches `message` to the failure of `result`, if it is one.
pub fn with_message<T>(result: Result<T, Failure>, message: &str) -> (out: Result<T, Failure>)
    ensures
        match (result, out) {
            (Ok(a), Ok(b)) => a == b,
            (Err(e), Err(f)) => f@ == e@.with_message(message@),
            _ => false,
        },
{
    match result {
        Ok(value) => Ok(value),
        Err(e) => Err(e.with_message(message)),
    }
}

} // verus!
