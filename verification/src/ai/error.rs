use crate::text::{decimal, push_decimal, push_text};
use vstd::prelude::*;
use vstd::string::*;

verus! {

/// What went wrong in the gateway.
#[derive(Clone, Debug, PartialEq, Eq)]
pub enum ChatErrorKind {
    /// No backend can be resolved from the configuration.
    Configuration,
    /// The network exchange itself failed.
    Transport,
    /// The provider answered with a status outside 200..=299.
    Provider { status: u16, body: String },
    /// No stream entry has the identifier that was polled.
    NotFound,
}

/// An error of the gateway: its kind and the text shown to a person.
#[derive(Clone, Debug, PartialEq, Eq)]
pub struct ChatError {
    pub kind: ChatErrorKind,
    pub message: String,
}

pub type ChatResult<T> = Result<T, ChatError>;

/// The text of the error for a configuration that names no backend.
pub open spec fn no_backend_text() -> Seq<char> {
    "No LLM configured. Set LLM_ENDPOINT for a custom backend, BLACKBIRD_ENDPOINT for Blackbird, or LLM_USE_OLLAMA=true for local Ollama."@
}

/// The text of the error for an identifier that no stream has.
pub open spec fn invalid_stream_text() -> Seq<char> {
    "invalid stream id"@
}

/// The text of a provider error: the provider's label, the status in decimal
/// and the body of the response.
pub open spec fn provider_text(label: Seq<char>, status: u16, body: Seq<char>) -> Seq<char> {
    label + " error "@ + decimal(status as nat) + ": "@ + body
}

impl ChatError {
    pub open spec fn is_configuration(self) -> bool {
        self.kind is Configuration && self.message@ == no_backend_text()
    }

    pub open spec fn is_not_found(self) -> bool {
        self.kind is NotFound && self.message@ == invalid_stream_text()
    }

    pub open spec fn is_transport(self, message: Seq<char>) -> bool {
        self.kind is Transport && self.message@ == message
    }

    pub open spec fn is_provider(self, label: Seq<char>, status: u16, body: Seq<char>) -> bool {
        &&& self.kind matches ChatErrorKind::Provider { status: s, body: b }
        &&& s == status
        &&& b@ == body
        &&& self.message@ == provider_text(label, status, body)
    }

    /// An error of the given kind with the given text.
    pub fn new(kind: ChatErrorKind, message: String) -> (error: ChatError)
        ensures
            error.kind == kind,
            error.message == message,
    {
        ChatError { kind, message }
    }

    /// The error for a configuration that names no backend. Its text names the
    /// three ways to configure one.
    pub fn configuration() -> (error: ChatError)
        ensures
            error.is_configuration(),
    {
        ChatError {
            kind: ChatErrorKind::Configuration,
            message: String::from_str(
                "No LLM configured. Set LLM_ENDPOINT for a custom backend, BLACKBIRD_ENDPOINT for Blackbird, or LLM_USE_OLLAMA=true for local Ollama.",
            ),
        }
    }

    /// The error for an identifier that no stream has.
    pub fn not_found() -> (error: ChatError)
        ensures
            error.is_not_found(),
    {
        ChatError { kind: ChatErrorKind::NotFound, message: String::from_str("invalid stream id") }
    }

    /// The error for a network exchange that failed with `message`.
    pub fn transport(message: &str) -> (error: ChatError)
        ensures
            error.is_transport(message@),
    {
        ChatError { kind: ChatErrorKind::Transport, message: String::from_str(message) }
    }

    /// The error for a response whose status is outside 200..=299.
    pub fn provider(label: &str, status: u16, body: &str) -> (error: ChatError)
        ensures
            error.is_provider(label@, status, body@),
    {
        let mut message = String::from_str(label);
        push_text(&mut message, " error ");
        push_decimal(&mut message, status as u64);
        push_text(&mut message, ": ");
        push_text(&mut message, body);
        ChatError {
            kind: ChatErrorKind::Provider { status, body: String::from_str(body) },
            message,
        }
    }

    /// The text shown to a person.
    pub fn to_string(&self) -> (text: String)
        ensures
            text@ == self.message@,
    {
        self.message.clone()
    }
}

/// Whether `status` is one of the success codes 200..=299.
pub open spec fn is_success(status: u16) -> bool {
    200 <= status <= 299
}

pub fn status_is_success(status: u16) -> (ok: bool)
    ensures
        ok == is_success(status),
{
    200 <= status && status <= 299
}

} // verus!
