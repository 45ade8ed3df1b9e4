use crate::ai::blackbird::BlackbirdBackend;
use crate::ai::custom::CustomBackend;
use crate::ai::error::{ChatError, ChatResult};
use crate::ai::ollama::OllamaBackend;
use crate::text::{ascii_lower, same_text, to_ascii_lower};
use crate::types::{ChatMessage, Role};
use vstd::prelude::*;
use vstd::string::*;

verus! {

/// The configuration inputs of the gateway, as they stand at the time of a
/// call. Each is `None` where it is not set.
pub struct BackendConfig {
    /// The URL of a direct HTTP endpoint.
    pub llm_endpoint: Option<String>,
    /// The text of the flag that opts in to the local model.
    pub use_ollama: Option<String>,
    /// The name of the local model.
    pub llm_model: Option<String>,
    /// The URL of the hosted service.
    pub blackbird_endpoint: Option<String>,
    /// The tier asked of the hosted service.
    pub blackbird_tier: Option<String>,
    /// The model asked of the hosted service.
    pub blackbird_model: Option<String>,
    /// The credential sent to the hosted service.
    pub blackbird_api_key: Option<String>,
}

/// The backend that a configuration resolves to.
pub enum BackendSelection {
    DirectHttp(CustomBackend),
    LocalModel(OllamaBackend),
    HostedService(BlackbirdBackend),
}

/// Whether the text of a flag switches it on: `1`, `true`, `yes` or `on`,
/// in small or capital ASCII letters.
pub open spec fn flag_on(value: Seq<char>) -> bool {
    let lower = ascii_lower(value);
    lower == "1"@ || lower == "true"@ || lower == "yes"@ || lower == "on"@
}

/// The characters of an optional text.
pub open spec fn opt_text(value: Option<String>) -> Option<Seq<char>> {
    match value {
        Some(s) => Some(s@),
        None => None,
    }
}

/// The characters of an optional text, or `fallback` where there is none.
pub open spec fn text_or(value: Option<String>, fallback: Seq<char>) -> Seq<char> {
    match value {
        Some(s) => s@,
        None => fallback,
    }
}

pub fn is_flag_on(value: &str) -> (on: bool)
    ensures
        on == flag_on(value@),
{
    let lower = to_ascii_lower(value);
    same_text(lower.as_str(), "1") || same_text(lower.as_str(), "true") || same_text(
        lower.as_str(),
        "yes",
    ) || same_text(lower.as_str(), "on")
}

/// A copy of an optional text, or of `fallback` where there is none.
pub fn clone_or(value: &Option<String>, fallback: &str) -> (out: String)
    ensures
        out@ == text_or(*value, fallback@),
{
    match value {
        Some(s) => s.clone(),
        None => String::from_str(fallback),
    }
}

/// A copy of an optional text.
pub fn clone_opt(value: &Option<String>) -> (out: Option<String>)
    ensures
        opt_text(out) == opt_text(*value),
{
    match value {
        Some(s) => Some(s.clone()),
        None => None,
    }
}

impl BackendConfig {
    /// A configuration in which nothing is set.
    pub fn empty() -> (config: BackendConfig)
        ensures
            config.llm_endpoint is None,
            config.use_ollama is None,
            config.llm_model is None,
            config.blackbird_endpoint is None,
            config.blackbird_tier is None,
            config.blackbird_model is None,
            config.blackbird_api_key is None,
    {
        BackendConfig {
            llm_endpoint: None,
            use_ollama: None,
            llm_model: None,
            blackbird_endpoint: None,
            blackbird_tier: None,
            blackbird_model: None,
            blackbird_api_key: None,
        }
    }

    /// Whether the local model is opted in to.
    pub open spec fn local_opted_in(self) -> bool {
        match self.use_ollama {
            Some(flag) => flag_on(flag@),
            None => false,
        }
    }

    /// Whether the configuration names any backend.
    pub open spec fn names_backend(self) -> bool {
        self.llm_endpoint is Some || self.local_opted_in() || self.blackbird_endpoint is Some
    }
}

/// What a selection is, as a mathematical value.
pub enum SelectionModel {
    DirectHttp { endpoint: Seq<char> },
    LocalModel { model: Seq<char>, endpoint: Seq<char> },
    HostedService {
        endpoint: Seq<char>,
        tier: Seq<char>,
        model: Seq<char>,
        credential: Option<Seq<char>>,
    },
}

/// The fixed address of the local model server.
pub open spec fn local_endpoint() -> Seq<char> {
    "http://127.0.0.1:11434/api/chat"@
}

/// The name of the local model where none is configured.
pub open spec fn default_local_model() -> Seq<char> {
    "gpt-oss:20b"@
}

/// The tier asked of the hosted service where none is configured.
pub open spec fn default_tier() -> Seq<char> {
    "ultra"@
}

/// The model asked of the hosted service where none is configured.
pub open spec fn default_hosted_model() -> Seq<char> {
    "gpt-oss-120b"@
}

/// The backend that a configuration resolves to. The first of these that
/// holds decides: a direct endpoint is set; the local model is opted in to;
/// an endpoint of the hosted service is set. `None` where none holds. The
/// local model is always reached at its fixed address.
pub open spec fn selection_of(config: BackendConfig) -> Option<SelectionModel> {
    if config.llm_endpoint is Some {
        Some(SelectionModel::DirectHttp { endpoint: config.llm_endpoint->0@ })
    } else if config.local_opted_in() {
        Some(
            SelectionModel::LocalModel {
                model: text_or(config.llm_model, default_local_model()),
                endpoint: local_endpoint(),
            },
        )
    } else if config.blackbird_endpoint is Some {
        Some(
            SelectionModel::HostedService {
                endpoint: config.blackbird_endpoint->0@,
                tier: text_or(config.blackbird_tier, default_tier()),
                model: text_or(config.blackbird_model, default_hosted_model()),
                credential: opt_text(config.blackbird_api_key),
            },
        )
    } else {
        None
    }
}

impl BackendSelection {
    pub open spec fn view(&self) -> SelectionModel {
        match self {
            BackendSelection::DirectHttp(b) => SelectionModel::DirectHttp { endpoint: b.endpoint@ },
            BackendSelection::LocalModel(b) => SelectionModel::LocalModel {
                model: b.model@,
                endpoint: b.endpoint@,
            },
            BackendSelection::HostedService(b) => SelectionModel::HostedService {
                endpoint: b.endpoint@,
                tier: b.tier@,
                model: b.model@,
                credential: opt_text(b.api_key),
            },
        }
    }

    /// Whether the backend streams natively, rather than by one completed
    /// answer.
    pub open spec fn streams(&self) -> bool {
        !(self is DirectHttp)
    }

    pub fn supports_streaming(&self) -> (yes: bool)
        ensures
            yes == self.streams(),
    {
        match self {
            BackendSelection::DirectHttp(b) => b.supports_streaming(),
            BackendSelection::LocalModel(b) => b.supports_streaming(),
            BackendSelection::HostedService(b) => b.supports_streaming(),
        }
    }
}

/// Resolves the configuration to one backend, or to the configuration error
/// where it names none.
pub fn select_backend(config: &BackendConfig) -> (result: ChatResult<BackendSelection>)
    ensures
        match result {
            Ok(selection) => selection_of(*config) == Some(selection@),
            Err(error) => selection_of(*config) is None && error.is_configuration(),
        },
{
    if let Some(endpoint) = &config.llm_endpoint {
        return Ok(BackendSelection::DirectHttp(CustomBackend::new(endpoint.clone())));
    }
    let local = match &config.use_ollama {
        Some(flag) => is_flag_on(flag.as_str()),
        None => false,
    };
    if local {
        return Ok(BackendSelection::LocalModel(OllamaBackend::from_env(config)));
    }
    if let Some(endpoint) = &config.blackbird_endpoint {
        return Ok(
            BackendSelection::HostedService(BlackbirdBackend::from_env(endpoint.clone(), config)),
        );
    }
    Err(ChatError::configuration())
}

/// One message as a backend is sent it: the name of its role and its
/// content.
pub struct WireMessage {
    pub role: Role,
    pub content: String,
}

/// The body of a request. A member that is `None` is left out of the JSON
/// object.
pub struct RequestBody {
    pub tier: Option<String>,
    pub model: Option<String>,
    pub messages: Vec<WireMessage>,
    pub stream: Option<bool>,
}

/// A request to a backend: a POST of `body`, as JSON, to `url`.
pub struct ChatRequest {
    pub url: String,
    /// Whether the header `accept: text/event-stream` is sent.
    pub accept_event_stream: bool,
    /// The bearer credential, where one is sent.
    pub bearer: Option<String>,
    pub body: RequestBody,
}

/// A request as a mathematical value.
pub struct RequestModel {
    pub url: Seq<char>,
    pub accept_event_stream: bool,
    pub bearer: Option<Seq<char>>,
    pub tier: Option<Seq<char>>,
    pub model: Option<Seq<char>>,
    pub messages: Seq<(Role, Seq<char>)>,
    pub stream: Option<bool>,
}

/// A conversation as a backend is sent it: role and content of each message,
/// in order.
pub open spec fn wire_messages(messages: Seq<ChatMessage>) -> Seq<(Role, Seq<char>)> {
    messages.map_values(|m: ChatMessage| (m.role, m.content@))
}

impl ChatRequest {
    pub open spec fn view(&self) -> RequestModel {
        RequestModel {
            url: self.url@,
            accept_event_stream: self.accept_event_stream,
            bearer: opt_text(self.bearer),
            tier: opt_text(self.body.tier),
            model: opt_text(self.body.model),
            messages: self.body.messages@.map_values(|m: WireMessage| (m.role, m.content@)),
            stream: self.body.stream,
        }
    }
}

/// Copies role and content of each message, in order.
pub fn to_wire(messages: &Vec<ChatMessage>) -> (wire: Vec<WireMessage>)
    ensures
        wire@.map_values(|m: WireMessage| (m.role, m.content@)) == wire_messages(messages@),
{
    let mut wire: Vec<WireMessage> = Vec::new();
    let mut i: usize = 0;
    while i < messages.len()
        invariant
            i <= messages@.len(),
            wire@.len() == i,
            forall|k: int|
                0 <= k < i ==> (#[trigger] wire@[k]).role == messages@[k].role && wire@[k].content@
                    == messages@[k].content@,
        decreases messages@.len() - i,
    {
        let message = &messages[i];
        wire.push(WireMessage { role: message.role, content: message.content.clone() });
        i += 1;
    }
    assert(wire@.map_values(|m: WireMessage| (m.role, m.content@)) =~= wire_messages(messages@));
    wire
}

} // verus!
