use crate::ai::backend::{to_wire, wire_messages, ChatRequest, RequestBody, RequestModel};
use crate::ai::client::{StreamHandle, StreamStore};
use crate::ai::error::{is_success, status_is_success, ChatError, ChatResult};
use crate::json::{json_document, Json};
use crate::types::ChatMessage;
use vstd::prelude::*;
use vstd::string::*;

verus! {

/// The backend behind a direct HTTP endpoint: one POST, one completed
/// answer.
pub struct CustomBackend {
    pub endpoint: String,
}

/// The answer in the body of a successful response: the string `content` of
/// the JSON object that the body is, or the body itself where it is none.
pub open spec fn custom_answer(doc: Option<Json>, body: Seq<char>) -> Seq<char> {
    match doc {
        Some(json) => match json.text_member("content"@) {
            Some(content) => content,
            None => body,
        },
        None => body,
    }
}

/// The label of this backend in the text of its errors.
pub open spec fn custom_label() -> Seq<char> {
    "LLM endpoint"@
}

impl CustomBackend {
    pub fn new(endpoint: String) -> (backend: CustomBackend)
        ensures
            backend.endpoint == endpoint,
    {
        CustomBackend { endpoint }
    }

    /// The request for an answer to `messages`.
    pub open spec fn request_for(&self, messages: Seq<ChatMessage>) -> RequestModel {
        RequestModel {
            url: self.endpoint@,
            accept_event_stream: false,
            bearer: None,
            tier: None,
            model: None,
            messages: wire_messages(messages),
            stream: None,
        }
    }

    /// The request for an answer to `messages`: a POST of `{messages}`.
    pub fn request(&self, messages: &Vec<ChatMessage>) -> (request: ChatRequest)
        ensures
            request@ == self.request_for(messages@),
    {
        ChatRequest {
            url: self.endpoint.clone(),
            accept_event_stream: false,
            bearer: None,
            body: RequestBody { tier: None, model: None, messages: to_wire(messages), stream: None },
        }
    }

    /// The answer in the body of a successful response, once the body is
    /// parsed.
    pub fn answer(doc: Option<Json>, body: &str) -> (text: String)
        ensures
            text@ == custom_answer(doc, body@),
    {
        if let Some(json) = doc {
            if let Some(content) = json.get_text("content") {
                return content;
            }
        }
        String::from_str(body)
    }

    /// What a response means: on a success status the answer of
    /// [`custom_answer`]; else a provider error with the status and the body.
    pub fn complete(&self, status: u16, body: &str) -> (result: ChatResult<String>)
        ensures
            match result {
                Ok(text) => is_success(status) && text@ == custom_answer(
                    json_document(body@),
                    body@,
                ),
                Err(error) => !is_success(status) && error.is_provider(
                    custom_label(),
                    status,
                    body@,
                ),
            },
    {
        if status_is_success(status) {
            Ok(CustomBackend::answer(Json::parse(body), body))
        } else {
            Err(ChatError::provider("LLM endpoint", status, body))
        }
    }

    /// This backend has no incremental protocol.
    pub fn supports_streaming(&self) -> (yes: bool)
        ensures
            !yes,
    {
        false
    }

    /// Streams by one completed answer: on success the whole answer is
    /// handed to the entry as one delta and the entry is ended; else the
    /// error is handed back, and the entry is left as it is.
    pub fn stream(
        &self,
        status: u16,
        body: &str,
        handle: StreamHandle,
        store: &mut StreamStore,
    ) -> (result: ChatResult<()>)
        requires
            old(store).wf(),
        ensures
            final(store).wf(),
            match result {
                Ok(_) => is_success(status) && final(store)@ == old(store)@.replace(
                    handle.id,
                    custom_answer(json_document(body@), body@),
                ).finish(handle.id),
                Err(error) => !is_success(status) && final(store)@ == old(store)@
                    && error.is_provider(custom_label(), status, body@),
            },
    {
        match self.complete(status, body) {
            Ok(content) => {
                handle.replace(store, content);
                handle.finish(store);
                Ok(())
            },
            Err(error) => Err(error),
        }
    }
}

} // verus!
