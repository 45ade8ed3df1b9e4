use crate::ai::backend::{select_backend, selection_of, BackendConfig, BackendSelection, ChatRequest, RequestModel};
use crate::ai::blackbird::{
    blackbird_answer, blackbird_label, data_view, scan_events, store_after_events,
    BlackbirdBackend, EventStream,
};
use crate::ai::client::{StoreModel, StreamHandle, StreamStore};
use crate::ai::custom::{custom_answer, custom_label, CustomBackend};
use crate::ai::error::{is_success, provider_text, ChatError, ChatResult};
use crate::ai::ollama::{
    lemma_scan_reads_lines, lines_delta, lines_text, ollama_answer, ollama_label, one_line,
    scan_lines, store_after_lines, stream_line_delta, LineStream, OllamaBackend,
};
use crate::json::{json_document, Json};
use crate::text::{decode_lossy, lossy_text};
use crate::types::ChatMessage;
use vstd::prelude::*;
use vstd::string::*;

verus! {

/// How a network exchange ended.
pub enum Exchange {
    /// A response arrived, with this status and this body.
    Response { status: u16, body: String },
    /// The exchange failed, for this reason.
    Failed { reason: String },
}

impl BackendSelection {
    /// The label of the backend in the text of its errors.
    pub open spec fn label(&self) -> Seq<char> {
        match self {
            BackendSelection::DirectHttp(_) => custom_label(),
            BackendSelection::LocalModel(_) => ollama_label(),
            BackendSelection::HostedService(_) => blackbird_label(),
        }
    }

    /// The answer in the body of a successful response.
    pub open spec fn answer_in(&self, body: Seq<char>) -> Seq<char> {
        match self {
            BackendSelection::DirectHttp(_) => custom_answer(json_document(body), body),
            BackendSelection::LocalModel(_) => ollama_answer(json_document(body), body),
            BackendSelection::HostedService(_) => blackbird_answer(json_document(body), body),
        }
    }

    /// The request for an answer to `messages`, streamed or whole. The
    /// backend that does not stream is asked for a whole answer either way.
    pub open spec fn request_for(&self, messages: Seq<ChatMessage>, stream: bool) -> RequestModel {
        match self {
            BackendSelection::DirectHttp(b) => b.request_for(messages),
            BackendSelection::LocalModel(b) => b.request_for(messages, stream),
            BackendSelection::HostedService(b) => b.request_for(messages, stream),
        }
    }

    /// The request for an answer to `messages`, streamed or whole.
    pub fn request(&self, messages: &Vec<ChatMessage>, stream: bool) -> (request: ChatRequest)
        ensures
            request@ == self.request_for(messages@, stream),
    {
        match self {
            BackendSelection::DirectHttp(b) => b.request(messages),
            BackendSelection::LocalModel(b) => b.request(messages, stream),
            BackendSelection::HostedService(b) => b.request(messages, stream),
        }
    }

    /// The answer in the body of a successful response.
    pub fn answer(&self, body: &str) -> (text: String)
        ensures
            text@ == self.answer_in(body@),
    {
        match self {
            BackendSelection::DirectHttp(_) => CustomBackend::answer(Json::parse(body), body),
            BackendSelection::LocalModel(_) => OllamaBackend::answer(Json::parse(body), body),
            BackendSelection::HostedService(_) => BlackbirdBackend::answer(Json::parse(body), body),
        }
    }

    /// What a response to a request for a whole answer means: on a success
    /// status the answer in the body; else a provider error with the status
    /// and the body.
    pub fn complete(&self, status: u16, body: &str) -> (result: ChatResult<String>)
        ensures
            match result {
                Ok(text) => is_success(status) && text@ == self.answer_in(body@),
                Err(error) => !is_success(status) && error.is_provider(
                    self.label(),
                    status,
                    body@,
                ),
            },
    {
        match self {
            BackendSelection::DirectHttp(b) => b.complete(status, body),
            BackendSelection::LocalModel(b) => b.complete(status, body),
            BackendSelection::HostedService(b) => b.complete(status, body),
        }
    }
}

/// A reply that waits for its network exchange: the backend that was
/// selected and the request to send it.
pub struct PendingReply {
    pub backend: BackendSelection,
    pub request: ChatRequest,
}

/// Begins a reply to `messages`: selects the backend and makes the request
/// for a whole answer. A configuration that names no backend is an error
/// here, before anything is sent.
pub fn chat_reply(config: &BackendConfig, messages: &Vec<ChatMessage>) -> (result: ChatResult<
    PendingReply,
>)
    ensures
        match result {
            Ok(pending) => selection_of(*config) == Some(pending.backend@) && pending.request@
                == pending.backend.request_for(messages@, false),
            Err(error) => selection_of(*config) is None && error.is_configuration(),
        },
{
    match select_backend(config) {
        Ok(backend) => {
            let request = backend.request(messages, false);
            Ok(PendingReply { backend, request })
        },
        Err(error) => Err(error),
    }
}

impl PendingReply {
    /// The reply, once the exchange has ended: the answer in the body of a
    /// response with a success status; a provider error for any other
    /// status; a transport error where the exchange failed.
    pub fn finish(&self, exchange: &Exchange) -> (result: ChatResult<String>)
        ensures
            match *exchange {
                Exchange::Response { status, body } => match result {
                    Ok(text) => is_success(status) && text@ == self.backend.answer_in(body@),
                    Err(error) => !is_success(status) && error.is_provider(
                        self.backend.label(),
                        status,
                        body@,
                    ),
                },
                Exchange::Failed { reason } => result is Err && result->Err_0.is_transport(
                    reason@,
                ),
            },
    {
        match exchange {
            Exchange::Response { status, body } => self.backend.complete(*status, body.as_str()),
            Exchange::Failed { reason } => Err(ChatError::transport(reason.as_str())),
        }
    }
}

/// What has arrived of a streamed answer and is not yet read.
pub enum StreamDecoder {
    /// The bytes of the body of a whole answer, as far as it has arrived.
    Whole { body: Vec<u8> },
    /// Line-delimited JSON.
    Lines { lines: LineStream },
    /// Server-sent events.
    Events { events: EventStream },
}

/// What happened on the network for one stream.
pub enum StreamEvent {
    /// The response has a status outside 200..=299, and this body.
    Rejected { status: u16, body: String },
    /// These bytes of the body arrived.
    Chunk { bytes: Vec<u8> },
    /// The body is complete.
    End,
    /// The exchange failed, for this reason.
    Failed { reason: String },
}

/// A decoder as a mathematical value.
pub enum DecoderModel {
    Whole { body: Seq<u8> },
    Lines { pending: Seq<char> },
    Events { pending: Seq<char>, data: Option<Seq<char>> },
}

impl StreamDecoder {
    pub open spec fn view(&self) -> DecoderModel {
        match self {
            StreamDecoder::Whole { body } => DecoderModel::Whole { body: body@ },
            StreamDecoder::Lines { lines } => DecoderModel::Lines { pending: lines.pending@ },
            StreamDecoder::Events { events } => DecoderModel::Events {
                pending: events.pending@,
                data: data_view(events.data),
            },
        }
    }
}

impl DecoderModel {
    /// The decoder of a backend before anything has arrived.
    pub open spec fn initial(backend: BackendSelection) -> DecoderModel {
        match backend {
            BackendSelection::DirectHttp(_) => DecoderModel::Whole { body: Seq::empty() },
            BackendSelection::LocalModel(_) => DecoderModel::Lines { pending: Seq::empty() },
            BackendSelection::HostedService(_) => DecoderModel::Events {
                pending: Seq::empty(),
                data: None,
            },
        }
    }

    /// Whether taking in the bytes `chunk` ends the stream. The protocols
    /// that are read line by line take each chunk as text of its own,
    /// ill-formed UTF-8 replaced.
    pub open spec fn ends_on(self, chunk: Seq<u8>) -> bool {
        match self {
            DecoderModel::Whole { body } => false,
            DecoderModel::Lines { pending } => scan_lines(pending + lossy_text(chunk), 0).done,
            DecoderModel::Events { pending, data } => scan_events(
                pending + lossy_text(chunk),
                0,
                data,
            ).done,
        }
    }

    /// The decoder after it has taken in the bytes `chunk`, where that does
    /// not end the stream.
    pub open spec fn after_chunk(self, chunk: Seq<u8>) -> DecoderModel {
        match self {
            DecoderModel::Whole { body } => DecoderModel::Whole { body: body + chunk },
            DecoderModel::Lines { pending } => {
                let s = pending + lossy_text(chunk);
                DecoderModel::Lines { pending: s.subrange(scan_lines(s, 0).rest, s.len() as int) }
            },
            DecoderModel::Events { pending, data } => {
                let s = pending + lossy_text(chunk);
                let scan = scan_events(s, 0, data);
                DecoderModel::Events {
                    pending: s.subrange(scan.rest, s.len() as int),
                    data: scan.data,
                }
            },
        }
    }

    /// The registry after the decoder has taken in the bytes `chunk` for the
    /// entry `id`.
    pub open spec fn store_after_chunk(self, store: StoreModel, id: u64, chunk: Seq<u8>) -> StoreModel {
        match self {
            DecoderModel::Whole { body } => store,
            DecoderModel::Lines { pending } => store_after_lines(
                store,
                id,
                scan_lines(pending + lossy_text(chunk), 0),
            ),
            DecoderModel::Events { pending, data } => store_after_events(
                store,
                id,
                scan_events(pending + lossy_text(chunk), 0, data),
            ),
        }
    }

    /// The registry after the body has ended, for the entry `id` of
    /// `backend`: the answer in a whole body, read as text with ill-formed
    /// UTF-8 replaced, becomes the text of the entry; then the entry is
    /// ended.
    pub open spec fn store_after_end(self, store: StoreModel, id: u64, backend: BackendSelection) -> StoreModel {
        match self {
            DecoderModel::Whole { body } => store.replace(
                id,
                backend.answer_in(lossy_text(body)),
            ).finish(id),
            _ => store.finish(id),
        }
    }
}

/// Appends `bytes` to `out`.
pub fn extend_bytes(out: &mut Vec<u8>, bytes: &Vec<u8>)
    ensures
        final(out)@ == old(out)@ + bytes@,
{
    let mut i: usize = 0;
    while i < bytes.len()
        invariant
            i <= bytes@.len(),
            out@ == old(out)@ + bytes@.subrange(0, i as int),
        decreases bytes@.len() - i,
    {
        out.push(bytes[i]);
        assert(out@ =~= old(out)@ + bytes@.subrange(0, i + 1));
        i += 1;
    }
    assert(bytes@.subrange(0, bytes@.len() as int) =~= bytes@);
}

/// The background work of one stream: it is told what happens on the
/// network, and writes to its entry of the registry.
pub struct StreamTask {
    pub handle: StreamHandle,
    pub backend: BackendSelection,
    pub request: ChatRequest,
    pub decoder: StreamDecoder,
    /// Whether the work is over: the entry has been ended.
    pub finished: bool,
}

/// Starts a stream for `messages`: selects the backend, creates the entry
/// and makes the request. A configuration that names no backend is an error
/// here, and nothing is created.
pub fn chat_reply_stream_start(
    store: &mut StreamStore,
    config: &BackendConfig,
    messages: &Vec<ChatMessage>,
) -> (result: ChatResult<StreamTask>)
    requires
        old(store).wf(),
        old(store)@.next < u64::MAX,
    ensures
        final(store).wf(),
        match result {
            Ok(task) => {
                &&& selection_of(*config) == Some(task.backend@)
                &&& final(store)@ == old(store)@.create()
                &&& task.handle.id == old(store)@.next
                &&& task.request@ == task.backend.request_for(messages@, task.backend.streams())
                &&& task.decoder@ == DecoderModel::initial(task.backend)
                &&& !task.finished
            },
            Err(error) => {
                &&& selection_of(*config) is None
                &&& error.is_configuration()
                &&& final(store)@ == old(store)@
            },
        },
{
    match select_backend(config) {
        Ok(backend) => {
            let handle = store.create_handle();
            let request = backend.request(messages, backend.supports_streaming());
            let decoder = match &backend {
                BackendSelection::DirectHttp(_) => StreamDecoder::Whole { body: Vec::new() },
                BackendSelection::LocalModel(_) => StreamDecoder::Lines { lines: LineStream::new() },
                BackendSelection::HostedService(_) => StreamDecoder::Events {
                    events: EventStream::new(),
                },
            };
            Ok(StreamTask { handle, backend, request, decoder, finished: false })
        },
        Err(error) => Err(error),
    }
}

/// The entry of `id` as it stands: its text and whether it has ended. An
/// identifier that no stream has is an error of its own.
pub fn chat_reply_stream_poll(store: &StreamStore, id: u64) -> (result: ChatResult<(String, bool)>)
    ensures
        match result {
            Ok(pair) => store@.entries.contains_key(id) && (pair.0@, pair.1) == store@.entries[id],
            Err(error) => !store@.entries.contains_key(id) && error.is_not_found(),
        },
{
    store.snapshot(id)
}

/// The event that ends the work of a task ends its entry: whoever polls
/// the entry afterwards is told that it is done.
pub proof fn lemma_last_event_ends_entry(task: StreamTask, store: StoreModel, event: StreamEvent)
    requires
        store.entries.contains_key(task.handle.id),
        task.ends_with(event),
    ensures
        task.store_after(store, event).entries.contains_key(task.handle.id),
        task.store_after(store, event).entries[task.handle.id].1,
{
}

/// A stream of the local model whose body arrives as whole lines, the last
/// record among them: the entry ends with the deltas of the lines, in their
/// order, behind the text that it had; the work of the task is over.
pub proof fn lemma_stream_of_lines_ends_entry(
    task: StreamTask,
    store: StoreModel,
    event: StreamEvent,
    lines: Seq<Seq<char>>,
)
    requires
        task.backend is LocalModel,
        task.decoder@ == DecoderModel::initial(task.backend),
        store.is_open(task.handle.id),
        event is Chunk,
        lossy_text(event->bytes@) == lines_text(lines),
        forall|i: int| 0 <= i < lines.len() ==> one_line(#[trigger] lines[i]),
        lines_delta(lines).1,
    ensures
        task.ends_with(event),
        task.store_after(store, event).entries.contains_key(task.handle.id),
        task.store_after(store, event).entries[task.handle.id] == (
            store.entries[task.handle.id].0 + lines_delta(lines).0,
            true,
        ),
{
    lemma_scan_reads_lines(lines);
    assert(Seq::<char>::empty() + lines_text(lines) =~= lines_text(lines));
}

/// A stream of the local model is started on an empty entry, and its body
/// is three lines: two records that are not the last, with the deltas
/// `Hello` and ` world`, and the last record, with no delta. Whoever polls
/// the entry afterwards is given `Hello world`, and is told that it is
/// done.
pub proof fn lemma_three_lines_give_hello_world(
    task: StreamTask,
    store: StoreModel,
    event: StreamEvent,
    first: Seq<char>,
    second: Seq<char>,
    third: Seq<char>,
)
    requires
        task.backend is LocalModel,
        task.decoder@ == DecoderModel::initial(task.backend),
        store.entries.contains_key(task.handle.id),
        store.entries[task.handle.id] == (Seq::<char>::empty(), false),
        event is Chunk,
        lossy_text(event->bytes@) == lines_text(seq![first, second, third]),
        one_line(first),
        one_line(second),
        one_line(third),
        stream_line_delta(first) == Some(("Hello"@, false)),
        stream_line_delta(second) == Some((" world"@, false)),
        stream_line_delta(third) == Some((Seq::<char>::empty(), true)),
    ensures
        task.ends_with(event),
        task.store_after(store, event).entries.contains_key(task.handle.id),
        task.store_after(store, event).entries[task.handle.id] == ("Hello world"@, true),
{
    let lines = seq![first, second, third];
    let after_first = lines.drop_first();
    let after_second = after_first.drop_first();
    assert(after_first[0] == second);
    assert(after_second[0] == third);
    assert(lines_delta(after_second) == (Seq::<char>::empty(), true));
    assert(lines_delta(after_first) == (" world"@ + Seq::<char>::empty(), true));
    assert(lines_delta(lines) == ("Hello"@ + (" world"@ + Seq::<char>::empty()), true));
    reveal_strlit("Hello");
    reveal_strlit(" world");
    reveal_strlit("Hello world");
    assert(Seq::<char>::empty() + ("Hello"@ + (" world"@ + Seq::<char>::empty()))
        =~= "Hello world"@);
    lemma_stream_of_lines_ends_entry(task, store, event, lines);
}

/// No event takes an entry away, and none changes an entry that has ended.
pub proof fn lemma_events_keep_ended_entries(
    task: StreamTask,
    store: StoreModel,
    event: StreamEvent,
    id: u64,
)
    requires
        store.entries.contains_key(id),
    ensures
        task.store_after(store, event).entries.contains_key(id),
        store.entries[id].1 ==> task.store_after(store, event).entries[id] == store.entries[id],
{
}

impl StreamTask {
    /// The identifier under which the stream is polled.
    pub fn id(&self) -> (id: u64)
        ensures
            id == self.handle.id,
    {
        self.handle.id
    }

    /// The registry after `event`, for a task that is not over. A rejected
    /// response and a failed exchange end the entry with the text of their
    /// error in the place of its text.
    pub open spec fn store_after(&self, store: StoreModel, event: StreamEvent) -> StoreModel {
        match event {
            StreamEvent::Rejected { status, body } => store.fail(
                self.handle.id,
                provider_text(self.backend.label(), status, body@),
            ),
            StreamEvent::Chunk { bytes } => self.decoder@.store_after_chunk(
                store,
                self.handle.id,
                bytes@,
            ),
            StreamEvent::End => self.decoder@.store_after_end(store, self.handle.id, self.backend),
            StreamEvent::Failed { reason } => store.fail(self.handle.id, reason@),
        }
    }

    /// Whether `event` ends the work of a task that is not over: every event
    /// does but a chunk that does not hold the end of the stream.
    pub open spec fn ends_with(&self, event: StreamEvent) -> bool {
        match event {
            StreamEvent::Chunk { bytes } => self.decoder@.ends_on(bytes@),
            _ => true,
        }
    }

    /// Takes in what happened on the network, writes to the entry, and says
    /// whether more is to come: `false` once the work is over. A task that
    /// is over ignores every event.
    pub fn advance(&mut self, store: &mut StreamStore, event: &StreamEvent) -> (more: bool)
        requires
            old(store).wf(),
        ensures
            final(store).wf(),
            final(self).handle == old(self).handle,
            final(self).backend == old(self).backend,
            final(self).request == old(self).request,
            old(self).finished ==> !more && final(self).finished && final(store)@ == old(store)@
                && final(self).decoder == old(self).decoder,
            !old(self).finished ==> {
                &&& final(store)@ == old(self).store_after(old(store)@, *event)
                &&& final(self).finished == old(self).ends_with(*event)
                &&& more == !old(self).ends_with(*event)
                &&& (*event is Chunk && more) ==> final(self).decoder@ == old(self).decoder@.after_chunk(
                    event->bytes@,
                )
            },
    {
        if self.finished {
            return false;
        }
        match event {
            StreamEvent::Rejected { status, body } => {
                let error = ChatError::provider(self.label_text(), *status, body.as_str());
                self.handle.fail(store, error.message.as_str());
                self.finished = true;
                false
            },
            StreamEvent::Failed { reason } => {
                self.handle.fail(store, reason.as_str());
                self.finished = true;
                false
            },
            StreamEvent::Chunk { bytes } => {
                let done = match &mut self.decoder {
                    StreamDecoder::Whole { body } => {
                        extend_bytes(body, bytes);
                        false
                    },
                    StreamDecoder::Lines { lines } => {
                        let text = decode_lossy(bytes.as_slice());
                        lines.feed(text.as_str(), self.handle, store)
                    },
                    StreamDecoder::Events { events } => {
                        let text = decode_lossy(bytes.as_slice());
                        events.feed(text.as_str(), self.handle, store)
                    },
                };
                self.finished = done;
                !done
            },
            StreamEvent::End => {
                match &self.decoder {
                    StreamDecoder::Whole { body } => {
                        let text = decode_lossy(body.as_slice());
                        let answer = self.backend.answer(text.as_str());
                        self.handle.replace(store, answer);
                    },
                    _ => {},
                }
                self.handle.finish(store);
                self.finished = true;
                false
            },
        }
    }

    /// The label of the backend in the text of its errors.
    pub fn label_text(&self) -> (label: &'static str)
        ensures
            label@ == self.backend.label(),
    {
        match &self.backend {
            BackendSelection::DirectHttp(_) => "LLM endpoint",
            BackendSelection::LocalModel(_) => "Ollama",
            BackendSelection::HostedService(_) => "Blackbird",
        }
    }
}

} // verus!
