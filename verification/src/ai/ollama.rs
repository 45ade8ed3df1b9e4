use crate::ai::backend::{
    clone_or, default_local_model, local_endpoint, text_or, to_wire, wire_messages,
    BackendConfig, ChatRequest, RequestBody, RequestModel,
};
use crate::ai::error::{is_success, status_is_success, ChatError, ChatResult};
use crate::json::{json_document, Json};
use crate::ai::client::{
    lemma_append_nothing, lemma_append_twice, StoreModel, StreamHandle, StreamStore,
};
use crate::text::{
    chars_of, extend_from, find_newline, lemma_newline_bounds, lemma_newline_extends,
    lemma_newline_shifts, newline_from, text_of, trim_bounds, trimmed,
};
use crate::types::ChatMessage;
use vstd::prelude::*;
use vstd::string::*;

verus! {

/// The `message` member of one record of the line-delimited stream.
#[derive(Debug)]
pub struct StreamChunkMessage {
    pub content: String,
}

/// One record of the line-delimited stream.
#[derive(Debug)]
pub struct StreamChunk {
    pub message: Option<StreamChunkMessage>,
    pub done: Option<bool>,
}

/// A record as a mathematical value: the content of its message and its
/// `done` flag, each where the record has it.
pub type ChunkModel = (Option<Seq<char>>, Option<bool>);

/// The content of a `message` member: that of an object whose `content` is a
/// string.
pub open spec fn chunk_message_content(json: Json) -> Option<Seq<char>> {
    json.text_member("content"@)
}

/// The record that a JSON value stands for. The value must be an object.
/// `message` and `done` may each be missing or `null`; a `message` that is
/// there must be an object with a string `content`, and a `done` that is
/// there must be a boolean.
pub open spec fn stream_chunk_of(json: Json) -> Option<ChunkModel> {
    let message = json.present("message"@);
    let done = json.present("done"@);
    if !(json is Record) {
        None
    } else if message is Some && chunk_message_content(message->0) is None {
        None
    } else if done is Some && done->0.truth() is None {
        None
    } else {
        Some(
            (
                match message {
                    Some(m) => chunk_message_content(m),
                    None => None,
                },
                match done {
                    Some(d) => d.truth(),
                    None => None,
                },
            ),
        )
    }
}

/// What a record contributes to a stream: its content, or nothing where it
/// has no message, and whether it is the last one.
pub open spec fn chunk_delta(chunk: ChunkModel) -> (Seq<char>, bool) {
    (
        match chunk.0 {
            Some(content) => content,
            None => Seq::empty(),
        },
        match chunk.1 {
            Some(done) => done,
            None => false,
        },
    )
}

/// What a parsed line contributes: nothing where the line is no JSON or no
/// record.
pub open spec fn document_delta(doc: Option<Json>) -> Option<(Seq<char>, bool)> {
    match doc {
        Some(json) => match stream_chunk_of(json) {
            Some(chunk) => Some(chunk_delta(chunk)),
            None => None,
        },
        None => None,
    }
}

/// What one line of the stream contributes, white space around it aside: a
/// blank line contributes nothing.
pub open spec fn stream_line_delta(line: Seq<char>) -> Option<(Seq<char>, bool)> {
    if trimmed(line).len() == 0 {
        None
    } else {
        document_delta(json_document(trimmed(line)))
    }
}

impl StreamChunkMessage {
    pub open spec fn view(&self) -> Seq<char> {
        self.content@
    }

    /// Reads a `message` member.
    pub fn decode(json: &Json) -> (found: Option<StreamChunkMessage>)
        ensures
            match found {
                Some(message) => chunk_message_content(*json) == Some(message@),
                None => chunk_message_content(*json) is None,
            },
    {
        match json.get_text("content") {
            Some(content) => Some(StreamChunkMessage { content }),
            None => None,
        }
    }
}

impl StreamChunk {
    pub open spec fn view(&self) -> ChunkModel {
        (
            match self.message {
                Some(m) => Some(m@),
                None => None,
            },
            self.done,
        )
    }

    /// Reads one record.
    pub fn decode(json: &Json) -> (found: Option<StreamChunk>)
        ensures
            match found {
                Some(chunk) => stream_chunk_of(*json) == Some(chunk@),
                None => stream_chunk_of(*json) is None,
            },
    {
        match json {
            Json::Record(_) => {},
            _ => {
                return None;
            },
        }
        let message = match json.get_present("message") {
            Some(value) => match StreamChunkMessage::decode(value) {
                Some(m) => Some(m),
                None => {
                    return None;
                },
            },
            None => None,
        };
        let done = match json.get_present("done") {
            Some(value) => match value.as_bool() {
                Some(b) => Some(b),
                None => {
                    return None;
                },
            },
            None => None,
        };
        Some(StreamChunk { message, done })
    }

    /// What the record contributes to a stream.
    pub fn into_delta(self) -> (delta: (String, bool))
        ensures
            (delta.0@, delta.1) == chunk_delta(self@),
    {
        let piece = match self.message {
            Some(m) => m.content,
            None => String::new(),
        };
        let done = match self.done {
            Some(d) => d,
            None => false,
        };
        (piece, done)
    }
}

/// What a parsed line contributes to a stream.
pub fn delta_of_document(doc: Option<Json>) -> (delta: Option<(String, bool)>)
    ensures
        match delta {
            Some(pair) => document_delta(doc) == Some((pair.0@, pair.1)),
            None => document_delta(doc) is None,
        },
{
    match doc {
        Some(json) => match StreamChunk::decode(&json) {
            Some(chunk) => Some(chunk.into_delta()),
            None => None,
        },
        None => None,
    }
}

/// Reads one line of the stream: its text delta and whether it is the last
/// record. A blank line, a line that is no JSON and a line that is no record
/// give nothing.
pub fn parse_ollama_stream_line(line_with_ws: &str) -> (delta: Option<(String, bool)>)
    ensures
        match delta {
            Some(pair) => stream_line_delta(line_with_ws@) == Some((pair.0@, pair.1)),
            None => stream_line_delta(line_with_ws@) is None,
        },
{
    let chars = chars_of(line_with_ws);
    assert(chars@.subrange(0, chars@.len() as int) =~= chars@);
    parse_line_range(&chars, 0, chars.len())
}

/// Reads the line `chars[from..to]` of the stream.
pub fn parse_line_range(chars: &Vec<char>, from: usize, to: usize) -> (delta: Option<
    (String, bool),
>)
    requires
        from <= to <= chars@.len(),
    ensures
        match delta {
            Some(pair) => stream_line_delta(chars@.subrange(from as int, to as int)) == Some(
                (pair.0@, pair.1),
            ),
            None => stream_line_delta(chars@.subrange(from as int, to as int)) is None,
        },
{
    let (start, end) = trim_bounds(chars, from, to);
    if start == end {
        return None;
    }
    let line = text_of(chars, start, end);
    delta_of_document(Json::parse(line.as_str()))
}

/// What a run of complete lines contributes to a stream.
pub struct LineScan {
    /// The text deltas of the lines read, joined in order.
    pub appended: Seq<char>,
    /// Whether a line was the last record of the stream.
    pub done: bool,
    /// Where the text that was not read begins.
    pub rest: int,
}

/// Reads the complete lines of `s` from `from` on, one by one, up to and
/// including the first that is the last record of the stream. A line is
/// complete once its line feed is there: what follows the last line feed is
/// not read.
pub open spec fn scan_lines(s: Seq<char>, from: int) -> LineScan
    decreases s.len() - from,
{
    let end = newline_from(s, from);
    if from < 0 || end < from || end >= s.len() {
        LineScan { appended: Seq::empty(), done: false, rest: from }
    } else {
        match stream_line_delta(s.subrange(from, end)) {
            Some((piece, done)) => if done {
                LineScan { appended: piece, done: true, rest: end + 1 }
            } else {
                let later = scan_lines(s, end + 1);
                LineScan { appended: piece + later.appended, done: later.done, rest: later.rest }
            },
            None => scan_lines(s, end + 1),
        }
    }
}

/// What is left to read behind a scan of `s`: nothing once the stream has
/// ended.
pub open spec fn left_over(s: Seq<char>, scan: LineScan) -> Seq<char> {
    if scan.done {
        Seq::empty()
    } else {
        s.subrange(scan.rest, s.len() as int)
    }
}

/// A scan reads forwards and stays inside the text; where it does not end
/// the stream, no line feed stands behind the place where it stops.
pub proof fn lemma_scan_bounds(s: Seq<char>, from: int)
    requires
        0 <= from <= s.len(),
    ensures
        from <= scan_lines(s, from).rest <= s.len(),
        !scan_lines(s, from).done ==> newline_from(s, scan_lines(s, from).rest) == s.len(),
    decreases s.len() - from,
{
    lemma_newline_bounds(s, from);
    let end = newline_from(s, from);
    if end < s.len() {
        lemma_scan_bounds(s, end + 1);
    }
}

/// Text that follows changes nothing of what a scan has read: where the
/// scan ended the stream, it reads the same; where it did not, it reads the
/// same and then goes on from the place where it stopped.
pub proof fn lemma_scan_extends(s: Seq<char>, more: Seq<char>, from: int)
    requires
        0 <= from <= s.len(),
    ensures
        scan_lines(s, from).done ==> scan_lines(s + more, from) == scan_lines(s, from),
        !scan_lines(s, from).done ==> {
            &&& scan_lines(s + more, from).appended == scan_lines(s, from).appended + scan_lines(
                s + more,
                scan_lines(s, from).rest,
            ).appended
            &&& scan_lines(s + more, from).done == scan_lines(s + more, scan_lines(s, from).rest).done
            &&& scan_lines(s + more, from).rest == scan_lines(s + more, scan_lines(s, from).rest).rest
        },
    decreases s.len() - from,
{
    lemma_newline_bounds(s, from);
    let end = newline_from(s, from);
    let there = scan_lines(s + more, from);
    if end < s.len() {
        lemma_newline_extends(s, more, from);
        assert((s + more).subrange(from, end) =~= s.subrange(from, end));
        lemma_scan_extends(s, more, end + 1);
        let later = scan_lines(s, end + 1);
        match stream_line_delta(s.subrange(from, end)) {
            Some((piece, done)) => {
                if !done && !later.done {
                    assert(piece + (later.appended + scan_lines(s + more, later.rest).appended)
                        =~= (piece + later.appended) + scan_lines(s + more, later.rest).appended);
                }
            },
            None => {},
        }
    } else {
        assert(Seq::<char>::empty() + there.appended =~= there.appended);
    }
}

/// A scan of the end of a text reads what a scan of the whole text reads
/// from there on.
pub proof fn lemma_scan_shifts(t: Seq<char>, cut: int, from: int)
    requires
        0 <= cut <= t.len(),
        0 <= from <= t.len() - cut,
    ensures
        scan_lines(t, cut + from).appended == scan_lines(
            t.subrange(cut, t.len() as int),
            from,
        ).appended,
        scan_lines(t, cut + from).done == scan_lines(t.subrange(cut, t.len() as int), from).done,
        scan_lines(t, cut + from).rest == cut + scan_lines(
            t.subrange(cut, t.len() as int),
            from,
        ).rest,
    decreases t.len() - cut - from,
{
    let tail = t.subrange(cut, t.len() as int);
    lemma_newline_shifts(t, cut, from);
    lemma_newline_bounds(tail, from);
    let end = newline_from(tail, from);
    if end < tail.len() {
        assert(t.subrange(cut + from, cut + end) =~= tail.subrange(from, end));
        lemma_scan_shifts(t, cut, end + 1);
    }
}

/// How the text of a stream is cut into chunks does not matter: two chunks
/// fed one after the other give what the two give as one chunk. Where the
/// first chunk ends the stream, the second gives nothing more.
pub proof fn lemma_chunking_is_immaterial(pending: Seq<char>, first: Seq<char>, second: Seq<char>)
    ensures
        ({
            let one = scan_lines(pending + first, 0);
            let both = scan_lines(pending + (first + second), 0);
            let two = scan_lines(left_over(pending + first, one) + second, 0);
            if one.done {
                both.done && both.appended == one.appended
            } else {
                &&& both.appended == one.appended + two.appended
                &&& both.done == two.done
                &&& left_over(pending + (first + second), both) == left_over(
                    left_over(pending + first, one) + second,
                    two,
                )
            }
        }),
{
    let s = pending + first;
    let t = s + second;
    assert(pending + (first + second) =~= t);
    let one = scan_lines(s, 0);
    lemma_scan_extends(s, second, 0);
    lemma_scan_bounds(s, 0);
    if !one.done {
        let tail = t.subrange(one.rest, t.len() as int);
        assert(tail =~= s.subrange(one.rest, s.len() as int) + second);
        lemma_scan_shifts(t, one.rest, 0);
        let two = scan_lines(tail, 0);
        lemma_scan_bounds(tail, 0);
        if !two.done {
            assert(t.subrange(one.rest + two.rest, t.len() as int) =~= tail.subrange(
                two.rest,
                tail.len() as int,
            ));
        }
    }
}

/// The chunks joined to one text.
pub open spec fn joined(chunks: Seq<Seq<char>>) -> Seq<char>
    decreases chunks.len(),
{
    if chunks.len() == 0 {
        Seq::empty()
    } else {
        chunks[0] + joined(chunks.drop_first())
    }
}

/// What a stream has come to: the deltas that were appended, whether it has
/// ended, and the text that waits for its line feed.
pub struct LineProgress {
    pub appended: Seq<char>,
    pub done: bool,
    pub pending: Seq<char>,
}

/// What a stream with the text `pending` in wait comes to when `chunks`
/// are fed to it one after the other; nothing is fed once it has ended.
pub open spec fn feed_all(pending: Seq<char>, chunks: Seq<Seq<char>>) -> LineProgress
    decreases chunks.len(),
{
    if chunks.len() == 0 {
        LineProgress { appended: Seq::empty(), done: false, pending }
    } else {
        let one = scan_lines(pending + chunks[0], 0);
        if one.done {
            LineProgress { appended: one.appended, done: true, pending: Seq::empty() }
        } else {
            let later = feed_all(left_over(pending + chunks[0], one), chunks.drop_first());
            LineProgress {
                appended: one.appended + later.appended,
                done: later.done,
                pending: later.pending,
            }
        }
    }
}

/// How a body is cut into chunks, and into how many, does not matter: fed
/// one after the other, the chunks give what their text gives as one chunk.
pub proof fn lemma_any_chunking_gives_the_same(pending: Seq<char>, chunks: Seq<Seq<char>>)
    requires
        newline_from(pending, 0) == pending.len(),
    ensures
        feed_all(pending, chunks).appended == scan_lines(pending + joined(chunks), 0).appended,
        feed_all(pending, chunks).done == scan_lines(pending + joined(chunks), 0).done,
        !feed_all(pending, chunks).done ==> feed_all(pending, chunks).pending == left_over(
            pending + joined(chunks),
            scan_lines(pending + joined(chunks), 0),
        ),
    decreases chunks.len(),
{
    if chunks.len() == 0 {
        assert(pending + joined(chunks) =~= pending);
        assert(pending.subrange(0, pending.len() as int) =~= pending);
    } else {
        let first = chunks[0];
        let rest = chunks.drop_first();
        let s = pending + first;
        let one = scan_lines(s, 0);
        lemma_chunking_is_immaterial(pending, first, joined(rest));
        if !one.done {
            let left = left_over(s, one);
            lemma_scan_bounds(s, 0);
            lemma_newline_shifts(s, one.rest, 0);
            lemma_any_chunking_gives_the_same(left, rest);
        }
    }
}

/// Whether no line feed stands in `s`.
pub open spec fn one_line(s: Seq<char>) -> bool {
    forall|i: int| 0 <= i < s.len() ==> s[i] != '\n'
}

/// The text of `lines`, each ended by a line feed.
pub open spec fn lines_text(lines: Seq<Seq<char>>) -> Seq<char>
    decreases lines.len(),
{
    if lines.len() == 0 {
        Seq::empty()
    } else {
        lines[0] + seq!['\n'] + lines_text(lines.drop_first())
    }
}

/// What `lines` give, read one by one up to and including the first that is
/// the last record: their deltas joined, and whether the last record was
/// among them.
pub open spec fn lines_delta(lines: Seq<Seq<char>>) -> (Seq<char>, bool)
    decreases lines.len(),
{
    if lines.len() == 0 {
        (Seq::empty(), false)
    } else {
        match stream_line_delta(lines[0]) {
            Some((piece, done)) => if done {
                (piece, true)
            } else {
                (piece + lines_delta(lines.drop_first()).0, lines_delta(lines.drop_first()).1)
            },
            None => lines_delta(lines.drop_first()),
        }
    }
}

/// A line feed behind characters that are none is the first line feed.
pub proof fn lemma_newline_found(s: Seq<char>, from: int, at: int)
    requires
        0 <= from <= at < s.len(),
        s[at] == '\n',
        forall|k: int| from <= k < at ==> s[k] != '\n',
    ensures
        newline_from(s, from) == at,
    decreases at - from,
{
    if from < at {
        lemma_newline_found(s, from + 1, at);
    }
}

/// A scan of whole lines reads the lines one by one: it gives the deltas
/// of the lines in their order, and leaves nothing unread unless the last
/// record ends it.
pub proof fn lemma_scan_reads_lines(lines: Seq<Seq<char>>)
    requires
        forall|i: int| 0 <= i < lines.len() ==> one_line(#[trigger] lines[i]),
    ensures
        scan_lines(lines_text(lines), 0).appended == lines_delta(lines).0,
        scan_lines(lines_text(lines), 0).done == lines_delta(lines).1,
        !lines_delta(lines).1 ==> scan_lines(lines_text(lines), 0).rest == lines_text(lines).len(),
    decreases lines.len(),
{
    if lines.len() > 0 {
        let head = lines[0];
        let tail = lines.drop_first();
        let text = lines_text(lines);
        let rest = lines_text(tail);
        assert(one_line(head));
        assert forall|i: int| 0 <= i < tail.len() implies one_line(#[trigger] tail[i]) by {
            assert(tail[i] == lines[i + 1]);
        }
        lemma_scan_reads_lines(tail);
        assert(text.len() == head.len() + 1 + rest.len());
        assert(text[head.len() as int] == '\n');
        assert forall|k: int| 0 <= k < head.len() implies text[k] != '\n' by {
            assert(text[k] == head[k]);
        }
        lemma_newline_found(text, 0, head.len() as int);
        assert(text.subrange(0, head.len() as int) =~= head);
        assert(text.subrange(head.len() as int + 1, text.len() as int) =~= rest);
        lemma_scan_shifts(text, head.len() as int + 1, 0);
    }
}

/// The registry after a scan: the deltas appended to the entry, and the
/// entry ended where the scan met the last record.
pub open spec fn store_after_lines(store: StoreModel, id: u64, scan: LineScan) -> StoreModel {
    if scan.done {
        store.append(id, scan.appended).finish(id)
    } else {
        store.append(id, scan.appended)
    }
}

/// The text of a line-delimited stream that has arrived and is not yet a
/// complete line.
pub struct LineStream {
    pub pending: Vec<char>,
}

impl LineStream {
    /// A stream of which nothing has arrived.
    pub fn new() -> (stream: LineStream)
        ensures
            stream.pending@ == Seq::<char>::empty(),
    {
        LineStream { pending: Vec::new() }
    }

    /// Takes in the text of one chunk off the network. Each line that the
    /// chunk completes is read: its delta, unless empty, is appended to the
    /// entry of `handle`, in the order of the lines. The last record ends
    /// the entry, and `true` is returned: nothing more is to be fed. What
    /// follows the last line feed is kept until its own line feed arrives.
    pub fn feed(&mut self, chunk: &str, handle: StreamHandle, store: &mut StreamStore) -> (done:
        bool)
        requires
            old(store).wf(),
        ensures
            final(store).wf(),
            done == scan_lines(old(self).pending@ + chunk@, 0).done,
            final(store)@ == store_after_lines(
                old(store)@,
                handle.id,
                scan_lines(old(self).pending@ + chunk@, 0),
            ),
            !done ==> final(self).pending@ == (old(self).pending@ + chunk@).subrange(
                scan_lines(old(self).pending@ + chunk@, 0).rest,
                (old(self).pending@ + chunk@).len() as int,
            ),
    {
        let mut text: Vec<char> = Vec::new();
        extend_from(&mut text, &self.pending, 0, self.pending.len());
        let fresh = chars_of(chunk);
        extend_from(&mut text, &fresh, 0, fresh.len());
        let ghost s = old(self).pending@ + chunk@;
        assert(text@ =~= s);
        let ghost total = scan_lines(s, 0);
        let ghost mut seen: Seq<char> = Seq::empty();
        let mut from: usize = 0;
        proof {
            lemma_append_nothing(old(store)@, handle.id);
            assert(seen + total.appended =~= total.appended);
        }
        loop
            invariant
                text@ == s,
                s == old(self).pending@ + chunk@,
                total == scan_lines(s, 0),
                from <= s.len(),
                store.wf(),
                store@ == old(store)@.append(handle.id, seen),
                total.appended == seen + scan_lines(s, from as int).appended,
                total.done == scan_lines(s, from as int).done,
                total.rest == scan_lines(s, from as int).rest,
            decreases s.len() - from,
        {
            let end = find_newline(&text, from);
            if end >= text.len() {
                proof {
                    assert(seen + Seq::<char>::empty() =~= seen);
                }
                let mut rest: Vec<char> = Vec::new();
                extend_from(&mut rest, &text, from, text.len());
                assert(rest@ =~= s.subrange(from as int, s.len() as int));
                self.pending = rest;
                return false;
            }
            let found = parse_line_range(&text, from, end);
            match found {
                Some((piece, done)) => {
                    proof {
                        lemma_append_twice(old(store)@, handle.id, seen, piece@);
                        if !done {
                            assert((seen + piece@) + scan_lines(s, end + 1).appended =~= seen + (
                            piece@ + scan_lines(s, end + 1).appended));
                        }
                    }
                    if !piece.as_str().is_empty() {
                        handle.append(store, piece.as_str());
                    } else {
                        proof {
                            assert(piece@ =~= Seq::<char>::empty());
                            lemma_append_nothing(store@, handle.id);
                        }
                    }
                    proof {
                        seen = seen + piece@;
                    }
                    if done {
                        handle.finish(store);
                        self.pending = Vec::new();
                        return true;
                    }
                },
                None => {},
            }
            from = end + 1;
        }
    }
}

/// The backend behind the local model server.
pub struct OllamaBackend {
    pub model: String,
    pub endpoint: String,
}

/// The label of this backend in the text of its errors.
pub open spec fn ollama_label() -> Seq<char> {
    "Ollama"@
}

/// The answer in the body of a successful response: the content of the
/// `message` of the JSON object that the body is; the body itself where it is
/// no such object, or has no message.
pub open spec fn ollama_answer(doc: Option<Json>, body: Seq<char>) -> Seq<char> {
    match doc {
        Some(json) => {
            let message = json.present("message"@);
            if json is Record && message is Some && chunk_message_content(message->0) is Some {
                chunk_message_content(message->0)->0
            } else {
                body
            }
        },
        None => body,
    }
}

impl OllamaBackend {
    /// The backend for the model that the configuration names, or for the
    /// default model where it names none.
    pub fn from_env(config: &BackendConfig) -> (backend: OllamaBackend)
        ensures
            backend.model@ == text_or(config.llm_model, default_local_model()),
            backend.endpoint@ == local_endpoint(),
    {
        OllamaBackend {
            model: clone_or(&config.llm_model, "gpt-oss:20b"),
            endpoint: String::from_str("http://127.0.0.1:11434/api/chat"),
        }
    }

    /// The request for an answer to `messages`, streamed or whole.
    pub open spec fn request_for(&self, messages: Seq<ChatMessage>, stream: bool) -> RequestModel {
        RequestModel {
            url: self.endpoint@,
            accept_event_stream: false,
            bearer: None,
            tier: None,
            model: Some(self.model@),
            messages: wire_messages(messages),
            stream: Some(stream),
        }
    }

    /// The request for an answer to `messages`: a POST of
    /// `{model, messages, stream}`.
    pub fn request(&self, messages: &Vec<ChatMessage>, stream: bool) -> (request: ChatRequest)
        ensures
            request@ == self.request_for(messages@, stream),
    {
        ChatRequest {
            url: self.endpoint.clone(),
            accept_event_stream: false,
            bearer: None,
            body: RequestBody {
                tier: None,
                model: Some(self.model.clone()),
                messages: to_wire(messages),
                stream: Some(stream),
            },
        }
    }

    /// The answer in the body of a successful response, once the body is
    /// parsed.
    pub fn answer(doc: Option<Json>, body: &str) -> (text: String)
        ensures
            text@ == ollama_answer(doc, body@),
    {
        if let Some(json) = doc {
            if let Json::Record(_) = json {
                if let Some(value) = json.get_present("message") {
                    if let Some(message) = StreamChunkMessage::decode(value) {
                        return message.content;
                    }
                }
            }
        }
        String::from_str(body)
    }

    /// What a response means: on a success status the answer of
    /// [`ollama_answer`]; else a provider error with the status and the body.
    pub fn complete(&self, status: u16, body: &str) -> (result: ChatResult<String>)
        ensures
            match result {
                Ok(text) => is_success(status) && text@ == ollama_answer(
                    json_document(body@),
                    body@,
                ),
                Err(error) => !is_success(status) && error.is_provider(
                    ollama_label(),
                    status,
                    body@,
                ),
            },
    {
        if status_is_success(status) {
            Ok(OllamaBackend::answer(Json::parse(body), body))
        } else {
            Err(ChatError::provider("Ollama", status, body))
        }
    }

    /// This backend streams line-delimited JSON.
    pub fn supports_streaming(&self) -> (yes: bool)
        ensures
            yes,
    {
        true
    }
}

} // verus!
