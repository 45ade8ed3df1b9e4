use crate::ai::backend::{
    clone_opt, clone_or, default_hosted_model, default_tier, opt_text, text_or, to_wire,
    wire_messages, BackendConfig, ChatRequest, RequestBody, RequestModel,
};
use crate::ai::error::{is_success, status_is_success, ChatError, ChatResult};
use crate::json::{json_document, Json};
use crate::types::ChatMessage;
use crate::ai::client::{
    lemma_append_nothing, lemma_append_twice, StoreModel, StreamHandle, StreamStore,
};
use crate::text::{
    all_space, chars_of, extend_from, find_newline, leading_space_end, lemma_newline_bounds,
    lemma_newline_extends, lemma_newline_shifts, lemma_trimmed_of_blank, lemma_trimmed_of_padded,
    newline_from, range_starts_with, skip_leading_space, starts_with, text_of, trim_bounds,
    trimmed,
};
use vstd::prelude::*;
use vstd::string::*;

verus! {

/// A `message` member: an object with a string `content`.
pub struct BBMessage {
    pub content: String,
}

/// A `delta` member: an object whose `content`, where it has one, is a
/// string.
pub struct OAIDelta {
    pub content: Option<String>,
}

/// One element of `choices`.
pub struct BBChoice {
    pub message: Option<BBMessage>,
    pub delta: Option<OAIDelta>,
}

/// A response with a list of choices.
pub struct BBResponseOpenAIShape {
    pub choices: Vec<BBChoice>,
}

/// A response that is just `{"content": ...}`.
pub struct BBResponseContentOnly {
    pub content: String,
}

/// A choice as a mathematical value: the content of its message, and the
/// content of its delta, each where the choice has it.
pub struct ChoiceModel {
    pub message: Option<Seq<char>>,
    pub delta: Option<Option<Seq<char>>>,
}

/// The content of a `message` member.
pub open spec fn message_of(json: Json) -> Option<Seq<char>> {
    json.text_member("content"@)
}

/// The content of a `delta` member. The value must be an object; its
/// `content` may be missing or `null`, and must else be a string.
pub open spec fn delta_of(json: Json) -> Option<Option<Seq<char>>> {
    let content = json.present("content"@);
    if !(json is Record) {
        None
    } else if content is None {
        Some(None)
    } else if content->0.text() is None {
        None
    } else {
        Some(content->0.text())
    }
}

/// The choice that a JSON value stands for. The value must be an object;
/// `message` and `delta` may each be missing or `null`, and must else be
/// what [`message_of`] and [`delta_of`] accept.
pub open spec fn choice_of(json: Json) -> Option<ChoiceModel> {
    let message = json.present("message"@);
    let delta = json.present("delta"@);
    if !(json is Record) {
        None
    } else if message is Some && message_of(message->0) is None {
        None
    } else if delta is Some && delta_of(delta->0) is None {
        None
    } else {
        Some(
            ChoiceModel {
                message: match message {
                    Some(m) => message_of(m),
                    None => None,
                },
                delta: match delta {
                    Some(d) => delta_of(d),
                    None => None,
                },
            },
        )
    }
}

/// The choices that the elements of an array stand for: all of them, or
/// nothing where one element is no choice.
pub open spec fn choices_of(items: Seq<Json>) -> Option<Seq<ChoiceModel>> {
    if forall|i: int| 0 <= i < items.len() ==> (#[trigger] choice_of(items[i])) is Some {
        Some(Seq::new(items.len(), |i: int| choice_of(items[i])->0))
    } else {
        None
    }
}

/// The response with choices that a JSON value stands for: an object whose
/// `choices` is an array of choices.
pub open spec fn openai_shape_of(json: Json) -> Option<Seq<ChoiceModel>> {
    match json.member("choices"@) {
        Some(Json::List(items)) => choices_of(items@),
        _ => None,
    }
}

/// The content of a response that is just `{"content": ...}`.
pub open spec fn content_only_of(json: Json) -> Option<Seq<char>> {
    json.text_member("content"@)
}

/// The text of the first choice's delta, where a payload has the shape
/// `{"choices":[{"delta":{"content": ...}}]}`.
pub open spec fn delta_shape(json: Json) -> Option<Seq<char>> {
    match openai_shape_of(json) {
        Some(choices) => if choices.len() > 0 && choices[0].delta is Some {
            choices[0].delta->0
        } else {
            None
        },
        None => None,
    }
}

/// The text of the first choice's message, where a payload has the shape
/// `{"choices":[{"message":{"content": ...}}]}`.
pub open spec fn message_shape(json: Json) -> Option<Seq<char>> {
    match openai_shape_of(json) {
        Some(choices) => if choices.len() > 0 {
            choices[0].message
        } else {
            None
        },
        None => None,
    }
}

/// The text delta of one event's payload once it is parsed: that of the
/// first shape that the payload has, of the delta shape, the message shape
/// and the content-only shape in this order; the empty text for a payload of
/// no known shape, or one that is no JSON.
pub open spec fn event_text(doc: Option<Json>) -> Seq<char> {
    match doc {
        Some(json) => if delta_shape(json) is Some {
            delta_shape(json)->0
        } else if message_shape(json) is Some {
            message_shape(json)->0
        } else if content_only_of(json) is Some {
            content_only_of(json)->0
        } else {
            Seq::empty()
        },
        None => Seq::empty(),
    }
}

/// The payload that ends a stream.
pub open spec fn done_marker() -> Seq<char> {
    "[DONE]"@
}

/// What the payload of one event contributes, white space around it aside:
/// nothing where it is blank; the end of the stream, with no text, where it
/// is the marker; else the text of [`event_text`], and the stream goes on.
pub open spec fn event_delta(data: Seq<char>) -> Option<(Seq<char>, bool)> {
    if trimmed(data).len() == 0 {
        None
    } else if trimmed(data) == done_marker() {
        Some((Seq::empty(), true))
    } else {
        Some((event_text(json_document(trimmed(data))), false))
    }
}

/// The marker `[DONE]`, with any white space around it, ends the stream and
/// carries no text.
pub proof fn lemma_done_marker_ends_stream(left: Seq<char>, right: Seq<char>)
    requires
        all_space(left),
        all_space(right),
    ensures
        event_delta(left + done_marker() + right) == Some((Seq::<char>::empty(), true)),
{
    reveal_strlit("[DONE]");
    lemma_trimmed_of_padded(left, done_marker(), right);
}

/// A payload of white space alone gives nothing.
pub proof fn lemma_blank_payload_gives_nothing(data: Seq<char>)
    requires
        all_space(data),
    ensures
        event_delta(data) is None,
{
    lemma_trimmed_of_blank(data);
}

/// A payload that is neither blank nor the marker always gives a delta, and
/// never ends the stream: one that is no JSON, or JSON of no known shape,
/// gives the empty text.
pub proof fn lemma_payload_never_fails(data: Seq<char>)
    requires
        trimmed(data).len() > 0,
        trimmed(data) != done_marker(),
    ensures
        event_delta(data) == Some((event_text(json_document(trimmed(data))), false)),
        json_document(trimmed(data)) is None ==> event_delta(data) == Some(
            (Seq::<char>::empty(), false),
        ),
{
}

impl BBMessage {
    pub open spec fn view(&self) -> Seq<char> {
        self.content@
    }

    /// Reads a `message` member.
    pub fn decode(json: &Json) -> (found: Option<BBMessage>)
        ensures
            match found {
                Some(message) => message_of(*json) == Some(message@),
                None => message_of(*json) is None,
            },
    {
        match json.get_text("content") {
            Some(content) => Some(BBMessage { content }),
            None => None,
        }
    }
}

impl OAIDelta {
    pub open spec fn view(&self) -> Option<Seq<char>> {
        match self.content {
            Some(s) => Some(s@),
            None => None,
        }
    }

    /// Reads a `delta` member.
    pub fn decode(json: &Json) -> (found: Option<OAIDelta>)
        ensures
            match found {
                Some(delta) => delta_of(*json) == Some(delta@),
                None => delta_of(*json) is None,
            },
    {
        match json {
            Json::Record(_) => {},
            _ => {
                return None;
            },
        }
        match json.get_present("content") {
            Some(value) => match value.as_text() {
                Some(content) => Some(OAIDelta { content: Some(content) }),
                None => None,
            },
            None => Some(OAIDelta { content: None }),
        }
    }
}

impl BBChoice {
    pub open spec fn view(&self) -> ChoiceModel {
        ChoiceModel {
            message: match self.message {
                Some(m) => Some(m@),
                None => None,
            },
            delta: match self.delta {
                Some(d) => Some(d@),
                None => None,
            },
        }
    }

    /// Reads one element of `choices`.
    pub fn decode(json: &Json) -> (found: Option<BBChoice>)
        ensures
            match found {
                Some(choice) => choice_of(*json) == Some(choice@),
                None => choice_of(*json) is None,
            },
    {
        match json {
            Json::Record(_) => {},
            _ => {
                return None;
            },
        }
        let message = match json.get_present("message") {
            Some(value) => match BBMessage::decode(value) {
                Some(m) => Some(m),
                None => {
                    return None;
                },
            },
            None => None,
        };
        let delta = match json.get_present("delta") {
            Some(value) => match OAIDelta::decode(value) {
                Some(d) => Some(d),
                None => {
                    return None;
                },
            },
            None => None,
        };
        Some(BBChoice { message, delta })
    }
}

impl BBResponseOpenAIShape {
    pub open spec fn view(&self) -> Seq<ChoiceModel> {
        Seq::new(self.choices@.len(), |i: int| self.choices@[i]@)
    }

    /// Reads a response with choices.
    pub fn decode(json: &Json) -> (found: Option<BBResponseOpenAIShape>)
        ensures
            match found {
                Some(shape) => openai_shape_of(*json) == Some(shape@),
                None => openai_shape_of(*json) is None,
            },
    {
        let items = match json.get("choices") {
            Some(Json::List(items)) => items,
            _ => {
                return None;
            },
        };
        let mut choices: Vec<BBChoice> = Vec::new();
        let mut i: usize = 0;
        while i < items.len()
            invariant
                i <= items@.len(),
                choices@.len() == i,
                openai_shape_of(*json) == choices_of(items@),
                forall|k: int|
                    0 <= k < i ==> (#[trigger] choice_of(items@[k])) == Some(choices@[k]@),
            decreases items@.len() - i,
        {
            match BBChoice::decode(&items[i]) {
                Some(choice) => {
                    choices.push(choice);
                },
                None => {
                    assert(choice_of(items@[i as int]) is None);
                    return None;
                },
            }
            i += 1;
        }
        let shape = BBResponseOpenAIShape { choices };
        assert(choices_of(items@) is Some);
        assert(shape@ =~= choices_of(items@)->0);
        Some(shape)
    }
}

impl BBResponseContentOnly {
    pub open spec fn view(&self) -> Seq<char> {
        self.content@
    }

    /// Reads a response that is just `{"content": ...}`.
    pub fn decode(json: &Json) -> (found: Option<BBResponseContentOnly>)
        ensures
            match found {
                Some(shape) => content_only_of(*json) == Some(shape@),
                None => content_only_of(*json) is None,
            },
    {
        match json.get_text("content") {
            Some(content) => Some(BBResponseContentOnly { content }),
            None => None,
        }
    }
}

/// The text of the first choice: that of its delta, else that of its
/// message.
fn first_choice_text(shape: BBResponseOpenAIShape) -> (found: Option<String>)
    ensures
        match found {
            Some(s) => Some(s@) == (if shape@.len() > 0 && shape@[0].delta is Some
                && shape@[0].delta->0 is Some {
                shape@[0].delta->0
            } else if shape@.len() > 0 {
                shape@[0].message
            } else {
                None
            }),
            None => !(shape@.len() > 0 && shape@[0].delta is Some && shape@[0].delta->0 is Some)
                && (shape@.len() > 0 ==> shape@[0].message is None),
        },
{
    let mut choices = shape.choices;
    if choices.len() == 0 {
        return None;
    }
    let first = choices.swap_remove(0);
    assert(first@ == shape@[0]);
    if let Some(delta) = first.delta {
        if let Some(piece) = delta.content {
            return Some(piece);
        }
    }
    match first.message {
        Some(message) => Some(message.content),
        None => None,
    }
}

/// The text delta of one event's payload once it is parsed.
pub fn text_of_event(doc: Option<Json>) -> (text: String)
    ensures
        text@ == event_text(doc),
{
    match doc {
        Some(json) => {
            if let Some(shape) = BBResponseOpenAIShape::decode(&json) {
                if let Some(text) = first_choice_text(shape) {
                    return text;
                }
            }
            match BBResponseContentOnly::decode(&json) {
                Some(flat) => flat.content,
                None => String::new(),
            }
        },
        None => String::new(),
    }
}

/// Reads the payload of one event: its text delta and whether it ends the
/// stream. A blank payload gives nothing; the marker `[DONE]` ends the
/// stream; a payload of no known shape gives the empty text.
pub fn parse_blackbird_sse_data(data: &str) -> (delta: Option<(String, bool)>)
    ensures
        match delta {
            Some(pair) => event_delta(data@) == Some((pair.0@, pair.1)),
            None => event_delta(data@) is None,
        },
{
    let chars = chars_of(data);
    parse_payload(&chars)
}

/// Reads the payload of one event from its characters.
pub fn parse_payload(chars: &Vec<char>) -> (delta: Option<(String, bool)>)
    ensures
        match delta {
            Some(pair) => event_delta(chars@) == Some((pair.0@, pair.1)),
            None => event_delta(chars@) is None,
        },
{
    let (start, end) = trim_bounds(chars, 0, chars.len());
    assert(chars@.subrange(0, chars@.len() as int) =~= chars@);
    if start == end {
        return None;
    }
    let payload = text_of(chars, start, end);
    if payload == String::from_str("[DONE]") {
        return Some((String::new(), true));
    }
    Some((text_of_event(Json::parse(payload.as_str())), false))
}

/// A line without the carriage return at its end, if it has one.
pub open spec fn without_cr(line: Seq<char>) -> Seq<char> {
    if line.len() > 0 && line.last() == '\r' {
        line.drop_last()
    } else {
        line
    }
}

/// The prefix of a line that carries data of an event.
pub open spec fn data_prefix() -> Seq<char> {
    "data:"@
}

/// The data that a line carries: what follows the prefix `data:` and the
/// white space behind it. `None` for a line without the prefix.
pub open spec fn data_fragment(line: Seq<char>) -> Option<Seq<char>> {
    if starts_with(line, data_prefix()) {
        Some(skip_leading_space(line.subrange(data_prefix().len() as int, line.len() as int)))
    } else {
        None
    }
}

/// The data of an event with one more fragment.
pub open spec fn gathered(data: Option<Seq<char>>, fragment: Seq<char>) -> Option<Seq<char>> {
    match data {
        Some(so_far) => Some(so_far + fragment),
        None => Some(fragment),
    }
}

/// What a run of complete lines contributes to a stream of events.
pub struct EventScan {
    /// The text deltas of the events read, joined in order.
    pub appended: Seq<char>,
    /// Whether an event was the end of the stream.
    pub done: bool,
    /// Where the text that was not read begins.
    pub rest: int,
    /// The data gathered for the event that is not yet complete.
    pub data: Option<Seq<char>>,
}

/// Reads the complete lines of `s` from `from` on, one by one, with `data`
/// gathered so far for the current event. A line that carries data adds to
/// it; an empty line completes the event, whose data is then read and
/// forgotten; any other line is passed over. Reading stops behind the event
/// that ends the stream. What follows the last line feed is not read.
pub open spec fn scan_events(s: Seq<char>, from: int, data: Option<Seq<char>>) -> EventScan
    decreases s.len() - from,
{
    let end = newline_from(s, from);
    if from < 0 || end < from || end >= s.len() {
        EventScan { appended: Seq::empty(), done: false, rest: from, data }
    } else {
        let line = without_cr(s.subrange(from, end));
        if line.len() == 0 {
            match data {
                Some(payload) => match event_delta(payload) {
                    Some((piece, done)) => if done {
                        EventScan { appended: piece, done: true, rest: end + 1, data: None }
                    } else {
                        let later = scan_events(s, end + 1, None);
                        EventScan {
                            appended: piece + later.appended,
                            done: later.done,
                            rest: later.rest,
                            data: later.data,
                        }
                    },
                    None => scan_events(s, end + 1, None),
                },
                None => scan_events(s, end + 1, None),
            }
        } else {
            match data_fragment(line) {
                Some(fragment) => scan_events(s, end + 1, gathered(data, fragment)),
                None => scan_events(s, end + 1, data),
            }
        }
    }
}

/// What is left to read behind a scan of `s`: nothing once the stream has
/// ended.
pub open spec fn events_left_over(s: Seq<char>, scan: EventScan) -> Seq<char> {
    if scan.done {
        Seq::empty()
    } else {
        s.subrange(scan.rest, s.len() as int)
    }
}

/// The scan of `s` from `from` on, where a line is complete there and the
/// scan goes on behind it: the data with which it goes on.
pub open spec fn data_behind_line(s: Seq<char>, from: int, data: Option<Seq<char>>) -> Option<
    Seq<char>,
> {
    let line = without_cr(s.subrange(from, newline_from(s, from)));
    if line.len() == 0 {
        None
    } else {
        match data_fragment(line) {
            Some(fragment) => gathered(data, fragment),
            None => data,
        }
    }
}

/// A scan reads forwards and stays inside the text; where it does not end
/// the stream, no line feed stands behind the place where it stops.
pub proof fn lemma_events_bounds(s: Seq<char>, from: int, data: Option<Seq<char>>)
    requires
        0 <= from <= s.len(),
    ensures
        from <= scan_events(s, from, data).rest <= s.len(),
        !scan_events(s, from, data).done ==> newline_from(s, scan_events(s, from, data).rest)
            == s.len(),
    decreases s.len() - from,
{
    lemma_newline_bounds(s, from);
    let end = newline_from(s, from);
    if end < s.len() {
        lemma_events_bounds(s, end + 1, data_behind_line(s, from, data));
    }
}

/// Text that follows changes nothing of what a scan has read: where the
/// scan ended the stream, it reads the same; where it did not, it reads the
/// same and then goes on from the place where it stopped, with the data
/// that it had gathered.
pub proof fn lemma_events_extend(s: Seq<char>, more: Seq<char>, from: int, data: Option<Seq<char>>)
    requires
        0 <= from <= s.len(),
    ensures
        scan_events(s, from, data).done ==> scan_events(s + more, from, data) == scan_events(
            s,
            from,
            data,
        ),
        !scan_events(s, from, data).done ==> {
            let here = scan_events(s, from, data);
            let onward = scan_events(s + more, here.rest, here.data);
            &&& scan_events(s + more, from, data).appended == here.appended + onward.appended
            &&& scan_events(s + more, from, data).done == onward.done
            &&& scan_events(s + more, from, data).rest == onward.rest
            &&& scan_events(s + more, from, data).data == onward.data
        },
    decreases s.len() - from,
{
    lemma_newline_bounds(s, from);
    let end = newline_from(s, from);
    let there = scan_events(s + more, from, data);
    if end < s.len() {
        lemma_newline_extends(s, more, from);
        assert((s + more).subrange(from, end) =~= s.subrange(from, end));
        let next = data_behind_line(s, from, data);
        lemma_events_extend(s, more, end + 1, next);
        let later = scan_events(s, end + 1, next);
        let line = without_cr(s.subrange(from, end));
        if line.len() == 0 {
            match data {
                Some(payload) => match event_delta(payload) {
                    Some((piece, done)) => {
                        if !done && !later.done {
                            let onward = scan_events(s + more, later.rest, later.data);
                            assert(piece + (later.appended + onward.appended) =~= (piece
                                + later.appended) + onward.appended);
                        }
                    },
                    None => {},
                },
                None => {},
            }
        }
    } else {
        assert(Seq::<char>::empty() + there.appended =~= there.appended);
    }
}

/// A scan of the end of a text reads what a scan of the whole text reads
/// from there on.
pub proof fn lemma_events_shift(t: Seq<char>, cut: int, from: int, data: Option<Seq<char>>)
    requires
        0 <= cut <= t.len(),
        0 <= from <= t.len() - cut,
    ensures
        ({
            let whole = scan_events(t, cut + from, data);
            let tail = scan_events(t.subrange(cut, t.len() as int), from, data);
            &&& whole.appended == tail.appended
            &&& whole.done == tail.done
            &&& whole.rest == cut + tail.rest
            &&& whole.data == tail.data
        }),
    decreases t.len() - cut - from,
{
    let tail = t.subrange(cut, t.len() as int);
    lemma_newline_shifts(t, cut, from);
    lemma_newline_bounds(tail, from);
    let end = newline_from(tail, from);
    if end < tail.len() {
        assert(t.subrange(cut + from, cut + end) =~= tail.subrange(from, end));
        lemma_events_shift(t, cut, end + 1, data_behind_line(tail, from, data));
    }
}

/// How the text of a stream of events is cut into chunks does not matter:
/// two chunks fed one after the other give what the two give as one chunk.
/// Where the first chunk ends the stream, the second gives nothing more.
pub proof fn lemma_event_chunking_is_immaterial(
    pending: Seq<char>,
    data: Option<Seq<char>>,
    first: Seq<char>,
    second: Seq<char>,
)
    ensures
        ({
            let one = scan_events(pending + first, 0, data);
            let both = scan_events(pending + (first + second), 0, data);
            let two = scan_events(events_left_over(pending + first, one) + second, 0, one.data);
            if one.done {
                both.done && both.appended == one.appended
            } else {
                &&& both.appended == one.appended + two.appended
                &&& both.done == two.done
                &&& both.data == two.data
                &&& events_left_over(pending + (first + second), both) == events_left_over(
                    events_left_over(pending + first, one) + second,
                    two,
                )
            }
        }),
{
    let s = pending + first;
    let t = s + second;
    assert(pending + (first + second) =~= t);
    let one = scan_events(s, 0, data);
    lemma_events_extend(s, second, 0, data);
    lemma_events_bounds(s, 0, data);
    if !one.done {
        let tail = t.subrange(one.rest, t.len() as int);
        assert(tail =~= s.subrange(one.rest, s.len() as int) + second);
        lemma_events_shift(t, one.rest, 0, one.data);
        let two = scan_events(tail, 0, one.data);
        lemma_events_bounds(tail, 0, one.data);
        if !two.done {
            assert(t.subrange(one.rest + two.rest, t.len() as int) =~= tail.subrange(
                two.rest,
                tail.len() as int,
            ));
        }
    }
}

/// The registry after a scan: the deltas appended to the entry, and the
/// entry ended where the scan met the end of the stream.
pub open spec fn store_after_events(store: StoreModel, id: u64, scan: EventScan) -> StoreModel {
    if scan.done {
        store.append(id, scan.appended).finish(id)
    } else {
        store.append(id, scan.appended)
    }
}

/// A stream of server-sent events in the middle of its arrival: the text
/// behind the last line feed, and the data gathered for the event that is
/// not yet complete.
pub struct EventStream {
    pub pending: Vec<char>,
    pub data: Option<Vec<char>>,
}

/// The characters of the data gathered, where there is any.
pub open spec fn data_view(data: Option<Vec<char>>) -> Option<Seq<char>> {
    match data {
        Some(chars) => Some(chars@),
        None => None,
    }
}

impl EventStream {
    /// A stream of which nothing has arrived.
    pub fn new() -> (stream: EventStream)
        ensures
            stream.pending@ == Seq::<char>::empty(),
            stream.data is None,
    {
        EventStream { pending: Vec::new(), data: None }
    }

    /// Takes in the text of one chunk off the network. Each line that the
    /// chunk completes is read; the delta of each event that is completed,
    /// unless empty, is appended to the entry of `handle`, in the order of
    /// the events. The event that ends the stream ends the entry, and `true`
    /// is returned: nothing more is to be fed. What follows the last line
    /// feed is kept until its own line feed arrives.
    pub fn feed(&mut self, chunk: &str, handle: StreamHandle, store: &mut StreamStore) -> (done:
        bool)
        requires
            old(store).wf(),
        ensures
            final(store).wf(),
            done == scan_events(
                old(self).pending@ + chunk@,
                0,
                data_view(old(self).data),
            ).done,
            final(store)@ == store_after_events(
                old(store)@,
                handle.id,
                scan_events(old(self).pending@ + chunk@, 0, data_view(old(self).data)),
            ),
            !done ==> final(self).pending@ == (old(self).pending@ + chunk@).subrange(
                scan_events(old(self).pending@ + chunk@, 0, data_view(old(self).data)).rest,
                (old(self).pending@ + chunk@).len() as int,
            ),
            !done ==> data_view(final(self).data) == scan_events(
                old(self).pending@ + chunk@,
                0,
                data_view(old(self).data),
            ).data,
    {
        let mut text: Vec<char> = Vec::new();
        extend_from(&mut text, &self.pending, 0, self.pending.len());
        let fresh = chars_of(chunk);
        extend_from(&mut text, &fresh, 0, fresh.len());
        let prefix = chars_of("data:");
        let ghost s = old(self).pending@ + chunk@;
        assert(text@ =~= s);
        let ghost total = scan_events(s, 0, data_view(old(self).data));
        let ghost mut seen: Seq<char> = Seq::empty();
        let mut data: Option<Vec<char>> = self.data.take();
        let mut from: usize = 0;
        proof {
            lemma_append_nothing(old(store)@, handle.id);
            assert(seen + total.appended =~= total.appended);
        }
        loop
            invariant
                text@ == s,
                prefix@ == data_prefix(),
                s == old(self).pending@ + chunk@,
                total == scan_events(s, 0, data_view(old(self).data)),
                from <= s.len(),
                store.wf(),
                store@ == old(store)@.append(handle.id, seen),
                total.appended == seen + scan_events(s, from as int, data_view(data)).appended,
                total.done == scan_events(s, from as int, data_view(data)).done,
                total.rest == scan_events(s, from as int, data_view(data)).rest,
                total.data == scan_events(s, from as int, data_view(data)).data,
            decreases s.len() - from,
        {
            let end = find_newline(&text, from);
            if end >= text.len() {
                proof {
                    assert(seen + Seq::<char>::empty() =~= seen);
                }
                let mut rest: Vec<char> = Vec::new();
                extend_from(&mut rest, &text, from, text.len());
                assert(rest@ =~= s.subrange(from as int, s.len() as int));
                self.pending = rest;
                self.data = data;
                return false;
            }
            let line_end = if end > from && text[end - 1] == '\r' {
                end - 1
            } else {
                end
            };
            let ghost line = without_cr(s.subrange(from as int, end as int));
            assert(line =~= s.subrange(from as int, line_end as int));
            if line_end == from {
                let payload = data.take();
                if let Some(chars) = payload {
                    if let Some((piece, done)) = parse_payload(&chars) {
                        proof {
                            lemma_append_twice(old(store)@, handle.id, seen, piece@);
                            if !done {
                                assert((seen + piece@) + scan_events(
                                    s,
                                    end + 1,
                                    None,
                                ).appended =~= seen + (piece@ + scan_events(
                                    s,
                                    end + 1,
                                    None,
                                ).appended));
                            }
                        }
                        if !piece.as_str().is_empty() {
                            handle.append(store, piece.as_str());
                        } else {
                            proof {
                                assert(piece@ =~= Seq::<char>::empty());
                                lemma_append_nothing(store@, handle.id);
                            }
                        }
                        proof {
                            seen = seen + piece@;
                        }
                        if done {
                            handle.finish(store);
                            self.pending = Vec::new();
                            self.data = None;
                            return true;
                        }
                    }
                }
            } else if range_starts_with(&text, from, line_end, &prefix) {
                let start = leading_space_end(&text, from + prefix.len(), line_end);
                assert(s.subrange(from + prefix@.len(), line_end as int) =~= line.subrange(
                    data_prefix().len() as int,
                    line.len() as int,
                ));
                let mut joined: Vec<char> = match data {
                    Some(so_far) => so_far,
                    None => Vec::new(),
                };
                let ghost before = joined@;
                extend_from(&mut joined, &text, start, line_end);
                proof {
                    if data_view(data) is None {
                        assert(joined@ =~= s.subrange(start as int, line_end as int));
                    }
                }
                data = Some(joined);
            }
            from = end + 1;
        }
    }
}

/// The backend behind the hosted service.
pub struct BlackbirdBackend {
    pub endpoint: String,
    pub tier: String,
    pub model: String,
    pub api_key: Option<String>,
}

/// The label of this backend in the text of its errors.
pub open spec fn blackbird_label() -> Seq<char> {
    "Blackbird"@
}

/// The answer in the body of a successful response: the content of the
/// first choice's message, where the body is a response with choices; else
/// the content, where it is a response of content alone; else the body
/// itself.
pub open spec fn blackbird_answer(doc: Option<Json>, body: Seq<char>) -> Seq<char> {
    match doc {
        Some(json) => if message_shape(json) is Some {
            message_shape(json)->0
        } else if content_only_of(json) is Some {
            content_only_of(json)->0
        } else {
            body
        },
        None => body,
    }
}

impl BlackbirdBackend {
    pub fn new(endpoint: String, tier: String, model: String, api_key: Option<String>) -> (backend:
        BlackbirdBackend)
        ensures
            backend.endpoint == endpoint,
            backend.tier == tier,
            backend.model == model,
            backend.api_key == api_key,
    {
        BlackbirdBackend { endpoint, tier, model, api_key }
    }

    /// The backend for the endpoint, with tier, model and credential as the
    /// configuration names them: the default tier and model where it names
    /// none, and no credential where it names none.
    pub fn from_env(endpoint: String, config: &BackendConfig) -> (backend: BlackbirdBackend)
        ensures
            backend.endpoint == endpoint,
            backend.tier@ == text_or(config.blackbird_tier, default_tier()),
            backend.model@ == text_or(config.blackbird_model, default_hosted_model()),
            opt_text(backend.api_key) == opt_text(config.blackbird_api_key),
    {
        BlackbirdBackend {
            endpoint,
            tier: clone_or(&config.blackbird_tier, "ultra"),
            model: clone_or(&config.blackbird_model, "gpt-oss-120b"),
            api_key: clone_opt(&config.blackbird_api_key),
        }
    }

    /// The request for an answer to `messages`. A streamed answer is asked
    /// for by `stream: true` in the body and by the header that accepts an
    /// event stream; a whole answer by neither.
    pub open spec fn request_for(&self, messages: Seq<ChatMessage>, stream: bool) -> RequestModel {
        RequestModel {
            url: self.endpoint@,
            accept_event_stream: stream,
            bearer: opt_text(self.api_key),
            tier: Some(self.tier@),
            model: Some(self.model@),
            messages: wire_messages(messages),
            stream: if stream {
                Some(true)
            } else {
                None
            },
        }
    }

    /// The request for an answer to `messages`: a POST of
    /// `{tier, model, messages, stream}`, with the credential as bearer
    /// where there is one.
    pub fn request(&self, messages: &Vec<ChatMessage>, stream: bool) -> (request: ChatRequest)
        ensures
            request@ == self.request_for(messages@, stream),
    {
        ChatRequest {
            url: self.endpoint.clone(),
            accept_event_stream: stream,
            bearer: clone_opt(&self.api_key),
            body: RequestBody {
                tier: Some(self.tier.clone()),
                model: Some(self.model.clone()),
                messages: to_wire(messages),
                stream: if stream {
                    Some(true)
                } else {
                    None
                },
            },
        }
    }

    /// The answer in the body of a successful response, once the body is
    /// parsed.
    pub fn answer(doc: Option<Json>, body: &str) -> (text: String)
        ensures
            text@ == blackbird_answer(doc, body@),
    {
        if let Some(json) = doc {
            if let Some(shape) = BBResponseOpenAIShape::decode(&json) {
                let mut choices = shape.choices;
                if choices.len() > 0 {
                    let first = choices.swap_remove(0);
                    assert(first@ == shape@[0]);
                    if let Some(message) = first.message {
                        return message.content;
                    }
                }
            }
            if let Some(flat) = BBResponseContentOnly::decode(&json) {
                return flat.content;
            }
        }
        String::from_str(body)
    }

    /// What a response means: on a success status the answer of
    /// [`blackbird_answer`]; else a provider error with the status and the
    /// body.
    pub fn complete(&self, status: u16, body: &str) -> (result: ChatResult<String>)
        ensures
            match result {
                Ok(text) => is_success(status) && text@ == blackbird_answer(
                    json_document(body@),
                    body@,
                ),
                Err(error) => !is_success(status) && error.is_provider(
                    blackbird_label(),
                    status,
                    body@,
                ),
            },
    {
        if status_is_success(status) {
            Ok(BlackbirdBackend::answer(Json::parse(body), body))
        } else {
            Err(ChatError::provider("Blackbird", status, body))
        }
    }

    /// This backend streams server-sent events.
    pub fn supports_streaming(&self) -> (yes: bool)
        ensures
            yes,
    {
        true
    }
}

} // verus!
