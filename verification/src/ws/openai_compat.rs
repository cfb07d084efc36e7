//! A language model behind an OpenAI-compatible interface: what it is asked, and what
//! its answers say.
use vstd::prelude::*;

use crate::error::{result_view, ErrorView, WorkflowError};
use crate::json::{json_reading, parse_json};
use crate::llm::{chunk_views, ChunkStatus, ChunkView, StreamChunk};
use crate::string_map::{assoc_after_insert, assoc_insert, StringMap};
use crate::text::{
    apart, cat2, cat4, contains_text, has_prefix, is_white_space, prefix_is_what_it_begins_with,
    replace, replace_text, replaced_text_is_gone, replacing_goes_from_left_to_right, slice_text,
    strip_prefix, text_eq, to_chars, trim, trim_end, trim_end_text, trim_text,
    trimming_leaves_the_middle, trimming_takes_off_the_sides, Trimmed,
};
use crate::value::{array_view, json_views, object_view, Json, JsonView};
use vstd::string::StringExecFns;

verus! {

// ---------------------------------------------------------------------------
// Requests
// ---------------------------------------------------------------------------

/// A client of a language model.
#[derive(Debug)]
pub struct OpenaiCompatLlm {
    pub base_url: String,
    pub api_key: String,
    pub model: String,
}

/// What a client holds.
#[verifier::ext_equal]
pub struct ClientView {
    pub base_url: Seq<char>,
    pub api_key: Seq<char>,
    pub model: Seq<char>,
}

impl View for OpenaiCompatLlm {
    type V = ClientView;

    open spec fn view(&self) -> ClientView {
        ClientView { base_url: self.base_url@, api_key: self.api_key@, model: self.model@ }
    }
}

/// How much of an answer is repeated in an error.
pub const SNIPPET_LIMIT: usize = 512;

/// The beginning of a text.
pub open spec fn snippet(s: Seq<char>) -> Seq<char> {
    if s.len() <= SNIPPET_LIMIT {
        s
    } else {
        s.take(SNIPPET_LIMIT as int)
    }
}

fn snippet_text(s: &str) -> (r: String)
    ensures
        r@ == snippet(s@),
{
    let chars = to_chars(s);
    if chars.len() <= SNIPPET_LIMIT {
        return s.to_owned();
    }
    let r = slice_text(&chars, 0, SNIPPET_LIMIT);
    proof {
        assert(chars@.subrange(0, SNIPPET_LIMIT as int) =~= chars@.take(SNIPPET_LIMIT as int));
    }
    r
}

/// The client that the environment describes: none without a key, the usual address
/// and model where none are given.
pub open spec fn client_of(
    api_key: Option<Seq<char>>,
    base_url: Option<Seq<char>>,
    model: Option<Seq<char>>,
) -> Option<ClientView> {
    match api_key {
        None => None,
        Some(key) => if trim_text(key, Trimmed::White).len() == 0 {
            None
        } else {
            Some(
                ClientView {
                    base_url: trim_end_text(
                        match base_url {
                            Some(u) => u,
                            None => "https://api.openai.com/v1"@,
                        },
                        Trimmed::Slash,
                    ),
                    api_key: key,
                    model: match model {
                        Some(m) => m,
                        None => "gpt-4o-mini"@,
                    },
                },
            )
        },
    }
}

impl ClientView {
    /// An error that does not give the key away.
    pub open spec fn error(self, message: Seq<char>) -> ErrorView {
        if self.api_key.len() == 0 {
            ErrorView::Other(message)
        } else {
            ErrorView::Other(replace_text(message, self.api_key, "[redacted]"@))
        }
    }

    /// What the model is sent.
    pub open spec fn body(self, prompt: Seq<char>, stream: bool) -> JsonView {
        let message = JsonView::Object(
            assoc_insert(
                seq![("role"@, JsonView::Text("user"@))],
                "content"@,
                JsonView::Text(prompt),
            ),
        );
        JsonView::Object(
            assoc_insert(
                assoc_insert(
                    seq![("model"@, JsonView::Text(self.model))],
                    "messages"@,
                    JsonView::Array(seq![message]),
                ),
                "stream"@,
                JsonView::Bool(stream),
            ),
        )
    }
}

/// The first item of the list at a key.
pub open spec fn first_of(body: JsonView, key: Seq<char>) -> Option<JsonView> {
    match body.get(key) {
        Some(JsonView::Array(a)) => if a.len() > 0 {
            Some(a[0])
        } else {
            None
        },
        _ => None,
    }
}

/// The value at a key of a value that may not be there.
pub open spec fn then_get(v: Option<JsonView>, key: Seq<char>) -> Option<JsonView> {
    match v {
        Some(v) => v.get(key),
        None => None,
    }
}

/// The text of a value that may not be there.
pub open spec fn then_text(v: Option<JsonView>) -> Option<Seq<char>> {
    match v {
        Some(v) => v.as_text(),
        None => None,
    }
}

/// The answer in a reply: the text of the message of the first choice.
pub open spec fn chat_content(body: JsonView) -> Option<Seq<char>> {
    then_text(then_get(then_get(first_of(body, "choices"@), "message"@), "content"@))
}

fn first_item<'a>(body: &'a Json, key: &str) -> (r: Option<&'a Json>)
    ensures
        match r {
            Some(v) => first_of(body@, key@) == Some(v@),
            None => first_of(body@, key@) is None,
        },
{
    broadcast use array_view;

    match body.get(key) {
        Some(Json::Array(a)) => {
            if a.len() > 0 {
                proof {
                    assert(json_views(a@)[0] == a@[0]@);
                }
                Some(&a[0])
            } else {
                None
            }
        },
        _ => None,
    }
}

fn get_of<'a>(v: Option<&'a Json>, key: &str) -> (r: Option<&'a Json>)
    ensures
        ({
            let got = then_get(
                match v {
                    Some(v) => Some(v@),
                    None => None,
                },
                key@,
            );
            match r {
                Some(x) => got == Some(x@),
                None => got is None,
            }
        }),
{
    match v {
        Some(v) => v.get(key),
        None => None,
    }
}

/// What came of a request.
#[derive(Debug)]
pub enum HttpReply {
    /// The request could not be made; the wording of the error.
    SendFailed(String),
    /// A reply: its status, whether that means success, and its text or the wording
    /// of the error of reading it.
    Replied { status: String, success: bool, body: Result<String, String> },
}

/// The error of a reply whose status means failure.
pub open spec fn status_error(c: ClientView, status: Seq<char>, body: Result<String, String>) -> ErrorView {
    let text = match body {
        Ok(s) => s@,
        Err(e) => e@,
    };
    c.error("LLM API returned HTTP "@ + status + ": "@ + snippet(text))
}

/// What a reply to a whole question says.
pub open spec fn chat_outcome(c: ClientView, reply: HttpReply) -> Result<Seq<char>, ErrorView> {
    match reply {
        HttpReply::SendFailed(e) => Err(c.error("LLM request failed: "@ + e@)),
        HttpReply::Replied { status, success, body } => if !success {
            Err(status_error(c, status@, body))
        } else {
            match body {
                Err(e) => Err(
                    c.error("failed to read HTTP "@ + status@ + " LLM response: "@ + e@),
                ),
                Ok(raw) => match json_reading(raw@) {
                    Err(e) => Err(
                        c.error(
                            "failed to parse HTTP "@ + status@ + " LLM response: "@ + e + (
                            "; body: "@ + snippet(raw@)),
                        ),
                    ),
                    Ok(v) => match chat_content(v) {
                        Some(text) => Ok(text),
                        None => Err(
                            c.error("LLM API response missing choices[0].message.content"@),
                        ),
                    },
                },
            }
        },
    }
}

/// The error of a streamed question that could not be asked, if it could not.
pub open spec fn stream_failure(c: ClientView, reply: HttpReply) -> Option<ErrorView> {
    match reply {
        HttpReply::SendFailed(e) => Some(c.error("LLM stream request failed: "@ + e@)),
        HttpReply::Replied { status, success, body } => if success {
            None
        } else {
            Some(status_error(c, status@, body))
        },
    }
}

impl OpenaiCompatLlm {
    /// The client that the environment describes, given what its variables hold.
    pub fn from_env(
        api_key: Option<String>,
        base_url: Option<String>,
        model: Option<String>,
    ) -> (r: Option<OpenaiCompatLlm>)
        ensures
            crate::error::option_view(r) == client_of(
                crate::context_sync::text_option(api_key),
                crate::context_sync::text_option(base_url),
                crate::context_sync::text_option(model),
            ),
    {
        let key = match api_key {
            None => {
                return None;
            },
            Some(key) => key,
        };
        let trimmed = trim(key.as_str(), Trimmed::White);
        proof {
            reveal_strlit("");
            if trimmed@.len() == 0 {
                assert(trimmed@ =~= ""@);
            }
        }
        if text_eq(trimmed.as_str(), "") {
            return None;
        }
        let url = match base_url {
            Some(u) => u,
            None => "https://api.openai.com/v1".to_owned(),
        };
        let name = match model {
            Some(m) => m,
            None => "gpt-4o-mini".to_owned(),
        };
        Some(Self::new(url.as_str(), key, name))
    }

    /// A client; slashes at the end of the address are dropped.
    pub fn new(base_url: &str, api_key: String, model: String) -> (r: OpenaiCompatLlm)
        ensures
            r@ == (ClientView {
                base_url: trim_end_text(base_url@, Trimmed::Slash),
                api_key: api_key@,
                model: model@,
            }),
    {
        OpenaiCompatLlm { base_url: trim_end(base_url, Trimmed::Slash), api_key, model }
    }

    /// Where questions are sent.
    pub fn endpoint(&self) -> (r: String)
        ensures
            r@ == self@.base_url + "/chat/completions"@,
    {
        cat2(self.base_url.as_str(), "/chat/completions")
    }

    /// What authorises a request.
    pub fn auth_header(&self) -> (r: String)
        ensures
            r@ == "Bearer "@ + self@.api_key,
    {
        cat2("Bearer ", self.api_key.as_str())
    }

    /// An error that does not give the key away.
    pub fn error_message(&self, message: &str) -> (r: WorkflowError)
        ensures
            r@ == self@.error(message@),
    {
        proof {
            reveal_strlit("");
            if self.api_key@.len() == 0 {
                assert(self.api_key@ =~= ""@);
            }
        }
        if text_eq(self.api_key.as_str(), "") {
            WorkflowError::Other(message.to_owned())
        } else {
            WorkflowError::Other(replace(message, self.api_key.as_str(), "[redacted]"))
        }
    }

    /// What the model is sent.
    pub fn request_body(&self, prompt: &str, stream: bool) -> (r: Json)
        ensures
            r@ == self@.body(prompt@, stream),
    {
        broadcast use object_view, array_view;

        let mut message: StringMap<Json> = StringMap::new();
        message.insert("role".to_owned(), Json::text("user"));
        proof {
            assert(message@ =~= seq![("role"@, JsonView::Text("user"@))]);
        }
        message.insert("content".to_owned(), Json::text(prompt));
        let mut messages: Vec<Json> = Vec::new();
        let ghost m = message@;
        messages.push(Json::Object(message));
        proof {
            assert(json_views(messages@) =~= seq![JsonView::Object(m)]);
        }
        let mut body: StringMap<Json> = StringMap::new();
        body.insert("model".to_owned(), Json::text(self.model.as_str()));
        proof {
            assert(body@ =~= seq![("model"@, JsonView::Text(self.model@))]);
        }
        body.insert("messages".to_owned(), Json::Array(messages));
        body.insert("stream".to_owned(), Json::Bool(stream));
        Json::Object(body)
    }

    /// The error of a reply whose status means failure.
    pub fn response_error(&self, status: &str, body: &Result<String, String>) -> (r: WorkflowError)
        ensures
            r@ == status_error(self@, status@, *body),
    {
        let text: &String = match body {
            Ok(s) => s,
            Err(e) => e,
        };
        let start = snippet_text(text.as_str());
        let message = cat4("LLM API returned HTTP ", status, ": ", start.as_str());
        self.error_message(message.as_str())
    }

    /// The answer in a reply.
    pub fn parse_chat_content(&self, body: &Json) -> (r: Result<String, WorkflowError>)
        ensures
            result_view(r) == (match chat_content(body@) {
                Some(text) => Ok(text),
                None => Err(
                    self@.error("LLM API response missing choices[0].message.content"@),
                ),
            }),
    {
        let message = get_of(first_item(body, "choices"), "message");
        let content = get_of(message, "content");
        let text = match content {
            Some(v) => v.as_str(),
            None => None,
        };
        match text {
            Some(s) => Ok(s.to_owned()),
            None => Err(
                self.error_message("LLM API response missing choices[0].message.content"),
            ),
        }
    }

    /// What a reply to a whole question says.
    pub fn chat(&self, reply: HttpReply) -> (r: Result<String, WorkflowError>)
        ensures
            result_view(r) == chat_outcome(self@, reply),
    {
        match reply {
            HttpReply::SendFailed(e) => {
                let message = cat2("LLM request failed: ", e.as_str());
                Err(self.error_message(message.as_str()))
            },
            HttpReply::Replied { status, success, body } => {
                if !success {
                    return Err(self.response_error(status.as_str(), &body));
                }
                let raw = match body {
                    Ok(raw) => raw,
                    Err(e) => {
                        let message = cat4(
                            "failed to read HTTP ",
                            status.as_str(),
                            " LLM response: ",
                            e.as_str(),
                        );
                        return Err(self.error_message(message.as_str()));
                    },
                };
                match parse_json(raw.as_str()) {
                    Ok(v) => self.parse_chat_content(&v),
                    Err(e) => {
                        let mut message = cat4(
                            "failed to parse HTTP ",
                            status.as_str(),
                            " LLM response: ",
                            e.as_str(),
                        );
                        let start = snippet_text(raw.as_str());
                        let tail = cat2("; body: ", start.as_str());
                        message.append(tail.as_str());
                        Err(self.error_message(message.as_str()))
                    },
                }
            },
        }
    }

    /// The error of a streamed question that could not be asked, if it could not.
    pub fn stream_error(&self, reply: &HttpReply) -> (r: Option<WorkflowError>)
        ensures
            crate::error::option_view(r) == stream_failure(self@, *reply),
    {
        match reply {
            HttpReply::SendFailed(e) => {
                let message = cat2("LLM stream request failed: ", e.as_str());
                Some(self.error_message(message.as_str()))
            },
            HttpReply::Replied { status, success, body } => {
                if *success {
                    None
                } else {
                    Some(self.response_error(status.as_str(), body))
                }
            },
        }
    }

    /// The error of a stream that broke off.
    pub fn read_error(&self, text: &str) -> (r: WorkflowError)
        ensures
            r@ == self@.error("LLM stream read failed: "@ + text@),
    {
        let message = cat2("LLM stream read failed: ", text);
        self.error_message(message.as_str())
    }
}

// ---------------------------------------------------------------------------
// Streams
// ---------------------------------------------------------------------------

/// The text that `String::from_utf8_lossy` makes of bytes.
pub uninterp spec fn lossy_text(bytes: Seq<u8>) -> Seq<char>;

/// Makes a text of bytes by `String::from_utf8_lossy`. The text depends on the
/// bytes alone.
#[verifier::external_body]
fn bytes_to_text(bytes: &Vec<u8>) -> (r: String)
    ensures
        r@ == lossy_text(bytes@),
{
    String::from_utf8_lossy(bytes).into_owned()
}

/// What one line of a stream says.
#[verifier::ext_equal]
pub struct LineView {
    /// The piece of the answer, where the line brings one.
    pub delta: Option<Seq<char>>,
    /// Whether the stream ends here.
    pub ends: bool,
}

/// The payload of a line: what follows `data:`, trimmed.
pub open spec fn line_payload(line: Seq<char>) -> Option<Seq<char>> {
    if has_prefix(line, "data:"@) {
        Some(trim_text(line.skip("data:"@.len() as int), Trimmed::White))
    } else {
        None
    }
}

/// What an event says: a piece that is not empty, and the end where a reason for it
/// is given.
pub open spec fn event_view(value: JsonView) -> LineView {
    let choice = first_of(value, "choices"@);
    LineView {
        delta: match then_text(then_get(then_get(choice, "delta"@), "content"@)) {
            Some(s) => if s.len() > 0 {
                Some(s)
            } else {
                None
            },
            None => None,
        },
        ends: match then_get(choice, "finish_reason"@) {
            Some(reason) => !(reason is Null),
            None => false,
        },
    }
}

/// What one line of a stream says. A line without a payload, and one whose payload
/// is no JSON text, say nothing; `[DONE]` ends the stream.
pub open spec fn line_view(line: Seq<char>) -> LineView {
    match line_payload(line) {
        None => LineView { delta: None, ends: false },
        Some(payload) => if payload.len() == 0 {
            LineView { delta: None, ends: false }
        } else if payload == "[DONE]"@ {
            LineView { delta: None, ends: true }
        } else {
            match json_reading(payload) {
                Err(_) => LineView { delta: None, ends: false },
                Ok(value) => event_view(value),
            }
        },
    }
}

fn read_event(value: &Json) -> (r: (Option<String>, bool))
    ensures
        crate::context_sync::text_option(r.0) == event_view(value@).delta,
        r.1 == event_view(value@).ends,
{
    let choice = first_item(value, "choices");
    let content = get_of(get_of(choice, "delta"), "content");
    let text = match content {
        Some(v) => v.as_str(),
        None => None,
    };
    proof {
        reveal_strlit("");
    }
    let delta: Option<String> = match text {
        Some(s) => {
            proof {
                if s@.len() == 0 {
                    assert(s@ =~= ""@);
                }
            }
            if text_eq(s, "") {
                None
            } else {
                Some(s.to_owned())
            }
        },
        None => None,
    };
    let ends: bool = match get_of(choice, "finish_reason") {
        Some(Json::Null) => false,
        Some(_) => true,
        None => false,
    };
    (delta, ends)
}

/// Reads one line of a stream: the piece that it brings, and whether the stream ends.
pub fn process_sse_line(line: &str) -> (r: (Option<String>, bool))
    ensures
        crate::context_sync::text_option(r.0) == line_view(line@).delta,
        r.1 == line_view(line@).ends,
{
    let rest = match strip_prefix(line, "data:") {
        None => {
            return (None, false);
        },
        Some(rest) => rest,
    };
    let payload = trim(rest.as_str(), Trimmed::White);
    proof {
        reveal_strlit("");
        if payload@.len() == 0 {
            assert(payload@ =~= ""@);
        }
    }
    if text_eq(payload.as_str(), "") {
        return (None, false);
    }
    if text_eq(payload.as_str(), "[DONE]") {
        return (None, true);
    }
    match parse_json(payload.as_str()) {
        Err(_) => (None, false),
        Ok(value) => read_event(&value),
    }
}

/// The state of reading a stream.
#[verifier::ext_equal]
pub struct DecoderView {
    /// The bytes of the line that is not complete.
    pub pending: Seq<u8>,
    /// The last piece.
    pub last_delta: Seq<char>,
    /// Whether the stream has ended.
    pub finished: bool,
    /// The pieces that were read, in order.
    pub pieces: Seq<ChunkView>,
}

impl DecoderView {
    /// A stream that nothing was read of.
    pub open spec fn empty() -> DecoderView {
        DecoderView {
            pending: Seq::empty(),
            last_delta: Seq::empty(),
            finished: false,
            pieces: Seq::empty(),
        }
    }

    /// The state after a line.
    pub open spec fn line(self, bytes: Seq<u8>) -> DecoderView {
        let v = line_view(trim_end_text(lossy_text(bytes), Trimmed::LineEnd));
        DecoderView {
            pending: Seq::empty(),
            last_delta: match v.delta {
                Some(d) => d,
                None => self.last_delta,
            },
            finished: v.ends,
            pieces: match v.delta {
                Some(d) => self.pieces.push(ChunkView { status: ChunkStatus::Data, content: d }),
                None => self.pieces,
            },
        }
    }

    /// The state after a byte. A newline completes a line; after the end of the
    /// stream nothing is read.
    pub open spec fn byte(self, b: u8) -> DecoderView {
        if self.finished {
            self
        } else if b == 10 {
            self.line(self.pending.push(b))
        } else {
            DecoderView { pending: self.pending.push(b), ..self }
        }
    }

    /// The state after several bytes.
    pub open spec fn bytes(self, v: Seq<u8>) -> DecoderView
        decreases v.len(),
    {
        if v.len() == 0 {
            self
        } else {
            self.bytes(v.drop_last()).byte(v.last())
        }
    }

    /// The state at the end of the bytes: a line that is not complete counts too,
    /// and the last piece is repeated as the end of the answer.
    pub open spec fn end(self) -> DecoderView {
        let read = if !self.finished && self.pending.len() > 0 {
            self.line(self.pending)
        } else {
            self
        };
        DecoderView {
            pieces: read.pieces.push(
                ChunkView { status: ChunkStatus::Finish, content: read.last_delta },
            ),
            ..read
        }
    }
}

/// Reads a stream.
#[derive(Debug)]
pub struct SseDecoder {
    pub pending: Vec<u8>,
    pub last_delta: String,
    pub finished: bool,
    pub pieces: Vec<StreamChunk>,
}

impl View for SseDecoder {
    type V = DecoderView;

    open spec fn view(&self) -> DecoderView {
        DecoderView {
            pending: self.pending@,
            last_delta: self.last_delta@,
            finished: self.finished,
            pieces: chunk_views(self.pieces@),
        }
    }
}

impl SseDecoder {
    /// A stream that nothing was read of.
    pub fn new() -> (r: SseDecoder)
        ensures
            r@ == DecoderView::empty(),
    {
        SseDecoder {
            pending: Vec::new(),
            last_delta: String::new(),
            finished: false,
            pieces: Vec::new(),
        }
    }

    fn add_piece(&mut self, chunk: StreamChunk)
        ensures
            final(self)@ == (DecoderView { pieces: old(self)@.pieces.push(chunk@), ..old(self)@ }),
    {
        let ghost before = chunk_views(self.pieces@);
        let ghost c = chunk@;
        self.pieces.push(chunk);
        proof {
            assert(chunk_views(self.pieces@) =~= before.push(c));
        }
    }

    fn take_line(&mut self)
        ensures
            final(self)@ == old(self)@.line(old(self)@.pending),
    {
        let mut line: Vec<u8> = Vec::new();
        core::mem::swap(&mut line, &mut self.pending);
        let text = bytes_to_text(&line);
        let trimmed = trim_end(text.as_str(), Trimmed::LineEnd);
        let (delta, ends) = process_sse_line(trimmed.as_str());
        if let Some(d) = delta {
            self.last_delta = d.clone();
            self.add_piece(StreamChunk::data(d));
        }
        self.finished = ends;
    }

    /// Reads bytes as they come; whether the stream has ended.
    pub fn chat_stream(&mut self, bytes: &Vec<u8>) -> (r: bool)
        ensures
            final(self)@ == old(self)@.bytes(bytes@),
            r == final(self)@.finished,
    {
        let mut i: usize = 0;
        proof {
            assert(bytes@.take(0) =~= Seq::empty());
        }
        while i < bytes.len()
            invariant
                i <= bytes@.len(),
                self@ == old(self)@.bytes(bytes@.take(i as int)),
            decreases bytes@.len() - i,
        {
            proof {
                assert(bytes@.take(i + 1).drop_last() =~= bytes@.take(i as int));
                assert(bytes@.take(i + 1).last() == bytes@[i as int]);
            }
            if !self.finished {
                let b: u8 = bytes[i];
                self.pending.push(b);
                if b == 10 {
                    self.take_line();
                }
            }
            i = i + 1;
        }
        proof {
            assert(bytes@.take(i as int) =~= bytes@);
        }
        self.finished
    }

    /// Takes the pieces that were read since they were last taken.
    pub fn take_pieces(&mut self) -> (r: Vec<StreamChunk>)
        ensures
            chunk_views(r@) == old(self)@.pieces,
            final(self)@ == (DecoderView { pieces: Seq::empty(), ..old(self)@ }),
    {
        let mut taken: Vec<StreamChunk> = Vec::new();
        core::mem::swap(&mut taken, &mut self.pieces);
        proof {
            assert(chunk_views(self.pieces@) =~= Seq::empty());
        }
        taken
    }

    /// Ends the stream.
    pub fn finish(&mut self)
        ensures
            final(self)@ == old(self)@.end(),
    {
        if !self.finished && self.pending.len() > 0 {
            self.take_line();
        }
        let last = self.last_delta.clone();
        self.add_piece(StreamChunk::finish(last));
    }
}

// ---------------------------------------------------------------------------
// Laws
// ---------------------------------------------------------------------------

/// It does not matter how the bytes of a stream are cut into parts.
pub proof fn stream_can_be_cut_anywhere(d: DecoderView, first: Seq<u8>, second: Seq<u8>)
    ensures
        d.bytes(first).bytes(second) == d.bytes(first + second),
    decreases second.len(),
{
    if second.len() == 0 {
        assert(first + second =~= first);
    } else {
        stream_can_be_cut_anywhere(d, first, second.drop_last());
        assert((first + second).drop_last() =~= first + second.drop_last());
    }
}

/// After the end of a stream nothing that comes changes what was read.
pub proof fn nothing_is_read_after_the_end(d: DecoderView, more: Seq<u8>)
    requires
        d.finished,
    ensures
        d.bytes(more) == d,
    decreases more.len(),
{
    if more.len() > 0 {
        nothing_is_read_after_the_end(d, more.drop_last());
    }
}

/// A stream that was read to its end ends with one piece that says so.
pub proof fn answer_ends_with_finish(d: DecoderView)
    ensures
        d.end().pieces.len() > 0,
        d.end().pieces.last().status == ChunkStatus::Finish,
{
}

/// An error whose message does not hold the key is reported as it is.
pub proof fn error_without_key_is_unchanged(c: ClientView, message: Seq<char>)
    requires
        c.api_key.len() == 0 || !contains_text(message, c.api_key),
    ensures
        c.error(message) == ErrorView::Other(message),
{
    if c.api_key.len() > 0 {
        crate::text::replace_nothing(message, c.api_key, "[redacted]"@);
    }
}

/// No error gives the key away, unless the key overlaps with what is put in its place.
pub proof fn errors_do_not_hold_the_key(c: ClientView, message: Seq<char>, reply: HttpReply)
    requires
        c.api_key.len() > 0,
        apart(c.api_key, "[redacted]"@),
    ensures
        c.error(message) matches ErrorView::Other(text) && !contains_text(text, c.api_key),
        match chat_outcome(c, reply) {
            Ok(_) => true,
            Err(e) => e matches ErrorView::Other(text) && !contains_text(text, c.api_key),
        },
{
    reveal_strlit("[redacted]");
    assert forall|m: Seq<char>|
        !contains_text(#[trigger] replace_text(m, c.api_key, "[redacted]"@), c.api_key) by {
        replaced_text_is_gone(m, c.api_key, "[redacted]"@);
    }
}

/// Whether a value is the first of the choices of an event or a reply.
pub open spec fn is_first_choice(value: JsonView, choice: JsonView) -> bool {
    value.get("choices"@) matches Some(JsonView::Array(a)) && a.len() > 0 && a[0] == choice
}

/// An event ends the stream exactly where its first choice gives a reason that is not
/// null, and brings a piece exactly where the delta of its first choice has a content that
/// is a text and not empty.
pub proof fn event_ends_with_a_reason(value: JsonView, piece: Seq<char>)
    ensures
        event_view(value).ends <==> exists|choice: JsonView| #[trigger]
            is_first_choice(value, choice) && (choice.get("finish_reason"@) matches Some(reason)
                && reason != JsonView::Null),
        event_view(value).delta == Some(piece) <==> piece.len() > 0 && exists|choice: JsonView|
            #[trigger] is_first_choice(value, choice) && (choice.get("delta"@) matches Some(delta)
                && delta.get("content"@) == Some(JsonView::Text(piece))),
{
    if let Some(JsonView::Array(a)) = value.get("choices"@) {
        if a.len() > 0 {
            assert(is_first_choice(value, a[0]));
        }
    }
}

/// A line ends the stream exactly where what follows `data:`, without the white space
/// around it, is `[DONE]` or an event that gives a reason; it brings the piece that the
/// event brings, and a payload that is no JSON text says nothing.
pub proof fn line_says_what_its_event_says(
    left: Seq<char>,
    payload: Seq<char>,
    right: Seq<char>,
)
    requires
        forall|i: int| 0 <= i < left.len() ==> is_white_space(#[trigger] left[i]),
        forall|i: int| 0 <= i < right.len() ==> is_white_space(#[trigger] right[i]),
        payload.len() > 0,
        !is_white_space(payload[0]),
        !is_white_space(payload.last()),
    ensures
        ({
            let v = line_view("data:"@ + left + payload + right);
            &&& v.ends <==> payload == "[DONE]"@ || (json_reading(payload) matches Ok(value)
                && event_view(value).ends)
            &&& payload == "[DONE]"@ ==> v.delta is None
            &&& payload != "[DONE]"@ ==> v.delta == (match json_reading(payload) {
                Ok(value) => event_view(value).delta,
                Err(_) => None,
            })
        }),
{
    reveal_strlit("data:");
    let line = "data:"@ + left + payload + right;
    assert forall|i: int| 0 <= i < left.len() implies Trimmed::White.has(#[trigger] left[i]) by {
        assert(is_white_space(left[i]));
    }
    assert forall|i: int| 0 <= i < right.len() implies Trimmed::White.has(#[trigger] right[i]) by {
        assert(is_white_space(right[i]));
    }
    trimming_leaves_the_middle(left, payload, right, Trimmed::White);
    assert(line.skip(5) =~= left + payload + right);
    assert(line =~= "data:"@ + (left + payload + right));
    prefix_is_what_it_begins_with(line, "data:"@);
}

/// A line that does not begin with `data:`, and one with nothing but white space after
/// it, say nothing.
pub proof fn other_lines_say_nothing(line: Seq<char>)
    requires
        !has_prefix(line, "data:"@) || forall|i: int|
            5 <= i < line.len() ==> is_white_space(#[trigger] line[i]),
    ensures
        line_view(line).delta is None,
        !line_view(line).ends,
{
    reveal_strlit("data:");
    if has_prefix(line, "data:"@) {
        let rest = line.skip(5);
        assert forall|i: int| 0 <= i < rest.len() implies Trimmed::White.has(#[trigger] rest[i]) by {
            assert(is_white_space(line[i + 5]));
        }
        trimming_leaves_the_middle(Seq::empty(), rest, Seq::empty(), Trimmed::White);
    }
}

/// Whether no byte is the end of a line.
pub open spec fn is_one_line(bytes: Seq<u8>) -> bool {
    forall|i: int| 0 <= i < bytes.len() ==> #[trigger] bytes[i] != 10
}

/// What a line of bytes says, its end and all.
pub open spec fn said_by(bytes: Seq<u8>) -> LineView {
    line_view(trim_end_text(lossy_text(bytes.push(10)), Trimmed::LineEnd))
}

/// Bytes without the end of a line wait for the rest of the line, and nothing is read.
pub proof fn part_of_a_line_waits(d: DecoderView, part: Seq<u8>)
    requires
        !d.finished,
        is_one_line(part),
    ensures
        d.bytes(part).pending == d.pending + part,
        d.bytes(part).pieces == d.pieces,
        d.bytes(part).last_delta == d.last_delta,
        !d.bytes(part).finished,
    decreases part.len(),
{
    if part.len() == 0 {
        assert(d.pending + part =~= d.pending);
    } else {
        let front = part.drop_last();
        assert forall|i: int| 0 <= i < front.len() implies #[trigger] front[i] != 10 by {
            assert(part[i] != 10);
        }
        part_of_a_line_waits(d, front);
        assert(part[part.len() - 1] != 10);
        assert((d.pending + front).push(part.last()) =~= d.pending + part);
    }
}

/// A complete line is read when its end comes: the piece that it brings, if any, follows
/// the pieces that were read, nothing of the line is left, and the stream has ended
/// exactly where the line says so.
pub proof fn line_is_read_at_its_end(d: DecoderView, line: Seq<u8>)
    requires
        !d.finished,
        d.pending.len() == 0,
        is_one_line(line),
    ensures
        ({
            let after = d.bytes(line.push(10));
            let v = said_by(line);
            &&& after.finished == v.ends
            &&& after.pending.len() == 0
            &&& v.delta is None ==> after.pieces == d.pieces && after.last_delta == d.last_delta
            &&& v.delta is Some ==> after.pieces == d.pieces.push(
                ChunkView { status: ChunkStatus::Data, content: v.delta->0 },
            ) && after.last_delta == v.delta->0
        }),
{
    part_of_a_line_waits(d, line);
    assert(line.push(10).drop_last() =~= line);
    assert(d.pending + line =~= line);
}

/// The bytes of lines, each with its end.
pub open spec fn line_bytes(lines: Seq<Seq<u8>>) -> Seq<u8>
    decreases lines.len(),
{
    if lines.len() == 0 {
        Seq::empty()
    } else {
        line_bytes(lines.drop_last()) + lines.last().push(10)
    }
}

/// The pieces that lines bring, in order.
pub open spec fn brought_by(lines: Seq<Seq<u8>>) -> Seq<Seq<char>>
    decreases lines.len(),
{
    if lines.len() == 0 {
        Seq::empty()
    } else {
        match said_by(lines.last()).delta {
            Some(piece) => brought_by(lines.drop_last()).push(piece),
            None => brought_by(lines.drop_last()),
        }
    }
}

/// Of lines none of which ends the stream every piece is read, in order, and the stream
/// goes on: an event without a reason, or with null for one, keeps none of what follows
/// it from being read.
pub proof fn every_piece_is_read(lines: Seq<Seq<u8>>)
    requires
        forall|i: int|
            0 <= i < lines.len() ==> is_one_line(#[trigger] lines[i]) && !said_by(lines[i]).ends,
    ensures
        ({
            let d = DecoderView::empty().bytes(line_bytes(lines));
            &&& !d.finished
            &&& d.pending.len() == 0
            &&& d.pieces.len() == brought_by(lines).len()
            &&& forall|i: int|
                0 <= i < d.pieces.len() ==> (#[trigger] d.pieces[i]).status == ChunkStatus::Data
                    && d.pieces[i].content == brought_by(lines)[i]
        }),
    decreases lines.len(),
{
    if lines.len() > 0 {
        let front = lines.drop_last();
        let last = lines.last();
        assert forall|i: int| 0 <= i < front.len() implies is_one_line(#[trigger] front[i])
            && !said_by(front[i]).ends by {
            assert(is_one_line(lines[i]));
        }
        assert(is_one_line(lines[lines.len() - 1]));
        every_piece_is_read(front);
        let d = DecoderView::empty().bytes(line_bytes(front));
        stream_can_be_cut_anywhere(DecoderView::empty(), line_bytes(front), last.push(10));
        line_is_read_at_its_end(d, last);
    }
}

/// Where lines none of which ends the stream are followed by one that does, that line is
/// read, and nothing after it.
pub proof fn stream_ends_at_the_line_that_says_so(
    lines: Seq<Seq<u8>>,
    ending: Seq<u8>,
    more: Seq<u8>,
)
    requires
        forall|i: int|
            0 <= i < lines.len() ==> is_one_line(#[trigger] lines[i]) && !said_by(lines[i]).ends,
        is_one_line(ending),
        said_by(ending).ends,
    ensures
        ({
            let before = DecoderView::empty().bytes(line_bytes(lines));
            let after = DecoderView::empty().bytes(line_bytes(lines) + ending.push(10) + more);
            &&& after.finished
            &&& said_by(ending).delta is None ==> after.pieces == before.pieces
            &&& said_by(ending).delta is Some ==> after.pieces == before.pieces.push(
                ChunkView { status: ChunkStatus::Data, content: said_by(ending).delta->0 },
            )
        }),
{
    every_piece_is_read(lines);
    let e = DecoderView::empty();
    let before = e.bytes(line_bytes(lines));
    line_is_read_at_its_end(before, ending);
    stream_can_be_cut_anywhere(e, line_bytes(lines), ending.push(10));
    stream_can_be_cut_anywhere(e, line_bytes(lines) + ending.push(10), more);
    nothing_is_read_after_the_end(e.bytes(line_bytes(lines) + ending.push(10)), more);
}

/// The pieces of a stream are texts that are not empty, and the piece that ends the answer
/// repeats the last of them, or is empty where there was none. A line that is not complete
/// counts at the end of the bytes.
pub proof fn end_repeats_the_last_piece(bytes: Seq<u8>)
    ensures
        ({
            let d = DecoderView::empty().bytes(bytes);
            let all = d.end().pieces;
            let n = all.len() - 1;
            &&& forall|i: int|
                0 <= i < n ==> (#[trigger] all[i]).status == ChunkStatus::Data
                    && all[i].content.len() > 0
            &&& all[n].status == ChunkStatus::Finish
            &&& n > 0 ==> all[n].content == all[n - 1].content
            &&& n == 0 ==> all[n].content.len() == 0
            &&& d.finished || d.pending.len() == 0 ==> n == d.pieces.len()
            &&& !d.finished && d.pending.len() > 0 ==> ({
                let v = line_view(trim_end_text(lossy_text(d.pending), Trimmed::LineEnd));
                &&& v.delta is None ==> n == d.pieces.len()
                &&& v.delta is Some ==> n == d.pieces.len() + 1 && all[n - 1].content == v.delta->0
            })
            &&& d.pieces == all.take(d.pieces.len() as int)
        }),
{
    pieces_are_data(bytes);
    let d = DecoderView::empty().bytes(bytes);
    assert(d.pieces =~= d.end().pieces.take(d.pieces.len() as int));
}

proof fn pieces_are_data(bytes: Seq<u8>)
    ensures
        ({
            let d = DecoderView::empty().bytes(bytes);
            &&& forall|i: int|
                0 <= i < d.pieces.len() ==> (#[trigger] d.pieces[i]).status == ChunkStatus::Data
                    && d.pieces[i].content.len() > 0
            &&& d.pieces.len() > 0 ==> d.last_delta == d.pieces.last().content
            &&& d.pieces.len() == 0 ==> d.last_delta.len() == 0
        }),
    decreases bytes.len(),
{
    if bytes.len() > 0 {
        pieces_are_data(bytes.drop_last());
    }
}

/// The answer of a reply is the content of the message of its first choice, where that
/// content is a text; it is taken from a reply that succeeded, could be read and is a JSON
/// text, and from no other.
pub proof fn answer_is_the_content_of_the_first_choice(
    c: ClientView,
    body: JsonView,
    reply: HttpReply,
    text: Seq<char>,
)
    ensures
        chat_content(body) == Some(text) <==> exists|choice: JsonView| #[trigger]
            is_first_choice(body, choice) && (choice.get("message"@) matches Some(message)
                && message.get("content"@) == Some(JsonView::Text(text))),
        chat_outcome(c, reply) == Ok::<Seq<char>, ErrorView>(text) <==> (reply matches
            HttpReply::Replied { status, success, body } && success && (body matches Ok(raw) && (
        json_reading(raw@) matches Ok(v) && chat_content(v) == Some(text)))),
{
    if let Some(JsonView::Array(a)) = body.get("choices"@) {
        if a.len() > 0 {
            assert(is_first_choice(body, a[0]));
        }
    }
}

/// A reply without an answer says why, with as much of the reply as is repeated: the
/// request failed, the status means failure, the reply could not be read or is no JSON
/// text, or the answer is missing.
pub proof fn missing_answer_is_explained(c: ClientView, reply: HttpReply)
    ensures
        match reply {
            HttpReply::SendFailed(e) => chat_outcome(c, reply) == Err::<Seq<char>, ErrorView>(
                c.error("LLM request failed: "@ + e@),
            ),
            HttpReply::Replied { status, success, body } => {
                let text = match body {
                    Ok(s) => s@,
                    Err(e) => e@,
                };
                &&& !success ==> chat_outcome(c, reply) == Err::<Seq<char>, ErrorView>(
                    c.error("LLM API returned HTTP "@ + status@ + ": "@ + snippet(text)),
                )
                &&& success && body is Err ==> chat_outcome(c, reply) == Err::<
                    Seq<char>,
                    ErrorView,
                >(c.error("failed to read HTTP "@ + status@ + " LLM response: "@ + text))
                &&& success && body is Ok && json_reading(text) is Err ==> chat_outcome(c, reply)
                    == Err::<Seq<char>, ErrorView>(
                    c.error(
                        "failed to parse HTTP "@ + status@ + " LLM response: "@ + json_reading(
                            text,
                        )->Err_0 + ("; body: "@ + snippet(text)),
                    ),
                )
                &&& success && body is Ok && json_reading(text) is Ok && chat_content(
                    json_reading(text)->Ok_0,
                ) is None ==> chat_outcome(c, reply) == Err::<Seq<char>, ErrorView>(
                    c.error("LLM API response missing choices[0].message.content"@),
                )
            },
        },
{
}

/// The part of a text that is repeated is its beginning, up to so many characters.
pub proof fn snippet_is_the_beginning(s: Seq<char>)
    ensures
        s.len() <= 512 ==> snippet(s) == s,
        s.len() > 512 ==> snippet(s).len() == 512,
        forall|i: int| 0 <= i < snippet(s).len() ==> #[trigger] snippet(s)[i] == s[i],
{
}

/// There is a client exactly where there is a key that is not blank. It has the key as it
/// was given, the model that was given or the usual one, and the address that was given or
/// the usual one without the slashes at its end.
pub proof fn client_needs_a_key(
    api_key: Option<Seq<char>>,
    base_url: Option<Seq<char>>,
    model: Option<Seq<char>>,
)
    ensures
        client_of(api_key, base_url, model) is Some <==> (api_key matches Some(key) && exists|
            i: int,
        |
            0 <= i < key.len() && !is_white_space(#[trigger] key[i])),
        client_of(api_key, base_url, model) matches Some(c) ==> {
            let url = if base_url is Some {
                base_url->0
            } else {
                "https://api.openai.com/v1"@
            };
            &&& Some(c.api_key) == api_key
            &&& model is Some ==> c.model == model->0
            &&& model is None ==> c.model == "gpt-4o-mini"@
            &&& c.base_url.len() > 0 ==> c.base_url.last() != '/'
            &&& exists|slashes: Seq<char>|
                url == #[trigger] (c.base_url + slashes) && forall|i: int|
                    0 <= i < slashes.len() ==> #[trigger] slashes[i] == '/'
        },
{
    if let Some(key) = api_key {
        trimming_leaves_the_middle(Seq::empty(), key, Seq::empty(), Trimmed::White);
        if exists|i: int| 0 <= i < key.len() && !is_white_space(#[trigger] key[i]) {
            let i = choose|i: int| 0 <= i < key.len() && !is_white_space(#[trigger] key[i]);
            assert(!Trimmed::White.has(key[i]));
        }
        if trim_text(key, Trimmed::White).len() > 0 {
            let i = choose|i: int| 0 <= i < key.len() && !Trimmed::White.has(#[trigger] key[i]);
            assert(!is_white_space(key[i]));
        }
        let url = if base_url is Some {
            base_url->0
        } else {
            "https://api.openai.com/v1"@
        };
        trimming_takes_off_the_sides(url, Trimmed::Slash);
        let b = choose|b: Seq<char>|
            url == #[trigger] (trim_end_text(url, Trimmed::Slash) + b) && forall|i: int|
                0 <= i < b.len() ==> Trimmed::Slash.has(#[trigger] b[i]);
        assert(url == trim_end_text(url, Trimmed::Slash) + b);
        assert forall|i: int| 0 <= i < b.len() implies #[trigger] b[i] == '/' by {
            assert(Trimmed::Slash.has(b[i]));
        }
        end_is_no_slash(url);
        if let Some(c) = client_of(api_key, base_url, model) {
            assert(c.base_url == trim_end_text(url, Trimmed::Slash));
            assert(url == c.base_url + b);
        }
    }
}

proof fn end_is_no_slash(url: Seq<char>)
    ensures
        ({
            let e = trim_end_text(url, Trimmed::Slash);
            e.len() > 0 ==> e.last() != '/'
        }),
    decreases url.len(),
{
    if url.len() > 0 {
        end_is_no_slash(url.drop_last());
    }
}

/// The model is sent its name, whether the answer is to be streamed, and one message: the
/// prompt, as the words of the user.
pub proof fn request_holds_the_prompt(c: ClientView, prompt: Seq<char>, stream: bool)
    ensures
        c.body(prompt, stream).get("model"@) == Some(JsonView::Text(c.model)),
        c.body(prompt, stream).get("stream"@) == Some(JsonView::Bool(stream)),
        c.body(prompt, stream).get("messages"@) matches Some(JsonView::Array(a)) && a.len() == 1
            && a[0].get("role"@) == Some(JsonView::Text("user"@)) && a[0].get("content"@) == Some(
            JsonView::Text(prompt),
        ),
{
    reveal_strlit("model");
    reveal_strlit("messages");
    reveal_strlit("stream");
    reveal_strlit("role");
    reveal_strlit("content");
    assert("model"@.len() == 5 && "messages"@.len() == 8 && "stream"@.len() == 6 && "role"@.len()
        == 4 && "content"@.len() == 7);
    let r = seq![("role"@, JsonView::Text("user"@))];
    let text = JsonView::Text(prompt);
    assoc_after_insert(r, "content"@, text, "role"@);
    assoc_after_insert(r, "content"@, text, "content"@);
    let message = JsonView::Object(assoc_insert(r, "content"@, text));
    let m = seq![("model"@, JsonView::Text(c.model))];
    let list = JsonView::Array(seq![message]);
    assoc_after_insert(m, "messages"@, list, "model"@);
    assoc_after_insert(m, "messages"@, list, "messages"@);
    let two = assoc_insert(m, "messages"@, list);
    assoc_after_insert(two, "stream"@, JsonView::Bool(stream), "model"@);
    assoc_after_insert(two, "stream"@, JsonView::Bool(stream), "messages"@);
    assoc_after_insert(two, "stream"@, JsonView::Bool(stream), "stream"@);
}

/// A streamed question can be read exactly where the request was made and its status means
/// success; else the error says why, with as much of the reply as is repeated.
pub proof fn stream_opens_on_success(c: ClientView, reply: HttpReply)
    ensures
        stream_failure(c, reply) is None <==> (reply matches HttpReply::Replied {
            status,
            success,
            body,
        } && success),
        reply matches HttpReply::SendFailed(e) ==> stream_failure(c, reply) == Some(
            c.error("LLM stream request failed: "@ + e@),
        ),
        reply matches HttpReply::Replied { status, success, body } ==> !success ==> stream_failure(
            c,
            reply,
        ) == Some(
            c.error(
                "LLM API returned HTTP "@ + status@ + ": "@ + snippet(
                    match body {
                        Ok(s) => s@,
                        Err(e) => e@,
                    },
                ),
            ),
        ),
{
}

/// Wherever the key stands in a message the mark `[redacted]` stands in its place, and what
/// is not the key stays.
pub proof fn key_gives_way_to_a_mark(c: ClientView, rest: Seq<char>, ch: char)
    requires
        c.api_key.len() > 0,
    ensures
        c.error(rest) is Other,
        c.error(c.api_key + rest) == ErrorView::Other("[redacted]"@ + c.error(rest)->Other_0),
        !has_prefix(seq![ch] + rest, c.api_key) ==> c.error(seq![ch] + rest) == ErrorView::Other(
            seq![ch] + c.error(rest)->Other_0,
        ),
        c.error(Seq::empty()) == ErrorView::Other(Seq::empty()),
{
    replacing_goes_from_left_to_right(rest, c.api_key, "[redacted]"@, ch);
    assert(replace_text(Seq::empty(), c.api_key, "[redacted]"@) =~= Seq::empty());
}

} // verus!
