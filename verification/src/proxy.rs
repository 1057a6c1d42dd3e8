//! The decisions of the proxy: what is read out of a request, what is sent on, what is answered
//! and what is logged.

use std::time::Duration;

use vstd::hash_set::StringHashSet;
use vstd::prelude::*;

use crate::convert::fresh;
use crate::convert::messages;
use crate::convert::messages::{Remark, RemarkView};
use crate::convert::request;
use crate::convert::request::ChatRequest;
use crate::convert::response;
use crate::convert::tools;
use crate::headers;
use crate::headers::Header;
use crate::json;
use crate::json::{Json, JsonView, Object};
use crate::report;
use crate::report::{Entry, Level, Report, ReportView};
use crate::text;

verus! {

// ---------------------------------------------------------------------------
// Settings
// ---------------------------------------------------------------------------

/// Where chat requests go unless another place is set.
pub const DEFAULT_UPSTREAM: &'static str = "https://api.vivgrid.com/v1/chat/completions";

/// Where the proxy listens unless another address is set.
pub const DEFAULT_LISTEN: &'static str = "127.0.0.1:33333";

/// Where the models are listed: beside the chat completions, or the same place where that cannot
/// be told.
pub open spec fn models_location(upstream: Seq<char>) -> Seq<char> {
    let tail = "/chat/completions"@;
    let n = upstream.len() - tail.len();
    if n >= 0 && upstream.skip(n) == tail {
        upstream.take(n) + "/models"@
    } else {
        upstream
    }
}

/// Finds where the models are listed.
pub fn models_url(upstream: &str) -> (r: String)
    ensures
        r@ == models_location(upstream@),
{
    let chars = text::characters(upstream);
    let tail = text::characters("/chat/completions");
    if chars.len() < tail.len() {
        return upstream.to_owned();
    }
    let n: usize = chars.len() - tail.len();
    let mut end = String::new();
    text::append_chars(&mut end, chars.as_slice(), n, chars.len());
    assert(end@ =~= upstream@.skip(n as int));
    if text::same_text(end.as_str(), "/chat/completions") {
        let mut out = String::new();
        text::append_chars(&mut out, chars.as_slice(), 0, n);
        out.append("/models");
        assert(out@ =~= upstream@.take(n as int) + "/models"@);
        out
    } else {
        upstream.to_owned()
    }
}

/// The key that stands in for an authorization that is missing: an empty one is none.
pub fn fallback_key(setting: Option<String>) -> (r: Option<String>)
    ensures
        match setting {
            Some(key) => if key@.len() > 0 {
                r == Some(key)
            } else {
                r is None
            },
            None => r is None,
        },
{
    match setting {
        Some(key) => if key.as_str().is_empty() {
            None
        } else {
            Some(key)
        },
        None => None,
    }
}

// ---------------------------------------------------------------------------
// Refusals
// ---------------------------------------------------------------------------

/// An answer with a JSON body.
pub struct Reply {
    pub status: u16,
    pub body: String,
}

/// The body of an error that the proxy itself tells of.
pub open spec fn error_body(msg: Seq<char>) -> JsonView {
    JsonView::Obj(
        Map::<Seq<char>, JsonView>::empty().insert(
            "error"@,
            JsonView::Obj(
                Map::<Seq<char>, JsonView>::empty().insert("message"@, JsonView::Str(msg)).insert(
                    "type"@,
                    JsonView::Str("proxy_error"@),
                ),
            ),
        ),
    )
}

/// Answers with an error.
pub fn error_json(status: u16, msg: &str) -> (r: Reply)
    ensures
        r.status == status,
        r.body@ == json::written(error_body(msg@)),
{
    let told = Object::new().insert("message", json::string(msg)).insert(
        "type",
        json::string("proxy_error"),
    );
    let body = json::object(Object::new().insert("error", json::object(told)));
    Reply { status, body: json::to_text(&body) }
}

/// Why a request is not answered with a response.
pub enum Refusal {
    /// The body is no JSON, and why.
    Body(String),
    /// There is no authorization to send on.
    Authorization,
    /// The upstream could not be asked, and why.
    Upstream(String),
    /// The answer of the upstream is no JSON, and why.
    Answer(String),
    /// There is nothing at that place for that method.
    Route(String, String),
}

/// The same with the texts.
pub enum RefusalView {
    Body(Seq<char>),
    Authorization,
    Upstream(Seq<char>),
    Answer(Seq<char>),
    Route(Seq<char>, Seq<char>),
}

impl View for Refusal {
    type V = RefusalView;

    open spec fn view(&self) -> RefusalView {
        match self {
            Refusal::Body(e) => RefusalView::Body(e@),
            Refusal::Authorization => RefusalView::Authorization,
            Refusal::Upstream(e) => RefusalView::Upstream(e@),
            Refusal::Answer(e) => RefusalView::Answer(e@),
            Refusal::Route(method, uri) => RefusalView::Route(method@, uri@),
        }
    }
}

/// The status of a refusal.
pub open spec fn refusal_status(r: RefusalView) -> u16 {
    match r {
        RefusalView::Body(_) => 400,
        RefusalView::Authorization => 401,
        RefusalView::Upstream(_) => 502,
        RefusalView::Answer(_) => 502,
        RefusalView::Route(_, _) => 404,
    }
}

/// The message of a refusal.
pub open spec fn refusal_message(r: RefusalView) -> Seq<char> {
    match r {
        RefusalView::Body(e) => "invalid JSON body: "@ + e,
        RefusalView::Authorization => "missing Authorization: Bearer <token>"@,
        RefusalView::Upstream(e) => "upstream request failed: "@ + e,
        RefusalView::Answer(e) => "invalid upstream JSON: "@ + e,
        RefusalView::Route(method, uri) => "no route for "@ + method + " "@ + uri,
    }
}

/// What is logged of a refusal, and how grave it is: a warning where the request lacks something or
/// has gone astray.
pub open spec fn refusal_entry(r: RefusalView, req_id: u64) -> (Seq<char>, Level) {
    let id = text::decimal(req_id as nat);
    match r {
        RefusalView::Body(e) => ("invalid JSON body: "@ + e + " req="@ + id, Level::Error),
        RefusalView::Authorization => (
            "#"@ + id + " no Authorization header (and UPSTREAM_API_KEY unset)"@,
            Level::Warn,
        ),
        RefusalView::Upstream(e) => (
            "#"@ + id + " ✖ upstream request failed: "@ + e,
            Level::Error,
        ),
        RefusalView::Answer(e) => (
            "#"@ + id + " ✖ failed to read upstream JSON: "@ + e,
            Level::Error,
        ),
        RefusalView::Route(method, uri) => (
            "unhandled route: "@ + method + " "@ + uri,
            Level::Warn,
        ),
    }
}

impl Refusal {
    /// The status to answer with.
    pub fn status(&self) -> (r: u16)
        ensures
            r == refusal_status(self@),
    {
        match self {
            Refusal::Body(_) => 400,
            Refusal::Authorization => 401,
            Refusal::Upstream(_) => 502,
            Refusal::Answer(_) => 502,
            Refusal::Route(_, _) => 404,
        }
    }

    /// The message to answer with.
    pub fn message(&self) -> (r: String)
        ensures
            r@ == refusal_message(self@),
    {
        match self {
            Refusal::Body(e) => {
                let mut s = "invalid JSON body: ".to_owned();
                s.append(e.as_str());
                s
            },
            Refusal::Authorization => "missing Authorization: Bearer <token>".to_owned(),
            Refusal::Upstream(e) => {
                let mut s = "upstream request failed: ".to_owned();
                s.append(e.as_str());
                s
            },
            Refusal::Answer(e) => {
                let mut s = "invalid upstream JSON: ".to_owned();
                s.append(e.as_str());
                s
            },
            Refusal::Route(method, uri) => {
                let mut s = "no route for ".to_owned();
                s.append(method.as_str());
                s.append(" ");
                s.append(uri.as_str());
                s
            },
        }
    }

    /// The answer.
    pub fn reply(&self) -> (r: Reply)
        ensures
            r.status == refusal_status(self@),
            r.body@ == json::written(error_body(refusal_message(self@))),
    {
        error_json(self.status(), self.message().as_str())
    }

    /// The line for the log.
    pub fn log(&self, req_id: u64) -> (r: Entry)
        ensures
            r@ == refusal_entry(self@, req_id),
    {
        let mut mark = "#".to_owned();
        mark.append(text::decimal_text(req_id).as_str());
        match self {
            Refusal::Body(e) => {
                let mut s = "invalid JSON body: ".to_owned();
                s.append(e.as_str());
                s.append(" req=");
                s.append(text::decimal_text(req_id).as_str());
                Entry { text: s, level: Level::Error }
            },
            Refusal::Authorization => {
                mark.append(" no Authorization header (and UPSTREAM_API_KEY unset)");
                Entry { text: mark, level: Level::Warn }
            },
            Refusal::Upstream(e) => {
                mark.append(" ✖ upstream request failed: ");
                mark.append(e.as_str());
                Entry { text: mark, level: Level::Error }
            },
            Refusal::Answer(e) => {
                mark.append(" ✖ failed to read upstream JSON: ");
                mark.append(e.as_str());
                Entry { text: mark, level: Level::Error }
            },
            Refusal::Route(method, uri) => {
                let mut s = "unhandled route: ".to_owned();
                s.append(method.as_str());
                s.append(" ");
                s.append(uri.as_str());
                Entry { text: s, level: Level::Warn }
            },
        }
    }
}

// ---------------------------------------------------------------------------
// Requests
// ---------------------------------------------------------------------------

/// Whether a request asks for a stream.
pub open spec fn wants_stream(req: JsonView) -> bool {
    json::field(req, "stream"@) == Some(JsonView::Bool(true))
}

/// How many items a list holds; another number where there is no list.
pub open spec fn length_or(v: Option<JsonView>, other: nat) -> nat {
    match v {
        Some(JsonView::Arr(items)) => items.len(),
        _ => other,
    }
}

/// The line on a request: how it comes, and what became of its parts.
pub open spec fn request_line(req_id: u64, req: JsonView) -> Seq<char> {
    let body = JsonView::Obj(request::chat_body(req, wants_stream(req)));
    "#"@ + text::decimal(req_id as nat) + " ▶ request  ["@ + report::mode(wants_stream(req))
        + ", model="@ + json::text_field(req, "model"@) + ", input_items="@ + text::decimal(
        length_or(json::field(req, "input"@), 1),
    ) + " → messages="@ + text::decimal(length_or(json::field(body, "messages"@), 0))
        + ", tools="@ + text::decimal(length_or(json::field(body, "tools"@), 0))
        + ", reasoning_effort="@ + text::or(
        json::as_text(json::field2(req, "reasoning"@, "effort"@)),
        "-"@,
    ) + "]\n"@
}

/// What a request tells of its tools.
pub open spec fn tools_told(req: JsonView) -> Seq<char> {
    report::summary(
        req,
        tools::dropped_labels(json::as_items(json::field(req, "tools"@))),
    )
}

/// The entry on a request; a warning where its summary holds one.
pub open spec fn request_entry(req_id: u64, req: JsonView) -> (Seq<char>, Level) {
    (
        request_line(req_id, req) + tools_told(req),
        if tools_told(req).contains('⚠') {
            Level::Warn
        } else {
            Level::Info
        },
    )
}

/// The entry on something that has no form in the chat API.
pub open spec fn remark_entry(r: RemarkView) -> (Seq<char>, Level) {
    match r {
        RemarkView::ImageDropped => (
            "input_image without image_url (file_id is not supported), dropped"@,
            Level::Warn,
        ),
        RemarkView::PartSkipped(kind) => (
            "skipping unsupported content part part_type="@ + report::quoted(kind),
            Level::Debug,
        ),
        RemarkView::ItemSkipped(kind) => (
            "skipping unsupported input item item_type="@ + report::quoted(kind),
            Level::Debug,
        ),
    }
}

/// The entries on all that has none, in order.
pub open spec fn remark_entries(remarks: Seq<RemarkView>) -> Seq<(Seq<char>, Level)> {
    remarks.map_values(|r: RemarkView| remark_entry(r))
}

/// The entry on the body that goes upstream.
pub open spec fn body_entry(req_id: u64, body: JsonView) -> (Seq<char>, Level) {
    (
        "#"@ + text::decimal(req_id as nat) + " upstream request body: "@ + json::written(body),
        Level::Debug,
    )
}

/// What is logged of a request: what of its input has no form in the chat API, the request itself,
/// and the body that goes upstream.
pub open spec fn request_log(req_id: u64, req: JsonView) -> Seq<(Seq<char>, Level)> {
    remark_entries(
        messages::items_remarks(json::as_items(json::field(req, "input"@))),
    ) + seq![
        request_entry(req_id, req),
        body_entry(req_id, JsonView::Obj(request::chat_body(req, wants_stream(req)))),
    ]
}

/// A request that was read, and what is logged of it.
pub struct Incoming {
    pub stream: bool,
    pub model: String,
    pub chat: ChatRequest,
    pub entries: Vec<Entry>,
}

/// What is to be made of a request.
pub open spec fn incoming_of(r: Incoming, req_id: u64, req: JsonView) -> bool {
    let tools = json::as_items(json::field(req, "tools"@));
    &&& r.stream == wants_stream(req)
    &&& r.model@ == json::text_field(req, "model"@)
    &&& r.chat.body@ == JsonView::Obj(request::chat_body(req, wants_stream(req)))
    &&& r.chat.custom_tools@ == tools::custom_names(tools)
    &&& text::texts(r.chat.dropped_tools@) == tools::dropped_labels(tools)
    &&& report::logged(r.entries@) == request_log(req_id, req)
}

fn length_of(v: Option<&Json>, other: u64) -> (r: u64)
    ensures
        r == length_or(json::value_of(v), other as nat),
{
    match v {
        Some(Json::Arr(items)) => items.len() as u64,
        _ => other,
    }
}

fn write_request_line(req_id: u64, req: &Json, stream: bool, body: &Json) -> (r: String)
    requires
        stream == wants_stream(req@),
        body@ == JsonView::Obj(request::chat_body(req@, stream)),
    ensures
        r@ == request_line(req_id, req@),
{
    let mut s = "#".to_owned();
    s.append(text::decimal_text(req_id).as_str());
    s.append(" ▶ request  [");
    s.append(report::mode_name(stream));
    s.append(", model=");
    s.append(req.text_or_empty("model"));
    s.append(", input_items=");
    s.append(text::decimal_text(length_of(req.get("input"), 1)).as_str());
    s.append(" → messages=");
    s.append(text::decimal_text(length_of(body.get("messages"), 0)).as_str());
    s.append(", tools=");
    s.append(text::decimal_text(length_of(body.get("tools"), 0)).as_str());
    s.append(", reasoning_effort=");
    match req.get2("reasoning", "effort") {
        Some(Json::Str(effort)) => {
            s.append(effort.as_str());
        },
        _ => {
            s.append("-");
        },
    }
    s.append("]\n");
    s
}

fn log_remark(remark: &Remark) -> (r: Entry)
    ensures
        r@ == remark_entry(remark@),
{
    match remark {
        Remark::ImageDropped => Entry {
            text: "input_image without image_url (file_id is not supported), dropped".to_owned(),
            level: Level::Warn,
        },
        Remark::PartSkipped(kind) => {
            let mut s = "skipping unsupported content part part_type=".to_owned();
            s.append(report::quote(kind.as_str()).as_str());
            Entry { text: s, level: Level::Debug }
        },
        Remark::ItemSkipped(kind) => {
            let mut s = "skipping unsupported input item item_type=".to_owned();
            s.append(report::quote(kind.as_str()).as_str());
            Entry { text: s, level: Level::Debug }
        },
    }
}

fn log_remarks(remarks: &[Remark]) -> (r: Vec<Entry>)
    ensures
        report::logged(r@) == remark_entries(messages::remarked(remarks@)),
{
    let mut entries: Vec<Entry> = Vec::new();
    let mut i: usize = 0;
    while i < remarks.len()
        invariant
            i <= remarks.len(),
            entries@.len() == i,
            forall|k: int| 0 <= k < i ==> (#[trigger] entries@[k])@ == remark_entry(remarks@[k]@),
        decreases remarks.len() - i,
    {
        entries.push(log_remark(&remarks[i]));
        i += 1;
    }
    assert(report::logged(entries@) =~= remark_entries(messages::remarked(remarks@)));
    entries
}

fn log_body(req_id: u64, body: &Json) -> (r: Entry)
    ensures
        r@ == body_entry(req_id, body@),
{
    let mut s = "#".to_owned();
    s.append(text::decimal_text(req_id).as_str());
    s.append(" upstream request body: ");
    s.append(json::to_text(body).as_str());
    Entry { text: s, level: Level::Debug }
}

/// Takes a request in: converts it, and writes what is logged of it.
pub fn take_request(req_id: u64, req: &Json) -> (r: Incoming)
    ensures
        incoming_of(r, req_id, req@),
{
    let stream = match req.get("stream") {
        Some(Json::Bool(b)) => *b,
        _ => false,
    };
    let chat = request::to_chat_request(req, stream);
    let tools = report::tools_summary(req, chat.dropped_tools.as_slice());
    let level = if text::contains_char(tools.as_str(), '⚠') {
        Level::Warn
    } else {
        Level::Info
    };
    let mut line = write_request_line(req_id, req, stream, &chat.body);
    line.append(tools.as_str());
    let mut entries = log_remarks(messages::note_input(req.get("input")).as_slice());
    entries.push(Entry { text: line, level });
    entries.push(log_body(req_id, &chat.body));
    assert(report::logged(entries@) =~= request_log(req_id, req@));
    Incoming { stream, model: req.text_or_empty("model").to_owned(), chat, entries }
}

/// Reads a request out of the body that came in.
pub fn read_request(req_id: u64, body: &[u8]) -> (r: Result<Incoming, Refusal>)
    ensures
        match json::read_bytes(body@) {
            Ok(req) => r is Ok && incoming_of(r->Ok_0, req_id, req),
            Err(e) => r is Err && r->Err_0@ == RefusalView::Body(e),
        },
{
    match json::parse_bytes(body) {
        Ok(req) => Ok(take_request(req_id, &req)),
        Err(e) => Err(Refusal::Body(e)),
    }
}

/// Writes the headers for the upstream, or refuses a request without an authorization.
pub fn authorize(stream: bool, incoming: &[Header], fallback_key: Option<&str>) -> (r: Result<
    Vec<Header>,
    Refusal,
>)
    ensures
        ({
            let headers = headers::listed(incoming@);
            match headers::authorization(
                headers::first_value(headers, "authorization"@),
                text::text_of(fallback_key),
            ) {
                Some(auth) => r is Ok && headers::listed(r->Ok_0@) == headers::chat_headers(
                    auth,
                    stream,
                    headers,
                ),
                None => r == Err::<Vec<Header>, Refusal>(Refusal::Authorization),
            }
        }),
{
    match headers::auth_header(incoming, fallback_key) {
        Some(auth) => Ok(headers::upstream_headers(auth.as_slice(), stream, incoming)),
        None => Err(Refusal::Authorization),
    }
}

// ---------------------------------------------------------------------------
// Answers
// ---------------------------------------------------------------------------

/// What is to be done with the answer of the upstream.
#[derive(Clone, Copy, Debug, PartialEq, Eq, Structural)]
pub enum Next {
    /// Hand its text on, under that status.
    Relay(u16),
    /// Translate its events.
    Stream,
    /// Convert its body.
    Convert,
}

/// Whether a status tells of success.
pub open spec fn success(status: u16) -> bool {
    200 <= status < 300
}

/// Whether a content type is that of JSON. One with bytes other than visible ASCII, spaces and
/// tabs counts as none.
pub open spec fn tells_json(content_type: Option<Seq<u8>>) -> bool {
    match content_type {
        Some(v) => {
            let kind = vstd::utf8::encode_utf8("application/json"@);
            &&& forall|i: int| 0 <= i < v.len() ==> 32 <= #[trigger] v[i] < 127 || v[i] == 9
            &&& v.len() >= kind.len()
            &&& v.take(kind.len() as int) == kind
        },
        None => false,
    }
}

/// What is to be done with the answer of the upstream: an error is handed on, and so is JSON where
/// events were asked for; a success is not handed on as one.
pub open spec fn next(stream: bool, status: u16, content_type: Option<Seq<u8>>) -> Next {
    if !success(status) {
        Next::Relay(status)
    } else if stream && tells_json(content_type) {
        Next::Relay(502)
    } else if stream {
        Next::Stream
    } else {
        Next::Convert
    }
}

fn is_json(content_type: Option<&[u8]>) -> (r: bool)
    ensures
        r == tells_json(headers::bytes_of(content_type)),
{
    match content_type {
        Some(v) => {
            let kind = "application/json".as_bytes();
            let mut i: usize = 0;
            while i < v.len()
                invariant
                    i <= v.len(),
                    content_type == Some(v),
                    forall|k: int| 0 <= k < i ==> 32 <= #[trigger] v@[k] < 127 || v@[k] == 9,
                decreases v.len() - i,
            {
                if !((32 <= v[i] && v[i] < 127) || v[i] == 9) {
                    return false;
                }
                i += 1;
            }
            if v.len() < kind.len() {
                return false;
            }
            let mut j: usize = 0;
            while j < kind.len()
                invariant
                    j <= kind.len() <= v.len(),
                    content_type == Some(v),
                    kind@ == vstd::utf8::encode_utf8("application/json"@),
                    forall|k: int| 0 <= k < j ==> #[trigger] v@[k] == kind@[k],
                decreases kind.len() - j,
            {
                if v[j] != kind[j] {
                    assert(v@.take(kind@.len() as int)[j as int] != kind@[j as int]);
                    return false;
                }
                j += 1;
            }
            assert(v@.take(kind@.len() as int) =~= kind@);
            true
        },
        None => false,
    }
}

/// Decides what is to be done with the answer of the upstream.
pub fn after_upstream(stream: bool, status: u16, content_type: Option<&[u8]>) -> (r: Next)
    ensures
        r == next(stream, status, headers::bytes_of(content_type)),
{
    if !(200 <= status && status < 300) {
        Next::Relay(status)
    } else if stream {
        if is_json(content_type) {
            Next::Relay(502)
        } else {
            Next::Stream
        }
    } else {
        Next::Convert
    }
}

/// The text for a status: its number and its name.
pub uninterp spec fn status_text(status: u16) -> Seq<char>;

/// `StatusCode` of `http`, which `axum` hands on, written by its `Display`; there is one for every
/// number of three digits.
#[verifier::external_body]
fn write_status(status: u16) -> (r: String)
    requires
        100 <= status < 1000,
    ensures
        r@ == status_text(status),
{
    axum::http::StatusCode::from_u16(status).unwrap().to_string()
}

/// The log block of an answer that is handed on.
pub open spec fn relay_block(
    req_id: u64,
    status: u16,
    elapsed: Duration,
    body: Seq<char>,
) -> Seq<char> {
    "#"@ + text::decimal(req_id as nat) + " ✖ upstream HTTP "@ + status_text(status) + " ("@
        + report::seconds(elapsed) + "s)\n    stop   ▸ n/a (no completion)\n    body   ▸ "@ + body
}

/// Writes the log block of an answer that is handed on.
pub fn log_relay(req_id: u64, status: u16, elapsed: Duration, body: &str) -> (r: Entry)
    requires
        100 <= status < 1000,
    ensures
        r.text@ == relay_block(req_id, status, elapsed, body@),
        r.level == Level::Error,
{
    let mut s = "#".to_owned();
    s.append(text::decimal_text(req_id).as_str());
    s.append(" ✖ upstream HTTP ");
    s.append(write_status(status).as_str());
    s.append(" (");
    s.append(report::write_seconds(elapsed).as_str());
    s.append("s)\n    stop   ▸ n/a (no completion)\n    body   ▸ ");
    s.append(body);
    Entry { text: s, level: Level::Error }
}

/// What is to be noted of a completion: that there are other choices than the one, or none.
pub open spec fn notes_on(chat: JsonView) -> Seq<Seq<char>> {
    match json::field(chat, "choices"@) {
        Some(JsonView::Arr(choices)) => if choices.len() != 1 {
            seq![
                "upstream returned "@ + text::decimal(choices.len())
                    + " choices (only choice 0 used)"@,
            ]
        } else {
            Seq::empty()
        },
        _ => Seq::empty(),
    }
}

/// The report on a completion `chat` that was answered with the response `resp`.
pub open spec fn completion(
    req_id: u64,
    elapsed: Duration,
    model: Seq<char>,
    chat: JsonView,
    resp: JsonView,
    cached_percent: Seq<char>,
) -> ReportView {
    let choice = response::first_choice(chat);
    ReportView {
        req_id,
        stream: false,
        elapsed,
        model: text::or(json::as_text(json::field(resp, "model"@)), model),
        finish_reason: json::as_text(json::field(choice, "finish_reason"@)),
        extra_stop: report::stop_members(choice),
        status: text::or(json::as_text(json::field(resp, "status"@)), "?"@),
        usage: json::field(chat, "usage"@),
        cached_percent,
        notes: notes_on(chat),
    }
}

/// The entry on a completion; a warning unless all is as usual.
pub open spec fn completion_entry(said: ReportView) -> (Seq<char>, Level) {
    (
        report::block(said),
        if report::ordinary(said) {
            Level::Info
        } else {
            Level::Warn
        },
    )
}

fn note(chat: &Json) -> (r: Vec<String>)
    ensures
        text::texts(r@) == notes_on(chat@),
{
    let mut notes: Vec<String> = Vec::new();
    if let Some(Json::Arr(choices)) = chat.get("choices") {
        if choices.len() != 1 {
            let mut s = "upstream returned ".to_owned();
            s.append(text::decimal_text(choices.len() as u64).as_str());
            s.append(" choices (only choice 0 used)");
            notes.push(s);
        }
    }
    assert(text::texts(notes@) =~= notes_on(chat@));
    notes
}

/// Writes the log block of a completion that was answered with the response `resp`.
pub fn log_completion(
    req_id: u64,
    elapsed: Duration,
    model: &str,
    chat: &Json,
    resp: &Json,
    cached_percent: &str,
) -> (r: Entry)
    ensures
        r@ == completion_entry(
            completion(req_id, elapsed, model@, chat@, resp@, cached_percent@),
        ),
{
    let choice = match response::chosen(chat) {
        Some(choice) => choice.clone(),
        None => Json::Null,
    };
    let extra = report::extra_stop_fields(&choice);
    let notes = note(chat);
    let said = Report {
        req_id,
        stream: false,
        elapsed,
        model: match resp.get_text("model") {
            Some(m) => m,
            None => model,
        },
        finish_reason: choice.get_text("finish_reason"),
        extra_stop: extra.as_slice(),
        status: match resp.get_text("status") {
            Some(s) => s,
            None => "?",
        },
        usage: chat.get("usage"),
        cached_percent,
        notes: notes.as_slice(),
    };
    assert(said@ == completion(req_id, elapsed, model@, chat@, resp@, cached_percent@));
    report::log(&said)
}

// ---------------------------------------------------------------------------
// An exchange, step by step
// ---------------------------------------------------------------------------

/// What is to be done next.
pub enum Action {
    /// Send that body upstream with those headers.
    Send(Vec<Header>, Json),
    /// Read the answer of the upstream as text, to hand it on under that status.
    ReadText(u16),
    /// Read the answer of the upstream as JSON.
    ReadJson,
    /// Translate the events of the upstream.
    Translate,
    /// Answer.
    Answer(Reply),
}

/// What is to be logged, in order, and what is to be done next.
pub struct Step {
    pub entries: Vec<Entry>,
    pub action: Action,
}

/// What is kept of a request until it is answered.
pub struct Exchange {
    pub req_id: u64,
    pub stream: bool,
    pub model: String,
    pub custom_tools: StringHashSet,
}

/// The request is answered with that refusal; it is logged after what was to be logged before.
pub open spec fn refuses(
    step: Step,
    before: Seq<(Seq<char>, Level)>,
    refusal: RefusalView,
    req_id: u64,
) -> bool {
    &&& step.action is Answer
    &&& step.action->Answer_0.status == refusal_status(refusal)
    &&& step.action->Answer_0.body@ == json::written(error_body(refusal_message(refusal)))
    &&& report::logged(step.entries@) == before.push(refusal_entry(refusal, req_id))
}

/// The entry on the metadata of the turn, where it is sent on under its other name.
pub open spec fn forward_log(req_id: u64, incoming: Seq<(Seq<char>, Seq<u8>)>) -> Seq<(
    Seq<char>,
    Level,
)> {
    if headers::first_value(incoming, "x-codex-turn-metadata"@) is Some {
        seq![
            (
                "#"@ + text::decimal(req_id as nat)
                    + " forwarding header x-codex-turn-metadata → x-viv-meta"@,
                Level::Debug,
            ),
        ]
    } else {
        Seq::empty()
    }
}

/// The entry on a completion that came from the upstream.
pub open spec fn answer_entry(req_id: u64, chat: JsonView) -> (Seq<char>, Level) {
    (
        "#"@ + text::decimal(req_id as nat) + " upstream response body: "@ + json::written(chat),
        Level::Debug,
    )
}

fn refuse(before: Vec<Entry>, refusal: Refusal, req_id: u64) -> (r: Step)
    ensures
        refuses(r, report::logged(before@), refusal@, req_id),
{
    let mut entries = before;
    entries.push(refusal.log(req_id));
    assert(report::logged(entries@) =~= report::logged(before@).push(
        refusal_entry(refusal@, req_id),
    ));
    Step { entries, action: Action::Answer(refusal.reply()) }
}

fn log_forward(req_id: u64, incoming: &[Header], entries: &mut Vec<Entry>)
    ensures
        report::logged(final(entries)@) == report::logged(old(entries)@) + forward_log(
            req_id,
            headers::listed(incoming@),
        ),
{
    let ghost was = entries@;
    if headers::find(incoming, "x-codex-turn-metadata").is_some() {
        let mut s = "#".to_owned();
        s.append(text::decimal_text(req_id).as_str());
        s.append(" forwarding header x-codex-turn-metadata → x-viv-meta");
        entries.push(Entry { text: s, level: Level::Debug });
    }
    assert(report::logged(entries@) =~= report::logged(was) + forward_log(
        req_id,
        headers::listed(incoming@),
    ));
}

fn log_answer(req_id: u64, chat: &Json) -> (r: Entry)
    ensures
        r@ == answer_entry(req_id, chat@),
{
    let mut s = "#".to_owned();
    s.append(text::decimal_text(req_id).as_str());
    s.append(" upstream response body: ");
    s.append(json::to_text(chat).as_str());
    Entry { text: s, level: Level::Debug }
}

impl Exchange {
    /// Begins with the request that came in: a body that is no JSON is refused; else the request is
    /// logged, and sent on where there is an authorization for it.
    pub fn begin(
        req_id: u64,
        body: &[u8],
        incoming: &[Header],
        fallback_key: Option<&str>,
    ) -> (r: (Step, Option<Exchange>))
        ensures
            match json::read_bytes(body@) {
                Err(e) => r.1 is None && refuses(
                    r.0,
                    Seq::empty(),
                    RefusalView::Body(e),
                    req_id,
                ),
                Ok(req) => {
                    let headers = headers::listed(incoming@);
                    match headers::authorization(
                        headers::first_value(headers, "authorization"@),
                        text::text_of(fallback_key),
                    ) {
                        None => r.1 is None && refuses(
                            r.0,
                            request_log(req_id, req),
                            RefusalView::Authorization,
                            req_id,
                        ),
                        Some(auth) => {
                            &&& report::logged(r.0.entries@) == request_log(req_id, req)
                                + forward_log(req_id, headers)
                            &&& r.0.action is Send
                            &&& headers::listed(r.0.action->Send_0@) == headers::chat_headers(
                                auth,
                                wants_stream(req),
                                headers,
                            )
                            &&& r.0.action->Send_1@ == JsonView::Obj(
                                request::chat_body(req, wants_stream(req)),
                            )
                            &&& r.1 is Some
                            &&& r.1->0.req_id == req_id
                            &&& r.1->0.stream == wants_stream(req)
                            &&& r.1->0.model@ == json::text_field(req, "model"@)
                            &&& r.1->0.custom_tools@ == tools::custom_names(
                                json::as_items(json::field(req, "tools"@)),
                            )
                        },
                    }
                },
            },
    {
        match read_request(req_id, body) {
            Err(refusal) => {
                let entries: Vec<Entry> = Vec::new();
                assert(report::logged(entries@) =~= Seq::empty());
                (refuse(entries, refusal, req_id), None)
            },
            Ok(taken) => {
                let mut entries = taken.entries;
                match authorize(taken.stream, incoming, fallback_key) {
                    Err(refusal) => (refuse(entries, refusal, req_id), None),
                    Ok(headers) => {
                        log_forward(req_id, incoming, &mut entries);
                        let step = Step {
                            entries,
                            action: Action::Send(headers, taken.chat.body),
                        };
                        let exchange = Exchange {
                            req_id,
                            stream: taken.stream,
                            model: taken.model,
                            custom_tools: taken.chat.custom_tools,
                        };
                        (step, Some(exchange))
                    },
                }
            },
        }
    }

    /// Goes on when the upstream answers with that status and content type, or cannot be asked.
    pub fn on_upstream(&self, outcome: Result<(u16, Option<&[u8]>), String>) -> (r: Step)
        ensures
            match outcome {
                Err(e) => refuses(r, Seq::empty(), RefusalView::Upstream(e@), self.req_id),
                Ok((status, content_type)) => {
                    &&& r.entries@.len() == 0
                    &&& match next(self.stream, status, headers::bytes_of(content_type)) {
                        Next::Relay(code) => r.action == Action::ReadText(code),
                        Next::Stream => r.action is Translate,
                        Next::Convert => r.action is ReadJson,
                    }
                },
            },
    {
        let entries: Vec<Entry> = Vec::new();
        assert(report::logged(entries@) =~= Seq::empty());
        match outcome {
            Err(e) => {
                refuse(entries, Refusal::Upstream(e), self.req_id)
            },
            Ok((status, content_type)) => {
                let action = match after_upstream(self.stream, status, content_type) {
                    Next::Relay(code) => Action::ReadText(code),
                    Next::Stream => Action::Translate,
                    Next::Convert => Action::ReadJson,
                };
                Step { entries, action }
            },
        }
    }

    /// Goes on when the answer of the upstream, which came under `status`, was read as text: it is
    /// handed on as it is, under `code`.
    pub fn on_text(&self, status: u16, code: u16, elapsed: Duration, body: String) -> (r: Step)
        requires
            100 <= status < 1000,
        ensures
            report::logged(r.entries@) == seq![
                (relay_block(self.req_id, status, elapsed, body@), Level::Error),
            ],
            r.action is Answer,
            r.action->Answer_0.status == code,
            r.action->Answer_0.body@ == body@,
    {
        let mut entries: Vec<Entry> = Vec::new();
        entries.push(log_relay(self.req_id, status, elapsed, body.as_str()));
        assert(report::logged(entries@) =~= seq![
            (relay_block(self.req_id, status, elapsed, body@), Level::Error),
        ]);
        Step { entries, action: Action::Answer(Reply { status: code, body }) }
    }

    /// Goes on when the answer of the upstream was read as JSON, or is none: the completion is
    /// answered as a response. `cached_percent` is what the cached tokens are of the input tokens.
    pub fn on_json(
        &self,
        outcome: Result<Json, String>,
        elapsed: Duration,
        cached_percent: &str,
    ) -> (r: Step)
        requires
            match outcome {
                Ok(chat) => response::countable(json::field(chat@, "usage"@)),
                Err(_) => true,
            },
        ensures
            match outcome {
                Err(e) => refuses(r, Seq::empty(), RefusalView::Answer(e@), self.req_id),
                Ok(chat) => exists|
                    id: Seq<char>,
                    ids: response::IdsView,
                    t: std::time::SystemTime,
                |
                    #![trigger response::whole_response(
                        chat@,
                        id,
                        self.model@,
                        self.custom_tools@,
                        ids,
                        fresh::unix_time(t),
                    )]
                    {
                        let resp = response::whole_response(
                            chat@,
                            id,
                            self.model@,
                            self.custom_tools@,
                            ids,
                            fresh::unix_time(t),
                        );
                        let said = completion(
                            self.req_id,
                            elapsed,
                            self.model@,
                            chat@,
                            resp,
                            cached_percent@,
                        );
                        &&& fresh::identifier(id, "resp"@)
                        &&& response::made_for(ids, response::calls_made(chat@).len())
                        &&& r.action is Answer
                        &&& r.action->Answer_0.status == 200
                        &&& r.action->Answer_0.body@ == json::written(resp)
                        &&& report::logged(r.entries@) == seq![
                            answer_entry(self.req_id, chat@),
                            completion_entry(said),
                        ]
                    },
            },
    {
        let mut entries: Vec<Entry> = Vec::new();
        assert(report::logged(entries@) =~= Seq::empty());
        match outcome {
            Err(e) => {
                refuse(entries, Refusal::Answer(e), self.req_id)
            },
            Ok(chat) => {
                let id = fresh::new_id("resp");
                let resp = response::chat_to_response(
                    &chat,
                    id.as_str(),
                    self.model.as_str(),
                    &self.custom_tools,
                );
                entries.push(log_answer(self.req_id, &chat));
                entries.push(
                    log_completion(
                        self.req_id,
                        elapsed,
                        self.model.as_str(),
                        &chat,
                        &resp,
                        cached_percent,
                    ),
                );
                assert(report::logged(entries@) =~= seq![
                    answer_entry(self.req_id, chat@),
                    completion_entry(
                        completion(
                            self.req_id,
                            elapsed,
                            self.model@,
                            chat@,
                            resp@,
                            cached_percent@,
                        ),
                    ),
                ]);
                let reply = Reply { status: 200, body: json::to_text(&resp) };
                Step { entries, action: Action::Answer(reply) }
            },
        }
    }
}

} // verus!
