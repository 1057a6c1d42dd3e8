//! What holds of what is sent, answered and logged, piece by piece.

use std::time::Duration;

use vstd::prelude::*;

use crate::convert::laws::history;
use crate::convert::messages;
use crate::convert::messages::RemarkView;
use crate::convert::request;
use crate::convert::response;
use crate::headers;
use crate::json;
use crate::json::JsonView;
use crate::proxy;
use crate::proxy::{Next, RefusalView};
use crate::report;
use crate::report::Level;
use crate::text;

verus! {

// ---------------------------------------------------------------------------
// Headers
// ---------------------------------------------------------------------------

/// The value of a name is that of the first header of this name; there is none where no header has
/// it.
pub proof fn first_header_counts(list: Seq<(Seq<char>, Seq<u8>)>, name: Seq<char>, i: int)
    ensures
        0 <= i < list.len() && list[i].0 == name && (forall|k: int|
            0 <= k < i ==> (#[trigger] list[k]).0 != name) ==> headers::first_value(list, name)
            == Some(list[i].1),
        (forall|k: int| 0 <= k < list.len() ==> (#[trigger] list[k]).0 != name)
            ==> headers::first_value(list, name) is None,
    decreases list.len(),
{
    if list.len() > 0 && list[0].0 != name {
        let rest = list.skip(1);
        first_header_counts(rest, name, i - 1);
        assert(forall|k: int| 0 <= k < rest.len() ==> rest[k] == list[k + 1]);
    }
}

/// A text can be the value of a header exactly where none of its bytes is a control character other
/// than the tab, and then it is these bytes.
pub proof fn header_values(s: Seq<char>)
    ensures
        ({
            let bytes = vstd::utf8::encode_utf8(s);
            let fit = forall|i: int|
                0 <= i < bytes.len() ==> (#[trigger] bytes[i] >= 32 && bytes[i] != 127) || bytes[i]
                    == 9;
            &&& fit ==> headers::header_value(s) == Some(bytes)
            &&& !fit ==> headers::header_value(s) is None
        }),
{
    let bytes = vstd::utf8::encode_utf8(s);
    if headers::header_value(s) is Some {
        assert forall|i: int| 0 <= i < bytes.len() implies (#[trigger] bytes[i] >= 32 && bytes[i]
            != 127) || bytes[i] == 9 by {
            assert(headers::header_byte(bytes[i]));
        }
    }
}

/// Where none came in, the authorization is the key as a bearer's.
pub proof fn key_stands_in(key: Seq<char>)
    ensures
        headers::authorization(None, Some(key)) == headers::header_value("Bearer "@ + key),
{
}

/// A chat request carries its headers in this order, each once: the authorization, the content type
/// that is asked for, the user agent and the metadata of the turn, the last two where they came
/// in. Events are asked for where a stream is, and else JSON.
pub proof fn chat_headers_in_order(
    auth: Seq<u8>,
    incoming: Seq<(Seq<char>, Seq<u8>)>,
    agent: Seq<u8>,
    meta: Seq<u8>,
)
    ensures
        ({
            let got_agent = headers::first_value(incoming, "user-agent"@);
            let got_meta = headers::first_value(incoming, "x-codex-turn-metadata"@);
            let a = ("authorization"@, auth);
            let events = ("accept"@, vstd::utf8::encode_utf8("text/event-stream"@));
            let plain = ("accept"@, vstd::utf8::encode_utf8("application/json"@));
            let u = ("user-agent"@, agent);
            let m = ("x-viv-meta"@, meta);
            &&& got_agent == Some(agent) && got_meta == Some(meta) ==> headers::chat_headers(
                auth,
                true,
                incoming,
            ) == seq![a, events, u, m] && headers::chat_headers(auth, false, incoming) == seq![
                a,
                plain,
                u,
                m,
            ]
            &&& got_agent == Some(agent) && got_meta is None ==> headers::chat_headers(
                auth,
                true,
                incoming,
            ) == seq![a, events, u] && headers::chat_headers(auth, false, incoming) == seq![
                a,
                plain,
                u,
            ]
            &&& got_agent is None && got_meta == Some(meta) ==> headers::chat_headers(
                auth,
                true,
                incoming,
            ) == seq![a, events, m] && headers::chat_headers(auth, false, incoming) == seq![
                a,
                plain,
                m,
            ]
            &&& got_agent is None && got_meta is None ==> headers::chat_headers(
                auth,
                true,
                incoming,
            ) == seq![a, events] && headers::chat_headers(auth, false, incoming) == seq![a, plain]
        }),
{
    let got_agent = headers::first_value(incoming, "user-agent"@);
    let got_meta = headers::first_value(incoming, "x-codex-turn-metadata"@);
    let a = ("authorization"@, auth);
    let events = ("accept"@, vstd::utf8::encode_utf8("text/event-stream"@));
    let plain = ("accept"@, vstd::utf8::encode_utf8("application/json"@));
    let u = headers::with_value("user-agent"@, got_agent);
    let m = headers::with_value("x-viv-meta"@, got_meta);
    assert(headers::chat_headers(auth, true, incoming) =~= seq![a, events] + u + m);
    assert(headers::chat_headers(auth, false, incoming) =~= seq![a, plain] + u + m);
    if got_agent == Some(agent) {
        assert(u == seq![("user-agent"@, agent)]);
    }
    if got_meta == Some(meta) {
        assert(m == seq![("x-viv-meta"@, meta)]);
    }
}

/// A request for the models carries the authorization and the user agent, each where there is one.
pub proof fn model_headers_in_order(
    auth: Seq<u8>,
    incoming: Seq<(Seq<char>, Seq<u8>)>,
    agent: Seq<u8>,
)
    ensures
        ({
            let got = headers::first_value(incoming, "user-agent"@);
            let a = ("authorization"@, auth);
            let u = ("user-agent"@, agent);
            &&& got == Some(agent) ==> headers::model_headers(Some(auth), incoming) == seq![a, u]
            &&& got == Some(agent) ==> headers::model_headers(None, incoming) == seq![u]
            &&& got is None ==> headers::model_headers(Some(auth), incoming) == seq![a]
            &&& got is None ==> headers::model_headers(None, incoming).len() == 0
        }),
{
    let got = headers::first_value(incoming, "user-agent"@);
    let a = ("authorization"@, auth);
    let u = headers::with_value("user-agent"@, got);
    assert(headers::model_headers(Some(auth), incoming) =~= seq![a] + u);
    assert(headers::model_headers(None, incoming) =~= u);
    if got == Some(agent) {
        assert(u == seq![("user-agent"@, agent)]);
    }
}

/// A short token is masked by as many stars; a longer one shows its first six characters, its last
/// four and its length, and nothing between them but an ellipsis.
pub proof fn tokens_are_masked(token: Seq<char>)
    ensures
        token.len() <= 12 ==> headers::masked(token).len() == token.len() && forall|i: int|
            0 <= i < token.len() ==> #[trigger] headers::masked(token)[i] == '*',
        token.len() > 12 ==> headers::masked(token) == token.subrange(0, 6) + seq!['…']
            + token.subrange(token.len() - 4, token.len() as int) + " ("@ + text::decimal(
            token.len(),
        ) + " chars)"@,
{
    reveal_strlit("…");
    assert("…"@ =~= seq!['…']);
    if token.len() > 12 {
        assert(token.take(6) =~= token.subrange(0, 6));
        assert(token.skip(token.len() - 4) =~= token.subrange(
            token.len() - 4,
            token.len() as int,
        ));
    }
}

/// An authorization is shown with its scheme as it is, where it has one, and its token masked.
pub proof fn authorizations_are_masked(scheme: Seq<char>, token: Seq<char>)
    requires
        !scheme.contains(' '),
    ensures
        scheme.len() > 0 ==> headers::masked_auth(scheme + seq![' '] + token) == scheme + seq![' ']
            + headers::masked(token),
        scheme.len() == 0 ==> headers::masked_auth(scheme + seq![' '] + token) == headers::masked(
            token,
        ),
        headers::masked_auth(scheme) == headers::masked(scheme),
{
    let v = scheme + seq![' '] + token;
    headers::first_space_is_first(v);
    headers::first_space_is_first(scheme);
    assert(v[scheme.len() as int] == ' ');
    assert(v.contains(v[scheme.len() as int]));
    let f = headers::first_space(v) as int;
    if f < scheme.len() {
        assert(scheme[f] == v[f]);
        assert(scheme.contains(scheme[f]));
    }
    assert(f == scheme.len());
    assert(headers::scheme(v) =~= scheme);
    assert(headers::token(v) =~= token);
    reveal_strlit(" ");
    assert(" "@ =~= seq![' ']);
}

/// A header is shown with its name and its value; only an authorization is masked.
pub proof fn headers_are_shown(list: Seq<(Seq<char>, Seq<u8>)>, i: int)
    requires
        0 <= i < list.len(),
    ensures
        headers::header_lines(list).len() == list.len(),
        list[i].0 != "authorization"@ ==> headers::header_lines(list)[i] == "    "@ + list[i].0
            + ": "@ + headers::lossy(list[i].1),
        list[i].0 == "authorization"@ ==> headers::header_lines(list)[i] == "    "@ + list[i].0
            + ": "@ + headers::masked_auth(headers::lossy(list[i].1)),
{
}

/// A header is its name and its value.
pub proof fn headers_are_listed(list: Seq<headers::Header>, i: int)
    requires
        0 <= i < list.len(),
    ensures
        headers::listed(list).len() == list.len(),
        headers::listed(list)[i] == (list[i].name@, list[i].value@),
{
}

// ---------------------------------------------------------------------------
// Settings and refusals
// ---------------------------------------------------------------------------

/// A place that does not end like the chat completions lists the models itself.
pub proof fn other_places_list_models(upstream: Seq<char>)
    requires
        forall|base: Seq<char>| upstream != #[trigger] (base + "/chat/completions"@),
    ensures
        proxy::models_location(upstream) == upstream,
{
    let tail = "/chat/completions"@;
    let n = upstream.len() - tail.len();
    if n >= 0 && upstream.skip(n) == tail {
        assert(upstream =~= upstream.take(n) + upstream.skip(n));
        assert(upstream == upstream.take(n) + tail);
    }
}

/// An error tells its message, whole, and that it is the proxy's.
pub proof fn errors_are_told(msg: Seq<char>)
    ensures
        ({
            let error = json::value_or(
                json::field(proxy::error_body(msg), "error"@),
                JsonView::Null,
            );
            &&& history::has_only(proxy::error_body(msg), set!["error"@])
            &&& history::tells(error, "message"@, msg)
            &&& history::tells(error, "type"@, "proxy_error"@)
            &&& history::has_only(error, set!["message"@, "type"@])
        }),
{
    reveal_strlit("message");
    reveal_strlit("type");
    assert("message"@.len() == 7 && "type"@.len() == 4);
    let error = json::value_or(json::field(proxy::error_body(msg), "error"@), JsonView::Null);
    assert(proxy::error_body(msg)->Obj_0.dom() =~= set!["error"@]);
    assert(error->Obj_0.dom() =~= set!["message"@, "type"@]);
}

/// Each refusal has its own status, its own message and its own entry in the log, with the reason
/// and the number of the request where there are any.
pub proof fn refusals_are_told(e: Seq<char>, uri: Seq<char>, req_id: u64)
    ensures
        ({
            let id = text::decimal(req_id as nat);
            let body = RefusalView::Body(e);
            let bare = RefusalView::Authorization;
            let gone = RefusalView::Upstream(e);
            let odd = RefusalView::Answer(e);
            let lost = RefusalView::Route(e, uri);
            &&& proxy::refusal_status(body) == 400
            &&& proxy::refusal_status(bare) == 401
            &&& proxy::refusal_status(gone) == 502
            &&& proxy::refusal_status(odd) == 502
            &&& proxy::refusal_status(lost) == 404
            &&& proxy::refusal_message(body) == "invalid JSON body: "@ + e
            &&& proxy::refusal_message(bare) == "missing Authorization: Bearer <token>"@
            &&& proxy::refusal_message(gone) == "upstream request failed: "@ + e
            &&& proxy::refusal_message(odd) == "invalid upstream JSON: "@ + e
            &&& proxy::refusal_message(lost) == "no route for "@ + e + " "@ + uri
            &&& proxy::refusal_entry(body, req_id) == (
                "invalid JSON body: "@ + e + " req="@ + id,
                Level::Error,
            )
            &&& proxy::refusal_entry(bare, req_id) == (
                "#"@ + id + " no Authorization header (and UPSTREAM_API_KEY unset)"@,
                Level::Warn,
            )
            &&& proxy::refusal_entry(gone, req_id) == (
                "#"@ + id + " ✖ upstream request failed: "@ + e,
                Level::Error,
            )
            &&& proxy::refusal_entry(odd, req_id) == (
                "#"@ + id + " ✖ failed to read upstream JSON: "@ + e,
                Level::Error,
            )
            &&& proxy::refusal_entry(lost, req_id) == (
                "unhandled route: "@ + e + " "@ + uri,
                Level::Warn,
            )
        }),
{
}

// ---------------------------------------------------------------------------
// Requests
// ---------------------------------------------------------------------------

/// A stream is asked for by `true` only.
pub proof fn streams_are_asked_for(req: JsonView)
    ensures
        json::field(req, "stream"@) == Some(JsonView::Bool(true)) ==> proxy::wants_stream(req),
        json::field(req, "stream"@) == Some(JsonView::Bool(false)) ==> !proxy::wants_stream(req),
        json::field(req, "stream"@) is None ==> !proxy::wants_stream(req),
        json::field(req, "stream"@) is Some && !(json::field(req, "stream"@)->0 is Bool)
            ==> !proxy::wants_stream(req),
{
}

/// The line on a request tells its number, how it comes, its model, how many items its input has,
/// how many messages and tools are made of it, and the effort that it asks for.
pub proof fn requests_are_told(req_id: u64, req: JsonView, items: Seq<JsonView>, effort: Seq<char>)
    requires
        json::field(req, "input"@) == Some(JsonView::Arr(items)) || (items.len() == 1 && !(
        json::field(req, "input"@) is Some && json::field(req, "input"@)->0 is Arr)),
        json::field2(req, "reasoning"@, "effort"@) == Some(JsonView::Str(effort)) || (effort == "-"@
            && json::as_text(json::field2(req, "reasoning"@, "effort"@)) is None),
    ensures
        proxy::request_line(req_id, req) == "#"@ + text::decimal(req_id as nat) + " ▶ request  ["@
            + (if proxy::wants_stream(req) {
            "stream"@
        } else {
            "non-stream"@
        }) + ", model="@ + json::text_field(req, "model"@) + ", input_items="@ + text::decimal(
            items.len(),
        ) + " → messages="@ + text::decimal(request::chat_messages(req).len()) + ", tools="@
            + text::decimal(request::declared_tools(req).len()) + ", reasoning_effort="@ + effort
            + "]\n"@,
{
    crate::convert::laws::body_has_known_members(req, proxy::wants_stream(req));
    crate::convert::laws::choice_needs_tools(req, proxy::wants_stream(req));
}

/// A request is logged with its line and the whole summary of its tools, as a warning exactly where
/// the summary holds the sign for one.
pub proof fn requests_are_logged(req_id: u64, req: JsonView)
    ensures
        ({
            let told = report::summary(
                req,
                crate::convert::tools::dropped_labels(
                    json::as_items(json::field(req, "tools"@)),
                ),
            );
            &&& proxy::request_entry(req_id, req).0 == proxy::request_line(req_id, req) + told
            &&& proxy::request_entry(req_id, req).1 == Level::Warn <==> told.contains('⚠')
            &&& proxy::request_entry(req_id, req).1 == Level::Info <==> !told.contains('⚠')
        }),
{
}

/// What has no form in the chat API is logged first, in order; then the request; then the body that
/// goes upstream, whole.
pub proof fn logs_of_requests(req_id: u64, req: JsonView, i: int)
    ensures
        ({
            let remarks = messages::items_remarks(json::as_items(json::field(req, "input"@)));
            let log = proxy::request_log(req_id, req);
            let body = JsonView::Obj(request::chat_body(req, proxy::wants_stream(req)));
            &&& log.len() == remarks.len() + 2
            &&& 0 <= i < remarks.len() ==> log[i] == proxy::remark_entry(remarks[i])
            &&& log[remarks.len() as int] == proxy::request_entry(req_id, req)
            &&& log[remarks.len() as int + 1] == (
                "#"@ + text::decimal(req_id as nat) + " upstream request body: "@ + json::written(
                    body,
                ),
                Level::Debug,
            )
        }),
{
}

/// A dropped image is warned of; skipped parts and items are told with their types.
pub proof fn remarks_are_logged(kind: Seq<char>)
    ensures
        proxy::remark_entry(RemarkView::ImageDropped) == (
            "input_image without image_url (file_id is not supported), dropped"@,
            Level::Warn,
        ),
        proxy::remark_entry(RemarkView::PartSkipped(kind)) == (
            "skipping unsupported content part part_type="@ + report::quoted(kind),
            Level::Debug,
        ),
        proxy::remark_entry(RemarkView::ItemSkipped(kind)) == (
            "skipping unsupported input item item_type="@ + report::quoted(kind),
            Level::Debug,
        ),
{
}

/// That the metadata of the turn is sent on is logged exactly where it came in.
pub proof fn forwarding_is_logged(req_id: u64, incoming: Seq<(Seq<char>, Seq<u8>)>)
    ensures
        headers::first_value(incoming, "x-codex-turn-metadata"@) is None ==> proxy::forward_log(
            req_id,
            incoming,
        ).len() == 0,
        headers::first_value(incoming, "x-codex-turn-metadata"@) is Some ==> proxy::forward_log(
            req_id,
            incoming,
        ) == seq![
            (
                "#"@ + text::decimal(req_id as nat)
                    + " forwarding header x-codex-turn-metadata → x-viv-meta"@,
                Level::Debug,
            ),
        ],
{
}

// ---------------------------------------------------------------------------
// Answers
// ---------------------------------------------------------------------------

/// A content type is that of JSON where it begins like it and holds visible ASCII, spaces and tabs
/// only.
pub proof fn json_is_told(rest: Seq<u8>, v: Seq<u8>)
    ensures
        ({
            let kind = vstd::utf8::encode_utf8("application/json"@);
            let all = kind + rest;
            let visible = forall|i: int|
                0 <= i < all.len() ==> 32 <= #[trigger] all[i] < 127 || all[i] == 9;
            &&& visible ==> proxy::tells_json(Some(all))
            &&& !visible ==> !proxy::tells_json(Some(all))
            &&& proxy::tells_json(Some(v)) ==> kind.is_prefix_of(v)
        }),
        !proxy::tells_json(None),
{
    let kind = vstd::utf8::encode_utf8("application/json"@);
    let all = kind + rest;
    assert(all.take(kind.len() as int) =~= kind);
    if proxy::tells_json(Some(v)) {
        assert(kind =~= v.subrange(0, kind.len() as int));
    }
}

/// What is done with the answer of the upstream, for every status, whether events were asked for
/// and whether JSON came.
pub proof fn answers_are_handled(stream: bool, status: u16, content_type: Option<Seq<u8>>)
    ensures
        ({
            let r = proxy::next(stream, status, content_type);
            &&& status < 200 || status >= 300 ==> r == Next::Relay(status)
            &&& 200 <= status < 300 && !stream ==> r == Next::Convert
            &&& 200 <= status < 300 && stream && proxy::tells_json(content_type) ==> r
                == Next::Relay(502)
            &&& 200 <= status < 300 && stream && !proxy::tells_json(content_type) ==> r
                == Next::Stream
        }),
{
}

/// An answer that is handed on is logged with its number, its status, how long it took and the
/// whole of its text.
pub proof fn relays_are_logged(req_id: u64, status: u16, elapsed: Duration, body: Seq<char>)
    ensures
        proxy::relay_block(req_id, status, elapsed, body) == "#"@ + text::decimal(req_id as nat)
            + " ✖ upstream HTTP "@ + proxy::status_text(status) + " ("@ + report::seconds(elapsed)
            + "s)\n    stop   ▸ n/a (no completion)\n    body   ▸ "@ + body,
        body.is_suffix_of(proxy::relay_block(req_id, status, elapsed, body)),
{
    let all = proxy::relay_block(req_id, status, elapsed, body);
    assert(body =~= all.subrange(all.len() - body.len(), all.len() as int));
}

/// Of a completion it is noted how many choices it has where there is not exactly one, and nothing
/// else.
pub proof fn choices_are_noted(chat: JsonView, choices: Seq<JsonView>)
    ensures
        json::field(chat, "choices"@) == Some(JsonView::Arr(choices)) && choices.len() != 1
            ==> proxy::notes_on(chat) == seq![
            "upstream returned "@ + text::decimal(choices.len())
                + " choices (only choice 0 used)"@,
        ],
        json::field(chat, "choices"@) == Some(JsonView::Arr(choices)) && choices.len() == 1
            ==> proxy::notes_on(chat).len() == 0,
        !(json::field(chat, "choices"@) is Some && json::field(chat, "choices"@)->0 is Arr)
            ==> proxy::notes_on(chat).len() == 0,
{
}

/// The report on a completion tells the model and the status of the response, or else the model
/// that was asked for and that the status is not known; why the first choice stopped, with its
/// further members; the usage of the completion; and the notes on it.
pub proof fn completions_are_reported(
    req_id: u64,
    elapsed: Duration,
    model: Seq<char>,
    chat: JsonView,
    resp: JsonView,
    percent: Seq<char>,
    s: Seq<char>,
)
    ensures
        ({
            let said = proxy::completion(req_id, elapsed, model, chat, resp, percent);
            let choice = response::first_choice(chat);
            &&& said.req_id == req_id
            &&& !said.stream
            &&& said.elapsed == elapsed
            &&& history::tells(resp, "model"@, s) ==> said.model == s
            &&& json::as_text(json::field(resp, "model"@)) is None ==> said.model == model
            &&& history::tells(resp, "status"@, s) ==> said.status == s
            &&& json::as_text(json::field(resp, "status"@)) is None ==> said.status == "?"@
            &&& history::tells(choice, "finish_reason"@, s) ==> said.finish_reason == Some(s)
            &&& json::as_text(json::field(choice, "finish_reason"@)) is None
                ==> said.finish_reason is None
            &&& said.extra_stop == report::stop_members(choice)
            &&& said.usage == json::field(chat, "usage"@)
            &&& said.cached_percent == percent
            &&& said.notes == proxy::notes_on(chat)
        }),
{
}

/// A completion is logged with its block, as a warning unless it is ordinary, behind the whole body
/// that came from the upstream.
pub proof fn completions_are_logged(said: report::ReportView, req_id: u64, chat: JsonView)
    ensures
        proxy::completion_entry(said).0 == report::block(said),
        report::ordinary(said) ==> proxy::completion_entry(said).1 == Level::Info,
        !report::ordinary(said) ==> proxy::completion_entry(said).1 == Level::Warn,
        proxy::answer_entry(req_id, chat) == (
            "#"@ + text::decimal(req_id as nat) + " upstream response body: "@ + json::written(
                chat,
            ),
            Level::Debug,
        ),
{
}

/// A step that refuses answers with the status and the message of the refusal, as an error of the
/// proxy's, and logs the refusal last.
pub proof fn refusing_steps(
    step: proxy::Step,
    before: Seq<(Seq<char>, Level)>,
    refusal: RefusalView,
    req_id: u64,
)
    requires
        proxy::refuses(step, before, refusal, req_id),
    ensures
        step.action is Answer,
        step.action->Answer_0.status == proxy::refusal_status(refusal),
        step.action->Answer_0.body@ == json::written(
            proxy::error_body(proxy::refusal_message(refusal)),
        ),
        step.entries@.len() == before.len() + 1,
        step.entries@.last()@ == proxy::refusal_entry(refusal, req_id),
        forall|i: int| 0 <= i < before.len() ==> (#[trigger] step.entries@[i])@ == before[i],
{
    let log = report::logged(step.entries@);
    assert(log.len() == step.entries@.len());
    assert(step.entries@.last()@ == log[log.len() - 1]);
    assert forall|i: int| 0 <= i < before.len() implies (#[trigger] step.entries@[i])@
        == before[i] by {
        assert(log[i] == step.entries@[i]@);
    }
}

/// What is taken of a request is what it asks for.
pub proof fn requests_are_taken_in(r: proxy::Incoming, req_id: u64, req: JsonView, model: Seq<char>)
    requires
        proxy::incoming_of(r, req_id, req),
    ensures
        r.stream == proxy::wants_stream(req),
        history::tells(req, "model"@, model) ==> r.model@ == model,
        r.chat.body@ == JsonView::Obj(request::chat_body(req, proxy::wants_stream(req))),
        r.chat.custom_tools@ == crate::convert::tools::custom_names(
            json::as_items(json::field(req, "tools"@)),
        ),
        text::texts(r.chat.dropped_tools@) == crate::convert::tools::dropped_labels(
            json::as_items(json::field(req, "tools"@)),
        ),
        report::logged(r.entries@) == proxy::request_log(req_id, req),
{
}

} // verus!
