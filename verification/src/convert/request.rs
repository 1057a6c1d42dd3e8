//! Request: Responses -> Chat Completions.

use vstd::hash_set::StringHashSet;
use vstd::prelude::*;

use crate::convert::messages;
use crate::convert::tools;
use crate::json;
use crate::json::{Json, JsonView, Object};
use crate::text;

verus! {

/// The messages that come before the input: the instructions, where there are any.
pub open spec fn opening(req: JsonView) -> Seq<JsonView> {
    let instructions = json::text_field(req, "instructions"@);
    if instructions.len() > 0 {
        seq![messages::message("system"@, JsonView::Str(instructions))]
    } else {
        Seq::empty()
    }
}

/// The messages of the chat request. An input that is one text is a message of the user.
pub open spec fn chat_messages(req: JsonView) -> Seq<JsonView> {
    match json::field(req, "input"@) {
        Some(JsonView::Str(s)) => opening(req).push(
            messages::message("user"@, JsonView::Str(s)),
        ),
        Some(JsonView::Arr(items)) => messages::after_items(opening(req), items),
        _ => opening(req),
    }
}

/// The `response_format` for a request that asks for JSON after a schema.
pub open spec fn response_format(req: JsonView) -> Option<JsonView> {
    match json::field2(req, "text"@, "format"@) {
        Some(format) => if json::as_text(json::field(format, "type"@)) == Some("json_schema"@) {
            let schema = Map::<Seq<char>, JsonView>::empty().insert(
                "name"@,
                json::value_or(json::field(format, "name"@), JsonView::Str("output"@)),
            ).insert(
                "schema"@,
                json::value_or(json::field(format, "schema"@), JsonView::Obj(Map::empty())),
            ).insert(
                "strict"@,
                json::value_or(json::field(format, "strict"@), JsonView::Bool(false)),
            );
            Some(
                JsonView::Obj(
                    Map::<Seq<char>, JsonView>::empty().insert(
                        "type"@,
                        JsonView::Str("json_schema"@),
                    ).insert("json_schema"@, JsonView::Obj(schema)),
                ),
            )
        } else {
            None
        },
        None => None,
    }
}

/// The stream options of a chat request: that the last event tells the usage.
pub open spec fn stream_options(stream: bool) -> Option<JsonView> {
    if stream {
        Some(
            JsonView::Obj(
                Map::<Seq<char>, JsonView>::empty().insert("include_usage"@, JsonView::Bool(true)),
            ),
        )
    } else {
        None
    }
}

/// The choice of a tool, as far as one is made.
pub open spec fn tool_choice(req: JsonView) -> Option<JsonView> {
    match json::present(json::field(req, "tool_choice"@)) {
        Some(choice) => Some(tools::chat_tool_choice(choice)),
        None => None,
    }
}

/// The members of the chat request without those that speak of tools.
pub open spec fn plain_body(req: JsonView, stream: bool) -> Map<Seq<char>, JsonView> {
    let m = json::put(Map::empty(), "model"@, json::field(req, "model"@));
    let m = m.insert("messages"@, JsonView::Arr(chat_messages(req)));
    let m = m.insert("stream"@, JsonView::Bool(stream));
    let m = json::put(m, "stream_options"@, stream_options(stream));
    let m = json::put(m, "temperature"@, json::present(json::field(req, "temperature"@)));
    let m = json::put(m, "top_p"@, json::present(json::field(req, "top_p"@)));
    let m = json::put(m, "user"@, json::present(json::field(req, "user"@)));
    let m = json::put(
        m,
        "max_tokens"@,
        json::present(json::field(req, "max_output_tokens"@)),
    );
    let m = json::put(
        m,
        "reasoning_effort"@,
        json::present(json::field2(req, "reasoning"@, "effort"@)),
    );
    json::put(m, "response_format"@, response_format(req))
}

/// The tools of the chat request.
pub open spec fn declared_tools(req: JsonView) -> Seq<JsonView> {
    tools::chat_tools(json::as_items(json::field(req, "tools"@)))
}

/// The members of the chat request. Without tools nothing is said of how to choose one.
pub open spec fn chat_body(req: JsonView, stream: bool) -> Map<Seq<char>, JsonView> {
    let m = plain_body(req, stream);
    if declared_tools(req).len() == 0 {
        m
    } else {
        let m = m.insert("tools"@, JsonView::Arr(declared_tools(req)));
        let m = json::put(m, "tool_choice"@, tool_choice(req));
        json::put(
            m,
            "parallel_tool_calls"@,
            json::present(json::field(req, "parallel_tool_calls"@)),
        )
    }
}

/// A chat request, and what became of the tools.
pub struct ChatRequest {
    pub body: Json,
    /// Names of Responses `custom` (freeform) tools, e.g. codex's `apply_patch`.
    /// They are exposed upstream as functions taking `{"input": string}`.
    pub custom_tools: StringHashSet,
    pub dropped_tools: Vec<String>,
}

fn convert_messages(req: &Json) -> (r: Vec<Json>)
    ensures
        json::list_view(r@) == chat_messages(req@),
        forall|i: int|
            0 <= i < json::as_items(json::field(req@, "input"@)).len() ==> #[trigger]
                messages::input_survives(json::as_items(json::field(req@, "input"@))[i]),
{
    let mut out: Vec<Json> = Vec::new();
    let instructions = req.text_or_empty("instructions");
    if !instructions.is_empty() {
        out.push(messages::chat_message("system", json::string(instructions)));
    }
    assert(json::list_view(out@) =~= opening(req@));
    let ghost first = out@;
    match req.get("input") {
        Some(Json::Str(s)) => {
            out.push(messages::chat_message("user", json::string(s.as_str())));
            proof {
                json::list_view_push(first, out@.last());
            }
        },
        Some(Json::Arr(items)) => {
            let ghost all = json::list_view(items@);
            let mut i: usize = 0;
            while i < items.len()
                invariant
                    i <= items.len(),
                    all == json::list_view(items@),
                    json::list_view(out@) == messages::after_items(
                        opening(req@),
                        all.take(i as int),
                    ),
                    forall|k: int| 0 <= k < i ==> #[trigger] messages::input_survives(all[k]),
                decreases items.len() - i,
            {
                proof {
                    assert(all.take(i + 1).drop_last() =~= all.take(i as int));
                    assert(all.take(i + 1).last() == items@[i as int]@);
                    assert(all[i as int] == items@[i as int]@);
                }
                messages::convert_input_item(&items[i], &mut out);
                i += 1;
            }
            assert(all.take(i as int) =~= all);
        },
        _ => {},
    }
    out
}

fn convert_format(req: &Json) -> (r: Option<Json>)
    ensures
        match r {
            Some(f) => response_format(req@) == Some(f@),
            None => response_format(req@) is None,
        },
{
    match req.get2("text", "format") {
        Some(format) => {
            let schema_wanted = match format.get_text("type") {
                Some(kind) => text::same_text(kind, "json_schema"),
                None => false,
            };
            if !schema_wanted {
                return None;
            }
            let name = match format.get("name") {
                Some(v) => v.clone(),
                None => json::string("output"),
            };
            let schema = match format.get("schema") {
                Some(v) => v.clone(),
                None => json::object(Object::new()),
            };
            let strict = match format.get("strict") {
                Some(v) => v.clone(),
                None => Json::Bool(false),
            };
            let described = Object::new().insert("name", name).insert("schema", schema).insert(
                "strict",
                strict,
            );
            Some(
                json::object(
                    Object::new().insert("type", json::string("json_schema")).insert(
                        "json_schema",
                        json::object(described),
                    ),
                ),
            )
        },
        None => None,
    }
}

/// Converts a Responses request into a chat request.
pub fn to_chat_request(req: &Json, stream: bool) -> (r: ChatRequest)
    ensures
        r.body@ == JsonView::Obj(chat_body(req@, stream)),
        r.custom_tools@ == tools::custom_names(json::as_items(json::field(req@, "tools"@))),
        text::texts(r.dropped_tools@) == tools::dropped_labels(
            json::as_items(json::field(req@, "tools"@)),
        ),
        forall|i: int|
            0 <= i < json::as_items(json::field(req@, "input"@)).len() ==> #[trigger]
                messages::input_survives(json::as_items(json::field(req@, "input"@))[i]),
{
    let mut body = Object::new().put("model", req.get("model"));
    body = body.insert("messages", json::array(convert_messages(req)));
    body = body.insert("stream", Json::Bool(stream));
    if stream {
        let options = Object::new().insert("include_usage", Json::Bool(true));
        body = body.insert("stream_options", json::object(options));
    }
    body = body.put("temperature", req.get_present("temperature"));
    body = body.put("top_p", req.get_present("top_p"));
    body = body.put("user", req.get_present("user"));
    body = body.put("max_tokens", req.get_present("max_output_tokens"));
    let effort = match req.get2("reasoning", "effort") {
        Some(Json::Null) => None,
        e => e,
    };
    body = body.put("reasoning_effort", effort);
    if let Some(format) = convert_format(req) {
        body = body.insert("response_format", format);
    }
    assert(body@ == plain_body(req@, stream));
    let toolbox = tools::convert_tools(req.get("tools"));
    if !toolbox.tools.is_empty() {
        body = body.insert("tools", json::array(toolbox.tools));
        if let Some(choice) = req.get_present("tool_choice") {
            body = body.insert("tool_choice", tools::convert_tool_choice(choice));
        }
        body = body.put("parallel_tool_calls", req.get_present("parallel_tool_calls"));
    }
    ChatRequest {
        body: json::object(body),
        custom_tools: toolbox.custom,
        dropped_tools: toolbox.dropped,
    }
}

} // verus!
