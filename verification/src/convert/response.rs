//! Response: Chat Completions -> Responses.

use vstd::hash_set::StringHashSet;
use vstd::prelude::*;

use crate::convert::fresh;
use crate::json;
use crate::json::{Json, JsonView, Object};
use crate::text;

verus! {

// ---------------------------------------------------------------------------
// Status and usage
// ---------------------------------------------------------------------------

/// The status of a response, and why it is incomplete, after the reason that the model gave for
/// stopping.
pub open spec fn status_of(fr: Option<Seq<char>>) -> (Seq<char>, Option<Seq<char>>) {
    if fr == Some("length"@) {
        ("incomplete"@, Some("max_output_tokens"@))
    } else if fr == Some("content_filter"@) {
        ("incomplete"@, Some("content_filter"@))
    } else {
        ("completed"@, None)
    }
}

/// finish_reason -> (Responses status, incomplete_details.reason)
pub fn map_finish_reason(fr: Option<&str>) -> (r: (&'static str, Option<&'static str>))
    ensures
        (r.0@, text::text_of(r.1)) == status_of(text::text_of(fr)),
{
    match fr {
        Some(reason) => if text::same_text(reason, "length") {
            ("incomplete", Some("max_output_tokens"))
        } else if text::same_text(reason, "content_filter") {
            ("incomplete", Some("content_filter"))
        } else {
            ("completed", None)
        },
        None => ("completed", None),
    }
}

/// A count; zero where there is none.
pub open spec fn count(v: Option<JsonView>) -> u64 {
    match json::as_natural(v) {
        Some(n) => n,
        None => 0,
    }
}

/// The tokens of the prompt.
pub open spec fn input_tokens(u: JsonView) -> u64 {
    count(json::field(u, "prompt_tokens"@))
}

/// The tokens of the completion.
pub open spec fn output_tokens(u: JsonView) -> u64 {
    count(json::field(u, "completion_tokens"@))
}

/// All the tokens: as told, or the sum.
pub open spec fn total_tokens(u: JsonView) -> int {
    match json::as_natural(json::field(u, "total_tokens"@)) {
        Some(n) => n as int,
        None => input_tokens(u) + output_tokens(u),
    }
}

/// The tokens of prompt and completion together can be counted.
pub open spec fn countable(u: Option<JsonView>) -> bool {
    match u {
        Some(JsonView::Obj(_)) => input_tokens(u->0) + output_tokens(u->0) <= u64::MAX,
        _ => true,
    }
}

/// One count under a name, as the details of a usage have it.
pub open spec fn detail(name: Seq<char>, n: u64) -> JsonView {
    JsonView::Obj(Map::<Seq<char>, JsonView>::empty().insert(name, JsonView::Int(n as int)))
}

/// The usage of a response; null where the chat completion tells none.
pub open spec fn usage(u: Option<JsonView>) -> JsonView {
    match u {
        Some(JsonView::Obj(_)) => JsonView::Obj(
            Map::<Seq<char>, JsonView>::empty().insert(
                "input_tokens"@,
                JsonView::Int(input_tokens(u->0) as int),
            ).insert(
                "input_tokens_details"@,
                detail(
                    "cached_tokens"@,
                    count(json::field2(u->0, "prompt_tokens_details"@, "cached_tokens"@)),
                ),
            ).insert("output_tokens"@, JsonView::Int(output_tokens(u->0) as int)).insert(
                "output_tokens_details"@,
                detail(
                    "reasoning_tokens"@,
                    count(
                        json::field2(u->0, "completion_tokens_details"@, "reasoning_tokens"@),
                    ),
                ),
            ).insert("total_tokens"@, JsonView::Int(total_tokens(u->0))),
        ),
        _ => JsonView::Null,
    }
}

/// Reads a count.
pub fn count_of(v: Option<&Json>) -> (r: u64)
    ensures
        r == count(json::value_of(v)),
{
    match v {
        Some(j) => match j.as_u64() {
            Some(n) => n,
            None => 0,
        },
        None => 0,
    }
}

fn one_count(name: &str, n: u64) -> (r: Json)
    ensures
        r@ == detail(name@, n),
{
    json::object(Object::new().insert(name, Json::Unsigned(n)))
}

/// Whether the tokens of prompt and completion together can be counted.
pub fn is_countable(u: Option<&Json>) -> (r: bool)
    ensures
        r == countable(json::value_of(u)),
{
    match u {
        Some(Json::Obj(o)) => {
            let input = count_of(o.get("prompt_tokens"));
            let output = count_of(o.get("completion_tokens"));
            input <= u64::MAX - output
        },
        _ => true,
    }
}

/// Converts the usage of a chat completion.
pub fn convert_usage(u: Option<&Json>) -> (r: Json)
    requires
        countable(json::value_of(u)),
    ensures
        r@ == usage(json::value_of(u)),
{
    match u {
        Some(j) if j.is_object() => {
            let input = count_of(j.get("prompt_tokens"));
            let output = count_of(j.get("completion_tokens"));
            let total = match j.get("total_tokens") {
                Some(t) => match t.as_u64() {
                    Some(n) => n,
                    None => input + output,
                },
                None => input + output,
            };
            let cached = count_of(j.get2("prompt_tokens_details", "cached_tokens"));
            let reasoning = count_of(j.get2("completion_tokens_details", "reasoning_tokens"));
            json::object(
                Object::new().insert("input_tokens", Json::Unsigned(input)).insert(
                    "input_tokens_details",
                    one_count("cached_tokens", cached),
                ).insert("output_tokens", Json::Unsigned(output)).insert(
                    "output_tokens_details",
                    one_count("reasoning_tokens", reasoning),
                ).insert("total_tokens", Json::Unsigned(total)),
            )
        },
        _ => Json::Null,
    }
}

// ---------------------------------------------------------------------------
// The response and its items
// ---------------------------------------------------------------------------

/// Why a response is incomplete, as it says so; null where it is complete.
pub open spec fn incomplete_details(reason: Option<Seq<char>>) -> JsonView {
    match reason {
        Some(r) => JsonView::Obj(
            Map::<Seq<char>, JsonView>::empty().insert("reason"@, JsonView::Str(r)),
        ),
        None => JsonView::Null,
    }
}

/// A Responses object.
pub open spec fn response(
    id: Seq<char>,
    created_at: i64,
    model: Seq<char>,
    status: Seq<char>,
    reason: Option<Seq<char>>,
    output: Seq<JsonView>,
    usage: JsonView,
) -> JsonView {
    JsonView::Obj(
        Map::<Seq<char>, JsonView>::empty().insert("id"@, JsonView::Str(id)).insert(
            "object"@,
            JsonView::Str("response"@),
        ).insert("created_at"@, JsonView::Int(created_at as int)).insert(
            "status"@,
            JsonView::Str(status),
        ).insert("model"@, JsonView::Str(model)).insert("output"@, JsonView::Arr(output)).insert(
            "usage"@,
            usage,
        ).insert("incomplete_details"@, incomplete_details(reason)).insert(
            "error"@,
            JsonView::Null,
        ),
    )
}

/// Builds a Responses object.
pub fn response_object(
    id: &str,
    created_at: i64,
    model: &str,
    status: &str,
    incomplete_reason: Option<&str>,
    output: Vec<Json>,
    usage: Json,
) -> (r: Json)
    ensures
        r@ == response(
            id@,
            created_at,
            model@,
            status@,
            text::text_of(incomplete_reason),
            json::list_view(output@),
            usage@,
        ),
{
    let details = match incomplete_reason {
        Some(reason) => json::object(Object::new().insert("reason", json::string(reason))),
        None => Json::Null,
    };
    json::object(
        Object::new().insert("id", json::string(id)).insert(
            "object",
            json::string("response"),
        ).insert("created_at", Json::Signed(created_at)).insert(
            "status",
            json::string(status),
        ).insert("model", json::string(model)).insert("output", json::array(output)).insert(
            "usage",
            usage,
        ).insert("incomplete_details", details).insert("error", Json::Null),
    )
}

/// What the assistant says, as an item of the output.
pub open spec fn said_item(id: Seq<char>, words: Seq<char>) -> JsonView {
    let part = JsonView::Obj(
        Map::<Seq<char>, JsonView>::empty().insert("type"@, JsonView::Str("output_text"@)).insert(
            "text"@,
            JsonView::Str(words),
        ).insert("annotations"@, JsonView::Arr(Seq::empty())),
    );
    JsonView::Obj(
        Map::<Seq<char>, JsonView>::empty().insert("id"@, JsonView::Str(id)).insert(
            "type"@,
            JsonView::Str("message"@),
        ).insert("status"@, JsonView::Str("completed"@)).insert(
            "role"@,
            JsonView::Str("assistant"@),
        ).insert("content"@, JsonView::Arr(seq![part])),
    )
}

/// Builds the item for what the assistant says.
pub fn message_item(id: &str, text: &str) -> (r: Json)
    ensures
        r@ == said_item(id@, text@),
{
    let annotations: Vec<Json> = Vec::new();
    assert(json::list_view(annotations@) =~= Seq::<JsonView>::empty());
    let part = Object::new().insert("type", json::string("output_text")).insert(
        "text",
        json::string(text),
    ).insert("annotations", json::array(annotations));
    let mut content: Vec<Json> = Vec::new();
    content.push(json::object(part));
    assert(json::list_view(content@) =~= seq![JsonView::Obj(part@)]);
    json::object(
        Object::new().insert("id", json::string(id)).insert(
            "type",
            json::string("message"),
        ).insert("status", json::string("completed")).insert(
            "role",
            json::string("assistant"),
        ).insert("content", json::array(content)),
    )
}

/// What the model thought, as an item of the output.
pub open spec fn thought_item(id: Seq<char>, words: Seq<char>) -> JsonView {
    let part = JsonView::Obj(
        Map::<Seq<char>, JsonView>::empty().insert("type"@, JsonView::Str("summary_text"@)).insert(
            "text"@,
            JsonView::Str(words),
        ),
    );
    JsonView::Obj(
        Map::<Seq<char>, JsonView>::empty().insert("id"@, JsonView::Str(id)).insert(
            "type"@,
            JsonView::Str("reasoning"@),
        ).insert("summary"@, JsonView::Arr(seq![part])),
    )
}

/// Builds the item for what the model thought.
pub fn reasoning_item(id: &str, text: &str) -> (r: Json)
    ensures
        r@ == thought_item(id@, text@),
{
    let part = Object::new().insert("type", json::string("summary_text")).insert(
        "text",
        json::string(text),
    );
    let mut summary: Vec<Json> = Vec::new();
    summary.push(json::object(part));
    assert(json::list_view(summary@) =~= seq![JsonView::Obj(part@)]);
    json::object(
        Object::new().insert("id", json::string(id)).insert(
            "type",
            json::string("reasoning"),
        ).insert("summary", json::array(summary)),
    )
}

/// The raw input of a custom tool out of its arguments, given what they read as: the member
/// `input`, or the arguments as they are where the model did not comply.
pub open spec fn unwrapped(parsed: Option<JsonView>, args: Seq<char>) -> Seq<char> {
    match parsed {
        Some(v) => text::or(json::as_text(json::field(v, "input"@)), args),
        None => args,
    }
}

/// Takes the raw input out of the arguments, given what they read as.
pub fn custom_input(parsed: Option<&Json>, args: &str) -> (r: String)
    ensures
        r@ == unwrapped(json::value_of(parsed), args@),
{
    match parsed {
        Some(v) => match v.get_text("input") {
            Some(input) => input.to_owned(),
            None => args.to_owned(),
        },
        None => args.to_owned(),
    }
}

/// A call of a tool, as an item of the output, with its arguments or its raw input under `key`.
pub open spec fn called_item(
    id: Seq<char>,
    kind: Seq<char>,
    call_id: Seq<char>,
    name: Seq<char>,
    key: Seq<char>,
    payload: Seq<char>,
) -> JsonView {
    JsonView::Obj(
        Map::<Seq<char>, JsonView>::empty().insert("id"@, JsonView::Str(id)).insert(
            "type"@,
            JsonView::Str(kind),
        ).insert("status"@, JsonView::Str("completed"@)).insert(
            "call_id"@,
            JsonView::Str(call_id),
        ).insert("name"@, JsonView::Str(name)).insert(key, JsonView::Str(payload)),
    )
}

/// The item for a call of a function, or of a custom tool.
pub open spec fn call_item(
    id: Seq<char>,
    call_id: Seq<char>,
    name: Seq<char>,
    args: Seq<char>,
    custom: bool,
) -> JsonView {
    if custom {
        called_item(
            id,
            "custom_tool_call"@,
            call_id,
            name,
            "input"@,
            unwrapped(json::read_text(args), args),
        )
    } else {
        called_item(id, "function_call"@, call_id, name, "arguments"@, args)
    }
}

fn build_call(id: &str, kind: &str, call_id: &str, name: &str, key: &str, payload: String) -> (r:
    Json)
    ensures
        r@ == called_item(id@, kind@, call_id@, name@, key@, payload@),
{
    json::object(
        Object::new().insert("id", json::string(id)).insert("type", json::string(kind)).insert(
            "status",
            json::string("completed"),
        ).insert("call_id", json::string(call_id)).insert("name", json::string(name)).insert(
            key,
            Json::Str(payload),
        ),
    )
}

/// Builds the item for a call.
pub fn tool_call_item(id: &str, call_id: &str, name: &str, args: &str, custom: bool) -> (r: Json)
    ensures
        r@ == call_item(id@, call_id@, name@, args@, custom),
{
    if custom {
        let parsed = json::parse_text(args);
        let input = custom_input(parsed.as_ref(), args);
        build_call(id, "custom_tool_call", call_id, name, "input", input)
    } else {
        build_call(id, "function_call", call_id, name, "arguments", args.to_owned())
    }
}

/// What the model thought: `reasoning_content`, or `reasoning` where that is not there, if it is
/// a text that is not empty.
pub open spec fn thought(msg: JsonView) -> Option<Seq<char>> {
    let told = match json::field(msg, "reasoning_content"@) {
        Some(v) => Some(v),
        None => json::field(msg, "reasoning"@),
    };
    nonempty(json::as_text(told))
}

/// The text, unless it is absent or empty.
pub open spec fn nonempty(s: Option<Seq<char>>) -> Option<Seq<char>> {
    match s {
        Some(t) => if t.len() > 0 {
            Some(t)
        } else {
            None
        },
        None => None,
    }
}

/// The text of what the model thought.
pub fn reasoning_text(v: &Json) -> (r: Option<&str>)
    ensures
        text::text_of(r) == thought(v@),
{
    let told = match v.get("reasoning_content") {
        Some(t) => Some(t),
        None => v.get("reasoning"),
    };
    match told {
        Some(Json::Str(s)) => if s.as_str().is_empty() {
            None
        } else {
            Some(s.as_str())
        },
        _ => None,
    }
}

// ---------------------------------------------------------------------------
// The whole response
// ---------------------------------------------------------------------------

/// The choice of a chat completion that counts: the first; null where there is none.
pub open spec fn first_choice(chat: JsonView) -> JsonView {
    match json::field(chat, "choices"@) {
        Some(JsonView::Arr(choices)) => if choices.len() > 0 {
            choices[0]
        } else {
            JsonView::Null
        },
        Some(v) => json::value_or(json::field(v, "0"@), JsonView::Null),
        None => JsonView::Null,
    }
}

/// The message of the first choice; null where there is none.
pub open spec fn first_message(chat: JsonView) -> JsonView {
    json::value_or(json::field(first_choice(chat), "message"@), JsonView::Null)
}

/// The calls that the message makes.
pub open spec fn calls_made(chat: JsonView) -> Seq<JsonView> {
    json::as_items(json::field(first_message(chat), "tool_calls"@))
}

/// The identifiers for one call: of the item, and of the call where it comes without one.
pub struct CallIds {
    pub item: String,
    pub call: String,
}

/// The identifiers for a response: of what the model thought, of what it says, and of each call.
pub struct Ids {
    pub reasoning: String,
    pub message: String,
    pub calls: Vec<CallIds>,
}

/// The same as texts.
pub struct IdsView {
    pub reasoning: Seq<char>,
    pub message: Seq<char>,
    pub calls: Seq<(Seq<char>, Seq<char>)>,
}

impl View for Ids {
    type V = IdsView;

    open spec fn view(&self) -> IdsView {
        IdsView {
            reasoning: self.reasoning@,
            message: self.message@,
            calls: self.calls@.map_values(|c: CallIds| (c.item@, c.call@)),
        }
    }
}

/// Identifiers that were made for that many calls.
pub open spec fn made_for(ids: IdsView, calls: nat) -> bool {
    &&& fresh::identifier(ids.reasoning, "rs"@)
    &&& fresh::identifier(ids.message, "msg"@)
    &&& ids.calls.len() == calls
    &&& forall|i: int|
        #![trigger ids.calls[i]]
        0 <= i < calls ==> fresh::identifier(ids.calls[i].0, "fc"@) && fresh::identifier(
            ids.calls[i].1,
            "call"@,
        )
}

/// The name of the function that a call calls.
pub open spec fn called_name(call: JsonView) -> Seq<char> {
    text::or(json::as_text(json::field2(call, "function"@, "name"@)), Seq::empty())
}

/// The arguments of a call.
pub open spec fn called_args(call: JsonView) -> Seq<char> {
    text::or(json::as_text(json::field2(call, "function"@, "arguments"@)), Seq::empty())
}

/// The item for a call that the message makes.
pub open spec fn made_item(
    call: JsonView,
    ids: (Seq<char>, Seq<char>),
    custom: Set<Seq<char>>,
) -> JsonView {
    call_item(
        ids.0,
        text::or(json::as_text(json::field(call, "id"@)), ids.1),
        called_name(call),
        called_args(call),
        custom.contains(called_name(call)),
    )
}

/// The output of a response: what the model thought, what it says, what it calls, in this order,
/// each as far as there is any.
pub open spec fn output_items(
    chat: JsonView,
    custom: Set<Seq<char>>,
    ids: IdsView,
) -> Seq<JsonView> {
    let msg = first_message(chat);
    let thoughts = match thought(msg) {
        Some(words) => seq![thought_item(ids.reasoning, words)],
        None => Seq::empty(),
    };
    let sayings = match nonempty(json::as_text(json::field(msg, "content"@))) {
        Some(words) => seq![said_item(ids.message, words)],
        None => Seq::empty(),
    };
    let calls = Seq::new(
        calls_made(chat).len(),
        |i: int| made_item(calls_made(chat)[i], ids.calls[i], custom),
    );
    thoughts + sayings + calls
}

/// A chat completion as a Responses object.
pub open spec fn whole_response(
    chat: JsonView,
    id: Seq<char>,
    fallback_model: Seq<char>,
    custom: Set<Seq<char>>,
    ids: IdsView,
    now: i64,
) -> JsonView {
    let (status, reason) = status_of(
        json::as_text(json::field(first_choice(chat), "finish_reason"@)),
    );
    let created = match json::as_integer(json::field(chat, "created"@)) {
        Some(t) => t,
        None => now,
    };
    response(
        id,
        created,
        text::or(json::as_text(json::field(chat, "model"@)), fallback_model),
        status,
        reason,
        output_items(chat, custom, ids),
        usage(json::field(chat, "usage"@)),
    )
}

/// The choice of a chat completion that counts.
pub fn chosen(chat: &Json) -> (r: Option<&Json>)
    ensures
        json::value_or(json::value_of(r), JsonView::Null) == first_choice(chat@),
{
    match chat.get("choices") {
        Some(Json::Arr(choices)) => if choices.len() > 0 {
            Some(&choices[0])
        } else {
            None
        },
        Some(v) => v.get("0"),
        None => None,
    }
}

fn chosen_message(chat: &Json) -> (r: Option<&Json>)
    ensures
        json::value_or(json::value_of(r), JsonView::Null) == first_message(chat@),
{
    match chosen(chat) {
        Some(choice) => choice.get("message"),
        None => None,
    }
}

fn convert_call(call: &Json, ids: &CallIds, custom: &StringHashSet) -> (r: Json)
    ensures
        r@ == made_item(call@, (ids.item@, ids.call@), custom@),
{
    let name = match call.get2("function", "name") {
        Some(Json::Str(s)) => s.clone(),
        _ => String::new(),
    };
    let args = match call.get2("function", "arguments") {
        Some(Json::Str(s)) => s.clone(),
        _ => String::new(),
    };
    let call_id = match call.get_text("id") {
        Some(s) => s,
        None => ids.call.as_str(),
    };
    tool_call_item(
        ids.item.as_str(),
        call_id,
        name.as_str(),
        args.as_str(),
        custom.contains(name.as_str()),
    )
}

/// Converts a chat completion, given the identifiers and the time.
pub fn assemble_response(
    chat: &Json,
    resp_id: &str,
    fallback_model: &str,
    custom: &StringHashSet,
    ids: &Ids,
    now: i64,
) -> (r: Json)
    requires
        countable(json::field(chat@, "usage"@)),
        ids@.calls.len() >= calls_made(chat@).len(),
    ensures
        r@ == whole_response(chat@, resp_id@, fallback_model@, custom@, ids@, now),
{
    let mut output: Vec<Json> = Vec::new();
    let mut finish: Option<&str> = None;
    let ghost msg_view = first_message(chat@);
    if let Some(choice) = chosen(chat) {
        finish = choice.get_text("finish_reason");
    }
    assert(text::text_of(finish) == json::as_text(
        json::field(first_choice(chat@), "finish_reason"@),
    ));
    if let Some(msg) = chosen_message(chat) {
        assert(msg@ == msg_view);
        if let Some(words) = reasoning_text(msg) {
            output.push(reasoning_item(ids.reasoning.as_str(), words));
        }
        if let Some(words) = msg.get_text("content") {
            if !words.is_empty() {
                output.push(message_item(ids.message.as_str(), words));
            }
        }
        let ghost lead = json::list_view(output@);
        if let Some(Json::Arr(calls)) = msg.get("tool_calls") {
            let mut i: usize = 0;
            let ghost made = calls_made(chat@);
            assert(made == json::list_view(calls@));
            assert(json::list_view(output@) =~= lead + Seq::new(
                0,
                |k: int| made_item(made[k], ids@.calls[k], custom@),
            ));
            while i < calls.len()
                invariant
                    i <= calls.len(),
                    made == json::list_view(calls@),
                    ids@.calls.len() >= made.len(),
                    json::list_view(output@) == lead + Seq::new(
                        i as nat,
                        |k: int| made_item(made[k], ids@.calls[k], custom@),
                    ),
                decreases calls.len() - i,
            {
                let ghost was = output@;
                output.push(convert_call(&calls[i], &ids.calls[i], custom));
                proof {
                    json::list_view_push(was, output@.last());
                    assert(made[i as int] == calls@[i as int]@);
                    assert(json::list_view(output@) =~= lead + Seq::new(
                        (i + 1) as nat,
                        |k: int| made_item(made[k], ids@.calls[k], custom@),
                    ));
                }
                i += 1;
            }
        }
    }
    assert(json::list_view(output@) =~= output_items(chat@, custom@, ids@));
    let (status, reason) = map_finish_reason(finish);
    let model = match chat.get_text("model") {
        Some(m) => m,
        None => fallback_model,
    };
    let created = match chat.get("created") {
        Some(t) => match t.as_i64() {
            Some(n) => n,
            None => now,
        },
        None => now,
    };
    response_object(
        resp_id,
        created,
        model,
        status,
        reason,
        output,
        convert_usage(chat.get("usage")),
    )
}

/// Makes the identifiers for a response.
pub fn draw_ids(chat: &Json) -> (r: Ids)
    ensures
        made_for(r@, calls_made(chat@).len()),
{
    let mut calls: Vec<CallIds> = Vec::new();
    if let Some(msg) = chosen_message(chat) {
        if let Some(Json::Arr(list)) = msg.get("tool_calls") {
            let mut i: usize = 0;
            while i < list.len()
                invariant
                    i <= list.len(),
                    calls@.len() == i,
                    forall|k: int|
                        0 <= k < i ==> fresh::identifier((#[trigger] calls@[k]).item@, "fc"@)
                            && fresh::identifier(calls@[k].call@, "call"@),
                decreases list.len() - i,
            {
                calls.push(CallIds { item: fresh::new_id("fc"), call: fresh::new_id("call") });
                i += 1;
            }
        }
    }
    Ids { reasoning: fresh::new_id("rs"), message: fresh::new_id("msg"), calls }
}

/// Converts a non-streaming chat completion into a Responses object.
pub fn chat_to_response(
    chat: &Json,
    resp_id: &str,
    fallback_model: &str,
    custom: &StringHashSet,
) -> (r: Json)
    requires
        countable(json::field(chat@, "usage"@)),
    ensures
        exists|ids: IdsView, t: std::time::SystemTime|
            made_for(ids, calls_made(chat@).len()) && r@ == #[trigger] whole_response(
                chat@,
                resp_id@,
                fallback_model@,
                custom@,
                ids,
                fresh::unix_time(t),
            ),
{
    let ids = draw_ids(chat);
    let now = fresh::now_secs();
    assemble_response(chat, resp_id, fallback_model, custom, &ids, now)
}

} // verus!
