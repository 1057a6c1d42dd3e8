//! The input of a Responses request as chat messages.

use vstd::prelude::*;

use crate::json;
use crate::json::{Json, JsonView, Object};
use crate::text;

verus! {

/// A chat message.
pub open spec fn message(role: Seq<char>, content: JsonView) -> JsonView {
    JsonView::Obj(
        Map::<Seq<char>, JsonView>::empty().insert("role"@, JsonView::Str(role)).insert(
            "content"@,
            content,
        ),
    )
}

/// Builds a chat message.
pub fn chat_message(role: &str, content: Json) -> (r: Json)
    ensures
        r@ == message(role@, content@),
{
    json::object(Object::new().insert("role", json::string(role)).insert("content", content))
}

// ---------------------------------------------------------------------------
// Message content
// ---------------------------------------------------------------------------

/// What a content part says in words: a text, or the words of a refusal.
pub open spec fn part_text(part: JsonView) -> Option<Seq<char>> {
    let kind = json::text_field(part, "type"@);
    if kind == "input_text"@ || kind == "output_text"@ || kind == "text"@ {
        Some(json::text_field(part, "text"@))
    } else if kind == "refusal"@ {
        Some(json::text_field(part, "refusal"@))
    } else {
        None
    }
}

/// Where the image of a content part is: `image_url` itself, or its member `url`.
pub open spec fn image_location(part: JsonView) -> Seq<char> {
    match json::field(part, "image_url"@) {
        Some(JsonView::Str(u)) => u,
        Some(u) => json::text_field(u, "url"@),
        None => Seq::empty(),
    }
}

/// The image of a content part, as the chat API names it. A part that says nowhere where its
/// image is has none.
pub open spec fn part_image(part: JsonView) -> Option<JsonView> {
    if json::text_field(part, "type"@) == "input_image"@ && image_location(part).len() > 0 {
        Some(
            JsonView::Obj(
                json::put(
                    Map::<Seq<char>, JsonView>::empty().insert(
                        "url"@,
                        JsonView::Str(image_location(part)),
                    ),
                    "detail"@,
                    json::present(json::field(part, "detail"@)),
                ),
            ),
        )
    } else {
        None
    }
}

/// A content part as the chat API has it; `None` for one that it has no form for.
pub open spec fn chat_part(part: JsonView) -> Option<JsonView> {
    match (part_text(part), part_image(part)) {
        (Some(t), _) => Some(
            JsonView::Obj(
                Map::<Seq<char>, JsonView>::empty().insert("type"@, JsonView::Str("text"@)).insert(
                    "text"@,
                    JsonView::Str(t),
                ),
            ),
        ),
        (None, Some(image)) => Some(
            JsonView::Obj(
                Map::<Seq<char>, JsonView>::empty().insert(
                    "type"@,
                    JsonView::Str("image_url"@),
                ).insert("image_url"@, image),
            ),
        ),
        (None, None) => None,
    }
}

/// The parts that the chat API has a form for, in order.
pub open spec fn chat_parts(parts: Seq<JsonView>) -> Seq<JsonView>
    decreases parts.len(),
{
    if parts.len() == 0 {
        Seq::empty()
    } else {
        match chat_part(parts.last()) {
            Some(p) => chat_parts(parts.drop_last()).push(p),
            None => chat_parts(parts.drop_last()),
        }
    }
}

/// What the parts say in words, in order.
pub open spec fn part_texts(parts: Seq<JsonView>) -> Seq<Seq<char>>
    decreases parts.len(),
{
    if parts.len() == 0 {
        Seq::empty()
    } else {
        match part_text(parts.last()) {
            Some(t) => part_texts(parts.drop_last()).push(t),
            None => part_texts(parts.drop_last()),
        }
    }
}

/// Some part has an image.
pub open spec fn has_image(parts: Seq<JsonView>) -> bool {
    exists|i: int| 0 <= i < parts.len() && part_image(#[trigger] parts[i]) is Some
}

/// The content of a chat message: a list of parts for a user who sends an image, else one text,
/// the words of the parts on lines of their own.
pub open spec fn content(v: Option<JsonView>, role: Seq<char>) -> JsonView {
    match v {
        Some(JsonView::Str(s)) => JsonView::Str(s),
        Some(JsonView::Arr(parts)) => if has_image(parts) && role == "user"@ {
            JsonView::Arr(chat_parts(parts))
        } else {
            JsonView::Str(text::joined(part_texts(parts), "\n"@))
        },
        _ => JsonView::Str(Seq::empty()),
    }
}

/// No part has both words and an image.
pub proof fn words_or_image(part: JsonView)
    ensures
        part_text(part) is None || part_image(part) is None,
{
    reveal_strlit("input_text");
    reveal_strlit("output_text");
    reveal_strlit("text");
    reveal_strlit("refusal");
    reveal_strlit("input_image");
    assert("input_text"@.len() == 10 && "text"@.len() == 4 && "refusal"@.len() == 7);
    assert("input_image"@.len() == 11 && "output_text"@[0] != "input_image"@[0]);
}

fn words_of(part: &Json) -> (r: Option<&str>)
    ensures
        text::text_of(r) == part_text(part@),
{
    let kind = part.text_or_empty("type");
    if text::same_text(kind, "input_text") || text::same_text(kind, "output_text")
        || text::same_text(kind, "text") {
        Some(part.text_or_empty("text"))
    } else if text::same_text(kind, "refusal") {
        Some(part.text_or_empty("refusal"))
    } else {
        None
    }
}

fn image_of(part: &Json) -> (r: Option<Json>)
    ensures
        match r {
            Some(image) => part_image(part@) == Some(image@),
            None => part_image(part@) is None,
        },
{
    if !text::same_text(part.text_or_empty("type"), "input_image") {
        return None;
    }
    match part.get("image_url") {
        Some(u) => {
            let url = match u {
                Json::Str(s) => s.as_str(),
                _ => u.text_or_empty("url"),
            };
            if url.is_empty() {
                None
            } else {
                let image = Object::new().insert("url", json::string(url));
                Some(json::object(image.put("detail", part.get_present("detail"))))
            }
        },
        None => None,
    }
}

/// Converts the content of a message.
pub fn convert_message_content(v: Option<&Json>, role: &str) -> (r: Json)
    ensures
        r@ == content(json::value_of(v), role@),
{
    match v {
        Some(Json::Str(s)) => json::string(s.as_str()),
        Some(Json::Arr(parts)) => {
            let ghost all = json::list_view(parts@);
            let mut out: Vec<Json> = Vec::new();
            let mut words: Vec<String> = Vec::new();
            let mut image_seen = false;
            let mut i: usize = 0;
            while i < parts.len()
                invariant
                    i <= parts.len(),
                    all == json::list_view(parts@),
                    json::list_view(out@) == chat_parts(all.take(i as int)),
                    text::texts(words@) == part_texts(all.take(i as int)),
                    image_seen == has_image(all.take(i as int)),
                decreases parts.len() - i,
            {
                let part = &parts[i];
                let ghost before = all.take(i as int);
                let ghost after = all.take(i + 1);
                let ghost was = out@;
                let ghost said = words@;
                proof {
                    assert(after.drop_last() =~= before);
                    assert(after.last() == part@);
                    assert(forall|k: int| 0 <= k < i ==> after[k] == before[k]);
                    assert(after[i as int] == part@);
                    words_or_image(part@);
                    assert(has_image(after) == (has_image(before) || part_image(part@) is Some));
                }
                match words_of(part) {
                    Some(t) => {
                        let p = Object::new().insert("type", json::string("text")).insert(
                            "text",
                            json::string(t),
                        );
                        out.push(json::object(p));
                        words.push(t.to_owned());
                        proof {
                            json::list_view_push(was, out@.last());
                            assert(text::texts(words@) =~= text::texts(said).push(t@));
                        }
                    },
                    None => match image_of(part) {
                        Some(image) => {
                            image_seen = true;
                            let p = Object::new().insert("type", json::string("image_url")).insert(
                                "image_url",
                                image,
                            );
                            out.push(json::object(p));
                            proof {
                                json::list_view_push(was, out@.last());
                            }
                        },
                        None => {},
                    },
                }
                i += 1;
            }
            assert(all.take(i as int) =~= all);
            if image_seen && text::same_text(role, "user") {
                json::array(out)
            } else {
                Json::Str(text::join(words.as_slice(), "\n"))
            }
        },
        _ => Json::Str(String::new()),
    }
}

/// What is to be noted of something that has no form in the chat API.
pub enum Remark {
    /// An image without a location was dropped.
    ImageDropped,
    /// A content part of that type was skipped.
    PartSkipped(String),
    /// An input item of that type was skipped.
    ItemSkipped(String),
}

/// The same with the texts.
pub enum RemarkView {
    ImageDropped,
    PartSkipped(Seq<char>),
    ItemSkipped(Seq<char>),
}

impl View for Remark {
    type V = RemarkView;

    open spec fn view(&self) -> RemarkView {
        match self {
            Remark::ImageDropped => RemarkView::ImageDropped,
            Remark::PartSkipped(kind) => RemarkView::PartSkipped(kind@),
            Remark::ItemSkipped(kind) => RemarkView::ItemSkipped(kind@),
        }
    }
}

/// What the remarks say, in order.
pub open spec fn remarked(list: Seq<Remark>) -> Seq<RemarkView> {
    list.map_values(|r: Remark| r@)
}

/// What is to be noted of a content part.
pub open spec fn part_remark(part: JsonView) -> Option<RemarkView> {
    let kind = json::text_field(part, "type"@);
    if part_text(part) is Some || part_image(part) is Some {
        None
    } else if kind == "input_image"@ {
        Some(RemarkView::ImageDropped)
    } else {
        Some(RemarkView::PartSkipped(kind))
    }
}

/// What is to be noted of the parts, in order.
pub open spec fn part_remarks(parts: Seq<JsonView>) -> Seq<RemarkView>
    decreases parts.len(),
{
    if parts.len() == 0 {
        Seq::empty()
    } else {
        match part_remark(parts.last()) {
            Some(r) => part_remarks(parts.drop_last()).push(r),
            None => part_remarks(parts.drop_last()),
        }
    }
}

fn note_parts(parts: &Vec<Json>, remarks: &mut Vec<Remark>)
    ensures
        remarked(final(remarks)@) == remarked(old(remarks)@) + part_remarks(
            json::list_view(parts@),
        ),
{
    let ghost all = json::list_view(parts@);
    let ghost first = remarked(remarks@);
    let mut i: usize = 0;
    assert(first + part_remarks(all.take(0)) =~= first);
    while i < parts.len()
        invariant
            i <= parts.len(),
            all == json::list_view(parts@),
            remarked(remarks@) == first + part_remarks(all.take(i as int)),
        decreases parts.len() - i,
    {
        let ghost was = remarks@;
        let part = &parts[i];
        proof {
            assert(all.take(i + 1).drop_last() =~= all.take(i as int));
            assert(all.take(i + 1).last() == part@);
        }
        if words_of(part).is_none() && image_of(part).is_none() {
            let kind = part.text_or_empty("type");
            if text::same_text(kind, "input_image") {
                remarks.push(Remark::ImageDropped);
            } else {
                remarks.push(Remark::PartSkipped(kind.to_owned()));
            }
            assert(remarked(remarks@) =~= remarked(was).push(part_remark(part@)->0));
        }
        assert(remarked(remarks@) =~= first + part_remarks(all.take(i + 1)));
        i += 1;
    }
    assert(all.take(i as int) =~= all);
}

// ---------------------------------------------------------------------------
// Tool calls and their outputs
// ---------------------------------------------------------------------------

/// A call of a function, as an assistant message lists it.
pub open spec fn tool_call(
    call_id: Seq<char>,
    name: Seq<char>,
    arguments: Seq<char>,
) -> JsonView {
    JsonView::Obj(
        Map::<Seq<char>, JsonView>::empty().insert("id"@, JsonView::Str(call_id)).insert(
            "type"@,
            JsonView::Str("function"@),
        ).insert(
            "function"@,
            JsonView::Obj(
                Map::<Seq<char>, JsonView>::empty().insert("name"@, JsonView::Str(name)).insert(
                    "arguments"@,
                    JsonView::Str(arguments),
                ),
            ),
        ),
    )
}

/// An assistant message that only calls.
pub open spec fn calling_message(call: JsonView) -> JsonView {
    JsonView::Obj(
        Map::<Seq<char>, JsonView>::empty().insert("role"@, JsonView::Str("assistant"@)).insert(
            "content"@,
            JsonView::Null,
        ).insert("tool_calls"@, JsonView::Arr(seq![call])),
    )
}

/// The assistant speaks in this message.
pub open spec fn from_assistant(m: JsonView) -> bool {
    json::as_text(json::field(m, "role"@)) == Some("assistant"@)
}

/// The message with one more call at the end of its list; a message whose `tool_calls` is no list
/// stays as it is.
pub open spec fn with_call(m: JsonView, call: JsonView) -> JsonView {
    match json::field(m, "tool_calls"@) {
        None => JsonView::Obj(m->Obj_0.insert("tool_calls"@, JsonView::Arr(seq![call]))),
        Some(JsonView::Arr(calls)) => JsonView::Obj(
            m->Obj_0.insert("tool_calls"@, JsonView::Arr(calls.push(call))),
        ),
        Some(_) => m,
    }
}

/// The messages after one more call: it joins the last message where the assistant speaks there,
/// and else makes a message of its own.
pub open spec fn after_call(messages: Seq<JsonView>, call: JsonView) -> Seq<JsonView> {
    if messages.len() > 0 && from_assistant(messages.last()) {
        messages.drop_last().push(with_call(messages.last(), call))
    } else {
        messages.push(calling_message(call))
    }
}

/// The texts of the members `text` of the parts that have one, in order.
pub open spec fn output_texts(parts: Seq<JsonView>) -> Seq<Seq<char>>
    decreases parts.len(),
{
    if parts.len() == 0 {
        Seq::empty()
    } else {
        match json::as_text(json::field(parts.last(), "text"@)) {
            Some(t) => output_texts(parts.drop_last()).push(t),
            None => output_texts(parts.drop_last()),
        }
    }
}

/// The output of a tool as one text.
pub open spec fn output_text(output: Option<JsonView>) -> Seq<char> {
    match output {
        Some(JsonView::Str(s)) => s,
        Some(JsonView::Arr(parts)) => text::joined(output_texts(parts), "\n"@),
        Some(JsonView::Null) => Seq::empty(),
        None => Seq::empty(),
        Some(other) => json::written(other),
    }
}

/// A chat message with the output of a tool.
pub open spec fn tool_message(call_id: Seq<char>, output: Seq<char>) -> JsonView {
    JsonView::Obj(
        Map::<Seq<char>, JsonView>::empty().insert("role"@, JsonView::Str("tool"@)).insert(
            "tool_call_id"@,
            JsonView::Str(call_id),
        ).insert("content"@, JsonView::Str(output)),
    )
}

/// Chat Completions requires tool calls to live on an assistant message;
/// merges consecutive calls (and a preceding assistant text) into one message.
pub fn push_tool_call(messages: &mut Vec<Json>, call_id: &str, name: &str, args: String)
    ensures
        json::list_view(final(messages)@) == after_call(
            json::list_view(old(messages)@),
            tool_call(call_id@, name@, args@),
        ),
{
    let function = Object::new().insert("name", json::string(name)).insert(
        "arguments",
        Json::Str(args),
    );
    let call = json::object(
        Object::new().insert("id", json::string(call_id)).insert(
            "type",
            json::string("function"),
        ).insert("function", json::object(function)),
    );
    let ghost was = messages@;
    let n: usize = messages.len();
    let joins = n > 0 && match messages[n - 1].get_text("role") {
        Some(role) => text::same_text(role, "assistant"),
        None => false,
    };
    assert(joins == (was.len() > 0 && from_assistant(json::list_view(was).last())));
    if joins {
        let last = messages.pop();
        assert(json::list_view(messages@) =~= json::list_view(was).drop_last());
        let ghost rest = messages@;
        if let Some(Json::Obj(o)) = last {
            let calls = match o.get("tool_calls") {
                None => Some(Vec::new()),
                Some(Json::Arr(list)) => Some(json::copy_list(list)),
                Some(_) => None,
            };
            match calls {
                Some(mut list) => {
                    let ghost earlier = list@;
                    list.push(call);
                    proof {
                        json::list_view_push(earlier, call);
                        assert(json::list_view(Seq::<Json>::empty()) =~= Seq::<JsonView>::empty());
                        assert(Seq::<JsonView>::empty().push(call@) =~= seq![call@]);
                    }
                    messages.push(json::object(o.insert("tool_calls", json::array(list))));
                },
                None => {
                    messages.push(Json::Obj(o));
                },
            }
            proof {
                json::list_view_push(rest, messages@.last());
            }
        }
    } else {
        let mut list: Vec<Json> = Vec::new();
        list.push(call);
        assert(json::list_view(list@) =~= seq![call@]);
        let m = Object::new().insert("role", json::string("assistant")).insert(
            "content",
            Json::Null,
        ).insert("tool_calls", json::array(list));
        messages.push(json::object(m));
        proof {
            json::list_view_push(was, messages@.last());
        }
    }
}

/// Writes the output of a tool as one text.
pub fn tool_output_to_string(output: Option<&Json>) -> (r: String)
    ensures
        r@ == output_text(json::value_of(output)),
{
    match output {
        Some(Json::Str(s)) => s.clone(),
        Some(Json::Arr(parts)) => {
            let ghost all = json::list_view(parts@);
            let mut words: Vec<String> = Vec::new();
            let mut i: usize = 0;
            while i < parts.len()
                invariant
                    i <= parts.len(),
                    all == json::list_view(parts@),
                    text::texts(words@) == output_texts(all.take(i as int)),
                decreases parts.len() - i,
            {
                let ghost said = words@;
                proof {
                    assert(all.take(i + 1).drop_last() =~= all.take(i as int));
                    assert(all.take(i + 1).last() == parts@[i as int]@);
                }
                match parts[i].get_text("text") {
                    Some(t) => {
                        words.push(t.to_owned());
                        assert(text::texts(words@) =~= text::texts(said).push(t@));
                    },
                    None => {},
                }
                i += 1;
            }
            assert(all.take(i as int) =~= all);
            text::join(words.as_slice(), "\n")
        },
        Some(Json::Null) => String::new(),
        None => String::new(),
        Some(other) => json::to_text(other),
    }
}

// ---------------------------------------------------------------------------
// Input items
// ---------------------------------------------------------------------------

/// The type of an input item; one without a type that has a role is a message.
pub open spec fn item_kind(item: JsonView) -> Seq<char> {
    match json::as_text(json::field(item, "type"@)) {
        Some(kind) => kind,
        None => if json::field(item, "role"@) is Some {
            "message"@
        } else {
            Seq::empty()
        },
    }
}

/// The chat role of a message item.
pub open spec fn chat_role(item: JsonView) -> Seq<char> {
    match json::as_text(json::field(item, "role"@)) {
        Some(role) => if role == "developer"@ || role == "system"@ {
            "system"@
        } else if role == "assistant"@ {
            "assistant"@
        } else {
            "user"@
        },
        None => "user"@,
    }
}

/// The arguments of a function call; blank ones stand for no arguments.
pub open spec fn call_arguments(arguments: Seq<char>) -> Seq<char> {
    if text::blank(arguments) {
        "{}"@
    } else {
        arguments
    }
}

/// The arguments that stand for the raw input of a custom tool.
pub open spec fn wrapped_input(input: Seq<char>) -> JsonView {
    JsonView::Obj(Map::<Seq<char>, JsonView>::empty().insert("input"@, JsonView::Str(input)))
}

/// The call that an item asks for, if it asks for one.
pub open spec fn item_call(item: JsonView) -> Option<JsonView> {
    let kind = item_kind(item);
    if kind == "function_call"@ {
        Some(
            tool_call(
                json::text_field(item, "call_id"@),
                json::text_field(item, "name"@),
                call_arguments(json::text_field(item, "arguments"@)),
            ),
        )
    } else if kind == "custom_tool_call"@ {
        Some(
            tool_call(
                json::text_field(item, "call_id"@),
                json::text_field(item, "name"@),
                json::written(wrapped_input(json::text_field(item, "input"@))),
            ),
        )
    } else {
        None
    }
}

/// The message that an item makes, if it makes one of its own.
pub open spec fn item_message(item: JsonView) -> Option<JsonView> {
    let kind = item_kind(item);
    if kind == "message"@ {
        Some(
            message(
                chat_role(item),
                content(json::field(item, "content"@), chat_role(item)),
            ),
        )
    } else if kind == "function_call_output"@ || kind == "custom_tool_call_output"@ {
        Some(
            tool_message(
                json::text_field(item, "call_id"@),
                output_text(json::field(item, "output"@)),
            ),
        )
    } else {
        None
    }
}

/// The messages after one more item. Reasoning cannot be replayed to a chat backend, and items of
/// other types have no form there: they change nothing.
pub open spec fn after_item(messages: Seq<JsonView>, item: JsonView) -> Seq<JsonView> {
    match (item_message(item), item_call(item)) {
        (Some(m), _) => messages.push(m),
        (None, Some(call)) => after_call(messages, call),
        (None, None) => messages,
    }
}

/// The messages after all the items.
pub open spec fn after_items(messages: Seq<JsonView>, items: Seq<JsonView>) -> Seq<JsonView>
    decreases items.len(),
{
    if items.len() == 0 {
        messages
    } else {
        after_item(after_items(messages, items.drop_last()), items.last())
    }
}

/// The arguments that were written for a custom tool read back as its input.
pub open spec fn input_survives(item: JsonView) -> bool {
    item_kind(item) == "custom_tool_call"@ ==> {
        let wrapped = wrapped_input(json::text_field(item, "input"@));
        json::read_text(json::written(wrapped)) == Some(wrapped)
    }
}

/// Writes the raw input of a custom tool as arguments.
pub fn custom_arguments(input: &str) -> (r: String)
    ensures
        r@ == json::written(wrapped_input(input@)),
        json::read_text(r@) == Some(wrapped_input(input@)),
{
    let wrapped = json::object(Object::new().insert("input", json::string(input)));
    assert(wrapped@->Obj_0.dom() =~= set!["input"@]);
    json::to_text(&wrapped)
}

/// The types of items that are read are all different.
pub proof fn item_kinds_differ()
    ensures
        "message"@.len() == 7,
        "reasoning"@.len() == 9,
        "function_call"@.len() == 13,
        "custom_tool_call"@.len() == 16,
        "function_call_output"@.len() == 20,
        "custom_tool_call_output"@.len() == 23,
{
    reveal_strlit("message");
    reveal_strlit("reasoning");
    reveal_strlit("function_call");
    reveal_strlit("custom_tool_call");
    reveal_strlit("function_call_output");
    reveal_strlit("custom_tool_call_output");
}

/// An item makes a message or a call, not both.
pub proof fn message_or_call(item: JsonView)
    ensures
        item_message(item) is None || item_call(item) is None,
{
    item_kinds_differ();
}

fn kind_of(item: &Json) -> (r: &str)
    ensures
        r@ == item_kind(item@),
{
    match item.get_text("type") {
        Some(t) => t,
        None => if item.get("role").is_some() {
            "message"
        } else {
            proof {
                reveal_strlit("");
                assert(""@ =~= Seq::<char>::empty());
            }
            ""
        },
    }
}

/// Converts one input item.
pub fn convert_input_item(item: &Json, messages: &mut Vec<Json>)
    ensures
        json::list_view(final(messages)@) == after_item(json::list_view(old(messages)@), item@),
        input_survives(item@),
{
    let kind = kind_of(item);
    proof {
        item_kinds_differ();
    }
    let ghost was = messages@;
    if text::same_text(kind, "message") {
        let role = match item.get_text("role") {
            Some(r) => if text::same_text(r, "developer") || text::same_text(r, "system") {
                "system"
            } else if text::same_text(r, "assistant") {
                "assistant"
            } else {
                "user"
            },
            None => "user",
        };
        let content = convert_message_content(item.get("content"), role);
        messages.push(chat_message(role, content));
        proof {
            json::list_view_push(was, messages@.last());
        }
    } else if text::same_text(kind, "function_call") {
        let arguments = item.text_or_empty("arguments");
        let arguments = if text::is_blank(arguments) {
            "{}"
        } else {
            arguments
        };
        push_tool_call(
            messages,
            item.text_or_empty("call_id"),
            item.text_or_empty("name"),
            arguments.to_owned(),
        );
    } else if text::same_text(kind, "custom_tool_call") {
        push_tool_call(
            messages,
            item.text_or_empty("call_id"),
            item.text_or_empty("name"),
            custom_arguments(item.text_or_empty("input")),
        );
    } else if text::same_text(kind, "function_call_output") || text::same_text(
        kind,
        "custom_tool_call_output",
    ) {
        let m = Object::new().insert("role", json::string("tool")).insert(
            "tool_call_id",
            json::string(item.text_or_empty("call_id")),
        ).insert("content", Json::Str(tool_output_to_string(item.get("output"))));
        messages.push(json::object(m));
        proof {
            json::list_view_push(was, messages@.last());
        }
    }
}

/// What is to be noted of an item.
pub open spec fn item_remarks(item: JsonView) -> Seq<RemarkView> {
    let kind = item_kind(item);
    if kind == "message"@ {
        part_remarks(json::as_items(json::field(item, "content"@)))
    } else if item_message(item) is Some || item_call(item) is Some || kind == "reasoning"@ {
        Seq::empty()
    } else {
        seq![RemarkView::ItemSkipped(kind)]
    }
}

/// What is to be noted of the items, in order.
pub open spec fn items_remarks(items: Seq<JsonView>) -> Seq<RemarkView>
    decreases items.len(),
{
    if items.len() == 0 {
        Seq::empty()
    } else {
        items_remarks(items.drop_last()) + item_remarks(items.last())
    }
}

fn note_item(item: &Json, remarks: &mut Vec<Remark>)
    ensures
        remarked(final(remarks)@) == remarked(old(remarks)@) + item_remarks(item@),
{
    let ghost was = remarks@;
    let kind = kind_of(item);
    proof {
        item_kinds_differ();
    }
    if text::same_text(kind, "message") {
        match item.get("content") {
            Some(Json::Arr(parts)) => note_parts(parts, remarks),
            _ => {},
        }
    } else if !(text::same_text(kind, "function_call") || text::same_text(kind, "custom_tool_call")
        || text::same_text(kind, "function_call_output") || text::same_text(
        kind,
        "custom_tool_call_output",
    ) || text::same_text(kind, "reasoning")) {
        remarks.push(Remark::ItemSkipped(kind.to_owned()));
    }
    assert(remarked(remarks@) =~= remarked(was) + item_remarks(item@));
}

/// Lists what is to be noted of the input: what has no form in the chat API, in order.
pub fn note_input(input: Option<&Json>) -> (r: Vec<Remark>)
    ensures
        remarked(r@) == items_remarks(json::as_items(json::value_of(input))),
{
    let mut remarks: Vec<Remark> = Vec::new();
    assert(remarked(remarks@) =~= Seq::<RemarkView>::empty());
    if let Some(Json::Arr(items)) = input {
        let ghost all = json::list_view(items@);
        let mut i: usize = 0;
        while i < items.len()
            invariant
                i <= items.len(),
                all == json::list_view(items@),
                remarked(remarks@) == items_remarks(all.take(i as int)),
            decreases items.len() - i,
        {
            proof {
                assert(all.take(i + 1).drop_last() =~= all.take(i as int));
                assert(all.take(i + 1).last() == items@[i as int]@);
            }
            note_item(&items[i], &mut remarks);
            i += 1;
        }
        assert(all.take(i as int) =~= all);
    }
    remarks
}

} // verus!
