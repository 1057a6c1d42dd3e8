//! The tools of a Responses request as chat tools.

use vstd::hash_set::StringHashSet;
use vstd::prelude::*;

use crate::json;
use crate::json::{Json, JsonView, Object};
use crate::text;

verus! {

/// The parameters of a function that takes none.
pub open spec fn no_parameters() -> JsonView {
    JsonView::Obj(
        Map::<Seq<char>, JsonView>::empty().insert("type"@, JsonView::Str("object"@)).insert(
            "properties"@,
            JsonView::Obj(Map::empty()),
        ),
    )
}

/// A chat tool around the description of a function.
pub open spec fn function_tool(function: Map<Seq<char>, JsonView>) -> JsonView {
    JsonView::Obj(
        Map::<Seq<char>, JsonView>::empty().insert("type"@, JsonView::Str("function"@)).insert(
            "function"@,
            JsonView::Obj(function),
        ),
    )
}

/// The description of a function tool.
pub open spec fn function_of(tool: JsonView) -> Map<Seq<char>, JsonView> {
    let named = Map::<Seq<char>, JsonView>::empty().insert(
        "name"@,
        JsonView::Str(json::text_field(tool, "name"@)),
    );
    let described = json::put(named, "description"@, json::field(tool, "description"@)).insert(
        "parameters"@,
        json::value_or(json::field(tool, "parameters"@), no_parameters()),
    );
    json::put(described, "strict"@, json::present(json::field(tool, "strict"@)))
}

/// What a custom tool says of itself, with the grammar of its input where it gives one.
pub open spec fn custom_description(tool: JsonView) -> Seq<char> {
    let said = json::text_field(tool, "description"@);
    match json::as_text(json::field2(tool, "format"@, "definition"@)) {
        Some(definition) => said
            + "\n\nThe `input` argument must be raw text following this "@ + text::or(
            json::as_text(json::field2(tool, "format"@, "syntax"@)),
            "grammar"@,
        ) + " grammar:\n"@ + definition,
        None => said,
    }
}

/// The parameters of every custom tool: one string, the raw input.
pub open spec fn input_parameter() -> JsonView {
    JsonView::Obj(
        Map::<Seq<char>, JsonView>::empty().insert("type"@, JsonView::Str("object"@)).insert(
            "properties"@,
            JsonView::Obj(
                Map::<Seq<char>, JsonView>::empty().insert(
                    "input"@,
                    JsonView::Obj(
                        Map::<Seq<char>, JsonView>::empty().insert(
                            "type"@,
                            JsonView::Str("string"@),
                        ).insert("description"@, JsonView::Str("Raw tool input"@)),
                    ),
                ),
            ),
        ).insert("required"@, JsonView::Arr(seq![JsonView::Str("input"@)])),
    )
}

/// A custom tool as a function of its raw input.
pub open spec fn custom_of(tool: JsonView) -> Map<Seq<char>, JsonView> {
    Map::<Seq<char>, JsonView>::empty().insert(
        "name"@,
        JsonView::Str(json::text_field(tool, "name"@)),
    ).insert("description"@, JsonView::Str(custom_description(tool))).insert(
        "parameters"@,
        input_parameter(),
    )
}

/// A tool as the chat API has it; `None` for one that it has no form for.
pub open spec fn chat_tool(tool: JsonView) -> Option<JsonView> {
    let kind = json::text_field(tool, "type"@);
    if kind == "function"@ {
        Some(function_tool(function_of(tool)))
    } else if kind == "custom"@ {
        Some(function_tool(custom_of(tool)))
    } else {
        None
    }
}

/// How a tool is named that the chat API has no form for: its type, and its name if it has one.
pub open spec fn dropped_label(tool: JsonView) -> Seq<char> {
    let kind = json::text_field(tool, "type"@);
    let name = json::text_field(tool, "name"@);
    if name.len() == 0 {
        kind
    } else {
        kind + ":"@ + name
    }
}

/// The tools that the chat API has a form for, in order.
pub open spec fn chat_tools(tools: Seq<JsonView>) -> Seq<JsonView>
    decreases tools.len(),
{
    if tools.len() == 0 {
        Seq::empty()
    } else {
        match chat_tool(tools.last()) {
            Some(t) => chat_tools(tools.drop_last()).push(t),
            None => chat_tools(tools.drop_last()),
        }
    }
}

/// The labels of the tools that it has none for, in order.
pub open spec fn dropped_labels(tools: Seq<JsonView>) -> Seq<Seq<char>>
    decreases tools.len(),
{
    if tools.len() == 0 {
        Seq::empty()
    } else if chat_tool(tools.last()) is None {
        dropped_labels(tools.drop_last()).push(dropped_label(tools.last()))
    } else {
        dropped_labels(tools.drop_last())
    }
}

/// The names of the custom tools.
pub open spec fn custom_names(tools: Seq<JsonView>) -> Set<Seq<char>>
    decreases tools.len(),
{
    if tools.len() == 0 {
        Set::empty()
    } else if json::text_field(tools.last(), "type"@) == "custom"@ {
        custom_names(tools.drop_last()).insert(json::text_field(tools.last(), "name"@))
    } else {
        custom_names(tools.drop_last())
    }
}

/// The chat form of a `tool_choice`: a function by name, `auto` for any other object, and what is
/// no object as it is.
pub open spec fn chat_tool_choice(choice: JsonView) -> JsonView {
    match choice {
        JsonView::Obj(_) => if json::as_text(json::field(choice, "type"@)) == Some("function"@) {
            function_tool(
                Map::<Seq<char>, JsonView>::empty().insert(
                    "name"@,
                    json::value_or(json::field(choice, "name"@), JsonView::Null),
                ),
            )
        } else {
            JsonView::Str("auto"@)
        },
        _ => choice,
    }
}

/// The tools of a request, sorted by what becomes of them.
pub struct Toolbox {
    pub tools: Vec<Json>,
    pub custom: StringHashSet,
    pub dropped: Vec<String>,
}

fn wrap_function(function: Object) -> (r: Json)
    ensures
        r@ == function_tool(function@),
{
    json::object(
        Object::new().insert("type", json::string("function")).insert(
            "function",
            json::object(function),
        ),
    )
}

fn convert_function(tool: &Json) -> (r: Json)
    ensures
        r@ == function_tool(function_of(tool@)),
{
    let parameters = match tool.get("parameters") {
        Some(p) => p.clone(),
        None => json::object(
            Object::new().insert("type", json::string("object")).insert(
                "properties",
                json::object(Object::new()),
            ),
        ),
    };
    let f = Object::new().insert("name", json::string(tool.text_or_empty("name")));
    let f = f.put("description", tool.get("description")).insert("parameters", parameters);
    wrap_function(f.put("strict", tool.get_present("strict")))
}

fn describe_custom(tool: &Json) -> (r: String)
    ensures
        r@ == custom_description(tool@),
{
    let mut said = tool.text_or_empty("description").to_owned();
    if let Some(Json::Str(definition)) = tool.get2("format", "definition") {
        said.append("\n\nThe `input` argument must be raw text following this ");
        match tool.get2("format", "syntax") {
            Some(Json::Str(syntax)) => {
                said.append(syntax.as_str());
            },
            _ => {
                said.append("grammar");
            },
        }
        said.append(" grammar:\n");
        said.append(definition.as_str());
    }
    said
}

fn convert_custom(tool: &Json) -> (r: Json)
    ensures
        r@ == function_tool(custom_of(tool@)),
{
    let input = Object::new().insert("type", json::string("string")).insert(
        "description",
        json::string("Raw tool input"),
    );
    let mut required: Vec<Json> = Vec::new();
    required.push(json::string("input"));
    assert(json::list_view(required@) =~= seq![JsonView::Str("input"@)]);
    let parameters = Object::new().insert("type", json::string("object")).insert(
        "properties",
        json::object(Object::new().insert("input", json::object(input))),
    ).insert("required", json::array(required));
    wrap_function(
        Object::new().insert("name", json::string(tool.text_or_empty("name"))).insert(
            "description",
            Json::Str(describe_custom(tool)),
        ).insert("parameters", json::object(parameters)),
    )
}

/// Converts the `tools` of a request; what is no array holds no tools.
pub fn convert_tools(tools: Option<&Json>) -> (r: Toolbox)
    ensures
        json::list_view(r.tools@) == chat_tools(json::as_items(json::value_of(tools))),
        r.custom@ == custom_names(json::as_items(json::value_of(tools))),
        text::texts(r.dropped@) == dropped_labels(json::as_items(json::value_of(tools))),
{
    let mut out: Vec<Json> = Vec::new();
    let mut custom = StringHashSet::new();
    let mut dropped: Vec<String> = Vec::new();
    proof {
        assert(json::list_view(out@) =~= Seq::<JsonView>::empty());
        assert(text::texts(dropped@) =~= Seq::<Seq<char>>::empty());
    }
    if let Some(Json::Arr(list)) = tools {
        let ghost all = json::list_view(list@);
        let mut i: usize = 0;
        while i < list.len()
            invariant
                i <= list.len(),
                all == json::list_view(list@),
                json::list_view(out@) == chat_tools(all.take(i as int)),
                custom@ == custom_names(all.take(i as int)),
                text::texts(dropped@) == dropped_labels(all.take(i as int)),
            decreases list.len() - i,
        {
            let tool = &list[i];
            let ghost was = out@;
            let ghost labels = dropped@;
            proof {
                assert(all.take(i + 1).drop_last() =~= all.take(i as int));
                assert(all.take(i + 1).last() == tool@);
                reveal_strlit("function");
                reveal_strlit("custom");
                assert("function"@.len() == 8 && "custom"@.len() == 6);
            }
            let kind = tool.text_or_empty("type");
            let name = tool.text_or_empty("name");
            if text::same_text(kind, "function") {
                out.push(convert_function(tool));
                proof {
                    json::list_view_push(was, out@.last());
                }
            } else if text::same_text(kind, "custom") {
                let _ = custom.insert(name.to_owned());
                out.push(convert_custom(tool));
                proof {
                    json::list_view_push(was, out@.last());
                }
            } else {
                let mut label = kind.to_owned();
                if !name.is_empty() {
                    label.append(":");
                    label.append(name);
                }
                dropped.push(label);
                assert(text::texts(dropped@) =~= text::texts(labels).push(label@));
            }
            i += 1;
        }
        assert(all.take(i as int) =~= all);
    }
    Toolbox { tools: out, custom, dropped }
}

/// Converts a `tool_choice`.
pub fn convert_tool_choice(tc: &Json) -> (r: Json)
    ensures
        r@ == chat_tool_choice(tc@),
{
    match tc {
        Json::Obj(_) => {
            let names_function = match tc.get_text("type") {
                Some(kind) => text::same_text(kind, "function"),
                None => false,
            };
            if names_function {
                let name = match tc.get("name") {
                    Some(n) => n.clone(),
                    None => Json::Null,
                };
                wrap_function(Object::new().insert("name", name))
            } else {
                json::string("auto")
            }
        },
        other => other.clone(),
    }
}

} // verus!
