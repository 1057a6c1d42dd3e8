//! What holds of the tools and of the body of a chat request.

use vstd::prelude::*;

use crate::convert::laws::history;
use crate::convert::messages;
use crate::convert::request;
use crate::convert::tools;
use crate::json;
use crate::json::JsonView;

verus! {

proof fn names_differ()
    ensures
        "function"@ != "custom"@ && "function"@.len() > 0 && "custom"@.len() > 0,
        "type"@ != "function"@ && "type"@ != "properties"@ && "type"@ != "required"@,
        "properties"@ != "required"@,
        "name"@ != "description"@ && "name"@ != "parameters"@ && "name"@ != "strict"@,
        "description"@ != "parameters"@ && "description"@ != "strict"@,
        "parameters"@ != "strict"@,
        "type"@ != "description"@ && "type"@ != "json_schema"@,
        "name"@ != "schema"@ && "schema"@ != "strict"@,
{
    reveal_strlit("function");
    reveal_strlit("custom");
    reveal_strlit("type");
    reveal_strlit("properties");
    reveal_strlit("required");
    reveal_strlit("name");
    reveal_strlit("description");
    reveal_strlit("parameters");
    reveal_strlit("strict");
    reveal_strlit("json_schema");
    reveal_strlit("schema");
    assert("function"@.len() == 8);
    assert("custom"@.len() == 6);
    assert("type"@.len() == 4);
    assert("properties"@.len() == 10);
    assert("required"@.len() == 8);
    assert("name"@.len() == 4);
    assert("description"@.len() == 11);
    assert("parameters"@.len() == 10);
    assert("strict"@.len() == 6);
    assert("json_schema"@.len() == 11);
    assert("schema"@.len() == 6);
    assert("function"@[0] == 'f');
    assert("required"@[0] == 'r');
    assert("custom"@[0] == 'c');
    assert("strict"@[0] == 's');
    assert("schema"@[0] == 's');
    assert("type"@[0] == 't');
    assert("name"@[0] == 'n');
    assert("properties"@[1] == 'r');
    assert("parameters"@[1] == 'a');
    assert("description"@[0] == 'd');
    assert("json_schema"@[0] == 'j');
    assert("strict"@[1] == 't');
    assert("schema"@[1] == 'c');
}

/// A tool of the type `function` is passed on with its name, its description and its parameters,
/// each whole and as it is; one without parameters gets those of an object without properties;
/// whether it is strict is passed on where it is told. Nothing else is.
pub proof fn functions_are_passed_on(tool: JsonView)
    requires
        history::tells(tool, "type"@, "function"@),
    ensures
        ({
            let made = tools::chat_tool(tool)->0;
            let function = json::value_or(json::field(made, "function"@), JsonView::Null);
            let given = json::field(tool, "parameters"@);
            &&& tools::chat_tool(tool) is Some
            &&& history::tells(made, "type"@, "function"@)
            &&& history::has_only(made, set!["type"@, "function"@])
            &&& history::tells(function, "name"@, json::text_field(tool, "name"@))
            &&& json::field(function, "description"@) == json::field(tool, "description"@)
            &&& given is Some ==> json::field(function, "parameters"@) == given
            &&& given is None ==> {
                let empty = json::value_or(json::field(function, "parameters"@), JsonView::Null);
                &&& history::tells(empty, "type"@, "object"@)
                &&& json::field(empty, "properties"@) == Some(JsonView::Obj(Map::empty()))
                &&& history::has_only(empty, set!["type"@, "properties"@])
            }
            &&& json::field(function, "strict"@) == json::present(json::field(tool, "strict"@))
            &&& function is Obj
            &&& function->Obj_0.dom().subset_of(
                set!["name"@, "description"@, "parameters"@, "strict"@],
            )
        }),
{
    names_differ();
    let made = tools::chat_tool(tool)->0;
    assert(made->Obj_0.dom() =~= set!["type"@, "function"@]);
    assert(tools::no_parameters()->Obj_0.dom() =~= set!["type"@, "properties"@]);
}

/// A tool of the type `custom` is passed on as a function with its name and what it says of itself,
/// which takes one string, the raw input, and needs it.
pub proof fn customs_are_passed_on(tool: JsonView)
    requires
        history::tells(tool, "type"@, "custom"@),
    ensures
        ({
            let made = tools::chat_tool(tool)->0;
            let function = json::value_or(json::field(made, "function"@), JsonView::Null);
            let parameters = json::value_or(json::field(function, "parameters"@), JsonView::Null);
            let properties = json::value_or(json::field(parameters, "properties"@), JsonView::Null);
            let input = json::value_or(json::field(properties, "input"@), JsonView::Null);
            &&& tools::chat_tool(tool) is Some
            &&& history::tells(made, "type"@, "function"@)
            &&& history::has_only(made, set!["type"@, "function"@])
            &&& history::tells(function, "name"@, json::text_field(tool, "name"@))
            &&& history::tells(function, "description"@, tools::custom_description(tool))
            &&& history::has_only(function, set!["name"@, "description"@, "parameters"@])
            &&& history::tells(parameters, "type"@, "object"@)
            &&& json::field(parameters, "required"@) == Some(
                JsonView::Arr(seq![JsonView::Str("input"@)]),
            )
            &&& history::has_only(parameters, set!["type"@, "properties"@, "required"@])
            &&& history::has_only(properties, set!["input"@])
            &&& history::tells(input, "type"@, "string"@)
            &&& history::tells(input, "description"@, "Raw tool input"@)
            &&& history::has_only(input, set!["type"@, "description"@])
        }),
{
    names_differ();
    let made = tools::chat_tool(tool)->0;
    let function = json::value_or(json::field(made, "function"@), JsonView::Null);
    let parameters = json::value_or(json::field(function, "parameters"@), JsonView::Null);
    let properties = json::value_or(json::field(parameters, "properties"@), JsonView::Null);
    let input = json::value_or(json::field(properties, "input"@), JsonView::Null);
    assert(made->Obj_0.dom() =~= set!["type"@, "function"@]);
    assert(function->Obj_0.dom() =~= set!["name"@, "description"@, "parameters"@]);
    assert(parameters->Obj_0.dom() =~= set!["type"@, "properties"@, "required"@]);
    assert(properties->Obj_0.dom() =~= set!["input"@]);
    assert(input->Obj_0.dom() =~= set!["type"@, "description"@]);
}

/// A custom tool says of itself what it said; where its input has a grammar, this is told behind
/// it, with its syntax and the whole of its definition.
pub proof fn grammars_are_told(tool: JsonView, definition: Seq<char>, syntax: Seq<char>)
    ensures
        ({
            let said = json::text_field(tool, "description"@);
            let told = tools::custom_description(tool);
            let grammar = json::field2(tool, "format"@, "definition"@);
            let named = json::field2(tool, "format"@, "syntax"@);
            &&& json::as_text(grammar) is None ==> told == said
            &&& grammar == Some(JsonView::Str(definition)) && named == Some(JsonView::Str(syntax))
                ==> told == said
                + "\n\nThe `input` argument must be raw text following this "@ + syntax
                + " grammar:\n"@ + definition
            &&& grammar == Some(JsonView::Str(definition)) && json::as_text(named) is None
                ==> told == said
                + "\n\nThe `input` argument must be raw text following this "@ + "grammar"@
                + " grammar:\n"@ + definition
        }),
{
}

/// A tool of another type is not passed on; it is named by its type, and by its name behind a colon
/// where it has one.
pub proof fn other_tools_are_dropped(tool: JsonView)
    requires
        !history::tells(tool, "type"@, "function"@),
        !history::tells(tool, "type"@, "custom"@),
    ensures
        tools::chat_tool(tool) is None,
        json::text_field(tool, "name"@).len() == 0 ==> tools::dropped_label(tool)
            == json::text_field(tool, "type"@),
        json::text_field(tool, "name"@).len() > 0 ==> tools::dropped_label(tool)
            == json::text_field(tool, "type"@) + seq![':'] + json::text_field(tool, "name"@),
        tools::dropped_labels(seq![tool]) == seq![tools::dropped_label(tool)],
{
    names_differ();
    reveal_strlit(":");
    assert(":"@ =~= seq![':']);
    assert(seq![tool].drop_last() =~= Seq::<JsonView>::empty());
    assert(tools::dropped_labels(seq![tool].drop_last()) =~= Seq::<Seq<char>>::empty());
}

/// The tools of two lists are those of the one and then those of the other, and so are the labels
/// of those that are dropped; the custom names are those of both. A single tool is passed on or
/// not.
pub proof fn tools_keep_their_order(a: Seq<JsonView>, b: Seq<JsonView>, tool: JsonView)
    ensures
        tools::chat_tools(a + b) == tools::chat_tools(a) + tools::chat_tools(b),
        tools::dropped_labels(a + b) == tools::dropped_labels(a) + tools::dropped_labels(b),
        tools::custom_names(a + b) == tools::custom_names(a).union(tools::custom_names(b)),
        tools::chat_tools(seq![tool]) == match tools::chat_tool(tool) {
            Some(t) => seq![t],
            None => Seq::empty(),
        },
        tools::chat_tool(tool) is Some ==> tools::dropped_labels(seq![tool]).len() == 0,
        tools::custom_names(seq![tool]) == if history::tells(tool, "type"@, "custom"@) {
            set![json::text_field(tool, "name"@)]
        } else {
            Set::empty()
        },
    decreases b.len(),
{
    names_differ();
    assert(seq![tool].drop_last() =~= Seq::<JsonView>::empty());
    assert(tools::chat_tools(seq![tool].drop_last()) =~= Seq::<JsonView>::empty());
    assert(tools::dropped_labels(seq![tool].drop_last()) =~= Seq::<Seq<char>>::empty());
    assert(tools::custom_names(seq![tool].drop_last()) =~= Set::<Seq<char>>::empty());
    assert(tools::custom_names(seq![tool]) =~= if history::tells(tool, "type"@, "custom"@) {
        set![json::text_field(tool, "name"@)]
    } else {
        Set::empty()
    });
    if b.len() == 0 {
        assert(a + b =~= a);
        assert(tools::chat_tools(a) + tools::chat_tools(b) =~= tools::chat_tools(a));
        assert(tools::dropped_labels(a) + tools::dropped_labels(b) =~= tools::dropped_labels(a));
        assert(tools::custom_names(a).union(tools::custom_names(b)) =~= tools::custom_names(a));
    } else {
        tools_keep_their_order(a, b.drop_last(), tool);
        assert((a + b).drop_last() =~= a + b.drop_last());
        assert((a + b).last() == b.last());
        assert(tools::chat_tools(a + b) =~= tools::chat_tools(a) + tools::chat_tools(b));
        assert(tools::dropped_labels(a + b) =~= tools::dropped_labels(a) + tools::dropped_labels(
            b,
        ));
        assert(tools::custom_names(a + b) =~= tools::custom_names(a).union(
            tools::custom_names(b),
        ));
    }
}

/// A choice of a function is passed on with the name of the function; another object asks for any
/// tool or none; what is no object is passed on as it is.
pub proof fn choices_are_passed_on(choice: JsonView, s: Seq<char>)
    ensures
        choice is Obj && history::tells(choice, "type"@, "function"@) ==> {
            let made = tools::chat_tool_choice(choice);
            let function = json::value_or(json::field(made, "function"@), JsonView::Null);
            &&& history::tells(made, "type"@, "function"@)
            &&& history::has_only(made, set!["type"@, "function"@])
            &&& history::has_only(function, set!["name"@])
            &&& history::tells(choice, "name"@, s) ==> history::tells(function, "name"@, s)
            &&& json::field(choice, "name"@) is None ==> json::field(function, "name"@) == Some(
                JsonView::Null,
            )
        },
        choice is Obj && !history::tells(choice, "type"@, "function"@) ==> tools::chat_tool_choice(
            choice,
        ) == JsonView::Str("auto"@),
        !(choice is Obj) ==> tools::chat_tool_choice(choice) == choice,
{
    names_differ();
    if choice is Obj && history::tells(choice, "type"@, "function"@) {
        let made = tools::chat_tool_choice(choice);
        let function = json::value_or(json::field(made, "function"@), JsonView::Null);
        assert(made->Obj_0.dom() =~= set!["type"@, "function"@]);
        assert(function->Obj_0.dom() =~= set!["name"@]);
    }
}

/// The messages begin with the instructions as the system's, where there are any; an input that is
/// a text is a message of the user's, whole and as it is; the items of a list follow one by one.
pub proof fn messages_of_a_request(req: JsonView, s: Seq<char>)
    ensures
        ({
            let told = json::text_field(req, "instructions"@);
            let opening = if told.len() > 0 {
                seq![messages::message("system"@, JsonView::Str(told))]
            } else {
                Seq::empty()
            };
            let input = json::field(req, "input"@);
            &&& input == Some(JsonView::Str(s)) ==> request::chat_messages(req) == opening.push(
                messages::message("user"@, JsonView::Str(s)),
            )
            &&& input is Some && input->0 is Arr ==> request::chat_messages(req)
                == messages::after_items(opening, input->0->Arr_0)
            &&& input is None || !(input->0 is Arr || input->0 is Str)
                ==> request::chat_messages(req) == opening
        }),
{
}

/// A message has its role and its content, and nothing else.
pub proof fn messages_are_written(role: Seq<char>, content: JsonView)
    ensures
        history::tells(messages::message(role, content), "role"@, role),
        json::field(messages::message(role, content), "content"@) == Some(content),
        history::has_only(messages::message(role, content), set!["role"@, "content"@]),
{
    reveal_strlit("role");
    reveal_strlit("content");
    assert("role"@.len() == 4 && "content"@.len() == 7);
    assert(messages::message(role, content)->Obj_0.dom() =~= set!["role"@, "content"@]);
}

/// A format after a schema is passed on with its name, its schema and whether it is strict, each as
/// it is, with a name, an empty schema and no strictness where they are not told; another format
/// is not passed on.
pub proof fn formats_are_passed_on(req: JsonView)
    ensures
        ({
            let format = json::field2(req, "text"@, "format"@);
            let wanted = format is Some && history::tells(format->0, "type"@, "json_schema"@);
            let made = request::response_format(req);
            &&& !wanted ==> made is None
            &&& wanted ==> {
                let schema = json::value_or(json::field(made->0, "json_schema"@), JsonView::Null);
                &&& made is Some
                &&& history::tells(made->0, "type"@, "json_schema"@)
                &&& history::has_only(made->0, set!["type"@, "json_schema"@])
                &&& history::has_only(schema, set!["name"@, "schema"@, "strict"@])
                &&& json::field(format->0, "name"@) is Some ==> json::field(schema, "name"@)
                    == json::field(format->0, "name"@)
                &&& json::field(format->0, "name"@) is None ==> history::tells(
                    schema,
                    "name"@,
                    "output"@,
                )
                &&& json::field(format->0, "schema"@) is Some ==> json::field(schema, "schema"@)
                    == json::field(format->0, "schema"@)
                &&& json::field(format->0, "schema"@) is None ==> json::field(schema, "schema"@)
                    == Some(JsonView::Obj(Map::empty()))
                &&& json::field(format->0, "strict"@) is Some ==> json::field(schema, "strict"@)
                    == json::field(format->0, "strict"@)
                &&& json::field(format->0, "strict"@) is None ==> json::field(schema, "strict"@)
                    == Some(JsonView::Bool(false))
            }
        }),
{
    names_differ();
    let format = json::field2(req, "text"@, "format"@);
    if format is Some && history::tells(format->0, "type"@, "json_schema"@) {
        let made = request::response_format(req)->0;
        let schema = json::value_or(json::field(made, "json_schema"@), JsonView::Null);
        assert(made->Obj_0.dom() =~= set!["type"@, "json_schema"@]);
        assert(schema->Obj_0.dom() =~= set!["name"@, "schema"@, "strict"@]);
    }
}

/// With tools, the choice among them and whether several may be called at once are passed on where
/// they are told; the format is, and so is that a stream is to end with the usage.
pub proof fn body_follows_the_request(req: JsonView, stream: bool)
    ensures
        ({
            let body = JsonView::Obj(request::chat_body(req, stream));
            let passed = tools::chat_tools(json::as_items(json::field(req, "tools"@)));
            let choice = json::present(json::field(req, "tool_choice"@));
            &&& passed.len() > 0 ==> json::field(body, "tools"@) == Some(JsonView::Arr(passed))
            &&& passed.len() > 0 && choice is Some ==> json::field(body, "tool_choice"@) == Some(
                tools::chat_tool_choice(choice->0),
            )
            &&& choice is None ==> json::field(body, "tool_choice"@) is None
            &&& passed.len() > 0 ==> json::field(body, "parallel_tool_calls"@) == json::present(
                json::field(req, "parallel_tool_calls"@),
            )
            &&& json::field(body, "response_format"@) == request::response_format(req)
            &&& stream ==> json::field2(body, "stream_options"@, "include_usage"@) == Some(
                JsonView::Bool(true),
            ) && history::has_only(
                json::field(body, "stream_options"@)->0,
                set!["include_usage"@],
            )
        }),
{
    reveal_strlit("model");
    reveal_strlit("messages");
    reveal_strlit("stream");
    reveal_strlit("stream_options");
    reveal_strlit("temperature");
    reveal_strlit("top_p");
    reveal_strlit("user");
    reveal_strlit("max_tokens");
    reveal_strlit("reasoning_effort");
    reveal_strlit("response_format");
    reveal_strlit("tools");
    reveal_strlit("tool_choice");
    reveal_strlit("parallel_tool_calls");
    assert("model"@.len() == 5);
    assert("messages"@.len() == 8);
    assert("stream"@.len() == 6);
    assert("stream_options"@.len() == 14);
    assert("temperature"@.len() == 11);
    assert("top_p"@.len() == 5);
    assert("user"@.len() == 4);
    assert("max_tokens"@.len() == 10);
    assert("reasoning_effort"@.len() == 16);
    assert("response_format"@.len() == 15);
    assert("tools"@.len() == 5);
    assert("tool_choice"@.len() == 11);
    assert("parallel_tool_calls"@.len() == 19);
    assert("model"@[0] == 'm');
    assert("top_p"@[0] == 't');
    assert("tools"@[0] == 't');
    assert("temperature"@[1] == 'e');
    assert("tool_choice"@[1] == 'o');
    assert("top_p"@[2] == 'p');
    assert("tools"@[2] == 'o');
    if stream {
        assert(request::stream_options(true)->0->Obj_0.dom() =~= set!["include_usage"@]);
    }
}

} // verus!
