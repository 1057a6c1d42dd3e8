//! What holds of the items of an input, one by one.

use vstd::prelude::*;

use crate::convert::messages;
use crate::json;
use crate::json::JsonView;
use crate::laws::texts;
use crate::text;

verus! {

/// The member of that name is that text.
pub open spec fn tells(v: JsonView, name: Seq<char>, words: Seq<char>) -> bool {
    json::field(v, name) == Some(JsonView::Str(words))
}

/// The value is an object that has those members and no others.
pub open spec fn has_only(v: JsonView, names: Set<Seq<char>>) -> bool {
    v is Obj && v->Obj_0.dom() == names
}

proof fn names_differ()
    ensures
        "role"@ != "content"@ && "role"@ != "tool_calls"@ && "content"@ != "tool_calls"@,
        "role"@ != "tool_call_id"@ && "content"@ != "tool_call_id"@,
        "id"@ != "type"@ && "id"@ != "function"@ && "type"@ != "function"@,
        "name"@ != "arguments"@,
        "developer"@ != "assistant"@ && "system"@ != "assistant"@ && "user"@ != "assistant"@,
        "tool"@ != "assistant"@ && "user"@ != "developer"@ && "user"@ != "system"@,
        "message"@.len() > 0 && "reasoning"@.len() > 0,
{
    reveal_strlit("role");
    reveal_strlit("content");
    reveal_strlit("tool_calls");
    reveal_strlit("tool_call_id");
    reveal_strlit("id");
    reveal_strlit("type");
    reveal_strlit("function");
    reveal_strlit("name");
    reveal_strlit("arguments");
    reveal_strlit("developer");
    reveal_strlit("assistant");
    reveal_strlit("system");
    reveal_strlit("user");
    reveal_strlit("tool");
    reveal_strlit("message");
    reveal_strlit("reasoning");
    assert("role"@.len() == 4);
    assert("content"@.len() == 7);
    assert("tool_calls"@.len() == 10);
    assert("tool_call_id"@.len() == 12);
    assert("id"@.len() == 2);
    assert("type"@.len() == 4);
    assert("function"@.len() == 8);
    assert("name"@.len() == 4);
    assert("arguments"@.len() == 9);
    assert("developer"@.len() == 9);
    assert("assistant"@.len() == 9);
    assert("system"@.len() == 6);
    assert("user"@.len() == 4);
    assert("tool"@.len() == 4);
    assert("message"@.len() == 7);
    assert("reasoning"@.len() == 9);
    assert("role"@[0] == 'r');
    assert("type"@[0] == 't');
    assert("name"@[0] == 'n');
    assert("user"@[0] == 'u');
    assert("tool"@[0] == 't');
    assert("content"@[0] == 'c');
    assert("message"@[0] == 'm');
    assert("type"@[1] == 'y');
    assert("tool"@[1] == 'o');
    assert("arguments"@[0] == 'a');
    assert("developer"@[0] == 'd');
    assert("arguments"@[1] == 'r');
    assert("assistant"@[1] == 's');
    assert("reasoning"@[0] == 'r');
    assert("assistant"@[0] == 'a');
}

/// An item is of the type that it tells; one that tells none but has a role is a message.
pub proof fn types_of_items(item: JsonView, kind: Seq<char>)
    ensures
        tells(item, "type"@, kind) ==> messages::item_kind(item) == kind,
        json::as_text(json::field(item, "type"@)) is None && json::field(item, "role"@) is Some
            ==> messages::item_kind(item) == "message"@,
        json::as_text(json::field(item, "type"@)) is None && json::field(item, "role"@) is None
            ==> messages::item_kind(item).len() == 0,
{
}

/// The system and its developer speak as the system, the assistant as the assistant, and all others
/// as the user.
pub proof fn roles_of_messages(item: JsonView, role: Seq<char>)
    ensures
        tells(item, "role"@, "system"@) ==> messages::chat_role(item) == "system"@,
        tells(item, "role"@, "developer"@) ==> messages::chat_role(item) == "system"@,
        tells(item, "role"@, "assistant"@) ==> messages::chat_role(item) == "assistant"@,
        tells(item, "role"@, role) && role != "system"@ && role != "developer"@ && role
            != "assistant"@ ==> messages::chat_role(item) == "user"@,
        json::as_text(json::field(item, "role"@)) is None ==> messages::chat_role(item)
            == "user"@,
{
    names_differ();
}

/// A message adds one message behind the others, with its role and its content and nothing else.
pub proof fn message_is_added(list: Seq<JsonView>, item: JsonView, role: Seq<char>)
    requires
        messages::item_kind(item) == "message"@,
        tells(item, "role"@, role) || (role == "user"@ && json::as_text(
            json::field(item, "role"@),
        ) is None),
    ensures
        ({
            let now = messages::after_item(list, item);
            let spoken = if role == "developer"@ || role == "system"@ {
                "system"@
            } else if role == "assistant"@ {
                "assistant"@
            } else {
                "user"@
            };
            &&& now.len() == list.len() + 1
            &&& now.drop_last() == list
            &&& tells(now.last(), "role"@, spoken)
            &&& json::field(now.last(), "content"@) == Some(
                messages::content(json::field(item, "content"@), spoken),
            )
            &&& has_only(now.last(), set!["role"@, "content"@])
        }),
{
    names_differ();
    let now = messages::after_item(list, item);
    assert(now.drop_last() =~= list);
    assert(now.last()->Obj_0.dom() =~= set!["role"@, "content"@]);
}

/// A call names the function with its arguments under the identifier of the call, and nothing else.
pub proof fn calls_are_written(call_id: Seq<char>, name: Seq<char>, arguments: Seq<char>)
    ensures
        ({
            let call = messages::tool_call(call_id, name, arguments);
            let function = json::value_or(json::field(call, "function"@), JsonView::Null);
            &&& tells(call, "id"@, call_id)
            &&& tells(call, "type"@, "function"@)
            &&& tells(function, "name"@, name)
            &&& tells(function, "arguments"@, arguments)
            &&& has_only(call, set!["id"@, "type"@, "function"@])
            &&& has_only(function, set!["name"@, "arguments"@])
        }),
{
    names_differ();
    let call = messages::tool_call(call_id, name, arguments);
    let function = json::value_or(json::field(call, "function"@), JsonView::Null);
    assert(call->Obj_0.dom() =~= set!["id"@, "type"@, "function"@]);
    assert(function->Obj_0.dom() =~= set!["name"@, "arguments"@]);
}

/// A call joins the last message where the assistant speaks there, behind the calls that it has,
/// and leaves the rest of it as it is; else it makes a message of the assistant's that says
/// nothing.
pub proof fn calls_are_placed(list: Seq<JsonView>, call: JsonView)
    ensures
        ({
            let now = messages::after_call(list, call);
            let joins = list.len() > 0 && tells(list.last(), "role"@, "assistant"@);
            &&& joins ==> now.len() == list.len() && now.drop_last() == list.drop_last()
            &&& joins && json::field(list.last(), "tool_calls"@) is None ==> {
                &&& json::field(now.last(), "tool_calls"@) == Some(JsonView::Arr(seq![call]))
                &&& now.last()->Obj_0.remove("tool_calls"@) == list.last()->Obj_0
            }
            &&& joins && json::field(list.last(), "tool_calls"@) is Some && json::field(
                list.last(),
                "tool_calls"@,
            )->0 is Arr ==> {
                &&& json::field(now.last(), "tool_calls"@) == Some(
                    JsonView::Arr(
                        json::field(list.last(), "tool_calls"@)->0->Arr_0 + seq![call],
                    ),
                )
                &&& now.last()->Obj_0.remove("tool_calls"@) == list.last()->Obj_0.remove(
                    "tool_calls"@,
                )
            }
            &&& joins && json::field(list.last(), "tool_calls"@) is Some && !(json::field(
                list.last(),
                "tool_calls"@,
            )->0 is Arr) ==> now.last() == list.last()
            &&& !joins ==> {
                &&& now.len() == list.len() + 1
                &&& now.drop_last() == list
                &&& tells(now.last(), "role"@, "assistant"@)
                &&& json::field(now.last(), "content"@) == Some(JsonView::Null)
                &&& json::field(now.last(), "tool_calls"@) == Some(JsonView::Arr(seq![call]))
                &&& has_only(now.last(), set!["role"@, "content"@, "tool_calls"@])
            }
        }),
{
    names_differ();
    let now = messages::after_call(list, call);
    let joins = list.len() > 0 && tells(list.last(), "role"@, "assistant"@);
    if joins {
        let m = list.last()->Obj_0;
        assert(now.drop_last() =~= list.drop_last());
        assert(list.last() is Obj);
        if json::field(list.last(), "tool_calls"@) is None {
            assert(now.last()->Obj_0.remove("tool_calls"@) =~= m);
        } else if json::field(list.last(), "tool_calls"@)->0 is Arr {
            let calls = json::field(list.last(), "tool_calls"@)->0->Arr_0;
            assert(calls.push(call) =~= calls + seq![call]);
            assert(now.last()->Obj_0.remove("tool_calls"@) =~= m.remove("tool_calls"@));
        }
    } else {
        assert(now.drop_last() =~= list);
        assert(now.last()->Obj_0.dom() =~= set!["role"@, "content"@, "tool_calls"@]);
    }
}

/// A call of a function is replayed with its identifier, its name and its arguments, all as they
/// are; only blank arguments become those of an empty object.
pub proof fn function_calls_are_replayed(
    list: Seq<JsonView>,
    item: JsonView,
    call_id: Seq<char>,
    name: Seq<char>,
    arguments: Seq<char>,
)
    requires
        tells(item, "type"@, "function_call"@),
        json::text_field(item, "call_id"@) == call_id,
        json::text_field(item, "name"@) == name,
        json::text_field(item, "arguments"@) == arguments,
    ensures
        !text::blank(arguments) ==> messages::after_item(list, item) == messages::after_call(
            list,
            messages::tool_call(call_id, name, arguments),
        ),
        text::blank(arguments) ==> messages::after_item(list, item) == messages::after_call(
            list,
            messages::tool_call(call_id, name, "{}"@),
        ),
{
    messages::item_kinds_differ();
}

/// A call of a custom tool is replayed with its identifier, its name, and its raw input as the only
/// member of its arguments.
pub proof fn custom_calls_are_replayed(
    list: Seq<JsonView>,
    item: JsonView,
    call_id: Seq<char>,
    name: Seq<char>,
    input: Seq<char>,
)
    requires
        tells(item, "type"@, "custom_tool_call"@),
        json::text_field(item, "call_id"@) == call_id,
        json::text_field(item, "name"@) == name,
        json::text_field(item, "input"@) == input,
    ensures
        messages::after_item(list, item) == messages::after_call(
            list,
            messages::tool_call(
                call_id,
                name,
                json::written(messages::wrapped_input(input)),
            ),
        ),
        tells(messages::wrapped_input(input), "input"@, input),
        has_only(messages::wrapped_input(input), set!["input"@]),
{
    messages::item_kinds_differ();
    assert(messages::wrapped_input(input)->Obj_0.dom() =~= set!["input"@]);
}

/// That the input of a custom tool survives means that the arguments that are written for it read
/// back as an object with this input.
pub proof fn inputs_survive(item: JsonView, input: Seq<char>)
    requires
        tells(item, "type"@, "custom_tool_call"@),
        tells(item, "input"@, input),
    ensures
        messages::input_survives(item) ==> {
            let read = json::read_text(json::written(messages::wrapped_input(input)));
            &&& read is Some
            &&& tells(read->0, "input"@, input)
        },
{
}

/// The output of a tool that is a text is this text, whole, whatever its length; one that is absent
/// or null is empty; one that is neither a text nor a list is written as JSON.
pub proof fn outputs_are_kept_whole(s: Seq<char>, v: JsonView)
    ensures
        messages::output_text(Some(JsonView::Str(s))) == s,
        messages::output_text(Some(JsonView::Null)).len() == 0,
        messages::output_text(None).len() == 0,
        !(v is Str || v is Arr || v is Null) ==> messages::output_text(Some(v)) == json::written(v),
{
}

proof fn output_texts_are(parts: Seq<JsonView>, words: Seq<Seq<char>>)
    requires
        parts.len() == words.len(),
        forall|i: int|
            #![trigger parts[i]]
            0 <= i < parts.len() ==> tells(parts[i], "text"@, words[i]),
    ensures
        messages::output_texts(parts) == words,
    decreases parts.len(),
{
    if parts.len() > 0 {
        let n = parts.len() - 1;
        assert(parts.last() == parts[n]);
        assert forall|i: int| #![trigger parts.drop_last()[i]] 0 <= i < n implies tells(
            parts.drop_last()[i],
            "text"@,
            words.drop_last()[i],
        ) by {
            assert(parts.drop_last()[i] == parts[i]);
        }
        output_texts_are(parts.drop_last(), words.drop_last());
        assert(words =~= words.drop_last().push(words[n]));
    } else {
        assert(messages::output_texts(parts) =~= words);
    }
}

/// The output of a tool that is a list of texts is all of them, whole and in order, each on lines
/// of its own.
pub proof fn all_output_is_sent(parts: Seq<JsonView>, words: Seq<Seq<char>>)
    requires
        parts.len() == words.len(),
        forall|i: int|
            #![trigger parts[i]]
            0 <= i < parts.len() ==> tells(parts[i], "text"@, words[i]),
    ensures
        texts::lines(messages::output_text(Some(JsonView::Arr(parts))), words),
{
    output_texts_are(parts, words);
    texts::joined_by_line_ends(words);
}

/// The texts of two lists of parts are those of the one and then those of the other; a part without
/// a text gives none. The output is all of them, each on lines of its own.
pub proof fn outputs_keep_their_order(a: Seq<JsonView>, b: Seq<JsonView>, part: JsonView)
    ensures
        messages::output_texts(a + b) == messages::output_texts(a) + messages::output_texts(b),
        messages::output_texts(seq![part]) == match json::field(part, "text"@) {
            Some(JsonView::Str(t)) => seq![t],
            _ => Seq::empty(),
        },
        texts::lines(
            messages::output_text(Some(JsonView::Arr(a))),
            messages::output_texts(a),
        ),
    decreases b.len(),
{
    texts::joined_by_line_ends(messages::output_texts(a));
    assert(seq![part].drop_last() =~= Seq::<JsonView>::empty());
    assert(messages::output_texts(seq![part].drop_last()) =~= Seq::<Seq<char>>::empty());
    if b.len() == 0 {
        assert(a + b =~= a);
        assert(messages::output_texts(a) + messages::output_texts(b) =~= messages::output_texts(a));
    } else {
        outputs_keep_their_order(a, b.drop_last(), part);
        assert((a + b).drop_last() =~= a + b.drop_last());
        assert((a + b).last() == b.last());
        assert(messages::output_texts(a + b) =~= messages::output_texts(a)
            + messages::output_texts(b));
    }
}

/// An output adds one message of the tool's behind the others, under the identifier of the call,
/// with the output; a text is sent as it is.
pub proof fn output_is_added(
    list: Seq<JsonView>,
    item: JsonView,
    call_id: Seq<char>,
    s: Seq<char>,
)
    requires
        tells(item, "type"@, "function_call_output"@) || tells(
            item,
            "type"@,
            "custom_tool_call_output"@,
        ),
        json::text_field(item, "call_id"@) == call_id,
    ensures
        ({
            let now = messages::after_item(list, item);
            &&& now.len() == list.len() + 1
            &&& now.drop_last() == list
            &&& tells(now.last(), "role"@, "tool"@)
            &&& tells(now.last(), "tool_call_id"@, call_id)
            &&& tells(
                now.last(),
                "content"@,
                messages::output_text(json::field(item, "output"@)),
            )
            &&& tells(item, "output"@, s) ==> tells(now.last(), "content"@, s)
            &&& has_only(now.last(), set!["role"@, "tool_call_id"@, "content"@])
        }),
{
    names_differ();
    messages::item_kinds_differ();
    let now = messages::after_item(list, item);
    assert(now.drop_last() =~= list);
    assert(now.last()->Obj_0.dom() =~= set!["role"@, "tool_call_id"@, "content"@]);
}

/// Reasoning is passed over in silence; an item of a type that is not known is passed over with a
/// remark; neither changes a message. Items that are replayed are not remarked on.
pub proof fn other_items_are_passed_over(list: Seq<JsonView>, item: JsonView, kind: Seq<char>)
    requires
        messages::item_kind(item) == kind,
    ensures
        kind == "reasoning"@ ==> messages::after_item(list, item) == list
            && messages::item_remarks(item).len() == 0,
        kind != "reasoning"@ && kind != "message"@ && kind != "function_call"@ && kind
            != "custom_tool_call"@ && kind != "function_call_output"@ && kind
            != "custom_tool_call_output"@ ==> messages::after_item(list, item) == list
            && messages::item_remarks(item) == seq![messages::RemarkView::ItemSkipped(kind)],
        kind == "function_call"@ || kind == "custom_tool_call"@ || kind == "function_call_output"@
            || kind == "custom_tool_call_output"@ ==> messages::item_remarks(item).len() == 0,
        kind == "message"@ && json::field(item, "content"@) is Some && json::field(
            item,
            "content"@,
        )->0 is Arr ==> messages::item_remarks(item) == messages::part_remarks(
            json::field(item, "content"@)->0->Arr_0,
        ),
        kind == "message"@ && !(json::field(item, "content"@) is Some && json::field(
            item,
            "content"@,
        )->0 is Arr) ==> messages::item_remarks(item).len() == 0,
{
    messages::item_kinds_differ();
}

/// No items change nothing, and one item changes what it changes by itself.
pub proof fn items_one_by_one(list: Seq<JsonView>, item: JsonView)
    ensures
        messages::after_items(list, Seq::empty()) == list,
        messages::after_items(list, seq![item]) == messages::after_item(list, item),
{
    assert(seq![item].drop_last() =~= Seq::<JsonView>::empty());
    assert(messages::after_items(list, seq![item].drop_last()) == list);
}

} // verus!
