//! What holds of the conversion as a whole.

pub mod answers;
pub mod content;
pub mod history;
pub mod toolbox;

use vstd::prelude::*;

use crate::convert::messages;
use crate::convert::request;
use crate::convert::response;
use crate::convert::tools;
use crate::json;
use crate::json::JsonView;
use crate::text;

verus! {

// ---------------------------------------------------------------------------
// Messages
// ---------------------------------------------------------------------------

/// The calls that items ask for, in order.
pub open spec fn calls_of(items: Seq<JsonView>) -> Seq<JsonView>
    decreases items.len(),
{
    if items.len() == 0 {
        Seq::empty()
    } else {
        match messages::item_call(items.last()) {
            Some(call) => calls_of(items.drop_last()).push(call),
            None => calls_of(items.drop_last()),
        }
    }
}

/// The calls that a message lists.
pub open spec fn calls_in(m: JsonView) -> Seq<JsonView> {
    json::as_items(json::field(m, "tool_calls"@))
}

/// The calls that messages list, in order.
pub open spec fn all_calls(list: Seq<JsonView>) -> Seq<JsonView>
    decreases list.len(),
{
    if list.len() == 0 {
        Seq::empty()
    } else {
        all_calls(list.drop_last()) + calls_in(list.last())
    }
}

/// Calls stand in a list, and only where the assistant speaks.
pub open spec fn calls_in_place(m: JsonView) -> bool {
    match json::field(m, "tool_calls"@) {
        None => true,
        Some(JsonView::Arr(_)) => messages::from_assistant(m),
        Some(_) => false,
    }
}

/// Calls stand in their place in all the messages.
pub open spec fn all_in_place(list: Seq<JsonView>) -> bool {
    forall|i: int| 0 <= i < list.len() ==> calls_in_place(#[trigger] list[i])
}

/// A message that only calls does not follow another of the assistant's.
pub open spec fn calls_merged(list: Seq<JsonView>) -> bool {
    forall|i: int|
        0 < i < list.len() && json::field(#[trigger] list[i], "content"@) == Some(JsonView::Null)
            ==> !messages::from_assistant(list[i - 1])
}

/// The names that the messages use are all different, and so are the roles.
proof fn names_differ()
    ensures
        "role"@ != "content"@,
        "role"@ != "tool_calls"@,
        "content"@ != "tool_calls"@,
        "tool_call_id"@ != "tool_calls"@,
        "tool_call_id"@ != "role"@,
        "tool_call_id"@ != "content"@,
        "tool"@ != "assistant"@,
        "user"@ != "assistant"@,
        "system"@ != "assistant"@,
        "system"@ != "tool"@,
        "user"@[0] != "tool"@[0],
{
    reveal_strlit("role");
    reveal_strlit("content");
    reveal_strlit("tool_calls");
    reveal_strlit("tool_call_id");
    reveal_strlit("tool");
    reveal_strlit("user");
    reveal_strlit("system");
    reveal_strlit("assistant");
    assert("role"@.len() == 4 && "content"@.len() == 7 && "tool_calls"@.len() == 10);
    assert("tool_call_id"@.len() == 12 && "assistant"@.len() == 9 && "system"@.len() == 6);
    assert("tool"@.len() == 4 && "user"@.len() == 4);
}

proof fn all_calls_push(list: Seq<JsonView>, m: JsonView)
    ensures
        all_calls(list.push(m)) == all_calls(list) + calls_in(m),
{
    assert(list.push(m).drop_last() =~= list);
}

/// One item keeps calls in their place, adds the call that it asks for and no other, and leaves no
/// message that only calls behind another of the assistant's.
proof fn item_keeps_calls(list: Seq<JsonView>, item: JsonView)
    requires
        all_in_place(list),
        calls_merged(list),
    ensures
        all_in_place(messages::after_item(list, item)),
        calls_merged(messages::after_item(list, item)),
        all_calls(messages::after_item(list, item)) == all_calls(list) + calls_of(seq![item]),
{
    names_differ();
    messages::message_or_call(item);
    let now = messages::after_item(list, item);
    assert(seq![item].drop_last() =~= Seq::<JsonView>::empty());
    assert(calls_of(seq![item].drop_last()) =~= Seq::<JsonView>::empty());
    match (messages::item_message(item), messages::item_call(item)) {
        (Some(m), _) => {
            all_calls_push(list, m);
            assert(json::field(m, "tool_calls"@) is None);
            assert(calls_in(m) =~= Seq::<JsonView>::empty());
            assert(json::field(m, "content"@) != Some(JsonView::Null));
            assert(calls_of(seq![item]) =~= Seq::<JsonView>::empty());
            assert(all_calls(now) =~= all_calls(list) + calls_of(seq![item]));
        },
        (None, Some(call)) => {
            assert(calls_of(seq![item]) =~= seq![call]);
            if list.len() > 0 && messages::from_assistant(list.last()) {
                let m = list.last();
                let rest = list.drop_last();
                assert(calls_in_place(list[list.len() - 1]));
                assert(calls_in(messages::with_call(m, call)) =~= calls_in(m).push(call));
                all_calls_push(rest, messages::with_call(m, call));
                assert(all_calls(now) =~= all_calls(list) + seq![call]);
                assert forall|i: int| 0 <= i < now.len() implies calls_in_place(
                    #[trigger] now[i],
                ) by {
                    if i < rest.len() {
                        assert(now[i] == list[i]);
                    }
                }
                assert forall|i: int|
                    0 < i < now.len() && json::field(#[trigger] now[i], "content"@) == Some(
                        JsonView::Null,
                    ) implies !messages::from_assistant(now[i - 1]) by {
                    assert(now[i - 1] == list[i - 1]);
                    assert(json::field(list[i], "content"@) == Some(JsonView::Null));
                }
            } else {
                let m = messages::calling_message(call);
                all_calls_push(list, m);
                assert(calls_in(m) =~= seq![call]);
                assert(all_calls(now) =~= all_calls(list) + seq![call]);
                assert forall|i: int|
                    0 < i < now.len() && json::field(#[trigger] now[i], "content"@) == Some(
                        JsonView::Null,
                    ) implies !messages::from_assistant(now[i - 1]) by {
                    assert(now[i - 1] == list[i - 1]);
                    if i < list.len() {
                        assert(now[i] == list[i]);
                    }
                }
            }
        },
        (None, None) => {
            assert(calls_of(seq![item]) =~= Seq::<JsonView>::empty());
            assert(all_calls(now) =~= all_calls(list) + calls_of(seq![item]));
        },
    }
}

/// No call is lost, none is made up, and their order stays; calls stand only in messages of the
/// assistant's, and a message that only calls does not follow another of these.
pub proof fn calls_survive(list: Seq<JsonView>, items: Seq<JsonView>)
    requires
        all_in_place(list),
        calls_merged(list),
    ensures
        all_in_place(messages::after_items(list, items)),
        calls_merged(messages::after_items(list, items)),
        all_calls(messages::after_items(list, items)) == all_calls(list) + calls_of(items),
    decreases items.len(),
{
    if items.len() == 0 {
        assert(all_calls(list) + calls_of(items) =~= all_calls(list));
    } else {
        let rest = items.drop_last();
        let item = items.last();
        calls_survive(list, rest);
        item_keeps_calls(messages::after_items(list, rest), item);
        assert(seq![item].drop_last() =~= Seq::<JsonView>::empty());
        assert(calls_of(seq![item].drop_last()) =~= Seq::<JsonView>::empty());
        assert(calls_of(items) =~= calls_of(rest) + calls_of(seq![item]));
        assert(all_calls(messages::after_items(list, items)) =~= all_calls(list) + calls_of(
            items,
        ));
    }
}

/// The messages of every chat request list exactly the calls of the input, in order, each in a
/// message of the assistant's, with consecutive calls and a text before them in one message.
pub proof fn request_keeps_calls(req: JsonView)
    ensures
        all_in_place(request::chat_messages(req)),
        calls_merged(request::chat_messages(req)),
        all_calls(request::chat_messages(req)) == calls_of(
            json::as_items(json::field(req, "input"@)),
        ),
{
    names_differ();
    let first = request::opening(req);
    assert(first.len() <= 1);
    assert(all_calls(first) =~= Seq::<JsonView>::empty()) by {
        if first.len() > 0 {
            assert(first.drop_last() =~= Seq::<JsonView>::empty());
            assert(all_calls(first.drop_last()) =~= Seq::<JsonView>::empty());
            assert(calls_in(first.last()) =~= Seq::<JsonView>::empty());
        }
    }
    assert(calls_of(Seq::<JsonView>::empty()) =~= Seq::<JsonView>::empty());
    match json::field(req, "input"@) {
        Some(JsonView::Str(s)) => {
            let m = messages::message("user"@, JsonView::Str(s));
            all_calls_push(first, m);
            assert(calls_in(m) =~= Seq::<JsonView>::empty());
        },
        Some(JsonView::Arr(items)) => {
            calls_survive(first, items);
        },
        _ => {},
    }
}

/// Calls that follow one another stand in one message: in the last one where the assistant speaks
/// there, and else in one new message.
pub proof fn consecutive_calls_merge(list: Seq<JsonView>, items: Seq<JsonView>)
    requires
        items.len() > 0,
        forall|i: int|
            0 <= i < items.len() ==> messages::item_call(#[trigger] items[i]) is Some,
    ensures
        ({
            let now = messages::after_items(list, items);
            &&& now.len() == if list.len() > 0 && messages::from_assistant(list.last()) {
                list.len()
            } else {
                list.len() + 1
            }
            &&& messages::from_assistant(now.last())
        }),
    decreases items.len(),
{
    names_differ();
    let rest = items.drop_last();
    assert(items.last() == items[items.len() - 1]);
    messages::message_or_call(items.last());
    if rest.len() > 0 {
        assert forall|i: int| 0 <= i < rest.len() implies messages::item_call(
            #[trigger] rest[i],
        ) is Some by {
            assert(rest[i] == items[i]);
        }
        consecutive_calls_merge(list, rest);
    } else {
        assert(messages::after_items(list, rest) == list);
    }
}

/// Items in two portions give the same messages as all of them at once.
pub proof fn items_compose(list: Seq<JsonView>, a: Seq<JsonView>, b: Seq<JsonView>)
    ensures
        messages::after_items(list, a + b) == messages::after_items(
            messages::after_items(list, a),
            b,
        ),
    decreases b.len(),
{
    if b.len() == 0 {
        assert(a + b =~= a);
    } else {
        assert((a + b).drop_last() =~= a + b.drop_last());
        assert((a + b).last() == b.last());
        items_compose(list, a, b.drop_last());
    }
}

/// What was said stays said: items change none of the messages but the last, and of that one only
/// its calls.
pub proof fn messages_stay(list: Seq<JsonView>, items: Seq<JsonView>)
    ensures
        messages::after_items(list, items).len() >= list.len(),
        forall|i: int|
            0 <= i < list.len() - 1 ==> #[trigger] messages::after_items(list, items)[i]
                == list[i],
        list.len() > 0 && !messages::from_assistant(list.last()) ==> messages::after_items(
            list,
            items,
        )[list.len() - 1] == list.last(),
        list.len() > 0 ==> json::field(
            messages::after_items(list, items)[list.len() - 1],
            "role"@,
        ) == json::field(list.last(), "role"@) && json::field(
            messages::after_items(list, items)[list.len() - 1],
            "content"@,
        ) == json::field(list.last(), "content"@),
    decreases items.len(),
{
    names_differ();
    if items.len() > 0 {
        messages_stay(list, items.drop_last());
    }
}

/// The instructions come first, as they are.
pub proof fn instructions_first(req: JsonView)
    requires
        json::text_field(req, "instructions"@).len() > 0,
    ensures
        request::chat_messages(req).len() > 0,
        request::chat_messages(req)[0] == messages::message(
            "system"@,
            JsonView::Str(json::text_field(req, "instructions"@)),
        ),
{
    names_differ();
    let first = request::opening(req);
    match json::field(req, "input"@) {
        Some(JsonView::Arr(items)) => {
            messages_stay(first, items);
        },
        _ => {},
    }
}

/// The outputs of tools that items bring, as messages, in order.
pub open spec fn outputs_of(items: Seq<JsonView>) -> Seq<JsonView>
    decreases items.len(),
{
    if items.len() == 0 {
        Seq::empty()
    } else {
        let kind = messages::item_kind(items.last());
        if kind == "function_call_output"@ || kind == "custom_tool_call_output"@ {
            outputs_of(items.drop_last()).push(
                messages::tool_message(
                    json::text_field(items.last(), "call_id"@),
                    messages::output_text(json::field(items.last(), "output"@)),
                ),
            )
        } else {
            outputs_of(items.drop_last())
        }
    }
}

/// The messages in which a tool speaks, in order.
pub open spec fn tool_messages(list: Seq<JsonView>) -> Seq<JsonView>
    decreases list.len(),
{
    if list.len() == 0 {
        Seq::empty()
    } else if json::as_text(json::field(list.last(), "role"@)) == Some("tool"@) {
        tool_messages(list.drop_last()).push(list.last())
    } else {
        tool_messages(list.drop_last())
    }
}

/// The outputs of tools come through, all and only these, in order, each under the identifier of
/// its call.
pub proof fn outputs_survive(list: Seq<JsonView>, items: Seq<JsonView>)
    ensures
        tool_messages(messages::after_items(list, items)) == tool_messages(list) + outputs_of(
            items,
        ),
    decreases items.len(),
{
    if items.len() == 0 {
        assert(tool_messages(list) + outputs_of(items) =~= tool_messages(list));
    } else {
        names_differ();
        messages::item_kinds_differ();
        let rest = items.drop_last();
        let item = items.last();
        let before = messages::after_items(list, rest);
        let now = messages::after_items(list, items);
        outputs_survive(list, rest);
        match (messages::item_message(item), messages::item_call(item)) {
            (Some(m), _) => {
                assert(now.drop_last() =~= before);
                assert(now.last() == m);
                if messages::item_kind(item) == "message"@ {
                    assert(json::field(m, "role"@) == Some(
                        JsonView::Str(messages::chat_role(item)),
                    ));
                }
            },
            (None, Some(call)) => {
                if before.len() > 0 && messages::from_assistant(before.last()) {
                    assert(now.drop_last() =~= before.drop_last());
                    assert(messages::from_assistant(now.last()));
                } else {
                    assert(now.drop_last() =~= before);
                    assert(messages::from_assistant(now.last()));
                }
            },
            (None, None) => {},
        }
        assert(tool_messages(now) =~= tool_messages(list) + outputs_of(items));
    }
}

/// Every content part has a form in the chat API or is remarked on, and none is both.
pub proof fn no_part_is_lost(parts: Seq<JsonView>)
    ensures
        messages::chat_parts(parts).len() + messages::part_remarks(parts).len() == parts.len(),
    decreases parts.len(),
{
    if parts.len() > 0 {
        no_part_is_lost(parts.drop_last());
    }
}

/// An item that is no reasoning either changes the messages or is remarked on; one that is remarked
/// on and is no message changes nothing.
pub proof fn no_item_is_lost(list: Seq<JsonView>, item: JsonView)
    requires
        messages::item_kind(item) != "reasoning"@,
    ensures
        messages::item_message(item) is Some || messages::item_call(item) is Some
            || messages::item_remarks(item) == seq![
            messages::RemarkView::ItemSkipped(messages::item_kind(item)),
        ],
        messages::item_kind(item) != "message"@ && messages::item_remarks(item).len() > 0
            ==> messages::after_item(list, item) == list,
{
}

/// Only a user's message can have a content that is not one text.
pub proof fn content_is_text(v: Option<JsonView>, role: Seq<char>)
    ensures
        role != "user"@ ==> messages::content(v, role) is Str,
        messages::content(v, role) is Str || messages::content(v, role) is Arr,
{
}

// ---------------------------------------------------------------------------
// Replaying
// ---------------------------------------------------------------------------

/// The names that the items of an output use are all different, and so are their types.
proof fn item_names_differ()
    ensures
        "id"@.len() == 2,
        "type"@.len() == 4,
        "role"@.len() == 4,
        "type"@ != "role"@,
        "status"@.len() == 6,
        "call_id"@.len() == 7,
        "content"@.len() == 7,
        "call_id"@ != "content"@,
        "summary"@.len() == 7,
        "summary"@ != "content"@,
        "name"@.len() == 4,
        "name"@ != "type"@,
        "name"@ != "role"@,
        "arguments"@.len() == 9,
        "input"@.len() == 5,
        "function"@.len() == 8,
        "text"@.len() == 4,
        "text"@ != "type"@,
        "annotations"@.len() == 11,
{
    reveal_strlit("id");
    reveal_strlit("type");
    reveal_strlit("role");
    reveal_strlit("status");
    reveal_strlit("call_id");
    reveal_strlit("content");
    reveal_strlit("summary");
    reveal_strlit("name");
    reveal_strlit("arguments");
    reveal_strlit("input");
    reveal_strlit("function");
    reveal_strlit("text");
    reveal_strlit("annotations");
    assert("type"@[0] == 't' && "role"@[0] == 'r' && "name"@[0] == 'n');
    assert("call_id"@[1] == 'a' && "content"@[1] == 'o' && "summary"@[0] == 's');
    assert("content"@[0] == 'c' && "text"@[1] == 'e' && "type"@[1] == 'y');
}

/// What the assistant said is read back as a message of the assistant's with the same words.
pub proof fn said_is_replayed(id: Seq<char>, words: Seq<char>)
    ensures
        messages::item_message(response::said_item(id, words)) == Some(
            messages::message("assistant"@, JsonView::Str(words)),
        ),
{
    item_names_differ();
    names_differ();
    let item = response::said_item(id, words);
    assert(messages::item_kind(item) == "message"@);
    assert("developer"@ != "assistant"@) by {
        reveal_strlit("developer");
        reveal_strlit("assistant");
        assert("developer"@[0] == 'd' && "assistant"@[0] == 'a');
    }
    assert(messages::chat_role(item) == "assistant"@);
    let parts = json::as_items(json::field(item, "content"@));
    assert(parts.len() == 1);
    assert(messages::part_text(parts[0]) == Some(words));
    assert(parts.drop_last() =~= Seq::<JsonView>::empty());
    assert(messages::part_texts(parts.drop_last()) =~= Seq::<Seq<char>>::empty());
    assert(messages::part_texts(parts) =~= seq![words]);
    assert(text::joined(seq![words], "\n"@) =~= words) by {
        reveal_with_fuel(text::joined, 2);
        assert(seq![words].drop_last() =~= Seq::<Seq<char>>::empty());
    }
}

/// What the model thought is not read back.
pub proof fn thought_is_not_replayed(id: Seq<char>, words: Seq<char>)
    ensures
        messages::item_message(response::thought_item(id, words)) is None,
        messages::item_call(response::thought_item(id, words)) is None,
{
    item_names_differ();
    messages::item_kinds_differ();
    assert(messages::item_kind(response::thought_item(id, words)) == "reasoning"@);
}

/// A call of a function is read back as the same call, unless its arguments are blank; a call of a
/// custom tool is, where its arguments are those that are written for the input they hold.
pub proof fn call_is_replayed(
    id: Seq<char>,
    call_id: Seq<char>,
    name: Seq<char>,
    args: Seq<char>,
    custom: bool,
)
    ensures
        messages::item_message(response::call_item(id, call_id, name, args, custom)) is None,
        !custom && !text::blank(args) ==> messages::item_call(
            response::call_item(id, call_id, name, args, custom),
        ) == Some(messages::tool_call(call_id, name, args)),
        custom && args == json::written(
            messages::wrapped_input(response::unwrapped(json::read_text(args), args)),
        ) ==> messages::item_call(response::call_item(id, call_id, name, args, custom)) == Some(
            messages::tool_call(call_id, name, args),
        ),
{
    item_names_differ();
    messages::item_kinds_differ();
    let item = response::call_item(id, call_id, name, args, custom);
    if custom {
        assert(messages::item_kind(item) == "custom_tool_call"@);
        assert(json::text_field(item, "input"@) == response::unwrapped(
            json::read_text(args),
            args,
        ));
    } else {
        assert(messages::item_kind(item) == "function_call"@);
        assert(json::text_field(item, "arguments"@) == args);
    }
    assert(json::text_field(item, "call_id"@) == call_id);
    assert(json::text_field(item, "name"@) == name);
}

/// The input of a custom tool comes back out of the arguments that were written for it, whenever
/// these read back.
pub proof fn input_comes_back(input: Seq<char>)
    ensures
        ({
            let args = json::written(messages::wrapped_input(input));
            json::read_text(args) == Some(messages::wrapped_input(input)) ==> response::unwrapped(
                json::read_text(args),
                args,
            ) == input
        }),
{
}

/// A call that comes back as it is when the response is replayed.
pub open spec fn replayable(call: JsonView, custom: Set<Seq<char>>) -> bool {
    let args = response::called_args(call);
    &&& call == messages::tool_call(
        json::text_field(call, "id"@),
        response::called_name(call),
        args,
    )
    &&& if custom.contains(response::called_name(call)) {
        args == json::written(
            messages::wrapped_input(response::unwrapped(json::read_text(args), args)),
        )
    } else {
        !text::blank(args)
    }
}

/// A message of the assistant's that says and calls, each as far as there is any.
pub open spec fn turn(words: Option<Seq<char>>, calls: Seq<JsonView>) -> JsonView {
    let content = match words {
        Some(w) => JsonView::Str(w),
        None => JsonView::Null,
    };
    let m = messages::message("assistant"@, content);
    if calls.len() > 0 {
        JsonView::Obj(m->Obj_0.insert("tool_calls"@, JsonView::Arr(calls)))
    } else {
        m
    }
}

/// The messages with one more turn of the assistant's, if it says or calls anything.
pub open spec fn with_turn(
    list: Seq<JsonView>,
    words: Option<Seq<char>>,
    calls: Seq<JsonView>,
) -> Seq<JsonView> {
    if words is None && calls.len() == 0 {
        list
    } else {
        list.push(turn(words, calls))
    }
}

/// Calls join the turn in order.
proof fn calls_join_turn(
    list: Seq<JsonView>,
    words: Option<Seq<char>>,
    items: Seq<JsonView>,
    calls: Seq<JsonView>,
)
    requires
        list.len() == 0 || !messages::from_assistant(list.last()),
        items.len() == calls.len(),
        forall|i: int|
            #![trigger items[i]]
            0 <= i < items.len() ==> messages::item_message(items[i]) is None
                && messages::item_call(items[i]) == Some(calls[i]),
    ensures
        messages::after_items(with_turn(list, words, Seq::empty()), items) == with_turn(
            list,
            words,
            calls,
        ),
    decreases items.len(),
{
    names_differ();
    if items.len() == 0 {
        assert(calls =~= Seq::<JsonView>::empty());
    } else {
        let rest = calls.drop_last();
        let call = calls.last();
        assert forall|i: int| #![trigger items.drop_last()[i]] 0 <= i < rest.len() implies
            messages::item_message(items.drop_last()[i]) is None && messages::item_call(
            items.drop_last()[i],
        ) == Some(rest[i]) by {
            assert(items.drop_last()[i] == items[i]);
        }
        calls_join_turn(list, words, items.drop_last(), rest);
        assert(items.last() == items[items.len() - 1]);
        let before = with_turn(list, words, rest);
        if words is None && rest.len() == 0 {
            assert(calls =~= seq![call]);
            assert(messages::calling_message(call) == turn(words, calls));
        } else {
            let m = turn(words, rest);
            assert(before.last() == m);
            assert(before.drop_last() =~= list);
            assert(messages::from_assistant(m));
            assert(calls =~= rest.push(call));
            if rest.len() == 0 {
                assert(calls =~= seq![call]);
                assert(json::field(m, "tool_calls"@) is None);
            } else {
                assert(json::field(m, "tool_calls"@) == Some(JsonView::Arr(rest)));
            }
            assert(messages::with_call(m, call)->Obj_0 =~= turn(words, calls)->Obj_0);
            assert(messages::with_call(m, call) == turn(words, calls));
        }
    }
}

/// A response that is replayed as input gives one turn of the assistant's, with the words and the
/// calls of the completion that it was made of.
pub proof fn response_is_replayed(
    list: Seq<JsonView>,
    chat: JsonView,
    custom: Set<Seq<char>>,
    ids: response::IdsView,
)
    requires
        list.len() == 0 || !messages::from_assistant(list.last()),
    ensures
        ({
            let calls = response::calls_made(chat);
            (forall|i: int| 0 <= i < calls.len() ==> replayable(#[trigger] calls[i], custom))
                ==> messages::after_items(list, response::output_items(chat, custom, ids))
                == with_turn(
                list,
                response::nonempty(
                    json::as_text(json::field(response::first_message(chat), "content"@)),
                ),
                calls,
            )
        }),
{
    let calls = response::calls_made(chat);
    let msg = response::first_message(chat);
    let words = response::nonempty(json::as_text(json::field(msg, "content"@)));
    if forall|i: int| 0 <= i < calls.len() ==> replayable(#[trigger] calls[i], custom) {
        let thoughts = match response::thought(msg) {
            Some(w) => seq![response::thought_item(ids.reasoning, w)],
            None => Seq::empty(),
        };
        let sayings = match words {
            Some(w) => seq![response::said_item(ids.message, w)],
            None => Seq::empty(),
        };
        let items = Seq::new(
            calls.len(),
            |i: int| response::made_item(calls[i], ids.calls[i], custom),
        );
        assert(response::output_items(chat, custom, ids) == thoughts + sayings + items);
        items_compose(list, thoughts + sayings, items);
        items_compose(list, thoughts, sayings);
        reveal_with_fuel(messages::after_items, 2);
        if let Some(w) = response::thought(msg) {
            thought_is_not_replayed(ids.reasoning, w);
            assert(thoughts.drop_last() =~= Seq::<JsonView>::empty());
        }
        assert(messages::after_items(list, thoughts) == list);
        if let Some(w) = words {
            said_is_replayed(ids.message, w);
            assert(sayings.drop_last() =~= Seq::<JsonView>::empty());
        }
        assert(messages::after_items(list, sayings) == with_turn(list, words, Seq::empty()));
        item_names_differ();
        assert forall|i: int| #![trigger items[i]] 0 <= i < items.len() implies
            messages::item_message(items[i]) is None && messages::item_call(items[i]) == Some(
            calls[i],
        ) by {
            assert(replayable(calls[i], custom));
            let call = calls[i];
            call_is_replayed(
                ids.calls[i].0,
                text::or(json::as_text(json::field(call, "id"@)), ids.calls[i].1),
                response::called_name(call),
                response::called_args(call),
                custom.contains(response::called_name(call)),
            );
        }
        calls_join_turn(list, words, items, calls);
    }
}

// ---------------------------------------------------------------------------
// Tools
// ---------------------------------------------------------------------------

/// Every tool is passed on or named among the dropped, and none is both.
pub proof fn no_tool_is_lost(list: Seq<JsonView>)
    ensures
        tools::chat_tools(list).len() + tools::dropped_labels(list).len() == list.len(),
    decreases list.len(),
{
    if list.len() > 0 {
        no_tool_is_lost(list.drop_last());
    }
}

/// Every tool that is passed on is a function under the name of a tool of the request, and every
/// name of a custom tool is the name of one of them.
pub proof fn tools_keep_names(list: Seq<JsonView>)
    ensures
        forall|i: int|
            #![trigger tools::chat_tools(list)[i]]
            0 <= i < tools::chat_tools(list).len() ==> json::as_text(
                json::field(tools::chat_tools(list)[i], "type"@),
            ) == Some("function"@) && exists|j: int|
                0 <= j < list.len() && json::text_field(#[trigger] list[j], "name"@)
                    == response::called_name(tools::chat_tools(list)[i]),
        forall|name: Seq<char>| #[trigger]
            tools::custom_names(list).contains(name) ==> exists|i: int|
                0 <= i < tools::chat_tools(list).len() && response::called_name(
                    #[trigger] tools::chat_tools(list)[i],
                ) == name,
    decreases list.len(),
{
    if list.len() > 0 {
        let rest = list.drop_last();
        let tool = list.last();
        tools_keep_names(rest);
        tool_keeps_name(tool);
        let all = tools::chat_tools(list);
        let some = tools::chat_tools(rest);
        assert forall|i: int| #![trigger all[i]] 0 <= i < all.len() implies json::as_text(
            json::field(all[i], "type"@),
        ) == Some("function"@) && exists|j: int|
            0 <= j < list.len() && json::text_field(#[trigger] list[j], "name"@)
                == response::called_name(all[i]) by {
            if i < some.len() {
                assert(all[i] == some[i]);
                let j = choose|j: int|
                    0 <= j < rest.len() && json::text_field(#[trigger] rest[j], "name"@)
                        == response::called_name(some[i]);
                assert(list[j] == rest[j]);
            } else {
                assert(list[list.len() - 1] == tool);
            }
        }
        assert forall|name: Seq<char>| #[trigger]
            tools::custom_names(list).contains(name) implies exists|i: int|
            0 <= i < all.len() && response::called_name(#[trigger] all[i]) == name by {
            if tools::custom_names(rest).contains(name) {
                let i = choose|i: int|
                    0 <= i < some.len() && response::called_name(#[trigger] some[i]) == name;
                assert(all[i] == some[i]);
            } else {
                assert("custom"@ != "function"@) by {
                    reveal_strlit("custom");
                    reveal_strlit("function");
                    assert("custom"@.len() == 6 && "function"@.len() == 8);
                }
                assert(all.last() == all[all.len() - 1]);
            }
        }
    }
}

/// A custom tool is passed on as a function of one string, its raw input, and is known as custom.
pub proof fn custom_takes_input(list: Seq<JsonView>, i: int)
    requires
        0 <= i < list.len(),
        json::text_field(list[i], "type"@) == "custom"@,
    ensures
        tools::chat_tool(list[i]) is Some,
        json::field2(tools::chat_tool(list[i])->0, "function"@, "parameters"@) == Some(
            tools::input_parameter(),
        ),
        tools::custom_names(list).contains(json::text_field(list[i], "name"@)),
    decreases list.len(),
{
    reveal_strlit("custom");
    reveal_strlit("function");
    reveal_strlit("type");
    assert("custom"@.len() == 6 && "function"@.len() == 8 && "type"@.len() == 4);
    if i < list.len() - 1 {
        assert(list.drop_last()[i] == list[i]);
        custom_takes_input(list.drop_last(), i);
    }
}

/// The chat form of a tool is a function of the same name.
proof fn tool_keeps_name(tool: JsonView)
    ensures
        match tools::chat_tool(tool) {
            Some(t) => json::as_text(json::field(t, "type"@)) == Some("function"@)
                && response::called_name(t) == json::text_field(tool, "name"@),
            None => true,
        },
{
    reveal_strlit("name");
    reveal_strlit("description");
    reveal_strlit("parameters");
    reveal_strlit("strict");
    reveal_strlit("type");
    reveal_strlit("function");
    assert("name"@.len() == 4 && "description"@.len() == 11 && "parameters"@.len() == 10);
    assert("strict"@.len() == 6 && "type"@.len() == 4 && "function"@.len() == 8);
}

// ---------------------------------------------------------------------------
// The body of a chat request
// ---------------------------------------------------------------------------

/// The names of the members that a chat request can have.
pub open spec fn body_names() -> Set<Seq<char>> {
    set![
        "model"@,
        "messages"@,
        "stream"@,
        "stream_options"@,
        "temperature"@,
        "top_p"@,
        "user"@,
        "max_tokens"@,
        "reasoning_effort"@,
        "response_format"@,
        "tools"@,
        "tool_choice"@,
        "parallel_tool_calls"@,
    ]
}

/// These names are all different.
proof fn body_names_differ()
    ensures
        "model"@.len() == 5,
        "messages"@.len() == 8,
        "stream"@.len() == 6,
        "stream_options"@.len() == 14,
        "temperature"@.len() == 11,
        "top_p"@.len() == 5,
        "top_p"@ != "model"@,
        "user"@.len() == 4,
        "max_tokens"@.len() == 10,
        "reasoning_effort"@.len() == 16,
        "response_format"@.len() == 15,
        "tools"@.len() == 5,
        "tools"@ != "model"@,
        "tools"@ != "top_p"@,
        "tool_choice"@.len() == 11,
        "tool_choice"@ != "temperature"@,
        "parallel_tool_calls"@.len() == 19,
{
    reveal_strlit("model");
    reveal_strlit("messages");
    reveal_strlit("stream");
    reveal_strlit("stream_options");
    reveal_strlit("temperature");
    reveal_strlit("top_p");
    reveal_strlit("user");
    reveal_strlit("max_tokens");
    reveal_strlit("reasoning_effort");
    reveal_strlit("response_format");
    reveal_strlit("tools");
    reveal_strlit("tool_choice");
    reveal_strlit("parallel_tool_calls");
    assert("model"@[0] == 'm' && "top_p"@[0] == 't' && "tools"@[0] == 't');
    assert("top_p"@[2] == 'p' && "tools"@[2] == 'o');
    assert("temperature"@[1] == 'e' && "tool_choice"@[1] == 'o');
}

/// A chat request has no members but those listed in `body_names`. It always has messages, and says
/// whether it asks for a stream; it has options of a stream only where it does.
pub proof fn body_has_known_members(req: JsonView, stream: bool)
    ensures
        request::chat_body(req, stream).dom().subset_of(body_names()),
        json::field(JsonView::Obj(request::chat_body(req, stream)), "messages"@) == Some(
            JsonView::Arr(request::chat_messages(req)),
        ),
        json::field(JsonView::Obj(request::chat_body(req, stream)), "stream"@) == Some(
            JsonView::Bool(stream),
        ),
        request::chat_body(req, stream).contains_key("stream_options"@) <==> stream,
{
    body_names_differ();
}

/// A chat request without tools does not speak of choosing one or of calling several at once; one
/// with tools lists them.
pub proof fn choice_needs_tools(req: JsonView, stream: bool)
    ensures
        ({
            let body = request::chat_body(req, stream);
            let list = request::declared_tools(req);
            &&& body.contains_key("tools"@) <==> list.len() > 0
            &&& list.len() > 0 ==> body["tools"@] == JsonView::Arr(list)
            &&& list.len() == 0 ==> !body.contains_key("tool_choice"@) && !body.contains_key(
                "parallel_tool_calls"@,
            )
        }),
{
    body_names_differ();
}

/// The settings of a request are passed on as they are, those with another name in the chat API
/// under that; what is null is not passed on.
pub proof fn settings_are_kept(req: JsonView, stream: bool)
    ensures
        ({
            let body = JsonView::Obj(request::chat_body(req, stream));
            &&& json::field(body, "model"@) == json::field(req, "model"@)
            &&& json::field(body, "temperature"@) == json::present(
                json::field(req, "temperature"@),
            )
            &&& json::field(body, "top_p"@) == json::present(json::field(req, "top_p"@))
            &&& json::field(body, "user"@) == json::present(json::field(req, "user"@))
            &&& json::field(body, "max_tokens"@) == json::present(
                json::field(req, "max_output_tokens"@),
            )
            &&& json::field(body, "reasoning_effort"@) == json::present(
                json::field2(req, "reasoning"@, "effort"@),
            )
        }),
{
    body_names_differ();
}

// ---------------------------------------------------------------------------
// The response
// ---------------------------------------------------------------------------

/// A response is incomplete exactly where the model ran into the limit or was filtered, and says
/// why exactly then.
pub proof fn incomplete_says_why(fr: Option<Seq<char>>)
    ensures
        response::status_of(fr).0 == "incomplete"@ || response::status_of(fr).0 == "completed"@,
        response::status_of(fr).0 == "incomplete"@ <==> response::status_of(fr).1 is Some,
        response::status_of(fr).0 == "incomplete"@ <==> (fr == Some("length"@) || fr == Some(
            "content_filter"@,
        )),
{
    reveal_strlit("incomplete");
    reveal_strlit("completed");
    assert("incomplete"@.len() == 10 && "completed"@.len() == 9);
}

/// Without a total the tokens of the input and of the output are added up; a usage that is no
/// object gives none.
pub proof fn tokens_add_up(u: Option<JsonView>)
    ensures
        match u {
            Some(JsonView::Obj(_)) => {
                let told = response::usage(u);
                &&& json::as_natural(json::field(u->0, "total_tokens"@)) is None ==> json::field(
                    told,
                    "total_tokens"@,
                ) == Some(
                    JsonView::Int(
                        response::input_tokens(u->0) + response::output_tokens(u->0),
                    ),
                )
                &&& json::field(told, "input_tokens"@) == Some(
                    JsonView::Int(response::input_tokens(u->0) as int),
                )
                &&& json::field(told, "output_tokens"@) == Some(
                    JsonView::Int(response::output_tokens(u->0) as int),
                )
            },
            _ => response::usage(u) == JsonView::Null,
        },
{
    reveal_strlit("total_tokens");
    reveal_strlit("input_tokens");
    reveal_strlit("output_tokens");
    reveal_strlit("input_tokens_details");
    reveal_strlit("output_tokens_details");
    assert("total_tokens"@.len() == 12 && "input_tokens"@.len() == 12);
    assert("output_tokens"@.len() == 13 && "input_tokens_details"@.len() == 20);
    assert("output_tokens_details"@.len() == 21);
    assert("total_tokens"@[0] == 't' && "input_tokens"@[0] == 'i');
}

/// A response has an item for each call of the completion, in order, at the end of its output, and
/// before them at most one for what the model thought and one for what it says.
pub proof fn output_has_every_call(chat: JsonView, custom: Set<Seq<char>>, ids: response::IdsView)
    ensures
        ({
            let items = response::output_items(chat, custom, ids);
            let calls = response::calls_made(chat);
            let first = items.len() - calls.len();
            &&& 0 <= first <= 2
            &&& forall|i: int|
                0 <= i < calls.len() ==> #[trigger] items[first + i] == response::made_item(
                    calls[i],
                    ids.calls[i],
                    custom,
                )
        }),
{
    let items = response::output_items(chat, custom, ids);
    let calls = response::calls_made(chat);
    let first = items.len() - calls.len();
    let made = Seq::new(
        calls.len(),
        |i: int| response::made_item(calls[i], ids.calls[i], custom),
    );
    assert(items.skip(first) =~= made);
    assert forall|i: int| 0 <= i < calls.len() implies #[trigger] items[first + i]
        == response::made_item(calls[i], ids.calls[i], custom) by {
        assert(items.skip(first)[i] == made[i]);
    }
}

/// Only the first choice, the model, the usage and the time of a completion tell in its response:
/// completions that agree in these give the same response, but for fresh identifiers. The time at
/// which it is made tells only where the completion has none of its own.
pub proof fn nothing_else_tells(
    a: JsonView,
    b: JsonView,
    id: Seq<char>,
    fallback_model: Seq<char>,
    custom: Set<Seq<char>>,
    ids: response::IdsView,
    now_a: i64,
    now_b: i64,
)
    requires
        response::first_choice(a) == response::first_choice(b),
        json::field(a, "model"@) == json::field(b, "model"@),
        json::field(a, "usage"@) == json::field(b, "usage"@),
        json::as_integer(json::field(a, "created"@)) == json::as_integer(
            json::field(b, "created"@),
        ),
        json::as_integer(json::field(a, "created"@)) is Some || now_a == now_b,
    ensures
        response::whole_response(a, id, fallback_model, custom, ids, now_a)
            == response::whole_response(b, id, fallback_model, custom, ids, now_b),
{
    assert(response::output_items(a, custom, ids) =~= response::output_items(b, custom, ids));
}

} // verus!
