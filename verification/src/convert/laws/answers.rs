//! What holds of the response that is made of a completion.

use vstd::prelude::*;

use crate::convert::fresh;
use crate::convert::laws::history;
use crate::convert::response;
use crate::json;
use crate::json::JsonView;

verus! {

/// The names in a usage are all different.
proof fn usage_names_differ()
    ensures
        "input_tokens"@ != "output_tokens"@ && "input_tokens"@ != "total_tokens"@,
        "output_tokens"@ != "total_tokens"@,
        "input_tokens_details"@ != "input_tokens"@ && "input_tokens_details"@ != "output_tokens"@,
        "input_tokens_details"@ != "total_tokens"@,
        "output_tokens_details"@ != "input_tokens"@ && "output_tokens_details"@
            != "output_tokens"@,
        "output_tokens_details"@ != "total_tokens"@ && "output_tokens_details"@
            != "input_tokens_details"@,
{
    reveal_strlit("input_tokens");
    reveal_strlit("output_tokens");
    reveal_strlit("total_tokens");
    reveal_strlit("input_tokens_details");
    reveal_strlit("output_tokens_details");
    assert("input_tokens"@.len() == 12);
    assert("output_tokens"@.len() == 13);
    assert("total_tokens"@.len() == 12);
    assert("input_tokens_details"@.len() == 20);
    assert("output_tokens_details"@.len() == 21);
    assert("input_tokens"@[0] == 'i');
    assert("total_tokens"@[0] == 't');
}

/// The total of a usage is the one that the upstream told, whatever the other counts are, and the
/// sum of input and output where it told none. The counts of the input, the output, the cached
/// and the reasoning tokens are those that it told, and zero where it told none.
pub proof fn counts_are_kept(u: JsonView, n: int)
    requires
        u is Obj,
        0 <= n <= u64::MAX,
    ensures
        ({
            let made = response::usage(Some(u));
            let told = json::field(u, "total_tokens"@);
            let input = json::field(u, "prompt_tokens"@);
            let output = json::field(u, "completion_tokens"@);
            let cached = json::field2(u, "prompt_tokens_details"@, "cached_tokens"@);
            let reasoning = json::field2(u, "completion_tokens_details"@, "reasoning_tokens"@);
            let number = Some(JsonView::Int(n));
            let zero = Some(JsonView::Int(0));
            &&& told == number ==> json::field(made, "total_tokens"@) == number
            &&& input == number ==> json::field(made, "input_tokens"@) == number
            &&& json::as_natural(input) is None ==> json::field(made, "input_tokens"@) == zero
            &&& output == number ==> json::field(made, "output_tokens"@) == number
            &&& json::as_natural(output) is None ==> json::field(made, "output_tokens"@) == zero
            &&& cached == number ==> json::field2(made, "input_tokens_details"@, "cached_tokens"@)
                == number
            &&& json::as_natural(cached) is None ==> json::field2(made, "input_tokens_details"@, "cached_tokens"@)
                == zero
            &&& reasoning == number ==> json::field2(
                made,
                "output_tokens_details"@,
                "reasoning_tokens"@,
            ) == number
            &&& json::as_natural(reasoning) is None ==> json::field2(
                made,
                "output_tokens_details"@,
                "reasoning_tokens"@,
            ) == zero
            &&& history::has_only(
                made,
                set![
                    "input_tokens"@,
                    "input_tokens_details"@,
                    "output_tokens"@,
                    "output_tokens_details"@,
                    "total_tokens"@,
                ],
            )
            &&& history::has_only(
                json::field(made, "input_tokens_details"@)->0,
                set!["cached_tokens"@],
            )
            &&& history::has_only(
                json::field(made, "output_tokens_details"@)->0,
                set!["reasoning_tokens"@],
            )
        }),
{
    usage_names_differ();
    let made = response::usage(Some(u));
    assert(made->Obj_0.dom() =~= set![
        "input_tokens"@,
        "input_tokens_details"@,
        "output_tokens"@,
        "output_tokens_details"@,
        "total_tokens"@,
    ]);
    assert(json::field(made, "input_tokens_details"@)->0->Obj_0.dom() =~= set!["cached_tokens"@]);
    assert(json::field(made, "output_tokens_details"@)->0->Obj_0.dom() =~= set![
        "reasoning_tokens"@,
    ]);
}

/// Without a total that is a natural number, the total is the sum of the two counts that are told.
pub proof fn total_is_the_sum(u: JsonView, a: int, b: int)
    requires
        u is Obj,
        json::as_natural(json::field(u, "total_tokens"@)) is None,
        json::field(u, "prompt_tokens"@) == Some(JsonView::Int(a)),
        json::field(u, "completion_tokens"@) == Some(JsonView::Int(b)),
        0 <= a <= u64::MAX,
        0 <= b <= u64::MAX,
    ensures
        json::field(response::usage(Some(u)), "total_tokens"@) == Some(JsonView::Int(a + b)),
        response::countable(Some(u)) <==> a + b <= u64::MAX,
{
    usage_names_differ();
}

/// A usage that is no object gives none; that input and output together cannot be counted is so
/// only of an object in which they are too many.
pub proof fn usage_needs_an_object(v: JsonView)
    requires
        !(v is Obj),
    ensures
        response::usage(Some(v)) == JsonView::Null,
        response::usage(None) == JsonView::Null,
        response::countable(Some(v)),
        response::countable(None),
{
}

/// The reason for stopping decides the status, and what is told of it.
pub proof fn reasons_decide(fr: Seq<char>)
    ensures
        response::status_of(Some("length"@)) == ("incomplete"@, Some("max_output_tokens"@)),
        response::status_of(Some("content_filter"@)) == ("incomplete"@, Some("content_filter"@)),
        fr != "length"@ && fr != "content_filter"@ ==> response::status_of(Some(fr)) == (
            "completed"@,
            None::<Seq<char>>,
        ),
        response::status_of(None) == ("completed"@, None::<Seq<char>>),
{
    reveal_strlit("length");
    reveal_strlit("content_filter");
    assert("length"@.len() == 6 && "content_filter"@.len() == 14);
}

/// A response has what it is given, each under its name and as it is, and nothing else but what it
/// is and that there is no error.
pub proof fn responses_are_written(
    id: Seq<char>,
    created_at: i64,
    model: Seq<char>,
    status: Seq<char>,
    reason: Option<Seq<char>>,
    output: Seq<JsonView>,
    usage: JsonView,
)
    ensures
        ({
            let r = response::response(id, created_at, model, status, reason, output, usage);
            &&& history::tells(r, "id"@, id)
            &&& history::tells(r, "object"@, "response"@)
            &&& json::field(r, "created_at"@) == Some(JsonView::Int(created_at as int))
            &&& history::tells(r, "status"@, status)
            &&& history::tells(r, "model"@, model)
            &&& json::field(r, "output"@) == Some(JsonView::Arr(output))
            &&& json::field(r, "usage"@) == Some(usage)
            &&& json::field(r, "error"@) == Some(JsonView::Null)
            &&& reason is None ==> json::field(r, "incomplete_details"@) == Some(JsonView::Null)
            &&& reason is Some ==> json::field2(r, "incomplete_details"@, "reason"@) == Some(
                JsonView::Str(reason->0),
            ) && history::has_only(json::field(r, "incomplete_details"@)->0, set!["reason"@])
            &&& history::has_only(
                r,
                set![
                    "id"@,
                    "object"@,
                    "created_at"@,
                    "status"@,
                    "model"@,
                    "output"@,
                    "usage"@,
                    "incomplete_details"@,
                    "error"@,
                ],
            )
        }),
{
    reveal_strlit("id");
    reveal_strlit("object");
    reveal_strlit("created_at");
    reveal_strlit("status");
    reveal_strlit("model");
    reveal_strlit("output");
    reveal_strlit("usage");
    reveal_strlit("incomplete_details");
    reveal_strlit("error");
    assert("id"@.len() == 2);
    assert("object"@.len() == 6);
    assert("created_at"@.len() == 10);
    assert("status"@.len() == 6);
    assert("model"@.len() == 5);
    assert("output"@.len() == 6);
    assert("usage"@.len() == 5);
    assert("incomplete_details"@.len() == 18);
    assert("error"@.len() == 5);
    assert("object"@[0] == 'o');
    assert("status"@[0] == 's');
    assert("object"@[1] == 'b');
    assert("output"@[1] == 'u');
    assert("output"@[0] == 'o');
    assert("model"@[0] == 'm');
    assert("usage"@[0] == 'u');
    assert("error"@[0] == 'e');
    let r = response::response(id, created_at, model, status, reason, output, usage);
    assert(r->Obj_0.dom() =~= set![
        "id"@,
        "object"@,
        "created_at"@,
        "status"@,
        "model"@,
        "output"@,
        "usage"@,
        "incomplete_details"@,
        "error"@,
    ]);
    if reason is Some {
        assert(response::incomplete_details(reason)->Obj_0.dom() =~= set!["reason"@]);
    }
}

/// The names in the items of an output are all different.
proof fn item_names_differ()
    ensures
        "id"@ != "type"@ && "id"@ != "status"@ && "id"@ != "role"@ && "id"@ != "content"@,
        "id"@ != "summary"@ && "id"@ != "call_id"@ && "id"@ != "name"@ && "id"@ != "arguments"@,
        "id"@ != "input"@ && "type"@ != "status"@ && "type"@ != "role"@ && "type"@ != "content"@,
        "type"@ != "summary"@ && "type"@ != "call_id"@ && "type"@ != "name"@,
        "type"@ != "arguments"@ && "type"@ != "input"@ && "type"@ != "text"@,
        "type"@ != "annotations"@ && "text"@ != "annotations"@,
        "status"@ != "role"@ && "status"@ != "content"@ && "role"@ != "content"@,
        "status"@ != "call_id"@ && "status"@ != "name"@ && "status"@ != "arguments"@,
        "status"@ != "input"@ && "call_id"@ != "name"@ && "call_id"@ != "arguments"@,
        "call_id"@ != "input"@ && "name"@ != "arguments"@ && "name"@ != "input"@,
        "function_call"@ != "custom_tool_call"@,
{
    reveal_strlit("id");
    reveal_strlit("type");
    reveal_strlit("status");
    reveal_strlit("role");
    reveal_strlit("content");
    reveal_strlit("summary");
    reveal_strlit("call_id");
    reveal_strlit("name");
    reveal_strlit("arguments");
    reveal_strlit("input");
    reveal_strlit("text");
    reveal_strlit("annotations");
    reveal_strlit("function_call");
    reveal_strlit("custom_tool_call");
    assert("id"@.len() == 2);
    assert("type"@.len() == 4);
    assert("status"@.len() == 6);
    assert("role"@.len() == 4);
    assert("content"@.len() == 7);
    assert("summary"@.len() == 7);
    assert("call_id"@.len() == 7);
    assert("name"@.len() == 4);
    assert("arguments"@.len() == 9);
    assert("input"@.len() == 5);
    assert("text"@.len() == 4);
    assert("annotations"@.len() == 11);
    assert("function_call"@.len() == 13);
    assert("custom_tool_call"@.len() == 16);
    assert("type"@[0] == 't');
    assert("role"@[0] == 'r');
    assert("name"@[0] == 'n');
    assert("type"@[1] == 'y');
    assert("text"@[1] == 'e');
    assert("text"@[0] == 't');
    assert("content"@[0] == 'c');
    assert("summary"@[0] == 's');
    assert("content"@[1] == 'o');
    assert("call_id"@[1] == 'a');
    assert("call_id"@[0] == 'c');
}

/// What the assistant says becomes a completed message of the assistant's with one text, which is
/// all the words and no others.
pub proof fn words_are_told(id: Seq<char>, words: Seq<char>)
    ensures
        ({
            let item = response::said_item(id, words);
            let parts = json::as_items(json::field(item, "content"@));
            &&& history::tells(item, "id"@, id)
            &&& history::tells(item, "type"@, "message"@)
            &&& history::tells(item, "status"@, "completed"@)
            &&& history::tells(item, "role"@, "assistant"@)
            &&& history::has_only(item, set!["id"@, "type"@, "status"@, "role"@, "content"@])
            &&& parts.len() == 1
            &&& history::tells(parts[0], "type"@, "output_text"@)
            &&& history::tells(parts[0], "text"@, words)
            &&& json::field(parts[0], "annotations"@) == Some(JsonView::Arr(Seq::empty()))
            &&& history::has_only(parts[0], set!["type"@, "text"@, "annotations"@])
        }),
{
    item_names_differ();
    let item = response::said_item(id, words);
    let parts = json::as_items(json::field(item, "content"@));
    assert(item->Obj_0.dom() =~= set!["id"@, "type"@, "status"@, "role"@, "content"@]);
    assert(parts[0]->Obj_0.dom() =~= set!["type"@, "text"@, "annotations"@]);
}

/// What the model thought becomes a reasoning item with one summary, which is all of it.
pub proof fn thoughts_are_told(id: Seq<char>, words: Seq<char>)
    ensures
        ({
            let item = response::thought_item(id, words);
            let parts = json::as_items(json::field(item, "summary"@));
            &&& history::tells(item, "id"@, id)
            &&& history::tells(item, "type"@, "reasoning"@)
            &&& history::has_only(item, set!["id"@, "type"@, "summary"@])
            &&& parts.len() == 1
            &&& history::tells(parts[0], "type"@, "summary_text"@)
            &&& history::tells(parts[0], "text"@, words)
            &&& history::has_only(parts[0], set!["type"@, "text"@])
        }),
{
    item_names_differ();
    let item = response::thought_item(id, words);
    let parts = json::as_items(json::field(item, "summary"@));
    assert(item->Obj_0.dom() =~= set!["id"@, "type"@, "summary"@]);
    assert(parts[0]->Obj_0.dom() =~= set!["type"@, "text"@]);
}

/// A call of a function becomes a completed item with its identifier, its name and its arguments,
/// all as they are.
pub proof fn function_calls_are_told(
    id: Seq<char>,
    call_id: Seq<char>,
    name: Seq<char>,
    args: Seq<char>,
)
    ensures
        ({
            let item = response::call_item(id, call_id, name, args, false);
            &&& history::tells(item, "id"@, id)
            &&& history::tells(item, "type"@, "function_call"@)
            &&& history::tells(item, "status"@, "completed"@)
            &&& history::tells(item, "call_id"@, call_id)
            &&& history::tells(item, "name"@, name)
            &&& history::tells(item, "arguments"@, args)
            &&& history::has_only(
                item,
                set!["id"@, "type"@, "status"@, "call_id"@, "name"@, "arguments"@],
            )
        }),
{
    item_names_differ();
    let item = response::call_item(id, call_id, name, args, false);
    assert(item->Obj_0.dom() =~= set![
        "id"@,
        "type"@,
        "status"@,
        "call_id"@,
        "name"@,
        "arguments"@,
    ]);
}

/// A call of a custom tool becomes a completed item with its identifier, its name and its raw
/// input: the text under `input` in the arguments, or the arguments themselves where they hold
/// none.
pub proof fn custom_calls_are_told(
    id: Seq<char>,
    call_id: Seq<char>,
    name: Seq<char>,
    args: Seq<char>,
    input: Seq<char>,
)
    ensures
        ({
            let item = response::call_item(id, call_id, name, args, true);
            let read = json::read_text(args);
            &&& history::tells(item, "id"@, id)
            &&& history::tells(item, "type"@, "custom_tool_call"@)
            &&& history::tells(item, "status"@, "completed"@)
            &&& history::tells(item, "call_id"@, call_id)
            &&& history::tells(item, "name"@, name)
            &&& read is Some && history::tells(read->0, "input"@, input) ==> history::tells(
                item,
                "input"@,
                input,
            )
            &&& read is None || json::as_text(json::field(read->0, "input"@)) is None
                ==> history::tells(item, "input"@, args)
            &&& history::has_only(
                item,
                set!["id"@, "type"@, "status"@, "call_id"@, "name"@, "input"@],
            )
        }),
{
    item_names_differ();
    let item = response::call_item(id, call_id, name, args, true);
    assert(item->Obj_0.dom() =~= set!["id"@, "type"@, "status"@, "call_id"@, "name"@, "input"@]);
}

/// What the model thought is its `reasoning_content`, whatever else the message holds or lacks; a
/// message without that tells it as its `reasoning`; an empty text is no thought.
pub proof fn thoughts_are_found(msg: JsonView, words: Seq<char>)
    ensures
        history::tells(msg, "reasoning_content"@, words) && words.len() > 0 ==> response::thought(
            msg,
        ) == Some(words),
        json::field(msg, "reasoning_content"@) is None && history::tells(msg, "reasoning"@, words)
            && words.len() > 0 ==> response::thought(msg) == Some(words),
        history::tells(msg, "reasoning_content"@, words) && words.len() == 0 ==> response::thought(
            msg,
        ) is None,
        json::field(msg, "reasoning_content"@) is Some && json::as_text(
            json::field(msg, "reasoning_content"@),
        ) is None ==> response::thought(msg) is None,
        json::field(msg, "reasoning_content"@) is None && json::as_text(
            json::field(msg, "reasoning"@),
        ) is None ==> response::thought(msg) is None,
        json::field(msg, "reasoning_content"@) is None && history::tells(msg, "reasoning"@, words)
            && words.len() == 0 ==> response::thought(msg) is None,
{
}

/// The first choice of a completion counts, and its message; calls are read out of a list only.
pub proof fn first_choice_counts(chat: JsonView, choices: Seq<JsonView>, calls: Seq<JsonView>)
    ensures
        json::field(chat, "choices"@) == Some(JsonView::Arr(choices)) && choices.len() > 0
            ==> response::first_choice(chat) == choices[0],
        json::field(chat, "choices"@) == Some(JsonView::Arr(choices)) && choices.len() == 0
            ==> response::first_choice(chat) == JsonView::Null,
        json::field(chat, "choices"@) is None ==> response::first_choice(chat) == JsonView::Null,
        json::field(chat, "choices"@) is Some && !(json::field(chat, "choices"@)->0 is Arr)
            && json::field2(chat, "choices"@, "0"@) is None ==> response::first_choice(chat)
            == JsonView::Null,
        json::field2(chat, "choices"@, "0"@) is Some ==> response::first_choice(chat)
            == json::field2(chat, "choices"@, "0"@)->0,
        json::field(response::first_choice(chat), "message"@) is Some ==> response::first_message(
            chat,
        ) == json::field(response::first_choice(chat), "message"@)->0,
        json::field(response::first_choice(chat), "message"@) is None ==> response::first_message(
            chat,
        ) == JsonView::Null,
        json::field(response::first_message(chat), "tool_calls"@) == Some(JsonView::Arr(calls))
            ==> response::calls_made(chat) == calls,
        json::field(response::first_message(chat), "tool_calls"@) is None ==> response::calls_made(
            chat,
        ).len() == 0,
{
}

/// A call is told with the name, the arguments and the identifier that it has, as they are; where
/// it has no identifier it gets the fresh one. It is told as custom where its name is that of a
/// custom tool.
pub proof fn made_calls_are_told(
    call: JsonView,
    ids: (Seq<char>, Seq<char>),
    custom: Set<Seq<char>>,
    call_id: Seq<char>,
    name: Seq<char>,
    args: Seq<char>,
)
    requires
        json::field2(call, "function"@, "name"@) == Some(JsonView::Str(name)),
        json::field2(call, "function"@, "arguments"@) == Some(JsonView::Str(args)),
    ensures
        history::tells(call, "id"@, call_id) ==> response::made_item(call, ids, custom)
            == response::call_item(ids.0, call_id, name, args, custom.contains(name)),
        json::as_text(json::field(call, "id"@)) is None ==> response::made_item(call, ids, custom)
            == response::call_item(ids.0, ids.1, name, args, custom.contains(name)),
{
}

/// A call is told by the name and the arguments of its function, and one without them with empty
/// ones.
pub proof fn bare_calls_are_told(
    call: JsonView,
    ids: (Seq<char>, Seq<char>),
    custom: Set<Seq<char>>,
    s: Seq<char>,
)
    ensures
        json::field2(call, "function"@, "name"@) == Some(JsonView::Str(s)) ==> response::called_name(
            call,
        ) == s,
        json::field2(call, "function"@, "arguments"@) == Some(JsonView::Str(s))
            ==> response::called_args(call) == s,
        history::tells(call, "id"@, s) ==> response::made_item(call, ids, custom)
            == response::call_item(
            ids.0,
            s,
            response::called_name(call),
            response::called_args(call),
            custom.contains(response::called_name(call)),
        ),
        json::as_text(json::field2(call, "function"@, "name"@)) is None ==> response::called_name(
            call,
        ).len() == 0,
        json::as_text(json::field2(call, "function"@, "arguments"@)) is None
            ==> response::called_args(call).len() == 0,
{
}

/// The output begins with what the model thought, where it thought anything; then comes what it
/// says, where it says anything; then the calls. All of it is told, and nothing else.
pub proof fn output_is_complete(
    chat: JsonView,
    custom: Set<Seq<char>>,
    ids: response::IdsView,
    thought: Seq<char>,
    words: Seq<char>,
)
    ensures
        ({
            let items = response::output_items(chat, custom, ids);
            let msg = response::first_message(chat);
            let calls = response::calls_made(chat);
            let thinks = response::thought(msg) == Some(thought);
            let says = history::tells(msg, "content"@, words) && words.len() > 0;
            let silent = json::as_text(json::field(msg, "content"@)) is None || history::tells(
                msg,
                "content"@,
                Seq::empty(),
            );
            &&& thinks ==> items.len() > 0 && items[0] == response::thought_item(
                ids.reasoning,
                thought,
            )
            &&& thinks && says ==> items.len() == calls.len() + 2 && items[1]
                == response::said_item(ids.message, words)
            &&& thinks && silent ==> items.len() == calls.len() + 1
            &&& response::thought(msg) is None && says ==> items.len() == calls.len() + 1
                && items[0] == response::said_item(ids.message, words)
            &&& response::thought(msg) is None && silent ==> items.len() == calls.len()
        }),
{
}

/// A message that tells its reasoning and says something gives an output that begins with both,
/// each whole: the reasoning first.
pub proof fn reasoning_and_words_are_told(
    chat: JsonView,
    custom: Set<Seq<char>>,
    ids: response::IdsView,
    thought: Seq<char>,
    words: Seq<char>,
)
    requires
        history::tells(response::first_message(chat), "reasoning_content"@, thought),
        history::tells(response::first_message(chat), "content"@, words),
        thought.len() > 0,
        words.len() > 0,
    ensures
        ({
            let items = response::output_items(chat, custom, ids);
            let summary = json::as_items(json::field(items[0], "summary"@));
            let parts = json::as_items(json::field(items[1], "content"@));
            &&& items.len() >= 2
            &&& history::tells(items[0], "type"@, "reasoning"@)
            &&& summary.len() == 1 && history::tells(summary[0], "text"@, thought)
            &&& history::tells(items[1], "type"@, "message"@)
            &&& parts.len() == 1 && history::tells(parts[0], "text"@, words)
        }),
{
    thoughts_are_found(response::first_message(chat), thought);
    output_is_complete(chat, custom, ids, thought, words);
    thoughts_are_told(ids.reasoning, thought);
    words_are_told(ids.message, words);
}

/// The response of a completion tells its model, or else the one that was asked for; its time, or
/// else the time now; the status and the reason after why it stopped; its output and its usage.
pub proof fn completion_is_answered(
    chat: JsonView,
    id: Seq<char>,
    fallback: Seq<char>,
    custom: Set<Seq<char>>,
    ids: response::IdsView,
    now: i64,
    s: Seq<char>,
    n: int,
)
    requires
        i64::MIN <= n <= i64::MAX,
    ensures
        ({
            let r = response::whole_response(chat, id, fallback, custom, ids, now);
            let choice = response::first_choice(chat);
            &&& history::tells(r, "id"@, id)
            &&& history::tells(chat, "model"@, s) ==> history::tells(r, "model"@, s)
            &&& json::as_text(json::field(chat, "model"@)) is None ==> history::tells(
                r,
                "model"@,
                fallback,
            )
            &&& json::field(chat, "created"@) == Some(JsonView::Int(n)) ==> json::field(
                r,
                "created_at"@,
            ) == Some(JsonView::Int(n))
            &&& json::as_integer(json::field(chat, "created"@)) is None ==> json::field(
                r,
                "created_at"@,
            ) == Some(JsonView::Int(now as int))
            &&& history::tells(choice, "finish_reason"@, "length"@) ==> history::tells(
                r,
                "status"@,
                "incomplete"@,
            ) && json::field2(r, "incomplete_details"@, "reason"@) == Some(
                JsonView::Str("max_output_tokens"@),
            )
            &&& history::tells(choice, "finish_reason"@, "content_filter"@) ==> history::tells(
                r,
                "status"@,
                "incomplete"@,
            ) && json::field2(r, "incomplete_details"@, "reason"@) == Some(
                JsonView::Str("content_filter"@),
            )
            &&& !history::tells(choice, "finish_reason"@, "length"@) && !history::tells(
                choice,
                "finish_reason"@,
                "content_filter"@,
            ) ==> history::tells(r, "status"@, "completed"@) && json::field(
                r,
                "incomplete_details"@,
            ) == Some(JsonView::Null)
            &&& json::field(r, "output"@) == Some(
                JsonView::Arr(response::output_items(chat, custom, ids)),
            )
            &&& json::field(r, "usage"@) == Some(
                response::usage(json::field(chat, "usage"@)),
            )
            &&& json::field(r, "error"@) == Some(JsonView::Null)
        }),
{
    let choice = response::first_choice(chat);
    let fr = json::as_text(json::field(choice, "finish_reason"@));
    let (status, reason) = response::status_of(fr);
    let created = match json::as_integer(json::field(chat, "created"@)) {
        Some(t) => t,
        None => now,
    };
    reasons_decide(if fr is Some { fr->0 } else { Seq::empty() });
    let model = match json::as_text(json::field(chat, "model"@)) {
        Some(m) => m,
        None => fallback,
    };
    responses_are_written(
        id,
        created,
        model,
        status,
        reason,
        response::output_items(chat, custom, ids),
        response::usage(json::field(chat, "usage"@)),
    );
}

/// An identifier is its prefix, an underscore and thirty-two digits to the base sixteen.
pub proof fn identifiers_are_formed(s: Seq<char>, prefix: Seq<char>)
    requires
        fresh::identifier(s, prefix),
    ensures
        s.len() == prefix.len() + 33,
        s.take(prefix.len() as int) == prefix,
        s[prefix.len() as int] == '_',
        forall|i: int|
            prefix.len() < i < s.len() ==> '0' <= #[trigger] s[i] <= '9' || 'a' <= s[i] <= 'f',
        s[prefix.len() as int + 13] == '4',
{
    reveal_strlit("_");
    assert("_"@.len() == 1 && "_"@[0] == '_');
    let digits = choose|digits: Seq<char>| #[trigger]
        fresh::uuid_digits(digits) && s == prefix + "_"@ + digits;
    assert(s.take(prefix.len() as int) =~= prefix);
    assert forall|i: int| prefix.len() < i < s.len() implies '0' <= #[trigger] s[i] <= '9' || 'a'
        <= s[i] <= 'f' by {
        assert(s[i] == digits[i - prefix.len() - 1]);
    }
}

/// The identifiers that are drawn for a response are for what they are: each with its own prefix,
/// and two for every call.
pub proof fn identifiers_are_drawn(ids: response::IdsView, calls: nat, i: int)
    requires
        response::made_for(ids, calls),
        0 <= i < calls,
    ensures
        fresh::identifier(ids.reasoning, "rs"@),
        fresh::identifier(ids.message, "msg"@),
        ids.calls.len() == calls,
        fresh::identifier(ids.calls[i].0, "fc"@),
        fresh::identifier(ids.calls[i].1, "call"@),
{
}

/// A point in time before 1970 counts as its start; a later one counts its whole seconds.
pub proof fn time_is_counted(t: std::time::SystemTime)
    ensures
        fresh::since_epoch(t) is None ==> fresh::unix_time(t) == 0,
        fresh::since_epoch(t) is Some && fresh::whole_seconds(fresh::since_epoch(t)->0) <= i64::MAX
            ==> fresh::unix_time(t) == fresh::whole_seconds(fresh::since_epoch(t)->0),
{
}

} // verus!
