//! What holds of the reports, line by line.

use vstd::prelude::*;

use crate::convert::laws::history;
use crate::json;
use crate::json::JsonView;
use crate::laws;
use crate::report;
use crate::report::ReportView;
use crate::text;

verus! {

/// A function is declared with its name and the names of all its parameters, in order; a custom
/// tool with its name; a tool of another type is not declared.
pub proof fn tools_are_declared(
    tool: JsonView,
    name: Seq<char>,
    members: Map<Seq<char>, JsonView>,
    list: Seq<Seq<char>>,
)
    requires
        history::tells(tool, "name"@, name) || (name == "?"@ && json::as_text(
            json::field(tool, "name"@),
        ) is None),
    ensures
        history::tells(tool, "type"@, "function"@) && json::field2(
            tool,
            "parameters"@,
            "properties"@,
        ) == Some(JsonView::Obj(members)) && json::lists_names(list, members)
            ==> report::declaration(tool) == Some(
            name + "("@ + text::joined(list, ", "@) + ") [function]"@,
        ),
        history::tells(tool, "type"@, "function"@) && !(json::field2(
            tool,
            "parameters"@,
            "properties"@,
        ) is Some && json::field2(tool, "parameters"@, "properties"@)->0 is Obj) ==> report::declaration(tool) == Some(name + "("@ + ") [function]"@),
        history::tells(tool, "type"@, "custom"@) ==> report::declaration(tool) == Some(
            name + "(input) [custom→function]"@,
        ),
        !history::tells(tool, "type"@, "function"@) && !history::tells(tool, "type"@, "custom"@)
            ==> report::declaration(tool) is None,
{
    reveal_strlit("?");
    reveal_strlit("function");
    reveal_strlit("custom");
    assert("?"@.len() == 1);
    assert("function"@.len() == 8);
    assert("custom"@.len() == 6);
    if json::lists_names(list, members) {
        let other = json::sorted_names(members);
        assert(json::lists_names(other, members));
        text::ascending_unique(list, other);
    }
    assert(text::joined(Seq::empty(), ", "@) =~= Seq::<char>::empty());
    assert(name + "("@ + Seq::<char>::empty() + ") [function]"@ =~= name + "("@
        + ") [function]"@);
}

/// The declarations of two lists of tools are those of the one and then those of the other.
pub proof fn declarations_keep_their_order(a: Seq<JsonView>, b: Seq<JsonView>, tool: JsonView)
    ensures
        report::declarations(a + b) == report::declarations(a) + report::declarations(b),
        report::declarations(seq![tool]) == match report::declaration(tool) {
            Some(d) => seq![d],
            None => Seq::empty(),
        },
    decreases b.len(),
{
    assert(seq![tool].drop_last() =~= Seq::<JsonView>::empty());
    assert(report::declarations(seq![tool].drop_last()) =~= Seq::<Seq<char>>::empty());
    if b.len() == 0 {
        assert(a + b =~= a);
        assert(report::declarations(a) + report::declarations(b) =~= report::declarations(a));
    } else {
        declarations_keep_their_order(a, b.drop_last(), tool);
        assert((a + b).drop_last() =~= a + b.drop_last());
        assert((a + b).last() == b.last());
        assert(report::declarations(a + b) =~= report::declarations(a) + report::declarations(b));
    }
}

/// Calls and outputs are told by their types.
pub proof fn calls_and_outputs_are_known(item: JsonView, kind: Seq<char>)
    requires
        json::text_field(item, "type"@) == kind,
    ensures
        report::is_call(item) <==> kind == "function_call"@ || kind == "custom_tool_call"@ || kind
            == "local_shell_call"@,
        report::is_output(item) <==> kind == "function_call_output"@ || kind
            == "custom_tool_call_output"@ || kind == "local_shell_call_output"@,
{
}

/// A call is counted under its identifier and its name, an output under the identifier of its call;
/// a call without a name is one of the local shell. Anything else is not counted.
pub proof fn calls_and_outputs_are_counted(item: JsonView, name: Seq<char>)
    ensures
        report::call_ids(seq![item]) == if report::is_call(item) {
            seq![json::text_field(item, "call_id"@)]
        } else {
            Seq::empty()
        },
        report::is_call(item) && history::tells(item, "name"@, name) ==> report::call_names(
            seq![item],
        ) == seq![name],
        report::is_call(item) && json::as_text(json::field(item, "name"@)) is None
            ==> report::call_names(seq![item]) == seq!["local_shell"@],
        !report::is_call(item) ==> report::call_names(seq![item]).len() == 0,
        report::output_ids(seq![item]) == if report::is_output(item) {
            seq![json::text_field(item, "call_id"@)]
        } else {
            Seq::empty()
        },
{
    assert(seq![item].drop_last() =~= Seq::<JsonView>::empty());
    assert(report::call_ids(seq![item].drop_last()) =~= Seq::<Seq<char>>::empty());
    assert(report::call_names(seq![item].drop_last()) =~= Seq::<Seq<char>>::empty());
    assert(report::output_ids(seq![item].drop_last()) =~= Seq::<Seq<char>>::empty());
}

/// What is counted of two lists of items is what is counted of the one and then of the other.
pub proof fn counts_keep_their_order(a: Seq<JsonView>, b: Seq<JsonView>)
    ensures
        report::call_ids(a + b) == report::call_ids(a) + report::call_ids(b),
        report::call_names(a + b) == report::call_names(a) + report::call_names(b),
        report::output_ids(a + b) == report::output_ids(a) + report::output_ids(b),
    decreases b.len(),
{
    if b.len() == 0 {
        assert(a + b =~= a);
        assert(report::call_ids(a) + report::call_ids(b) =~= report::call_ids(a));
        assert(report::call_names(a) + report::call_names(b) =~= report::call_names(a));
        assert(report::output_ids(a) + report::output_ids(b) =~= report::output_ids(a));
    } else {
        counts_keep_their_order(a, b.drop_last());
        assert((a + b).drop_last() =~= a + b.drop_last());
        assert((a + b).last() == b.last());
        assert(report::call_ids(a + b) =~= report::call_ids(a) + report::call_ids(b));
        assert(report::call_names(a + b) =~= report::call_names(a) + report::call_names(b));
        assert(report::output_ids(a + b) =~= report::output_ids(a) + report::output_ids(b));
    }
}

/// Occurrences in two lists add up; a text occurs once in a list of itself, and not in one of
/// another.
pub proof fn occurrences_add_up(a: Seq<Seq<char>>, b: Seq<Seq<char>>, s: Seq<char>, t: Seq<char>)
    ensures
        report::occurrences(a + b, s) == report::occurrences(a, s) + report::occurrences(b, s),
        report::occurrences(seq![t], s) == if t == s {
            1nat
        } else {
            0nat
        },
        report::occurrences(Seq::empty(), s) == 0,
    decreases b.len(),
{
    assert(seq![t].drop_last() =~= Seq::<Seq<char>>::empty());
    assert(report::occurrences(seq![t].drop_last(), s) == 0);
    if b.len() == 0 {
        assert(a + b =~= a);
    } else {
        occurrences_add_up(a, b.drop_last(), s, t);
        assert((a + b).drop_last() =~= a + b.drop_last());
        assert((a + b).last() == b.last());
    }
}

/// What was seen first stays where it is when more follows.
pub proof fn first_seen_stays_first(a: Seq<Seq<char>>, b: Seq<Seq<char>>)
    ensures
        report::first_seen(a).is_prefix_of(report::first_seen(a + b)),
    decreases b.len(),
{
    if b.len() == 0 {
        assert(a + b =~= a);
    } else {
        first_seen_stays_first(a, b.drop_last());
        assert((a + b).drop_last() =~= a + b.drop_last());
    }
}

/// What is missing of two lists is what is missing of the one and then what is missing of the
/// other.
pub proof fn missing_keep_their_order(
    a: Seq<Seq<char>>,
    b: Seq<Seq<char>>,
    others: Seq<Seq<char>>,
    s: Seq<char>,
)
    ensures
        report::not_among(a + b, others) == report::not_among(a, others) + report::not_among(
            b,
            others,
        ),
        report::not_among(seq![s], others) == if others.contains(s) {
            Seq::empty()
        } else {
            seq![s]
        },
    decreases b.len(),
{
    assert(seq![s].drop_last() =~= Seq::<Seq<char>>::empty());
    assert(report::not_among(seq![s].drop_last(), others) =~= Seq::<Seq<char>>::empty());
    if b.len() == 0 {
        assert(a + b =~= a);
        assert(report::not_among(a, others) + report::not_among(b, others) =~= report::not_among(
            a,
            others,
        ));
    } else {
        missing_keep_their_order(a, b.drop_last(), others, s);
        assert((a + b).drop_last() =~= a + b.drop_last());
        assert((a + b).last() == b.last());
        assert(report::not_among(a + b, others) =~= report::not_among(a, others)
            + report::not_among(b, others));
    }
}

/// Each tool that was called is told once, where it was first called, with the number of its calls.
pub proof fn calls_are_tallied(names: Seq<Seq<char>>, i: int)
    requires
        0 <= i < report::first_seen(names).len(),
    ensures
        ({
            let name = report::first_seen(names)[i];
            &&& report::tallies(names).len() == report::first_seen(names).len()
            &&& report::tallies(names)[i] == name + " ×"@ + text::decimal(
                report::occurrences(names, name),
            )
            &&& names.contains(name)
        }),
{
    report::first_seen_holds(names);
    assert(report::first_seen(names).contains(report::first_seen(names)[i]));
}

/// The summary of a request: the tools that are declared, those that are dropped where there are
/// any, whether several calls at once are allowed, and the calls and outputs in the input, with
/// how often each tool was called; behind that, the calls without an output and the outputs
/// without a call, where there are any.
pub proof fn summary_tells_all(req: JsonView, dropped: Seq<Seq<char>>)
    ensures
        ({
            let declared = report::declarations(json::as_items(json::field(req, "tools"@)));
            let items = json::as_items(json::field(req, "input"@));
            let names = report::call_names(items);
            let calls = report::call_ids(items);
            let outputs = report::output_ids(items);
            let no_output = report::not_among(calls, outputs);
            let no_call = report::not_among(outputs, calls);
            let parallel = json::present(json::field(req, "parallel_tool_calls"@));
            let tools_line = "    tools  ▸ declared ("@ + text::decimal(declared.len()) + "): "@
                + if declared.len() > 0 {
                text::joined(declared, ", "@)
            } else {
                "-"@
            };
            let dropped_line = if dropped.len() > 0 {
                "\n             dropped ("@ + text::decimal(dropped.len()) + "): "@ + text::joined(
                    dropped,
                    ", "@,
                )
            } else {
                Seq::empty()
            };
            let parallel_line = "\n             parallel_tool_calls="@ + if parallel is Some {
                json::written(parallel->0)
            } else {
                "-"@
            };
            let counts = if names.len() > 0 {
                " ("@ + text::joined(report::tallies(names), ", "@) + ")"@
            } else {
                Seq::empty()
            };
            let history_line = "\n             in input: "@ + text::decimal(names.len())
                + " calls"@ + counts + ", "@ + text::decimal(outputs.len()) + " outputs"@;
            let first_warning = if no_output.len() > 0 {
                "\n             ⚠ calls without output: "@ + text::joined(no_output, ", "@)
            } else {
                Seq::empty()
            };
            let second_warning = if no_call.len() > 0 {
                "\n             ⚠ outputs without call: "@ + text::joined(no_call, ", "@)
            } else {
                Seq::empty()
            };
            report::summary(req, dropped) == tools_line + dropped_line + parallel_line
                + history_line + first_warning + second_warning
        }),
{
}

/// The further members that tell why a choice stopped are told in their order, each as it is, where
/// it is there and not null.
pub proof fn stop_members_are_told(choice: JsonView)
    ensures
        ({
            let all = report::stop_members(choice);
            let a = json::present(json::field(choice, "stop_reason"@));
            let b = json::present(json::field(choice, "native_finish_reason"@));
            let c = json::present(json::field(choice, "matched_stop"@));
            &&& a is Some ==> all.contains(("stop_reason"@, a->0)) && all[0] == (
                "stop_reason"@,
                a->0,
            )
            &&& b is Some ==> all.contains(("native_finish_reason"@, b->0))
            &&& c is Some ==> all.contains(("matched_stop"@, c->0)) && all.last() == (
                "matched_stop"@,
                c->0,
            )
            &&& all.len() == (if a is Some { 1int } else { 0 }) + (if b is Some { 1int } else {
                0
            }) + (if c is Some { 1int } else { 0 })
        }),
{
    let all = report::stop_members(choice);
    let a = json::present(json::field(choice, "stop_reason"@));
    let b = json::present(json::field(choice, "native_finish_reason"@));
    let c = json::present(json::field(choice, "matched_stop"@));
    let x = report::told(choice, "stop_reason"@);
    let y = report::told(choice, "native_finish_reason"@);
    let z = report::told(choice, "matched_stop"@);
    assert(all == x + y + z);
    if a is Some {
        assert(all[0] == x[0]);
    }
    if b is Some {
        assert(all[x.len() as int] == y[0]);
    }
    if c is Some {
        assert(all[all.len() - 1] == z[0]);
    }
}

/// The further members stand in the stop line one after another, each with its name and its value.
pub proof fn stop_members_are_written(
    a: Seq<(Seq<char>, JsonView)>,
    b: Seq<(Seq<char>, JsonView)>,
    name: Seq<char>,
    value: JsonView,
)
    ensures
        report::extras(a + b) == report::extras(a) + report::extras(b),
        report::extras(seq![(name, value)]) == "  | "@ + name + " = "@ + json::written(value),
        report::extras(Seq::empty()).len() == 0,
    decreases b.len(),
{
    let one = seq![(name, value)];
    assert(one.drop_last() =~= Seq::<(Seq<char>, JsonView)>::empty());
    assert(report::extras(one.drop_last()) =~= Seq::<char>::empty());
    assert(report::extras(one) =~= "  | "@ + name + " = "@ + json::written(value));
    if b.len() == 0 {
        assert(a + b =~= a);
        assert(report::extras(a) + report::extras(b) =~= report::extras(a));
    } else {
        stop_members_are_written(a, b.drop_last(), name, value);
        assert((a + b).drop_last() =~= a + b.drop_last());
        assert((a + b).last() == b.last());
        assert(report::extras(a + b) =~= report::extras(a) + report::extras(b));
    }
}

/// Every note is told on a line of its own, whole and in order.
pub proof fn notes_are_written(a: Seq<Seq<char>>, b: Seq<Seq<char>>, note: Seq<char>)
    ensures
        report::note_lines(a + b) == report::note_lines(a) + report::note_lines(b),
        report::note_lines(seq![note]) == "\n    note   ▸ "@ + note,
        report::note_lines(Seq::empty()).len() == 0,
    decreases b.len(),
{
    assert(seq![note].drop_last() =~= Seq::<Seq<char>>::empty());
    assert(report::note_lines(seq![note].drop_last()) =~= Seq::<char>::empty());
    assert(report::note_lines(seq![note]) =~= "\n    note   ▸ "@ + note);
    if b.len() == 0 {
        assert(a + b =~= a);
        assert(report::note_lines(a) + report::note_lines(b) =~= report::note_lines(a));
    } else {
        notes_are_written(a, b.drop_last(), note);
        assert((a + b).drop_last() =~= a + b.drop_last());
        assert((a + b).last() == b.last());
        assert(report::note_lines(a + b) =~= report::note_lines(a) + report::note_lines(b));
    }
}

/// A number as the usage line tells it.
pub open spec fn number(n: int) -> Seq<char> {
    report::grouped(text::decimal(n as nat))
}

/// The usage line tells the tokens of the input and of the output, the cached ones with their
/// share, which is none where there is no input, and those of the reasoning, each as it was told;
/// what was not told of the cached and of the reasoning tokens is not made up.
pub proof fn usage_is_told(u: JsonView, percent: Seq<char>, input: int, output: int, n: int)
    requires
        u is Obj,
        0 <= input <= u64::MAX,
        0 <= output <= u64::MAX,
        0 <= n <= u64::MAX,
        json::field(u, "prompt_tokens"@) == Some(JsonView::Int(input)) || (input == 0
            && json::as_natural(json::field(u, "prompt_tokens"@)) is None),
        json::field(u, "completion_tokens"@) == Some(JsonView::Int(output)) || (output == 0
            && json::as_natural(json::field(u, "completion_tokens"@)) is None),
    ensures
        ({
            let line = report::usage_line(Some(u), percent);
            let cached = json::field2(u, "prompt_tokens_details"@, "cached_tokens"@);
            let reasoning = json::field2(u, "completion_tokens_details"@, "reasoning_tokens"@);
            let head = "    usage  ▸ inp: "@ + number(input) + ", cd-inp: "@;
            let share = if input == 0 {
                "0.0"@
            } else {
                percent
            };
            let middle = ", opt: "@ + number(output) + " (reasoning: "@;
            let some = number(n) + " ("@ + share + "%)"@;
            &&& cached == Some(JsonView::Int(n)) && json::as_natural(reasoning) is None ==> line
                == head + some + middle + "n/a"@ + ")"@
            &&& json::as_natural(cached) is None && reasoning == Some(JsonView::Int(n)) ==> line
                == head + "n/a"@ + middle + number(n) + ")"@
            &&& cached == Some(JsonView::Int(n)) && reasoning == Some(JsonView::Int(n)) ==> line
                == head + some + middle + number(n) + ")"@
            &&& json::as_natural(cached) is None && json::as_natural(reasoning) is None ==> line
                == head + "n/a"@ + middle + "n/a"@ + ")"@
        }),
{
    let line = report::usage_line(Some(u), percent);
    let share = if input == 0 {
        "0.0"@
    } else {
        percent
    };
    let cached = json::field2(u, "prompt_tokens_details"@, "cached_tokens"@);
    let reasoning = json::field2(u, "completion_tokens_details"@, "reasoning_tokens"@);
    let head = "    usage  ▸ inp: "@ + number(input) + ", cd-inp: "@;
    let middle = ", opt: "@ + number(output) + " (reasoning: "@;
    let some = number(n) + " ("@ + share + "%)"@;
    let told = if cached == Some(JsonView::Int(n)) { some } else { "n/a"@ };
    let thought = if reasoning == Some(JsonView::Int(n)) { number(n) } else { "n/a"@ };
    if (cached == Some(JsonView::Int(n)) || json::as_natural(cached) is None) && (reasoning == Some(
        JsonView::Int(n),
    ) || json::as_natural(reasoning) is None) {
        assert(line =~= head + told + middle + thought + ")"@);
    }
}

/// The tokens of the cache and of the reasoning are told apart: two different counts stay where
/// they belong.
pub proof fn usage_counts_are_told_apart(u: JsonView, percent: Seq<char>, c: int, r: int)
    requires
        u is Obj,
        0 <= c <= u64::MAX,
        0 <= r <= u64::MAX,
        json::field2(u, "prompt_tokens_details"@, "cached_tokens"@) == Some(JsonView::Int(c)),
        json::field2(u, "completion_tokens_details"@, "reasoning_tokens"@) == Some(
            JsonView::Int(r),
        ),
    ensures
        exists|front: Seq<char>, back: Seq<char>|
            report::usage_line(Some(u), percent) == #[trigger] (front + ", cd-inp: "@ + number(c)
                + " ("@ + back) && back.len() >= number(r).len() + 1,
        exists|front: Seq<char>|
            report::usage_line(Some(u), percent) == #[trigger] (front + " (reasoning: "@ + number(r)
                + ")"@),
{
    let line = report::usage_line(Some(u), percent);
    let input = report::grouped(
        text::decimal(crate::convert::response::input_tokens(u) as nat),
    );
    let output = report::grouped(
        text::decimal(crate::convert::response::output_tokens(u) as nat),
    );
    let share = if crate::convert::response::input_tokens(u) == 0 {
        "0.0"@
    } else {
        percent
    };
    let front = "    usage  ▸ inp: "@ + input;
    let back = share + "%)"@ + ", opt: "@ + output + " (reasoning: "@ + number(r) + ")"@;
    reveal_strlit(")");
    assert(")"@.len() == 1);
    assert(line =~= front + ", cd-inp: "@ + number(c) + " ("@ + back);
    let head = front + ", cd-inp: "@ + number(c) + " ("@ + share + "%)"@ + ", opt: "@ + output;
    assert(line =~= head + " (reasoning: "@ + number(r) + ")"@);
}

/// A usage that is no object is told as none.
pub proof fn no_usage_is_told(v: JsonView, percent: Seq<char>)
    requires
        !(v is Obj),
    ensures
        report::usage_line(Some(v), percent)
            == "    usage  ▸ <none> (upstream returned no usage)"@,
        report::usage_line(None, percent) == "    usage  ▸ <none> (upstream returned no usage)"@,
{
}

/// The block of a response tells its number, how it came, how long it took and its model; why it
/// stopped, as it was told or that it was not, with the status and the further members; its usage;
/// and the notes.
pub proof fn block_tells_all(r: ReportView, reason: Seq<char>)
    ensures
        ({
            let head = "#"@ + text::decimal(r.req_id as nat) + " ◀ response  ["@ + (if r.stream {
                "stream"@
            } else {
                "non-stream"@
            }) + ", "@ + report::seconds(r.elapsed) + "s, model="@ + r.model + "]\n"@;
            let tail = "  →  status = "@ + r.status + report::extras(r.extra_stop) + "\n"@
                + report::usage_line(r.usage, r.cached_percent) + report::note_lines(r.notes);
            &&& r.finish_reason == Some(reason) ==> report::block(r) == head
                + "    stop   ▸ finish_reason = "@ + report::quoted(reason) + tail
            &&& r.finish_reason is None ==> report::block(r) == head
                + "    stop   ▸ finish_reason = "@
                + "<MISSING> (upstream never sent finish_reason)"@ + tail
        }),
{
    let head = "#"@ + text::decimal(r.req_id as nat) + " ◀ response  ["@ + (if r.stream {
        "stream"@
    } else {
        "non-stream"@
    }) + ", "@ + report::seconds(r.elapsed) + "s, model="@ + r.model + "]\n"@;
    let tail = "  →  status = "@ + r.status + report::extras(r.extra_stop) + "\n"@
        + report::usage_line(r.usage, r.cached_percent) + report::note_lines(r.notes);
    let told = match r.finish_reason {
        Some(fr) => report::quoted(fr),
        None => "<MISSING> (upstream never sent finish_reason)"@,
    };
    assert(report::block(r) =~= head + "    stop   ▸ finish_reason = "@ + told + tail);
}

/// A response is ordinary where the model came to an end or calls tools and there is nothing to
/// note, and nowhere else.
pub proof fn ordinary_responses(r: ReportView, reason: Seq<char>)
    ensures
        r.notes.len() > 0 ==> !report::ordinary(r),
        r.finish_reason is None ==> !report::ordinary(r),
        r.finish_reason == Some(reason) && reason != "stop"@ && reason != "tool_calls"@
            ==> !report::ordinary(r),
        r.notes.len() == 0 && r.finish_reason == Some("stop"@) ==> report::ordinary(r),
        r.notes.len() == 0 && r.finish_reason == Some("tool_calls"@) ==> report::ordinary(r),
{
}

/// Digits that make at most one group stay as they are, and a comma stands before every further
/// group: nothing of the digits is lost.
pub proof fn groups_are_of_three(digits: Seq<char>)
    requires
        forall|i: int| 0 <= i < digits.len() ==> #[trigger] digits[i] != ',',
    ensures
        digits.len() <= 3 ==> report::grouped(digits) == digits,
        laws::without_commas(report::grouped(digits)) == digits,
{
    laws::groups_keep_digits(digits);
}

/// What a report says is what it was made with, and what a log says is what its entries say.
pub proof fn reports_say_what_they_hold(r: report::Report, list: Seq<report::Entry>, i: int)
    requires
        0 <= i < list.len(),
    ensures
        r@.req_id == r.req_id,
        r@.stream == r.stream,
        r@.elapsed == r.elapsed,
        r@.model == r.model@,
        r@.finish_reason is Some <==> r.finish_reason is Some,
        r.finish_reason is Some ==> r@.finish_reason == Some(r.finish_reason->0@),
        r@.extra_stop.len() == r.extra_stop@.len(),
        r@.status == r.status@,
        r.usage is Some ==> r@.usage == Some(r.usage->0@),
        r.usage is None ==> r@.usage is None,
        r@.cached_percent == r.cached_percent@,
        r@.notes.len() == r.notes@.len(),
        report::logged(list).len() == list.len(),
        report::logged(list)[i] == (list[i].text@, list[i].level),
{
}

} // verus!
