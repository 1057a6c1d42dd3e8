//! Per-response log block: stop value + usage.

use std::time::Duration;

use vstd::prelude::*;

use crate::convert::response;
use crate::json;
use crate::json::{Json, JsonView};
use crate::text;

verus! {

// ---------------------------------------------------------------------------
// Numbers
// ---------------------------------------------------------------------------

/// Digits with a comma before each group of three, counted from the right.
pub open spec fn grouped(digits: Seq<char>) -> Seq<char>
    decreases digits.len(),
{
    if digits.len() <= 3 {
        digits
    } else {
        grouped(digits.take(digits.len() - 3)) + ","@ + digits.skip(digits.len() - 3)
    }
}

proof fn decimal_splits(n: nat)
    ensures
        n < 1000 ==> text::decimal(n).len() <= 3,
        n >= 1000 ==> text::decimal(n) == text::decimal(n / 1000) + seq![
            text::digit(n / 100 % 10),
            text::digit(n / 10 % 10),
            text::digit(n % 10),
        ],
        n >= 1000 ==> text::decimal(n / 1000).len() > 0,
{
    reveal_with_fuel(text::decimal, 4);
    if n >= 1000 {
        assert(n / 10 / 10 / 10 == n / 1000);
        assert(n / 10 / 10 == n / 100);
        assert(text::decimal(n) =~= text::decimal(n / 1000) + seq![
            text::digit(n / 100 % 10),
            text::digit(n / 10 % 10),
            text::digit(n % 10),
        ]);
    }
}

/// Writes a number in decimal, the digits in groups of three.
pub fn fmt_num(n: u64) -> (r: String)
    ensures
        r@ == grouped(text::decimal(n as nat)),
    decreases n,
{
    proof {
        decimal_splits(n as nat);
    }
    if n < 1000 {
        text::decimal_text(n)
    } else {
        let mut out = fmt_num(n / 1000);
        out.append(",");
        out.push(text::digit_of((n / 100 % 10) as u8));
        out.push(text::digit_of((n / 10 % 10) as u8));
        out.push(text::digit_of((n % 10) as u8));
        proof {
            let all = text::decimal(n as nat);
            let head = text::decimal((n / 1000) as nat);
            assert(all.take(all.len() - 3) =~= head);
            assert(out@ =~= grouped(head) + ","@ + all.skip(all.len() - 3));
        }
        out
    }
}

// ---------------------------------------------------------------------------
// The tools of a request
// ---------------------------------------------------------------------------

/// The names of the parameters of a function tool, in ascending order.
pub open spec fn parameter_names(tool: JsonView) -> Seq<Seq<char>> {
    match json::field2(tool, "parameters"@, "properties"@) {
        Some(JsonView::Obj(members)) => json::sorted_names(members),
        _ => Seq::empty(),
    }
}

/// A tool in a few words, if it is one that is passed on.
pub open spec fn declaration(tool: JsonView) -> Option<Seq<char>> {
    let kind = text::or(json::as_text(json::field(tool, "type"@)), "?"@);
    let name = text::or(json::as_text(json::field(tool, "name"@)), "?"@);
    if kind == "function"@ {
        Some(name + "("@ + text::joined(parameter_names(tool), ", "@) + ") [function]"@)
    } else if kind == "custom"@ {
        Some(name + "(input) [custom→function]"@)
    } else {
        None
    }
}

/// The tools that are passed on, in order.
pub open spec fn declarations(tools: Seq<JsonView>) -> Seq<Seq<char>>
    decreases tools.len(),
{
    if tools.len() == 0 {
        Seq::empty()
    } else {
        match declaration(tools.last()) {
            Some(d) => declarations(tools.drop_last()).push(d),
            None => declarations(tools.drop_last()),
        }
    }
}

/// An input item that is a call of a tool.
pub open spec fn is_call(item: JsonView) -> bool {
    let kind = json::text_field(item, "type"@);
    kind == "function_call"@ || kind == "custom_tool_call"@ || kind == "local_shell_call"@
}

/// An input item that is the output of a tool.
pub open spec fn is_output(item: JsonView) -> bool {
    let kind = json::text_field(item, "type"@);
    kind == "function_call_output"@ || kind == "custom_tool_call_output"@ || kind
        == "local_shell_call_output"@
}

/// The identifiers of the calls, in order.
pub open spec fn call_ids(items: Seq<JsonView>) -> Seq<Seq<char>>
    decreases items.len(),
{
    if items.len() == 0 {
        Seq::empty()
    } else if is_call(items.last()) {
        call_ids(items.drop_last()).push(json::text_field(items.last(), "call_id"@))
    } else {
        call_ids(items.drop_last())
    }
}

/// The names of the tools that the calls call, in order.
pub open spec fn call_names(items: Seq<JsonView>) -> Seq<Seq<char>>
    decreases items.len(),
{
    if items.len() == 0 {
        Seq::empty()
    } else if is_call(items.last()) {
        call_names(items.drop_last()).push(
            text::or(json::as_text(json::field(items.last(), "name"@)), "local_shell"@),
        )
    } else {
        call_names(items.drop_last())
    }
}

/// The identifiers that the outputs answer, in order.
pub open spec fn output_ids(items: Seq<JsonView>) -> Seq<Seq<char>>
    decreases items.len(),
{
    if items.len() == 0 {
        Seq::empty()
    } else if is_output(items.last()) {
        output_ids(items.drop_last()).push(json::text_field(items.last(), "call_id"@))
    } else {
        output_ids(items.drop_last())
    }
}

/// Each text of the list once, where it occurs first.
pub open spec fn first_seen(list: Seq<Seq<char>>) -> Seq<Seq<char>>
    decreases list.len(),
{
    if list.len() == 0 {
        Seq::empty()
    } else if list.drop_last().contains(list.last()) {
        first_seen(list.drop_last())
    } else {
        first_seen(list.drop_last()).push(list.last())
    }
}

/// How often the text occurs in the list.
pub open spec fn occurrences(list: Seq<Seq<char>>, s: Seq<char>) -> nat
    decreases list.len(),
{
    if list.len() == 0 {
        0
    } else {
        occurrences(list.drop_last(), s) + if list.last() == s {
            1nat
        } else {
            0nat
        }
    }
}

/// How often each tool is called, in the order of the first calls.
pub open spec fn tallies(names: Seq<Seq<char>>) -> Seq<Seq<char>> {
    first_seen(names).map_values(
        |s: Seq<char>| s + " ×"@ + text::decimal(occurrences(names, s)),
    )
}

/// The texts of the list that are not among the others, in order.
pub open spec fn not_among(list: Seq<Seq<char>>, others: Seq<Seq<char>>) -> Seq<Seq<char>>
    decreases list.len(),
{
    if list.len() == 0 {
        Seq::empty()
    } else if others.contains(list.last()) {
        not_among(list.drop_last(), others)
    } else {
        not_among(list.drop_last(), others).push(list.last())
    }
}

/// The line on the tools that are passed on.
pub open spec fn declared_line(declared: Seq<Seq<char>>) -> Seq<char> {
    "    tools  ▸ declared ("@ + text::decimal(declared.len()) + "): "@ + if declared.len()
        == 0 {
        "-"@
    } else {
        text::joined(declared, ", "@)
    }
}

/// A line with a count and a list; nothing where the list is empty.
pub open spec fn dropped_line(dropped: Seq<Seq<char>>) -> Seq<char> {
    if dropped.len() == 0 {
        Seq::empty()
    } else {
        "\n             dropped ("@ + text::decimal(dropped.len()) + "): "@ + text::joined(
            dropped,
            ", "@,
        )
    }
}

/// The line on parallel calls.
pub open spec fn parallel_line(req: JsonView) -> Seq<char> {
    "\n             parallel_tool_calls="@ + match json::present(
        json::field(req, "parallel_tool_calls"@),
    ) {
        Some(v) => json::written(v),
        None => "-"@,
    }
}

/// The line on the calls and outputs in the input.
pub open spec fn history_line(names: Seq<Seq<char>>, outputs: nat) -> Seq<char> {
    "\n             in input: "@ + text::decimal(names.len()) + " calls"@ + (if names.len() == 0 {
        Seq::empty()
    } else {
        " ("@ + text::joined(tallies(names), ", "@) + ")"@
    }) + ", "@ + text::decimal(outputs) + " outputs"@
}

/// A warning with a list; nothing where the list is empty.
pub open spec fn warning(label: Seq<char>, ids: Seq<Seq<char>>) -> Seq<char> {
    if ids.len() == 0 {
        Seq::empty()
    } else {
        label + text::joined(ids, ", "@)
    }
}

/// The summary of the tools of a request and of the calls in its input.
pub open spec fn summary(req: JsonView, dropped: Seq<Seq<char>>) -> Seq<char> {
    let items = json::as_items(json::field(req, "input"@));
    declared_line(declarations(json::as_items(json::field(req, "tools"@)))) + dropped_line(dropped)
        + parallel_line(req) + history_line(call_names(items), output_ids(items).len()) + warning(
        "\n             ⚠ calls without output: "@,
        not_among(call_ids(items), output_ids(items)),
    ) + warning(
        "\n             ⚠ outputs without call: "@,
        not_among(output_ids(items), call_ids(items)),
    )
}

fn declare(tool: &Json) -> (r: Option<String>)
    ensures
        match r {
            Some(d) => declaration(tool@) == Some(d@),
            None => declaration(tool@) is None,
        },
{
    let kind = match tool.get_text("type") {
        Some(k) => k,
        None => "?",
    };
    let name = match tool.get_text("name") {
        Some(n) => n,
        None => "?",
    };
    if text::same_text(kind, "function") {
        let parameters: Vec<String> = match tool.get2("parameters", "properties") {
            Some(Json::Obj(o)) => o.names(),
            _ => Vec::new(),
        };
        assert(text::texts(parameters@) =~= parameter_names(tool@));
        let mut d = name.to_owned();
        d.append("(");
        d.append(text::join(parameters.as_slice(), ", ").as_str());
        d.append(") [function]");
        Some(d)
    } else if text::same_text(kind, "custom") {
        let mut d = name.to_owned();
        d.append("(input) [custom→function]");
        Some(d)
    } else {
        None
    }
}

fn declare_all(tools: Option<&Json>) -> (r: Vec<String>)
    ensures
        text::texts(r@) == declarations(json::as_items(json::value_of(tools))),
{
    let mut out: Vec<String> = Vec::new();
    assert(text::texts(out@) =~= Seq::<Seq<char>>::empty());
    if let Some(Json::Arr(list)) = tools {
        let ghost all = json::list_view(list@);
        let mut i: usize = 0;
        while i < list.len()
            invariant
                i <= list.len(),
                all == json::list_view(list@),
                text::texts(out@) == declarations(all.take(i as int)),
            decreases list.len() - i,
        {
            let ghost was = out@;
            proof {
                assert(all.take(i + 1).drop_last() =~= all.take(i as int));
                assert(all.take(i + 1).last() == list@[i as int]@);
            }
            if let Some(d) = declare(&list[i]) {
                out.push(d);
                assert(text::texts(out@) =~= text::texts(was).push(d@));
            }
            i += 1;
        }
        assert(all.take(i as int) =~= all);
    }
    out
}

/// The calls and outputs in the input of a request.
struct History {
    call_ids: Vec<String>,
    call_names: Vec<String>,
    output_ids: Vec<String>,
}

fn read_history(input: Option<&Json>) -> (r: History)
    ensures
        text::texts(r.call_ids@) == call_ids(json::as_items(json::value_of(input))),
        text::texts(r.call_names@) == call_names(json::as_items(json::value_of(input))),
        text::texts(r.output_ids@) == output_ids(json::as_items(json::value_of(input))),
{
    let mut ids: Vec<String> = Vec::new();
    let mut names: Vec<String> = Vec::new();
    let mut outputs: Vec<String> = Vec::new();
    proof {
        assert(text::texts(ids@) =~= Seq::<Seq<char>>::empty());
        assert(text::texts(names@) =~= Seq::<Seq<char>>::empty());
        assert(text::texts(outputs@) =~= Seq::<Seq<char>>::empty());
    }
    if let Some(Json::Arr(list)) = input {
        let ghost all = json::list_view(list@);
        let mut i: usize = 0;
        while i < list.len()
            invariant
                i <= list.len(),
                all == json::list_view(list@),
                text::texts(ids@) == call_ids(all.take(i as int)),
                text::texts(names@) == call_names(all.take(i as int)),
                text::texts(outputs@) == output_ids(all.take(i as int)),
            decreases list.len() - i,
        {
            let item = &list[i];
            let ghost (was_ids, was_names, was_outputs) = (ids@, names@, outputs@);
            proof {
                assert(all.take(i + 1).drop_last() =~= all.take(i as int));
                assert(all.take(i + 1).last() == item@);
                kinds_differ(item@);
            }
            let id = item.text_or_empty("call_id");
            let kind = item.text_or_empty("type");
            if text::same_text(kind, "function_call") || text::same_text(kind, "custom_tool_call")
                || text::same_text(kind, "local_shell_call") {
                let name = match item.get_text("name") {
                    Some(n) => n,
                    None => "local_shell",
                };
                ids.push(id.to_owned());
                names.push(name.to_owned());
                assert(text::texts(ids@) =~= text::texts(was_ids).push(id@));
                assert(text::texts(names@) =~= text::texts(was_names).push(name@));
            } else if text::same_text(kind, "function_call_output") || text::same_text(
                kind,
                "custom_tool_call_output",
            ) || text::same_text(kind, "local_shell_call_output") {
                outputs.push(id.to_owned());
                assert(text::texts(outputs@) =~= text::texts(was_outputs).push(id@));
            }
            i += 1;
        }
        assert(all.take(i as int) =~= all);
    }
    History { call_ids: ids, call_names: names, output_ids: outputs }
}

/// No item is both a call and an output.
pub proof fn kinds_differ(item: JsonView)
    ensures
        !(is_call(item) && is_output(item)),
{
    reveal_strlit("function_call");
    reveal_strlit("custom_tool_call");
    reveal_strlit("local_shell_call");
    reveal_strlit("function_call_output");
    reveal_strlit("custom_tool_call_output");
    reveal_strlit("local_shell_call_output");
    assert("function_call"@.len() == 13 && "custom_tool_call"@.len() == 16
        && "local_shell_call"@.len() == 16);
    assert("function_call_output"@.len() == 20 && "custom_tool_call_output"@.len() == 23
        && "local_shell_call_output"@.len() == 23);
}

/// The list of first occurrences holds what the list holds.
pub proof fn first_seen_holds(list: Seq<Seq<char>>)
    ensures
        forall|s: Seq<char>| #[trigger] first_seen(list).contains(s) <==> list.contains(s),
    decreases list.len(),
{
    if list.len() > 0 {
        let rest = list.drop_last();
        first_seen_holds(rest);
        assert forall|s: Seq<char>| #[trigger]
            first_seen(list).contains(s) <==> list.contains(s) by {
            assert(list =~= rest.push(list.last()));
            if list.contains(s) {
                let i = choose|i: int| 0 <= i < list.len() && list[i] == s;
                if i < rest.len() {
                    assert(rest[i] == s);
                    assert(first_seen(rest).contains(s));
                    let j = choose|j: int|
                        0 <= j < first_seen(rest).len() && first_seen(rest)[j] == s;
                    assert(first_seen(list)[j] == s);
                } else if rest.contains(s) {
                    assert(first_seen(rest).contains(s));
                } else {
                    assert(first_seen(list)[first_seen(rest).len() as int] == s);
                }
            }
            if first_seen(list).contains(s) {
                let j = choose|j: int| 0 <= j < first_seen(list).len() && first_seen(list)[j] == s;
                if j < first_seen(rest).len() {
                    assert(first_seen(rest)[j] == s);
                    assert(first_seen(rest).contains(s));
                    assert(rest.contains(s));
                    let i = choose|i: int| 0 <= i < rest.len() && rest[i] == s;
                    assert(list[i] == s);
                } else {
                    assert(list[rest.len() as int] == s);
                }
            }
        }
    } else {
        assert(first_seen(list) =~= list);
    }
}

fn distinct(list: &[String]) -> (r: Vec<String>)
    ensures
        text::texts(r@) == first_seen(text::texts(list@)),
{
    let ghost all = text::texts(list@);
    let mut out: Vec<String> = Vec::new();
    let mut i: usize = 0;
    assert(text::texts(out@) =~= first_seen(all.take(0)));
    while i < list.len()
        invariant
            i <= list.len(),
            all == text::texts(list@),
            text::texts(out@) == first_seen(all.take(i as int)),
        decreases list.len() - i,
    {
        let ghost was = out@;
        proof {
            assert(all.take(i + 1).drop_last() =~= all.take(i as int));
            assert(all.take(i + 1).last() == list@[i as int]@);
            first_seen_holds(all.take(i as int));
        }
        if !text::holds(out.as_slice(), list[i].as_str()) {
            out.push(list[i].clone());
            assert(text::texts(out@) =~= text::texts(was).push(list@[i as int]@));
        }
        i += 1;
    }
    assert(all.take(i as int) =~= all);
    out
}

fn count(list: &[String], s: &str) -> (r: u64)
    ensures
        r == occurrences(text::texts(list@), s@),
{
    let ghost all = text::texts(list@);
    let mut n: u64 = 0;
    let mut i: usize = 0;
    while i < list.len()
        invariant
            i <= list.len(),
            all == text::texts(list@),
            n <= i,
            n == occurrences(all.take(i as int), s@),
        decreases list.len() - i,
    {
        proof {
            assert(all.take(i + 1).drop_last() =~= all.take(i as int));
            assert(all.take(i + 1).last() == list@[i as int]@);
        }
        if text::same_text(list[i].as_str(), s) {
            n += 1;
        }
        i += 1;
    }
    assert(all.take(i as int) =~= all);
    n
}

fn tally(names: &[String]) -> (r: Vec<String>)
    ensures
        text::texts(r@) == tallies(text::texts(names@)),
{
    let seen = distinct(names);
    let mut out: Vec<String> = Vec::new();
    let mut i: usize = 0;
    while i < seen.len()
        invariant
            i <= seen.len(),
            text::texts(seen@) == first_seen(text::texts(names@)),
            out@.len() == i,
            forall|k: int|
                0 <= k < i ==> (#[trigger] out@[k])@ == seen@[k]@ + " ×"@ + text::decimal(
                    occurrences(text::texts(names@), seen@[k]@),
                ),
        decreases seen.len() - i,
    {
        let mut line = seen[i].clone();
        line.append(" ×");
        line.append(text::decimal_text(count(names, seen[i].as_str())).as_str());
        out.push(line);
        i += 1;
    }
    proof {
        let names = text::texts(names@);
        assert forall|k: int| 0 <= k < out@.len() implies text::texts(out@)[k] == tallies(
            names,
        )[k] by {
            assert(text::texts(seen@)[k] == seen@[k]@);
            assert(out@[k]@ == seen@[k]@ + " ×"@ + text::decimal(occurrences(names, seen@[k]@)));
        }
        assert(text::texts(seen@).len() == seen@.len());
        assert(text::texts(out@) =~= tallies(names));
    }
    out
}

fn missing(list: &[String], others: &[String]) -> (r: Vec<String>)
    ensures
        text::texts(r@) == not_among(text::texts(list@), text::texts(others@)),
{
    let ghost all = text::texts(list@);
    let mut out: Vec<String> = Vec::new();
    let mut i: usize = 0;
    assert(text::texts(out@) =~= not_among(all.take(0), text::texts(others@)));
    while i < list.len()
        invariant
            i <= list.len(),
            all == text::texts(list@),
            text::texts(out@) == not_among(all.take(i as int), text::texts(others@)),
        decreases list.len() - i,
    {
        let ghost was = out@;
        proof {
            assert(all.take(i + 1).drop_last() =~= all.take(i as int));
            assert(all.take(i + 1).last() == list@[i as int]@);
        }
        if !text::holds(others, list[i].as_str()) {
            out.push(list[i].clone());
            assert(text::texts(out@) =~= text::texts(was).push(list@[i as int]@));
        }
        i += 1;
    }
    assert(all.take(i as int) =~= all);
    out
}

fn write_warning(label: &str, ids: &[String]) -> (r: String)
    ensures
        r@ == warning(label@, text::texts(ids@)),
{
    if ids.is_empty() {
        String::new()
    } else {
        let mut line = label.to_owned();
        line.append(text::join(ids, ", ").as_str());
        line
    }
}

fn write_declared(declared: &[String]) -> (r: String)
    ensures
        r@ == declared_line(text::texts(declared@)),
{
    let mut line = "    tools  ▸ declared (".to_owned();
    line.append(text::decimal_text(declared.len() as u64).as_str());
    line.append("): ");
    if declared.is_empty() {
        line.append("-");
    } else {
        line.append(text::join(declared, ", ").as_str());
    }
    line
}

fn write_dropped(dropped: &[String]) -> (r: String)
    ensures
        r@ == dropped_line(text::texts(dropped@)),
{
    if dropped.is_empty() {
        String::new()
    } else {
        let mut line = "\n             dropped (".to_owned();
        line.append(text::decimal_text(dropped.len() as u64).as_str());
        line.append("): ");
        line.append(text::join(dropped, ", ").as_str());
        line
    }
}

fn write_parallel(req: &Json) -> (r: String)
    ensures
        r@ == parallel_line(req@),
{
    let mut line = "\n             parallel_tool_calls=".to_owned();
    match req.get_present("parallel_tool_calls") {
        Some(v) => {
            line.append(json::to_text(v).as_str());
        },
        None => {
            line.append("-");
        },
    }
    line
}

fn write_history(names: &[String], outputs: usize) -> (r: String)
    ensures
        r@ == history_line(text::texts(names@), outputs as nat),
{
    let mut line = "\n             in input: ".to_owned();
    line.append(text::decimal_text(names.len() as u64).as_str());
    line.append(" calls");
    let ghost so_far = line@;
    if names.is_empty() {
        assert(so_far + Seq::<char>::empty() =~= so_far);
    } else {
        let mut list = " (".to_owned();
        list.append(text::join(tally(names).as_slice(), ", ").as_str());
        list.append(")");
        line.append(list.as_str());
    }
    line.append(", ");
    line.append(text::decimal_text(outputs as u64).as_str());
    line.append(" outputs");
    line
}

/// Multi-line summary of the tool-related parts of a Responses request.
pub fn tools_summary(req: &Json, dropped: &[String]) -> (r: String)
    ensures
        r@ == summary(req@, text::texts(dropped@)),
{
    let history = read_history(req.get("input"));
    let mut s = write_declared(declare_all(req.get("tools")).as_slice());
    s.append(write_dropped(dropped).as_str());
    s.append(write_parallel(req).as_str());
    s.append(write_history(history.call_names.as_slice(), history.output_ids.len()).as_str());
    let no_output = missing(history.call_ids.as_slice(), history.output_ids.as_slice());
    let no_call = missing(history.output_ids.as_slice(), history.call_ids.as_slice());
    s.append(
        write_warning("\n             ⚠ calls without output: ", no_output.as_slice()).as_str(),
    );
    s.append(
        write_warning("\n             ⚠ outputs without call: ", no_call.as_slice()).as_str(),
    );
    s
}

// ---------------------------------------------------------------------------
// The log block of a response
// ---------------------------------------------------------------------------

/// The members of a choice, with their names.
pub open spec fn members(list: Seq<(String, Json)>) -> Seq<(Seq<char>, JsonView)> {
    list.map_values(|e: (String, Json)| (e.0@, e.1@))
}

/// The member of that name, unless it is absent or null.
pub open spec fn told(choice: JsonView, name: Seq<char>) -> Seq<(Seq<char>, JsonView)> {
    match json::present(json::field(choice, name)) {
        Some(v) => seq![(name, v)],
        None => Seq::empty(),
    }
}

/// The further members that tell why a choice stopped.
pub open spec fn stop_members(choice: JsonView) -> Seq<(Seq<char>, JsonView)> {
    told(choice, "stop_reason"@) + told(choice, "native_finish_reason"@) + told(
        choice,
        "matched_stop"@,
    )
}

fn tell(choice: &Json, name: &str, list: &mut Vec<(String, Json)>)
    ensures
        members(final(list)@) == members(old(list)@) + told(choice@, name@),
{
    let ghost was = list@;
    match choice.get_present(name) {
        Some(v) => {
            list.push((name.to_owned(), v.clone()));
            assert(members(list@) =~= members(was) + told(choice@, name@));
        },
        None => {
            assert(members(list@) =~= members(was) + told(choice@, name@));
        },
    }
}

/// Extra stop-related fields some backends put on a choice.
pub fn extra_stop_fields(choice: &Json) -> (r: Vec<(String, Json)>)
    ensures
        members(r@) == stop_members(choice@),
{
    let mut list: Vec<(String, Json)> = Vec::new();
    tell(choice, "stop_reason", &mut list);
    tell(choice, "native_finish_reason", &mut list);
    tell(choice, "matched_stop", &mut list);
    assert(members(list@) =~= stop_members(choice@));
    list
}

/// What is logged of a response.
pub struct Report<'a> {
    pub req_id: u64,
    pub stream: bool,
    pub elapsed: Duration,
    pub model: &'a str,
    /// Raw `finish_reason` from upstream (None = never received).
    pub finish_reason: Option<&'a str>,
    /// Other stop-ish fields upstream sent on the choice (stop_reason, native_finish_reason, ...).
    pub extra_stop: &'a [(String, Json)],
    /// Status we reported to the client (completed / incomplete / failed).
    pub status: &'a str,
    /// Raw upstream Chat Completions usage object.
    pub usage: Option<&'a Json>,
    /// What the cached tokens are of the input tokens, in percent with one decimal; read only
    /// where the usage tells of cached tokens and there are input tokens.
    pub cached_percent: &'a str,
    pub notes: &'a [String],
}

/// What a report says.
pub struct ReportView {
    pub req_id: u64,
    pub stream: bool,
    pub elapsed: Duration,
    pub model: Seq<char>,
    pub finish_reason: Option<Seq<char>>,
    pub extra_stop: Seq<(Seq<char>, JsonView)>,
    pub status: Seq<char>,
    pub usage: Option<JsonView>,
    pub cached_percent: Seq<char>,
    pub notes: Seq<Seq<char>>,
}

impl<'a> View for Report<'a> {
    type V = ReportView;

    open spec fn view(&self) -> ReportView {
        ReportView {
            req_id: self.req_id,
            stream: self.stream,
            elapsed: self.elapsed,
            model: self.model@,
            finish_reason: text::text_of(self.finish_reason),
            extra_stop: members(self.extra_stop@),
            status: self.status@,
            usage: json::value_of(self.usage),
            cached_percent: self.cached_percent@,
            notes: text::texts(self.notes@),
        }
    }
}

/// How grave an entry of the log is.
#[derive(Clone, Copy, Debug, PartialEq, Eq, Structural)]
pub enum Level {
    Debug,
    Info,
    Warn,
    Error,
}

/// An entry of the log.
pub struct Entry {
    pub text: String,
    pub level: Level,
}

impl View for Entry {
    type V = (Seq<char>, Level);

    open spec fn view(&self) -> (Seq<char>, Level) {
        (self.text@, self.level)
    }
}

/// What a list of entries says.
pub open spec fn logged(entries: Seq<Entry>) -> Seq<(Seq<char>, Level)> {
    entries.map_values(|e: Entry| e@)
}

/// A text in quotes as std writes it for debugging.
pub uninterp spec fn quoted(s: Seq<char>) -> Seq<char>;

/// `{:?}` of a `str` in std: the text in quotes, with escapes.
#[verifier::external_body]
pub(crate) fn quote(s: &str) -> (r: String)
    ensures
        r@ == quoted(s@),
{
    format!("{s:?}")
}

/// A span of time in seconds, with two decimals.
pub uninterp spec fn seconds(d: Duration) -> Seq<char>;

/// `Duration::as_secs_f64` of std, written by `{:.2}`: the seconds, rounded to two decimals. How a
/// fraction rounds is left unsaid.
#[verifier::external_body]
pub(crate) fn write_seconds(d: Duration) -> (r: String)
    ensures
        r@ == seconds(d),
{
    format!("{:.2}", d.as_secs_f64())
}

/// How a response came.
pub open spec fn mode(stream: bool) -> Seq<char> {
    if stream {
        "stream"@
    } else {
        "non-stream"@
    }
}

/// The name for how a response comes.
pub fn mode_name(stream: bool) -> (r: &'static str)
    ensures
        r@ == mode(stream),
{
    if stream {
        "stream"
    } else {
        "non-stream"
    }
}

/// The first line of the block.
pub open spec fn head_line(
    req_id: u64,
    stream: bool,
    elapsed: Duration,
    model: Seq<char>,
) -> Seq<char> {
    "#"@ + text::decimal(req_id as nat) + " ◀ response  ["@ + mode(stream) + ", "@ + seconds(
        elapsed,
    ) + "s, model="@ + model + "]\n"@
}

/// The further stop members, one after another.
pub open spec fn extras(list: Seq<(Seq<char>, JsonView)>) -> Seq<char>
    decreases list.len(),
{
    if list.len() == 0 {
        Seq::empty()
    } else {
        extras(list.drop_last()) + "  | "@ + list.last().0 + " = "@ + json::written(list.last().1)
    }
}

/// The line on why the model stopped.
pub open spec fn stop_line(
    finish_reason: Option<Seq<char>>,
    status: Seq<char>,
    extra_stop: Seq<(Seq<char>, JsonView)>,
) -> Seq<char> {
    "    stop   ▸ finish_reason = "@ + (match finish_reason {
        Some(fr) => quoted(fr),
        None => "<MISSING> (upstream never sent finish_reason)"@,
    }) + "  →  status = "@ + status + extras(extra_stop) + "\n"@
}

/// The cached tokens that a usage tells of.
pub open spec fn cached_tokens(u: JsonView) -> Option<u64> {
    json::as_natural(json::field2(u, "prompt_tokens_details"@, "cached_tokens"@))
}

/// A count in groups of three, or that there is none.
pub open spec fn count_or_not(n: Option<u64>) -> Seq<char> {
    match n {
        Some(c) => grouped(text::decimal(c as nat)),
        None => "n/a"@,
    }
}

/// The line on the tokens.
pub open spec fn usage_line(usage: Option<JsonView>, percent: Seq<char>) -> Seq<char> {
    match usage {
        Some(JsonView::Obj(_)) => {
            let u = usage->0;
            let cached = match cached_tokens(u) {
                Some(c) => grouped(text::decimal(c as nat)) + " ("@ + if response::input_tokens(u)
                    == 0 {
                    "0.0"@
                } else {
                    percent
                } + "%)"@,
                None => "n/a"@,
            };
            "    usage  ▸ inp: "@ + grouped(
                text::decimal(response::input_tokens(u) as nat),
            ) + ", cd-inp: "@ + cached + ", opt: "@ + grouped(
                text::decimal(response::output_tokens(u) as nat),
            ) + " (reasoning: "@ + count_or_not(
                json::as_natural(
                    json::field2(u, "completion_tokens_details"@, "reasoning_tokens"@),
                ),
            ) + ")"@
        },
        _ => "    usage  ▸ <none> (upstream returned no usage)"@,
    }
}

/// The notes, each on a line of its own.
pub open spec fn note_lines(notes: Seq<Seq<char>>) -> Seq<char>
    decreases notes.len(),
{
    if notes.len() == 0 {
        Seq::empty()
    } else {
        note_lines(notes.drop_last()) + "\n    note   ▸ "@ + notes.last()
    }
}

/// The log block of a response.
pub open spec fn block(r: ReportView) -> Seq<char> {
    head_line(r.req_id, r.stream, r.elapsed, r.model) + stop_line(
        r.finish_reason,
        r.status,
        r.extra_stop,
    ) + usage_line(r.usage, r.cached_percent) + note_lines(r.notes)
}

/// Nothing about the response is out of the ordinary: the model came to an end or calls tools, and
/// there is nothing to note.
pub open spec fn ordinary(r: ReportView) -> bool {
    &&& r.finish_reason == Some("stop"@) || r.finish_reason == Some("tool_calls"@)
    &&& r.notes.len() == 0
}

/// The cached tokens and the input tokens, where their ratio is to be told: there are input tokens,
/// and the usage tells of cached ones.
pub fn cached_share(usage: Option<&Json>) -> (r: Option<(u64, u64)>)
    ensures
        r == match json::value_of(usage) {
            Some(JsonView::Obj(_)) => match cached_tokens(json::value_of(usage)->0) {
                Some(c) => if response::input_tokens(json::value_of(usage)->0) > 0 {
                    Some((c, response::input_tokens(json::value_of(usage)->0)))
                } else {
                    None
                },
                None => None,
            },
            _ => None,
        },
{
    match usage {
        Some(u) => match u {
            Json::Obj(_) => match u.get2("prompt_tokens_details", "cached_tokens") {
                Some(v) => match v.as_u64() {
                    Some(c) => {
                        let input = response::count_of(u.get("prompt_tokens"));
                        if input > 0 {
                            Some((c, input))
                        } else {
                            None
                        }
                    },
                    None => None,
                },
                None => None,
            },
            _ => None,
        },
        None => None,
    }
}

fn write_head(r: &Report) -> (s: String)
    ensures
        s@ == head_line(r.req_id, r.stream, r.elapsed, r.model@),
{
    let mut s = "#".to_owned();
    s.append(text::decimal_text(r.req_id).as_str());
    s.append(" ◀ response  [");
    s.append(mode_name(r.stream));
    s.append(", ");
    s.append(write_seconds(r.elapsed).as_str());
    s.append("s, model=");
    s.append(r.model);
    s.append("]\n");
    s
}

fn write_extras(list: &[(String, Json)]) -> (s: String)
    ensures
        s@ == extras(members(list@)),
{
    let ghost all = members(list@);
    let mut s = String::new();
    let mut i: usize = 0;
    while i < list.len()
        invariant
            i <= list.len(),
            all == members(list@),
            s@ == extras(all.take(i as int)),
        decreases list.len() - i,
    {
        proof {
            assert(all.take(i + 1).drop_last() =~= all.take(i as int));
            assert(all.take(i + 1).last() == (list@[i as int].0@, list@[i as int].1@));
        }
        s.append("  | ");
        s.append(list[i].0.as_str());
        s.append(" = ");
        s.append(json::to_text(&list[i].1).as_str());
        i += 1;
    }
    assert(all.take(i as int) =~= all);
    s
}

fn write_stop(r: &Report) -> (s: String)
    ensures
        s@ == stop_line(text::text_of(r.finish_reason), r.status@, members(r.extra_stop@)),
{
    let mut s = "    stop   ▸ finish_reason = ".to_owned();
    match r.finish_reason {
        Some(fr) => {
            s.append(quote(fr).as_str());
        },
        None => {
            s.append("<MISSING> (upstream never sent finish_reason)");
        },
    }
    s.append("  →  status = ");
    s.append(r.status);
    s.append(write_extras(r.extra_stop).as_str());
    s.append("\n");
    s
}

fn write_usage(usage: Option<&Json>, percent: &str) -> (s: String)
    ensures
        s@ == usage_line(json::value_of(usage), percent@),
{
    match usage {
        Some(u) => match u {
            Json::Obj(_) => {
                let mut s = "    usage  ▸ inp: ".to_owned();
                s.append(fmt_num(response::count_of(u.get("prompt_tokens"))).as_str());
                s.append(", cd-inp: ");
                let told = match u.get2("prompt_tokens_details", "cached_tokens") {
                    Some(v) => v.as_u64(),
                    None => None,
                };
                match told {
                    Some(c) => {
                        let mut cached = fmt_num(c);
                        cached.append(" (");
                        if response::count_of(u.get("prompt_tokens")) == 0 {
                            cached.append("0.0");
                        } else {
                            cached.append(percent);
                        }
                        cached.append("%)");
                        s.append(cached.as_str());
                    },
                    None => {
                        s.append("n/a");
                    },
                }
                s.append(", opt: ");
                s.append(fmt_num(response::count_of(u.get("completion_tokens"))).as_str());
                s.append(" (reasoning: ");
                let reasoning = match u.get2("completion_tokens_details", "reasoning_tokens") {
                    Some(v) => v.as_u64(),
                    None => None,
                };
                match reasoning {
                    Some(n) => {
                        s.append(fmt_num(n).as_str());
                    },
                    None => {
                        s.append("n/a");
                    },
                }
                s.append(")");
                s
            },
            _ => "    usage  ▸ <none> (upstream returned no usage)".to_owned(),
        },
        None => "    usage  ▸ <none> (upstream returned no usage)".to_owned(),
    }
}

fn write_notes(notes: &[String]) -> (s: String)
    ensures
        s@ == note_lines(text::texts(notes@)),
{
    let ghost all = text::texts(notes@);
    let mut s = String::new();
    let mut i: usize = 0;
    while i < notes.len()
        invariant
            i <= notes.len(),
            all == text::texts(notes@),
            s@ == note_lines(all.take(i as int)),
        decreases notes.len() - i,
    {
        proof {
            assert(all.take(i + 1).drop_last() =~= all.take(i as int));
            assert(all.take(i + 1).last() == notes@[i as int]@);
        }
        s.append("\n    note   ▸ ");
        s.append(notes[i].as_str());
        i += 1;
    }
    assert(all.take(i as int) =~= all);
    s
}

/// Writes the log block of a response; it is a warning unless all is as usual.
pub fn log(r: &Report) -> (entry: Entry)
    ensures
        entry.text@ == block(r@),
        entry.level == (if ordinary(r@) {
            Level::Info
        } else {
            Level::Warn
        }),
{
    let mut s = write_head(r);
    s.append(write_stop(r).as_str());
    s.append(write_usage(r.usage, r.cached_percent).as_str());
    s.append(write_notes(r.notes).as_str());
    let ended = match r.finish_reason {
        Some(fr) => text::same_text(fr, "stop") || text::same_text(fr, "tool_calls"),
        None => false,
    };
    let level = if ended && r.notes.len() == 0 {
        Level::Info
    } else {
        Level::Warn
    };
    Entry { text: s, level }
}

} // verus!
