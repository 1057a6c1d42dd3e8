//! What holds of the reports, the headers and the decisions of the proxy.

pub mod reports;
pub mod texts;
pub mod traffic;
pub mod values;

use vstd::prelude::*;

use crate::convert::request;
use crate::convert::tools;
use crate::headers;
use crate::json;
use crate::json::JsonView;
use crate::proxy;
use crate::proxy::Next;
use crate::report;
use crate::text;

verus! {

// ---------------------------------------------------------------------------
// Numbers
// ---------------------------------------------------------------------------

/// The number that digits stand for.
pub open spec fn number(digits: Seq<char>) -> int
    decreases digits.len(),
{
    if digits.len() == 0 {
        0
    } else {
        number(digits.drop_last()) * 10 + (digits.last() as int - 48)
    }
}

/// A text without its commas.
pub open spec fn without_commas(s: Seq<char>) -> Seq<char>
    decreases s.len(),
{
    if s.len() == 0 {
        Seq::empty()
    } else if s.last() == ',' {
        without_commas(s.drop_last())
    } else {
        without_commas(s.drop_last()).push(s.last())
    }
}

/// The digits of a number stand for it, and are digits.
pub proof fn decimal_is_read_back(n: nat)
    ensures
        number(text::decimal(n)) == n,
        text::decimal(n).len() > 0,
        forall|i: int|
            0 <= i < text::decimal(n).len() ==> '0' <= #[trigger] text::decimal(n)[i] <= '9',
    decreases n,
{
    let d = text::decimal(n);
    if n >= 10 {
        decimal_is_read_back(n / 10);
        assert(d.drop_last() =~= text::decimal(n / 10));
    } else {
        assert(d.drop_last() =~= Seq::<char>::empty());
        assert(number(d.drop_last()) == 0);
    }
}

proof fn commas_of_sum(a: Seq<char>, b: Seq<char>)
    ensures
        without_commas(a + b) == without_commas(a) + without_commas(b),
    decreases b.len(),
{
    if b.len() == 0 {
        assert(a + b =~= a);
        assert(without_commas(a) + without_commas(b) =~= without_commas(a));
    } else {
        assert((a + b).drop_last() =~= a + b.drop_last());
        commas_of_sum(a, b.drop_last());
        assert(without_commas(a + b) =~= without_commas(a) + without_commas(b));
    }
}

proof fn no_commas(s: Seq<char>)
    requires
        forall|i: int| 0 <= i < s.len() ==> #[trigger] s[i] != ',',
    ensures
        without_commas(s) == s,
    decreases s.len(),
{
    if s.len() > 0 {
        assert forall|i: int| 0 <= i < s.drop_last().len() implies #[trigger] s.drop_last()[i]
            != ',' by {
            assert(s.drop_last()[i] == s[i]);
        }
        no_commas(s.drop_last());
        assert(s.last() == s[s.len() - 1]);
        assert(without_commas(s) =~= s);
    } else {
        assert(without_commas(s) =~= s);
    }
}

/// Digits without a comma are what is left of their groups without the commas; there is a comma
/// for every three digits after the first group.
pub proof fn groups_keep_digits(digits: Seq<char>)
    requires
        forall|i: int| 0 <= i < digits.len() ==> #[trigger] digits[i] != ',',
    ensures
        without_commas(report::grouped(digits)) == digits,
        digits.len() > 0 ==> report::grouped(digits).len() == digits.len() + (digits.len() - 1)
            / 3,
    decreases digits.len(),
{
    if digits.len() <= 3 {
        no_commas(digits);
    } else {
        let head = digits.take(digits.len() - 3);
        let tail = digits.skip(digits.len() - 3);
        groups_keep_digits(head);
        no_commas(tail);
        reveal_strlit(",");
        assert(","@ =~= seq![',']);
        assert(seq![','].drop_last() =~= Seq::<char>::empty());
        assert(without_commas(seq![',']) == without_commas(seq![','].drop_last()));
        commas_of_sum(report::grouped(head), ","@);
        commas_of_sum(report::grouped(head) + ","@, tail);
        assert(without_commas(report::grouped(digits)) =~= head + tail);
        assert(head + tail =~= digits);
        assert((digits.len() - 1) / 3 == (head.len() - 1) / 3 + 1);
    }
}

/// A number in groups is read back as the number.
pub proof fn grouped_is_read_back(n: nat)
    ensures
        number(without_commas(report::grouped(text::decimal(n)))) == n,
{
    decimal_is_read_back(n);
    groups_keep_digits(text::decimal(n));
}

// ---------------------------------------------------------------------------
// The summary of a request
// ---------------------------------------------------------------------------

/// The summary declares as many tools as are passed on.
pub proof fn declared_are_passed_on(list: Seq<JsonView>)
    ensures
        report::declarations(list).len() == tools::chat_tools(list).len(),
    decreases list.len(),
{
    if list.len() > 0 {
        declared_are_passed_on(list.drop_last());
        reveal_strlit("?");
        reveal_strlit("function");
        reveal_strlit("custom");
        assert("?"@.len() == 1 && "function"@.len() == 8 && "custom"@.len() == 6);
    }
}

/// Every call has a name and an identifier.
pub proof fn calls_are_counted_once(items: Seq<JsonView>)
    ensures
        report::call_ids(items).len() == report::call_names(items).len(),
    decreases items.len(),
{
    if items.len() > 0 {
        calls_are_counted_once(items.drop_last());
    }
}

/// The first occurrences are all different.
pub proof fn first_seen_once(list: Seq<Seq<char>>)
    ensures
        report::first_seen(list).no_duplicates(),
    decreases list.len(),
{
    if list.len() > 0 {
        let rest = list.drop_last();
        first_seen_once(rest);
        report::first_seen_holds(rest);
        if !rest.contains(list.last()) {
            assert(!report::first_seen(rest).contains(list.last()));
        }
    }
}

/// How often the texts of one list occur in another, all together.
pub open spec fn total_occurrences(kinds: Seq<Seq<char>>, list: Seq<Seq<char>>) -> nat
    decreases kinds.len(),
{
    if kinds.len() == 0 {
        0
    } else {
        total_occurrences(kinds.drop_last(), list) + report::occurrences(list, kinds.last())
    }
}

proof fn no_occurrences(list: Seq<Seq<char>>, s: Seq<char>)
    requires
        !list.contains(s),
    ensures
        report::occurrences(list, s) == 0,
    decreases list.len(),
{
    if list.len() > 0 {
        assert(list.contains(list.last()));
        assert(list.contains(list[list.len() - 1]));
        assert forall|t: Seq<char>| list.drop_last().contains(t) implies list.contains(t) by {
            let i = choose|i: int|
                0 <= i < list.drop_last().len() && list.drop_last()[i] == t;
            assert(list[i] == t);
        }
        no_occurrences(list.drop_last(), s);
    }
}

/// One more occurrence counts once in a list of different texts that holds it, and not at all in
/// one that does not.
proof fn one_more_occurrence(kinds: Seq<Seq<char>>, list: Seq<Seq<char>>, s: Seq<char>)
    requires
        kinds.no_duplicates(),
    ensures
        total_occurrences(kinds, list.push(s)) == total_occurrences(kinds, list)
            + if kinds.contains(s) {
            1nat
        } else {
            0nat
        },
    decreases kinds.len(),
{
    if kinds.len() > 0 {
        let rest = kinds.drop_last();
        one_more_occurrence(rest, list, s);
        assert(list.push(s).drop_last() =~= list);
        assert(kinds =~= rest.push(kinds.last()));
        if kinds.last() == s {
            assert(kinds[kinds.len() - 1] == s);
            if rest.contains(s) {
                let i = choose|i: int| 0 <= i < rest.len() && rest[i] == s;
                assert(kinds[i] == s);
            }
        } else if kinds.contains(s) {
            let i = choose|i: int| 0 <= i < kinds.len() && kinds[i] == s;
            assert(rest[i] == s);
        } else if rest.contains(s) {
            let i = choose|i: int| 0 <= i < rest.len() && rest[i] == s;
            assert(kinds[i] == s);
        }
    }
}

/// The counts of the tools that were called add up to the number of calls.
pub proof fn counts_add_up(list: Seq<Seq<char>>)
    ensures
        total_occurrences(report::first_seen(list), list) == list.len(),
    decreases list.len(),
{
    if list.len() > 0 {
        let rest = list.drop_last();
        let s = list.last();
        counts_add_up(rest);
        first_seen_once(rest);
        first_seen_once(list);
        report::first_seen_holds(rest);
        assert(list =~= rest.push(s));
        let kinds = report::first_seen(rest);
        one_more_occurrence(kinds, rest, s);
        if !rest.contains(s) {
            assert(!kinds.contains(s));
            assert(report::first_seen(list).drop_last() =~= kinds);
            assert(report::first_seen(list).last() == s);
            no_occurrences(rest, s);
        } else {
            assert(kinds.contains(s));
        }
    }
}

/// What is listed as missing is in the one list and not in the other, and all of that is listed.
pub proof fn missing_are_listed(list: Seq<Seq<char>>, others: Seq<Seq<char>>)
    ensures
        forall|s: Seq<char>| #[trigger]
            report::not_among(list, others).contains(s) <==> list.contains(s) && !others.contains(
                s,
            ),
        report::not_among(list, others).len() > 0 <==> exists|i: int|
            0 <= i < list.len() && !others.contains(#[trigger] list[i]),
    decreases list.len(),
{
    let r = report::not_among(list, others);
    if list.len() > 0 {
        let rest = list.drop_last();
        let s0 = list.last();
        let before = report::not_among(rest, others);
        missing_are_listed(rest, others);
        assert(list =~= rest.push(s0));
        assert forall|s: Seq<char>| #[trigger] r.contains(s) <==> list.contains(s)
            && !others.contains(s) by {
            if r.contains(s) {
                let i = choose|i: int| 0 <= i < r.len() && r[i] == s;
                if i < before.len() {
                    assert(before[i] == s);
                    assert(before.contains(s));
                    let j = choose|j: int| 0 <= j < rest.len() && rest[j] == s;
                    assert(list[j] == s);
                } else {
                    assert(list[list.len() - 1] == s);
                }
            }
            if list.contains(s) && !others.contains(s) {
                let j = choose|j: int| 0 <= j < list.len() && list[j] == s;
                if j < rest.len() {
                    assert(rest[j] == s);
                    assert(before.contains(s));
                    let i = choose|i: int| 0 <= i < before.len() && before[i] == s;
                    assert(r[i] == s);
                } else {
                    assert(r[r.len() - 1] == s);
                }
            }
        }
        if r.len() > 0 {
            assert(r.contains(r[0]));
            let j = choose|j: int| 0 <= j < list.len() && list[j] == r[0];
            assert(!others.contains(list[j]));
        }
        if exists|i: int| 0 <= i < list.len() && !others.contains(#[trigger] list[i]) {
            let i = choose|i: int| 0 <= i < list.len() && !others.contains(#[trigger] list[i]);
            assert(list.contains(list[i]));
            assert(r.contains(list[i]));
        }
    }
}

proof fn mark_in_sum(a: Seq<char>, b: Seq<char>, c: char)
    ensures
        (a + b).contains(c) <==> a.contains(c) || b.contains(c),
{
    if a.contains(c) {
        let i = choose|i: int| 0 <= i < a.len() && a[i] == c;
        assert((a + b)[i] == c);
    }
    if b.contains(c) {
        let i = choose|i: int| 0 <= i < b.len() && b[i] == c;
        assert((a + b)[a.len() + i] == c);
    }
    if (a + b).contains(c) {
        let i = choose|i: int| 0 <= i < (a + b).len() && (a + b)[i] == c;
        if i < a.len() {
            assert(a[i] == c);
        } else {
            assert(b[i - a.len()] == c);
        }
    }
}

/// A call without an output, or an output without a call, is warned of.
pub proof fn orphans_are_warned_of(req: JsonView, dropped: Seq<Seq<char>>)
    ensures
        ({
            let items = json::as_items(json::field(req, "input"@));
            let calls = report::call_ids(items);
            let outputs = report::output_ids(items);
            (exists|i: int| 0 <= i < calls.len() && !outputs.contains(#[trigger] calls[i]))
                || (exists|i: int| 0 <= i < outputs.len() && !calls.contains(#[trigger] outputs[i]))
                ==> report::summary(req, dropped).contains('⚠')
        }),
{
    let items = json::as_items(json::field(req, "input"@));
    let calls = report::call_ids(items);
    let outputs = report::output_ids(items);
    let a = report::declared_line(
        report::declarations(json::as_items(json::field(req, "tools"@))),
    ) + report::dropped_line(dropped) + report::parallel_line(req) + report::history_line(
        report::call_names(items),
        outputs.len(),
    );
    let no_output = report::not_among(calls, outputs);
    let no_call = report::not_among(outputs, calls);
    let b = report::warning("\n             ⚠ calls without output: "@, no_output);
    let c = report::warning("\n             ⚠ outputs without call: "@, no_call);
    missing_are_listed(calls, outputs);
    missing_are_listed(outputs, calls);
    reveal_strlit("\n             ⚠ calls without output: ");
    reveal_strlit("\n             ⚠ outputs without call: ");
    let first = "\n             ⚠ calls without output: "@;
    let second = "\n             ⚠ outputs without call: "@;
    assert(first[14] == '⚠' && second[14] == '⚠');
    assert(first.contains('⚠') && second.contains('⚠'));
    mark_in_sum(first, text::joined(no_output, ", "@), '⚠');
    mark_in_sum(second, text::joined(no_call, ", "@), '⚠');
    mark_in_sum(a, b, '⚠');
    mark_in_sum(a + b, c, '⚠');
}

// ---------------------------------------------------------------------------
// Headers
// ---------------------------------------------------------------------------

/// The names of the headers that are sent are all different.
proof fn header_names_differ()
    ensures
        "authorization"@.len() == 13,
        "accept"@.len() == 6,
        "user-agent"@.len() == 10,
        "x-viv-meta"@.len() == 10,
        "user-agent"@ != "x-viv-meta"@,
{
    reveal_strlit("authorization");
    reveal_strlit("accept");
    reveal_strlit("user-agent");
    reveal_strlit("x-viv-meta");
    assert("user-agent"@[0] == 'u' && "x-viv-meta"@[0] == 'x');
}

proof fn first_value_of_sum(
    a: Seq<(Seq<char>, Seq<u8>)>,
    b: Seq<(Seq<char>, Seq<u8>)>,
    name: Seq<char>,
)
    ensures
        headers::first_value(a + b, name) == match headers::first_value(a, name) {
            Some(v) => Some(v),
            None => headers::first_value(b, name),
        },
    decreases a.len(),
{
    if a.len() == 0 {
        assert(a + b =~= b);
    } else {
        assert((a + b).skip(1) =~= a.skip(1) + b);
        first_value_of_sum(a.skip(1), b, name);
    }
}

proof fn first_value_of_one(name: Seq<char>, value: Option<Seq<u8>>, asked: Seq<char>)
    ensures
        headers::first_value(headers::with_value(name, value), asked) == if name == asked {
            value
        } else {
            None
        },
{
    reveal_with_fuel(headers::first_value, 2);
}

/// A chat request carries the authorization, the content type that is asked for, the user agent
/// that came in, the metadata of the turn under its other name, and nothing else that came in.
pub proof fn chat_headers_are_known(
    auth: Seq<u8>,
    stream: bool,
    incoming: Seq<(Seq<char>, Seq<u8>)>,
    name: Seq<char>,
)
    ensures
        headers::first_value(headers::chat_headers(auth, stream, incoming), name) == if name
            == "authorization"@ {
            Some(auth)
        } else if name == "accept"@ {
            Some(vstd::utf8::encode_utf8(headers::accepted(stream)))
        } else if name == "user-agent"@ {
            headers::first_value(incoming, "user-agent"@)
        } else if name == "x-viv-meta"@ {
            headers::first_value(incoming, "x-codex-turn-metadata"@)
        } else {
            None
        },
        headers::chat_headers(auth, stream, incoming).len() <= 4,
{
    header_names_differ();
    let a = headers::with_value("authorization"@, Some(auth));
    let b = headers::with_value(
        "accept"@,
        Some(vstd::utf8::encode_utf8(headers::accepted(stream))),
    );
    let agent = headers::first_value(incoming, "user-agent"@);
    let meta = headers::first_value(incoming, "x-codex-turn-metadata"@);
    let c = headers::with_value("user-agent"@, agent);
    let d = headers::with_value("x-viv-meta"@, meta);
    first_value_of_sum(a + b + c, d, name);
    first_value_of_sum(a + b, c, name);
    first_value_of_sum(a, b, name);
    first_value_of_one("authorization"@, Some(auth), name);
    first_value_of_one(
        "accept"@,
        Some(vstd::utf8::encode_utf8(headers::accepted(stream))),
        name,
    );
    first_value_of_one("user-agent"@, agent, name);
    first_value_of_one("x-viv-meta"@, meta, name);
}

/// The key stands in only where no authorization came in.
pub proof fn incoming_authorization_wins(value: Seq<u8>, key: Option<Seq<char>>)
    ensures
        headers::authorization(Some(value), key) == Some(value),
        key is None ==> headers::authorization(None, key) is None,
{
}

/// A masked token tells its length, and of one with more than twelve characters the first six and
/// the last four: two tokens that agree in these are masked alike.
pub proof fn mask_hides(a: Seq<char>, b: Seq<char>)
    requires
        a.len() == b.len(),
        a.len() > 12 ==> a.take(6) == b.take(6) && a.skip(a.len() - 4) == b.skip(b.len() - 4),
    ensures
        headers::masked(a) == headers::masked(b),
{
}

/// The scheme and the token of an authorization, with the space between them, are all of it, and
/// the scheme holds no space.
pub proof fn authorization_splits(v: Seq<char>)
    ensures
        v.contains(' ') ==> v == headers::scheme(v) + seq![' '] + headers::token(v),
        !v.contains(' ') ==> headers::scheme(v).len() == 0 && headers::token(v) == v,
        !headers::scheme(v).contains(' '),
{
    headers::first_space_is_first(v);
    if v.contains(' ') {
        assert(v =~= headers::scheme(v) + seq![' '] + headers::token(v));
    }
    let s = headers::scheme(v);
    assert forall|i: int| 0 <= i < s.len() implies s[i] != ' ' by {
        assert(s[i] == v[i]);
    }
}

/// A list has one order only: sorted lists of the same texts, each as often, are the same.
pub proof fn sorted_is_unique(a: Seq<Seq<char>>, b: Seq<Seq<char>>)
    requires
        text::sorted(a),
        text::sorted(b),
        a.to_multiset() == b.to_multiset(),
    ensures
        a == b,
    decreases a.len(),
{
    broadcast use vstd::seq_lib::group_to_multiset_ensures;

    assert(a.len() == a.to_multiset().len());
    assert(b.len() == b.to_multiset().len());
    if a.len() == 0 {
        assert(a =~= b);
    } else {
        let x = a.last();
        let y = b.last();
        assert(a.contains(a[a.len() - 1]));
        assert(b.contains(b[b.len() - 1]));
        assert(a.to_multiset().count(x) > 0 && b.to_multiset().count(y) > 0);
        assert(a.contains(y) && b.contains(x));
        let i = choose|i: int| 0 <= i < a.len() && a[i] == y;
        let j = choose|j: int| 0 <= j < b.len() && b[j] == x;
        text::before_irreflexive(x);
        assert(!text::before(x, y)) by {
            if i < a.len() - 1 {
                assert(!text::before(a[a.len() - 1], a[i]));
            }
        }
        assert(!text::before(y, x)) by {
            if j < b.len() - 1 {
                assert(!text::before(b[b.len() - 1], b[j]));
            }
        }
        text::before_total(x, y);
        assert(x == y);
        let c = a.drop_last();
        let d = b.drop_last();
        assert(a.remove(a.len() - 1) =~= c);
        assert(b.remove(b.len() - 1) =~= d);
        assert(c.to_multiset() == a.to_multiset().remove(x));
        assert(d.to_multiset() == b.to_multiset().remove(x));
        assert(text::sorted(c)) by {
            assert forall|p: int, q: int|
                #![trigger c[p], c[q]]
                0 <= p < q < c.len() implies !text::before(c[q], c[p]) by {
                assert(!text::before(a[q], a[p]));
            }
        }
        assert(text::sorted(d)) by {
            assert forall|p: int, q: int|
                #![trigger d[p], d[q]]
                0 <= p < q < d.len() implies !text::before(d[q], d[p]) by {
                assert(!text::before(b[q], b[p]));
            }
        }
        sorted_is_unique(c, d);
        assert(a =~= c.push(x));
        assert(b =~= d.push(x));
    }
}

// ---------------------------------------------------------------------------
// Decisions
// ---------------------------------------------------------------------------

/// An error of the upstream keeps its status; what is handed on is never told as a success; a
/// completion is converted, and events translated, only out of a success, and each only where it
/// was asked for.
pub proof fn errors_stay_errors(stream: bool, status: u16, content_type: Option<Seq<u8>>)
    ensures
        ({
            let r = proxy::next(stream, status, content_type);
            &&& !proxy::success(status) ==> r == Next::Relay(status)
            &&& r matches Next::Relay(s) ==> !proxy::success(s)
            &&& r is Convert ==> proxy::success(status) && !stream
            &&& r is Stream ==> proxy::success(status) && stream
            &&& !stream && proxy::success(status) ==> r is Convert
        }),
{
}

/// Every refusal is told as an error.
pub proof fn refusals_are_errors(r: proxy::RefusalView)
    ensures
        400 <= proxy::refusal_status(r) < 600,
{
}

/// The models are listed beside the chat completions; where the place does not end like these, it
/// is asked itself.
pub proof fn models_stand_beside(base: Seq<char>)
    ensures
        proxy::models_location(base + "/chat/completions"@) == base + "/models"@,
{
    let tail = "/chat/completions"@;
    let all = base + tail;
    assert(all.skip(all.len() - tail.len()) =~= tail);
    assert(all.take(all.len() - tail.len()) =~= base);
}

/// The line on a request tells as many tools as its summary declares.
pub proof fn line_and_summary_agree(req: JsonView, stream: bool)
    ensures
        proxy::length_or(
            json::field(JsonView::Obj(request::chat_body(req, stream)), "tools"@),
            0,
        ) == report::declarations(json::as_items(json::field(req, "tools"@))).len(),
{
    declared_are_passed_on(json::as_items(json::field(req, "tools"@)));
    crate::convert::laws::choice_needs_tools(req, stream);
}

/// A request with a call without an output, or an output without a call, is logged as a warning.
pub proof fn orphans_make_a_warning(req_id: u64, req: JsonView)
    ensures
        ({
            let items = json::as_items(json::field(req, "input"@));
            let calls = report::call_ids(items);
            let outputs = report::output_ids(items);
            (exists|i: int| 0 <= i < calls.len() && !outputs.contains(#[trigger] calls[i]))
                || (exists|i: int| 0 <= i < outputs.len() && !calls.contains(#[trigger] outputs[i]))
                ==> proxy::request_entry(req_id, req).1 == report::Level::Warn
        }),
{
    orphans_are_warned_of(
        req,
        tools::dropped_labels(json::as_items(json::field(req, "tools"@))),
    );
}

} // verus!
