//! What holds of JSON values as they are read.

use vstd::prelude::*;

use crate::headers;
use crate::json;
use crate::json::{Json, JsonView};
use crate::text;

verus! {

/// A member is found under its own name, whatever else the object holds; what is no object has
/// none.
pub proof fn members_are_found(
    members: Map<Seq<char>, JsonView>,
    name: Seq<char>,
    other: Seq<char>,
    value: JsonView,
)
    requires
        name != other,
    ensures
        json::field(JsonView::Obj(members.insert(name, value)), name) == Some(value),
        json::field(JsonView::Obj(members.insert(other, value)), name) == json::field(
            JsonView::Obj(members),
            name,
        ),
        json::field(JsonView::Obj(members.remove(name)), name) is None,
        !(value is Obj) ==> json::field(value, name) is None,
{
}

/// A member two names deep is the member of the member.
pub proof fn members_are_found_deeper(
    members: Map<Seq<char>, JsonView>,
    deeper: Map<Seq<char>, JsonView>,
    outer: Seq<char>,
    inner: Seq<char>,
    value: JsonView,
)
    ensures
        json::field2(
            JsonView::Obj(members.insert(outer, JsonView::Obj(deeper.insert(inner, value)))),
            outer,
            inner,
        ) == Some(value),
        json::field2(
            JsonView::Obj(members.insert(outer, JsonView::Obj(deeper.remove(inner)))),
            outer,
            inner,
        ) is None,
        json::field2(JsonView::Obj(members.remove(outer)), outer, inner) is None,
        !(value is Obj) ==> json::field2(value, outer, inner) is None,
        !(value is Obj) ==> json::field2(
            JsonView::Obj(members.insert(outer, value)),
            outer,
            inner,
        ) is None,
{
}

/// A string is read as its text, a list as its items and an integer as its number; anything else is
/// read as none of these.
pub proof fn values_are_read(
    s: Seq<char>,
    list: Seq<JsonView>,
    n: int,
    members: Map<Seq<char>, JsonView>,
    name: Seq<char>,
    value: JsonView,
    other: JsonView,
)
    ensures
        json::as_text(Some(JsonView::Str(s))) == Some(s),
        !(value is Str) ==> json::as_text(Some(value)) is None,
        json::as_text(None) is None,
        json::as_items(Some(JsonView::Arr(list))) == list,
        !(value is Arr) ==> json::as_items(Some(value)).len() == 0,
        json::as_items(None).len() == 0,
        0 <= n <= u64::MAX ==> json::as_natural(Some(JsonView::Int(n))) is Some
            && json::as_natural(Some(JsonView::Int(n)))->0 == n,
        n < 0 || n > u64::MAX ==> json::as_natural(Some(JsonView::Int(n))) is None,
        !(value is Int) ==> json::as_natural(Some(value)) is None,
        json::as_natural(None) is None,
        i64::MIN <= n <= i64::MAX ==> json::as_integer(Some(JsonView::Int(n))) is Some
            && json::as_integer(Some(JsonView::Int(n)))->0 == n,
        n < i64::MIN || n > i64::MAX ==> json::as_integer(Some(JsonView::Int(n))) is None,
        !(value is Int) ==> json::as_integer(Some(value)) is None,
        json::as_integer(None) is None,
        json::text_field(JsonView::Obj(members.insert(name, JsonView::Str(s))), name) == s,
        !(value is Str) ==> json::text_field(JsonView::Obj(members.insert(name, value)), name).len()
            == 0,
        !(value is Obj) ==> json::text_field(value, name).len() == 0,
        json::text_field(JsonView::Obj(members.remove(name)), name).len() == 0,
        json::present(Some(JsonView::Null)) is None,
        json::present(None) is None,
        value != JsonView::Null ==> json::present(Some(value)) == Some(value),
        json::value_or(Some(value), other) == value,
        json::value_or(None, value) == value,
        json::put(members, name, Some(value)) == members.insert(name, value),
        json::put(members, name, None) == members,
{
}

/// A value is what it holds: a text its characters, a list its values one by one, a number the
/// number, in whichever way it is kept.
pub proof fn values_are_what_they_hold(s: String, list: Vec<Json>, i: int, u: u64, n: i64, b: bool)
    requires
        0 <= i < list@.len(),
    ensures
        Json::Str(s)@ == JsonView::Str(s@),
        Json::Unsigned(u)@ == JsonView::Int(u as int),
        Json::Signed(n)@ == JsonView::Int(n as int),
        Json::Bool(b)@ == JsonView::Bool(b),
        Json::Null@ == JsonView::Null,
        Json::Arr(list)@ is Arr,
        Json::Arr(list)@->Arr_0.len() == list@.len(),
        Json::Arr(list)@->Arr_0[i] == list@[i]@,
{
}

/// A list of the names of members holds each of them once, and in order.
pub proof fn names_are_listed_once(
    list: Seq<Seq<char>>,
    members: Map<Seq<char>, JsonView>,
    i: int,
    j: int,
)
    requires
        json::lists_names(list, members),
        0 <= i < j < list.len(),
    ensures
        members.contains_key(list[i]),
        list[i] != list[j],
        text::before(list[i], list[j]),
        forall|name: Seq<char>| members.contains_key(name) ==> #[trigger] list.contains(name),
{
    assert(list.contains(list[i]));
    text::before_irreflexive(list[i]);
}

/// What may be absent is what it holds where it is there, and absent where it is not.
pub proof fn what_may_be_absent(s: &str, v: &Json, bytes: &[u8], list: Vec<u8>)
    ensures
        text::text_of(Some(s)) == Some(s@),
        text::text_of(None) is None,
        json::value_of(Some(v)) == Some(v@),
        json::value_of(None) is None,
        headers::bytes_of(Some(bytes)) == Some(bytes@),
        headers::bytes_of(None) is None,
        headers::list_of(Some(list)) == Some(list@),
        headers::list_of(None) is None,
{
}

} // verus!
