//! JSON values as the conversions read and build them.

use serde_json::Value;
use vstd::prelude::*;

use crate::text;

verus! {

/// A value of `serde_json`.
#[verifier::external_type_specification]
#[verifier::external_body]
pub struct ExValue(serde_json::Value);

/// Why `serde_json` refused a text.
#[verifier::external_type_specification]
#[verifier::external_body]
pub struct ExError(serde_json::Error);

/// A number of `serde_json`, kept unread where it is no integer.
#[verifier::external_type_specification]
#[verifier::external_body]
pub struct ExNumber(serde_json::Number);

/// `Number::clone` of `serde_json` gives the number itself.
pub assume_specification[ <serde_json::Number as Clone>::clone ](n: &serde_json::Number) -> (r:
    serde_json::Number)
    ensures
        r == *n,
;

/// A JSON value. An integer is `Unsigned` or `Signed`; which of the two makes no difference where
/// both can hold it.
#[derive(Debug)]
pub enum Json {
    Null,
    Bool(bool),
    Unsigned(u64),
    Signed(i64),
    Float(Fraction),
    Str(String),
    Arr(Vec<Json>),
    Obj(Object),
}

/// A number that is no integer, or is one too large for either kind of integer. Only reading a
/// JSON text makes one.
#[derive(Debug)]
pub struct Fraction {
    number: serde_json::Number,
}

/// The members of a JSON object, in ascending order of their names, each name once.
#[derive(Debug)]
pub struct Object {
    entries: Vec<(String, Json)>,
}

/// What a JSON value is: the members of an object have no order.
#[verifier::ext_equal]
pub enum JsonView {
    Null,
    Bool(bool),
    Int(int),
    Float(Fraction),
    Str(Seq<char>),
    Arr(Seq<JsonView>),
    Obj(Map<Seq<char>, JsonView>),
}

impl View for Json {
    type V = JsonView;

    open spec fn view(&self) -> JsonView {
        json_view(*self)
    }
}

impl View for Object {
    type V = Map<Seq<char>, JsonView>;

    open spec fn view(&self) -> Map<Seq<char>, JsonView> {
        object_view(*self)
    }
}

/// What a JSON value is.
pub open spec fn json_view(j: Json) -> JsonView
    decreases j,
{
    match j {
        Json::Null => JsonView::Null,
        Json::Bool(b) => JsonView::Bool(b),
        Json::Unsigned(n) => JsonView::Int(n as int),
        Json::Signed(n) => JsonView::Int(n as int),
        Json::Float(x) => JsonView::Float(x),
        Json::Str(s) => JsonView::Str(s@),
        Json::Arr(items) => JsonView::Arr(list_view(items@)),
        Json::Obj(o) => JsonView::Obj(object_view(o)),
    }
}

/// The values of a list, one by one.
pub open spec fn list_view(items: Seq<Json>) -> Seq<JsonView>
    decreases items,
{
    Seq::new(
        items.len(),
        |i: int|
            if 0 <= i < items.len() {
                json_view(items[i])
            } else {
                JsonView::Null
            },
    )
}

/// The members of an object by their names.
pub closed spec fn object_view(o: Object) -> Map<Seq<char>, JsonView>
    decreases o,
{
    entries_view(o.entries@)
}

spec fn entries_view(entries: Seq<(String, Json)>) -> Map<Seq<char>, JsonView>
    decreases entries,
{
    if entries.len() == 0 {
        Map::empty()
    } else {
        entries_view(entries.drop_last()).insert(entries.last().0@, json_view(entries.last().1))
    }
}

spec fn in_order(entries: Seq<(String, Json)>) -> bool {
    forall|i: int, j: int|
        #![trigger entries[i], entries[j]]
        0 <= i < j < entries.len() ==> text::before(entries[i].0@, entries[j].0@)
}

/// What a list of entries in order says of each name.
proof fn entries_view_lookup(entries: Seq<(String, Json)>)
    requires
        in_order(entries),
    ensures
        forall|k: Seq<char>| #[trigger]
            entries_view(entries).contains_key(k) <==> exists|i: int|
                0 <= i < entries.len() && #[trigger] entries[i].0@ == k,
        forall|i: int|
            0 <= i < entries.len() ==> entries_view(entries).contains_key(
                (#[trigger] entries[i]).0@,
            ) && entries_view(entries)[entries[i].0@] == json_view(entries[i].1),
    decreases entries.len(),
{
    if entries.len() > 0 {
        let rest = entries.drop_last();
        entries_view_lookup(rest);
        let n = entries.len() - 1;
        assert forall|k: Seq<char>| #[trigger]
            entries_view(entries).contains_key(k) <==> exists|i: int|
                0 <= i < entries.len() && #[trigger] entries[i].0@ == k by {
            if entries_view(entries).contains_key(k) {
                if k == entries[n].0@ {
                    assert(0 <= n < entries.len() && entries[n].0@ == k);
                } else {
                    let i = choose|i: int| 0 <= i < rest.len() && #[trigger] rest[i].0@ == k;
                    assert(entries[i].0@ == k);
                }
            }
            if exists|i: int| 0 <= i < entries.len() && #[trigger] entries[i].0@ == k {
                let i = choose|i: int| 0 <= i < entries.len() && #[trigger] entries[i].0@ == k;
                if i < n {
                    assert(rest[i].0@ == k);
                }
            }
        }
        assert forall|i: int| 0 <= i < entries.len() implies entries_view(entries).contains_key(
            (#[trigger] entries[i]).0@,
        ) && entries_view(entries)[entries[i].0@] == json_view(entries[i].1) by {
            if i < n {
                assert(rest[i] == entries[i]);
                assert(text::before(entries[i].0@, entries[n].0@));
                text::before_irreflexive(entries[i].0@);
            }
        }
    }
}

/// A member put in its place among entries in order leaves them in order, and is what they then say
/// of its name. It makes the list longer by `grown`: none where it takes the place of another.
proof fn entries_view_insert(
    was: Seq<(String, Json)>,
    now: Seq<(String, Json)>,
    at: int,
    grown: int,
)
    requires
        in_order(was),
        grown == 0 || grown == 1,
        now.len() == was.len() + grown,
        0 <= at < now.len(),
        forall|j: int| 0 <= j < at ==> #[trigger] now[j] == was[j],
        forall|j: int| at < j < now.len() ==> #[trigger] now[j] == was[j - grown],
        forall|j: int| 0 <= j < at ==> text::before((#[trigger] was[j]).0@, now[at].0@),
        forall|j: int|
            at - grown < j < was.len() ==> text::before(now[at].0@, (#[trigger] was[j]).0@),
        grown == 0 ==> was[at].0@ == now[at].0@,
    ensures
        in_order(now),
        entries_view(now) == entries_view(was).insert(now[at].0@, json_view(now[at].1)),
{
    let name = now[at].0@;
    let value = json_view(now[at].1);
    assert forall|j: int, k: int|
        #![trigger now[j], now[k]]
        0 <= j < k < now.len() implies text::before(now[j].0@, now[k].0@) by {
        if j != at && k != at {
            let a: int = if j < at { j } else { j - grown };
            let b: int = if k < at { k } else { k - grown };
            assert(now[j] == was[a] && now[k] == was[b]);
        } else if j == at {
            assert(now[k] == was[k - grown]);
        }
    }
    entries_view_lookup(was);
    entries_view_lookup(now);
    text::before_irreflexive(name);
    let then = entries_view(was).insert(name, value);
    assert forall|k: Seq<char>| #[trigger] entries_view(now).contains_key(k) <==> then.contains_key(
        k,
    ) by {
        if entries_view(now).contains_key(k) {
            let j = choose|j: int| 0 <= j < now.len() && #[trigger] now[j].0@ == k;
            if j != at {
                let a: int = if j < at { j } else { j - grown };
                assert(was[a].0@ == k);
            }
        }
        if entries_view(was).contains_key(k) {
            let i = choose|i: int| 0 <= i < was.len() && #[trigger] was[i].0@ == k;
            if i < at {
                assert(now[i].0@ == k);
            } else if grown == 1 || i > at {
                assert(now[i + grown].0@ == k);
            }
        }
        assert(now[at].0@ == name);
    }
    assert forall|k: Seq<char>| entries_view(now).contains_key(k) implies #[trigger] entries_view(
        now,
    )[k] == then[k] by {
        let j = choose|j: int| 0 <= j < now.len() && #[trigger] now[j].0@ == k;
        if j != at {
            let a: int = if j < at { j } else { j - grown };
            assert(now[j] == was[a]);
            assert(entries_view(was)[was[a].0@] == json_view(was[a].1));
        }
    }
    assert(entries_view(now) =~= then);
}

impl Object {
    #[verifier::type_invariant]
    spec fn ordered(self) -> bool {
        in_order(self.entries@)
    }

    /// No members.
    pub fn new() -> (r: Object)
        ensures
            r@ == Map::<Seq<char>, JsonView>::empty(),
    {
        Object { entries: Vec::new() }
    }

    /// The member of that name.
    pub fn get(&self, name: &str) -> (r: Option<&Json>)
        ensures
            match r {
                Some(v) => self@.contains_key(name@) && v@ == self@[name@],
                None => !self@.contains_key(name@),
            },
    {
        proof {
            use_type_invariant(self);
            entries_view_lookup(self.entries@);
        }
        let mut i: usize = 0;
        while i < self.entries.len()
            invariant
                i <= self.entries.len(),
                in_order(self.entries@),
                forall|j: int| 0 <= j < i ==> (#[trigger] self.entries@[j]).0@ != name@,
            decreases self.entries.len() - i,
        {
            if text::same_text(self.entries[i].0.as_str(), name) {
                proof {
                    entries_view_lookup(self.entries@);
                    assert(self.entries@[i as int].0@ == name@);
                }
                return Some(&self.entries[i].1);
            }
            i += 1;
        }
        None
    }

    /// The object with that member added, or replaced where the name is there already.
    pub fn insert(self, name: &str, value: Json) -> (r: Object)
        ensures
            r@ == self@.insert(name@, value@),
    {
        proof {
            use_type_invariant(&self);
        }
        let ghost was = self.entries@;
        let mut entries = self.entries;
        let mut i: usize = 0;
        while i < entries.len() && text::comes_before(entries[i].0.as_str(), name)
            invariant
                entries@ == was,
                i <= entries.len(),
                forall|j: int|
                    0 <= j < i ==> text::before((#[trigger] was[j]).0@, name@),
            decreases entries.len() - i,
        {
            i += 1;
        }
        let ghost at = i as int;
        if i < entries.len() && text::same_text(entries[i].0.as_str(), name) {
            let _ = entries.remove(i);
            entries.insert(i, (name.to_owned(), value));
            proof {
                assert forall|j: int| at < j < was.len() implies text::before(
                    name@,
                    (#[trigger] was[j]).0@,
                ) by {
                    assert(text::before(was[at].0@, was[j].0@));
                }
                entries_view_insert(was, entries@, at, 0);
            }
            return Object { entries };
        }
        entries.insert(i, (name.to_owned(), value));
        proof {
            assert forall|j: int| at <= j < was.len() implies text::before(
                name@,
                (#[trigger] was[j]).0@,
            ) by {
                text::before_total(was[at].0@, name@);
                if j > at {
                    text::before_transitive(name@, was[at].0@, was[j].0@);
                }
            }
            entries_view_insert(was, entries@, at, 1);
        }
        Object { entries }
    }

    /// The object with a copy of the value as that member, if there is a value.
    pub fn put(self, name: &str, value: Option<&Json>) -> (r: Object)
        ensures
            r@ == put(self@, name@, value_of(value)),
    {
        match value {
            Some(v) => self.insert(name, v.clone()),
            None => self,
        }
    }

    /// The names of the members, in ascending order.
    pub fn names(&self) -> (r: Vec<String>)
        ensures
            text::texts(r@) == sorted_names(self@),
            lists_names(text::texts(r@), self@),
    {
        proof {
            use_type_invariant(self);
            entries_view_lookup(self.entries@);
        }
        let mut r: Vec<String> = Vec::new();
        let mut i: usize = 0;
        while i < self.entries.len()
            invariant
                i <= self.entries.len(),
                r@.len() == i,
                forall|j: int| 0 <= j < i ==> (#[trigger] r@[j])@ == self.entries@[j].0@,
            decreases self.entries.len() - i,
        {
            r.push(self.entries[i].0.clone());
            i += 1;
        }
        proof {
            let s = text::texts(r@);
            assert forall|a: int, b: int|
                #![trigger s[a], s[b]]
                0 <= a < b < s.len() implies text::before(s[a], s[b]) by {
                assert(text::before(self.entries@[a].0@, self.entries@[b].0@));
            }
            assert forall|k: Seq<char>| #[trigger] s.contains(k) <==> self@.contains_key(k) by {
                if s.contains(k) {
                    let a = choose|a: int| 0 <= a < s.len() && s[a] == k;
                    assert(self.entries@[a].0@ == k);
                }
                if self@.contains_key(k) {
                    let a = choose|a: int|
                        0 <= a < self.entries@.len() && #[trigger] self.entries@[a].0@ == k;
                    assert(s[a] == k);
                }
            }
            assert(lists_names(s, self@));
            text::ascending_unique(s, sorted_names(self@));
        }
        r
    }
}

/// The list holds the names of the members, each once, in ascending order.
pub open spec fn lists_names(list: Seq<Seq<char>>, members: Map<Seq<char>, JsonView>) -> bool {
    &&& text::ascending(list)
    &&& forall|k: Seq<char>| #[trigger] list.contains(k) <==> members.contains_key(k)
}

/// The names of the members in ascending order.
pub open spec fn sorted_names(members: Map<Seq<char>, JsonView>) -> Seq<Seq<char>> {
    choose|list: Seq<Seq<char>>| lists_names(list, members)
}

/// Lists of entries that agree one by one hold the same members.
proof fn entries_view_same(a: Seq<(String, Json)>, b: Seq<(String, Json)>)
    requires
        a.len() == b.len(),
        forall|i: int| 0 <= i < a.len() ==> (#[trigger] a[i]).0@ == b[i].0@,
        forall|i: int| 0 <= i < a.len() ==> json_view((#[trigger] a[i]).1) == json_view(b[i].1),
    ensures
        entries_view(a) == entries_view(b),
    decreases a.len(),
{
    if a.len() > 0 {
        assert forall|i: int| 0 <= i < a.len() - 1 implies (#[trigger] a.drop_last()[i]).0@
            == b.drop_last()[i].0@ && json_view(a.drop_last()[i].1) == json_view(
            b.drop_last()[i].1,
        ) by {
            assert(a.drop_last()[i] == a[i]);
        }
        entries_view_same(a.drop_last(), b.drop_last());
        assert(a[a.len() - 1].0@ == b[a.len() - 1].0@);
    }
}

fn copy(j: &Json) -> (r: Json)
    ensures
        r@ == j@,
    decreases j,
{
    match j {
        Json::Null => Json::Null,
        Json::Bool(b) => Json::Bool(*b),
        Json::Unsigned(n) => Json::Unsigned(*n),
        Json::Signed(n) => Json::Signed(*n),
        Json::Float(x) => Json::Float(Fraction { number: x.number.clone() }),
        Json::Str(s) => Json::Str(s.clone()),
        Json::Arr(items) => {
            let mut out: Vec<Json> = Vec::new();
            let mut i: usize = 0;
            while i < items.len()
                invariant
                    *j == Json::Arr(*items),
                    i <= items.len(),
                    out@.len() == i,
                    forall|k: int| 0 <= k < i ==> (#[trigger] out@[k])@ == items@[k]@,
                decreases items.len() - i,
            {
                assert(decreases_to!(*j => j->Arr_0));
                assert(decreases_to!(*items => items[i as int]));
                out.push(copy(&items[i]));
                i += 1;
            }
            assert(list_view(out@) =~= list_view(items@));
            Json::Arr(out)
        },
        Json::Obj(o) => {
            proof {
                use_type_invariant(o);
            }
            let mut entries: Vec<(String, Json)> = Vec::new();
            let mut i: usize = 0;
            while i < o.entries.len()
                invariant
                    *j == Json::Obj(*o),
                    i <= o.entries.len(),
                    entries@.len() == i,
                    forall|k: int| 0 <= k < i ==> (#[trigger] entries@[k]).0@ == o.entries@[k].0@,
                    forall|k: int|
                        0 <= k < i ==> json_view((#[trigger] entries@[k]).1) == json_view(
                            o.entries@[k].1,
                        ),
                decreases o.entries.len() - i,
            {
                assert(decreases_to!(*j => j->Obj_0));
                assert(decreases_to!(*o => o.entries));
                assert(decreases_to!(o.entries => o.entries[i as int]));
                assert(decreases_to!(o.entries[i as int] => o.entries[i as int].1));
                entries.push((o.entries[i].0.clone(), copy(&o.entries[i].1)));
                i += 1;
            }
            proof {
                entries_view_same(entries@, o.entries@);
            }
            Json::Obj(Object { entries })
        },
    }
}

impl Clone for Json {
    fn clone(&self) -> (r: Json)
        ensures
            r@ == self@,
    {
        copy(self)
    }
}

/// A copy of a list.
pub fn copy_list(items: &Vec<Json>) -> (r: Vec<Json>)
    ensures
        list_view(r@) == list_view(items@),
{
    let mut out: Vec<Json> = Vec::new();
    let mut i: usize = 0;
    while i < items.len()
        invariant
            i <= items.len(),
            out@.len() == i,
            forall|k: int| 0 <= k < i ==> (#[trigger] out@[k])@ == items@[k]@,
        decreases items.len() - i,
    {
        out.push(items[i].clone());
        i += 1;
    }
    assert(list_view(out@) =~= list_view(items@));
    out
}

/// A value that may be absent.
pub open spec fn value_of(v: Option<&Json>) -> Option<JsonView> {
    match v {
        Some(j) => Some(j@),
        None => None,
    }
}

/// The member of that name, if the value is an object that has one.
pub open spec fn field(v: JsonView, name: Seq<char>) -> Option<JsonView> {
    match v {
        JsonView::Obj(members) => if members.contains_key(name) {
            Some(members[name])
        } else {
            None
        },
        _ => None,
    }
}

/// The member two names deep.
pub open spec fn field2(v: JsonView, outer: Seq<char>, inner: Seq<char>) -> Option<JsonView> {
    match field(v, outer) {
        Some(w) => field(w, inner),
        None => None,
    }
}

/// The text, if the value is there and is a string.
pub open spec fn as_text(v: Option<JsonView>) -> Option<Seq<char>> {
    match v {
        Some(JsonView::Str(s)) => Some(s),
        _ => None,
    }
}

/// The text of the member of that name; empty where there is none or it is no string.
pub open spec fn text_field(v: JsonView, name: Seq<char>) -> Seq<char> {
    text::or(as_text(field(v, name)), Seq::empty())
}

/// The members with one more, if there is a value for it.
pub open spec fn put(
    members: Map<Seq<char>, JsonView>,
    name: Seq<char>,
    v: Option<JsonView>,
) -> Map<Seq<char>, JsonView> {
    match v {
        Some(w) => members.insert(name, w),
        None => members,
    }
}

/// The value, or another where it is absent.
pub open spec fn value_or(v: Option<JsonView>, other: JsonView) -> JsonView {
    match v {
        Some(w) => w,
        None => other,
    }
}

/// The items, if the value is there and is an array; else none.
pub open spec fn as_items(v: Option<JsonView>) -> Seq<JsonView> {
    match v {
        Some(JsonView::Arr(items)) => items,
        _ => Seq::empty(),
    }
}

/// The value, unless it is absent or null.
pub open spec fn present(v: Option<JsonView>) -> Option<JsonView> {
    match v {
        Some(JsonView::Null) => None,
        _ => v,
    }
}

/// The number, if the value is there and is an integer that fits.
pub open spec fn as_natural(v: Option<JsonView>) -> Option<u64> {
    match v {
        Some(JsonView::Int(n)) => if 0 <= n <= u64::MAX {
            Some(n as u64)
        } else {
            None
        },
        _ => None,
    }
}

/// The number, if the value is there and is an integer that fits.
pub open spec fn as_integer(v: Option<JsonView>) -> Option<i64> {
    match v {
        Some(JsonView::Int(n)) => if i64::MIN <= n <= i64::MAX {
            Some(n as i64)
        } else {
            None
        },
        _ => None,
    }
}

impl Json {
    /// Whether the value is an object.
    pub fn is_object(&self) -> (r: bool)
        ensures
            r == (self@ is Obj),
    {
        match self {
            Json::Obj(_) => true,
            _ => false,
        }
    }

    /// The member of that name, if this is an object that has one.
    pub fn get(&self, name: &str) -> (r: Option<&Json>)
        ensures
            value_of(r) == field(self@, name@),
    {
        match self {
            Json::Obj(o) => o.get(name),
            _ => None,
        }
    }

    /// The member two names deep.
    pub fn get2(&self, outer: &str, inner: &str) -> (r: Option<&Json>)
        ensures
            value_of(r) == field2(self@, outer@, inner@),
    {
        match self.get(outer) {
            Some(w) => w.get(inner),
            None => None,
        }
    }

    /// The number, if this is an integer that fits.
    pub fn as_u64(&self) -> (r: Option<u64>)
        ensures
            r == as_natural(Some(self@)),
    {
        match self {
            Json::Unsigned(n) => Some(*n),
            Json::Signed(n) => if *n >= 0 {
                Some(*n as u64)
            } else {
                None
            },
            _ => None,
        }
    }

    /// The number, if this is an integer that fits.
    pub fn as_i64(&self) -> (r: Option<i64>)
        ensures
            r == as_integer(Some(self@)),
    {
        match self {
            Json::Unsigned(n) => if *n <= i64::MAX as u64 {
                Some(*n as i64)
            } else {
                None
            },
            Json::Signed(n) => Some(*n),
            _ => None,
        }
    }

    /// The member of that name, unless it is null.
    pub fn get_present(&self, name: &str) -> (r: Option<&Json>)
        ensures
            value_of(r) == present(field(self@, name@)),
    {
        match self.get(name) {
            Some(Json::Null) => None,
            r => r,
        }
    }

    /// The text of the member of that name; empty where there is none or it is no string.
    pub fn text_or_empty(&self, name: &str) -> (r: &str)
        ensures
            r@ == text_field(self@, name@),
    {
        match self.get(name) {
            Some(Json::Str(s)) => s.as_str(),
            _ => {
                proof {
                    reveal_strlit("");
                    assert(""@ =~= Seq::<char>::empty());
                }
                ""
            },
        }
    }

    /// The text of the member of that name, if it is a string.
    pub fn get_text(&self, name: &str) -> (r: Option<&str>)
        ensures
            text::text_of(r) == as_text(field(self@, name@)),
    {
        match self.get(name) {
            Some(Json::Str(s)) => Some(s.as_str()),
            _ => None,
        }
    }
}

/// A string value.
pub fn string(s: &str) -> (r: Json)
    ensures
        r@ == JsonView::Str(s@),
{
    Json::Str(s.to_owned())
}

/// An object value.
pub fn object(members: Object) -> (r: Json)
    ensures
        r@ == JsonView::Obj(members@),
{
    Json::Obj(members)
}

/// An array value.
pub fn array(items: Vec<Json>) -> (r: Json)
    ensures
        r@ == JsonView::Arr(list_view(items@)),
{
    Json::Arr(items)
}

/// A list grows by the value that is pushed.
pub proof fn list_view_push(items: Seq<Json>, item: Json)
    ensures
        list_view(items.push(item)) == list_view(items).push(item@),
{
    assert(list_view(items.push(item)) =~= list_view(items).push(item@));
}

/// The JSON value that a value of `serde_json` holds.
pub uninterp spec fn held(v: serde_json::Value) -> JsonView;

/// What `serde_json` reads out of a text, or `None` where it refuses the text.
pub uninterp spec fn read_text(text: Seq<char>) -> Option<JsonView>;

/// What `serde_json` reads out of bytes, or the message with which it refuses them.
pub uninterp spec fn read_bytes(bytes: Seq<u8>) -> Result<JsonView, Seq<char>>;

/// The compact text that `serde_json` writes for a value.
pub uninterp spec fn written(v: JsonView) -> Seq<char>;

/// The message of a refusal.
pub uninterp spec fn refusal(e: serde_json::Error) -> Seq<char>;

/// Takes a value of `serde_json` apart, variant by variant; its map hands the members out in
/// ascending order of their names, each name once.
#[verifier::external_body]
fn from_value(v: Value) -> (r: Json)
    ensures
        r@ == held(v),
{
    match v {
        Value::Null => Json::Null,
        Value::Bool(b) => Json::Bool(b),
        Value::Number(n) => match (n.as_u64(), n.as_i64()) {
            (Some(u), _) => Json::Unsigned(u),
            (_, Some(i)) => Json::Signed(i),
            _ => Json::Float(Fraction { number: n }),
        },
        Value::String(s) => Json::Str(s),
        Value::Array(a) => Json::Arr(a.into_iter().map(from_value).collect()),
        Value::Object(m) => Json::Obj(Object {
            entries: m.into_iter().map(|(k, w)| (k, from_value(w))).collect(),
        }),
    }
}

/// Builds the value of `serde_json`, variant by variant.
#[verifier::external_body]
fn to_value(j: &Json) -> (r: Value)
    ensures
        held(r) == j@,
{
    match j {
        Json::Null => Value::Null,
        Json::Bool(b) => Value::Bool(*b),
        Json::Unsigned(n) => Value::from(*n),
        Json::Signed(n) => Value::from(*n),
        Json::Float(x) => Value::Number(x.number.clone()),
        Json::Str(s) => Value::String(s.clone()),
        Json::Arr(items) => Value::Array(items.iter().map(to_value).collect()),
        Json::Obj(o) => Value::Object(
            o.entries.iter().map(|(k, v)| (k.clone(), to_value(v))).collect(),
        ),
    }
}

/// `serde_json::from_str` of a `Value`.
#[verifier::external_body]
fn value_from_text(text: &str) -> (r: Result<Value, serde_json::Error>)
    ensures
        match r {
            Ok(v) => read_text(text@) == Some(held(v)),
            Err(_) => read_text(text@) is None,
        },
{
    serde_json::from_str::<Value>(text)
}

/// `serde_json::from_slice` of a `Value`.
#[verifier::external_body]
fn value_from_bytes(bytes: &[u8]) -> (r: Result<Value, serde_json::Error>)
    ensures
        match r {
            Ok(v) => read_bytes(bytes@) == Ok::<JsonView, Seq<char>>(held(v)),
            Err(e) => read_bytes(bytes@) == Err::<JsonView, Seq<char>>(refusal(e)),
        },
{
    serde_json::from_slice::<Value>(bytes)
}

/// An object whose only member is a string of the name `input`.
pub open spec fn only_input(v: JsonView) -> bool {
    match v {
        JsonView::Obj(members) => members.dom() == set!["input"@] && members["input"@] is Str,
        _ => false,
    }
}

/// `to_string` of a `Value`: the compact text. `serde_json` reads an object whose only member is a
/// string of the name `input` back out of it as it was. Of other values nothing of the kind is
/// claimed: a fraction may come back as its neighbour, nesting past a limit is refused, and a name
/// that `serde_json` keeps for itself makes it read the text in the member instead.
#[verifier::external_body]
fn value_to_text(v: &Value) -> (r: String)
    ensures
        r@ == written(held(*v)),
        only_input(held(*v)) ==> read_text(r@) == Some(held(*v)),
{
    v.to_string()
}

/// `to_string` of an `Error`: its message.
#[verifier::external_body]
fn error_to_text(e: &serde_json::Error) -> (r: String)
    ensures
        r@ == refusal(*e),
{
    e.to_string()
}

/// Reads a JSON value out of a text.
pub fn parse_text(text: &str) -> (r: Option<Json>)
    ensures
        match r {
            Some(j) => read_text(text@) == Some(j@),
            None => read_text(text@) is None,
        },
{
    match value_from_text(text) {
        Ok(v) => Some(from_value(v)),
        Err(_) => None,
    }
}

/// Reads a JSON value out of bytes; the error is the message.
pub fn parse_bytes(bytes: &[u8]) -> (r: Result<Json, String>)
    ensures
        match r {
            Ok(j) => read_bytes(bytes@) == Ok::<JsonView, Seq<char>>(j@),
            Err(e) => read_bytes(bytes@) == Err::<JsonView, Seq<char>>(e@),
        },
{
    match value_from_bytes(bytes) {
        Ok(v) => Ok(from_value(v)),
        Err(e) => Err(error_to_text(&e)),
    }
}

/// Writes a JSON value as compact text.
pub fn to_text(j: &Json) -> (r: String)
    ensures
        r@ == written(j@),
        only_input(j@) ==> read_text(r@) == Some(j@),
{
    value_to_text(&to_value(j))
}

/// Takes over a value that `serde_json` has read.
pub fn from_serde(v: serde_json::Value) -> (r: Json)
    ensures
        r@ == held(v),
{
    from_value(v)
}

} // verus!
