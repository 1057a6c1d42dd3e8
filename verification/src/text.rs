//! Text over sequences of characters: comparison, order, joining and decimal numbers.

use vstd::prelude::*;

verus! {

/// Appends one character; `String::push` of std does exactly this.
pub assume_specification[ String::push ](s: &mut String, ch: char)
    ensures
        final(s)@ == old(s)@.push(ch),
;

/// The characters of each text of a list.
pub open spec fn texts(list: Seq<String>) -> Seq<Seq<char>> {
    list.map_values(|s: String| s@)
}

/// The characters of a text that may be absent.
pub open spec fn text_of(s: Option<&str>) -> Option<Seq<char>> {
    match s {
        Some(t) => Some(t@),
        None => None,
    }
}

/// The text, or another where it is absent.
pub open spec fn or(s: Option<Seq<char>>, other: Seq<char>) -> Seq<char> {
    match s {
        Some(t) => t,
        None => other,
    }
}

/// Whether the text is in the list.
pub fn holds(list: &[String], name: &str) -> (r: bool)
    ensures
        r == texts(list@).contains(name@),
{
    let mut i: usize = 0;
    while i < list.len()
        invariant
            i <= list.len(),
            forall|j: int| 0 <= j < i ==> (#[trigger] list@[j])@ != name@,
        decreases list.len() - i,
    {
        if same_text(list[i].as_str(), name) {
            assert(texts(list@)[i as int] == name@);
            return true;
        }
        i += 1;
    }
    assert forall|j: int| 0 <= j < list@.len() implies texts(list@)[j] != name@ by {
        assert(list@[j]@ != name@);
    }
    false
}

/// Whether two texts hold the same characters.
pub fn same_text(a: &str, b: &str) -> (r: bool)
    ensures
        r == (a@ == b@),
{
    let mut left = a.chars();
    let mut right = b.chars();
    let ghost mut n: int = 0;
    loop
        invariant
            0 <= n <= a@.len(),
            n <= b@.len(),
            vstd::std_specs::iter::IteratorSpec::remaining(&left) == a@.skip(n),
            vstd::std_specs::iter::IteratorSpec::remaining(&right) == b@.skip(n),
            a@.take(n) == b@.take(n),
        decreases a@.len() - n,
    {
        match (left.next(), right.next()) {
            (None, None) => {
                assert(a@ =~= a@.take(n));
                assert(b@ =~= b@.take(n));
                return true;
            },
            (Some(x), Some(y)) => {
                assert(x == a@[n] && y == b@[n]);
                if x != y {
                    return false;
                }
                assert(a@.take(n + 1) =~= a@.take(n).push(x));
                assert(b@.take(n + 1) =~= b@.take(n).push(y));
                assert(a@.skip(n).drop_first() =~= a@.skip(n + 1));
                assert(b@.skip(n).drop_first() =~= b@.skip(n + 1));
                proof {
                    n = n + 1;
                }
            },
            _ => {
                return false;
            },
        }
    }
}

/// The order of texts: by the first character in which they differ, a proper prefix first.
pub open spec fn before(a: Seq<char>, b: Seq<char>) -> bool
    decreases a.len(),
{
    if b.len() == 0 {
        false
    } else if a.len() == 0 {
        true
    } else if a[0] == b[0] {
        before(a.drop_first(), b.drop_first())
    } else {
        a[0] < b[0]
    }
}

/// Each text comes before the ones that follow it.
pub open spec fn ascending(keys: Seq<Seq<char>>) -> bool {
    forall|i: int, j: int|
        #![trigger keys[i], keys[j]]
        0 <= i < j < keys.len() ==> before(keys[i], keys[j])
}

/// No text comes before itself.
pub proof fn before_irreflexive(a: Seq<char>)
    ensures
        !before(a, a),
    decreases a.len(),
{
    if a.len() > 0 {
        before_irreflexive(a.drop_first());
    }
}

/// The order of texts is transitive.
pub proof fn before_transitive(a: Seq<char>, b: Seq<char>, c: Seq<char>)
    requires
        before(a, b),
        before(b, c),
    ensures
        before(a, c),
    decreases a.len(),
{
    if a.len() > 0 && a[0] == b[0] && b[0] == c[0] {
        before_transitive(a.drop_first(), b.drop_first(), c.drop_first());
    }
}

/// Of two different texts, one comes before the other.
pub proof fn before_total(a: Seq<char>, b: Seq<char>)
    ensures
        a == b || before(a, b) || before(b, a),
    decreases a.len(),
{
    if a.len() > 0 && b.len() > 0 && a[0] == b[0] {
        before_total(a.drop_first(), b.drop_first());
        if a.drop_first() == b.drop_first() {
            assert(a =~= seq![a[0]] + a.drop_first());
            assert(b =~= seq![b[0]] + b.drop_first());
        }
    } else if a.len() == 0 && b.len() == 0 {
        assert(a =~= b);
    }
}

/// Two ascending lists of the same texts are the same list.
pub proof fn ascending_unique(s: Seq<Seq<char>>, t: Seq<Seq<char>>)
    requires
        ascending(s),
        ascending(t),
        forall|k: Seq<char>| #[trigger] s.contains(k) <==> t.contains(k),
    ensures
        s == t,
    decreases s.len(),
{
    if s.len() == 0 {
        if t.len() > 0 {
            assert(t.contains(t[0]));
            assert(s.contains(t[0]));
        }
        assert(s =~= t);
    } else {
        let last = s.last();
        assert(s.contains(last));
        assert(t.contains(last));
        assert(t.contains(t.last()));
        assert(s.contains(t.last()));
        let i = choose|i: int| 0 <= i < s.len() && s[i] == t.last();
        let j = choose|j: int| 0 <= j < t.len() && t[j] == last;
        before_irreflexive(last);
        if i < s.len() - 1 && j < t.len() - 1 {
            assert(before(s[i], s[s.len() - 1]));
            assert(before(t[j], t[t.len() - 1]));
            before_transitive(last, t.last(), last);
        }
        assert(t.last() == last);
        let s1 = s.drop_last();
        let t1 = t.drop_last();
        assert forall|k: Seq<char>| #[trigger] s1.contains(k) <==> t1.contains(k) by {
            if s1.contains(k) {
                let p = choose|p: int| 0 <= p < s1.len() && s1[p] == k;
                assert(s[p] == k);
                assert(before(s[p], s[s.len() - 1]));
                assert(s.contains(s[p]));
                assert(t.contains(k));
                let q = choose|q: int| 0 <= q < t.len() && t[q] == k;
                assert(q != t.len() - 1);
                assert(t1[q] == k);
            }
            if t1.contains(k) {
                let p = choose|p: int| 0 <= p < t1.len() && t1[p] == k;
                assert(t[p] == k);
                assert(before(t[p], t[t.len() - 1]));
                assert(t.contains(k));
                assert(s.contains(k));
                let q = choose|q: int| 0 <= q < s.len() && s[q] == k;
                assert(q != s.len() - 1);
                assert(s1[q] == k);
            }
        }
        ascending_unique(s1, t1);
        assert(s =~= s1.push(last));
        assert(t =~= t1.push(last));
    }
}

/// Whether the first text comes before the second.
pub fn comes_before(a: &str, b: &str) -> (r: bool)
    ensures
        r == before(a@, b@),
{
    let mut left = a.chars();
    let mut right = b.chars();
    let ghost mut n: int = 0;
    assert(a@.skip(0) =~= a@ && b@.skip(0) =~= b@);
    loop
        invariant
            0 <= n <= a@.len(),
            n <= b@.len(),
            vstd::std_specs::iter::IteratorSpec::remaining(&left) == a@.skip(n),
            vstd::std_specs::iter::IteratorSpec::remaining(&right) == b@.skip(n),
            before(a@, b@) == before(a@.skip(n), b@.skip(n)),
        decreases a@.len() - n,
    {
        match (left.next(), right.next()) {
            (Some(x), Some(y)) => {
                assert(x == a@[n] && y == b@[n]);
                if x != y {
                    return x < y;
                }
                assert(a@.skip(n).drop_first() =~= a@.skip(n + 1));
                assert(b@.skip(n).drop_first() =~= b@.skip(n + 1));
                proof {
                    n = n + 1;
                }
            },
            (None, Some(_)) => {
                return true;
            },
            _ => {
                return false;
            },
        }
    }
}

/// The texts of a list, one after another, with the separator between any two.
pub open spec fn joined(list: Seq<Seq<char>>, separator: Seq<char>) -> Seq<char>
    decreases list.len(),
{
    if list.len() == 0 {
        Seq::empty()
    } else if list.len() == 1 {
        list[0]
    } else {
        joined(list.drop_last(), separator) + separator + list.last()
    }
}

/// Joins the texts of a list.
pub fn join(list: &[String], separator: &str) -> (r: String)
    ensures
        r@ == joined(texts(list@), separator@),
{
    let mut out = String::new();
    let mut i: usize = 0;
    while i < list.len()
        invariant
            i <= list.len(),
            out@ == joined(texts(list@).take(i as int), separator@),
        decreases list.len() - i,
    {
        if i > 0 {
            out.append(separator);
        }
        out.append(list[i].as_str());
        assert(texts(list@).take(i + 1).drop_last() =~= texts(list@).take(i as int));
        assert(texts(list@).take(i + 1).last() == list@[i as int]@);
        assert(out@ =~= joined(texts(list@).take(i + 1), separator@));
        i += 1;
    }
    assert(texts(list@).take(i as int) =~= texts(list@));
    out
}

/// The digit for a number below ten.
pub open spec fn digit(d: nat) -> char {
    (48 + d) as char
}

/// A number in decimal, without leading zeros.
pub open spec fn decimal(n: nat) -> Seq<char>
    decreases n,
{
    if n < 10 {
        seq![digit(n)]
    } else {
        decimal(n / 10).push(digit(n % 10))
    }
}

/// The digit for a number below ten.
pub(crate) fn digit_of(d: u8) -> (r: char)
    requires
        d < 10,
    ensures
        r == digit(d as nat),
{
    (48 + d) as char
}

/// Writes a number in decimal.
pub fn decimal_text(n: u64) -> (r: String)
    ensures
        r@ == decimal(n as nat),
    decreases n,
{
    let mut out = if n < 10 {
        String::new()
    } else {
        decimal_text(n / 10)
    };
    out.push(digit_of((n % 10) as u8));
    assert(out@ =~= decimal(n as nat));
    out
}

/// Whether a character is whitespace: has the property `White_Space` in Unicode.
pub open spec fn whitespace(c: char) -> bool {
    let n = c as int;
    ||| 0x9 <= n <= 0xd
    ||| n == 0x20
    ||| n == 0x85
    ||| n == 0xa0
    ||| n == 0x1680
    ||| 0x2000 <= n <= 0x200a
    ||| n == 0x2028
    ||| n == 0x2029
    ||| n == 0x202f
    ||| n == 0x205f
    ||| n == 0x3000
}

/// `char::is_whitespace` of std: whether the character has the property `White_Space`.
pub assume_specification[ char::is_whitespace ](c: char) -> (r: bool)
    ensures
        r == whitespace(c),
;

/// Nothing but whitespace.
pub open spec fn blank(s: Seq<char>) -> bool {
    forall|i: int| 0 <= i < s.len() ==> whitespace(#[trigger] s[i])
}

/// Whether a text holds nothing but whitespace.
pub fn is_blank(s: &str) -> (r: bool)
    ensures
        r == blank(s@),
{
    let mut rest = s.chars();
    let ghost mut n: int = 0;
    loop
        invariant
            0 <= n <= s@.len(),
            vstd::std_specs::iter::IteratorSpec::remaining(&rest) == s@.skip(n),
            forall|i: int| 0 <= i < n ==> whitespace(#[trigger] s@[i]),
        decreases s@.len() - n,
    {
        match rest.next() {
            Some(c) => {
                assert(c == s@[n]);
                if !c.is_whitespace() {
                    return false;
                }
                assert(s@.skip(n).drop_first() =~= s@.skip(n + 1));
                proof {
                    n = n + 1;
                }
            },
            None => {
                return true;
            },
        }
    }
}

/// The characters of a text as a list.
pub fn characters(s: &str) -> (r: Vec<char>)
    ensures
        r@ == s@,
{
    let mut out: Vec<char> = Vec::new();
    let mut rest = s.chars();
    loop
        invariant
            out@.len() <= s@.len(),
            out@ == s@.take(out@.len() as int),
            vstd::std_specs::iter::IteratorSpec::remaining(&rest) == s@.skip(out@.len() as int),
        decreases s@.len() - out@.len(),
    {
        let ghost n = out@.len() as int;
        match rest.next() {
            Some(c) => {
                assert(c == s@[n]);
                out.push(c);
                assert(s@.skip(n).drop_first() =~= s@.skip(n + 1));
                assert(s@.take(n + 1) =~= s@.take(n).push(c));
            },
            None => {
                assert(s@.take(n) =~= s@);
                return out;
            },
        }
    }
}

/// Appends a part of a list of characters.
pub fn append_chars(s: &mut String, chars: &[char], from: usize, to: usize)
    requires
        from <= to <= chars@.len(),
    ensures
        final(s)@ == old(s)@ + chars@.subrange(from as int, to as int),
{
    let ghost was = s@;
    let mut i: usize = from;
    assert(was + chars@.subrange(from as int, from as int) =~= was);
    while i < to
        invariant
            from <= i <= to <= chars@.len(),
            s@ == was + chars@.subrange(from as int, i as int),
        decreases to - i,
    {
        s.push(chars[i]);
        assert(s@ =~= was + chars@.subrange(from as int, i + 1));
        i += 1;
    }
}

/// No text comes before one that stands earlier in the list.
pub open spec fn sorted(list: Seq<Seq<char>>) -> bool {
    forall|i: int, j: int|
        #![trigger list[i], list[j]]
        0 <= i < j < list.len() ==> !before(list[j], list[i])
}

/// A text put into a sorted list behind all that it does not come before leaves the list sorted.
proof fn sorted_insert(list: Seq<Seq<char>>, at: int, x: Seq<char>)
    requires
        sorted(list),
        0 <= at <= list.len(),
        at > 0 ==> !before(x, list[at - 1]),
        forall|k: int| at <= k < list.len() ==> before(x, #[trigger] list[k]),
    ensures
        sorted(list.insert(at, x)),
{
    let now = list.insert(at, x);
    assert forall|i: int, j: int|
        #![trigger now[i], now[j]]
        0 <= i < j < now.len() implies !before(now[j], now[i]) by {
        if i == at {
            assert(now[j] == list[j - 1]);
            before_irreflexive(x);
            if before(list[j - 1], x) {
                before_transitive(x, list[j - 1], x);
            }
        } else if j == at {
            assert(now[i] == list[i]);
            if before(x, list[i]) && i < at - 1 {
                assert(!before(list[at - 1], list[i]));
                before_total(list[at - 1], list[i]);
                if before(list[i], list[at - 1]) {
                    before_transitive(x, list[i], list[at - 1]);
                }
            }
        } else {
            let a: int = if i < at { i } else { i - 1 };
            let b: int = if j < at { j } else { j - 1 };
            assert(now[i] == list[a] && now[j] == list[b]);
        }
    }
}

/// Puts the texts of a list in order.
pub fn sort(list: Vec<String>) -> (r: Vec<String>)
    ensures
        sorted(texts(r@)),
        texts(r@).to_multiset() == texts(list@).to_multiset(),
{
    let mut out: Vec<String> = Vec::new();
    let mut i: usize = 0;
    assert(texts(out@) =~= texts(list@).take(0));
    while i < list.len()
        invariant
            i <= list.len(),
            sorted(texts(out@)),
            texts(out@).to_multiset() == texts(list@).take(i as int).to_multiset(),
        decreases list.len() - i,
    {
        let mut at: usize = out.len();
        while at > 0 && comes_before(list[i].as_str(), out[at - 1].as_str())
            invariant
                at <= out.len(),
                i < list.len(),
                forall|k: int|
                    at <= k < out@.len() ==> before(list@[i as int]@, (#[trigger] out@[k])@),
            decreases at,
        {
            at -= 1;
        }
        let ghost was = texts(out@);
        let ghost x = list@[i as int]@;
        out.insert(at, list[i].clone());
        proof {
            let now = texts(out@);
            broadcast use vstd::seq_lib::group_to_multiset_ensures;
            assert forall|k: int| at <= k < was.len() implies before(x, #[trigger] was[k]) by {
                assert(was[k] == out@[k + 1]@);
            }
            sorted_insert(was, at as int, x);
            assert(now =~= was.insert(at as int, x));
            assert(now.remove(at as int) =~= was);
            assert(now.contains(now[at as int]));
            assert(now.to_multiset() =~= was.to_multiset().insert(x));
            assert(texts(list@).take(i + 1) =~= texts(list@).take(i as int).push(x));
        }
        i += 1;
    }
    assert(texts(list@).take(i as int) =~= texts(list@));
    out
}

/// Whether the character stands in the text.
pub fn contains_char(s: &str, c: char) -> (r: bool)
    ensures
        r == s@.contains(c),
{
    let chars = characters(s);
    let mut i: usize = 0;
    while i < chars.len()
        invariant
            i <= chars.len(),
            chars@ == s@,
            forall|k: int| 0 <= k < i ==> chars@[k] != c,
        decreases chars.len() - i,
    {
        if chars[i] == c {
            assert(s@[i as int] == c);
            return true;
        }
        i += 1;
    }
    false
}

} // verus!
