//! What holds of texts, lists of texts and numbers.

use vstd::prelude::*;

use crate::laws;
use crate::report;
use crate::text;

verus! {

/// Where a text of a list begins when the texts are joined with a gap of that length.
pub open spec fn place(list: Seq<Seq<char>>, gap: nat, i: int) -> int
    decreases i,
{
    if i <= 0 {
        0
    } else {
        place(list, gap, i - 1) + list[i - 1].len() + gap
    }
}

/// How many characters the texts have together.
pub open spec fn total_length(list: Seq<Seq<char>>) -> nat
    decreases list.len(),
{
    if list.len() == 0 {
        0
    } else {
        total_length(list.drop_last()) + list.last().len()
    }
}

proof fn place_of_fewer(list: Seq<Seq<char>>, gap: nat, i: int)
    requires
        0 <= i < list.len(),
    ensures
        place(list.drop_last(), gap, i) == place(list, gap, i),
        place(list, gap, i) >= 0,
    decreases i,
{
    if i > 0 {
        place_of_fewer(list, gap, i - 1);
    }
}

proof fn place_behind_texts(list: Seq<Seq<char>>, i: int)
    requires
        0 <= i <= list.len(),
    ensures
        place(list, 1, i) == total_length(list.take(i)) + i,
    decreases i,
{
    if i > 0 {
        place_behind_texts(list, i - 1);
        assert(list.take(i).drop_last() =~= list.take(i - 1));
        assert(list.take(i).last() == list[i - 1]);
    }
}

proof fn joined_ends(list: Seq<Seq<char>>, separator: Seq<char>)
    requires
        list.len() > 0,
    ensures
        text::joined(list, separator).len() == place(list, separator.len(), list.len() - 1)
            + list.last().len(),
    decreases list.len(),
{
    if list.len() > 1 {
        let rest = list.drop_last();
        joined_ends(rest, separator);
        place_of_fewer(list, separator.len(), list.len() - 2);
    }
}

/// Joined texts hold every text of the list, whole and in order, with the separator between any two
/// neighbours, and nothing else.
pub proof fn joined_holds_every_text(list: Seq<Seq<char>>, separator: Seq<char>, i: int)
    requires
        0 <= i < list.len(),
    ensures
        ({
            let all = text::joined(list, separator);
            let at = place(list, separator.len(), i);
            let end = at + list[i].len();
            &&& 0 <= at <= end <= all.len()
            &&& all.subrange(at, end) == list[i]
            &&& i < list.len() - 1 ==> end + separator.len() == place(
                list,
                separator.len(),
                i + 1,
            ) <= all.len() && all.subrange(end, end + separator.len()) == separator
            &&& i == list.len() - 1 ==> end == all.len()
        }),
    decreases list.len(),
{
    let all = text::joined(list, separator);
    let gap = separator.len();
    let at = place(list, gap, i);
    let end = at + list[i].len();
    joined_ends(list, separator);
    place_of_fewer(list, gap, i);
    if list.len() == 1 {
        assert(all.subrange(0, list[0].len() as int) =~= list[0]);
    } else {
        let rest = list.drop_last();
        let before = text::joined(rest, separator);
        joined_ends(rest, separator);
        place_of_fewer(list, gap, list.len() - 2);
        assert(place(list, gap, list.len() - 1) == before.len() + gap);
        if i < list.len() - 1 {
            joined_holds_every_text(rest, separator, i);
            assert(rest[i] == list[i]);
            assert(all.subrange(at, end) =~= before.subrange(at, end));
            if i < list.len() - 2 {
                place_of_fewer(list, gap, i + 1);
                assert(all.subrange(end, end + gap) =~= before.subrange(end, end + gap));
            } else {
                assert(all.subrange(end, end + gap) =~= separator);
            }
        } else {
            assert(all.subrange(at, end) =~= list[i]);
        }
    }
}

/// Texts joined by one character are as long as all of them and one for each gap.
pub proof fn joined_length(list: Seq<Seq<char>>, separator: Seq<char>)
    requires
        list.len() > 0,
        separator.len() == 1,
    ensures
        text::joined(list, separator).len() == total_length(list) + list.len() - 1,
{
    joined_ends(list, separator);
    let n = list.len() as int;
    place_behind_texts(list, n - 1);
    assert(list.take(n - 1) =~= list.drop_last());
}

/// The text is the texts of the list, whole and in order, each on lines of its own: a line end
/// stands between any two neighbours, and nothing else is there.
pub open spec fn lines(all: Seq<char>, list: Seq<Seq<char>>) -> bool {
    &&& list.len() == 0 ==> all.len() == 0
    &&& list.len() > 0 ==> all.len() == total_length(list) + list.len() - 1
    &&& forall|i: int|
        #![trigger list[i]]
        0 <= i < list.len() ==> {
            let at = total_length(list.take(i)) + i;
            &&& at + list[i].len() <= all.len()
            &&& all.subrange(at, at + list[i].len()) == list[i]
            &&& i < list.len() - 1 ==> all[at + list[i].len()] == '\n'
        }
}

/// Texts that are joined by line ends stand on lines of their own.
pub proof fn joined_by_line_ends(list: Seq<Seq<char>>)
    ensures
        lines(text::joined(list, "\n"@), list),
{
    reveal_strlit("\n");
    let all = text::joined(list, "\n"@);
    assert("\n"@.len() == 1 && "\n"@[0] == '\n');
    if list.len() > 0 {
        joined_length(list, "\n"@);
    }
    assert forall|i: int| #![trigger list[i]] 0 <= i < list.len() implies ({
        let at = total_length(list.take(i)) + i;
        &&& at + list[i].len() <= all.len()
        &&& all.subrange(at, at + list[i].len()) == list[i]
        &&& i < list.len() - 1 ==> all[at + list[i].len()] == '\n'
    }) by {
        let at = total_length(list.take(i)) + i;
        place_behind_texts(list, i);
        joined_holds_every_text(list, "\n"@, i);
        if i < list.len() - 1 {
            let end = at + list[i].len();
            assert(all.subrange(end, end + 1)[0] == all[end]);
        }
    }
}

/// One text is joined to itself, and two with the separator between them.
pub proof fn joined_of_few(a: Seq<char>, b: Seq<char>, separator: Seq<char>)
    ensures
        text::joined(seq![a], separator) == a,
        text::joined(seq![a, b], separator) == a + separator + b,
{
    assert(seq![a, b].drop_last() =~= seq![a]);
}

/// The character at which two texts first differ decides their order, and a text comes before any
/// that it begins.
pub proof fn first_difference_decides(a: Seq<char>, b: Seq<char>, i: int)
    requires
        0 <= i <= a.len(),
        i < b.len(),
        a.take(i) == b.take(i),
        i == a.len() || a[i] < b[i],
    ensures
        text::before(a, b),
        !text::before(b, a),
    decreases i,
{
    if i > 0 {
        assert(a[0] == a.take(i)[0]);
        assert(b[0] == b.take(i)[0]);
        let c = a.drop_first();
        let d = b.drop_first();
        assert forall|k: int| 0 <= k < i - 1 implies c[k] == d[k] by {
            assert(a.take(i)[k + 1] == a[k + 1]);
            assert(b.take(i)[k + 1] == b[k + 1]);
        }
        assert(c.take(i - 1) =~= d.take(i - 1));
        first_difference_decides(c, d, i - 1);
    }
}

/// In a sorted list a text is the same as any later one or comes before it; in an ascending one it
/// comes before it.
pub proof fn order_of_lists(list: Seq<Seq<char>>, i: int, j: int)
    requires
        0 <= i < j < list.len(),
    ensures
        text::sorted(list) ==> list[i] == list[j] || text::before(list[i], list[j]),
        text::ascending(list) ==> text::before(list[i], list[j]),
{
    text::before_total(list[i], list[j]);
}

/// A number is written without leading zeros.
pub proof fn decimal_has_no_leading_zero(n: nat)
    ensures
        n > 0 ==> text::decimal(n)[0] != '0',
        n < 10 ==> text::decimal(n).len() == 1,
        n >= 10 ==> text::decimal(n).len() == text::decimal(n / 10).len() + 1,
    decreases n,
{
    if n >= 10 {
        decimal_has_no_leading_zero(n / 10);
        laws::decimal_is_read_back(n / 10);
        assert(text::decimal(n)[0] == text::decimal(n / 10)[0]);
    }
}

/// In a number in groups every fourth character from the right is a comma, and no other is.
pub proof fn commas_stand_between_groups(digits: Seq<char>, k: int)
    requires
        forall|i: int| 0 <= i < digits.len() ==> #[trigger] digits[i] != ',',
        0 <= k < report::grouped(digits).len(),
    ensures
        report::grouped(digits)[report::grouped(digits).len() - 1 - k] == ',' <==> k % 4 == 3,
    decreases digits.len(),
{
    let all = report::grouped(digits);
    reveal_strlit(",");
    if digits.len() > 3 {
        let head = digits.take(digits.len() - 3);
        let tail = digits.skip(digits.len() - 3);
        let front = report::grouped(head);
        assert(","@.len() == 1 && ","@[0] == ',');
        assert(all.len() == front.len() + 4);
        if k >= 4 {
            assert(all[all.len() - 1 - k] == front[front.len() - 1 - (k - 4)]);
            commas_stand_between_groups(head, k - 4);
        } else if k < 3 {
            assert(all[all.len() - 1 - k] == tail[2 - k]);
            assert(tail[2 - k] == digits[digits.len() - 1 - k]);
        }
    } else {
        assert(all == digits);
    }
}

/// A text is blank where both its parts are; spaces, tabs and line ends are blank, and what holds a
/// visible ASCII character is not.
pub proof fn blank_texts(a: Seq<char>, b: Seq<char>)
    ensures
        text::blank(a + b) <==> text::blank(a) && text::blank(b),
        (forall|i: int|
            0 <= i < a.len() ==> #[trigger] a[i] == ' ' || a[i] == '\t' || a[i] == '\n' || a[i]
                == '\r') ==> text::blank(a),
        (exists|i: int| 0 <= i < a.len() && '!' <= #[trigger] a[i] <= '~') ==> !text::blank(a),
{
    if text::blank(a + b) {
        assert forall|i: int| 0 <= i < a.len() implies text::whitespace(#[trigger] a[i]) by {
            assert((a + b)[i] == a[i]);
        }
        assert forall|i: int| 0 <= i < b.len() implies text::whitespace(#[trigger] b[i]) by {
            assert((a + b)[a.len() + i] == b[i]);
        }
    }
}

/// Texts are listed by their characters, and an absent text gives way to another.
pub proof fn texts_are_their_characters(list: Seq<String>, i: int, s: Seq<char>, other: Seq<char>)
    requires
        0 <= i < list.len(),
    ensures
        text::texts(list).len() == list.len(),
        text::texts(list)[i] == list[i]@,
        text::or(Some(s), other) == s,
        text::or(None, other) == other,
{
}

} // verus!
