//! What holds of the content of messages.

use vstd::prelude::*;

use crate::convert::messages;
use crate::json;
use crate::json::JsonView;
use crate::laws::texts;
use crate::text;

verus! {

/// A content part that says those words as a text.
pub open spec fn says(part: JsonView, words: Seq<char>) -> bool {
    &&& json::field(part, "type"@) == Some(JsonView::Str("input_text"@)) || json::field(
        part,
        "type"@,
    ) == Some(JsonView::Str("output_text"@)) || json::field(part, "type"@) == Some(
        JsonView::Str("text"@),
    )
    &&& json::field(part, "text"@) == Some(JsonView::Str(words))
}

/// A content part that refuses in those words.
pub open spec fn declines(part: JsonView, words: Seq<char>) -> bool {
    &&& json::field(part, "type"@) == Some(JsonView::Str("refusal"@))
    &&& json::field(part, "refusal"@) == Some(JsonView::Str(words))
}

/// A content part with an image at that location.
pub open spec fn shows(part: JsonView, url: Seq<char>) -> bool {
    &&& json::field(part, "type"@) == Some(JsonView::Str("input_image"@))
    &&& json::field(part, "image_url"@) == Some(JsonView::Str(url)) || (json::field(
        part,
        "image_url"@,
    ) matches Some(JsonView::Obj(u)) && json::field(JsonView::Obj(u), "url"@) == Some(
        JsonView::Str(url),
    ))
}

proof fn part_names_differ()
    ensures
        "input_text"@ != "input_image"@,
        "output_text"@ != "input_image"@,
        "text"@ != "input_image"@,
        "refusal"@ != "input_image"@,
        "refusal"@ != "input_text"@,
        "refusal"@ != "output_text"@,
        "refusal"@ != "text"@,
        "type"@ != "text"@,
        "type"@ != "image_url"@,
        "url"@ != "detail"@,
        "input_text"@.len() > 0 && "output_text"@.len() > 0 && "text"@.len() > 0,
        "refusal"@.len() > 0 && "input_image"@.len() > 0,
{
    reveal_strlit("input_text");
    reveal_strlit("output_text");
    reveal_strlit("text");
    reveal_strlit("refusal");
    reveal_strlit("input_image");
    reveal_strlit("type");
    reveal_strlit("image_url");
    reveal_strlit("url");
    reveal_strlit("detail");
    assert("input_text"@.len() == 10);
    assert("output_text"@.len() == 11);
    assert("text"@.len() == 4);
    assert("refusal"@.len() == 7);
    assert("input_image"@.len() == 11);
    assert("type"@.len() == 4);
    assert("image_url"@.len() == 9);
    assert("url"@.len() == 3);
    assert("detail"@.len() == 6);
    assert("output_text"@[0] == 'o');
    assert("input_image"@[0] == 'i');
    assert("text"@[1] == 'e');
    assert("type"@[1] == 'y');
}

/// A part that says words in a text gives these words, all of them and no others; a refusal gives
/// its words; a part of another type gives none.
pub proof fn words_of_a_part(part: JsonView, words: Seq<char>)
    ensures
        says(part, words) ==> messages::part_text(part) == Some(words),
        declines(part, words) ==> messages::part_text(part) == Some(words),
        shows(part, words) ==> messages::part_text(part) is None,
        messages::part_text(part) == Some(words) && words.len() > 0 ==> says(part, words)
            || declines(part, words),
{
    part_names_differ();
}

/// A text or a refusal without words gives an empty text; a part without a type, or of another one,
/// gives none.
pub proof fn parts_without_words(part: JsonView)
    ensures
        ({
            let kind = json::text_field(part, "type"@);
            let spoken = kind == "input_text"@ || kind == "output_text"@ || kind == "text"@;
            &&& spoken && json::as_text(json::field(part, "text"@)) is None ==> messages::part_text(
                part,
            ) == Some(Seq::<char>::empty())
            &&& kind == "refusal"@ && json::as_text(json::field(part, "refusal"@)) is None
                ==> messages::part_text(part) == Some(Seq::<char>::empty())
            &&& !spoken && kind != "refusal"@ ==> messages::part_text(part) is None
            &&& kind != "input_image"@ ==> messages::part_image(part) is None
        }),
{
    part_names_differ();
}

/// A part with an image gives this image, with its location and the detail that is asked for; a
/// part without a location, or of another type, gives none.
pub proof fn image_of_a_part(part: JsonView, url: Seq<char>)
    ensures
        shows(part, url) && url.len() > 0 ==> {
            &&& messages::part_image(part) is Some
            &&& json::field(messages::part_image(part)->0, "url"@) == Some(JsonView::Str(url))
            &&& json::field(messages::part_image(part)->0, "detail"@) == json::present(
                json::field(part, "detail"@),
            )
            &&& messages::part_image(part)->0->Obj_0.dom().subset_of(set!["url"@, "detail"@])
        },
        shows(part, url) && url.len() == 0 ==> messages::part_image(part) is None,
        json::field(part, "image_url"@) is None ==> messages::part_image(part) is None,
        json::field(part, "image_url"@) is Some && !(json::field(part, "image_url"@)->0 is Str)
            && json::as_text(json::field2(part, "image_url"@, "url"@)) is None
            ==> messages::part_image(part) is None,
        says(part, url) ==> messages::part_image(part) is None,
        declines(part, url) ==> messages::part_image(part) is None,
{
    part_names_differ();
}

/// The chat form of a text is a text with the same words, and that of an image an image with the
/// same location; what is neither has none.
pub proof fn chat_form_of_a_part(part: JsonView, words: Seq<char>)
    ensures
        says(part, words) || declines(part, words) ==> {
            &&& messages::chat_part(part) is Some
            &&& json::field(messages::chat_part(part)->0, "type"@) == Some(JsonView::Str("text"@))
            &&& json::field(messages::chat_part(part)->0, "text"@) == Some(JsonView::Str(words))
            &&& messages::chat_part(part)->0->Obj_0.dom() == set!["type"@, "text"@]
        },
        shows(part, words) && words.len() > 0 ==> {
            &&& messages::chat_part(part) is Some
            &&& json::field(messages::chat_part(part)->0, "type"@) == Some(
                JsonView::Str("image_url"@),
            )
            &&& json::field2(messages::chat_part(part)->0, "image_url"@, "url"@) == Some(
                JsonView::Str(words),
            )
            &&& json::field2(messages::chat_part(part)->0, "image_url"@, "detail"@)
                == json::present(json::field(part, "detail"@))
            &&& messages::chat_part(part)->0->Obj_0.dom() == set!["type"@, "image_url"@]
        },
        shows(part, words) && words.len() == 0 ==> messages::chat_part(part) is None,
{
    part_names_differ();
    words_of_a_part(part, words);
    image_of_a_part(part, words);
    if says(part, words) || declines(part, words) {
        assert(messages::chat_part(part)->0->Obj_0.dom() =~= set!["type"@, "text"@]);
    }
    if shows(part, words) && words.len() > 0 {
        assert(messages::chat_part(part)->0->Obj_0.dom() =~= set!["type"@, "image_url"@]);
    }
}

/// The words of two lists of parts are those of the one and then those of the other, and so are
/// their chat forms; a single part gives its own or nothing.
pub proof fn parts_keep_their_order(a: Seq<JsonView>, b: Seq<JsonView>, part: JsonView)
    ensures
        messages::part_texts(a + b) == messages::part_texts(a) + messages::part_texts(b),
        messages::chat_parts(a + b) == messages::chat_parts(a) + messages::chat_parts(b),
        messages::has_image(a + b) <==> messages::has_image(a) || messages::has_image(b),
        messages::part_texts(seq![part]) == match messages::part_text(part) {
            Some(words) => seq![words],
            None => Seq::empty(),
        },
        messages::chat_parts(seq![part]) == match messages::chat_part(part) {
            Some(p) => seq![p],
            None => Seq::empty(),
        },
        messages::has_image(seq![part]) <==> messages::part_image(part) is Some,
    decreases b.len(),
{
    assert(seq![part].drop_last() =~= Seq::<JsonView>::empty());
    assert(messages::part_texts(seq![part].drop_last()) =~= Seq::<Seq<char>>::empty());
    assert(messages::chat_parts(seq![part].drop_last()) =~= Seq::<JsonView>::empty());
    assert(seq![part][0] == part);
    if messages::has_image(a + b) {
        let i = choose|i: int|
            0 <= i < (a + b).len() && messages::part_image(#[trigger] (a + b)[i]) is Some;
        if i < a.len() {
            assert(a[i] == (a + b)[i]);
        } else {
            assert(b[i - a.len()] == (a + b)[i]);
        }
    }
    if messages::has_image(a) {
        let i = choose|i: int| 0 <= i < a.len() && messages::part_image(#[trigger] a[i]) is Some;
        assert((a + b)[i] == a[i]);
    }
    if messages::has_image(b) {
        let i = choose|i: int| 0 <= i < b.len() && messages::part_image(#[trigger] b[i]) is Some;
        assert((a + b)[a.len() + i] == b[i]);
    }
    if b.len() == 0 {
        assert(a + b =~= a);
        assert(messages::part_texts(a) + messages::part_texts(b) =~= messages::part_texts(a));
        assert(messages::chat_parts(a) + messages::chat_parts(b) =~= messages::chat_parts(a));
    } else {
        parts_keep_their_order(a, b.drop_last(), part);
        assert((a + b).drop_last() =~= a + b.drop_last());
        assert((a + b).last() == b.last());
        assert(messages::part_texts(a + b) =~= messages::part_texts(a) + messages::part_texts(b));
        assert(messages::chat_parts(a + b) =~= messages::chat_parts(a) + messages::chat_parts(b));
    }
}

/// A content that is one text stays this text, for every role; one that is neither a text nor a
/// list is empty.
pub proof fn text_stays_text(s: Seq<char>, v: JsonView, role: Seq<char>)
    ensures
        messages::content(Some(JsonView::Str(s)), role) == JsonView::Str(s),
        messages::content(None, role) == JsonView::Str(Seq::empty()),
        !(v is Str || v is Arr) ==> messages::content(Some(v), role) == JsonView::Str(Seq::empty()),
{
}

proof fn texts_of_parts(parts: Seq<JsonView>, words: Seq<Seq<char>>)
    requires
        parts.len() == words.len(),
        forall|i: int|
            #![trigger parts[i]]
            0 <= i < parts.len() ==> says(parts[i], words[i]) || declines(parts[i], words[i]),
    ensures
        messages::part_texts(parts) == words,
        !messages::has_image(parts),
    decreases parts.len(),
{
    assert forall|i: int| 0 <= i < parts.len() implies messages::part_image(
        #[trigger] parts[i],
    ) is None by {
        image_of_a_part(parts[i], words[i]);
    }
    if parts.len() > 0 {
        let n = parts.len() - 1;
        assert(parts.last() == parts[n]);
        words_of_a_part(parts[n], words[n]);
        assert forall|i: int| #![trigger parts.drop_last()[i]] 0 <= i < n implies says(
            parts.drop_last()[i],
            words.drop_last()[i],
        ) || declines(parts.drop_last()[i], words.drop_last()[i]) by {
            assert(parts.drop_last()[i] == parts[i]);
        }
        texts_of_parts(parts.drop_last(), words.drop_last());
        assert(words =~= words.drop_last().push(words[n]));
    } else {
        assert(messages::part_texts(parts) =~= words);
    }
}

/// For every role, the content of parts that say words is all these words, whole and in order, each
/// part on lines of its own.
pub proof fn all_words_are_sent(parts: Seq<JsonView>, words: Seq<Seq<char>>, role: Seq<char>)
    requires
        parts.len() == words.len(),
        forall|i: int|
            #![trigger parts[i]]
            0 <= i < parts.len() ==> says(parts[i], words[i]) || declines(parts[i], words[i]),
    ensures
        ({
            let sent = messages::content(Some(JsonView::Arr(parts)), role);
            sent is Str && texts::lines(sent->Str_0, words)
        }),
{
    texts_of_parts(parts, words);
    texts::joined_by_line_ends(words);
}

/// Two texts are sent as the first, a line end and the second, for every role.
pub proof fn two_texts_are_sent(
    first: JsonView,
    second: JsonView,
    a: Seq<char>,
    b: Seq<char>,
    role: Seq<char>,
)
    requires
        says(first, a),
        says(second, b),
    ensures
        messages::content(Some(JsonView::Arr(seq![first, second])), role) == JsonView::Str(
            a + seq!['\n'] + b,
        ),
        messages::content(Some(JsonView::Arr(seq![first])), role) == JsonView::Str(a),
{
    texts_of_parts(seq![first, second], seq![a, b]);
    texts_of_parts(seq![first], seq![a]);
    texts::joined_of_few(a, b, "\n"@);
    reveal_strlit("\n");
    assert("\n"@ =~= seq!['\n']);
}

/// Whatever the parts are, the words among them are sent whole and in order, unless a user sends an
/// image: then the parts are sent as a list, in which each stands in its chat form.
pub proof fn words_or_parts_are_sent(parts: Seq<JsonView>, role: Seq<char>)
    ensures
        ({
            let sent = messages::content(Some(JsonView::Arr(parts)), role);
            &&& role != "user"@ || !messages::has_image(parts) ==> sent is Str && texts::lines(
                sent->Str_0,
                messages::part_texts(parts),
            )
            &&& role == "user"@ && messages::has_image(parts) ==> sent == JsonView::Arr(
                messages::chat_parts(parts),
            )
        }),
{
    texts::joined_by_line_ends(messages::part_texts(parts));
}

/// An image that a user sends is in the list that is sent, with its location, and so is a text
/// beside it, in the order in which they come.
pub proof fn text_and_image_are_sent(
    first: JsonView,
    second: JsonView,
    words: Seq<char>,
    url: Seq<char>,
)
    requires
        says(first, words),
        shows(second, url),
        url.len() > 0,
    ensures
        ({
            let sent = messages::content(Some(JsonView::Arr(seq![first, second])), "user"@);
            &&& sent is Arr
            &&& sent->Arr_0.len() == 2
            &&& json::field(sent->Arr_0[0], "text"@) == Some(JsonView::Str(words))
            &&& json::field2(sent->Arr_0[1], "image_url"@, "url"@) == Some(JsonView::Str(url))
        }),
{
    chat_form_of_a_part(first, words);
    chat_form_of_a_part(second, url);
    image_of_a_part(second, url);
    let parts = seq![first, second];
    assert(parts[1] == second);
    assert(messages::has_image(parts));
    parts_keep_their_order(seq![first], seq![second], first);
    parts_keep_their_order(seq![first], seq![second], second);
    assert(seq![first] + seq![second] =~= parts);
}

/// What is dropped of a content is remarked on: an image without a location, and a part of a type
/// that is not known, with this type; what is sent is not.
pub proof fn dropped_parts_are_remarked(part: JsonView, words: Seq<char>)
    ensures
        says(part, words) || declines(part, words) ==> messages::part_remark(part) is None,
        shows(part, words) && words.len() > 0 ==> messages::part_remark(part) is None,
        shows(part, words) && words.len() == 0 ==> messages::part_remark(part) == Some(
            messages::RemarkView::ImageDropped,
        ),
        json::text_field(part, "type"@) == words && words != "input_text"@ && words
            != "output_text"@ && words != "text"@ && words != "refusal"@ && words != "input_image"@
            ==> messages::part_remark(part) == Some(messages::RemarkView::PartSkipped(words)),
{
    part_names_differ();
    words_of_a_part(part, words);
    image_of_a_part(part, words);
}

/// The remarks on two lists are those on the one and then those on the other.
pub proof fn remarks_keep_their_order(a: Seq<JsonView>, b: Seq<JsonView>, v: JsonView)
    ensures
        messages::part_remarks(a + b) == messages::part_remarks(a) + messages::part_remarks(b),
        messages::part_remarks(seq![v]) == match messages::part_remark(v) {
            Some(r) => seq![r],
            None => Seq::empty(),
        },
        messages::items_remarks(a + b) == messages::items_remarks(a) + messages::items_remarks(b),
        messages::items_remarks(seq![v]) == messages::item_remarks(v),
    decreases b.len(),
{
    assert(seq![v].drop_last() =~= Seq::<JsonView>::empty());
    assert(messages::part_remarks(seq![v].drop_last()) =~= Seq::<messages::RemarkView>::empty());
    assert(messages::items_remarks(seq![v].drop_last()) =~= Seq::<messages::RemarkView>::empty());
    assert(messages::items_remarks(seq![v]) =~= messages::item_remarks(v));
    if b.len() == 0 {
        assert(a + b =~= a);
        assert(messages::part_remarks(a) + messages::part_remarks(b) =~= messages::part_remarks(a));
        assert(messages::items_remarks(a) + messages::items_remarks(b) =~= messages::items_remarks(
            a,
        ));
    } else {
        remarks_keep_their_order(a, b.drop_last(), v);
        assert((a + b).drop_last() =~= a + b.drop_last());
        assert((a + b).last() == b.last());
        assert(messages::part_remarks(a + b) =~= messages::part_remarks(a) + messages::part_remarks(
            b,
        ));
        assert(messages::items_remarks(a + b) =~= messages::items_remarks(a)
            + messages::items_remarks(b));
    }
}

} // verus!
