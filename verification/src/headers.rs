//! HTTP headers: what is sent upstream, and how headers are shown in a log.

use vstd::prelude::*;

use crate::text;

verus! {

/// A header: its name in lower case, and its value.
pub struct Header {
    pub name: String,
    pub value: Vec<u8>,
}

impl View for Header {
    type V = (Seq<char>, Seq<u8>);

    open spec fn view(&self) -> (Seq<char>, Seq<u8>) {
        (self.name@, self.value@)
    }
}

/// The names and values of a list of headers.
pub open spec fn listed(headers: Seq<Header>) -> Seq<(Seq<char>, Seq<u8>)> {
    headers.map_values(|h: Header| h@)
}

/// The value of the first header of that name.
pub open spec fn first_value(
    headers: Seq<(Seq<char>, Seq<u8>)>,
    name: Seq<char>,
) -> Option<Seq<u8>>
    decreases headers.len(),
{
    if headers.len() == 0 {
        None
    } else if headers[0].0 == name {
        Some(headers[0].1)
    } else {
        first_value(headers.skip(1), name)
    }
}

/// A value that may be absent.
pub open spec fn bytes_of(value: Option<&[u8]>) -> Option<Seq<u8>> {
    match value {
        Some(v) => Some(v@),
        None => None,
    }
}

/// Finds the value of the first header of that name.
pub fn find<'a>(headers: &'a [Header], name: &str) -> (r: Option<&'a [u8]>)
    ensures
        bytes_of(r) == first_value(listed(headers@), name@),
{
    let ghost all = listed(headers@);
    let mut i: usize = 0;
    assert(all.skip(0) =~= all);
    while i < headers.len()
        invariant
            i <= headers.len(),
            all == listed(headers@),
            first_value(all, name@) == first_value(all.skip(i as int), name@),
        decreases headers.len() - i,
    {
        proof {
            assert(all.skip(i as int)[0] == headers@[i as int]@);
            assert(all.skip(i as int).skip(1) =~= all.skip(i + 1));
        }
        if text::same_text(headers[i].name.as_str(), name) {
            return Some(headers[i].value.as_slice());
        }
        i += 1;
    }
    None
}

// ---------------------------------------------------------------------------
// Upstream
// ---------------------------------------------------------------------------

/// A byte that may stand in the value of a header.
pub open spec fn header_byte(b: u8) -> bool {
    (b >= 32 && b != 127) || b == 9
}

/// The value of a header out of a text, if it may stand there.
pub open spec fn header_value(s: Seq<char>) -> Option<Seq<u8>> {
    let bytes = vstd::utf8::encode_utf8(s);
    if forall|i: int| 0 <= i < bytes.len() ==> header_byte(#[trigger] bytes[i]) {
        Some(bytes)
    } else {
        None
    }
}

/// `HeaderValue::from_str` of `http`, which `axum` hands on: the bytes of the text, refused where
/// one of them is a control character other than the tab.
#[verifier::external_body]
fn value_from_text(s: &str) -> (r: Option<Vec<u8>>)
    ensures
        match r {
            Some(v) => header_value(s@) == Some(v@),
            None => header_value(s@) is None,
        },
{
    axum::http::HeaderValue::from_str(s).ok().map(|v| v.as_bytes().to_vec())
}

/// The authorization for the upstream: the one that came in, or else the key that stands in.
pub open spec fn authorization(
    incoming: Option<Seq<u8>>,
    fallback_key: Option<Seq<char>>,
) -> Option<Seq<u8>> {
    match (incoming, fallback_key) {
        (Some(v), _) => Some(v),
        (None, Some(key)) => header_value("Bearer "@ + key),
        (None, None) => None,
    }
}

/// The bytes of a list that may be absent.
pub open spec fn list_of(value: Option<Vec<u8>>) -> Option<Seq<u8>> {
    match value {
        Some(v) => Some(v@),
        None => None,
    }
}

fn copy_bytes(bytes: &[u8]) -> (r: Vec<u8>)
    ensures
        r@ == bytes@,
{
    let mut out: Vec<u8> = Vec::new();
    let mut i: usize = 0;
    while i < bytes.len()
        invariant
            i <= bytes.len(),
            out@ == bytes@.take(i as int),
        decreases bytes.len() - i,
    {
        out.push(bytes[i]);
        assert(bytes@.take(i + 1) =~= bytes@.take(i as int).push(bytes@[i as int]));
        i += 1;
    }
    assert(bytes@.take(i as int) =~= bytes@);
    out
}

/// Decides the authorization for the upstream.
pub fn auth_header(headers: &[Header], fallback_key: Option<&str>) -> (r: Option<Vec<u8>>)
    ensures
        list_of(r) == authorization(
            first_value(listed(headers@), "authorization"@),
            text::text_of(fallback_key),
        ),
{
    match find(headers, "authorization") {
        Some(v) => Some(copy_bytes(v)),
        None => match fallback_key {
            Some(key) => {
                let mut s = "Bearer ".to_owned();
                s.append(key);
                value_from_text(s.as_str())
            },
            None => None,
        },
    }
}

/// The header of that name, if there is a value for it.
pub open spec fn with_value(name: Seq<char>, value: Option<Seq<u8>>) -> Seq<(
    Seq<char>,
    Seq<u8>,
)> {
    match value {
        Some(v) => seq![(name, v)],
        None => Seq::empty(),
    }
}

/// The content type that is asked of the upstream.
pub open spec fn accepted(stream: bool) -> Seq<char> {
    if stream {
        "text/event-stream"@
    } else {
        "application/json"@
    }
}

/// The headers of a chat request: the authorization, the content type that is asked for, the user
/// agent that came in, and the metadata of the turn under the name that the upstream has for it.
pub open spec fn chat_headers(
    auth: Seq<u8>,
    stream: bool,
    incoming: Seq<(Seq<char>, Seq<u8>)>,
) -> Seq<(Seq<char>, Seq<u8>)> {
    with_value("authorization"@, Some(auth)) + with_value(
        "accept"@,
        Some(vstd::utf8::encode_utf8(accepted(stream))),
    ) + with_value("user-agent"@, first_value(incoming, "user-agent"@)) + with_value(
        "x-viv-meta"@,
        first_value(incoming, "x-codex-turn-metadata"@),
    )
}

/// The headers of a request for the models.
pub open spec fn model_headers(
    auth: Option<Seq<u8>>,
    incoming: Seq<(Seq<char>, Seq<u8>)>,
) -> Seq<(Seq<char>, Seq<u8>)> {
    with_value("authorization"@, auth) + with_value(
        "user-agent"@,
        first_value(incoming, "user-agent"@),
    )
}

fn add_value(list: &mut Vec<Header>, name: &str, value: Option<&[u8]>)
    ensures
        listed(final(list)@) == listed(old(list)@) + with_value(name@, bytes_of(value)),
{
    let ghost was = list@;
    match value {
        Some(v) => {
            list.push(Header { name: name.to_owned(), value: copy_bytes(v) });
        },
        None => {},
    }
    assert(listed(list@) =~= listed(was) + with_value(name@, bytes_of(value)));
}

/// Chooses the content type to ask for.
pub fn accept(stream: bool) -> (r: &'static str)
    ensures
        r@ == accepted(stream),
{
    if stream {
        "text/event-stream"
    } else {
        "application/json"
    }
}

/// Builds the headers of a chat request.
pub fn upstream_headers(auth: &[u8], stream: bool, incoming: &[Header]) -> (r: Vec<Header>)
    ensures
        listed(r@) == chat_headers(auth@, stream, listed(incoming@)),
{
    let mut list: Vec<Header> = Vec::new();
    add_value(&mut list, "authorization", Some(auth));
    add_value(&mut list, "accept", Some(accept(stream).as_bytes()));
    add_value(&mut list, "user-agent", find(incoming, "user-agent"));
    add_value(&mut list, "x-viv-meta", find(incoming, "x-codex-turn-metadata"));
    assert(listed(list@) =~= chat_headers(auth@, stream, listed(incoming@)));
    list
}

/// Builds the headers of a request for the models.
pub fn models_headers(auth: Option<&[u8]>, incoming: &[Header]) -> (r: Vec<Header>)
    ensures
        listed(r@) == model_headers(bytes_of(auth), listed(incoming@)),
{
    let mut list: Vec<Header> = Vec::new();
    add_value(&mut list, "authorization", auth);
    add_value(&mut list, "user-agent", find(incoming, "user-agent"));
    assert(listed(list@) =~= model_headers(bytes_of(auth), listed(incoming@)));
    list
}

// ---------------------------------------------------------------------------
// Showing headers
// ---------------------------------------------------------------------------

/// Where the first space is; the length where there is none.
pub open spec fn first_space(s: Seq<char>) -> nat
    decreases s.len(),
{
    if s.len() == 0 || s[0] == ' ' {
        0
    } else {
        1 + first_space(s.drop_first())
    }
}

/// The scheme of an authorization: what comes before the first space; empty where there is none.
pub open spec fn scheme(v: Seq<char>) -> Seq<char> {
    if v.contains(' ') {
        v.take(first_space(v) as int)
    } else {
        Seq::empty()
    }
}

/// The token of an authorization: what comes after the first space; all of it where there is none.
pub open spec fn token(v: Seq<char>) -> Seq<char> {
    if v.contains(' ') {
        v.skip(first_space(v) as int + 1)
    } else {
        v
    }
}

/// A token made unreadable: stars for a short one, and of a longer one the first six characters,
/// the last four, and how many there are.
pub open spec fn masked(token: Seq<char>) -> Seq<char> {
    if token.len() <= 12 {
        Seq::new(token.len(), |i: int| '*')
    } else {
        token.take(6) + "…"@ + token.skip(token.len() - 4) + " ("@ + text::decimal(token.len())
            + " chars)"@
    }
}

/// An authorization with its token made unreadable.
pub open spec fn masked_auth(v: Seq<char>) -> Seq<char> {
    if scheme(v).len() == 0 {
        masked(token(v))
    } else {
        scheme(v) + " "@ + masked(token(v))
    }
}

/// Before the first space there is none.
pub proof fn first_space_is_first(s: Seq<char>)
    ensures
        first_space(s) <= s.len(),
        forall|i: int| 0 <= i < first_space(s) ==> s[i] != ' ',
        first_space(s) < s.len() ==> s[first_space(s) as int] == ' ',
        s.contains(' ') <==> first_space(s) < s.len(),
    decreases s.len(),
{
    if s.len() > 0 && s[0] != ' ' {
        let rest = s.drop_first();
        first_space_is_first(rest);
        assert forall|i: int| 0 <= i < first_space(s) implies s[i] != ' ' by {
            if i > 0 {
                assert(rest[i - 1] == s[i]);
            }
        }
        if first_space(s) < s.len() {
            assert(rest[first_space(rest) as int] == s[first_space(s) as int]);
        }
    }
    if first_space(s) < s.len() {
        assert(s.contains(s[first_space(s) as int]));
    }
}

/// Shows an authorization with its token made unreadable.
pub fn mask_auth(v: &str) -> (r: String)
    ensures
        r@ == masked_auth(v@),
{
    let chars = text::characters(v);
    let mut at: usize = 0;
    while at < chars.len() && chars[at] != ' '
        invariant
            at <= chars.len(),
            forall|i: int| 0 <= i < at ==> chars@[i] != ' ',
        decreases chars.len() - at,
    {
        at += 1;
    }
    proof {
        first_space_is_first(v@);
        let f = first_space(v@) as int;
        if f < at {
            assert(chars@[f] == ' ');
        }
        if at < f {
            assert(chars@[at as int] == ' ');
        }
    }
    let (start, named) = if at < chars.len() {
        (at + 1, at > 0)
    } else {
        (0, false)
    };
    let mut out = String::new();
    if named {
        text::append_chars(&mut out, chars.as_slice(), 0, at);
        out.append(" ");
        assert(out@ =~= scheme(v@) + " "@);
    }
    let ghost lead = out@;
    let n: usize = chars.len() - start;
    assert(token(v@) =~= chars@.skip(start as int));
    if n <= 12 {
        let mut i: usize = 0;
        while i < n
            invariant
                i <= n,
                out@ == lead + Seq::new(i as nat, |k: int| '*'),
            decreases n - i,
        {
            out.push('*');
            assert(out@ =~= lead + Seq::new((i + 1) as nat, |k: int| '*'));
            i += 1;
        }
    } else {
        text::append_chars(&mut out, chars.as_slice(), start, start + 6);
        out.append("…");
        text::append_chars(&mut out, chars.as_slice(), chars.len() - 4, chars.len());
        out.append(" (");
        out.append(text::decimal_text(n as u64).as_str());
        out.append(" chars)");
        proof {
            let t = token(v@);
            assert(chars@.subrange(start as int, start + 6) =~= t.take(6));
            assert(chars@.subrange(chars@.len() - 4, chars@.len() as int) =~= t.skip(t.len() - 4));
            assert(out@ =~= lead + masked(t));
        }
    }
    assert(out@ =~= masked_auth(v@));
    out
}

/// The text that std makes of bytes, with a replacement for what is no UTF-8.
pub uninterp spec fn lossy(bytes: Seq<u8>) -> Seq<char>;

/// `String::from_utf8_lossy` of std: bytes that are UTF-8 give the text they encode.
#[verifier::external_body]
fn lossy_text(bytes: &[u8]) -> (r: String)
    ensures
        r@ == lossy(bytes@),
        vstd::utf8::valid_utf8(bytes@) ==> r@ == vstd::utf8::decode_utf8(bytes@),
{
    String::from_utf8_lossy(bytes).to_string()
}

/// A header on a line; an authorization is made unreadable.
pub open spec fn header_line(header: (Seq<char>, Seq<u8>)) -> Seq<char> {
    "    "@ + header.0 + ": "@ + if header.0 == "authorization"@ {
        masked_auth(lossy(header.1))
    } else {
        lossy(header.1)
    }
}

/// The headers, each on a line.
pub open spec fn header_lines(headers: Seq<(Seq<char>, Seq<u8>)>) -> Seq<Seq<char>> {
    headers.map_values(|h: (Seq<char>, Seq<u8>)| header_line(h))
}

fn show_header(header: &Header) -> (r: String)
    ensures
        r@ == header_line(header@),
{
    let value = lossy_text(header.value.as_slice());
    let mut line = "    ".to_owned();
    line.append(header.name.as_str());
    line.append(": ");
    if text::same_text(header.name.as_str(), "authorization") {
        line.append(mask_auth(value.as_str()).as_str());
    } else {
        line.append(value.as_str());
    }
    line
}

/// One header per line, in order; the Authorization token is masked to its first 6 / last 4 chars.
pub fn format_headers(headers: &[Header]) -> (r: String)
    ensures
        exists|lines: Seq<Seq<char>>|
            text::sorted(lines) && lines.to_multiset() == header_lines(
                listed(headers@),
            ).to_multiset() && r@ == #[trigger] text::joined(lines, "\n"@),
{
    let mut lines: Vec<String> = Vec::new();
    let mut i: usize = 0;
    while i < headers.len()
        invariant
            i <= headers.len(),
            lines@.len() == i,
            forall|k: int| 0 <= k < i ==> (#[trigger] lines@[k])@ == header_line(headers@[k]@),
        decreases headers.len() - i,
    {
        lines.push(show_header(&headers[i]));
        i += 1;
    }
    assert(text::texts(lines@) =~= header_lines(listed(headers@)));
    let ordered = text::sort(lines);
    text::join(ordered.as_slice(), "\n")
}

} // verus!
