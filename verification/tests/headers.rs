use codex_proxy::headers::{
    auth_header, find, format_headers, mask_auth, models_headers, upstream_headers, Header,
};

fn h(name: &str, value: &[u8]) -> Header {
    Header { name: name.to_string(), value: value.to_vec() }
}

fn pairs(list: &[Header]) -> Vec<(&str, &[u8])> {
    list.iter().map(|x| (x.name.as_str(), x.value.as_slice())).collect()
}

#[test]
fn the_first_header_of_a_name_is_found() {
    let list = vec![h("a", b"1"), h("b", b"2"), h("b", b"3")];
    assert_eq!(find(&list, "b"), Some(b"2".as_slice()));
    assert_eq!(find(&list, "c"), None);
}

#[test]
fn incoming_authorization_wins_over_the_key() {
    let list = vec![h("authorization", b"Bearer mine \xff")];
    assert_eq!(auth_header(&list, Some("other")), Some(b"Bearer mine \xff".to_vec()));
    assert_eq!(auth_header(&[], Some("other")), Some(b"Bearer other".to_vec()));
    assert_eq!(auth_header(&[], None), None);
}

#[test]
fn keys_that_no_header_can_hold_are_refused() {
    assert_eq!(auth_header(&[], Some("a\nb")), None);
    assert_eq!(auth_header(&[], Some("a\u{7f}")), None);
    assert_eq!(auth_header(&[], Some("a\tb")), Some(b"Bearer a\tb".to_vec()));
    assert_eq!(auth_header(&[], Some("é")), Some(b"Bearer \xc3\xa9".to_vec()));
}

#[test]
fn chat_requests_carry_four_headers_at_most() {
    let incoming = vec![
        h("host", b"x"),
        h("user-agent", b"ua"),
        h("x-codex-turn-metadata", b"meta"),
        h("x-viv-meta", b"forged"),
        h("accept", b"*/*"),
    ];
    let sent = upstream_headers(b"Bearer k", true, &incoming);
    assert_eq!(
        pairs(&sent),
        vec![
            ("authorization", b"Bearer k".as_slice()),
            ("accept", b"text/event-stream".as_slice()),
            ("user-agent", b"ua".as_slice()),
            ("x-viv-meta", b"meta".as_slice()),
        ]
    );
    let sent = upstream_headers(b"k", false, &[]);
    assert_eq!(
        pairs(&sent),
        vec![("authorization", b"k".as_slice()), ("accept", b"application/json".as_slice())]
    );
}

#[test]
fn model_requests_carry_two_headers_at_most() {
    let incoming = vec![h("user-agent", b"ua"), h("x-codex-turn-metadata", b"meta")];
    let sent = models_headers(Some(b"k"), &incoming);
    assert_eq!(
        pairs(&sent),
        vec![("authorization", b"k".as_slice()), ("user-agent", b"ua".as_slice())]
    );
    assert!(models_headers(None, &[]).is_empty());
}

#[test]
fn tokens_are_masked() {
    assert_eq!(mask_auth("Bearer sk-abcdefghijkl"), "Bearer sk-abc…ijkl (15 chars)");
    assert_eq!(mask_auth("Bearer 123456789012"), "Bearer ************");
    assert_eq!(mask_auth("Bearer 1234567890123"), "Bearer 123456…0123 (13 chars)");
    assert_eq!(mask_auth("short"), "*****");
    assert_eq!(mask_auth(""), "");
    assert_eq!(mask_auth(" abc"), "***");
    assert_eq!(mask_auth("Basic a b"), "Basic ***");
    assert_eq!(mask_auth("ééééééééééééé"), "éééééé…éééé (13 chars)");
}

#[test]
fn tokens_that_agree_at_the_ends_are_masked_alike() {
    assert_eq!(mask_auth("Bearer 123456aaaaaa7890"), mask_auth("Bearer 123456bbbbbb7890"));
    assert_eq!(mask_auth("Bearer abc"), mask_auth("Bearer xyz"));
}

#[test]
fn headers_are_shown_in_order() {
    let list = vec![
        h("user-agent", b"ua"),
        h("authorization", b"Bearer 1234567890123"),
        h("accept", b"a\xffb"),
        h("accept", "é".as_bytes()),
    ];
    assert_eq!(
        format_headers(&list),
        "    accept: a\u{fffd}b\n    accept: é\n    authorization: Bearer 123456…0123 (13 chars)\n    user-agent: ua"
    );
    assert_eq!(format_headers(&[]), "");
}
