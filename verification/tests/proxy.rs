use std::time::Duration;

use codex_proxy::headers::Header;
use codex_proxy::json::{parse_text, to_text, Json};
use codex_proxy::proxy::{
    after_upstream, authorize, error_json, fallback_key, log_completion, log_relay, models_url,
    read_request, take_request, Action, Exchange, Next, Refusal, Reply, DEFAULT_LISTEN, DEFAULT_UPSTREAM,
};
use codex_proxy::report::Level;

fn j(s: &str) -> Json {
    parse_text(s).unwrap()
}

#[test]
fn defaults() {
    assert_eq!(DEFAULT_UPSTREAM, "https://api.vivgrid.com/v1/chat/completions");
    assert_eq!(DEFAULT_LISTEN, "127.0.0.1:33333");
    assert_eq!(models_url(DEFAULT_UPSTREAM), "https://api.vivgrid.com/v1/models");
}

#[test]
fn models_are_listed_beside_the_completions() {
    assert_eq!(models_url("http://h/chat/completions"), "http://h/models");
    assert_eq!(models_url("/chat/completions"), "/models");
    assert_eq!(models_url("http://h/chat/completions/"), "http://h/chat/completions/");
    assert_eq!(models_url("completions"), "completions");
    assert_eq!(
        models_url("http://h/chat/completions/chat/completions"),
        "http://h/chat/completions/models"
    );
}

#[test]
fn an_empty_key_is_none() {
    assert_eq!(fallback_key(Some("k".to_string())), Some("k".to_string()));
    assert_eq!(fallback_key(Some(String::new())), None);
    assert_eq!(fallback_key(None), None);
}

#[test]
fn errors_are_told_as_json() {
    let r = error_json(404, "no \"x\"");
    assert_eq!(r.status, 404);
    assert_eq!(r.body, r#"{"error":{"message":"no \"x\"","type":"proxy_error"}}"#);
}

#[test]
fn refusals_have_their_status_and_words() {
    let all = [
        (
            Refusal::Body("bad".to_string()),
            400,
            "invalid JSON body: bad",
            "invalid JSON body: bad req=3",
            Level::Error,
        ),
        (
            Refusal::Authorization,
            401,
            "missing Authorization: Bearer <token>",
            "#3 no Authorization header (and UPSTREAM_API_KEY unset)",
            Level::Warn,
        ),
        (
            Refusal::Upstream("gone".to_string()),
            502,
            "upstream request failed: gone",
            "#3 ✖ upstream request failed: gone",
            Level::Error,
        ),
        (
            Refusal::Answer("odd".to_string()),
            502,
            "invalid upstream JSON: odd",
            "#3 ✖ failed to read upstream JSON: odd",
            Level::Error,
        ),
        (
            Refusal::Route("GET".to_string(), "/x".to_string()),
            404,
            "no route for GET /x",
            "unhandled route: GET /x",
            Level::Warn,
        ),
    ];
    for (refusal, status, message, line, level) in all {
        assert_eq!(refusal.status(), status);
        assert_eq!(refusal.message(), message);
        assert_eq!(refusal.reply().status, status);
        assert_eq!(refusal.reply().body, error_json(status, message).body);
        assert_eq!(refusal.log(3).text, line);
        assert_eq!(refusal.log(3).level, level);
    }
}

#[test]
fn bodies_that_are_no_json_are_refused() {
    match read_request(1, b"{") {
        Err(Refusal::Body(e)) => assert_eq!(e, "EOF while parsing an object at line 1 column 1"),
        _ => panic!("a refusal of the body"),
    }
}

#[test]
fn requests_are_taken_in() {
    let body = br#"{"stream":true,"model":"m","input":[{"role":"user","content":"q"},{"type":"reasoning"}],"instructions":"i","tools":[{"type":"function","name":"f"},{"type":"web_search"}],"reasoning":{"effort":"low"}}"#;
    let r = match read_request(12, body) {
        Ok(r) => r,
        Err(_) => panic!("a request"),
    };
    assert!(r.stream);
    assert_eq!(r.model, "m");
    assert_eq!(r.entries.len(), 2);
    assert_eq!(
        r.entries[0].text,
        "#12 ▶ request  [stream, model=m, input_items=2 → messages=2, tools=1, reasoning_effort=low]\n    tools  ▸ declared (1): f() [function]\n             dropped (1): web_search\n             parallel_tool_calls=-\n             in input: 0 calls, 0 outputs"
    );
    assert_eq!(r.entries[0].level, Level::Info);
    assert_eq!(
        r.entries[1].text,
        format!("#12 upstream request body: {}", to_text(&r.chat.body))
    );
    assert_eq!(r.entries[1].level, Level::Debug);
    assert_eq!(r.chat.dropped_tools, vec!["web_search"]);
    assert_eq!(r.chat.body.get("stream").map(to_text), Some("true".to_string()));
}

#[test]
fn bare_requests_are_taken_in() {
    let r = take_request(1, &j(r#"{"stream":"yes","input":"q"}"#));
    assert!(!r.stream);
    assert_eq!(r.model, "");
    assert!(r.entries[0].text.starts_with(
        "#1 ▶ request  [non-stream, model=, input_items=1 → messages=1, tools=0, reasoning_effort=-]\n"
    ));
}

#[test]
fn orphans_make_the_request_a_warning() {
    let r = take_request(1, &j(r#"{"input":[{"type":"function_call","call_id":"a","name":"f"}]}"#));
    assert_eq!(r.entries[0].level, Level::Warn);
    let r = take_request(
        1,
        &j(r#"{"input":[{"type":"function_call","call_id":"a","name":"f"},{"type":"function_call_output","call_id":"a"}]}"#),
    );
    assert_eq!(r.entries[0].level, Level::Info);
}

#[test]
fn requests_need_an_authorization() {
    assert!(matches!(authorize(false, &[], None), Err(Refusal::Authorization)));
    assert!(matches!(authorize(false, &[], Some("\n")), Err(Refusal::Authorization)));
    let sent = match authorize(true, &[], Some("k")) {
        Ok(list) => list,
        Err(_) => panic!("headers"),
    };
    assert_eq!(sent.len(), 2);
    assert_eq!(sent[0].value, b"Bearer k".to_vec());
    let incoming =
        vec![Header { name: "authorization".to_string(), value: b"Bearer own".to_vec() }];
    let sent = match authorize(false, &incoming, Some("k")) {
        Ok(list) => list,
        Err(_) => panic!("headers"),
    };
    assert_eq!(sent[0].value, b"Bearer own".to_vec());
}

#[test]
fn answers_are_handed_on_or_converted() {
    let json = Some(b"application/json; charset=utf-8".as_slice());
    let events = Some(b"text/event-stream".as_slice());
    assert_eq!(after_upstream(false, 200, json), Next::Convert);
    assert_eq!(after_upstream(false, 299, None), Next::Convert);
    assert_eq!(after_upstream(true, 200, events), Next::Stream);
    assert_eq!(after_upstream(true, 200, None), Next::Stream);
    assert_eq!(after_upstream(true, 200, json), Next::Relay(502));
    assert_eq!(after_upstream(true, 429, json), Next::Relay(429));
    assert_eq!(after_upstream(false, 500, events), Next::Relay(500));
    assert_eq!(after_upstream(false, 199, None), Next::Relay(199));
    assert_eq!(after_upstream(false, 300, None), Next::Relay(300));
    assert_eq!(after_upstream(true, 200, Some(b"application/jso")), Next::Stream);
    assert_eq!(after_upstream(true, 200, Some(b"Application/json")), Next::Stream);
    assert_eq!(after_upstream(true, 200, Some(b"application/json;\xff")), Next::Stream);
    assert_eq!(after_upstream(true, 200, Some(b"application/json;\t")), Next::Relay(502));
}

#[test]
fn answers_that_are_handed_on_are_logged() {
    let entry = log_relay(4, 429, Duration::from_millis(50), "slow down");
    assert_eq!(
        entry.text,
        "#4 ✖ upstream HTTP 429 Too Many Requests (0.05s)\n    stop   ▸ n/a (no completion)\n    body   ▸ slow down"
    );
    assert_eq!(entry.level, Level::Error);
    assert!(log_relay(4, 799, Duration::ZERO, "").text.contains("HTTP 799 <unknown status code> ("));
}

#[test]
fn completions_are_logged() {
    let chat = j(
        r#"{"choices":[{"finish_reason":"stop","stop_reason":"eos"}],"usage":{"prompt_tokens":4,"prompt_tokens_details":{"cached_tokens":1}}}"#,
    );
    let resp = j(r#"{"model":"up","status":"completed"}"#);
    let entry = log_completion(2, Duration::from_secs(1), "m", &chat, &resp, "25.0");
    assert_eq!(
        entry.text,
        "#2 ◀ response  [non-stream, 1.00s, model=up]\n    stop   ▸ finish_reason = \"stop\"  →  status = completed  | stop_reason = \"eos\"\n    usage  ▸ inp: 4, cd-inp: 1 (25.0%), opt: 0 (reasoning: n/a)"
    );
    assert_eq!(entry.level, Level::Info);
}

#[test]
fn other_choices_are_noted() {
    let chat = j(r#"{"choices":[{"finish_reason":"stop"},{}]}"#);
    let entry = log_completion(2, Duration::ZERO, "m", &chat, &Json::Null, "");
    assert_eq!(
        entry.text,
        "#2 ◀ response  [non-stream, 0.00s, model=m]\n    stop   ▸ finish_reason = \"stop\"  →  status = ?\n    usage  ▸ <none> (upstream returned no usage)\n    note   ▸ upstream returned 2 choices (only choice 0 used)"
    );
    assert_eq!(entry.level, Level::Warn);
    let none = log_completion(2, Duration::ZERO, "m", &j(r#"{"choices":[]}"#), &Json::Null, "");
    assert!(none.text.ends_with("\n    note   ▸ upstream returned 0 choices (only choice 0 used)"));
    let absent = log_completion(2, Duration::ZERO, "m", &j("{}"), &Json::Null, "");
    assert!(!absent.text.contains("note"));
}

fn exchange(stream: bool) -> Exchange {
    let body: &[u8] = if stream {
        br#"{"model":"m","stream":true}"#
    } else {
        br#"{"model":"m","tools":[{"type":"custom","name":"p"}]}"#
    };
    match Exchange::begin(3, body, &[], Some("k")) {
        (_, Some(exchange)) => exchange,
        _ => panic!("an exchange"),
    }
}

fn replied(action: Action) -> Reply {
    match action {
        Action::Answer(reply) => reply,
        _ => panic!("an answer"),
    }
}

#[test]
fn exchanges_begin_by_sending_the_request_on() {
    let (step, begun) = Exchange::begin(
        3,
        br#"{"model":"m","input":"q","stream":true,"tools":[{"type":"custom","name":"p"}]}"#,
        &[],
        Some("k"),
    );
    assert_eq!(step.entries.len(), 2);
    assert!(step.entries[0].text.starts_with("#3 ▶ request  [stream, model=m, input_items=1"));
    match step.action {
        Action::Send(headers, body) => {
            assert_eq!(headers[0].value, b"Bearer k".to_vec());
            assert_eq!(headers[1].value, b"text/event-stream".to_vec());
            assert_eq!(body.get_text("model"), Some("m"));
        }
        _ => panic!("a request for the upstream"),
    }
    let begun = begun.unwrap();
    assert_eq!((begun.req_id, begun.stream, begun.model.as_str()), (3, true, "m"));
    assert!(begun.custom_tools.contains("p"));
}

#[test]
fn exchanges_refuse_bad_bodies_and_missing_authorizations() {
    let (step, begun) = Exchange::begin(3, b"no", &[], Some("k"));
    assert!(begun.is_none());
    assert_eq!(step.entries.len(), 1);
    assert_eq!(step.entries[0].text, "invalid JSON body: expected ident at line 1 column 2 req=3");
    assert_eq!(replied(step.action).status, 400);

    let (step, begun) = Exchange::begin(3, b"{}", &[], None);
    assert!(begun.is_none());
    assert_eq!(step.entries.len(), 3);
    assert_eq!(
        step.entries[2].text,
        "#3 no Authorization header (and UPSTREAM_API_KEY unset)"
    );
    assert_eq!(step.entries[2].level, Level::Warn);
    let reply = replied(step.action);
    assert_eq!(reply.status, 401);
    assert_eq!(
        reply.body,
        r#"{"error":{"message":"missing Authorization: Bearer <token>","type":"proxy_error"}}"#
    );
}

#[test]
fn exchanges_go_on_as_the_upstream_answers() {
    let failed = exchange(false).on_upstream(Err("gone".to_string()));
    assert_eq!(failed.entries[0].text, "#3 ✖ upstream request failed: gone");
    assert_eq!(replied(failed.action).status, 502);
    assert!(matches!(exchange(false).on_upstream(Ok((200, None))).action, Action::ReadJson));
    assert!(matches!(exchange(true).on_upstream(Ok((200, None))).action, Action::Translate));
    assert!(matches!(
        exchange(true).on_upstream(Ok((200, Some(b"application/json")))).action,
        Action::ReadText(502)
    ));
    assert!(matches!(exchange(false).on_upstream(Ok((404, None))).action, Action::ReadText(404)));
}

#[test]
fn exchanges_hand_errors_on() {
    let step = exchange(false).on_text(404, 404, Duration::ZERO, "{\"e\":1}".to_string());
    assert_eq!(
        step.entries[0].text,
        "#3 ✖ upstream HTTP 404 Not Found (0.00s)\n    stop   ▸ n/a (no completion)\n    body   ▸ {\"e\":1}"
    );
    let reply = replied(step.action);
    assert_eq!((reply.status, reply.body.as_str()), (404, "{\"e\":1}"));
}

#[test]
fn exchanges_answer_completions() {
    let chat = j(
        r#"{"created":1,"choices":[{"finish_reason":"stop","message":{"content":"hi","tool_calls":[{"id":"c","function":{"name":"p","arguments":"{\"input\":\"x\"}"}}]}}]}"#,
    );
    let told = format!("#3 upstream response body: {}", to_text(&chat));
    let step = exchange(false).on_json(Ok(chat), Duration::ZERO, "");
    assert_eq!(step.entries.len(), 2);
    assert_eq!(step.entries[0].text, told);
    assert_eq!(step.entries[0].level, Level::Debug);
    assert!(step.entries[1].text.starts_with("#3 ◀ response  [non-stream, 0.00s, model=m]\n"));
    assert_eq!(step.entries[1].level, Level::Info);
    let reply = replied(step.action);
    assert_eq!(reply.status, 200);
    let resp = j(&reply.body);
    assert!(resp.text_or_empty("id").starts_with("resp_"));
    assert_eq!(resp.get_text("status"), Some("completed"));
    assert!(reply.body.contains(r#""input":"x","name":"p""#));

    let odd = exchange(false).on_json(Err("odd".to_string()), Duration::ZERO, "");
    assert_eq!(odd.entries[0].text, "#3 ✖ failed to read upstream JSON: odd");
    assert_eq!(replied(odd.action).status, 502);
}

#[test]
fn what_has_no_form_in_the_chat_api_is_logged() {
    let r = take_request(
        5,
        &j(
            r#"{"input":[{"type":"web_search_call"},{"role":"user","content":[{"type":"input_image","file_id":"f"},{"type":"input_text","text":"t"},{"type":"au\"dio"},{"type":"input_image","image_url":"u"}]},{"type":"reasoning"},{},{"type":"function_call"}]}"#,
        ),
    );
    let lines: Vec<(&str, Level)> =
        r.entries.iter().take(4).map(|e| (e.text.as_str(), e.level)).collect();
    assert_eq!(
        lines,
        vec![
            (
                "skipping unsupported input item item_type=\"web_search_call\"",
                Level::Debug
            ),
            (
                "input_image without image_url (file_id is not supported), dropped",
                Level::Warn
            ),
            (
                "skipping unsupported content part part_type=\"au\\\"dio\"",
                Level::Debug
            ),
            ("skipping unsupported input item item_type=\"\"", Level::Debug),
        ]
    );
    assert_eq!(r.entries.len(), 6);
}

#[test]
fn forwarded_metadata_is_logged() {
    let incoming =
        vec![Header { name: "x-codex-turn-metadata".to_string(), value: b"m".to_vec() }];
    let (step, _) = Exchange::begin(3, b"{}", &incoming, Some("k"));
    assert_eq!(step.entries.len(), 3);
    assert_eq!(
        step.entries[2].text,
        "#3 forwarding header x-codex-turn-metadata → x-viv-meta"
    );
    assert_eq!(step.entries[2].level, Level::Debug);
}
