use std::time::{Duration, UNIX_EPOCH};

use codex_proxy::convert::fresh::timestamp;
use codex_proxy::convert::response::{
    assemble_response, chosen, custom_input, draw_ids, is_countable, CallIds, Ids,
};
use codex_proxy::convert::{
    chat_to_response, convert_usage, map_finish_reason, message_item, new_id, now_secs,
    reasoning_item, reasoning_text, response_object, to_chat_request, tool_call_item, StringHashSet,
};
use codex_proxy::json::{array, object, parse_text, to_text, Json, Object};

fn j(s: &str) -> Json {
    parse_text(s).unwrap()
}

fn names(list: &[&str]) -> StringHashSet {
    let mut set = StringHashSet::new();
    for name in list {
        set.insert(name.to_string());
    }
    set
}

fn is_identifier(id: &str, prefix: &str) -> bool {
    match id.strip_prefix(prefix) {
        Some(rest) => {
            rest.len() == 33
                && rest.starts_with('_')
                && rest[1..].chars().all(|c| c.is_ascii_digit() || ('a'..='f').contains(&c))
                && rest.as_bytes()[13] == b'4'
        }
        None => false,
    }
}

#[test]
fn identifiers_have_their_prefix() {
    let id = new_id("resp");
    assert!(is_identifier(&id, "resp"));
    assert!(is_identifier(&new_id(""), ""));
    assert_ne!(new_id("resp"), id);
}

#[test]
fn time_is_counted_from_1970() {
    assert_eq!(timestamp(UNIX_EPOCH), 0);
    assert_eq!(timestamp(UNIX_EPOCH + Duration::from_millis(1_700_000_000_999)), 1_700_000_000);
    assert_eq!(timestamp(UNIX_EPOCH - Duration::from_secs(5)), 0);
}

#[test]
fn responses_without_a_time_get_the_present() {
    let before = now_secs();
    let resp = chat_to_response(&j("{}"), "r", "m", &names(&[]));
    let created = resp.get("created_at").and_then(Json::as_i64).unwrap();
    assert!(before <= created && created <= now_secs());
}

#[test]
fn the_clock_stands_after_2020() {
    assert!(now_secs() > 1_577_836_800);
}

#[test]
fn finish_reasons() {
    assert_eq!(map_finish_reason(Some("length")), ("incomplete", Some("max_output_tokens")));
    assert_eq!(
        map_finish_reason(Some("content_filter")),
        ("incomplete", Some("content_filter"))
    );
    assert_eq!(map_finish_reason(Some("stop")), ("completed", None));
    assert_eq!(map_finish_reason(Some("tool_calls")), ("completed", None));
    assert_eq!(map_finish_reason(None), ("completed", None));
}

#[test]
fn usage_is_converted() {
    assert_eq!(
        to_text(&convert_usage(Some(&j(
            r#"{"prompt_tokens":10,"completion_tokens":5,"prompt_tokens_details":{"cached_tokens":4},"completion_tokens_details":{"reasoning_tokens":2}}"#
        )))),
        r#"{"input_tokens":10,"input_tokens_details":{"cached_tokens":4},"output_tokens":5,"output_tokens_details":{"reasoning_tokens":2},"total_tokens":15}"#
    );
    assert_eq!(
        to_text(&convert_usage(Some(&j(r#"{"prompt_tokens":10,"total_tokens":99}"#)))),
        r#"{"input_tokens":10,"input_tokens_details":{"cached_tokens":0},"output_tokens":0,"output_tokens_details":{"reasoning_tokens":0},"total_tokens":99}"#
    );
    assert_eq!(
        to_text(&convert_usage(Some(&j(r#"{"prompt_tokens":-1,"completion_tokens":1.5}"#)))),
        r#"{"input_tokens":0,"input_tokens_details":{"cached_tokens":0},"output_tokens":0,"output_tokens_details":{"reasoning_tokens":0},"total_tokens":0}"#
    );
    assert_eq!(to_text(&convert_usage(Some(&j("[]")))), "null");
    assert_eq!(to_text(&convert_usage(None)), "null");
}

#[test]
fn counts_that_do_not_add_up_in_range() {
    assert!(!is_countable(Some(&j(
        r#"{"prompt_tokens":18446744073709551615,"completion_tokens":1}"#
    ))));
    assert!(is_countable(Some(&j(
        r#"{"prompt_tokens":18446744073709551614,"completion_tokens":1}"#
    ))));
    assert!(is_countable(Some(&Json::Null)));
    assert!(is_countable(None));
}

#[test]
fn response_objects() {
    assert_eq!(
        to_text(&response_object(
            "resp_1",
            17,
            "m",
            "incomplete",
            Some("max_output_tokens"),
            vec![j("1")],
            Json::Null
        )),
        r#"{"created_at":17,"error":null,"id":"resp_1","incomplete_details":{"reason":"max_output_tokens"},"model":"m","object":"response","output":[1],"status":"incomplete","usage":null}"#
    );
    assert_eq!(
        to_text(&response_object("r", -1, "m", "completed", None, vec![], j("{}"))),
        r#"{"created_at":-1,"error":null,"id":"r","incomplete_details":null,"model":"m","object":"response","output":[],"status":"completed","usage":{}}"#
    );
}

#[test]
fn output_items_are_built() {
    assert_eq!(
        to_text(&message_item("msg_1", "hi")),
        r#"{"content":[{"annotations":[],"text":"hi","type":"output_text"}],"id":"msg_1","role":"assistant","status":"completed","type":"message"}"#
    );
    assert_eq!(
        to_text(&reasoning_item("rs_1", "hm")),
        r#"{"id":"rs_1","summary":[{"text":"hm","type":"summary_text"}],"type":"reasoning"}"#
    );
    assert_eq!(
        to_text(&tool_call_item("fc_1", "c", "f", "{\"a\":1}", false)),
        r#"{"arguments":"{\"a\":1}","call_id":"c","id":"fc_1","name":"f","status":"completed","type":"function_call"}"#
    );
    assert_eq!(
        to_text(&tool_call_item("fc_1", "c", "p", "{\"input\":\"raw\"}", true)),
        r#"{"call_id":"c","id":"fc_1","input":"raw","name":"p","status":"completed","type":"custom_tool_call"}"#
    );
}

#[test]
fn arguments_that_do_not_comply_are_the_input() {
    for args in ["raw", "{\"input\":1}", "{\"other\":\"x\"}", "[\"input\"]", ""] {
        assert_eq!(tool_call_item("i", "c", "p", args, true).get_text("input"), Some(args));
    }
    assert_eq!(custom_input(Some(&j(r#"{"input":"x"}"#)), "args"), "x");
    assert_eq!(custom_input(Some(&j(r#"{"input":null}"#)), "args"), "args");
    assert_eq!(custom_input(None, "args"), "args");
}

#[test]
fn thoughts_are_found() {
    assert_eq!(reasoning_text(&j(r#"{"reasoning_content":"a","reasoning":"b"}"#)), Some("a"));
    assert_eq!(reasoning_text(&j(r#"{"reasoning":"b"}"#)), Some("b"));
    assert_eq!(reasoning_text(&j(r#"{"reasoning_content":"","reasoning":"b"}"#)), None);
    assert_eq!(reasoning_text(&j(r#"{"reasoning_content":null,"reasoning":"b"}"#)), None);
    assert_eq!(reasoning_text(&j(r#"{"reasoning":""}"#)), None);
    assert_eq!(reasoning_text(&Json::Null), None);
}

#[test]
fn the_first_choice_counts() {
    assert_eq!(chosen(&j(r#"{"choices":[1,2]}"#)).map(to_text), Some("1".to_string()));
    assert_eq!(chosen(&j(r#"{"choices":{"0":3}}"#)).map(to_text), Some("3".to_string()));
    assert!(chosen(&j(r#"{"choices":[]}"#)).is_none());
    assert!(chosen(&j("{}")).is_none());
}

const CHAT: &str = r#"{"model":"up","created":5,"choices":[{"finish_reason":"tool_calls","message":{"reasoning":"think","content":"hello","tool_calls":[{"id":"c1","type":"function","function":{"name":"f","arguments":"{\"a\":1}"}},{"function":{"name":"p","arguments":"{\"input\":\"raw\"}"}}]}}],"usage":{"prompt_tokens":1,"completion_tokens":2}}"#;

#[test]
fn completions_become_responses() {
    let ids = Ids {
        reasoning: "rs_x".to_string(),
        message: "msg_x".to_string(),
        calls: vec![
            CallIds { item: "fc_a".to_string(), call: "call_a".to_string() },
            CallIds { item: "fc_b".to_string(), call: "call_b".to_string() },
        ],
    };
    let custom = names(&["p"]);
    let resp = assemble_response(&j(CHAT), "resp_x", "fallback", &custom, &ids, 99);
    assert_eq!(
        to_text(&resp),
        r#"{"created_at":5,"error":null,"id":"resp_x","incomplete_details":null,"model":"up","object":"response","output":[{"id":"rs_x","summary":[{"text":"think","type":"summary_text"}],"type":"reasoning"},{"content":[{"annotations":[],"text":"hello","type":"output_text"}],"id":"msg_x","role":"assistant","status":"completed","type":"message"},{"arguments":"{\"a\":1}","call_id":"c1","id":"fc_a","name":"f","status":"completed","type":"function_call"},{"call_id":"call_b","id":"fc_b","input":"raw","name":"p","status":"completed","type":"custom_tool_call"}],"status":"completed","usage":{"input_tokens":1,"input_tokens_details":{"cached_tokens":0},"output_tokens":2,"output_tokens_details":{"reasoning_tokens":0},"total_tokens":3}}"#
    );
}

#[test]
fn empty_completions_become_empty_responses() {
    let ids = Ids { reasoning: String::new(), message: String::new(), calls: vec![] };
    let resp = assemble_response(&j("{}"), "r", "fallback", &names(&[]), &ids, 99);
    assert_eq!(
        to_text(&resp),
        r#"{"created_at":99,"error":null,"id":"r","incomplete_details":null,"model":"fallback","object":"response","output":[],"status":"completed","usage":null}"#
    );
    let cut = j(r#"{"choices":[{"finish_reason":"length","message":{"content":""}}]}"#);
    let resp = assemble_response(&cut, "r", "m", &names(&[]), &ids, 99);
    assert_eq!(resp.get_text("status"), Some("incomplete"));
    assert_eq!(
        resp.get("incomplete_details").map(to_text),
        Some(r#"{"reason":"max_output_tokens"}"#.to_string())
    );
    assert_eq!(resp.get("output").map(to_text), Some("[]".to_string()));
}

#[test]
fn identifiers_are_drawn_for_each_call() {
    let ids = draw_ids(&j(CHAT));
    assert!(is_identifier(&ids.reasoning, "rs"));
    assert!(is_identifier(&ids.message, "msg"));
    assert_eq!(ids.calls.len(), 2);
    assert!(is_identifier(&ids.calls[0].item, "fc"));
    assert!(is_identifier(&ids.calls[1].call, "call"));
}

#[test]
fn responses_get_fresh_identifiers() {
    let custom = names(&["p"]);
    let resp = chat_to_response(&j(CHAT), "resp_x", "fallback", &custom);
    let output = match resp.get("output") {
        Some(Json::Arr(items)) => items,
        _ => panic!("a list of items"),
    };
    assert_eq!(output.len(), 4);
    assert!(is_identifier(output[0].text_or_empty("id"), "rs"));
    assert!(is_identifier(output[1].text_or_empty("id"), "msg"));
    assert!(is_identifier(output[2].text_or_empty("id"), "fc"));
    assert_eq!(output[2].get_text("call_id"), Some("c1"));
    assert!(is_identifier(output[3].text_or_empty("call_id"), "call"));
}

#[test]
fn replayed_responses_give_the_turn_back() {
    let chat = j(
        r#"{"choices":[{"message":{"reasoning":"think","content":"hello","tool_calls":[{"id":"c1","type":"function","function":{"name":"f","arguments":"{\"a\":1}"}},{"id":"c2","type":"function","function":{"name":"p","arguments":"{\"input\":\"raw\"}"}}]}}]}"#,
    );
    let custom = names(&["p"]);
    let resp = chat_to_response(&chat, "resp_x", "m", &custom);
    let output = match resp.get("output") {
        Some(Json::Arr(items)) => items.clone(),
        _ => panic!("a list of items"),
    };
    let req = object(Object::new().insert("input", array(output)));
    let again = to_chat_request(&req, false);
    assert_eq!(
        again.body.get("messages").map(to_text),
        Some(
            r#"[{"content":"hello","role":"assistant","tool_calls":[{"function":{"arguments":"{\"a\":1}","name":"f"},"id":"c1","type":"function"},{"function":{"arguments":"{\"input\":\"raw\"}","name":"p"},"id":"c2","type":"function"}]}]"#
                .to_string()
        )
    );
}

#[test]
fn nothing_but_the_first_choice_the_model_the_usage_and_the_time_tells() {
    let ids = Ids {
        reasoning: "rs_x".to_string(),
        message: "msg_x".to_string(),
        calls: vec![CallIds { item: "fc_a".to_string(), call: "call_a".to_string() }],
    };
    let choice = r#"{"finish_reason":"length","message":{"content":"hi","tool_calls":[{"function":{"name":"f","arguments":"{}"}}]}}"#;
    let a = j(&format!(
        r#"{{"model":"up","created":5,"usage":{{"prompt_tokens":1}},"choices":[{choice}]}}"#
    ));
    let b = j(&format!(
        r#"{{"id":"x","object":"o","model":"up","created":5,"usage":{{"prompt_tokens":1}},"choices":[{choice},{{"message":{{"content":"other"}}}}]}}"#
    ));
    let none = names(&[]);
    let first = assemble_response(&a, "r", "m", &none, &ids, 1);
    let second = assemble_response(&b, "r", "m", &none, &ids, 2);
    assert_eq!(to_text(&first), to_text(&second));
}
