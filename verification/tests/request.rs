use codex_proxy::convert::messages::{convert_input_item, custom_arguments, tool_output_to_string};
use codex_proxy::convert::tools::convert_tool_choice;
use codex_proxy::convert::{to_chat_request, tool_call_item};
use codex_proxy::json::{parse_text, to_text, Json};

fn j(s: &str) -> Json {
    parse_text(s).unwrap()
}

fn body(req: &str, stream: bool) -> String {
    to_text(&to_chat_request(&j(req), stream).body)
}

/// The messages for a list of input items.
fn messages(items: &str) -> String {
    let req = format!(r#"{{"input":{items}}}"#);
    to_text(to_chat_request(&j(&req), false).body.get("messages").unwrap())
}

#[test]
fn empty_request() {
    assert_eq!(body("{}", false), r#"{"messages":[],"stream":false}"#);
    assert_eq!(body("null", false), r#"{"messages":[],"stream":false}"#);
    assert_eq!(
        body("{}", true),
        r#"{"messages":[],"stream":true,"stream_options":{"include_usage":true}}"#
    );
}

#[test]
fn text_input_is_a_message_of_the_user() {
    assert_eq!(
        body(r#"{"model":"m","instructions":"be brief","input":"hi"}"#, false),
        r#"{"messages":[{"content":"be brief","role":"system"},{"content":"hi","role":"user"}],"model":"m","stream":false}"#
    );
    assert_eq!(
        body(r#"{"instructions":"","input":""}"#, false),
        r#"{"messages":[{"content":"","role":"user"}],"stream":false}"#
    );
}

#[test]
fn settings_are_passed_on() {
    assert_eq!(
        body(
            r#"{"model":null,"temperature":0.5,"top_p":null,"user":"u","max_output_tokens":100,"reasoning":{"effort":"high"},"text":{"format":{"type":"json_schema","schema":{"type":"object"}}}}"#,
            false
        ),
        r#"{"max_tokens":100,"messages":[],"model":null,"reasoning_effort":"high","response_format":{"json_schema":{"name":"output","schema":{"type":"object"},"strict":false},"type":"json_schema"},"stream":false,"temperature":0.5,"user":"u"}"#
    );
    assert_eq!(
        body(
            r#"{"reasoning":{"effort":null},"text":{"format":{"type":"text"}},"max_output_tokens":null}"#,
            false
        ),
        r#"{"messages":[],"stream":false}"#
    );
    assert_eq!(
        body(r#"{"text":{"format":{"type":"json_schema","name":"n","strict":true}}}"#, false),
        r#"{"messages":[],"response_format":{"json_schema":{"name":"n","schema":{},"strict":true},"type":"json_schema"},"stream":false}"#
    );
}

#[test]
fn roles_of_messages() {
    assert_eq!(
        messages(
            r#"[{"role":"developer","content":"a"},{"type":"message","role":"system","content":"b"},{"role":"assistant","content":"c"},{"role":"other","content":"d"},{"type":"message","content":"e"}]"#
        ),
        r#"[{"content":"a","role":"system"},{"content":"b","role":"system"},{"content":"c","role":"assistant"},{"content":"d","role":"user"},{"content":"e","role":"user"}]"#
    );
}

#[test]
fn items_of_other_types_are_skipped() {
    assert_eq!(
        messages(
            r#"[{"type":"reasoning","summary":[]},{"type":"web_search_call"},{"content":"no role"},{"type":"","role":"user"},7]"#
        ),
        "[]"
    );
}

#[test]
fn parts_are_joined_line_by_line() {
    assert_eq!(
        messages(
            r#"[{"role":"user","content":[{"type":"input_text","text":"a"},{"type":"text"},{"type":"refusal","refusal":"no"},{"type":"audio","text":"x"},{"type":"output_text","text":"b"}]}]"#
        ),
        r#"[{"content":"a\n\nno\nb","role":"user"}]"#
    );
    assert_eq!(
        messages(r#"[{"role":"user","content":[]},{"role":"user"},{"role":"user","content":7}]"#),
        r#"[{"content":"","role":"user"},{"content":"","role":"user"},{"content":"","role":"user"}]"#
    );
}

#[test]
fn images_make_a_list_of_parts() {
    let content = r#"[{"type":"input_text","text":"see"},{"type":"input_image","image_url":"u1"},{"type":"input_image","image_url":{"url":"u2"},"detail":"low"},{"type":"input_image","image_url":"u3","detail":null},{"type":"input_image","file_id":"f"},{"type":"input_image","image_url":""}]"#;
    assert_eq!(
        messages(&format!(r#"[{{"role":"user","content":{content}}}]"#)),
        r#"[{"content":[{"text":"see","type":"text"},{"image_url":{"url":"u1"},"type":"image_url"},{"image_url":{"detail":"low","url":"u2"},"type":"image_url"},{"image_url":{"url":"u3"},"type":"image_url"}],"role":"user"}]"#
    );
    assert_eq!(
        messages(&format!(r#"[{{"role":"assistant","content":{content}}}]"#)),
        r#"[{"content":"see","role":"assistant"}]"#
    );
    assert_eq!(
        messages(
            r#"[{"role":"user","content":[{"type":"input_text","text":"a"},{"type":"input_image"}]}]"#
        ),
        r#"[{"content":"a","role":"user"}]"#
    );
}

#[test]
fn consecutive_calls_and_a_text_before_them_share_a_message() {
    assert_eq!(
        messages(
            r#"[{"role":"assistant","content":"let me see"},{"type":"function_call","call_id":"1","name":"f","arguments":"{\"a\":1}"},{"type":"reasoning"},{"type":"custom_tool_call","call_id":"2","name":"p","input":"x\"y"},{"type":"function_call_output","call_id":"1","output":"one"},{"type":"custom_tool_call_output","call_id":"2","output":"two"},{"type":"function_call","call_id":"3","name":"g","arguments":" \n"}]"#
        ),
        r#"[{"content":"let me see","role":"assistant","tool_calls":[{"function":{"arguments":"{\"a\":1}","name":"f"},"id":"1","type":"function"},{"function":{"arguments":"{\"input\":\"x\\\"y\"}","name":"p"},"id":"2","type":"function"}]},{"content":"one","role":"tool","tool_call_id":"1"},{"content":"two","role":"tool","tool_call_id":"2"},{"content":null,"role":"assistant","tool_calls":[{"function":{"arguments":"{}","name":"g"},"id":"3","type":"function"}]}]"#
    );
}

#[test]
fn calls_without_members_have_empty_texts() {
    assert_eq!(
        messages(r#"[{"type":"custom_tool_call"},{"type":"function_call_output"}]"#),
        r#"[{"content":null,"role":"assistant","tool_calls":[{"function":{"arguments":"{\"input\":\"\"}","name":""},"id":"","type":"function"}]},{"content":"","role":"tool","tool_call_id":""}]"#
    );
}

#[test]
fn items_in_two_portions_give_the_same_messages() {
    let items = [
        r#"{"role":"user","content":"q"}"#,
        r#"{"type":"function_call","call_id":"1","name":"f","arguments":"{}"}"#,
        r#"{"type":"function_call","call_id":"2","name":"f","arguments":"{}"}"#,
        r#"{"type":"function_call_output","call_id":"1","output":"o"}"#,
    ];
    let mut portions: Vec<Json> = Vec::new();
    for item in items {
        convert_input_item(&j(item), &mut portions);
    }
    let texts: Vec<String> = portions.iter().map(to_text).collect();
    assert_eq!(format!("[{}]", texts.join(",")), messages(&format!("[{}]", items.join(","))));
    assert_eq!(portions.len(), 3);
}

#[test]
fn outputs_become_text() {
    assert_eq!(tool_output_to_string(None), "");
    assert_eq!(tool_output_to_string(Some(&Json::Null)), "");
    assert_eq!(tool_output_to_string(Some(&j("\"x\""))), "x");
    assert_eq!(
        tool_output_to_string(Some(&j(
            r#"[{"type":"input_text","text":"a"},{"type":"image"},{"text":"b"},"c"]"#
        ))),
        "a\nb"
    );
    assert_eq!(tool_output_to_string(Some(&j(r#"{"b":1,"a":true}"#))), r#"{"a":true,"b":1}"#);
    assert_eq!(tool_output_to_string(Some(&j("1.5"))), "1.5");
}

#[test]
fn tools_are_passed_on_or_dropped() {
    let chat = to_chat_request(
        &j(
            r#"{"tools":[{"type":"function","name":"f","description":"d","parameters":{"type":"object"},"strict":true},{"type":"function","name":"g","description":null,"strict":null},{"type":"custom","name":"p","description":"patch","format":{"syntax":"lark","definition":"start: x"}},{"type":"custom","name":"q"},{"type":"web_search"},{"type":"mcp","name":"s"},{}],"tool_choice":"required","parallel_tool_calls":true}"#,
        ),
        false,
    );
    assert_eq!(
        to_text(&chat.body),
        r#"{"messages":[],"parallel_tool_calls":true,"stream":false,"tool_choice":"required","tools":[{"function":{"description":"d","name":"f","parameters":{"type":"object"},"strict":true},"type":"function"},{"function":{"description":null,"name":"g","parameters":{"properties":{},"type":"object"}},"type":"function"},{"function":{"description":"patch\n\nThe `input` argument must be raw text following this lark grammar:\nstart: x","name":"p","parameters":{"properties":{"input":{"description":"Raw tool input","type":"string"}},"required":["input"],"type":"object"}},"type":"function"},{"function":{"description":"","name":"q","parameters":{"properties":{"input":{"description":"Raw tool input","type":"string"}},"required":["input"],"type":"object"}},"type":"function"}]}"#
    );
    assert_eq!(chat.dropped_tools, vec!["web_search", "mcp:s", ""]);
    assert!(chat.custom_tools.contains("p"));
    assert!(chat.custom_tools.contains("q"));
    assert!(!chat.custom_tools.contains("f"));
}

#[test]
fn grammar_without_a_syntax() {
    let chat = to_chat_request(
        &j(r#"{"tools":[{"type":"custom","name":"p","format":{"definition":"d"}}]}"#),
        false,
    );
    let text = to_text(&chat.body);
    assert!(text.contains(
        r#""description":"\n\nThe `input` argument must be raw text following this grammar grammar:\nd""#
    ));
}

#[test]
fn without_tools_there_is_no_choice() {
    assert_eq!(
        body(
            r#"{"tools":[{"type":"web_search"}],"tool_choice":"auto","parallel_tool_calls":true}"#,
            false
        ),
        r#"{"messages":[],"stream":false}"#
    );
    assert_eq!(
        body(
            r#"{"tools":[{"type":"function","name":"f"}],"tool_choice":null,"parallel_tool_calls":null}"#,
            false
        ),
        r#"{"messages":[],"stream":false,"tools":[{"function":{"name":"f","parameters":{"properties":{},"type":"object"}},"type":"function"}]}"#
    );
}

#[test]
fn tool_choices() {
    assert_eq!(
        to_text(&convert_tool_choice(&j(r#"{"type":"function","name":"f"}"#))),
        r#"{"function":{"name":"f"},"type":"function"}"#
    );
    assert_eq!(
        to_text(&convert_tool_choice(&j(r#"{"type":"function"}"#))),
        r#"{"function":{"name":null},"type":"function"}"#
    );
    assert_eq!(
        to_text(&convert_tool_choice(&j(r#"{"type":"allowed_tools"}"#))),
        "\"auto\""
    );
    assert_eq!(to_text(&convert_tool_choice(&j("\"none\""))), "\"none\"");
}

#[test]
fn raw_input_comes_back_out_of_its_arguments() {
    for input in ["", "plain", "*** Begin\n\"quoted\" \\ \u{1F600}\u{7}"] {
        let args = custom_arguments(input);
        let item = tool_call_item("fc_1", "c", "p", &args, true);
        assert_eq!(item.get_text("input"), Some(input));
    }
}
