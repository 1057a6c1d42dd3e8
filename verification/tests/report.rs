use std::time::Duration;

use codex_proxy::json::{parse_text, to_text, Json};
use codex_proxy::report::{
    cached_share, extra_stop_fields, fmt_num, log, tools_summary, Level, Report,
};

fn j(s: &str) -> Json {
    parse_text(s).unwrap()
}

#[test]
fn numbers_are_grouped() {
    assert_eq!(fmt_num(0), "0");
    assert_eq!(fmt_num(999), "999");
    assert_eq!(fmt_num(1000), "1,000");
    assert_eq!(fmt_num(12345), "12,345");
    assert_eq!(fmt_num(100200), "100,200");
    assert_eq!(fmt_num(1234567), "1,234,567");
    assert_eq!(fmt_num(u64::MAX), "18,446,744,073,709,551,615");
}

#[test]
fn grouped_numbers_are_read_back() {
    for n in [0u64, 7, 1000, 1001, 999999, 1000000, u64::MAX] {
        let digits: String = fmt_num(n).chars().filter(|c| *c != ',').collect();
        assert_eq!(digits.parse::<u64>(), Ok(n));
    }
}

#[test]
fn summary_of_an_empty_request() {
    assert_eq!(
        tools_summary(&j("{}"), &[]),
        "    tools  ▸ declared (0): -\n             parallel_tool_calls=-\n             in input: 0 calls, 0 outputs"
    );
}

#[test]
fn summary_of_tools_and_calls() {
    let req = j(
        r#"{
            "tools": [
                {"type":"function","name":"shell","parameters":{"type":"object","properties":{"timeout":{},"cmd":{}}}},
                {"type":"function"},
                {"type":"custom","name":"apply_patch"},
                {"type":"web_search"},
                {"name":"untyped"}
            ],
            "parallel_tool_calls": false,
            "input": [
                {"type":"function_call","call_id":"c1","name":"shell"},
                {"type":"function_call_output","call_id":"c1"},
                {"type":"custom_tool_call","call_id":"c2","name":"apply_patch"},
                {"type":"custom_tool_call_output","call_id":"c2"},
                {"type":"function_call","call_id":"c3","name":"shell"},
                {"type":"local_shell_call","call_id":"c4"},
                {"type":"local_shell_call_output","call_id":"c4"},
                {"type":"function_call_output","call_id":"c3"},
                {"type":"message","role":"user","content":"hi"}
            ]
        }"#,
    );
    assert_eq!(
        tools_summary(&req, &["web_search".to_string(), ":untyped".to_string()]),
        "    tools  ▸ declared (3): shell(cmd, timeout) [function], ?() [function], apply_patch(input) [custom→function]\n             dropped (2): web_search, :untyped\n             parallel_tool_calls=false\n             in input: 4 calls (shell ×2, apply_patch ×1, local_shell ×1), 4 outputs"
    );
}

#[test]
fn summary_warns_of_orphans() {
    let req = j(
        r#"{"input":[{"type":"function_call","call_id":"a","name":"f"},{"type":"function_call_output","call_id":"b"}],"parallel_tool_calls":null}"#,
    );
    assert_eq!(
        tools_summary(&req, &[]),
        "    tools  ▸ declared (0): -\n             parallel_tool_calls=-\n             in input: 1 calls (f ×1), 1 outputs\n             ⚠ calls without output: a\n             ⚠ outputs without call: b"
    );
}

#[test]
fn counts_of_tools_add_up_to_the_calls() {
    let req = j(
        r#"{"input":[{"type":"function_call","name":"f"},{"type":"function_call","name":"g"},{"type":"function_call","name":"f"},{"type":"function_call_output"}]}"#,
    );
    let s = tools_summary(&req, &[]);
    assert!(s.contains("in input: 3 calls (f ×2, g ×1), 1 outputs"));
}

#[test]
fn stop_fields_are_picked_in_order() {
    let choice = j(
        r#"{"matched_stop":1,"native_finish_reason":null,"stop_reason":"eos","other":2,"finish_reason":"stop"}"#,
    );
    let fields: Vec<(String, String)> =
        extra_stop_fields(&choice).iter().map(|(k, v)| (k.clone(), to_text(v))).collect();
    assert_eq!(
        fields,
        vec![
            ("stop_reason".to_string(), "\"eos\"".to_string()),
            ("matched_stop".to_string(), "1".to_string()),
        ]
    );
    assert!(extra_stop_fields(&Json::Null).is_empty());
}

#[test]
fn cached_tokens_are_told_with_the_input() {
    let usage = j(r#"{"prompt_tokens":2000,"prompt_tokens_details":{"cached_tokens":500}}"#);
    assert_eq!(cached_share(Some(&usage)), Some((500, 2000)));
    assert_eq!(cached_share(Some(&j(r#"{"prompt_tokens":2000}"#))), None);
    let none = j(r#"{"prompt_tokens":0,"prompt_tokens_details":{"cached_tokens":5}}"#);
    assert_eq!(cached_share(Some(&none)), None);
    assert_eq!(cached_share(Some(&j("[1]"))), None);
    assert_eq!(cached_share(None), None);
}

#[test]
fn ordinary_responses_are_no_warning() {
    let usage = j(
        r#"{"prompt_tokens":2000,"completion_tokens":1234567,"prompt_tokens_details":{"cached_tokens":500},"completion_tokens_details":{"reasoning_tokens":12}}"#,
    );
    let extra = vec![("stop_reason".to_string(), j("\"eos\""))];
    let entry = log(&Report {
        req_id: 7,
        stream: true,
        elapsed: Duration::from_millis(1234),
        model: "m",
        finish_reason: Some("stop"),
        extra_stop: &extra,
        status: "completed",
        usage: Some(&usage),
        cached_percent: "25.0",
        notes: &[],
    });
    assert_eq!(
        entry.text,
        "#7 ◀ response  [stream, 1.23s, model=m]\n    stop   ▸ finish_reason = \"stop\"  →  status = completed  | stop_reason = \"eos\"\n    usage  ▸ inp: 2,000, cd-inp: 500 (25.0%), opt: 1,234,567 (reasoning: 12)"
    );
    assert_eq!(entry.level, Level::Info);
}

#[test]
fn without_input_tokens_none_of_them_is_cached() {
    let usage = j(r#"{"prompt_tokens":0,"prompt_tokens_details":{"cached_tokens":5}}"#);
    let entry = log(&Report {
        req_id: 1,
        stream: true,
        elapsed: Duration::ZERO,
        model: "m",
        finish_reason: Some("stop"),
        extra_stop: &[],
        status: "completed",
        usage: Some(&usage),
        cached_percent: "inf",
        notes: &[],
    });
    assert!(entry
        .text
        .ends_with("\n    usage  ▸ inp: 0, cd-inp: 5 (0.0%), opt: 0 (reasoning: n/a)"));
}

#[test]
fn missing_finish_reason_and_usage_are_told() {
    let notes = vec!["one".to_string(), "two".to_string()];
    let entry = log(&Report {
        req_id: 1,
        stream: false,
        elapsed: Duration::from_secs(61),
        model: "",
        finish_reason: None,
        extra_stop: &[],
        status: "failed",
        usage: Some(&Json::Null),
        cached_percent: "",
        notes: &notes,
    });
    assert_eq!(
        entry.text,
        "#1 ◀ response  [non-stream, 61.00s, model=]\n    stop   ▸ finish_reason = <MISSING> (upstream never sent finish_reason)  →  status = failed\n    usage  ▸ <none> (upstream returned no usage)\n    note   ▸ one\n    note   ▸ two"
    );
    assert_eq!(entry.level, Level::Warn);
}

#[test]
fn unusual_ends_and_notes_are_warnings() {
    for (reason, notes, level) in [
        (Some("tool_calls"), 0, Level::Info),
        (Some("length"), 0, Level::Warn),
        (Some("stop"), 1, Level::Warn),
        (None, 0, Level::Warn),
    ] {
        let notes: Vec<String> = (0..notes).map(|_| "n".to_string()).collect();
        let usage = j("{}");
        let entry = log(&Report {
            req_id: 1,
            stream: false,
            elapsed: Duration::ZERO,
            model: "m",
            finish_reason: reason,
            extra_stop: &[],
            status: "completed",
            usage: Some(&usage),
            cached_percent: "",
            notes: &notes,
        });
        assert_eq!(entry.level, level);
        assert!(entry.text.contains("    usage  ▸ inp: 0, cd-inp: n/a, opt: 0 (reasoning: n/a)"));
    }
}

#[test]
fn finish_reasons_are_quoted_with_escapes() {
    let entry = log(&Report {
        req_id: 1,
        stream: false,
        elapsed: Duration::ZERO,
        model: "m",
        finish_reason: Some("a\"b\n"),
        extra_stop: &[],
        status: "completed",
        usage: None,
        cached_percent: "",
        notes: &[],
    });
    assert!(entry.text.contains("finish_reason = \"a\\\"b\\n\"  →"));
}
