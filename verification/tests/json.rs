use codex_proxy::json::{array, from_serde, object, parse_bytes, parse_text, string, to_text, Json, Object};

#[test]
fn text_round_trip() {
    let text = r#"{"a":[1,-2,2.5,"x\n",true,null],"b":{}}"#;
    let j = parse_text(text).unwrap();
    assert_eq!(to_text(&j), text);
}

#[test]
fn members_come_in_order_of_their_names() {
    let j = parse_text(r#"{ "b": 1, "a": 2, "c": 3, "a": 4 }"#).unwrap();
    assert_eq!(to_text(&j), r#"{"a":4,"b":1,"c":3}"#);
    match j {
        Json::Obj(o) => assert_eq!(o.names(), vec!["a", "b", "c"]),
        _ => panic!("an object was read"),
    }
}

#[test]
fn text_that_is_no_json_is_refused() {
    assert!(parse_text("").is_none());
    assert!(parse_text("{").is_none());
    assert!(parse_text("[1,]").is_none());
    assert!(parse_text("1 2").is_none());
}

#[test]
fn bytes_that_are_no_json_are_refused_with_a_message() {
    assert_eq!(
        parse_bytes(b"").err(),
        Some("EOF while parsing a value at line 1 column 0".to_string())
    );
    assert_eq!(
        parse_bytes(b"{x").err(),
        Some("key must be a string at line 1 column 2".to_string())
    );
    assert_eq!(parse_bytes(b"[1]").map(|j| to_text(&j)), Ok("[1]".to_string()));
}

#[test]
fn numbers_are_read_by_what_they_hold() {
    assert_eq!(parse_text("18446744073709551615").unwrap().as_u64(), Some(u64::MAX));
    assert_eq!(parse_text("18446744073709551615").unwrap().as_i64(), None);
    assert_eq!(parse_text("-1").unwrap().as_u64(), None);
    assert_eq!(parse_text("-1").unwrap().as_i64(), Some(-1));
    assert_eq!(parse_text("7").unwrap().as_i64(), Some(7));
    assert_eq!(parse_text("1.0").unwrap().as_u64(), None);
    assert_eq!(parse_text("1.0").unwrap().as_i64(), None);
    assert_eq!(Json::Signed(7).as_u64(), Some(7));
    assert_eq!(to_text(&Json::Signed(-7)), "-7");
    assert_eq!(to_text(&parse_text("1.50").unwrap()), "1.5");
}

#[test]
fn names_that_the_reader_keeps_for_itself_do_not_come_back() {
    let name = "$serde_json::private::RawValue";
    let j = object(Object::new().insert(name, string("5")));
    let text = to_text(&j);
    assert_eq!(text, r#"{"$serde_json::private::RawValue":"5"}"#);
    assert_eq!(parse_text(&text).map(|v| to_text(&v)), Some("5".to_string()));
}

#[test]
fn an_input_comes_back() {
    let j = object(Object::new().insert("input", string("$serde_json::private::RawValue \"")));
    assert_eq!(parse_text(&to_text(&j)).map(|v| to_text(&v)), Some(to_text(&j)));
}

#[test]
fn members_are_found_by_name() {
    let j = parse_text(r#"{"a":{"b":"x"},"n":null,"s":"t"}"#).unwrap();
    assert_eq!(j.get2("a", "b").map(to_text), Some("\"x\"".to_string()));
    assert!(j.get("n").is_some());
    assert!(j.get_present("n").is_none());
    assert!(j.get_present("missing").is_none());
    assert_eq!(j.get_text("s"), Some("t"));
    assert_eq!(j.get_text("a"), None);
    assert_eq!(j.text_or_empty("s"), "t");
    assert_eq!(j.text_or_empty("n"), "");
    assert!(string("text").get("a").is_none());
}

#[test]
fn objects_take_members() {
    let o = Object::new().insert("b", Json::Bool(true)).insert("a", string("1")).insert(
        "b",
        Json::Null,
    );
    assert!(o.get("c").is_none());
    let o = o.put("c", None).put("d", Some(&array(vec![Json::Unsigned(1)])));
    assert_eq!(to_text(&object(o)), r#"{"a":"1","b":null,"d":[1]}"#);
}

#[test]
fn names_are_ordered_by_code_points() {
    let o = Object::new().insert("é", Json::Null).insert("z", Json::Null).insert(
        "",
        Json::Null,
    ).insert("zz", Json::Null).insert("Z", Json::Null);
    assert_eq!(o.names(), vec!["", "Z", "z", "zz", "é"]);
}

#[test]
fn values_that_were_read_elsewhere_are_taken_over() {
    let v: serde_json::Value = serde_json::from_str(r#"{"x":[0.5,-3,4]}"#).unwrap();
    assert_eq!(to_text(&from_serde(v)), r#"{"x":[0.5,-3,4]}"#);
}

#[test]
fn clones_hold_the_same() {
    let j = parse_text(r#"{"a":[1,{"b":2.5}],"c":"x"}"#).unwrap();
    assert_eq!(to_text(&j.clone()), to_text(&j));
}
