use codex_proxy::text::{
    append_chars, characters, comes_before, contains_char, decimal_text, holds, is_blank, join,
    same_text, sort,
};

fn list(items: &[&str]) -> Vec<String> {
    items.iter().map(|s| s.to_string()).collect()
}

#[test]
fn texts_are_compared_by_their_characters() {
    assert!(same_text("", ""));
    assert!(same_text("añb", "añb"));
    assert!(!same_text("a", "ab"));
    assert!(!same_text("ab", "a"));
    assert!(!same_text("a", "b"));
}

#[test]
fn texts_are_ordered() {
    assert!(comes_before("", "a"));
    assert!(comes_before("a", "aa"));
    assert!(comes_before("Z", "a"));
    assert!(comes_before("z", "é"));
    assert!(!comes_before("a", "a"));
    assert!(!comes_before("b", "a"));
    assert!(!comes_before("a", ""));
}

#[test]
fn lists_are_sorted() {
    assert_eq!(sort(list(&["b", "", "a", "b", "ab"])), list(&["", "a", "ab", "b", "b"]));
    assert_eq!(sort(list(&[])), list(&[]));
}

#[test]
fn lists_are_joined() {
    assert_eq!(join(&list(&[]), ", "), "");
    assert_eq!(join(&list(&["a"]), ", "), "a");
    assert_eq!(join(&list(&["a", "", "b"]), ", "), "a, , b");
}

#[test]
fn numbers_are_written_in_decimal() {
    assert_eq!(decimal_text(0), "0");
    assert_eq!(decimal_text(10), "10");
    assert_eq!(decimal_text(u64::MAX), "18446744073709551615");
}

#[test]
fn blank_is_whitespace_only() {
    assert!(is_blank(""));
    assert!(is_blank(" \t\n\u{a0}\u{2003}"));
    assert!(!is_blank(" x "));
    assert!(!is_blank("\u{200b}"));
}

#[test]
fn whitespace_is_that_of_unicode() {
    for c in '\0'..=char::MAX {
        let n = c as u32;
        let listed = matches!(
            n,
            0x9..=0xd
                | 0x20
                | 0x85
                | 0xa0
                | 0x1680
                | 0x2000..=0x200a
                | 0x2028
                | 0x2029
                | 0x202f
                | 0x205f
                | 0x3000
        );
        assert_eq!(is_blank(c.encode_utf8(&mut [0; 4])), listed);
    }
}

#[test]
fn lists_hold_texts() {
    assert!(holds(&list(&["x", "y"]), "y"));
    assert!(!holds(&list(&["x", "y"]), "z"));
}

#[test]
fn characters_are_listed() {
    let chars = characters("a⚠b");
    assert_eq!(chars, vec!['a', '⚠', 'b']);
    let mut s = "x".to_string();
    append_chars(&mut s, &chars, 1, 3);
    assert_eq!(s, "x⚠b");
    assert!(contains_char("a⚠b", '⚠'));
    assert!(!contains_char("ab", '⚠'));
}
