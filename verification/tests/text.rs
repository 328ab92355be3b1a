use icedb::text::{
    chars_of, copy_texts, lines, same_text, space, split, string_from, trim, without_cr,
};

fn owned(parts: &[&str]) -> Vec<String> {
    parts.iter().map(|p| p.to_string()).collect()
}

#[test]
fn split_keeps_empty_pieces() {
    assert_eq!(split("a b  c", ' '), owned(&["a", "b", "", "c"]));
    assert_eq!(split("", ' '), owned(&[""]));
    assert_eq!(split(" ", ' '), owned(&["", ""]));
    assert_eq!(split("abc", ' '), owned(&["abc"]));
    assert_eq!(split("a b ", ' '), owned(&["a", "b", ""]));
}

#[test]
fn split_agrees_with_std() {
    for text in ["", "x", "-C opt-level=3 -C debuginfo=2", "  lead", "trail  ", "é ü"] {
        let want: Vec<String> = text.split(' ').map(|s| s.to_string()).collect();
        assert_eq!(split(text, ' '), want);
    }
}

#[test]
fn split_then_join_gives_the_text_back() {
    let text = "one\ntwo\n\nthree\n";
    assert_eq!(split(text, '\n').join("\n"), text);
}

#[test]
fn trim_removes_surrounding_white_space_only() {
    assert_eq!(trim("  a b \t\r\n"), "a b");
    assert_eq!(trim(""), "");
    assert_eq!(trim(" \t "), "");
    assert_eq!(trim("x"), "x");
    assert_eq!(trim("\u{2003}wide\u{3000}"), "wide");
    assert_eq!(trim("\u{200B}zero width stays\u{200B}"), "\u{200B}zero width stays\u{200B}");
}

#[test]
fn trim_agrees_with_std() {
    for text in ["", " ", "a", " a", "a ", "\u{85}a\u{A0}", "\u{1680}\u{2028}\u{2029}b\u{202F}\u{205F}", "\u{B}\u{C}c"] {
        assert_eq!(trim(text), text.trim());
    }
}

#[test]
fn space_is_unicode_white_space() {
    for code in 0u32..0x3100 {
        if let Some(c) = char::from_u32(code) {
            assert_eq!(space(c), c.is_whitespace(), "U+{:04X}", code);
        }
    }
}

#[test]
fn lines_drop_their_endings() {
    assert_eq!(lines("a\nb\n"), owned(&["a", "b"]));
    assert_eq!(lines("a\r\nb"), owned(&["a", "b"]));
    assert_eq!(lines(""), Vec::<String>::new());
    assert_eq!(lines("\n"), owned(&[""]));
    assert_eq!(lines("a\n\nb"), owned(&["a", "", "b"]));
    assert_eq!(lines("a\r"), owned(&["a\r"]));
    assert_eq!(lines("a\rb\n"), owned(&["a\rb"]));
    assert_eq!(lines("  kept  \n"), owned(&["  kept  "]));
}

#[test]
fn lines_agree_with_std() {
    for text in ["", "\n", "\r\n", "a", "a\n", "a\r\n\r\nb\r", "#0 [x]\n#0 [x]\n", "\r", "x\r\r\n"] {
        let want: Vec<String> = text.lines().map(|s| s.to_string()).collect();
        assert_eq!(lines(text), want, "{:?}", text);
    }
}

#[test]
fn without_cr_takes_one_carriage_return() {
    assert_eq!(without_cr("a\r"), "a");
    assert_eq!(without_cr("a\r\r"), "a\r");
    assert_eq!(without_cr("a"), "a");
    assert_eq!(without_cr(""), "");
}

#[test]
fn chars_and_back() {
    let chars = chars_of("héllo");
    assert_eq!(chars, vec!['h', 'é', 'l', 'l', 'o']);
    assert_eq!(string_from(&chars, 1, 4), "éll");
    assert_eq!(string_from(&chars, 2, 2), "");
    assert_eq!(string_from(&chars, 0, 5), "héllo");
}

#[test]
fn copy_texts_copies() {
    let v = owned(&["a", "", "bc"]);
    assert_eq!(copy_texts(&v), v);
    assert_eq!(copy_texts(&Vec::new()), Vec::<String>::new());
}

#[test]
fn same_text_compares_whole_texts() {
    assert!(same_text("", ""));
    assert!(same_text("I-ICE", "I-ICE"));
    assert!(!same_text("I-ICE", "I-ICE "));
    assert!(!same_text("I-ICE", "i-ice"));
    assert!(!same_text("a", ""));
}
