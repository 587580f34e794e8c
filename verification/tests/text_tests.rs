use process_supervisor::string_map::StringMap;
use process_supervisor::text::{
    char_is_whitespace, chars_of, clone_optional, clone_strings, split_whitespace, string_of,
    trim_range, trimmed,
};

#[test]
fn whitespace_is_what_std_calls_whitespace() {
    let mut n: u32 = 0;
    while n <= 0x10FFFF {
        if let Some(c) = char::from_u32(n) {
            assert_eq!(char_is_whitespace(c), c.is_whitespace(), "U+{:04X}", n);
        }
        n += 1;
    }
}

#[test]
fn split_whitespace_gives_the_words() {
    let words = split_whitespace("  cargo   run\t--release \n");
    assert_eq!(words, vec!["cargo".to_string(), "run".to_string(), "--release".to_string()]);
}

#[test]
fn split_whitespace_of_blank_text_is_empty() {
    assert!(split_whitespace("").is_empty());
    assert!(split_whitespace(" \t\r\n\u{3000}").is_empty());
}

#[test]
fn split_whitespace_agrees_with_std() {
    let samples = [
        "a",
        " a",
        "a ",
        "a b",
        "a\u{a0}b\u{2003}c",
        "echo \"hello world\"",
        "\tnode\tserver.js  --port\n8080",
        "é ü\u{1680}ß",
    ];
    for s in samples {
        let expected: Vec<String> = s.split_whitespace().map(|w| w.to_string()).collect();
        assert_eq!(split_whitespace(s), expected, "{:?}", s);
    }
}

#[test]
fn trimmed_strips_both_ends_only() {
    assert_eq!(trimmed(" \u{3000}a b\u{a0}\r\n"), "a b");
    assert_eq!(trimmed("   "), "");
    assert_eq!(trimmed(""), "");
    assert_eq!(trimmed("x"), "x");
    assert_eq!(trimmed("\u{feff}x "), "\u{feff}x");
}

#[test]
fn trimmed_agrees_with_std() {
    let samples = ["", " ", "a", "  a  b  ", "\n\ta\u{2028}", "\u{85}é\u{205f}", "] [ "];
    for s in samples {
        assert_eq!(trimmed(s), s.trim(), "{:?}", s);
    }
}

#[test]
fn chars_and_back() {
    let v = chars_of("héllo");
    assert_eq!(v, vec!['h', 'é', 'l', 'l', 'o']);
    assert_eq!(string_of(&v, 1, 4), "éll");
    assert_eq!(string_of(&v, 2, 2), "");
    assert_eq!(trim_range(&chars_of("  ab "), 0, 5), (2, 4));
    assert_eq!(trim_range(&chars_of("  ab "), 1, 3), (2, 3));
    assert_eq!(trim_range(&chars_of("    "), 1, 3), (3, 3));
}

#[test]
fn clones_are_equal() {
    let v = vec!["a".to_string(), "".to_string(), "c d".to_string()];
    assert_eq!(clone_strings(&v), v);
    assert_eq!(clone_optional(&Some("x".to_string())), Some("x".to_string()));
    assert_eq!(clone_optional(&None), None);
}

#[test]
fn string_map_inserts_finds_and_removes() {
    let mut m: StringMap<u32> = StringMap::new();
    assert_eq!(m.len(), 0);
    assert_eq!(m.insert("a".to_string(), 1), None);
    assert_eq!(m.insert("b".to_string(), 2), None);
    assert_eq!(m.insert("a".to_string(), 3), Some(1));
    assert_eq!(m.len(), 2);
    assert_eq!(m.get("a"), Some(&3));
    assert_eq!(m.get("b"), Some(&2));
    assert_eq!(m.get("c"), None);
    assert!(m.contains_key("b"));
    assert!(!m.contains_key("B"));
    assert_eq!(m.find("b"), Some(1));
    assert_eq!(m.entry_at(0), (&"a".to_string(), &3));
    if let Some(v) = m.get_mut("b") {
        *v = 20;
    }
    assert_eq!(m.get("b"), Some(&20));
    assert!(m.get_mut("zz").is_none());
    assert_eq!(m.remove("a"), Some(3));
    assert_eq!(m.remove("a"), None);
    assert_eq!(m.len(), 1);
    assert_eq!(m.entry_at(0), (&"b".to_string(), &20));
}
