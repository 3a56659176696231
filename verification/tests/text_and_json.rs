use filedrop::json::{read_object, write_quoted};
use filedrop::text::{chars_of, extend_chars, has_suffix, same_chars, string_of};

fn chars(s: &str) -> Vec<char> {
    s.chars().collect()
}

#[test]
fn characters_of_a_string() {
    assert_eq!(chars_of(""), Vec::<char>::new());
    assert_eq!(chars_of("abc"), vec!['a', 'b', 'c']);
    assert_eq!(chars_of("é名😀"), vec!['é', '名', '😀']);
}

#[test]
fn string_of_characters() {
    assert_eq!(string_of(&Vec::new()), "");
    assert_eq!(string_of(&vec!['a', 'b', 'c']), "abc");
    assert_eq!(string_of(&vec!['é', '名', '😀', '\u{0}']), "é名😀\u{0}");
}

#[test]
fn string_and_characters_are_inverse() {
    for s in ["", "plain", "with \"quotes\" and \\", "日本語 😀", "\n\t\r"] {
        assert_eq!(string_of(&chars_of(s)), s);
    }
}

#[test]
fn extending_appends_in_order() {
    let mut out = chars("ab");
    extend_chars(&mut out, &chars("cd"));
    assert_eq!(out, chars("abcd"));
    extend_chars(&mut out, &Vec::new());
    assert_eq!(out, chars("abcd"));
    let mut empty = Vec::new();
    extend_chars(&mut empty, &chars("x"));
    assert_eq!(empty, chars("x"));
}

#[test]
fn same_characters() {
    assert!(same_chars(&chars(""), &chars("")));
    assert!(same_chars(&chars("abc"), &chars("abc")));
    assert!(!same_chars(&chars("abc"), &chars("abd")));
    assert!(!same_chars(&chars("abc"), &chars("ab")));
    assert!(!same_chars(&chars("ab"), &chars("abc")));
    assert!(!same_chars(&chars("Abc"), &chars("abc")));
}

#[test]
fn suffixes() {
    assert!(has_suffix(&chars("report.pdf.meta"), &chars(".meta")));
    assert!(has_suffix(&chars(".meta"), &chars(".meta")));
    assert!(has_suffix(&chars("abc"), &chars("")));
    assert!(has_suffix(&chars(""), &chars("")));
    assert!(!has_suffix(&chars("meta"), &chars(".meta")));
    assert!(!has_suffix(&chars("a.meta "), &chars(".meta")));
    assert!(!has_suffix(&chars("a.mata"), &chars(".meta")));
    assert!(!has_suffix(&chars(""), &chars("a")));
}

#[test]
fn quoted_strings_are_appended() {
    let mut out = chars("x=");
    write_quoted(&mut out, &chars("a\"b\\c\n"));
    assert_eq!(string_of(&out), "x=\"a\\\"b\\\\c\\n\"");
    let mut out = Vec::new();
    write_quoted(&mut out, &Vec::new());
    assert_eq!(string_of(&out), "\"\"");
    let mut out = Vec::new();
    write_quoted(&mut out, &chars("\u{1}\u{1f}\u{10}/é"));
    assert_eq!(string_of(&out), "\"\\u0001\\u001f\\u0010/é\"");
}

#[test]
fn objects_are_read_member_by_member() {
    assert_eq!(read_object(&chars("{}")), Some(Vec::new()));
    assert_eq!(read_object(&chars(" { } ")), Some(Vec::new()));
    assert_eq!(
        read_object(&chars("{\"a\":\"1\",\"b\":\"\",\"a\":\"2\"}")),
        Some(vec![
            (chars("a"), chars("1")),
            (chars("b"), chars("")),
            (chars("a"), chars("2")),
        ])
    );
    assert_eq!(
        read_object(&chars("\t{\n\"k\\u0065y\" :\r\"v\\\\\"\n}\n")),
        Some(vec![(chars("key"), chars("v\\"))])
    );
    assert_eq!(read_object(&chars("{\"\":\"\"}")), Some(vec![(Vec::new(), Vec::new())]));
}

#[test]
fn what_is_no_flat_object_of_strings_is_not_read() {
    for text in [
        "",
        "{",
        "{}x",
        "x{}",
        "{\"a\"}",
        "{\"a\":}",
        "{\"a\":\"1\",}",
        "{\"a\":\"1\" \"b\":\"2\"}",
        "{\"a\":1}",
        "{\"a\":true}",
        "{\"a\":{}}",
        "{\"a\":[]}",
        "{a:\"1\"}",
        "[\"a\",\"b\"]",
        "{\"a\":\"1\"}{}",
        "{\"a\":\"\u{b}\"}",
    ] {
        assert_eq!(read_object(&chars(text)), None, "{text}");
    }
}
