use chat_relay::grammar::Field;
use chat_relay::quote::push_quoted;
use chat_relay::scan::{
    read_field, read_object, read_string, read_texts, skip_spaces_from, skip_value,
};
use chat_relay::text::chars_of;

fn field_name(field: &Field) -> String {
    format!("{:?}", field)
}

#[test]
fn spaces_are_the_four_of_json() {
    let text = chars_of(" \t\n\r x \u{a0}\u{b}");
    assert_eq!(skip_spaces_from(&text, 0), 5);
    assert_eq!(skip_spaces_from(&text, 3), 5);
    assert_eq!(skip_spaces_from(&text, 5), 5);
    assert_eq!(skip_spaces_from(&text, 6), 7);
    assert_eq!(skip_spaces_from(&text, 7), 7);
    assert_eq!(skip_spaces_from(&text, 8), 8);
    assert_eq!(skip_spaces_from(&text, 9), 9);
    assert_eq!(skip_spaces_from(&chars_of(""), 0), 0);
    assert_eq!(skip_spaces_from(&chars_of("   "), 1), 3);
}

#[test]
fn string_is_read_up_to_its_closing_quote() {
    let text = chars_of("x\"a\\\"b\\u00e9\" rest");
    assert_eq!(read_string(&text, 1), Some(("a\"b\u{e9}".to_string(), 13)));
    assert_eq!(read_string(&text, 0), None);
    assert_eq!(read_string(&text, 2), None);
    assert_eq!(read_string(&text, 12), None);
    assert_eq!(read_string(&text, text.len()), None);
    assert_eq!(read_string(&chars_of("\"\""), 0), Some((String::new(), 2)));
    assert_eq!(read_string(&chars_of("\"\\ud83d\\ude00\""), 0), Some(("\u{1f600}".to_string(), 14)));
    assert_eq!(read_string(&chars_of("\"\\"), 0), None);
    assert_eq!(read_string(&chars_of("\"\\u"), 0), None);
    assert_eq!(read_string(&chars_of("\"\\ud83d\\ude0\""), 0), None);
}

#[test]
fn any_value_is_skipped_to_its_end() {
    let cases: [(&str, Option<usize>); 24] = [
        ("null", Some(4)),
        ("true,", Some(4)),
        ("false]", Some(5)),
        ("nul", None),
        ("\"s\" ", Some(3)),
        ("0", Some(1)),
        ("-0", Some(2)),
        ("01", Some(1)),
        ("12.50e-3}", Some(8)),
        ("1.e", None),
        ("1e+", None),
        ("-", None),
        ("[]", Some(2)),
        ("[ ]x", Some(3)),
        ("[1, [2, {\"a\": [3]}], \"]\"]!", Some(25)),
        ("[1,]", None),
        ("[1 2]", None),
        ("[", None),
        ("{}", Some(2)),
        ("{ \"a\" : { \"b\" : null } , \"c\" : [ ] } ", Some(36)),
        ("{\"a\"}", None),
        ("{\"a\":1,}", None),
        ("{a:1}", None),
        ("", None),
    ];
    for (text, end) in cases {
        assert_eq!(skip_value(&chars_of(text), 0, 16), end, "for {:?}", text);
    }
}

#[test]
fn nesting_beyond_the_given_depth_is_refused() {
    let text = chars_of("[[[]]]");
    assert_eq!(skip_value(&text, 0, 3), Some(6));
    assert_eq!(skip_value(&text, 0, 2), None);
    assert_eq!(skip_value(&text, 1, 2), Some(5));
    assert_eq!(skip_value(&text, 2, 1), Some(4));
    assert_eq!(skip_value(&text, 2, 0), None);
    assert_eq!(skip_value(&chars_of("7"), 0, 0), Some(1));
    assert_eq!(skip_value(&chars_of("{\"a\":{}}"), 0, 1), None);
    assert_eq!(skip_value(&chars_of("{\"a\":{}}"), 0, 2), Some(8));
}

#[test]
fn array_of_strings_is_read_with_its_elements() {
    assert_eq!(read_texts(&chars_of("[]"), 0), Some((vec![], 2)));
    assert_eq!(read_texts(&chars_of("[ \"a\" , \"b\\n\" ]x"), 0), Some((vec!["a".to_string(), "b\n".to_string()], 15)));
    assert_eq!(read_texts(&chars_of("x[\"a\"]"), 1), Some((vec!["a".to_string()], 6)));
    assert_eq!(read_texts(&chars_of("[\"a\",1]"), 0), None);
    assert_eq!(read_texts(&chars_of("[\"a\",]"), 0), None);
    assert_eq!(read_texts(&chars_of("[\"a\""), 0), None);
    assert_eq!(read_texts(&chars_of("\"a\""), 0), None);
    assert_eq!(read_texts(&chars_of("[[\"a\"]]"), 0), None);
}

#[test]
fn field_is_told_by_what_it_holds() {
    let cases = [
        ("null", "Null", 4),
        ("\"a\"", "Text(\"a\")", 3),
        ("[\"a\",\"b\"] ", "Texts([\"a\", \"b\"])", 9),
        ("[]", "Texts([])", 2),
        ("[1]", "Other", 3),
        ("[\"a\",null]", "Other", 10),
        ("{\"a\":\"b\"}", "Other", 9),
        ("true", "Other", 4),
        ("-1.5", "Other", 4),
    ];
    for (text, name, end) in cases {
        let (field, at) = read_field(&chars_of(text), 0).unwrap();
        assert_eq!(field_name(&field), name, "for {:?}", text);
        assert_eq!(at, end, "for {:?}", text);
    }
    assert!(read_field(&chars_of("nope"), 0).is_none());
    assert!(read_field(&chars_of(""), 0).is_none());
    assert!(read_field(&chars_of(" null"), 0).is_none());
}

#[test]
fn object_is_read_member_by_member_in_the_order_of_the_text() {
    let members = read_object(&chars_of(" { \"b\" : null , \"a\" : \"x\" , \"b\" : [ \"y\" ] , \"c\" : 1 } ")).unwrap();
    let shown: Vec<String> =
        members.iter().map(|(name, field)| format!("{}={}", name, field_name(field))).collect();
    assert_eq!(shown, vec!["b=Null", "a=Text(\"x\")", "b=Texts([\"y\"])", "c=Other"]);
    assert_eq!(read_object(&chars_of("{}")).map(|m| m.len()), Some(0));
    assert!(read_object(&chars_of("{} {}")).is_none());
    assert!(read_object(&chars_of("[]")).is_none());
    assert!(read_object(&chars_of("{\"a\":1")).is_none());
}

#[test]
fn quoted_text_is_appended_to_what_is_there() {
    let mut out = String::from("key:");
    push_quoted(&mut out, "a\"b");
    assert_eq!(out, "key:\"a\\\"b\"");
    push_quoted(&mut out, "");
    assert_eq!(out, "key:\"a\\\"b\"\"\"");
}
