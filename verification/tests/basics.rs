use shadox::json::{array, object, text_json, Json};
use shadox::number::{decimal_int_text, decimal_text, hex_text, parse_number};
use shadox::string_map::StringMap;
use shadox::text::{
    ascii_lowered, chars_of, comes_before, contains_text, lines_of, same_text, string_of, trimmed,
    words_of,
};

fn strings(list: Vec<Vec<char>>) -> Vec<String> {
    list.iter().map(|piece| piece.iter().collect()).collect()
}

#[test]
fn numbers_are_written_and_read() {
    assert_eq!(decimal_text(0), "0");
    assert_eq!(decimal_text(u128::MAX), "340282366920938463463374607431768211455");
    assert_eq!(decimal_int_text(i64::MIN), "-9223372036854775808");
    assert_eq!(hex_text(&[0, 0x0f, 0xa5]), "000fa5");
    assert_eq!(parse_number(&chars_of("18446744073709551615"), u64::MAX), Some(u64::MAX));
    assert_eq!(parse_number(&chars_of("18446744073709551616"), u64::MAX), None);
    assert_eq!(parse_number(&chars_of("+7"), u64::MAX), Some(7));
    assert_eq!(parse_number(&chars_of("-7"), u64::MAX), None);
    assert_eq!(parse_number(&chars_of(""), u64::MAX), None);
    assert_eq!(parse_number(&chars_of("300"), 255), None);
}

#[test]
fn texts_are_taken_apart() {
    assert_eq!(strings(words_of(&chars_of("  a\tbc \n"))), vec!["a", "bc"]);
    assert_eq!(strings(lines_of(&chars_of("a\r\n\nb"))), vec!["a", "", "b"]);
    assert_eq!(string_of(&trimmed(&chars_of("\u{a0} x \u{3000}"))), "x");
    assert!(contains_text(&chars_of("hello"), &chars_of("ell")));
    assert!(contains_text(&chars_of("hello"), &chars_of("")));
    assert!(!contains_text(&chars_of("hello"), &chars_of("elo")));
    assert_eq!(string_of(&ascii_lowered(&chars_of("A\u{c4}z"))), "a\u{c4}z");
    assert!(comes_before("a", "ab"));
    assert!(comes_before("B", "a"));
    assert!(!comes_before("a", "a"));
    assert!(same_text("x", "x"));
}

#[test]
fn maps_are_kept_in_order() {
    let mut map: StringMap<u32> = StringMap::new();
    map.insert("b".to_string(), 1);
    map.insert("a".to_string(), 2);
    map.insert("b".to_string(), 3);
    assert_eq!(map.len(), 2);
    assert_eq!(map.items, vec![("a".to_string(), 2), ("b".to_string(), 3)]);
    assert_eq!(map.get("b"), Some(&3));
    assert_eq!(map.get("c"), None);
    map.remove("a");
    assert!(!map.contains_key("a"));
}

#[test]
fn json_is_written() {
    let value = object(vec![
        ("a".to_string(), array(vec![Json::Null, Json::Bool(true), Json::Int(-1), Json::UInt(7)])),
        ("b\"".to_string(), text_json("x\ny")),
    ]);
    assert_eq!(value.text(), "{\"a\":[null,true,-1,7],\"b\\\"\":\"x\\ny\"}");
    assert_eq!(value.get("missing"), None);
    assert_eq!(object(Vec::new()).text(), "{}");
}

#[test]
fn json_strings_are_escaped() {
    let text = "\u{8}\t\n\u{c}\r\u{1}\u{1f}\u{7f}\"\\/\u{e9}";
    assert_eq!(
        text_json(text).text(),
        "\"\\b\\t\\n\\f\\r\\u0001\\u001f\u{7f}\\\"\\\\/\u{e9}\""
    );
}
