use surrealdb_client::json_text::{
    encode_array, encode_object, encode_optional_string, encode_string, encode_string_list,
};

#[test]
fn plain_string_is_quoted_as_is() {
    assert_eq!(encode_string("myapp"), "\"myapp\"");
    assert_eq!(encode_string(""), "\"\"");
}

#[test]
fn quote_and_backslash_are_escaped() {
    assert_eq!(encode_string("a\"b"), "\"a\\\"b\"");
    assert_eq!(encode_string("a\\b"), "\"a\\\\b\"");
}

#[test]
fn short_control_escapes() {
    assert_eq!(encode_string("\u{8}\t\n\u{c}\r"), "\"\\b\\t\\n\\f\\r\"");
}

#[test]
fn other_control_characters_use_lower_hex() {
    assert_eq!(encode_string("\u{1}"), "\"\\u0001\"");
    assert_eq!(encode_string("\u{1f}"), "\"\\u001f\"");
    assert_eq!(encode_string("\u{b}"), "\"\\u000b\"");
}

#[test]
fn delete_and_non_ascii_stand_as_they_are() {
    assert_eq!(encode_string("\u{7f}"), "\"\u{7f}\"");
    assert_eq!(encode_string("héllo/✓"), "\"héllo/✓\"");
}

#[test]
fn string_literal_matches_serde_json_value_text() {
    let samples = ["x", "q\"uo\\te", "tab\there", "\u{0}\u{1b}", "ünï"];
    for s in samples.iter() {
        let value = serde_json::Value::String(s.to_string());
        assert_eq!(encode_string(s), serde_json::to_string(&value).unwrap());
    }
}

#[test]
fn arrays_are_comma_separated() {
    assert_eq!(encode_array(&vec![]), "[]");
    assert_eq!(encode_array(&vec!["1".to_string()]), "[1]");
    assert_eq!(
        encode_array(&vec!["\"a\"".to_string(), "null".to_string(), "{}".to_string()]),
        "[\"a\",null,{}]"
    );
}

#[test]
fn string_lists_quote_each_item() {
    assert_eq!(encode_string_list(&vec![]), "[]");
    assert_eq!(
        encode_string_list(&vec!["a".to_string(), "b\"".to_string()]),
        "[\"a\",\"b\\\"\"]"
    );
}

#[test]
fn optional_strings_are_literal_or_null() {
    assert_eq!(encode_optional_string(&None), "null");
    assert_eq!(encode_optional_string(&Some("tok".to_string())), "\"tok\"");
}

#[test]
fn objects_keep_the_given_member_order() {
    assert_eq!(encode_object(&vec![]), "{}");
    let members = vec![
        ("b".to_string(), "1".to_string()),
        ("a".to_string(), "\"x\"".to_string()),
    ];
    assert_eq!(encode_object(&members), "{\"b\":1,\"a\":\"x\"}");
}
