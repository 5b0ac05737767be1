use rust_geck::types::Dict;
use rust_geck::types::DictType;

#[test]
fn types_test_dict() {
    let mut dict1 = Dict::new();
    dict1.insert("option1", DictType::from("123"));
    let mut dict2 = Dict::new();
    dict2.insert("option2", DictType::from("asdfk"));

    let mut dict = Dict::new();

    dict.insert("a", DictType::from(dict1));
    dict.insert("a", DictType::from(dict2));

    let actual: serde_json::Value =
        serde_json::from_str(r#"{"a": {"option1": "123", "option2": "asdfk"}}"#).unwrap();
    let expected: serde_json::Value = serde_json::from_str(&dict.to_json_string()).unwrap();

    assert!(actual == expected);
}

#[test]
fn test_dict_int() {
    let mut dict1 = Dict::new();
    dict1.insert("option1", DictType::from(123));
    dict1.insert("option2", DictType::from(true));
    let mut dict2 = Dict::new();
    dict2.insert("option2", DictType::from("asdfk"));

    let mut dict = Dict::new();

    dict.insert("a", DictType::from(dict1));
    dict.insert("a", DictType::from(dict2));

    let actual: serde_json::Value =
        serde_json::from_str(r#"{"a": {"option1": 123, "option2": "asdfk"}}"#).unwrap();
    let expected: serde_json::Value = serde_json::from_str(&dict.to_json_string()).unwrap();

    assert!(actual == expected);

    let mut dict = Dict::new();
    let mut dict1 = Dict::new();
    dict1.insert("option1", DictType::from(123));
    dict1.insert("option2", DictType::from(true));
    let mut dict2 = Dict::new();
    dict2.insert("option2", DictType::from("asdfk"));

    // Change order to test update as dict2 should override
    dict.insert("a", DictType::from(dict2));
    dict.insert("a", DictType::from(dict1));

    let actual: serde_json::Value =
        serde_json::from_str(r#"{"a": {"option1": 123, "option2": true}}"#).unwrap();
    let expected: serde_json::Value = serde_json::from_str(&dict.to_json_string()).unwrap();

    assert!(actual == expected);
}

#[test]
fn test_dict_extend() {
    let mut dict1 = Dict::new();
    dict1.insert("option1", DictType::from(123));
    dict1.insert("option2", DictType::from(true));
    let mut dict2 = Dict::new();
    dict2.insert("option3", DictType::from("asdfk"));
    let mut dict3 = Dict::new();
    dict3.insert("a", DictType::from(dict1));
    let mut dict4 = Dict::new();
    dict4.insert("a", DictType::from(dict2));

    dict3.extend(dict4);

    let actual: serde_json::Value =
        serde_json::from_str(r#"{"a": {"option1": 123, "option2": true, "option3":"asdfk"}}"#)
            .unwrap();
    let expected: serde_json::Value = serde_json::from_str(&dict3.to_json_string()).unwrap();

    assert!(actual == expected);
}

#[test]
fn test_dict_scalar_overwrite() {
    let mut dict = Dict::new();
    dict.insert("k", DictType::from(1));
    dict.insert("k", DictType::from("two"));
    let actual: serde_json::Value = serde_json::from_str(r#"{"k": "two"}"#).unwrap();
    let expected: serde_json::Value = serde_json::from_str(&dict.to_json_string()).unwrap();
    assert!(actual == expected);
}

#[test]
fn test_dict_array_append() {
    let mut inner: Vec<DictType> = Vec::new();
    inner.push(DictType::from(1));
    let mut dict = Dict::new();
    dict.insert("k", DictType::Arr(inner));
    dict.insert("k", DictType::from(2));
    let actual: serde_json::Value = serde_json::from_str(r#"{"k": [1, 2]}"#).unwrap();
    let expected: serde_json::Value = serde_json::from_str(&dict.to_json_string()).unwrap();
    assert!(actual == expected);
}

#[test]
fn test_dict_get_and_len() {
    let mut dict = Dict::new();
    dict.insert("a", DictType::from(1));
    dict.insert("b", DictType::from(2));
    assert_eq!(dict.len(), Some(2));
    assert!(matches!(dict.get("a"), Some(DictType::Number(1))));
    assert!(dict.get("missing").is_none());
}

#[test]
fn test_array_element_access() {
    let mut items: Vec<DictType> = Vec::new();
    items.push(DictType::from(10));
    items.push(DictType::from("x"));
    let arr = DictType::Arr(items);
    assert!(matches!(arr.at(0), Some(DictType::Number(10))));
    assert!(matches!(arr.at(1), Some(DictType::Str(s)) if s == "x"));
    assert!(arr.at(2).is_none());
}

#[test]
fn test_json_escapes() {
    let mut dict = Dict::new();
    dict.insert("text", DictType::from("a\"b\\c\nd\te\r"));
    let rendered = dict.to_json_string();
    let parsed: serde_json::Value = serde_json::from_str(&rendered).unwrap();
    assert_eq!(parsed["text"], serde_json::Value::String("a\"b\\c\nd\te\r".to_string()));
}

#[test]
fn test_json_negative_number() {
    let mut dict = Dict::new();
    dict.insert("n", DictType::from(-1042));
    let actual: serde_json::Value = serde_json::from_str(r#"{"n": -1042}"#).unwrap();
    let expected: serde_json::Value = serde_json::from_str(&dict.to_json_string()).unwrap();
    assert!(actual == expected);
}

#[test]
fn test_json_empty_object() {
    let dict = Dict::new();
    assert_eq!(dict.to_json_string(), "{}");
}
