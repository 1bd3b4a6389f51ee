//! Documents, read and written by the same library as on the wire.

use opus_api::json::{Json, Object};

#[test]
fn a_document_reads_and_prints() {
    let text = r#"{"a":[1,-2,true,false,null,"x\ny"],"b":{"c":{}}}"#;
    let doc = Json::parse(text).unwrap();
    assert_eq!(
        serde_json::from_str::<serde_json::Value>(&doc.to_text()).unwrap(),
        serde_json::from_str::<serde_json::Value>(text).unwrap()
    );
    assert!(Json::parse("{not json").is_err());
    assert!(Json::parse("").err().unwrap().contains("EOF"));
    assert_eq!(Json::parse_list(b"[1,[2]]").ok().unwrap()[1].to_text(), "[2]");
    assert!(Json::parse_list(b"{}").is_err());
    assert!(Json::parse_list(b"[\"\xff\"]").is_err());
    assert!(matches!(Json::parse_or_null("nope"), Json::Null));
    assert!(Json::parse_or_null("[1]").is_array());
}

#[test]
fn members_are_found_by_name_and_place() {
    let doc = Json::parse(r#"{"n":7,"t":"x","b":true,"l":[{"k":"v"},2],"o":{"i":"in"}}"#).unwrap();
    assert_eq!(doc.int_at("n"), Some(7));
    assert_eq!(doc.int_at("t"), None);
    assert_eq!(doc.text_at("t"), Some("x"));
    assert_eq!(doc.text_at("n"), None);
    assert_eq!(doc.text_or_empty("nope"), "");
    assert_eq!(doc.bool_at("b"), Some(true));
    assert_eq!(doc.text_within("o", "i"), Some("in"));
    assert_eq!(doc.text_within("o", "j"), None);
    assert_eq!(doc.items_at("l").len(), 2);
    assert_eq!(doc.items_at("n").len(), 0);
    assert_eq!(doc.get("l").unwrap().first().unwrap().text_at("k"), Some("v"));
    assert!(doc.get("l").unwrap().at(1).unwrap().is_number());
    assert!(doc.get("l").unwrap().at(2).is_none());
    assert!(doc.get("zzz").is_none());
    assert!(doc.is_object() && !doc.is_array() && !doc.is_text());
    assert_eq!(doc.copy().to_value(), doc.to_value());
    assert_eq!(doc.get("t").unwrap().as_text(), Some("x"));
    assert!(doc.get("l").unwrap().items().len() == 2);
}

#[test]
fn a_name_given_twice_keeps_the_last_value() {
    let doc = Json::parse(r#"{"a":1,"a":2}"#).unwrap();
    assert_eq!(doc.int_at("a"), Some(2));
    let mut o = Object::new();
    o.put("a", Json::integer(1));
    o.put_text("a", "two");
    assert_eq!(o.get("a").unwrap().as_text(), Some("two"));
    assert_eq!(Json::Object(o).to_text(), r#"{"a":"two"}"#);
}

#[test]
fn documents_are_built_of_parts() {
    assert_eq!(Json::text("a\"b").to_text(), r#""a\"b""#);
    assert_eq!(Json::optional_text(None).to_text(), "null");
    assert_eq!(Json::optional_text(Some("x")).to_text(), r#""x""#);
    assert_eq!(Json::integer(i64::MIN).to_text(), i64::MIN.to_string());
    let list = Json::array(vec![Json::integer(1), Json::Bool(false)]);
    assert_eq!(list.to_text(), "[1,false]");
    assert_eq!(Json::text_array(&vec!["a".to_owned(), "b".to_owned()]).to_text(), r#"["a","b"]"#);
}

#[test]
fn whole_numbers_only_are_integers() {
    let doc = Json::parse(r#"{"i":9223372036854775807,"u":9223372036854775808,"f":1.5}"#).unwrap();
    assert_eq!(doc.int_at("i"), Some(i64::MAX));
    assert_eq!(doc.int_at("u"), None);
    assert_eq!(doc.int_at("f"), None);
    assert_eq!(doc.get("f").unwrap().to_text(), "1.5");
}
