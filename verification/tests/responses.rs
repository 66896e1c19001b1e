use product_scraper::json::{parse_json, JsonValue};
use product_scraper::responses::{
    decode_classification, decode_extraction, decode_fast_classification, parse_lenient,
    repair_trailing_commas, response_text, strip_code_fence,
};

#[test]
fn reply_text_is_found() {
    let reply = parse_json(
        r#"{"candidates":[{"content":{"parts":[{"text":"hello"},{"text":"second"}]}}]}"#,
    )
    .expect("valid JSON");
    assert_eq!(response_text(&reply).map(|s| s.as_str()), Some("hello"));
    for broken in [
        r#"{}"#,
        r#"{"candidates":[]}"#,
        r#"{"candidates":[{"content":{"parts":[]}}]}"#,
        r#"{"candidates":[{"content":{"parts":[{"text":5}]}}]}"#,
        r#"{"candidates":{"content":1}}"#,
        r#"[1]"#,
    ] {
        let reply = parse_json(broken).expect("valid JSON");
        assert!(response_text(&reply).is_none());
    }
}

#[test]
fn code_fence_is_stripped() {
    assert_eq!(strip_code_fence("  {\"a\":1}\n"), "{\"a\":1}");
    assert_eq!(strip_code_fence("```json\n{\"a\":1}\n```"), "{\"a\":1}");
    assert_eq!(strip_code_fence("```\n{\"a\":1}\n```  "), "{\"a\":1}");
    assert_eq!(strip_code_fence("```json {\"a\":1}"), "{\"a\":1}");
    assert_eq!(strip_code_fence("```"), "");
    assert_eq!(strip_code_fence("``````"), "");
    assert_eq!(strip_code_fence("{\"a\":\"```\"}"), "{\"a\":\"```\"}");
}

#[test]
fn trailing_commas_are_repaired() {
    assert_eq!(repair_trailing_commas("{\"a\":[1,2, ],\n}"), "{\"a\":[1,2 ]\n}");
    assert_eq!(repair_trailing_commas("{\"a\":1}"), "{\"a\":1}");
    assert!(parse_json("{\"a\":[1,2,],}").is_none());
    let v = parse_lenient("{\"a\":[1,2,],}").expect("repaired");
    assert!(matches!(v.get("a").and_then(|a| a.at(1)), Some(JsonValue::Number(n)) if n == "2"));
    assert!(parse_lenient("{\"a\":").is_none());
}

#[test]
fn extraction_needs_a_product_page() {
    assert!(decode_extraction(r#"{"is_product_page":false,"product_name":"x"}"#).is_none());
    assert!(decode_extraction(r#"{"product_name":"x"}"#).is_none());
    assert!(decode_extraction(r#"{"is_product_page":"true"}"#).is_none());
    assert!(decode_extraction("not json").is_none());
    let p = decode_extraction("```json\n{\"is_product_page\":true,}\n```").expect("a payload");
    assert!(p.fields.is_empty());
}

#[test]
fn extraction_maps_its_fields() {
    let p = decode_extraction(
        r#"{"is_product_page":true,"product_name":"Shirt","brand":5,"price":{"amount":12,"currency":"EUR"},"garment_type":"upper","image_urls":["a","b"],"availability":"in_stock","gender":"male"}"#,
    )
    .expect("a payload");
    let keys: Vec<&str> = p.fields.iter().map(|m| m.key.as_str()).collect();
    assert_eq!(keys, vec!["product_name", "price", "garment_type", "image_urls"]);
    assert!(matches!(p.get("product_name"), Some(JsonValue::Text(t)) if t == "Shirt"));
    assert!(matches!(p.get("price"), Some(JsonValue::Object(_))));
    assert!(matches!(p.get("image_urls"), Some(JsonValue::Array(items)) if items.len() == 2));
    let p = decode_extraction(r#"{"is_product_page":true,"image_urls":"a","price":null}"#)
        .expect("a payload");
    let keys: Vec<&str> = p.fields.iter().map(|m| m.key.as_str()).collect();
    assert_eq!(keys, vec!["price"]);
}

#[test]
fn fast_classification_defaults_to_unsupported() {
    let p = decode_fast_classification("```json\n{\"garment_type\":\"shoes\"}\n```").expect("a payload");
    assert!(matches!(p.get("garment_type"), Some(JsonValue::Text(t)) if t == "shoes"));
    let p = decode_fast_classification("{}").expect("a payload");
    assert!(matches!(p.get("garment_type"), Some(JsonValue::Text(t)) if t == "unsupported"));
    let p = decode_fast_classification("[]").expect("a payload");
    assert!(matches!(p.get("garment_type"), Some(JsonValue::Text(t)) if t == "unsupported"));
    let p = decode_fast_classification("{\"garment_type\":\"shoes\",}").expect("repaired");
    assert!(matches!(p.get("garment_type"), Some(JsonValue::Text(t)) if t == "shoes"));
    assert!(decode_fast_classification("shoes").is_none());
}

#[test]
fn classification_takes_the_texts() {
    let p = decode_classification(r#"{"brand":"Acme","name":"Shirt","garment_type":"upper"}"#)
        .expect("a payload");
    let keys: Vec<&str> = p.fields.iter().map(|m| m.key.as_str()).collect();
    assert_eq!(keys, vec!["name", "brand", "garment_type"]);
    assert!(decode_classification(r#"{"brand":1}"#).is_none());
    let p = decode_classification("```json\n{\"brand\":\"Acme\",}\n```").expect("a payload");
    assert!(matches!(p.get("brand"), Some(JsonValue::Text(t)) if t == "Acme"));
    assert!(decode_classification("Acme").is_none());
}
