use product_scraper::json::JsonValue;
use product_scraper::merge::{Payload, ScrapeState};
use product_scraper::price::parse_price_string;
use product_scraper::ProductDataExtractor;

#[test]
fn extractor_counts_tokens() {
    let e = ProductDataExtractor::new(50_000);
    assert_eq!(e.estimate_tokens(""), 0);
    assert_eq!(e.estimate_tokens("abcd"), 1);
    assert_eq!(e.estimate_tokens("abcde"), 2);
}

#[test]
fn price_with_was_and_symbol() {
    let p = parse_price_string("Was A$1,299.50");
    assert_eq!(p.amount, Some(1299));
    assert_eq!(p.currency.as_deref(), Some("AUD"));
}

#[test]
fn image_merge_prefers_longer_list() {
    let mut st = ScrapeState::new();
    let mut a = Payload::new();
    a.push(
        "image_urls".to_string(),
        JsonValue::Array(vec![JsonValue::Text("a".to_string()), JsonValue::Text("b".to_string())]),
    );
    st.merge_data(&a, "serpapi_google");
    let mut b = Payload::new();
    b.push(
        "image_urls".to_string(),
        JsonValue::Array(vec![
            JsonValue::Text("c".to_string()),
            JsonValue::Text("d".to_string()),
            JsonValue::Text("e".to_string()),
        ]),
    );
    st.merge_data(&b, "curlcffi_gemini");
    assert_eq!(st.product.image_urls, vec!["c".to_string(), "d".to_string(), "e".to_string()]);
    assert_eq!(st.attribution.image_urls.as_deref(), Some("curlcffi_gemini"));
}
