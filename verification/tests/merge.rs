use product_scraper::json::{JsonValue, Member};
use product_scraper::merge::{
    distinct_texts, should_override_field, source_priority, Payload, ScrapeState,
};
use product_scraper::product::ProductData;

fn text(s: &str) -> JsonValue {
    JsonValue::Text(s.to_string())
}

fn list(items: &[&str]) -> JsonValue {
    JsonValue::Array(items.iter().map(|s| text(s)).collect())
}

fn payload(fields: Vec<(&str, JsonValue)>) -> Payload {
    let mut p = Payload::new();
    for (k, v) in fields {
        p.push(k.to_string(), v);
    }
    p
}

fn strings(items: &[&str]) -> Vec<String> {
    items.iter().map(|s| s.to_string()).collect()
}

#[test]
fn sources_have_their_tiers() {
    for s in ["curlcffi_gemini", "curlcffi_gemini_proxy", "requests_gemini", "cloudflare_gemini"] {
        assert_eq!(source_priority(s), 0);
    }
    assert_eq!(source_priority("gemini_classification"), 1);
    assert_eq!(source_priority("serpapi_google"), 2);
    assert_eq!(source_priority("gemini_fast"), 3);
    assert_eq!(source_priority("serpapi_images_url"), 4);
    assert_eq!(source_priority("serpapi_images_title"), 4);
    assert_eq!(source_priority("anything"), 5);
    assert_eq!(source_priority(""), 5);
}

#[test]
fn override_needs_a_stronger_source() {
    assert!(should_override_field("gemini_fast", &None, true));
    assert!(!should_override_field("curlcffi_gemini", &None, false));
    assert!(should_override_field("curlcffi_gemini", &Some("serpapi_google".to_string()), false));
    assert!(!should_override_field("serpapi_google", &Some("serpapi_google".to_string()), false));
    assert!(!should_override_field("gemini_fast", &Some("serpapi_google".to_string()), false));
}

#[test]
fn new_record_is_empty_and_incomplete() {
    let p = ProductData::new();
    assert!(!p.is_complete());
    assert_eq!(p.missing_fields(), vec!["product_name", "brand", "price", "image_urls", "garment_type"]);
    let st = ScrapeState::new();
    assert!(!st.is_complete());
    assert!(!st.has_strong_source());
}

#[test]
fn strong_path_fills_the_record() {
    let mut st = ScrapeState::new();
    let p = payload(vec![
        ("product_name", text("Linen Shirt")),
        ("brand", text("Acme")),
        ("price", text("$45.00")),
        ("garment_type", text("upper")),
        ("image_urls", list(&["https://x/a.jpg", "https://x/b.jpg"])),
    ]);
    st.merge_data(&p, "curlcffi_gemini");
    assert!(st.is_complete());
    assert!(st.has_strong_source());
    assert!(st.product.missing_fields().is_empty());
    let price = st.product.price.as_ref().expect("a price");
    assert_eq!(price.amount, Some(45));
    assert_eq!(price.currency.as_deref(), Some("USD"));
    assert_eq!(st.product.image_urls, strings(&["https://x/a.jpg", "https://x/b.jpg"]));
    assert_eq!(st.attribution.price.as_deref(), Some("curlcffi_gemini"));
    assert_eq!(st.product.availability, None);
    assert_eq!(st.attribution.availability, None);
}

#[test]
fn attribution_follows_the_value() {
    let mut st = ScrapeState::new();
    st.merge_data(&payload(vec![("brand", text("Weak")), ("name", text("N1"))]), "gemini_fast");
    assert_eq!(st.product.brand.as_deref(), Some("Weak"));
    assert_eq!(st.attribution.brand.as_deref(), Some("gemini_fast"));
    st.merge_data(&payload(vec![("brand", text("Same tier"))]), "gemini_fast");
    assert_eq!(st.product.brand.as_deref(), Some("Weak"));
    assert_eq!(st.attribution.brand.as_deref(), Some("gemini_fast"));
    st.merge_data(&payload(vec![("brand", text("Strong"))]), "serpapi_google");
    assert_eq!(st.product.brand.as_deref(), Some("Strong"));
    assert_eq!(st.attribution.brand.as_deref(), Some("serpapi_google"));
    st.merge_data(&payload(vec![("brand", text("Weaker"))]), "unknown_source");
    assert_eq!(st.product.brand.as_deref(), Some("Strong"));
    assert_eq!(st.attribution.brand.as_deref(), Some("serpapi_google"));
    assert_eq!(st.product.product_name.as_deref(), Some("N1"));
    assert_eq!(st.attribution.product_name.as_deref(), Some("gemini_fast"));
}

#[test]
fn name_is_read_from_the_first_key_present() {
    let mut st = ScrapeState::new();
    st.merge_data(
        &payload(vec![("title", text("T")), ("name", text("N")), ("product_name", text("P"))]),
        "x",
    );
    assert_eq!(st.product.product_name.as_deref(), Some("P"));
    let mut st = ScrapeState::new();
    st.merge_data(&payload(vec![("title", text("T")), ("name", JsonValue::Null)]), "x");
    assert_eq!(st.product.product_name, None);
    let mut st = ScrapeState::new();
    st.merge_data(&payload(vec![("title", text("T"))]), "x");
    assert_eq!(st.product.product_name.as_deref(), Some("T"));
}

#[test]
fn price_without_amount_is_not_merged() {
    let mut st = ScrapeState::new();
    st.merge_data(&payload(vec![("price", text("call us"))]), "curlcffi_gemini");
    assert!(st.product.price.is_none());
    assert_eq!(st.attribution.price, None);
    st.merge_data(&payload(vec![("price", JsonValue::Number("12.5".to_string()))]), "gemini_fast");
    assert_eq!(st.product.price.as_ref().and_then(|p| p.amount), Some(12));
    st.merge_data(&payload(vec![("price", text("€99"))]), "curlcffi_gemini");
    let price = st.product.price.as_ref().expect("a price");
    assert_eq!((price.amount, price.currency.as_deref()), (Some(99), Some("EUR")));
}

#[test]
fn image_merge_longer_list_wins() {
    let mut st = ScrapeState::new();
    st.merge_data(&payload(vec![("image_urls", list(&["a", "b"]))]), "serpapi_google");
    st.merge_data(&payload(vec![("image_urls", list(&["c", "d", "e"]))]), "curlcffi_gemini");
    assert_eq!(st.product.image_urls, strings(&["c", "d", "e"]));
    assert_eq!(st.attribution.image_urls.as_deref(), Some("curlcffi_gemini"));
    st.merge_data(&payload(vec![("images", list(&["f", "g", "h", "i"]))]), "unknown");
    assert_eq!(st.product.image_urls, strings(&["f", "g", "h", "i"]));
    assert_eq!(st.attribution.image_urls.as_deref(), Some("unknown"));
    st.merge_data(&payload(vec![("image_urls", list(&["j", "k", "l", "m"]))]), "gemini_fast");
    assert_eq!(st.product.image_urls, strings(&["j", "k", "l", "m"]));
    st.merge_data(&payload(vec![("image_urls", list(&["n", "o", "p", "q"]))]), "unknown");
    assert_eq!(st.product.image_urls, strings(&["j", "k", "l", "m"]));
    st.merge_data(&payload(vec![("image_urls", list(&["r"]))]), "curlcffi_gemini");
    assert_eq!(st.product.image_urls, strings(&["j", "k", "l", "m"]));
    assert_eq!(st.attribution.image_urls.as_deref(), Some("gemini_fast"));
}

#[test]
fn image_list_has_no_repeats_and_no_empties() {
    let mut st = ScrapeState::new();
    let items = JsonValue::Array(vec![
        text("a"),
        text(""),
        JsonValue::Null,
        text("b"),
        text("a"),
        JsonValue::Number("1".to_string()),
        text("c"),
        text("b"),
    ]);
    st.merge_data(&payload(vec![("image_urls", items)]), "gemini_fast");
    assert_eq!(st.product.image_urls, strings(&["a", "b", "c"]));
    assert_eq!(distinct_texts(&vec![text("x"), text("x"), text("")]), strings(&["x"]));
    assert_eq!(distinct_texts(&Vec::new()), Vec::<String>::new());
}

#[test]
fn merge_order_does_not_matter_between_tiers() {
    let strong = payload(vec![
        ("product_name", text("Strong name")),
        ("price", text("$10")),
        ("image_urls", list(&["s1", "s2"])),
    ]);
    let weak = payload(vec![
        ("product_name", text("Weak name")),
        ("brand", text("Weak brand")),
        ("price", text("$20")),
        ("image_urls", list(&["w1", "w2"])),
        ("availability", text("in_stock")),
    ]);
    let mut one = ScrapeState::new();
    one.merge_data(&strong, "requests_gemini");
    one.merge_data(&weak, "serpapi_google");
    let mut two = ScrapeState::new();
    two.merge_data(&weak, "serpapi_google");
    two.merge_data(&strong, "requests_gemini");
    for st in [&one, &two] {
        assert_eq!(st.product.product_name.as_deref(), Some("Strong name"));
        assert_eq!(st.attribution.product_name.as_deref(), Some("requests_gemini"));
        assert_eq!(st.product.brand.as_deref(), Some("Weak brand"));
        assert_eq!(st.attribution.brand.as_deref(), Some("serpapi_google"));
        assert_eq!(st.product.price.as_ref().and_then(|p| p.amount), Some(10));
        assert_eq!(st.product.image_urls, strings(&["s1", "s2"]));
        assert_eq!(st.attribution.image_urls.as_deref(), Some("requests_gemini"));
        assert_eq!(st.product.availability.as_deref(), Some("in_stock"));
    }
}

#[test]
fn payload_keeps_the_first_value_of_a_name() {
    let mut p = Payload::new();
    p.push("brand".to_string(), text("first"));
    p.push("brand".to_string(), text("second"));
    assert!(matches!(p.get("brand"), Some(JsonValue::Text(t)) if t == "first"));
    assert!(p.get("other").is_none());
    let obj = JsonValue::Object(vec![Member { key: "k".to_string(), value: JsonValue::Bool(true) }]);
    assert_eq!(obj.get("k").and_then(|v| v.as_bool()), Some(true));
    assert!(obj.at(0).is_none());
}
