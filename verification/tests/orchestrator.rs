use product_scraper::json::JsonValue;
use product_scraper::merge::{Payload, ScrapeState};
use product_scraper::orchestrator::{
    approaches, decide, DEFAULT_TIMEOUT_MS, image_title_query, missing_flags, validate,
    wait_for_name, Decision, NameWait, ScrapeError,
};
use product_scraper::product::ProductData;
use product_scraper::responses::decode_extraction;

fn text(s: &str) -> JsonValue {
    JsonValue::Text(s.to_string())
}

fn payload(fields: Vec<(&str, JsonValue)>) -> Payload {
    let mut p = Payload::new();
    for (k, v) in fields {
        p.push(k.to_string(), v);
    }
    p
}

#[test]
fn strong_source_stops_the_race_at_once() {
    let reply = r#"{"is_product_page":true,"product_name":"Linen Shirt","brand":"Acme","price":"$45.00","garment_type":"upper","image_urls":["https://x/a.jpg","https://x/b.jpg"]}"#;
    let mut st = ScrapeState::new();
    assert!(matches!(decide(&st, 600, DEFAULT_TIMEOUT_MS), Decision::Wait));
    st.merge_data(&decode_extraction(reply).expect("a payload"), "curlcffi_gemini");
    assert!(matches!(decide(&st, 700, DEFAULT_TIMEOUT_MS), Decision::StopStrong));
    let price = st.product.price.as_ref().expect("a price");
    assert_eq!((price.amount, price.currency.as_deref()), (Some(45), Some("USD")));
    assert!(validate(&st.product, "https://shop.example.com/p").is_ok());
    let flags = missing_flags(&st.product);
    assert!(flags.success());
    assert!(!flags.unsupported);
}

#[test]
fn weak_sources_wait_for_the_soft_deadline() {
    let mut st = ScrapeState::new();
    st.merge_data(
        &payload(vec![("product_name", text("Shirt")), ("price", text("$45"))]),
        "serpapi_google",
    );
    assert!(matches!(decide(&st, 1200, DEFAULT_TIMEOUT_MS), Decision::Wait));
    st.merge_data(&payload(vec![("garment_type", text("upper"))]), "gemini_fast");
    st.merge_data(&payload(vec![("brand", text("Acme"))]), "gemini_classification");
    st.merge_data(
        &payload(vec![("image_urls", JsonValue::Array(vec![text("https://x/a.jpg")]))]),
        "serpapi_images_url",
    );
    assert!(st.is_complete());
    assert!(!st.has_strong_source());
    assert!(matches!(decide(&st, 1400, DEFAULT_TIMEOUT_MS), Decision::Wait));
    assert!(matches!(decide(&st, 5000, DEFAULT_TIMEOUT_MS), Decision::Wait));
    assert!(matches!(decide(&st, 5001, DEFAULT_TIMEOUT_MS), Decision::StopSoft));
}

#[test]
fn hard_deadline_ends_the_race() {
    let st = ScrapeState::new();
    assert!(matches!(decide(&st, 29_999, 30_000), Decision::Wait));
    assert!(matches!(decide(&st, 30_000, 30_000), Decision::StopHard));
    assert!(matches!(decide(&st, 0, 0), Decision::StopHard));
}

#[test]
fn unsupported_garment_is_no_fashion_product() {
    let mut st = ScrapeState::new();
    st.merge_data(&payload(vec![("garment_type", text("unsupported"))]), "gemini_fast");
    st.merge_data(&payload(vec![("garment_type", text("unsupported"))]), "curlcffi_gemini");
    let err = validate(&st.product, "https://shop.example.com/p").expect_err("refused");
    assert!(matches!(&err, ScrapeError::NotFashionProduct { url } if url == "https://shop.example.com/p"));
    assert_eq!(
        err.message(),
        "NotFashionProductError: The page at https://shop.example.com/p is not a fashion product page"
    );
    assert!(missing_flags(&st.product).unsupported);
}

#[test]
fn other_and_unknown_garments_are_unsupported() {
    let mut p = ProductData::new();
    let err = validate(&p, "u").expect_err("refused");
    assert!(matches!(&err, ScrapeError::UnsupportedProduct { got: None, .. }));
    assert_eq!(
        err.message(),
        "UnsupportedProductError: Could not determine garment type for product at u (got: None)"
    );
    p.garment_type = Some("other".to_string());
    let err = validate(&p, "u").expect_err("refused");
    assert_eq!(
        err.message(),
        "UnsupportedProductError: The product at u is not a supported fashion item (garment_type: other)"
    );
    p.garment_type = Some("hat".to_string());
    let err = validate(&p, "u").expect_err("refused");
    assert!(matches!(&err, ScrapeError::UnsupportedProduct { got: Some(g), .. } if g == "hat"));
    assert_eq!(
        err.message(),
        "UnsupportedProductError: Could not determine garment type for product at u (got: hat)"
    );
    for g in ["upper", "lower", "full_body", "shoes"] {
        p.garment_type = Some(g.to_string());
        assert!(validate(&p, "u").is_ok());
    }
}

#[test]
fn flags_name_what_is_missing() {
    let mut st = ScrapeState::new();
    let f = missing_flags(&st.product);
    assert!(f.name_missing && f.brand_missing && f.price_missing && f.image_missing);
    assert!(!f.unsupported);
    assert!(!f.success());
    st.merge_data(
        &payload(vec![
            ("name", text("N")),
            ("brand", text("B")),
            ("price", text("5")),
            ("images", JsonValue::Array(vec![text("i")])),
        ]),
        "x",
    );
    let f = missing_flags(&st.product);
    assert!(f.success());
    assert!(!st.is_complete());
}

#[test]
fn eight_sources_race() {
    assert_eq!(
        approaches(),
        vec![
            "gemini_fast",
            "curlcffi_gemini",
            "curlcffi_gemini_proxy",
            "requests_gemini",
            "cloudflare_gemini",
            "serpapi_google",
            "serpapi_images_url",
            "serpapi_images_title",
        ]
    );
}

#[test]
fn search_by_title_waits_for_a_name() {
    let mut st = ScrapeState::new();
    assert!(matches!(wait_for_name(&st, 0), NameWait::Wait));
    assert!(matches!(wait_for_name(&st, 79), NameWait::Wait));
    assert!(matches!(wait_for_name(&st, 80), NameWait::GiveUp));
    st.merge_data(&payload(vec![("title", text("Shirt"))]), "serpapi_google");
    assert!(matches!(wait_for_name(&st, 80), NameWait::Go));
    assert_eq!(
        image_title_query("Linen Shirt", "https://www.Shop.example.com/p?x=1").as_deref(),
        Some("\"Linen Shirt\" site:www.shop.example.com")
    );
    assert_eq!(image_title_query("Linen Shirt", "mailto:a@b.c"), None);
    assert_eq!(image_title_query("Linen Shirt", "nonsense"), None);
}
