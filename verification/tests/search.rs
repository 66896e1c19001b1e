use product_scraper::json::{parse_json, JsonValue};
use product_scraper::search::{
    add_query_pairs, first_shopping_result, image_search_url, pick_image_by_title,
    pick_image_by_url, shopping_payload, shopping_query, shopping_retry_query, shopping_search_url,
    title_question, worker_data, worker_request_url,
};
use product_scraper::urls::QueryPair;

fn json(text: &str) -> JsonValue {
    parse_json(text).expect("valid JSON")
}

#[test]
fn search_urls_carry_their_parameters() {
    assert_eq!(
        shopping_search_url("https://s.example.com/p?id=1", "KEY").as_deref(),
        Some("https://serpapi.com/search?engine=google_shopping_light&q=https%3A%2F%2Fs.example.com%2Fp%3Fid%3D1&gl=us&hl=en&api_key=KEY&google_domain=google.com")
    );
    assert_eq!(
        image_search_url("\"Linen Shirt\" site:s.example.com", "K").as_deref(),
        Some("https://serpapi.com/search?engine=google_images_light&q=%22Linen+Shirt%22+site%3As.example.com&gl=us&hl=en&api_key=K")
    );
    let pairs = vec![QueryPair { key: "a".to_string(), value: "b c".to_string() }];
    assert_eq!(add_query_pairs("https://x.example/?z=1", &pairs).as_deref(), Some("https://x.example/?z=1&a=b+c"));
    assert_eq!(add_query_pairs("nonsense", &pairs), None);
    assert_eq!(add_query_pairs("nonsense", &Vec::new()).as_deref(), Some("nonsense"));
}

#[test]
fn shopping_search_is_retried_with_the_normalised_url() {
    let first = shopping_query("https://s.example.com/en-US/p?utm=1&pid=7#x");
    assert_eq!(first, "https://s.example.com/en-US/p?pid=7");
    assert_eq!(
        shopping_retry_query(None, &first).as_deref(),
        Some("https://s.example.com/p")
    );
    let empty = json(r#"{"search_metadata":{}}"#);
    assert_eq!(
        shopping_retry_query(Some(&empty), &first).as_deref(),
        Some("https://s.example.com/p")
    );
    let found = json(r#"{"shopping_results":[]}"#);
    assert_eq!(shopping_retry_query(Some(&found), &first), None);
    assert_eq!(shopping_retry_query(None, "https://s.example.com/p"), None);
    assert_eq!(shopping_retry_query(None, "nonsense"), None);
}

#[test]
fn first_shopping_result_gives_name_and_price() {
    let answer = json(
        r#"{"shopping_results":[{"title":"Linen Shirt","price":"$45.00","extracted_price":45.0,"snippet":"Cool"},{"title":"Other"}]}"#,
    );
    let p = shopping_payload(&answer).expect("a payload");
    assert!(matches!(p.get("product_name"), Some(JsonValue::Text(t)) if t == "Linen Shirt"));
    assert!(matches!(p.get("price"), Some(JsonValue::Text(t)) if t == "$45.00"));
    let q = title_question(first_shopping_result(&answer).expect("a result")).expect("a question");
    assert_eq!(q.title, "Linen Shirt");
    assert_eq!(q.snippet.as_deref(), Some("Cool"));
    let answer = json(r#"{"shopping_results":[{"extracted_price":45.5}]}"#);
    let p = shopping_payload(&answer).expect("a payload");
    assert!(p.get("product_name").is_none());
    assert!(matches!(p.get("price"), Some(JsonValue::Number(n)) if n == "45.5"));
    assert!(title_question(first_shopping_result(&answer).expect("a result")).is_none());
    assert!(title_question(&json(r#"{"title":""}"#)).is_none());
    assert!(shopping_payload(&json(r#"{"shopping_results":[]}"#)).is_none());
    assert!(shopping_payload(&json(r#"{"shopping_results":{}}"#)).is_none());
    assert!(shopping_payload(&json(r#"{}"#)).is_none());
}

#[test]
fn image_is_taken_from_the_matching_result() {
    let answer = json(
        r#"{"images_results":[
            {"link":"https://other.example.com/products/x","original":"https://i/0.jpg"},
            {"link":"https://www.shop.example.com/fr_FR/products/x?utm=1","original":""},
            {"link":"https://www.shop.example.com/fr_FR/products/x?utm=1","original":"https://i/1.jpg"},
            {"link":"https://shop.example.com/products/x","original":"https://i/2.jpg"}
        ]}"#,
    );
    let p = pick_image_by_url("https://shop.example.com/en-US/products/x?pid=1", &answer)
        .expect("a payload");
    assert!(matches!(
        p.get("image_urls"),
        Some(JsonValue::Array(items)) if items.len() == 1 && matches!(&items[0], JsonValue::Text(t) if t == "https://i/1.jpg")
    ));
    assert!(pick_image_by_url("https://shop.example.com/products/y", &answer).is_none());
    assert!(pick_image_by_url("https://shop.example.com/products/x", &json("{}")).is_none());
    let p = pick_image_by_title(&answer).expect("a payload");
    assert!(matches!(
        p.get("image_urls"),
        Some(JsonValue::Array(items)) if matches!(&items[0], JsonValue::Text(t) if t == "https://i/0.jpg")
    ));
    assert!(pick_image_by_title(&json(r#"{"images_results":[{"original":1},{"link":"x"}]}"#)).is_none());
    assert!(pick_image_by_title(&json(r#"{"images_results":"none"}"#)).is_none());
}

#[test]
fn worker_is_asked_with_the_encoded_url() {
    assert_eq!(
        worker_request_url("https://w.example.workers.dev", "https://s.example.com/p?a=b c&é=1"),
        "https://w.example.workers.dev?url=https%3A%2F%2Fs.example.com%2Fp%3Fa%3Db%20c%26%C3%A9%3D1"
    );
    assert!(worker_data(json(r#"{"error":"blocked"}"#)).is_none());
    assert!(worker_data(json(r#"{"error":null}"#)).is_none());
    assert!(worker_data(json(r#"{"html":"x"}"#)).is_some());
    assert!(worker_data(json(r#"[1,2]"#)).is_some());
}
