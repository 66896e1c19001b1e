use product_scraper::extract::snapshot::HtmlExtract;
use product_scraper::json::{parse_json, render_json, JsonValue};
use product_scraper::ProductDataExtractor;

fn extract(html: &str) -> HtmlExtract {
    ProductDataExtractor::new(50_000).extract_product_data("https://shop.example.com/p/1", html)
}

#[test]
fn page_without_images_gives_empty_list() {
    let out = extract("<html><head><title> Hello </title></head><body><p>nothing</p></body></html>");
    assert!(out.images.is_empty());
    assert!(out.structured_data.json_ld.is_empty());
    assert_eq!(out.content.title, "Hello");
    assert_eq!(out.url, "https://shop.example.com/p/1");
}

#[test]
fn json_ld_product_is_kept() {
    let html = r#"<html><head>
        <script type="application/ld+json">{"@type":"Product","name":"Shirt","image":["https://x.example/a.jpg",{"url":"https://x.example/b.jpg"},{"contentUrl":"https://x.example/c.jpg","url":"https://x.example/d.jpg"},5]}</script>
        <script type="application/ld+json">{"@type":"WebSite","name":"Shop"}</script>
        <script type="application/ld+json">{"@graph":[{"@type":"Offer","price":"5"},{"@type":"AggregateOffer"},{"@type":"Product","image":"https://x.example/e.jpg"}]}</script>
        <script type="application/ld+json">not json</script>
        </head><body></body></html>"#;
    let out = extract(html);
    assert_eq!(out.structured_data.json_ld.len(), 3);
    assert_eq!(
        out.images,
        vec![
            "https://x.example/a.jpg".to_string(),
            "https://x.example/b.jpg".to_string(),
            "https://x.example/c.jpg".to_string(),
            "https://x.example/e.jpg".to_string(),
        ]
    );
}

#[test]
fn graph_is_searched_whatever_the_type_of_its_object() {
    let html = r#"<html><head><script type='application/ld+json'>{"@type":"WebPage","@graph":[{"@type":"Product","name":"X"},{"@type":"AggregateOffer","lowPrice":1}]}</script></head><body></body></html>"#;
    let out = extract(html);
    let kept = &out.structured_data.json_ld;
    assert_eq!(kept.len(), 1);
    assert_eq!(kept[0].text_at("@type").map(|s| s.as_str()), Some("Product"));
    assert_eq!(kept[0].text_at("name").map(|s| s.as_str()), Some("X"));
    assert_eq!(render_json(&kept[0]), r#"{"@type":"Product","name":"X"}"#);
}

#[test]
fn product_with_a_graph_is_kept_before_the_items_of_its_graph() {
    let html = r#"<html><head><script type="application/ld+json">{"@type":"ProductGroup","name":"G","@graph":[{"@type":"Offer","price":"5"},{"@type":"Review"},"text",{"@type":"Product","name":"P","@graph":[{"@type":"Product","name":"deep"}]}]}</script>
        <script type="application/ld+json">{"@type":"Product","name":"N","@graph":{"@type":"Product"}}</script>
        <script type="application/ld+json">[{"@type":"Product","name":"in an array"}]</script></head><body></body></html>"#;
    let out = extract(html);
    let names: Vec<Option<&str>> = out
        .structured_data
        .json_ld
        .iter()
        .map(|v| v.text_at("name").map(|s| s.as_str()))
        .collect();
    assert_eq!(names, vec![Some("G"), None, Some("P"), Some("N")]);
    let types: Vec<Option<&str>> = out
        .structured_data
        .json_ld
        .iter()
        .map(|v| v.text_at("@type").map(|s| s.as_str()))
        .collect();
    assert_eq!(types, vec![Some("ProductGroup"), Some("Offer"), Some("Product"), Some("Product")]);
}

#[test]
fn meta_tags_are_bucketed() {
    let html = r#"<html><head>
        <meta property="og:title" content="Shirt">
        <meta property="og:title" content="Linen Shirt">
        <meta name="twitter:card" content="summary">
        <meta name="Product:Price" content="12">
        <meta name="description" content="ignored">
        <meta name="og:empty" content="">
        </head><body></body></html>"#;
    let out = extract(html);
    let og = &out.structured_data.open_graph;
    assert_eq!(og.len(), 1);
    assert_eq!(og.get("og:title").and_then(|v| v.as_str()), Some("Linen Shirt"));
    assert!(og.get("og:empty").is_none());
    let twitter = &out.structured_data.twitter_card;
    assert_eq!(twitter.len(), 1);
    assert_eq!(twitter.get("twitter:card").and_then(|v| v.as_str()), Some("summary"));
    let meta = &out.structured_data.meta_tags;
    assert_eq!(meta.len(), 1);
    assert_eq!(meta.get("Product:Price").and_then(|v| v.as_str()), Some("12"));
    assert!(meta.get("description").is_none());
}

#[test]
fn meta_tags_stand_in_the_json_form() {
    let html = r#"<html><head>
        <meta property="og:type" content="product">
        <meta property="og:image" content="https://x.example/a.jpg">
        <meta property="og:type" content="website">
        </head><body></body></html>"#;
    let form = extract(html).to_json();
    let og = form.get("structured_data").and_then(|s| s.get("open_graph")).expect("a map");
    assert_eq!(og.text_at("og:type").map(|s| s.as_str()), Some("website"));
    assert_eq!(og.text_at("og:image").map(|s| s.as_str()), Some("https://x.example/a.jpg"));
    assert_eq!(
        render_json(og),
        r#"{"og:image":"https://x.example/a.jpg","og:type":"website"}"#
    );
}

#[test]
fn small_images_are_dropped() {
    let html = r#"<html><body><div class="product-gallery">
        <img src="/media/small.jpg" width="99" height="500">
        <img src="/media/big.jpg" width="100" height="100">
        <img src="/media/px.jpg" width="640px" height="480px">
        <img src="/media/logo.jpg">
        <img src="">
        </div></body></html>"#;
    let out = extract(html);
    assert_eq!(
        out.images,
        vec![
            "https://shop.example.com/media/big.jpg".to_string(),
            "https://shop.example.com/media/px.jpg".to_string(),
        ]
    );
}

#[test]
fn images_are_ordered_by_score() {
    let html = r#"<html><body>
        <div class="x"><img src="/cdn/one.jpg" alt="a long enough alt text"></div>
        <div class="gallery"><img src="/product/two.jpg" itemprop="image" alt="a long enough alt text"></div>
        <div class="x"><img src="/plain/three.jpg"></div>
        <div class="x"><img src="/cdn/four.jpg" alt="a long enough alt text"></div>
        </body></html>"#;
    let e = ProductDataExtractor::new(50_000);
    let ranked = e.filter_product_images(html, "https://shop.example.com/");
    let got: Vec<(String, i32)> = ranked.iter().map(|i| (i.src.clone(), i.score)).collect();
    assert_eq!(
        got,
        vec![
            ("https://shop.example.com/product/two.jpg".to_string(), 9),
            ("https://shop.example.com/cdn/one.jpg".to_string(), 3),
            ("https://shop.example.com/cdn/four.jpg".to_string(), 3),
        ]
    );
}

fn script_with(total: usize) -> String {
    let head = r#"window.__NEXT_DATA__ = {"images": ["https://cdn.example.com/__IMAGE_PARAMS__/a.jpg", "http://cdn.example.com/b.png"], "pad": ""#;
    let tail = r#""};"#;
    let pad = total - head.len() - tail.len();
    format!("{}{}{}", head, "x".repeat(pad), tail)
}

#[test]
fn inline_script_of_499_chars_is_ignored() {
    let html = format!("<html><body><script>{}</script></body></html>", script_with(499));
    assert!(extract(&html).images.is_empty());
}

#[test]
fn inline_script_of_500_chars_is_considered() {
    let html = format!("<html><body><script>{}</script></body></html>", script_with(500));
    assert_eq!(
        extract(&html).images,
        vec![
            "https://cdn.example.com/f_auto/a.jpg".to_string(),
            "http://cdn.example.com/b.png".to_string(),
        ]
    );
}

#[test]
fn typed_script_is_ignored() {
    let html = format!(
        "<html><body><script type=\"text/javascript\">{}</script></body></html>",
        script_with(600)
    );
    assert!(extract(&html).images.is_empty());
}

#[test]
fn preload_images_are_resolved() {
    let html = r#"<html><head>
        <link rel="preload" as="image" href="/img/Hero.JPG">
        <link rel="preload" as="script" href="/js/app.jpg">
        <link rel="preload" as="image" href="/img/hero.svg">
        </head><body></body></html>"#;
    assert_eq!(extract(html).images, vec!["https://shop.example.com/img/Hero.JPG".to_string()]);
}

#[test]
fn price_signals_are_found_once() {
    let html = r#"<html><body>
        <span class="price">  $ 1,299.50
           now </span>
        <div id="price-box">12,50 EUR</div>
        <p>no price here</p>
        </body></html>"#;
    let out = extract(html);
    assert_eq!(out.price_signals, vec!["$ 1,299.50 now".to_string(), "12,50 EUR".to_string()]);
}

#[test]
fn text_content_is_collected() {
    let html = r#"<html><head><title>T</title></head><body>
        <nav><a>Home</a><a>Shirts</a></nav>
        <h1> Linen   Shirt </h1><h2></h2>
        <div class="description">A shirt made of linen, cut wide.</div>
        <div class="description">short</div>
        <table><tr><td>Fabric</td><td>Linen</td></tr></table>
        </body></html>"#;
    let out = extract(html);
    assert_eq!(out.content.headings, vec!["Linen   Shirt".to_string()]);
    assert_eq!(out.content.breadcrumbs, vec!["Home Shirts".to_string()]);
    assert_eq!(out.content.descriptions, vec!["A shirt made of linen, cut wide.".to_string()]);
    assert_eq!(out.content.specifications, vec!["Fabric Linen".to_string()]);
}

#[test]
fn snapshot_over_budget_is_cut_down() {
    let mut body = String::new();
    for i in 0..5 {
        body.push_str(&format!(
            "<div class=\"description\">Description number {} of this product, long enough.</div>",
            i
        ));
        body.push_str(&format!("<div class=\"spec\">Specification number {}</div>", i));
    }
    for i in 0..12 {
        body.push_str(&format!(
            "<div class=\"product\"><img src=\"/media/{}.jpg\"></div>",
            i
        ));
    }
    let html = format!("<html><body>{}</body></html>", body);
    let full = ProductDataExtractor::new(50_000).extract_product_data("https://s.example.com/", &html);
    assert_eq!(full.content.descriptions.len(), 3);
    assert_eq!(full.content.specifications.len(), 3);
    assert_eq!(full.images.len(), 12);
    let cut = ProductDataExtractor::new(10).extract_product_data("https://s.example.com/", &html);
    assert_eq!(cut.content.descriptions.len(), 2);
    assert_eq!(cut.content.specifications.len(), 2);
    assert_eq!(cut.images.len(), 8);
    assert_eq!(cut.images[..], full.images[..8]);
    let mut again = ProductDataExtractor::new(10).extract_product_data("https://s.example.com/", &html);
    again.trim_content();
    assert_eq!(again.images, cut.images);
    assert_eq!(again.content.descriptions, cut.content.descriptions);
}

#[test]
fn snapshot_has_a_json_form() {
    let out = extract("<html><head><title>T</title></head><body><img src='/product/a.jpg'></body></html>");
    let text = render_json(&out.to_json());
    let back = parse_json(&text).expect("the JSON form parses");
    let images = back.get("images").and_then(|v| v.at(0)).expect("one image");
    assert_eq!(
        images.text_at("src").map(|s| s.as_str()),
        Some("https://shop.example.com/product/a.jpg")
    );
    assert!(matches!(images.get("score"), Some(JsonValue::Number(n)) if n == "0"));
    assert!(parse_json("{\"a\": 1,}").is_none());
}
