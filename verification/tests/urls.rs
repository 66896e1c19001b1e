use product_scraper::urls::{
    clean_product_url, clean_url_path, normalize_domain, normalize_url_path, strip_to_path,
    urls_match_product,
};

#[test]
fn domain_is_lowercased_and_stripped() {
    assert_eq!(normalize_domain("https://WWW.Shop.Example.com/x").as_deref(), Some("shop.example.com"));
    assert_eq!(normalize_domain("mailto:a@b.c"), None);
    assert_eq!(normalize_domain("not a url"), None);
}

#[test]
fn locale_segments_are_removed() {
    assert_eq!(
        normalize_url_path("https://shop.example.com/en-US/products/x?pid=1#top").as_deref(),
        Some("https://shop.example.com/products/x")
    );
    assert_eq!(
        normalize_url_path("https://shop.example.com/fr_FR/products/x").as_deref(),
        Some("https://shop.example.com/products/x")
    );
    assert_eq!(
        normalize_url_path("https://shop.example.com/foo-bar/x").as_deref(),
        Some("https://shop.example.com/foo-bar/x")
    );
    assert_eq!(normalize_url_path("https://shop.example.com").as_deref(), Some("https://shop.example.com/"));
    assert_eq!(normalize_url_path("nonsense"), None);
}

#[test]
fn path_cleaning_is_idempotent_on_examples() {
    for p in ["/a//en-US/b/", "", "/", "/xx-yy", "a/b"] {
        let once = clean_url_path(p);
        assert_eq!(clean_url_path(&once), once);
    }
    assert_eq!(clean_url_path("/a//en-US/b/"), "/a/b");
    assert_eq!(clean_url_path(""), "/");
}

#[test]
fn url_normalising_is_idempotent_on_examples() {
    for u in [
        "https://shop.example.com/en-US/products/x?pid=1#top",
        "http://WWW.Example.com/a//b/../c/fr_FR/?q=1",
        "https://shop.example.com",
        "https://user:pw@shop.example.com:8443/de-DE/x%20y/",
    ] {
        let once = normalize_url_path(u).expect("a URL");
        assert_eq!(normalize_url_path(&once).as_deref(), Some(once.as_str()));
    }
}

#[test]
fn url_without_a_hierarchy_grows_when_normalised() {
    let once = normalize_url_path("mailto:a@b").expect("a URL");
    let twice = normalize_url_path(&once).expect("a URL");
    assert_eq!(once, "mailto:%2Fa@b");
    assert_eq!(twice, "mailto:%2F%2Fa@b");
}

#[test]
fn product_urls_match_across_locales() {
    assert!(urls_match_product(
        "https://shop.example.com/en-US/products/x?pid=1",
        "https://www.shop.example.com/fr_FR/products/x?utm=1"
    ));
    assert!(!urls_match_product("https://a.example.com/x", "https://b.example.com/x"));
    assert!(!urls_match_product("https://a.example.com/x", "https://a.example.com/y"));
    assert!(!urls_match_product("nonsense", "nonsense"));
    assert!(urls_match_product("http://a.example.com/x", "http://a.example.com/x"));
}

#[test]
fn product_query_is_kept() {
    assert_eq!(
        clean_product_url("https://s.example.com/p?utm_source=x&PID=12&color=red&id=a%20b#frag"),
        "https://s.example.com/p?PID=12&id=a%20b"
    );
    assert_eq!(clean_product_url("https://s.example.com/p?utm=1#f"), "https://s.example.com/p");
    assert_eq!(clean_product_url("nonsense"), "nonsense");
}

#[test]
fn classification_url_has_no_query() {
    assert_eq!(strip_to_path("https://s.example.com/a/b?x=1#y"), "https://s.example.com/a/b");
    assert_eq!(strip_to_path("nonsense"), "nonsense");
}
