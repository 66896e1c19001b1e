use product_scraper::text::{
    chars_of, clip, collapse, has, join, replace_all, split_segments, split_words, text_eq, text_of,
    trim,
};

fn chars(s: &str) -> Vec<char> {
    s.chars().collect()
}

#[test]
fn texts_and_characters_convert() {
    assert_eq!(chars_of("a€b"), vec!['a', '€', 'b']);
    assert_eq!(text_of(&vec!['a', '€', 'b']), "a€b");
    assert_eq!(text_of(&Vec::new()), "");
    assert!(text_eq("abc", "abc"));
    assert!(!text_eq("abc", "abd"));
    assert!(!text_eq("abc", "ab"));
}

#[test]
fn patterns_are_found_and_replaced() {
    assert!(has(&chars("hello world"), &chars("lo w")));
    assert!(has(&chars("hello"), &chars("")));
    assert!(!has(&chars("hello"), &chars("hellos")));
    assert!(has(&chars("The Product"), &chars("Prod")));
    assert!(!has(&chars("The Product"), &chars("prod")));
    assert_eq!(replace_all(&chars("aaa"), &chars("aa"), &chars("b")), chars("ba"));
    assert_eq!(replace_all(&chars("WasWas 5"), &chars("Was"), &chars("")), chars(" 5"));
    assert_eq!(replace_all(&chars("abc"), &chars(""), &chars("x")), chars("abc"));
    assert_eq!(replace_all(&chars("a.b.c"), &chars("."), &chars("::")), chars("a::b::c"));
}

#[test]
fn white_space_is_trimmed_and_collapsed() {
    assert_eq!(trim(&chars(" \t\n a b \u{a0}\u{3000}")), chars("a b"));
    assert_eq!(trim(&chars("   ")), chars(""));
    assert_eq!(trim(&chars("")), chars(""));
    assert_eq!(trim(&chars("\u{200b}a")), chars("\u{200b}a"));
    assert_eq!(collapse(&chars("  a \n\n b\tc  ")), chars("a b c"));
    assert_eq!(collapse(&chars(" \n ")), chars(""));
    assert_eq!(split_words(&chars(" a  bc ")), vec![chars("a"), chars("bc")]);
}

#[test]
fn texts_are_split_joined_and_clipped() {
    assert_eq!(split_segments(&chars("/a//b/"), '/'), vec![chars("a"), chars("b")]);
    assert_eq!(split_segments(&chars(""), '/'), Vec::<Vec<char>>::new());
    assert_eq!(join(&vec![chars("a"), chars("b"), chars("c")], &chars(", ")), chars("a, b, c"));
    assert_eq!(join(&vec![chars("a")], &chars(", ")), chars("a"));
    assert_eq!(join(&Vec::new(), &chars(", ")), chars(""));
    assert_eq!(clip(&chars("abcdef"), 3), chars("abc"));
    assert_eq!(clip(&chars("ab"), 3), chars("ab"));
    assert_eq!(clip(&chars("€€€"), 2), chars("€€"));
}
