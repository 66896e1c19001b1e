use product_scraper::json::{JsonValue, Member};
use product_scraper::numbers::{parse_int, truncate_decimal};
use product_scraper::price::{digits_of, parse_price, parse_price_string, Price};

fn price(amount: Option<i32>, currency: Option<&str>) -> (Option<i32>, Option<String>) {
    (amount, currency.map(String::from))
}

fn read(s: &str) -> (Option<i32>, Option<String>) {
    let p = parse_price_string(s);
    (p.amount, p.currency)
}

fn chars(s: &str) -> Vec<char> {
    s.chars().collect()
}

#[test]
fn price_text_with_each_symbol() {
    assert_eq!(read("A$1,299.50"), price(Some(1299), Some("AUD")));
    assert_eq!(read("C$10"), price(Some(10), Some("CAD")));
    assert_eq!(read("$45.00"), price(Some(45), Some("USD")));
    assert_eq!(read("€850"), price(Some(850), Some("EUR")));
    assert_eq!(read("£5"), price(Some(5), Some("GBP")));
    assert_eq!(read("¥1000"), price(Some(1000), Some("JPY")));
    assert_eq!(read("₹2,699"), price(Some(2699), Some("INR")));
}

#[test]
fn price_text_truncates_the_fraction() {
    assert_eq!(read("$4.99"), price(Some(4), Some("USD")));
    assert_eq!(read("  12.50 "), price(Some(12), Some("USD")));
    assert_eq!(read("$.5"), price(Some(0), Some("USD")));
    assert_eq!(read("$5."), price(Some(5), Some("USD")));
    assert_eq!(read("1.5e3"), price(Some(1500), Some("USD")));
    assert_eq!(read("-5.5"), price(Some(-5), Some("USD")));
}

#[test]
fn price_text_is_read_exactly() {
    assert_eq!(read("0.99999999999999999999"), price(Some(0), Some("USD")));
    assert_eq!(read("$2147483646.99999999999999999"), price(Some(2147483646), Some("USD")));
    assert_eq!(read("1299.999999999999"), price(Some(1299), Some("USD")));
}

#[test]
fn price_text_without_amount() {
    assert_eq!(read("abc"), price(None, None));
    assert_eq!(read(""), price(None, None));
    assert_eq!(read("$"), price(None, Some("USD")));
    assert_eq!(read("12.50 USD"), price(None, None));
    assert_eq!(read("99999999999"), price(None, None));
    assert_eq!(read("1.2.3"), price(None, None));
}

#[test]
fn price_text_keeps_only_digits_without_a_point() {
    assert_eq!(read("Was now 25 only"), price(Some(25), Some("USD")));
    assert_eq!(read("$-5"), price(Some(5), Some("USD")));
    assert_eq!(read("2147483647"), price(Some(2147483647), Some("USD")));
    assert_eq!(read("2147483648"), price(None, None));
}

#[test]
fn price_text_saturates() {
    assert_eq!(read("$99999999999.5"), price(Some(i32::MAX), Some("USD")));
    assert_eq!(read("-99999999999.5"), price(Some(i32::MIN), Some("USD")));
    assert_eq!(read("1.0e400"), price(Some(i32::MAX), Some("USD")));
    assert_eq!(read("1.0e-400"), price(Some(0), Some("USD")));
    assert_eq!(read("0.0e99999999999999999999999999"), price(Some(0), Some("USD")));
}

#[test]
fn whole_part_of_decimals() {
    assert_eq!(truncate_decimal(&chars("1299.50")), Some(1299));
    assert_eq!(truncate_decimal(&chars("+7")), Some(7));
    assert_eq!(truncate_decimal(&chars("12345e-2")), Some(123));
    assert_eq!(truncate_decimal(&chars("0.00123E3")), Some(1));
    assert_eq!(truncate_decimal(&chars("1e21")), Some(i32::MAX));
    assert_eq!(truncate_decimal(&chars("-2147483648.9")), Some(i32::MIN));
    assert_eq!(truncate_decimal(&chars(".")), None);
    assert_eq!(truncate_decimal(&chars("1e")), None);
    assert_eq!(truncate_decimal(&chars("1e+")), None);
    assert_eq!(truncate_decimal(&chars(" 1")), None);
    assert_eq!(truncate_decimal(&chars("inf")), None);
}

#[test]
fn integers_are_read_whole() {
    assert_eq!(parse_int(&chars("100")), Some(100));
    assert_eq!(parse_int(&chars("+99")), Some(99));
    assert_eq!(parse_int(&chars("-2147483648")), Some(i32::MIN));
    assert_eq!(parse_int(&chars("2147483648")), None);
    assert_eq!(parse_int(&chars("")), None);
    assert_eq!(parse_int(&chars("-")), None);
    assert_eq!(parse_int(&chars("1 ")), None);
    assert_eq!(parse_int(&chars("1.0")), None);
}

fn number(text: &str) -> JsonValue {
    JsonValue::Number(text.to_string())
}

fn record(members: Vec<(&str, JsonValue)>) -> JsonValue {
    JsonValue::Object(
        members.into_iter().map(|(k, v)| Member { key: k.to_string(), value: v }).collect(),
    )
}

fn stated(v: &JsonValue) -> (Option<i32>, Option<String>) {
    let p = parse_price(v);
    (p.amount, p.currency)
}

#[test]
fn price_of_a_number() {
    assert_eq!(stated(&number("45")), price(Some(45), Some("USD")));
    assert_eq!(stated(&number("45.9")), price(Some(45), Some("USD")));
    assert_eq!(stated(&number("1e21")), price(Some(i32::MAX), Some("USD")));
    assert_eq!(stated(&number("-3.7")), price(Some(-4), Some("USD")));
    assert_eq!(stated(&number("-3.0")), price(Some(-3), Some("USD")));
    assert_eq!(stated(&number("-0.5")), price(Some(-1), Some("USD")));
    assert_eq!(stated(&number("-1e-5")), price(Some(-1), Some("USD")));
    assert_eq!(stated(&number("-25e-1")), price(Some(-3), Some("USD")));
    assert_eq!(stated(&number("-1e21")), price(Some(i32::MIN), Some("USD")));
    assert_eq!(stated(&number("-2147483648.5")), price(Some(i32::MIN), Some("USD")));
    assert_eq!(stated(&number("nonsense")), price(None, Some("USD")));
}

#[test]
fn price_of_a_record() {
    let v = record(vec![("amount", number("45")), ("currency", JsonValue::Text("EUR".to_string()))]);
    assert_eq!(stated(&v), price(Some(45), Some("EUR")));
    let v = record(vec![("amount", number("45.0"))]);
    assert_eq!(stated(&v), price(None, None));
    let v = record(vec![("amount", number("4294967297"))]);
    assert_eq!(stated(&v), price(Some(1), None));
    let v = record(vec![("amount", number("-2147483649"))]);
    assert_eq!(stated(&v), price(Some(i32::MAX), None));
    let v = record(vec![("amount", number("9223372036854775808"))]);
    assert_eq!(stated(&v), price(None, None));
    let v = record(vec![("amount", JsonValue::Text("45".to_string()))]);
    assert_eq!(stated(&v), price(None, None));
}

#[test]
fn price_of_other_values() {
    assert_eq!(stated(&JsonValue::Text("Was A$1,299.50".to_string())), price(Some(1299), Some("AUD")));
    assert_eq!(stated(&JsonValue::Null), price(None, None));
    assert_eq!(stated(&JsonValue::Bool(true)), price(None, None));
    assert_eq!(stated(&JsonValue::Array(vec![number("5")])), price(None, None));
}

#[test]
fn digits_of_numbers() {
    assert_eq!(digits_of(0), chars("0"));
    assert_eq!(digits_of(7), chars("7"));
    assert_eq!(digits_of(1299), chars("1299"));
    assert_eq!(digits_of(u32::MAX), chars("4294967295"));
}

#[test]
fn rendered_price_reads_back() {
    for s in ["Was A$1,299.50", "C$10", "$45.00", "€850", "£5", "¥1000", "₹2,699", "12", "$0.99"] {
        let first = parse_price_string(s);
        let text = first.render().expect("a price with symbol and amount");
        let second = parse_price_string(&text);
        assert_eq!((second.amount, second.currency), (first.amount, first.currency));
    }
    let p = Price { amount: Some(1299), currency: Some("AUD".to_string()) };
    assert_eq!(p.render().as_deref(), Some("A$1299"));
    let p = Price { amount: Some(-5), currency: Some("USD".to_string()) };
    assert_eq!(p.render(), None);
    let p = Price { amount: Some(5), currency: Some("CHF".to_string()) };
    assert_eq!(p.render(), None);
    let p = Price { amount: None, currency: Some("USD".to_string()) };
    assert_eq!(p.render(), None);
}
