//! Prices: what a price text, a JSON number or a JSON record is worth.

use crate::json::{member, text_member, Json, JsonValue};
use crate::numbers::{
    all_digits, digit, digit_value, digits_value, extend_capped, floor_decimal, floored_decimal,
    is_minus, parse_digits, scan_digits, small_digits_value, truncate_decimal, truncated_decimal,
};
use crate::text::{
    chars_of, contains, has, has_char, is_ascii_digit, is_space, lemma_first_char_absent,
    lemma_nothing_to_replace, occurs_at, remove_all, removed, replaced_from, text_eq, trim,
    trim_end, trim_start, trimmed,
};
use vstd::prelude::*;

verus! {

/// An amount in whole units and a three-letter currency code, each of which
/// may be absent.
#[derive(Debug)]
pub struct Price {
    pub amount: Option<i32>,
    pub currency: Option<String>,
}

pub struct PriceModel {
    pub amount: Option<int>,
    pub currency: Option<Seq<char>>,
}

impl View for Price {
    type V = PriceModel;

    open spec fn view(&self) -> PriceModel {
        PriceModel {
            amount: match self.amount {
                Some(a) => Some(a as int),
                None => None,
            },
            currency: match self.currency {
                Some(c) => Some(c@),
                None => None,
            },
        }
    }
}

/// The currency symbol that a price text is read by: the first of `A$`, `C$`,
/// `$`, `€`, `£`, `¥`, `₹` that stands in it.
pub open spec fn detected_symbol(s: Seq<char>) -> Option<Seq<char>> {
    if contains(s, "A$"@) {
        Some("A$"@)
    } else if contains(s, "C$"@) {
        Some("C$"@)
    } else if contains(s, "$"@) {
        Some("$"@)
    } else if contains(s, "€"@) {
        Some("€"@)
    } else if contains(s, "£"@) {
        Some("£"@)
    } else if contains(s, "¥"@) {
        Some("¥"@)
    } else if contains(s, "₹"@) {
        Some("₹"@)
    } else {
        None
    }
}

/// The code of the currency that a symbol stands for.
pub open spec fn currency_code(symbol: Seq<char>) -> Seq<char> {
    if symbol == "A$"@ {
        "AUD"@
    } else if symbol == "C$"@ {
        "CAD"@
    } else if symbol == "$"@ {
        "USD"@
    } else if symbol == "€"@ {
        "EUR"@
    } else if symbol == "£"@ {
        "GBP"@
    } else if symbol == "¥"@ {
        "JPY"@
    } else {
        "INR"@
    }
}

/// The ASCII digits of `s`, in order.
pub open spec fn digits_only(s: Seq<char>) -> Seq<char>
    decreases s.len(),
{
    if s.len() == 0 {
        Seq::empty()
    } else if is_ascii_digit(s.last()) {
        digits_only(s.drop_last()).push(s.last())
    } else {
        digits_only(s.drop_last())
    }
}

/// What is left of a price text once `Was`, the currency symbol and the
/// commas are taken out and the ends are trimmed.
pub open spec fn bare_amount(s: Seq<char>) -> Seq<char> {
    let plain = removed(s, "Was"@);
    let unsigned = match detected_symbol(plain) {
        Some(symbol) => removed(plain, symbol),
        None => plain,
    };
    trimmed(removed(unsigned, ","@))
}

/// The amount that a bare text writes: with a point in it, the whole part of
/// the decimal numeral; without one, the number that its digits write.
///
/// The numeral with a point is read exactly, not through a binary
/// floating-point number: `0.99999999999999999999` is worth 0, where a
/// 64-bit float would round it to 1 first. Prices as shops write them, with
/// up to fifteen significant digits, are worth the same either way.
pub open spec fn amount_of(bare: Seq<char>) -> Option<int> {
    if bare.contains('.') {
        truncated_decimal(bare)
    } else {
        small_digits_value(digits_only(bare))
    }
}

/// The price that a text states. The currency is that of the symbol found;
/// without a symbol it is `USD` where an amount was read, and absent otherwise.
pub open spec fn price_of_text(s: Seq<char>) -> PriceModel {
    let amount = amount_of(bare_amount(s));
    PriceModel {
        amount,
        currency: match detected_symbol(removed(s, "Was"@)) {
            Some(symbol) => Some(currency_code(symbol)),
            None => if amount is Some {
                Some("USD"@)
            } else {
                None
            },
        },
    }
}

/// The integer that a JSON number text writes, an optional `-` and digits,
/// where it fits 64 bits. `None` for a number with a fraction or an exponent.
pub open spec fn json_integer(n: Seq<char>) -> Option<int> {
    let a: int = if is_minus(n, 0) {
        1
    } else {
        0
    };
    let ds = n.skip(a);
    let size = digits_value(ds) as int;
    let v = if a == 1 {
        -size
    } else {
        size
    };
    if ds.len() > 0 && all_digits(ds) && i64::MIN <= v <= i64::MAX {
        Some(v)
    } else {
        None
    }
}

/// `v` reduced into the range of a 32-bit signed integer, modulo 2^32.
pub open spec fn wrapped(v: int) -> int {
    (v + 0x8000_0000) % 0x1_0000_0000 - 0x8000_0000
}

/// The price that a JSON value states: a record by its members `amount` (an
/// integer) and `currency` (a text); a number by the greatest integer not
/// above it, in `USD`; a text as [`price_of_text`] reads it; anything else
/// states nothing.
pub open spec fn price_of_tree(tree: Json) -> PriceModel {
    match tree {
        Json::Object(_) => PriceModel {
            amount: match member(tree, "amount"@) {
                Some(Json::Number(n)) => match json_integer(n) {
                    Some(v) => Some(wrapped(v)),
                    None => None,
                },
                _ => None,
            },
            currency: text_member(tree, "currency"@),
        },
        Json::Number(n) => PriceModel { amount: floored_decimal(n), currency: Some("USD"@) },
        Json::Text(t) => price_of_text(t),
        _ => PriceModel { amount: None, currency: None },
    }
}

/// The digit character for a number below ten.
pub open spec fn digit_char(d: nat) -> char {
    if d == 0 {
        '0'
    } else if d == 1 {
        '1'
    } else if d == 2 {
        '2'
    } else if d == 3 {
        '3'
    } else if d == 4 {
        '4'
    } else if d == 5 {
        '5'
    } else if d == 6 {
        '6'
    } else if d == 7 {
        '7'
    } else if d == 8 {
        '8'
    } else {
        '9'
    }
}

/// The decimal digits of a number, without leading zeros.
pub open spec fn decimal_digits(n: nat) -> Seq<char>
    decreases n,
{
    if n < 10 {
        seq![digit_char(n)]
    } else {
        decimal_digits(n / 10).push(digit_char(n % 10))
    }
}

/// The symbol that a price in the currency `code` is written with.
pub open spec fn symbol_of(code: Seq<char>) -> Option<Seq<char>> {
    if code == "AUD"@ {
        Some("A$"@)
    } else if code == "CAD"@ {
        Some("C$"@)
    } else if code == "USD"@ {
        Some("$"@)
    } else if code == "EUR"@ {
        Some("€"@)
    } else if code == "GBP"@ {
        Some("£"@)
    } else if code == "JPY"@ {
        Some("¥"@)
    } else if code == "INR"@ {
        Some("₹"@)
    } else {
        None
    }
}

/// A price written as its currency symbol and the digits of its amount.
/// Only a price with an amount that is not negative and a currency that has
/// a symbol can be written so.
pub open spec fn rendered_price(p: PriceModel) -> Option<Seq<char>> {
    match (p.amount, p.currency) {
        (Some(a), Some(c)) => match symbol_of(c) {
            Some(symbol) => if a >= 0 {
                Some(symbol + decimal_digits(a as nat))
            } else {
                None
            },
            None => None,
        },
        _ => None,
    }
}

pub proof fn lemma_decimal_digits(n: nat)
    ensures
        decimal_digits(n).len() > 0,
        all_digits(decimal_digits(n)),
        digits_value(decimal_digits(n)) == n,
    decreases n,
{
    if n < 10 {
        let d = decimal_digits(n);
        assert(d.drop_last() == Seq::<char>::empty());
        assert(digits_value(d.drop_last()) == 0);
    } else {
        lemma_decimal_digits(n / 10);
        let front = decimal_digits(n / 10);
        let d = front.push(digit_char(n % 10));
        assert(d.drop_last() == front);
        assert(digit_value(digit_char(n % 10)) == n % 10);
    }
}

pub proof fn lemma_digits_only_of_digits(ds: Seq<char>)
    requires
        all_digits(ds),
    ensures
        digits_only(ds) == ds,
    decreases ds.len(),
{
    if ds.len() > 0 {
        assert(all_digits(ds.drop_last())) by {
            assert forall|i: int| 0 <= i < ds.drop_last().len() implies is_ascii_digit(
                #[trigger] ds.drop_last()[i],
            ) by {
                assert(ds.drop_last()[i] == ds[i]);
            }
        }
        lemma_digits_only_of_digits(ds.drop_last());
        assert(ds.drop_last().push(ds.last()) == ds);
    }
}

/// What the steps after the symbol make of a run of digits.
proof fn lemma_amount_of_digits(n: nat)
    requires
        n <= i32::MAX,
    ensures
        amount_of(trimmed(removed(decimal_digits(n), ","@))) == Some(n as int),
{
    let ds = decimal_digits(n);
    lemma_decimal_digits(n);
    reveal_strlit(",");
    assert forall|k: int| 0 <= k < ds.len() implies ds[k] != ","@[0] by {
        assert(is_ascii_digit(ds[k]));
    }
    lemma_first_char_absent(ds, ","@, 0);
    lemma_nothing_to_replace(ds, ","@, Seq::empty(), 0);
    assert(ds.skip(0) == ds);
    assert(is_ascii_digit(ds[0]));
    assert(is_ascii_digit(ds[ds.len() - 1]));
    assert(!is_space(ds.first()));
    assert(!is_space(ds.last()));
    assert(trim_start(ds) == ds);
    assert(trim_end(ds) == ds);
    assert(!ds.contains('.')) by {
        if ds.contains('.') {
            let k = choose|k: int| 0 <= k < ds.len() && ds[k] == '.';
            assert(is_ascii_digit(ds[k]));
        }
    }
    lemma_digits_only_of_digits(ds);
}

/// A text made of a symbol and digits, where the symbol stands only at the front.
proof fn lemma_symbol_then_digits(symbol: Seq<char>, n: nat)
    requires
        symbol.len() > 0,
        !is_ascii_digit(symbol[0]),
        forall|k: int| 0 <= k < symbol.len() ==> symbol[k] != 'W',
    ensures
        removed(symbol + decimal_digits(n), "Was"@) == symbol + decimal_digits(n),
        removed(symbol + decimal_digits(n), symbol) == decimal_digits(n),
        contains(symbol + decimal_digits(n), symbol),
{
    let ds = decimal_digits(n);
    let r = symbol + ds;
    lemma_decimal_digits(n);
    reveal_strlit("Was");
    assert forall|k: int| 0 <= k < r.len() implies r[k] != "Was"@[0] by {
        if k >= symbol.len() {
            assert(is_ascii_digit(ds[k - symbol.len()]));
        }
    }
    lemma_first_char_absent(r, "Was"@, 0);
    lemma_nothing_to_replace(r, "Was"@, Seq::empty(), 0);
    assert(r.skip(0) == r);
    assert(occurs_at(r, symbol, 0));
    let m = symbol.len() as int;
    assert forall|k: int| m <= k < r.len() implies r[k] != symbol[0] by {
        assert(is_ascii_digit(ds[k - m]));
    }
    lemma_first_char_absent(r, symbol, m);
    lemma_nothing_to_replace(r, symbol, Seq::empty(), m);
    assert(r.skip(m) == ds);
    assert(replaced_from(r, symbol, Seq::empty(), 0) == Seq::<char>::empty() + replaced_from(
        r,
        symbol,
        Seq::empty(),
        m,
    ));
    assert(Seq::<char>::empty() + ds == ds);
}

/// A pattern that begins with neither a digit nor a character of the symbol
/// stands nowhere in the symbol followed by digits.
proof fn lemma_lacks(symbol: Seq<char>, ds: Seq<char>, pat: Seq<char>)
    requires
        pat.len() > 0,
        all_digits(ds),
        !is_ascii_digit(pat[0]),
        forall|k: int| 0 <= k < symbol.len() ==> symbol[k] != pat[0],
    ensures
        !contains(symbol + ds, pat),
{
    let r = symbol + ds;
    assert forall|k: int| 0 <= k < r.len() implies r[k] != pat[0] by {
        if k >= symbol.len() {
            assert(is_ascii_digit(ds[k - symbol.len()]));
        }
    }
    lemma_first_char_absent(r, pat, 0);
}

/// The first characters of the seven symbols and of the seven codes.
proof fn lemma_first_chars()
    ensures
        "A$"@.len() > 0 && "A$"@[0] == 'A',
        "C$"@.len() > 0 && "C$"@[0] == 'C',
        "$"@.len() > 0 && "$"@[0] == '$',
        "€"@.len() > 0 && "€"@[0] == '€',
        "£"@.len() > 0 && "£"@[0] == '£',
        "¥"@.len() > 0 && "¥"@[0] == '¥',
        "₹"@.len() > 0 && "₹"@[0] == '₹',
        "AUD"@.len() > 0 && "AUD"@[0] == 'A',
        "CAD"@.len() > 0 && "CAD"@[0] == 'C',
        "USD"@.len() > 0 && "USD"@[0] == 'U',
        "EUR"@.len() > 0 && "EUR"@[0] == 'E',
        "GBP"@.len() > 0 && "GBP"@[0] == 'G',
        "JPY"@.len() > 0 && "JPY"@[0] == 'J',
        "INR"@.len() > 0 && "INR"@[0] == 'I',
{
    reveal_strlit("A$");
    reveal_strlit("C$");
    reveal_strlit("$");
    reveal_strlit("€");
    reveal_strlit("£");
    reveal_strlit("¥");
    reveal_strlit("₹");
    reveal_strlit("AUD");
    reveal_strlit("CAD");
    reveal_strlit("USD");
    reveal_strlit("EUR");
    reveal_strlit("GBP");
    reveal_strlit("JPY");
    reveal_strlit("INR");
}

/// Each code has the symbol that stands for it, and each symbol its code.
proof fn lemma_code_table()
    ensures
        symbol_of("AUD"@) == Some("A$"@),
        symbol_of("CAD"@) == Some("C$"@),
        symbol_of("USD"@) == Some("$"@),
        symbol_of("EUR"@) == Some("€"@),
        symbol_of("GBP"@) == Some("£"@),
        symbol_of("JPY"@) == Some("¥"@),
        symbol_of("INR"@) == Some("₹"@),
        currency_code("A$"@) == "AUD"@,
        currency_code("C$"@) == "CAD"@,
        currency_code("$"@) == "USD"@,
        currency_code("€"@) == "EUR"@,
        currency_code("£"@) == "GBP"@,
        currency_code("¥"@) == "JPY"@,
        currency_code("₹"@) == "INR"@,
{
    lemma_first_chars();
}

/// `A$` before digits is the symbol that the text is read by.
proof fn lemma_detects_aud(ds: Seq<char>)
    requires
        all_digits(ds),
    ensures
        detected_symbol("A$"@ + ds) == Some("A$"@),
{
    lemma_first_chars();
    let symbol = "A$"@;
    reveal_strlit("A$");
    assert(occurs_at(symbol + ds, symbol, 0));
}

/// `C$` before digits is the symbol that the text is read by.
proof fn lemma_detects_cad(ds: Seq<char>)
    requires
        all_digits(ds),
    ensures
        detected_symbol("C$"@ + ds) == Some("C$"@),
{
    lemma_first_chars();
    let symbol = "C$"@;
    reveal_strlit("C$");
    lemma_lacks(symbol, ds, "A$"@);
    assert(occurs_at(symbol + ds, symbol, 0));
}

/// `$` before digits is the symbol that the text is read by.
proof fn lemma_detects_usd(ds: Seq<char>)
    requires
        all_digits(ds),
    ensures
        detected_symbol("$"@ + ds) == Some("$"@),
{
    lemma_first_chars();
    let symbol = "$"@;
    reveal_strlit("$");
    lemma_lacks(symbol, ds, "A$"@);
    lemma_lacks(symbol, ds, "C$"@);
    assert(occurs_at(symbol + ds, symbol, 0));
}

/// `€` before digits is the symbol that the text is read by.
proof fn lemma_detects_eur(ds: Seq<char>)
    requires
        all_digits(ds),
    ensures
        detected_symbol("€"@ + ds) == Some("€"@),
{
    lemma_first_chars();
    let symbol = "€"@;
    reveal_strlit("€");
    lemma_lacks(symbol, ds, "A$"@);
    lemma_lacks(symbol, ds, "C$"@);
    lemma_lacks(symbol, ds, "$"@);
    assert(occurs_at(symbol + ds, symbol, 0));
}

/// `£` before digits is the symbol that the text is read by.
proof fn lemma_detects_gbp(ds: Seq<char>)
    requires
        all_digits(ds),
    ensures
        detected_symbol("£"@ + ds) == Some("£"@),
{
    lemma_first_chars();
    let symbol = "£"@;
    reveal_strlit("£");
    lemma_lacks(symbol, ds, "A$"@);
    lemma_lacks(symbol, ds, "C$"@);
    lemma_lacks(symbol, ds, "$"@);
    lemma_lacks(symbol, ds, "€"@);
    assert(occurs_at(symbol + ds, symbol, 0));
}

/// `¥` before digits is the symbol that the text is read by.
proof fn lemma_detects_jpy(ds: Seq<char>)
    requires
        all_digits(ds),
    ensures
        detected_symbol("¥"@ + ds) == Some("¥"@),
{
    lemma_first_chars();
    let symbol = "¥"@;
    reveal_strlit("¥");
    lemma_lacks(symbol, ds, "A$"@);
    lemma_lacks(symbol, ds, "C$"@);
    lemma_lacks(symbol, ds, "$"@);
    lemma_lacks(symbol, ds, "€"@);
    lemma_lacks(symbol, ds, "£"@);
    assert(occurs_at(symbol + ds, symbol, 0));
}

/// `₹` before digits is the symbol that the text is read by.
proof fn lemma_detects_inr(ds: Seq<char>)
    requires
        all_digits(ds),
    ensures
        detected_symbol("₹"@ + ds) == Some("₹"@),
{
    lemma_first_chars();
    let symbol = "₹"@;
    reveal_strlit("₹");
    lemma_lacks(symbol, ds, "A$"@);
    lemma_lacks(symbol, ds, "C$"@);
    lemma_lacks(symbol, ds, "$"@);
    lemma_lacks(symbol, ds, "€"@);
    lemma_lacks(symbol, ds, "£"@);
    lemma_lacks(symbol, ds, "¥"@);
    assert(occurs_at(symbol + ds, symbol, 0));
}

/// Reading back a price that was written as its symbol and its amount gives
/// the same price: for every price `p` that [`rendered_price`] can write and
/// whose amount fits 32 bits, `price_of_text(rendered_price(p)) == p`.
pub proof fn lemma_price_round_trip(p: PriceModel)
    requires
        rendered_price(p) is Some,
        p.amount->0 <= i32::MAX,
    ensures
        price_of_text(rendered_price(p)->0) == p,
{
    let n = p.amount->0 as nat;
    let code = p.currency->0;
    let symbol = symbol_of(code)->0;
    let ds = decimal_digits(n);
    lemma_decimal_digits(n);
    lemma_amount_of_digits(n);
    if code == "AUD"@ {
        lemma_detects_aud(ds);
    } else if code == "CAD"@ {
        lemma_detects_cad(ds);
    } else if code == "USD"@ {
        lemma_detects_usd(ds);
    } else if code == "EUR"@ {
        lemma_detects_eur(ds);
    } else if code == "GBP"@ {
        lemma_detects_gbp(ds);
    } else if code == "JPY"@ {
        lemma_detects_jpy(ds);
    } else {
        lemma_detects_inr(ds);
    }
    lemma_code_table();
    assert(detected_symbol(symbol + ds) == Some(symbol));
    assert(currency_code(symbol) == code);
    assert(symbol.len() > 0 && !is_ascii_digit(symbol[0]) && forall|k: int|
        0 <= k < symbol.len() ==> symbol[k] != 'W') by {
        reveal_strlit("A$");
        reveal_strlit("C$");
        reveal_strlit("$");
        reveal_strlit("€");
        reveal_strlit("£");
        reveal_strlit("¥");
        reveal_strlit("₹");
    }
    lemma_symbol_then_digits(symbol, n);
}

/// Every amount that a price text yields fits 32 bits.
pub proof fn lemma_amount_fits(s: Seq<char>)
    ensures
        price_of_text(s).amount matches Some(a) ==> i32::MIN <= a <= i32::MAX,
{
}

/// Writing the price read from a text and reading it again changes nothing:
/// `price_of_text(rendered_price(price_of_text(s))) == price_of_text(s)`
/// wherever the price read from `s` can be written, that is, has a currency
/// with a symbol and an amount that is not negative.
pub proof fn lemma_price_text_settles(s: Seq<char>)
    requires
        rendered_price(price_of_text(s)) is Some,
    ensures
        price_of_text(rendered_price(price_of_text(s))->0) == price_of_text(s),
{
    lemma_amount_fits(s);
    lemma_price_round_trip(price_of_text(s));
}

fn keep_digits(s: &Vec<char>) -> (out: Vec<char>)
    ensures
        out@ == digits_only(s@),
{
    let mut out: Vec<char> = Vec::new();
    let mut i: usize = 0;
    assert(s@.take(0) == Seq::<char>::empty());
    while i < s.len()
        invariant
            i <= s.len(),
            out@ == digits_only(s@.take(i as int)),
        decreases s.len() - i,
    {
        assert(s@.take(i + 1).drop_last() == s@.take(i as int));
        if digit(s[i]) {
            out.push(s[i]);
        }
        i += 1;
    }
    assert(s@.take(s.len() as int) == s@);
    out
}

/// Takes `symbol` out of `s` where it stands in it.
fn strip_symbol(s: &Vec<char>, symbol: &str) -> (out: Option<Vec<char>>)
    ensures
        match out {
            Some(rest) => contains(s@, symbol@) && rest@ == removed(s@, symbol@),
            None => !contains(s@, symbol@),
        },
{
    let pat = chars_of(symbol);
    if has(s, &pat) {
        Some(remove_all(s, &pat))
    } else {
        None
    }
}

fn read_amount(bare: &Vec<char>) -> (out: Option<i32>)
    ensures
        match out {
            Some(v) => amount_of(bare@) == Some(v as int),
            None => amount_of(bare@) is None,
        },
{
    if has_char(bare, '.') {
        truncate_decimal(bare)
    } else {
        let ds = keep_digits(bare);
        parse_digits(&ds)
    }
}

fn finish_price(unsigned: &Vec<char>, code: Option<&str>) -> (out: Price)
    ensures
        out@.amount == amount_of(trimmed(removed(unsigned@, ","@))),
        out@.currency == match code {
            Some(c) => Some(c@),
            None => if out@.amount is Some {
                Some("USD"@)
            } else {
                None
            },
        },
{
    let comma = chars_of(",");
    let bare = trim(&remove_all(unsigned, &comma));
    let amount = read_amount(&bare);
    let currency = match code {
        Some(c) => Some(c.to_string()),
        None => if amount.is_some() {
            Some("USD".to_string())
        } else {
            None
        },
    };
    Price { amount, currency }
}

/// Reads a price text.
pub fn parse_price_string(s: &str) -> (out: Price)
    ensures
        out@ == price_of_text(s@),
{
    let was = chars_of("Was");
    let plain = remove_all(&chars_of(s), &was);
    if let Some(rest) = strip_symbol(&plain, "A$") {
        finish_price(&rest, Some("AUD"))
    } else if let Some(rest) = strip_symbol(&plain, "C$") {
        finish_price(&rest, Some("CAD"))
    } else if let Some(rest) = strip_symbol(&plain, "$") {
        finish_price(&rest, Some("USD"))
    } else if let Some(rest) = strip_symbol(&plain, "€") {
        finish_price(&rest, Some("EUR"))
    } else if let Some(rest) = strip_symbol(&plain, "£") {
        finish_price(&rest, Some("GBP"))
    } else if let Some(rest) = strip_symbol(&plain, "¥") {
        finish_price(&rest, Some("JPY"))
    } else if let Some(rest) = strip_symbol(&plain, "₹") {
        finish_price(&rest, Some("INR"))
    } else {
        finish_price(&plain, None)
    }
}

fn digit_for(d: u32) -> (c: char)
    requires
        d < 10,
    ensures
        c == digit_char(d as nat),
{
    if d == 0 {
        '0'
    } else if d == 1 {
        '1'
    } else if d == 2 {
        '2'
    } else if d == 3 {
        '3'
    } else if d == 4 {
        '4'
    } else if d == 5 {
        '5'
    } else if d == 6 {
        '6'
    } else if d == 7 {
        '7'
    } else if d == 8 {
        '8'
    } else {
        '9'
    }
}

/// The decimal digits of a number.
pub fn digits_of(n: u32) -> (out: Vec<char>)
    ensures
        out@ == decimal_digits(n as nat),
    decreases n,
{
    if n < 10 {
        let out: Vec<char> = vec![digit_for(n)];
        assert(out@ =~= seq![digit_char(n as nat)]);
        out
    } else {
        let mut out = digits_of(n / 10);
        out.push(digit_for(n % 10));
        out
    }
}

fn symbol_for(code: &str) -> (out: Option<&'static str>)
    ensures
        match out {
            Some(s) => symbol_of(code@) == Some(s@),
            None => symbol_of(code@) is None,
        },
{
    if text_eq(code, "AUD") {
        Some("A$")
    } else if text_eq(code, "CAD") {
        Some("C$")
    } else if text_eq(code, "USD") {
        Some("$")
    } else if text_eq(code, "EUR") {
        Some("€")
    } else if text_eq(code, "GBP") {
        Some("£")
    } else if text_eq(code, "JPY") {
        Some("¥")
    } else if text_eq(code, "INR") {
        Some("₹")
    } else {
        None
    }
}

impl Price {
    /// A copy of this price.
    pub fn copy(&self) -> (out: Price)
        ensures
            out@ == self@,
    {
        Price {
            amount: self.amount,
            currency: match &self.currency {
                Some(c) => Some(c.clone()),
                None => None,
            },
        }
    }

    /// The price written as its currency symbol and the digits of its
    /// amount, where it has an amount that is not negative and a currency
    /// that has a symbol.
    pub fn render(&self) -> (out: Option<String>)
        ensures
            match out {
                Some(t) => rendered_price(self@) == Some(t@),
                None => rendered_price(self@) is None,
            },
    {
        match (self.amount, &self.currency) {
            (Some(a), Some(c)) => match symbol_for(c.as_str()) {
                Some(symbol) => {
                    if a >= 0 {
                        let mut out = chars_of(symbol);
                        crate::text::append(&mut out, &digits_of(a as u32));
                        Some(crate::text::text_of(&out))
                    } else {
                        None
                    }
                },
                None => None,
            },
            _ => None,
        }
    }
}

fn read_json_integer(n: &Vec<char>) -> (out: Option<i64>)
    ensures
        match out {
            Some(v) => json_integer(n@) == Some(v as int),
            None => json_integer(n@) is None,
        },
{
    let len: usize = n.len();
    let a: usize = if len > 0 && n[0] == '-' { 1 } else { 0 };
    let b: usize = scan_digits(n, a);
    assert(n@.skip(a as int) == n@.subrange(a as int, len as int));
    if b != len || a == len {
        proof {
            if b < len {
                assert(n@.skip(a as int)[b - a] == n@[b as int]);
            }
        }
        return None;
    }
    let ghost none = Seq::<char>::empty();
    assert(none + n@.subrange(a as int, b as int) == n@.subrange(a as int, b as int));
    let size: u128 = extend_capped(0, n, a, b, 0x8000_0000_0000_0001, Ghost(none));
    if a == 1 {
        if size > 0x8000_0000_0000_0000 {
            None
        } else {
            Some((-(size as i128)) as i64)
        }
    } else if size > 0x7fff_ffff_ffff_ffff {
        None
    } else {
        Some(size as i64)
    }
}

fn wrap32(v: i64) -> (out: i32)
    ensures
        out == wrapped(v as int),
{
    let shifted: u128 = (v as i128 + 0x8000_0000_0000_0000 + 0x8000_0000) as u128;
    let low: u128 = shifted % 0x1_0000_0000;
    (low as i64 - 0x8000_0000) as i32
}

/// Reads the price that a JSON value states.
pub fn parse_price(value: &JsonValue) -> (out: Price)
    ensures
        out@ == price_of_tree(value@),
{
    match value {
        JsonValue::Object(_) => {
            let amount = match value.get("amount") {
                Some(JsonValue::Number(n)) => match read_json_integer(&chars_of(n.as_str())) {
                    Some(v) => Some(wrap32(v)),
                    None => None,
                },
                _ => None,
            };
            let currency = match value.text_at("currency") {
                Some(c) => Some(c.clone()),
                None => None,
            };
            Price { amount, currency }
        },
        JsonValue::Number(n) => Price {
            amount: floor_decimal(&chars_of(n.as_str())),
            currency: Some("USD".to_string()),
        },
        JsonValue::Text(t) => parse_price_string(t.as_str()),
        _ => Price { amount: None, currency: None },
    }
}

} // verus!
