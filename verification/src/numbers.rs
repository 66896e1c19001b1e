//! Decimal numerals: what a run of digits is worth, and the whole part of a
//! numeral with a fraction and an exponent.

use crate::text::is_ascii_digit;
use vstd::prelude::*;

verus! {

pub open spec fn digit_value(c: char) -> nat {
    (c as int - '0' as int) as nat
}

/// The number that a run of decimal digits writes.
pub open spec fn digits_value(ds: Seq<char>) -> nat
    decreases ds.len(),
{
    if ds.len() == 0 {
        0
    } else {
        digits_value(ds.drop_last()) * 10 + digit_value(ds.last())
    }
}

pub open spec fn all_digits(ds: Seq<char>) -> bool {
    forall|i: int| 0 <= i < ds.len() ==> is_ascii_digit(#[trigger] ds[i])
}

/// Where the run of digits that begins at `i` ends.
pub open spec fn digit_run_end(s: Seq<char>, i: int) -> int
    decreases s.len() - i,
{
    if 0 <= i < s.len() && is_ascii_digit(s[i]) {
        digit_run_end(s, i + 1)
    } else {
        i
    }
}

pub open spec fn pow10(k: nat) -> nat
    decreases k,
{
    if k == 0 {
        1
    } else {
        10 * pow10((k - 1) as nat)
    }
}

/// 1 where `s` has a sign at position `i`, else 0.
pub open spec fn sign_len(s: Seq<char>, i: int) -> int {
    if 0 <= i < s.len() && (s[i] == '+' || s[i] == '-') {
        1
    } else {
        0
    }
}

pub open spec fn is_minus(s: Seq<char>, i: int) -> bool {
    0 <= i < s.len() && s[i] == '-'
}

/// A decimal numeral taken apart: its sign, its digits without the point, and
/// how many of them stand before the point once the exponent is applied.
pub struct Decimal {
    pub negative: bool,
    pub digits: Seq<char>,
    pub point: int,
}

/// The numeral that `s` writes: an optional sign, digits with at most one
/// point among them (at least one digit), and an optional exponent, which is
/// `e` or `E`, an optional sign and at least one digit. `None` for any other text.
pub open spec fn parse_decimal(s: Seq<char>) -> Option<Decimal> {
    let a = sign_len(s, 0);
    let b = digit_run_end(s, a);
    let c = if b < s.len() && s[b] == '.' {
        b + 1
    } else {
        b
    };
    let d = digit_run_end(s, c);
    let digits = s.subrange(a, b) + s.subrange(c, d);
    let negative = is_minus(s, 0);
    if digits.len() == 0 {
        None
    } else if d == s.len() {
        Some(Decimal { negative, digits, point: b - a })
    } else if s[d] == 'e' || s[d] == 'E' {
        let e = d + 1 + sign_len(s, d + 1);
        let f = digit_run_end(s, e);
        if f == s.len() && e < f {
            let size = digits_value(s.subrange(e, f)) as int;
            let exponent = if is_minus(s, d + 1) {
                -size
            } else {
                size
            };
            Some(Decimal { negative, digits, point: b - a + exponent })
        } else {
            None
        }
    } else {
        None
    }
}

/// The size of the whole part: the number written by the digits that stand
/// before the point.
pub open spec fn whole_size(digits: Seq<char>, point: int) -> nat {
    if point <= 0 {
        0
    } else if point <= digits.len() {
        digits_value(digits.take(point))
    } else {
        digits_value(digits) * pow10((point - digits.len()) as nat)
    }
}

/// `x` where it fits a 32-bit signed integer, else the nearest bound.
pub open spec fn saturated(x: int) -> int {
    if x > i32::MAX {
        i32::MAX as int
    } else if x < i32::MIN {
        i32::MIN as int
    } else {
        x
    }
}

/// The whole part of the numeral that `s` writes, rounded toward zero and
/// saturated to 32 bits. `None` where `s` is no numeral.
///
/// The numeral is read exactly, digit by digit, not through a binary
/// floating-point number. The two readings differ where the nearest
/// floating-point number lies across an integer from the numeral:
/// `0.99999999999999999999` has the whole part 0 here, while the nearest
/// 64-bit float is 1. A numeral of up to fifteen significant digits is read
/// alike both ways.
pub open spec fn truncated_decimal(s: Seq<char>) -> Option<int> {
    match parse_decimal(s) {
        Some(d) => Some(
            saturated(
                if d.negative {
                    -(whole_size(d.digits, d.point) as int)
                } else {
                    whole_size(d.digits, d.point) as int
                },
            ),
        ),
        None => None,
    }
}

/// Whether a digit other than `0` stands behind the point.
pub open spec fn has_fraction(digits: Seq<char>, point: int) -> bool {
    exists|i: int| 0 <= i < digits.len() && point <= i && #[trigger] digits[i] != '0'
}

/// The greatest integer that is not above the numeral that `s` writes,
/// saturated to 32 bits. `None` where `s` is no numeral. The numeral is read
/// exactly, as for [`truncated_decimal`].
pub open spec fn floored_decimal(s: Seq<char>) -> Option<int> {
    match parse_decimal(s) {
        Some(d) => Some(
            saturated(
                if d.negative {
                    -(whole_size(d.digits, d.point) as int) - if has_fraction(d.digits, d.point) {
                        1int
                    } else {
                        0int
                    }
                } else {
                    whole_size(d.digits, d.point) as int
                },
            ),
        ),
        None => None,
    }
}

/// The integer that `s` writes, an optional sign and at least one digit,
/// where it fits 32 bits. `None` otherwise.
pub open spec fn int_of_text(s: Seq<char>) -> Option<int> {
    let a = sign_len(s, 0);
    let ds = s.skip(a);
    let size = digits_value(ds) as int;
    let n = if is_minus(s, 0) {
        -size
    } else {
        size
    };
    if ds.len() > 0 && all_digits(ds) && i32::MIN <= n <= i32::MAX {
        Some(n)
    } else {
        None
    }
}

/// The number that a run of digits writes, where it fits 32 bits.
pub open spec fn small_digits_value(ds: Seq<char>) -> Option<int> {
    if ds.len() > 0 && all_digits(ds) && digits_value(ds) <= i32::MAX {
        Some(digits_value(ds) as int)
    } else {
        None
    }
}

pub proof fn lemma_digits_value_push(ds: Seq<char>, c: char)
    ensures
        digits_value(ds.push(c)) == digits_value(ds) * 10 + digit_value(c),
{
    assert(ds.push(c).drop_last() == ds);
}

pub proof fn lemma_pow10_grows(a: nat, b: nat)
    requires
        a <= b,
    ensures
        1 <= pow10(a) <= pow10(b),
    decreases b,
{
    if b == 0 {
    } else if a == b {
        lemma_pow10_grows((a - 1) as nat, (b - 1) as nat);
    } else {
        lemma_pow10_grows(a, (b - 1) as nat);
    }
}

pub proof fn lemma_pow10_ten()
    ensures
        pow10(10) == 10_000_000_000,
{
    reveal_with_fuel(pow10, 11);
}

pub fn digit(c: char) -> (r: bool)
    ensures
        r == is_ascii_digit(c),
{
    '0' <= c && c <= '9'
}

fn digit_number(c: char) -> (r: u8)
    requires
        is_ascii_digit(c),
    ensures
        r == digit_value(c),
        r <= 9,
{
    (c as u32 - '0' as u32) as u8
}

/// Scans the digits that begin at `i`.
pub fn scan_digits(s: &Vec<char>, i: usize) -> (j: usize)
    requires
        i <= s.len(),
    ensures
        j == digit_run_end(s@, i as int),
        i <= j <= s.len(),
        all_digits(s@.subrange(i as int, j as int)),
        j < s.len() ==> !is_ascii_digit(s@[j as int]),
{
    let mut j: usize = i;
    while j < s.len() && digit(s[j])
        invariant
            i <= j <= s.len(),
            digit_run_end(s@, i as int) == digit_run_end(s@, j as int),
            all_digits(s@.subrange(i as int, j as int)),
        decreases s.len() - j,
    {
        j += 1;
    }
    j
}

pub open spec fn capped(v: nat, cap: nat) -> nat {
    if v <= cap {
        v
    } else {
        cap
    }
}

/// Extends a capped value by the digits `s[from..to]`.
pub(crate) fn extend_capped(acc: u128, s: &Vec<char>, from: usize, to: usize, cap: u128, Ghost(
    before,
): Ghost<Seq<char>>) -> (out: u128)
    requires
        from <= to <= s.len(),
        all_digits(s@.subrange(from as int, to as int)),
        cap <= 0x1000_0000_0000_0000_0000_0000,
        acc == capped(digits_value(before), cap as nat),
    ensures
        out == capped(digits_value(before + s@.subrange(from as int, to as int)), cap as nat),
{
    let mut out: u128 = acc;
    let mut i: usize = from;
    assert(before + s@.subrange(from as int, from as int) == before);
    while i < to
        invariant
            from <= i <= to <= s.len(),
            all_digits(s@.subrange(from as int, to as int)),
            cap <= 0x1000_0000_0000_0000_0000_0000,
            out == capped(digits_value(before + s@.subrange(from as int, i as int)), cap as nat),
        decreases to - i,
    {
        let ghost prefix = before + s@.subrange(from as int, i as int);
        assert(is_ascii_digit(s@.subrange(from as int, to as int)[i - from]));
        let d: u8 = digit_number(s[i]);
        proof {
            lemma_digits_value_push(prefix, s@[i as int]);
            assert(prefix.push(s@[i as int]) == before + s@.subrange(from as int, i + 1));
        }
        let next: u128 = out * 10 + d as u128;
        out = if next > cap { cap } else { next };
        i += 1;
    }
    out
}

/// Multiplies a capped value by a power of ten.
fn shift_capped(acc: u128, zeros: u128, cap: u128, Ghost(value): Ghost<nat>, Ghost(more): Ghost<
    nat,
>) -> (out: u128)
    requires
        cap <= 0x8000_0000,
        acc == capped(value, cap as nat),
        zeros <= more,
        zeros <= 10 ==> zeros == more,
    ensures
        out == capped(value * pow10(more), cap as nat),
{
    let mut out: u128 = acc;
    let mut t: u128 = 0;
    assert(value * pow10(0) == value) by (nonlinear_arith)
        requires
            pow10(0) == 1,
    ;
    while t < zeros && t < 10
        invariant
            t <= zeros,
            t <= 10,
            cap <= 0x8000_0000,
            out == capped(value * pow10(t as nat), cap as nat),
        decreases 10 - t,
    {
        assert(value * pow10((t + 1) as nat) == value * pow10(t as nat) * 10) by (nonlinear_arith)
            requires
                pow10((t + 1) as nat) == 10 * pow10(t as nat),
        ;
        let next: u128 = out * 10;
        out = if next > cap { cap } else { next };
        t += 1;
    }
    proof {
        if zeros > 10 {
            lemma_pow10_ten();
            lemma_pow10_grows(10, more);
            if value == 0 {
                assert(value * pow10(more) == 0) by (nonlinear_arith)
                    requires
                        value == 0,
                ;
                assert(value * pow10(10) == 0) by (nonlinear_arith)
                    requires
                        value == 0,
                ;
            } else {
                assert(value * pow10(more) >= pow10(10)) by (nonlinear_arith)
                    requires
                        value >= 1,
                        pow10(more) >= pow10(10),
                ;
                assert(value * pow10(10) >= pow10(10)) by (nonlinear_arith)
                    requires
                        value >= 1,
                ;
            }
        }
    }
    out
}

/// Where the parts of a numeral stand in a text: the whole digits are
/// `s[a..b]`, the fraction digits `s[c..d]`.
struct Layout {
    negative: bool,
    a: usize,
    b: usize,
    c: usize,
    d: usize,
    point: i128,
}

impl Layout {
    spec fn digits(&self, s: Seq<char>) -> Seq<char> {
        s.subrange(self.a as int, self.b as int) + s.subrange(self.c as int, self.d as int)
    }

    spec fn count(&self) -> int {
        (self.b - self.a) + (self.d - self.c)
    }

    spec fn fits(&self, s: Seq<char>) -> bool {
        &&& self.a <= self.b <= self.c <= self.d <= s.len()
        &&& all_digits(s.subrange(self.a as int, self.b as int))
        &&& all_digits(s.subrange(self.c as int, self.d as int))
    }

    /// The point kept is the true one, or lies with it beyond the digits on
    /// the same side.
    spec fn stands_for(&self, true_point: int) -> bool {
        ||| self.point == true_point
        ||| (self.point <= true_point && self.point > self.count() + 10)
        ||| (true_point <= self.point && self.point < 0)
    }
}

fn read_layout(s: &Vec<char>) -> (out: (Option<Layout>, Ghost<int>))
    ensures
        match out.0 {
            Some(l) => {
                &&& l.fits(s@)
                &&& l.stands_for(out.1@)
                &&& parse_decimal(s@) == Some(
                    Decimal { negative: l.negative, digits: l.digits(s@), point: out.1@ },
                )
            },
            None => parse_decimal(s@) is None,
        },
{
    let n: usize = s.len();
    let a: usize = if n > 0 && (s[0] == '+' || s[0] == '-') { 1 } else { 0 };
    let negative: bool = n > 0 && s[0] == '-';
    let b: usize = scan_digits(s, a);
    let c: usize = if b < n && s[b] == '.' { b + 1 } else { b };
    let d: usize = scan_digits(s, c);
    let whole: usize = b - a;
    let count: usize = whole + (d - c);
    if count == 0 {
        return (None, Ghost(0));
    }
    let ghost true_point: int = whole as int;
    let mut point: i128 = whole as i128;
    if d < n {
        if s[d] != 'e' && s[d] != 'E' {
            return (None, Ghost(0));
        }
        let sl: usize = if d + 1 < n && (s[d + 1] == '+' || s[d + 1] == '-') { 1 } else { 0 };
        let exp_negative: bool = d + 1 < n && s[d + 1] == '-';
        let e: usize = d + 1 + sl;
        let f: usize = scan_digits(s, e);
        if f != n || e >= f {
            return (None, Ghost(0));
        }
        assert(Seq::<char>::empty() + s@.subrange(e as int, f as int) == s@.subrange(
            e as int,
            f as int,
        ));
        let size: u128 = extend_capped(
            0,
            s,
            e,
            f,
            0x1000_0000_0000_0000_0000_0000,
            Ghost(Seq::empty()),
        );
        let ghost true_size = digits_value(s@.subrange(e as int, f as int)) as int;
        if exp_negative {
            point = point - size as i128;
            proof {
                true_point = whole - true_size;
            }
        } else {
            point = point + size as i128;
            proof {
                true_point = whole + true_size;
            }
        }
    }
    (Some(Layout { negative, a, b, c, d, point }), Ghost(true_point))
}

fn whole_capped(s: &Vec<char>, l: &Layout, Ghost(true_point): Ghost<int>) -> (size: u128)
    requires
        l.fits(s@),
        l.stands_for(true_point),
    ensures
        size == capped(whole_size(l.digits(s@), true_point), 0x8000_0000),
{
    let cap: u128 = 0x8000_0000;
    let ghost none = Seq::<char>::empty();
    let ghost digits = l.digits(s@);
    let ghost first = s@.subrange(l.a as int, l.b as int);
    let whole: usize = l.b - l.a;
    let count: usize = whole + (l.d - l.c);
    if l.point <= 0 {
        0
    } else if l.point <= whole as i128 {
        let k: usize = l.point as usize;
        assert(none + s@.subrange(l.a as int, l.a + k) == digits.take(l.point as int));
        assert(all_digits(s@.subrange(l.a as int, l.a + k))) by {
            assert forall|i: int| 0 <= i < k implies is_ascii_digit(
                #[trigger] s@.subrange(l.a as int, l.a + k)[i],
            ) by {
                assert(first[i] == s@[l.a + i]);
            }
        }
        extend_capped(0, s, l.a, l.a + k, cap, Ghost(none))
    } else if l.point <= count as i128 {
        let k: usize = (l.point - whole as i128) as usize;
        assert(none + first == first);
        let w: u128 = extend_capped(0, s, l.a, l.b, cap, Ghost(none));
        assert(all_digits(s@.subrange(l.c as int, l.c + k))) by {
            assert forall|i: int| 0 <= i < k implies is_ascii_digit(
                #[trigger] s@.subrange(l.c as int, l.c + k)[i],
            ) by {
                assert(s@.subrange(l.c as int, l.d as int)[i] == s@[l.c + i]);
            }
        }
        assert(first + s@.subrange(l.c as int, l.c + k) == digits.take(l.point as int));
        extend_capped(w, s, l.c, l.c + k, cap, Ghost(first))
    } else {
        assert(none + first == first);
        let w: u128 = extend_capped(0, s, l.a, l.b, cap, Ghost(none));
        let all: u128 = extend_capped(w, s, l.c, l.d, cap, Ghost(first));
        let zeros: u128 = (l.point - count as i128) as u128;
        shift_capped(
            all,
            zeros,
            cap,
            Ghost(digits_value(digits)),
            Ghost((true_point - count) as nat),
        )
    }
}

/// The whole part of a decimal numeral, rounded toward zero and saturated.
pub fn truncate_decimal(s: &Vec<char>) -> (out: Option<i32>)
    ensures
        match out {
            Some(v) => truncated_decimal(s@) == Some(v as int),
            None => truncated_decimal(s@) is None,
        },
{
    let (layout, true_point) = read_layout(s);
    match layout {
        None => None,
        Some(l) => {
            let size: u128 = whole_capped(s, &l, true_point);
            if l.negative {
                Some((-(size as i64)) as i32)
            } else if size > 0x7fff_ffff {
                Some(0x7fff_ffff)
            } else {
                Some(size as i32)
            }
        },
    }
}

/// Whether a digit other than `0` stands in `s[from..to]`.
fn any_nonzero(s: &Vec<char>, from: usize, to: usize) -> (r: bool)
    requires
        from <= to <= s.len(),
    ensures
        r == exists|i: int| from <= i < to && #[trigger] s@[i] != '0',
{
    let mut i: usize = from;
    while i < to
        invariant
            from <= i <= to <= s.len(),
            forall|k: int| from <= k < i ==> s@[k] == '0',
        decreases to - i,
    {
        if s[i] != '0' {
            return true;
        }
        i += 1;
    }
    false
}

fn fraction_nonzero(s: &Vec<char>, l: &Layout, Ghost(true_point): Ghost<int>) -> (r: bool)
    requires
        l.fits(s@),
        l.stands_for(true_point),
    ensures
        r == has_fraction(l.digits(s@), true_point),
{
    let ghost digits = l.digits(s@);
    let whole: usize = l.b - l.a;
    let count: usize = whole + (l.d - l.c);
    // Where the fraction begins: in the whole digits, in the fraction
    // digits, or behind them all.
    let (first_from, second_from): (usize, usize) = if l.point <= 0 {
        (l.a, l.c)
    } else if l.point <= whole as i128 {
        (l.a + l.point as usize, l.c)
    } else if l.point <= count as i128 {
        (l.b, l.c + (l.point - whole as i128) as usize)
    } else {
        (l.b, l.d)
    };
    let in_first = any_nonzero(s, first_from, l.b);
    let in_second = any_nonzero(s, second_from, l.d);
    proof {
        if in_first {
            let i = choose|i: int| first_from <= i < l.b && #[trigger] s@[i] != '0';
            assert(digits[i - l.a] == s@[i]);
            assert(digits[i - l.a] != '0');
        }
        if in_second {
            let i = choose|i: int| second_from <= i < l.d && #[trigger] s@[i] != '0';
            assert(digits[whole + (i - l.c)] == s@[i]);
            assert(digits[whole + (i - l.c)] != '0');
        }
        if has_fraction(digits, true_point) {
            let k = choose|k: int|
                0 <= k < digits.len() && true_point <= k && #[trigger] digits[k] != '0';
            if k < whole {
                assert(s@[l.a + k] == digits[k]);
                assert(first_from <= l.a + k < l.b);
            } else {
                assert(s@[l.c + (k - whole)] == digits[k]);
                assert(second_from <= l.c + (k - whole) < l.d);
            }
        }
    }
    in_first || in_second
}

/// The greatest integer that is not above a decimal numeral, saturated.
pub fn floor_decimal(s: &Vec<char>) -> (out: Option<i32>)
    ensures
        match out {
            Some(v) => floored_decimal(s@) == Some(v as int),
            None => floored_decimal(s@) is None,
        },
{
    let (layout, true_point) = read_layout(s);
    match layout {
        None => None,
        Some(l) => {
            let size: u128 = whole_capped(s, &l, true_point);
            if l.negative {
                let below: i64 = if fraction_nonzero(s, &l, true_point) { 1 } else { 0 };
                let v: i64 = -(size as i64) - below;
                if v < -0x8000_0000 {
                    Some(-0x8000_0000)
                } else {
                    Some(v as i32)
                }
            } else if size > 0x7fff_ffff {
                Some(0x7fff_ffff)
            } else {
                Some(size as i32)
            }
        },
    }
}

/// The integer that a text writes: an optional sign, then digits.
pub fn parse_int(s: &Vec<char>) -> (out: Option<i32>)
    ensures
        match out {
            Some(v) => int_of_text(s@) == Some(v as int),
            None => int_of_text(s@) is None,
        },
{
    let n: usize = s.len();
    let a: usize = if n > 0 && (s[0] == '+' || s[0] == '-') { 1 } else { 0 };
    let negative: bool = n > 0 && s[0] == '-';
    let b: usize = scan_digits(s, a);
    assert(s@.skip(a as int) == s@.subrange(a as int, n as int));
    if b != n || a == n {
        proof {
            if b < n {
                assert(!is_ascii_digit(s@[b as int]));
                assert(s@.skip(a as int)[b - a] == s@[b as int]);
            }
        }
        return None;
    }
    let ghost none = Seq::<char>::empty();
    assert(none + s@.subrange(a as int, b as int) == s@.subrange(a as int, b as int));
    let size: u128 = extend_capped(0, s, a, b, 0x8000_0001, Ghost(none));
    if negative {
        if size > 0x8000_0000 {
            None
        } else {
            Some((-(size as i64)) as i32)
        }
    } else if size > 0x7fff_ffff {
        None
    } else {
        Some(size as i32)
    }
}

/// The number that a run of digits writes, where it fits 32 bits.
pub fn parse_digits(s: &Vec<char>) -> (out: Option<i32>)
    ensures
        match out {
            Some(v) => small_digits_value(s@) == Some(v as int),
            None => small_digits_value(s@) is None,
        },
{
    let n: usize = s.len();
    let b: usize = scan_digits(s, 0);
    assert(s@.subrange(0, n as int) == s@);
    if b != n || n == 0 {
        proof {
            if b < n {
                assert(!is_ascii_digit(s@[b as int]));
            }
        }
        return None;
    }
    let ghost none = Seq::<char>::empty();
    assert(none + s@ == s@);
    let size: u128 = extend_capped(0, s, 0, n, 0x8000_0000, Ghost(none));
    if size > 0x7fff_ffff {
        None
    } else {
        Some(size as i32)
    }
}

} // verus!
