//! Exact decimal quantities.
//!
//! A quantity is a signed mantissa of at most 96 bits and a scale of at
//! most 28: it stands for `mantissa / 10^scale`. Parsing, addition,
//! division, comparison and formatting are done by `rust_decimal`; this
//! module holds the numbers as plain integers, says what each call
//! returns, and tests every sum for exactness before it hands it on.

use rust_decimal::Decimal;
use vstd::prelude::*;
use vstd::std_specs::cmp::PartialEqSpecImpl;
use crate::text::{chars_of, find_either, is_ascii_digit, is_digit};

verus! {

/// The largest scale a quantity can have.
pub const MAX_SCALE: u32 = 28;

/// The largest magnitude a mantissa can have: `2^96 - 1`.
pub const MAX_MANTISSA: i128 = 79_228_162_514_264_337_593_543_950_335;

/// What a quantity stands for: `mantissa / 10^scale`.
pub struct QuantityView {
    pub mantissa: int,
    pub scale: nat,
}

/// The quantity with the given mantissa and scale.
pub open spec fn parts_view(mantissa: i128, scale: u32) -> QuantityView {
    QuantityView { mantissa: mantissa as int, scale: scale as nat }
}

/// `10^n`.
pub open spec fn pow10(n: nat) -> int
    decreases n,
{
    if n == 0 {
        1
    } else {
        10 * pow10((n - 1) as nat)
    }
}

/// Whether a mantissa and a scale are within the limits of a quantity.
pub open spec fn in_range(v: QuantityView) -> bool {
    -MAX_MANTISSA <= v.mantissa <= MAX_MANTISSA && v.scale <= MAX_SCALE
}

/// The mantissa that `v` has when written at the scale `s`, which is at
/// least its own.
pub open spec fn at_scale(v: QuantityView, s: nat) -> int {
    v.mantissa * pow10((s - v.scale) as nat)
}

/// The value of `v` counted in units of `10^-28`, the finest step a
/// quantity can have.
pub open spec fn units(v: QuantityView) -> int {
    at_scale(v, MAX_SCALE as nat)
}

/// The wider of two scales.
pub open spec fn wider_scale(a: QuantityView, b: QuantityView) -> nat {
    if a.scale >= b.scale {
        a.scale
    } else {
        b.scale
    }
}

/// The exact sum of `a` and `b`, written at the wider of their scales.
pub open spec fn aligned_sum(a: QuantityView, b: QuantityView) -> QuantityView {
    QuantityView {
        mantissa: at_scale(a, wider_scale(a, b)) + at_scale(b, wider_scale(a, b)),
        scale: wider_scale(a, b),
    }
}

/// The sum that `rust_decimal` computes for two quantities, each given by
/// mantissa and scale; nothing where it reports an overflow.
pub uninterp spec fn decimal_sum(am: int, asc: nat, bm: int, bsc: nat) -> Option<(int, nat)>;

/// The sum that `rust_decimal` computes, as a view.
pub open spec fn outside_sum(a: QuantityView, b: QuantityView) -> Option<QuantityView> {
    match decimal_sum(a.mantissa, a.scale, b.mantissa, b.scale) {
        Some(p) => Some(QuantityView { mantissa: p.0, scale: p.1 }),
        None => None,
    }
}

/// Whether `r` has the value of `a` and `b` together.
pub open spec fn is_exact_sum(r: QuantityView, a: QuantityView, b: QuantityView) -> bool {
    units(r) == units(a) + units(b)
}

/// What adding `b` to `a` gives: `a` where `b` is zero and `b` where `a` is
/// zero; else their sum at the wider scale, where it fits there; else the
/// sum that `rust_decimal` computes at a narrower scale, where that is
/// exact. Nothing where the sum would have to be rounded.
pub open spec fn sum_of(a: QuantityView, b: QuantityView) -> Option<QuantityView> {
    if b.mantissa == 0 {
        Some(a)
    } else if a.mantissa == 0 {
        Some(b)
    } else if in_range(aligned_sum(a, b)) {
        Some(aligned_sum(a, b))
    } else {
        match outside_sum(a, b) {
            Some(r) => if in_range(r) && is_exact_sum(r, a, b) {
                Some(r)
            } else {
                None
            },
            None => None,
        }
    }
}

/// `v` with its sign turned.
pub open spec fn negated(v: QuantityView) -> QuantityView {
    QuantityView { mantissa: -v.mantissa, scale: v.scale }
}

/// Whether `s` starts with a sign.
pub open spec fn has_sign(s: Seq<char>) -> bool {
    s.len() > 0 && (s[0] == '-' || s[0] == '+')
}

/// A literal without its sign.
pub open spec fn literal_body(s: Seq<char>) -> Seq<char> {
    if has_sign(s) {
        s.drop_first()
    } else {
        s
    }
}

/// The digits of a literal before its point.
pub open spec fn literal_int_digits(s: Seq<char>) -> Seq<char> {
    literal_body(s).subrange(0, find_either(literal_body(s), 0, '.', '.'))
}

/// The digits of a literal after its point; empty where it has none.
pub open spec fn literal_frac_digits(s: Seq<char>) -> Seq<char> {
    let body = literal_body(s);
    let point = find_either(body, 0, '.', '.');
    if point < body.len() {
        body.subrange(point + 1, body.len() as int)
    } else {
        Seq::empty()
    }
}

/// Whether `d` holds digits only.
pub open spec fn all_digits(d: Seq<char>) -> bool {
    forall|i: int| 0 <= i < d.len() ==> is_digit(#[trigger] d[i])
}

/// Whether `s` is a decimal literal: an optional sign, then digits with at
/// most one point among them, and at least one digit.
pub open spec fn is_decimal_literal(s: Seq<char>) -> bool {
    &&& all_digits(literal_int_digits(s))
    &&& all_digits(literal_frac_digits(s))
    &&& literal_int_digits(s).len() + literal_frac_digits(s).len() > 0
}

/// The number that a string of digits writes.
pub open spec fn digits_value(d: Seq<char>) -> int
    decreases d.len(),
{
    if d.len() == 0 {
        0
    } else {
        10 * digits_value(d.drop_last()) + (d.last() as int - '0' as int)
    }
}

/// What a decimal literal stands for: all its digits as the mantissa, with
/// its sign, and the number of digits after the point as the scale.
pub open spec fn literal_view(s: Seq<char>) -> QuantityView {
    let magnitude = digits_value(literal_int_digits(s) + literal_frac_digits(s));
    QuantityView {
        mantissa: if s.len() > 0 && s[0] == '-' {
            -magnitude
        } else {
            magnitude
        },
        scale: literal_frac_digits(s).len(),
    }
}

/// The quotient that `rust_decimal` computes for two quantities, each
/// given by mantissa and scale; nothing where it reports an overflow or a
/// zero divisor.
pub uninterp spec fn decimal_quotient(am: int, asc: nat, bm: int, bsc: nat) -> Option<(int, nat)>;

/// The character that writes a digit.
pub open spec fn digit_char(d: nat) -> char {
    (d + 48) as u8 as char
}

/// The decimal digits of `n`, most significant first; none for zero.
pub open spec fn digits_of(n: nat) -> Seq<char>
    decreases n,
{
    if n == 0 {
        Seq::empty()
    } else {
        digits_of(n / 10).push(digit_char(n % 10))
    }
}

/// The decimal digits of `n`, with zeros before them up to `width`.
pub open spec fn padded_digits(n: nat, width: nat) -> Seq<char> {
    if digits_of(n).len() >= width {
        digits_of(n)
    } else {
        Seq::new((width - digits_of(n).len()) as nat, |i: int| '0') + digits_of(n)
    }
}

/// The text of a quantity: a hyphen where it is negative, then the digits
/// of its mantissa, at least one more than its scale, with a point before
/// the last `scale` of them.
pub open spec fn quantity_text(v: QuantityView) -> Seq<char> {
    let digits = padded_digits(
        (if v.mantissa < 0 {
            -v.mantissa
        } else {
            v.mantissa
        }) as nat,
        v.scale + 1,
    );
    let body = if v.scale == 0 {
        digits
    } else {
        digits.subrange(0, digits.len() - v.scale) + seq!['.'] + digits.subrange(
            digits.len() - v.scale,
            digits.len() as int,
        )
    };
    if v.mantissa < 0 {
        seq!['-'] + body
    } else {
        body
    }
}

/// The quotient of two quantities as a view.
pub open spec fn quotient_of(a: QuantityView, b: QuantityView) -> Option<QuantityView> {
    match decimal_quotient(a.mantissa, a.scale, b.mantissa, b.scale) {
        Some(p) => Some(QuantityView { mantissa: p.0, scale: p.1 }),
        None => None,
    }
}

/// `10^n` is positive.
pub proof fn lemma_pow10_positive(n: nat)
    ensures
        pow10(n) > 0,
    decreases n,
{
    if n > 0 {
        lemma_pow10_positive((n - 1) as nat);
    }
}

/// `10^(a+b) = 10^a * 10^b`.
pub proof fn lemma_pow10_adds(a: nat, b: nat)
    ensures
        pow10(a + b) == pow10(a) * pow10(b),
    decreases a,
{
    if a > 0 {
        lemma_pow10_adds((a - 1) as nat, b);
        assert(pow10(a + b) == 10 * pow10((a + b - 1) as nat));
        assert(10 * (pow10((a - 1) as nat) * pow10(b)) == (10 * pow10((a - 1) as nat)) * pow10(b))
            by (nonlinear_arith);
    }
}

/// Writing a quantity at a wider scale does not change its value.
pub proof fn lemma_units_at_scale(v: QuantityView, s: nat)
    requires
        v.scale <= s <= MAX_SCALE,
    ensures
        units(v) == at_scale(v, s) * pow10((MAX_SCALE - s) as nat),
{
    let up = (s - v.scale) as nat;
    let rest = (MAX_SCALE - s) as nat;
    lemma_pow10_adds(up, rest);
    assert(v.mantissa * (pow10(up) * pow10(rest)) == (v.mantissa * pow10(up)) * pow10(rest))
        by (nonlinear_arith);
}

/// The aligned sum of two quantities has the sum of their values.
pub proof fn lemma_aligned_sum_is_exact(a: QuantityView, b: QuantityView)
    requires
        a.scale <= MAX_SCALE,
        b.scale <= MAX_SCALE,
    ensures
        units(aligned_sum(a, b)) == units(a) + units(b),
{
    let w = wider_scale(a, b);
    let rest = (MAX_SCALE - w) as nat;
    lemma_units_at_scale(a, w);
    lemma_units_at_scale(b, w);
    assert(pow10(0) == 1);
    assert((at_scale(a, w) + at_scale(b, w)) * pow10(rest) == at_scale(a, w) * pow10(rest)
        + at_scale(b, w) * pow10(rest)) by (nonlinear_arith);
    assert(at_scale(aligned_sum(a, b), w) == aligned_sum(a, b).mantissa * 1);
}

/// Whatever `sum_of` returns has the sum of the two values.
pub proof fn lemma_sum_is_exact(a: QuantityView, b: QuantityView)
    requires
        a.scale <= MAX_SCALE,
        b.scale <= MAX_SCALE,
    ensures
        sum_of(a, b) matches Some(r) ==> units(r) == units(a) + units(b) && r.scale <= MAX_SCALE,
{
    lemma_aligned_sum_is_exact(a, b);
    assert(0 * pow10((MAX_SCALE - a.scale) as nat) == 0);
    assert(0 * pow10((MAX_SCALE - b.scale) as nat) == 0);
}

/// A quantity and its negation have opposite values.
pub proof fn lemma_negated_units(v: QuantityView)
    ensures
        units(negated(v)) == -units(v),
{
    assert((-v.mantissa) * pow10((MAX_SCALE - v.scale) as nat) == -(v.mantissa * pow10(
        (MAX_SCALE - v.scale) as nat,
    ))) by (nonlinear_arith);
}

/// An exact decimal number.
#[derive(Clone, Copy, Debug)]
pub struct Quantity {
    mantissa: i128,
    scale: u32,
}

impl View for Quantity {
    type V = QuantityView;

    closed spec fn view(&self) -> QuantityView {
        parts_view(self.mantissa, self.scale)
    }
}

/// `Decimal::from_str_exact`, on a decimal literal. It returns a number
/// exactly when the literal's digits fit a mantissa and its fraction has
/// at most 28 digits, and then the number is the literal's: it neither
/// rounds nor rescales.
#[verifier::external_body]
fn decimal_from_str_exact(text: &str) -> (res: Option<(i128, u32)>)
    requires
        is_decimal_literal(text@),
    ensures
        res is Some <==> in_range(literal_view(text@)),
        res matches Some(p) ==> parts_view(p.0, p.1) == literal_view(text@),
{
    match Decimal::from_str_exact(text) {
        Ok(d) => Some((d.mantissa(), d.scale())),
        Err(_) => None,
    }
}

/// `Decimal::checked_add`, on two numbers that are not zero. The sum is
/// the crate's own and depends on the two numbers alone; its mantissa and
/// scale are within the limits of a quantity. Where the exact sum at the
/// wider scale fits a mantissa, that sum is returned, at that scale.
#[verifier::external_body]
fn decimal_checked_add(am: i128, asc: u32, bm: i128, bsc: u32) -> (res: Option<(i128, u32)>)
    requires
        in_range(parts_view(am, asc)),
        in_range(parts_view(bm, bsc)),
        am != 0,
        bm != 0,
    ensures
        res matches Some(p) ==> in_range(parts_view(p.0, p.1)),
        res is Some <==> decimal_sum(am as int, asc as nat, bm as int, bsc as nat) is Some,
        res matches Some(p) ==> decimal_sum(am as int, asc as nat, bm as int, bsc as nat) == Some(
            (p.0 as int, p.1 as nat),
        ),
        res is None ==> !in_range(aligned_sum(parts_view(am, asc), parts_view(bm, bsc))),
        res matches Some(p) ==> in_range(aligned_sum(parts_view(am, asc), parts_view(bm, bsc)))
            ==> parts_view(p.0, p.1) == aligned_sum(parts_view(am, asc), parts_view(bm, bsc)),
{
    let a = Decimal::from_i128_with_scale(am, asc);
    let b = Decimal::from_i128_with_scale(bm, bsc);
    match a.checked_add(b) {
        Some(d) => Some((d.mantissa(), d.scale())),
        None => None,
    }
}

/// `Decimal::checked_div`, on the two numbers of the given mantissas and
/// scales. The quotient is the crate's own, rounded as it rounds, and
/// depends on the two numbers alone; its mantissa and scale are within the
/// limits of a quantity.
#[verifier::external_body]
fn decimal_checked_div(am: i128, asc: u32, bm: i128, bsc: u32) -> (res: Option<(i128, u32)>)
    requires
        in_range(parts_view(am, asc)),
        in_range(parts_view(bm, bsc)),
    ensures
        res matches Some(p) ==> in_range(parts_view(p.0, p.1)),
        res is Some <==> decimal_quotient(am as int, asc as nat, bm as int, bsc as nat) is Some,
        res matches Some(p) ==> decimal_quotient(am as int, asc as nat, bm as int, bsc as nat)
            == Some((p.0 as int, p.1 as nat)),
{
    let a = Decimal::from_i128_with_scale(am, asc);
    let b = Decimal::from_i128_with_scale(bm, bsc);
    match a.checked_div(b) {
        Some(d) => Some((d.mantissa(), d.scale())),
        None => None,
    }
}

/// `Decimal`'s `==`, on the two numbers of the given mantissas and
/// scales: they are equal exactly when they have the same value, whatever
/// their scales.
#[verifier::external_body]
fn decimal_eq(am: i128, asc: u32, bm: i128, bsc: u32) -> (res: bool)
    requires
        in_range(parts_view(am, asc)),
        in_range(parts_view(bm, bsc)),
    ensures
        res == (units(parts_view(am, asc)) == units(parts_view(bm, bsc))),
{
    Decimal::from_i128_with_scale(am, asc) == Decimal::from_i128_with_scale(bm, bsc)
}

/// `Decimal`'s `to_string`, on the number of the given mantissa and
/// scale. It writes a hyphen for a negative number, then the digits of
/// the mantissa with zeros before them so that at least one digit stands
/// before the point, and the point before the last `scale` digits; no
/// point at scale 0.
#[verifier::external_body]
fn decimal_to_string(mantissa: i128, scale: u32) -> (res: String)
    requires
        in_range(parts_view(mantissa, scale)),
    ensures
        res@ == quantity_text(parts_view(mantissa, scale)),
{
    Decimal::from_i128_with_scale(mantissa, scale).to_string()
}

/// Tests whether the characters between `from` and `to` are all digits.
fn digits_only(chars: &Vec<char>, from: usize, to: usize) -> (r: bool)
    requires
        from <= to <= chars.len(),
    ensures
        r == all_digits(chars@.subrange(from as int, to as int)),
{
    let ghost d = chars@.subrange(from as int, to as int);
    let mut i: usize = from;
    while i < to
        invariant
            from <= i <= to <= chars.len(),
            d == chars@.subrange(from as int, to as int),
            forall|k: int| 0 <= k < i - from ==> is_digit(#[trigger] d[k]),
        decreases to - i,
    {
        if !is_ascii_digit(chars[i]) {
            assert(!is_digit(d[i - from]));
            return false;
        }
        i = i + 1;
    }
    true
}

/// Tests whether `chars` is a decimal literal.
fn is_literal(chars: &Vec<char>) -> (r: bool)
    ensures
        r == is_decimal_literal(chars@),
{
    let n = chars.len();
    let start: usize = if n > 0 && (chars[0] == '-' || chars[0] == '+') {
        1
    } else {
        0
    };
    let ghost body = literal_body(chars@);
    assert(body =~= chars@.subrange(start as int, n as int));
    let mut point: usize = start;
    while point < n && chars[point] != '.'
        invariant
            start <= point <= n == chars.len(),
            body == chars@.subrange(start as int, n as int),
            find_either(body, 0, '.', '.') == find_either(body, point - start, '.', '.'),
        decreases n - point,
    {
        point = point + 1;
    }
    assert(find_either(body, 0, '.', '.') == point - start);
    assert(body.subrange(0, point - start) =~= chars@.subrange(start as int, point as int));
    let int_ok = digits_only(chars, start, point);
    if point < n {
        assert(body.subrange(point - start + 1, body.len() as int) =~= chars@.subrange(
            point as int + 1,
            n as int,
        ));
        let frac_ok = digits_only(chars, point + 1, n);
        int_ok && frac_ok && n - start > 1
    } else {
        int_ok && n - start > 0
    }
}

/// `10^28`, the largest power of ten that a scale asks for.
pub const LARGEST_POWER: u128 = 10_000_000_000_000_000_000_000_000_000;

/// A power of ten that a scale asks for is at most `10^28`.
proof fn lemma_pow10_bounded(n: nat)
    requires
        n <= MAX_SCALE,
    ensures
        1 <= pow10(n) <= LARGEST_POWER,
{
    let rest = (MAX_SCALE - n) as nat;
    lemma_pow10_adds(n, rest);
    lemma_pow10_positive(n);
    lemma_pow10_positive(rest);
    assert(pow10(28) == LARGEST_POWER) by {
        reveal_with_fuel(pow10, 29);
    }
    assert(pow10(n) <= pow10(n) * pow10(rest)) by (nonlinear_arith)
        requires
            pow10(n) > 0,
            pow10(rest) >= 1,
    ;
}

/// Computes `10^n`.
fn power_of_ten(n: u32) -> (r: u128)
    requires
        n <= MAX_SCALE,
    ensures
        r == pow10(n as nat),
        1 <= r <= LARGEST_POWER,
{
    let mut r: u128 = 1;
    let mut i: u32 = 0;
    while i < n
        invariant
            i <= n <= MAX_SCALE,
            r == pow10(i as nat),
        decreases n - i,
    {
        proof {
            lemma_pow10_bounded((i + 1) as nat);
        }
        r = r * 10;
        i = i + 1;
    }
    proof {
        lemma_pow10_bounded(n as nat);
    }
    r
}

/// The magnitude of a mantissa.
fn magnitude(m: i128) -> (r: u128)
    requires
        -MAX_MANTISSA <= m <= MAX_MANTISSA,
    ensures
        r == if m < 0 {
            -m
        } else {
            m as int
        },
{
    if m < 0 {
        (-m) as u128
    } else {
        m as u128
    }
}

/// The values of three quantities whose scales do not grow from the first
/// to the third, over a common factor.
proof fn lemma_units_of_three(v1: QuantityView, v2: QuantityView, v3: QuantityView)
    requires
        MAX_SCALE >= v1.scale >= v2.scale >= v3.scale,
    ensures
        pow10((MAX_SCALE - v1.scale) as nat) > 0,
        units(v1) + units(v2) + units(v3) == (v1.mantissa + v2.mantissa * pow10(
            (v1.scale - v2.scale) as nat,
        ) + v3.mantissa * pow10((v2.scale - v3.scale) as nat) * pow10(
            (v1.scale - v2.scale) as nat,
        )) * pow10((MAX_SCALE - v1.scale) as nat),
{
    let k = (v1.scale - v2.scale) as nat;
    let e = (v2.scale - v3.scale) as nat;
    let rest = (MAX_SCALE - v1.scale) as nat;
    lemma_pow10_positive(rest);
    lemma_pow10_adds(k, rest);
    lemma_pow10_adds(e, k + rest);
    let big_k = pow10(k);
    let big_e = pow10(e);
    let big_r = pow10(rest);
    assert(units(v2) == v2.mantissa * (big_k * big_r));
    assert(units(v3) == v3.mantissa * (big_e * (big_k * big_r)));
    let second = v2.mantissa * big_k;
    let third = v3.mantissa * big_e * big_k;
    assert(v2.mantissa * (big_k * big_r) == second * big_r) by (nonlinear_arith)
        requires
            second == v2.mantissa * big_k,
    ;
    assert(v3.mantissa * (big_e * (big_k * big_r)) == third * big_r) by (nonlinear_arith)
        requires
            third == v3.mantissa * big_e * big_k,
    ;
    assert(v1.mantissa * big_r + second * big_r + third * big_r == (v1.mantissa + second + third)
        * big_r) by (nonlinear_arith);
}

/// Tests whether three quantities add up to nothing; their scales do not
/// grow from the first to the third. The common power of ten is taken off
/// first: what is left fits the machine's integers, or is too large to
/// add up to nothing.
fn adds_to_zero_in_order(m1: i128, s1: u32, m2: i128, s2: u32, m3: i128, s3: u32) -> (r: bool)
    requires
        in_range(parts_view(m1, s1)),
        in_range(parts_view(m2, s2)),
        in_range(parts_view(m3, s3)),
        s1 >= s2 >= s3,
    ensures
        r == (units(parts_view(m1, s1)) + units(parts_view(m2, s2)) + units(parts_view(m3, s3))
            == 0),
{
    let pk = power_of_ten(s1 - s2);
    let pe = power_of_ten(s2 - s3);
    let mag1 = magnitude(m1);
    let ghost big_k = pk as int;
    let ghost big_e = pe as int;
    let ghost big_r = pow10((MAX_SCALE - s1) as nat);
    let ghost whole = m1 + m2 * big_k + m3 * big_e * big_k;
    proof {
        lemma_units_of_three(parts_view(m1, s1), parts_view(m2, s2), parts_view(m3, s3));
        assert((whole * big_r == 0) == (whole == 0)) by (nonlinear_arith)
            requires
                big_r > 0,
        ;
    }
    if mag1 % pk != 0 {
        proof {
            if whole == 0 {
                let y = -(m2 + m3 * big_e);
                let ay = if y < 0 {
                    -y
                } else {
                    y
                };
                assert(mag1 == ay * big_k) by (nonlinear_arith)
                    requires
                        m1 + m2 * big_k + m3 * big_e * big_k == 0,
                        y == -(m2 + m3 * big_e),
                        ay == if y < 0 {
                            -y
                        } else {
                            y
                        },
                        mag1 == if m1 < 0 {
                            -m1
                        } else {
                            m1 as int
                        },
                        big_k > 0,
                ;
                vstd::arithmetic::div_mod::lemma_mod_multiples_basic(ay, big_k);
            }
        }
        return false;
    }
    let q = mag1 / pk;
    proof {
        vstd::arithmetic::div_mod::lemma_fundamental_div_mod(mag1 as int, big_k);
        assert(q <= mag1) by (nonlinear_arith)
            requires
                mag1 == big_k * q,
                big_k >= 1,
                q >= 0,
        ;
    }
    let g: i128 = if m1 < 0 {
        -(q as i128)
    } else {
        q as i128
    };
    proof {
        assert(m1 == g * big_k) by (nonlinear_arith)
            requires
                mag1 == big_k * q,
                mag1 == if m1 < 0 {
                    -m1
                } else {
                    m1 as int
                },
                g == if m1 < 0 {
                    -q
                } else {
                    q as int
                },
        ;
        assert(whole == (g + m2 + m3 * big_e) * big_k) by (nonlinear_arith)
            requires
                whole == m1 + m2 * big_k + m3 * big_e * big_k,
                m1 == g * big_k,
        ;
        assert(((g + m2 + m3 * big_e) * big_k == 0) == (g + m2 + m3 * big_e == 0))
            by (nonlinear_arith)
            requires
                big_k > 0,
        ;
    }
    let twice: u128 = 2 * (MAX_MANTISSA as u128);
    let bound = twice / pe;
    let mag3 = magnitude(m3);
    proof {
        vstd::arithmetic::div_mod::lemma_fundamental_div_mod(twice as int, big_e);
        vstd::arithmetic::div_mod::lemma_mod_bound(twice as int, big_e);
    }
    if mag3 > bound {
        proof {
            assert(mag3 * big_e > twice) by (nonlinear_arith)
                requires
                    mag3 >= bound + 1,
                    twice == big_e * bound + (twice as int % big_e),
                    0 <= twice as int % big_e < big_e,
            ;
            assert(m3 * big_e > twice || m3 * big_e < -twice) by (nonlinear_arith)
                requires
                    mag3 * big_e > twice,
                    mag3 == if m3 < 0 {
                        -m3
                    } else {
                        m3 as int
                    },
            ;
        }
        return false;
    }
    proof {
        assert(-twice <= m3 * big_e <= twice) by (nonlinear_arith)
            requires
                mag3 <= bound,
                twice == big_e * bound + (twice as int % big_e),
                0 <= twice as int % big_e,
                big_e > 0,
                mag3 == if m3 < 0 {
                    -m3
                } else {
                    m3 as int
                },
        ;
    }
    let t3: i128 = m3 * (pe as i128);
    g + m2 + t3 == 0
}

/// Tests whether three quantities add up to nothing.
fn adds_to_zero(m1: i128, s1: u32, m2: i128, s2: u32, m3: i128, s3: u32) -> (r: bool)
    requires
        in_range(parts_view(m1, s1)),
        in_range(parts_view(m2, s2)),
        in_range(parts_view(m3, s3)),
    ensures
        r == (units(parts_view(m1, s1)) + units(parts_view(m2, s2)) + units(parts_view(m3, s3))
            == 0),
{
    if s1 >= s2 {
        if s2 >= s3 {
            adds_to_zero_in_order(m1, s1, m2, s2, m3, s3)
        } else if s1 >= s3 {
            adds_to_zero_in_order(m1, s1, m3, s3, m2, s2)
        } else {
            adds_to_zero_in_order(m3, s3, m1, s1, m2, s2)
        }
    } else {
        if s1 >= s3 {
            adds_to_zero_in_order(m2, s2, m1, s1, m3, s3)
        } else if s2 >= s3 {
            adds_to_zero_in_order(m2, s2, m3, s3, m1, s1)
        } else {
            adds_to_zero_in_order(m3, s3, m2, s2, m1, s1)
        }
    }
}

impl Quantity {
    #[verifier::type_invariant]
    spec fn within_limits(self) -> bool {
        in_range(self@)
    }

    /// The quantity `mantissa / 10^scale`; nothing where the two are out
    /// of range.
    pub fn new(mantissa: i128, scale: u32) -> (res: Option<Quantity>)
        ensures
            res is Some <==> in_range(parts_view(mantissa, scale)),
            res matches Some(q) ==> q@ == parts_view(mantissa, scale),
    {
        if scale <= MAX_SCALE && -MAX_MANTISSA <= mantissa && mantissa <= MAX_MANTISSA {
            Some(Quantity { mantissa, scale })
        } else {
            None
        }
    }

    /// Zero, at scale 0.
    pub fn zero() -> (res: Quantity)
        ensures
            res@ == parts_view(0, 0),
    {
        Quantity { mantissa: 0, scale: 0 }
    }

    /// The mantissa.
    pub fn mantissa(&self) -> (m: i128)
        ensures
            m == self@.mantissa,
            in_range(self@),
    {
        proof {
            use_type_invariant(self);
        }
        self.mantissa
    }

    /// The scale.
    pub fn scale(&self) -> (s: u32)
        ensures
            s == self@.scale,
            in_range(self@),
    {
        proof {
            use_type_invariant(self);
        }
        self.scale
    }

    /// Whether the quantity is zero, at whatever scale.
    pub fn is_zero(&self) -> (r: bool)
        ensures
            r == (self@.mantissa == 0),
    {
        self.mantissa == 0
    }

    /// Whether the quantity is zero or more.
    pub fn is_sign_positive(&self) -> (r: bool)
        ensures
            r == (self@.mantissa >= 0),
    {
        self.mantissa >= 0
    }

    /// The quantity with its sign turned, at the same scale.
    pub fn negate(&self) -> (res: Quantity)
        ensures
            res@ == negated(self@),
    {
        proof {
            use_type_invariant(self);
        }
        Quantity { mantissa: -self.mantissa, scale: self.scale }
    }

    /// Reads a decimal literal: an optional sign, digits, at most one
    /// point. The quantity has every digit of the literal and as many
    /// decimal places. Nothing is returned for any other text, nor for a
    /// literal that is out of range.
    pub fn parse(text: &str) -> (res: Option<Quantity>)
        ensures
            res is Some <==> is_decimal_literal(text@) && in_range(literal_view(text@)),
            res matches Some(q) ==> q@ == literal_view(text@),
    {
        let chars = chars_of(text);
        if !is_literal(&chars) {
            return None;
        }
        match decimal_from_str_exact(text) {
            Some(p) => Some(Quantity { mantissa: p.0, scale: p.1 }),
            None => None,
        }
    }

    /// Whether this quantity has the value of `a` and `b` together,
    /// whatever the three scales.
    pub fn is_sum_of(&self, a: &Quantity, b: &Quantity) -> (r: bool)
        ensures
            r == is_exact_sum(self@, a@, b@),
    {
        proof {
            use_type_invariant(self);
            use_type_invariant(a);
            use_type_invariant(b);
            lemma_negated_units(self@);
        }
        adds_to_zero(-self.mantissa, self.scale, a.mantissa, a.scale, b.mantissa, b.scale)
    }

    /// Adds `other`, exactly. Adding zero changes nothing, and zero plus
    /// `other` is `other`. A sum that fits at the wider of the two scales
    /// is written there; one that does not is written at the scale that
    /// `rust_decimal` gives it, where it is exact there. Nothing is
    /// returned where the sum would have to be rounded.
    pub fn checked_add(&self, other: &Quantity) -> (res: Option<Quantity>)
        ensures
            res is Some <==> sum_of(self@, other@) is Some,
            res matches Some(q) ==> Some(q@) == sum_of(self@, other@),
    {
        proof {
            use_type_invariant(self);
            use_type_invariant(other);
            lemma_aligned_sum_is_exact(self@, other@);
        }
        if other.mantissa == 0 {
            return Some(*self);
        }
        if self.mantissa == 0 {
            return Some(*other);
        }
        match decimal_checked_add(self.mantissa, self.scale, other.mantissa, other.scale) {
            Some(p) => {
                let sum = Quantity { mantissa: p.0, scale: p.1 };
                if sum.is_sum_of(self, other) {
                    Some(sum)
                } else {
                    None
                }
            },
            None => None,
        }
    }

    /// Divides by `other`. The quotient is the one `rust_decimal` computes,
    /// rounded where it has no exact form; nothing is returned where the
    /// divisor is zero or the quotient is out of range.
    pub fn checked_div(&self, other: &Quantity) -> (res: Option<Quantity>)
        ensures
            res is Some <==> quotient_of(self@, other@) is Some,
            res matches Some(q) ==> Some(q@) == quotient_of(self@, other@),
    {
        proof {
            use_type_invariant(self);
            use_type_invariant(other);
        }
        match decimal_checked_div(self.mantissa, self.scale, other.mantissa, other.scale) {
            Some(p) => Some(Quantity { mantissa: p.0, scale: p.1 }),
            None => None,
        }
    }

    /// The quantity as text.
    pub fn to_string(&self) -> (res: String)
        ensures
            res@ == quantity_text(self@),
    {
        proof {
            use_type_invariant(self);
        }
        decimal_to_string(self.mantissa, self.scale)
    }
}

impl PartialEq for Quantity {
    fn eq(&self, other: &Quantity) -> (r: bool) {
        proof {
            use_type_invariant(self);
            use_type_invariant(other);
        }
        decimal_eq(self.mantissa, self.scale, other.mantissa, other.scale)
    }
}

impl PartialEqSpecImpl for Quantity {
    open spec fn obeys_eq_spec() -> bool {
        true
    }

    open spec fn eq_spec(&self, other: &Quantity) -> bool {
        units(self@) == units(other@)
    }
}

} // verus!
