//! The grammar of time literals, as spec functions over byte positions, and a
//! parser that follows it.
use crate::bounds::{
    lemma_pow10_add, lemma_pow10_monotone, lemma_pow10_seven, pow10, ten_pow, MAX_HOURS, MAX_MINUTES, MAX_SECONDS};
use vstd::prelude::*;

verus! {

/// The fields of a time literal before they are combined.
#[derive(Debug, Clone, Copy, PartialEq, Eq, Structural)]
pub struct ParsedLiteral {
    pub neg: bool,
    pub day: Option<u32>,
    pub hour: Option<u32>,
    pub minute: Option<u32>,
    pub second: Option<u32>,
    /// The fractional part, in tenths of a microsecond.
    pub fraction: Option<u32>,
}

impl ParsedLiteral {
    /// The ranges that the grammar keeps each field in.
    pub open spec fn bounded(self) -> bool {
        &&& self.day matches Some(v) ==> v < 10_000_000
        &&& self.hour matches Some(v) ==> v <= MAX_HOURS
        &&& self.minute matches Some(v) ==> v <= MAX_MINUTES
        &&& self.second matches Some(v) ==> v <= MAX_SECONDS
        &&& self.fraction matches Some(v) ==> v < 10_000_000
    }
}

/// The longest run of digits that an integer field may have.
pub const MAX_INT_DIGITS: usize = 7;

pub open spec fn is_space(c: u8) -> bool {
    c == 0x20u8 || c == 0x09u8 || c == 0x0au8 || c == 0x0du8
}

pub open spec fn is_digit(c: u8) -> bool {
    0x30u8 <= c && c <= 0x39u8
}

/// The first position at or after `i` that holds no whitespace.
pub open spec fn skip_space(s: Seq<u8>, i: int) -> int
    decreases s.len() - i,
{
    if 0 <= i < s.len() && is_space(s[i]) {
        skip_space(s, i + 1)
    } else {
        i
    }
}

/// The first position at or after `i` that holds no digit.
pub open spec fn skip_digits(s: Seq<u8>, i: int) -> int
    decreases s.len() - i,
{
    if 0 <= i < s.len() && is_digit(s[i]) {
        skip_digits(s, i + 1)
    } else {
        i
    }
}

/// The decimal number written by the digits `s[i..j]`.
pub open spec fn digits_value(s: Seq<u8>, i: int, j: int) -> nat
    decreases j - i,
{
    if j <= i {
        0
    } else {
        digits_value(s, i, j - 1) * 10 + (s[j - 1] - 0x30u8) as nat
    }
}

/// The optional `-` sign at `p`: whitespace may follow it, and then a digit or
/// `.` must come. Gives the sign and the position of that digit or `.`.
pub open spec fn sign_rule(s: Seq<u8>, p: int) -> Option<(bool, int)> {
    let neg = p < s.len() && s[p] == 0x2du8;
    let q = skip_space(s, if neg { p + 1 } else { p });
    if q < s.len() && (is_digit(s[q]) || s[q] == 0x2eu8) {
        Some((neg, q))
    } else {
        None
    }
}

/// A leading integer is a day count when whitespace and a digit follow it, or
/// when only whitespace stands between it and a `.` or the end. Otherwise nothing
/// is read. A run of more than seven digits rejects the literal.
pub open spec fn day_rule(s: Seq<u8>, p: int) -> Option<(Option<u32>, int)> {
    let e = skip_digits(s, p);
    let w = skip_space(s, e);
    if e == p {
        Some((None, p))
    } else if e - p > MAX_INT_DIGITS {
        None
    } else if (w > e && w < s.len() && is_digit(s[w])) || w >= s.len() || s[w] == 0x2eu8 {
        Some((Some(digits_value(s, p, e) as u32), w))
    } else {
        Some((None, p))
    }
}

/// An hour count of at most `MAX_HOURS`, if one stands at `p`; a larger one is
/// left unread. A run of more than seven digits rejects the literal.
pub open spec fn hour_rule(s: Seq<u8>, p: int) -> Option<(Option<u32>, int)> {
    let e = skip_digits(s, p);
    if e == p {
        Some((None, p))
    } else if e - p > MAX_INT_DIGITS {
        None
    } else if digits_value(s, p, e) > MAX_HOURS {
        Some((None, p))
    } else {
        Some((Some(digits_value(s, p, e) as u32), e))
    }
}

/// Whitespace, an optional `:`, whitespace. Tells whether the `:` was there.
pub open spec fn separator_rule(s: Seq<u8>, p: int) -> (bool, int) {
    let w = skip_space(s, p);
    if w < s.len() && s[w] == 0x3au8 {
        (true, skip_space(s, w + 1))
    } else {
        (false, w)
    }
}

/// A minute or second count of at most `max`, which must stand at `p` when a
/// separator announced it.
pub open spec fn field_rule(s: Seq<u8>, p: int, announced: bool, max: nat) -> Option<
    (Option<u32>, int),
> {
    let e = skip_digits(s, p);
    if !announced {
        Some((None, p))
    } else if e == p || e - p > MAX_INT_DIGITS || digits_value(s, p, e) > max {
        None
    } else {
        Some((Some(digits_value(s, p, e) as u32), e))
    }
}

/// How many of `n` fractional digits are taken at precision `fsp`: all of them,
/// or `fsp + 1`, one more than kept, to round by.
pub open spec fn fraction_width(n: int, fsp: nat) -> int {
    if fsp >= n {
        n
    } else {
        fsp + 1int
    }
}

/// The fractional digits `s[q..e]` at precision `fsp`: the digits taken, scaled
/// to seven places, that is to tenths of a microsecond.
pub open spec fn fraction_value(s: Seq<u8>, q: int, e: int, fsp: nat) -> u32 {
    let k = fraction_width(e - q, fsp);
    (digits_value(s, q, q + k) * pow10((7 - k) as nat)) as u32
}

/// Whitespace, an optional `.`, optional digits, whitespace.
pub open spec fn fraction_rule(s: Seq<u8>, p: int, fsp: nat) -> (Option<u32>, int) {
    let w = skip_space(s, p);
    let q = if w < s.len() && s[w] == 0x2eu8 { w + 1 } else { w };
    let e = skip_digits(s, q);
    (if e == q { None } else { Some(fraction_value(s, q, e, fsp)) }, skip_space(s, e))
}

/// The fields of the literal `s` read at precision `fsp`, or `None` when `s` is
/// not a time literal: whitespace, a sign, a day count, hours, minutes and
/// seconds with their separators, a fraction, whitespace, and nothing after.
pub open spec fn parse_literal(s: Seq<u8>, fsp: nat) -> Option<ParsedLiteral> {
    match sign_rule(s, skip_space(s, 0)) {
        None => None,
        Some((neg, p1)) => match day_rule(s, p1) {
            None => None,
            Some((day, p2)) => match hour_rule(s, p2) {
                None => None,
                Some((hour, p3)) => match field_rule(
                    s,
                    separator_rule(s, p3).1,
                    separator_rule(s, p3).0,
                    MAX_MINUTES as nat,
                ) {
                    None => None,
                    Some((minute, p5)) => match field_rule(
                        s,
                        separator_rule(s, p5).1,
                        separator_rule(s, p5).0,
                        MAX_SECONDS as nat,
                    ) {
                        None => None,
                        Some((second, p7)) => {
                            let (fraction, p8) = fraction_rule(s, p7, fsp);
                            if p8 == s.len() {
                                Some(
                                    ParsedLiteral {
                                        neg: neg,
                                        day: day,
                                        hour: hour,
                                        minute: minute,
                                        second: second,
                                        fraction: fraction,
                                    },
                                )
                            } else {
                                None
                            }
                        },
                    },
                },
            },
        },
    }
}


/// A position-carrying result with its position widened to `int`.
pub open spec fn at_int<T>(r: Option<(T, usize)>) -> Option<(T, int)> {
    match r {
        Some((v, p)) => Some((v, p as int)),
        None => None,
    }
}

/// A run of digits is worth less than `10` to the power of its length.
proof fn lemma_digits_value_bound(s: Seq<u8>, i: int, j: int)
    requires
        0 <= i <= j <= s.len(),
        forall|k: int| i <= k < j ==> is_digit(#[trigger] s[k]),
    ensures
        digits_value(s, i, j) < pow10((j - i) as nat),
    decreases j - i,
{
    if j > i {
        lemma_digits_value_bound(s, i, j - 1);
        assert(pow10((j - i) as nat) == 10 * pow10((j - 1 - i) as nat));
    }
}

fn is_space_byte(c: u8) -> (r: bool)
    ensures
        r == is_space(c),
{
    c == 0x20u8 || c == 0x09u8 || c == 0x0au8 || c == 0x0du8
}

fn is_digit_byte(c: u8) -> (r: bool)
    ensures
        r == is_digit(c),
{
    0x30u8 <= c && c <= 0x39u8
}

fn skip_space_at(s: &[u8], i: usize) -> (r: usize)
    requires
        i <= s@.len(),
    ensures
        r as int == skip_space(s@, i as int),
        i <= r <= s@.len(),
{
    let mut j: usize = i;
    while j < s.len() && is_space_byte(s[j])
        invariant
            i <= j <= s@.len(),
            skip_space(s@, j as int) == skip_space(s@, i as int),
        decreases s@.len() - j,
    {
        j = j + 1;
    }
    j
}

fn skip_digits_at(s: &[u8], i: usize) -> (r: usize)
    requires
        i <= s@.len(),
    ensures
        r as int == skip_digits(s@, i as int),
        i <= r <= s@.len(),
        forall|k: int| i <= k < r ==> is_digit(#[trigger] s@[k]),
{
    let mut j: usize = i;
    while j < s.len() && is_digit_byte(s[j])
        invariant
            i <= j <= s@.len(),
            skip_digits(s@, j as int) == skip_digits(s@, i as int),
            forall|k: int| i <= k < j ==> is_digit(#[trigger] s@[k]),
        decreases s@.len() - j,
    {
        j = j + 1;
    }
    j
}

/// The number written by the digits `s[i..j]`, at most seven of them.
fn digits_value_at(s: &[u8], i: usize, j: usize) -> (r: u32)
    requires
        i <= j <= s@.len(),
        j - i <= MAX_INT_DIGITS,
        forall|k: int| i <= k < j ==> is_digit(#[trigger] s@[k]),
    ensures
        r as nat == digits_value(s@, i as int, j as int),
        r < 10_000_000,
{
    let mut acc: u32 = 0;
    let mut k: usize = i;
    proof {
        lemma_pow10_seven();
    }
    while k < j
        invariant
            i <= k <= j,
            j <= s@.len(),
            j - i <= MAX_INT_DIGITS,
            forall|t: int| i <= t < j ==> is_digit(#[trigger] s@[t]),
            acc as nat == digits_value(s@, i as int, k as int),
            pow10(7) == 10_000_000,
        decreases j - k,
    {
        proof {
            lemma_digits_value_bound(s@, i as int, k as int);
            lemma_pow10_monotone((k - i) as nat, 6);
        }
        assert(is_digit(s@[k as int]));
        acc = acc * 10 + (s[k] - 0x30u8) as u32;
        k = k + 1;
    }
    proof {
        lemma_digits_value_bound(s@, i as int, j as int);
        lemma_pow10_monotone((j - i) as nat, 7);
    }
    acc
}

fn sign_at(s: &[u8], p: usize) -> (r: Option<(bool, usize)>)
    requires
        p <= s@.len(),
    ensures
        at_int(r) == sign_rule(s@, p as int),
        r matches Some((_, q)) ==> q <= s@.len(),
{
    let neg = p < s.len() && s[p] == 0x2du8;
    let q = skip_space_at(s, if neg { p + 1 } else { p });
    if q < s.len() && (is_digit_byte(s[q]) || s[q] == 0x2eu8) {
        Some((neg, q))
    } else {
        None
    }
}

fn day_at(s: &[u8], p: usize) -> (r: Option<(Option<u32>, usize)>)
    requires
        p <= s@.len(),
    ensures
        at_int(r) == day_rule(s@, p as int),
        r matches Some((_, q)) ==> q <= s@.len(),
        r matches Some((Some(v), _)) ==> v < 10_000_000,
{
    let e = skip_digits_at(s, p);
    let w = skip_space_at(s, e);
    if e == p {
        Some((None, p))
    } else if e - p > MAX_INT_DIGITS {
        None
    } else if (w > e && w < s.len() && is_digit_byte(s[w])) || w >= s.len() || s[w] == 0x2eu8 {
        let v = digits_value_at(s, p, e);
        Some((Some(v), w))
    } else {
        Some((None, p))
    }
}

fn hour_at(s: &[u8], p: usize) -> (r: Option<(Option<u32>, usize)>)
    requires
        p <= s@.len(),
    ensures
        at_int(r) == hour_rule(s@, p as int),
        r matches Some((_, q)) ==> q <= s@.len(),
        r matches Some((Some(v), _)) ==> v <= MAX_HOURS,
{
    let e = skip_digits_at(s, p);
    if e == p {
        Some((None, p))
    } else if e - p > MAX_INT_DIGITS {
        None
    } else {
        let v = digits_value_at(s, p, e);
        if v > MAX_HOURS {
            Some((None, p))
        } else {
            Some((Some(v), e))
        }
    }
}

fn separator_at(s: &[u8], p: usize) -> (r: (bool, usize))
    requires
        p <= s@.len(),
    ensures
        (r.0, r.1 as int) == separator_rule(s@, p as int),
        r.1 <= s@.len(),
{
    let w = skip_space_at(s, p);
    if w < s.len() && s[w] == 0x3au8 {
        (true, skip_space_at(s, w + 1))
    } else {
        (false, w)
    }
}

fn field_at(s: &[u8], p: usize, announced: bool, max: u32) -> (r: Option<(Option<u32>, usize)>)
    requires
        p <= s@.len(),
    ensures
        at_int(r) == field_rule(s@, p as int, announced, max as nat),
        r matches Some((_, q)) ==> q <= s@.len(),
        r matches Some((Some(v), _)) ==> v <= max,
{
    let e = skip_digits_at(s, p);
    if !announced {
        Some((None, p))
    } else if e == p || e - p > MAX_INT_DIGITS {
        None
    } else {
        let v = digits_value_at(s, p, e);
        if v > max {
            None
        } else {
            Some((Some(v), e))
        }
    }
}

fn fraction_at(s: &[u8], p: usize, fsp: u8) -> (r: (Option<u32>, usize))
    requires
        p <= s@.len(),
        fsp <= 6,
    ensures
        (r.0, r.1 as int) == fraction_rule(s@, p as int, fsp as nat),
        r.1 <= s@.len(),
        r.0 matches Some(v) ==> v < 10_000_000,
{
    let w = skip_space_at(s, p);
    let q = if w < s.len() && s[w] == 0x2eu8 {
        w + 1
    } else {
        w
    };
    let e = skip_digits_at(s, q);
    let fraction = if e == q {
        None
    } else {
        let n = e - q;
        let k = if fsp as usize >= n {
            n
        } else {
            fsp as usize + 1
        };
        let v = digits_value_at(s, q, q + k);
        let scale = ten_pow((7 - k) as u32);
        proof {
            lemma_digits_value_bound(s@, q as int, (q + k) as int);
            lemma_pow10_seven();
            lemma_scaled_fraction_bound(v as nat, k as nat);
        }
        Some(v * scale)
    };
    (fraction, skip_space_at(s, e))
}

/// At most seven digits scaled to seven places stay below ten million.
proof fn lemma_scaled_fraction_bound(v: nat, k: nat)
    requires
        1 <= k <= 7,
        v < pow10(k),
    ensures
        v * pow10((7 - k) as nat) < 10_000_000,
{
    let m = pow10((7 - k) as nat);
    lemma_pow10_seven();
    lemma_pow10_add(k, (7 - k) as nat);
    assert(k + (7 - k) == 7);
    assert(v * m < pow10(k) * m) by (nonlinear_arith)
        requires
            v < pow10(k),
            m > 0,
    ;
}

/// Reads the fields of a time literal at precision `fsp`; `None` when `input`
/// is not one.
pub fn parse(input: &[u8], fsp: u8) -> (r: Option<ParsedLiteral>)
    requires
        fsp <= 6,
    ensures
        r == parse_literal(input@, fsp as nat),
        r matches Some(l) ==> l.bounded(),
{
    let p0 = skip_space_at(input, 0);
    let (neg, p1) = match sign_at(input, p0) {
        None => return None,
        Some(x) => x,
    };
    let (day, p2) = match day_at(input, p1) {
        None => return None,
        Some(x) => x,
    };
    let (hour, p3) = match hour_at(input, p2) {
        None => return None,
        Some(x) => x,
    };
    let (has_minute, p4) = separator_at(input, p3);
    let (minute, p5) = match field_at(input, p4, has_minute, MAX_MINUTES) {
        None => return None,
        Some(x) => x,
    };
    let (has_second, p6) = separator_at(input, p5);
    let (second, p7) = match field_at(input, p6, has_second, MAX_SECONDS) {
        None => return None,
        Some(x) => x,
    };
    let (fraction, p8) = fraction_at(input, p7, fsp);
    if p8 == input.len() {
        Some(ParsedLiteral { neg, day, hour, minute, second, fraction })
    } else {
        None
    }
}

} // verus!
