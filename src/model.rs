//! What a duration stands for, and the spec functions that the operations are
//! stated with: rounding, carrying, the literal grammar's combination rules,
//! the bit layout and the integer conversions.
use crate::bounds::{
    lemma_pow10_add, lemma_pow10_positive, lemma_pow10_seven, pow10, MAX_HOURS, MAX_MICROS,
    MAX_MINUTES, MAX_SECONDS,
};
use crate::error::DurationError;
use crate::parser::{parse_literal, ParsedLiteral};
use vstd::arithmetic::div_mod::lemma_fundamental_div_mod_converse;
use vstd::prelude::*;

verus! {

/// Microseconds in a second.
pub const MICROS_PER_SEC: i64 = 1_000_000;

/// Nanoseconds in a second.
pub const NANOS_PER_SEC: i64 = 1_000_000_000;

/// The magnitude of the longest duration, 838:59:59.999999, in microseconds.
pub const MAX_MAGNITUDE: u64 = 3_020_399_999_999;

/// What a duration stands for: a sign, four magnitude fields and the number of
/// fractional digits it is shown with.
pub struct DurationModel {
    pub neg: bool,
    pub hours: nat,
    pub minutes: nat,
    pub secs: nat,
    pub micros: nat,
    pub fsp: nat,
}

impl DurationModel {
    /// The magnitude in microseconds.
    pub open spec fn magnitude(self) -> nat {
        ((self.hours * 60 + self.minutes) * 60 + self.secs) * 1_000_000 + self.micros
    }

    /// The signed length in microseconds.
    pub open spec fn value(self) -> int {
        if self.neg {
            -(self.magnitude() as int)
        } else {
            self.magnitude() as int
        }
    }

    pub open spec fn is_zero(self) -> bool {
        self.magnitude() == 0
    }

    /// Every magnitude field in range, and no negative zero.
    pub open spec fn wf(self) -> bool {
        &&& self.hours <= MAX_HOURS
        &&& self.minutes <= MAX_MINUTES
        &&& self.secs <= MAX_SECONDS
        &&& self.micros <= MAX_MICROS
        &&& self.is_zero() ==> !self.neg
    }

    /// The microseconds carry no digit beyond the precision.
    pub open spec fn aligned(self) -> bool {
        self.fsp <= 6 && self.micros % pow10((6 - self.fsp) as nat) == 0
    }
}

/// The duration of `t` microseconds with the given sign and precision, its
/// fields carried into range; zero is never negative.
pub open spec fn split_magnitude(neg: bool, t: nat, fsp: nat) -> DurationModel {
    DurationModel {
        neg: neg && t != 0,
        hours: t / 1_000_000 / 60 / 60,
        minutes: t / 1_000_000 / 60 % 60,
        secs: t / 1_000_000 % 60,
        micros: t % 1_000_000,
        fsp: fsp,
    }
}

/// A sub-second count in tenths of a microsecond, rounded half up to `fsp`
/// fractional digits and given in microseconds. A step of the last kept digit is
/// `pow10(6 - fsp)` microseconds, ten times as many tenths; the result may reach
/// a whole second.
pub open spec fn round_micros(tenths: nat, fsp: nat) -> nat {
    let unit = pow10((6 - fsp) as nat);
    (tenths + 5 * unit) / (10 * unit) * unit
}

/// The fields, the sub-second part in tenths of a microsecond, rounded to
/// precision `fsp` and carried, or the hour count that came out too large.
pub open spec fn rounded(
    neg: bool,
    hours: nat,
    minutes: nat,
    secs: nat,
    tenths: nat,
    fsp: nat,
) -> Result<DurationModel, DurationError> {
    let d = split_magnitude(
        neg,
        ((hours * 60 + minutes) * 60 + secs) * 1_000_000 + round_micros(tenths, fsp),
        fsp,
    );
    if d.hours > MAX_HOURS {
        Err(DurationError::InvalidHour(d.hours as u32))
    } else {
        Ok(d)
    }
}

/// Fields in range are what splitting their magnitude gives back.
pub proof fn lemma_split_magnitude(neg: bool, h: nat, m: nat, s: nat, us: nat, fsp: nat)
    requires
        m < 60,
        s < 60,
        us < 1_000_000,
    ensures
        split_magnitude(neg, ((h * 60 + m) * 60 + s) * 1_000_000 + us, fsp) == (DurationModel {
            neg: neg && (((h * 60 + m) * 60 + s) * 1_000_000 + us) != 0,
            hours: h,
            minutes: m,
            secs: s,
            micros: us,
            fsp: fsp,
        }),
{
    let t = ((h * 60 + m) * 60 + s) * 1_000_000 + us;
    lemma_fundamental_div_mod_converse(t as int, 1_000_000, ((h * 60 + m) * 60 + s) as int, us as int);
    lemma_fundamental_div_mod_converse(((h * 60 + m) * 60 + s) as int, 60, (h * 60 + m) as int, s as int);
    lemma_fundamental_div_mod_converse((h * 60 + m) as int, 60, h as int, m as int);
}

/// The fields of a time literal as hours, minutes, seconds and fraction: a day
/// count without hours is an `HHMMSS` block, one with hours adds 24 hours a day.
pub open spec fn literal_parts(l: ParsedLiteral) -> Result<(nat, nat, nat, nat), DurationError> {
    let fraction = opt_nat(l.fraction);
    if l.day is Some && l.hour is None {
        let block = opt_nat(l.day);
        if block / 100 % 100 > MAX_MINUTES {
            Err(DurationError::InvalidMinute((block / 100 % 100) as u32))
        } else if block % 100 > MAX_SECONDS {
            Err(DurationError::InvalidSecond((block % 100) as u32))
        } else {
            Ok((block / 10_000, block / 100 % 100, block % 100, fraction))
        }
    } else {
        Ok((opt_nat(l.hour) + 24 * opt_nat(l.day), opt_nat(l.minute), opt_nat(l.second), fraction))
    }
}

pub open spec fn opt_nat(o: Option<u32>) -> nat {
    match o {
        Some(v) => v as nat,
        None => 0,
    }
}

/// The duration that the literal `s` gives at precision `fsp`.
pub open spec fn parse_spec(s: Seq<u8>, fsp: i8) -> Result<DurationModel, DurationError> {
    if s.len() == 0 {
        Err(DurationError::InvalidFormat)
    } else if !(0 <= fsp <= 6) {
        Err(DurationError::InvalidFsp(fsp as i32))
    } else {
        match parse_literal(s, fsp as nat) {
            None => Err(DurationError::InvalidFormat),
            Some(l) => match literal_parts(l) {
                Err(e) => Err(e),
                Ok((h, m, sec, us)) => rounded(l.neg, h, m, sec, us, fsp as nat),
            },
        }
    }
}

pub(crate) proof fn lemma_round_micros_bound(tenths: nat, fsp: nat)
    requires
        tenths < 10_000_000,
        fsp <= 6,
    ensures
        round_micros(tenths, fsp) <= 1_000_000,
        pow10((6 - fsp) as nat) * pow10(fsp) == 1_000_000,
{
    let unit = pow10((6 - fsp) as nat);
    let n = pow10(fsp);
    lemma_pow10_add((6 - fsp) as nat, fsp);
    lemma_pow10_positive(fsp);
    lemma_pow10_positive((6 - fsp) as nat);
    lemma_pow10_seven();
    assert(unit * n == 1_000_000);
    let g = 10 * unit;
    assert(tenths + 5 * unit < (n + 1) * g) by (nonlinear_arith)
        requires
            tenths < 10_000_000,
            unit * n == 1_000_000,
            g == 10 * unit,
            unit > 0,
    ;
    assert((tenths + 5 * unit) / g <= n) by {
        if (tenths + 5 * unit) / g > n {
            vstd::arithmetic::div_mod::lemma_fundamental_div_mod((tenths + 5 * unit) as int, g as int);
            assert((tenths + 5 * unit) / g * g >= (n + 1) * g) by (nonlinear_arith)
                requires
                    (tenths + 5 * unit) / g >= n + 1,
                    g > 0,
            ;
        }
    }
    let q = (tenths + 5 * unit) / g;
    assert(q * unit <= n * unit) by (nonlinear_arith)
        requires
            q <= n,
            unit > 0,
    ;
}

/// The duration of `micros` microseconds at precision `fsp`.
pub open spec fn from_micros_spec(micros: int, fsp: i8) -> Result<DurationModel, DurationError> {
    let t = (if micros < 0 { -micros } else { micros }) as nat;
    if !(0 <= fsp <= 6) {
        Err(DurationError::InvalidFsp(fsp as i32))
    } else {
        rounded(
            micros < 0,
            t / 1_000_000 / 60 / 60,
            t / 1_000_000 / 60 % 60,
            t / 1_000_000 % 60,
            t % 1_000_000 * 10,
            fsp as nat,
        )
    }
}

/// `a / b` rounded toward zero.
pub open spec fn div_trunc(a: int, b: int) -> int {
    if a >= 0 {
        a / b
    } else {
        -((-a) / b)
    }
}

/// The bit layout: sign at bit 63, a reserved bit 62, hours in bits 48..62,
/// minutes in 40..48, seconds in 32..40, microseconds in 8..32, precision in 0..8.
pub open spec fn pack(neg: bool, hours: u64, minutes: u64, secs: u64, micros: u64, fsp: u64) -> u64 {
    (if neg { 1u64 } else { 0u64 }) << 63u64 | (hours & 0x3fffu64) << 48u64 | (minutes & 0xffu64)
        << 40u64 | (secs & 0xffu64) << 32u64 | (micros & 0xff_ffffu64) << 8u64 | fsp & 0xffu64
}

/// The duration whose bit layout is `v`, with the reserved bit cleared, or the
/// first magnitude field found out of range (microseconds, seconds, minutes, then
/// hours). The precision byte is kept whatever it holds; zero is made positive.
pub open spec fn from_bits_spec(v: u64) -> Result<DurationModel, DurationError> {
    let hours = (v >> 48u64) & 0x3fffu64;
    let minutes = (v >> 40u64) & 0xffu64;
    let secs = (v >> 32u64) & 0xffu64;
    let micros = (v >> 8u64) & 0xff_ffffu64;
    let fsp = v & 0xffu64;
    if micros > MAX_MICROS {
        Err(DurationError::InvalidMicros(micros as u32))
    } else if secs > MAX_SECONDS {
        Err(DurationError::InvalidSecond(secs as u32))
    } else if minutes > MAX_MINUTES {
        Err(DurationError::InvalidMinute(minutes as u32))
    } else if hours > MAX_HOURS {
        Err(DurationError::InvalidHour(hours as u32))
    } else {
        let d = DurationModel {
            neg: (v >> 63u64) == 1,
            hours: hours as nat,
            minutes: minutes as nat,
            secs: secs as nat,
            micros: micros as nat,
            fsp: fsp as nat,
        };
        Ok(DurationModel { neg: d.neg && !d.is_zero(), ..d })
    }
}

/// The duration of signed length `v` microseconds at precision `fsp`, or `None`
/// when its magnitude exceeds `MAX_MAGNITUDE`.
pub open spec fn duration_of_value(v: int, fsp: nat) -> Option<DurationModel> {
    let t = (if v < 0 { -v } else { v }) as nat;
    if t > MAX_MAGNITUDE {
        None
    } else {
        Some(split_magnitude(v < 0, t, fsp))
    }
}

pub open spec fn max_nat(a: nat, b: nat) -> nat {
    if a >= b {
        a
    } else {
        b
    }
}

/// How two signed lengths compare.
pub open spec fn compare_values(a: int, b: int) -> core::cmp::Ordering {
    if a < b {
        core::cmp::Ordering::Less
    } else if a == b {
        core::cmp::Ordering::Equal
    } else {
        core::cmp::Ordering::Greater
    }
}

} // verus!
