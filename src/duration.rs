//! The duration value: construction with rounding, accessors, conversions,
//! checked arithmetic and comparison.
use crate::bounds::{
    check_fsp, lemma_pow10_add, lemma_pow10_positive, pow10, ten_pow, MAX_HOURS, MAX_MICROS, MAX_MINUTES,
    MAX_SECONDS,
};
use crate::error::DurationError;
use crate::model::{
    compare_values, div_trunc, duration_of_value, from_bits_spec, from_micros_spec,
    lemma_round_micros_bound, lemma_split_magnitude, max_nat, pack, parse_spec, round_micros,
    rounded, DurationModel, MAX_MAGNITUDE, NANOS_PER_SEC,
};
use crate::parser;
use vstd::prelude::*;

verus! {

/// A duration: sign, hours, minutes, seconds, microseconds and the number of
/// fractional digits it is shown with.
#[derive(Debug, Clone, Copy)]
pub struct Duration {
    neg: bool,
    hours: u32,
    minutes: u32,
    secs: u32,
    micros: u32,
    fsp: u8,
}

impl View for Duration {
    type V = DurationModel;

    closed spec fn view(&self) -> DurationModel {
        DurationModel {
            neg: self.neg,
            hours: self.hours as nat,
            minutes: self.minutes as nat,
            secs: self.secs as nat,
            micros: self.micros as nat,
            fsp: self.fsp as nat,
        }
    }
}

/// A result carrying a duration, seen through the duration's model.
pub open spec fn result_view(r: Result<Duration, DurationError>) -> Result<DurationModel, DurationError> {
    match r {
        Ok(d) => Ok(d@),
        Err(e) => Err(e),
    }
}

impl Duration {
    /// Builds a duration from fields already in range; zero is made positive.
    fn new(neg: bool, hours: u32, minutes: u32, secs: u32, micros: u32, fsp: u8) -> (r: Duration)
        ensures
            r@ == (DurationModel {
                neg: neg && !(hours == 0 && minutes == 0 && secs == 0 && micros == 0),
                hours: hours as nat,
                minutes: minutes as nat,
                secs: secs as nat,
                micros: micros as nat,
                fsp: fsp as nat,
            }),
    {
        let zero = hours == 0 && minutes == 0 && secs == 0 && micros == 0;
        Duration { neg: neg && !zero, hours, minutes, secs, micros, fsp }
    }

    /// Rounds the sub-second part, given in tenths of a microsecond, half up to
    /// `fsp` places, carries into seconds, minutes and hours, and builds the
    /// duration, unless the hour count then exceeds `MAX_HOURS`.
    fn round(neg: bool, hours: u32, minutes: u32, secs: u32, tenths: u32, fsp: u8) -> (r: Result<
        Duration,
        DurationError,
    >)
        requires
            hours < u32::MAX,
            minutes <= MAX_MINUTES,
            secs <= MAX_SECONDS,
            tenths < 10_000_000,
            fsp <= 6,
        ensures
            result_view(r) == rounded(
                neg,
                hours as nat,
                minutes as nat,
                secs as nat,
                tenths as nat,
                fsp as nat,
            ),
            r matches Ok(d) ==> d@.wf() && d@.aligned() && d@.fsp == fsp,
    {
        let unit = ten_pow(6 - fsp as u32);
        proof {
            lemma_round_micros_bound(tenths as nat, fsp as nat);
            lemma_pow10_positive((6 - fsp) as nat);
            lemma_pow10_positive(fsp as nat);
            assert(unit <= 1_000_000) by (nonlinear_arith)
                requires
                    unit * pow10(fsp as nat) == 1_000_000,
                    pow10(fsp as nat) > 0,
            ;
        }
        let mut us: u32 = (tenths + 5 * unit) / (10 * unit) * unit;
        assert(us as nat == round_micros(tenths as nat, fsp as nat));
        let mut h = hours;
        let mut mi = minutes;
        let mut s = secs;
        if us >= 1_000_000 {
            us = us - 1_000_000;
            s = s + 1;
            if s >= 60 {
                s = s - 60;
                mi = mi + 1;
            }
            if mi >= 60 {
                mi = mi - 60;
                h = h + 1;
            }
        }
        proof {
            assert(((h * 60 + mi) * 60 + s) * 1_000_000 + us == ((hours * 60 + minutes) * 60 + secs)
                * 1_000_000 + round_micros(tenths as nat, fsp as nat));
            lemma_split_magnitude(neg, h as nat, mi as nat, s as nat, us as nat, fsp as nat);
            let q = (tenths + 5 * unit) / (10 * unit);
            if q * unit >= 1_000_000 {
                assert(q * unit - 1_000_000 == (q - pow10(fsp as nat)) * unit) by (nonlinear_arith)
                    requires
                        unit * pow10(fsp as nat) == 1_000_000,
                ;
                vstd::arithmetic::div_mod::lemma_mod_multiples_basic(
                    (q - pow10(fsp as nat)) as int,
                    unit as int,
                );
            } else {
                vstd::arithmetic::div_mod::lemma_mod_multiples_basic(q as int, unit as int);
            }
        }
        if h > MAX_HOURS {
            Err(DurationError::InvalidHour(h))
        } else {
            Ok(Duration::new(neg, h, mi, s, us, fsp))
        }
    }
}

impl Duration {
    /// The bit layout of the duration.
    pub fn to_bits(self) -> (r: u64)
        ensures
            r == pack(
                self@.neg,
                self@.hours as u64,
                self@.minutes as u64,
                self@.secs as u64,
                self@.micros as u64,
                self@.fsp as u64,
            ),
    {
        (if self.neg { 1u64 } else { 0u64 }) << 63u64 | (self.hours as u64 & 0x3fffu64) << 48u64 | (
        self.minutes as u64 & 0xffu64) << 40u64 | (self.secs as u64 & 0xffu64) << 32u64 | (
        self.micros as u64 & 0xff_ffffu64) << 8u64 | self.fsp as u64 & 0xffu64
    }

    pub fn hours(self) -> (r: u32)
        ensures
            r as nat == self@.hours,
    {
        self.hours
    }

    pub fn minutes(self) -> (r: u32)
        ensures
            r as nat == self@.minutes,
    {
        self.minutes
    }

    pub fn secs(self) -> (r: u32)
        ensures
            r as nat == self@.secs,
    {
        self.secs
    }

    pub fn micros(self) -> (r: u32)
        ensures
            r as nat == self@.micros,
    {
        self.micros
    }

    pub fn fsp(self) -> (r: u8)
        ensures
            r as nat == self@.fsp,
    {
        self.fsp
    }

    /// Whether the duration is negative.
    pub fn is_neg(self) -> (r: bool)
        ensures
            r == self@.neg,
    {
        self.neg
    }

    /// The same duration shown with six fractional digits.
    pub fn maximize_fsp(self) -> (r: Duration)
        ensures
            r@ == (DurationModel { fsp: 6, ..self@ }),
    {
        Duration { fsp: 6, ..self }
    }

    /// The duration whose bit layout is `v`, with the reserved bit cleared, unless
    /// a field is out of range.
    pub fn from_bits(v: u64) -> (r: Result<Duration, DurationError>)
        ensures
            result_view(r) == from_bits_spec(v),
            r matches Ok(d) ==> d@.wf(),
    {
        let hours = ((v >> 48u64) & 0x3fffu64) as u32;
        let minutes = ((v >> 40u64) & 0xffu64) as u32;
        let secs = ((v >> 32u64) & 0xffu64) as u32;
        let micros = ((v >> 8u64) & 0xff_ffffu64) as u32;
        let fsp = (v & 0xffu64) as u8;
        assert(((v >> 48u64) & 0x3fffu64) <= 0x3fffu64) by (bit_vector);
        assert(((v >> 40u64) & 0xffu64) <= 0xffu64) by (bit_vector);
        assert(((v >> 32u64) & 0xffu64) <= 0xffu64) by (bit_vector);
        assert(((v >> 8u64) & 0xff_ffffu64) <= 0xff_ffffu64) by (bit_vector);
        assert((v & 0xffu64) <= 0xffu64) by (bit_vector);
        if micros > MAX_MICROS {
            return Err(DurationError::InvalidMicros(micros));
        }
        if secs > MAX_SECONDS {
            return Err(DurationError::InvalidSecond(secs));
        }
        if minutes > MAX_MINUTES {
            return Err(DurationError::InvalidMinute(minutes));
        }
        if hours > MAX_HOURS {
            return Err(DurationError::InvalidHour(hours));
        }
        Ok(Duration::new((v >> 63u64) == 1, hours, minutes, secs, micros, fsp))
    }

    /// The zero duration, shown without fractional digits.
    pub fn zero() -> (r: Duration)
        ensures
            r@ == (DurationModel { neg: false, hours: 0, minutes: 0, secs: 0, micros: 0, fsp: 0 }),
            r@.wf(),
    {
        Duration { neg: false, hours: 0, minutes: 0, secs: 0, micros: 0, fsp: 0 }
    }

    /// Whether the magnitude is zero, whatever the sign and precision.
    pub fn is_zero(self) -> (r: bool)
        ensures
            r == self@.is_zero(),
    {
        self.hours == 0 && self.minutes == 0 && self.secs == 0 && self.micros == 0
    }

    /// The duration with its sign dropped.
    pub fn abs(self) -> (r: Duration)
        ensures
            r@ == (DurationModel { neg: false, ..self@ }),
    {
        Duration { neg: false, ..self }
    }

    /// The sub-second part, in whole microseconds.
    pub fn subsec_micros(self) -> (r: u32)
        ensures
            r as nat == self@.micros,
    {
        self.micros
    }

    /// The signed count of whole seconds.
    pub fn to_secs(self) -> (r: i32)
        requires
            self@.wf(),
        ensures
            r == (if self@.neg {
                -((self@.hours * 60 + self@.minutes) * 60 + self@.secs)
            } else {
                ((self@.hours * 60 + self@.minutes) * 60 + self@.secs) as int
            }),
    {
        let secs = (self.hours * 3600 + self.minutes * 60 + self.secs) as i32;
        if self.neg {
            -secs
        } else {
            secs
        }
    }

    /// The signed count of nanoseconds: the whole seconds scaled, plus the
    /// microseconds scaled and given the sign of the duration.
    pub fn to_nanos(self) -> (r: i64)
        requires
            self@.wf(),
        ensures
            r == self@.value() * 1000,
    {
        let secs = self.to_secs() as i64 * NANOS_PER_SEC;
        let micros = self.subsec_micros() as i64;
        secs + (if self.neg {
            -micros
        } else {
            micros
        }) * 1000
    }

    /// The duration of `micros` microseconds at precision `fsp`, rounded.
    pub fn from_micros(micros: i64, fsp: i8) -> (r: Result<Duration, DurationError>)
        ensures
            result_view(r) == from_micros_spec(micros as int, fsp),
            r matches Ok(d) ==> d@.wf() && d@.aligned(),
    {
        let fsp = match check_fsp(fsp) {
            Ok(f) => f,
            Err(e) => return Err(e),
        };
        let neg = micros < 0;
        let t: u64 = if neg {
            (-(micros + 1)) as u64 + 1
        } else {
            micros as u64
        };
        let secs = t / 1_000_000;
        let minutes = secs / 60;
        Duration::round(
            neg,
            (minutes / 60) as u32,
            (minutes % 60) as u32,
            (secs % 60) as u32,
            (t % 1_000_000) as u32 * 10,
            fsp,
        )
    }

    /// The duration of `millis` milliseconds at precision `fsp`, unless the count
    /// of microseconds overflows.
    pub fn from_millis(millis: i64, fsp: i8) -> (r: Result<Duration, DurationError>)
        ensures
            !(i64::MIN <= millis * 1000 <= i64::MAX) ==> r == Err::<Duration, DurationError>(
                DurationError::MicrosOverflow,
            ),
            i64::MIN <= millis * 1000 <= i64::MAX ==> result_view(r) == from_micros_spec(
                millis * 1000,
                fsp,
            ),
            r matches Ok(d) ==> d@.wf() && d@.aligned(),
    {
        if millis > i64::MAX / 1000 || millis < i64::MIN / 1000 {
            return Err(DurationError::MicrosOverflow);
        }
        Duration::from_micros(millis * 1000, fsp)
    }

    /// The duration of `nanos` nanoseconds at precision `fsp`; the nanoseconds
    /// are cut to whole microseconds toward zero, then rounded.
    pub fn from_nanos(nanos: i64, fsp: i8) -> (r: Result<Duration, DurationError>)
        ensures
            result_view(r) == from_micros_spec(div_trunc(nanos as int, 1000), fsp),
            r matches Ok(d) ==> d@.wf() && d@.aligned(),
    {
        let micros: i64 = if nanos >= 0 {
            nanos / 1000
        } else {
            -((((-(nanos + 1)) as u64 + 1) / 1000) as i64)
        };
        Duration::from_micros(micros, fsp)
    }
}

/// An optional duration, seen through the duration's model.
pub open spec fn option_view(r: Option<Duration>) -> Option<DurationModel> {
    match r {
        Some(d) => Some(d@),
        None => None,
    }
}

/// Microseconds that carry no digit beyond one precision carry none beyond a
/// larger one either.
proof fn lemma_aligned_coarser(micros: nat, fsp: nat, wider: nat)
    requires
        fsp <= wider <= 6,
        micros % pow10((6 - fsp) as nat) == 0,
    ensures
        micros % pow10((6 - wider) as nat) == 0,
{
    let unit = pow10((6 - wider) as nat);
    let coarse = pow10((6 - fsp) as nat);
    lemma_pow10_add((wider - fsp) as nat, (6 - wider) as nat);
    lemma_pow10_positive((6 - fsp) as nat);
    assert((wider - fsp) + (6 - wider) == 6 - fsp);
    let k = micros / coarse;
    vstd::arithmetic::div_mod::lemma_fundamental_div_mod(micros as int, coarse as int);
    assert(micros == (k * pow10((wider - fsp) as nat)) * unit) by (nonlinear_arith)
        requires
            micros == coarse * k,
            coarse == pow10((wider - fsp) as nat) * unit,
    ;
    vstd::arithmetic::div_mod::lemma_mod_multiples_basic(
        (k * pow10((wider - fsp) as nat)) as int,
        unit as int,
    );
}

impl Duration {
    /// Parses a time literal and rounds it to `fsp` fractional digits.
    pub fn parse(input: &[u8], fsp: i8) -> (r: Result<Duration, DurationError>)
        ensures
            result_view(r) == parse_spec(input@, fsp),
            r matches Ok(d) ==> d@.wf() && d@.aligned(),
    {
        if input.len() == 0 {
            return Err(DurationError::InvalidFormat);
        }
        let fsp = match check_fsp(fsp) {
            Ok(f) => f,
            Err(e) => return Err(e),
        };
        let l = match parser::parse(input, fsp) {
            None => return Err(DurationError::InvalidFormat),
            Some(l) => l,
        };
        let fraction = match l.fraction {
            Some(v) => v,
            None => 0,
        };
        let (hour, minute, second) = match (l.day, l.hour) {
            (Some(block), None) => {
                let minute = block / 100 % 100;
                let second = block % 100;
                if minute > MAX_MINUTES {
                    return Err(DurationError::InvalidMinute(minute));
                }
                if second > MAX_SECONDS {
                    return Err(DurationError::InvalidSecond(second));
                }
                (block / 10_000, minute, second)
            },
            (day, hour) => {
                let d = match day {
                    Some(v) => v,
                    None => 0,
                };
                let h = match hour {
                    Some(v) => v,
                    None => 0,
                };
                let minute = match l.minute {
                    Some(v) => v,
                    None => 0,
                };
                let second = match l.second {
                    Some(v) => v,
                    None => 0,
                };
                (h + 24 * d, minute, second)
            },
        };
        Duration::round(l.neg, hour, minute, second, fraction, fsp)
    }

    /// The duration rounded half up to `fsp` fractional digits. A precision at
    /// least the current one changes only the precision.
    pub fn round_frac(self, fsp: i8) -> (r: Result<Duration, DurationError>)
        requires
            self@.wf(),
        ensures
            !(0 <= fsp <= 6) ==> r == Err::<Duration, DurationError>(
                DurationError::InvalidFsp(fsp as i32),
            ),
            0 <= fsp <= 6 && fsp >= self@.fsp ==> result_view(r) == Ok::<
                DurationModel,
                DurationError,
            >(DurationModel { fsp: fsp as nat, ..self@ }),
            0 <= fsp <= 6 && fsp < self@.fsp ==> result_view(r) == rounded(
                self@.neg,
                self@.hours,
                self@.minutes,
                self@.secs,
                self@.micros * 10,
                fsp as nat,
            ),
            r matches Ok(d) ==> d@.wf(),
            self@.aligned() ==> (r matches Ok(d) ==> d@.aligned()),
    {
        let fsp = match check_fsp(fsp) {
            Ok(f) => f,
            Err(e) => return Err(e),
        };
        if fsp >= self.fsp {
            proof {
                if self@.aligned() {
                    lemma_aligned_coarser(self@.micros, self@.fsp, fsp as nat);
                }
            }
            return Ok(Duration { fsp, ..self });
        }
        Duration::round(self.neg, self.hours, self.minutes, self.secs, self.micros * 10, fsp)
    }

    /// The magnitude in microseconds.
    fn magnitude(self) -> (r: u64)
        requires
            self@.wf(),
        ensures
            r == self@.magnitude(),
            r <= MAX_MAGNITUDE,
    {
        ((self.hours as u64 * 60 + self.minutes as u64) * 60 + self.secs as u64) * 1_000_000
            + self.micros as u64
    }

    /// `a` and `b` added as magnitudes and given the sign `neg`, unless the hours
    /// then exceed `MAX_HOURS`.
    fn add_magnitudes(a: Duration, b: Duration, neg: bool, fsp: u8) -> (r: Option<Duration>)
        requires
            a@.wf(),
            b@.wf(),
        ensures
            option_view(r) == duration_of_value(
                if neg {
                    -(a@.magnitude() + b@.magnitude())
                } else {
                    (a@.magnitude() + b@.magnitude()) as int
                },
                fsp as nat,
            ),
    {
        let mut micros = a.micros + b.micros;
        let mut secs = a.secs + b.secs;
        let mut minutes = a.minutes + b.minutes;
        let mut hours = a.hours + b.hours;
        if micros >= 1_000_000 {
            micros = micros - 1_000_000;
            secs = secs + 1;
        }
        if secs >= 60 {
            secs = secs - 60;
            minutes = minutes + 1;
        }
        if minutes >= 60 {
            minutes = minutes - 60;
            hours = hours + 1;
        }
        proof {
            lemma_split_magnitude(
                neg,
                hours as nat,
                minutes as nat,
                secs as nat,
                micros as nat,
                fsp as nat,
            );
        }
        if hours > MAX_HOURS {
            None
        } else {
            Some(Duration::new(neg, hours, minutes, secs, micros, fsp))
        }
    }

    /// The magnitude of `a` less that of `b`, negative when `b` is the larger.
    #[verifier::rlimit(40)]
    fn sub_magnitudes(a: Duration, b: Duration, fsp: u8) -> (r: Duration)
        requires
            a@.wf(),
            b@.wf(),
        ensures
            duration_of_value(a@.magnitude() - b@.magnitude(), fsp as nat) == Some(r@),
    {
        let neg = a.magnitude() < b.magnitude();
        let (l, r) = if neg {
            (b, a)
        } else {
            (a, b)
        };
        let mut micros = l.micros as i32 - r.micros as i32;
        let mut secs = l.secs as i32 - r.secs as i32;
        let mut minutes = l.minutes as i32 - r.minutes as i32;
        let mut hours = l.hours as i32 - r.hours as i32;
        if micros < 0 {
            micros = micros + 1_000_000;
            secs = secs - 1;
        }
        if secs < 0 {
            secs = secs + 60;
            minutes = minutes - 1;
        }
        if minutes < 0 {
            minutes = minutes + 60;
            hours = hours - 1;
        }
        assert(((hours * 60 + minutes) * 60 + secs) * 1_000_000 + micros == l@.magnitude()
            - r@.magnitude());
        assert(hours >= 0);
        proof {
            lemma_split_magnitude(
                neg,
                hours as nat,
                minutes as nat,
                secs as nat,
                micros as nat,
                fsp as nat,
            );
        }
        Duration::new(neg, hours as u32, minutes as u32, secs as u32, micros as u32, fsp)
    }

    /// `self + rhs`, or `None` when the sum lies beyond `MAX_MAGNITUDE`. The
    /// precision is the larger of the two.
    pub fn checked_add(self, rhs: Duration) -> (r: Option<Duration>)
        requires
            self@.wf(),
            rhs@.wf(),
        ensures
            option_view(r) == duration_of_value(
                self@.value() + rhs@.value(),
                max_nat(self@.fsp, rhs@.fsp),
            ),
            r matches Some(d) ==> d@.wf(),
    {
        let fsp = if self.fsp >= rhs.fsp {
            self.fsp
        } else {
            rhs.fsp
        };
        match (self.neg, rhs.neg) {
            (false, true) => Some(Duration::sub_magnitudes(self, rhs, fsp)),
            (true, false) => Some(Duration::sub_magnitudes(rhs, self, fsp)),
            (neg, _) => Duration::add_magnitudes(self, rhs, neg, fsp),
        }
    }

    /// `self - rhs`, or `None` when the difference lies beyond `MAX_MAGNITUDE`.
    /// The precision is the larger of the two.
    pub fn checked_sub(self, rhs: Duration) -> (r: Option<Duration>)
        requires
            self@.wf(),
            rhs@.wf(),
        ensures
            option_view(r) == duration_of_value(
                self@.value() - rhs@.value(),
                max_nat(self@.fsp, rhs@.fsp),
            ),
            r matches Some(d) ==> d@.wf(),
    {
        let fsp = if self.fsp >= rhs.fsp {
            self.fsp
        } else {
            rhs.fsp
        };
        match (self.neg, rhs.neg) {
            (false, false) => Some(Duration::sub_magnitudes(self, rhs, fsp)),
            (true, true) => Some(Duration::sub_magnitudes(rhs, self, fsp)),
            (neg, _) => Duration::add_magnitudes(self, rhs, neg, fsp),
        }
    }
}

impl Duration {
    /// The magnitude in microseconds, whatever the fields hold.
    fn raw_magnitude(&self) -> (r: u64)
        ensures
            r == self@.magnitude(),
    {
        let h = self.hours as u64;
        let m = self.minutes as u64;
        let s = self.secs as u64;
        let us = self.micros as u64;
        assert(((h * 60 + m) * 60 + s) * 1_000_000 + us <= u64::MAX) by (nonlinear_arith)
            requires
                h <= u32::MAX,
                m <= u32::MAX,
                s <= u32::MAX,
                us <= u32::MAX,
        ;
        ((h * 60 + m) * 60 + s) * 1_000_000 + us
    }

    /// What equal durations share: the bit layout with the precision cleared and
    /// the sign of zero dropped.
    pub fn hash_key(&self) -> (r: u64)
        ensures
            r == pack(
                self@.neg && !self@.is_zero(),
                self@.hours as u64,
                self@.minutes as u64,
                self@.secs as u64,
                self@.micros as u64,
                0,
            ),
    {
        let zero = self.is_zero();
        Duration { neg: self.neg && !zero, fsp: 0, ..*self }.to_bits()
    }
}

impl PartialEq for Duration {
    fn eq(&self, other: &Duration) -> (r: bool) {
        let a = self.raw_magnitude();
        let b = other.raw_magnitude();
        a == b && (a == 0 || self.neg == other.neg)
    }
}

impl vstd::std_specs::cmp::PartialEqSpecImpl for Duration {
    open spec fn obeys_eq_spec() -> bool {
        true
    }

    /// Equal signed lengths; the precision does not count.
    open spec fn eq_spec(&self, other: &Duration) -> bool {
        self@.value() == other@.value()
    }
}

impl Eq for Duration {

}

impl PartialOrd for Duration {
    fn partial_cmp(&self, other: &Duration) -> (r: Option<core::cmp::Ordering>) {
        let a = self.raw_magnitude();
        let b = other.raw_magnitude();
        let a_neg = self.neg && a != 0;
        let b_neg = other.neg && b != 0;
        if a_neg != b_neg {
            if a_neg {
                Some(core::cmp::Ordering::Less)
            } else {
                Some(core::cmp::Ordering::Greater)
            }
        } else if a == b {
            Some(core::cmp::Ordering::Equal)
        } else if (a < b) != a_neg {
            Some(core::cmp::Ordering::Less)
        } else {
            Some(core::cmp::Ordering::Greater)
        }
    }
}

impl vstd::std_specs::cmp::PartialOrdSpecImpl for Duration {
    open spec fn obeys_partial_cmp_spec() -> bool {
        true
    }

    /// Signed lengths compared; the precision does not count.
    open spec fn partial_cmp_spec(&self, other: &Duration) -> Option<core::cmp::Ordering> {
        Some(compare_values(self@.value(), other@.value()))
    }
}

/// Relies on std's `Hash` for `u64`, which feeds the integer to the hasher; no
/// property of the hash is claimed.
pub assume_specification<H: core::hash::Hasher>[ <u64 as core::hash::Hash>::hash::<H> ](
    v: &u64,
    state: &mut H,
);

impl core::hash::Hash for Duration {
    fn hash<H: core::hash::Hasher>(&self, state: &mut H) {
        let key = self.hash_key();
        key.hash(state);
    }
}

} // verus!
