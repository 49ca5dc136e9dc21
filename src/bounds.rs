use crate::error::DurationError;
use vstd::prelude::*;

verus! {

/// The largest hour count of a duration.
pub const MAX_HOURS: u32 = 838;

/// The largest minute count of a duration.
pub const MAX_MINUTES: u32 = 59;

/// The largest second count of a duration.
pub const MAX_SECONDS: u32 = 59;

/// The largest sub-second count of a duration, in microseconds.
pub const MAX_MICROS: u32 = 999_999;

/// The largest fractional-seconds precision.
pub const MAX_FSP: i8 = 6;

/// `10` to the power `n`.
pub open spec fn pow10(n: nat) -> nat
    decreases n,
{
    if n == 0 {
        1
    } else {
        10 * pow10((n - 1) as nat)
    }
}

pub(crate) proof fn lemma_pow10_seven()
    ensures
        pow10(7) == 10_000_000,
        pow10(6) == 1_000_000,
{
    reveal_with_fuel(pow10, 8);
}

pub(crate) proof fn lemma_pow10_monotone(a: nat, b: nat)
    requires
        a <= b,
    ensures
        pow10(a) <= pow10(b),
    decreases b,
{
    if a < b {
        lemma_pow10_monotone(a, (b - 1) as nat);
    }
}

/// `10^(a + b) == 10^a * 10^b`.
pub(crate) proof fn lemma_pow10_add(a: nat, b: nat)
    ensures
        pow10(a + b) == pow10(a) * pow10(b),
        pow10(b) > 0,
    decreases a,
{
    lemma_pow10_positive(b);
    if a > 0 {
        lemma_pow10_add((a - 1) as nat, b);
        assert(pow10(a + b) == 10 * pow10((a - 1 + b) as nat));
        assert(10 * (pow10((a - 1) as nat) * pow10(b)) == (10 * pow10((a - 1) as nat)) * pow10(b))
            by (nonlinear_arith);
        assert(pow10(a) == 10 * pow10((a - 1) as nat));
    } else {
        assert(pow10(0) == 1);
        assert(a + b == b);
    }
}

pub(crate) proof fn lemma_pow10_positive(n: nat)
    ensures
        pow10(n) > 0,
    decreases n,
{
    if n > 0 {
        lemma_pow10_positive((n - 1) as nat);
    }
}

/// `10` to the power `n`, for the exponents that the digit arithmetic needs.
pub(crate) fn ten_pow(n: u32) -> (r: u32)
    requires
        n <= 9,
    ensures
        r as nat == pow10(n as nat),
{
    proof {
        reveal_with_fuel(pow10, 10);
    }
    match n {
        0 => 1,
        1 => 10,
        2 => 100,
        3 => 1_000,
        4 => 10_000,
        5 => 100_000,
        6 => 1_000_000,
        7 => 10_000_000,
        8 => 100_000_000,
        _ => 1_000_000_000,
    }
}

/// Accepts an hour count of at most `MAX_HOURS`.
pub fn check_hour(hour: u32) -> (r: Result<u32, DurationError>)
    ensures
        hour <= MAX_HOURS ==> r == Ok::<u32, DurationError>(hour),
        hour > MAX_HOURS ==> r == Err::<u32, DurationError>(DurationError::InvalidHour(hour)),
{
    if hour > MAX_HOURS {
        Err(DurationError::InvalidHour(hour))
    } else {
        Ok(hour)
    }
}

/// Accepts a minute count of at most `MAX_MINUTES`.
pub fn check_minute(minute: u32) -> (r: Result<u32, DurationError>)
    ensures
        minute <= MAX_MINUTES ==> r == Ok::<u32, DurationError>(minute),
        minute > MAX_MINUTES ==> r == Err::<u32, DurationError>(
            DurationError::InvalidMinute(minute),
        ),
{
    if minute > MAX_MINUTES {
        Err(DurationError::InvalidMinute(minute))
    } else {
        Ok(minute)
    }
}

/// Accepts a second count of at most `MAX_SECONDS`.
pub fn check_second(second: u32) -> (r: Result<u32, DurationError>)
    ensures
        second <= MAX_SECONDS ==> r == Ok::<u32, DurationError>(second),
        second > MAX_SECONDS ==> r == Err::<u32, DurationError>(
            DurationError::InvalidSecond(second),
        ),
{
    if second > MAX_SECONDS {
        Err(DurationError::InvalidSecond(second))
    } else {
        Ok(second)
    }
}

/// Accepts a sub-second count of at most `MAX_MICROS`.
pub fn check_micros(micros: u32) -> (r: Result<u32, DurationError>)
    ensures
        micros <= MAX_MICROS ==> r == Ok::<u32, DurationError>(micros),
        micros > MAX_MICROS ==> r == Err::<u32, DurationError>(
            DurationError::InvalidMicros(micros),
        ),
{
    if micros > MAX_MICROS {
        Err(DurationError::InvalidMicros(micros))
    } else {
        Ok(micros)
    }
}

/// Accepts a fractional-seconds precision in `0..=MAX_FSP`.
pub fn check_fsp(fsp: i8) -> (r: Result<u8, DurationError>)
    ensures
        0 <= fsp <= MAX_FSP ==> r == Ok::<u8, DurationError>(fsp as u8),
        !(0 <= fsp <= MAX_FSP) ==> r == Err::<u8, DurationError>(
            DurationError::InvalidFsp(fsp as i32),
        ),
{
    if fsp < 0 || fsp > MAX_FSP {
        Err(DurationError::InvalidFsp(fsp as i32))
    } else {
        Ok(fsp as u8)
    }
}

} // verus!
