use vstd::prelude::*;

verus! {

/// Why an operation on a duration failed.
#[derive(Debug, Clone, Copy, PartialEq, Eq, Structural)]
pub enum DurationError {
    /// An hour count above the largest one allowed; carries the offending value.
    InvalidHour(u32),
    /// A minute count above 59; carries the offending value.
    InvalidMinute(u32),
    /// A second count above 59; carries the offending value.
    InvalidSecond(u32),
    /// A microsecond count above 999_999; carries the offending value.
    InvalidMicros(u32),
    /// A fractional-seconds precision outside `0..=6`; carries the offending value.
    InvalidFsp(i32),
    /// Text that is not a time literal.
    InvalidFormat,
    /// A millisecond count whose microsecond count does not fit in an `i64`.
    MicrosOverflow,
    /// Encoded input that ends before a whole duration was read.
    UnexpectedEof,
}

} // verus!
