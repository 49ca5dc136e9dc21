//! The `TIME` value of a relational database: a signed duration of at most
//! 838:59:59.999999, stored at microsecond resolution together with the number
//! of fractional digits it is shown with.
//!
//! The crate holds the value type and its bit layout, the tolerant parser of
//! time literals, rounding and checked arithmetic, canonical formatting, and
//! the binary wire form.

pub mod bounds;
pub mod codec;
pub mod duration;
pub mod error;
pub mod format;
pub mod laws;
pub mod model;
pub mod parser;

pub use bounds::{
    check_fsp, check_hour, check_micros, check_minute, check_second, MAX_FSP, MAX_HOURS,
    MAX_MICROS, MAX_MINUTES, MAX_SECONDS,
};
pub use codec::DurationEncoder;
pub use duration::Duration;
pub use model::{DurationModel, MAX_MAGNITUDE, MICROS_PER_SEC, NANOS_PER_SEC};
pub use error::DurationError;
pub use parser::{parse, ParsedLiteral};
