//! Precise time spans, time stamps, rational tick frequencies and a
//! variable-rate clock, all counted in whole nanoseconds.
//!
//! - [`TimeSpan`] is a signed interval in nanoseconds, and [`TimeStamp`] a
//!   point in time relative to a reference point.
//! - [`Frequency`] is a rational tick rate, and [`FrequencyTicker`] turns
//!   the spans fed to it into ticks at exactly that rate.
//! - [`ClockRate`] is a clock that runs at a rational multiple of the spans
//!   fed to it.
//!
//! Nothing here reads a clock: time passes when the caller says so.

pub mod clock;
pub mod display;
pub mod freq;
pub mod freq_text;
pub mod math;
pub mod message;
pub mod order;
pub mod parse;
pub mod rate;
pub mod span;
pub mod span_ops;
pub mod stamp;
pub mod step;

pub use crate::clock::Clock;
pub use crate::freq::{Frequency, FrequencyNumExt, FrequencyTicker, FrequencyTickerIter};
pub use crate::freq_text::FrequencyParseErr;
pub use crate::math::gcd;
pub use crate::parse::{IntParseErrorKind, TimeSpanParseErr};
pub use crate::rate::ClockRate;
pub use crate::span::{NonZeroTimeSpan, TimeSpan};
pub use crate::span_ops::TimeSpanNumExt;
pub use crate::stamp::TimeStamp;
pub use crate::step::ClockStep;
