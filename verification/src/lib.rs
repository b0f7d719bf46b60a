//! Core logic of a deadline-countdown widget: a date-delta calculator with a
//! primary calendar path and an approximate fallback path for dates outside
//! the calendar library's range, and a display formatter that renders the
//! magnitude with thousands separators.

mod bignum;
mod date;
mod delta;
mod digits;
mod format;
mod parse;

pub use date::Date;
pub use delta::{compute_delta, compute_delta_fallback, CountdownResult};
pub use format::{format_countdown, format_magnitude, with_separators};
pub use parse::parse_date_fallback;
