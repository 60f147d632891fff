//! Calendar computation and text layout for Julian and Gregorian calendars
//! with a configurable reform point.
//!
//! - `types`: the data model (reform choice, week policy, context, month grid).
//! - `calendar`: leap years, month lengths, weekdays, day of year, week numbers,
//!   and the fixed 42-cell month grid.
//! - `text`: string helpers (padding, decimal digits, display width, centering).
//! - `formatter`: localized names, month-name parsing, headers and the row
//!   layout of one month.
//! - `layout`: months side by side, the column layout, and the year,
//!   twelve-month and N-month displays.
//! - `holidays`: holiday classification codes, the one-entry cache and the
//!   country of a locale.
//! - `args`: positional date arguments and context construction.

pub mod types;
pub mod calendar;
pub mod text;
pub mod formatter;
pub mod layout;
pub mod holidays;
pub mod args;
