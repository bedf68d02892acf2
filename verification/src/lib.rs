//! A calendar-aware date and time engine: ISO 8601 text, proleptic-Gregorian
//! civil dates, signed epoch instants and time-zone-local wall-clock times.
//!
//! What the functions return is stated over the mathematical model of
//! module `civil` and the grammar of module `iso::grammar`.

pub mod arith;
pub mod calendar;
pub mod civil;
pub mod duration;
pub mod gregorian;
pub mod iso;
pub mod plain;
pub mod text;
pub mod timezone;
pub mod zoned;

pub use calendar::{Calendar, CalendarProtocol, Era};
pub use plain::PlainDate;
pub use timezone::{TimeZone, TimeZoneProtocol};
pub use zoned::ZonedDateTime;
