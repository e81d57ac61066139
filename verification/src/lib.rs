//! Reading, checking and writing iCalendar objects (RFC 5545, with RFC 7986,
//! RFC 7953, RFC 9074 and RFC 5546): content lines, parameters, property
//! values, components and whole calendars.

pub mod ast;
pub mod bytes;
pub mod values;
pub mod params;
pub mod properties;
pub mod itip;
pub mod components;
pub mod calendar;
