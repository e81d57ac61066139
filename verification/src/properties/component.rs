//! Component properties (RFC 5545 §3.8 and the RFCs that extend it).

pub mod alarm_ext;
pub mod alarms;
pub mod availability;
pub mod location;
pub mod descriptive;
pub mod relationship;
pub mod change;
pub mod datetime;
pub mod recurrence;
pub mod misc;
pub mod timezone;
