//! Telemetry decoding and critical-condition alerting for a solar/battery
//! inverter.
//!
//! The library decodes a raw register array into named engineering-unit
//! measurements, projects them into a status summary, and drives a
//! hysteresis-gated alert/shutdown state machine over successive summaries.
//! Measurement values are carried as exact hundredths of a unit in `i64`,
//! so every decode transform is exact integer arithmetic.

pub mod alert;
pub mod config;
pub mod decode;
pub mod fmt;
pub mod parse;
pub mod registers;
pub mod status;
