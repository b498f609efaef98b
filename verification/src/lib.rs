//! Singer metric log lines in, InfluxDB line protocol out.

pub mod calendar;
pub mod cli;
pub mod json;
pub mod line_protocol;
pub mod metric;
pub mod pattern;
pub mod protocol_trait;
pub mod tags;
pub mod text;
