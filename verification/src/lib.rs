//! Verified core of the Pytes / Pylontech battery-console bridge: parsing of the
//! console's command responses, aggregation, configuration parsing and the
//! decisions that the MQTT and serial front ends take.

pub mod text;
pub mod numbers;
pub mod model;
pub mod parsing;
pub mod events;
pub mod config;
pub mod mqtt;
pub mod serial;
pub mod schedule;
