//! Verified logic of the telemetry streams.
pub mod assoc;
pub mod binary;
pub mod collectors;
pub mod config;
pub mod counters;
pub mod csv;
pub mod delay_laws;
pub mod dispatch;
pub mod double;
pub mod engine;
pub mod engine_laws;
pub mod fleet_laws;
pub mod json;
pub mod lateness;
pub mod nominal;
pub mod orbit_laws;
pub mod panel_laws;
pub mod panels;
pub mod pipeline;
pub mod pipeline_laws;
pub mod provision;
pub mod provision_laws;
pub mod quotient;
pub mod rate_laws;
pub mod rates;
pub mod requests;
pub mod rounding_laws;
pub mod sample_laws;
pub mod samples;
pub mod satgen;
pub mod schedule;
pub mod schedule_laws;
pub mod service_laws;
pub mod session_laws;
pub mod sink_laws;
pub mod telemetry;
pub mod text;
pub mod tui;
pub mod tui_events;
pub mod tui_laws;
