//! Turns the rows that configured queries return into opentelemetry gauge readings.
//!
//! A config lists queries (`single`: one row each, `multi`: many rows each, labelled),
//! each with the gauges that its columns feed. The library converts the config, builds
//! the gauges, and records each row's readings with the attributes of its labels.
use vstd::prelude::*;

pub mod col;
pub mod evt;
pub mod gauge;
pub mod label;
pub mod lemmas;
pub mod metrics;
pub mod multi;
pub mod otel;
pub mod query;
pub mod row;
pub mod single;
pub mod table;

verus! {

} // verus!
