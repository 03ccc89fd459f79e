//! Docker container metrics in the Prometheus text format.
//!
//! The library holds what an exporter decides and computes: which containers
//! are up, what their readings add up to, how their log lines are counted, what
//! a scrape asks for next, and what a client is answered. It talks to no daemon
//! and opens no socket: readings come in as plain values, and reports and
//! responses go out as text.
pub mod config;
pub mod containers;
pub mod http;
pub mod inspect;
pub mod logs;
pub mod metrics;
pub mod pattern;
pub mod prometheus;
pub mod record;
pub mod report_laws;
pub mod scrape;
pub mod stats;
pub mod text;
