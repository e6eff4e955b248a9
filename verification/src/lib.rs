//! Supervisor core for a small set of long-running local development
//! processes: it plans process starts and stops, tracks liveness and
//! detected service URLs, turns raw output lines into structured,
//! colorized log records, and batches high-frequency log events.
//!
//! All state transitions and line-level parsing live here and are
//! verified; the surrounding application owns the actual OS processes,
//! pipes and timers and calls into this crate for every decision.

pub mod aggregator;
pub mod colorizer;
pub mod config;
mod errors;
pub mod events;
pub mod process_manager;
pub mod pump;
pub mod text;

pub use aggregator::{AggregatorOutput, EventAggregator, LogEmission};
pub use colorizer::{ColoredText, Rgb};
pub use config::{Config, Project, Service};
pub use errors::AppError;
pub use events::{LogEvent, ManagerEvent, ServiceStatus, StatusEvent};
pub use process_manager::{ProcessManager, ProcessState, ServiceSpec, StartPlan};
