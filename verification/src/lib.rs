//! Keeps an externally hosted status board synchronized with live racing
//! telemetry: snapshots are fetched per target, compared structurally against
//! the last committed state, rendered into display panels, and committed to
//! the external sink only when something actually changed.

pub mod api;
pub mod board;
pub mod render;
pub mod utils;
