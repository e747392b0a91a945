//! Periodic availability monitor: load a configuration snapshot, probe each
//! configured target once, aggregate the failures, and — only when at least
//! one target failed — compose and send a single notification, then sleep for
//! the configured interval and start over.

pub mod aggregate;
pub mod check;
pub mod config;
pub mod cycle;
pub mod notify;
