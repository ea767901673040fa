//! Battery charge monitoring: classification of charge readings into zones,
//! a per-source store that reports zone changes exactly once, and the alert
//! rules that turn a zone change into user-visible notices.
pub mod zone;
pub mod store;
pub mod alert;
pub mod event;
pub mod monitor;
pub mod laws;
