//! Oversight: connection health, the status page, and the escalation that halts and flattens.

pub mod health;
pub mod kill_trigger;
pub mod manager;
pub mod status_poller;
