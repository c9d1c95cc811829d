//! Runs of the bot: probes, replays and their records.

pub mod hedge_live_probe;
pub mod hedge_replay;
pub mod live_cycle;
pub mod orchestrator;
pub mod replay;
pub mod report;
pub mod run_metadata;
