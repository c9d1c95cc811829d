//! Orders, fills, hedges and the risk rules around them.

pub mod client;
pub mod ctf_merge;
pub mod hedge_executor;
pub mod order_manager;
pub mod positions;
pub mod risk;
pub mod trade_parser;
pub mod user_stream;
