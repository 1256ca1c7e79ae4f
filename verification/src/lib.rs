//! Shred-to-Geyser latency accounting for a lightweight Solana RPC node,
//! with the decisions of its configuration and start-up.

pub mod text;
pub mod stats;
pub mod clock;
pub mod latency_tracker;
pub mod parse;
pub mod paths;
pub mod config;
pub mod startup;
