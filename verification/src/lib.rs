//! Verified core of a single-producer, multi-consumer trading engine:
//! a sequence-numbered ring buffer, latency statistics, bar bookkeeping,
//! session-based breakout decisions and the feed wire format.
use vstd::prelude::*;

pub mod disruptor;
pub mod engine;
pub mod aggregator;
pub mod bar;
pub mod config;
pub mod errors;
pub mod events;
pub mod feed;
pub mod metrics;
pub mod strategy;

verus! {
} // verus!
