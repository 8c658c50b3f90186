//! The parts of the engine's settings that hold no prices: where the
//! exchange bridge listens, and how to log.
use vstd::prelude::*;

verus! {

/// Settings of the exchange connection.
pub struct ExchangeSettings {
    pub port: u16,
}

/// Settings of the log output.
pub struct LoggingSettings {
    pub level: String,
    pub format: String,
}

} // verus!
