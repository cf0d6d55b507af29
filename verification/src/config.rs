//! Engine configuration knobs.
use vstd::prelude::*;

verus! {

/// Top-level configuration.
#[derive(Clone, Debug)]
pub struct InvokerConfig {
    /// How many workers to spawn; the processor count when absent.
    pub workers: Option<usize>,
    /// How long to sleep between idle ticks.
    pub sleep: SleepConfig,
}

/// Sleep backoff between idle ticks.
#[derive(Clone, Copy, Debug, PartialEq, Eq, Structural)]
pub struct SleepConfig {
    /// Longest sleep, in milliseconds.
    pub max_ms: u32,
    /// Growth of the sleep when a tick saw no updates, in milliseconds.
    pub step_ms: u32,
}

impl SleepConfig {
    /// The default longest sleep.
    pub fn default_max() -> (r: u32)
        ensures
            r == 2000,
    {
        2000
    }

    /// The default growth per idle tick.
    pub fn default_step() -> (r: u32)
        ensures
            r == 500,
    {
        500
    }
}

impl Default for SleepConfig {
    fn default() -> (r: SleepConfig)
        ensures
            r.max_ms == 2000 && r.step_ms == 500,
    {
        SleepConfig { max_ms: SleepConfig::default_max(), step_ms: SleepConfig::default_step() }
    }
}

} // verus!
