//! The tick interval and the recurring trigger that follows it.

use vstd::prelude::*;

verus! {

/// The tick interval that a fresh world starts with, in milliseconds.
pub const DEFAULT_TICK_INTERVAL_MS: u32 = 500;

/// The id of the one configuration record.
pub const CONFIG_ID: u32 = 0;

/// The id of the one tick trigger.
pub const TICK_TRIGGER_ID: u64 = 0;

/// The configuration record.  There is exactly one, with id [`CONFIG_ID`].
#[derive(Clone, Copy, Debug, PartialEq, Eq, Structural)]
pub struct Config {
    pub id: u32,
    pub tick_interval_ms: u32,
}

/// The recurring trigger of the tick.  There is exactly one, with id
/// [`TICK_TRIGGER_ID`]; it fires every `period_micros` microseconds and carries
/// nothing else.
#[derive(Clone, Copy, Debug, PartialEq, Eq, Structural)]
pub struct TickTrigger {
    pub scheduled_id: u64,
    pub period_micros: i64,
}

/// The period of a trigger for a tick interval of `interval_ms` milliseconds,
/// in microseconds.
pub open spec fn micros_of(interval_ms: u32) -> int {
    interval_ms * 1000
}

/// Converts a tick interval in milliseconds to a period in microseconds.
/// Every `u32` interval has a period that fits.
pub fn period_micros(interval_ms: u32) -> (micros: i64)
    ensures
        micros == micros_of(interval_ms),
{
    let wide: i64 = interval_ms as i64;
    wide * 1000
}

impl Config {
    /// The configuration record for a tick every `interval_ms` milliseconds.
    pub open spec fn for_interval(interval_ms: u32) -> Config {
        Config { id: CONFIG_ID, tick_interval_ms: interval_ms }
    }

    /// The configuration record for a tick every `interval_ms` milliseconds.
    pub fn with_interval(interval_ms: u32) -> (config: Config)
        ensures
            config == Config::for_interval(interval_ms),
    {
        Config { id: CONFIG_ID, tick_interval_ms: interval_ms }
    }

    /// The configuration record of a fresh world.
    pub fn initial() -> (config: Config)
        ensures
            config == Config::for_interval(DEFAULT_TICK_INTERVAL_MS),
    {
        Config::with_interval(DEFAULT_TICK_INTERVAL_MS)
    }

    /// The trigger that fires at this configuration's interval.
    pub open spec fn trigger_of(self) -> TickTrigger {
        TickTrigger {
            scheduled_id: TICK_TRIGGER_ID,
            period_micros: micros_of(self.tick_interval_ms) as i64,
        }
    }

    /// The trigger that fires at this configuration's interval.
    pub fn trigger(&self) -> (trigger: TickTrigger)
        ensures
            trigger == self.trigger_of(),
            trigger.period_micros == self.tick_interval_ms * 1000,
    {
        TickTrigger {
            scheduled_id: TICK_TRIGGER_ID,
            period_micros: period_micros(self.tick_interval_ms),
        }
    }
}

} // verus!
