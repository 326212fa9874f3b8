//! Adaptive heartbeat: ticks faster when signals arrive, slower when idle.
use vstd::prelude::*;

verus! {

/// Nanoseconds in a second.
pub const NANOS_PER_SEC: u128 = 1_000_000_000;

/// The largest duration, in nanoseconds (`Duration::MAX`).
pub open spec fn max_duration() -> nat {
    18446744073709551615 * 1_000_000_000 + 999_999_999
}

/// Heartbeat settings; durations are in nanoseconds.
#[derive(Debug, Clone, Copy)]
pub struct HeartbeatConfig {
    pub interval: u128,
    pub min_interval: u128,
    pub max_interval: u128,
    pub adaptive: bool,
}

impl HeartbeatConfig {
    /// 30 s interval, between 5 s and 120 s, adaptive.
    pub fn default() -> (c: Self)
        ensures
            c.interval == 30 * NANOS_PER_SEC,
            c.min_interval == 5 * NANOS_PER_SEC,
            c.max_interval == 120 * NANOS_PER_SEC,
            c.adaptive,
    {
        HeartbeatConfig {
            interval: 30 * NANOS_PER_SEC,
            min_interval: 5 * NANOS_PER_SEC,
            max_interval: 120 * NANOS_PER_SEC,
            adaptive: true,
        }
    }
}

/// The daemon's tick clock.
pub struct Heartbeat {
    config: HeartbeatConfig,
    current_interval: u128,
    tick_count: u64,
}

impl Heartbeat {
    pub closed spec fn cfg(&self) -> HeartbeatConfig {
        self.config
    }

    /// The interval to wait before the next tick, in nanoseconds.
    pub closed spec fn interval(&self) -> nat {
        self.current_interval as nat
    }

    pub closed spec fn ticks(&self) -> nat {
        self.tick_count as nat
    }

    /// Starts at the configured interval with no ticks.
    pub fn new(config: HeartbeatConfig) -> (h: Self)
        ensures
            h.cfg() == config,
            h.interval() == config.interval,
            h.ticks() == 0,
    {
        Heartbeat { config, current_interval: config.interval, tick_count: 0 }
    }

    /// The interval to wait before the next tick.
    pub fn current_interval(&self) -> (d: u128)
        ensures
            d == self.interval(),
    {
        self.current_interval
    }

    /// Counts a tick that has been waited for.
    pub fn record_tick(&mut self)
        requires
            old(self).ticks() < u64::MAX,
        ensures
            final(self).ticks() == old(self).ticks() + 1,
            final(self).interval() == old(self).interval(),
            final(self).cfg() == old(self).cfg(),
    {
        self.tick_count = self.tick_count + 1;
    }

    /// Adapts the interval: signals halve it (not below the minimum), a quiet
    /// tick adds five seconds (not above the maximum); nothing changes when the
    /// heartbeat is not adaptive.  Adding the five seconds must not overflow
    /// a duration (the addition panics there).
    pub fn report_signals(&mut self, count: usize)
        requires
            old(self).cfg().adaptive && count == 0 ==> old(self).interval() + 5 * NANOS_PER_SEC <= max_duration(),
        ensures
            final(self).cfg() == old(self).cfg(),
            final(self).ticks() == old(self).ticks(),
            final(self).interval() == if !old(self).cfg().adaptive {
                old(self).interval()
            } else if count > 0 {
                if old(self).interval() / 2 >= old(self).cfg().min_interval {
                    (old(self).interval() / 2) as nat
                } else {
                    old(self).cfg().min_interval as nat
                }
            } else if old(self).interval() + 5 * NANOS_PER_SEC <= old(self).cfg().max_interval {
                (old(self).interval() + 5 * NANOS_PER_SEC) as nat
            } else {
                old(self).cfg().max_interval as nat
            },
            old(self).cfg().min_interval <= old(self).interval() <= old(self).cfg().max_interval
                ==> final(self).cfg().min_interval <= final(self).interval()
                <= final(self).cfg().max_interval,
    {
        if !self.config.adaptive {
            return;
        }
        if count > 0 {
            let half = self.current_interval / 2;
            self.current_interval = if half >= self.config.min_interval {
                half
            } else {
                self.config.min_interval
            };
        } else {
            let grown = self.current_interval + 5 * NANOS_PER_SEC;
            self.current_interval = if grown <= self.config.max_interval {
                grown
            } else {
                self.config.max_interval
            };
        }
    }

    /// Back to the configured interval.
    pub fn reset_interval(&mut self)
        ensures
            final(self).interval() == old(self).cfg().interval,
            final(self).cfg() == old(self).cfg(),
            final(self).ticks() == old(self).ticks(),
    {
        self.current_interval = self.config.interval;
    }

    /// Ticks so far.
    pub fn tick_count(&self) -> (n: u64)
        ensures
            n == self.ticks(),
    {
        self.tick_count
    }
}

} // verus!
