//! Telling from one sample of the playback clock to the next what the clock did.

use vstd::prelude::*;

use crate::movie::looper::LoopConfig;

verus! {

/// The last sample of the playback clock.
#[derive(Debug)]
pub struct ClockTracker {
    pub last_clock_ms: Option<i64>,
}

/// What the playback clock did since the last sample.
#[derive(Clone, Copy, Debug, PartialEq, Eq, Structural)]
pub enum ClockEvent {
    FirstSample,
    Advanced,
    Wrapped,
    Seeked,
}

impl ClockTracker {
    /// Whether the clock came round from the end of a loop to its start.
    pub open spec fn wraps(self, clock_ms: i64, config: LoopConfig) -> bool {
        let tail = config.loop_duration_ms - config.tail_guard_ms;
        &&& self.last_clock_ms matches Some(last) && last >= tail && last >= 0
        &&& config.enabled
        &&& clock_ms <= config.head_guard_ms
    }

    /// What a sample says the clock did.
    pub open spec fn event(self, clock_ms: i64, config: LoopConfig) -> ClockEvent {
        match self.last_clock_ms {
            None => ClockEvent::FirstSample,
            Some(last) => if self.wraps(clock_ms, config) {
                ClockEvent::Wrapped
            } else if clock_ms >= last {
                ClockEvent::Advanced
            } else {
                ClockEvent::Seeked
            },
        }
    }

    /// Whether the start of the loop's tail can be computed, where a sample asks for it.
    pub open spec fn tail_fits(self, clock_ms: i64, config: LoopConfig) -> bool {
        let tail = config.loop_duration_ms - config.tail_guard_ms;
        self.last_clock_ms is Some && config.enabled && clock_ms <= config.head_guard_ms ==> (
        i64::MIN <= tail <= i64::MAX)
    }

    /// A tracker that has seen no sample.
    pub fn new() -> (tracker: ClockTracker)
        ensures
            tracker.last_clock_ms is None,
    {
        ClockTracker { last_clock_ms: None }
    }

    /// Takes a sample of the clock.
    pub fn update(&mut self, clock_ms: i64, loop_config: &LoopConfig) -> (event: ClockEvent)
        requires
            clock_ms >= 0,
            old(self).tail_fits(clock_ms, *loop_config),
        ensures
            event == old(self).event(clock_ms, *loop_config),
            final(self).last_clock_ms == Some(clock_ms),
    {
        let event = match self.last_clock_ms {
            None => ClockEvent::FirstSample,
            Some(last) => {
                if loop_config.is_enabled() && clock_ms <= loop_config.head_guard_ms && last
                    >= loop_config.loop_duration_ms - loop_config.tail_guard_ms && last >= 0 {
                    ClockEvent::Wrapped
                } else if clock_ms >= last {
                    ClockEvent::Advanced
                } else {
                    ClockEvent::Seeked
                }
            },
        };
        self.last_clock_ms = Some(clock_ms);
        event
    }
}

} // verus!
