//! The minute ticker of the user session: it tracks the wall-clock minute for
//! the clock widgets and, every sixtieth tick, marks the icon cache for a
//! clean-up.
use vstd::prelude::*;
use chrono::{Local, Timelike};

verus! {

/// Reads the wall clock with `chrono::Local::now()` and takes its minute
/// (`Timelike::minute`). Claimed: the minute is below 60. It depends on the
/// time and the machine's time zone, so nothing more is claimed.
#[verifier::external_body]
pub(crate) fn wall_clock_minute() -> (m: u32)
    ensures
        m < 60,
{
    Local::now().minute()
}

/// Ticks between two icon cache clean-ups.
pub const CLEANUP_TICKS: u32 = 60;

/// The minute last seen and whether a cache clean-up is due.
#[derive(Debug, Clone, Copy, PartialEq, Eq)]
pub struct SystemState {
    pub current_minute: u32,
    pub cache_cleanup_due: bool,
}

/// The ticker: shared state and the ticks since the last clean-up.
#[derive(Debug, Clone, Copy, PartialEq, Eq)]
pub struct SystemMonitor {
    pub state: SystemState,
    pub cleanup_counter: u32,
}

impl SystemState {
    /// Starting at the wall clock's minute, no clean-up due.
    pub fn new() -> (s: SystemState)
        ensures
            s.current_minute < 60,
            !s.cache_cleanup_due,
    {
        SystemState { current_minute: wall_clock_minute(), cache_cleanup_due: false }
    }
}

impl SystemMonitor {
    /// The counter stays below the clean-up period.
    pub open spec fn wf(self) -> bool {
        self.cleanup_counter < CLEANUP_TICKS
    }

    /// Starting at the wall clock's minute, no tick counted.
    pub fn new() -> (m: SystemMonitor)
        ensures
            m.wf(),
            m.state.current_minute < 60,
            !m.state.cache_cleanup_due,
            m.cleanup_counter == 0,
    {
        SystemMonitor { state: SystemState::new(), cleanup_counter: 0 }
    }

    /// One tick at the wall clock's current minute.
    pub fn tick_now(&mut self)
        requires
            old(self).wf(),
        ensures
            final(self).wf(),
            final(self).state.current_minute < 60,
            *final(self) == tick_model(*old(self), final(self).state.current_minute),
    {
        let minute = wall_clock_minute();
        self.tick(minute);
    }

    /// One tick of the ticker, which reads the wall clock's `minute`: the
    /// minute is recorded, and every sixtieth tick marks a clean-up due.
    pub fn tick(&mut self, minute: u32)
        requires
            old(self).wf(),
        ensures
            final(self).wf(),
            final(self).state.current_minute == minute,
            old(self).cleanup_counter + 1 >= CLEANUP_TICKS ==> final(self).state.cache_cleanup_due
                && final(self).cleanup_counter == 0,
            old(self).cleanup_counter + 1 < CLEANUP_TICKS ==> final(self).state.cache_cleanup_due
                == old(self).state.cache_cleanup_due && final(self).cleanup_counter == old(self).cleanup_counter + 1,
            *final(self) == tick_model(*old(self), minute),
    {
        if self.state.current_minute != minute {
            self.state.current_minute = minute;
        }
        self.cleanup_counter = self.cleanup_counter + 1;
        if self.cleanup_counter >= CLEANUP_TICKS {
            self.state.cache_cleanup_due = true;
            self.cleanup_counter = 0;
        }
    }
}

/// The minute that the ticker saw last.
pub fn get_current_minute(state: &SystemState) -> (m: u32)
    ensures
        m == state.current_minute,
{
    state.current_minute
}

/// Whether a clean-up is due; answering yes clears it.
pub fn should_cleanup_cache(state: &mut SystemState) -> (due: bool)
    ensures
        due == old(state).cache_cleanup_due,
        !final(state).cache_cleanup_due,
        final(state).current_minute == old(state).current_minute,
{
    if state.cache_cleanup_due {
        state.cache_cleanup_due = false;
        true
    } else {
        false
    }
}

/// The ticker after one tick at `minute`.
pub open spec fn tick_model(m: SystemMonitor, minute: u32) -> SystemMonitor {
    if m.cleanup_counter + 1 >= CLEANUP_TICKS {
        SystemMonitor { state: SystemState { current_minute: minute, cache_cleanup_due: true }, cleanup_counter: 0 }
    } else {
        SystemMonitor {
            state: SystemState { current_minute: minute, ..m.state },
            cleanup_counter: (m.cleanup_counter + 1) as u32,
        }
    }
}

/// The ticker after `k` ticks at `minute`.
pub open spec fn after_ticks(m: SystemMonitor, k: nat, minute: u32) -> SystemMonitor
    decreases k,
{
    if k == 0 { m } else { tick_model(after_ticks(m, (k - 1) as nat, minute), minute) }
}

/// From a fresh ticker no clean-up is marked before the sixtieth tick, and
/// the sixtieth tick marks one.
pub proof fn law_cleanup_every_sixty_ticks(m: SystemMonitor, minute: u32, k: nat)
    requires
        m.cleanup_counter == 0,
        !m.state.cache_cleanup_due,
        k <= CLEANUP_TICKS,
    ensures
        k < CLEANUP_TICKS ==> !after_ticks(m, k, minute).state.cache_cleanup_due
            && after_ticks(m, k, minute).cleanup_counter == k,
        k == CLEANUP_TICKS ==> after_ticks(m, k, minute).state.cache_cleanup_due,
    decreases k,
{
    if k > 0 {
        law_cleanup_every_sixty_ticks(m, minute, (k - 1) as nat);
    }
}

} // verus!
