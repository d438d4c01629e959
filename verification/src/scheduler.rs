use vstd::prelude::*;

verus! {

// The control core runs two self-re-arming periodic tasks: the matrix scan
// and the USB report flush.  Both periods follow one power state: Active
// periods while any cell was recently touched, periods ten times longer
// while Sleeping.  The scan task decides the state on every tick and feeds
// the hardware watchdog exactly once per invocation; the caller performs
// the actions (arm the next deadline, publish the sleep flag, feed the
// watchdog) and hands the next tick's readings back in.

/// Period of the USB report task while Active, in microseconds.
pub const REPORT_INTERVAL_US: u64 = 10000;

/// Period of the matrix scan task while Active, in microseconds.
pub const SCAN_INTERVAL_US: u64 = 5000;

/// How much longer both periods run while Sleeping.
pub const SLEEP_SLOWDOWN: u64 = 10;

/// Idle time after which the device enters Sleeping, in microseconds.
pub const SLEEP_TIMEOUT_US: u64 = 10000000;

/// Power state of the runtime.
#[derive(Clone, Copy, Debug, PartialEq, Eq, Structural)]
pub enum PowerState {
    Active,
    Sleeping,
}

/// The period of the scan task in the given state.
pub open spec fn spec_scan_period(state: PowerState) -> u64 {
    if state is Sleeping {
        (SCAN_INTERVAL_US * SLEEP_SLOWDOWN) as u64
    } else {
        SCAN_INTERVAL_US
    }
}

/// The period of the report task in the given state.
pub open spec fn spec_report_period(state: PowerState) -> u64 {
    if state is Sleeping {
        (REPORT_INTERVAL_US * SLEEP_SLOWDOWN) as u64
    } else {
        REPORT_INTERVAL_US
    }
}

/// The state after one scan tick: a touched cell wakes the device at once;
/// a full idle timeout puts it to sleep; otherwise nothing changes.
pub open spec fn spec_next_state(
    state: PowerState,
    last_active_us: int,
    now_us: int,
    any_key_pressed: bool,
) -> PowerState {
    if any_key_pressed {
        PowerState::Active
    } else if now_us - last_active_us >= SLEEP_TIMEOUT_US {
        PowerState::Sleeping
    } else {
        state
    }
}

/// What one scan tick decides: the sleep flag to publish, the deadline to
/// arm before returning, and the watchdog feed owed on every invocation.
#[derive(Clone, Copy, Debug)]
pub struct ScanTick {
    pub sleeping: bool,
    pub scan_period_us: u64,
    pub feed_watchdog: bool,
}

/// The scheduler's cross-task state: the power state and the timestamp of
/// the last tick that saw a touched cell.
#[derive(Clone, Copy, Debug)]
pub struct Scheduler {
    pub state: PowerState,
    pub last_active_us: u64,
}

impl Scheduler {
    /// A fresh scheduler: Active, idle clock started at `now_us`.
    pub fn new(now_us: u64) -> (r: Scheduler)
        ensures
            r.state is Active,
            r.last_active_us == now_us,
    {
        Scheduler { state: PowerState::Active, last_active_us: now_us }
    }

    /// The flag the render core polls.
    pub fn is_sleeping(&self) -> (r: bool)
        ensures
            r == (self.state is Sleeping),
    {
        matches!(self.state, PowerState::Sleeping)
    }

    /// The deadline the report task arms before returning.
    pub fn report_period_us(&self) -> (r: u64)
        ensures
            r == spec_report_period(self.state),
    {
        match self.state {
            PowerState::Active => REPORT_INTERVAL_US,
            PowerState::Sleeping => REPORT_INTERVAL_US * SLEEP_SLOWDOWN,
        }
    }

    /// The deadline the scan task arms before returning.
    pub fn scan_period_us(&self) -> (r: u64)
        ensures
            r == spec_scan_period(self.state),
    {
        match self.state {
            PowerState::Active => SCAN_INTERVAL_US,
            PowerState::Sleeping => SCAN_INTERVAL_US * SLEEP_SLOWDOWN,
        }
    }

    /// One scan-task tick, after the matrix was scanned: `any_key_pressed`
    /// is the matrix's activity flag and `now_us` the hardware timer's
    /// reading, which never runs backwards past `last_active_us`.
    pub fn on_scan_tick(&mut self, now_us: u64, any_key_pressed: bool) -> (r: ScanTick)
        requires
            old(self).last_active_us <= now_us,
        ensures
            final(self).state == spec_next_state(
                old(self).state,
                old(self).last_active_us as int,
                now_us as int,
                any_key_pressed,
            ),
            final(self).last_active_us == if any_key_pressed {
                now_us
            } else {
                old(self).last_active_us
            },
            r.sleeping == (final(self).state is Sleeping),
            r.scan_period_us == spec_scan_period(final(self).state),
            r.feed_watchdog,
    {
        let should_sleep: bool = now_us - self.last_active_us >= SLEEP_TIMEOUT_US;
        if any_key_pressed {
            self.last_active_us = now_us;
            self.state = PowerState::Active;
        } else if should_sleep {
            self.state = PowerState::Sleeping;
        }
        let sleeping = self.is_sleeping();
        let scan_period_us = self.scan_period_us();
        ScanTick { sleeping, scan_period_us, feed_watchdog: true }
    }
}

/// Law: the two task periods always belong to the same power state — the
/// scan task runs at its Sleeping period exactly when the report task does.
pub proof fn lemma_periods_consistent(state: PowerState)
    ensures
        state is Active ==> spec_scan_period(state) == SCAN_INTERVAL_US && spec_report_period(
            state,
        ) == REPORT_INTERVAL_US,
        state is Sleeping ==> spec_scan_period(state) == SCAN_INTERVAL_US * SLEEP_SLOWDOWN
            && spec_report_period(state) == REPORT_INTERVAL_US * SLEEP_SLOWDOWN,
        (spec_scan_period(state) == SCAN_INTERVAL_US) <==> (spec_report_period(state)
            == REPORT_INTERVAL_US),
{
}

/// Law: an idle stretch of SLEEP_TIMEOUT_US puts any state to sleep, and a
/// single touched cell wakes any state at once.
pub proof fn lemma_sleep_wake(state: PowerState, last_active_us: int, now_us: int)
    ensures
        now_us - last_active_us >= SLEEP_TIMEOUT_US ==> spec_next_state(
            state,
            last_active_us,
            now_us,
            false,
        ) is Sleeping,
        spec_next_state(state, last_active_us, now_us, true) is Active,
{
}

} // verus!
