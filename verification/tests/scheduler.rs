use necoboard::scheduler::{
    PowerState, Scheduler, REPORT_INTERVAL_US, SCAN_INTERVAL_US, SLEEP_SLOWDOWN, SLEEP_TIMEOUT_US,
};
use necoboard::switches::KeyMatrix;

#[test]
fn idle_timeout_enters_sleep_on_the_crossing_tick() {
    // Ten simulated seconds of scan ticks with no cell above threshold: the
    // sleep flag turns true on the tick that crosses the timeout, and a
    // single active cell afterwards clears it on that same tick.
    let mut s = Scheduler::new(0);
    let mut now: u64 = 0;
    loop {
        let tick = s.on_scan_tick(now, false);
        assert!(tick.feed_watchdog);
        if now < SLEEP_TIMEOUT_US {
            assert!(!tick.sleeping, "slept early at {now}");
        } else {
            assert!(tick.sleeping, "missed the timeout at {now}");
            break;
        }
        now += tick.scan_period_us;
    }
    assert_eq!(now, SLEEP_TIMEOUT_US, "the flag turned on the crossing tick");

    // One touched cell on the next tick wakes it immediately.
    now += s.scan_period_us();
    let tick = s.on_scan_tick(now, true);
    assert!(!tick.sleeping);
    assert_eq!(s.last_active_us, now);
}

#[test]
fn periods_follow_the_state_and_never_mix() {
    let mut s = Scheduler::new(0);
    assert_eq!(s.scan_period_us(), SCAN_INTERVAL_US);
    assert_eq!(s.report_period_us(), REPORT_INTERVAL_US);

    s.on_scan_tick(SLEEP_TIMEOUT_US, false);
    assert!(matches!(s.state, PowerState::Sleeping));
    assert_eq!(s.scan_period_us(), SCAN_INTERVAL_US * SLEEP_SLOWDOWN);
    assert_eq!(s.report_period_us(), REPORT_INTERVAL_US * SLEEP_SLOWDOWN);

    s.on_scan_tick(SLEEP_TIMEOUT_US + 1, true);
    assert!(matches!(s.state, PowerState::Active));
    assert_eq!(s.scan_period_us(), SCAN_INTERVAL_US);
    assert_eq!(s.report_period_us(), REPORT_INTERVAL_US);
}

#[test]
fn activity_resets_the_idle_clock() {
    let mut s = Scheduler::new(0);
    s.on_scan_tick(5_000_000, true);
    assert_eq!(s.last_active_us, 5_000_000);
    // Less than the timeout since the touch: still awake.
    let tick = s.on_scan_tick(5_000_000 + SLEEP_TIMEOUT_US - 1, false);
    assert!(!tick.sleeping);
    // A full timeout since the touch: asleep.
    let tick = s.on_scan_tick(5_000_000 + SLEEP_TIMEOUT_US, false);
    assert!(tick.sleeping);
}

#[test]
fn sleeping_state_is_kept_while_idle() {
    let mut s = Scheduler::new(0);
    s.on_scan_tick(SLEEP_TIMEOUT_US, false);
    assert!(s.is_sleeping());
    let tick = s.on_scan_tick(2 * SLEEP_TIMEOUT_US, false);
    assert!(tick.sleeping);
    assert!(s.is_sleeping());
}

#[test]
fn quiet_board_sleeps_and_a_touch_wakes_it() {
    // Ten simulated seconds of real scans over an all-zero board, then one
    // touched cell: the sleep flag rises on the crossing tick and falls on
    // the first tick that sees the touch.
    let mut m = KeyMatrix::new(4, 12);
    let mut s = Scheduler::new(0);
    let zero = vec![0u16; 48];
    let mut now: u64 = 0;
    loop {
        m.scan(&zero);
        let t = s.on_scan_tick(now, m.is_any_key_pressed());
        if t.sleeping {
            break;
        }
        assert!(now < SLEEP_TIMEOUT_US);
        now += t.scan_period_us;
    }
    assert_eq!(now, SLEEP_TIMEOUT_US);

    let mut high = vec![0u16; 48];
    high[5] = 4095;
    now += s.scan_period_us();
    m.scan(&high);
    let t = s.on_scan_tick(now, m.is_any_key_pressed());
    assert!(!t.sleeping, "one touched cell wakes the device on that same tick");
}
