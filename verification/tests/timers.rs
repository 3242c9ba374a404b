use frontier::js::timers::{effective_delay_nanos, timer_kind_from_name, TimerKind, TimerTable};

#[test]
fn timer_ids_count_from_one() {
    let mut t = TimerTable::new();
    assert!(!t.has_active_timers());
    let a = t.register(TimerKind::Timeout, false);
    let b = t.register(TimerKind::Interval, true);
    assert_eq!((a, b), (1, 2));
    assert!(t.has_active_timers());
    assert_eq!(t.fired_kind(a), Some(TimerKind::Timeout));
    assert_eq!(t.fired_kind(99), None);
}

#[test]
fn fired_timers_that_do_not_repeat_are_forgotten() {
    let mut t = TimerTable::new();
    let once = t.register(TimerKind::Timeout, false);
    let again = t.register(TimerKind::Interval, true);
    assert!(t.finish_fired(once));
    assert_eq!(t.fired_kind(once), None);
    assert!(!t.finish_fired(again));
    assert_eq!(t.fired_kind(again), Some(TimerKind::Interval));
    assert!(t.clear(again));
    assert!(!t.clear(again));
    assert!(!t.has_active_timers());
}

#[test]
fn delays_have_floors() {
    assert_eq!(effective_delay_nanos(0, TimerKind::AnimationFrame, false), 16_000_000);
    assert_eq!(effective_delay_nanos(0, TimerKind::Interval, true), 1_000_000);
    assert_eq!(effective_delay_nanos(0, TimerKind::Timeout, false), 0);
    assert_eq!(effective_delay_nanos(5, TimerKind::AnimationFrame, true), 5);
}

#[test]
fn timer_kinds_are_named() {
    assert_eq!(timer_kind_from_name("timeout").unwrap(), TimerKind::Timeout);
    assert_eq!(timer_kind_from_name("interval").unwrap(), TimerKind::Interval);
    assert_eq!(timer_kind_from_name("animationFrame").unwrap(), TimerKind::AnimationFrame);
    assert_eq!(
        timer_kind_from_name("Timeout").unwrap_err(),
        "unsupported timer kind: Timeout"
    );
    let mut t = TimerTable::new();
    t.register(TimerKind::AnimationFrame, false);
    assert!(t.has_active_timers());
}
