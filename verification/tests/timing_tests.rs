use std::time::{Duration, Instant};

use clux::auto_save::AutoSaver;
use clux::resize::ResizeDebouncer;

/// Wait until at least `ms` milliseconds have passed.
fn wait_ms(ms: u64) {
    let start = Instant::now();
    while start.elapsed() < Duration::from_millis(ms) {
        std::hint::spin_loop();
    }
}

#[test]
fn no_change_means_no_save() {
    let mut saver = AutoSaver::new(Duration::from_millis(10));
    assert!(!saver.poll_save());
}

#[test]
fn save_triggers_after_debounce() {
    let mut saver = AutoSaver::new(Duration::from_millis(0));
    saver.notify_change();
    // With zero debounce, should trigger immediately.
    assert!(saver.poll_save());
    // Should not trigger again without a new change.
    assert!(!saver.poll_save());
}

#[test]
fn save_does_not_trigger_before_debounce() {
    let mut saver = AutoSaver::new(Duration::from_secs(60));
    saver.notify_change();
    assert!(!saver.poll_save());
}

#[test]
fn force_save_triggers_on_next_poll() {
    let mut saver = AutoSaver::new(Duration::from_secs(60));
    saver.notify_change();
    assert!(!saver.poll_save());
    saver.force_save();
    assert!(saver.poll_save());
}

#[test]
fn multiple_changes_reset_timer() {
    let mut saver = AutoSaver::new(Duration::from_millis(0));
    saver.notify_change();
    // Reset with a long debounce-like behavior by re-notifying.
    saver.debounce = Duration::from_secs(60);
    saver.notify_change();
    assert!(!saver.poll_save());
}

#[test]
fn force_save_without_change_does_nothing() {
    let mut saver = AutoSaver::default_debounce();
    saver.force_save();
    assert!(!saver.poll_save());
    assert_eq!(saver.debounce, Duration::from_secs(60));
}

#[test]
fn poll_save_when_decides_on_the_elapsed_flag() {
    let mut saver = AutoSaver::new(Duration::from_secs(60));
    assert!(!saver.poll_save_when(true));
    saver.notify_change();
    assert!(!saver.poll_save_when(false));
    assert!(saver.poll_save_when(true));
    assert!(!saver.poll_save_when(true));
}

#[test]
fn poll_returns_none_before_threshold() {
    let mut d = ResizeDebouncer::new(100);
    d.request(80, 24);
    assert!(d.poll().is_none());
    assert!(d.has_pending());
}

#[test]
fn poll_returns_size_after_threshold() {
    let mut d = ResizeDebouncer::new(10);
    d.request(120, 40);
    wait_ms(20);
    assert_eq!(d.poll(), Some((120, 40)));
    assert!(!d.has_pending());
}

#[test]
fn later_request_replaces_earlier() {
    let mut d = ResizeDebouncer::new(10);
    d.request(80, 24);
    d.request(120, 40);
    wait_ms(20);
    assert_eq!(d.poll(), Some((120, 40)));
}

#[test]
fn poll_after_consumed_returns_none() {
    let mut d = ResizeDebouncer::new(10);
    d.request(80, 24);
    wait_ms(20);
    assert!(d.poll().is_some());
    assert!(d.poll().is_none());
}

#[test]
fn poll_when_decides_on_the_ready_flag() {
    let mut d = ResizeDebouncer::new(1000);
    assert_eq!(d.poll_when(true), None);
    d.request(10, 20);
    assert_eq!(d.poll_when(false), None);
    assert!(d.has_pending());
    assert_eq!(d.poll_when(true), Some((10, 20)));
    assert!(!d.has_pending());
}

#[test]
fn zero_threshold_resize_is_ready_at_once() {
    let mut d = ResizeDebouncer::new(0);
    d.request(120, 40);
    assert_eq!(d.poll(), Some((120, 40)));
    assert!(!d.has_pending());
    assert_eq!(d.poll(), None);
}

#[test]
fn change_after_force_save_waits_again() {
    let mut saver = AutoSaver::new(Duration::from_secs(60));
    saver.notify_change();
    saver.force_save();
    saver.notify_change();
    assert!(!saver.poll_save());
    saver.force_save();
    assert!(saver.poll_save());
    assert!(!saver.poll_save());
}

#[test]
fn poll_save_when_after_force_save_ignores_the_flag() {
    let mut saver = AutoSaver::new(Duration::from_secs(60));
    saver.notify_change();
    saver.force_save();
    assert!(saver.poll_save_when(false));
    assert!(!saver.poll_save_when(true));
}
