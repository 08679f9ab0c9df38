use quickbar::config::Notifications;
use quickbar::notify::stack::{ClosedReason, NotificationStack, Request, Urgency};
use quickbar::time::Instant;

fn start() -> Instant {
    Instant { nanos: 5_000_000_000 }
}

fn after_ms(now: Instant, millis: u128) -> Instant {
    Instant { nanos: now.nanos + millis * 1_000_000 }
}

fn config(max_visible: usize, timeout_ms: u64) -> Notifications {
    Notifications {
        max_visible,
        timeout_ms,
        ..Notifications::default()
    }
}

fn request(summary: &str) -> Request {
    Request {
        summary: summary.to_string(),
        body: String::new(),
        urgency: Urgency::Normal,
        expire_timeout: 0,
        replaces_id: 0,
    }
}

fn summaries(stack: &NotificationStack) -> Vec<&str> {
    stack
        .notifications()
        .iter()
        .map(|item| item.summary.as_str())
        .collect()
}

#[test]
fn ids_are_non_zero_and_never_reused() {
    let now = start();
    let config = config(9, 1000);
    let mut stack = NotificationStack::new();

    let first = stack.push(request("a"), &config, now);
    let second = stack.push(request("b"), &config, now);

    assert_ne!(first.id, 0);
    assert_ne!(second.id, 0);
    assert_ne!(first.id, second.id);
}

#[test]
fn replacing_keeps_the_id_and_resets_the_timer() {
    let now = start();
    let config = config(9, 1000);
    let mut stack = NotificationStack::new();

    let original = stack.push(request("first"), &config, now);
    let later = after_ms(now, 800);
    let mut replacement = request("second");
    replacement.replaces_id = original.id;
    let replaced = stack.push(replacement, &config, later);

    assert_eq!(replaced.id, original.id);
    assert_eq!(summaries(&stack), ["second"]);
    assert!(replaced.closed.is_empty(), "a replacement is not a closure");

    // The reset timer runs from the replacement, not the original.
    let at = after_ms(now, 1500);
    assert!(stack.expire(at).is_empty(), "should have been re-armed");
    assert_eq!(
        stack.expire(after_ms(later, 1000)),
        [(original.id, ClosedReason::Expired)]
    );
}

#[test]
fn replacing_an_unknown_id_adds_a_new_notification() {
    let now = start();
    let config = config(9, 1000);
    let mut stack = NotificationStack::new();

    let mut stale = request("stale");
    stale.replaces_id = 4242;
    let pushed = stack.push(stale, &config, now);

    assert_ne!(pushed.id, 4242);
    assert_eq!(summaries(&stack), ["stale"]);
}

#[test]
fn a_positive_timeout_wins() {
    let now = start();
    let config = config(9, 10_000);
    let mut stack = NotificationStack::new();

    let mut short = request("short");
    short.expire_timeout = 1000;
    stack.push(short, &config, now);

    assert!(stack.expire(after_ms(now, 900)).is_empty());
    assert_eq!(stack.expire(after_ms(now, 1000)).len(), 1);
}

#[test]
fn a_zero_timeout_uses_the_configured_default() {
    let now = start();
    let config = config(9, 5000);
    let mut stack = NotificationStack::new();

    stack.push(request("default"), &config, now);

    assert!(stack.expire(after_ms(now, 4999)).is_empty());
    assert_eq!(stack.expire(after_ms(now, 5000)).len(), 1);
}

#[test]
fn a_negative_timeout_never_expires() {
    let now = start();
    let config = config(9, 1000);
    let mut stack = NotificationStack::new();

    let mut persistent = request("persistent");
    persistent.expire_timeout = -1;
    stack.push(persistent, &config, now);

    assert!(stack.expire(after_ms(now, 86_400_000)).is_empty());
    assert_eq!(summaries(&stack), ["persistent"]);
}

#[test]
fn urgent_notifications_never_expire() {
    let now = start();
    let config = config(9, 1000);
    let mut stack = NotificationStack::new();

    let mut urgent = request("urgent");
    urgent.urgency = Urgency::Urgent;
    urgent.expire_timeout = 100;
    stack.push(urgent, &config, now);

    assert!(stack.expire(after_ms(now, 3600_000)).is_empty());
    assert!(stack.notifications()[0].is_urgent());
}

#[test]
fn urgency_hints_map_to_levels() {
    assert_eq!(Urgency::from_hint(0), Urgency::Low);
    assert_eq!(Urgency::from_hint(1), Urgency::Normal);
    assert_eq!(Urgency::from_hint(2), Urgency::Urgent);
    assert_eq!(Urgency::from_hint(7), Urgency::Normal, "undefined means normal");
}

#[test]
fn exceeding_the_limit_evicts_the_oldest() {
    let now = start();
    let config = config(3, 10_000);
    let mut stack = NotificationStack::new();

    let first = stack.push(request("1"), &config, now);
    stack.push(request("2"), &config, now);
    stack.push(request("3"), &config, now);
    let fourth = stack.push(request("4"), &config, now);

    assert_eq!(fourth.closed, [(first.id, ClosedReason::Expired)]);
    assert_eq!(summaries(&stack), ["2", "3", "4"]);
}

#[test]
fn a_replacement_does_not_evict_anything() {
    let now = start();
    let config = config(1, 10_000);
    let mut stack = NotificationStack::new();

    let first = stack.push(request("1"), &config, now);
    let mut replacement = request("1 again");
    replacement.replaces_id = first.id;
    let replaced = stack.push(replacement, &config, now);

    assert!(replaced.closed.is_empty());
    assert_eq!(summaries(&stack), ["1 again"]);
}

#[test]
fn dismissing_reports_the_dismissed_reason() {
    let now = start();
    let config = config(9, 10_000);
    let mut stack = NotificationStack::new();
    let pushed = stack.push(request("clicked"), &config, now);

    assert_eq!(
        stack.dismiss(pushed.id),
        Some((pushed.id, ClosedReason::Dismissed))
    );
    assert!(stack.is_empty());
}

#[test]
fn closing_by_call_reports_the_closed_reason() {
    let now = start();
    let config = config(9, 10_000);
    let mut stack = NotificationStack::new();
    let pushed = stack.push(request("closed"), &config, now);

    assert_eq!(
        stack.close(pushed.id),
        Some((pushed.id, ClosedReason::ClosedByCall))
    );
}

#[test]
fn closing_an_unknown_id_is_silently_ignored() {
    let now = start();
    let config = config(9, 10_000);
    let mut stack = NotificationStack::new();
    stack.push(request("kept"), &config, now);

    assert_eq!(stack.close(9999), None);
    assert_eq!(stack.dismiss(9999), None);
    assert_eq!(summaries(&stack), ["kept"]);
}

#[test]
fn do_not_disturb_drops_new_notifications_without_reporting_them() {
    let now = start();
    let config = config(9, 1000);
    let mut stack = NotificationStack::new();
    stack.set_dnd(true);

    let pushed = stack.push(request("swallowed"), &config, now);

    assert_ne!(pushed.id, 0, "the client still gets a usable id");
    assert!(!pushed.displayed);
    assert!(pushed.closed.is_empty(), "no NotificationClosed for a dropped one");
    assert!(stack.is_empty());
}

#[test]
fn turning_do_not_disturb_off_restores_delivery() {
    let now = start();
    let config = config(9, 1000);
    let mut stack = NotificationStack::new();

    stack.set_dnd(true);
    stack.push(request("lost"), &config, now);
    stack.set_dnd(false);
    let pushed = stack.push(request("shown"), &config, now);

    assert!(pushed.displayed);
    assert_eq!(summaries(&stack), ["shown"]);
}

#[test]
fn do_not_disturb_leaves_earlier_notifications_alone() {
    let now = start();
    let config = config(9, 10_000);
    let mut stack = NotificationStack::new();

    stack.push(request("before"), &config, now);
    stack.set_dnd(true);
    stack.push(request("during"), &config, now);

    assert_eq!(summaries(&stack), ["before"]);
}

#[test]
fn the_next_expiry_is_the_earliest_one() {
    let now = start();
    let config = config(9, 10_000);
    let mut stack = NotificationStack::new();

    let mut slow = request("slow");
    slow.expire_timeout = 5000;
    let mut quick = request("quick");
    quick.expire_timeout = 1000;
    let mut never = request("never");
    never.expire_timeout = -1;

    stack.push(slow, &config, now);
    assert_eq!(stack.next_expiry(), Some(after_ms(now, 5000)));
    stack.push(quick, &config, now);
    assert_eq!(stack.next_expiry(), Some(after_ms(now, 1000)));
    stack.push(never, &config, now);
    assert_eq!(stack.next_expiry(), Some(after_ms(now, 1000)));
}

#[test]
fn expiring_reports_every_notification_that_aged_out() {
    let now = start();
    let config = config(9, 10_000);
    let mut stack = NotificationStack::new();

    let mut quick = request("quick");
    quick.expire_timeout = 100;
    let mut slow = request("slow");
    slow.expire_timeout = 1000;
    let quick = stack.push(quick, &config, now).id;
    let slow = stack.push(slow, &config, now).id;

    assert_eq!(
        stack.expire(after_ms(now, 500)),
        [(quick, ClosedReason::Expired)]
    );
    assert_eq!(
        stack.expire(after_ms(now, 1000)),
        [(slow, ClosedReason::Expired)]
    );
    assert!(stack.is_empty());
}

#[test]
fn reason_codes_match_the_protocol() {
    assert_eq!(ClosedReason::Expired.code(), 1);
    assert_eq!(ClosedReason::Dismissed.code(), 2);
    assert_eq!(ClosedReason::ClosedByCall.code(), 3);
}

#[test]
fn a_limit_of_nothing_shows_nothing() {
    let now = start();
    let mut stack = NotificationStack::new();

    let pushed = stack.push(request("gone"), &config(0, 1000), now);

    assert_eq!(pushed.closed, [(pushed.id, ClosedReason::Expired)]);
    assert!(stack.is_empty());
}

#[test]
fn a_smaller_limit_evicts_every_notification_that_is_too_many() {
    let now = start();
    let mut stack = NotificationStack::new();
    let first = stack.push(request("1"), &config(9, 1000), now).id;
    let second = stack.push(request("2"), &config(9, 1000), now).id;
    let third = stack.push(request("3"), &config(1, 1000), now);

    assert_eq!(
        third.closed,
        [(first, ClosedReason::Expired), (second, ClosedReason::Expired)]
    );
    assert_eq!(summaries(&stack), ["3"]);
}

#[test]
fn a_notification_that_was_just_added_can_be_closed_again() {
    let now = start();
    let config = config(9, 1000);
    let mut stack = NotificationStack::new();
    stack.push(request("kept"), &config, now);
    let pushed = stack.push(request("closed"), &config, now);

    assert!(stack.close(pushed.id).is_some());
    assert_eq!(stack.close(pushed.id), None, "closing it again does nothing");
    assert_eq!(summaries(&stack), ["kept"]);
}

#[test]
fn a_swallowed_notification_still_uses_up_an_id() {
    let now = start();
    let config = config(9, 1000);
    let mut stack = NotificationStack::default();
    stack.set_dnd(true);
    assert_eq!(stack.push(request("swallowed"), &config, now).id, 1);
    stack.set_dnd(false);
    assert_eq!(stack.push(request("shown"), &config, now).id, 2);
}
