use quickbar::app::{App, Event, FULL, SLIDE};
use quickbar::bar::ModuleValue;
use quickbar::config::{Config, Module};
use quickbar::ipc::Command;
use quickbar::notify::stack::{ClosedReason, Request, Urgency};
use quickbar::time::Instant;

const MILLI: u128 = 1_000_000;

fn start() -> Instant {
    Instant { nanos: 5_000_000_000 }
}

fn after(now: Instant, nanos: u128) -> Instant {
    Instant { nanos: now.nanos + nanos }
}

fn after_ms(now: Instant, millis: u64) -> Instant {
    after(now, u128::from(millis) * MILLI)
}

fn config() -> Config {
    Config::default()
}

/// A time far enough in the future to finish any slide.
fn settled(now: Instant) -> Instant {
    after_ms(now, 1000)
}

fn request(summary: &str, timeout_ms: i32) -> Request {
    Request { summary: summary.to_string(), expire_timeout: timeout_ms, ..Request::default() }
}

fn with_clock() -> Config {
    let mut config = config();
    config.bar.module = vec![Module {
        name: "clock".to_string(),
        command: "date".to_string(),
        interval: Some(1),
        ..Module::default()
    }];
    config
}

fn value(text: &str) -> ModuleValue {
    ModuleValue { text: text.to_string(), color: None }
}

#[test]
fn a_quick_pass_over_the_top_edge_does_not_expand() {
    let now = start();
    let mut app = App::new(config());

    app.handle(Event::PointerEnter, now);
    let before_delay = after_ms(now, 100);
    app.advance(before_delay);
    assert_eq!(app.bar_progress(), 0, "must not expand before the delay");

    app.handle(Event::PointerLeave, before_delay);
    app.advance(settled(now));
    assert_eq!(app.bar_progress(), 0, "leaving cancels the expansion");
    assert!(app.next_deadline().is_none(), "nothing should be queued");
}

#[test]
fn resting_on_the_top_edge_expands_after_the_delay() {
    let now = start();
    let mut app = App::new(config());

    app.handle(Event::PointerEnter, now);
    assert_eq!(app.next_deadline(), Some(after_ms(now, config().bar.hover_delay_ms)));

    app.advance(settled(now));
    assert_eq!(app.bar_progress(), FULL);
}

#[test]
fn the_slide_takes_its_configured_time() {
    let now = start();
    let mut app = App::new(config());
    app.handle(Event::PointerEnter, now);
    let shown_at = after_ms(now, config().bar.hover_delay_ms);

    app.advance(after(shown_at, SLIDE / 2));
    let half = app.bar_progress() as f32 / FULL as f32;
    assert!((0.3..0.7).contains(&half), "halfway should be near 0.5, got {half}");
    assert_eq!(app.bar_progress(), FULL / 2);

    app.advance(after(shown_at, SLIDE));
    assert_eq!(app.bar_progress(), FULL);
}

#[test]
fn leaving_a_hover_expansion_collapses_after_the_delay() {
    let now = start();
    let mut app = App::new(config());
    app.handle(Event::PointerEnter, now);
    app.advance(settled(now));
    assert_eq!(app.bar_progress(), FULL);

    let left_at = settled(now);
    app.handle(Event::PointerLeave, left_at);
    app.advance(after_ms(left_at, config().bar.hide_delay_ms / 2));
    assert_eq!(app.bar_progress(), FULL, "still inside the grace period");

    app.advance(after_ms(left_at, config().bar.hide_delay_ms));
    let collapsed_by = after(after_ms(left_at, config().bar.hide_delay_ms), SLIDE);
    app.advance(collapsed_by);
    assert_eq!(app.bar_progress(), 0);
}

#[test]
fn returning_cancels_the_pending_collapse() {
    let now = start();
    let mut app = App::new(config());
    app.handle(Event::PointerEnter, now);
    app.advance(settled(now));

    let left_at = settled(now);
    app.handle(Event::PointerLeave, left_at);
    app.handle(Event::PointerEnter, after_ms(left_at, 50));

    app.advance(after_ms(left_at, 5000));
    assert_eq!(app.bar_progress(), FULL, "the collapse should have been cancelled");
}

#[test]
fn a_command_shows_the_bar_without_the_pointer() {
    let now = start();
    let mut app = App::new(config());

    app.handle(Event::Command(Command::ShowBar), now);
    app.advance(settled(now));
    assert_eq!(app.bar_progress(), FULL);
}

#[test]
fn the_pointer_cannot_collapse_a_command_expansion() {
    let now = start();
    let mut app = App::new(config());
    app.handle(Event::Command(Command::ShowBar), now);

    let left_at = settled(now);
    app.handle(Event::PointerLeave, left_at);
    app.advance(after_ms(left_at, 30_000));

    assert_eq!(app.bar_progress(), FULL, "a command expansion ignores the pointer");
}

#[test]
fn hide_bar_collapses_a_hover_expansion() {
    let now = start();
    let mut app = App::new(config());
    app.handle(Event::PointerEnter, now);
    app.advance(settled(now));

    let hidden_at = settled(now);
    app.handle(Event::Command(Command::HideBar), hidden_at);
    app.advance(after(hidden_at, SLIDE));

    assert_eq!(app.bar_progress(), 0);
    // The pointer is still resting on the edge, so it must not pop back out.
    app.advance(after_ms(hidden_at, 10_000));
    assert_eq!(app.bar_progress(), 0);
}

#[test]
fn toggle_switches_between_shown_and_hidden() {
    let now = start();
    let mut app = App::new(config());

    app.handle(Event::Command(Command::ToggleBar), now);
    app.advance(settled(now));
    assert_eq!(app.bar_progress(), FULL, "first toggle shows it");

    let second = settled(now);
    app.handle(Event::Command(Command::ToggleBar), second);
    app.advance(after(second, SLIDE));
    assert_eq!(app.bar_progress(), 0, "second toggle hides it");

    let third = after(second, SLIDE);
    app.handle(Event::Command(Command::ToggleBar), third);
    app.advance(after(third, SLIDE));
    assert_eq!(app.bar_progress(), FULL, "third toggle shows it again");
}

#[test]
fn a_toggle_is_a_hide_or_a_show() {
    let now = start();
    for millis in [0, 60, 200, 350, 2000] {
        let (mut toggled, mut sent) = (App::new(config()), App::new(config()));
        for app in [&mut toggled, &mut sent] {
            app.handle(Event::PointerEnter, now);
            app.advance(after_ms(now, millis));
        }
        let hidden = millis < config().bar.hover_delay_ms;
        let same = if hidden { Command::ShowBar } else { Command::HideBar };
        let then = after_ms(now, millis);
        toggled.run(Command::ToggleBar, then);
        sent.run(same, then);
        for later in [0, 30, 149, 150, 5000] {
            let at = after_ms(then, later);
            toggled.advance(at);
            sent.advance(at);
            assert_eq!(toggled.bar_progress(), sent.bar_progress());
            assert_eq!(toggled.next_deadline(), sent.next_deadline());
        }
    }
}

#[test]
fn a_toggle_during_the_slide_reverses_it() {
    let now = start();
    let mut app = App::new(config());
    app.handle(Event::Command(Command::ShowBar), now);
    app.advance(after(now, SLIDE / 2));
    let halfway = app.bar_progress();
    assert!(halfway > 0 && halfway < FULL, "should be mid-slide, got {halfway}");

    app.handle(Event::Command(Command::ToggleBar), after(now, SLIDE / 2));
    app.advance(after(now, SLIDE * 2));
    assert_eq!(app.bar_progress(), 0);
}

#[test]
fn module_updates_merge_into_a_single_repaint() {
    let now = start();
    let mut app = App::new(with_clock());
    assert!(app.take_dirty(), "the first frame always paints");

    app.handle(Event::Module { index: 0, value: value("14:03") }, now);
    app.handle(Event::Module { index: 0, value: value("14:04") }, now);

    assert!(app.take_dirty(), "the updates should ask for a repaint");
    assert!(!app.take_dirty(), "and only once between frames");
    assert_eq!(app.modules(), [value("14:04")]);
}

#[test]
fn an_unchanged_module_value_does_not_ask_for_a_repaint() {
    let now = start();
    let mut app = App::new(with_clock());
    app.handle(Event::Module { index: 0, value: value("14:03") }, now);
    app.take_dirty();

    app.handle(Event::Module { index: 0, value: value("14:03") }, now);

    assert!(!app.take_dirty(), "the same value is not a repaint");
}

#[test]
fn a_module_colour_alone_asks_for_a_repaint() {
    let now = start();
    let mut app = App::new(with_clock());
    app.handle(Event::Module { index: 0, value: value("14:03") }, now);
    app.take_dirty();

    let color = Some(config().bar.foreground);
    let coloured = ModuleValue { color, ..value("14:03") };
    app.handle(Event::Module { index: 0, value: coloured }, now);

    assert!(app.take_dirty());
}

#[test]
fn a_module_update_for_an_unknown_index_is_ignored() {
    let now = start();
    let mut app = App::new(config());
    app.take_dirty();

    app.handle(Event::Module { index: 7, value: value("x") }, now);

    assert!(!app.take_dirty());
}

#[test]
fn reload_and_quit_are_reported_to_the_caller() {
    let now = start();
    let mut app = App::new(config());

    assert!(app.handle(Event::Command(Command::Reload), now).reload);
    assert!(app.handle(Event::Command(Command::Quit), now).quit);
}

#[test]
fn do_not_disturb_suppresses_notifications() {
    let now = start();
    let mut app = App::new(config());
    app.handle(Event::Command(Command::Dnd { enabled: true }), now);

    let push = app.notify(request("quiet", 0), now);

    assert!(!push.displayed);
    assert!(app.notifications().is_empty());
}

#[test]
fn expired_notifications_are_reported_once() {
    let now = start();
    let mut app = App::new(config());
    let push = app.notify(request("brief", 100), now);
    app.take_dirty();

    let expired = app.advance(after_ms(now, 200));
    assert_eq!(expired.closed, [(push.id, ClosedReason::Expired)]);
    assert!(app.take_dirty(), "a card that is gone changes the pixels");

    let again = app.advance(after_ms(now, 400));
    assert!(again.closed.is_empty(), "an expired notification is reported once");
    assert!(!app.take_dirty());
}

#[test]
fn the_next_deadline_covers_notification_expiry() {
    let now = start();
    let mut app = App::new(config());
    app.notify(request("brief", 100), now);

    assert_eq!(app.next_deadline(), Some(after_ms(now, 100)));
}

#[test]
fn the_next_deadline_is_the_earliest_one() {
    let now = start();
    let mut app = App::new(config());
    app.notify(request("brief", 100), now);
    app.handle(Event::Command(Command::ShowBar), now);
    assert_eq!(app.next_deadline(), Some(after_ms(now, 100)), "before the slide ends");

    app.advance(after_ms(now, 120));
    assert_eq!(app.next_deadline(), Some(after(now, SLIDE)), "only the slide is left");
    assert!(app.is_sliding());
}

#[test]
fn dismissing_a_card_removes_it_and_repaints() {
    let now = start();
    let mut app = App::new(config());
    let push = app.notify(request("click me", 0), now);
    app.take_dirty();

    let update = app.handle(Event::DismissNotification(push.id), now);

    assert_eq!(update.closed, [(push.id, ClosedReason::Dismissed)]);
    assert!(app.notifications().is_empty());
    assert!(app.take_dirty(), "removing a card changes the pixels");
}

#[test]
fn closing_a_notification_reports_the_reason_to_the_caller() {
    let now = start();
    let mut app = App::new(config());
    let push = app.notify(request("close me", 0), now);
    app.take_dirty();

    let update = app.handle(Event::CloseNotification(push.id), now);

    assert_eq!(update.closed, [(push.id, ClosedReason::ClosedByCall)]);
    assert!(app.notifications().is_empty());
    assert!(app.take_dirty(), "removing a card changes the pixels");
}

#[test]
fn closing_an_unknown_notification_reports_nothing() {
    let now = start();
    let mut app = App::new(config());

    let update = app.handle(Event::CloseNotification(999), now);

    assert!(update.closed.is_empty());
}

#[test]
fn nothing_is_pending_while_the_bar_is_at_rest() {
    let now = start();
    let mut app = App::new(config());
    app.handle(Event::Command(Command::ShowBar), now);

    app.advance(after(now, SLIDE * 2));

    assert_eq!(app.next_deadline(), None);
    assert!(!app.is_sliding());
}

#[test]
fn urgency_is_kept_for_painting() {
    let now = start();
    let mut app = App::new(config());
    app.notify(
        Request {
            summary: "urgent".to_string(),
            urgency: Urgency::Urgent,
            ..Request::default()
        },
        now,
    );

    assert!(app.notifications()[0].is_urgent());
}

#[test]
fn a_moving_bar_is_reported() {
    let now = start();
    let mut app = App::new(config());
    app.take_dirty();
    app.handle(Event::Command(Command::ShowBar), now);
    assert!(!app.advance(now).bar_moved, "it has not moved yet");
    assert!(!app.take_dirty());

    assert!(app.advance(after(now, SLIDE / 3)).bar_moved);
    assert_eq!(app.bar_progress(), FULL / 3);
    assert!(app.take_dirty());

    assert!(app.advance(after(now, SLIDE)).bar_moved);
    assert!(!app.advance(after(now, SLIDE * 2)).bar_moved, "it has arrived");
}

#[test]
fn a_late_wakeup_starts_the_slide_when_the_delay_ran_out() {
    let now = start();
    let mut app = App::new(config());
    app.handle(Event::PointerEnter, now);
    let due = after_ms(now, config().bar.hover_delay_ms);

    app.advance(after(due, SLIDE / 3));

    assert_eq!(app.bar_progress(), FULL / 3);
    assert_eq!(app.next_deadline(), Some(after(due, SLIDE)));
}

#[test]
fn reloading_keeps_the_bar_and_the_notifications() {
    let now = start();
    let mut app = App::new(config());
    app.handle(Event::Command(Command::ShowBar), now);
    app.advance(settled(now));
    app.notify(request("stays", -1), now);
    app.take_dirty();

    app.reload(with_clock());

    assert_eq!(app.bar_progress(), FULL);
    assert_eq!(app.notifications().len(), 1);
    assert_eq!(app.modules(), [ModuleValue::default()]);
    assert_eq!(app.config().bar.module.len(), 1);
    assert!(app.take_dirty(), "everything is painted anew");
}

#[test]
fn a_slide_moves_evenly_and_never_back() {
    let now = start();
    let mut app = App::new(config());
    app.handle(Event::Command(Command::ShowBar), now);
    let mut last = 0;
    for step in 1..=10 {
        app.advance(after(now, SLIDE * step / 10));
        let progress = app.bar_progress();
        assert_eq!(u128::from(progress), u128::from(FULL) * step / 10);
        assert!(progress > last);
        last = progress;
    }

    let turned = after(now, SLIDE);
    app.handle(Event::Command(Command::HideBar), turned);
    app.advance(turned);
    assert_eq!(app.bar_progress(), FULL, "it starts where it is");
    app.advance(after(turned, SLIDE / 3));
    assert_eq!(app.bar_progress(), FULL - FULL / 3);
}

#[test]
fn looking_often_changes_nothing() {
    let now = start();
    let (mut often, mut once) = (App::new(config()), App::new(config()));
    for app in [&mut often, &mut once] {
        app.handle(Event::PointerEnter, now);
    }
    for millis in 0..220 {
        often.advance(after_ms(now, millis));
    }
    once.advance(after_ms(now, 219));
    assert_eq!(often.bar_progress(), once.bar_progress());
    assert_eq!(often.next_deadline(), once.next_deadline());
}

#[test]
fn nothing_happens_before_the_next_deadline() {
    let now = start();
    let mut app = App::new(config());
    app.handle(Event::PointerEnter, now);
    app.notify(request("later", 500), now);
    app.take_dirty();

    let deadline = app.next_deadline().unwrap();
    let update = app.advance(Instant { nanos: deadline.nanos - 1 });

    assert!(update.closed.is_empty() && !update.bar_moved);
    assert!(!app.take_dirty());
    assert_eq!(app.next_deadline(), Some(deadline));
}

#[test]
fn the_pointer_coming_twice_does_not_restart_the_delay() {
    let now = start();
    let mut app = App::new(config());
    app.handle(Event::PointerEnter, now);
    app.handle(Event::PointerEnter, after_ms(now, 100));
    assert_eq!(app.next_deadline(), Some(after_ms(now, config().bar.hover_delay_ms)));
}
