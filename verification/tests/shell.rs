use quickbar::app::{Event, FULL};
use quickbar::config::{Config, Module};
use quickbar::edge::Edge;
use quickbar::geometry::PIXEL;
use quickbar::ipc::Command;
use quickbar::notify::stack::{ClosedReason, Request};
use quickbar::render::{Draw, Renderer, Run};
use quickbar::shell::{Pointer, Repaint, Shell};
use quickbar::time::Instant;

/// A monospace font: every character is three fifths of the size wide.
fn shape(text: &str, size: i64) -> Vec<Run> {
    let count = text.chars().count() as i64;
    vec![Run { width: count * size * 3 / 5, top: 0, height: size * 7 / 5 }]
}

fn start() -> Instant {
    Instant { nanos: 5_000_000_000 }
}

fn after_ms(now: Instant, millis: u128) -> Instant {
    Instant { nanos: now.nanos + millis * 1_000_000 }
}

/// Four configured edges on each of two outputs.
fn two_outputs() -> Shell {
    let mut shell = Shell::new(Config::default());
    for output in [1, 2] {
        for (index, edge) in Edge::ALL.iter().enumerate() {
            let id = output * 10 + index as u32;
            shell.add_surface(id, output, *edge);
            let given = match edge {
                Edge::Top | Edge::Bottom => (800, 0),
                Edge::Left | Edge::Right => (0, 600),
            };
            shell.configure(id, given);
        }
    }
    shell
}

const TOP: u32 = 10;
const BOTTOM: u32 = 11;
const OTHER_TOP: u32 = 20;
const OTHER_BOTTOM: u32 = 21;

fn index_of(shell: &Shell, id: u32) -> usize {
    shell.surfaces().iter().position(|surface| surface.id == id).unwrap()
}

fn cards_on(shell: &Shell, id: u32) -> usize {
    shell.content(index_of(shell, id)).notifications.len()
}

fn note(shell: &mut Shell, summary: &str) -> u32 {
    let request = Request {
        summary: summary.to_string(),
        expire_timeout: -1,
        ..Request::default()
    };
    shell.notify(request, start()).id
}

#[test]
fn a_surface_gets_what_it_asked_for_where_the_compositor_does_not_decide() {
    let shell = two_outputs();
    let size = |id| shell.surfaces()[index_of(&shell, id)].size;
    assert_eq!(size(TOP), (800, 34));
    assert_eq!(size(BOTTOM), (800, 406));
    assert_eq!(size(12), (6, 600));

    let mut shell = two_outputs();
    assert_eq!(shell.configure(TOP, (700, 50)), Some(0));
    assert_eq!(shell.surfaces()[0].size, (700, 50));
    assert_eq!(shell.configure(99, (700, 50)), None);
}

#[test]
fn a_new_shell_shows_notifications() {
    let mut shell = Shell::new(Config::default());
    let push = shell.notify(Request::default(), start());
    assert!(push.displayed);
    assert_eq!(push.id, 1);
    assert!(shell.surfaces().is_empty() && !shell.should_exit());
}

#[test]
fn the_pointer_on_the_top_edge_drives_the_bar() {
    let now = start();
    let renderer = Renderer::new(shape);
    let mut shell = two_outputs();

    shell.pointer_event(BOTTOM, Pointer::Enter, now, &renderer);
    shell.tick(after_ms(now, 1000));
    assert_eq!(shell.app().bar_progress(), 0, "only the top edge brings it out");

    shell.pointer_event(TOP, Pointer::Enter, now, &renderer);
    shell.tick(after_ms(now, 1000));
    assert_eq!(shell.app().bar_progress(), FULL);

    shell.pointer_event(TOP, Pointer::Other, after_ms(now, 1000), &renderer);
    shell.pointer_event(TOP, Pointer::Leave, after_ms(now, 1000), &renderer);
    shell.tick(after_ms(now, 3000));
    assert_eq!(shell.app().bar_progress(), 0);
}

#[test]
fn notifications_are_shown_where_the_pointer_was_last_seen() {
    let now = start();
    let renderer = Renderer::new(shape);
    let mut shell = two_outputs();
    note(&mut shell, "hello");

    assert_eq!((cards_on(&shell, BOTTOM), cards_on(&shell, OTHER_BOTTOM)), (1, 0));

    shell.pointer_event(OTHER_TOP, Pointer::Enter, now, &renderer);
    assert_eq!((cards_on(&shell, BOTTOM), cards_on(&shell, OTHER_BOTTOM)), (0, 1));

    shell.pointer_event(OTHER_TOP, Pointer::Leave, now, &renderer);
    assert_eq!((cards_on(&shell, BOTTOM), cards_on(&shell, OTHER_BOTTOM)), (0, 1));
}

#[test]
fn notifications_leave_an_output_that_is_gone() {
    let now = start();
    let renderer = Renderer::new(shape);
    let mut shell = two_outputs();
    note(&mut shell, "hello");
    shell.pointer_event(OTHER_TOP, Pointer::Enter, now, &renderer);

    shell.output_destroyed(2);

    assert_eq!(shell.surfaces().len(), 4);
    assert!(shell.surfaces().iter().all(|surface| surface.output == 1));
    assert_eq!(cards_on(&shell, BOTTOM), 1);
}

#[test]
fn a_closed_surface_is_dropped() {
    let mut shell = two_outputs();
    assert_eq!(shell.closed(BOTTOM), Some(Edge::Bottom));
    assert_eq!(shell.closed(BOTTOM), None);
    assert_eq!(shell.surfaces().len(), 7);
}

#[test]
fn clicking_a_card_dismisses_it() {
    let now = start();
    let renderer = Renderer::new(shape);
    let mut shell = two_outputs();
    let first = note(&mut shell, "first");
    let second = note(&mut shell, "second");
    let press = Pointer::Press { x: 600 * PIXEL, y: 390 * PIXEL };

    let chores = shell.pointer_event(TOP, press, now, &renderer);
    assert!(chores.closed.is_empty(), "the top edge has no cards");

    let chores = shell.pointer_event(BOTTOM, press, now, &renderer);
    assert_eq!(chores.closed, [(second, ClosedReason::Dismissed)], "the newest is lowest");
    let chores = shell.pointer_event(BOTTOM, press, now, &renderer);
    assert_eq!(chores.closed, [(first, ClosedReason::Dismissed)]);
    let chores = shell.pointer_event(BOTTOM, press, now, &renderer);
    assert!(chores.closed.is_empty());
    assert!(shell.pointer_event(99, press, now, &renderer).closed.is_empty());
}

#[test]
fn what_changed_is_painted_again() {
    let now = start();
    let mut shell = two_outputs();
    assert_eq!(shell.tick(now).1, Repaint::All, "the first frame always paints");
    assert_eq!(shell.tick(now).1, Repaint::Nothing);

    shell.apply_event(Event::Command(Command::ShowBar), now);
    assert_eq!(shell.tick(now).1, Repaint::Nothing);
    assert_eq!(shell.tick(after_ms(now, 75)).1, Repaint::Top, "only the bar is moving");
    shell.notify(Request { expire_timeout: 5, ..Request::default() }, after_ms(now, 75));
    assert_eq!(shell.tick(after_ms(now, 76)).1, Repaint::All, "a card came");
    assert_eq!(shell.tick(after_ms(now, 80)).1, Repaint::All, "and went");
    assert_eq!(shell.tick(after_ms(now, 100)).1, Repaint::Top);
    assert_eq!(shell.tick(after_ms(now, 500)).1, Repaint::Top);
    assert_eq!(shell.tick(after_ms(now, 600)).1, Repaint::Nothing);

    let top = index_of(&shell, TOP);
    let bottom = index_of(&shell, BOTTOM);
    assert!(shell.needs_paint(top, Repaint::Top) && !shell.needs_paint(bottom, Repaint::Top));
    assert!(shell.needs_paint(bottom, Repaint::All));
    assert!(!shell.needs_paint(top, Repaint::Nothing));
}

#[test]
fn an_expired_notification_is_handed_on() {
    let now = start();
    let mut shell = two_outputs();
    let request = Request { expire_timeout: 100, ..Request::default() };
    let id = shell.notify(request, now).id;
    let (chores, _) = shell.tick(after_ms(now, 100));
    assert_eq!(chores.closed, [(id, ClosedReason::Expired)]);
    assert!(!chores.reload);
}

#[test]
fn the_loop_sleeps_until_something_is_due() {
    let now = start();
    let mut shell = two_outputs();
    assert_eq!(shell.wakeup_in(now), None, "an idle shell waits for events");

    shell.notify(Request { expire_timeout: 100, ..Request::default() }, now);
    assert_eq!(shell.wakeup_in(now), Some(100_000_000));
    assert_eq!(shell.wakeup_in(after_ms(now, 500)), Some(0));

    shell.apply_event(Event::Command(Command::ShowBar), now);
    assert_eq!(shell.wakeup_in(now), Some(16_000_000), "a frame while the bar slides");
    assert_eq!(shell.wakeup_in(after_ms(now, 90)), Some(10_000_000));
}

#[test]
fn quitting_ends_the_loop_and_reloading_is_handed_on() {
    let now = start();
    let mut shell = two_outputs();
    let chores = shell.apply_event(Event::Command(Command::Reload), now);
    assert!(chores.reload && !shell.should_exit());
    let chores = shell.apply_event(Event::Command(Command::Quit), now);
    assert!(!chores.reload && shell.should_exit());
}

#[test]
fn a_broken_config_is_reported_and_the_running_one_is_kept() {
    let mut shell = two_outputs();
    shell.tick(start());
    let done = shell.reload(Err("c.toml: no".to_string()));
    assert_eq!(done.messages, ["quickbar: c.toml: no"]);
    assert!(!done.restart);
    assert!(shell.app().config().bar.module.is_empty());
    assert_eq!(shell.tick(start()).1, Repaint::Nothing);

    let mut config = Config::default();
    config.bar.module = vec![Module::default()];
    let done = shell.reload(Ok((config, vec!["odd".to_string(), "strange".to_string()])));
    assert_eq!(done.messages, ["quickbar: odd", "quickbar: strange"]);
    assert!(done.restart);
    assert_eq!(shell.app().modules().len(), 1);
    assert_eq!(shell.tick(start()).1, Repaint::All);
}

#[test]
fn a_surface_is_painted_with_the_place_where_it_takes_the_pointer() {
    let renderer = Renderer::new(shape);
    let mut shell = two_outputs();
    let top = index_of(&shell, TOP);
    let bottom = index_of(&shell, BOTTOM);
    let left = index_of(&shell, 12);

    let frame = shell.draw_surface(top, &renderer);
    assert_eq!(frame.input, (0, 0, 800, 6), "collapsed");
    assert_eq!(frame.draws.len(), 1);
    let frame = shell.draw_surface(bottom, &renderer);
    assert_eq!(frame.input, (0, 400, 800, 6), "no notifications");
    assert_eq!(shell.draw_surface(left, &renderer).input, (0, 0, 6, 600));

    note(&mut shell, "hello");
    shell.apply_event(Event::Command(Command::ShowBar), start());
    shell.tick(after_ms(start(), 10));
    assert_eq!(shell.draw_surface(top, &renderer).input, (0, 0, 800, 34), "sliding");
    let frame = shell.draw_surface(bottom, &renderer);
    // Padding of 24 pixels and a line of 18.2.
    assert_eq!(frame.input, (0, 406 - 48, 800, 48));
    assert!(matches!(&frame.draws[2], Draw::Text { text, .. } if text == "hello"));
}
