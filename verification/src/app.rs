//! Application state and the event handling that drives it.
//!
//! Time is passed in rather than read, so every transition (hover delays, the
//! slide animation, notification expiry) can be stated without sleeping.

pub mod laws;

use vstd::prelude::*;
use vstd::string::*;

use crate::bar::ModuleValue;
use crate::config::Config;
use crate::ipc::Command;
use crate::notify::stack::{
    aged_out, closed_with, exactly_what_is_due_expires, has_id, lemma_still_there,
    lemma_without_absent, nothing_expires_before_its_time, remaining, requested, without,
    ClosedReason, Notification, NotificationStack, Push, Queue, Request,
};
use crate::text::same_text;
use crate::time::Instant;

verus! {

/// How long the status bar takes to slide fully in or out, in nanoseconds.
pub const SLIDE: u128 = 150_000_000;

/// The progress of a bar that is fully out. A bar that slides from one end to the
/// other gains or loses one unit each nanosecond.
pub const FULL: u32 = 150_000_000;

/// Which end of the slide the bar is heading for, and who asked for it.
#[derive(Debug, Clone, Copy, PartialEq, Eq, Structural)]
pub enum BarTarget {
    /// Collapsed, showing only the border.
    Hidden,
    /// Expanded because the pointer is on the top edge; leaving collapses it.
    Hover,
    /// Expanded by a command; the pointer must not collapse it.
    Command,
}

/// Where a bar that has reached its target stands.
pub open spec fn end_of(target: BarTarget) -> u32 {
    match target {
        BarTarget::Hidden => 0,
        BarTarget::Hover | BarTarget::Command => FULL,
    }
}

impl BarTarget {
    fn progress(self) -> (end: u32)
        ensures
            end == end_of(self),
    {
        match self {
            BarTarget::Hidden => 0,
            BarTarget::Hover => FULL,
            BarTarget::Command => FULL,
        }
    }
}

/// A slide in progress.
#[derive(Debug, Clone, Copy, PartialEq, Eq, Structural)]
pub struct Animation {
    pub from: u32,
    pub to: u32,
    pub started: Instant,
}

impl Animation {
    /// Nanoseconds the slide has lasted by `now`.
    pub open spec fn elapsed(self, now: Instant) -> int {
        if now.nanos > self.started.nanos {
            now.nanos - self.started.nanos
        } else {
            0
        }
    }

    /// True when the slide is over by `now`.
    pub open spec fn over(self, now: Instant) -> bool {
        self.elapsed(now) >= SLIDE
    }

    /// How far out the bar is at `now`: the way from `from` to `to` is covered at
    /// an even pace.
    pub open spec fn progress_at(self, now: Instant) -> int {
        if self.over(now) {
            self.to as int
        } else if self.to >= self.from {
            self.from + (self.to - self.from) * self.elapsed(now) / (SLIDE as int)
        } else {
            self.from - (self.from - self.to) * self.elapsed(now) / (SLIDE as int)
        }
    }
}

/// A transition that has been asked for but not applied yet.
#[derive(Debug, Clone, Copy, PartialEq, Eq, Structural)]
pub struct Pending {
    pub at: Instant,
    pub target: BarTarget,
}

/// Where the bar is, where it is going, and what is queued.
#[derive(Debug, Clone, Copy, PartialEq, Eq, Structural)]
pub struct BarState {
    pub target: BarTarget,
    /// How far out the bar is.
    pub progress: u32,
    pub animation: Option<Animation>,
    pub pending: Option<Pending>,
}

impl BarState {
    /// A bar is never further out than fully; at rest it is where its target is;
    /// and only the pointer's own transitions are ever queued: out of hiding, or
    /// back from where the pointer brought it.
    pub open spec fn wf(self) -> bool {
        &&& self.progress <= FULL
        &&& self.animation is None ==> self.progress == end_of(self.target)
        &&& self.animation matches Some(slide) ==> {
            &&& slide.from <= FULL
            &&& slide.to == end_of(self.target)
            &&& slide.started.schedulable()
        }
        &&& self.pending matches Some(pending) ==> {
            &&& pending.at.schedulable()
            &&& pending.target == BarTarget::Hover && self.target == BarTarget::Hidden
                || pending.target == BarTarget::Hidden && self.target == BarTarget::Hover
        }
    }

    /// A collapsed bar with nothing queued.
    pub open spec fn at_rest() -> BarState {
        BarState { target: BarTarget::Hidden, progress: 0, animation: None, pending: None }
    }

    pub open spec fn queued(self, target: BarTarget) -> bool {
        self.pending is Some && self.pending->0.target == target
    }

    /// The bar after it was sent to `target` at `now`.
    pub open spec fn sent_to(self, target: BarTarget, now: Instant) -> BarState {
        BarState {
            target,
            progress: self.progress,
            animation: Some(
                Animation { from: self.progress, to: end_of(target), started: now },
            ),
            pending: None,
        }
    }

    /// The bar after what was queued for `now` or before was applied. The slide
    /// started when the delay ran out, not when it was noticed.
    pub open spec fn caught_up(self, now: Instant) -> BarState {
        if self.pending is Some && self.pending->0.at.nanos <= now.nanos {
            self.sent_to(self.pending->0.target, self.pending->0.at)
        } else {
            self
        }
    }

    /// The bar at `now`.
    pub open spec fn stepped(self, now: Instant) -> BarState {
        let bar = self.caught_up(now);
        if bar.animation is None {
            bar
        } else {
            BarState {
                progress: bar.animation->0.progress_at(now) as u32,
                animation: if bar.animation->0.over(now) {
                    None
                } else {
                    bar.animation
                },
                ..bar
            }
        }
    }

    /// The bar after the pointer came: a queued collapse is cancelled, and a
    /// hidden bar is queued to come out.
    pub open spec fn entered(self, hover_delay_ms: u64, now: Instant) -> BarState {
        let pending = if self.queued(BarTarget::Hidden) {
            None
        } else {
            self.pending
        };
        if self.target == BarTarget::Hidden && pending is None {
            BarState {
                pending: Some(
                    Pending {
                        at: now.plus_millis(hover_delay_ms as int),
                        target: BarTarget::Hover,
                    },
                ),
                ..self
            }
        } else {
            BarState { pending, ..self }
        }
    }

    /// The bar after the pointer went: a queued expansion is cancelled, and a bar
    /// that the pointer brought out is queued to go back.
    pub open spec fn left(self, hide_delay_ms: u64, now: Instant) -> BarState {
        let pending = if self.pending is Some && !self.queued(BarTarget::Hidden) {
            None
        } else {
            self.pending
        };
        if self.target == BarTarget::Hover {
            BarState {
                pending: Some(
                    Pending {
                        at: now.plus_millis(hide_delay_ms as int),
                        target: BarTarget::Hidden,
                    },
                ),
                ..self
            }
        } else {
            BarState { pending, ..self }
        }
    }

    fn new() -> (bar: Self)
        ensures
            bar == BarState::at_rest(),
            bar.wf(),
    {
        BarState { target: BarTarget::Hidden, progress: 0, animation: None, pending: None }
    }

    /// Head for `target` now, dropping anything that was queued.
    fn go_to(&mut self, target: BarTarget, now: Instant)
        requires
            old(self).wf(),
            now.schedulable(),
        ensures
            *final(self) == old(self).sent_to(target, now),
            final(self).wf(),
    {
        self.pending = None;
        self.target = target;
        self.animation =
        Some(Animation { from: self.progress, to: target.progress(), started: now });
    }

    /// Head for `target` later, replacing anything queued earlier.
    fn delay(&mut self, target: BarTarget, at: Instant)
        ensures
            *final(self) == (BarState { pending: Some(Pending { at, target }), ..*old(self) }),
    {
        self.pending = Some(Pending { at, target });
    }

    fn is_queued(&self, target: BarTarget) -> (queued: bool)
        ensures
            queued == self.queued(target),
    {
        match self.pending {
            Some(pending) => pending.target == target,
            None => false,
        }
    }

    /// Move on to `now`. Returns true when the slide's extent changed.
    pub fn step(&mut self, now: Instant) -> (moved: bool)
        requires
            old(self).wf(),
        ensures
            *final(self) == old(self).stepped(now),
            final(self).wf(),
            moved == (final(self).progress != old(self).progress),
    {
        let before: u32 = self.progress;
        match self.pending {
            Some(pending) => {
                if pending.at.nanos <= now.nanos {
                    self.go_to(pending.target, pending.at);
                }
            },
            None => {},
        }
        match self.animation {
            Some(slide) => {
                proof {
                    lemma_progress_between(slide, now);
                }
                let elapsed: u128 = now.saturating_nanos_since(slide.started);
                if elapsed >= SLIDE {
                    self.progress = slide.to;
                    self.animation = None;
                } else {
                    self.progress = slide_progress(slide.from, slide.to, elapsed);
                }
            },
            None => {},
        }
        self.progress != before
    }
}

fn slide_progress(from: u32, to: u32, elapsed: u128) -> (progress: u32)
    requires
        from <= FULL,
        to <= FULL,
        elapsed < SLIDE,
    ensures
        progress == if to >= from {
            from + (to - from) * elapsed / (SLIDE as int)
        } else {
            from - (from - to) * elapsed / (SLIDE as int)
        },
{
    let way: u64 = if to >= from {
        (to - from) as u64
    } else {
        (from - to) as u64
    };
    proof {
        lemma_part_of(way as int, elapsed as int);
        assert(way * elapsed <= 150_000_000 * 150_000_000) by (nonlinear_arith)
            requires
                0 <= way <= 150_000_000,
                0 <= elapsed <= 150_000_000,
        ;
    }
    let covered: u32 = (way * (elapsed as u64) / 150_000_000) as u32;
    if to >= from {
        from + covered
    } else {
        from - covered
    }
}

proof fn lemma_part_of(way: int, elapsed: int)
    requires
        0 <= way,
        0 <= elapsed <= SLIDE,
    ensures
        0 <= way * elapsed / (SLIDE as int) <= way,
        elapsed == SLIDE ==> way * elapsed / (SLIDE as int) == way,
{
    assert(0 <= way * elapsed <= way * 150_000_000) by (nonlinear_arith)
        requires
            0 <= way,
            0 <= elapsed <= 150_000_000,
    ;
}

proof fn lemma_progress_between(slide: Animation, now: Instant)
    ensures
        slide.from <= slide.to ==> slide.from <= slide.progress_at(now) <= slide.to,
        slide.to <= slide.from ==> slide.to <= slide.progress_at(now) <= slide.from,
{
    if !slide.over(now) {
        if slide.to >= slide.from {
            lemma_part_of(slide.to - slide.from, slide.elapsed(now));
        } else {
            lemma_part_of(slide.from - slide.to, slide.elapsed(now));
        }
    }
}

/// Something that happened, to be handled by [`App::handle`].
#[derive(Debug, Clone)]
pub enum Event {
    /// The pointer entered the top edge's input region.
    PointerEnter,
    /// The pointer left the top edge's input region.
    PointerLeave,
    /// A module produced a new value.
    Module { index: usize, value: ModuleValue },
    /// A client closed a notification by id.
    CloseNotification(u32),
    /// The user clicked a card.
    DismissNotification(u32),
    /// A command arrived over the control channel.
    Command(Command),
}

/// Anything the shell has to do beyond repainting.
#[derive(Debug, PartialEq, Eq)]
pub struct Update {
    /// Notifications that left the queue, with the reason to report for each.
    pub closed: Vec<(u32, ClosedReason)>,
    pub reload: bool,
    pub quit: bool,
    /// The status bar is further out, or less far out, than before.
    pub bar_moved: bool,
}

impl Default for Update {
    fn default() -> (update: Self)
        ensures
            update.closed@ == Seq::<(u32, ClosedReason)>::empty(),
            !update.reload,
            !update.quit,
            !update.bar_moved,
    {
        Update { closed: Vec::new(), reload: false, quit: false, bar_moved: false }
    }
}

/// The model of the application state.
pub struct AppState {
    pub config: Config,
    pub modules: Seq<ModuleValue>,
    pub queue: Queue,
    pub bar: BarState,
    /// Something affecting the pixels changed since this was last asked for.
    pub dirty: bool,
}

/// True when the two values look the same.
pub open spec fn same_value(a: ModuleValue, b: ModuleValue) -> bool {
    a.text@ == b.text@ && a.color == b.color
}

/// True of a list of modules none of which has reported anything.
pub open spec fn unreported(modules: Seq<ModuleValue>) -> bool {
    forall|i: int|
        0 <= i < modules.len() ==> (#[trigger] modules[i]).text@ == Seq::<char>::empty()
            && modules[i].color is None
}

impl AppState {
    pub open spec fn wf(self) -> bool {
        &&& self.queue.wf()
        &&& self.bar.wf()
        &&& self.modules.len() == self.config.bar.module@.len()
    }

    /// True of the instants at which something happens by itself: a queued
    /// transition, the end of the slide, or the expiry of a notification.
    pub open spec fn due_at(self, at: Instant) -> bool {
        ||| self.bar.pending is Some && self.bar.pending->0.at == at
        ||| self.bar.animation is Some && self.bar.animation->0.started.nanos + SLIDE == at.nanos
        ||| exists|i: int|
            0 <= i < self.queue.items.len() && (#[trigger] self.queue.items[i]).expires_at == Some(
                at,
            )
    }

    /// The state at `now`, when nothing else happens.
    pub open spec fn advanced(self, now: Instant) -> AppState {
        let bar = self.bar.stepped(now);
        AppState {
            bar,
            queue: Queue { items: remaining(self.queue.items, now), ..self.queue },
            dirty: self.dirty || bar.progress != self.bar.progress || aged_out(
                self.queue.items,
                now,
            ).len() > 0,
            ..self
        }
    }

    /// The state after a command.
    pub open spec fn commanded(self, command: Command, now: Instant) -> AppState {
        match command {
            Command::ShowBar => AppState {
                bar: self.bar.sent_to(BarTarget::Command, now),
                ..self
            },
            Command::HideBar => AppState { bar: self.bar.sent_to(BarTarget::Hidden, now), ..self },
            Command::ToggleBar => AppState {
                bar: self.bar.sent_to(
                    if self.bar.target == BarTarget::Hidden {
                        BarTarget::Command
                    } else {
                        BarTarget::Hidden
                    },
                    now,
                ),
                ..self
            },
            Command::Dnd { enabled } => AppState {
                queue: Queue { dnd: enabled, ..self.queue },
                dirty: true,
                ..self
            },
            Command::Reload | Command::Quit => self,
        }
    }

    /// The state after an event.
    pub open spec fn handled(self, event: Event, now: Instant) -> AppState {
        match event {
            Event::PointerEnter => AppState {
                bar: self.bar.entered(self.config.bar.hover_delay_ms, now),
                ..self
            },
            Event::PointerLeave => AppState {
                bar: self.bar.left(self.config.bar.hide_delay_ms, now),
                ..self
            },
            Event::Module { index, value } => if index < self.modules.len() && !same_value(
                self.modules[index as int],
                value,
            ) {
                AppState {
                    modules: self.modules.update(index as int, value),
                    dirty: true,
                    ..self
                }
            } else {
                self
            },
            Event::CloseNotification(id) | Event::DismissNotification(id) => AppState {
                queue: Queue { items: without(self.queue.items, id), ..self.queue },
                dirty: self.dirty || has_id(self.queue.items, id),
                ..self
            },
            Event::Command(command) => self.commanded(command, now),
        }
    }

    /// True when `after` is the state after a notification came and `push` is the
    /// answer. Do-not-disturb swallows it; otherwise it is queued, and whatever it
    /// pushes out is reported.
    pub open spec fn notified(
        self,
        request: Request,
        now: Instant,
        after: AppState,
        push: Push,
    ) -> bool {
        let limits = self.config.notifications;
        let new = requested(push.id, request, limits.timeout_ms, now);
        let max_visible = limits.max_visible as int;
        &&& push.id == self.queue.assigned_id(request.replaces_id)
        &&& push.displayed == !self.queue.dnd
        &&& push.closed@ == if self.queue.dnd {
            Seq::empty()
        } else {
            closed_with(self.queue.displaced_by(new, max_visible), ClosedReason::Expired)
        }
        &&& after == AppState {
            queue: Queue {
                items: if self.queue.dnd {
                    self.queue.items
                } else {
                    self.queue.with(new, max_visible)
                },
                next_id: self.queue.next_id_after(request.replaces_id),
                ..self.queue
            },
            dirty: self.dirty || push.displayed,
            ..self
        }
    }

    /// What is reported as closed after an event.
    pub open spec fn closed_by(self, event: Event) -> Seq<(u32, ClosedReason)> {
        match event {
            Event::CloseNotification(id) => if has_id(self.queue.items, id) {
                seq![(id, ClosedReason::ClosedByCall)]
            } else {
                Seq::empty()
            },
            Event::DismissNotification(id) => if has_id(self.queue.items, id) {
                seq![(id, ClosedReason::Dismissed)]
            } else {
                Seq::empty()
            },
            _ => Seq::empty(),
        }
    }
}

pub struct App {
    config: Config,
    modules: Vec<ModuleValue>,
    notifications: NotificationStack,
    bar: BarState,
    /// Set when anything affecting the pixels changed; cleared by [`App::take_dirty`].
    dirty: bool,
}

impl View for App {
    type V = AppState;

    closed spec fn view(&self) -> AppState {
        AppState {
            config: self.config,
            modules: self.modules@,
            queue: self.notifications@,
            bar: self.bar,
            dirty: self.dirty,
        }
    }
}

fn blank_modules(count: usize) -> (modules: Vec<ModuleValue>)
    ensures
        modules@.len() == count,
        unreported(modules@),
{
    let mut modules: Vec<ModuleValue> = Vec::new();
    while modules.len() < count
        invariant
            modules@.len() <= count,
            unreported(modules@),
        decreases count - modules.len(),
    {
        modules.push(ModuleValue::default());
    }
    modules
}

fn value_is_same(a: &ModuleValue, b: &ModuleValue) -> (same: bool)
    ensures
        same == same_value(*a, *b),
{
    let same_color = match (a.color, b.color) {
        (Some(x), Some(y)) => x == y,
        (None, None) => true,
        _ => false,
    };
    same_color && same_text(a.text.as_str(), b.text.as_str())
}

fn one_closed(closed: Option<(u32, ClosedReason)>) -> (update: Update)
    ensures
        update.closed@ == match closed {
            Some(entry) => seq![entry],
            None => Seq::empty(),
        },
        !update.reload && !update.quit && !update.bar_moved,
{
    let mut update = Update::default();
    match closed {
        Some(entry) => {
            update.closed.push(entry);
        },
        None => {},
    }
    assert(update.closed@ =~= match closed {
        Some(entry) => seq![entry],
        None => Seq::empty(),
    });
    update
}

fn earlier(a: Option<Instant>, b: Option<Instant>) -> (first: Option<Instant>)
    ensures
        first is None <==> a is None && b is None,
        first is Some ==> first == a || first == b,
        first is Some && a is Some ==> first->0.nanos <= a->0.nanos,
        first is Some && b is Some ==> first->0.nanos <= b->0.nanos,
{
    match (a, b) {
        (Some(x), Some(y)) => if y.nanos < x.nanos {
            Some(y)
        } else {
            Some(x)
        },
        (Some(x), None) => Some(x),
        (None, _) => b,
    }
}

impl App {
    pub fn new(config: Config) -> (app: Self)
        ensures
            app@.wf(),
            app@.config == config,
            unreported(app@.modules),
            app@.queue.items == Seq::<Notification>::empty(),
            app@.queue.next_id == 1,
            !app@.queue.dnd,
            app@.bar == BarState::at_rest(),
            app@.dirty,
    {
        let modules = blank_modules(config.bar.module.len());
        App {
            config,
            modules,
            notifications: NotificationStack::new(),
            bar: BarState::new(),
            // A fresh shell has not painted yet.
            dirty: true,
        }
    }

    pub fn config(&self) -> (config: &Config)
        ensures
            *config == self@.config,
    {
        &self.config
    }

    pub fn modules(&self) -> (modules: &[ModuleValue])
        ensures
            modules@ == self@.modules,
    {
        self.modules.as_slice()
    }

    pub fn notifications(&self) -> (items: &[Notification])
        ensures
            items@ == self@.queue.items,
    {
        self.notifications.notifications()
    }

    /// How far the status bar is out: 0 collapsed, [`FULL`] fully shown.
    pub fn bar_progress(&self) -> (progress: u32)
        ensures
            progress == self@.bar.progress,
    {
        self.bar.progress
    }

    /// True while the status bar is on its way.
    pub fn is_sliding(&self) -> (sliding: bool)
        ensures
            sliding == (self@.bar.animation is Some),
    {
        self.bar.animation.is_some()
    }

    pub fn take_dirty(&mut self) -> (dirty: bool)
        ensures
            dirty == old(self)@.dirty,
            final(self)@ == (AppState { dirty: false, ..old(self)@ }),
    {
        let dirty = self.dirty;
        self.dirty = false;
        dirty
    }

    /// Go on with another configuration: its modules have not reported anything
    /// yet, and everything is painted anew. Notifications and the bar stay.
    pub fn reload(&mut self, config: Config)
        requires
            old(self)@.wf(),
        ensures
            final(self)@.wf(),
            final(self)@.config == config,
            unreported(final(self)@.modules),
            final(self)@.queue == old(self)@.queue,
            final(self)@.bar == old(self)@.bar,
            final(self)@.dirty,
    {
        self.modules = blank_modules(config.bar.module.len());
        self.config = config;
        self.dirty = true;
    }

    /// When the shell should next call [`App::advance`], if ever.
    pub fn next_deadline(&self) -> (next: Option<Instant>)
        requires
            self@.wf(),
        ensures
            next is None ==> forall|at: Instant| !self@.due_at(at),
            next matches Some(first) ==> self@.due_at(first) && forall|at: Instant|
                self@.due_at(at) ==> first.nanos <= at.nanos,
    {
        let queued = match self.bar.pending {
            Some(pending) => Some(pending.at),
            None => None,
        };
        let slid = match self.bar.animation {
            Some(slide) => Some(Instant { nanos: slide.started.nanos + SLIDE }),
            None => None,
        };
        let expiry = self.notifications.next_expiry();
        let next = earlier(earlier(queued, slid), expiry);
        assert forall|at: Instant| self@.due_at(at) implies next is Some && next->0.nanos
            <= at.nanos by {
            if exists|i: int|
                0 <= i < self@.queue.items.len() && (#[trigger] self@.queue.items[i]).expires_at
                    == Some(at) {
                let i = choose|i: int|
                    0 <= i < self@.queue.items.len() && (#[trigger] self@.queue.items[i]).expires_at
                        == Some(at);
                assert(self.notifications@.items[i].expires_at == Some(at));
            }
        }
        next
    }

    /// Move time-driven state forward: queued transitions, the slide, and
    /// notification expiry.
    pub fn advance(&mut self, now: Instant) -> (update: Update)
        requires
            old(self)@.wf(),
        ensures
            final(self)@.wf(),
            final(self)@ == old(self)@.advanced(now),
            update.closed@ == closed_with(
                aged_out(old(self)@.queue.items, now),
                ClosedReason::Expired,
            ),
            update.bar_moved == (final(self)@.bar.progress != old(self)@.bar.progress),
            !update.reload,
            !update.quit,
    {
        let bar_moved = self.bar.step(now);
        let closed = self.notifications.expire(now);
        if bar_moved || closed.len() > 0 {
            self.dirty = true;
        }
        Update { closed, reload: false, quit: false, bar_moved }
    }

    /// Show a notification and report the id the client should be told.
    pub fn notify(&mut self, request: Request, now: Instant) -> (push: Push)
        requires
            old(self)@.wf(),
            now.on_clock(),
        ensures
            final(self)@.wf(),
            old(self)@.notified(request, now, final(self)@, push),
    {
        let push = self.notifications.push(request, &self.config.notifications, now);
        if push.displayed {
            self.dirty = true;
        }
        push
    }

    /// React to an event.
    pub fn handle(&mut self, event: Event, now: Instant) -> (update: Update)
        requires
            old(self)@.wf(),
            now.on_clock(),
        ensures
            final(self)@.wf(),
            final(self)@ == old(self)@.handled(event, now),
            update.closed@ == old(self)@.closed_by(event),
            update.reload == (event == Event::Command(Command::Reload)),
            update.quit == (event == Event::Command(Command::Quit)),
            !update.bar_moved,
    {
        match event {
            Event::PointerEnter => {
                // Coming back cancels a queued collapse.
                if self.bar.is_queued(BarTarget::Hidden) {
                    self.bar.pending = None;
                }
                if self.bar.target == BarTarget::Hidden && self.bar.pending.is_none() {
                    let at = now.after_millis(self.config.bar.hover_delay_ms);
                    self.bar.delay(BarTarget::Hover, at);
                }
            },
            Event::PointerLeave => {
                // Leaving cancels a queued expansion.
                if self.bar.pending.is_some() && !self.bar.is_queued(BarTarget::Hidden) {
                    self.bar.pending = None;
                }
                if self.bar.target == BarTarget::Hover {
                    let at = now.after_millis(self.config.bar.hide_delay_ms);
                    self.bar.delay(BarTarget::Hidden, at);
                }
            },
            Event::Module { index, value } => {
                if index < self.modules.len() && !value_is_same(&self.modules[index], &value) {
                    self.modules.set(index, value);
                    self.dirty = true;
                }
            },
            Event::CloseNotification(id) => {
                let closed = self.notifications.close(id);
                if closed.is_some() {
                    self.dirty = true;
                }
                return one_closed(closed);
            },
            Event::DismissNotification(id) => {
                let closed = self.notifications.dismiss(id);
                if closed.is_some() {
                    self.dirty = true;
                }
                return one_closed(closed);
            },
            Event::Command(command) => {
                return self.run(command, now);
            },
        }
        Update::default()
    }

    /// Carry out a command.
    pub fn run(&mut self, command: Command, now: Instant) -> (update: Update)
        requires
            old(self)@.wf(),
            now.on_clock(),
        ensures
            final(self)@.wf(),
            final(self)@ == old(self)@.commanded(command, now),
            update.closed@ == Seq::<(u32, ClosedReason)>::empty(),
            update.reload == (command == Command::Reload),
            update.quit == (command == Command::Quit),
            !update.bar_moved,
    {
        let mut update = Update::default();
        match command {
            Command::ShowBar => self.bar.go_to(BarTarget::Command, now),
            Command::HideBar => self.bar.go_to(BarTarget::Hidden, now),
            Command::ToggleBar => match self.bar.target {
                BarTarget::Hidden => self.bar.go_to(BarTarget::Command, now),
                BarTarget::Hover | BarTarget::Command => self.bar.go_to(BarTarget::Hidden, now),
            },
            Command::Dnd { enabled } => {
                self.notifications.set_dnd(enabled);
                self.dirty = true;
            },
            Command::Reload => {
                update.reload = true;
            },
            Command::Quit => {
                update.quit = true;
            },
        }
        update
    }
}

/// A quick pass over the top edge does nothing: a bar that was not on its way out
/// is, when the pointer leaves before the delay has passed, as if the pointer had
/// never come.
pub proof fn a_quick_pass_does_not_expand(
    bar: BarState,
    hover_delay_ms: u64,
    hide_delay_ms: u64,
    came: Instant,
    went: Instant,
)
    requires
        bar.wf(),
        bar.target == BarTarget::Hidden,
        bar.pending is None,
        came.on_clock(),
        went.nanos < came.nanos + hover_delay_ms * crate::time::NANOS_PER_MILLI,
    ensures
        bar.entered(hover_delay_ms, came).stepped(went).left(hide_delay_ms, went) == bar.stepped(
            went,
        ),
{
}

/// A pointer that rests on the top edge brings a hidden bar fully out, one delay
/// and one slide after it came.
pub proof fn resting_on_the_top_edge_expands(
    bar: BarState,
    hover_delay_ms: u64,
    came: Instant,
    now: Instant,
)
    requires
        bar.wf(),
        bar.target == BarTarget::Hidden,
        bar.pending is None,
        came.on_clock(),
        now.nanos >= came.nanos + hover_delay_ms * crate::time::NANOS_PER_MILLI + SLIDE,
    ensures
        bar.entered(hover_delay_ms, came).stepped(now).target == BarTarget::Hover,
        bar.entered(hover_delay_ms, came).stepped(now).progress == FULL,
{
}

/// A bar that the pointer brought out goes back one delay and one slide after the
/// pointer left, and stays where it is for the whole delay.
pub proof fn leaving_collapses_after_the_delay(
    bar: BarState,
    hide_delay_ms: u64,
    went: Instant,
    now: Instant,
)
    requires
        bar.wf(),
        bar.target == BarTarget::Hover,
        bar.animation is None,
        went.on_clock(),
    ensures
        ({
            let due = went.nanos + hide_delay_ms * crate::time::NANOS_PER_MILLI;
            let after = bar.left(hide_delay_ms, went).stepped(now);
            &&& now.nanos < due ==> after.progress == FULL
            &&& now.nanos >= due + SLIDE ==> after == BarState::at_rest()
        }),
{
}

/// A pointer that comes back in time cancels the collapse: the bar that it brought
/// out is as if the pointer had never left.
pub proof fn returning_cancels_the_collapse(
    bar: BarState,
    hover_delay_ms: u64,
    hide_delay_ms: u64,
    went: Instant,
    back: Instant,
)
    requires
        bar.wf(),
        bar.target == BarTarget::Hover,
        bar.pending is None,
        went.on_clock(),
        back.nanos < went.nanos + hide_delay_ms * crate::time::NANOS_PER_MILLI,
    ensures
        bar.left(hide_delay_ms, went).stepped(back).entered(hover_delay_ms, back) == bar.stepped(
            back,
        ),
{
}

/// The pointer does not move a bar that a command brought out, neither by coming
/// nor by leaving, then or later.
pub proof fn the_pointer_cannot_collapse_a_command_expansion(
    bar: BarState,
    hover_delay_ms: u64,
    hide_delay_ms: u64,
    now: Instant,
    later: Instant,
)
    requires
        bar.wf(),
        bar.target == BarTarget::Command,
    ensures
        bar.entered(hover_delay_ms, now) == bar,
        bar.left(hide_delay_ms, now) == bar,
        bar.stepped(later).target == BarTarget::Command,
{
}

/// A bar that a command hid comes to rest after one slide and stays hidden, until
/// something else happens.
pub proof fn a_hidden_bar_stays_hidden(bar: BarState, hidden: Instant, now: Instant)
    requires
        now.nanos >= hidden.nanos + SLIDE,
    ensures
        bar.sent_to(BarTarget::Hidden, hidden).stepped(now) == BarState::at_rest(),
{
}

/// A toggle hides a bar that is out or on its way out and shows one that is not,
/// so two of them take it back to where it was, one slide after the second.
pub proof fn two_toggles_cancel_out(state: AppState, first: Instant, second: Instant, now: Instant)
    requires
        state.wf(),
        first.nanos <= second.nanos,
        now.nanos >= second.nanos + SLIDE,
    ensures
        ({
            let once = state.commanded(Command::ToggleBar, first);
            let twice = AppState { bar: once.bar.stepped(second), ..once }.commanded(
                Command::ToggleBar,
                second,
            );
            &&& end_of(once.bar.target) == FULL - end_of(state.bar.target)
            &&& twice.bar.stepped(now).progress == end_of(state.bar.target)
        }),
{
}

/// A toggle is a hide for a bar that was last sent out, by the pointer or by a
/// command, and a show for any other: it leaves the same state, in which nothing is
/// queued and the bar turns from where it is.
pub proof fn a_toggle_hides_or_shows(state: AppState, now: Instant)
    requires
        state.wf(),
    ensures
        ({
            let toggled = state.commanded(Command::ToggleBar, now);
            &&& state.bar.target == BarTarget::Hidden ==> toggled == state.commanded(
                Command::ShowBar,
                now,
            )
            &&& state.bar.target != BarTarget::Hidden ==> toggled == state.commanded(
                Command::HideBar,
                now,
            )
            &&& toggled.bar.pending is None
            &&& toggled.bar.stepped(now).progress == state.bar.progress
        }),
{
    a_slide_starts_where_the_bar_is(state.bar, BarTarget::Hidden, now);
    a_slide_starts_where_the_bar_is(state.bar, BarTarget::Command, now);
}

/// A slide starts where the bar is: sending it somewhere else, even on its way,
/// makes no jump.
pub proof fn a_slide_starts_where_the_bar_is(bar: BarState, target: BarTarget, now: Instant)
    requires
        bar.wf(),
    ensures
        bar.sent_to(target, now).stepped(now).progress == bar.progress,
{
    let way = if end_of(target) >= bar.progress {
        end_of(target) - bar.progress
    } else {
        bar.progress - end_of(target)
    };
    assert(way * 0 == 0);
}

proof fn lemma_covered_grows(way: int, early: int, late: int)
    requires
        0 <= way,
        0 <= early <= late,
    ensures
        way * early / (SLIDE as int) <= way * late / (SLIDE as int),
{
    assert(way * early <= way * late) by (nonlinear_arith)
        requires
            0 <= way,
            0 <= early <= late,
    ;
    vstd::arithmetic::div_mod::lemma_div_is_ordered(way * early, way * late, SLIDE as int);
}

/// While it slides, the bar only ever moves towards its target.
pub proof fn a_slide_never_turns_back(bar: BarState, early: Instant, late: Instant)
    requires
        bar.wf(),
        bar.animation is Some,
        bar.pending is None,
        early.nanos <= late.nanos,
    ensures
        bar.animation->0.from <= end_of(bar.target) ==> bar.stepped(early).progress <= bar.stepped(
            late,
        ).progress <= end_of(bar.target),
        bar.animation->0.from >= end_of(bar.target) ==> bar.stepped(early).progress >= bar.stepped(
            late,
        ).progress >= end_of(bar.target),
{
    let slide = bar.animation->0;
    lemma_progress_between(slide, early);
    lemma_progress_between(slide, late);
    if !slide.over(late) {
        if slide.to >= slide.from {
            lemma_covered_grows(slide.to - slide.from, slide.elapsed(early), slide.elapsed(late));
        } else {
            lemma_covered_grows(slide.from - slide.to, slide.elapsed(early), slide.elapsed(late));
        }
    }
}

/// It does not matter how often the bar is looked at in between, unless a queued
/// transition interrupts a slide.
pub proof fn looking_changes_nothing(bar: BarState, between: Instant, now: Instant)
    requires
        bar.wf(),
        bar.pending is None || bar.animation is None,
        between.nanos <= now.nanos,
    ensures
        bar.stepped(between).stepped(now) == bar.stepped(now),
{
    lemma_progress_between(bar.caught_up(between).animation->0, between);
}

/// A queued slide counts from when it was due, not from when that was noticed: a bar
/// at rest that was looked at then is where one is that was not, and both cover the
/// way to the target evenly from that moment on.
pub proof fn a_queued_slide_counts_from_when_it_was_due(bar: BarState, now: Instant)
    requires
        bar.wf(),
        bar.animation is None,
        bar.pending is Some,
        bar.pending->0.at.nanos <= now.nanos,
    ensures
        ({
            let due = bar.pending->0.at;
            let slide = Animation {
                from: bar.progress,
                to: end_of(bar.pending->0.target),
                started: due,
            };
            &&& bar.stepped(due).stepped(now) == bar.stepped(now)
            &&& bar.stepped(now).progress == slide.progress_at(now)
        }),
{
    let due = bar.pending->0.at;
    looking_changes_nothing(bar, due, now);
    lemma_progress_between(bar.caught_up(now).animation->0, now);
}

/// Once everything that was due has happened, a slide ago, the bar is at its
/// target and nothing is pending any more.
pub proof fn nothing_is_pending_while_the_bar_is_at_rest(bar: BarState, now: Instant)
    requires
        bar.wf(),
        bar.pending matches Some(pending) ==> now.nanos >= pending.at.nanos + SLIDE,
        bar.animation matches Some(slide) ==> now.nanos >= slide.started.nanos + SLIDE,
    ensures
        bar.stepped(now).animation is None,
        bar.stepped(now).pending is None,
        bar.stepped(now).progress == end_of(bar.stepped(now).target),
{
}

/// Between deadlines nothing happens by itself, except that a running slide goes
/// on: a bar at rest, the queue and what is on screen stay as they are.
pub proof fn nothing_happens_before_the_next_deadline(state: AppState, now: Instant)
    requires
        state.wf(),
        state.bar.animation is None,
        forall|at: Instant| state.due_at(at) ==> now.nanos < at.nanos,
    ensures
        state.advanced(now) == state,
{
    if state.bar.pending is Some {
        assert(state.due_at(state.bar.pending->0.at));
    }
    assert forall|i: int| 0 <= i < state.queue.items.len() implies !(
    #[trigger] state.queue.items[i]).expired(now) by {
        let item = state.queue.items[i];
        if item.expired(now) {
            assert(state.due_at(item.expires_at->0));
        }
    }
    nothing_expires_before_its_time(state.queue.items, now);
}

/// A value like the one a module already shows, and one for a module that does not
/// exist, changes nothing, and asks for no repaint.
pub proof fn an_unchanged_value_is_no_repaint(
    state: AppState,
    index: usize,
    value: ModuleValue,
    now: Instant,
)
    requires
        index < state.modules.len() ==> same_value(state.modules[index as int], value),
    ensures
        state.handled(Event::Module { index, value }, now) == state,
{
}

/// Whatever an event changes of what is on screen, it asks for a repaint.
pub proof fn every_visible_change_asks_for_a_repaint(state: AppState, event: Event, now: Instant)
    ensures
        ({
            let after = state.handled(event, now);
            ||| after.dirty
            ||| after.modules == state.modules && after.queue.items == state.queue.items
                && after.bar.progress == state.bar.progress && after.config == state.config
        }),
{
    match event {
        Event::CloseNotification(id) => {
            if !has_id(state.queue.items, id) {
                lemma_without_absent(state.queue.items, id);
            }
        },
        Event::DismissNotification(id) => {
            if !has_id(state.queue.items, id) {
                lemma_without_absent(state.queue.items, id);
            }
        },
        _ => {},
    }
}

/// Whatever the passing of time changes of what is on screen, it asks for a
/// repaint.
pub proof fn every_visible_step_asks_for_a_repaint(state: AppState, now: Instant)
    ensures
        ({
            let after = state.advanced(now);
            ||| after.dirty
            ||| after.modules == state.modules && after.queue.items == state.queue.items
                && after.bar.progress == state.bar.progress && after.config == state.config
        }),
{
    let items = state.queue.items;
    if aged_out(items, now).len() == 0 {
        assert forall|i: int| 0 <= i < items.len() implies !(#[trigger] items[i]).expired(now) by {
            exactly_what_is_due_expires(items, now, items[i]);
        }
        nothing_expires_before_its_time(items, now);
    }
}

/// True when the notification of that id is among those reported as closed.
pub open spec fn reported(closed: Seq<(u32, ClosedReason)>, id: u32) -> bool {
    exists|i: int| 0 <= i < closed.len() && (#[trigger] closed[i]).0 == id
}

/// Whatever is reported as closed was in the queue and is gone from it, and
/// whatever an event takes from the queue is reported.
pub proof fn what_leaves_is_reported(state: AppState, event: Event, now: Instant, id: u32)
    ensures
        reported(state.closed_by(event), id) <==> has_id(state.queue.items, id) && !has_id(
            state.handled(event, now).queue.items,
            id,
        ),
{
    let items = state.queue.items;
    let after = state.handled(event, now).queue.items;
    let gone = state.closed_by(event);
    match event {
        Event::CloseNotification(target) => {
            lemma_still_there(items, target, id);
            if has_id(items, target) {
                assert(gone[0] == (target, ClosedReason::ClosedByCall));
            }
        },
        Event::DismissNotification(target) => {
            lemma_still_there(items, target, id);
            if has_id(items, target) {
                assert(gone[0] == (target, ClosedReason::Dismissed));
            }
        },
        _ => {
            assert(after == items);
        },
    }
}

/// After do-not-disturb was turned on, notifications are swallowed: what is on
/// screen stays, nothing is reported, and the client still gets an id.
pub proof fn do_not_disturb_shows_nothing(
    state: AppState,
    request: Request,
    asked: Instant,
    now: Instant,
    after: AppState,
    push: Push,
)
    requires
        state.wf(),
        state.commanded(Command::Dnd { enabled: true }, asked).notified(request, now, after, push),
    ensures
        after.queue.items == state.queue.items,
        !push.displayed,
        push.closed@ == Seq::<(u32, ClosedReason)>::empty(),
        push.id != 0,
{
}

/// Turning do-not-disturb off restores delivery: the next notification is shown.
pub proof fn delivery_is_restored(
    state: AppState,
    request: Request,
    asked: Instant,
    now: Instant,
    after: AppState,
    push: Push,
)
    requires
        state.wf(),
        state.config.notifications.max_visible > 0,
        state.commanded(Command::Dnd { enabled: false }, asked).notified(
            request,
            now,
            after,
            push,
        ),
    ensures
        push.displayed,
        after.dirty,
        has_id(after.queue.items, push.id),
{
    let queue = Queue { dnd: false, ..state.queue };
    let limits = state.config.notifications;
    let new = requested(push.id, request, limits.timeout_ms, now);
    let items = queue.with(new, limits.max_visible as int);
    assert(after.queue.items == items);
    if has_id(queue.items, new.id) {
        let i = choose|i: int| 0 <= i < queue.items.len() && (#[trigger] queue.items[i]).id == new.id;
        assert(items[i].id == push.id);
    } else {
        assert(items[items.len() - 1] == new);
    }
}

} // verus!
