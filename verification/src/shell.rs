//! The shell around the application state: which surfaces there are, what an event
//! on one of them means, and what has to be painted when.
//!
//! One surface per edge per output. The shell is a single-threaded state machine:
//! everything that happens arrives as an event and is applied in order. Surfaces
//! and outputs go by the numbers the caller gives them.

pub mod laws;

use vstd::prelude::*;
use vstd::string::*;

use crate::app::{App, AppState, BarState, Event, Update, FULL};
use crate::config::{texts, Config};
use crate::edge::{
    self, content_height, edge_scene, fits_i32, input_area, input_rect, Content, Edge,
};
use crate::geometry::in_range;
use crate::notify::stack::{
    aged_out, closed_with, closing_twice_is_closing_once, exactly_what_is_due_expires, has_id,
    nothing_expires_before_its_time, without, ClosedReason, Notification, Push, Request,
};
use crate::notify::{
    self, a_click_inside_a_card_finds_it, hit_in, laid_out, lemma_room_positive, on_card,
};
use crate::render::{scene, Draw, Renderer, Run};
use crate::time::Instant;

verus! {

/// How often the slide is advanced while it is moving, in milliseconds.
pub const FRAME: u64 = 16;

/// One surface.
#[derive(Debug, Clone, Copy, PartialEq, Eq)]
pub struct Surface {
    pub id: u32,
    pub output: u32,
    pub edge: Edge,
    /// As the compositor configured it; zero until it has.
    pub size: (u32, u32),
}

/// What the pointer did on a surface.
#[derive(Debug, Clone, Copy, PartialEq, Eq, Structural)]
pub enum Pointer {
    Enter,
    Leave,
    Press { x: i64, y: i64 },
    /// Moved, released a button, or scrolled.
    Other,
}

/// What is left to do after an update was applied.
#[derive(Debug, PartialEq, Eq)]
pub struct Chores {
    /// The notifications whose clients have to be told.
    pub closed: Vec<(u32, ClosedReason)>,
    /// The config has to be read again.
    pub reload: bool,
}

/// Which surfaces have to be painted again.
#[derive(Debug, Clone, Copy, PartialEq, Eq, Structural)]
pub enum Repaint {
    All,
    /// Only the bar is moving; the other edges would be identical work.
    Top,
    Nothing,
}

/// What became of reading the config again.
#[derive(Debug, Clone, PartialEq, Eq)]
pub struct Reloaded {
    /// The lines to print.
    pub messages: Vec<String>,
    /// The modules have to be started anew, for the new config.
    pub restart: bool,
}

/// What to put on a surface.
#[derive(Debug, PartialEq, Eq)]
pub struct Frame {
    pub draws: Vec<Draw>,
    /// Where the surface accepts the pointer: left, top, width and height.
    pub input: (i32, i32, i32, i32),
}

/// The model of the shell.
pub struct ShellState {
    pub app: AppState,
    pub surfaces: Seq<Surface>,
    /// Where the pointer was last seen, so notifications land on that output.
    pub active: Option<u32>,
    pub exit: bool,
}

/// Where the first surface of that number is, from `from` on; the end of the list
/// when there is none.
pub open spec fn position(surfaces: Seq<Surface>, id: u32, from: int) -> int
    decreases surfaces.len() - from,
{
    if from >= surfaces.len() || surfaces[from].id == id {
        from
    } else {
        position(surfaces, id, from + 1)
    }
}

/// The surfaces that are not on an output.
pub open spec fn elsewhere(surfaces: Seq<Surface>, output: u32) -> Seq<Surface> {
    surfaces.filter(|surface: Surface| surface.output != output)
}

/// The size a surface gets when the compositor configured `given`. Zero means "you
/// decide", so what was asked for takes its place.
pub open spec fn settled_size(edge: Edge, config: Config, given: (u32, u32)) -> (int, int) {
    (
        if given.0 == 0 {
            edge.wanted_size(config).0
        } else {
            given.0 as int
        },
        if given.1 == 0 {
            edge.wanted_size(config).1
        } else {
            given.1 as int
        },
    )
}

/// True of a configuration whose surfaces are no taller than a number can say.
pub open spec fn sizes_fit(config: Config) -> bool {
    &&& config.border.width + config.bar.height <= u32::MAX
    &&& config.border.width + config.bar.content_max_height <= u32::MAX
}

/// How far out the content of an edge is: the bar slides, and notifications are
/// there or not.
pub open spec fn progress_of(edge: Edge, bar: BarState) -> u32 {
    if edge == Edge::Top {
        bar.progress
    } else {
        FULL
    }
}

impl ShellState {
    pub open spec fn wf(self) -> bool {
        self.app.wf()
    }

    /// The output notifications are shown on: where the pointer was last seen, or
    /// else where the first surface is.
    pub open spec fn shown_on(self) -> Option<u32> {
        if self.active is Some {
            self.active
        } else if self.surfaces.len() > 0 {
            Some(self.surfaces[0].output)
        } else {
            None
        }
    }

    /// The notifications a surface shows.
    pub open spec fn items_on(self, surface: Surface) -> Seq<Notification> {
        if self.shown_on() == Some(surface.output) {
            self.app.queue.items
        } else {
            Seq::empty()
        }
    }

    /// What the pointer's doing on a surface means for the application.
    pub open spec fn event_of(self, surface: Surface, pointer: Pointer) -> Option<Event> {
        match pointer {
            Pointer::Enter => if surface.edge == Edge::Top {
                Some(Event::PointerEnter)
            } else {
                None
            },
            Pointer::Leave => if surface.edge == Edge::Top {
                Some(Event::PointerLeave)
            } else {
                None
            },
            Pointer::Press { x, y } => if surface.edge == Edge::Bottom {
                match hit_in(
                    laid_out(self.app.config, self.app.queue.items, surface.size),
                    x as int,
                    y as int,
                ) {
                    Some(id) => Some(Event::DismissNotification(id)),
                    None => None,
                }
            } else {
                None
            },
            Pointer::Other => None,
        }
    }

    /// The shell after the pointer did something on a surface of that number.
    pub open spec fn pointed(self, id: u32, pointer: Pointer, now: Instant) -> ShellState {
        let at = position(self.surfaces, id, 0);
        if at >= self.surfaces.len() {
            self
        } else {
            let surface = self.surfaces[at];
            ShellState {
                app: match self.event_of(surface, pointer) {
                    Some(event) => self.app.handled(event, now),
                    None => self.app,
                },
                active: if pointer is Enter {
                    Some(surface.output)
                } else {
                    self.active
                },
                ..self
            }
        }
    }

    /// The notifications that are reported as closed after that.
    pub open spec fn pointed_closed(self, id: u32, pointer: Pointer) -> Seq<(u32, ClosedReason)> {
        let at = position(self.surfaces, id, 0);
        if at >= self.surfaces.len() {
            Seq::empty()
        } else {
            match self.event_of(self.surfaces[at], pointer) {
                Some(event) => self.app.closed_by(event),
                None => Seq::empty(),
            }
        }
    }
}

pub struct Shell {
    app: App,
    surfaces: Vec<Surface>,
    active: Option<u32>,
    exit: bool,
}

impl View for Shell {
    type V = ShellState;

    closed spec fn view(&self) -> ShellState {
        ShellState {
            app: self.app@,
            surfaces: self.surfaces@,
            active: self.active,
            exit: self.exit,
        }
    }
}

fn find(surfaces: &Vec<Surface>, id: u32) -> (at: usize)
    ensures
        at == position(surfaces@, id, 0),
        at <= surfaces@.len(),
{
    let mut at: usize = 0;
    while at < surfaces.len() && surfaces[at].id != id
        invariant
            0 <= at <= surfaces@.len(),
            position(surfaces@, id, 0) == position(surfaces@, id, at as int),
        decreases surfaces.len() - at,
    {
        at = at + 1;
    }
    at
}

fn with_prefix(text: &str) -> (line: String)
    ensures
        line@ == message_line(text@),
{
    let mut line = "quickbar: ".to_owned();
    line.append(text);
    line
}

/// How a message is printed.
pub open spec fn message_line(text: Seq<char>) -> Seq<char> {
    "quickbar: "@ + text
}

/// How a list of messages is printed.
pub open spec fn message_lines(messages: Seq<Seq<char>>) -> Seq<Seq<char>> {
    Seq::new(messages.len(), |i: int| message_line(messages[i]))
}

impl Shell {
    pub fn new(config: Config) -> (shell: Self)
        ensures
            shell@.wf(),
            shell@.app.config == config,
            crate::app::unreported(shell@.app.modules),
            shell@.app.queue.items == Seq::<Notification>::empty(),
            shell@.app.queue.next_id == 1,
            !shell@.app.queue.dnd,
            shell@.app.bar == BarState::at_rest(),
            shell@.app.dirty,
            shell@.surfaces == Seq::<Surface>::empty(),
            shell@.active is None,
            !shell@.exit,
    {
        Shell { app: App::new(config), surfaces: Vec::new(), active: None, exit: false }
    }

    pub fn app(&self) -> (app: &App)
        ensures
            app@ == self@.app,
    {
        &self.app
    }

    pub fn surfaces(&self) -> (surfaces: &[Surface])
        ensures
            surfaces@ == self@.surfaces,
    {
        self.surfaces.as_slice()
    }

    /// True once the shell was asked to quit.
    pub fn should_exit(&self) -> (exit: bool)
        ensures
            exit == self@.exit,
    {
        self.exit
    }

    /// A surface was made for an edge of an output.
    pub fn add_surface(&mut self, id: u32, output: u32, edge: Edge)
        ensures
            final(self)@ == (ShellState {
                surfaces: old(self)@.surfaces.push(Surface { id, output, edge, size: (0, 0) }),
                ..old(self)@
            }),
    {
        self.surfaces.push(Surface { id, output, edge, size: (0, 0) });
    }

    /// An output is gone, and its surfaces with it.
    pub fn output_destroyed(&mut self, output: u32)
        ensures
            final(self)@ == (ShellState {
                surfaces: elsewhere(old(self)@.surfaces, output),
                active: if old(self)@.active == Some(output) {
                    None
                } else {
                    old(self)@.active
                },
                ..old(self)@
            }),
    {
        let ghost all = self.surfaces@;
        let mut kept: Vec<Surface> = Vec::new();
        let mut index: usize = 0;
        proof {
            reveal(Seq::filter);
            assert(all.take(0) =~= Seq::<Surface>::empty());
        }
        while index < self.surfaces.len()
            invariant
                0 <= index <= self.surfaces@.len(),
                all == self.surfaces@,
                *self == *old(self),
                kept@ == elsewhere(all.take(index as int), output),
            decreases self.surfaces.len() - index,
        {
            let surface = self.surfaces[index];
            proof {
                reveal(Seq::filter);
                assert(all.take(index as int + 1).drop_last() =~= all.take(index as int));
            }
            if surface.output != output {
                kept.push(surface);
            }
            index = index + 1;
        }
        assert(all.take(index as int) =~= all);
        self.surfaces = kept;
        match self.active {
            Some(active) => {
                if active == output {
                    self.active = None;
                }
            },
            None => {},
        }
    }

    /// The compositor took a surface away; it is dropped, and its edge reported.
    pub fn closed(&mut self, id: u32) -> (edge: Option<Edge>)
        ensures
            ({
                let surfaces = old(self)@.surfaces;
                let at = position(surfaces, id, 0);
                if at < surfaces.len() {
                    &&& edge == Some(surfaces[at].edge)
                    &&& final(self)@ == (ShellState {
                        surfaces: surfaces.remove(at),
                        ..old(self)@
                    })
                } else {
                    &&& edge is None
                    &&& final(self)@ == old(self)@
                }
            }),
    {
        let at: usize = find(&self.surfaces, id);
        if at < self.surfaces.len() {
            let surface = self.surfaces.remove(at);
            Some(surface.edge)
        } else {
            None
        }
    }

    /// The compositor gave a surface its size. Returns where the surface stands in
    /// the list, so that it can be painted.
    ///
    /// An axis that was left at zero is the stretched one, and the compositor fills
    /// it in.
    pub fn configure(&mut self, id: u32, given: (u32, u32)) -> (index: Option<usize>)
        requires
            sizes_fit(old(self)@.app.config),
        ensures
            ({
                let surfaces = old(self)@.surfaces;
                let at = position(surfaces, id, 0);
                if at < surfaces.len() {
                    let wanted = settled_size(surfaces[at].edge, old(self)@.app.config, given);
                    let settled = Surface {
                        size: (wanted.0 as u32, wanted.1 as u32),
                        ..surfaces[at]
                    };
                    &&& index == Some(at as usize)
                    &&& final(self)@ == (ShellState {
                        surfaces: surfaces.update(at, settled),
                        ..old(self)@
                    })
                } else {
                    &&& index is None
                    &&& final(self)@ == old(self)@
                }
            }),
    {
        let at: usize = find(&self.surfaces, id);
        if at >= self.surfaces.len() {
            return None;
        }
        let surface = self.surfaces[at];
        let wanted = surface.edge.requested_size(self.app.config());
        let width: u32 = if given.0 == 0 {
            wanted.0
        } else {
            given.0
        };
        let height: u32 = if given.1 == 0 {
            wanted.1
        } else {
            given.1
        };
        self.surfaces.set(at, Surface { size: (width, height), ..surface });
        Some(at)
    }

    /// Take note of what an update asks for. What the shell cannot do itself is
    /// handed back.
    pub fn apply(&mut self, update: Update) -> (chores: Chores)
        ensures
            final(self)@ == (ShellState { exit: old(self)@.exit || update.quit, ..old(self)@ }),
            chores.closed == update.closed,
            chores.reload == update.reload,
    {
        if update.quit {
            self.exit = true;
        }
        Chores { closed: update.closed, reload: update.reload }
    }

    /// Let the application handle an event.
    pub fn apply_event(&mut self, event: Event, now: Instant) -> (chores: Chores)
        requires
            old(self)@.wf(),
            now.on_clock(),
        ensures
            final(self)@.wf(),
            final(self)@ == (ShellState {
                app: old(self)@.app.handled(event, now),
                exit: old(self)@.exit || event == Event::Command(crate::ipc::Command::Quit),
                ..old(self)@
            }),
            chores.closed@ == old(self)@.app.closed_by(event),
            chores.reload == (event == Event::Command(crate::ipc::Command::Reload)),
    {
        let update = self.app.handle(event, now);
        self.apply(update)
    }

    /// Show a notification and report the id the client should be told.
    pub fn notify(&mut self, request: Request, now: Instant) -> (push: Push)
        requires
            old(self)@.wf(),
            now.on_clock(),
        ensures
            final(self)@.wf(),
            final(self)@.surfaces == old(self)@.surfaces,
            final(self)@.active == old(self)@.active,
            final(self)@.exit == old(self)@.exit,
            old(self)@.app.notified(request, now, final(self)@.app, push),
    {
        self.app.notify(request, now)
    }

    /// Move time-driven state forward, and say what changed on screen.
    pub fn tick(&mut self, now: Instant) -> (done: (Chores, Repaint))
        requires
            old(self)@.wf(),
        ensures
            final(self)@.wf(),
            final(self)@ == (ShellState {
                app: AppState { dirty: false, ..old(self)@.app.advanced(now) },
                ..old(self)@
            }),
            done.0.closed@ == closed_with(
                aged_out(old(self)@.app.queue.items, now),
                ClosedReason::Expired,
            ),
            !done.0.reload,
            done.1 == if old(self)@.app.dirty || aged_out(
                old(self)@.app.queue.items,
                now,
            ).len() > 0 {
                Repaint::All
            } else if old(self)@.app.advanced(now).bar.progress != old(self)@.app.bar.progress {
                Repaint::Top
            } else {
                Repaint::Nothing
            },
    {
        let was_dirty = self.app.take_dirty();
        let update = self.app.advance(now);
        let bar_moved = update.bar_moved;
        let expired = update.closed.len() > 0;
        let chores = self.apply(update);
        // Whatever changed is painted now.
        let _ = self.app.take_dirty();
        let repaint = if was_dirty || expired {
            Repaint::All
        } else if bar_moved {
            Repaint::Top
        } else {
            Repaint::Nothing
        };
        (chores, repaint)
    }

    /// True when a surface has to be painted again.
    pub fn needs_paint(&self, index: usize, repaint: Repaint) -> (needed: bool)
        requires
            index < self@.surfaces.len(),
        ensures
            needed == match repaint {
                Repaint::All => true,
                Repaint::Top => self@.surfaces[index as int].edge == Edge::Top,
                Repaint::Nothing => false,
            },
    {
        match repaint {
            Repaint::All => true,
            Repaint::Top => self.surfaces[index].edge == Edge::Top,
            Repaint::Nothing => false,
        }
    }

    /// The pointer did something on a surface.
    pub fn pointer_event<F: Fn(&str, i64) -> Vec<Run>>(
        &mut self,
        id: u32,
        pointer: Pointer,
        now: Instant,
        renderer: &Renderer<F>,
    ) -> (chores: Chores)
        requires
            old(self)@.wf(),
            now.on_clock(),
            in_range(old(self)@.app.config.bar.font_size as int),
        ensures
            final(self)@.wf(),
            final(self)@ == old(self)@.pointed(id, pointer, now),
            chores.closed@ == old(self)@.pointed_closed(id, pointer),
            !chores.reload,
    {
        let at: usize = find(&self.surfaces, id);
        if at >= self.surfaces.len() {
            return Chores { closed: Vec::new(), reload: false };
        }
        let surface = self.surfaces[at];
        match pointer {
            Pointer::Enter => {
                self.active = Some(surface.output);
                if surface.edge == Edge::Top {
                    return self.apply_event(Event::PointerEnter, now);
                }
            },
            Pointer::Leave => {
                if surface.edge == Edge::Top {
                    return self.apply_event(Event::PointerLeave, now);
                }
            },
            Pointer::Press { x, y } => {
                if surface.edge == Edge::Bottom {
                    return self.dismiss_at(surface, x, y, now, renderer);
                }
            },
            Pointer::Other => {},
        }
        Chores { closed: Vec::new(), reload: false }
    }

    fn dismiss_at<F: Fn(&str, i64) -> Vec<Run>>(
        &mut self,
        surface: Surface,
        x: i64,
        y: i64,
        now: Instant,
        renderer: &Renderer<F>,
    ) -> (chores: Chores)
        requires
            old(self)@.wf(),
            now.on_clock(),
            in_range(old(self)@.app.config.bar.font_size as int),
        ensures
            final(self)@.wf(),
            ({
                let app = old(self)@.app;
                match hit_in(
                    laid_out(app.config, app.queue.items, surface.size),
                    x as int,
                    y as int,
                ) {
                    Some(id) => final(self)@ == (ShellState {
                        app: app.handled(Event::DismissNotification(id), now),
                        ..old(self)@
                    }) && chores.closed@ == app.closed_by(Event::DismissNotification(id)),
                    None => final(self)@ == old(self)@ && chores.closed@ == Seq::<
                        (u32, ClosedReason),
                    >::empty(),
                }
            }),
            !chores.reload,
    {
        let cards = notify::layout(
            self.app.config(),
            self.app.notifications(),
            renderer,
            surface.size,
        );
        match notify::hit(cards.as_slice(), x, y) {
            Some(id) => self.apply_event(Event::DismissNotification(id), now),
            None => Chores { closed: Vec::new(), reload: false },
        }
    }

    /// What a surface shows. Notifications are only shown on one output.
    pub fn content(&self, index: usize) -> (content: Content<'_>)
        requires
            index < self@.surfaces.len(),
        ensures
            content.modules@ == self@.app.modules,
            content.notifications@ == self@.items_on(self@.surfaces[index as int]),
            content.bar_progress == self@.app.bar.progress,
    {
        let shown_on: u32 = match self.active {
            Some(output) => output,
            None => self.surfaces[0].output,
        };
        let notifications = if self.surfaces[index].output == shown_on {
            self.app.notifications()
        } else {
            &[]
        };
        Content {
            modules: self.app.modules(),
            notifications,
            bar_progress: self.app.bar_progress(),
        }
    }

    /// What to put on a surface, and where it accepts the pointer.
    pub fn draw_surface<F: Fn(&str, i64) -> Vec<Run>>(
        &self,
        index: usize,
        renderer: &Renderer<F>,
    ) -> (frame: Frame)
        requires
            self@.wf(),
            renderer.wf(),
            index < self@.surfaces.len(),
            in_range(self@.app.config.bar.font_size as int),
            fits_i32(self@.input_of(self@.surfaces[index as int])),
        ensures
            ({
                let surface = self@.surfaces[index as int];
                &&& scene(frame.draws@) == edge_scene(
                    surface.edge,
                    surface.size,
                    self@.app.config,
                    self@.app.modules,
                    self@.items_on(surface),
                    self@.app.bar.progress as int,
                    *renderer,
                )
                &&& (
                    frame.input.0 as int,
                    frame.input.1 as int,
                    frame.input.2 as int,
                    frame.input.3 as int,
                ) == self@.input_of(surface)
            }),
    {
        let surface = self.surfaces[index];
        let content = self.content(index);
        let config = self.app.config();
        let draws = edge::paint(surface.edge, surface.size, config, &content, renderer);
        let height: i64 = content.height(surface.edge, config, renderer);
        let progress: u32 = if surface.edge == Edge::Top {
            content.bar_progress
        } else {
            FULL
        };
        let input = input_rect(surface.edge, surface.size, config.border.width, height, progress);
        Frame { draws, input }
    }

    /// How long the loop may sleep before something needs to happen again, in
    /// nanoseconds.
    ///
    /// `None` means "until the next event", which is what an idle shell with
    /// nothing on screen should be doing.
    pub fn wakeup_in(&self, now: Instant) -> (nanos: Option<u128>)
        requires
            self@.wf(),
            now.on_clock(),
        ensures
            nanos is None <==> self@.app.bar.animation is None && forall|at: Instant|
                !self@.app.due_at(at),
            nanos matches Some(wait) ==> exists|at: Instant| #[trigger]
                self@.wakes_at(at, now) && wait == if at.nanos > now.nanos {
                    at.nanos - now.nanos
                } else {
                    0
                } && forall|other: Instant|
                    self@.wakes_at(other, now) ==> at.nanos <= other.nanos,
    {
        let mut next = self.app.next_deadline();
        if self.app.is_sliding() {
            let frame = now.after_millis(FRAME);
            assert(self@.wakes_at(frame, now));
            next = match next {
                Some(at) => if at.nanos <= frame.nanos {
                    Some(at)
                } else {
                    Some(frame)
                },
                None => Some(frame),
            };
        }
        match next {
            Some(at) => {
                assert(self@.wakes_at(at, now));
                Some(at.saturating_nanos_since(now))
            },
            None => None,
        }
    }

    /// Go on with the config that was read again. A bad file is reported and
    /// ignored: the running configuration stays.
    pub fn reload(&mut self, loaded: Result<(Config, Vec<String>), String>) -> (done: Reloaded)
        requires
            old(self)@.wf(),
        ensures
            final(self)@.wf(),
            final(self)@.surfaces == old(self)@.surfaces,
            final(self)@.active == old(self)@.active,
            final(self)@.exit == old(self)@.exit,
            done.restart == (loaded is Ok),
            match loaded {
                Ok((config, warnings)) => {
                    &&& final(self)@.app.config == config
                    &&& crate::app::unreported(final(self)@.app.modules)
                    &&& final(self)@.app.queue == old(self)@.app.queue
                    &&& final(self)@.app.bar == old(self)@.app.bar
                    &&& final(self)@.app.dirty
                    &&& texts(done.messages@) == message_lines(texts(warnings@))
                },
                Err(error) => {
                    &&& final(self)@.app == old(self)@.app
                    &&& texts(done.messages@) == seq![message_line(error@)]
                },
            },
    {
        let mut messages: Vec<String> = Vec::new();
        match loaded {
            Ok((config, warnings)) => {
                let ghost lines = message_lines(texts(warnings@));
                let mut index: usize = 0;
                assert(texts(messages@) =~= lines.take(0));
                while index < warnings.len()
                    invariant
                        0 <= index <= warnings@.len(),
                        lines == message_lines(texts(warnings@)),
                        texts(messages@) == lines.take(index as int),
                    decreases warnings.len() - index,
                {
                    let ghost before = messages@;
                    let line = with_prefix(warnings[index].as_str());
                    messages.push(line);
                    index = index + 1;
                    assert(texts(messages@) =~= texts(before).push(line@));
                    assert(texts(messages@) =~= lines.take(index as int));
                }
                assert(lines.take(index as int) =~= lines);
                self.app.reload(config);
                Reloaded { messages, restart: true }
            },
            Err(error) => {
                messages.push(with_prefix(error.as_str()));
                assert(texts(messages@) =~= seq![message_line(error@)]);
                Reloaded { messages, restart: false }
            },
        }
    }
}

impl ShellState {
    /// Where a surface accepts the pointer.
    pub open spec fn input_of(self, surface: Surface) -> (int, int, int, int) {
        input_area(
            surface.edge,
            surface.size.0 as i32 as int,
            surface.size.1 as i32 as int,
            self.app.config.border.width as i32 as int,
            content_height(surface.edge, self.app.config, self.items_on(surface)),
            progress_of(surface.edge, self.app.bar) as int,
        )
    }

    /// True of the instants at which the loop has to wake up: when something is
    /// due, and a frame from now while the bar slides.
    pub open spec fn wakes_at(self, at: Instant, now: Instant) -> bool {
        ||| self.app.due_at(at)
        ||| self.app.bar.animation is Some && at == now.plus_millis(FRAME as int)
    }
}

/// A surface is found by its number: the one that is found has it, and none before
/// it has.
pub proof fn a_surface_is_found_by_its_number(surfaces: Seq<Surface>, id: u32, from: int)
    requires
        0 <= from <= surfaces.len(),
    ensures
        from <= position(surfaces, id, from) <= surfaces.len(),
        position(surfaces, id, from) < surfaces.len() ==> surfaces[position(
            surfaces,
            id,
            from,
        )].id == id,
        forall|i: int|
            from <= i < position(surfaces, id, from) ==> (#[trigger] surfaces[i]).id != id,
    decreases surfaces.len() - from,
{
    if from < surfaces.len() && surfaces[from].id != id {
        a_surface_is_found_by_its_number(surfaces, id, from + 1);
    }
}

/// Notifications are shown on one output only.
pub proof fn notifications_are_shown_on_one_output(state: ShellState, a: Surface, b: Surface)
    requires
        state.items_on(a).len() > 0,
        state.items_on(b).len() > 0,
    ensures
        a.output == b.output,
{
}

/// Notifications follow the pointer: they are shown where it last entered a
/// surface.
pub proof fn notifications_follow_the_pointer(state: ShellState, id: u32, now: Instant)
    requires
        position(state.surfaces, id, 0) < state.surfaces.len(),
    ensures
        state.pointed(id, Pointer::Enter, now).shown_on() == Some(
            state.surfaces[position(state.surfaces, id, 0)].output,
        ),
{
}

/// The bar only minds a pointer on the top edge.
pub proof fn only_the_top_edge_moves_the_bar(
    state: ShellState,
    id: u32,
    pointer: Pointer,
    now: Instant,
)
    requires
        state.pointed(id, pointer, now).app.bar != state.app.bar,
    ensures
        ({
            let at = position(state.surfaces, id, 0);
            at < state.surfaces.len() && state.surfaces[at].edge == Edge::Top
        }),
{
}

/// A click on a card that a surface shows takes that notification from the queue
/// and reports it as dismissed.
pub proof fn a_click_on_a_card_dismisses_it(
    state: ShellState,
    id: u32,
    x: i64,
    y: i64,
    now: Instant,
    i: int,
)
    requires
        ({
            let at = position(state.surfaces, id, 0);
            let surface = state.surfaces[at];
            let cards = laid_out(state.app.config, state.app.queue.items, surface.size);
            &&& 0 <= at < state.surfaces.len()
            &&& surface.edge == Edge::Bottom
            &&& 0 <= i < cards.len()
            &&& on_card(cards[i], x as int, y as int)
        }),
    ensures
        ({
            let surface = state.surfaces[position(state.surfaces, id, 0)];
            let items = state.app.queue.items;
            let card = laid_out(state.app.config, items, surface.size)[i];
            let after = state.pointed(id, Pointer::Press { x, y }, now);
            &&& after.app.queue.items == without(items, card.id)
            &&& !has_id(after.app.queue.items, card.id)
            &&& state.pointed_closed(id, Pointer::Press { x, y }) == seq![
                (card.id, ClosedReason::Dismissed),
            ]
        }),
{
    let surface = state.surfaces[position(state.surfaces, id, 0)];
    let config = state.app.config;
    let items = state.app.queue.items;
    let cards = laid_out(config, items, surface.size);
    a_click_inside_a_card_finds_it(config, items, surface.size, i, x as int, y as int);
    closing_twice_is_closing_once(items, cards[i].id);
    notify::lemma_first_shown(
        config,
        items,
        notify::room_above(config, surface.size.1),
        items.len() as int,
    );
    assert(items[cards[i].index].id == cards[i].id);
}

/// Once an output is gone, no surface is left on it and nothing is shown there.
pub proof fn nothing_is_left_on_a_destroyed_output(before: ShellState, after: ShellState, output: u32)
    requires
        after.surfaces == elsewhere(before.surfaces, output),
        after.active == if before.active == Some(output) {
            None
        } else {
            before.active
        },
    ensures
        forall|i: int| 0 <= i < after.surfaces.len() ==> (#[trigger] after.surfaces[i]).output
            != output,
        after.shown_on() != Some(output),
{
    lemma_elsewhere(before.surfaces, output);
}

proof fn lemma_elsewhere(surfaces: Seq<Surface>, output: u32)
    ensures
        forall|i: int|
            0 <= i < elsewhere(surfaces, output).len() ==> (#[trigger] elsewhere(
                surfaces,
                output,
            )[i]).output != output,
    decreases surfaces.len(),
{
    reveal(Seq::filter);
    if surfaces.len() > 0 {
        lemma_elsewhere(surfaces.drop_last(), output);
        let before = elsewhere(surfaces.drop_last(), output);
        let kept = elsewhere(surfaces, output);
        assert forall|i: int| 0 <= i < kept.len() implies (#[trigger] kept[i]).output
            != output by {
            if i < before.len() {
                assert(kept[i] == before[i]);
            }
        }
    }
}

/// While nothing but the bar moves, only the top edges look different: any other
/// surface shows what it showed before, and accepts the pointer where it did.
pub proof fn a_moving_bar_only_changes_the_top_edges<F: Fn(&str, i64) -> Vec<Run>>(
    before: ShellState,
    now: Instant,
    surface: Surface,
    renderer: Renderer<F>,
)
    requires
        aged_out(before.app.queue.items, now).len() == 0,
        surface.edge != Edge::Top,
    ensures
        ({
            let after = ShellState { app: before.app.advanced(now), ..before };
            &&& edge_scene(
                surface.edge,
                surface.size,
                after.app.config,
                after.app.modules,
                after.items_on(surface),
                after.app.bar.progress as int,
                renderer,
            ) == edge_scene(
                surface.edge,
                surface.size,
                before.app.config,
                before.app.modules,
                before.items_on(surface),
                before.app.bar.progress as int,
                renderer,
            )
            &&& after.input_of(surface) == before.input_of(surface)
        }),
{
    let items = before.app.queue.items;
    assert forall|i: int| 0 <= i < items.len() implies !(#[trigger] items[i]).expired(now) by {
        exactly_what_is_due_expires(items, now, items[i]);
    }
    nothing_expires_before_its_time(items, now);
}

/// Every surface that signed coordinates reach across can be painted.
pub proof fn ordinary_surfaces_can_be_painted(state: ShellState, surface: Surface)
    requires
        surface.size.0 <= i32::MAX,
        surface.size.1 <= i32::MAX,
        state.app.config.border.width <= i32::MAX,
    ensures
        fits_i32(state.input_of(surface)),
{
    let items = state.items_on(surface);
    lemma_room_positive(state.app.config, items, 0);
    let content = content_height(surface.edge, state.app.config, items);
    assert(content >= 0);
    edge::input_is_clamped_to_the_surface(
        surface.edge,
        surface.size.0 as int,
        surface.size.1 as int,
        state.app.config.border.width as int,
        content,
        progress_of(surface.edge, state.app.bar) as int,
    );
}

} // verus!
