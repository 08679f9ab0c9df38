//! What the shell does with its surfaces, said of the surfaces it has and of what
//! happens on them.

use vstd::prelude::*;

use super::{
    a_surface_is_found_by_its_number, elsewhere, message_line, message_lines, position,
    settled_size, Pointer, ShellState, Surface, FRAME,
};
use crate::app::laws::a_closed_notification_leaves_its_place;
use crate::app::{Event, FULL};
use crate::config::Config;
use crate::edge::{every_painted_card_accepts_input, Edge};
use crate::geometry::PIXEL;
use crate::notify::laid_out;
use crate::notify::laws::{a_click_finds_what_is_under_it, each_card_belongs_to_a_notification};
use crate::notify::stack::ClosedReason;
use crate::time::{Instant, NANOS_PER_MILLI};

verus! {

/// True of the surface that a number stands for: the first one that has it.
pub open spec fn stands_for(surfaces: Seq<Surface>, id: u32, at: int) -> bool {
    &&& 0 <= at < surfaces.len()
    &&& surfaces[at].id == id
    &&& forall|i: int| 0 <= i < at ==> (#[trigger] surfaces[i]).id != id
}

/// A number stands for the first surface that has it, wherever that is in the list, and
/// for none if none has it.
pub proof fn a_number_stands_for_a_surface(surfaces: Seq<Surface>, id: u32, at: int)
    ensures
        stands_for(surfaces, id, at) ==> position(surfaces, id, 0) == at,
        (forall|i: int| 0 <= i < surfaces.len() ==> (#[trigger] surfaces[i]).id != id) ==> position(
            surfaces,
            id,
            0,
        ) == surfaces.len(),
{
    a_surface_is_found_by_its_number(surfaces, id, 0);
    let found = position(surfaces, id, 0);
    if stands_for(surfaces, id, at) {
        if found < at {
            assert(surfaces[found].id != id);
        } else if at < found {
            assert(surfaces[at].id != id);
        }
    }
}

/// All notifications are shown on every surface of the output that the pointer was last
/// on, and none on any other output; before the pointer was anywhere, on the output of
/// the first surface.
pub proof fn where_notifications_are_shown(state: ShellState, surface: Surface)
    ensures
        state.active matches Some(output) ==> {
            &&& surface.output == output ==> state.items_on(surface) == state.app.queue.items
            &&& surface.output != output ==> state.items_on(surface).len() == 0
        },
        state.active is None && state.surfaces.len() > 0 ==> {
            &&& surface.output == state.surfaces[0].output ==> state.items_on(surface)
                == state.app.queue.items
            &&& surface.output != state.surfaces[0].output ==> state.items_on(surface).len() == 0
        },
{
}

/// A pointer that enters a surface moves the notifications to its output. On the top
/// edge it is the bar's affair as well, there and when it leaves; on any other edge the
/// bar does not mind. No surface changes by it.
pub proof fn what_a_moving_pointer_means(state: ShellState, id: u32, at: int, now: Instant)
    requires
        stands_for(state.surfaces, id, at),
    ensures
        ({
            let surface = state.surfaces[at];
            let entered = state.pointed(id, Pointer::Enter, now);
            let left = state.pointed(id, Pointer::Leave, now);
            &&& entered.active == Some(surface.output)
            &&& left.active == state.active
            &&& entered.surfaces == state.surfaces && left.surfaces == state.surfaces
            &&& entered.exit == state.exit && left.exit == state.exit
            &&& surface.edge == Edge::Top ==> entered.app == state.app.handled(
                Event::PointerEnter,
                now,
            ) && left.app == state.app.handled(Event::PointerLeave, now)
            &&& surface.edge != Edge::Top ==> entered.app == state.app && left.app == state.app
            &&& state.pointed_closed(id, Pointer::Enter).len() == 0
            &&& state.pointed_closed(id, Pointer::Leave).len() == 0
        }),
{
    a_number_stands_for_a_surface(state.surfaces, id, at);
}

/// A click on a card takes its notification out of the queue and reports it as
/// dismissed, whichever card it is; the others stay.
pub proof fn a_click_dismisses_the_card_under_it(
    state: ShellState,
    id: u32,
    at: int,
    x: i64,
    y: i64,
    now: Instant,
    k: int,
)
    requires
        state.wf(),
        stands_for(state.surfaces, id, at),
        state.surfaces[at].edge == Edge::Bottom,
        ({
            let cards = laid_out(
                state.app.config,
                state.app.queue.items,
                state.surfaces[at].size,
            );
            &&& 0 <= k < cards.len()
            &&& cards[k].x <= x < cards[k].x + cards[k].width
            &&& cards[k].y <= y < cards[k].y + cards[k].height
        }),
    ensures
        ({
            let items = state.app.queue.items;
            let card = laid_out(state.app.config, items, state.surfaces[at].size)[k];
            let press = Pointer::Press { x, y };
            let after = state.pointed(id, press, now);
            &&& after.app.queue.items == items.remove(card.index)
            &&& after.app.dirty
            &&& after.app.bar == state.app.bar && after.app.modules == state.app.modules
            &&& after.surfaces == state.surfaces && after.active == state.active && after.exit
                == state.exit
            &&& state.pointed_closed(id, press) == seq![
                (items[card.index].id, ClosedReason::Dismissed),
            ]
        }),
{
    let config = state.app.config;
    let items = state.app.queue.items;
    let size = state.surfaces[at].size;
    let card = laid_out(config, items, size)[k];
    a_number_stands_for_a_surface(state.surfaces, id, at);
    each_card_belongs_to_a_notification(config, items, size, k);
    a_click_finds_what_is_under_it(config, items, size, x as int, y as int, k);
    a_closed_notification_leaves_its_place(
        state.app,
        items[card.index].id,
        now,
        card.index,
        true,
    );
}

/// A click beside the cards, a click on any edge but the bottom one, whatever else the
/// pointer does, and anything on a surface that does not exist changes nothing.
pub proof fn anything_else_the_pointer_does_changes_nothing(
    state: ShellState,
    id: u32,
    at: int,
    x: i64,
    y: i64,
    now: Instant,
)
    ensures
        stands_for(state.surfaces, id, at) ==> {
            let surface = state.surfaces[at];
            let cards = laid_out(state.app.config, state.app.queue.items, surface.size);
            let press = Pointer::Press { x, y };
            let beside = forall|i: int|
                0 <= i < cards.len() ==> (#[trigger] cards[i]).x > x || x >= cards[i].x
                    + cards[i].width || cards[i].y > y || y >= cards[i].y + cards[i].height;
            &&& surface.edge != Edge::Bottom || beside ==> state.pointed(id, press, now) == state
                && state.pointed_closed(id, press).len() == 0
            &&& state.pointed(id, Pointer::Other, now) == state
            &&& state.pointed_closed(id, Pointer::Other).len() == 0
        },
        (forall|i: int|
            0 <= i < state.surfaces.len() ==> (#[trigger] state.surfaces[i]).id != id) ==> forall|
            pointer: Pointer,
        | #[trigger]
            state.pointed(id, pointer, now) == state && state.pointed_closed(id, pointer).len()
                == 0,
{
    a_number_stands_for_a_surface(state.surfaces, id, at);
    if stands_for(state.surfaces, id, at) {
        a_click_finds_what_is_under_it(
            state.app.config,
            state.app.queue.items,
            state.surfaces[at].size,
            x as int,
            y as int,
            0,
        );
    }
}

/// An axis that the compositor filled in is as it says, and one that it left at zero is
/// as the edge wants it.
pub proof fn a_surface_is_as_large_as_it_was_given(edge: Edge, config: Config, given: (u32, u32))
    ensures
        given.0 > 0 ==> settled_size(edge, config, given).0 == given.0,
        given.1 > 0 ==> settled_size(edge, config, given).1 == given.1,
        given.0 == 0 ==> settled_size(edge, config, given).0 == edge.wanted_size(config).0,
        given.1 == 0 ==> settled_size(edge, config, given).1 == edge.wanted_size(config).1,
{
}

/// The surfaces of an output that is gone are dropped, and every other one stays, in
/// its order.
pub proof fn other_surfaces_stay(surfaces: Seq<Surface>, surface: Surface, output: u32)
    ensures
        elsewhere(Seq::empty(), output) == Seq::<Surface>::empty(),
        surface.output == output ==> elsewhere(surfaces.push(surface), output) == elsewhere(
            surfaces,
            output,
        ),
        surface.output != output ==> elsewhere(surfaces.push(surface), output) == elsewhere(
            surfaces,
            output,
        ).push(surface),
{
    reveal(Seq::filter);
    assert(surfaces.push(surface).drop_last() =~= surfaces);
    assert(elsewhere(Seq::empty(), output) =~= Seq::<Surface>::empty());
}

/// A surface accepts the pointer by its own size, its edge and what it shows: the bar
/// counts as far out as it is, and everything else as there.
pub proof fn a_surface_accepts_the_pointer_by_what_it_shows(state: ShellState, surface: Surface)
    ensures
        state.input_of(surface) == crate::edge::input_area(
            surface.edge,
            surface.size.0 as i32 as int,
            surface.size.1 as i32 as int,
            state.app.config.border.width as i32 as int,
            crate::edge::content_height(surface.edge, state.app.config, state.items_on(surface)),
            if surface.edge == Edge::Top {
                state.app.bar.progress as int
            } else {
                FULL as int
            },
        ),
{
}

/// Every card that a surface shows can be clicked: the surface accepts the pointer over
/// all of its rows, to the nearest pixel, from one end of the surface to the other.
pub proof fn every_shown_card_can_be_clicked(state: ShellState, surface: Surface, k: int)
    requires
        surface.edge == Edge::Bottom,
        surface.size.0 <= i32::MAX,
        surface.size.1 <= i32::MAX,
        state.app.config.border.width <= i32::MAX,
        0 <= k < laid_out(state.app.config, state.items_on(surface), surface.size).len(),
    ensures
        ({
            let card = laid_out(state.app.config, state.items_on(surface), surface.size)[k];
            let rect = state.input_of(surface);
            &&& rect.0 == 0 && rect.2 == surface.size.0
            &&& 2 * rect.1 * PIXEL <= 2 * card.y + PIXEL
            &&& card.y + card.height <= (rect.1 + rect.3) * PIXEL
        }),
{
    every_painted_card_accepts_input(
        state.app.config,
        state.items_on(surface),
        surface.size,
        k,
    );
}

/// The loop wakes up when something is due, and while the bar slides sixteen
/// milliseconds from now, and at no other time.
pub proof fn when_the_loop_wakes_up(state: ShellState, at: Instant, now: Instant)
    requires
        now.on_clock(),
    ensures
        FRAME == 16,
        state.app.due_at(at) ==> state.wakes_at(at, now),
        state.app.bar.animation is Some && at.nanos == now.nanos + 16 * NANOS_PER_MILLI
            ==> state.wakes_at(at, now),
        state.wakes_at(at, now) ==> state.app.due_at(at) || state.app.bar.animation is Some
            && at.nanos == now.nanos + 16 * NANOS_PER_MILLI,
{
}

/// Each message is printed on a line of its own, behind the program's name.
pub proof fn messages_are_printed_behind_the_name(messages: Seq<Seq<char>>, k: int)
    requires
        0 <= k < messages.len(),
    ensures
        message_lines(messages).len() == messages.len(),
        message_lines(messages)[k] == "quickbar: "@ + messages[k],
        message_line(messages[k]) == "quickbar: "@ + messages[k],
{
}

} // verus!
