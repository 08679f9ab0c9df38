//! What the bar, the queue and the modules do when something happens, said of the
//! state before and the state after.

use vstd::prelude::*;

use super::{
    same_value, unreported, Animation, AppState, BarState, BarTarget, Event, FULL, SLIDE,
};
use crate::bar::ModuleValue;
use crate::ipc::Command;
use crate::notify::stack::{
    a_replacement_changes_nothing_else, aged_out, any_notification_can_be_replaced,
    anything_else_gets_the_next_id, closing_takes_one_out_of_its_place,
    exactly_what_is_due_expires, no_more_leave_than_have_to, nothing_expires_before_its_time,
    remaining, requested, ClosedReason, Push, Request, Urgency,
};
use crate::time::{Instant, NANOS_PER_MILLI};

verus! {

/// A slide keeps an even pace: after a part of its time it has covered that part of
/// its way, rounded down, and after all of its time it is where it was to go.
pub proof fn a_slide_keeps_an_even_pace(slide: Animation, now: Instant)
    ensures
        ({
            let at = slide.progress_at(now);
            let gone = now.nanos - slide.started.nanos;
            &&& gone <= 0 ==> at == slide.from
            &&& gone >= SLIDE ==> at == slide.to
            &&& 0 <= gone < SLIDE && slide.from <= slide.to ==> SLIDE * (at - slide.from) <= (
            slide.to - slide.from) * gone < SLIDE * (at - slide.from) + SLIDE
            &&& 0 <= gone < SLIDE && slide.to <= slide.from ==> SLIDE * (slide.from - at) <= (
            slide.from - slide.to) * gone < SLIDE * (slide.from - at) + SLIDE
        }),
{
    let gone = slide.elapsed(now);
    let up = slide.to - slide.from;
    let down = slide.from - slide.to;
    assert(up * 0 == 0 && down * 0 == 0);
    assert(slide.from == slide.to ==> up == 0 && down == 0 && 0 * gone == 0);
    vstd::arithmetic::div_mod::lemma_fundamental_div_mod(up * gone, SLIDE as int);
    vstd::arithmetic::div_mod::lemma_fundamental_div_mod(down * gone, SLIDE as int);
}

/// A slide takes a hundred and fifty milliseconds, and a bar at rest is collapsed with
/// nothing to come.
pub proof fn the_measures_of_the_slide()
    ensures
        SLIDE == 150 * NANOS_PER_MILLI,
        FULL == SLIDE,
        BarState::at_rest().target == BarTarget::Hidden,
        BarState::at_rest().progress == 0,
        BarState::at_rest().animation is None,
        BarState::at_rest().pending is None,
{
}

/// Time moves the bar on and does nothing else to it. A transition that is due sets it
/// off, from where it is and as of when it was due; a slide goes on, and is over after
/// its time; otherwise the bar stays as it is.
pub proof fn time_moves_the_bar_on(bar: BarState, now: Instant)
    requires
        bar.wf(),
    ensures
        ({
            let after = bar.stepped(now);
            let due = bar.pending is Some && bar.pending->0.at.nanos <= now.nanos;
            let target = if due {
                bar.pending->0.target
            } else {
                bar.target
            };
            let slide = if due {
                Animation {
                    from: bar.progress,
                    to: if target == BarTarget::Hidden {
                        0
                    } else {
                        FULL
                    },
                    started: bar.pending->0.at,
                }
            } else {
                bar.animation->0
            };
            &&& after.target == target
            &&& after.pending == if due {
                None
            } else {
                bar.pending
            }
            &&& !due && bar.animation is None ==> after == bar
            &&& due || bar.animation is Some ==> after.progress == slide.progress_at(now)
            &&& due || bar.animation is Some ==> after.animation == if now.nanos
                >= slide.started.nanos + SLIDE {
                None
            } else {
                Some(slide)
            }
        }),
{
    let slide = bar.caught_up(now).animation->0;
    super::lemma_progress_between(slide, now);
}

/// A pointer that comes leaves the bar where it is, and only ever says what is to
/// happen later: it calls a hidden bar out, a delay from now unless it has been called
/// already, it calls off a collapse, and otherwise it does nothing.
pub proof fn what_a_coming_pointer_does(bar: BarState, hover_delay_ms: u64, now: Instant)
    requires
        bar.wf(),
        now.on_clock(),
    ensures
        ({
            let after = bar.entered(hover_delay_ms, now);
            &&& after.target == bar.target
            &&& after.progress == bar.progress
            &&& after.animation == bar.animation
            &&& bar.target == BarTarget::Hidden && bar.pending is None ==> after.pending is Some
                && after.pending->0.target == BarTarget::Hover && after.pending->0.at.nanos
                == now.nanos + hover_delay_ms * NANOS_PER_MILLI
            &&& bar.target == BarTarget::Hidden && bar.pending is Some ==> after == bar
            &&& bar.target == BarTarget::Hover ==> after.pending is None
            &&& bar.target == BarTarget::Command ==> after == bar
        }),
{
}

/// A pointer that goes leaves the bar where it is as well: it sends a bar that it had
/// brought out back, a delay from now, it calls off an expansion, and otherwise it does
/// nothing.
pub proof fn what_a_leaving_pointer_does(bar: BarState, hide_delay_ms: u64, now: Instant)
    requires
        bar.wf(),
        now.on_clock(),
    ensures
        ({
            let after = bar.left(hide_delay_ms, now);
            &&& after.target == bar.target
            &&& after.progress == bar.progress
            &&& after.animation == bar.animation
            &&& bar.target == BarTarget::Hover ==> after.pending is Some
                && after.pending->0.target == BarTarget::Hidden && after.pending->0.at.nanos
                == now.nanos + hide_delay_ms * NANOS_PER_MILLI
            &&& bar.target == BarTarget::Hidden ==> after.pending is None
            &&& bar.target == BarTarget::Command ==> after == bar
        }),
{
}

/// The bar after the pointer came (`true`) and went (`false`) a number of times.
pub open spec fn after_pointer(
    bar: BarState,
    hover_delay_ms: u64,
    hide_delay_ms: u64,
    moves: Seq<(bool, Instant)>,
) -> BarState
    decreases moves.len(),
{
    if moves.len() == 0 {
        bar
    } else {
        let before = after_pointer(bar, hover_delay_ms, hide_delay_ms, moves.drop_last());
        let (came, at) = moves.last();
        if came {
            before.stepped(at).entered(hover_delay_ms, at)
        } else {
            before.stepped(at).left(hide_delay_ms, at)
        }
    }
}

proof fn lemma_command_holds(
    bar: BarState,
    hover_delay_ms: u64,
    hide_delay_ms: u64,
    moves: Seq<(bool, Instant)>,
)
    requires
        bar.wf(),
        bar.target == BarTarget::Command,
    ensures
        ({
            let after = after_pointer(bar, hover_delay_ms, hide_delay_ms, moves);
            &&& after.wf()
            &&& after.target == BarTarget::Command
            &&& after.pending is None
            &&& after.animation is Some ==> after.animation == bar.animation
        }),
    decreases moves.len(),
{
    if moves.len() > 0 {
        lemma_command_holds(bar, hover_delay_ms, hide_delay_ms, moves.drop_last());
        let before = after_pointer(bar, hover_delay_ms, hide_delay_ms, moves.drop_last());
        let at = moves.last().1;
        super::lemma_progress_between(before.animation->0, at);
    }
}

/// A bar that a command shows is out of the pointer's hands, wherever it was and
/// whoever brought it there: one slide later it is out, and it stays out, whatever the
/// pointer does in the meantime. Nothing but the bar changes.
pub proof fn a_shown_bar_is_out_of_the_pointers_hands(
    state: AppState,
    shown: Instant,
    hover_delay_ms: u64,
    hide_delay_ms: u64,
    moves: Seq<(bool, Instant)>,
    now: Instant,
)
    requires
        state.wf(),
        shown.on_clock(),
    ensures
        ({
            let after = state.commanded(Command::ShowBar, shown);
            let bar = after_pointer(after.bar, hover_delay_ms, hide_delay_ms, moves);
            &&& after == AppState { bar: after.bar, ..state }
            &&& after.bar.progress == state.bar.progress
            &&& after.bar.pending is None
            &&& after.bar.entered(hover_delay_ms, now) == after.bar
            &&& after.bar.left(hide_delay_ms, now) == after.bar
            &&& now.nanos >= shown.nanos + SLIDE ==> after.bar.stepped(now).progress == FULL
            &&& now.nanos >= shown.nanos + SLIDE ==> bar.stepped(now).progress == FULL
        }),
{
    let bar = state.commanded(Command::ShowBar, shown).bar;
    lemma_command_holds(bar, hover_delay_ms, hide_delay_ms, moves);
}

/// A bar that a command hides, wherever it was and whoever brought it there, is
/// collapsed one slide later, with nothing to come. Nothing but the bar changes.
pub proof fn a_command_hides_any_bar(state: AppState, hidden: Instant, now: Instant)
    requires
        state.wf(),
        now.nanos >= hidden.nanos + SLIDE,
    ensures
        ({
            let after = state.commanded(Command::HideBar, hidden);
            &&& after == AppState { bar: after.bar, ..state }
            &&& after.bar.progress == state.bar.progress
            &&& after.bar.pending is None
            &&& after.bar.target == BarTarget::Hidden
            &&& after.bar.stepped(now) == BarState::at_rest()
        }),
{
}

/// On its way after a command the bar keeps an even pace, from where it was.
pub proof fn a_command_moves_the_bar_evenly(
    state: AppState,
    command: Command,
    at: Instant,
    now: Instant,
)
    requires
        state.wf(),
        command == Command::ShowBar || command == Command::HideBar,
    ensures
        state.commanded(command, at).bar.stepped(now).progress == (Animation {
            from: state.bar.progress,
            to: if command == Command::ShowBar {
                FULL
            } else {
                0
            },
            started: at,
        }).progress_at(now),
{
    let slide = state.commanded(command, at).bar.animation->0;
    super::lemma_progress_between(slide, now);
}

/// A toggle shows a bar that was not last sent out, for good as a command does, and
/// hides any other.
pub proof fn a_toggle_is_a_command(state: AppState, at: Instant)
    requires
        state.wf(),
    ensures
        ({
            let after = state.commanded(Command::ToggleBar, at);
            &&& after == AppState { bar: after.bar, ..state }
            &&& after.bar.target == if state.bar.target == BarTarget::Hidden {
                BarTarget::Command
            } else {
                BarTarget::Hidden
            }
            &&& state.bar.target == BarTarget::Hidden ==> after == state.commanded(
                Command::ShowBar,
                at,
            )
            &&& state.bar.target != BarTarget::Hidden ==> after == state.commanded(
                Command::HideBar,
                at,
            )
        }),
{
}

/// The other commands leave the bar alone: do-not-disturb is switched as asked, and
/// what is on screen stays; reloading and quitting are for the caller to do.
pub proof fn other_commands_leave_the_bar_alone(state: AppState, enabled: bool, at: Instant)
    ensures
        ({
            let after = state.commanded(Command::Dnd { enabled }, at);
            &&& after.queue.dnd == enabled
            &&& after.queue.items == state.queue.items
            &&& after.queue.next_id == state.queue.next_id
            &&& after.bar == state.bar
            &&& after.modules == state.modules
            &&& after.config == state.config
            &&& after.dirty
        }),
        state.commanded(Command::Reload, at) == state,
        state.commanded(Command::Quit, at) == state,
{
}

/// A pointer on the top edge minds the bar and nothing else, by the delays of the
/// configuration, and a command that arrives as an event is carried out.
pub proof fn events_reach_the_bar(state: AppState, command: Command, now: Instant)
    ensures
        ({
            let after = state.handled(Event::PointerEnter, now);
            &&& after == AppState { bar: after.bar, ..state }
            &&& after.bar == state.bar.entered(state.config.bar.hover_delay_ms, now)
        }),
        ({
            let after = state.handled(Event::PointerLeave, now);
            &&& after == AppState { bar: after.bar, ..state }
            &&& after.bar == state.bar.left(state.config.bar.hide_delay_ms, now)
        }),
        state.handled(Event::Command(command), now) == state.commanded(command, now),
{
}

/// A module shows what it last reported, and a report changes no other module. It asks
/// for a repaint exactly if the text or the colour is another one than before.
pub proof fn a_module_shows_what_it_reported(
    state: AppState,
    index: usize,
    value: ModuleValue,
    now: Instant,
    other: int,
)
    requires
        index < state.modules.len(),
    ensures
        ({
            let before = state.modules[index as int];
            let after = state.handled(Event::Module { index, value }, now);
            let new = before.text@ != value.text@ || before.color != value.color;
            &&& after.modules.len() == state.modules.len()
            &&& after.modules[index as int].text@ == value.text@
            &&& after.modules[index as int].color == value.color
            &&& 0 <= other < state.modules.len() && other != index ==> after.modules[other]
                == state.modules[other]
            &&& after.dirty == (state.dirty || new)
            &&& after.bar == state.bar && after.queue == state.queue && after.config
                == state.config
        }),
{
}

/// A report of a module that does not exist changes nothing.
pub proof fn a_module_that_does_not_exist_shows_nothing(
    state: AppState,
    index: usize,
    value: ModuleValue,
    now: Instant,
)
    requires
        index >= state.modules.len(),
    ensures
        state.handled(Event::Module { index, value }, now) == state,
{
}

/// Two values look the same exactly if their texts and their colours are the same, and
/// a module that has not reported anything has neither.
pub proof fn what_a_value_looks_like(
    a: ModuleValue,
    b: ModuleValue,
    modules: Seq<ModuleValue>,
    i: int,
)
    ensures
        same_value(a, b) <==> a.text@ == b.text@ && a.color == b.color,
        unreported(modules) && 0 <= i < modules.len() ==> modules[i].text@.len() == 0
            && modules[i].color is None,
{
}

/// A notification that a client closes, or that was clicked, leaves its place in the
/// queue, wherever that is; the others stay, and it is reported with the reason. An id
/// that is not in the queue changes nothing and reports nothing.
pub proof fn a_closed_notification_leaves_its_place(
    state: AppState,
    id: u32,
    now: Instant,
    i: int,
    dismissed: bool,
)
    requires
        state.wf(),
    ensures
        ({
            let event = if dismissed {
                Event::DismissNotification(id)
            } else {
                Event::CloseNotification(id)
            };
            let reason = if dismissed {
                ClosedReason::Dismissed
            } else {
                ClosedReason::ClosedByCall
            };
            let items = state.queue.items;
            let after = state.handled(event, now);
            &&& 0 <= i < items.len() && items[i].id == id ==> after.queue.items == items.remove(i)
                && after.dirty && state.closed_by(event) == seq![(id, reason)]
            &&& (forall|k: int| 0 <= k < items.len() ==> (#[trigger] items[k]).id != id)
                ==> after.queue.items == items && after.dirty == state.dirty && state.closed_by(
                event,
            ) == Seq::<(u32, ClosedReason)>::empty()
            &&& after.bar == state.bar && after.modules == state.modules && after.config
                == state.config
            &&& after.queue.dnd == state.queue.dnd && after.queue.next_id == state.queue.next_id
        }),
{
    closing_takes_one_out_of_its_place(state.queue, id, i);
}

/// Nothing else that happens closes a notification.
pub proof fn only_closing_closes(state: AppState, event: Event)
    requires
        !(event is CloseNotification),
        !(event is DismissNotification),
    ensures
        state.closed_by(event) == Seq::<(u32, ClosedReason)>::empty(),
{
}

/// The passing of time moves the bar on and takes what has expired from the queue; it
/// changes nothing else, and asks for a repaint exactly if something on screen changed.
pub proof fn what_the_passing_of_time_changes(state: AppState, now: Instant)
    ensures
        ({
            let after = state.advanced(now);
            &&& after.bar == state.bar.stepped(now)
            &&& after.queue.items == remaining(state.queue.items, now)
            &&& after.queue.dnd == state.queue.dnd
            &&& after.queue.next_id == state.queue.next_id
            &&& after.modules == state.modules
            &&& after.config == state.config
            &&& after.dirty == (state.dirty || after.bar.progress != state.bar.progress
                || after.queue.items != state.queue.items)
        }),
{
    let items = state.queue.items;
    if aged_out(items, now).len() == 0 {
        assert forall|i: int| 0 <= i < items.len() implies !(#[trigger] items[i]).expired(now) by {
            exactly_what_is_due_expires(items, now, items[i]);
        }
        nothing_expires_before_its_time(items, now);
    } else {
        let gone = aged_out(items, now)[0];
        exactly_what_is_due_expires(items, now, gone);
        assert(aged_out(items, now).contains(gone));
        assert(items.contains(gone));
        assert(!remaining(items, now).contains(gone));
    }
}

/// A notification that comes touches nothing but the queue. While do-not-disturb is on
/// it is swallowed: the queue stays, nothing is reported and nothing painted. Otherwise
/// it is shown, and a repaint is asked for.
pub proof fn what_a_notification_changes(
    state: AppState,
    request: Request,
    now: Instant,
    after: AppState,
    push: Push,
)
    requires
        state.notified(request, now, after, push),
    ensures
        after.bar == state.bar,
        after.modules == state.modules,
        after.config == state.config,
        after.queue.dnd == state.queue.dnd,
        push.displayed == !state.queue.dnd,
        state.queue.dnd ==> after.queue.items == state.queue.items && push.closed@ == Seq::<
            (u32, ClosedReason),
        >::empty() && after.dirty == state.dirty,
        !state.queue.dnd ==> after.dirty,
{
}

/// True of the end of a notification's life: there is none if it is urgent or was asked
/// to stay, and otherwise it is after the delay that was asked for, or the configured
/// one if none was.
pub open spec fn lives_until(
    request: Request,
    default_ms: u64,
    now: Instant,
    end: Option<Instant>,
) -> bool {
    let for_good = request.urgency == Urgency::Urgent || request.expire_timeout < 0;
    let millis = if request.expire_timeout > 0 {
        request.expire_timeout as int
    } else {
        default_ms as int
    };
    &&& for_good ==> end is None
    &&& !for_good ==> end is Some && end->0.nanos == now.nanos + millis * NANOS_PER_MILLI
}

/// A notification that names one of the queue, whichever it is, takes its place and its
/// id: nothing is closed, no id is used up, and every other one stays as it is.
pub proof fn a_named_notification_is_replaced(
    state: AppState,
    request: Request,
    now: Instant,
    after: AppState,
    push: Push,
    i: int,
)
    requires
        state.wf(),
        state.notified(request, now, after, push),
        0 <= i < state.queue.items.len(),
        request.replaces_id == state.queue.items[i].id,
        now.on_clock(),
    ensures
        push.id == request.replaces_id,
        after.queue.next_id == state.queue.next_id,
        push.closed@.len() == 0,
        !state.queue.dnd ==> {
            let new = after.queue.items[i];
            &&& after.queue.items == state.queue.items.update(i, new)
            &&& new.id == request.replaces_id
            &&& new.summary@ == request.summary@
            &&& new.body@ == request.body@
            &&& new.urgency == request.urgency
            &&& lives_until(
                request,
                state.config.notifications.timeout_ms,
                now,
                new.expires_at,
            )
        },
{
    let limits = state.config.notifications;
    any_notification_can_be_replaced(
        state.queue,
        request,
        limits.timeout_ms,
        limits.max_visible as int,
        now,
        i,
    );
}

/// A notification that names none of the queue comes last, under an id of its own.
/// What was there before stays, but for the oldest ones that are then too many, and
/// those are reported as expired.
pub proof fn any_other_notification_comes_last(
    state: AppState,
    request: Request,
    now: Instant,
    after: AppState,
    push: Push,
)
    requires
        state.wf(),
        state.notified(request, now, after, push),
        forall|i: int|
            0 <= i < state.queue.items.len() ==> (#[trigger] state.queue.items[i]).id
                != request.replaces_id && state.queue.items[i].id != state.queue.next_id,
        !state.queue.dnd,
        now.on_clock(),
    ensures
        ({
            let before = state.queue.items;
            let items = after.queue.items;
            let limit = state.config.notifications.max_visible;
            let gone = if before.len() < limit {
                0
            } else {
                before.len() + 1 - limit
            };
            &&& push.id == state.queue.next_id
            &&& items.len() == before.len() + 1 - gone
            &&& push.closed@.len() == gone
            &&& forall|k: int|
                0 <= k < items.len() - 1 ==> #[trigger] items[k] == before[gone + k]
            &&& forall|k: int|
                0 <= k < gone && k < before.len() ==> #[trigger] push.closed@[k] == (
                    before[k].id,
                    ClosedReason::Expired,
                )
            &&& limit == 0 ==> push.closed@.last() == (push.id, ClosedReason::Expired)
            &&& limit > 0 ==> {
                let new = items.last();
                &&& new.id == push.id
                &&& new.summary@ == request.summary@
                &&& new.body@ == request.body@
                &&& new.urgency == request.urgency
                &&& lives_until(
                    request,
                    state.config.notifications.timeout_ms,
                    now,
                    new.expires_at,
                )
            }
        }),
{
    let limits = state.config.notifications;
    let new = requested(push.id, request, limits.timeout_ms, now);
    anything_else_gets_the_next_id(state.queue, request.replaces_id);
    no_more_leave_than_have_to(state.queue, new, limits.max_visible as int);
    let gone = state.queue.displaced_by(new, limits.max_visible as int);
    let items = after.queue.items;
    let all = state.queue.items.push(new);
    assert(gone + items == all);
    assert(all.len() == gone.len() + items.len());
    assert forall|k: int| 0 <= k < items.len() - 1 implies #[trigger] items[k]
        == state.queue.items[gone.len() + k] by {
        assert((gone + items)[gone.len() + k] == items[k]);
    }
    assert forall|k: int| 0 <= k < gone.len() && k < state.queue.items.len() implies #[trigger]
        push.closed@[k] == (state.queue.items[k].id, ClosedReason::Expired) by {
        assert((gone + items)[k] == gone[k]);
    }
    if items.len() > 0 {
        assert((gone + items)[gone.len() + items.len() - 1] == items.last());
    } else {
        assert((gone + items)[gone.len() - 1] == gone.last());
    }
}

/// A notification that names none of the queue is answered with the next id, also while
/// do-not-disturb is on, and uses it up. Where ids have come round and one of the queue
/// still has that id, the notification takes its place.
pub proof fn any_other_notification_gets_the_next_id(
    state: AppState,
    request: Request,
    now: Instant,
    after: AppState,
    push: Push,
    i: int,
)
    requires
        state.wf(),
        state.notified(request, now, after, push),
        forall|k: int|
            0 <= k < state.queue.items.len() ==> (#[trigger] state.queue.items[k]).id
                != request.replaces_id,
    ensures
        push.id == state.queue.next_id,
        after.queue.next_id == if state.queue.next_id < u32::MAX {
            state.queue.next_id + 1
        } else {
            1
        },
        !state.queue.dnd && 0 <= i < state.queue.items.len() && state.queue.items[i].id == push.id
            ==> {
            let new = after.queue.items[i];
            &&& after.queue.items == state.queue.items.update(i, new)
            &&& push.closed@.len() == 0
            &&& new.id == push.id
            &&& new.summary@ == request.summary@
            &&& new.body@ == request.body@
            &&& new.urgency == request.urgency
        },
{
    let limits = state.config.notifications;
    anything_else_gets_the_next_id(state.queue, request.replaces_id);
    if 0 <= i < state.queue.items.len() && state.queue.items[i].id == push.id {
        a_replacement_changes_nothing_else(
            state.queue,
            requested(push.id, request, limits.timeout_ms, now),
            limits.max_visible as int,
            i,
        );
    }
}

/// The instants at which something happens by itself are when a queued transition is
/// due, when a slide ends, and when a notification expires, and there are no others.
pub proof fn when_something_is_due(state: AppState, at: Instant, i: int)
    ensures
        state.bar.pending matches Some(pending) ==> state.due_at(pending.at),
        state.bar.animation matches Some(slide) ==> (at.nanos == slide.started.nanos + SLIDE
            ==> state.due_at(at)),
        0 <= i < state.queue.items.len() ==> (state.queue.items[i].expires_at matches Some(end)
            ==> state.due_at(end)),
        state.due_at(at) && !(state.bar.pending matches Some(pending) && pending.at == at) && !(
        state.bar.animation matches Some(slide) && slide.started.nanos + SLIDE == at.nanos)
            ==> exists|k: int|
            0 <= k < state.queue.items.len() && (#[trigger] state.queue.items[k]).expires_at
                == Some(at),
{
}

} // verus!
