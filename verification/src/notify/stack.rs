//! The notification queue: replacement, timeouts, limits, and do-not-disturb.
//!
//! Everything here is pure logic over logical time. Painting decides how a
//! notification looks; this module only decides which ones exist.

use vstd::prelude::*;

use crate::config::Notifications;
use crate::time::Instant;

verus! {

/// The `urgency` hint: 0 low, 1 normal, 2 urgent.
#[derive(Debug, Clone, Copy, PartialEq, Eq, Structural)]
pub enum Urgency {
    Low,
    Normal,
    Urgent,
}

impl Default for Urgency {
    fn default() -> (level: Self)
        ensures
            level == Urgency::Normal,
    {
        Urgency::Normal
    }
}

impl Urgency {
    /// Anything the protocol does not define is treated as normal.
    pub fn from_hint(value: u8) -> (level: Self)
        ensures
            level == if value == 0 {
                Urgency::Low
            } else if value == 2 {
                Urgency::Urgent
            } else {
                Urgency::Normal
            },
    {
        match value {
            0 => Urgency::Low,
            2 => Urgency::Urgent,
            _ => Urgency::Normal,
        }
    }
}

/// Why a notification left the queue.
#[derive(Debug, Clone, Copy, PartialEq, Eq, Structural)]
pub enum ClosedReason {
    /// Expired, or pushed out by the visible-notification limit.
    Expired,
    /// The user clicked it.
    Dismissed,
    /// A client called `CloseNotification`.
    ClosedByCall,
}

impl ClosedReason {
    /// The `NotificationClosed` reason code of the desktop notification protocol.
    pub fn code(self) -> (code: u32)
        ensures
            code == match self {
                ClosedReason::Expired => 1u32,
                ClosedReason::Dismissed => 2u32,
                ClosedReason::ClosedByCall => 3u32,
            },
    {
        match self {
            ClosedReason::Expired => 1,
            ClosedReason::Dismissed => 2,
            ClosedReason::ClosedByCall => 3,
        }
    }
}

/// A `Notify` call, after the bus layer has unpacked it.
#[derive(Debug, Clone)]
pub struct Request {
    pub summary: String,
    pub body: String,
    pub urgency: Urgency,
    /// Milliseconds from the client: positive is a delay, `0` means "use the
    /// configured default", negative means "never expire".
    pub expire_timeout: i32,
    /// Replace this notification instead of adding one; `0` means "no".
    pub replaces_id: u32,
}

impl Default for Request {
    fn default() -> (request: Self)
        ensures
            request.summary@ == Seq::<char>::empty(),
            request.body@ == Seq::<char>::empty(),
            request.urgency == Urgency::Normal,
            request.expire_timeout == 0,
            request.replaces_id == 0,
    {
        Request {
            summary: String::new(),
            body: String::new(),
            urgency: Urgency::Normal,
            expire_timeout: 0,
            replaces_id: 0,
        }
    }
}

/// A notification currently in the queue.
#[derive(Debug, Clone, PartialEq, Eq)]
pub struct Notification {
    pub id: u32,
    pub summary: String,
    pub body: String,
    pub urgency: Urgency,
    /// `None` when it never expires on its own.
    pub expires_at: Option<Instant>,
}

impl Notification {
    pub fn is_urgent(&self) -> (urgent: bool)
        ensures
            urgent == (self.urgency == Urgency::Urgent),
    {
        self.urgency == Urgency::Urgent
    }

    /// True when the notification has aged out by `now`.
    pub open spec fn expired(self, now: Instant) -> bool {
        self.expires_at is Some && self.expires_at->0.nanos <= now.nanos
    }
}

/// What a [`NotificationStack::push`] did.
#[derive(Debug, Clone, PartialEq, Eq)]
pub struct Push {
    /// Returned to the client. Always non-zero.
    pub id: u32,
    /// Notifications that left the queue, with the reason to report for each.
    pub closed: Vec<(u32, ClosedReason)>,
    /// False when do-not-disturb swallowed the notification.
    pub displayed: bool,
}

impl Default for Push {
    fn default() -> (push: Self)
        ensures
            push.id == 0,
            push.closed@ == Seq::<(u32, ClosedReason)>::empty(),
            !push.displayed,
    {
        Push { id: 0, closed: Vec::new(), displayed: false }
    }
}

/// The model of the queue.
pub struct Queue {
    /// Oldest first.
    pub items: Seq<Notification>,
    pub next_id: u32,
    pub dnd: bool,
}

/// True when a notification of that id is in the list.
pub open spec fn has_id(items: Seq<Notification>, id: u32) -> bool {
    exists|i: int| 0 <= i < items.len() && (#[trigger] items[i]).id == id
}

/// The list without the notification of that id.
pub open spec fn without(items: Seq<Notification>, id: u32) -> Seq<Notification> {
    items.filter(|item: Notification| item.id != id)
}

/// The list with the notification of the same id replaced by `new`.
pub open spec fn replaced(items: Seq<Notification>, new: Notification) -> Seq<Notification> {
    Seq::new(
        items.len(),
        |i: int|
            if items[i].id == new.id {
                new
            } else {
                items[i]
            },
    )
}

/// What is reported when `items` leave the queue.
pub open spec fn closed_with(items: Seq<Notification>, reason: ClosedReason) -> Seq<
    (u32, ClosedReason),
> {
    items.map_values(|item: Notification| (item.id, reason))
}

/// The notifications that have aged out by `now`.
pub open spec fn aged_out(items: Seq<Notification>, now: Instant) -> Seq<Notification> {
    items.filter(|item: Notification| item.expired(now))
}

/// The notifications that have not aged out by `now`.
pub open spec fn remaining(items: Seq<Notification>, now: Instant) -> Seq<Notification> {
    items.filter(|item: Notification| !item.expired(now))
}

/// The id handed out after `id`. Zero is skipped: it means "no notification".
pub open spec fn following_id(id: u32) -> u32 {
    if id == u32::MAX {
        1
    } else {
        (id + 1) as u32
    }
}

/// When a notification disappears by itself. Urgent ones never do, whatever the
/// client asked for.
pub open spec fn expiry(
    urgency: Urgency,
    expire_timeout: i32,
    default_ms: u64,
    now: Instant,
) -> Option<Instant> {
    if urgency == Urgency::Urgent || expire_timeout < 0 {
        None
    } else if expire_timeout == 0 {
        Some(now.plus_millis(default_ms as int))
    } else {
        Some(now.plus_millis(expire_timeout as int))
    }
}

/// The notification a request turns into.
pub open spec fn requested(id: u32, request: Request, default_ms: u64, now: Instant) -> Notification {
    Notification {
        id,
        summary: request.summary,
        body: request.body,
        urgency: request.urgency,
        expires_at: expiry(request.urgency, request.expire_timeout, default_ms, now),
    }
}

/// How many of `count` notifications are too many.
pub open spec fn surplus(count: int, max_visible: int) -> int {
    if count > max_visible {
        count - max_visible
    } else {
        0
    }
}

impl Queue {
    /// Ids are distinct and never zero.
    pub open spec fn wf(self) -> bool {
        &&& self.next_id != 0
        &&& forall|i: int| 0 <= i < self.items.len() ==> (#[trigger] self.items[i]).id != 0
        &&& forall|i: int, j: int|
            0 <= i < j < self.items.len() ==> (#[trigger] self.items[i]).id != (
            #[trigger] self.items[j]).id
        &&& forall|i: int|
            0 <= i < self.items.len() && (#[trigger] self.items[i]).expires_at is Some
                ==> self.items[i].expires_at->0.schedulable()
    }

    /// True when a request for `replaces_id` replaces something.
    pub open spec fn replaces(self, replaces_id: u32) -> bool {
        replaces_id != 0 && has_id(self.items, replaces_id)
    }

    /// The id a request for `replaces_id` is answered with.
    pub open spec fn assigned_id(self, replaces_id: u32) -> u32 {
        if self.replaces(replaces_id) {
            replaces_id
        } else {
            self.next_id
        }
    }

    /// The id that will be handed out next, after a request for `replaces_id`.
    pub open spec fn next_id_after(self, replaces_id: u32) -> u32 {
        if self.replaces(replaces_id) {
            self.next_id
        } else {
            following_id(self.next_id)
        }
    }

    /// The list with `new` in it: in the place of the one it replaces, or else
    /// last, with the oldest ones gone that are too many.
    pub open spec fn with(self, new: Notification, max_visible: int) -> Seq<Notification> {
        if has_id(self.items, new.id) {
            replaced(self.items, new)
        } else {
            let all = self.items.push(new);
            all.skip(surplus(all.len() as int, max_visible))
        }
    }

    /// The notifications that leave the queue when `new` comes.
    pub open spec fn displaced_by(self, new: Notification, max_visible: int) -> Seq<Notification> {
        if has_id(self.items, new.id) {
            Seq::empty()
        } else {
            let all = self.items.push(new);
            all.take(surplus(all.len() as int, max_visible))
        }
    }
}

/// The queue of notifications currently on screen.
#[derive(Debug)]
pub struct NotificationStack {
    notifications: Vec<Notification>,
    next_id: u32,
    dnd: bool,
}

impl View for NotificationStack {
    type V = Queue;

    closed spec fn view(&self) -> Queue {
        Queue { items: self.notifications@, next_id: self.next_id, dnd: self.dnd }
    }
}

impl Default for NotificationStack {
    fn default() -> (stack: Self)
        ensures
            stack@.wf(),
            stack@.items == Seq::<Notification>::empty(),
            stack@.next_id == 1,
            !stack@.dnd,
    {
        NotificationStack::new()
    }
}

impl NotificationStack {
    pub fn new() -> (stack: Self)
        ensures
            stack@.wf(),
            stack@.items == Seq::<Notification>::empty(),
            stack@.next_id == 1,
            !stack@.dnd,
    {
        // Ids start at 1: zero means "no notification" in the protocol.
        NotificationStack { notifications: Vec::new(), next_id: 1, dnd: false }
    }

    pub fn notifications(&self) -> (items: &[Notification])
        ensures
            items@ == self@.items,
    {
        self.notifications.as_slice()
    }

    pub fn is_empty(&self) -> (empty: bool)
        ensures
            empty == (self@.items.len() == 0),
    {
        self.notifications.len() == 0
    }

    pub fn set_dnd(&mut self, enabled: bool)
        ensures
            final(self)@ == (Queue { dnd: enabled, ..old(self)@ }),
    {
        self.dnd = enabled;
    }

    /// Add or replace a notification.
    ///
    /// Under do-not-disturb the notification is dropped: the client still gets a
    /// usable id, but nothing is shown and nothing is reported as closed.
    pub fn push(&mut self, request: Request, config: &Notifications, now: Instant) -> (push: Push)
        requires
            old(self)@.wf(),
            now.on_clock(),
        ensures
            final(self)@.wf(),
            final(self)@.dnd == old(self)@.dnd,
            push.id == old(self)@.assigned_id(request.replaces_id),
            push.id != 0,
            final(self)@.next_id == old(self)@.next_id_after(request.replaces_id),
            push.displayed == !old(self)@.dnd,
            old(self)@.dnd ==> final(self)@.items == old(self)@.items && push.closed@
                == Seq::<(u32, ClosedReason)>::empty(),
            !old(self)@.dnd ==> {
                let new = requested(push.id, request, config.timeout_ms, now);
                let max_visible = config.max_visible as int;
                &&& final(self)@.items == old(self)@.with(new, max_visible)
                &&& push.closed@ == closed_with(
                    old(self)@.displaced_by(new, max_visible),
                    ClosedReason::Expired,
                )
            },
    {
        let id: u32 = self.allocate_id(request.replaces_id);
        if self.dnd {
            return Push { id, closed: Vec::new(), displayed: false };
        }
        let notification = Notification {
            id,
            summary: request.summary,
            body: request.body,
            urgency: request.urgency,
            expires_at: expires_at(request.urgency, request.expire_timeout, config, now),
        };
        let ghost before = self@.items;
        match self.position(id) {
            Some(index) => {
                self.notifications.set(index, notification);
                assert(self@.items =~= replaced(before, notification));
                let closed: Vec<(u32, ClosedReason)> = Vec::new();
                assert(closed@ =~= closed_with(Seq::empty(), ClosedReason::Expired));
                Push { id, closed, displayed: true }
            },
            None => {
                self.notifications.push(notification);
                let closed = self.evict_overflow(config.max_visible);
                Push { id, closed, displayed: true }
            },
        }
    }

    /// Remove a notification the user clicked on.
    pub fn dismiss(&mut self, id: u32) -> (closed: Option<(u32, ClosedReason)>)
        requires
            old(self)@.wf(),
        ensures
            final(self)@.wf(),
            final(self)@ == (Queue { items: without(old(self)@.items, id), ..old(self)@ }),
            closed == if has_id(old(self)@.items, id) {
                Some((id, ClosedReason::Dismissed))
            } else {
                None
            },
    {
        match self.remove(id) {
            Some(id) => Some((id, ClosedReason::Dismissed)),
            None => None,
        }
    }

    /// Remove a notification a client closed by name.
    ///
    /// Unknown ids are ignored, as the protocol requires.
    pub fn close(&mut self, id: u32) -> (closed: Option<(u32, ClosedReason)>)
        requires
            old(self)@.wf(),
        ensures
            final(self)@.wf(),
            final(self)@ == (Queue { items: without(old(self)@.items, id), ..old(self)@ }),
            closed == if has_id(old(self)@.items, id) {
                Some((id, ClosedReason::ClosedByCall))
            } else {
                None
            },
    {
        match self.remove(id) {
            Some(id) => Some((id, ClosedReason::ClosedByCall)),
            None => None,
        }
    }

    /// Drop everything that has expired by `now`.
    pub fn expire(&mut self, now: Instant) -> (closed: Vec<(u32, ClosedReason)>)
        requires
            old(self)@.wf(),
        ensures
            final(self)@.wf(),
            final(self)@ == (Queue { items: remaining(old(self)@.items, now), ..old(self)@ }),
            closed@ == closed_with(aged_out(old(self)@.items, now), ClosedReason::Expired),
    {
        let ghost all = self.notifications@;
        let ghost mut seen: int = 0;
        let mut closed: Vec<(u32, ClosedReason)> = Vec::new();
        let mut index: usize = 0;
        proof {
            reveal(Seq::filter);
            assert(all.take(0) =~= Seq::<Notification>::empty());
            assert(aged_out(all.take(0), now) =~= Seq::<Notification>::empty());
            assert(remaining(all.take(0), now) =~= Seq::<Notification>::empty());
            assert(closed@ =~= closed_with(aged_out(all.take(0), now), ClosedReason::Expired));
        }
        while index < self.notifications.len()
            invariant
                old(self)@.wf(),
                all == old(self)@.items,
                self.next_id == old(self)@.next_id,
                self.dnd == old(self)@.dnd,
                0 <= seen <= all.len(),
                0 <= index <= self.notifications@.len(),
                self.notifications@.len() - index == all.len() - seen,
                forall|i: int|
                    0 <= i < all.len() - seen ==> #[trigger] self.notifications@[index + i] == all[seen
                        + i],
                self.notifications@.take(index as int) == remaining(all.take(seen), now),
                closed@ == closed_with(aged_out(all.take(seen), now), ClosedReason::Expired),
            decreases self.notifications.len() - index,
        {
            let ghost item = all[seen];
            let ghost held = self.notifications@;
            assert(held[index + 0] == all[seen + 0]);
            proof {
                lemma_filter_take(all, |n: Notification| n.expired(now), seen);
                lemma_filter_take(all, |n: Notification| !n.expired(now), seen);
            }
            let due = match self.notifications[index].expires_at {
                Some(at) => at.nanos <= now.nanos,
                None => false,
            };
            if due {
                let ghost reported = closed@;
                let gone = self.notifications.remove(index);
                closed.push((gone.id, ClosedReason::Expired));
                assert(closed@ =~= closed_with(
                    aged_out(all.take(seen), now).push(item),
                    ClosedReason::Expired,
                ));
                assert(self.notifications@.take(index as int) =~= held.take(index as int));
                proof {
                    seen = seen + 1;
                }
                assert forall|i: int| 0 <= i < all.len() - seen implies #[trigger]
                    self.notifications@[index + i] == all[seen + i] by {
                    assert(held[index + (i + 1)] == all[seen - 1 + (i + 1)]);
                }
            } else {
                index = index + 1;
                assert(self.notifications@.take(index as int) =~= held.take(index as int - 1).push(
                    item,
                ));
                proof {
                    seen = seen + 1;
                }
                assert forall|i: int| 0 <= i < all.len() - seen implies #[trigger]
                    self.notifications@[index + i] == all[seen + i] by {
                    assert(held[index - 1 + (i + 1)] == all[seen - 1 + (i + 1)]);
                }
            }
        }
        assert(all.take(seen) =~= all);
        assert(self.notifications@.take(index as int) =~= self.notifications@);
        proof {
            lemma_filter_wf(old(self)@, |n: Notification| !n.expired(now));
        }
        closed
    }

    /// When the next notification expires, so the caller can schedule a timer.
    pub fn next_expiry(&self) -> (next: Option<Instant>)
        ensures
            next is None ==> forall|i: int|
                0 <= i < self@.items.len() ==> (#[trigger] self@.items[i]).expires_at is None,
            next matches Some(at) ==> {
                &&& exists|i: int|
                    0 <= i < self@.items.len() && (#[trigger] self@.items[i]).expires_at == Some(at)
                &&& forall|i: int|
                    0 <= i < self@.items.len() && (#[trigger] self@.items[i]).expires_at is Some
                        ==> at.nanos <= self@.items[i].expires_at->0.nanos
            },
    {
        let mut next: Option<Instant> = None;
        let mut index: usize = 0;
        while index < self.notifications.len()
            invariant
                0 <= index <= self.notifications@.len(),
                next is None ==> forall|i: int|
                    0 <= i < index ==> (#[trigger] self.notifications@[i]).expires_at is None,
                next matches Some(at) ==> {
                    &&& exists|i: int|
                        0 <= i < index && (#[trigger] self.notifications@[i]).expires_at == Some(at)
                    &&& forall|i: int|
                        0 <= i < index && (#[trigger] self.notifications@[i]).expires_at is Some
                            ==> at.nanos <= self.notifications@[i].expires_at->0.nanos
                },
            decreases self.notifications.len() - index,
        {
            match (self.notifications[index].expires_at, next) {
                (Some(at), None) => {
                    next = Some(at);
                },
                (Some(at), Some(earliest)) => {
                    if at.nanos < earliest.nanos {
                        next = Some(at);
                    }
                },
                (None, _) => {},
            }
            index = index + 1;
        }
        next
    }

    fn allocate_id(&mut self, replaces_id: u32) -> (id: u32)
        requires
            old(self)@.wf(),
        ensures
            id == old(self)@.assigned_id(replaces_id),
            final(self)@ == (Queue {
                next_id: old(self)@.next_id_after(replaces_id),
                ..old(self)@
            }),
    {
        if replaces_id != 0 {
            match self.position(replaces_id) {
                Some(_) => {
                    return replaces_id;
                },
                None => {},
            }
        }
        let id: u32 = self.next_id;
        // Skip zero on wrap-around: it is a valid id only as "none".
        self.next_id = if id == u32::MAX {
            1
        } else {
            id + 1
        };
        id
    }

    /// Where the notification of that id is, if it is in the queue.
    fn position(&self, id: u32) -> (index: Option<usize>)
        ensures
            index is Some <==> has_id(self@.items, id),
            index matches Some(at) ==> at < self@.items.len() && self@.items[at as int].id == id,
    {
        let mut index: usize = 0;
        while index < self.notifications.len()
            invariant
                0 <= index <= self.notifications@.len(),
                forall|i: int| 0 <= i < index ==> (#[trigger] self.notifications@[i]).id != id,
            decreases self.notifications.len() - index,
        {
            if self.notifications[index].id == id {
                return Some(index);
            }
            index = index + 1;
        }
        None
    }

    fn remove(&mut self, id: u32) -> (removed: Option<u32>)
        requires
            old(self)@.wf(),
        ensures
            final(self)@.wf(),
            final(self)@ == (Queue { items: without(old(self)@.items, id), ..old(self)@ }),
            removed == if has_id(old(self)@.items, id) {
                Some(id)
            } else {
                None
            },
    {
        let ghost before = self@.items;
        proof {
            lemma_filter_wf(self@, |n: Notification| n.id != id);
        }
        match self.position(id) {
            Some(index) => {
                proof {
                    lemma_without_unique(before, index as int, id);
                }
                self.notifications.remove(index);
                Some(id)
            },
            None => {
                proof {
                    lemma_without_absent(before, id);
                }
                None
            },
        }
    }

    /// Keep at most `max_visible`, dropping the oldest first.
    fn evict_overflow(&mut self, max_visible: usize) -> (closed: Vec<(u32, ClosedReason)>)
        ensures
            final(self)@ == (Queue {
                items: old(self)@.items.skip(
                    surplus(old(self)@.items.len() as int, max_visible as int),
                ),
                ..old(self)@
            }),
            closed@ == closed_with(
                old(self)@.items.take(surplus(old(self)@.items.len() as int, max_visible as int)),
                ClosedReason::Expired,
            ),
    {
        let ghost all = self.notifications@;
        let mut closed: Vec<(u32, ClosedReason)> = Vec::new();
        assert(all.skip(0) =~= all);
        assert(closed@ =~= closed_with(all.take(0), ClosedReason::Expired));
        while self.notifications.len() > max_visible
            invariant
                all == old(self)@.items,
                self.next_id == old(self)@.next_id,
                self.dnd == old(self)@.dnd,
                closed@.len() <= surplus(all.len() as int, max_visible as int),
                self.notifications@ == all.skip(closed@.len() as int),
                closed@ == closed_with(all.take(closed@.len() as int), ClosedReason::Expired),
            decreases self.notifications.len(),
        {
            let ghost count = closed@.len() as int;
            let evicted = self.notifications.remove(0);
            closed.push((evicted.id, ClosedReason::Expired));
            assert(self.notifications@ =~= all.skip(count + 1));
            assert(closed@ =~= closed_with(all.take(count + 1), ClosedReason::Expired));
        }
        closed
    }
}

/// Work out when a notification should disappear.
///
/// Urgent notifications never expire, whatever the client asked for.
fn expires_at(
    urgency: Urgency,
    expire_timeout: i32,
    config: &Notifications,
    now: Instant,
) -> (at: Option<Instant>)
    requires
        now.on_clock(),
    ensures
        at == expiry(urgency, expire_timeout, config.timeout_ms, now),
        at matches Some(instant) ==> instant.schedulable(),
{
    if urgency == Urgency::Urgent || expire_timeout < 0 {
        None
    } else if expire_timeout == 0 {
        Some(now.after_millis(config.timeout_ms))
    } else {
        Some(now.after_millis(expire_timeout as u64))
    }
}

proof fn lemma_filter_take(
    items: Seq<Notification>,
    keep: spec_fn(Notification) -> bool,
    count: int,
)
    requires
        0 <= count < items.len(),
    ensures
        items.take(count + 1).filter(keep) == if keep(items[count]) {
            items.take(count).filter(keep).push(items[count])
        } else {
            items.take(count).filter(keep)
        },
{
    reveal(Seq::filter);
    assert(items.take(count + 1).drop_last() =~= items.take(count));
}

/// A filtered list keeps its order, and holds nothing new.
proof fn lemma_filter_sublist(items: Seq<Notification>, keep: spec_fn(Notification) -> bool)
    ensures
        forall|i: int|
            0 <= i < items.filter(keep).len() ==> items.contains(#[trigger] items.filter(keep)[i])
                && keep(items.filter(keep)[i]),
        forall|i: int|
            0 <= i < items.len() && keep(#[trigger] items[i]) ==> items.filter(keep).contains(
                items[i],
            ),
    decreases items.len(),
{
    reveal(Seq::filter);
    if items.len() > 0 {
        let front = items.drop_last();
        lemma_filter_sublist(front, keep);
        let kept = items.filter(keep);
        assert forall|i: int| 0 <= i < kept.len() implies items.contains(#[trigger] kept[i]) && keep(
            kept[i],
        ) by {
            if i < front.filter(keep).len() {
                assert(kept[i] == front.filter(keep)[i]);
                let at = choose|at: int| 0 <= at < front.len() && front[at] == kept[i];
                assert(items[at] == kept[i]);
            } else {
                assert(items[items.len() - 1] == kept[i]);
            }
        }
        assert forall|i: int| 0 <= i < items.len() && keep(#[trigger] items[i]) implies kept.contains(
            items[i],
        ) by {
            if i < front.len() {
                assert(front[i] == items[i]);
                let at = choose|at: int|
                    0 <= at < front.filter(keep).len() && front.filter(keep)[at] == front[i];
                assert(kept[at] == items[i]);
            } else {
                assert(kept[kept.len() - 1] == items[i]);
            }
        }
    }
}

proof fn lemma_filter_wf(queue: Queue, keep: spec_fn(Notification) -> bool)
    requires
        queue.wf(),
    ensures
        (Queue { items: queue.items.filter(keep), ..queue }).wf(),
    decreases queue.items.len(),
{
    reveal(Seq::filter);
    let items = queue.items;
    if items.len() > 0 {
        let front = items.drop_last();
        lemma_filter_wf(Queue { items: front, ..queue }, keep);
        lemma_filter_sublist(front, keep);
        let kept = items.filter(keep);
        let before = front.filter(keep);
        assert forall|i: int, j: int| 0 <= i < j < kept.len() implies (#[trigger] kept[i]).id != (
        #[trigger] kept[j]).id by {
            assert(kept[i] == before[i]);
            if j < before.len() {
                assert(kept[j] == before[j]);
            } else {
                let at = choose|at: int| 0 <= at < front.len() && front[at] == before[i];
                assert(items[at].id != items[items.len() - 1].id);
            }
        }
        assert forall|i: int| 0 <= i < kept.len() implies (#[trigger] kept[i]).id != 0 && (
        kept[i].expires_at is Some ==> kept[i].expires_at->0.schedulable()) by {
            if i < before.len() {
                assert(kept[i] == before[i]);
            } else {
                assert(kept[i] == items[items.len() - 1]);
            }
        }
    }
}

/// Closing a notification that is not there changes nothing.
pub proof fn lemma_without_absent(items: Seq<Notification>, id: u32)
    requires
        !has_id(items, id),
    ensures
        without(items, id) == items,
    decreases items.len(),
{
    reveal(Seq::filter);
    if items.len() > 0 {
        let front = items.drop_last();
        assert(items[items.len() - 1].id != id);
        assert forall|i: int| 0 <= i < front.len() implies (#[trigger] front[i]).id != id by {
            assert(front[i] == items[i]);
        }
        lemma_without_absent(front, id);
        assert(without(items, id) =~= items);
    }
}

proof fn lemma_without_unique(items: Seq<Notification>, index: int, id: u32)
    requires
        0 <= index < items.len(),
        items[index].id == id,
        forall|i: int, j: int|
            0 <= i < j < items.len() ==> (#[trigger] items[i]).id != (#[trigger] items[j]).id,
    ensures
        without(items, id) == items.remove(index),
    decreases items.len(),
{
    reveal(Seq::filter);
    let front = items.drop_last();
    if index == items.len() - 1 {
        assert forall|i: int| 0 <= i < front.len() implies (#[trigger] front[i]).id != id by {
            assert(items[i].id != items[index].id);
        }
        lemma_without_absent(front, id);
        assert(without(items, id) =~= items.remove(index));
    } else {
        assert(items[index].id != items[items.len() - 1].id);
        lemma_without_unique(front, index, id);
        assert(without(items, id) =~= items.remove(index));
    }
}

/// A notification is reported as expired once: after everything that had expired
/// by `now` is gone, nothing is left that expires at `now` or before.
pub proof fn an_expiry_is_reported_once(items: Seq<Notification>, now: Instant, again: Instant)
    requires
        again.nanos <= now.nanos,
    ensures
        aged_out(remaining(items, now), again) == Seq::<Notification>::empty(),
        remaining(remaining(items, now), again) == remaining(items, now),
{
    let left = remaining(items, now);
    lemma_filter_sublist(items, |n: Notification| !n.expired(now));
    nothing_expires_before_its_time(left, again);
}

/// While no notification is due, expiring drops nothing.
pub proof fn nothing_expires_before_its_time(items: Seq<Notification>, now: Instant)
    requires
        forall|i: int| 0 <= i < items.len() ==> !(#[trigger] items[i]).expired(now),
    ensures
        aged_out(items, now) == Seq::<Notification>::empty(),
        remaining(items, now) == items,
    decreases items.len(),
{
    reveal(Seq::filter);
    if items.len() > 0 {
        let front = items.drop_last();
        assert forall|i: int| 0 <= i < front.len() implies !(#[trigger] front[i]).expired(now) by {
            assert(front[i] == items[i]);
        }
        assert(!items[items.len() - 1].expired(now));
        nothing_expires_before_its_time(front, now);
        assert(remaining(items, now) =~= items);
    }
}

/// Whatever is due is dropped, and nothing else: a notification is among the
/// expired ones exactly if it has aged out, and among the rest exactly if not.
pub proof fn exactly_what_is_due_expires(items: Seq<Notification>, now: Instant, item: Notification)
    ensures
        aged_out(items, now).contains(item) <==> items.contains(item) && item.expired(now),
        remaining(items, now).contains(item) <==> items.contains(item) && !item.expired(now),
{
    lemma_filter_sublist(items, |n: Notification| n.expired(now));
    lemma_filter_sublist(items, |n: Notification| !n.expired(now));
    if items.contains(item) {
        let at = choose|at: int| 0 <= at < items.len() && items[at] == item;
        assert(items[at] == item);
    }
}

/// An urgent notification, and one the client asked to keep, never expires.
pub proof fn an_urgent_notification_never_expires(
    id: u32,
    request: Request,
    default_ms: u64,
    now: Instant,
    later: Instant,
)
    requires
        request.urgency == Urgency::Urgent || request.expire_timeout < 0,
    ensures
        !requested(id, request, default_ms, now).expired(later),
{
}

/// A notification with a delay is there until the delay has passed, and gone from
/// then on.
pub proof fn a_notification_lives_for_its_delay(
    id: u32,
    request: Request,
    default_ms: u64,
    now: Instant,
    later: Instant,
)
    requires
        now.on_clock(),
        request.urgency != Urgency::Urgent,
        request.expire_timeout >= 0,
    ensures
        requested(id, request, default_ms, now).expired(later) <==> later.nanos >= now.nanos + (
        if request.expire_timeout == 0 {
            default_ms as int
        } else {
            request.expire_timeout as int
        }) * crate::time::NANOS_PER_MILLI,
{
}

/// A new notification that is not a replacement comes last, and no more than the
/// limit are kept; whatever is pushed out is the oldest, and is reported.
pub proof fn the_oldest_make_room(queue: Queue, new: Notification, max_visible: int)
    requires
        !has_id(queue.items, new.id),
        0 <= max_visible,
    ensures
        queue.displaced_by(new, max_visible) + queue.with(new, max_visible) == queue.items.push(
            new,
        ),
        queue.with(new, max_visible).len() <= max_visible,
        max_visible > 0 ==> queue.with(new, max_visible).last() == new,
{
    let all = queue.items.push(new);
    let gone = surplus(all.len() as int, max_visible);
    assert(all.take(gone) + all.skip(gone) =~= all);
}

/// A replacement takes the place of what it replaces: nothing is evicted, nothing
/// else changes, and the timer is the new one's.
pub proof fn a_replacement_changes_nothing_else(
    queue: Queue,
    new: Notification,
    max_visible: int,
    i: int,
)
    requires
        queue.wf(),
        0 <= i < queue.items.len(),
        queue.items[i].id == new.id,
    ensures
        queue.with(new, max_visible) == queue.items.update(i, new),
        queue.displaced_by(new, max_visible) == Seq::<Notification>::empty(),
{
    assert(has_id(queue.items, new.id));
    assert(replaced(queue.items, new) =~= queue.items.update(i, new));
}

/// Closing a notification that has just been added, and that pushed nothing out,
/// gives back the list as it was.
pub proof fn closing_undoes_a_push(queue: Queue, new: Notification, max_visible: int)
    requires
        !has_id(queue.items, new.id),
        queue.items.len() < max_visible,
    ensures
        without(queue.with(new, max_visible), new.id) == queue.items,
{
    reveal(Seq::filter);
    lemma_without_absent(queue.items, new.id);
    let all = queue.items.push(new);
    assert(all.skip(0) =~= all);
    assert(all.drop_last() =~= queue.items);
}

/// A closed notification is gone, and closing it again does nothing.
pub proof fn closing_twice_is_closing_once(items: Seq<Notification>, id: u32)
    ensures
        !has_id(without(items, id), id),
        without(without(items, id), id) == without(items, id),
{
    lemma_filter_sublist(items, |n: Notification| n.id != id);
    lemma_without_absent(without(items, id), id);
}

/// Closing a notification takes that one from the list, and no other.
pub proof fn lemma_still_there(items: Seq<Notification>, closed: u32, id: u32)
    ensures
        has_id(without(items, closed), id) <==> has_id(items, id) && id != closed,
{
    let rest = without(items, closed);
    lemma_filter_sublist(items, |n: Notification| n.id != closed);
    if has_id(rest, id) {
        let at = choose|at: int| 0 <= at < rest.len() && (#[trigger] rest[at]).id == id;
        assert(items.contains(rest[at]));
        let from = choose|from: int| 0 <= from < items.len() && items[from] == rest[at];
        assert(items[from].id == id);
    }
    if has_id(items, id) && id != closed {
        let from = choose|from: int| 0 <= from < items.len() && (#[trigger] items[from]).id == id;
        assert(rest.contains(items[from]));
        let at = choose|at: int| 0 <= at < rest.len() && rest[at] == items[from];
        assert(rest[at].id == id);
    }
}

/// The id handed out after `n` others, when `first` comes first.
pub open spec fn nth_id(first: u32, n: nat) -> u32
    decreases n,
{
    if n == 0 {
        first
    } else {
        following_id(nth_id(first, (n - 1) as nat))
    }
}

proof fn lemma_nth_id(first: u32, n: nat)
    requires
        first != 0,
    ensures
        nth_id(first, n) == (first - 1 + n) % 0xffff_ffff + 1,
        nth_id(first, n) != 0,
    decreases n,
{
    if n > 0 {
        lemma_nth_id(first, (n - 1) as nat);
    }
}

/// Ids are never zero, and no id is handed out again before every other one has
/// been.
pub proof fn ids_are_not_reused(first: u32, i: nat, j: nat)
    requires
        first != 0,
        i < j < i + u32::MAX,
    ensures
        nth_id(first, i) != 0,
        nth_id(first, i) != nth_id(first, j),
{
    lemma_nth_id(first, i);
    lemma_nth_id(first, j);
    let a = first - 1 + i;
    let d = j - i;
    if (a + d) % 0xffff_ffff == a % 0xffff_ffff {
        assert(d % 0xffff_ffff == 0) by {
            vstd::arithmetic::div_mod::lemma_fundamental_div_mod(a, 0xffff_ffff);
            vstd::arithmetic::div_mod::lemma_fundamental_div_mod(a + d, 0xffff_ffff);
        }
    }
}

/// A request that names a notification replaces it, wherever in the queue it is: the
/// answer is that notification's id, no new id is used up, nothing leaves the queue,
/// and nothing but that one place changes.
pub proof fn any_notification_can_be_replaced(
    queue: Queue,
    request: Request,
    default_ms: u64,
    max_visible: int,
    now: Instant,
    i: int,
)
    requires
        queue.wf(),
        0 <= i < queue.items.len(),
        request.replaces_id == queue.items[i].id,
    ensures
        ({
            let id = queue.assigned_id(request.replaces_id);
            let new = requested(id, request, default_ms, now);
            &&& id == queue.items[i].id
            &&& queue.next_id_after(request.replaces_id) == queue.next_id
            &&& queue.with(new, max_visible) == queue.items.update(i, new)
            &&& queue.displaced_by(new, max_visible) == Seq::<Notification>::empty()
        }),
{
    let new = requested(queue.items[i].id, request, default_ms, now);
    assert(has_id(queue.items, queue.items[i].id));
    a_replacement_changes_nothing_else(queue, new, max_visible, i);
}

/// A request that names no notification of the queue gets a new id: the one that is
/// next. The one after it is the next higher, and one again after the highest.
pub proof fn anything_else_gets_the_next_id(queue: Queue, replaces_id: u32)
    requires
        queue.wf(),
        forall|i: int| 0 <= i < queue.items.len() ==> (#[trigger] queue.items[i]).id != replaces_id,
    ensures
        queue.assigned_id(replaces_id) == queue.next_id,
        queue.next_id < u32::MAX ==> queue.next_id_after(replaces_id) == queue.next_id + 1,
        queue.next_id == u32::MAX ==> queue.next_id_after(replaces_id) == 1,
{
}

/// A new notification comes last, and of the older ones exactly as many leave as are
/// too many, the oldest of them and in their order.
pub proof fn no_more_leave_than_have_to(queue: Queue, new: Notification, max_visible: int)
    requires
        forall|i: int| 0 <= i < queue.items.len() ==> (#[trigger] queue.items[i]).id != new.id,
        0 <= max_visible,
    ensures
        ({
            let gone = queue.displaced_by(new, max_visible);
            let kept = queue.with(new, max_visible);
            &&& gone + kept == queue.items.push(new)
            &&& queue.items.len() < max_visible ==> gone.len() == 0
            &&& queue.items.len() >= max_visible ==> kept.len() == max_visible
        }),
{
    assert(!has_id(queue.items, new.id));
    the_oldest_make_room(queue, new, max_visible);
}

/// A notification says what its request said, under the id it was given.
pub proof fn a_notification_says_what_was_asked(
    id: u32,
    request: Request,
    default_ms: u64,
    now: Instant,
)
    ensures
        requested(id, request, default_ms, now).id == id,
        requested(id, request, default_ms, now).summary@ == request.summary@,
        requested(id, request, default_ms, now).body@ == request.body@,
        requested(id, request, default_ms, now).urgency == request.urgency,
{
}

/// Closing takes the notification of that id out of its place, wherever it is, and
/// leaves every other one where it was. An id that nothing has closes nothing.
pub proof fn closing_takes_one_out_of_its_place(queue: Queue, id: u32, i: int)
    requires
        queue.wf(),
    ensures
        0 <= i < queue.items.len() && queue.items[i].id == id ==> has_id(queue.items, id)
            && without(queue.items, id) == queue.items.remove(i),
        (forall|k: int| 0 <= k < queue.items.len() ==> (#[trigger] queue.items[k]).id != id)
            ==> !has_id(queue.items, id) && without(queue.items, id) == queue.items,
{
    if 0 <= i < queue.items.len() && queue.items[i].id == id {
        lemma_without_unique(queue.items, i, id);
    }
    if forall|k: int| 0 <= k < queue.items.len() ==> (#[trigger] queue.items[k]).id != id {
        lemma_without_absent(queue.items, id);
    }
}

/// What expires is decided for each notification alone, and both what leaves and what
/// stays keep their order: one more notification is one more behind those that leave,
/// if its time has come, and one more behind those that stay, if not.
pub proof fn each_expires_for_itself(items: Seq<Notification>, item: Notification, now: Instant)
    ensures
        ({
            let more = items.push(item);
            let due = item.expires_at is Some && item.expires_at->0.nanos <= now.nanos;
            &&& aged_out(Seq::empty(), now) == Seq::<Notification>::empty()
            &&& remaining(Seq::empty(), now) == Seq::<Notification>::empty()
            &&& due ==> aged_out(more, now) == aged_out(items, now).push(item) && remaining(
                more,
                now,
            ) == remaining(items, now)
            &&& !due ==> aged_out(more, now) == aged_out(items, now) && remaining(more, now)
                == remaining(items, now).push(item)
        }),
{
    reveal(Seq::filter);
    let more = items.push(item);
    assert(more.drop_last() =~= items);
    assert(aged_out(Seq::empty(), now) =~= Seq::<Notification>::empty());
    assert(remaining(Seq::empty(), now) =~= Seq::<Notification>::empty());
}

/// Whatever leaves the queue is reported, one for one, by its id and the reason.
pub proof fn each_is_reported_by_its_id(items: Seq<Notification>, reason: ClosedReason, k: int)
    requires
        0 <= k < items.len(),
    ensures
        closed_with(items, reason).len() == items.len(),
        closed_with(items, reason)[k] == (items[k].id, reason),
{
}

} // verus!
