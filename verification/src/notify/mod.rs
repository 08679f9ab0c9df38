//! Notifications: the queue of what is showing, and how it is drawn.
//!
//! The bottom edge hosts the stack. Cards sit flush against the border and grow
//! upward, newest nearest the border, all in the same buffer as the border.

pub mod laws;
pub mod stack;

use vstd::prelude::*;
use vstd::string::*;

use crate::config::{Config, Rgba};
use crate::geometry::{in_range, larger, max_length, min_length, px, smaller, LENGTH_MAX, PIXEL};
use crate::render::{
    a_shortened_text_fits, line_height_at, marker_adds_up, scene, Draw, Mark, Renderer, Run,
    CORNER_RADIUS,
};
use stack::{Notification, Urgency};

verus! {

/// Card width. Narrower surfaces shorten it further.
pub const CARD_WIDTH: i64 = 420 * PIXEL;

/// Horizontal inset of the stack from the surface edges.
pub const STACK_MARGIN: i64 = 16 * PIXEL;

/// Vertical space between two cards.
pub const CARD_GAP: i64 = 8 * PIXEL;

/// Padding between a card's edge and its text.
pub const CARD_PADDING: i64 = 16 * PIXEL;

/// Vertical padding inside a card.
pub const CARD_PADDING_V: i64 = 12 * PIXEL;

/// Width of the coloured bar marking a card's urgency.
pub const ACCENT_WIDTH: i64 = 3 * PIXEL;

/// Vertical inset of that bar from the card's edges.
pub const ACCENT_INSET: i64 = 12 * PIXEL;

/// The body line is drawn this much smaller than the summary: a pixel and a half.
pub const BODY_SIZE_STEP: i64 = 402_653_184;

/// Alpha of the body text, so it reads as secondary.
pub const BODY_ALPHA: u8 = 0xaa;

/// The height of a card: one line for the summary, plus one for the body.
pub open spec fn height_of(config: Config, item: Notification) -> int {
    let size = config.bar.font_size as int;
    2 * CARD_PADDING_V + line_height_at(size) + if item.body@.len() == 0 {
        0
    } else {
        line_height_at(size - BODY_SIZE_STEP)
    }
}

/// How much room the cards from the `first` on take: their heights, and a gap
/// between each two of them.
pub open spec fn room_of(config: Config, items: Seq<Notification>, first: int) -> int
    decreases items.len() - first,
{
    if first >= items.len() {
        0
    } else if first == items.len() - 1 {
        height_of(config, items[first])
    } else {
        height_of(config, items[first]) + CARD_GAP + room_of(config, items, first + 1)
    }
}

/// Height of a single card: one line for the summary, plus one for the body.
pub fn card_height<F: Fn(&str, i64) -> Vec<Run>>(
    config: &Config,
    notification: &Notification,
    renderer: &Renderer<F>,
) -> (height: i64)
    requires
        in_range(config.bar.font_size as int),
    ensures
        height == height_of(*config, *notification),
        0 < height <= 3_300_000_000_000_000_000,
{
    let size: i64 = config.bar.font_size;
    let mut height: i64 = 2 * CARD_PADDING_V + renderer.line_height(size);
    if !notification.body.as_str().is_empty() {
        height = height + renderer.line_height(size - BODY_SIZE_STEP);
    }
    height
}

/// Total height the cards need, excluding the border.
pub fn stack_height<F: Fn(&str, i64) -> Vec<Run>>(
    config: &Config,
    notifications: &[Notification],
    renderer: &Renderer<F>,
) -> (height: i64)
    requires
        in_range(config.bar.font_size as int),
    ensures
        height == smaller(room_of(*config, notifications@, 0), i64::MAX as int),
{
    let count: usize = notifications.len();
    let mut first: usize = count;
    let mut room: i128 = 0;
    while first > 0
        invariant
            0 <= first <= count,
            count == notifications@.len(),
            room == room_of(*config, notifications@, first as int),
            0 <= room <= (count - first) * 3_400_000_000_000_000_000,
            in_range(config.bar.font_size as int),
        decreases first,
    {
        first = first - 1;
        room = room + (card_height(config, &notifications[first], renderer) as i128);
        if first < count - 1 {
            room = room + (CARD_GAP as i128);
        }
    }
    if room > (i64::MAX as i128) {
        i64::MAX
    } else {
        room as i64
    }
}

/// Where one card sits on the surface.
#[derive(Debug, Clone, Copy, PartialEq, Eq, Structural)]
pub struct Card {
    /// The notification's id, for click handling.
    pub id: u32,
    /// Index into the notification list this was laid out from.
    pub index: usize,
    pub x: i64,
    pub y: i64,
    pub width: i64,
    pub height: i64,
}

/// The model of a [`Card`].
pub struct Place {
    pub id: u32,
    pub index: int,
    pub x: int,
    pub y: int,
    pub width: int,
    pub height: int,
}

impl View for Card {
    type V = Place;

    open spec fn view(&self) -> Place {
        Place {
            id: self.id,
            index: self.index as int,
            x: self.x as int,
            y: self.y as int,
            width: self.width as int,
            height: self.height as int,
        }
    }
}

/// The model of a list of cards.
pub open spec fn places(cards: Seq<Card>) -> Seq<Place> {
    Seq::new(cards.len(), |i: int| cards[i]@)
}

/// How wide a card is on a surface of the given width.
pub open spec fn card_width(width: u32) -> int {
    smaller(CARD_WIDTH as int, larger(width * PIXEL - 2 * STACK_MARGIN, 0))
}

/// How much room a surface of the given height has above the border.
pub open spec fn room_above(config: Config, height: u32) -> int {
    height * PIXEL - config.border.width * PIXEL
}

/// Where the card of the `index`-th notification goes: the newest sits on the
/// border, and each other one a gap above the next newer.
pub open spec fn place_of(
    config: Config,
    items: Seq<Notification>,
    surface: (u32, u32),
    index: int,
) -> Place {
    Place {
        id: items[index].id,
        index,
        x: surface.0 * PIXEL - STACK_MARGIN - card_width(surface.0),
        y: room_above(config, surface.1) - room_of(config, items, index),
        width: card_width(surface.0),
        height: height_of(config, items[index]),
    }
}

/// The oldest notification, at or before `from`, that still has room for itself
/// and for everything newer.
pub open spec fn first_shown(config: Config, items: Seq<Notification>, room: int, from: int) -> int
    decreases from,
{
    if from > 0 && room_of(config, items, from - 1) <= room {
        first_shown(config, items, room, from - 1)
    } else {
        from
    }
}

/// The cards that are shown, oldest first.
pub open spec fn laid_out(
    config: Config,
    items: Seq<Notification>,
    surface: (u32, u32),
) -> Seq<Place> {
    let first = first_shown(
        config,
        items,
        room_above(config, surface.1),
        items.len() as int,
    );
    Seq::new(
        (items.len() - first) as nat,
        |i: int| place_of(config, items, surface, first + i),
    )
}

/// Exactly the notifications from the first that is shown on have room.
pub proof fn lemma_first_shown(config: Config, items: Seq<Notification>, room: int, from: int)
    requires
        0 <= from <= items.len(),
        forall|i: int| from <= i < items.len() ==> #[trigger] room_of(config, items, i) <= room,
    ensures
        0 <= first_shown(config, items, room, from) <= from,
        forall|i: int|
            0 <= i < items.len() ==> (first_shown(config, items, room, from) <= i <==>
                #[trigger] room_of(config, items, i) <= room),
    decreases from,
{
    if from > 0 && room_of(config, items, from - 1) <= room {
        lemma_first_shown(config, items, room, from - 1);
    } else if from > 0 {
        assert forall|i: int| 0 <= i < items.len() implies (from <= i <==> #[trigger] room_of(
            config,
            items,
            i,
        ) <= room) by {
            if i < from {
                lemma_room_shrinks(config, items, i, from - 1);
            }
        }
    }
}

proof fn lemma_room_shrinks(config: Config, items: Seq<Notification>, first: int, later: int)
    requires
        0 <= first <= later < items.len(),
    ensures
        room_of(config, items, first) >= room_of(config, items, later) + (if first < later {
            CARD_GAP + PIXEL
        } else {
            0
        }),
        room_of(config, items, later) >= height_of(config, items[later]) > 0,
    decreases later - first,
{
    if first < later {
        lemma_room_shrinks(config, items, first + 1, later);
    } else {
        lemma_room_positive(config, items, later);
    }
}

/// Cards take room: each at least its own height.
pub proof fn lemma_room_positive(config: Config, items: Seq<Notification>, first: int)
    requires
        0 <= first <= items.len(),
    ensures
        room_of(config, items, first) >= 0,
        first < items.len() ==> room_of(config, items, first) >= height_of(config, items[first])
            > 0,
    decreases items.len() - first,
{
    if first < items.len() {
        lemma_room_positive(config, items, first + 1);
    }
}

/// Lay the cards out on a surface of the given size.
///
/// The newest sits nearest the border and the stack grows upward from there. A
/// card that would not fit is left out entirely rather than drawn half off the
/// top. Painting and click handling both go through this, so they cannot
/// disagree about where a card is.
pub fn layout<F: Fn(&str, i64) -> Vec<Run>>(
    config: &Config,
    notifications: &[Notification],
    renderer: &Renderer<F>,
    surface: (u32, u32),
) -> (cards: Vec<Card>)
    requires
        in_range(config.bar.font_size as int),
    ensures
        places(cards@) == laid_out(*config, notifications@, surface),
{
    let width: i64 = px(surface.0);
    let card_width: i64 = min_length(CARD_WIDTH, max_length(width - 2 * STACK_MARGIN, 0));
    let x: i64 = width - STACK_MARGIN - card_width;
    let ghost items = notifications@;
    let ghost room = room_above(*config, surface.1);

    let count: usize = notifications.len();
    let mut bottom: i64 = px(surface.1) - px(config.border.width);
    let mut first: usize = count;
    // Newest first, and turned round at the end.
    let mut upward: Vec<Card> = Vec::new();
    while first > 0
        invariant_except_break
            first_shown(*config, items, room, count as int) == first_shown(
                *config,
                items,
                room,
                first as int,
            ),
        invariant
            0 <= first <= count,
            items == notifications@,
            count == items.len(),
            room == room_above(*config, surface.1),
            in_range(config.bar.font_size as int),
            -CARD_GAP <= bottom + LENGTH_MAX,
            bottom <= LENGTH_MAX,
            bottom == room - room_of(*config, items, first as int) - (if first < count {
                CARD_GAP as int
            } else {
                0
            }),
            card_width == self::card_width(surface.0),
            x == surface.0 * PIXEL - STACK_MARGIN - card_width,
            upward@.len() == count - first,
            forall|i: int|
                0 <= i < upward@.len() ==> (#[trigger] upward@[i])@ == place_of(
                    *config,
                    items,
                    surface,
                    count - 1 - i,
                ),
        ensures
            first_shown(*config, items, room, count as int) == first,
        decreases first,
    {
        let height: i64 = card_height(config, &notifications[first - 1], renderer);
        if bottom - height < 0 {
            break;
        }
        upward.push(
            Card {
                id: notifications[first - 1].id,
                index: first - 1,
                x,
                y: bottom - height,
                width: card_width,
                height,
            },
        );
        bottom = bottom - height - CARD_GAP;
        first = first - 1;
    }

    // Oldest first, matching the order they were pushed in.
    let mut cards: Vec<Card> = Vec::new();
    let mut taken: usize = 0;
    while taken < upward.len()
        invariant
            0 <= taken <= upward@.len(),
            upward@.len() == count - first,
            count == items.len(),
            cards@.len() == taken,
            forall|i: int|
                0 <= i < upward@.len() ==> (#[trigger] upward@[i])@ == place_of(
                    *config,
                    items,
                    surface,
                    count - 1 - i,
                ),
            forall|i: int|
                0 <= i < taken ==> (#[trigger] cards@[i])@ == place_of(
                    *config,
                    items,
                    surface,
                    first + i,
                ),
        decreases upward.len() - taken,
    {
        let at: usize = upward.len() - 1 - taken;
        cards.push(upward[at]);
        taken = taken + 1;
    }
    assert(places(cards@) =~= laid_out(*config, items, surface));
    cards
}

/// True when the point is on the card.
pub open spec fn on_card(card: Place, x: int, y: int) -> bool {
    card.x <= x < card.x + card.width && card.y <= y < card.y + card.height
}

/// The notification whose card is under a point: where cards lie over one another,
/// the last of them.
pub open spec fn hit_in(cards: Seq<Place>, x: int, y: int) -> Option<u32>
    decreases cards.len(),
{
    if cards.len() == 0 {
        None
    } else if on_card(cards.last(), x, y) {
        Some(cards.last().id)
    } else {
        hit_in(cards.drop_last(), x, y)
    }
}

/// The notification under a point, if any.
pub fn hit(cards: &[Card], x: i64, y: i64) -> (found: Option<u32>)
    ensures
        found == hit_in(places(cards@), x as int, y as int),
{
    let ghost all = places(cards@);
    let mut index: usize = cards.len();
    assert(all.take(all.len() as int) =~= all);
    while index > 0
        invariant
            0 <= index <= cards@.len(),
            all == places(cards@),
            hit_in(all, x as int, y as int) == hit_in(all.take(index as int), x as int, y as int),
        decreases index,
    {
        proof {
            assert(all.take(index as int).drop_last() =~= all.take(index - 1));
        }
        index = index - 1;
        let card = cards[index];
        let right: i128 = (card.x as i128) + (card.width as i128);
        let bottom: i128 = (card.y as i128) + (card.height as i128);
        if x >= card.x && (x as i128) < right && y >= card.y && (y as i128) < bottom {
            return Some(card.id);
        }
    }
    None
}

/// How much room a card of the given width has for its text.
pub open spec fn text_width(width: int) -> int {
    larger(width - 2 * CARD_PADDING, 0)
}

/// What one card looks like: its panel, the bar that marks its urgency, the
/// summary, and the body where there is one.
pub open spec fn card_marks<F: Fn(&str, i64) -> Vec<Run>>(
    config: Config,
    item: Notification,
    card: Place,
    renderer: Renderer<F>,
) -> Seq<Mark> {
    let size = config.bar.font_size;
    let body_size = (size - BODY_SIZE_STEP) as i64;
    let text_color = config.notifications.text_color;
    let panel = seq![
        Mark::RoundRect {
            x: card.x,
            y: card.y,
            width: card.width,
            height: card.height,
            radius: CORNER_RADIUS as int,
            color: config.notifications.background,
        },
        Mark::RoundRect {
            x: card.x,
            y: card.y + ACCENT_INSET,
            width: ACCENT_WIDTH as int,
            height: larger(card.height - 2 * ACCENT_INSET, 0),
            radius: ACCENT_WIDTH as int / 2,
            color: if item.urgency == Urgency::Urgent {
                config.notifications.urgent_color
            } else {
                text_color
            },
        },
        Mark::Text {
            text: renderer.shortened(item.summary@, text_width(card.width), size),
            x: card.x + CARD_PADDING,
            y: card.y + CARD_PADDING_V,
            size: size as int,
            color: text_color,
        },
    ];
    if item.body@.len() == 0 {
        panel
    } else {
        panel.push(
            Mark::Text {
                text: renderer.shortened(item.body@, text_width(card.width), body_size),
                x: card.x + CARD_PADDING,
                y: card.y + CARD_PADDING_V + line_height_at(size as int),
                size: body_size as int,
                color: Rgba { a: BODY_ALPHA, ..text_color },
            },
        )
    }
}

/// What the cards of a stack look like, oldest first.
pub open spec fn stack_marks<F: Fn(&str, i64) -> Vec<Run>>(
    config: Config,
    items: Seq<Notification>,
    cards: Seq<Place>,
    renderer: Renderer<F>,
) -> Seq<Mark>
    decreases cards.len(),
{
    if cards.len() == 0 {
        Seq::empty()
    } else {
        let last = cards.last();
        stack_marks(config, items, cards.drop_last(), renderer) + card_marks(
            config,
            items[last.index],
            last,
            renderer,
        )
    }
}

/// What the bottom edge shows: the stack, and over it the border strip.
pub open spec fn stack_scene<F: Fn(&str, i64) -> Vec<Run>>(
    surface: (u32, u32),
    config: Config,
    items: Seq<Notification>,
    renderer: Renderer<F>,
) -> Seq<Mark> {
    stack_marks(config, items, laid_out(config, items, surface), renderer).push(
        Mark::Rect {
            x: 0,
            y: room_above(config, surface.1),
            width: surface.0 * PIXEL,
            height: config.border.width * PIXEL,
            color: config.border.color,
        },
    )
}

proof fn lemma_scene_push(draws: Seq<Draw>, draw: Draw)
    ensures
        scene(draws.push(draw)) == scene(draws).push(draw@),
{
    assert(scene(draws.push(draw)) =~= scene(draws).push(draw@));
}

fn draw_card<F: Fn(&str, i64) -> Vec<Run>>(
    draws: &mut Vec<Draw>,
    config: &Config,
    notification: &Notification,
    card: &Card,
    renderer: &Renderer<F>,
)
    requires
        renderer.wf(),
        in_range(config.bar.font_size as int),
        in_range(card.x as int),
        in_range(card.y as int),
        card.width >= 0,
        card.height >= 0,
    ensures
        scene(final(draws)@) == scene(old(draws)@) + card_marks(
            *config,
            *notification,
            card@,
            *renderer,
        ),
{
    let Card { id: _, index: _, x, y, width, height } = *card;
    let ghost before = scene(draws@);
    let panel = Draw::RoundRect {
        x,
        y,
        width,
        height,
        radius: CORNER_RADIUS,
        color: config.notifications.background,
    };
    proof {
        lemma_scene_push(draws@, panel);
    }
    draws.push(panel);

    let text_color = config.notifications.text_color;
    let accent_color = if notification.is_urgent() {
        config.notifications.urgent_color
    } else {
        text_color
    };
    let accent = Draw::RoundRect {
        x,
        y: y + ACCENT_INSET,
        width: ACCENT_WIDTH,
        height: max_length(height - 2 * ACCENT_INSET, 0),
        radius: ACCENT_WIDTH / 2,
        color: accent_color,
    };
    proof {
        lemma_scene_push(draws@, accent);
    }
    draws.push(accent);

    let size: i64 = config.bar.font_size;
    let text_width: i64 = max_length(width - 2 * CARD_PADDING, 0);
    let summary = Draw::Text {
        text: renderer.shorten(notification.summary.as_str(), text_width, size),
        x: x + CARD_PADDING,
        y: y + CARD_PADDING_V,
        size,
        color: text_color,
    };
    proof {
        lemma_scene_push(draws@, summary);
    }
    draws.push(summary);
    let ghost marks = card_marks(*config, *notification, card@, *renderer);
    if notification.body.as_str().is_empty() {
        assert(scene(draws@) =~= before + marks);
        return;
    }
    let body_size: i64 = size - BODY_SIZE_STEP;
    let body = Draw::Text {
        text: renderer.shorten(notification.body.as_str(), text_width, body_size),
        x: x + CARD_PADDING,
        y: y + CARD_PADDING_V + renderer.line_height(size),
        size: body_size,
        color: Rgba { a: BODY_ALPHA, ..text_color },
    };
    proof {
        lemma_scene_push(draws@, body);
    }
    draws.push(body);
    assert(scene(draws@) =~= before + marks);
}

/// Paint the bottom edge: the notification stack, then the border strip.
///
/// Cards are placed from the border upward, so the newest is nearest the border
/// and the stack grows as notifications arrive. A card that would not fit in the
/// surface is left out entirely rather than drawn half off the top.
pub fn paint<F: Fn(&str, i64) -> Vec<Run>>(
    surface: (u32, u32),
    config: &Config,
    notifications: &[Notification],
    renderer: &Renderer<F>,
) -> (draws: Vec<Draw>)
    requires
        renderer.wf(),
        in_range(config.bar.font_size as int),
    ensures
        scene(draws@) == stack_scene(surface, *config, notifications@, *renderer),
{
    let border: i64 = px(config.border.width);
    let cards = layout(config, notifications, renderer, surface);
    let ghost items = notifications@;
    let ghost laid = laid_out(*config, items, surface);
    proof {
        lemma_first_shown(
            *config,
            items,
            room_above(*config, surface.1),
            items.len() as int,
        );
    }
    let mut draws: Vec<Draw> = Vec::new();
    let mut index: usize = 0;
    assert(laid.take(0) =~= Seq::<Place>::empty());
    assert(scene(draws@) =~= Seq::<Mark>::empty());
    while index < cards.len()
        invariant
            0 <= index <= cards@.len(),
            items == notifications@,
            laid == laid_out(*config, items, surface),
            laid == places(cards@),
            laid.len() <= items.len(),
            forall|i: int|
                0 <= i < laid.len() ==> 0 <= (#[trigger] laid[i]).index < items.len() && room_of(
                    *config,
                    items,
                    laid[i].index,
                ) <= room_above(*config, surface.1),
            renderer.wf(),
            in_range(config.bar.font_size as int),
            scene(draws@) == stack_marks(*config, items, laid.take(index as int), *renderer),
        decreases cards.len() - index,
    {
        let card = &cards[index];
        proof {
            assert(card@ == laid[index as int]);
            assert(laid.take(index as int + 1).drop_last() =~= laid.take(index as int));
            lemma_room_positive(*config, items, card.index as int);
        }
        draw_card(&mut draws, config, &notifications[card.index], card, renderer);
        index = index + 1;
    }
    assert(laid.take(index as int) =~= laid);

    // Drawn last so it is never separated from the content above it.
    let strip = Draw::Rect {
        x: 0,
        y: px(surface.1) - border,
        width: px(surface.0),
        height: border,
        color: config.border.color,
    };
    proof {
        lemma_scene_push(draws@, strip);
    }
    draws.push(strip);
    draws
}

/// A notification is shown exactly if there is room for it and for everything
/// newer; what is shown lies below the top of the surface.
pub proof fn a_card_is_shown_exactly_if_it_fits(
    config: Config,
    items: Seq<Notification>,
    surface: (u32, u32),
    index: int,
)
    requires
        0 <= index < items.len(),
    ensures
        ({
            let cards = laid_out(config, items, surface);
            let first = items.len() - cards.len();
            &&& 0 <= first
            &&& index >= first <==> room_of(config, items, index) <= room_above(config, surface.1)
            &&& index >= first ==> cards[index - first] == place_of(config, items, surface, index)
                && cards[index - first].y >= 0
        }),
{
    lemma_first_shown(config, items, room_above(config, surface.1), items.len() as int);
}

/// Every notification is shown exactly if the border and the stack together are
/// no taller than the surface.
pub proof fn the_whole_stack_is_shown_if_it_fits(
    config: Config,
    items: Seq<Notification>,
    surface: (u32, u32),
)
    requires
        items.len() > 0,
    ensures
        laid_out(config, items, surface).len() == items.len() <==> config.border.width * PIXEL
            + room_of(config, items, 0) <= surface.1 * PIXEL,
{
    lemma_first_shown(config, items, room_above(config, surface.1), items.len() as int);
}

/// The newest card sits flush on the border.
pub proof fn the_newest_card_sits_flush_on_the_border(
    config: Config,
    items: Seq<Notification>,
    surface: (u32, u32),
)
    requires
        laid_out(config, items, surface).len() > 0,
    ensures
        ({
            let newest = laid_out(config, items, surface).last();
            &&& newest.index == items.len() - 1
            &&& newest.y + newest.height == surface.1 * PIXEL - config.border.width * PIXEL
        }),
{
    lemma_first_shown(config, items, room_above(config, surface.1), items.len() as int);
}

/// A gap separates each card from the next newer one.
pub proof fn a_gap_separates_stacked_cards(
    config: Config,
    items: Seq<Notification>,
    surface: (u32, u32),
    i: int,
)
    requires
        0 <= i < laid_out(config, items, surface).len() - 1,
    ensures
        ({
            let cards = laid_out(config, items, surface);
            cards[i].y + cards[i].height + CARD_GAP == cards[i + 1].y
        }),
{
    lemma_first_shown(config, items, room_above(config, surface.1), items.len() as int);
}

/// Cards do not overlap, and a newer one is always lower.
pub proof fn cards_do_not_overlap(
    config: Config,
    items: Seq<Notification>,
    surface: (u32, u32),
    i: int,
    j: int,
)
    requires
        0 <= i < j < laid_out(config, items, surface).len(),
    ensures
        ({
            let cards = laid_out(config, items, surface);
            cards[i].y + cards[i].height < cards[j].y
        }),
    decreases j - i,
{
    lemma_first_shown(config, items, room_above(config, surface.1), items.len() as int);
    a_gap_separates_stacked_cards(config, items, surface, i);
    if i + 1 < j {
        cards_do_not_overlap(config, items, surface, i + 1, j);
        let cards = laid_out(config, items, surface);
        lemma_room_positive(config, items, cards[i + 1].index);
    }
}

/// Every card lies between the margins of the surface, where there are any.
pub proof fn cards_keep_the_margin(
    config: Config,
    items: Seq<Notification>,
    surface: (u32, u32),
    i: int,
)
    requires
        0 <= i < laid_out(config, items, surface).len(),
    ensures
        ({
            let card = laid_out(config, items, surface)[i];
            &&& card.x + card.width == surface.0 * PIXEL - STACK_MARGIN
            &&& surface.0 * PIXEL >= 2 * STACK_MARGIN ==> card.x >= STACK_MARGIN
            &&& 0 <= card.width <= CARD_WIDTH
        }),
{
}

proof fn lemma_older_take_no_room(
    config: Config,
    older: Seq<Notification>,
    items: Seq<Notification>,
    index: int,
)
    requires
        0 <= index <= items.len(),
    ensures
        room_of(config, older + items, older.len() + index) == room_of(config, items, index),
    decreases items.len() - index,
{
    if index < items.len() {
        assert((older + items)[older.len() + index] == items[index]);
        lemma_older_take_no_room(config, older, items, index + 1);
    }
}

/// A card does not move when older notifications are there as well, and stays
/// shown.
pub proof fn older_notifications_move_nothing(
    config: Config,
    older: Seq<Notification>,
    items: Seq<Notification>,
    surface: (u32, u32),
    back: int,
)
    requires
        0 <= back < laid_out(config, items, surface).len(),
    ensures
        ({
            let alone = laid_out(config, items, surface);
            let together = laid_out(config, older + items, surface);
            let before = alone[alone.len() - 1 - back];
            let after = together[together.len() - 1 - back];
            &&& back < together.len()
            &&& after == Place { index: before.index + older.len(), ..before }
        }),
{
    let all = older + items;
    let room = room_above(config, surface.1);
    let index = items.len() - 1 - back;
    lemma_first_shown(config, items, room, items.len() as int);
    lemma_first_shown(config, all, room, all.len() as int);
    lemma_older_take_no_room(config, older, items, index);
    assert(all[older.len() + index] == items[index]);
    assert(room_of(config, items, index) <= room);
    assert(room_of(config, all, older.len() + index) <= room);
}

proof fn lemma_hit_the_only_one(cards: Seq<Place>, i: int, x: int, y: int)
    requires
        0 <= i < cards.len(),
        on_card(cards[i], x, y),
        forall|j: int| i < j < cards.len() ==> !on_card(#[trigger] cards[j], x, y),
    ensures
        hit_in(cards, x, y) == Some(cards[i].id),
    decreases cards.len(),
{
    if i < cards.len() - 1 {
        assert(!on_card(cards[cards.len() - 1], x, y));
        let front = cards.drop_last();
        assert forall|j: int| i < j < front.len() implies !on_card(#[trigger] front[j], x, y) by {
            assert(front[j] == cards[j]);
        }
        lemma_hit_the_only_one(front, i, x, y);
    }
}

/// A click inside a card that is shown finds that card's notification.
pub proof fn a_click_inside_a_card_finds_it(
    config: Config,
    items: Seq<Notification>,
    surface: (u32, u32),
    i: int,
    x: int,
    y: int,
)
    requires
        0 <= i < laid_out(config, items, surface).len(),
        on_card(laid_out(config, items, surface)[i], x, y),
    ensures
        hit_in(laid_out(config, items, surface), x, y) == Some(
            laid_out(config, items, surface)[i].id,
        ),
{
    let laid = laid_out(config, items, surface);
    assert forall|j: int| i < j < laid.len() implies !on_card(#[trigger] laid[j], x, y) by {
        cards_do_not_overlap(config, items, surface, i, j);
    }
    lemma_hit_the_only_one(laid, i, x, y);
}

/// A click outside every card finds nothing.
pub proof fn a_click_outside_every_card_finds_nothing(cards: Seq<Place>, x: int, y: int)
    requires
        forall|i: int| 0 <= i < cards.len() ==> !on_card(#[trigger] cards[i], x, y),
    ensures
        hit_in(cards, x, y) is None,
    decreases cards.len(),
{
    if cards.len() > 0 {
        let front = cards.drop_last();
        assert(!on_card(cards[cards.len() - 1], x, y));
        assert forall|i: int| 0 <= i < front.len() implies !on_card(#[trigger] front[i], x, y) by {
            assert(front[i] == cards[i]);
        }
        a_click_outside_every_card_finds_nothing(front, x, y);
    }
}

proof fn lemma_marks_hold<F: Fn(&str, i64) -> Vec<Run>>(
    config: Config,
    items: Seq<Notification>,
    cards: Seq<Place>,
    renderer: Renderer<F>,
    i: int,
    k: int,
)
    requires
        0 <= i < cards.len(),
        0 <= k < card_marks(config, items[cards[i].index], cards[i], renderer).len(),
    ensures
        stack_marks(config, items, cards, renderer).contains(
            card_marks(config, items[cards[i].index], cards[i], renderer)[k],
        ),
    decreases cards.len(),
{
    let mark = card_marks(config, items[cards[i].index], cards[i], renderer)[k];
    let before = stack_marks(config, items, cards.drop_last(), renderer);
    let last = card_marks(config, items[cards.last().index], cards.last(), renderer);
    if i == cards.len() - 1 {
        assert((before + last)[before.len() + k] == mark);
    } else {
        assert(cards.drop_last()[i] == cards[i]);
        lemma_marks_hold(config, items, cards.drop_last(), renderer, i, k);
        let at = choose|at: int| 0 <= at < before.len() && before[at] == mark;
        assert((before + last)[at] == mark);
    }
}

/// Painting and clicking agree about where a card is: each card that a click can
/// find is painted as a panel over exactly the same rectangle.
pub proof fn a_card_is_painted_where_it_is_clicked<F: Fn(&str, i64) -> Vec<Run>>(
    surface: (u32, u32),
    config: Config,
    items: Seq<Notification>,
    renderer: Renderer<F>,
    i: int,
)
    requires
        0 <= i < laid_out(config, items, surface).len(),
    ensures
        ({
            let card = laid_out(config, items, surface)[i];
            stack_scene(surface, config, items, renderer).contains(
                Mark::RoundRect {
                    x: card.x,
                    y: card.y,
                    width: card.width,
                    height: card.height,
                    radius: CORNER_RADIUS as int,
                    color: config.notifications.background,
                },
            )
        }),
{
    let cards = laid_out(config, items, surface);
    let marks = stack_marks(config, items, cards, renderer);
    let all = stack_scene(surface, config, items, renderer);
    let panel = card_marks(config, items[cards[i].index], cards[i], renderer)[0];
    lemma_marks_hold(config, items, cards, renderer, i, 0);
    let at = choose|at: int| 0 <= at < marks.len() && marks[at] == panel;
    assert(all[at] == panel);
}

/// The text of a card, cut to the room it has, stays inside the card.
pub proof fn a_long_text_stays_inside_the_card<F: Fn(&str, i64) -> Vec<Run>>(
    renderer: Renderer<F>,
    card: Place,
    text: Seq<char>,
    size: i64,
)
    requires
        marker_adds_up(
            renderer,
            renderer.shortened(text, text_width(card.width), size),
            size,
        ),
        card.width >= 2 * CARD_PADDING,
    ensures
        card.x + CARD_PADDING + renderer.width_of(
            renderer.shortened(text, text_width(card.width), size),
            size,
        ) <= card.x + card.width - CARD_PADDING,
{
    a_shortened_text_fits(renderer, text, text_width(card.width), size);
}

/// An empty stack shows nothing but the border.
pub proof fn an_empty_stack_paints_only_the_border<F: Fn(&str, i64) -> Vec<Run>>(
    surface: (u32, u32),
    config: Config,
    renderer: Renderer<F>,
)
    ensures
        stack_scene(surface, config, Seq::empty(), renderer) == seq![
            Mark::Rect {
                x: 0,
                y: surface.1 * PIXEL - config.border.width * PIXEL,
                width: surface.0 * PIXEL,
                height: config.border.width * PIXEL,
                color: config.border.color,
            },
        ],
{
    let none = Seq::<Notification>::empty();
    let marks = stack_marks(config, none, laid_out(config, none, surface), renderer);
    assert(marks =~= Seq::<Mark>::empty());
    assert(stack_scene(surface, config, none, renderer) =~= seq![
        Mark::Rect {
            x: 0,
            y: surface.1 * PIXEL - config.border.width * PIXEL,
            width: surface.0 * PIXEL,
            height: config.border.width * PIXEL,
            color: config.border.color,
        },
    ]);
}

} // verus!
