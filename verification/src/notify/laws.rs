//! What the notification stack shows, said of the notifications it was given, of the
//! cards they get and of what is painted on them.

use vstd::prelude::*;

use super::stack::{Notification, Urgency};
use super::{
    card_marks, height_of, hit_in, laid_out, lemma_first_shown, on_card, places, room_above, room_of,
    stack_marks, stack_scene, Card, Place, ACCENT_INSET, ACCENT_WIDTH, BODY_ALPHA, BODY_SIZE_STEP,
    CARD_GAP, CARD_PADDING, CARD_PADDING_V, CARD_WIDTH, STACK_MARGIN,
};
use crate::config::{Config, Rgba};
use crate::geometry::PIXEL;
use crate::render::{line_height_at, Mark, Renderer, Run, CORNER_RADIUS};

verus! {

/// The measures of a card, in pixels.
pub proof fn the_measures_of_a_card()
    ensures
        CARD_WIDTH == 420 * PIXEL,
        STACK_MARGIN == 16 * PIXEL,
        CARD_GAP == 8 * PIXEL,
        CARD_PADDING == 16 * PIXEL,
        CARD_PADDING_V == 12 * PIXEL,
        ACCENT_WIDTH == 3 * PIXEL,
        ACCENT_INSET == 12 * PIXEL,
        2 * BODY_SIZE_STEP == 3 * PIXEL,
        BODY_ALPHA == 0xaa,
{
}

/// The height that a card needs: the padding, a line for the summary, and a smaller
/// one for the body where there is one.
pub open spec fn needed(config: Config, item: Notification) -> int {
    let size = config.bar.font_size as int;
    let summary = 2 * CARD_PADDING_V + line_height_at(size);
    if item.body@.len() > 0 {
        summary + line_height_at(size - BODY_SIZE_STEP)
    } else {
        summary
    }
}

/// Each card belongs to a notification and is as high as that one needs. The cards are
/// those of the newest notifications, in order and without a gap in the list, all as
/// wide as the surface allows and flush with its right margin.
pub proof fn each_card_belongs_to_a_notification(
    config: Config,
    items: Seq<Notification>,
    surface: (u32, u32),
    k: int,
)
    requires
        0 <= k < laid_out(config, items, surface).len(),
    ensures
        ({
            let cards = laid_out(config, items, surface);
            let card = cards[k];
            let wide = surface.0 * PIXEL - 2 * STACK_MARGIN;
            &&& cards.len() <= items.len()
            &&& card.index == items.len() - cards.len() + k
            &&& card.id == items[card.index].id
            &&& card.height == needed(config, items[card.index])
            &&& card.width == if wide <= 0 {
                0
            } else if wide <= CARD_WIDTH {
                wide
            } else {
                CARD_WIDTH as int
            }
            &&& card.x + card.width == surface.0 * PIXEL - STACK_MARGIN
        }),
{
    lemma_first_shown(config, items, room_above(config, surface.1), items.len() as int);
}

/// The stack is built from the border upward for as long as cards fit: the newest
/// stands on the border, each other one a gap above the next, all below the top of the
/// surface, and the first one that is left out would have stuck out.
pub proof fn the_stack_grows_while_cards_fit(
    config: Config,
    items: Seq<Notification>,
    surface: (u32, u32),
    k: int,
)
    ensures
        ({
            let cards = laid_out(config, items, surface);
            let floor = surface.1 * PIXEL - config.border.width * PIXEL;
            let shown = cards.len();
            &&& shown <= items.len()
            &&& shown > 0 ==> cards[shown - 1].y + needed(config, items[items.len() - 1]) == floor
            &&& 0 <= k < shown - 1 ==> cards[k].y + needed(config, items[cards[k].index])
                + CARD_GAP == cards[k + 1].y
            &&& 0 <= k < shown ==> cards[k].y >= 0
            &&& shown == 0 && items.len() > 0 ==> floor < needed(config, items[items.len() - 1])
            &&& 0 < shown < items.len() ==> cards[0].y - CARD_GAP < needed(
                config,
                items[items.len() - shown - 1],
            )
        }),
{
    let cards = laid_out(config, items, surface);
    lemma_first_shown(config, items, room_above(config, surface.1), items.len() as int);
    let first = items.len() - cards.len();
    if first > 0 && cards.len() < items.len() {
        assert(room_of(config, items, first - 1) > room_above(config, surface.1));
    }
    if 0 <= k < cards.len() {
        assert(cards[k].index == first + k);
        assert(room_of(config, items, first + k) <= room_above(config, surface.1));
    }
}

/// A click finds a notification exactly where one of the cards is.
pub proof fn a_click_finds_what_is_under_it(
    config: Config,
    items: Seq<Notification>,
    surface: (u32, u32),
    x: int,
    y: int,
    k: int,
)
    ensures
        ({
            let cards = laid_out(config, items, surface);
            let found = hit_in(cards, x, y);
            &&& 0 <= k < cards.len() && cards[k].x <= x && x < cards[k].x + cards[k].width
                && cards[k].y <= y && y < cards[k].y + cards[k].height ==> found == Some(
                items[cards[k].index].id,
            )
            &&& (forall|i: int|
                0 <= i < cards.len() ==> (#[trigger] cards[i]).x > x || x >= cards[i].x
                    + cards[i].width || cards[i].y > y || y >= cards[i].y + cards[i].height)
                ==> found is None
        }),
{
    let cards = laid_out(config, items, surface);
    if 0 <= k < cards.len() {
        each_card_belongs_to_a_notification(config, items, surface, k);
        if on_card(cards[k], x, y) {
            super::a_click_inside_a_card_finds_it(config, items, surface, k, x, y);
        }
    }
    if forall|i: int| 0 <= i < cards.len() ==> !on_card(#[trigger] cards[i], x, y) {
        super::a_click_outside_every_card_finds_nothing(cards, x, y);
    }
}

/// Of cards that lie over one another the last is found, wherever they are.
pub proof fn the_last_card_under_a_click_is_found(cards: Seq<Place>, x: int, y: int, k: int)
    requires
        0 <= k < cards.len(),
        cards[k].x <= x < cards[k].x + cards[k].width,
        cards[k].y <= y < cards[k].y + cards[k].height,
        forall|i: int|
            k < i < cards.len() ==> (#[trigger] cards[i]).x > x || x >= cards[i].x
                + cards[i].width || cards[i].y > y || y >= cards[i].y + cards[i].height,
    ensures
        hit_in(cards, x, y) == Some(cards[k].id),
{
    super::lemma_hit_the_only_one(cards, k, x, y);
}

/// A card's model is the card.
pub proof fn a_place_is_where_the_card_is(cards: Seq<Card>, k: int)
    requires
        0 <= k < cards.len(),
    ensures
        places(cards).len() == cards.len(),
        places(cards)[k].id == cards[k].id,
        places(cards)[k].index == cards[k].index,
        places(cards)[k].x == cards[k].x,
        places(cards)[k].y == cards[k].y,
        places(cards)[k].width == cards[k].width,
        places(cards)[k].height == cards[k].height,
{
}

/// On its card a notification shows its panel, the accent that marks its urgency, its
/// summary, and its body unless that is empty, in this order and nothing else, however
/// urgent it is. The texts are cut to what the padding leaves; the body is a line below
/// the summary, smaller, and fainter.
pub proof fn what_is_on_a_card<F: Fn(&str, i64) -> Vec<Run>>(
    config: Config,
    item: Notification,
    card: Place,
    renderer: Renderer<F>,
)
    ensures
        ({
            let marks = card_marks(config, item, card, renderer);
            let size = config.bar.font_size;
            let body_size = (size - BODY_SIZE_STEP) as i64;
            let color = config.notifications.text_color;
            let room = if card.width > 2 * CARD_PADDING {
                card.width - 2 * CARD_PADDING
            } else {
                0
            };
            &&& marks.len() == if item.body@.len() > 0 {
                4
            } else {
                3nat
            }
            &&& marks[0] == Mark::RoundRect {
                x: card.x,
                y: card.y,
                width: card.width,
                height: card.height,
                radius: CORNER_RADIUS as int,
                color: config.notifications.background,
            }
            &&& marks[1] == Mark::RoundRect {
                x: card.x,
                y: card.y + ACCENT_INSET,
                width: ACCENT_WIDTH as int,
                height: if card.height > 2 * ACCENT_INSET {
                    card.height - 2 * ACCENT_INSET
                } else {
                    0
                },
                radius: ACCENT_WIDTH as int / 2,
                color: match item.urgency {
                    Urgency::Urgent => config.notifications.urgent_color,
                    Urgency::Normal | Urgency::Low => color,
                },
            }
            &&& marks[2] == Mark::Text {
                text: renderer.shortened(item.summary@, room, size),
                x: card.x + CARD_PADDING,
                y: card.y + CARD_PADDING_V,
                size: size as int,
                color,
            }
            &&& item.body@.len() > 0 ==> marks[3] == (Mark::Text {
                text: renderer.shortened(item.body@, room, body_size),
                x: card.x + CARD_PADDING,
                y: card.y + CARD_PADDING_V + line_height_at(size as int),
                size: body_size as int,
                color: Rgba { r: color.r, g: color.g, b: color.b, a: BODY_ALPHA },
            })
        }),
{
}

/// The cards are painted one after the other, oldest first, and then the border strip;
/// each card is painted for itself.
pub proof fn cards_are_painted_one_after_the_other<F: Fn(&str, i64) -> Vec<Run>>(
    surface: (u32, u32),
    config: Config,
    items: Seq<Notification>,
    cards: Seq<Place>,
    card: Place,
    renderer: Renderer<F>,
)
    ensures
        stack_marks(config, items, Seq::empty(), renderer) == Seq::<Mark>::empty(),
        stack_marks(config, items, cards.push(card), renderer) == stack_marks(
            config,
            items,
            cards,
            renderer,
        ) + card_marks(config, items[card.index], card, renderer),
        stack_scene(surface, config, items, renderer) == stack_marks(
            config,
            items,
            laid_out(config, items, surface),
            renderer,
        ) + seq![
            Mark::Rect {
                x: 0,
                y: surface.1 * PIXEL - config.border.width * PIXEL,
                width: surface.0 * PIXEL,
                height: config.border.width * PIXEL,
                color: config.border.color,
            },
        ],
{
    assert(cards.push(card).drop_last() =~= cards);
    let marks = stack_marks(config, items, laid_out(config, items, surface), renderer);
    assert(stack_scene(surface, config, items, renderer) =~= marks + seq![
        stack_scene(surface, config, items, renderer).last(),
    ]);
}

/// Every notification that has a card is there to be read, however urgent it is: its
/// summary is painted inside the card, and so is its body unless that is empty, one
/// line below the summary.
pub proof fn every_shown_notification_can_be_read<F: Fn(&str, i64) -> Vec<Run>>(
    surface: (u32, u32),
    config: Config,
    items: Seq<Notification>,
    renderer: Renderer<F>,
    k: int,
)
    requires
        0 <= k < laid_out(config, items, surface).len(),
    ensures
        ({
            let card = laid_out(config, items, surface)[k];
            let item = items[card.index];
            let all = stack_scene(surface, config, items, renderer);
            let size = config.bar.font_size;
            let body_size = (size - BODY_SIZE_STEP) as i64;
            let color = config.notifications.text_color;
            let room = if card.width > 2 * CARD_PADDING {
                card.width - 2 * CARD_PADDING
            } else {
                0
            };
            let line = line_height_at(size as int);
            let body_line = line_height_at(size - BODY_SIZE_STEP);
            let summary_y = card.y + CARD_PADDING_V;
            &&& summary_y + line <= card.y + card.height
            &&& all.contains(
                Mark::Text {
                    text: renderer.shortened(item.summary@, room, size),
                    x: card.x + CARD_PADDING,
                    y: summary_y,
                    size: size as int,
                    color,
                },
            )
            &&& item.body@.len() > 0 ==> summary_y + line + body_line <= card.y + card.height
            &&& item.body@.len() > 0 ==> all.contains(
                Mark::Text {
                    text: renderer.shortened(item.body@, room, body_size),
                    x: card.x + CARD_PADDING,
                    y: summary_y + line,
                    size: body_size as int,
                    color: Rgba { r: color.r, g: color.g, b: color.b, a: BODY_ALPHA },
                },
            )
        }),
{
    let cards = laid_out(config, items, surface);
    let card = cards[k];
    let item = items[card.index];
    let own = card_marks(config, item, card, renderer);
    let marks = stack_marks(config, items, cards, renderer);
    let all = stack_scene(surface, config, items, renderer);
    each_card_belongs_to_a_notification(config, items, surface, k);
    what_is_on_a_card(config, item, card, renderer);
    assert forall|m: int| 0 <= m < own.len() implies all.contains(#[trigger] own[m]) by {
        super::lemma_marks_hold(config, items, cards, renderer, k, m);
        let at = choose|at: int| 0 <= at < marks.len() && marks[at] == own[m];
        assert(all[at] == own[m]);
    }
    assert(all.contains(own[2]));
    if item.body@.len() > 0 {
        assert(all.contains(own[3]));
    }
}

/// What the whole stack needs above the border: nothing for nothing, the height of one
/// card for one, and for each older one its height and a gap more.
pub proof fn every_card_adds_to_the_stack(
    config: Config,
    items: Seq<Notification>,
    older: Notification,
)
    ensures
        room_of(config, Seq::empty(), 0) == 0,
        room_of(config, seq![older], 0) == needed(config, older),
        items.len() > 0 ==> room_of(config, seq![older] + items, 0) == needed(config, older)
            + CARD_GAP + room_of(config, items, 0),
{
    super::lemma_older_take_no_room(config, seq![older], items, 0);
}

/// Where every notification has a card, the stack is as high as from the border to the
/// top of the oldest card.
pub proof fn the_stack_is_as_high_as_its_cards(
    config: Config,
    items: Seq<Notification>,
    surface: (u32, u32),
)
    requires
        items.len() > 0,
        laid_out(config, items, surface).len() == items.len(),
    ensures
        room_of(config, items, 0) == surface.1 * PIXEL - config.border.width * PIXEL - laid_out(
            config,
            items,
            surface,
        )[0].y,
{
    lemma_first_shown(config, items, room_above(config, surface.1), items.len() as int);
}

/// A card is as high as its notification needs.
pub proof fn a_card_is_as_high_as_needed(config: Config, item: Notification)
    ensures
        height_of(config, item) == needed(config, item),
        item.body@.len() == 0 ==> height_of(config, item) == 24 * PIXEL + line_height_at(
            config.bar.font_size as int,
        ),
        item.body@.len() > 0 ==> height_of(config, item) == 24 * PIXEL + line_height_at(
            config.bar.font_size as int,
        ) + line_height_at(config.bar.font_size - BODY_SIZE_STEP),
{
}

/// A click where there is no card finds nothing, whatever cards there are.
pub proof fn a_click_beside_all_cards_finds_nothing(cards: Seq<Place>, x: int, y: int)
    requires
        forall|i: int|
            0 <= i < cards.len() ==> (#[trigger] cards[i]).x > x || x >= cards[i].x
                + cards[i].width || cards[i].y > y || y >= cards[i].y + cards[i].height,
    ensures
        hit_in(cards, x, y) is None,
{
    super::a_click_outside_every_card_finds_nothing(cards, x, y);
}

} // verus!
