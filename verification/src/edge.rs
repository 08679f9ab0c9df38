//! One screen edge: its geometry, its painting, and what slides out of it.
//!
//! The geometry is pure, so every anchor, size and input rectangle can be stated
//! without a compositor.

use vstd::prelude::*;

use crate::app::FULL;
use crate::bar::{self, bar_scene, ModuleValue};
use crate::config::Config;
use crate::geometry::{
    clamped_to_i32, in_range, nearest_pixel, px, round_px, smaller, PIXEL,
};
use crate::notify::laws::{every_card_adds_to_the_stack, needed};
use crate::notify::stack::Notification;
use crate::notify::{self, laid_out, room_of, stack_scene};
use crate::render::{scene, Draw, Mark, Renderer, Run};

verus! {

/// Which side of the screen a surface hugs.
#[derive(Debug, Clone, Copy, PartialEq, Eq, Structural)]
pub enum Edge {
    Top,
    Bottom,
    Left,
    Right,
}

/// The sides of the screen a surface is pinned to.
#[derive(Debug, Clone, Copy, PartialEq, Eq, Structural)]
pub struct Anchor {
    pub top: bool,
    pub bottom: bool,
    pub left: bool,
    pub right: bool,
}

/// True of the two edges that are nothing but a border strip.
pub open spec fn upright(edge: Edge) -> bool {
    edge == Edge::Left || edge == Edge::Right
}

impl Edge {
    pub const ALL: [Edge; 4] = [Edge::Top, Edge::Bottom, Edge::Left, Edge::Right];

    /// Where the surface is pinned. Each edge is anchored on both ends of its
    /// own axis, so the compositor stretches it along that axis.
    pub fn anchor(self) -> (anchor: Anchor)
        ensures
            anchor.top == (self != Edge::Bottom),
            anchor.bottom == (self != Edge::Top),
            anchor.left == (self != Edge::Right),
            anchor.right == (self != Edge::Left),
    {
        match self {
            Edge::Top => Anchor { top: true, bottom: false, left: true, right: true },
            Edge::Bottom => Anchor { top: false, bottom: true, left: true, right: true },
            Edge::Left => Anchor { top: true, bottom: true, left: true, right: false },
            Edge::Right => Anchor { top: true, bottom: true, left: false, right: true },
        }
    }

    /// The size that is asked for: the stretched axis is left at zero.
    pub open spec fn wanted_size(self, config: Config) -> (int, int) {
        match self {
            Edge::Top => (0, config.border.width + config.bar.height),
            Edge::Bottom => (0, config.border.width + config.bar.content_max_height),
            Edge::Left | Edge::Right => (config.border.width as int, 0),
        }
    }

    /// The size to ask the compositor for. A zero axis is the stretched one.
    ///
    /// These never change after startup: collapsing the bar changes what is
    /// painted and what accepts input, never the surface's geometry.
    pub fn requested_size(self, config: &Config) -> (size: (u32, u32))
        requires
            self.wanted_size(*config).1 <= u32::MAX,
        ensures
            size.0 == self.wanted_size(*config).0,
            size.1 == self.wanted_size(*config).1,
    {
        let border: u32 = config.border.width;
        match self {
            Edge::Top => (0, border + config.bar.height),
            Edge::Bottom => (0, border + config.bar.content_max_height),
            Edge::Left | Edge::Right => (border, 0),
        }
    }

    /// True for the two edges that are nothing but a border strip.
    pub fn is_vertical(self) -> (vertical: bool)
        ensures
            vertical == upright(self),
    {
        matches!(self, Edge::Left | Edge::Right)
    }
}

/// Everything an edge needs in order to draw.
#[derive(Debug)]
pub struct Content<'a> {
    pub modules: &'a [ModuleValue],
    pub notifications: &'a [Notification],
    /// How far the top edge's status bar is out: 0 collapsed, [`FULL`] fully shown.
    pub bar_progress: u32,
}

impl<'a> Default for Content<'a> {
    fn default() -> (content: Self)
        ensures
            content.modules@ == Seq::<ModuleValue>::empty(),
            content.notifications@ == Seq::<Notification>::empty(),
            content.bar_progress == 0,
    {
        Content { modules: &[], notifications: &[], bar_progress: 0 }
    }
}

/// The height of what slides out of an edge.
pub open spec fn content_height(edge: Edge, config: Config, items: Seq<Notification>) -> int {
    match edge {
        Edge::Top => config.bar.height * PIXEL,
        Edge::Bottom => smaller(room_of(config, items, 0), i64::MAX as int),
        Edge::Left | Edge::Right => 0,
    }
}

impl<'a> Content<'a> {
    /// Height of the content that slides out of this edge.
    pub fn height<F: Fn(&str, i64) -> Vec<Run>>(
        &self,
        edge: Edge,
        config: &Config,
        renderer: &Renderer<F>,
    ) -> (height: i64)
        requires
            in_range(config.bar.font_size as int),
        ensures
            height == content_height(edge, *config, self.notifications@),
    {
        match edge {
            Edge::Top => px(config.bar.height),
            Edge::Bottom => notify::stack_height(config, self.notifications, renderer),
            Edge::Left | Edge::Right => 0,
        }
    }
}

/// The rectangle that accepts pointer input, as left, top, width and height: the
/// border strip, no wider than the surface, and with content that is out the
/// content as well, as far as the surface reaches.
pub open spec fn input_area(
    edge: Edge,
    width: int,
    height: int,
    border: int,
    content: int,
    progress: int,
) -> (int, int, int, int) {
    let strip = smaller(
        border,
        if upright(edge) {
            width
        } else {
            height
        },
    );
    let thickness = if progress > 0 {
        smaller(strip + clamped_to_i32(nearest_pixel(content)), height)
    } else {
        strip
    };
    match edge {
        Edge::Top => (0, 0, width, thickness),
        Edge::Bottom => (0, height - thickness, width, thickness),
        Edge::Left => (0, 0, strip, height),
        Edge::Right => (width - strip, 0, strip, height),
    }
}

/// True of a rectangle whose numbers are 32-bit integers.
pub open spec fn fits_i32(rect: (int, int, int, int)) -> bool {
    &&& i32::MIN <= rect.0 <= i32::MAX
    &&& i32::MIN <= rect.1 <= i32::MAX
    &&& i32::MIN <= rect.2 <= i32::MAX
    &&& i32::MIN <= rect.3 <= i32::MAX
}

/// The rectangle that accepts pointer input, in surface coordinates.
///
/// Collapsed, only the border strip does; the rest of the surface is transparent
/// to the pointer, so clicks land on whatever is underneath. Expanded, the
/// content is included as well.
///
/// Content counts as out as soon as it starts sliding (`progress > 0`), so a
/// pointer that follows the bar does not fall through it mid-slide and start the
/// collapse timer.
pub fn input_rect(
    edge: Edge,
    surface: (u32, u32),
    border: u32,
    content: i64,
    progress: u32,
) -> (rect: (i32, i32, i32, i32))
    requires
        fits_i32(
            input_area(
                edge,
                surface.0 as i32 as int,
                surface.1 as i32 as int,
                border as i32 as int,
                content as int,
                progress as int,
            ),
        ),
    ensures
        (rect.0 as int, rect.1 as int, rect.2 as int, rect.3 as int) == input_area(
            edge,
            surface.0 as i32 as int,
            surface.1 as i32 as int,
            border as i32 as int,
            content as int,
            progress as int,
        ),
{
    let width: i32 = surface.0 as i32;
    let height: i32 = surface.1 as i32;
    let limit: i32 = if edge.is_vertical() {
        width
    } else {
        height
    };
    let border: i32 = if (border as i32) <= limit {
        border as i32
    } else {
        limit
    };
    let thickness: i64 = if progress > 0 {
        let reach: i64 = (border as i64) + (round_px(content) as i64);
        if reach <= (height as i64) {
            reach
        } else {
            height as i64
        }
    } else {
        border as i64
    };
    match edge {
        Edge::Top => (0, 0, width, thickness as i32),
        Edge::Bottom => (0, (height as i64 - thickness) as i32, width, thickness as i32),
        Edge::Left => (0, 0, border, height),
        Edge::Right => (width - border, 0, border, height),
    }
}

/// What one edge shows.
pub open spec fn edge_scene<F: Fn(&str, i64) -> Vec<Run>>(
    edge: Edge,
    surface: (u32, u32),
    config: Config,
    modules: Seq<ModuleValue>,
    items: Seq<Notification>,
    progress: int,
    renderer: Renderer<F>,
) -> Seq<Mark> {
    match edge {
        Edge::Top => bar_scene(surface, config, modules, renderer, progress),
        Edge::Bottom => stack_scene(surface, config, items, renderer),
        Edge::Left | Edge::Right => seq![
            Mark::Rect {
                x: 0,
                y: 0,
                width: surface.0 * PIXEL,
                height: surface.1 * PIXEL,
                color: config.border.color,
            },
        ],
    }
}

/// Paint one edge's surface.
pub fn paint<F: Fn(&str, i64) -> Vec<Run>>(
    edge: Edge,
    surface: (u32, u32),
    config: &Config,
    content: &Content,
    renderer: &Renderer<F>,
) -> (draws: Vec<Draw>)
    requires
        renderer.wf(),
        in_range(config.bar.font_size as int),
        content.bar_progress <= FULL,
    ensures
        scene(draws@) == edge_scene(
            edge,
            surface,
            *config,
            content.modules@,
            content.notifications@,
            content.bar_progress as int,
            *renderer,
        ),
{
    match edge {
        Edge::Top => bar::paint(surface, config, content.modules, renderer, content.bar_progress),
        Edge::Bottom => notify::paint(surface, config, content.notifications, renderer),
        // A side surface is only ever border, and it has no content to slide.
        Edge::Left | Edge::Right => {
            let mut draws: Vec<Draw> = Vec::new();
            draws.push(
                Draw::Rect {
                    x: 0,
                    y: 0,
                    width: px(surface.0),
                    height: px(surface.1),
                    color: config.border.color,
                },
            );
            assert(scene(draws@) =~= edge_scene(
                edge,
                surface,
                *config,
                content.modules@,
                content.notifications@,
                content.bar_progress as int,
                *renderer,
            ));
            draws
        },
    }
}

/// Input is accepted inside the surface only, whatever slides out of the edge.
pub proof fn input_is_clamped_to_the_surface(
    edge: Edge,
    width: int,
    height: int,
    border: int,
    content: int,
    progress: int,
)
    requires
        0 <= width,
        0 <= height,
        0 <= border,
        0 <= content,
    ensures
        ({
            let rect = input_area(edge, width, height, border, content, progress);
            &&& 0 <= rect.0 && 0 <= rect.2 && rect.0 + rect.2 <= width
            &&& 0 <= rect.1 && 0 <= rect.3 && rect.1 + rect.3 <= height
        }),
{
}

/// Whatever accepts input while the edge is collapsed accepts it when content is
/// out as well.
pub proof fn content_only_adds_to_the_input(
    edge: Edge,
    width: int,
    height: int,
    border: int,
    content: int,
    progress: int,
)
    requires
        0 <= width,
        0 <= height,
        0 <= border,
        0 <= content,
    ensures
        ({
            let closed = input_area(edge, width, height, border, content, 0);
            let open = input_area(edge, width, height, border, content, progress);
            &&& open.0 <= closed.0 && closed.0 + closed.2 <= open.0 + open.2
            &&& open.1 <= closed.1 && closed.1 + closed.3 <= open.1 + open.3
        }),
{
}

/// Content counts as out the moment it starts to slide: how far it is out makes no
/// difference.
pub proof fn content_counts_as_out_the_moment_it_starts_to_slide(
    edge: Edge,
    width: int,
    height: int,
    border: int,
    content: int,
    little: int,
    much: int,
)
    requires
        0 < little,
        0 < much,
    ensures
        input_area(edge, width, height, border, content, little) == input_area(
            edge,
            width,
            height,
            border,
            content,
            much,
        ),
{
}

/// A bar that is out accepts input over the whole of the surface that the top edge
/// asks for, as far as coordinates reach.
pub proof fn the_bar_fills_the_top_edge(config: Config, width: int, progress: int)
    requires
        0 <= width,
        0 < progress,
        Edge::Top.wanted_size(config).1 <= i32::MAX,
    ensures
        ({
            let height = Edge::Top.wanted_size(config).1;
            input_area(
                Edge::Top,
                width,
                height,
                config.border.width as int,
                content_height(Edge::Top, config, Seq::empty()),
                progress,
            ) == (0int, 0int, width, height)
        }),
{
    let bar = config.bar.height as int;
    assert((bar * PIXEL + PIXEL / 2) / (PIXEL as int) == bar);
}

/// The side edges accept input over their whole strip, whatever is on screen.
pub proof fn side_edges_accept_input_over_the_whole_strip(
    edge: Edge,
    height: int,
    border: int,
    content: int,
    progress: int,
)
    requires
        upright(edge),
    ensures
        input_area(edge, border, height, border, content, progress) == (
            0int,
            0int,
            border,
            height,
        ),
{
}

/// A collapsed edge accepts input on its border strip, as far as the surface reaches:
/// a strip along the edge's own side of the surface, from one end to the other.
pub proof fn a_collapsed_edge_accepts_input_on_its_border(
    edge: Edge,
    width: int,
    height: int,
    border: int,
    content: int,
)
    ensures
        ({
            let rect = input_area(edge, width, height, border, content, 0);
            let across = if edge == Edge::Top || edge == Edge::Bottom {
                height
            } else {
                width
            };
            let strip = if border < across {
                border
            } else {
                across
            };
            &&& edge == Edge::Top ==> rect == (0int, 0int, width, strip)
            &&& edge == Edge::Bottom ==> rect == (0int, height - strip, width, strip)
            &&& edge == Edge::Left ==> rect == (0int, 0int, strip, height)
            &&& edge == Edge::Right ==> rect == (width - strip, 0int, strip, height)
        }),
{
}

/// Content that is out makes the strip of the top and the bottom edge thicker by its
/// own height, to the nearest pixel, as far as the surface reaches.
pub proof fn content_makes_the_strip_thicker(
    edge: Edge,
    width: int,
    height: int,
    border: int,
    content: int,
    progress: int,
    pixels: int,
)
    requires
        0 < progress,
        0 <= content,
        0 <= border,
        0 <= height <= i32::MAX,
        2 * content - PIXEL < 2 * pixels * PIXEL <= 2 * content + PIXEL,
    ensures
        ({
            let rect = input_area(edge, width, height, border, content, progress);
            let strip = if border < height {
                border
            } else {
                height
            };
            let thick = if strip + pixels < height {
                strip + pixels
            } else {
                height
            };
            &&& edge == Edge::Top ==> rect == (0int, 0int, width, thick)
            &&& edge == Edge::Bottom ==> rect == (0int, height - thick, width, thick)
            &&& edge == Edge::Left || edge == Edge::Right ==> rect == input_area(
                edge,
                width,
                height,
                border,
                content,
                0,
            )
        }),
{
    assert(nearest_pixel(content) == pixels);
}

/// Every card that is painted accepts input, over the whole of its rows, to the nearest
/// pixel, and the input reaches from one end of the surface to the other. Where every
/// notification has a card, nothing above the oldest of them accepts any.
pub proof fn every_painted_card_accepts_input(
    config: Config,
    items: Seq<Notification>,
    surface: (u32, u32),
    k: int,
)
    requires
        surface.0 <= i32::MAX,
        surface.1 <= i32::MAX,
        0 <= k < laid_out(config, items, surface).len(),
    ensures
        ({
            let cards = laid_out(config, items, surface);
            let card = cards[k];
            let rect = input_area(
                Edge::Bottom,
                surface.0 as int,
                surface.1 as int,
                config.border.width as int,
                content_height(Edge::Bottom, config, items),
                FULL as int,
            );
            &&& rect.0 == 0 && rect.2 == surface.0
            &&& 2 * rect.1 * PIXEL <= 2 * card.y + PIXEL
            &&& card.y + card.height <= (rect.1 + rect.3) * PIXEL
            &&& cards.len() == items.len() ==> 2 * rect.1 * PIXEL >= 2 * cards[0].y - PIXEL
        }),
{
    let cards = laid_out(config, items, surface);
    let border = config.border.width as int;
    let content = content_height(Edge::Bottom, config, items);
    let floor = notify::room_above(config, surface.1);
    notify::lemma_first_shown(config, items, floor, items.len() as int);
    let index = cards[k].index;
    assert(room_of(config, items, index) <= floor);
    notify::lemma_room_positive(config, items, index);
    notify::lemma_room_positive(config, items, 0);
    lemma_older_take_more(config, items, 0, index);
    assert(border < surface.1);
    let pixels = nearest_pixel(content);
    assert(2 * content - PIXEL < 2 * pixels * PIXEL <= 2 * content + PIXEL);
}

proof fn lemma_older_take_more(config: Config, items: Seq<Notification>, older: int, newer: int)
    requires
        0 <= older <= newer < items.len(),
    ensures
        room_of(config, items, older) >= room_of(config, items, newer),
    decreases newer - older,
{
    if older < newer {
        lemma_older_take_more(config, items, older + 1, newer);
        notify::lemma_room_positive(config, items, older);
    }
}

/// What slides out of an edge: of the top one the bar, of the bottom one the whole
/// stack, which grows by a card and a gap with each older notification, and of the
/// sides nothing.
pub proof fn what_slides_out_of_an_edge(
    config: Config,
    items: Seq<Notification>,
    older: Notification,
)
    ensures
        content_height(Edge::Top, config, items) == config.bar.height * PIXEL,
        content_height(Edge::Left, config, items) == 0,
        content_height(Edge::Right, config, items) == 0,
        content_height(Edge::Bottom, config, Seq::empty()) == 0,
        needed(config, older) <= i64::MAX ==> content_height(Edge::Bottom, config, seq![older])
            == needed(config, older),
        items.len() > 0 && content_height(Edge::Bottom, config, items) + notify::CARD_GAP + needed(
            config,
            older,
        ) <= i64::MAX ==> content_height(Edge::Bottom, config, seq![older] + items)
            == content_height(Edge::Bottom, config, items) + notify::CARD_GAP + needed(
            config,
            older,
        ),
        items.len() > 0 && content_height(Edge::Bottom, config, items) + notify::CARD_GAP + needed(
            config,
            older,
        ) > i64::MAX ==> content_height(Edge::Bottom, config, seq![older] + items) == i64::MAX,
{
    every_card_adds_to_the_stack(config, items, older);
    notify::lemma_room_positive(config, items, 0);
    notify::lemma_room_positive(config, seq![older], 0);
    assert(needed(config, older) > 0);
}

/// The surface of an edge spans its side of the screen and is as thick as the border
/// and, on top and at the bottom, the most that slides out of it.
pub proof fn how_large_a_surface_is(config: Config)
    ensures
        Edge::Top.wanted_size(config) == (0int, config.border.width + config.bar.height),
        Edge::Bottom.wanted_size(config) == (
            0int,
            config.border.width + config.bar.content_max_height,
        ),
        Edge::Left.wanted_size(config) == (config.border.width as int, 0int),
        Edge::Right.wanted_size(config) == (config.border.width as int, 0int),
{
}

/// The top edge shows the bar as far as it is out, the bottom edge the notifications,
/// and the sides are border from one end to the other.
pub proof fn what_an_edge_shows<F: Fn(&str, i64) -> Vec<Run>>(
    surface: (u32, u32),
    config: Config,
    modules: Seq<ModuleValue>,
    items: Seq<Notification>,
    progress: int,
    renderer: Renderer<F>,
    side: Edge,
)
    ensures
        edge_scene(Edge::Top, surface, config, modules, items, progress, renderer) == bar_scene(
            surface,
            config,
            modules,
            renderer,
            progress,
        ),
        edge_scene(Edge::Bottom, surface, config, modules, items, progress, renderer)
            == stack_scene(surface, config, items, renderer),
        side == Edge::Left || side == Edge::Right ==> edge_scene(
            side,
            surface,
            config,
            modules,
            items,
            progress,
            renderer,
        ) == seq![
            Mark::Rect {
                x: 0,
                y: 0,
                width: surface.0 * PIXEL,
                height: surface.1 * PIXEL,
                color: config.border.color,
            },
        ],
{
}

/// The two edges at the sides are upright, and the other two are not.
pub proof fn which_edges_are_upright()
    ensures
        upright(Edge::Left),
        upright(Edge::Right),
        !upright(Edge::Top),
        !upright(Edge::Bottom),
{
}

} // verus!
