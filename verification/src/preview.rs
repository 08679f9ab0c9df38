//! Off-screen renders of the top and bottom edges.
//!
//! A preview of these lets the look be inspected without a compositor. The sample
//! content is a stand-in.

use vstd::prelude::*;
use vstd::string::*;

use crate::config::{Config, Rgba};
use crate::geometry::{half, in_range, px, PIXEL};
use crate::render::{scene, Draw, Mark, Renderer, Run, CORNER_RADIUS};

verus! {

/// Width of the sample canvas. The real surfaces span the whole output, but a
/// wide-enough sample is enough to judge margins and alignment.
pub const WIDTH: u32 = 900;

pub const CONTENT_PADDING: i64 = 12 * PIXEL;

pub const CARD_WIDTH: i64 = 420 * PIXEL;

pub const CARD_HEIGHT: i64 = 74 * PIXEL;

pub const CARD_GAP: i64 = 8 * PIXEL;

pub const CARD_MARGIN: i64 = 16 * PIXEL;

/// The body line is drawn a pixel and a half smaller than the summary.
pub const BODY_SIZE_STEP: i64 = 402_653_184;

/// Half the width of the bar that marks a card's urgency.
pub const ACCENT_RADIUS: i64 = 402_653_184;

/// Two cards, the gap between them and a margin, in whole pixels.
pub const STACK_HEIGHT: u32 = 172;

pub const TOP_FILE: &'static str = "preview-top.png";

pub const BOTTOM_FILE: &'static str = "preview-bottom.png";

/// A canvas and what is painted on it, in order.
#[derive(Debug, Clone, PartialEq, Eq)]
pub struct Preview {
    pub width: u32,
    pub height: u32,
    pub draws: Vec<Draw>,
}

/// Where the sample texts of the top edge start.
pub open spec fn baseline(config: Config) -> int {
    config.border.width * PIXEL + (config.bar.height * PIXEL - config.bar.font_size * 7 / 5) / 2
        + PIXEL
}

/// What the top edge's sample shows.
pub open spec fn top_scene<F: Fn(&str, i64) -> Vec<Run>>(
    config: Config,
    renderer: Renderer<F>,
) -> Seq<Mark> {
    let size = config.bar.font_size;
    let y = baseline(config);
    let foreground = config.bar.foreground;
    seq![
        Mark::RoundRect {
            x: 0,
            y: 0,
            width: WIDTH * PIXEL,
            height: (config.border.width + config.bar.height) * PIXEL,
            radius: CORNER_RADIUS as int,
            color: config.bar.background,
        },
        Mark::Rect {
            x: 0,
            y: 0,
            width: WIDTH * PIXEL,
            height: config.border.width * PIXEL,
            color: config.border.color,
        },
        Mark::Text {
            text: "1  2  3  4"@,
            x: CONTENT_PADDING as int,
            y,
            size: size as int,
            color: Rgba { a: 0x99, ..foreground },
        },
        Mark::Text {
            text: "14:03  Tue 11 Aug"@,
            x: (WIDTH * PIXEL - renderer.width_of("14:03  Tue 11 Aug"@, size)) / 2,
            y,
            size: size as int,
            color: foreground,
        },
        Mark::Text {
            text: "78%  WIFI"@,
            x: WIDTH * PIXEL - renderer.width_of("78%  WIFI"@, size) - CONTENT_PADDING,
            y,
            size: size as int,
            color: foreground,
        },
    ]
}

/// The top edge in its expanded state: border, then status bar content.
pub fn render_top<F: Fn(&str, i64) -> Vec<Run>>(config: &Config, renderer: &Renderer<F>) -> (
    preview: Preview)
    requires
        renderer.wf(),
        in_range(config.bar.font_size as int),
        config.border.width + config.bar.height <= u32::MAX,
    ensures
        preview.width == WIDTH,
        preview.height == config.border.width + config.bar.height,
        scene(preview.draws@) == top_scene(*config, *renderer),
{
    let border: i64 = px(config.border.width);
    let height: u32 = config.border.width + config.bar.height;
    let size: i64 = config.bar.font_size;
    let wide: i64 = px(WIDTH);
    let mut draws: Vec<Draw> = Vec::new();

    // One rounded block, then a square border strip over its top: the content
    // and the border share a buffer, so they cannot drift apart.
    draws.push(
        Draw::RoundRect {
            x: 0,
            y: 0,
            width: wide,
            height: px(height),
            radius: CORNER_RADIUS,
            color: config.bar.background,
        },
    );
    draws.push(Draw::Rect { x: 0, y: 0, width: wide, height: border, color: config.border.color });

    let line: i64 = seven_fifths(size);
    let baseline: i64 = border + half(px(config.bar.height) - line) + PIXEL;
    let foreground = config.bar.foreground;
    let dim = Rgba { a: 0x99, ..foreground };
    draws.push(
        Draw::Text {
            text: "1  2  3  4".to_owned(),
            x: CONTENT_PADDING,
            y: baseline,
            size,
            color: dim,
        },
    );
    let centre_width: i64 = renderer.measure_text("14:03  Tue 11 Aug", size).0;
    draws.push(
        Draw::Text {
            text: "14:03  Tue 11 Aug".to_owned(),
            x: half(wide - centre_width),
            y: baseline,
            size,
            color: foreground,
        },
    );
    let right_width: i64 = renderer.measure_text("78%  WIFI", size).0;
    draws.push(
        Draw::Text {
            text: "78%  WIFI".to_owned(),
            x: wide - right_width - CONTENT_PADDING,
            y: baseline,
            size,
            color: foreground,
        },
    );
    assert(scene(draws@) =~= top_scene(*config, *renderer));
    Preview { width: WIDTH, height, draws }
}

fn seven_fifths(length: i64) -> (scaled: i64)
    requires
        in_range(length as int),
    ensures
        scaled == length * 7 / 5,
{
    let product: i128 = (length as i128) * 7;
    if product >= 0 {
        (product / 5) as i64
    } else {
        (-((-product + 4) / 5)) as i64
    }
}

/// What one sample card shows, the `index`-th from the border.
pub open spec fn sample_marks(
    config: Config,
    index: int,
    summary: Seq<char>,
    body: Seq<char>,
    accent: Rgba,
) -> Seq<Mark> {
    let size = config.bar.font_size as int;
    let text_color = config.notifications.text_color;
    let x = WIDTH * PIXEL - CARD_WIDTH - CARD_MARGIN;
    let y = STACK_HEIGHT * PIXEL - CARD_MARGIN - (index + 1) * CARD_HEIGHT - index * CARD_GAP;
    seq![
        Mark::RoundRect {
            x,
            y,
            width: CARD_WIDTH as int,
            height: CARD_HEIGHT as int,
            radius: CORNER_RADIUS as int,
            color: config.notifications.background,
        },
        Mark::RoundRect {
            x,
            y: y + 12 * PIXEL,
            width: 3 * PIXEL,
            height: CARD_HEIGHT - 24 * PIXEL,
            radius: ACCENT_RADIUS as int,
            color: accent,
        },
        Mark::Text { text: summary, x: x + 16 * PIXEL, y: y + 10 * PIXEL, size, color: text_color },
        Mark::Text {
            text: body,
            x: x + 16 * PIXEL,
            y: y + 34 * PIXEL,
            size: size - BODY_SIZE_STEP,
            color: Rgba { a: 0xaa, ..text_color },
        },
    ]
}

/// What the bottom edge's sample shows.
pub open spec fn bottom_scene(config: Config) -> Seq<Mark> {
    sample_marks(
        config,
        0,
        "Battery low"@,
        "12% remaining. Plug in soon."@,
        config.notifications.urgent_color,
    ) + sample_marks(
        config,
        1,
        "Build finished"@,
        "cargo build --release in 42s"@,
        config.bar.foreground,
    ) + seq![
        Mark::Rect {
            x: 0,
            y: STACK_HEIGHT * PIXEL,
            width: WIDTH * PIXEL,
            height: config.border.width * PIXEL,
            color: config.border.color,
        },
    ]
}

fn draw_sample(
    draws: &mut Vec<Draw>,
    config: &Config,
    index: i64,
    summary: &str,
    body: &str,
    accent: Rgba,
)
    requires
        0 <= index <= 1,
        in_range(config.bar.font_size as int),
    ensures
        scene(final(draws)@) == scene(old(draws)@) + sample_marks(
            *config,
            index as int,
            summary@,
            body@,
            accent,
        ),
{
    let size: i64 = config.bar.font_size;
    let text_color = config.notifications.text_color;
    let x: i64 = px(WIDTH) - CARD_WIDTH - CARD_MARGIN;
    let y: i64 = px(STACK_HEIGHT) - CARD_MARGIN - (index + 1) * CARD_HEIGHT - index * CARD_GAP;
    draws.push(
        Draw::RoundRect {
            x,
            y,
            width: CARD_WIDTH,
            height: CARD_HEIGHT,
            radius: CORNER_RADIUS,
            color: config.notifications.background,
        },
    );
    draws.push(
        Draw::RoundRect {
            x,
            y: y + 12 * PIXEL,
            width: 3 * PIXEL,
            height: CARD_HEIGHT - 24 * PIXEL,
            radius: ACCENT_RADIUS,
            color: accent,
        },
    );
    draws.push(
        Draw::Text {
            text: summary.to_owned(),
            x: x + 16 * PIXEL,
            y: y + 10 * PIXEL,
            size,
            color: text_color,
        },
    );
    draws.push(
        Draw::Text {
            text: body.to_owned(),
            x: x + 16 * PIXEL,
            y: y + 34 * PIXEL,
            size: size - BODY_SIZE_STEP,
            color: Rgba { a: 0xaa, ..text_color },
        },
    );
    assert(scene(draws@) =~= scene(old(draws)@) + sample_marks(
        *config,
        index as int,
        summary@,
        body@,
        accent,
    ));
}

/// The bottom edge: a notification stack growing up out of the border.
pub fn render_bottom(config: &Config) -> (preview: Preview)
    requires
        in_range(config.bar.font_size as int),
        config.border.width + STACK_HEIGHT <= u32::MAX,
    ensures
        preview.width == WIDTH,
        preview.height == config.border.width + STACK_HEIGHT,
        scene(preview.draws@) == bottom_scene(*config),
{
    let height: u32 = config.border.width + STACK_HEIGHT;
    let mut draws: Vec<Draw> = Vec::new();
    assert(scene(draws@) =~= Seq::<Mark>::empty());
    draw_sample(
        &mut draws,
        config,
        0,
        "Battery low",
        "12% remaining. Plug in soon.",
        config.notifications.urgent_color,
    );
    draw_sample(
        &mut draws,
        config,
        1,
        "Build finished",
        "cargo build --release in 42s",
        config.bar.foreground,
    );
    // Drawn last so it is never separated from the content above it.
    let border: i64 = px(config.border.width);
    draws.push(
        Draw::Rect {
            x: 0,
            y: px(height) - border,
            width: px(WIDTH),
            height: border,
            color: config.border.color,
        },
    );
    assert(scene(draws@) =~= bottom_scene(*config));
    Preview { width: WIDTH, height, draws }
}

/// Nothing of the bottom edge's sample reaches into the border, which ends it.
pub proof fn the_samples_stay_above_the_border(config: Config, i: int)
    requires
        0 <= i < bottom_scene(config).len(),
    ensures
        bottom_scene(config)[i] matches Mark::RoundRect { y, height, .. } ==> 0 <= y && y + height
            <= STACK_HEIGHT * PIXEL,
        i == bottom_scene(config).len() - 1 <==> bottom_scene(config)[i] is Rect,
{
}

/// The sample of the top edge: the bar's background over the whole canvas, the border
/// strip, and three texts on one line that is centred in the bar, a pixel lower: a dim
/// one at the left padding, one in the centre, and one that ends at the right padding.
pub proof fn what_the_top_sample_shows<F: Fn(&str, i64) -> Vec<Run>>(
    config: Config,
    renderer: Renderer<F>,
)
    ensures
        ({
            let all = top_scene(config, renderer);
            let size = config.bar.font_size;
            let wide = 900 * PIXEL;
            let foreground = config.bar.foreground;
            let (left, centre, right) = (all[2], all[3], all[4]);
            let y = left->Text_y;
            let inset = y - PIXEL - config.border.width * PIXEL;
            &&& all.len() == 5
            &&& all[0] == Mark::RoundRect {
                x: 0,
                y: 0,
                width: wide,
                height: config.border.width * PIXEL + config.bar.height * PIXEL,
                radius: 10 * PIXEL,
                color: config.bar.background,
            }
            &&& all[1] == Mark::Rect {
                x: 0,
                y: 0,
                width: wide,
                height: config.border.width * PIXEL,
                color: config.border.color,
            }
            &&& left is Text && centre is Text && right is Text
            &&& left->Text_text == "1  2  3  4"@
            &&& centre->Text_text == "14:03  Tue 11 Aug"@
            &&& right->Text_text == "78%  WIFI"@
            &&& left->Text_x == 12 * PIXEL
            &&& wide - 1 <= 2 * centre->Text_x + renderer.width_of(centre->Text_text, size) <= wide
            &&& right->Text_x + renderer.width_of(right->Text_text, size) == wide - 12 * PIXEL
            &&& centre->Text_y == y && right->Text_y == y
            &&& 0 <= config.bar.height * PIXEL - size * 7 / 5 - 2 * inset <= 1
            &&& left->Text_size == size && centre->Text_size == size && right->Text_size == size
            &&& left->Text_color == (Rgba {
                r: foreground.r,
                g: foreground.g,
                b: foreground.b,
                a: 0x99,
            })
            &&& centre->Text_color == foreground && right->Text_color == foreground
        }),
{
}

/// The sample of the bottom edge: two cards that stand over one another at the right
/// margin, each with its accent, its summary and a smaller and fainter body, and below
/// them the border strip.
pub proof fn what_the_bottom_sample_shows(config: Config, i: int)
    requires
        0 <= i <= 1,
    ensures
        ({
            let all = bottom_scene(config);
            let (card, accent, summary, body) = (
                all[4 * i],
                all[4 * i + 1],
                all[4 * i + 2],
                all[4 * i + 3],
            );
            let (x, y) = (464 * PIXEL, (82 - 82 * i) * PIXEL);
            let size = config.bar.font_size as int;
            let color = config.notifications.text_color;
            &&& all.len() == 9
            &&& card == Mark::RoundRect {
                x,
                y,
                width: 420 * PIXEL,
                height: 74 * PIXEL,
                radius: 10 * PIXEL,
                color: config.notifications.background,
            }
            &&& accent == Mark::RoundRect {
                x,
                y: y + 12 * PIXEL,
                width: 3 * PIXEL,
                height: 50 * PIXEL,
                radius: ACCENT_RADIUS as int,
                color: if i == 0 {
                    config.notifications.urgent_color
                } else {
                    config.bar.foreground
                },
            }
            &&& summary == Mark::Text {
                text: if i == 0 {
                    "Battery low"@
                } else {
                    "Build finished"@
                },
                x: x + 16 * PIXEL,
                y: y + 10 * PIXEL,
                size,
                color,
            }
            &&& body == Mark::Text {
                text: if i == 0 {
                    "12% remaining. Plug in soon."@
                } else {
                    "cargo build --release in 42s"@
                },
                x: x + 16 * PIXEL,
                y: y + 34 * PIXEL,
                size: size - BODY_SIZE_STEP,
                color: Rgba { r: color.r, g: color.g, b: color.b, a: 0xaa },
            }
            &&& 2 * ACCENT_RADIUS == 3 * PIXEL && 2 * BODY_SIZE_STEP == 3 * PIXEL
            &&& all[8] == Mark::Rect {
                x: 0,
                y: 172 * PIXEL,
                width: 900 * PIXEL,
                height: config.border.width * PIXEL,
                color: config.border.color,
            }
        }),
{
}

} // verus!
