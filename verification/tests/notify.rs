use quickbar::config::{Config, Rgba};
use quickbar::geometry::PIXEL;
use quickbar::notify::stack::{Notification, Urgency};
use quickbar::notify::{
    card_height, hit, layout, paint, stack_height, Card, ACCENT_WIDTH, BODY_ALPHA, CARD_GAP,
    CARD_PADDING, CARD_PADDING_V, CARD_WIDTH, STACK_MARGIN,
};
use quickbar::pixmap::Glyph;
use quickbar::render::{
    fill_rect, fill_rect_round_bottom, fill_round_rect, Draw, Renderer, Run, Segment, Shape,
};
use tiny_skia::{Color, FillRule, Paint, PathBuilder, Pixmap, Rect, Transform};

/// A monospace font: every character is three fifths of the size wide.
fn shape(text: &str, size: i64) -> Vec<Run> {
    let count = text.chars().count() as i64;
    vec![Run { width: count * size * 3 / 5, top: 0, height: size * 7 / 5 }]
}

/// A block of pixels for each character that is not a space.
fn rasterize(text: &str, size: i64, color: Rgba) -> Vec<Glyph> {
    let advance = (size * 3 / 5 / PIXEL) as i32;
    let height = (size / PIXEL) as i32;
    let mut glyphs = Vec::new();
    for (index, character) in text.chars().enumerate() {
        if character == ' ' {
            continue;
        }
        for y in 2..height {
            for x in 1..advance {
                glyphs.push(Glyph { x: index as i32 * advance + x, y, color });
            }
        }
    }
    glyphs
}

fn pixels(length: i64) -> f32 {
    (length as f64 / PIXEL as f64) as f32
}

fn fill(canvas: &mut Pixmap, shape: &Shape, color: Rgba) {
    let mut paint = Paint::default();
    paint.set_color(Color::from_rgba8(color.r, color.g, color.b, color.a));
    paint.anti_alias = true;
    match shape {
        Shape::Nothing => {}
        Shape::Rect { x, y, width, height } => {
            let rect = Rect::from_xywh(pixels(*x), pixels(*y), pixels(*width), pixels(*height));
            canvas.fill_rect(rect.unwrap(), &paint, Transform::identity(), None);
        }
        Shape::Path(segments) => {
            let mut path = PathBuilder::new();
            for segment in segments {
                match *segment {
                    Segment::MoveTo { x, y } => path.move_to(pixels(x), pixels(y)),
                    Segment::LineTo { x, y } => path.line_to(pixels(x), pixels(y)),
                    Segment::QuadTo { cx, cy, x, y } => {
                        path.quad_to(pixels(cx), pixels(cy), pixels(x), pixels(y))
                    }
                    Segment::Close => path.close(),
                }
            }
            let path = path.finish().unwrap();
            canvas.fill_path(&path, &paint, FillRule::Winding, Transform::identity(), None);
        }
    }
}

/// Paint a scene.
fn show(canvas: &mut Pixmap, draws: &[Draw]) {
    let renderer = Renderer::new(shape);
    for draw in draws {
        match draw {
            Draw::Rect { x, y, width, height, color } => {
                fill(canvas, &fill_rect(*x, *y, *width, *height), *color)
            }
            Draw::RoundRect { x, y, width, height, radius, color } => {
                fill(canvas, &fill_round_rect(*x, *y, *width, *height, *radius), *color)
            }
            Draw::RoundBottom { x, y, width, height, radius, color } => {
                fill(canvas, &fill_rect_round_bottom(*x, *y, *width, *height, *radius), *color)
            }
            Draw::Text { text, x, y, size, color } => {
                renderer.draw_text(canvas, text, *x, *y, *size, *color, rasterize)
            }
        }
    }
}

const WIDTH: u32 = 600;

fn item(summary: &str, body: &str, urgency: Urgency) -> Notification {
    Notification {
        id: 1,
        summary: summary.to_string(),
        body: body.to_string(),
        urgency,
        expires_at: None,
    }
}

fn painted(height: u32, config: &Config, notifications: &[Notification]) -> Pixmap {
    let mut canvas = Pixmap::new(WIDTH, height).unwrap();
    let renderer = Renderer::new(shape);
    show(&mut canvas, &paint((WIDTH, height), config, notifications, &renderer));
    canvas
}

fn pixel(pixmap: &Pixmap, x: u32, y: u32) -> (u8, u8, u8, u8) {
    let px = pixmap.pixels()[(y * pixmap.width() + x) as usize];
    (px.red(), px.green(), px.blue(), px.alpha())
}

fn row(pixmap: &Pixmap, y: u32) -> Vec<u8> {
    let stride = pixmap.width() as usize * 4;
    pixmap.data()[y as usize * stride..(y as usize + 1) * stride].to_vec()
}

fn height_of(config: &Config, notification: &Notification) -> f32 {
    pixels(card_height(config, notification, &Renderer::new(shape)))
}

fn card_width() -> f32 {
    pixels(CARD_WIDTH).min(WIDTH as f32 - 2.0 * pixels(STACK_MARGIN))
}

fn card_left() -> f32 {
    WIDTH as f32 - pixels(STACK_MARGIN) - card_width()
}

/// Top row of a single card sitting flush on the border.
fn card_top(config: &Config, height: u32, card: f32) -> f32 {
    height as f32 - config.border.width as f32 - card
}

/// Rows that contain at least one non-transparent pixel.
fn opaque_rows(pixmap: &Pixmap) -> Vec<bool> {
    (0..pixmap.height())
        .map(|y| (0..pixmap.width()).any(|x| pixel(pixmap, x, y).3 > 0))
        .collect()
}

/// Runs of consecutive `true`s, as inclusive row ranges.
fn runs(flags: &[bool]) -> Vec<(usize, usize)> {
    let mut out: Vec<(usize, usize)> = Vec::new();
    for (index, flag) in flags.iter().enumerate() {
        match (flag, out.last_mut()) {
            (true, Some(last)) if last.1 + 1 == index => last.1 = index,
            (true, _) => out.push((index, index)),
            (false, _) => {}
        }
    }
    out
}

/// The card's own background, sampled where no text can reach.
fn card_background(pixmap: &Pixmap, config: &Config, height: u32, card: f32) -> (u8, u8, u8, u8) {
    let y = card_top(config, height, card) + card / 2.0;
    pixel(pixmap, (card_left() + card_width()) as u32 - 4, y as u32)
}

/// Left and right edges of the band text is drawn in.
fn text_band() -> (u32, u32) {
    (
        (card_left() + pixels(CARD_PADDING)) as u32,
        (card_left() + card_width() - pixels(CARD_PADDING)) as u32,
    )
}

/// Pixels inside a band that differ from the card's background.
fn glyphs_in(
    pixmap: &Pixmap,
    background: (u8, u8, u8, u8),
    x: (u32, u32),
    y: (u32, u32),
) -> usize {
    (y.0..y.1)
        .flat_map(|row| (x.0..x.1).map(move |column| (column, row)))
        .filter(|&(column, row)| pixel(pixmap, column, row) != background)
        .count()
}

#[test]
fn the_newest_card_sits_flush_on_the_border() {
    let config = Config::default();
    let card = item("Battery low", "12% remaining", Urgency::Normal);
    let card_size = height_of(&config, &card);
    let height = config.border.width + card_size as u32 + 40;
    let canvas = painted(height, &config, &[card]);

    let border = config.border.color;
    for y in (height - config.border.width)..height {
        assert_eq!(
            pixel(&canvas, WIDTH / 2, y),
            (border.r, border.g, border.b, border.a),
            "row {y} should be border"
        );
    }

    let above_border = height - config.border.width - 1;
    let middle = (card_left() + card_width() / 2.0) as u32;
    assert!(
        pixel(&canvas, middle, above_border).3 > 0,
        "the row above the border must be card, not a transparent gap"
    );
}

#[test]
fn a_gap_separates_stacked_cards() {
    let config = Config::default();
    let older = item("Build finished", "42s", Urgency::Normal);
    let newer = item("Battery low", "12%", Urgency::Normal);
    let card = height_of(&config, &newer);
    let height = config.border.width + (2.0 * card + pixels(CARD_GAP) + 40.0) as u32;
    let canvas = painted(height, &config, &[older, newer]);

    let bands = runs(&opaque_rows(&canvas));
    assert_eq!(
        bands.len(),
        2,
        "expected the older card, then the newest merged with the border: {bands:?}"
    );

    // The newest card is flush, so its band also covers the border.
    let expected = card + config.border.width as f32;
    let measured = (bands[1].1 - bands[1].0 + 1) as f32;
    assert!(
        (measured - expected).abs() <= 1.0,
        "newest card plus border should be {expected} rows, measured {measured}"
    );
    assert_eq!(
        bands[1].1 + 1,
        canvas.height() as usize,
        "the band should reach the bottom"
    );
}

#[test]
fn the_newest_notification_does_not_move_when_an_older_one_arrives() {
    let config = Config::default();
    let older = item("Build finished", "42s", Urgency::Normal);
    let newer = item("Battery low", "12%", Urgency::Normal);
    let height = config.border.width + 160;
    let first = card_top(&config, height, height_of(&config, &newer)) as u32;

    let alone = painted(height, &config, std::slice::from_ref(&newer));
    let together = painted(height, &config, &[older, newer]);

    for y in first..height {
        assert_eq!(row(&alone, y), row(&together, y), "row {y} moved");
    }
}

#[test]
fn a_card_paints_its_summary_and_body() {
    let config = Config::default();
    let with_body = item("Battery low", "12% remaining. Plug in soon.", Urgency::Normal);
    let without_body = item("Battery low", "", Urgency::Normal);
    let height = config.border.width + 160;

    let full_card = height_of(&config, &with_body);
    let brief_card = height_of(&config, &without_body);
    assert!(full_card > brief_card, "a body line needs room");

    let canvas = painted(height, &config, &[with_body]);

    let size = config.bar.font_size;
    let line = pixels(Renderer::new(shape).line_height(size));
    let top = card_top(&config, height, full_card);
    let background = card_background(&canvas, &config, height, full_card);
    let band = text_band();

    let summary_top = top + pixels(CARD_PADDING_V);
    let body_top = summary_top + line;
    let summary = glyphs_in(&canvas, background, band, (summary_top as u32, body_top as u32));
    let body = glyphs_in(&canvas, background, band, (body_top as u32, (top + full_card) as u32));

    assert!(summary > 20, "the summary should be drawn, found {summary}");
    assert!(body > 20, "the body should be drawn, found {body}");
}

#[test]
fn an_urgent_card_uses_the_urgent_colour_for_its_accent() {
    let config = Config::default();
    let urgent = item("Disk full", "", Urgency::Urgent);
    let card = height_of(&config, &urgent);
    let height = config.border.width + card as u32 + 40;
    let canvas = painted(height, &config, &[urgent]);

    let top = card_top(&config, height, card);
    let sample = pixel(
        &canvas,
        (card_left() + pixels(ACCENT_WIDTH) / 2.0) as u32,
        (top + card / 2.0) as u32,
    );
    let wanted = config.notifications.urgent_color;
    for (got, want, channel) in [
        (sample.0, wanted.r, "red"),
        (sample.1, wanted.g, "green"),
        (sample.2, wanted.b, "blue"),
        (sample.3, wanted.a, "alpha"),
    ] {
        assert!(
            (i32::from(got) - i32::from(want)).abs() <= 6,
            "{channel} was {got}, wanted about {want}"
        );
    }
}

#[test]
fn a_long_body_stays_inside_the_card() {
    let config = Config::default();
    let long = item("Subject", &"w".repeat(400), Urgency::Normal);
    let card = height_of(&config, &long);
    let height = config.border.width + card as u32 + 40;
    let canvas = painted(height, &config, &[long]);

    let right = (card_left() + card_width()).ceil() as u32;
    let top = card_top(&config, height, card) as u32;
    // Only the rows the card occupies: the border below it spans the full width.
    for y in top..(height - config.border.width) {
        for x in right..WIDTH {
            assert_eq!(
                pixel(&canvas, x, y).3,
                0,
                "something was painted at ({x}, {y}), past the card's right edge"
            );
        }
    }
}

#[test]
fn an_empty_stack_paints_only_the_border() {
    let config = Config::default();
    let height = config.border.width + 100;
    let canvas = painted(height, &config, &[]);

    for y in 0..(height - config.border.width) {
        for x in 0..WIDTH {
            assert_eq!(pixel(&canvas, x, y).3, 0, "row {y} should be untouched");
        }
    }
}

#[test]
fn stack_height_adds_up_the_cards_and_their_gaps() {
    let config = Config::default();
    let renderer = Renderer::new(shape);
    let card = item("Subject", "Body", Urgency::Normal);
    let one = card_height(&config, &card, &renderer);

    assert_eq!(stack_height(&config, &[], &renderer), 0);
    assert_eq!(stack_height(&config, std::slice::from_ref(&card), &renderer), one);
    assert_eq!(
        stack_height(&config, &[card.clone(), card], &renderer),
        2 * one + CARD_GAP
    );
}

#[test]
fn a_card_is_a_panel_an_accent_and_its_texts() {
    let config = Config::default();
    let mut note = item("sum", "body", Urgency::Low);
    let size = config.bar.font_size;
    let text = config.notifications.text_color;
    let draws = paint((WIDTH, 200), &config, std::slice::from_ref(&note), &Renderer::new(shape));
    let line = 13 * PIXEL * 7 / 5;
    let height = 24 * PIXEL + line + 23 * PIXEL / 2 * 7 / 5;
    let (x, y) = (164 * PIXEL, 194 * PIXEL - height);
    let width = 420 * PIXEL;
    let border = Draw::Rect {
        x: 0,
        y: 194 * PIXEL,
        width: 600 * PIXEL,
        height: 6 * PIXEL,
        color: config.border.color,
    };
    assert_eq!(
        draws,
        [
            Draw::RoundRect {
                x,
                y,
                width,
                height,
                radius: 10 * PIXEL,
                color: config.notifications.background
            },
            Draw::RoundRect {
                x,
                y: y + 12 * PIXEL,
                width: 3 * PIXEL,
                height: height - 24 * PIXEL,
                radius: 3 * PIXEL / 2,
                color: text
            },
            Draw::Text {
                text: "sum".to_string(),
                x: x + 16 * PIXEL,
                y: y + 12 * PIXEL,
                size,
                color: text
            },
            Draw::Text {
                text: "body".to_string(),
                x: x + 16 * PIXEL,
                y: y + 12 * PIXEL + line,
                size: size - 3 * PIXEL / 2,
                color: Rgba { a: BODY_ALPHA, ..text }
            },
            border.clone(),
        ]
    );

    note.body = String::new();
    note.urgency = Urgency::Urgent;
    let brief = paint((WIDTH, 200), &config, &[note], &Renderer::new(shape));
    assert_eq!(brief.len(), 4, "no body line");
    let urgent = config.notifications.urgent_color;
    assert!(matches!(brief[1], Draw::RoundRect { color, .. } if color == urgent));
    assert_eq!(brief[3], border);
}

#[test]
fn a_card_that_does_not_fit_is_left_out_with_everything_older() {
    let config = Config::default();
    let renderer = Renderer::new(shape);
    let mut notes = vec![
        item("1", "", Urgency::Normal),
        item("2", "body", Urgency::Normal),
        item("3", "", Urgency::Normal),
    ];
    for (index, note) in notes.iter_mut().enumerate() {
        note.id = index as u32 + 1;
    }
    let brief = card_height(&config, &notes[0], &renderer);
    let tall = card_height(&config, &notes[1], &renderer);
    let ids = |height: u32| -> Vec<u32> {
        layout(&config, &notes, &renderer, (WIDTH, height)).iter().map(|card| card.id).collect()
    };
    let rows = |length: i64| ((length + PIXEL - 1) / PIXEL) as u32 + config.border.width;

    assert_eq!(ids(rows(stack_height(&config, &notes, &renderer))), [1, 2, 3]);
    // Room for one more brief card, but not for the tall one that comes first.
    assert_eq!(ids(rows(brief + CARD_GAP + tall - 2 * PIXEL)), [3]);
    assert_eq!(ids(rows(brief + CARD_GAP + tall)), [2, 3]);
    assert!(ids(config.border.width).is_empty());
    assert!(ids(0).is_empty());
}

#[test]
fn a_narrow_surface_shortens_the_cards() {
    let config = Config::default();
    let notes = [item("n", "", Urgency::Normal)];
    let renderer = Renderer::new(shape);
    let wide = layout(&config, &notes, &renderer, (WIDTH, 200))[0];
    assert_eq!((wide.x, wide.width), (164 * PIXEL, 420 * PIXEL));
    let narrow = layout(&config, &notes, &renderer, (100, 200))[0];
    assert_eq!((narrow.x, narrow.width), (16 * PIXEL, 68 * PIXEL));
    let none = layout(&config, &notes, &renderer, (10, 200))[0];
    assert_eq!((none.x, none.width), (-6 * PIXEL, 0));
}

fn two(config: &Config) -> Vec<Card> {
    let mut older = item("older", "body", Urgency::Normal);
    older.id = 7;
    let mut newer = item("newer", "", Urgency::Normal);
    newer.id = 8;
    let notifications = vec![older, newer];
    layout(config, &notifications, &Renderer::new(shape), (600, 200))
}

#[test]
fn cards_do_not_overlap_and_the_newest_is_lowest() {
    let config = Config::default();
    let cards = two(&config);

    assert_eq!(cards.len(), 2);
    assert_eq!(cards[1].id, 8, "the newest card is last, nearest the border");
    assert!(
        cards[1].y > cards[0].y,
        "the newest card should be lower on the surface: {:?} vs {:?}",
        cards[0],
        cards[1]
    );
    assert!(
        cards[0].y + cards[0].height <= cards[1].y,
        "cards must not overlap: {:?} vs {:?}",
        cards[0],
        cards[1]
    );
}

#[test]
fn a_click_inside_a_card_finds_it() {
    let config = Config::default();
    let cards = two(&config);
    let card = cards[0];

    let centre = (card.x + card.width / 2, card.y + card.height / 2);
    assert_eq!(hit(&cards, centre.0, centre.1), Some(card.id));
}

#[test]
fn a_click_outside_every_card_finds_nothing() {
    let config = Config::default();
    let cards = two(&config);

    assert_eq!(hit(&cards, 4 * PIXEL, 4 * PIXEL), None, "left of the stack");
    assert_eq!(hit(&cards, 599 * PIXEL, 4 * PIXEL), None, "above the stack");
}

#[test]
fn a_card_ends_just_before_its_right_and_lower_sides() {
    let config = Config::default();
    let cards = two(&config);
    let card = cards[1];
    assert_eq!(hit(&cards, card.x, card.y), Some(8));
    assert_eq!(hit(&cards, card.x + card.width - 1, card.y + card.height - 1), Some(8));
    assert_eq!(hit(&cards, card.x + card.width, card.y), None);
    assert_eq!(hit(&cards, card.x, card.y + card.height), None);
    assert_eq!(hit(&cards, card.x - 1, card.y), None);
    assert_eq!(hit(&cards, card.x, card.y - 1), None, "in the gap");

    let under = Card { id: 1, index: 0, x: 0, y: 0, width: 9, height: 9 };
    let over = Card { id: 2, index: 1, ..under };
    assert_eq!(hit(&[under, over], 4, 4), Some(2), "the last one wins");
}

#[test]
fn the_layout_matches_what_gets_painted() {
    // The same layout drives painting, so a card's rectangle must sit on
    // pixels that are actually part of that card.
    let config = Config::default();
    let notifications = vec![item("only", "one", Urgency::Normal)];
    let height = config.border.width + 200;
    let canvas = painted(height, &config, &notifications);

    let card = layout(&config, &notifications, &Renderer::new(shape), (600, height))[0];
    let (x, y) = ((card.x / PIXEL) as u32, (card.y / PIXEL) as u32);
    let inside = canvas.pixels()[((y + 4) * 600 + x + 4) as usize];
    assert!(inside.alpha() > 0, "the card's own rectangle should be painted");
}
