use quickbar::app::FULL;
use quickbar::bar::ModuleValue;
use quickbar::config::{Config, Rgba};
use quickbar::edge::{input_rect, paint, Anchor, Content, Edge};
use quickbar::geometry::PIXEL;
use quickbar::notify::stack::{Notification, Urgency};
use quickbar::pixmap::Glyph;
use quickbar::render::{
    fill_rect, fill_rect_round_bottom, fill_round_rect, Draw, Renderer, Run, Segment, Shape,
};
use tiny_skia::{Color, FillRule, Paint, PathBuilder, Pixmap, Rect, Transform};

/// A monospace font: every character is three fifths of the size wide.
fn shape(text: &str, size: i64) -> Vec<Run> {
    let count = text.chars().count() as i64;
    vec![Run { width: count * size * 3 / 5, top: 0, height: size * 7 / 5 }]
}

/// A block of pixels for each character that is not a space.
fn rasterize(text: &str, size: i64, color: Rgba) -> Vec<Glyph> {
    let advance = (size * 3 / 5 / PIXEL) as i32;
    let height = (size / PIXEL) as i32;
    let mut glyphs = Vec::new();
    for (index, character) in text.chars().enumerate() {
        if character == ' ' {
            continue;
        }
        for y in 2..height {
            for x in 1..advance {
                glyphs.push(Glyph { x: index as i32 * advance + x, y, color });
            }
        }
    }
    glyphs
}

fn pixels(length: i64) -> f32 {
    (length as f64 / PIXEL as f64) as f32
}

fn fill(canvas: &mut Pixmap, shape: &Shape, color: Rgba) {
    let mut paint = Paint::default();
    paint.set_color(Color::from_rgba8(color.r, color.g, color.b, color.a));
    paint.anti_alias = true;
    match shape {
        Shape::Nothing => {}
        Shape::Rect { x, y, width, height } => {
            let rect = Rect::from_xywh(pixels(*x), pixels(*y), pixels(*width), pixels(*height));
            canvas.fill_rect(rect.unwrap(), &paint, Transform::identity(), None);
        }
        Shape::Path(segments) => {
            let mut path = PathBuilder::new();
            for segment in segments {
                match *segment {
                    Segment::MoveTo { x, y } => path.move_to(pixels(x), pixels(y)),
                    Segment::LineTo { x, y } => path.line_to(pixels(x), pixels(y)),
                    Segment::QuadTo { cx, cy, x, y } => {
                        path.quad_to(pixels(cx), pixels(cy), pixels(x), pixels(y))
                    }
                    Segment::Close => path.close(),
                }
            }
            let path = path.finish().unwrap();
            canvas.fill_path(&path, &paint, FillRule::Winding, Transform::identity(), None);
        }
    }
}

/// Paint a scene.
fn show(canvas: &mut Pixmap, draws: &[Draw]) {
    let renderer = Renderer::new(shape);
    for draw in draws {
        match draw {
            Draw::Rect { x, y, width, height, color } => {
                fill(canvas, &fill_rect(*x, *y, *width, *height), *color)
            }
            Draw::RoundRect { x, y, width, height, radius, color } => {
                fill(canvas, &fill_round_rect(*x, *y, *width, *height, *radius), *color)
            }
            Draw::RoundBottom { x, y, width, height, radius, color } => {
                fill(canvas, &fill_rect_round_bottom(*x, *y, *width, *height, *radius), *color)
            }
            Draw::Text { text, x, y, size, color } => {
                renderer.draw_text(canvas, text, *x, *y, *size, *color, rasterize)
            }
        }
    }
}

const WIDTH: u32 = 800;

fn pixel(pixmap: &Pixmap, x: u32, y: u32) -> (u8, u8, u8, u8) {
    let px = pixmap.pixels()[(y * pixmap.width() + x) as usize];
    (px.red(), px.green(), px.blue(), px.alpha())
}

fn border_of(config: &Config) -> (u8, u8, u8, u8) {
    let colour = config.border.color;
    (colour.r, colour.g, colour.b, colour.a)
}

fn painted(edge: Edge, surface: (u32, u32), config: &Config, content: &Content) -> Pixmap {
    let mut canvas = Pixmap::new(surface.0, surface.1).unwrap();
    let renderer = Renderer::new(shape);
    show(&mut canvas, &paint(edge, surface, config, content, &renderer));
    canvas
}

fn hello() -> Notification {
    Notification {
        id: 1,
        summary: "hello".to_string(),
        body: "world".to_string(),
        urgency: Urgency::Normal,
        expires_at: None,
    }
}

#[test]
fn every_edge_is_anchored_on_both_ends_of_its_axis() {
    let top = Anchor { top: true, bottom: false, left: true, right: true };
    let bottom = Anchor { top: false, bottom: true, left: true, right: true };
    let left = Anchor { top: true, bottom: true, left: true, right: false };
    let right = Anchor { top: true, bottom: true, left: false, right: true };

    assert_eq!(Edge::Top.anchor(), top);
    assert_eq!(Edge::Bottom.anchor(), bottom);
    assert_eq!(Edge::Left.anchor(), left);
    assert_eq!(Edge::Right.anchor(), right);
}

#[test]
fn there_are_four_edges_and_two_of_them_are_upright() {
    assert_eq!(Edge::ALL, [Edge::Top, Edge::Bottom, Edge::Left, Edge::Right]);
    let upright: Vec<bool> = Edge::ALL.iter().map(|edge| edge.is_vertical()).collect();
    assert_eq!(upright, [false, false, true, true]);
}

#[test]
fn requested_sizes_follow_the_config() {
    let config = Config::default();
    let border = config.border.width;

    assert_eq!(Edge::Top.requested_size(&config), (0, border + config.bar.height));
    assert_eq!(
        Edge::Bottom.requested_size(&config),
        (0, border + config.bar.content_max_height)
    );
    assert_eq!(Edge::Left.requested_size(&config), (border, 0));
    assert_eq!(Edge::Right.requested_size(&config), (border, 0));
}

#[test]
fn the_content_is_as_tall_as_what_slides_out() {
    let config = Config::default();
    let renderer = Renderer::new(shape);
    let items = [hello()];
    let content = Content { notifications: &items, ..Content::default() };

    assert_eq!(content.height(Edge::Top, &config, &renderer), 28 * PIXEL);
    // Padding, a line of 13 pixels and one of 11.5.
    let card = 24 * PIXEL + 13 * PIXEL * 7 / 5 + 23 * PIXEL / 2 * 7 / 5;
    assert_eq!(content.height(Edge::Bottom, &config, &renderer), card);
    assert_eq!(content.height(Edge::Left, &config, &renderer), 0);
    assert_eq!(Content::default().height(Edge::Bottom, &config, &renderer), 0);
}

#[test]
fn a_collapsed_edge_only_accepts_input_on_its_border() {
    let config = Config::default();
    let border = config.border.width;
    let surface = (WIDTH, 34);

    assert_eq!(
        input_rect(Edge::Top, surface, border, 28 * PIXEL, 0),
        (0, 0, WIDTH as i32, border as i32)
    );
    assert_eq!(
        input_rect(Edge::Bottom, surface, border, 200 * PIXEL, 0),
        (0, 34 - border as i32, WIDTH as i32, border as i32)
    );
}

#[test]
fn an_expanded_edge_accepts_input_over_its_content() {
    let config = Config::default();
    let border = config.border.width;
    let surface = (WIDTH, 34);

    assert_eq!(
        input_rect(Edge::Top, surface, border, 28 * PIXEL, FULL),
        (0, 0, WIDTH as i32, (border + 28) as i32)
    );

    // A surface tall enough for a card: the whole stack accepts input.
    let tall = (WIDTH, 200);
    assert_eq!(
        input_rect(Edge::Bottom, tall, border, 130 * PIXEL, FULL),
        (0, 200 - (border as i32 + 130), WIDTH as i32, border as i32 + 130)
    );
}

#[test]
fn content_counts_as_out_the_moment_it_starts_to_slide() {
    let config = Config::default();
    let border = config.border.width;

    let collapsed = input_rect(Edge::Top, (WIDTH, 34), border, 28 * PIXEL, 0);
    let sliding = input_rect(Edge::Top, (WIDTH, 34), border, 28 * PIXEL, FULL / 100);

    assert!(sliding.3 > collapsed.3, "the area should grow as it slides out");
    assert_eq!(sliding, input_rect(Edge::Top, (WIDTH, 34), border, 28 * PIXEL, FULL));
}

#[test]
fn input_is_clamped_to_the_surface() {
    let config = Config::default();
    let border = config.border.width;

    // Absurd content height, tiny surface: the rectangle stays inside it.
    let rect = input_rect(Edge::Bottom, (WIDTH, 20), border, 900 * PIXEL, FULL);
    assert_eq!(rect, (0, 0, WIDTH as i32, 20));

    let rect = input_rect(Edge::Bottom, (WIDTH, 20), border, i64::MAX, FULL);
    assert_eq!(rect, (0, 0, WIDTH as i32, 20));
    assert_eq!(input_rect(Edge::Top, (WIDTH, 4), border, 0, 0), (0, 0, WIDTH as i32, 4));
    assert_eq!(input_rect(Edge::Right, (4, 50), border, 0, 0), (0, 0, 4, 50));
}

#[test]
fn content_is_rounded_to_whole_pixels() {
    let half = 28 * PIXEL + PIXEL / 2;
    assert_eq!(input_rect(Edge::Top, (WIDTH, 90), 6, half, FULL).3, 35);
    assert_eq!(input_rect(Edge::Top, (WIDTH, 90), 6, half - 1, FULL).3, 34);
}

#[test]
fn side_edges_accept_input_over_the_whole_strip() {
    let config = Config::default();
    let border = config.border.width;
    let surface = (border, 1000);

    assert_eq!(input_rect(Edge::Left, surface, border, 0, FULL), (0, 0, border as i32, 1000));
    assert_eq!(input_rect(Edge::Right, surface, border, 0, FULL), (0, 0, border as i32, 1000));
    assert_eq!(input_rect(Edge::Right, (40, 1000), border, 0, FULL), (34, 0, 6, 1000));
}

#[test]
fn side_edges_are_painted_as_solid_border() {
    let config = Config::default();

    for edge in [Edge::Left, Edge::Right] {
        let canvas = painted(edge, (config.border.width, 60), &config, &Content::default());

        for y in 0..canvas.height() {
            for x in 0..canvas.width() {
                assert_eq!(pixel(&canvas, x, y), border_of(&config), "{edge:?} at ({x}, {y})");
            }
        }
    }
}

#[test]
fn the_top_edge_paints_the_bar_at_the_given_progress() {
    let config = Config::default();
    let height = config.border.width + config.bar.height;
    let modules = [ModuleValue {
        text: "14:03".to_string(),
        color: Some(Rgba::new(0xff, 0xff, 0xff, 0xff)),
    }];

    let content = Content { modules: &modules, notifications: &[], bar_progress: 0 };
    let collapsed = painted(Edge::Top, (WIDTH, height), &config, &content);
    assert_eq!(
        pixel(&collapsed, WIDTH / 2, height - 1).3,
        0,
        "a collapsed bar shows nothing but the border"
    );

    let content = Content { bar_progress: FULL, ..content };
    let shown = painted(Edge::Top, (WIDTH, height), &config, &content);
    assert_eq!(
        pixel(&shown, WIDTH / 2, height - 1).3,
        config.bar.background.a,
        "an expanded bar covers the content area"
    );
}

#[test]
fn the_bottom_edge_paints_cards_above_the_border() {
    let config = Config::default();
    let notification = hello();
    let height = config.border.width + 200;
    let content = Content {
        notifications: std::slice::from_ref(&notification),
        ..Content::default()
    };

    let canvas = painted(Edge::Bottom, (WIDTH, height), &config, &content);

    for y in (height - config.border.width)..height {
        assert_eq!(pixel(&canvas, WIDTH / 2, y), border_of(&config), "border row {y}");
    }
    assert!(
        pixel(&canvas, WIDTH - 60, height - config.border.width - 1).3 > 0,
        "a card should sit on the border"
    );
}

#[test]
fn painting_does_not_depend_on_the_surface_being_the_requested_size() {
    // The compositor has the last word on size, so painting must work for
    // whatever it configured, including a wider or narrower surface.
    let config = Config::default();
    let content = Content::default();

    for width in [320, 1920] {
        let surface = (width, config.border.width + config.bar.height);
        let canvas = painted(Edge::Top, surface, &config, &content);
        assert_eq!(pixel(&canvas, width - 1, 0), border_of(&config));
    }
}
