use quickbar::config::{Config, Rgba};
use quickbar::geometry::PIXEL;
use quickbar::pixmap::Glyph;
use quickbar::preview::{render_bottom, render_top, Preview, BOTTOM_FILE, TOP_FILE, WIDTH};
use quickbar::render::{
    fill_rect, fill_rect_round_bottom, fill_round_rect, Draw, Renderer, Run, Segment, Shape,
};
use tiny_skia::{Color, FillRule, Paint, PathBuilder, Pixmap, Rect, Transform};

/// A monospace font: every character is three fifths of the size wide.
fn shape(text: &str, size: i64) -> Vec<Run> {
    let count = text.chars().count() as i64;
    vec![Run { width: count * size * 3 / 5, top: 0, height: size * 7 / 5 }]
}

/// A block of pixels for each character that is not a space.
fn rasterize(text: &str, size: i64, color: Rgba) -> Vec<Glyph> {
    let advance = (size * 3 / 5 / PIXEL) as i32;
    let height = (size / PIXEL) as i32;
    let mut glyphs = Vec::new();
    for (index, character) in text.chars().enumerate() {
        if character == ' ' {
            continue;
        }
        for y in 2..height {
            for x in 1..advance {
                glyphs.push(Glyph { x: index as i32 * advance + x, y, color });
            }
        }
    }
    glyphs
}

fn pixels(length: i64) -> f32 {
    (length as f64 / PIXEL as f64) as f32
}

fn fill(canvas: &mut Pixmap, shape: &Shape, color: Rgba) {
    let mut paint = Paint::default();
    paint.set_color(Color::from_rgba8(color.r, color.g, color.b, color.a));
    paint.anti_alias = true;
    match shape {
        Shape::Nothing => {}
        Shape::Rect { x, y, width, height } => {
            let rect = Rect::from_xywh(pixels(*x), pixels(*y), pixels(*width), pixels(*height));
            canvas.fill_rect(rect.unwrap(), &paint, Transform::identity(), None);
        }
        Shape::Path(segments) => {
            let mut path = PathBuilder::new();
            for segment in segments {
                match *segment {
                    Segment::MoveTo { x, y } => path.move_to(pixels(x), pixels(y)),
                    Segment::LineTo { x, y } => path.line_to(pixels(x), pixels(y)),
                    Segment::QuadTo { cx, cy, x, y } => {
                        path.quad_to(pixels(cx), pixels(cy), pixels(x), pixels(y))
                    }
                    Segment::Close => path.close(),
                }
            }
            let path = path.finish().unwrap();
            canvas.fill_path(&path, &paint, FillRule::Winding, Transform::identity(), None);
        }
    }
}

/// Paint a scene.
fn show(canvas: &mut Pixmap, draws: &[Draw]) {
    let renderer = Renderer::new(shape);
    for draw in draws {
        match draw {
            Draw::Rect { x, y, width, height, color } => {
                fill(canvas, &fill_rect(*x, *y, *width, *height), *color)
            }
            Draw::RoundRect { x, y, width, height, radius, color } => {
                fill(canvas, &fill_round_rect(*x, *y, *width, *height, *radius), *color)
            }
            Draw::RoundBottom { x, y, width, height, radius, color } => {
                fill(canvas, &fill_rect_round_bottom(*x, *y, *width, *height, *radius), *color)
            }
            Draw::Text { text, x, y, size, color } => {
                renderer.draw_text(canvas, text, *x, *y, *size, *color, rasterize)
            }
        }
    }
}

fn painted(preview: &Preview) -> Pixmap {
    let mut canvas = Pixmap::new(preview.width, preview.height).unwrap();
    show(&mut canvas, &preview.draws);
    canvas
}

fn px(pixmap: &Pixmap, x: u32, y: u32) -> tiny_skia::PremultipliedColorU8 {
    pixmap.pixels()[(y * pixmap.width() + x) as usize]
}

fn channel(value: u8) -> u32 {
    u32::from(value)
}

#[test]
fn top_edge_starts_with_the_configured_border() {
    let config = Config::default();
    let canvas = painted(&render_top(&config, &Renderer::new(shape)));
    let colour = config.border.color;

    assert_eq!(canvas.width(), WIDTH);
    assert_eq!(canvas.height(), config.border.width + config.bar.height);

    for y in 0..config.border.width {
        let pixel = px(&canvas, 5, y);
        assert_eq!(channel(pixel.red()), channel(colour.r), "row {y}");
        assert_eq!(channel(pixel.green()), channel(colour.g));
        assert_eq!(channel(pixel.blue()), channel(colour.b));
        assert_eq!(channel(pixel.alpha()), channel(colour.a));
    }

    let below = px(&canvas, 5, config.border.width);
    assert_ne!(
        channel(below.red()),
        channel(colour.r),
        "the content area must not repeat the border colour, or the seam check is vacuous"
    );
}

#[test]
fn bottom_edge_ends_with_the_configured_border() {
    let config = Config::default();
    let canvas = painted(&render_bottom(&config));
    let colour = config.border.color;
    let bottom = canvas.height() - 1;

    let pixel = px(&canvas, 5, bottom);
    assert_eq!(channel(pixel.red()), channel(colour.r));
    assert_eq!(channel(pixel.alpha()), channel(colour.a));
}

#[test]
fn the_samples_are_where_they_belong() {
    let config = Config::default();
    let bottom = render_bottom(&config);
    assert_eq!((bottom.width, bottom.height), (900, 178));
    assert_eq!(bottom.draws.len(), 9);
    let y = |draw: &Draw| match draw {
        Draw::RoundRect { x, y, .. } | Draw::RoundBottom { x, y, .. } => (*x, *y),
        Draw::Text { x, y, .. } => (*x, *y),
        Draw::Rect { x, y, .. } => (*x, *y),
    };
    assert_eq!(y(&bottom.draws[0]), (464 * PIXEL, 82 * PIXEL), "next to the border");
    assert_eq!(y(&bottom.draws[3]), (480 * PIXEL, 116 * PIXEL));
    assert_eq!(y(&bottom.draws[4]), (464 * PIXEL, 0), "above it");
    assert_eq!(y(&bottom.draws[8]), (0, 172 * PIXEL), "the border comes last");

    let top = render_top(&config, &Renderer::new(shape));
    assert_eq!(top.draws.len(), 5);
    let size = config.bar.font_size;
    let baseline = 6 * PIXEL + (28 * PIXEL - size * 7 / 5) / 2 + PIXEL;
    assert_eq!(y(&top.draws[2]), (12 * PIXEL, baseline));
    let width = |count: i64| count * size * 3 / 5;
    assert_eq!(y(&top.draws[3]), ((900 * PIXEL - width(17)) / 2, baseline));
    assert_eq!(y(&top.draws[4]), (888 * PIXEL - width(9), baseline));
}

#[test]
fn the_samples_have_their_files() {
    assert_eq!((TOP_FILE, BOTTOM_FILE), ("preview-top.png", "preview-bottom.png"));
}
