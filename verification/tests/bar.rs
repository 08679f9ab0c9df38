use quickbar::app::FULL;
use quickbar::bar::{layout, paint, ModuleValue, MODULE_GAP, PADDING, SEGMENT_GAP};
use quickbar::config::{Align, Bar, Config, Module, Rgba};
use quickbar::geometry::PIXEL;
use quickbar::pixmap::Glyph;
use quickbar::render::{
    fill_rect, fill_rect_round_bottom, fill_round_rect, Draw, Renderer, Run, Segment, Shape, CORNER_RADIUS,
};
use tiny_skia::{Color, FillRule, Paint, PathBuilder, Pixmap, Rect, Transform};

/// A monospace font: every character is three fifths of the size wide.
fn shape(text: &str, size: i64) -> Vec<Run> {
    let count = text.chars().count() as i64;
    vec![Run { width: count * size * 3 / 5, top: 0, height: size * 7 / 5 }]
}

/// A block of pixels for each character that is not a space.
fn rasterize(text: &str, size: i64, color: Rgba) -> Vec<Glyph> {
    let advance = (size * 3 / 5 / PIXEL) as i32;
    let height = (size / PIXEL) as i32;
    let mut glyphs = Vec::new();
    for (index, character) in text.chars().enumerate() {
        if character == ' ' {
            continue;
        }
        for y in 2..height {
            for x in 1..advance {
                glyphs.push(Glyph { x: index as i32 * advance + x, y, color });
            }
        }
    }
    glyphs
}

fn pixels(length: i64) -> f32 {
    (length as f64 / PIXEL as f64) as f32
}

fn fill(canvas: &mut Pixmap, shape: &Shape, color: Rgba) {
    let mut paint = Paint::default();
    paint.set_color(Color::from_rgba8(color.r, color.g, color.b, color.a));
    paint.anti_alias = true;
    match shape {
        Shape::Nothing => {}
        Shape::Rect { x, y, width, height } => {
            let rect = Rect::from_xywh(pixels(*x), pixels(*y), pixels(*width), pixels(*height));
            canvas.fill_rect(rect.unwrap(), &paint, Transform::identity(), None);
        }
        Shape::Path(segments) => {
            let mut path = PathBuilder::new();
            for segment in segments {
                match *segment {
                    Segment::MoveTo { x, y } => path.move_to(pixels(x), pixels(y)),
                    Segment::LineTo { x, y } => path.line_to(pixels(x), pixels(y)),
                    Segment::QuadTo { cx, cy, x, y } => {
                        path.quad_to(pixels(cx), pixels(cy), pixels(x), pixels(y))
                    }
                    Segment::Close => path.close(),
                }
            }
            let path = path.finish().unwrap();
            canvas.fill_path(&path, &paint, FillRule::Winding, Transform::identity(), None);
        }
    }
}

/// Paint a scene.
fn show(canvas: &mut Pixmap, draws: &[Draw]) {
    let renderer = Renderer::new(shape);
    for draw in draws {
        match draw {
            Draw::Rect { x, y, width, height, color } => {
                fill(canvas, &fill_rect(*x, *y, *width, *height), *color)
            }
            Draw::RoundRect { x, y, width, height, radius, color } => {
                fill(canvas, &fill_round_rect(*x, *y, *width, *height, *radius), *color)
            }
            Draw::RoundBottom { x, y, width, height, radius, color } => {
                fill(canvas, &fill_rect_round_bottom(*x, *y, *width, *height, *radius), *color)
            }
            Draw::Text { text, x, y, size, color } => {
                renderer.draw_text(canvas, text, *x, *y, *size, *color, rasterize)
            }
        }
    }
}

const WIDTH: i64 = 600 * PIXEL;

fn module(name: &str, align: Align) -> Module {
    Module {
        name: name.to_string(),
        command: "true".to_string(),
        interval: Some(1),
        align,
        ..Module::default()
    }
}

fn config_with(modules: Vec<Module>) -> Config {
    Config { bar: Bar { module: modules, ..Bar::default() }, ..Config::default() }
}

fn values(texts: &[&str]) -> Vec<ModuleValue> {
    texts.iter().map(|text| ModuleValue { text: text.to_string(), color: None }).collect()
}

fn width_of(text: &str) -> i64 {
    Renderer::new(shape).measure_text(text, Config::default().bar.font_size).0
}

#[test]
fn the_three_segments_anchor_left_centre_and_right() {
    let config = config_with(vec![
        module("a", Align::Left),
        module("b", Align::Center),
        module("c", Align::Right),
    ]);
    let values = values(&["left", "middle", "right"]);
    let renderer = Renderer::new(shape);

    let placed = layout(WIDTH, &config, &values, &renderer);
    assert_eq!(placed.len(), 3);

    assert_eq!(placed[0].x, PADDING, "left segment starts at the padding");

    let middle_width = width_of("middle");
    assert!(
        (placed[1].x - (WIDTH - middle_width) / 2).abs() <= PIXEL,
        "centre segment should be centred, got {}",
        placed[1].x
    );

    let right_width = width_of("right");
    assert!(
        (placed[2].x + right_width - (WIDTH - PADDING)).abs() <= PIXEL,
        "right segment should end at the padding, got {}",
        placed[2].x + right_width
    );
}

#[test]
fn modules_in_a_segment_follow_the_configured_order() {
    let config = config_with(vec![
        module("first", Align::Left),
        module("second", Align::Left),
        module("third", Align::Left),
    ]);
    let values = values(&["one", "two", "three"]);
    let renderer = Renderer::new(shape);

    let placed = layout(WIDTH, &config, &values, &renderer);

    assert_eq!(
        placed.iter().map(|m| m.text.as_str()).collect::<Vec<_>>(),
        ["one", "two", "three"]
    );
    for pair in placed.windows(2) {
        let gap = pair[1].x - (pair[0].x + width_of(&pair[0].text));
        assert!(gap >= MODULE_GAP - PIXEL, "modules overlap, gap was {gap}");
        assert_eq!(gap, MODULE_GAP);
    }
}

#[test]
fn a_module_without_a_value_is_not_drawn() {
    let config = config_with(vec![module("a", Align::Left), module("b", Align::Right)]);
    let values = values(&["", "shown"]);
    let renderer = Renderer::new(shape);

    let placed = layout(WIDTH, &config, &values, &renderer);

    assert_eq!(placed.len(), 1);
    assert_eq!(placed[0].text, "shown");
}

#[test]
fn a_module_that_has_no_value_yet_is_not_drawn() {
    let config = config_with(vec![module("a", Align::Left), module("b", Align::Left)]);
    let placed = layout(WIDTH, &config, &values(&["only"]), &Renderer::new(shape));
    assert_eq!(placed.len(), 1);
    assert_eq!(placed[0].x, PADDING);
    assert_eq!(placed[0].color, config.bar.foreground);
}

#[test]
fn a_module_colour_overrides_the_bar_foreground() {
    let config = config_with(vec![module("a", Align::Left)]);
    let mut values = values(&["battery"]);
    values[0].color = Some(Rgba::new(1, 2, 3, 4));
    let renderer = Renderer::new(shape);

    let placed = layout(WIDTH, &config, &values, &renderer);

    assert_eq!(placed[0].color, Rgba::new(1, 2, 3, 4));
}

#[test]
fn a_configured_colour_gives_way_to_the_foreground_only_when_absent() {
    let mut coloured = module("a", Align::Left);
    coloured.color = Some(Rgba::new(1, 2, 3, 255));
    let config = config_with(vec![coloured, module("b", Align::Left)]);
    let mut values = values(&["x", "y"]);
    let renderer = Renderer::new(shape);

    let placed = layout(WIDTH, &config, &values, &renderer);
    assert_eq!(placed[0].text, "x");
    assert_eq!(placed[0].color, Rgba::new(1, 2, 3, 255));
    assert_eq!(placed[1].color, config.bar.foreground);

    values[0].color = Some(Rgba::new(9, 9, 9, 255));
    let placed = layout(WIDTH, &config, &values, &renderer);
    assert_eq!(placed[0].color, Rgba::new(9, 9, 9, 255), "a reported colour wins");
}

#[test]
fn an_overlong_segment_is_cut_short_of_its_neighbour() {
    let config = config_with(vec![module("wide", Align::Left), module("b", Align::Right)]);
    let long = "x".repeat(400);
    let values = values(&[&long, "right"]);
    let renderer = Renderer::new(shape);

    let placed = layout(WIDTH, &config, &values, &renderer);

    let left = placed.iter().find(|m| m.text.starts_with('x')).unwrap();
    let right = placed.iter().find(|m| m.text == "right").unwrap();
    let left_width = width_of(&left.text);

    assert!(left.text.ends_with('…'), "truncation should be visible: {}", left.text);
    assert!(
        left.x + left_width <= right.x,
        "left segment reached into the right one: {} > {}",
        left.x + left_width,
        right.x
    );
    assert!(left.x + left_width + SEGMENT_GAP <= right.x, "the segments keep their distance");
}

#[test]
fn nothing_is_drawn_outside_the_content_area() {
    let config = config_with(vec![
        module("wide", Align::Left),
        module("also wide", Align::Center),
        module("wide too", Align::Right),
    ]);
    let long = "y".repeat(300);
    let values = values(&[&long, &long, &long]);
    let renderer = Renderer::new(shape);

    let placed = layout(WIDTH, &config, &values, &renderer);

    for module in &placed {
        let width = width_of(&module.text);
        assert!(
            module.x >= PADDING - PIXEL / 2 && module.x + width <= WIDTH - PADDING + PIXEL / 2,
            "`{}` spans {}..{}",
            module.text,
            module.x,
            module.x + width
        );
    }
}

fn pixel(pixmap: &Pixmap, x: u32, y: u32) -> (u8, u8, u8, u8) {
    let px = pixmap.pixels()[(y * pixmap.width() + x) as usize];
    (px.red(), px.green(), px.blue(), px.alpha())
}

fn painted(config: &Config, values: &[ModuleValue], progress: u32) -> Pixmap {
    let surface = (400, config.border.width + config.bar.height);
    let mut canvas = Pixmap::new(surface.0, surface.1).unwrap();
    let renderer = Renderer::new(shape);
    show(&mut canvas, &paint(surface, config, values, &renderer, progress));
    canvas
}

#[test]
fn the_border_row_does_not_bleed_into_the_content_row() {
    let config = Config::default();
    let canvas = painted(&config, &[], FULL);

    let border = config.border.color;
    let expected = (border.r, border.g, border.b, border.a);
    for y in 0..config.border.width {
        for x in 0..canvas.width() {
            assert_eq!(pixel(&canvas, x, y), expected, "border pixel at ({x}, {y})");
        }
    }

    let content_row = config.border.width;
    let bleed = (0..canvas.width())
        .filter(|&x| pixel(&canvas, x, content_row) == expected)
        .count();
    assert_eq!(bleed, 0, "the row below the border must not repeat the border colour");
}

#[test]
fn the_content_area_has_no_notch_below_the_border() {
    let config = Config::default();
    let canvas = painted(&config, &[], FULL);
    let radius = (CORNER_RADIUS / PIXEL) as u32;

    // The rounded top corners must be squared off: every pixel of the content
    // area is opaque, including the ones diagonally below the border ends.
    for y in config.border.width..canvas.height() {
        for x in 0..canvas.width() {
            let alpha = pixel(&canvas, x, y).3;
            // The bottom radius legitimately cuts the last few rows at the ends.
            let in_bottom_radius = y >= canvas.height() - radius;
            let near_edge = x < radius || x >= canvas.width() - radius;
            if in_bottom_radius && near_edge {
                continue;
            }
            assert!(alpha > 0, "transparent notch at ({x}, {y})");
        }
    }
}

#[test]
fn module_text_lands_below_the_border() {
    let config = config_with(vec![module("clock", Align::Center)]);
    let values = values(&["14:03"]);
    let canvas = painted(&config, &values, FULL);

    // Sample the background well clear of the text, then count what differs.
    let background = pixel(&canvas, canvas.width() / 2, canvas.height() - 2);
    let painted = (config.border.width..canvas.height())
        .flat_map(|y| (0..canvas.width()).map(move |x| (x, y)))
        .filter(|&(x, y)| pixel(&canvas, x, y) != background)
        .count();
    assert!(painted > 20, "expected module glyphs, found {painted} non-background pixels");
}

#[test]
fn a_bar_that_is_out_is_one_block_under_a_border_with_its_texts() {
    let config = config_with(vec![module("clock", Align::Left)]);
    let draws =
        paint((400, 34), &config, &values(&["14:03"]), &Renderer::new(shape), FULL);
    let width = 400 * PIXEL;
    let background = config.bar.background;
    let size = config.bar.font_size;
    let line = size * 7 / 5;
    assert_eq!(
        draws,
        [
            Draw::RoundBottom {
                x: 0,
                y: 0,
                width,
                height: 34 * PIXEL,
                radius: 10 * PIXEL,
                color: background
            },
            Draw::Rect { x: 0, y: 0, width, height: 6 * PIXEL, color: config.border.color },
            Draw::Text {
                text: "14:03".to_string(),
                x: 12 * PIXEL,
                y: 6 * PIXEL + (28 * PIXEL - line) / 2,
                size,
                color: config.bar.foreground
            },
        ]
    );
}

#[test]
fn a_translucent_bar_is_equally_opaque_all_over() {
    let config = Config::default();
    let canvas = painted(&config, &[], FULL);
    for y in config.border.width..canvas.height() {
        assert_eq!(pixel(&canvas, 200, y).3, config.bar.background.a, "row {y}");
    }
}

#[test]
fn a_bar_slides_out_from_behind_the_border() {
    let config = config_with(vec![module("clock", Align::Left)]);
    let values = values(&["14:03"]);
    let renderer = Renderer::new(shape);

    let collapsed = paint((400, 34), &config, &values, &renderer, 0);
    let strip = Draw::Rect {
        x: 0,
        y: 0,
        width: 400 * PIXEL,
        height: 6 * PIXEL,
        color: config.border.color,
    };
    assert_eq!(collapsed, [strip.clone()]);

    let halfway = paint((400, 34), &config, &values, &renderer, FULL / 2);
    assert_eq!(halfway.len(), 2, "the text is still behind the border");
    assert!(matches!(halfway[0], Draw::RoundBottom { y, .. } if y == -14 * PIXEL));
    assert_eq!(halfway[1], strip);

    let canvas = painted(&config, &values, FULL / 2);
    assert!(pixel(&canvas, 200, 19).3 > 0, "half of the bar is out");
    assert_eq!(pixel(&canvas, 200, 20).3, 0, "and the other half is not");
}

#[test]
fn a_long_module_only_costs_its_own_segment() {
    let config = config_with(vec![
        module("a", Align::Left),
        module("b", Align::Center),
        module("c", Align::Right),
    ]);
    let renderer = Renderer::new(shape);
    let long = "x".repeat(400);
    let short = layout(WIDTH, &config, &values(&["a", "middle", "right"]), &renderer);
    let left = layout(WIDTH, &config, &values(&[&long, "middle", "right"]), &renderer);
    assert_eq!(short[1..], left[1..]);
    let right = layout(WIDTH, &config, &values(&["a", "middle", &long]), &renderer);
    assert_eq!(short[..2], right[..2]);
}

#[test]
fn a_dropped_module_does_not_shift_the_colours_after_it() {
    let config = config_with(vec![
        module("a", Align::Left),
        module("b", Align::Left),
        module("c", Align::Left),
    ]);
    let mut values = values(&["first", "\u{200b}", "third"]);
    for (index, value) in values.iter_mut().enumerate() {
        value.color = Some(Rgba::new(index as u8, 0, 0, 0xff));
    }
    // A font that has no width for one character.
    let renderer = Renderer::new(|text: &str, size: i64| {
        let count = text.chars().filter(|character| *character != '\u{200b}').count() as i64;
        vec![Run { width: count * size, top: 0, height: size }]
    });

    let placed = layout(WIDTH, &config, &values, &renderer);

    let shown: Vec<(&str, u8)> =
        placed.iter().map(|module| (module.text.as_str(), module.color.r)).collect();
    assert_eq!(shown, [("first", 0), ("third", 2)]);
}

#[test]
fn a_segment_ends_where_no_room_is_left() {
    let config = config_with(vec![module("a", Align::Left), module("b", Align::Left)]);
    let long = "x".repeat(400);
    let placed = layout(WIDTH, &config, &values(&[&long, "lost"]), &Renderer::new(shape));
    assert_eq!(placed.len(), 1);
    assert!(placed[0].text.ends_with('…'));
}
