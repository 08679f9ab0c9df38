use quickbar::config::Rgba;
use quickbar::geometry::{round_px, PIXEL};
use quickbar::pixmap::{composite, Glyph};
use quickbar::render::{
    extent, fill_rect, fill_rect_round_bottom, fill_round_rect, Renderer, Run, Segment, Shape,
};
use tiny_skia::{
    Color, FillRule, Paint, PathBuilder, Pixmap, PremultipliedColorU8, Rect, Transform,
};

/// A monospace font: every character is three fifths of the size wide.
fn shape(text: &str, size: i64) -> Vec<Run> {
    let count = text.chars().count() as i64;
    vec![Run { width: count * size * 3 / 5, top: 0, height: size * 7 / 5 }]
}

/// A block of pixels for each character that is not a space.
fn rasterize(text: &str, size: i64, color: Rgba) -> Vec<Glyph> {
    let advance = (size * 3 / 5 / PIXEL) as i32;
    let height = (size / PIXEL) as i32;
    let mut glyphs = Vec::new();
    for (index, character) in text.chars().enumerate() {
        if character == ' ' {
            continue;
        }
        for y in 2..height {
            for x in 1..advance {
                glyphs.push(Glyph { x: index as i32 * advance + x, y, color });
            }
        }
    }
    glyphs
}

fn pixels(length: i64) -> f32 {
    (length as f64 / PIXEL as f64) as f32
}

fn fill(canvas: &mut Pixmap, shape: &Shape, color: Rgba) {
    let mut paint = Paint::default();
    paint.set_color(Color::from_rgba8(color.r, color.g, color.b, color.a));
    paint.anti_alias = true;
    match shape {
        Shape::Nothing => {}
        Shape::Rect { x, y, width, height } => {
            let rect = Rect::from_xywh(pixels(*x), pixels(*y), pixels(*width), pixels(*height));
            canvas.fill_rect(rect.unwrap(), &paint, Transform::identity(), None);
        }
        Shape::Path(segments) => {
            let mut path = PathBuilder::new();
            for segment in segments {
                match *segment {
                    Segment::MoveTo { x, y } => path.move_to(pixels(x), pixels(y)),
                    Segment::LineTo { x, y } => path.line_to(pixels(x), pixels(y)),
                    Segment::QuadTo { cx, cy, x, y } => {
                        path.quad_to(pixels(cx), pixels(cy), pixels(x), pixels(y))
                    }
                    Segment::Close => path.close(),
                }
            }
            let path = path.finish().unwrap();
            canvas.fill_path(&path, &paint, FillRule::Winding, Transform::identity(), None);
        }
    }
}

fn red() -> Rgba {
    Rgba::new(0xff, 0x00, 0x00, 0xff)
}

fn white() -> Rgba {
    Rgba::new(0xff, 0xff, 0xff, 0xff)
}

fn pixmap(width: u32, height: u32) -> Pixmap {
    Pixmap::new(width, height).unwrap()
}

fn px(pixmap: &Pixmap, x: u32, y: u32) -> PremultipliedColorU8 {
    pixmap.pixels()[(y * pixmap.width() + x) as usize]
}

fn painted_pixels(pixmap: &Pixmap) -> usize {
    pixmap.pixels().iter().filter(|p| p.alpha() > 0).count()
}

#[test]
fn rect_fills_exactly_the_requested_area() {
    let mut canvas = pixmap(10, 10);
    fill(&mut canvas, &fill_rect(2 * PIXEL, 3 * PIXEL, 4 * PIXEL, 2 * PIXEL), red());

    assert_eq!(px(&canvas, 2, 3).alpha(), 255, "top-left is inside");
    assert_eq!(px(&canvas, 5, 4).alpha(), 255, "bottom-right is inside");
    assert_eq!(px(&canvas, 1, 3).alpha(), 0, "left of the rect is untouched");
    assert_eq!(px(&canvas, 6, 4).alpha(), 0, "right of the rect is untouched");
    assert_eq!(px(&canvas, 2, 2).alpha(), 0, "above the rect is untouched");
    assert_eq!(px(&canvas, 2, 5).alpha(), 0, "below the rect is untouched");
}

#[test]
fn degenerate_rects_draw_nothing() {
    let mut canvas = pixmap(4, 4);
    fill(&mut canvas, &fill_rect(PIXEL, PIXEL, 0, 2 * PIXEL), red());
    fill(&mut canvas, &fill_rect(PIXEL, PIXEL, 2 * PIXEL, -PIXEL), red());
    assert_eq!(painted_pixels(&canvas), 0);

    assert_eq!(fill_rect(PIXEL, PIXEL, 0, 2 * PIXEL), Shape::Nothing);
    assert_eq!(fill_round_rect(0, 0, 2 * PIXEL, 0, PIXEL), Shape::Nothing);
    assert_eq!(fill_rect_round_bottom(0, 0, -PIXEL, PIXEL, PIXEL), Shape::Nothing);
}

#[test]
fn round_rect_clips_the_corners_only() {
    let side = 20 * PIXEL;
    let mut rounded = pixmap(20, 20);
    fill(&mut rounded, &fill_round_rect(0, 0, side, side, 8 * PIXEL), red());
    assert!(
        px(&rounded, 0, 0).alpha() < 8,
        "corner should be clipped, got {}",
        px(&rounded, 0, 0).alpha()
    );
    assert_eq!(px(&rounded, 0, 10).alpha(), 255, "left edge mid-height is inside");
    assert_eq!(px(&rounded, 10, 10).alpha(), 255, "centre is inside");
    assert_eq!(px(&rounded, 10, 19).alpha(), 255, "bottom edge mid-width is inside");

    let mut square = pixmap(20, 20);
    fill(&mut square, &fill_round_rect(0, 0, side, side, 0), red());
    assert_eq!(px(&square, 0, 0).alpha(), 255, "radius 0 keeps the corner");
    assert_eq!(px(&square, 19, 19).alpha(), 255);
}

#[test]
fn oversized_radius_degrades_to_a_rounded_square() {
    let side = 20 * PIXEL;
    let mut canvas = pixmap(20, 20);
    fill(&mut canvas, &fill_round_rect(0, 0, side, side, 500 * PIXEL), red());
    assert_eq!(px(&canvas, 10, 10).alpha(), 255, "still filled in the middle");
    assert!(px(&canvas, 0, 0).alpha() < 8, "corner still clipped");

    assert_eq!(
        fill_round_rect(0, 0, side, side, 500 * PIXEL),
        fill_round_rect(0, 0, side, side, 10 * PIXEL),
        "the radius is held to half the side"
    );
}

#[test]
fn translucent_fill_blends_with_what_is_underneath() {
    let mut canvas = pixmap(2, 2);
    let all = fill_rect(0, 0, 2 * PIXEL, 2 * PIXEL);
    fill(&mut canvas, &all, Rgba::new(0, 0, 0, 0xff));
    fill(&mut canvas, &all, Rgba::new(0xff, 0xff, 0xff, 0x80));

    let blended = px(&canvas, 0, 0);
    assert_eq!(blended.alpha(), 255, "opaque backdrop stays opaque");
    assert!(
        (i32::from(blended.red()) - 0x80).abs() <= 2,
        "half-transparent white over black should be ~0x80, got 0x{:02x}",
        blended.red()
    );
}

#[test]
fn a_bottom_rounded_rect_is_square_on_top_and_round_below() {
    let side = 20 * PIXEL;
    let mut canvas = pixmap(20, 20);
    fill(&mut canvas, &fill_rect_round_bottom(0, 0, side, side, 8 * PIXEL), red());

    assert_eq!(px(&canvas, 0, 0).alpha(), 255, "the top-left corner stays square");
    assert_eq!(px(&canvas, 19, 0).alpha(), 255, "the top-right corner stays square");
    assert!(
        px(&canvas, 0, 19).alpha() < 8,
        "the bottom-left corner is rounded, got {}",
        px(&canvas, 0, 19).alpha()
    );
    assert_eq!(px(&canvas, 10, 0).alpha(), 255);
    assert_eq!(px(&canvas, 10, 19).alpha(), 255);
}

#[test]
fn a_translucent_shape_is_not_blended_with_itself() {
    // Two passes of the same colour, as a rounded rect plus a squaring rect
    // would be, would leave the overlap more opaque than the rest.
    let half = Rgba::new(0xff, 0xff, 0xff, 0x80);
    let side = 20 * PIXEL;

    let mut once = pixmap(20, 20);
    fill(&mut once, &fill_rect_round_bottom(0, 0, side, side, 8 * PIXEL), half);

    assert_eq!(px(&once, 10, 5).alpha(), 0x80, "a single pass keeps the alpha");
    assert_eq!(px(&once, 10, 15).alpha(), 0x80);
}

#[test]
fn a_round_rect_is_outlined_clockwise() {
    let shape = fill_round_rect(PIXEL, 2 * PIXEL, 30 * PIXEL, 20 * PIXEL, 4 * PIXEL);
    let expected = vec![
        Segment::MoveTo { x: 5 * PIXEL, y: 2 * PIXEL },
        Segment::LineTo { x: 27 * PIXEL, y: 2 * PIXEL },
        Segment::QuadTo { cx: 31 * PIXEL, cy: 2 * PIXEL, x: 31 * PIXEL, y: 6 * PIXEL },
        Segment::LineTo { x: 31 * PIXEL, y: 18 * PIXEL },
        Segment::QuadTo { cx: 31 * PIXEL, cy: 22 * PIXEL, x: 27 * PIXEL, y: 22 * PIXEL },
        Segment::LineTo { x: 5 * PIXEL, y: 22 * PIXEL },
        Segment::QuadTo { cx: PIXEL, cy: 22 * PIXEL, x: PIXEL, y: 18 * PIXEL },
        Segment::LineTo { x: PIXEL, y: 6 * PIXEL },
        Segment::QuadTo { cx: PIXEL, cy: 2 * PIXEL, x: 5 * PIXEL, y: 2 * PIXEL },
        Segment::Close,
    ];
    assert_eq!(shape, Shape::Path(expected));
}

#[test]
fn a_bottom_radius_is_held_to_half_the_width_and_the_height() {
    let flat = fill_rect_round_bottom(0, 0, 40 * PIXEL, 3 * PIXEL, 10 * PIXEL);
    assert_eq!(flat, fill_rect_round_bottom(0, 0, 40 * PIXEL, 3 * PIXEL, 3 * PIXEL));
    let narrow = fill_rect_round_bottom(0, 0, 4 * PIXEL, 30 * PIXEL, 10 * PIXEL);
    assert_eq!(narrow, fill_rect_round_bottom(0, 0, 4 * PIXEL, 30 * PIXEL, 2 * PIXEL));
    assert_eq!(
        fill_rect_round_bottom(0, 0, 4 * PIXEL, 4 * PIXEL, 0),
        Shape::Rect { x: 0, y: 0, width: 4 * PIXEL, height: 4 * PIXEL }
    );
}

#[test]
fn text_measures_wider_as_it_grows() {
    let renderer = Renderer::new(shape);

    assert_eq!(renderer.measure_text("", 14 * PIXEL), (0, 0));

    let (short_w, short_h) = renderer.measure_text("quickbar", 14 * PIXEL);
    assert!(short_w > 0, "expected a positive width, got {short_w}");
    assert!(short_h > 0, "expected a positive height, got {short_h}");

    let (long_w, _) = renderer.measure_text("quickbar is longer", 14 * PIXEL);
    assert!(long_w > short_w, "{long_w} should exceed {short_w}");

    let (big_w, _) = renderer.measure_text("quickbar", 28 * PIXEL);
    assert!(big_w > short_w, "a larger font should measure wider");
}

#[test]
fn text_is_as_large_as_its_widest_and_lowest_runs() {
    let runs = [
        Run { width: 5, top: 0, height: 10 },
        Run { width: 9, top: 10, height: 10 },
        Run { width: -3, top: 20, height: 7 },
    ];
    assert_eq!(extent(&runs), (9, 27));
    assert_eq!(extent(&[]), (0, 0));
    assert_eq!(extent(&[Run { width: -3, top: -9, height: 2 }]), (0, 0));
    let far = Run { width: i64::MAX, top: i64::MAX - 5, height: 5 };
    assert_eq!(extent(&[far]), (i64::MAX, i64::MAX));
}

#[test]
fn text_measures_what_it_is_laid_out_to_however_wide() {
    let wide = |text: &str, _size: i64| {
        let width = text.chars().count() as i64 * (1 << 61);
        vec![Run { width, top: 1 << 61, height: 1 << 61 }]
    };
    let renderer = Renderer::new(wide);

    assert_eq!(renderer.measure_text("abc", PIXEL), (3 << 61, 1 << 62));
    assert_eq!(renderer.shorten("abc", i64::MAX, PIXEL), "abc");
    assert_eq!(renderer.shorten("abc", (3 << 61) - 1, PIXEL), "a…");
    assert_eq!(renderer.shorten("abc", 1 << 61, PIXEL), "…");
    assert_eq!(renderer.shorten("abc", (1 << 61) - 1, PIXEL), "");
}

#[test]
fn a_line_is_seven_fifths_of_the_size_and_at_least_a_pixel() {
    let renderer = Renderer::new(shape);
    assert_eq!(renderer.line_height(10 * PIXEL), 14 * PIXEL);
    assert_eq!(renderer.line_height(PIXEL / 2), PIXEL);
    assert_eq!(renderer.line_height(-5 * PIXEL), PIXEL);
    assert_eq!(renderer.line_height(i64::MIN), PIXEL);
    assert_eq!(renderer.line_height(5 * (1 << 60)), 7 * (1 << 60));
}

#[test]
fn text_paints_pixels_where_it_is_drawn() {
    let renderer = Renderer::new(shape);
    let mut canvas = pixmap(200, 40);

    renderer.draw_text(
        &mut canvas,
        "quickbar",
        4 * PIXEL,
        4 * PIXEL,
        14 * PIXEL,
        white(),
        rasterize,
    );

    assert!(
        painted_pixels(&canvas) > 20,
        "expected glyph pixels, found {}",
        painted_pixels(&canvas)
    );
    assert_eq!(px(&canvas, 0, 0).alpha(), 0, "nothing outside the text box");
}

#[test]
fn text_is_clipped_instead_of_panicking_off_screen() {
    let renderer = Renderer::new(shape);
    let mut canvas = pixmap(20, 20);

    for at in [-500 * PIXEL, 500 * PIXEL, i64::MIN, i64::MAX] {
        renderer.draw_text(&mut canvas, "clipped", at, at, 14 * PIXEL, white(), rasterize);
    }

    assert_eq!(painted_pixels(&canvas), 0, "fully off-screen text paints nothing");
}

#[test]
fn partially_visible_text_paints_only_inside_the_canvas() {
    let renderer = Renderer::new(shape);
    let mut canvas = pixmap(200, 12);

    // Top 6px of the glyphs fall above the canvas.
    renderer.draw_text(
        &mut canvas,
        "clipped",
        4 * PIXEL,
        -6 * PIXEL,
        14 * PIXEL,
        white(),
        rasterize,
    );

    let painted = painted_pixels(&canvas);
    assert!(painted > 0, "the visible part should still be drawn");
    assert!(painted < 200 * 12, "nothing is painted beyond the canvas");
}

#[test]
fn empty_text_draws_nothing() {
    let renderer = Renderer::new(shape);
    let mut canvas = pixmap(20, 20);
    let stray = |_: &str, _: i64, color: Rgba| vec![Glyph { x: 0, y: 0, color }];
    renderer.draw_text(&mut canvas, "", 0, 0, 14 * PIXEL, white(), stray);
    assert_eq!(painted_pixels(&canvas), 0);
}

#[test]
fn text_starts_at_the_nearest_pixel() {
    let renderer = Renderer::new(shape);
    let dot = |_: &str, _: i64, color: Rgba| vec![Glyph { x: 1, y: 2, color }];
    let mut canvas = pixmap(20, 20);
    let (x, y) = (3 * PIXEL + PIXEL / 2, 4 * PIXEL + PIXEL / 2 - 1);
    renderer.draw_text(&mut canvas, ".", x, y, PIXEL, white(), dot);
    assert_eq!(painted_pixels(&canvas), 1);
    assert_eq!(px(&canvas, 5, 6).alpha(), 255);
}

#[test]
fn lengths_round_to_the_nearest_pixel_and_halves_away_from_zero() {
    assert_eq!(round_px(PIXEL / 2), 1);
    assert_eq!(round_px(PIXEL / 2 - 1), 0);
    assert_eq!(round_px(-(PIXEL / 2)), -1);
    assert_eq!(round_px(-(PIXEL / 2) + 1), 0);
    assert_eq!(round_px(7 * PIXEL), 7);
    assert_eq!(round_px(i64::MAX), i32::MAX);
    assert_eq!(round_px(i64::MIN), i32::MIN);
}

#[test]
fn a_glyph_pixel_is_blended_over_the_destination() {
    let mut canvas = pixmap(3, 2);
    canvas.pixels_mut()[4] = PremultipliedColorU8::from_rgba(40, 80, 120, 200).unwrap();

    composite(&mut canvas, 1, 1, Rgba::new(200, 100, 0, 51));

    // (200 * 51 + 40 * 204) / 255 and so on; 200 + 51 - 200 * 51 / 255.
    let blended = px(&canvas, 1, 1);
    assert_eq!(
        (blended.red(), blended.green(), blended.blue(), blended.alpha()),
        (72, 84, 96, 211)
    );
    assert_eq!(painted_pixels(&canvas), 1, "no other pixel is touched");
}

#[test]
fn an_opaque_glyph_pixel_replaces_the_destination() {
    let mut canvas = pixmap(2, 2);
    canvas.pixels_mut()[0] = PremultipliedColorU8::from_rgba(40, 80, 120, 200).unwrap();
    composite(&mut canvas, 0, 0, Rgba::new(1, 2, 3, 255));
    let pixel = px(&canvas, 0, 0);
    assert_eq!((pixel.red(), pixel.green(), pixel.blue(), pixel.alpha()), (1, 2, 3, 255));
}

#[test]
fn transparent_and_outside_glyph_pixels_are_dropped() {
    let mut canvas = pixmap(2, 2);
    composite(&mut canvas, 0, 0, Rgba::new(9, 9, 9, 0));
    for (x, y) in [(-1, 0), (0, -1), (2, 0), (0, 2)] {
        composite(&mut canvas, x, y, white());
    }
    assert_eq!(painted_pixels(&canvas), 0);
}

#[test]
fn a_blend_that_is_not_premultiplied_leaves_the_destination_alone() {
    let mut canvas = pixmap(1, 1);
    canvas.data_mut().copy_from_slice(&[255, 255, 255, 10]);
    composite(&mut canvas, 0, 0, Rgba::new(255, 255, 255, 100));
    assert_eq!(canvas.data(), &[255, 255, 255, 10]);
}

#[test]
fn shortening_keeps_text_that_already_fits() {
    let renderer = Renderer::new(shape);
    assert_eq!(renderer.shorten("clock", 500 * PIXEL, 13 * PIXEL), "clock");
    assert_eq!(renderer.shorten("clock", 0, 13 * PIXEL), "");
}

#[test]
fn shortening_adds_an_ellipsis_when_it_has_to_cut() {
    let renderer = Renderer::new(shape);
    let shortened = renderer.shorten("a very long module value", 40 * PIXEL, 13 * PIXEL);

    assert!(shortened.ends_with('…'), "got {shortened}");
    assert!(shortened.len() < "a very long module value".len());
    assert!(renderer.measure_text(&shortened, 13 * PIXEL).0 <= 40 * PIXEL);
}

#[test]
fn shortening_cuts_as_late_as_possible() {
    let renderer = Renderer::new(shape);
    // Six pixels a character.
    let size = 10 * PIXEL;
    assert_eq!(renderer.shorten("abcdef", 36 * PIXEL, size), "abcdef");
    assert_eq!(renderer.shorten("abcdef", 36 * PIXEL - 1, size), "abcd…");
    assert_eq!(renderer.shorten("abcdef", 6 * PIXEL, size), "…");
    assert_eq!(renderer.shorten("abcdef", 6 * PIXEL - 1, size), "");
    assert_eq!(renderer.shorten("", 6 * PIXEL, size), "");
}
