//! Text measuring and shortening, and the shapes that drawing is made of.

use vstd::prelude::*;
use vstd::string::*;

use tiny_skia::Pixmap;

use crate::config::Rgba;
use crate::geometry::{
    clamped_to_i32, half, in_range, larger, min_length, nearest_pixel, round_px, smaller,
    LENGTH_MAX, PIXEL,
};
use crate::pixmap::{draw_glyphs, drawn, pixmap_data, pixmap_height, pixmap_width, Glyph};

verus! {

/// Corner radius used where a panel meets the desktop.
pub const CORNER_RADIUS: i64 = 10 * PIXEL;

/// One laid-out line of text, as the shaping engine reports it.
#[derive(Debug, Clone, Copy, PartialEq, Eq, Structural)]
pub struct Run {
    pub width: i64,
    pub top: i64,
    pub height: i64,
}

/// Height of one line at `size`, including leading: 1.4 times the size, and at
/// least a pixel.
pub open spec fn line_height_at(size: int) -> int {
    larger(size * 7 / 5, PIXEL as int)
}

/// Height of one line at `size`, including leading.
pub fn line_height(size: i64) -> (height: i64)
    requires
        line_height_at(size as int) <= i64::MAX,
    ensures
        height == line_height_at(size as int),
{
    let scaled: i128 = (size as i128) * 7;
    if scaled < 5 * (PIXEL as i128) {
        return PIXEL;
    }
    (scaled / 5) as i64
}

/// The widest of the runs, and never less than nothing.
pub open spec fn widest(runs: Seq<Run>) -> int
    decreases runs.len(),
{
    if runs.len() == 0 {
        0
    } else {
        larger(widest(runs.drop_last()), runs.last().width as int)
    }
}

/// Where the lowest of the runs ends, and never less than nothing.
pub open spec fn lowest(runs: Seq<Run>) -> int
    decreases runs.len(),
{
    if runs.len() == 0 {
        0
    } else {
        larger(lowest(runs.drop_last()), runs.last().top + runs.last().height)
    }
}

/// The extent of laid-out text: as wide as its widest run and as tall as its
/// lowest one reaches.
pub fn extent(runs: &[Run]) -> (size: (i64, i64))
    requires
        lowest(runs@) <= i64::MAX,
    ensures
        size.0 == widest(runs@),
        size.1 == lowest(runs@),
{
    let mut width: i64 = 0;
    let mut height: i128 = 0;
    let mut index: usize = 0;
    assert(runs@.take(0) =~= Seq::<Run>::empty());
    while index < runs.len()
        invariant
            0 <= index <= runs@.len(),
            width == widest(runs@.take(index as int)),
            height == lowest(runs@.take(index as int)),
        decreases runs.len() - index,
    {
        let run = runs[index];
        let bottom: i128 = (run.top as i128) + (run.height as i128);
        assert(runs@.take(index as int + 1).drop_last() =~= runs@.take(index as int));
        if run.width > width {
            width = run.width;
        }
        if bottom > height {
            height = bottom;
        }
        index = index + 1;
    }
    assert(runs@.take(index as int) =~= runs@);
    proof {
        lemma_extent_positive(runs@);
    }
    (width, height as i64)
}

proof fn lemma_extent_positive(runs: Seq<Run>)
    ensures
        widest(runs) >= 0,
        lowest(runs) >= 0,
    decreases runs.len(),
{
    if runs.len() > 0 {
        lemma_extent_positive(runs.drop_last());
    }
}

proof fn lemma_widest_in_range(runs: Seq<Run>)
    requires
        forall|i: int| 0 <= i < runs.len() ==> (#[trigger] runs[i]).width <= LENGTH_MAX,
    ensures
        widest(runs) <= LENGTH_MAX,
    decreases runs.len(),
{
    if runs.len() > 0 {
        assert forall|i: int| 0 <= i < runs.drop_last().len() implies (
        #[trigger] runs.drop_last()[i]).width <= LENGTH_MAX by {
            assert(runs.drop_last()[i] == runs[i]);
        }
        lemma_widest_in_range(runs.drop_last());
        assert(runs[runs.len() - 1].width <= LENGTH_MAX);
    }
}

/// Lays text out with `shape`, which turns a text and a font size into runs.
pub struct Renderer<F> {
    shape: F,
}

/// True of a shaping function all of whose runs have widths that can be added up.
pub open spec fn shapes_in_range<F: Fn(&str, i64) -> Vec<Run>>(shape: F) -> bool {
    forall|text: &str, size: i64, runs: Vec<Run>, i: int| #[trigger]
        call_ensures(shape, (text, size), runs) && 0 <= i < runs@.len() ==> (
        #[trigger] runs@[i]).width <= LENGTH_MAX
}

/// True of a shaping function that takes every text, that gives the same runs for
/// the same text and size, and whose runs end where a length can reach.
pub open spec fn shapes<F: Fn(&str, i64) -> Vec<Run>>(shape: F) -> bool {
    &&& forall|text: &str, size: i64| call_requires(shape, (text, size))
    &&& forall|text: &str, size: i64, runs: Vec<Run>| #[trigger]
        call_ensures(shape, (text, size), runs) ==> lowest(runs@) <= i64::MAX
    &&& forall|a: &str, b: &str, size: i64, first: Vec<Run>, second: Vec<Run>|
        a@ == b@ && #[trigger] call_ensures(shape, (a, size), first) && #[trigger] call_ensures(
            shape,
            (b, size),
            second,
        ) ==> first@ == second@
}

/// The runs `shape` gives for a text.
pub open spec fn runs_of<F: Fn(&str, i64) -> Vec<Run>>(
    shape: F,
    text: Seq<char>,
    size: i64,
) -> Seq<Run> {
    choose|runs: Seq<Run>| gives(shape, text, size, runs)
}

/// `shape` may give `runs` for `text`.
pub open spec fn gives<F: Fn(&str, i64) -> Vec<Run>>(
    shape: F,
    text: Seq<char>,
    size: i64,
    runs: Seq<Run>,
) -> bool {
    exists|asked: &str, answer: Vec<Run>|
        asked@ == text && #[trigger] call_ensures(shape, (asked, size), answer) && answer@ == runs
}

impl<F: Fn(&str, i64) -> Vec<Run>> Renderer<F> {
    /// The shaping function.
    pub closed spec fn shape(self) -> F {
        self.shape
    }

    /// True of a renderer that can measure every text.
    pub open spec fn measures(self) -> bool {
        shapes(self.shape())
    }

    /// True of a renderer that can measure every text, and whose widths can be
    /// added up.
    pub open spec fn wf(self) -> bool {
        self.measures() && shapes_in_range(self.shape())
    }

    /// The width `text` measures at `size`.
    pub open spec fn width_of(self, text: Seq<char>, size: i64) -> int {
        if text.len() == 0 {
            0
        } else {
            widest(runs_of(self.shape(), text, size))
        }
    }

    /// The height `text` measures at `size`.
    pub open spec fn height_of(self, text: Seq<char>, size: i64) -> int {
        if text.len() == 0 {
            0
        } else {
            lowest(runs_of(self.shape(), text, size))
        }
    }

    pub fn new(shape: F) -> (renderer: Self)
        ensures
            renderer.shape() == shape,
    {
        Renderer { shape }
    }

    /// Height of one line at `size`, including leading.
    pub fn line_height(&self, size: i64) -> (height: i64)
        requires
            line_height_at(size as int) <= i64::MAX,
        ensures
            height == line_height_at(size as int),
    {
        line_height(size)
    }

    /// The size `text` occupies at `size`.
    ///
    /// Empty text measures as zero so that a module with no value takes no room
    /// in the status bar.
    pub fn measure_text(&self, text: &str, size: i64) -> (measured: (i64, i64))
        requires
            self.measures(),
        ensures
            measured.0 == self.width_of(text@, size),
            measured.1 == self.height_of(text@, size),
            0 <= measured.0,
            0 <= measured.1,
            self.wf() ==> measured.0 <= LENGTH_MAX,
    {
        if text.is_empty() {
            return (0, 0);
        }
        let runs = (self.shape)(text, size);
        proof {
            assert(gives(self.shape(), text@, size, runs@));
            let chosen = runs_of(self.shape(), text@, size);
            assert(gives(self.shape(), text@, size, chosen));
            lemma_extent_positive(runs@);
            if self.wf() {
                lemma_widest_in_range(runs@);
            }
        }
        extent(runs.as_slice())
    }

    /// How many leading characters of `text` are kept when `keep` is left for
    /// them: characters are taken one at a time, from the `from`-th on, for as
    /// long as what is taken measures no more than `keep`.
    pub open spec fn kept_from(self, text: Seq<char>, keep: int, size: i64, from: int) -> int
        decreases text.len() - from,
    {
        if from < text.len() && self.width_of(text.take(from + 1), size) <= keep {
            self.kept_from(text, keep, size, from + 1)
        } else {
            from
        }
    }

    /// `text` shortened to `budget`.
    pub open spec fn shortened(self, text: Seq<char>, budget: int, size: i64) -> Seq<char> {
        let marker = self.width_of("…"@, size);
        if budget <= 0 || text.len() == 0 {
            Seq::empty()
        } else if self.width_of(text, size) <= budget {
            text
        } else if marker > budget {
            Seq::empty()
        } else {
            text.take(self.kept_from(text, budget - marker, size, 0)) + "…"@
        }
    }

    /// Shorten `text` to fit `budget`, marking the cut with an ellipsis.
    ///
    /// Returns an empty string when not even the ellipsis fits.
    pub fn shorten(&self, text: &str, budget: i64, size: i64) -> (shortened: String)
        requires
            self.measures(),
        ensures
            shortened@ == self.shortened(text@, budget as int, size),
    {
        if budget <= 0 || text.is_empty() {
            return String::new();
        }
        if self.measure_text(text, size).0 <= budget {
            return text.to_owned();
        }
        let marker_width: i64 = self.measure_text("…", size).0;
        if marker_width > budget {
            return String::new();
        }
        let keep: i64 = budget - marker_width;
        let count: usize = text.unicode_len();
        let mut kept: usize = 0;
        while kept < count
            invariant_except_break
                self.kept_from(text@, keep as int, size, 0) == self.kept_from(
                    text@,
                    keep as int,
                    size,
                    kept as int,
                ),
            invariant
                self.measures(),
                count == text@.len(),
                0 <= kept <= count,
            ensures
                self.kept_from(text@, keep as int, size, 0) == kept,
            decreases count - kept,
        {
            let candidate = text.substring_char(0, kept + 1);
            assert(candidate@ =~= text@.take(kept as int + 1));
            if self.measure_text(candidate, size).0 > keep {
                break;
            }
            kept = kept + 1;
        }
        let mut shortened = text.substring_char(0, kept).to_owned();
        assert(shortened@ =~= text@.take(kept as int));
        shortened.append("…");
        shortened
    }

    /// Draw `text` with its top-left corner at `(x, y)`, as `rasterize` turns it
    /// into pixels.
    ///
    /// Pixels outside `pixmap` are dropped, so callers may pass text that runs
    /// off the edge without clipping it themselves.
    pub fn draw_text<R: Fn(&str, i64, Rgba) -> Vec<Glyph>>(
        &self,
        pixmap: &mut Pixmap,
        text: &str,
        x: i64,
        y: i64,
        size: i64,
        color: Rgba,
        rasterize: R,
    )
        requires
            text@.len() > 0 ==> call_requires(rasterize, (text, size, color)),
        ensures
            text@.len() == 0 ==> pixmap_data(*final(pixmap)) == pixmap_data(*old(pixmap)),
            text@.len() > 0 ==> exists|glyphs: Vec<Glyph>| #[trigger]
                call_ensures(rasterize, (text, size, color), glyphs) && pixmap_data(
                    *final(pixmap),
                ) == drawn(
                    pixmap_data(*old(pixmap)),
                    pixmap_width(*old(pixmap)),
                    pixmap_height(*old(pixmap)),
                    clamped_to_i32(nearest_pixel(x as int)),
                    clamped_to_i32(nearest_pixel(y as int)),
                    glyphs@,
                ),
            pixmap_width(*final(pixmap)) == pixmap_width(*old(pixmap)),
            pixmap_height(*final(pixmap)) == pixmap_height(*old(pixmap)),
    {
        if text.is_empty() {
            return;
        }
        let glyphs = rasterize(text, size, color);
        draw_glyphs(pixmap, round_px(x), round_px(y), glyphs.as_slice());
    }
}

/// One step of an outline.
#[derive(Debug, Clone, Copy, PartialEq, Eq)]
pub enum Segment<N> {
    MoveTo { x: N, y: N },
    LineTo { x: N, y: N },
    /// A curve to `(x, y)` that is pulled towards `(cx, cy)`.
    QuadTo { cx: N, cy: N, x: N, y: N },
    Close,
}

impl View for Segment<i64> {
    type V = Segment<int>;

    open spec fn view(&self) -> Segment<int> {
        match *self {
            Segment::MoveTo { x, y } => Segment::MoveTo { x: x as int, y: y as int },
            Segment::LineTo { x, y } => Segment::LineTo { x: x as int, y: y as int },
            Segment::QuadTo { cx, cy, x, y } => Segment::QuadTo {
                cx: cx as int,
                cy: cy as int,
                x: x as int,
                y: y as int,
            },
            Segment::Close => Segment::Close,
        }
    }
}

/// What a fill covers.
#[derive(Debug, Clone, PartialEq, Eq)]
pub enum Shape {
    Nothing,
    Rect { x: i64, y: i64, width: i64, height: i64 },
    Path(Vec<Segment<i64>>),
}

/// The steps of an outline.
pub open spec fn outline(path: Seq<Segment<i64>>) -> Seq<Segment<int>> {
    Seq::new(path.len(), |i: int| path[i]@)
}

/// Rectangles with non-positive sides cannot be drawn.
pub open spec fn is_drawable(width: int, height: int) -> bool {
    width > 0 && height > 0
}

/// The outline of a rectangle with four rounded corners, clockwise from the top
/// left.
pub open spec fn round_rect_outline(
    x: int,
    y: int,
    width: int,
    height: int,
    radius: int,
) -> Seq<Segment<int>> {
    let right = x + width;
    let bottom = y + height;
    seq![
        Segment::MoveTo { x: x + radius, y },
        Segment::LineTo { x: right - radius, y },
        Segment::QuadTo { cx: right, cy: y, x: right, y: y + radius },
        Segment::LineTo { x: right, y: bottom - radius },
        Segment::QuadTo { cx: right, cy: bottom, x: right - radius, y: bottom },
        Segment::LineTo { x: x + radius, y: bottom },
        Segment::QuadTo { cx: x, cy: bottom, x, y: bottom - radius },
        Segment::LineTo { x, y: y + radius },
        Segment::QuadTo { cx: x, cy: y, x: x + radius, y },
        Segment::Close,
    ]
}

/// The outline of a rectangle with square corners on top and round ones below.
pub open spec fn round_bottom_outline(
    x: int,
    y: int,
    width: int,
    height: int,
    radius: int,
) -> Seq<Segment<int>> {
    let right = x + width;
    let bottom = y + height;
    seq![
        Segment::MoveTo { x, y },
        Segment::LineTo { x: right, y },
        Segment::LineTo { x: right, y: bottom - radius },
        Segment::QuadTo { cx: right, cy: bottom, x: right - radius, y: bottom },
        Segment::LineTo { x: x + radius, y: bottom },
        Segment::QuadTo { cx: x, cy: bottom, x, y: bottom - radius },
        Segment::Close,
    ]
}

/// The radius of four corners, held to half the shorter side.
pub open spec fn corner_radius(width: int, height: int, radius: int) -> int {
    smaller(smaller(radius, width / 2), height / 2)
}

/// The radius of the two lower corners, held to half the width and the height.
pub open spec fn bottom_radius(width: int, height: int, radius: int) -> int {
    smaller(smaller(radius, width / 2), height)
}

fn drawable(width: i64, height: i64) -> (drawable: bool)
    ensures
        drawable == is_drawable(width as int, height as int),
{
    width > 0 && height > 0
}

/// Fill an axis-aligned rectangle.
pub fn fill_rect(x: i64, y: i64, width: i64, height: i64) -> (shape: Shape)
    ensures
        shape == if is_drawable(width as int, height as int) {
            Shape::Rect { x, y, width, height }
        } else {
            Shape::Nothing
        },
{
    if !drawable(width, height) {
        return Shape::Nothing;
    }
    Shape::Rect { x, y, width, height }
}

/// Fill a rectangle whose corners are rounded by `radius`, clamped to half the
/// shorter side so oversized radii degrade to a rectangle rather than a bowtie.
pub fn fill_round_rect(x: i64, y: i64, width: i64, height: i64, radius: i64) -> (shape: Shape)
    requires
        in_range(x as int),
        in_range(y as int),
        in_range(width as int),
        in_range(height as int),
    ensures
        ({
            let rounding = corner_radius(width as int, height as int, radius as int);
            if !is_drawable(width as int, height as int) {
                shape is Nothing
            } else if rounding <= 0 {
                shape == (Shape::Rect { x, y, width, height })
            } else {
                shape is Path && outline(shape->Path_0@) == round_rect_outline(
                    x as int,
                    y as int,
                    width as int,
                    height as int,
                    rounding,
                )
            }
        }),
{
    if !drawable(width, height) {
        return Shape::Nothing;
    }
    let radius: i64 = min_length(min_length(radius, half(width)), half(height));
    if radius <= 0 {
        return fill_rect(x, y, width, height);
    }
    let right: i64 = x + width;
    let bottom: i64 = y + height;
    let mut path: Vec<Segment<i64>> = Vec::new();
    path.push(Segment::MoveTo { x: x + radius, y });
    path.push(Segment::LineTo { x: right - radius, y });
    path.push(Segment::QuadTo { cx: right, cy: y, x: right, y: y + radius });
    path.push(Segment::LineTo { x: right, y: bottom - radius });
    path.push(Segment::QuadTo { cx: right, cy: bottom, x: right - radius, y: bottom });
    path.push(Segment::LineTo { x: x + radius, y: bottom });
    path.push(Segment::QuadTo { cx: x, cy: bottom, x, y: bottom - radius });
    path.push(Segment::LineTo { x, y: y + radius });
    path.push(Segment::QuadTo { cx: x, cy: y, x: x + radius, y });
    path.push(Segment::Close);
    assert(outline(path@) =~= round_rect_outline(
        x as int,
        y as int,
        width as int,
        height as int,
        radius as int,
    ));
    Shape::Path(path)
}

/// Fill a rectangle whose bottom corners are rounded and whose top corners are
/// square.
///
/// Drawing the same translucent colour as a rounded rectangle plus a second
/// rectangle to square its top would blend the overlap twice, leaving a strip
/// that is more opaque than the rest.
pub fn fill_rect_round_bottom(
    x: i64,
    y: i64,
    width: i64,
    height: i64,
    radius: i64,
) -> (shape: Shape)
    requires
        in_range(x as int),
        in_range(y as int),
        in_range(width as int),
        in_range(height as int),
    ensures
        ({
            let rounding = bottom_radius(width as int, height as int, radius as int);
            if !is_drawable(width as int, height as int) {
                shape is Nothing
            } else if rounding <= 0 {
                shape == (Shape::Rect { x, y, width, height })
            } else {
                shape is Path && outline(shape->Path_0@) == round_bottom_outline(
                    x as int,
                    y as int,
                    width as int,
                    height as int,
                    rounding,
                )
            }
        }),
{
    if !drawable(width, height) {
        return Shape::Nothing;
    }
    let radius: i64 = min_length(min_length(radius, half(width)), height);
    if radius <= 0 {
        return fill_rect(x, y, width, height);
    }
    let right: i64 = x + width;
    let bottom: i64 = y + height;
    let mut path: Vec<Segment<i64>> = Vec::new();
    path.push(Segment::MoveTo { x, y });
    path.push(Segment::LineTo { x: right, y });
    path.push(Segment::LineTo { x: right, y: bottom - radius });
    path.push(Segment::QuadTo { cx: right, cy: bottom, x: right - radius, y: bottom });
    path.push(Segment::LineTo { x: x + radius, y: bottom });
    path.push(Segment::QuadTo { cx: x, cy: bottom, x, y: bottom - radius });
    path.push(Segment::Close);
    assert(outline(path@) =~= round_bottom_outline(
        x as int,
        y as int,
        width as int,
        height as int,
        radius as int,
    ));
    Shape::Path(path)
}

/// One thing to paint. A scene is a list of them, painted in order.
#[derive(Debug, Clone, PartialEq, Eq)]
pub enum Draw {
    /// Fill a rectangle, as [`fill_rect`] covers it.
    Rect { x: i64, y: i64, width: i64, height: i64, color: Rgba },
    /// Fill a rounded rectangle, as [`fill_round_rect`] covers it.
    RoundRect { x: i64, y: i64, width: i64, height: i64, radius: i64, color: Rgba },
    /// Fill a rectangle that is round below, as [`fill_rect_round_bottom`] covers it.
    RoundBottom { x: i64, y: i64, width: i64, height: i64, radius: i64, color: Rgba },
    /// Draw a text, as [`Renderer::draw_text`] does.
    Text { text: String, x: i64, y: i64, size: i64, color: Rgba },
}

/// The model of a [`Draw`].
pub enum Mark {
    Rect { x: int, y: int, width: int, height: int, color: Rgba },
    RoundRect { x: int, y: int, width: int, height: int, radius: int, color: Rgba },
    RoundBottom { x: int, y: int, width: int, height: int, radius: int, color: Rgba },
    Text { text: Seq<char>, x: int, y: int, size: int, color: Rgba },
}

impl View for Draw {
    type V = Mark;

    open spec fn view(&self) -> Mark {
        match *self {
            Draw::Rect { x, y, width, height, color } => Mark::Rect {
                x: x as int,
                y: y as int,
                width: width as int,
                height: height as int,
                color,
            },
            Draw::RoundRect { x, y, width, height, radius, color } => Mark::RoundRect {
                x: x as int,
                y: y as int,
                width: width as int,
                height: height as int,
                radius: radius as int,
                color,
            },
            Draw::RoundBottom { x, y, width, height, radius, color } => Mark::RoundBottom {
                x: x as int,
                y: y as int,
                width: width as int,
                height: height as int,
                radius: radius as int,
                color,
            },
            Draw::Text { text, x, y, size, color } => Mark::Text {
                text: text@,
                x: x as int,
                y: y as int,
                size: size as int,
                color,
            },
        }
    }
}

/// The model of a list of things to paint.
pub open spec fn scene(draws: Seq<Draw>) -> Seq<Mark> {
    Seq::new(draws.len(), |i: int| draws[i]@)
}

/// True of a step that does not leave a rectangle.
pub open spec fn step_within(step: Segment<int>, x: int, y: int, width: int, height: int) -> bool {
    match step {
        Segment::MoveTo { x: px, y: py } => x <= px <= x + width && y <= py <= y + height,
        Segment::LineTo { x: px, y: py } => x <= px <= x + width && y <= py <= y + height,
        Segment::QuadTo { cx, cy, x: px, y: py } => x <= px <= x + width && y <= py <= y + height
            && x <= cx <= x + width && y <= cy <= y + height,
        Segment::Close => true,
    }
}

/// A rounded rectangle stays inside the rectangle it rounds, and its corners do
/// not run into each other, however large a radius was asked for.
pub proof fn an_oversized_radius_makes_no_bowtie(
    x: int,
    y: int,
    width: int,
    height: int,
    radius: int,
    step: int,
)
    requires
        is_drawable(width, height),
        corner_radius(width, height, radius) > 0,
        0 <= step < 10,
    ensures
        ({
            let rounding = corner_radius(width, height, radius);
            &&& rounding <= radius
            &&& x + rounding <= x + width - rounding
            &&& y + rounding <= y + height - rounding
            &&& step_within(
                round_rect_outline(x, y, width, height, rounding)[step],
                x,
                y,
                width,
                height,
            )
        }),
{
}

/// A rectangle with a rounded bottom stays inside the rectangle it rounds, and its
/// two corners do not run into each other.
pub proof fn a_rounded_bottom_stays_inside(
    x: int,
    y: int,
    width: int,
    height: int,
    radius: int,
    step: int,
)
    requires
        is_drawable(width, height),
        bottom_radius(width, height, radius) > 0,
        0 <= step < 7,
    ensures
        ({
            let rounding = bottom_radius(width, height, radius);
            &&& rounding <= radius
            &&& x + rounding <= x + width - rounding
            &&& step_within(
                round_bottom_outline(x, y, width, height, rounding)[step],
                x,
                y,
                width,
                height,
            )
        }),
{
}

/// True of a text unless it ends in an ellipsis that adds more than its own width
/// to what stands before it.
pub open spec fn marker_adds_up<F: Fn(&str, i64) -> Vec<Run>>(
    renderer: Renderer<F>,
    text: Seq<char>,
    size: i64,
) -> bool {
    text.len() > 0 && text.last() == '…' ==> renderer.width_of(text, size) <= renderer.width_of(
        text.drop_last(),
        size,
    ) + renderer.width_of("…"@, size)
}

/// No text measures less than nothing.
pub proof fn widths_are_not_negative<F: Fn(&str, i64) -> Vec<Run>>(
    renderer: Renderer<F>,
    text: Seq<char>,
    size: i64,
)
    ensures
        0 <= renderer.width_of(text, size),
        0 <= renderer.height_of(text, size),
{
    lemma_extent_positive(runs_of(renderer.shape(), text, size));
}

/// Shortening keeps as many leading characters as fit: every prefix up to the
/// cut measures no more than what is left for it, and the next one measures more.
pub proof fn the_cut_is_as_late_as_possible<F: Fn(&str, i64) -> Vec<Run>>(
    renderer: Renderer<F>,
    text: Seq<char>,
    keep: int,
    size: i64,
    from: int,
)
    requires
        0 <= from <= text.len(),
    ensures
        ({
            let kept = renderer.kept_from(text, keep, size, from);
            &&& from <= kept <= text.len()
            &&& forall|count: int|
                from < count <= kept ==> renderer.width_of(#[trigger] text.take(count), size)
                    <= keep
            &&& kept < text.len() ==> renderer.width_of(text.take(kept + 1), size) > keep
        }),
    decreases text.len() - from,
{
    if from < text.len() && renderer.width_of(text.take(from + 1), size) <= keep {
        the_cut_is_as_late_as_possible(renderer, text, keep, size, from + 1);
    }
}

/// A shortened text fits the room it was shortened to.
pub proof fn a_shortened_text_fits<F: Fn(&str, i64) -> Vec<Run>>(
    renderer: Renderer<F>,
    text: Seq<char>,
    budget: int,
    size: i64,
)
    requires
        marker_adds_up(renderer, renderer.shortened(text, budget, size), size),
    ensures
        renderer.width_of(renderer.shortened(text, budget, size), size) <= larger(budget, 0),
{
    let marker = renderer.width_of("…"@, size);
    if budget <= 0 || text.len() == 0 || renderer.width_of(text, size) <= budget || marker
        > budget {
    } else {
        let kept = renderer.kept_from(text, budget - marker, size, 0);
        the_cut_is_as_late_as_possible(renderer, text, budget - marker, size, 0);
        assert(renderer.width_of(text.take(kept), size) <= budget - marker);
        reveal_strlit("…");
        assert((text.take(kept) + "…"@).drop_last() =~= text.take(kept));
    }
}

/// Laid-out text is as wide as its widest run and reaches as low as its lowest one: no
/// run sticks out, and one of them reaches all the way, unless none reaches anywhere.
pub proof fn no_run_sticks_out(runs: Seq<Run>)
    ensures
        forall|i: int|
            0 <= i < runs.len() ==> (#[trigger] runs[i]).width <= widest(runs) && runs[i].top
                + runs[i].height <= lowest(runs),
        widest(runs) >= 0 && lowest(runs) >= 0,
        widest(runs) > 0 ==> exists|i: int|
            0 <= i < runs.len() && (#[trigger] runs[i]).width == widest(runs),
        lowest(runs) > 0 ==> exists|i: int|
            0 <= i < runs.len() && (#[trigger] runs[i]).top + runs[i].height == lowest(runs),
    decreases runs.len(),
{
    if runs.len() > 0 {
        let front = runs.drop_last();
        let last = runs.len() - 1;
        no_run_sticks_out(front);
        assert forall|i: int| 0 <= i < runs.len() implies (#[trigger] runs[i]).width <= widest(
            runs,
        ) && runs[i].top + runs[i].height <= lowest(runs) by {
            if i < last {
                assert(front[i] == runs[i]);
            }
        }
        if widest(runs) > 0 {
            if widest(runs) == runs[last].width {
            } else {
                let i = choose|i: int|
                    0 <= i < front.len() && (#[trigger] front[i]).width == widest(front);
                assert(runs[i].width == widest(runs));
            }
        }
        if lowest(runs) > 0 {
            if lowest(runs) == runs[last].top + runs[last].height {
            } else {
                let i = choose|i: int|
                    0 <= i < front.len() && (#[trigger] front[i]).top + front[i].height == lowest(
                        front,
                    );
                assert(runs[i].top + runs[i].height == lowest(runs));
            }
        }
    }
}

/// A text measures what it is laid out to, and an empty one nothing.
pub proof fn a_text_measures_what_it_is_laid_out_to<F: Fn(&str, i64) -> Vec<Run>>(
    renderer: Renderer<F>,
    text: &str,
    size: i64,
    runs: Vec<Run>,
)
    requires
        renderer.measures(),
        call_ensures(renderer.shape(), (text, size), runs),
    ensures
        text@.len() > 0 ==> renderer.width_of(text@, size) == widest(runs@) && renderer.height_of(
            text@,
            size,
        ) == lowest(runs@),
        text@.len() == 0 ==> renderer.width_of(text@, size) == 0 && renderer.height_of(
            text@,
            size,
        ) == 0,
{
    assert(gives(renderer.shape(), text@, size, runs@));
    assert(gives(
        renderer.shape(),
        text@,
        size,
        runs_of(renderer.shape(), text@, size),
    ));
}

/// A line is seven fifths of the font's size, rounded down, and never less than a pixel.
pub proof fn a_line_is_seven_fifths_of_the_size(size: int)
    ensures
        ({
            let line = line_height_at(size);
            &&& line >= PIXEL
            &&& 5 * line <= 7 * size < 5 * line + 5 || line == PIXEL && 7 * size < 5 * PIXEL
        }),
{
}

/// A text that fits is shown whole. One that does not is cut, with an ellipsis behind
/// what is kept of it, and as much is kept as fits before the ellipsis, character by
/// character. Where there is no room for the ellipsis, and of an empty text, nothing is
/// shown.
pub proof fn a_text_is_cut_only_where_it_must_be<F: Fn(&str, i64) -> Vec<Run>>(
    renderer: Renderer<F>,
    text: Seq<char>,
    room: int,
    size: i64,
    kept: int,
)
    ensures
        ({
            let shown = renderer.shortened(text, room, size);
            let marker = renderer.width_of("…"@, size);
            &&& text.len() == 0 || room <= 0 ==> shown.len() == 0
            &&& room > 0 && renderer.width_of(text, size) <= room ==> shown == text
            &&& room > 0 && text.len() > 0 && renderer.width_of(text, size) > room && marker > room
                ==> shown.len() == 0
            &&& room > 0 && renderer.width_of(text, size) > room && marker <= room && 0 <= kept
                < text.len() && (forall|count: int|
                0 < count <= kept ==> renderer.width_of(#[trigger] text.take(count), size)
                    <= room - marker) && renderer.width_of(text.take(kept + 1), size) > room
                - marker ==> shown == text.take(kept) + "…"@
        }),
{
    let marker = renderer.width_of("…"@, size);
    if text.len() == 0 {
        assert(text =~= Seq::<char>::empty());
    } else if room > 0 && renderer.width_of(text, size) > room && marker <= room {
        let found = renderer.kept_from(text, room - marker, size, 0);
        the_cut_is_as_late_as_possible(renderer, text, room - marker, size, 0);
        if 0 <= kept < text.len() && (forall|count: int|
            0 < count <= kept ==> renderer.width_of(#[trigger] text.take(count), size) <= room
                - marker) && renderer.width_of(text.take(kept + 1), size) > room - marker {
            if found < kept {
                assert(renderer.width_of(text.take(found + 1), size) <= room - marker);
            } else if kept < found {
                assert(renderer.width_of(text.take(kept + 1), size) <= room - marker);
            }
        }
    }
}

/// Corners are as round as was asked for, as far as two of them fit side by side.
pub proof fn corners_are_as_round_as_fits(width: int, height: int, radius: int)
    ensures
        ({
            let four = corner_radius(width, height, radius);
            let two = bottom_radius(width, height, radius);
            &&& four <= radius && 2 * four <= width && 2 * four <= height
            &&& four == radius || 2 * (four + 1) > width || 2 * (four + 1) > height
            &&& two <= radius && 2 * two <= width && two <= height
            &&& two == radius || 2 * (two + 1) > width || two + 1 > height
            &&& is_drawable(width, height) <==> width >= 1 && height >= 1
        }),
{
}

/// Where a step of an outline ends.
pub open spec fn end_point(step: Segment<int>) -> (int, int) {
    match step {
        Segment::MoveTo { x, y } => (x, y),
        Segment::LineTo { x, y } => (x, y),
        Segment::QuadTo { cx, cy, x, y } => (x, y),
        Segment::Close => (0, 0),
    }
}

/// True of a step that rounds the corner at `(cx, cy)`.
pub open spec fn rounds(step: Segment<int>, cx: int, cy: int) -> bool {
    step matches Segment::QuadTo { cx: px, cy: py, .. } && px == cx && py == cy
}

/// A rounded rectangle goes once round, clockwise from the top left: four straight
/// sides, and between each two of them the corner that they would have met in, which
/// the curve leaves and reaches at the same distance.
pub proof fn a_rounded_rectangle_goes_once_round(
    x: int,
    y: int,
    width: int,
    height: int,
    radius: int,
)
    ensures
        ({
            let path = round_rect_outline(x, y, width, height, radius);
            let (right, bottom) = (x + width, y + height);
            &&& path.len() == 10
            &&& path[0] is MoveTo && path[9] is Close
            &&& path[1] is LineTo && path[3] is LineTo && path[5] is LineTo && path[7] is LineTo
            &&& rounds(path[2], right, y) && rounds(path[4], right, bottom)
            &&& rounds(path[6], x, bottom) && rounds(path[8], x, y)
            &&& end_point(path[0]) == (x + radius, y) && end_point(path[8]) == (x + radius, y)
            &&& end_point(path[1]) == (right - radius, y)
            &&& end_point(path[2]) == (right, y + radius)
            &&& end_point(path[3]) == (right, bottom - radius)
            &&& end_point(path[4]) == (right - radius, bottom)
            &&& end_point(path[5]) == (x + radius, bottom)
            &&& end_point(path[6]) == (x, bottom - radius)
            &&& end_point(path[7]) == (x, y + radius)
        }),
{
}

/// A rectangle that is round below goes once round as well, with its two upper corners
/// square.
pub proof fn a_rounded_bottom_goes_once_round(
    x: int,
    y: int,
    width: int,
    height: int,
    radius: int,
)
    ensures
        ({
            let path = round_bottom_outline(x, y, width, height, radius);
            let (right, bottom) = (x + width, y + height);
            &&& path.len() == 7
            &&& path[0] is MoveTo && path[6] is Close
            &&& path[1] is LineTo && path[2] is LineTo && path[4] is LineTo
            &&& rounds(path[3], right, bottom) && rounds(path[5], x, bottom)
            &&& end_point(path[0]) == (x, y)
            &&& end_point(path[1]) == (right, y)
            &&& end_point(path[2]) == (right, bottom - radius)
            &&& end_point(path[3]) == (right - radius, bottom)
            &&& end_point(path[4]) == (x + radius, bottom)
            &&& end_point(path[5]) == (x, bottom - radius)
        }),
{
}

/// What is painted is what was asked for: a scene is its draws, one for one, each with
/// its own kind, place, size, colour and text.
pub proof fn a_scene_is_its_draws(draws: Seq<Draw>, k: int)
    requires
        0 <= k < draws.len(),
    ensures
        scene(draws).len() == draws.len(),
        match draws[k] {
            Draw::Rect { x, y, width, height, color } => scene(draws)[k] == (Mark::Rect {
                x: x as int,
                y: y as int,
                width: width as int,
                height: height as int,
                color,
            }),
            Draw::RoundRect { x, y, width, height, radius, color } => scene(draws)[k]
                == (Mark::RoundRect {
                x: x as int,
                y: y as int,
                width: width as int,
                height: height as int,
                radius: radius as int,
                color,
            }),
            Draw::RoundBottom { x, y, width, height, radius, color } => scene(draws)[k]
                == (Mark::RoundBottom {
                x: x as int,
                y: y as int,
                width: width as int,
                height: height as int,
                radius: radius as int,
                color,
            }),
            Draw::Text { text, x, y, size, color } => scene(draws)[k] == (Mark::Text {
                text: text@,
                x: x as int,
                y: y as int,
                size: size as int,
                color,
            }),
        },
{
}

/// An outline is its steps, one for one.
pub proof fn an_outline_is_its_steps(path: Seq<Segment<i64>>, k: int)
    requires
        0 <= k < path.len(),
    ensures
        outline(path).len() == path.len(),
        match path[k] {
            Segment::MoveTo { x, y } => outline(path)[k] == (Segment::<int>::MoveTo {
                x: x as int,
                y: y as int,
            }),
            Segment::LineTo { x, y } => outline(path)[k] == (Segment::<int>::LineTo {
                x: x as int,
                y: y as int,
            }),
            Segment::QuadTo { cx, cy, x, y } => outline(path)[k] == (Segment::<int>::QuadTo {
                cx: cx as int,
                cy: cy as int,
                x: x as int,
                y: y as int,
            }),
            Segment::Close => outline(path)[k] == Segment::<int>::Close,
        },
{
}

} // verus!
