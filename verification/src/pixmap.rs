//! Blending glyph pixels into a pixmap.
//!
//! A pixmap holds one premultiplied pixel for each point of a surface, row by row
//! from the top, as red, green, blue and alpha.

use tiny_skia::{Pixmap, PremultipliedColorU8};
use vstd::prelude::*;

use crate::config::Rgba;

verus! {

/// `tiny_skia::Pixmap`: an owned buffer of pixels, known by its size and its bytes.
#[verifier::external_type_specification]
#[verifier::external_body]
pub struct ExPixmap(Pixmap);

/// The bytes a pixmap holds: four for each pixel, row by row.
pub uninterp spec fn pixmap_data(pixmap: Pixmap) -> Seq<u8>;

/// How many pixels a row of a pixmap has.
pub uninterp spec fn pixmap_width(pixmap: Pixmap) -> u32;

/// How many rows a pixmap has.
pub uninterp spec fn pixmap_height(pixmap: Pixmap) -> u32;

/// `Pixmap::width`: the number of pixels in a row.
#[verifier::external_body]
fn width_of(pixmap: &Pixmap) -> (width: u32)
    ensures
        width == pixmap_width(*pixmap),
{
    pixmap.width()
}

/// `Pixmap::height`: the number of rows.
#[verifier::external_body]
fn height_of(pixmap: &Pixmap) -> (height: u32)
    ensures
        height == pixmap_height(*pixmap),
{
    pixmap.height()
}

/// `Pixmap::data`: the bytes, at least four for each pixel. A pixmap that was
/// copied from a longer buffer has bytes to spare.
#[verifier::external_body]
fn data_of(pixmap: &Pixmap) -> (data: &[u8])
    ensures
        data@ == pixmap_data(*pixmap),
        data@.len() >= 4 * (pixmap_width(*pixmap) * pixmap_height(*pixmap)),
{
    pixmap.data()
}

/// `Pixmap::data_mut`, at an index: stores a byte there and leaves every other byte
/// and the size alone.
#[verifier::external_body]
fn set_byte(pixmap: &mut Pixmap, index: usize, byte: u8)
    requires
        index < pixmap_data(*old(pixmap)).len(),
    ensures
        pixmap_data(*final(pixmap)) == pixmap_data(*old(pixmap)).update(index as int, byte),
        pixmap_width(*final(pixmap)) == pixmap_width(*old(pixmap)),
        pixmap_height(*final(pixmap)) == pixmap_height(*old(pixmap)),
{
    pixmap.data_mut()[index] = byte;
}

/// `PremultipliedColorU8::from_rgba`: the colour itself, where no component
/// exceeds the alpha, and nothing otherwise.
#[verifier::external_body]
fn premultiplied(color: (u8, u8, u8, u8)) -> (checked: Option<(u8, u8, u8, u8)>)
    ensures
        checked == if is_premultiplied(color) {
            Some(color)
        } else {
            None
        },
{
    PremultipliedColorU8::from_rgba(color.0, color.1, color.2, color.3).map(
        |pixel| (pixel.red(), pixel.green(), pixel.blue(), pixel.alpha()),
    )
}

/// True of a colour no component of which exceeds its alpha.
pub open spec fn is_premultiplied(color: (u8, u8, u8, u8)) -> bool {
    color.0 <= color.3 && color.1 <= color.3 && color.2 <= color.3
}

/// The pixel at an index, as red, green, blue and alpha.
pub open spec fn pixel(data: Seq<u8>, index: int) -> (u8, u8, u8, u8) {
    (data[4 * index], data[4 * index + 1], data[4 * index + 2], data[4 * index + 3])
}

/// The bytes with another pixel at an index.
pub open spec fn with_pixel(data: Seq<u8>, index: int, color: (u8, u8, u8, u8)) -> Seq<u8> {
    data.update(4 * index, color.0).update(4 * index + 1, color.1).update(
        4 * index + 2,
        color.2,
    ).update(4 * index + 3, color.3)
}

/// One component of a glyph pixel of the given alpha over one of the destination.
pub open spec fn over(src: int, dst: int, alpha: int) -> int {
    (src * alpha + dst * (255 - alpha)) / 255
}

/// How opaque a destination is after it was covered.
pub open spec fn covered(dst: int, alpha: int) -> int {
    dst + alpha - dst * alpha / 255
}

/// A destination pixel after a glyph pixel was drawn over it.
pub open spec fn blended(dst: (u8, u8, u8, u8), src: Rgba) -> (u8, u8, u8, u8) {
    (
        over(src.r as int, dst.0 as int, src.a as int) as u8,
        over(src.g as int, dst.1 as int, src.a as int) as u8,
        over(src.b as int, dst.2 as int, src.a as int) as u8,
        covered(dst.3 as int, src.a as int) as u8,
    )
}

/// True of a point inside a surface of the given size.
pub open spec fn inside(width: u32, height: u32, x: int, y: int) -> bool {
    0 <= x < width && 0 <= y < height
}

/// The bytes of a surface after one glyph pixel was drawn at a point. Points outside
/// the surface are dropped, and so is a result that is not premultiplied.
pub open spec fn composited(
    data: Seq<u8>,
    width: u32,
    height: u32,
    x: int,
    y: int,
    src: Rgba,
) -> Seq<u8> {
    let index = y * width + x;
    if inside(width, height, x, y) && src.a > 0 && is_premultiplied(
        blended(pixel(data, index), src),
    ) {
        with_pixel(data, index, blended(pixel(data, index), src))
    } else {
        data
    }
}

proof fn lemma_over_fits(src: int, dst: int, alpha: int)
    requires
        0 <= src <= 255,
        0 <= dst <= 255,
        0 <= alpha <= 255,
    ensures
        0 <= src * alpha + dst * (255 - alpha) <= 255 * 255,
        0 <= over(src, dst, alpha) <= 255,
{
    assert(0 <= src * alpha + dst * (255 - alpha) <= 255 * 255) by (nonlinear_arith)
        requires
            0 <= src <= 255,
            0 <= dst <= 255,
            0 <= alpha <= 255,
    ;
}

proof fn lemma_covered_fits(dst: int, alpha: int)
    requires
        0 <= dst <= 255,
        0 <= alpha <= 255,
    ensures
        0 <= dst * alpha <= 255 * 255,
        dst * alpha / 255 <= dst,
        0 <= covered(dst, alpha) <= 255,
{
    assert(0 <= dst * alpha <= 255 * dst && dst * alpha >= 255 * (dst + alpha - 255)) by (
        nonlinear_arith)
        requires
            0 <= dst <= 255,
            0 <= alpha <= 255,
    ;
}

fn blend(src: u8, dst: u8, alpha: u8) -> (component: u8)
    ensures
        component == over(src as int, dst as int, alpha as int),
{
    proof {
        lemma_over_fits(src as int, dst as int, alpha as int);
        assert(0 <= src * alpha <= 255 * 255 && 0 <= dst * (255 - alpha) <= 255 * 255) by (
            nonlinear_arith)
            requires
                0 <= src <= 255,
                0 <= dst <= 255,
                0 <= alpha <= 255,
        ;
    }
    let mixed: u32 = (src as u32) * (alpha as u32) + (dst as u32) * (255 - alpha as u32);
    (mixed / 255) as u8
}

fn cover(dst: u8, alpha: u8) -> (covering: u8)
    ensures
        covering == covered(dst as int, alpha as int),
{
    proof {
        lemma_covered_fits(dst as int, alpha as int);
    }
    let both: u32 = (dst as u32) * (alpha as u32) / 255;
    (dst as u32 + alpha as u32 - both) as u8
}

/// Composite one glyph pixel over the destination.
///
/// The destination is premultiplied: source-over is `src + dst * (1 - src_alpha)`.
pub fn composite(pixmap: &mut Pixmap, x: i64, y: i64, src: Rgba)
    ensures
        pixmap_data(*final(pixmap)) == composited(
            pixmap_data(*old(pixmap)),
            pixmap_width(*old(pixmap)),
            pixmap_height(*old(pixmap)),
            x as int,
            y as int,
            src,
        ),
        pixmap_width(*final(pixmap)) == pixmap_width(*old(pixmap)),
        pixmap_height(*final(pixmap)) == pixmap_height(*old(pixmap)),
{
    let width: u32 = width_of(pixmap);
    let height: u32 = height_of(pixmap);
    if x < 0 || y < 0 || x >= (width as i64) || y >= (height as i64) {
        return;
    }
    if src.a == 0 {
        return;
    }
    let data = data_of(pixmap);
    proof {
        lemma_index_fits(width, height, x as int, y as int);
        assert(data.len() == data@.len());
    }
    let index: usize = (y as usize) * (width as usize) + (x as usize);
    let first: usize = 4 * index;
    let mixed = (
        blend(src.r, data[first], src.a),
        blend(src.g, data[first + 1], src.a),
        blend(src.b, data[first + 2], src.a),
        cover(data[first + 3], src.a),
    );
    match premultiplied(mixed) {
        Some(color) => {
            set_byte(pixmap, first, color.0);
            set_byte(pixmap, first + 1, color.1);
            set_byte(pixmap, first + 2, color.2);
            set_byte(pixmap, first + 3, color.3);
        },
        None => {},
    }
}

proof fn lemma_index_fits(width: u32, height: u32, x: int, y: int)
    requires
        inside(width, height, x, y),
    ensures
        0 <= y * width,
        0 <= y * width + x < width * height,
{
    assert(0 <= y * width && y * width + width <= width * height) by (nonlinear_arith)
        requires
            0 <= y < height,
            0 <= width,
    ;
}

/// A pixel of a rasterized glyph, relative to where its text starts.
#[derive(Debug, Clone, Copy, PartialEq, Eq, Structural)]
pub struct Glyph {
    pub x: i32,
    pub y: i32,
    pub color: Rgba,
}

/// The bytes of a surface after the glyph pixels of a text that starts at
/// `(x, y)` were drawn one after the other.
pub open spec fn drawn(
    data: Seq<u8>,
    width: u32,
    height: u32,
    x: int,
    y: int,
    glyphs: Seq<Glyph>,
) -> Seq<u8>
    decreases glyphs.len(),
{
    if glyphs.len() == 0 {
        data
    } else {
        let before = drawn(data, width, height, x, y, glyphs.drop_last());
        let last = glyphs.last();
        composited(before, width, height, x + last.x, y + last.y, last.color)
    }
}

/// Draw the glyph pixels of a text that starts at `(x, y)`.
pub fn draw_glyphs(pixmap: &mut Pixmap, x: i32, y: i32, glyphs: &[Glyph])
    ensures
        pixmap_data(*final(pixmap)) == drawn(
            pixmap_data(*old(pixmap)),
            pixmap_width(*old(pixmap)),
            pixmap_height(*old(pixmap)),
            x as int,
            y as int,
            glyphs@,
        ),
        pixmap_width(*final(pixmap)) == pixmap_width(*old(pixmap)),
        pixmap_height(*final(pixmap)) == pixmap_height(*old(pixmap)),
{
    let mut index: usize = 0;
    assert(glyphs@.take(0) =~= Seq::<Glyph>::empty());
    while index < glyphs.len()
        invariant
            0 <= index <= glyphs@.len(),
            pixmap_data(*pixmap) == drawn(
                pixmap_data(*old(pixmap)),
                pixmap_width(*old(pixmap)),
                pixmap_height(*old(pixmap)),
                x as int,
                y as int,
                glyphs@.take(index as int),
            ),
            pixmap_width(*pixmap) == pixmap_width(*old(pixmap)),
            pixmap_height(*pixmap) == pixmap_height(*old(pixmap)),
        decreases glyphs.len() - index,
    {
        let glyph = glyphs[index];
        assert(glyphs@.take(index as int + 1).drop_last() =~= glyphs@.take(index as int));
        composite(pixmap, x as i64 + glyph.x as i64, y as i64 + glyph.y as i64, glyph.color);
        index = index + 1;
    }
    assert(glyphs@.take(index as int) =~= glyphs@);
}

/// A glyph pixel drawn over a premultiplied pixel gives a premultiplied one, so
/// nothing that is drawn inside a surface of such pixels is ever dropped.
pub proof fn blending_keeps_pixels_premultiplied(dst: (u8, u8, u8, u8), src: Rgba)
    requires
        is_premultiplied(dst),
    ensures
        is_premultiplied(blended(dst, src)),
{
    let alpha = src.a as int;
    lemma_covered_fits(dst.3 as int, alpha);
    lemma_component_stays_below(src.r as int, dst.0 as int, dst.3 as int, alpha);
    lemma_component_stays_below(src.g as int, dst.1 as int, dst.3 as int, alpha);
    lemma_component_stays_below(src.b as int, dst.2 as int, dst.3 as int, alpha);
}

proof fn lemma_component_stays_below(src: int, dst: int, dst_alpha: int, alpha: int)
    requires
        0 <= src <= 255,
        0 <= dst <= dst_alpha <= 255,
        0 <= alpha <= 255,
    ensures
        0 <= over(src, dst, alpha) <= 255,
        over(src, dst, alpha) <= covered(dst_alpha, alpha),
{
    lemma_over_fits(src, dst, alpha);
    assert(src * alpha + dst * (255 - alpha) <= 255 * (dst_alpha + alpha) - dst_alpha * alpha)
        by (nonlinear_arith)
        requires
            0 <= src <= 255,
            0 <= dst <= dst_alpha <= 255,
            0 <= alpha <= 255,
    ;
}

/// An opaque glyph pixel replaces what is under it.
pub proof fn an_opaque_pixel_hides_what_is_under_it(dst: (u8, u8, u8, u8), src: Rgba)
    requires
        src.a == 255,
    ensures
        blended(dst, src) == (src.r, src.g, src.b, 255u8),
{
}

/// A glyph pixel changes the pixel it is drawn at and no other, and the surface
/// keeps its size.
pub proof fn a_glyph_pixel_touches_one_pixel(
    data: Seq<u8>,
    width: u32,
    height: u32,
    x: int,
    y: int,
    src: Rgba,
    other: int,
)
    requires
        data.len() >= 4 * (width * height),
        0 <= other < width * height,
        other != y * width + x,
    ensures
        composited(data, width, height, x, y, src).len() == data.len(),
        pixel(composited(data, width, height, x, y, src), other) == pixel(data, other),
{
    if inside(width, height, x, y) {
        lemma_index_fits(width, height, x, y);
    }
}

/// A glyph pixel that is drawn inside a surface of premultiplied pixels is there
/// afterwards, blended with what was there before.
pub proof fn a_glyph_pixel_is_drawn(
    data: Seq<u8>,
    width: u32,
    height: u32,
    x: int,
    y: int,
    src: Rgba,
)
    requires
        data.len() >= 4 * (width * height),
        inside(width, height, x, y),
        src.a > 0,
        is_premultiplied(pixel(data, y * width + x)),
    ensures
        pixel(composited(data, width, height, x, y, src), y * width + x) == blended(
            pixel(data, y * width + x),
            src,
        ),
{
    lemma_index_fits(width, height, x, y);
    blending_keeps_pixels_premultiplied(pixel(data, y * width + x), src);
}

/// Text that lies outside the surface altogether paints nothing.
pub proof fn text_off_the_surface_paints_nothing(
    data: Seq<u8>,
    width: u32,
    height: u32,
    x: int,
    y: int,
    glyphs: Seq<Glyph>,
)
    requires
        forall|i: int|
            0 <= i < glyphs.len() ==> !inside(
                width,
                height,
                x + (#[trigger] glyphs[i]).x,
                y + glyphs[i].y,
            ),
    ensures
        drawn(data, width, height, x, y, glyphs) == data,
    decreases glyphs.len(),
{
    if glyphs.len() > 0 {
        let front = glyphs.drop_last();
        assert forall|i: int| 0 <= i < front.len() implies !inside(
            width,
            height,
            x + (#[trigger] front[i]).x,
            y + front[i].y,
        ) by {
            assert(front[i] == glyphs[i]);
        }
        text_off_the_surface_paints_nothing(data, width, height, x, y, front);
        assert(glyphs[glyphs.len() - 1] == glyphs.last());
    }
}

/// A glyph pixel mixes with what is under it by its alpha: each component is the mean
/// of the two, weighted by the alpha and by what the alpha leaves, and rounded down.
pub proof fn a_glyph_pixel_mixes_by_its_alpha(src: int, dst: int, alpha: int)
    requires
        0 <= src <= 255,
        0 <= dst <= 255,
        0 <= alpha <= 255,
    ensures
        255 * over(src, dst, alpha) <= src * alpha + dst * (255 - alpha) < 255 * over(
            src,
            dst,
            alpha,
        ) + 255,
        255 * (dst + alpha - covered(dst, alpha)) <= dst * alpha < 255 * (dst + alpha - covered(
            dst,
            alpha,
        )) + 255,
        0 <= over(src, dst, alpha) <= 255,
        0 <= covered(dst, alpha) <= 255,
{
    lemma_over_fits(src, dst, alpha);
    lemma_covered_fits(dst, alpha);
    vstd::arithmetic::div_mod::lemma_fundamental_div_mod(src * alpha + dst * (255 - alpha), 255);
    vstd::arithmetic::div_mod::lemma_fundamental_div_mod(dst * alpha, 255);
}

/// Red mixes with red, green with green, blue with blue, and the alpha covers the alpha.
pub proof fn each_component_mixes_with_its_own(dst: (u8, u8, u8, u8), src: Rgba)
    ensures
        blended(dst, src).0 == over(src.r as int, dst.0 as int, src.a as int),
        blended(dst, src).1 == over(src.g as int, dst.1 as int, src.a as int),
        blended(dst, src).2 == over(src.b as int, dst.2 as int, src.a as int),
        blended(dst, src).3 == covered(dst.3 as int, src.a as int),
        is_premultiplied(dst) <==> dst.0 <= dst.3 && dst.1 <= dst.3 && dst.2 <= dst.3,
{
    lemma_over_fits(src.r as int, dst.0 as int, src.a as int);
    lemma_over_fits(src.g as int, dst.1 as int, src.a as int);
    lemma_over_fits(src.b as int, dst.2 as int, src.a as int);
    lemma_covered_fits(dst.3 as int, src.a as int);
}

/// A glyph pixel that is outside the surface or has no alpha leaves no trace, nor does
/// one whose mixture is no premultiplied colour; any other is there afterwards.
pub proof fn a_glyph_pixel_is_drawn_or_leaves_no_trace(
    data: Seq<u8>,
    width: u32,
    height: u32,
    x: int,
    y: int,
    src: Rgba,
)
    requires
        data.len() >= 4 * (width * height),
    ensures
        x < 0 || x >= width || y < 0 || y >= height || src.a == 0 ==> composited(
            data,
            width,
            height,
            x,
            y,
            src,
        ) == data,
        0 <= x < width && 0 <= y < height && src.a > 0 ==> {
            let at = 4 * (y * width + x);
            let before = (data[at], data[at + 1], data[at + 2], data[at + 3]);
            let mixed = blended(before, src);
            let after = composited(data, width, height, x, y, src);
            &&& !is_premultiplied(mixed) ==> after == data
            &&& is_premultiplied(mixed) ==> after.len() == data.len() && after[at] == mixed.0
                && after[at + 1] == mixed.1 && after[at + 2] == mixed.2 && after[at + 3] == mixed.3
            &&& forall|other: int|
                0 <= other < data.len() && !(at <= other < at + 4) ==> after[other]
                    == #[trigger] data[other]
        },
{
    if inside(width, height, x, y) {
        lemma_index_fits(width, height, x, y);
    }
}

/// The pixels of a text are drawn one after the other, each where the text starts and
/// the pixel lies in it, and each over what the ones before it left.
pub proof fn glyph_pixels_are_drawn_one_after_the_other(
    data: Seq<u8>,
    width: u32,
    height: u32,
    x: int,
    y: int,
    glyphs: Seq<Glyph>,
    glyph: Glyph,
)
    ensures
        drawn(data, width, height, x, y, Seq::empty()) == data,
        drawn(data, width, height, x, y, glyphs.push(glyph)) == composited(
            drawn(data, width, height, x, y, glyphs),
            width,
            height,
            x + glyph.x,
            y + glyph.y,
            glyph.color,
        ),
{
    assert(glyphs.push(glyph).drop_last() =~= glyphs);
}

} // verus!
