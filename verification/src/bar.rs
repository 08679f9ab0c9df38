//! Status-bar layout and painting.
//!
//! Modules are grouped into three segments by their configured [`Align`]. The
//! layout is computed before painting so it can be reasoned about directly.

pub mod laws;

use vstd::prelude::*;
use vstd::string::*;

use crate::app::FULL;
use crate::config::{Align, Config, Module, Rgba};
use crate::geometry::{
    half, in_range, larger, max_length, px, smaller, LENGTH_MAX, PIXEL,
};
use crate::render::{
    a_shortened_text_fits, line_height_at, marker_adds_up, scene, widths_are_not_negative, Draw,
    Mark, Renderer, Run, CORNER_RADIUS,
};

verus! {

/// Gap between the content edge and the outermost module.
pub const PADDING: i64 = 12 * PIXEL;

/// Gap between two modules inside the same segment.
pub const MODULE_GAP: i64 = 12 * PIXEL;

/// Minimum gap between two segments.
pub const SEGMENT_GAP: i64 = 16 * PIXEL;

/// One module's current content.
#[derive(Debug, Clone, PartialEq, Eq)]
pub struct ModuleValue {
    pub text: String,
    /// Overrides the colour the module is configured with, and `bar.foreground`, when
    /// set.
    pub color: Option<Rgba>,
}

impl Default for ModuleValue {
    fn default() -> (value: Self)
        ensures
            value.text@ == Seq::<char>::empty(),
            value.color is None,
    {
        ModuleValue { text: String::new(), color: None }
    }
}

/// A module that will be drawn, and where.
#[derive(Debug, Clone, PartialEq, Eq)]
pub struct Placed {
    /// Left edge in surface coordinates.
    pub x: i64,
    /// Text to draw, already shortened to fit its segment.
    pub text: String,
    pub color: Rgba,
}

/// A module that was fitted into its segment.
pub struct Fitted {
    pub text: Seq<char>,
    pub width: int,
    pub color: Rgba,
}

/// Where a fitted module goes.
pub struct Spot {
    pub x: int,
    pub text: Seq<char>,
    pub color: Rgba,
}

/// The segment a module belongs to: 0 left, 1 centre, 2 right.
pub open spec fn segment_of(align: Align) -> int {
    match align {
        Align::Left => 0,
        Align::Center => 1,
        Align::Right => 2,
    }
}

/// The text of the module at `index`; empty when it has reported nothing.
pub open spec fn text_at(values: Seq<ModuleValue>, index: int) -> Seq<char> {
    if 0 <= index < values.len() {
        values[index].text@
    } else {
        Seq::empty()
    }
}

/// The colour of the module at `index`: the one it reported, or else the one it is
/// configured with, or else the bar's foreground.
pub open spec fn color_at(
    modules: Seq<Module>,
    values: Seq<ModuleValue>,
    index: int,
    foreground: Rgba,
) -> Rgba {
    if 0 <= index < values.len() && values[index].color is Some {
        values[index].color->0
    } else if 0 <= index < modules.len() && modules[index].color is Some {
        modules[index].color->0
    } else {
        foreground
    }
}

/// The modules among the first `count` that belong to a segment and have a text,
/// in their configured order.
pub open spec fn members(
    modules: Seq<Module>,
    values: Seq<ModuleValue>,
    segment: int,
    count: nat,
) -> Seq<int>
    decreases count,
{
    if count == 0 {
        Seq::empty()
    } else {
        let earlier = members(modules, values, segment, (count - 1) as nat);
        if segment_of(modules[count - 1].align) == segment && text_at(values, count - 1).len() > 0 {
            earlier.push(count - 1)
        } else {
            earlier
        }
    }
}

/// The width a segment would have if nothing were cut.
pub open spec fn natural_width<F: Fn(&str, i64) -> Vec<Run>>(
    renderer: Renderer<F>,
    values: Seq<ModuleValue>,
    indices: Seq<int>,
    size: i64,
) -> int
    decreases indices.len(),
{
    if indices.len() == 0 {
        0
    } else {
        natural_width(renderer, values, indices.drop_last(), size) + (if indices.len() > 1 {
            MODULE_GAP as int
        } else {
            0
        }) + renderer.width_of(text_at(values, indices.last()), size)
    }
}

/// A segment's modules, each shortened to the room the ones before it left. The
/// segment ends where no room is left.
pub open spec fn fit<F: Fn(&str, i64) -> Vec<Run>>(
    renderer: Renderer<F>,
    modules: Seq<Module>,
    values: Seq<ModuleValue>,
    foreground: Rgba,
    size: i64,
    indices: Seq<int>,
    room: int,
    first: bool,
) -> Seq<Fitted>
    decreases indices.len(),
{
    let gap = if first {
        0
    } else {
        MODULE_GAP as int
    };
    if indices.len() == 0 || room <= gap {
        Seq::empty()
    } else {
        let text = renderer.shortened(text_at(values, indices[0]), room - gap, size);
        let width = renderer.width_of(text, size);
        let rest = indices.drop_first();
        if width <= 0 {
            fit(renderer, modules, values, foreground, size, rest, room, first)
        } else {
            let color = color_at(modules, values, indices[0], foreground);
            seq![Fitted { text, width, color }] + fit(
                renderer,
                modules,
                values,
                foreground,
                size,
                rest,
                room - gap - width,
                false,
            )
        }
    }
}

/// The width of fitted modules with the gaps between them.
pub open spec fn block_width(fitted: Seq<Fitted>) -> int
    decreases fitted.len(),
{
    if fitted.len() == 0 {
        0
    } else if fitted.len() == 1 {
        fitted[0].width
    } else {
        fitted[0].width + MODULE_GAP + block_width(fitted.drop_first())
    }
}

/// Fitted modules placed one after the other from `x` on.
pub open spec fn place(fitted: Seq<Fitted>, x: int) -> Seq<Spot>
    decreases fitted.len(),
{
    if fitted.len() == 0 {
        Seq::empty()
    } else {
        seq![Spot { x, text: fitted[0].text, color: fitted[0].color }] + place(
            fitted.drop_first(),
            x + fitted[0].width + MODULE_GAP,
        )
    }
}

/// The width of the centre segment's band: its natural width, within the padding.
pub open spec fn centre_width(width: int, natural: int) -> int {
    smaller(natural, larger(width - 2 * PADDING, 0))
}

/// Where the centre segment's band starts.
pub open spec fn centre_left(width: int, natural: int) -> int {
    (width - centre_width(width, natural)) / 2
}

/// The width a segment may occupy in a bar of `width`, when the centre segment
/// would be `natural` wide.
pub open spec fn budget(width: int, natural: int, segment: int) -> int {
    if segment == 0 {
        larger(centre_left(width, natural) - SEGMENT_GAP - PADDING, 0)
    } else if segment == 1 {
        centre_width(width, natural)
    } else {
        larger(
            width - PADDING - (centre_left(width, natural) + centre_width(width, natural))
                - SEGMENT_GAP,
            0,
        )
    }
}

/// Where a segment of fitted modules starts: the left one at the padding, the
/// centre one centred, and the right one so that it ends at the padding.
pub open spec fn segment_start(width: int, block: int, segment: int) -> int {
    if segment == 0 {
        PADDING as int
    } else if segment == 1 {
        (width - block) / 2
    } else {
        width - PADDING - block
    }
}

/// What one segment of the bar shows, fitted to its band.
pub open spec fn segment_fitted<F: Fn(&str, i64) -> Vec<Run>>(
    width: int,
    config: Config,
    values: Seq<ModuleValue>,
    renderer: Renderer<F>,
    segment: int,
) -> Seq<Fitted> {
    let modules = config.bar.module@;
    let size = config.bar.font_size;
    let natural = natural_width(
        renderer,
        values,
        members(modules, values, 1, modules.len()),
        size,
    );
    fit(
        renderer,
        modules,
        values,
        config.bar.foreground,
        size,
        members(modules, values, segment, modules.len()),
        budget(width, natural, segment),
        true,
    )
}

/// What one segment of the bar shows, and where.
pub open spec fn segment_placed<F: Fn(&str, i64) -> Vec<Run>>(
    width: int,
    config: Config,
    values: Seq<ModuleValue>,
    renderer: Renderer<F>,
    segment: int,
) -> Seq<Spot> {
    let fitted = segment_fitted(width, config, values, renderer, segment);
    place(fitted, segment_start(width, block_width(fitted), segment))
}

/// What the whole bar shows, and where.
pub open spec fn bar_placed<F: Fn(&str, i64) -> Vec<Run>>(
    width: int,
    config: Config,
    values: Seq<ModuleValue>,
    renderer: Renderer<F>,
) -> Seq<Spot> {
    segment_placed(width, config, values, renderer, 0) + segment_placed(
        width,
        config,
        values,
        renderer,
        1,
    ) + segment_placed(width, config, values, renderer, 2)
}

/// The model of a list of placed modules.
pub open spec fn spots(placed: Seq<Placed>) -> Seq<Spot> {
    Seq::new(
        placed.len(),
        |i: int| Spot { x: placed[i].x as int, text: placed[i].text@, color: placed[i].color },
    )
}

/// A fitted module that is still to be placed.
struct Piece {
    text: String,
    width: i64,
    color: Rgba,
}

spec fn pieces(list: Seq<Piece>) -> Seq<Fitted> {
    Seq::new(
        list.len(),
        |i: int| Fitted { text: list[i].text@, width: list[i].width as int, color: list[i].color },
    )
}

/// The segment a module belongs to: 0 left, 1 centre, 2 right.
pub fn slot_of(align: Align) -> (slot: usize)
    ensures
        slot == segment_of(align),
{
    match align {
        Align::Left => 0,
        Align::Center => 1,
        Align::Right => 2,
    }
}

/// The text of the module at `index`; empty when it has reported nothing.
pub fn segment_text(values: &[ModuleValue], index: usize) -> (text: &str)
    ensures
        text@ == text_at(values@, index as int),
{
    if index < values.len() {
        values[index].text.as_str()
    } else {
        proof {
            reveal_strlit("");
            assert(""@ =~= Seq::<char>::empty());
        }
        ""
    }
}

fn segment_color(
    modules: &Vec<Module>,
    values: &[ModuleValue],
    index: usize,
    foreground: Rgba,
) -> (color: Rgba)
    ensures
        color == color_at(modules@, values@, index as int, foreground),
{
    if index < values.len() {
        match values[index].color {
            Some(color) => {
                return color;
            },
            None => {},
        }
    }
    if index < modules.len() {
        match modules[index].color {
            Some(color) => {
                return color;
            },
            None => {},
        }
    }
    foreground
}

fn segment_members(modules: &Vec<Module>, values: &[ModuleValue], slot: usize) -> (indices: Vec<
    usize,
>)
    ensures
        indices@.map_values(|i: usize| i as int) == members(
            modules@,
            values@,
            slot as int,
            modules@.len(),
        ),
        forall|i: int| 0 <= i < indices@.len() ==> #[trigger] indices@[i] < modules@.len(),
{
    let mut indices: Vec<usize> = Vec::new();
    let mut index: usize = 0;
    assert(indices@.map_values(|i: usize| i as int) =~= Seq::<int>::empty());
    while index < modules.len()
        invariant
            0 <= index <= modules@.len(),
            indices@.map_values(|i: usize| i as int) == members(
                modules@,
                values@,
                slot as int,
                index as nat,
            ),
            forall|i: int| 0 <= i < indices@.len() ==> #[trigger] indices@[i] < index,
        decreases modules.len() - index,
    {
        let ghost before = indices@;
        if slot_of(modules[index].align) == slot && !segment_text(values, index).is_empty() {
            indices.push(index);
            assert(indices@.map_values(|i: usize| i as int) =~= before.map_values(
                |i: usize| i as int,
            ).push(index as int));
        }
        index = index + 1;
    }
    indices
}

proof fn lemma_block_push(fitted: Seq<Fitted>, last: Fitted)
    ensures
        block_width(fitted.push(last)) == if fitted.len() == 0 {
            last.width
        } else {
            block_width(fitted) + MODULE_GAP + last.width
        },
    decreases fitted.len(),
{
    if fitted.len() == 0 {
    } else if fitted.len() == 1 {
        assert(fitted.push(last).drop_first() =~= seq![last]);
        assert(block_width(seq![last]) == last.width);
    } else {
        assert(fitted.push(last).drop_first() =~= fitted.drop_first().push(last));
        lemma_block_push(fitted.drop_first(), last);
    }
}

/// The natural width of a segment, cut off at `limit`.
fn measured_width<F: Fn(&str, i64) -> Vec<Run>>(
    values: &[ModuleValue],
    indices: &Vec<usize>,
    size: i64,
    renderer: &Renderer<F>,
    limit: i64,
) -> (width: i64)
    requires
        renderer.wf(),
        0 <= limit,
    ensures
        width == smaller(
            natural_width(*renderer, values@, indices@.map_values(|i: usize| i as int), size),
            limit as int,
        ),
        0 <= width,
{
    let ghost all = indices@.map_values(|i: usize| i as int);
    let mut width: i128 = 0;
    let mut index: usize = 0;
    assert(all.take(0) =~= Seq::<int>::empty());
    while index < indices.len()
        invariant
            renderer.wf(),
            all == indices@.map_values(|i: usize| i as int),
            0 <= index <= indices@.len(),
            width == natural_width(*renderer, values@, all.take(index as int), size),
            0 <= width <= index * 2_000_000_000_000_000_000,
        decreases indices.len() - index,
    {
        assert(all.take(index as int + 1).drop_last() =~= all.take(index as int));
        assert(all.take(index as int + 1).last() == indices@[index as int] as int);
        if index > 0 {
            width = width + (MODULE_GAP as i128);
        }
        let module_width: i64 = renderer.measure_text(
            segment_text(values, indices[index]),
            size,
        ).0;
        width = width + (module_width as i128);
        index = index + 1;
    }
    assert(all.take(index as int) =~= all);
    if width <= (limit as i128) {
        width as i64
    } else {
        limit
    }
}

fn fit_segment<F: Fn(&str, i64) -> Vec<Run>>(
    modules: &Vec<Module>,
    values: &[ModuleValue],
    foreground: Rgba,
    size: i64,
    indices: &Vec<usize>,
    room: i64,
    renderer: &Renderer<F>,
) -> (fitted: (Vec<Piece>, i64))
    requires
        renderer.wf(),
        0 <= room <= LENGTH_MAX,
    ensures
        pieces(fitted.0@) == fit(
            *renderer,
            modules@,
            values@,
            foreground,
            size,
            indices@.map_values(|i: usize| i as int),
            room as int,
            true,
        ),
        fitted.1 == block_width(pieces(fitted.0@)),
        0 <= fitted.1 <= 2 * LENGTH_MAX,
        forall|i: int| 0 <= i < fitted.0@.len() ==> 0 < #[trigger] fitted.0@[i].width <= LENGTH_MAX,
{
    let ghost all = indices@.map_values(|i: usize| i as int);
    let ghost goal = fit(*renderer, modules@, values@, foreground, size, all, room as int, true);
    let mut list: Vec<Piece> = Vec::new();
    let mut remaining: i64 = room;
    let mut index: usize = 0;
    assert(all.skip(0) =~= all);
    assert(pieces(list@) =~= Seq::<Fitted>::empty());
    assert(pieces(list@) + fit(
        *renderer,
        modules@,
        values@,
        foreground,
        size,
        all,
        remaining as int,
        true,
    ) =~= goal);
    while index < indices.len()
        invariant
            pieces(list@) + fit(
                *renderer,
                modules@,
                values@,
                foreground,
                size,
                all.skip(index as int),
                remaining as int,
                list@.len() == 0,
            ) == goal,
            renderer.wf(),
            all == indices@.map_values(|i: usize| i as int),
            0 <= index <= indices@.len(),
            0 <= room <= LENGTH_MAX,
            -LENGTH_MAX <= remaining <= room,
            list@.len() == 0 ==> remaining == room,
            block_width(pieces(list@)) == room - remaining,
            forall|i: int| 0 <= i < list@.len() ==> 0 < #[trigger] list@[i].width <= LENGTH_MAX,
        ensures
            index == indices@.len() || remaining <= (if list@.len() == 0 {
                0
            } else {
                MODULE_GAP as int
            }),
        decreases indices.len() - index,
    {
        let ghost rest = all.skip(index as int);
        assert(rest.drop_first() =~= all.skip(index as int + 1));
        assert(rest[0] == indices@[index as int] as int);
        let gap: i64 = if list.len() == 0 {
            0
        } else {
            MODULE_GAP
        };
        if remaining <= gap {
            break;
        }
        let text = renderer.shorten(segment_text(values, indices[index]), remaining - gap, size);
        let width: i64 = renderer.measure_text(text.as_str(), size).0;
        if width > 0 {
            let color = segment_color(modules, values, indices[index], foreground);
            let ghost held = pieces(list@);
            let ghost next = Fitted { text: text@, width: width as int, color };
            proof {
                lemma_block_push(held, next);
            }
            remaining = remaining - gap - width;
            list.push(Piece { text, width, color });
            assert(pieces(list@) =~= held.push(next));
            assert(held + (seq![next] + fit(
                *renderer,
                modules@,
                values@,
                foreground,
                size,
                rest.drop_first(),
                remaining as int,
                false,
            )) =~= held.push(next) + fit(
                *renderer,
                modules@,
                values@,
                foreground,
                size,
                rest.drop_first(),
                remaining as int,
                false,
            ));
        }
        index = index + 1;
    }
    assert(pieces(list@) =~= goal);
    let block: i64 = room - remaining;
    (list, block)
}

fn place_segment(list: &Vec<Piece>, start: i64, block: i64, placed: &mut Vec<Placed>)
    requires
        block == block_width(pieces(list@)),
        -4 * LENGTH_MAX <= start <= 2 * LENGTH_MAX,
        0 <= block <= 2 * LENGTH_MAX,
        forall|i: int| 0 <= i < list@.len() ==> 0 < #[trigger] list@[i].width <= LENGTH_MAX,
    ensures
        spots(final(placed)@) == spots(old(placed)@) + place(pieces(list@), start as int),
{
    let ghost all = pieces(list@);
    let ghost before = spots(placed@);
    let mut x: i64 = start;
    let mut index: usize = 0;
    assert(all.skip(0) =~= all);
    while index < list.len()
        invariant
            all == pieces(list@),
            0 <= index <= list@.len(),
            spots(placed@) + place(all.skip(index as int), x as int) == before + place(
                all,
                start as int,
            ),
            index < list@.len() ==> x + block_width(all.skip(index as int)) == start + block,
            -4 * LENGTH_MAX <= start <= 2 * LENGTH_MAX,
            start <= x,
            0 <= block <= 2 * LENGTH_MAX,
            forall|i: int| 0 <= i < list@.len() ==> 0 < #[trigger] list@[i].width <= LENGTH_MAX,
        decreases list.len() - index,
    {
        let ghost rest = all.skip(index as int);
        assert(rest.drop_first() =~= all.skip(index as int + 1));
        proof {
            lemma_block_positive(rest.drop_first());
        }
        let piece = &list[index];
        assert(rest[0] == all[index as int]);
        let ghost spot = Spot { x: x as int, text: piece.text@, color: piece.color };
        let ghost held = spots(placed@);
        placed.push(Placed { x, text: piece.text.clone(), color: piece.color });
        assert(spots(placed@) =~= held.push(spot));
        x = x + piece.width + MODULE_GAP;
        index = index + 1;
        assert(held + (seq![spot] + place(rest.drop_first(), x as int)) =~= held.push(spot) + place(
            rest.drop_first(),
            x as int,
        ));
    }
    assert(all.skip(index as int) =~= Seq::<Fitted>::empty());
    assert(spots(placed@) =~= before + place(all, start as int));
}

proof fn lemma_block_positive(fitted: Seq<Fitted>)
    requires
        forall|i: int| 0 <= i < fitted.len() ==> 0 < #[trigger] fitted[i].width,
    ensures
        block_width(fitted) >= 0,
        fitted.len() > 0 ==> block_width(fitted) > 0,
    decreases fitted.len(),
{
    if fitted.len() > 1 {
        lemma_block_positive(fitted.drop_first());
    }
}

/// Work out where each module goes inside a status bar of `width`.
///
/// The centre segment is placed first and keeps its natural width; the left and
/// right segments get whatever room is left on their side. Each segment is then
/// cut to its own band, so a long module only ever costs its own segment.
/// Modules with no text take no room.
pub fn layout<F: Fn(&str, i64) -> Vec<Run>>(
    width: i64,
    config: &Config,
    values: &[ModuleValue],
    renderer: &Renderer<F>,
) -> (placed: Vec<Placed>)
    requires
        renderer.wf(),
        in_range(width as int),
    ensures
        spots(placed@) == bar_placed(width as int, *config, values@, *renderer),
{
    let size: i64 = config.bar.font_size;
    let foreground = config.bar.foreground;
    let modules = &config.bar.module;
    let inner_width: i64 = max_length(width - 2 * PADDING, 0);

    let left = segment_members(modules, values, 0);
    let centre = segment_members(modules, values, 1);
    let right = segment_members(modules, values, 2);

    // The bands: where the centre one lies decides how much is left beside it.
    let centre_width: i64 = measured_width(values, &centre, size, renderer, inner_width);
    let centre_left: i64 = half(width - centre_width);
    let centre_right: i64 = centre_left + centre_width;
    let left_room: i64 = max_length(centre_left - SEGMENT_GAP - PADDING, 0);
    let right_room: i64 = max_length(width - PADDING - centre_right - SEGMENT_GAP, 0);

    let mut placed: Vec<Placed> = Vec::new();
    assert(spots(placed@) =~= Seq::<Spot>::empty());
    let (list, block) = fit_segment(
        modules,
        values,
        foreground,
        size,
        &left,
        left_room,
        renderer,
    );
    place_segment(&list, PADDING, block, &mut placed);
    let (list, block) = fit_segment(
        modules,
        values,
        foreground,
        size,
        &centre,
        centre_width,
        renderer,
    );
    place_segment(&list, half(width - block), block, &mut placed);
    let (list, block) = fit_segment(
        modules,
        values,
        foreground,
        size,
        &right,
        right_room,
        renderer,
    );
    place_segment(&list, width - PADDING - block, block, &mut placed);
    assert(spots(placed@) =~= bar_placed(width as int, *config, values@, *renderer));
    placed
}

proof fn lemma_natural_positive<F: Fn(&str, i64) -> Vec<Run>>(
    renderer: Renderer<F>,
    values: Seq<ModuleValue>,
    indices: Seq<int>,
    size: i64,
)
    ensures
        natural_width(renderer, values, indices, size) >= 0,
    decreases indices.len(),
{
    if indices.len() > 0 {
        lemma_natural_positive(renderer, values, indices.drop_last(), size);
        widths_are_not_negative(renderer, text_at(values, indices.last()), size);
    }
}

/// True of what a segment shows unless a text of it ends in an ellipsis that adds
/// more than its own width.
spec fn fitted_add_up<F: Fn(&str, i64) -> Vec<Run>>(
    renderer: Renderer<F>,
    fitted: Seq<Fitted>,
    size: i64,
) -> bool {
    forall|i: int|
        0 <= i < fitted.len() ==> marker_adds_up(renderer, (#[trigger] fitted[i]).text, size)
}

/// What a segment shows takes no more than the segment's room.
proof fn lemma_fit_within<F: Fn(&str, i64) -> Vec<Run>>(
    renderer: Renderer<F>,
    modules: Seq<Module>,
    values: Seq<ModuleValue>,
    foreground: Rgba,
    size: i64,
    indices: Seq<int>,
    room: int,
    first: bool,
)
    ensures
        ({
            let fitted = fit(renderer, modules, values, foreground, size, indices, room, first);
            &&& forall|i: int|
                0 <= i < fitted.len() ==> 0 < #[trigger] fitted[i].width && fitted[i].width
                    == renderer.width_of(fitted[i].text, size)
            &&& fitted.len() > 0 && fitted_add_up(renderer, fitted, size) ==> block_width(fitted)
                + (if first {
                0
            } else {
                MODULE_GAP as int
            }) <= room
        }),
    decreases indices.len(),
{
    let gap = if first {
        0
    } else {
        MODULE_GAP as int
    };
    if indices.len() == 0 || room <= gap {
    } else {
        let text = renderer.shortened(text_at(values, indices[0]), room - gap, size);
        let width = renderer.width_of(text, size);
        let rest = indices.drop_first();
        if width <= 0 {
            lemma_fit_within(renderer, modules, values, foreground, size, rest, room, first);
        } else {
            let tail = fit(
                renderer,
                modules,
                values,
                foreground,
                size,
                rest,
                room - gap - width,
                false,
            );
            let fitted = fit(renderer, modules, values, foreground, size, indices, room, first);
            assert(fitted.drop_first() =~= tail);
            assert(fitted[0].text == text);
            if fitted_add_up(renderer, fitted, size) {
                assert(marker_adds_up(renderer, fitted[0].text, size));
                a_shortened_text_fits(renderer, text_at(values, indices[0]), room - gap, size);
                assert forall|i: int| 0 <= i < tail.len() implies marker_adds_up(
                    renderer,
                    (#[trigger] tail[i]).text,
                    size,
                ) by {
                    assert(tail[i] == fitted[i + 1]);
                }
            }
            lemma_fit_within(
                renderer,
                modules,
                values,
                foreground,
                size,
                rest,
                room - gap - width,
                false,
            );
            assert forall|i: int| 0 <= i < fitted.len() implies 0 < #[trigger] fitted[i].width
                && fitted[i].width == renderer.width_of(fitted[i].text, size) by {
                if i > 0 {
                    assert(fitted[i] == tail[i - 1]);
                }
            }
        }
    }
}

/// Placed modules follow one another, a gap apart, inside their block.
proof fn lemma_place(fitted: Seq<Fitted>, x: int)
    requires
        forall|i: int| 0 <= i < fitted.len() ==> 0 < #[trigger] fitted[i].width,
    ensures
        place(fitted, x).len() == fitted.len(),
        forall|i: int|
            0 <= i < fitted.len() ==> {
                let spot = #[trigger] place(fitted, x)[i];
                &&& spot.text == fitted[i].text
                &&& x <= spot.x
                &&& spot.x + fitted[i].width <= x + block_width(fitted)
            },
        forall|i: int, j: int|
            0 <= i < j < fitted.len() ==> #[trigger] place(fitted, x)[i].x + fitted[i].width
                + MODULE_GAP <= #[trigger] place(fitted, x)[j].x,
    decreases fitted.len(),
{
    if fitted.len() > 0 {
        let rest = fitted.drop_first();
        let next = x + fitted[0].width + MODULE_GAP;
        lemma_place(rest, next);
        lemma_block_positive(rest);
        let placed = place(fitted, x);
        assert forall|i: int| 0 <= i < fitted.len() implies {
            let spot = #[trigger] placed[i];
            &&& spot.text == fitted[i].text
            &&& x <= spot.x
            &&& spot.x + fitted[i].width <= x + block_width(fitted)
        } by {
            if i > 0 {
                assert(placed[i] == place(rest, next)[i - 1]);
            }
        }
        assert forall|i: int, j: int| 0 <= i < j < fitted.len() implies #[trigger] placed[i].x
            + fitted[i].width + MODULE_GAP <= #[trigger] placed[j].x by {
            assert(placed[j] == place(rest, next)[j - 1]);
            if i > 0 {
                assert(placed[i] == place(rest, next)[i - 1]);
            }
        }
    }
}

/// Where a segment's band starts.
pub open spec fn band_start(width: int, natural: int, segment: int) -> int {
    if segment == 0 {
        PADDING as int
    } else if segment == 1 {
        centre_left(width, natural)
    } else {
        centre_left(width, natural) + centre_width(width, natural) + SEGMENT_GAP
    }
}

/// Where a segment's band ends.
pub open spec fn band_end(width: int, natural: int, segment: int) -> int {
    if segment == 0 {
        centre_left(width, natural) - SEGMENT_GAP
    } else if segment == 1 {
        centre_left(width, natural) + centre_width(width, natural)
    } else {
        width - PADDING
    }
}

/// The width the centre segment would have if nothing were cut.
pub open spec fn centre_natural<F: Fn(&str, i64) -> Vec<Run>>(
    config: Config,
    values: Seq<ModuleValue>,
    renderer: Renderer<F>,
) -> int {
    let modules = config.bar.module@;
    natural_width(
        renderer,
        values,
        members(modules, values, 1, modules.len()),
        config.bar.font_size,
    )
}

/// No module reaches past its segment's band, and the modules of a segment
/// follow one another with the configured gap between them.
pub proof fn a_segment_stays_in_its_band<F: Fn(&str, i64) -> Vec<Run>>(
    width: int,
    config: Config,
    values: Seq<ModuleValue>,
    renderer: Renderer<F>,
    segment: int,
)
    requires
        forall|i: int|
            0 <= i < segment_placed(width, config, values, renderer, segment).len()
                ==> marker_adds_up(
                renderer,
                (#[trigger] segment_placed(width, config, values, renderer, segment)[i]).text,
                config.bar.font_size,
            ),
        0 <= segment <= 2,
    ensures
        ({
            let placed = segment_placed(width, config, values, renderer, segment);
            let natural = centre_natural(config, values, renderer);
            let size = config.bar.font_size;
            &&& forall|i: int|
                0 <= i < placed.len() ==> band_start(width, natural, segment) <= (
                #[trigger] placed[i]).x && placed[i].x + renderer.width_of(placed[i].text, size)
                    <= band_end(width, natural, segment)
            &&& forall|i: int, j: int|
                0 <= i < j < placed.len() ==> (#[trigger] placed[i]).x + renderer.width_of(
                    placed[i].text,
                    size,
                ) + MODULE_GAP <= (#[trigger] placed[j]).x
        }),
{
    let modules = config.bar.module@;
    let size = config.bar.font_size;
    let natural = centre_natural(config, values, renderer);
    let indices = members(modules, values, segment, modules.len());
    let room = budget(width, natural, segment);
    let fitted = segment_fitted(width, config, values, renderer, segment);
    lemma_natural_positive(renderer, values, members(modules, values, 1, modules.len()), size);
    lemma_fit_within(renderer, modules, values, config.bar.foreground, size, indices, room, true);
    lemma_place(fitted, segment_start(width, block_width(fitted), segment));
    let placed = segment_placed(width, config, values, renderer, segment);
    assert forall|i: int| 0 <= i < fitted.len() implies marker_adds_up(
        renderer,
        (#[trigger] fitted[i]).text,
        size,
    ) by {
        assert(placed[i].text == fitted[i].text);
    }
    assert forall|i: int| 0 <= i < placed.len() implies band_start(width, natural, segment) <= (
    #[trigger] placed[i]).x && placed[i].x + renderer.width_of(placed[i].text, size) <= band_end(
        width,
        natural,
        segment,
    ) by {
        assert(fitted[i].width == renderer.width_of(fitted[i].text, size));
    }
    assert forall|i: int, j: int| 0 <= i < j < placed.len() implies (#[trigger] placed[i]).x
        + renderer.width_of(placed[i].text, size) + MODULE_GAP <= (#[trigger] placed[j]).x by {
        assert(fitted[i].width == renderer.width_of(fitted[i].text, size));
    }
}

/// True of a bar unless a text that it shows ends in an ellipsis that adds more
/// than its own width.
pub open spec fn markers_add_up<F: Fn(&str, i64) -> Vec<Run>>(
    width: int,
    config: Config,
    values: Seq<ModuleValue>,
    renderer: Renderer<F>,
) -> bool {
    forall|i: int|
        0 <= i < bar_placed(width, config, values, renderer).len() ==> marker_adds_up(
            renderer,
            (#[trigger] bar_placed(width, config, values, renderer)[i]).text,
            config.bar.font_size,
        )
}

/// Nothing is drawn outside the padding: every module of every segment starts
/// after the left padding and ends before the right one.
pub proof fn nothing_is_placed_outside_the_padding<F: Fn(&str, i64) -> Vec<Run>>(
    width: int,
    config: Config,
    values: Seq<ModuleValue>,
    renderer: Renderer<F>,
)
    requires
        markers_add_up(width, config, values, renderer),
    ensures
        forall|i: int|
            0 <= i < bar_placed(width, config, values, renderer).len() ==> {
                let spot = #[trigger] bar_placed(width, config, values, renderer)[i];
                &&& PADDING <= spot.x
                &&& spot.x + renderer.width_of(spot.text, config.bar.font_size) <= width - PADDING
            },
{
    let natural = centre_natural(config, values, renderer);
    let left = segment_placed(width, config, values, renderer, 0);
    let centre = segment_placed(width, config, values, renderer, 1);
    let right = segment_placed(width, config, values, renderer, 2);
    lemma_segments(width, config, values, renderer);
    assert forall|i: int| 0 <= i < bar_placed(width, config, values, renderer).len() implies {
        let spot = #[trigger] bar_placed(width, config, values, renderer)[i];
        &&& PADDING <= spot.x
        &&& spot.x + renderer.width_of(spot.text, config.bar.font_size) <= width - PADDING
    } by {
        let placed = bar_placed(width, config, values, renderer);
        if i < left.len() {
            assert(placed[i] == left[i]);
        } else if i < left.len() + centre.len() {
            assert(placed[i] == centre[i - left.len()]);
        } else {
            assert(placed[i] == right[i - left.len() - centre.len()]);
        }
    }
}

/// What holds of the texts of a bar holds of the texts of each of its segments.
proof fn lemma_markers_of_a_segment<F: Fn(&str, i64) -> Vec<Run>>(
    width: int,
    config: Config,
    values: Seq<ModuleValue>,
    renderer: Renderer<F>,
    segment: int,
)
    requires
        markers_add_up(width, config, values, renderer),
        0 <= segment <= 2,
    ensures
        forall|i: int|
            0 <= i < segment_placed(width, config, values, renderer, segment).len()
                ==> marker_adds_up(
                renderer,
                (#[trigger] segment_placed(width, config, values, renderer, segment)[i]).text,
                config.bar.font_size,
            ),
{
    let left = segment_placed(width, config, values, renderer, 0);
    let centre = segment_placed(width, config, values, renderer, 1);
    let placed = segment_placed(width, config, values, renderer, segment);
    let before: int = if segment == 0 {
        0
    } else if segment == 1 {
        left.len() as int
    } else {
        left.len() as int + centre.len()
    };
    assert forall|i: int| 0 <= i < placed.len() implies marker_adds_up(
        renderer,
        (#[trigger] placed[i]).text,
        config.bar.font_size,
    ) by {
        assert(placed[i] == bar_placed(width, config, values, renderer)[before + i]);
    }
}

/// What is known of each segment where it shows anything.
proof fn lemma_segments<F: Fn(&str, i64) -> Vec<Run>>(
    width: int,
    config: Config,
    values: Seq<ModuleValue>,
    renderer: Renderer<F>,
)
    requires
        markers_add_up(width, config, values, renderer),
    ensures
        ({
            let natural = centre_natural(config, values, renderer);
            let size = config.bar.font_size;
            &&& forall|s: int, i: int|
                0 <= s <= 2 && 0 <= i < segment_placed(width, config, values, renderer, s).len()
                    ==> {
                    let spot = #[trigger] segment_placed(width, config, values, renderer, s)[i];
                    &&& PADDING <= band_start(width, natural, s)
                    &&& band_end(width, natural, s) <= width - PADDING
                    &&& band_start(width, natural, s) <= spot.x
                    &&& spot.x + renderer.width_of(spot.text, size) <= band_end(width, natural, s)
                }
            &&& centre_width(width, natural) >= 0
        }),
{
    let natural = centre_natural(config, values, renderer);
    let size = config.bar.font_size;
    let modules = config.bar.module@;
    lemma_natural_positive(renderer, values, members(modules, values, 1, modules.len()), size);
    assert forall|s: int, i: int|
        0 <= s <= 2 && 0 <= i < segment_placed(
            width,
            config,
            values,
            renderer,
            s,
        ).len() implies {
        let spot = #[trigger] segment_placed(width, config, values, renderer, s)[i];
        &&& PADDING <= band_start(width, natural, s)
        &&& band_end(width, natural, s) <= width - PADDING
        &&& band_start(width, natural, s) <= spot.x
        &&& spot.x + renderer.width_of(spot.text, size) <= band_end(width, natural, s)
    } by {
        lemma_markers_of_a_segment(width, config, values, renderer, s);
        a_segment_stays_in_its_band(width, config, values, renderer, s);
        let fitted = segment_fitted(width, config, values, renderer, s);
        lemma_fit_within(
            renderer,
            modules,
            values,
            config.bar.foreground,
            size,
            members(modules, values, s, modules.len()),
            budget(width, natural, s),
            true,
        );
        lemma_place(fitted, segment_start(width, block_width(fitted), s));
        let placed = segment_placed(width, config, values, renderer, s);
        assert forall|k: int| 0 <= k < fitted.len() implies marker_adds_up(
            renderer,
            (#[trigger] fitted[k]).text,
            size,
        ) by {
            assert(placed[k].text == fitted[k].text);
        }
        lemma_block_positive(fitted);
    }
}

/// No segment reaches into a neighbour: whatever a segment shows ends at least
/// the segment gap before anything a later segment shows.
pub proof fn segments_keep_their_distance<F: Fn(&str, i64) -> Vec<Run>>(
    width: int,
    config: Config,
    values: Seq<ModuleValue>,
    renderer: Renderer<F>,
    earlier: int,
    later: int,
    i: int,
    j: int,
)
    requires
        markers_add_up(width, config, values, renderer),
        0 <= earlier < later <= 2,
        0 <= i < segment_placed(width, config, values, renderer, earlier).len(),
        0 <= j < segment_placed(width, config, values, renderer, later).len(),
    ensures
        ({
            let before = segment_placed(width, config, values, renderer, earlier)[i];
            let after = segment_placed(width, config, values, renderer, later)[j];
            before.x + renderer.width_of(before.text, config.bar.font_size) + SEGMENT_GAP
                <= after.x
        }),
{
    lemma_segments(width, config, values, renderer);
    let before = segment_placed(width, config, values, renderer, earlier)[i];
    let after = segment_placed(width, config, values, renderer, later)[j];
}

/// No two modules of the bar overlap: each one ends at least the module gap
/// before the next one starts.
pub proof fn modules_never_overlap<F: Fn(&str, i64) -> Vec<Run>>(
    width: int,
    config: Config,
    values: Seq<ModuleValue>,
    renderer: Renderer<F>,
    i: int,
    j: int,
)
    requires
        markers_add_up(width, config, values, renderer),
        0 <= i < j < bar_placed(width, config, values, renderer).len(),
    ensures
        ({
            let placed = bar_placed(width, config, values, renderer);
            placed[i].x + renderer.width_of(placed[i].text, config.bar.font_size) + MODULE_GAP
                <= placed[j].x
        }),
{
    let placed = bar_placed(width, config, values, renderer);
    let left = segment_placed(width, config, values, renderer, 0);
    let centre = segment_placed(width, config, values, renderer, 1);
    let right = segment_placed(width, config, values, renderer, 2);
    let (s, a) = locate(left, centre, right, i);
    let (t, b) = locate(left, centre, right, j);
    assert(placed[i] == segment_placed(width, config, values, renderer, s)[a]);
    assert(placed[j] == segment_placed(width, config, values, renderer, t)[b]);
    if s < t {
        segments_keep_their_distance(width, config, values, renderer, s, t, a, b);
    } else {
        lemma_markers_of_a_segment(width, config, values, renderer, s);
        a_segment_stays_in_its_band(width, config, values, renderer, s);
    }
}

/// The segment that holds the `i`-th module of the bar, and its place there.
spec fn locate(left: Seq<Spot>, centre: Seq<Spot>, right: Seq<Spot>, i: int) -> (int, int) {
    if i < left.len() {
        (0, i)
    } else if i < left.len() + centre.len() {
        (1, i - left.len())
    } else {
        (2, i - left.len() - centre.len())
    }
}

/// The modules of a segment are in their configured order.
pub proof fn members_follow_the_configured_order(
    modules: Seq<Module>,
    values: Seq<ModuleValue>,
    segment: int,
    count: nat,
)
    requires
        count <= modules.len(),
    ensures
        forall|i: int|
            0 <= i < members(modules, values, segment, count).len() ==> 0 <= (
            #[trigger] members(modules, values, segment, count)[i]) < count,
        forall|i: int, j: int|
            0 <= i < j < members(modules, values, segment, count).len() ==> (#[trigger] members(
                modules,
                values,
                segment,
                count,
            )[i]) < (#[trigger] members(modules, values, segment, count)[j]),
    decreases count,
{
    if count > 0 {
        members_follow_the_configured_order(modules, values, segment, (count - 1) as nat);
        let earlier = members(modules, values, segment, (count - 1) as nat);
        let all = members(modules, values, segment, count);
        assert forall|i: int| 0 <= i < all.len() implies 0 <= (#[trigger] all[i]) < count by {
            if i < earlier.len() {
                assert(all[i] == earlier[i]);
            }
        }
        assert forall|i: int, j: int| 0 <= i < j < all.len() implies (#[trigger] all[i]) < (
        #[trigger] all[j]) by {
            assert(all[i] == earlier[i]);
            if j < earlier.len() {
                assert(all[j] == earlier[j]);
            }
        }
    }
}

/// A segment that has room for its natural width shows every one of its modules,
/// uncut and in order. (A text that measures nothing takes no place.)
pub proof fn nothing_is_cut_while_there_is_room<F: Fn(&str, i64) -> Vec<Run>>(
    renderer: Renderer<F>,
    modules: Seq<Module>,
    values: Seq<ModuleValue>,
    foreground: Rgba,
    size: i64,
    indices: Seq<int>,
    room: int,
)
    requires
        natural_width(renderer, values, indices, size) <= room,
        forall|i: int|
            0 <= i < indices.len() ==> renderer.width_of(
                text_at(values, #[trigger] indices[i]),
                size,
            ) > 0,
    ensures
        fit(renderer, modules, values, foreground, size, indices, room, true) == Seq::new(
            indices.len(),
            |i: int|
                Fitted {
                    text: text_at(values, indices[i]),
                    width: renderer.width_of(text_at(values, indices[i]), size),
                    color: color_at(modules, values, indices[i], foreground),
                },
        ),
{
    lemma_uncut(renderer, modules, values, foreground, size, indices, room, true);
}

proof fn lemma_natural_front<F: Fn(&str, i64) -> Vec<Run>>(
    renderer: Renderer<F>,
    values: Seq<ModuleValue>,
    indices: Seq<int>,
    size: i64,
)
    requires
        indices.len() > 0,
    ensures
        natural_width(renderer, values, indices, size) == renderer.width_of(
            text_at(values, indices[0]),
            size,
        ) + (if indices.len() > 1 {
            MODULE_GAP + natural_width(renderer, values, indices.drop_first(), size)
        } else {
            0
        }),
    decreases indices.len(),
{
    if indices.len() == 1 {
        assert(natural_width(renderer, values, indices.drop_last(), size) == 0);
    } else {
        lemma_natural_front(renderer, values, indices.drop_last(), size);
        assert(indices.drop_first().last() == indices.last());
        assert(indices.drop_last().drop_first() =~= indices.drop_first().drop_last());
        if indices.len() == 2 {
            assert(natural_width(renderer, values, indices.drop_first().drop_last(), size) == 0);
        }
    }
}

proof fn lemma_uncut<F: Fn(&str, i64) -> Vec<Run>>(
    renderer: Renderer<F>,
    modules: Seq<Module>,
    values: Seq<ModuleValue>,
    foreground: Rgba,
    size: i64,
    indices: Seq<int>,
    room: int,
    first: bool,
)
    requires
        natural_width(renderer, values, indices, size) + (if first {
            0
        } else {
            MODULE_GAP as int
        }) <= room || indices.len() == 0,
        forall|i: int|
            0 <= i < indices.len() ==> renderer.width_of(
                text_at(values, #[trigger] indices[i]),
                size,
            ) > 0,
    ensures
        fit(renderer, modules, values, foreground, size, indices, room, first) =~= Seq::new(
            indices.len(),
            |i: int|
                Fitted {
                    text: text_at(values, indices[i]),
                    width: renderer.width_of(text_at(values, indices[i]), size),
                    color: color_at(modules, values, indices[i], foreground),
                },
        ),
    decreases indices.len(),
{
    if indices.len() > 0 {
        let rest = indices.drop_first();
        let gap = if first {
            0
        } else {
            MODULE_GAP as int
        };
        lemma_natural_front(renderer, values, indices, size);
        lemma_natural_positive(renderer, values, rest, size);
        assert(renderer.width_of(text_at(values, indices[0]), size) > 0);
        assert forall|i: int| 0 <= i < rest.len() implies renderer.width_of(
            text_at(values, #[trigger] rest[i]),
            size,
        ) > 0 by {
            assert(rest[i] == indices[i + 1]);
        }
        let width = renderer.width_of(text_at(values, indices[0]), size);
        lemma_uncut(renderer, modules, values, foreground, size, rest, room - gap - width, false);
    }
}

/// True of two lists of values in which every module that is not in `segment` shows
/// the same.
pub open spec fn same_elsewhere(
    config: Config,
    a: Seq<ModuleValue>,
    b: Seq<ModuleValue>,
    segment: int,
) -> bool {
    forall|i: int|
        0 <= i < config.bar.module@.len() && segment_of((#[trigger] config.bar.module@[i]).align)
            != segment ==> text_at(a, i) == text_at(b, i) && color_at(
            config.bar.module@,
            a,
            i,
            config.bar.foreground,
        ) == color_at(config.bar.module@, b, i, config.bar.foreground)
}

/// True of two lists of values in which the modules at `indices` show the same.
spec fn same_at(
    modules: Seq<Module>,
    foreground: Rgba,
    a: Seq<ModuleValue>,
    b: Seq<ModuleValue>,
    indices: Seq<int>,
) -> bool {
    forall|k: int|
        0 <= k < indices.len() ==> text_at(a, #[trigger] indices[k]) == text_at(b, indices[k])
            && color_at(modules, a, indices[k], foreground) == color_at(
            modules,
            b,
            indices[k],
            foreground,
        )
}

proof fn lemma_same_members(
    config: Config,
    a: Seq<ModuleValue>,
    b: Seq<ModuleValue>,
    changed: int,
    segment: int,
    count: nat,
)
    requires
        same_elsewhere(config, a, b, changed),
        segment != changed,
        count <= config.bar.module@.len(),
    ensures
        members(config.bar.module@, a, segment, count) == members(
            config.bar.module@,
            b,
            segment,
            count,
        ),
        same_at(
            config.bar.module@,
            config.bar.foreground,
            a,
            b,
            members(config.bar.module@, a, segment, count),
        ),
    decreases count,
{
    if count > 0 {
        lemma_same_members(config, a, b, changed, segment, (count - 1) as nat);
        let module = config.bar.module@[count - 1];
        let earlier = members(config.bar.module@, a, segment, (count - 1) as nat);
        let all = members(config.bar.module@, a, segment, count);
        assert forall|k: int| 0 <= k < all.len() implies text_at(a, #[trigger] all[k]) == text_at(
            b,
            all[k],
        ) && color_at(config.bar.module@, a, all[k], config.bar.foreground) == color_at(
            config.bar.module@,
            b,
            all[k],
            config.bar.foreground,
        ) by {
            if k < earlier.len() {
                assert(all[k] == earlier[k]);
            } else {
                assert(segment_of(module.align) == segment);
            }
        }
    }
}

proof fn lemma_same_natural<F: Fn(&str, i64) -> Vec<Run>>(
    renderer: Renderer<F>,
    modules: Seq<Module>,
    foreground: Rgba,
    a: Seq<ModuleValue>,
    b: Seq<ModuleValue>,
    indices: Seq<int>,
    size: i64,
)
    requires
        same_at(modules, foreground, a, b, indices),
    ensures
        natural_width(renderer, a, indices, size) == natural_width(renderer, b, indices, size),
    decreases indices.len(),
{
    if indices.len() > 0 {
        let front = indices.drop_last();
        assert forall|k: int| 0 <= k < front.len() implies text_at(a, #[trigger] front[k])
            == text_at(b, front[k]) && color_at(modules, a, front[k], foreground) == color_at(
            modules,
            b,
            front[k],
            foreground,
        ) by {
            assert(front[k] == indices[k]);
        }
        lemma_same_natural(renderer, modules, foreground, a, b, front, size);
        assert(indices.last() == indices[indices.len() - 1]);
    }
}

proof fn lemma_same_fit<F: Fn(&str, i64) -> Vec<Run>>(
    renderer: Renderer<F>,
    modules: Seq<Module>,
    foreground: Rgba,
    a: Seq<ModuleValue>,
    b: Seq<ModuleValue>,
    size: i64,
    indices: Seq<int>,
    room: int,
    first: bool,
)
    requires
        same_at(modules, foreground, a, b, indices),
    ensures
        fit(renderer, modules, a, foreground, size, indices, room, first) == fit(
            renderer,
            modules,
            b,
            foreground,
            size,
            indices,
            room,
            first,
        ),
    decreases indices.len(),
{
    let gap = if first {
        0
    } else {
        MODULE_GAP as int
    };
    if indices.len() > 0 && room > gap {
        let rest = indices.drop_first();
        assert forall|k: int| 0 <= k < rest.len() implies text_at(a, #[trigger] rest[k])
            == text_at(b, rest[k]) && color_at(modules, a, rest[k], foreground) == color_at(
            modules,
            b,
            rest[k],
            foreground,
        ) by {
            assert(rest[k] == indices[k + 1]);
        }
        let text = renderer.shortened(text_at(a, indices[0]), room - gap, size);
        let width = renderer.width_of(text, size);
        lemma_same_fit(renderer, modules, foreground, a, b, size, rest, room, first);
        lemma_same_fit(renderer, modules, foreground, a, b, size, rest, room - gap - width, false);
    }
}

/// A long module only ever costs its own segment: whatever the modules on one side
/// report, the centre and the other side show the same in the same places.
pub proof fn a_long_module_only_costs_its_own_segment<F: Fn(&str, i64) -> Vec<Run>>(
    width: int,
    config: Config,
    a: Seq<ModuleValue>,
    b: Seq<ModuleValue>,
    renderer: Renderer<F>,
    changed: int,
    segment: int,
)
    requires
        changed == 0 || changed == 2,
        segment != changed,
        same_elsewhere(config, a, b, changed),
    ensures
        segment_placed(width, config, a, renderer, segment) == segment_placed(
            width,
            config,
            b,
            renderer,
            segment,
        ),
{
    let modules = config.bar.module@;
    let foreground = config.bar.foreground;
    let size = config.bar.font_size;
    let centre = members(modules, a, 1, modules.len());
    lemma_same_members(config, a, b, changed, 1, modules.len());
    lemma_same_members(config, a, b, changed, segment, modules.len());
    lemma_same_natural(renderer, modules, foreground, a, b, centre, size);
    lemma_same_fit(
        renderer,
        modules,
        foreground,
        a,
        b,
        size,
        members(modules, a, segment, modules.len()),
        budget(width, natural_width(renderer, a, centre, size), segment),
        true,
    );
}

/// True of a fitted module that shows what the module at `index` reported, in that
/// module's colour.
pub open spec fn shows<F: Fn(&str, i64) -> Vec<Run>>(
    fitted: Fitted,
    renderer: Renderer<F>,
    modules: Seq<Module>,
    values: Seq<ModuleValue>,
    foreground: Rgba,
    size: i64,
    index: int,
) -> bool {
    &&& fitted.color == color_at(modules, values, index, foreground)
    &&& exists|room: int| fitted.text == #[trigger] renderer.shortened(
        text_at(values, index),
        room,
        size,
    )
}

/// A module that was dropped cannot shift the colours of the ones after it: every
/// module that is shown shows its own text, shortened, in its own colour, and they
/// come in the order of their segment.
pub proof fn every_module_keeps_its_own_colour<F: Fn(&str, i64) -> Vec<Run>>(
    renderer: Renderer<F>,
    modules: Seq<Module>,
    values: Seq<ModuleValue>,
    foreground: Rgba,
    size: i64,
    indices: Seq<int>,
    room: int,
    first: bool,
) -> (from: Seq<int>)
    ensures
        ({
            let fitted = fit(renderer, modules, values, foreground, size, indices, room, first);
            &&& from.len() == fitted.len()
            &&& forall|k: int|
                0 <= k < from.len() ==> 0 <= #[trigger] from[k] < indices.len() && shows(
                    fitted[k],
                    renderer,
                    modules,
                    values,
                    foreground,
                    size,
                    indices[from[k]],
                )
            &&& forall|k: int, l: int|
                0 <= k < l < from.len() ==> #[trigger] from[k] < #[trigger] from[l]
        }),
    decreases indices.len(),
{
    let gap = if first {
        0
    } else {
        MODULE_GAP as int
    };
    let fitted = fit(renderer, modules, values, foreground, size, indices, room, first);
    if indices.len() == 0 || room <= gap {
        Seq::empty()
    } else {
        let text = renderer.shortened(text_at(values, indices[0]), room - gap, size);
        let width = renderer.width_of(text, size);
        let rest = indices.drop_first();
        if width <= 0 {
            let later = every_module_keeps_its_own_colour(
                renderer,
                modules,
                values,
                foreground,
                size,
                rest,
                room,
                first,
            );
            let from = Seq::new(later.len(), |k: int| later[k] + 1);
            assert forall|k: int| 0 <= k < from.len() implies 0 <= #[trigger] from[k]
                < indices.len() && shows(
                fitted[k],
                renderer,
                modules,
                values,
                foreground,
                size,
                indices[from[k]],
            ) by {
                assert(rest[later[k]] == indices[from[k]]);
            }
            from
        } else {
            let later = every_module_keeps_its_own_colour(
                renderer,
                modules,
                values,
                foreground,
                size,
                rest,
                room - gap - width,
                false,
            );
            let tail = fit(renderer, modules, values, foreground, size, rest, room - gap - width, false);
            let from = seq![0int] + Seq::new(later.len(), |k: int| later[k] + 1);
            assert forall|k: int| 0 <= k < from.len() implies 0 <= #[trigger] from[k]
                < indices.len() && shows(
                fitted[k],
                renderer,
                modules,
                values,
                foreground,
                size,
                indices[from[k]],
            ) by {
                if k > 0 {
                    assert(from[k] == later[k - 1] + 1);
                    assert(fitted[k] == tail[k - 1]);
                    assert(rest[later[k - 1]] == indices[from[k]]);
                }
            }
            assert forall|k: int, l: int| 0 <= k < l < from.len() implies #[trigger] from[k]
                < #[trigger] from[l] by {
                assert(from[l] == later[l - 1] + 1);
                if k > 0 {
                    assert(from[k] == later[k - 1] + 1);
                }
            }
            from
        }
    }
}

/// How much of the bar is still behind the border, of `content` that slides out.
pub open spec fn hidden_part(content: int, progress: int) -> int {
    content - content * progress / (FULL as int)
}

/// How far up a bar on a surface of the given height is moved.
pub open spec fn bar_shift(height: u32, border: u32, progress: int) -> int {
    hidden_part(larger((height - border) * PIXEL, 0), progress)
}

/// Where the text line of a bar that is fully out starts: centred in the bar, and
/// never above it.
pub open spec fn text_top(config: Config) -> int {
    config.border.width * PIXEL + larger(
        (config.bar.height * PIXEL - line_height_at(config.bar.font_size as int)) / 2,
        0,
    )
}

/// The texts of a bar, on a line that starts at `top`.
pub open spec fn text_marks(spots: Seq<Spot>, top: int, size: int) -> Seq<Mark> {
    Seq::new(
        spots.len(),
        |i: int|
            Mark::Text {
                text: spots[i].text,
                x: spots[i].x,
                y: top,
                size,
                color: spots[i].color,
            },
    )
}

/// What the top edge shows. Collapsed it is nothing but the border strip. As the
/// bar slides out, its panel comes down from behind the strip, and its texts are
/// drawn as soon as they are clear of the strip.
pub open spec fn bar_scene<F: Fn(&str, i64) -> Vec<Run>>(
    surface: (u32, u32),
    config: Config,
    values: Seq<ModuleValue>,
    renderer: Renderer<F>,
    progress: int,
) -> Seq<Mark> {
    let width = surface.0 * PIXEL;
    let height = surface.1 * PIXEL;
    let border = config.border.width * PIXEL;
    let strip = Mark::Rect { x: 0, y: 0, width, height: border, color: config.border.color };
    let shift = bar_shift(surface.1, config.border.width, progress);
    if progress == 0 {
        seq![strip]
    } else {
        let panel = seq![
            Mark::RoundBottom {
                x: 0,
                y: -shift,
                width,
                height,
                radius: CORNER_RADIUS as int,
                color: config.bar.background,
            },
            strip,
        ];
        let top = text_top(config) - shift;
        if top < border {
            panel
        } else {
            panel + text_marks(
                bar_placed(width, config, values, renderer),
                top,
                config.bar.font_size as int,
            )
        }
    }
}

proof fn lemma_hidden_part(content: int, progress: int)
    requires
        0 <= content,
        0 <= progress <= FULL,
    ensures
        0 <= content * progress <= content * FULL,
        0 <= hidden_part(content, progress) <= content,
        progress == FULL ==> hidden_part(content, progress) == 0,
        progress == 0 ==> hidden_part(content, progress) == content,
{
    assert(0 <= content * progress <= content * 150_000_000) by (nonlinear_arith)
        requires
            0 <= content,
            0 <= progress <= 150_000_000,
    ;
}

/// Paint the top edge: background, border strip, then the modules.
///
/// One block, round below and square on top, so that no transparent notch is left
/// just below the border. It is painted once, so that a translucent background is
/// equally opaque all over.
pub fn paint<F: Fn(&str, i64) -> Vec<Run>>(
    surface: (u32, u32),
    config: &Config,
    values: &[ModuleValue],
    renderer: &Renderer<F>,
    progress: u32,
) -> (draws: Vec<Draw>)
    requires
        renderer.wf(),
        progress <= FULL,
        line_height_at(config.bar.font_size as int) <= i64::MAX,
    ensures
        scene(draws@) == bar_scene(surface, *config, values@, *renderer, progress as int),
{
    let width: i64 = px(surface.0);
    let height: i64 = px(surface.1);
    let border: i64 = px(config.border.width);
    let mut draws: Vec<Draw> = Vec::new();
    if progress == 0 {
        draws.push(Draw::Rect { x: 0, y: 0, width, height: border, color: config.border.color });
        assert(scene(draws@) =~= bar_scene(surface, *config, values@, *renderer, 0));
        return draws;
    }
    let content: i64 = max_length(height - border, 0);
    proof {
        lemma_hidden_part(content as int, progress as int);
    }
    let out: i128 = (content as i128) * (progress as i128) / (FULL as i128);
    let shift: i64 = content - (out as i64);
    draws.push(
        Draw::RoundBottom {
            x: 0,
            y: -shift,
            width,
            height,
            radius: CORNER_RADIUS,
            color: config.bar.background,
        },
    );
    draws.push(Draw::Rect { x: 0, y: 0, width, height: border, color: config.border.color });

    let size: i64 = config.bar.font_size;
    let line: i64 = renderer.line_height(size);
    let top: i64 = border + max_length(half(px(config.bar.height) - line), 0) - shift;
    let ghost panel = scene(draws@);
    if top < border {
        assert(panel =~= bar_scene(surface, *config, values@, *renderer, progress as int));
        return draws;
    }
    let placed = layout(width, config, values, renderer);
    let ghost marks = text_marks(spots(placed@), top as int, size as int);
    let mut index: usize = 0;
    assert(scene(draws@) =~= panel + marks.take(0));
    while index < placed.len()
        invariant
            0 <= index <= placed@.len(),
            marks == text_marks(spots(placed@), top as int, size as int),
            scene(draws@) == panel + marks.take(index as int),
        decreases placed.len() - index,
    {
        let ghost before = draws@;
        let module = &placed[index];
        draws.push(
            Draw::Text {
                text: module.text.as_str().to_owned(),
                x: module.x,
                y: top,
                size,
                color: module.color,
            },
        );
        proof {
            assert(draws@.last()@ == marks[index as int]);
            assert(scene(draws@) =~= scene(before).push(marks[index as int]));
            assert(scene(draws@) =~= panel + marks.take(index as int + 1));
        }
        index = index + 1;
    }
    proof {
        assert(marks.take(index as int) =~= marks);
        assert(scene(draws@) =~= bar_scene(
            surface,
            *config,
            values@,
            *renderer,
            progress as int,
        ));
    }
    draws
}

/// A bar that is fully out is not moved at all, and one that is collapsed is
/// behind the border as a whole.
pub proof fn a_bar_slides_all_the_way(height: u32, border: u32)
    requires
        border <= height,
    ensures
        bar_shift(height, border, FULL as int) == 0,
        bar_shift(height, border, 0) == height * PIXEL - border * PIXEL,
{
    lemma_hidden_part(larger((height - border) * PIXEL, 0), FULL as int);
    lemma_hidden_part(larger((height - border) * PIXEL, 0), 0);
}

/// However far out the bar is, its panel reaches up behind the border and down at
/// least to where the border ends: no seam shows between the two.
pub proof fn the_bar_never_leaves_the_border(height: u32, border: u32, progress: int)
    requires
        border <= height,
        0 <= progress <= FULL,
    ensures
        -bar_shift(height, border, progress) <= 0,
        height * PIXEL - bar_shift(height, border, progress) >= border * PIXEL,
{
    lemma_hidden_part(larger((height - border) * PIXEL, 0), progress);
}

/// The background of the bar is painted once at most, so that no part of it is more
/// opaque than the rest.
pub proof fn the_background_is_painted_once<F: Fn(&str, i64) -> Vec<Run>>(
    surface: (u32, u32),
    config: Config,
    values: Seq<ModuleValue>,
    renderer: Renderer<F>,
    progress: int,
    i: int,
)
    requires
        0 <= i < bar_scene(surface, config, values, renderer, progress).len(),
    ensures
        ({
            let mark = bar_scene(surface, config, values, renderer, progress)[i];
            &&& mark is RoundBottom ==> i == 0 && progress != 0
            &&& mark is Rect ==> mark->Rect_color == config.border.color
            &&& !(mark is RoundRect)
        }),
{
}

/// The further out the bar is, the further down it reaches.
pub proof fn a_bar_comes_down_as_it_slides_out(height: u32, border: u32, less: int, more: int)
    requires
        0 <= less <= more <= FULL,
    ensures
        bar_shift(height, border, more) <= bar_shift(height, border, less),
{
    let content = larger((height - border) * PIXEL, 0);
    assert(content * less <= content * more) by (nonlinear_arith)
        requires
            0 <= content,
            less <= more,
    ;
    vstd::arithmetic::div_mod::lemma_div_is_ordered(content * less, content * more, FULL as int);
}

/// Every text of the bar lands below the border.
pub proof fn module_text_lands_below_the_border<F: Fn(&str, i64) -> Vec<Run>>(
    surface: (u32, u32),
    config: Config,
    values: Seq<ModuleValue>,
    renderer: Renderer<F>,
    progress: int,
    i: int,
)
    requires
        0 <= i < bar_scene(surface, config, values, renderer, progress).len(),
    ensures
        bar_scene(surface, config, values, renderer, progress)[i] matches Mark::Text { y, .. }
            ==> y >= config.border.width * PIXEL,
{
}

} // verus!
