//! What a status bar shows, said of the modules it was given and of the places it
//! gives them.

use vstd::prelude::*;

use super::{
    bar_placed, bar_scene, block_width, budget, centre_natural, color_at, fit, members,
    natural_width, place, segment_fitted, segment_of, segment_placed, text_at, Fitted, ModuleValue,
    Spot, MODULE_GAP, PADDING, SEGMENT_GAP,
};
use crate::app::FULL;
use crate::config::{Align, Config, Module, Rgba};
use crate::geometry::PIXEL;
use crate::render::{
    line_height_at, widths_are_not_negative, Mark, Renderer, Run, CORNER_RADIUS,
};

verus! {

/// True of a module of the bar that has something to say.
pub open spec fn speaks(values: Seq<ModuleValue>, i: int) -> bool {
    0 <= i < values.len() && values[i].text@.len() > 0
}

/// True of a module that is configured for a segment.
pub open spec fn aligned(module: Module, segment: int) -> bool {
    match module.align {
        Align::Left => segment == 0,
        Align::Center => segment == 1,
        Align::Right => segment == 2,
    }
}

/// True of the colour a module is to be shown in: what it reported decides, or else
/// what it was configured with, or else the bar's foreground.
pub open spec fn coloured(config: Config, values: Seq<ModuleValue>, i: int, color: Rgba) -> bool {
    let own = config.bar.module@[i].color;
    &&& values[i].color matches Some(reported) ==> color == reported
    &&& values[i].color is None ==> (own matches Some(configured) ==> color == configured)
    &&& values[i].color is None && own is None ==> color == config.bar.foreground
}

/// How much of a segment's room is gone, gaps included, before its `k`-th module.
pub open spec fn taken<F: Fn(&str, i64) -> Vec<Run>>(
    renderer: Renderer<F>,
    placed: Seq<Spot>,
    size: i64,
    k: int,
) -> int {
    if k <= 0 {
        0
    } else {
        placed[k - 1].x + renderer.width_of(placed[k - 1].text, size) + MODULE_GAP - placed[0].x
    }
}

spec fn used(fitted: Seq<Fitted>, k: int, first: bool) -> int
    decreases k,
{
    if k <= 0 {
        if first {
            0
        } else {
            MODULE_GAP as int
        }
    } else {
        used(fitted, k - 1, first) + fitted[k - 1].width + MODULE_GAP
    }
}

proof fn lemma_used(fitted: Seq<Fitted>, k: int, first: bool)
    requires
        1 <= k <= fitted.len(),
    ensures
        used(fitted, k, first) == used(fitted, 0, first) + fitted[0].width + used(
            fitted.drop_first(),
            k - 1,
            false,
        ),
        used(fitted.drop_first(), k - 1, false) == used(fitted.drop_first(), k - 1, true)
            + MODULE_GAP,
    decreases k,
{
    let rest = fitted.drop_first();
    if k > 1 {
        lemma_used(fitted, k - 1, first);
        assert(rest[k - 2] == fitted[k - 1]);
    } else {
        assert(used(fitted, 1, first) == used(fitted, 0, first) + fitted[0].width + MODULE_GAP);
    }
}

proof fn lemma_place_at(fitted: Seq<Fitted>, x: int)
    ensures
        place(fitted, x).len() == fitted.len(),
        forall|k: int|
            0 <= k < fitted.len() ==> {
                let spot = #[trigger] place(fitted, x)[k];
                &&& spot.x == x + used(fitted, k, true)
                &&& spot.text == fitted[k].text
                &&& spot.color == fitted[k].color
            },
        fitted.len() > 0 ==> block_width(fitted) == used(fitted, fitted.len() as int, true)
            - MODULE_GAP,
    decreases fitted.len(),
{
    if fitted.len() > 0 {
        let rest = fitted.drop_first();
        let next = x + fitted[0].width + MODULE_GAP;
        lemma_place_at(rest, next);
        let placed = place(fitted, x);
        assert forall|k: int| 0 <= k < fitted.len() implies {
            let spot = #[trigger] placed[k];
            &&& spot.x == x + used(fitted, k, true)
            &&& spot.text == fitted[k].text
            &&& spot.color == fitted[k].color
        } by {
            if k > 0 {
                assert(placed[k] == place(rest, next)[k - 1]);
                lemma_used(fitted, k, true);
            }
        }
        lemma_used(fitted, fitted.len() as int, true);
        if fitted.len() == 1 {
            assert(used(rest, 0, false) == MODULE_GAP);
        }
    }
}

/// True of a fitted module that is the one at `index`, cut to `left`.
spec fn got<F: Fn(&str, i64) -> Vec<Run>>(
    renderer: Renderer<F>,
    modules: Seq<Module>,
    values: Seq<ModuleValue>,
    foreground: Rgba,
    size: i64,
    index: int,
    left: int,
    fitted: Fitted,
) -> bool {
    &&& fitted.text == renderer.shortened(text_at(values, index), left, size)
    &&& fitted.width == renderer.width_of(fitted.text, size)
    &&& fitted.width > 0
    &&& fitted.color == color_at(modules, values, index, foreground)
}

/// True of a module of which nothing shows when it is cut to `left`.
spec fn got_nothing<F: Fn(&str, i64) -> Vec<Run>>(
    renderer: Renderer<F>,
    values: Seq<ModuleValue>,
    size: i64,
    index: int,
    left: int,
) -> bool {
    left <= 0 || renderer.width_of(
        renderer.shortened(text_at(values, index), left, size),
        size,
    ) <= 0
}

spec fn handed_out<F: Fn(&str, i64) -> Vec<Run>>(
    renderer: Renderer<F>,
    modules: Seq<Module>,
    values: Seq<ModuleValue>,
    foreground: Rgba,
    size: i64,
    indices: Seq<int>,
    room: int,
    first: bool,
    fitted: Seq<Fitted>,
    at: Seq<int>,
) -> bool {
    &&& at.len() == fitted.len()
    &&& forall|k: int|
        0 <= k < at.len() ==> 0 <= #[trigger] at[k] < indices.len() && got(
            renderer,
            modules,
            values,
            foreground,
            size,
            indices[at[k]],
            room - used(fitted, k, first),
            fitted[k],
        )
    &&& forall|k: int, l: int| 0 <= k < l < at.len() ==> #[trigger] at[k] < #[trigger] at[l]
    &&& forall|p: int, k: int|
        0 <= p < indices.len() && 0 <= k <= at.len() && (k > 0 ==> at[k - 1] < p) && (k < at.len()
            ==> p < at[k]) ==> got_nothing(
            renderer,
            values,
            size,
            #[trigger] indices[p],
            room - #[trigger] used(fitted, k, first),
        )
}

/// How a segment's room is handed out. The answer says which of `indices` each
/// fitted module comes from.
proof fn lemma_handed_out<F: Fn(&str, i64) -> Vec<Run>>(
    renderer: Renderer<F>,
    modules: Seq<Module>,
    values: Seq<ModuleValue>,
    foreground: Rgba,
    size: i64,
    indices: Seq<int>,
    room: int,
    first: bool,
) -> (at: Seq<int>)
    ensures
        handed_out(
            renderer,
            modules,
            values,
            foreground,
            size,
            indices,
            room,
            first,
            fit(renderer, modules, values, foreground, size, indices, room, first),
            at,
        ),
    decreases indices.len(),
{
    let gap = if first {
        0
    } else {
        MODULE_GAP as int
    };
    let fitted = fit(renderer, modules, values, foreground, size, indices, room, first);
    assert(used(fitted, 0, first) == gap);
    if indices.len() == 0 || room <= gap {
        Seq::empty()
    } else {
        let text = renderer.shortened(text_at(values, indices[0]), room - gap, size);
        let width = renderer.width_of(text, size);
        let rest = indices.drop_first();
        if width <= 0 {
            let later = lemma_handed_out(
                renderer,
                modules,
                values,
                foreground,
                size,
                rest,
                room,
                first,
            );
            let at = Seq::new(later.len(), |k: int| later[k] + 1);
            lemma_one_skipped(
                renderer,
                modules,
                values,
                foreground,
                size,
                indices,
                room,
                first,
                fitted,
                later,
                at,
            );
            at
        } else {
            let left = room - gap - width;
            let later = lemma_handed_out(
                renderer,
                modules,
                values,
                foreground,
                size,
                rest,
                left,
                false,
            );
            let tail = fit(renderer, modules, values, foreground, size, rest, left, false);
            assert(fitted.drop_first() =~= tail);
            let at = seq![0int] + Seq::new(later.len(), |k: int| later[k] + 1);
            lemma_one_placed(
                renderer,
                modules,
                values,
                foreground,
                size,
                indices,
                room,
                first,
                fitted,
                later,
                at,
            );
            at
        }
    }
}

proof fn lemma_one_skipped<F: Fn(&str, i64) -> Vec<Run>>(
    renderer: Renderer<F>,
    modules: Seq<Module>,
    values: Seq<ModuleValue>,
    foreground: Rgba,
    size: i64,
    indices: Seq<int>,
    room: int,
    first: bool,
    fitted: Seq<Fitted>,
    later: Seq<int>,
    at: Seq<int>,
)
    requires
        indices.len() > 0,
        handed_out(
            renderer,
            modules,
            values,
            foreground,
            size,
            indices.drop_first(),
            room,
            first,
            fitted,
            later,
        ),
        got_nothing(renderer, values, size, indices[0], room - used(fitted, 0, first)),
        at == Seq::new(later.len(), |k: int| later[k] + 1),
    ensures
        handed_out(
            renderer,
            modules,
            values,
            foreground,
            size,
            indices,
            room,
            first,
            fitted,
            at,
        ),
{
    let rest = indices.drop_first();
    assert forall|k: int| 0 <= k < at.len() implies 0 <= #[trigger] at[k] < indices.len() && got(
        renderer,
        modules,
        values,
        foreground,
        size,
        indices[at[k]],
        room - used(fitted, k, first),
        fitted[k],
    ) by {
        assert(rest[later[k]] == indices[at[k]]);
    }
    assert forall|p: int, k: int|
        0 <= p < indices.len() && 0 <= k <= at.len() && (k > 0 ==> at[k - 1] < p) && (k < at.len()
            ==> p < at[k]) implies got_nothing(
        renderer,
        values,
        size,
        #[trigger] indices[p],
        room - #[trigger] used(fitted, k, first),
    ) by {
        if k > 0 {
            assert(at[k - 1] == later[k - 1] + 1);
            assert(later[k - 1] >= 0);
        }
        if k < at.len() {
            assert(at[k] == later[k] + 1);
        }
        if p > 0 {
            assert(rest[p - 1] == indices[p]);
        }
    }
}

proof fn lemma_one_placed<F: Fn(&str, i64) -> Vec<Run>>(
    renderer: Renderer<F>,
    modules: Seq<Module>,
    values: Seq<ModuleValue>,
    foreground: Rgba,
    size: i64,
    indices: Seq<int>,
    room: int,
    first: bool,
    fitted: Seq<Fitted>,
    later: Seq<int>,
    at: Seq<int>,
)
    requires
        indices.len() > 0,
        fitted.len() > 0,
        handed_out(
            renderer,
            modules,
            values,
            foreground,
            size,
            indices.drop_first(),
            room - used(fitted, 0, first) - fitted[0].width,
            false,
            fitted.drop_first(),
            later,
        ),
        got(
            renderer,
            modules,
            values,
            foreground,
            size,
            indices[0],
            room - used(fitted, 0, first),
            fitted[0],
        ),
        at == seq![0int] + Seq::new(later.len(), |k: int| later[k] + 1),
    ensures
        handed_out(
            renderer,
            modules,
            values,
            foreground,
            size,
            indices,
            room,
            first,
            fitted,
            at,
        ),
{
    let rest = indices.drop_first();
    let tail = fitted.drop_first();
    assert forall|k: int| 0 <= k < at.len() implies 0 <= #[trigger] at[k] < indices.len() && got(
        renderer,
        modules,
        values,
        foreground,
        size,
        indices[at[k]],
        room - used(fitted, k, first),
        fitted[k],
    ) by {
        if k > 0 {
            assert(at[k] == later[k - 1] + 1);
            assert(fitted[k] == tail[k - 1]);
            assert(rest[later[k - 1]] == indices[at[k]]);
            lemma_used(fitted, k, first);
        }
    }
    assert forall|k: int, l: int| 0 <= k < l < at.len() implies #[trigger] at[k]
        < #[trigger] at[l] by {
        assert(at[l] == later[l - 1] + 1);
        if k > 0 {
            assert(at[k] == later[k - 1] + 1);
        }
    }
    assert forall|p: int, k: int|
        0 <= p < indices.len() && 0 <= k <= at.len() && (k > 0 ==> at[k - 1] < p) && (k < at.len()
            ==> p < at[k]) implies got_nothing(
        renderer,
        values,
        size,
        #[trigger] indices[p],
        room - #[trigger] used(fitted, k, first),
    ) by {
        assert(at[0] == 0);
        assert(k > 0);
        if k > 1 {
            assert(at[k - 1] == later[k - 2] + 1);
        }
        if k < at.len() {
            assert(at[k] == later[k - 1] + 1);
        }
        assert(p > 0);
        assert(rest[p - 1] == indices[p]);
        lemma_used(fitted, k, first);
        let spent = used(tail, k - 1, false);
    }
}

/// A module is among a segment's modules exactly if it is configured for that
/// segment and has reported a text that is not empty; nothing else about it counts.
pub proof fn every_module_that_speaks_is_a_member_of_its_segment(
    modules: Seq<Module>,
    values: Seq<ModuleValue>,
    segment: int,
    count: nat,
    i: int,
)
    requires
        count <= modules.len(),
    ensures
        members(modules, values, segment, count).contains(i) <==> {
            &&& 0 <= i < count
            &&& modules[i].align == Align::Left && segment == 0 || modules[i].align
                == Align::Center && segment == 1 || modules[i].align == Align::Right && segment == 2
            &&& i < values.len() && values[i].text@.len() > 0
        },
    decreases count,
{
    if count > 0 {
        let earlier = members(modules, values, segment, (count - 1) as nat);
        let all = members(modules, values, segment, count);
        every_module_that_speaks_is_a_member_of_its_segment(
            modules,
            values,
            segment,
            (count - 1) as nat,
            i,
        );
        if earlier.contains(i) {
            let at = choose|at: int| 0 <= at < earlier.len() && earlier[at] == i;
            assert(all[at] == i);
        }
        if all.len() > earlier.len() {
            assert(all[earlier.len() as int] == count - 1);
        }
        if all.contains(i) && i != count - 1 {
            let at = choose|at: int| 0 <= at < all.len() && all[at] == i;
            assert(earlier[at] == i);
        }
    }
}

/// A segment hands its room out in the configured order. The answer says which
/// module each place belongs to: a module of the segment that has a text, shown in
/// its own colour and cut to the room that is left, right behind the one before. A
/// module with a text is left out only where no room was left for any of it.
pub proof fn a_segment_hands_its_room_out_in_order<F: Fn(&str, i64) -> Vec<Run>>(
    width: int,
    config: Config,
    values: Seq<ModuleValue>,
    renderer: Renderer<F>,
    segment: int,
) -> (from: Seq<int>)
    ensures
        ({
            let placed = segment_placed(width, config, values, renderer, segment);
            let modules = config.bar.module@;
            let size = config.bar.font_size;
            let room = budget(width, centre_natural(config, values, renderer), segment);
            &&& from.len() == placed.len()
            &&& forall|k: int|
                0 <= k < from.len() ==> {
                    let i = #[trigger] from[k];
                    &&& 0 <= i < modules.len()
                    &&& aligned(modules[i], segment)
                    &&& speaks(values, i)
                    &&& coloured(config, values, i, placed[k].color)
                    &&& placed[k].x == placed[0].x + taken(renderer, placed, size, k)
                    &&& placed[k].text == renderer.shortened(
                        values[i].text@,
                        room - taken(renderer, placed, size, k),
                        size,
                    )
                    &&& renderer.width_of(placed[k].text, size) > 0
                }
            &&& forall|k: int, l: int|
                0 <= k < l < from.len() ==> #[trigger] from[k] < #[trigger] from[l]
            &&& forall|i: int|
                0 <= i < modules.len() && aligned(#[trigger] modules[i], segment) && speaks(
                    values,
                    i,
                ) && !from.contains(i) ==> exists|k: int|
                    0 <= k <= from.len() && (k > 0 ==> from[k - 1] < i) && (k < from.len() ==> i
                        < from[k]) && (room <= #[trigger] taken(renderer, placed, size, k)
                        || renderer.width_of(
                        renderer.shortened(
                            values[i].text@,
                            room - taken(renderer, placed, size, k),
                            size,
                        ),
                        size,
                    ) <= 0)
        }),
{
    let modules = config.bar.module@;
    let size = config.bar.font_size;
    let natural = centre_natural(config, values, renderer);
    let indices = members(modules, values, segment, modules.len());
    let room = budget(width, natural, segment);
    let fitted = segment_fitted(width, config, values, renderer, segment);
    let placed = segment_placed(width, config, values, renderer, segment);
    let start = super::segment_start(width, block_width(fitted), segment);
    let at = lemma_handed_out(
        renderer,
        modules,
        values,
        config.bar.foreground,
        size,
        indices,
        room,
        true,
    );
    lemma_place_at(fitted, start);
    super::members_follow_the_configured_order(modules, values, segment, modules.len());
    let from = Seq::new(at.len(), |k: int| indices[at[k]]);
    assert forall|k: int| 0 <= k <= at.len() implies used(fitted, k, true) == #[trigger] taken(
        renderer,
        placed,
        size,
        k,
    ) by {
        if k > 0 {
            assert(at[k - 1] >= 0);
            assert(placed[k - 1].x == start + used(fitted, k - 1, true));
            assert(placed[0].x == start + used(fitted, 0, true));
        }
    }
    assert forall|k: int| 0 <= k < from.len() implies {
        let i = #[trigger] from[k];
        &&& 0 <= i < modules.len()
        &&& aligned(modules[i], segment)
        &&& speaks(values, i)
        &&& coloured(config, values, i, placed[k].color)
        &&& placed[k].x == placed[0].x + taken(renderer, placed, size, k)
        &&& placed[k].text == renderer.shortened(
            values[i].text@,
            room - taken(renderer, placed, size, k),
            size,
        )
        &&& renderer.width_of(placed[k].text, size) > 0
    } by {
        let i = from[k];
        assert(at[k] >= 0);
        assert(indices.contains(i));
        every_module_that_speaks_is_a_member_of_its_segment(
            modules,
            values,
            segment,
            modules.len(),
            i,
        );
        assert(placed[k].x == start + used(fitted, k, true));
        assert(placed[0].x == start + used(fitted, 0, true));
    }
    assert forall|k: int, l: int| 0 <= k < l < from.len() implies #[trigger] from[k]
        < #[trigger] from[l] by {
        assert(at[k] < at[l]);
        assert(indices[at[k]] < indices[at[l]]);
    }
    assert forall|i: int|
        0 <= i < modules.len() && aligned(#[trigger] modules[i], segment) && speaks(values, i)
            && !from.contains(i) implies exists|k: int|
        0 <= k <= from.len() && (k > 0 ==> from[k - 1] < i) && (k < from.len() ==> i < from[k])
            && (room <= #[trigger] taken(renderer, placed, size, k) || renderer.width_of(
            renderer.shortened(
                values[i].text@,
                room - taken(renderer, placed, size, k),
                size,
            ),
            size,
        ) <= 0) by {
        every_module_that_speaks_is_a_member_of_its_segment(
            modules,
            values,
            segment,
            modules.len(),
            i,
        );
        let p = choose|p: int| 0 <= p < indices.len() && indices[p] == i;
        let k = lemma_rank(at, p);
        if k < at.len() && at[k] == p {
            assert(from[k] == i);
        }
        assert(used(fitted, k, true) == taken(renderer, placed, size, k));
        if k > 0 {
            assert(indices[at[k - 1]] < indices[p]);
            assert(from[k - 1] == indices[at[k - 1]]);
        }
        if k < at.len() {
            assert(indices[p] < indices[at[k]]);
            assert(from[k] == indices[at[k]]);
        }
    }
    from
}

/// Where a number stands among ascending ones.
proof fn lemma_rank(at: Seq<int>, p: int) -> (k: int)
    requires
        forall|k: int, l: int| 0 <= k < l < at.len() ==> #[trigger] at[k] < #[trigger] at[l],
    ensures
        0 <= k <= at.len(),
        k > 0 ==> at[k - 1] < p,
        k < at.len() ==> p <= at[k],
    decreases at.len(),
{
    if at.len() == 0 || at.last() < p {
        at.len() as int
    } else {
        let front = at.drop_last();
        assert forall|k: int, l: int| 0 <= k < l < front.len() implies #[trigger] front[k]
            < #[trigger] front[l] by {
            assert(at[k] < at[l]);
        }
        lemma_rank(front, p)
    }
}

/// The segments are anchored: the first module on the left starts at the padding, the
/// last one on the right ends at the padding, and in the centre as much is left free
/// on one side as on the other, but for one unit that cannot be split.
pub proof fn segments_are_anchored<F: Fn(&str, i64) -> Vec<Run>>(
    width: int,
    config: Config,
    values: Seq<ModuleValue>,
    renderer: Renderer<F>,
    segment: int,
)
    requires
        segment_placed(width, config, values, renderer, segment).len() > 0,
        0 <= segment <= 2,
    ensures
        ({
            let placed = segment_placed(width, config, values, renderer, segment);
            let start = placed[0].x;
            let end = placed.last().x + renderer.width_of(placed.last().text, config.bar.font_size);
            &&& segment == 0 ==> start == PADDING
            &&& segment == 1 ==> width - 1 <= start + end <= width
            &&& segment == 2 ==> end == width - PADDING
        }),
{
    let fitted = segment_fitted(width, config, values, renderer, segment);
    let start = super::segment_start(width, block_width(fitted), segment);
    lemma_place_at(fitted, start);
    super::lemma_fit_within(
        renderer,
        config.bar.module@,
        values,
        config.bar.foreground,
        config.bar.font_size,
        members(config.bar.module@, values, segment, config.bar.module@.len()),
        budget(width, centre_natural(config, values, renderer), segment),
        true,
    );
    let placed = segment_placed(width, config, values, renderer, segment);
    let last = placed.len() - 1;
    assert(placed[last].x == start + used(fitted, last, true));
    assert(placed[0].x == start + used(fitted, 0, true));
    assert(fitted[last].width == renderer.width_of(fitted[last].text, config.bar.font_size));
}

/// The centre has room for all it would show, up to the padding, and is centred; the
/// sides have what is left beside it, less the padding and the gap between segments.
pub proof fn the_centre_comes_first(width: int, natural: int)
    requires
        0 <= natural,
    ensures
        ({
            let left = budget(width, natural, 0);
            let centre = budget(width, natural, 1);
            let right = budget(width, natural, 2);
            let around = 2 * (PADDING + SEGMENT_GAP) + centre;
            &&& natural <= width - 2 * PADDING ==> centre == natural
            &&& natural > width - 2 * PADDING ==> centre == if width >= 2 * PADDING {
                width - 2 * PADDING
            } else {
                0
            }
            &&& left >= 0 && right >= 0
            &&& left > 0 ==> width - 1 <= 2 * left + around <= width
            &&& left == 0 ==> around >= width - 1
            &&& right > 0 ==> width <= 2 * right + around <= width + 1
            &&& right == 0 ==> around >= width
        }),
{
}

/// A segment would be as wide as its modules' texts and the gaps between them: a
/// single text for itself, and two groups of modules together with one gap more.
pub proof fn widths_and_gaps_add_up<F: Fn(&str, i64) -> Vec<Run>>(
    renderer: Renderer<F>,
    values: Seq<ModuleValue>,
    some: Seq<int>,
    more: Seq<int>,
    size: i64,
    i: int,
)
    ensures
        natural_width(renderer, values, Seq::empty(), size) == 0,
        0 <= i < values.len() ==> natural_width(renderer, values, seq![i], size)
            == renderer.width_of(values[i].text@, size),
        some.len() > 0 && more.len() > 0 ==> natural_width(renderer, values, some + more, size)
            == natural_width(renderer, values, some, size) + MODULE_GAP + natural_width(
            renderer,
            values,
            more,
            size,
        ),
    decreases more.len(),
{
    assert(seq![i].drop_last() =~= Seq::<int>::empty());
    assert(natural_width(renderer, values, seq![i].drop_last(), size) == 0);
    if some.len() > 0 && more.len() > 0 {
        let all = some + more;
        assert(all.drop_last() =~= some + more.drop_last());
        if more.len() == 1 {
            assert(all.drop_last() =~= some);
            assert(more.drop_last() =~= Seq::<int>::empty());
            assert(natural_width(renderer, values, more.drop_last(), size) == 0);
        } else {
            widths_and_gaps_add_up(renderer, values, some, more.drop_last(), size, i);
        }
    }
}

/// What counts for the centre's width are its modules that have a text, and no others.
pub proof fn the_centre_is_as_wide_as_its_modules<F: Fn(&str, i64) -> Vec<Run>>(
    config: Config,
    values: Seq<ModuleValue>,
    renderer: Renderer<F>,
    indices: Seq<int>,
)
    requires
        forall|k: int, l: int|
            0 <= k < l < indices.len() ==> #[trigger] indices[k] < #[trigger] indices[l],
        forall|i: int| #[trigger]
            indices.contains(i) <==> 0 <= i < config.bar.module@.len() && aligned(
                config.bar.module@[i],
                1,
            ) && speaks(values, i),
    ensures
        centre_natural(config, values, renderer) == natural_width(
            renderer,
            values,
            indices,
            config.bar.font_size,
        ),
{
    let modules = config.bar.module@;
    let all = members(modules, values, 1, modules.len());
    super::members_follow_the_configured_order(modules, values, 1, modules.len());
    assert forall|i: int| all.contains(i) <==> indices.contains(i) by {
        every_module_that_speaks_is_a_member_of_its_segment(modules, values, 1, modules.len(), i);
    }
    lemma_same_ascending(all, indices);
}

proof fn lemma_same_ascending(a: Seq<int>, b: Seq<int>)
    requires
        forall|k: int, l: int| 0 <= k < l < a.len() ==> #[trigger] a[k] < #[trigger] a[l],
        forall|k: int, l: int| 0 <= k < l < b.len() ==> #[trigger] b[k] < #[trigger] b[l],
        forall|i: int| #[trigger] a.contains(i) <==> b.contains(i),
    ensures
        a == b,
    decreases a.len(),
{
    if a.len() == 0 {
        if b.len() > 0 {
            assert(b.contains(b[0]));
            assert(a.contains(b[0]));
        }
        assert(a =~= b);
    } else {
        assert(a.contains(a.last()));
        assert(b.contains(a.last()));
        assert(b.contains(b.last()));
        assert(a.contains(b.last()));
        let i = choose|i: int| 0 <= i < b.len() && b[i] == a.last();
        let j = choose|j: int| 0 <= j < a.len() && a[j] == b.last();
        if i < b.len() - 1 {
            assert(b[i] < b[b.len() - 1]);
        }
        if j < a.len() - 1 {
            assert(a[j] < a[a.len() - 1]);
        }
        assert(a.last() == b.last());
        let (front_a, front_b) = (a.drop_last(), b.drop_last());
        assert forall|i: int| #[trigger] front_a.contains(i) <==> front_b.contains(i) by {
            lemma_front(a, i);
            lemma_front(b, i);
            assert(a.contains(i) <==> b.contains(i));
        }
        lemma_same_ascending(front_a, front_b);
        assert(a =~= front_a.push(a.last()));
        assert(b =~= front_b.push(b.last()));
    }
}

proof fn lemma_front(a: Seq<int>, i: int)
    requires
        a.len() > 0,
        forall|k: int, l: int| 0 <= k < l < a.len() ==> #[trigger] a[k] < #[trigger] a[l],
    ensures
        a.drop_last().contains(i) <==> a.contains(i) && i != a.last(),
{
    let front = a.drop_last();
    if front.contains(i) {
        let k = choose|k: int| 0 <= k < front.len() && front[k] == i;
        assert(a[k] == i);
        assert(a[k] < a[a.len() - 1]);
    }
    if a.contains(i) && i != a.last() {
        let k = choose|k: int| 0 <= k < a.len() && a[k] == i;
        assert(front[k] == i);
    }
}

/// True of a text that is another one, or a beginning of it behind which an ellipsis
/// marks the cut.
pub open spec fn cut_from(text: Seq<char>, whole: Seq<char>) -> bool {
    text == whole || exists|count: int|
        0 <= count < whole.len() && text == #[trigger] whole.take(count) + "…"@
}

/// True of a place of the bar that shows the module at `i`.
pub open spec fn shown_at(
    config: Config,
    values: Seq<ModuleValue>,
    i: int,
    spot: Spot,
) -> bool {
    &&& 0 <= i < config.bar.module@.len()
    &&& speaks(values, i)
    &&& coloured(config, values, i, spot.color)
    &&& cut_from(spot.text, values[i].text@)
}

/// True when a module comes before another one on the bar: further left by segment,
/// or else by the configured order.
pub open spec fn further_left(config: Config, i: int, j: int) -> bool {
    let (a, b) = (config.bar.module@[i].align, config.bar.module@[j].align);
    if a == b {
        i < j
    } else {
        a == Align::Left || b == Align::Right
    }
}

proof fn lemma_cut<F: Fn(&str, i64) -> Vec<Run>>(
    renderer: Renderer<F>,
    text: Seq<char>,
    room: int,
    size: i64,
)
    requires
        renderer.width_of(renderer.shortened(text, room, size), size) > 0,
    ensures
        cut_from(renderer.shortened(text, room, size), text),
        room > 0,
{
    let marker = renderer.width_of("…"@, size);
    if room > 0 && text.len() > 0 && renderer.width_of(text, size) > room && marker <= room {
        let kept = renderer.kept_from(text, room - marker, size, 0);
        crate::render::the_cut_is_as_late_as_possible(renderer, text, room - marker, size, 0);
        if kept == text.len() {
            widths_are_not_negative(renderer, "…"@, size);
            assert(text.take(kept) =~= text);
            assert(kept > 0);
            assert(renderer.width_of(text.take(kept), size) <= room - marker);
        }
        assert(renderer.shortened(text, room, size) == text.take(kept) + "…"@);
    }
}

/// Every place of the bar belongs to a module: one that has a text, which is shown
/// whole or cut, in the module's own colour. No module has two places, and they come
/// segment by segment, in their configured order. The answer says which is whose.
pub proof fn every_place_belongs_to_a_module<F: Fn(&str, i64) -> Vec<Run>>(
    width: int,
    config: Config,
    values: Seq<ModuleValue>,
    renderer: Renderer<F>,
) -> (from: Seq<int>)
    ensures
        ({
            let placed = bar_placed(width, config, values, renderer);
            &&& from.len() == placed.len()
            &&& forall|k: int|
                0 <= k < from.len() ==> shown_at(config, values, #[trigger] from[k], placed[k])
            &&& forall|k: int, l: int|
                0 <= k < l < from.len() ==> further_left(
                    config,
                    #[trigger] from[k],
                    #[trigger] from[l],
                )
        }),
{
    let a = a_segment_hands_its_room_out_in_order(width, config, values, renderer, 0);
    let b = a_segment_hands_its_room_out_in_order(width, config, values, renderer, 1);
    let c = a_segment_hands_its_room_out_in_order(width, config, values, renderer, 2);
    lemma_segments_together(width, config, values, renderer, a, b, c);
    a + b + c
}

proof fn lemma_segments_together<F: Fn(&str, i64) -> Vec<Run>>(
    width: int,
    config: Config,
    values: Seq<ModuleValue>,
    renderer: Renderer<F>,
    a: Seq<int>,
    b: Seq<int>,
    c: Seq<int>,
)
    requires
        whose(width, config, values, renderer, 0, a),
        whose(width, config, values, renderer, 1, b),
        whose(width, config, values, renderer, 2, c),
    ensures
        ({
            let placed = bar_placed(width, config, values, renderer);
            let from = a + b + c;
            &&& from.len() == placed.len()
            &&& forall|k: int|
                0 <= k < from.len() ==> shown_at(config, values, #[trigger] from[k], placed[k])
            &&& forall|k: int, l: int|
                0 <= k < l < from.len() ==> further_left(
                    config,
                    #[trigger] from[k],
                    #[trigger] from[l],
                )
        }),
{
    let size = config.bar.font_size;
    let natural = centre_natural(config, values, renderer);
    let placed = bar_placed(width, config, values, renderer);
    let from = a + b + c;
    let modules = config.bar.module@;
    let left = segment_placed(width, config, values, renderer, 0);
    let centre = segment_placed(width, config, values, renderer, 1);
    let right = segment_placed(width, config, values, renderer, 2);
    assert forall|k: int| 0 <= k < from.len() implies shown_at(
        config,
        values,
        #[trigger] from[k],
        placed[k],
    ) && segment_of(modules[from[k]].align) == (if k < a.len() {
        0int
    } else if k < a.len() + b.len() {
        1
    } else {
        2
    }) by {
        let (segment, own, from_own, at) = if k < a.len() {
            (0int, left, a, k)
        } else if k < a.len() + b.len() {
            (1int, centre, b, k - a.len())
        } else {
            (2int, right, c, k - a.len() - b.len())
        };
        assert(placed[k] == own[at]);
        assert(from[k] == from_own[at]);
        lemma_cut(
            renderer,
            values[from[k]].text@,
            budget(width, natural, segment) - taken(renderer, own, size, at),
            size,
        );
    }
    assert forall|k: int, l: int| 0 <= k < l < from.len() implies further_left(
        config,
        #[trigger] from[k],
        #[trigger] from[l],
    ) by {
        if l < a.len() {
            assert(from[k] == a[k] && from[l] == a[l]);
        } else if k >= a.len() && l < a.len() + b.len() {
            assert(from[k] == b[k - a.len()] && from[l] == b[l - a.len()]);
        } else if k >= a.len() + b.len() {
            assert(from[k] == c[k - a.len() - b.len()] && from[l] == c[l - a.len() - b.len()]);
        }
    }
}

/// The widths of the first `count` values, with a gap for each.
pub open spec fn all_widths<F: Fn(&str, i64) -> Vec<Run>>(
    renderer: Renderer<F>,
    values: Seq<ModuleValue>,
    size: i64,
    count: int,
) -> int
    decreases count,
{
    if count <= 0 {
        0
    } else {
        all_widths(renderer, values, size, count - 1) + renderer.width_of(
            values[count - 1].text@,
            size,
        ) + MODULE_GAP
    }
}

proof fn lemma_widths_grow<F: Fn(&str, i64) -> Vec<Run>>(
    renderer: Renderer<F>,
    values: Seq<ModuleValue>,
    size: i64,
    few: int,
    many: int,
)
    requires
        0 <= few <= many,
    ensures
        0 <= all_widths(renderer, values, size, few) <= all_widths(renderer, values, size, many),
    decreases many,
{
    if many > 0 {
        widths_are_not_negative(renderer, values[many - 1].text@, size);
        if few < many {
            lemma_widths_grow(renderer, values, size, few, many - 1);
        } else {
            lemma_widths_grow(renderer, values, size, 0, many - 1);
            lemma_widths_grow(renderer, values, size, few - 1, many - 1);
        }
    }
}

/// The widths of a segment's modules among the first `count`, with a gap for each.
spec fn own_widths<F: Fn(&str, i64) -> Vec<Run>>(
    renderer: Renderer<F>,
    modules: Seq<Module>,
    values: Seq<ModuleValue>,
    size: i64,
    segment: int,
    count: int,
) -> int
    decreases count,
{
    if count <= 0 {
        0
    } else {
        own_widths(renderer, modules, values, size, segment, count - 1) + if aligned(
            modules[count - 1],
            segment,
        ) && speaks(values, count - 1) {
            renderer.width_of(values[count - 1].text@, size) + MODULE_GAP
        } else {
            0
        }
    }
}

proof fn lemma_own_grow<F: Fn(&str, i64) -> Vec<Run>>(
    renderer: Renderer<F>,
    modules: Seq<Module>,
    values: Seq<ModuleValue>,
    size: i64,
    segment: int,
    few: int,
    many: int,
)
    requires
        0 <= few <= many,
    ensures
        own_widths(renderer, modules, values, size, segment, few) <= own_widths(
            renderer,
            modules,
            values,
            size,
            segment,
            many,
        ),
    decreases many,
{
    if few < many {
        widths_are_not_negative(renderer, values[many - 1].text@, size);
        lemma_own_grow(renderer, modules, values, size, segment, few, many - 1);
    }
}

proof fn lemma_own_widths<F: Fn(&str, i64) -> Vec<Run>>(
    renderer: Renderer<F>,
    modules: Seq<Module>,
    values: Seq<ModuleValue>,
    size: i64,
    segment: int,
    count: nat,
)
    requires
        count <= modules.len(),
        0 <= segment <= 2,
    ensures
        ({
            let all = members(modules, values, segment, count);
            let own = own_widths(renderer, modules, values, size, segment, count as int);
            &&& natural_width(renderer, values, all, size) == if all.len() == 0 {
                0
            } else {
                own - MODULE_GAP
            }
            &&& all.len() == 0 ==> own == 0
            &&& own <= all_widths(
                renderer,
                values,
                size,
                if count <= values.len() {
                    count as int
                } else {
                    values.len() as int
                },
            )
        }),
    decreases count,
{
    if count > 0 {
        lemma_own_widths(renderer, modules, values, size, segment, (count - 1) as nat);
        let earlier = members(modules, values, segment, (count - 1) as nat);
        let all = members(modules, values, segment, count);
        if all.len() > earlier.len() {
            assert(all.drop_last() =~= earlier);
        }
        if count <= values.len() {
            lemma_widths_grow(renderer, values, size, count - 1, count as int);
        }
    }
}

/// What a segment's places are, as [`a_segment_hands_its_room_out_in_order`] says.
spec fn whose<F: Fn(&str, i64) -> Vec<Run>>(
    width: int,
    config: Config,
    values: Seq<ModuleValue>,
    renderer: Renderer<F>,
    segment: int,
    from: Seq<int>,
) -> bool {
    let placed = segment_placed(width, config, values, renderer, segment);
    let modules = config.bar.module@;
    let size = config.bar.font_size;
    let room = budget(width, centre_natural(config, values, renderer), segment);
    &&& from.len() == placed.len()
    &&& forall|k: int|
        0 <= k < from.len() ==> {
            let i = #[trigger] from[k];
            &&& 0 <= i < modules.len()
            &&& aligned(modules[i], segment)
            &&& speaks(values, i)
            &&& coloured(config, values, i, placed[k].color)
            &&& placed[k].x == placed[0].x + taken(renderer, placed, size, k)
            &&& placed[k].text == renderer.shortened(
                values[i].text@,
                room - taken(renderer, placed, size, k),
                size,
            )
            &&& renderer.width_of(placed[k].text, size) > 0
        }
    &&& forall|k: int, l: int| 0 <= k < l < from.len() ==> #[trigger] from[k] < #[trigger] from[l]
}

proof fn lemma_nothing_cut<F: Fn(&str, i64) -> Vec<Run>>(
    width: int,
    config: Config,
    values: Seq<ModuleValue>,
    renderer: Renderer<F>,
    segment: int,
    from: Seq<int>,
    k: int,
)
    requires
        whose(width, config, values, renderer, segment, from),
        has_room(width, config, values, renderer, segment),
        0 <= k <= from.len(),
    ensures
        taken(
            renderer,
            segment_placed(width, config, values, renderer, segment),
            config.bar.font_size,
            k,
        ) <= own_widths(
            renderer,
            config.bar.module@,
            values,
            config.bar.font_size,
            segment,
            if k == 0 {
                0
            } else {
                from[k - 1] + 1
            },
        ),
        k < from.len() ==> segment_placed(width, config, values, renderer, segment)[k].text
            == values[from[k]].text@,
    decreases k,
{
    let modules = config.bar.module@;
    let placed = segment_placed(width, config, values, renderer, segment);
    let size = config.bar.font_size;
    let room = budget(width, centre_natural(config, values, renderer), segment);
    if k > 0 {
        lemma_nothing_cut(width, config, values, renderer, segment, from, k - 1);
        assert(speaks(values, from[k - 1]));
        if k > 1 {
            assert(from[k - 2] < from[k - 1]);
            lemma_own_grow(
                renderer,
                modules,
                values,
                size,
                segment,
                from[k - 2] + 1,
                from[k - 1],
            );
        } else {
            lemma_own_grow(renderer, modules, values, size, segment, 0, from[k - 1]);
        }
    }
    if k < from.len() {
        let i = from[k];
        assert(speaks(values, i));
        if k > 0 {
            assert(from[k - 1] < i);
        }
        let before = if k == 0 {
            0
        } else {
            from[k - 1] + 1
        };
        lemma_own_grow(renderer, modules, values, size, segment, before, i);
        lemma_own_grow(renderer, modules, values, size, segment, i + 1, modules.len() as int);
        assert(renderer.width_of(placed[k].text, size) > 0);
        lemma_cut(renderer, values[i].text@, room - taken(renderer, placed, size, k), size);
        assert(room - taken(renderer, placed, size, k) >= renderer.width_of(
            values[i].text@,
            size,
        ));
    }
}

/// True of a segment that has room for the widths of all its modules.
spec fn has_room<F: Fn(&str, i64) -> Vec<Run>>(
    width: int,
    config: Config,
    values: Seq<ModuleValue>,
    renderer: Renderer<F>,
    segment: int,
) -> bool {
    own_widths(
        renderer,
        config.bar.module@,
        values,
        config.bar.font_size,
        segment,
        config.bar.module@.len() as int,
    ) <= budget(width, centre_natural(config, values, renderer), segment) + MODULE_GAP
}

proof fn lemma_nobody_missing<F: Fn(&str, i64) -> Vec<Run>>(
    width: int,
    config: Config,
    values: Seq<ModuleValue>,
    renderer: Renderer<F>,
    segment: int,
) -> (from: Seq<int>)
    requires
        has_room(width, config, values, renderer, segment),
    ensures
        whose(width, config, values, renderer, segment, from),
        forall|k: int|
            0 <= k < from.len() ==> (#[trigger] segment_placed(
                width,
                config,
                values,
                renderer,
                segment,
            )[k]).text == values[from[k]].text@,
        forall|i: int|
            0 <= i < config.bar.module@.len() && aligned(
                #[trigger] config.bar.module@[i],
                segment,
            ) && speaks(values, i) && renderer.width_of(values[i].text@, config.bar.font_size) > 0
                ==> from.contains(i),
{
    let modules = config.bar.module@;
    let placed = segment_placed(width, config, values, renderer, segment);
    let size = config.bar.font_size;
    let room = budget(width, centre_natural(config, values, renderer), segment);
    let from = a_segment_hands_its_room_out_in_order(width, config, values, renderer, segment);
    assert(whose(width, config, values, renderer, segment, from));
    assert forall|k: int| 0 <= k < from.len() implies (#[trigger] placed[k]).text
        == values[from[k]].text@ by {
        lemma_nothing_cut(width, config, values, renderer, segment, from, k);
    }
    assert forall|i: int|
        0 <= i < modules.len() && aligned(#[trigger] modules[i], segment) && speaks(values, i)
            && renderer.width_of(values[i].text@, size) > 0 implies from.contains(i) by {
        if !from.contains(i) {
            let k = choose|k: int|
                0 <= k <= from.len() && (k > 0 ==> from[k - 1] < i) && (k < from.len() ==> i
                    < from[k]) && (room <= #[trigger] taken(renderer, placed, size, k)
                    || renderer.width_of(
                    renderer.shortened(
                        values[i].text@,
                        room - taken(renderer, placed, size, k),
                        size,
                    ),
                    size,
                ) <= 0);
            lemma_nothing_cut(width, config, values, renderer, segment, from, k);
            let before = if k == 0 {
                0
            } else {
                from[k - 1] + 1
            };
            lemma_own_grow(renderer, modules, values, size, segment, before, i);
            lemma_own_grow(renderer, modules, values, size, segment, i + 1, modules.len() as int);
            assert(room - taken(renderer, placed, size, k) >= renderer.width_of(
                values[i].text@,
                size,
            ));
        }
    }
    from
}

/// What is said of a module: whether it has something to say, whether it is configured
/// for a segment, and which colour it is shown in.
pub proof fn what_is_said_of_a_module(
    config: Config,
    values: Seq<ModuleValue>,
    i: int,
    segment: int,
    color: Rgba,
)
    requires
        0 <= i < config.bar.module@.len(),
        i < values.len(),
    ensures
        speaks(values, i) <==> values[i].text@.len() > 0,
        aligned(config.bar.module@[i], segment) <==> segment == segment_of(
            config.bar.module@[i].align,
        ),
        coloured(config, values, i, color) <==> color == match (
            values[i].color,
            config.bar.module@[i].color,
        ) {
            (Some(reported), _) => reported,
            (None, Some(configured)) => configured,
            (None, None) => config.bar.foreground,
        },
{
}

/// A bar that is wide enough for everything has exactly one place for every module
/// whose text shows, whatever kind of module it is, with its whole text and in its
/// own colour. The answer says which place is whose.
#[verifier::rlimit(30)]
pub proof fn a_wide_bar_shows_every_module<F: Fn(&str, i64) -> Vec<Run>>(
    width: int,
    config: Config,
    values: Seq<ModuleValue>,
    renderer: Renderer<F>,
) -> (from: Seq<int>)
    requires
        width >= 3 * all_widths(renderer, values, config.bar.font_size, values.len() as int) + 2
            * (PADDING + SEGMENT_GAP) + 2,
    ensures
        ({
            let placed = bar_placed(width, config, values, renderer);
            &&& from.len() == placed.len()
            &&& forall|k: int|
                0 <= k < from.len() ==> shown_at(config, values, #[trigger] from[k], placed[k])
                    && placed[k].text == values[from[k]].text@
            &&& forall|k: int, l: int|
                0 <= k < l < from.len() ==> further_left(
                    config,
                    #[trigger] from[k],
                    #[trigger] from[l],
                )
            &&& forall|i: int|
                0 <= i < config.bar.module@.len() && i < values.len() && values[i].text@.len() > 0
                    && renderer.width_of(values[i].text@, config.bar.font_size) > 0
                    ==> #[trigger] from.contains(i)
        }),
{
    let modules = config.bar.module@;
    let size = config.bar.font_size;
    let all = all_widths(renderer, values, size, values.len() as int);
    let natural = centre_natural(config, values, renderer);
    let placed = bar_placed(width, config, values, renderer);
    lemma_widths_grow(renderer, values, size, 0, values.len() as int);
    super::lemma_natural_positive(
        renderer,
        values,
        members(modules, values, 1, modules.len()),
        size,
    );
    lemma_own_widths(renderer, modules, values, size, 0, modules.len());
    lemma_own_widths(renderer, modules, values, size, 1, modules.len());
    lemma_own_widths(renderer, modules, values, size, 2, modules.len());
    if modules.len() <= values.len() {
        lemma_widths_grow(renderer, values, size, modules.len() as int, values.len() as int);
    }
    assert(natural <= all);
    let a = lemma_nobody_missing(width, config, values, renderer, 0);
    let b = lemma_nobody_missing(width, config, values, renderer, 1);
    let c = lemma_nobody_missing(width, config, values, renderer, 2);
    let from = a + b + c;
    lemma_segments_together(width, config, values, renderer, a, b, c);
    let left = segment_placed(width, config, values, renderer, 0);
    let centre = segment_placed(width, config, values, renderer, 1);
    let right = segment_placed(width, config, values, renderer, 2);
    assert forall|k: int| 0 <= k < from.len() implies shown_at(
        config,
        values,
        #[trigger] from[k],
        placed[k],
    ) && placed[k].text == values[from[k]].text@ by {
        if k < a.len() {
            assert(placed[k] == left[k]);
        } else if k < a.len() + b.len() {
            assert(placed[k] == centre[k - a.len()]);
        } else {
            assert(placed[k] == right[k - a.len() - b.len()]);
        }
    }
    assert forall|i: int|
        0 <= i < modules.len() && i < values.len() && values[i].text@.len() > 0
            && renderer.width_of(values[i].text@, size) > 0 implies #[trigger] from.contains(i) by {
        assert(speaks(values, i));
        let own = modules[i];
        if aligned(own, 0) {
            let k = choose|k: int| 0 <= k < a.len() && a[k] == i;
            assert(from[k] == i);
        } else if aligned(own, 1) {
            let k = choose|k: int| 0 <= k < b.len() && b[k] == i;
            assert(from[a.len() + k] == i);
        } else {
            assert(aligned(own, 2));
            let k = choose|k: int| 0 <= k < c.len() && c[k] == i;
            assert(from[a.len() + b.len() + k] == i);
        }
    }
    from
}

/// The measures of the bar, in pixels.
pub proof fn the_measures_of_the_bar()
    ensures
        PADDING == 12 * PIXEL,
        MODULE_GAP == 12 * PIXEL,
        SEGMENT_GAP == 16 * PIXEL,
        CORNER_RADIUS == 10 * PIXEL,
{
}

/// A list of places is what was placed, one for one.
pub proof fn a_place_is_what_was_placed(placed: Seq<super::Placed>, k: int)
    requires
        0 <= k < placed.len(),
    ensures
        super::spots(placed).len() == placed.len(),
        super::spots(placed)[k].x == placed[k].x,
        super::spots(placed)[k].text == placed[k].text@,
        super::spots(placed)[k].color == placed[k].color,
{
}

/// A collapsed bar is nothing but the border strip, whatever its modules say.
pub proof fn a_collapsed_bar_is_only_the_border<F: Fn(&str, i64) -> Vec<Run>>(
    surface: (u32, u32),
    config: Config,
    values: Seq<ModuleValue>,
    renderer: Renderer<F>,
)
    ensures
        bar_scene(surface, config, values, renderer, 0) == seq![
            Mark::Rect {
                x: 0,
                y: 0,
                width: surface.0 * PIXEL,
                height: config.border.width * PIXEL,
                color: config.border.color,
            },
        ],
{
}

/// A bar that is out, be it ever so little, is its panel and over it the border strip.
/// The panel is as large as the surface and has come down as far as the bar is out. All
/// the texts are drawn, each at its place and in its colour and all on one line that is
/// centred in the bar and moves with the panel, as soon as that line is clear of the
/// strip, and none before.
pub proof fn a_bar_that_is_out_shows_everything_at_its_place<F: Fn(&str, i64) -> Vec<Run>>(
    surface: (u32, u32),
    config: Config,
    values: Seq<ModuleValue>,
    renderer: Renderer<F>,
    progress: int,
)
    requires
        0 < progress <= FULL,
    ensures
        ({
            let all = bar_scene(surface, config, values, renderer, progress);
            let placed = bar_placed(surface.0 * PIXEL, config, values, renderer);
            let border = config.border.width * PIXEL;
            let content = if surface.1 > config.border.width {
                surface.1 * PIXEL - border
            } else {
                0
            };
            let free = config.bar.height * PIXEL - line_height_at(config.bar.font_size as int);
            let inset = if free > 0 {
                free / 2
            } else {
                0
            };
            let y = all[0]->RoundBottom_y;
            &&& all.len() >= 2
            &&& all[0] == Mark::RoundBottom {
                x: 0,
                y,
                width: surface.0 * PIXEL,
                height: surface.1 * PIXEL,
                radius: CORNER_RADIUS as int,
                color: config.bar.background,
            }
            &&& FULL * (content + y) <= content * progress < FULL * (content + y + 1)
            &&& all[1] == Mark::Rect {
                x: 0,
                y: 0,
                width: surface.0 * PIXEL,
                height: border,
                color: config.border.color,
            }
            &&& inset + y < 0 ==> all.len() == 2
            &&& inset + y >= 0 ==> all.len() == 2 + placed.len() && forall|k: int|
                0 <= k < placed.len() ==> #[trigger] all[2 + k] == (Mark::Text {
                    text: placed[k].text,
                    x: placed[k].x,
                    y: border + inset + y,
                    size: config.bar.font_size as int,
                    color: placed[k].color,
                })
        }),
{
    let content = if surface.1 > config.border.width {
        surface.1 * PIXEL - config.border.width * PIXEL
    } else {
        0
    };
    assert(content == crate::geometry::larger((surface.1 - config.border.width) * PIXEL, 0));
    vstd::arithmetic::div_mod::lemma_fundamental_div_mod(content * progress, FULL as int);
}

/// The segments are numbered from left to right, and a module has the text that was
/// reported for it, or none.
pub proof fn what_the_segments_and_the_texts_are(values: Seq<ModuleValue>, i: int)
    ensures
        segment_of(Align::Left) == 0,
        segment_of(Align::Center) == 1,
        segment_of(Align::Right) == 2,
        0 <= i < values.len() ==> text_at(values, i) == values[i].text@,
        i >= values.len() ==> text_at(values, i).len() == 0,
{
}

} // verus!
