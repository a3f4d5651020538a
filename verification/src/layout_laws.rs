//! What holds of layouts whatever is done to them.

use vstd::prelude::*;

use crate::geometry::{Axis, Rect};
use crate::layout::{self, Layout};

verus! {

/// Splitting a pane puts exactly the new pane beside those that were there.
pub proof fn law_split_adds_the_new_pane(
    layout: Layout,
    target: u64,
    new_pane: u64,
    axis: Axis,
    before: bool,
    first_size: Option<u16>,
    id: u64,
)
    requires
        layout.has(target),
    ensures
        layout.with_split(target, new_pane, axis, before, first_size).has(id) <==> layout.has(id)
            || id == new_pane,
    decreases layout,
{
    reveal_with_fuel(Layout::has, 2);
    match layout {
        Layout::Leaf(_) => {},
        Layout::Split { first, second, .. } => {
            if first.has(target) {
                law_split_adds_the_new_pane(*first, target, new_pane, axis, before, first_size, id);
            } else {
                law_split_adds_the_new_pane(
                    *second,
                    target,
                    new_pane,
                    axis,
                    before,
                    first_size,
                    id,
                );
            }
        },
    }
}

/// Taking a pane out again undoes the split that put it in.
pub proof fn law_remove_undoes_split(
    layout: Layout,
    target: u64,
    new_pane: u64,
    axis: Axis,
    before: bool,
    first_size: Option<u16>,
)
    requires
        layout.has(target),
        !layout.has(new_pane),
    ensures
        layout.with_split(target, new_pane, axis, before, first_size).without(new_pane) == layout,
    decreases layout,
{
    reveal_with_fuel(Layout::has, 2);
    match layout {
        Layout::Leaf(_) => {},
        Layout::Split { first, second, .. } => {
            if first.has(target) {
                law_remove_undoes_split(*first, target, new_pane, axis, before, first_size);
                law_split_adds_the_new_pane(
                    *first,
                    target,
                    new_pane,
                    axis,
                    before,
                    first_size,
                    new_pane,
                );
                assert(first.with_split(target, new_pane, axis, before, first_size) is Split);
            } else {
                law_remove_undoes_split(*second, target, new_pane, axis, before, first_size);
                law_split_adds_the_new_pane(
                    *second,
                    target,
                    new_pane,
                    axis,
                    before,
                    first_size,
                    new_pane,
                );
                assert(second.with_split(target, new_pane, axis, before, first_size) is Split);
            }
        },
    }
}

/// The ids of a layout are those of its panes.
pub proof fn lemma_ids_are_held(layout: Layout, id: u64)
    ensures
        layout.ids().contains(id) <==> layout.has(id),
    decreases layout,
{
    match layout {
        Layout::Leaf(leaf) => {
            assert(layout.ids()[0] == leaf);
        },
        Layout::Split { first, second, .. } => {
            lemma_ids_are_held(*first, id);
            lemma_ids_are_held(*second, id);
            let left = first.ids();
            let right = second.ids();
            if left.contains(id) {
                let i = choose|i: int| 0 <= i < left.len() && left[i] == id;
                assert((left + right)[i] == id);
            }
            if right.contains(id) {
                let i = choose|i: int| 0 <= i < right.len() && right[i] == id;
                assert((left + right)[left.len() + i] == id);
            }
        },
    }
}

proof fn lemma_parts_have_no_duplicates(layout: Layout, id: u64)
    requires
        layout.ids().no_duplicates(),
    ensures
        layout matches Layout::Split { first, second, .. } ==> {
            &&& first.ids().no_duplicates()
            &&& second.ids().no_duplicates()
            &&& !(first.has(id) && second.has(id))
        },
{
    if let Layout::Split { first, second, .. } = layout {
        let left = first.ids();
        let right = second.ids();
        let all = left + right;
        assert forall|i: int, j: int|
            0 <= i < left.len() && 0 <= j < left.len() && i != j implies left[i] != left[j] by {
            assert(all[i] == left[i] && all[j] == left[j]);
        }
        assert forall|i: int, j: int|
            0 <= i < right.len() && 0 <= j < right.len() && i != j implies right[i] != right[j] by {
            assert(all[left.len() + i] == right[i] && all[left.len() + j] == right[j]);
        }
        lemma_ids_are_held(*first, id);
        lemma_ids_are_held(*second, id);
        if first.has(id) && second.has(id) {
            let i = choose|i: int| 0 <= i < left.len() && left[i] == id;
            let j = choose|j: int| 0 <= j < right.len() && right[j] == id;
            assert(all[i] == all[left.len() + j]);
        }
    }
}

/// Taking a pane out leaves exactly the others, as long as no pane stands in
/// the layout twice and there is another.
pub proof fn law_remove_keeps_the_others(layout: Layout, target: u64, id: u64)
    requires
        layout is Split,
        layout.ids().no_duplicates(),
    ensures
        layout.without(target).has(id) <==> layout.has(id) && id != target,
    decreases layout,
{
    reveal_with_fuel(Layout::has, 2);
    if let Layout::Split { first, second, .. } = layout {
        lemma_parts_have_no_duplicates(layout, id);
        lemma_parts_have_no_duplicates(layout, target);
        if *first != Layout::Leaf(target) && *second != Layout::Leaf(target) {
            if first.has(target) {
                law_remove_keeps_the_others(*first, target, id);
            } else if second.has(target) {
                law_remove_keeps_the_others(*second, target, id);
            } else {
                lemma_without_absent(*second, target);
            }
        }
    }
}

proof fn lemma_without_absent(layout: Layout, target: u64)
    requires
        !layout.has(target),
    ensures
        layout.without(target) == layout,
    decreases layout,
{
    if let Layout::Split { first, second, .. } = layout {
        lemma_without_absent(*first, target);
        lemma_without_absent(*second, target);
    }
}

/// Every pane of a layout has a place, and no other place changes.
pub proof fn law_every_pane_is_placed(layout: Layout, rect: Rect, known: Map<u64, Rect>, id: u64)
    ensures
        layout.placed(rect, known).dom().contains(id) <==> known.dom().contains(id) || layout.has(
            id,
        ),
        !layout.has(id) && known.dom().contains(id) ==> layout.placed(rect, known)[id]
            == known[id],
    decreases layout,
{
    if let Layout::Split { axis, first, second, first_size } = layout {
        let left = layout::first_part(rect, axis, first_size);
        let right = layout::second_part(rect, axis, first_size);
        law_every_pane_is_placed(*first, left, known, id);
        law_every_pane_is_placed(*second, right, first.placed(left, known), id);
    }
}

/// A split uses all cells along its axis: those of its parts, and one between
/// them for the separator. Across the axis both parts are as long as the whole.
pub proof fn law_split_uses_all_cells(rect: Rect, axis: Axis, first_size: Option<u16>)
    requires
        rect.length(axis) > 0,
    ensures
        ({
            let first = layout::first_part(rect, axis, first_size);
            let second = layout::second_part(rect, axis, first_size);
            &&& first.length(axis) + 1 + second.length(axis) == rect.length(axis)
            &&& axis == Axis::Horizontal ==> {
                &&& first.x == rect.x && first.y == rect.y && first.rows == rect.rows
                &&& second.y == rect.y && second.rows == rect.rows
                &&& rect.x + rect.cols <= 65535 ==> second.x == first.x + first.cols + 1
            }
            &&& axis == Axis::Vertical ==> {
                &&& first.x == rect.x && first.y == rect.y && first.cols == rect.cols
                &&& second.x == rect.x && second.cols == rect.cols
                &&& rect.y + rect.rows <= 65535 ==> second.y == first.y + first.rows + 1
            }
        }),
{
}

/// Whether every cell of one rectangle is a cell of another.
pub open spec fn lies_in(inner: Rect, outer: Rect) -> bool {
    forall|x: int, y: int| inner.has_cell(x, y) ==> #[trigger] outer.has_cell(x, y)
}

/// Whether two rectangles have no cell in common.
pub open spec fn are_apart(one: Rect, other: Rect) -> bool {
    forall|x: int, y: int| #[trigger] one.has_cell(x, y) ==> !other.has_cell(x, y)
}

/// Whether cells can be counted past the end of a rectangle.
pub open spec fn is_addressable(rect: Rect) -> bool {
    rect.x + rect.cols <= 65535 && rect.y + rect.rows <= 65535
}

proof fn lemma_parts(rect: Rect, axis: Axis, first_size: Option<u16>)
    requires
        is_addressable(rect),
    ensures
        lies_in(layout::first_part(rect, axis, first_size), rect),
        lies_in(layout::second_part(rect, axis, first_size), rect),
        are_apart(
            layout::first_part(rect, axis, first_size),
            layout::second_part(rect, axis, first_size),
        ),
        are_apart(
            layout::second_part(rect, axis, first_size),
            layout::first_part(rect, axis, first_size),
        ),
        is_addressable(layout::first_part(rect, axis, first_size)),
        layout::second_part(rect, axis, first_size).length(axis) > 0 ==> is_addressable(
            layout::second_part(rect, axis, first_size),
        ),
{
}

proof fn lemma_empty_rect_places_nothing(layout: Layout, rect: Rect, known: Map<u64, Rect>, id: u64)
    requires
        rect.cols == 0 || rect.rows == 0,
        layout.has(id),
    ensures
        layout.placed(rect, known)[id].cols == 0 || layout.placed(rect, known)[id].rows == 0,
    decreases layout,
{
    if let Layout::Split { axis, first, second, first_size } = layout {
        let left = layout::first_part(rect, axis, first_size);
        let right = layout::second_part(rect, axis, first_size);
        let placed = first.placed(left, known);
        if second.has(id) {
            lemma_empty_rect_places_nothing(*second, right, placed, id);
        } else {
            lemma_empty_rect_places_nothing(*first, left, known, id);
            law_every_pane_is_placed(*first, left, known, id);
            law_every_pane_is_placed(*second, right, placed, id);
        }
    }
}

/// Every pane stands inside the rectangle that its layout fills.
pub proof fn law_panes_stay_inside(layout: Layout, rect: Rect, known: Map<u64, Rect>, id: u64)
    requires
        is_addressable(rect),
        layout.has(id),
    ensures
        lies_in(layout.placed(rect, known)[id], rect),
    decreases layout,
{
    if let Layout::Split { axis, first, second, first_size } = layout {
        let left = layout::first_part(rect, axis, first_size);
        let right = layout::second_part(rect, axis, first_size);
        let placed = first.placed(left, known);
        lemma_parts(rect, axis, first_size);
        if second.has(id) {
            if right.length(axis) > 0 {
                law_panes_stay_inside(*second, right, placed, id);
                lemma_lies_in_lies_in(second.placed(right, placed)[id], right, rect);
            } else {
                lemma_empty_rect_places_nothing(*second, right, placed, id);
            }
        } else {
            law_panes_stay_inside(*first, left, known, id);
            lemma_lies_in_lies_in(first.placed(left, known)[id], left, rect);
            law_every_pane_is_placed(*first, left, known, id);
            law_every_pane_is_placed(*second, right, placed, id);
        }
    }
}

proof fn lemma_lies_in_lies_in(inner: Rect, middle: Rect, outer: Rect)
    requires
        lies_in(inner, middle),
        lies_in(middle, outer),
    ensures
        lies_in(inner, outer),
{
    assert forall|x: int, y: int| inner.has_cell(x, y) implies #[trigger] outer.has_cell(x, y) by {
        assert(middle.has_cell(x, y));
    }
}

/// Whether the columns of a rectangle are columns of another, and its rows rows.
pub open spec fn spans_inside(inner: Rect, outer: Rect) -> bool {
    &&& inner.cols > 0 ==> outer.x <= inner.x && inner.x + inner.cols <= outer.x + outer.cols
    &&& inner.rows > 0 ==> outer.y <= inner.y && inner.y + inner.rows <= outer.y + outer.rows
}

/// The columns and the rows of every pane are those of the rectangle that its
/// layout fills, also where the pane has no cells.
pub proof fn law_panes_span_inside(layout: Layout, rect: Rect, known: Map<u64, Rect>, id: u64)
    requires
        rect.cols > 0 ==> rect.x + rect.cols <= 65535,
        rect.rows > 0 ==> rect.y + rect.rows <= 65535,
        layout.has(id),
    ensures
        spans_inside(layout.placed(rect, known)[id], rect),
    decreases layout,
{
    if let Layout::Split { axis, first, second, first_size } = layout {
        let left = layout::first_part(rect, axis, first_size);
        let right = layout::second_part(rect, axis, first_size);
        let placed = first.placed(left, known);
        if second.has(id) {
            law_panes_span_inside(*second, right, placed, id);
        } else {
            law_panes_span_inside(*first, left, known, id);
            law_every_pane_is_placed(*first, left, known, id);
            law_every_pane_is_placed(*second, right, placed, id);
        }
    }
}

/// Panes never paint over one another: no two of them share a cell.
pub proof fn law_panes_do_not_overlap(
    layout: Layout,
    rect: Rect,
    known: Map<u64, Rect>,
    one: u64,
    other: u64,
)
    requires
        is_addressable(rect),
        layout.has(one),
        layout.has(other),
        one != other,
    ensures
        are_apart(layout.placed(rect, known)[one], layout.placed(rect, known)[other]),
    decreases layout,
{
    if let Layout::Split { axis, first, second, first_size } = layout {
        let left = layout::first_part(rect, axis, first_size);
        let right = layout::second_part(rect, axis, first_size);
        let placed = first.placed(left, known);
        lemma_parts(rect, axis, first_size);
        law_every_pane_is_placed(*first, left, known, one);
        law_every_pane_is_placed(*first, left, known, other);
        law_every_pane_is_placed(*second, right, placed, one);
        law_every_pane_is_placed(*second, right, placed, other);
        let a = layout.placed(rect, known)[one];
        let b = layout.placed(rect, known)[other];
        if right.length(axis) == 0 && (second.has(one) || second.has(other)) {
            if second.has(one) {
                lemma_empty_rect_places_nothing(*second, right, placed, one);
            } else {
                lemma_empty_rect_places_nothing(*second, right, placed, other);
            }
        } else if second.has(one) && second.has(other) {
            law_panes_do_not_overlap(*second, right, placed, one, other);
        } else if !second.has(one) && !second.has(other) {
            law_panes_do_not_overlap(*first, left, known, one, other);
        } else if second.has(one) {
            law_panes_stay_inside(*second, right, placed, one);
            law_panes_stay_inside(*first, left, known, other);
            lemma_apart_inside(a, right, b, left);
        } else {
            law_panes_stay_inside(*second, right, placed, other);
            law_panes_stay_inside(*first, left, known, one);
            lemma_apart_inside(a, left, b, right);
        }
    }
}

proof fn lemma_apart_inside(one: Rect, around_one: Rect, other: Rect, around_other: Rect)
    requires
        lies_in(one, around_one),
        lies_in(other, around_other),
        are_apart(around_one, around_other),
    ensures
        are_apart(one, other),
{
    assert forall|x: int, y: int| #[trigger] one.has_cell(x, y) implies !other.has_cell(x, y) by {
        assert(around_one.has_cell(x, y));
        if other.has_cell(x, y) {
            assert(around_other.has_cell(x, y));
        }
    }
}

/// Exchanging two panes twice changes nothing.
pub proof fn law_swap_twice_is_nothing(layout: Layout, one: u64, other: u64)
    ensures
        layout.mapped(layout::exchange(one, other)).mapped(layout::exchange(one, other)) == layout,
    decreases layout,
{
    if let Layout::Split { first, second, .. } = layout {
        law_swap_twice_is_nothing(*first, one, other);
        law_swap_twice_is_nothing(*second, one, other);
    }
}

/// Resizing moves separators only: the panes and their order stay.
pub proof fn law_resize_keeps_the_panes(
    layout: Layout,
    rect: Rect,
    target: u64,
    axis: Axis,
    delta: i32,
    absolute: Option<u16>,
)
    ensures
        layout.with_resize(rect, target, axis, delta, absolute).ids() == layout.ids(),
    decreases layout,
{
    if let Layout::Split { axis: own, first, second, first_size } = layout {
        let left = layout::first_part(rect, own, first_size);
        let right = layout::second_part(rect, own, first_size);
        law_resize_keeps_the_panes(*first, left, target, axis, delta, absolute);
        law_resize_keeps_the_panes(*second, right, target, axis, delta, absolute);
    }
}

/// The length that the outermost split along the axis around a pane gives to the
/// part with the pane, and the most that it could give.
pub open spec fn share(layout: Layout, rect: Rect, target: u64, axis: Axis) -> (int, int)
    decreases layout,
{
    match layout {
        Layout::Leaf(_) => (0, 0),
        Layout::Split { axis: own, first, second, first_size } => {
            let limit = layout::available(rect, own);
            let length = layout::first_length(rect, own, first_size);
            if first.has(target) {
                if own == axis {
                    (length, limit)
                } else {
                    share(*first, layout::first_part(rect, own, first_size), target, axis)
                }
            } else if own == axis {
                (limit - length, limit)
            } else {
                share(*second, layout::second_part(rect, own, first_size), target, axis)
            }
        },
    }
}

/// A pane that is resized gets the length that is asked for, or as much of it as
/// there is.
pub proof fn law_resize_gives_the_length(
    layout: Layout,
    rect: Rect,
    target: u64,
    axis: Axis,
    delta: i32,
    absolute: Option<u16>,
)
    requires
        layout.can_resize(target, axis),
    ensures
        ({
            let (length, limit) = share(layout, rect, target, axis);
            share(
                layout.with_resize(rect, target, axis, delta, absolute),
                rect,
                target,
                axis,
            ) == (layout::at_most(layout::wanted(length, delta, absolute, limit), limit), limit)
        }),
    decreases layout,
{
    if let Layout::Split { axis: own, first, second, first_size } = layout {
        let left = layout::first_part(rect, own, first_size);
        let right = layout::second_part(rect, own, first_size);
        lemma_resize_keeps_has(*first, left, target, axis, delta, absolute, target);
        if own != axis {
            if first.has(target) {
                law_resize_gives_the_length(*first, left, target, axis, delta, absolute);
            } else {
                law_resize_gives_the_length(*second, right, target, axis, delta, absolute);
            }
        }
    }
}

proof fn lemma_resize_keeps_has(
    layout: Layout,
    rect: Rect,
    target: u64,
    axis: Axis,
    delta: i32,
    absolute: Option<u16>,
    id: u64,
)
    ensures
        layout.with_resize(rect, target, axis, delta, absolute).has(id) == layout.has(id),
{
    law_resize_keeps_the_panes(layout, rect, target, axis, delta, absolute);
    lemma_ids_are_held(layout, id);
    lemma_ids_are_held(layout.with_resize(rect, target, axis, delta, absolute), id);
}

/// Resizing by a distance changes the length of the part with the pane by exactly
/// that distance, up or down, as far as the split has cells for it.
pub proof fn law_resize_moves_by_the_distance(
    layout: Layout,
    rect: Rect,
    target: u64,
    axis: Axis,
    delta: i32,
)
    requires
        layout.can_resize(target, axis),
        -32768 <= delta <= 32767,
    ensures
        ({
            let (length, limit) = share(layout, rect, target, axis);
            let after = share(
                layout.with_resize(rect, target, axis, delta, None),
                rect,
                target,
                axis,
            );
            &&& after.1 == limit
            &&& 0 <= length + delta <= limit ==> after.0 == length + delta
            &&& length + delta < 0 ==> after.0 == 0
            &&& length + delta > limit ==> after.0 == limit
        }),
{
    law_resize_gives_the_length(layout, rect, target, axis, delta, None);
    lemma_share_is_bounded(layout, rect, target, axis);
}

proof fn lemma_share_is_bounded(layout: Layout, rect: Rect, target: u64, axis: Axis)
    ensures
        0 <= share(layout, rect, target, axis).0 <= share(layout, rect, target, axis).1 <= 65535,
    decreases layout,
{
    if let Layout::Split { axis: own, first, second, first_size } = layout {
        lemma_share_is_bounded(*first, layout::first_part(rect, own, first_size), target, axis);
        lemma_share_is_bounded(*second, layout::second_part(rect, own, first_size), target, axis);
    }
}

/// Resizing to a length gives that length, or all that there is.
pub proof fn law_resize_to_a_length(
    layout: Layout,
    rect: Rect,
    target: u64,
    axis: Axis,
    delta: i32,
    length: u16,
)
    requires
        layout.can_resize(target, axis),
    ensures
        ({
            let limit = share(layout, rect, target, axis).1;
            let after = share(
                layout.with_resize(rect, target, axis, delta, Some(length)),
                rect,
                target,
                axis,
            );
            &&& after.1 == limit
            &&& length <= limit ==> after.0 == length
            &&& length > limit ==> after.0 == limit
        }),
{
    law_resize_gives_the_length(layout, rect, target, axis, delta, Some(length));
}

/// Resizing by a distance and then back is nothing, where no bound is met.
pub proof fn law_resizing_back_is_nothing(
    layout: Layout,
    rect: Rect,
    target: u64,
    axis: Axis,
    delta: i32,
)
    requires
        layout.can_resize(target, axis),
        -32767 <= delta <= 32767,
        0 <= share(layout, rect, target, axis).0 + delta <= share(layout, rect, target, axis).1,
    ensures
        ({
            let once = layout.with_resize(rect, target, axis, delta, None);
            let twice = once.with_resize(rect, target, axis, (-delta) as i32, None);
            share(twice, rect, target, axis) == share(layout, rect, target, axis)
        }),
{
    let once = layout.with_resize(rect, target, axis, delta, None);
    law_resize_moves_by_the_distance(layout, rect, target, axis, delta);
    lemma_can_resize_again(layout, rect, target, axis, delta, None);
    law_resize_moves_by_the_distance(once, rect, target, axis, (-delta) as i32);
    lemma_share_is_bounded(layout, rect, target, axis);
}

proof fn lemma_can_resize_again(
    layout: Layout,
    rect: Rect,
    target: u64,
    axis: Axis,
    delta: i32,
    absolute: Option<u16>,
)
    ensures
        layout.with_resize(rect, target, axis, delta, absolute).can_resize(target, axis)
            == layout.can_resize(target, axis),
    decreases layout,
{
    if let Layout::Split { axis: own, first, second, first_size } = layout {
        let left = layout::first_part(rect, own, first_size);
        let right = layout::second_part(rect, own, first_size);
        lemma_resize_keeps_has(*first, left, target, axis, delta, absolute, target);
        lemma_resize_keeps_has(*second, right, target, axis, delta, absolute, target);
        lemma_can_resize_again(*first, left, target, axis, delta, absolute);
        lemma_can_resize_again(*second, right, target, axis, delta, absolute);
    }
}

/// What a resize takes from one part of a split it gives to the other: a pane that
/// is a part by itself stands in the share of the split.
pub proof fn law_share_is_the_length_of_the_pane(
    axis: Axis,
    first: u64,
    second: u64,
    first_size: Option<u16>,
    rect: Rect,
)
    requires
        first != second,
        rect.length(axis) > 0,
    ensures
        ({
            let layout = Layout::Split {
                axis,
                first: Box::new(Layout::Leaf(first)),
                second: Box::new(Layout::Leaf(second)),
                first_size,
            };
            let places = layout.placed(rect, Map::empty());
            &&& share(layout, rect, first, axis) == (
                places[first].length(axis) as int,
                rect.length(axis) - 1,
            )
            &&& share(layout, rect, second, axis) == (
                places[second].length(axis) as int,
                rect.length(axis) - 1,
            )
        }),
{
    reveal_with_fuel(Layout::placed, 3);
    reveal_with_fuel(Layout::has, 3);
    reveal_with_fuel(share, 2);
}

#[verifier::spinoff_prover]
proof fn lemma_same_distance(delta: i32)
    requires
        delta <= 2147418111,
    ensures
        forall|length: int, limit: int|
            #[trigger] layout::moved(length, (delta + 65536) as i32, limit) == layout::moved(
                length,
                delta,
                limit,
            ),
{
    assert((delta + 65536 + 32768) % 65536 == (delta + 32768) % 65536);
}

/// A distance counts by its low sixteen bits.
pub proof fn law_far_distances_wrap_around(
    layout: Layout,
    rect: Rect,
    target: u64,
    axis: Axis,
    delta: i32,
)
    requires
        delta <= 2147418111,
    ensures
        layout.with_resize(rect, target, axis, (delta + 65536) as i32, None) == layout.with_resize(
            rect,
            target,
            axis,
            delta,
            None,
        ),
    decreases layout,
{
    if let Layout::Split { axis: own, first, second, first_size } = layout {
        let left = layout::first_part(rect, own, first_size);
        let right = layout::second_part(rect, own, first_size);
        law_far_distances_wrap_around(*first, left, target, axis, delta);
        law_far_distances_wrap_around(*second, right, target, axis, delta);
        lemma_same_distance(delta);
    }
}

/// A split gives its first part the cells that it asks for, or else half of them:
/// then the second part has as many, or one more.
pub proof fn law_split_gives_what_is_asked_for(rect: Rect, axis: Axis, first_size: Option<u16>)
    requires
        rect.length(axis) > 0,
    ensures
        ({
            let first = layout::first_part(rect, axis, first_size).length(axis);
            let second = layout::second_part(rect, axis, first_size).length(axis);
            match first_size {
                Some(size) => {
                    &&& size < rect.length(axis) ==> first == size
                    &&& size >= rect.length(axis) ==> second == 0
                },
                None => first <= second <= first + 1,
            }
        }),
{
}

/// A pane that is split shares its place with the new pane: the one that comes
/// first keeps the corner and gets the cells that are asked for, the other stands
/// behind the separator, and no other pane moves.
#[verifier::rlimit(80)]
#[verifier::spinoff_prover]
pub proof fn law_split_divides_the_place(
    layout: Layout,
    rect: Rect,
    known: Map<u64, Rect>,
    target: u64,
    new_pane: u64,
    axis: Axis,
    before: bool,
    first_size: Option<u16>,
    id: u64,
)
    requires
        layout.has(target),
        !layout.has(new_pane),
        layout.ids().no_duplicates(),
    ensures
        ({
            let old = layout.placed(rect, known);
            let new = layout.with_split(target, new_pane, axis, before, first_size).placed(
                rect,
                known,
            );
            let first = layout::first_part(old[target], axis, first_size);
            let second = layout::second_part(old[target], axis, first_size);
            &&& before ==> new[new_pane] == first && new[target] == second
            &&& !before ==> new[target] == first && new[new_pane] == second
            &&& id != target && id != new_pane && old.dom().contains(id) ==> new[id] == old[id]
        }),
    decreases layout,
{
    let after = layout.with_split(target, new_pane, axis, before, first_size);
    match layout {
        Layout::Leaf(_) => {
            reveal_with_fuel(Layout::placed, 3);
        },
        Layout::Split { axis: own, first, second, first_size: size } => {
            let left = layout::first_part(rect, own, size);
            let right = layout::second_part(rect, own, size);
            let placed = first.placed(left, known);
            lemma_parts_have_no_duplicates(layout, target);
            law_every_pane_is_placed(*first, left, known, target);
            law_every_pane_is_placed(*second, right, placed, target);
            law_every_pane_is_placed(*first, left, known, id);
            law_every_pane_is_placed(*second, right, placed, id);
            if first.has(target) {
                let split = first.with_split(target, new_pane, axis, before, first_size);
                law_split_divides_the_place(
                    *first,
                    left,
                    known,
                    target,
                    new_pane,
                    axis,
                    before,
                    first_size,
                    id,
                );
                let changed = split.placed(left, known);
                law_split_adds_the_new_pane(
                    *first,
                    target,
                    new_pane,
                    axis,
                    before,
                    first_size,
                    new_pane,
                );
                law_split_adds_the_new_pane(
                    *first,
                    target,
                    new_pane,
                    axis,
                    before,
                    first_size,
                    target,
                );
                law_every_pane_is_placed(split, left, known, target);
                law_every_pane_is_placed(split, left, known, new_pane);
                law_every_pane_is_placed(split, left, known, id);
                law_split_adds_the_new_pane(
                    *first,
                    target,
                    new_pane,
                    axis,
                    before,
                    first_size,
                    id,
                );
                law_every_pane_is_placed(*second, right, changed, target);
                law_every_pane_is_placed(*second, right, changed, new_pane);
                law_every_pane_is_placed(*second, right, changed, id);
                lemma_places_do_not_depend(*second, right, placed, changed, id);
            } else {
                law_split_divides_the_place(
                    *second,
                    right,
                    placed,
                    target,
                    new_pane,
                    axis,
                    before,
                    first_size,
                    id,
                );
            }
        },
    }
}

/// Where a pane stands does not depend on the places that were known before.
proof fn lemma_places_do_not_depend(
    layout: Layout,
    rect: Rect,
    one: Map<u64, Rect>,
    other: Map<u64, Rect>,
    id: u64,
)
    ensures
        layout.has(id) ==> layout.placed(rect, one)[id] == layout.placed(rect, other)[id],
    decreases layout,
{
    if let Layout::Split { axis, first, second, first_size } = layout {
        let left = layout::first_part(rect, axis, first_size);
        let right = layout::second_part(rect, axis, first_size);
        let a = first.placed(left, one);
        let b = first.placed(left, other);
        lemma_places_do_not_depend(*first, left, one, other, id);
        lemma_places_do_not_depend(*second, right, a, b, id);
        law_every_pane_is_placed(*first, left, one, id);
        law_every_pane_is_placed(*first, left, other, id);
        law_every_pane_is_placed(*second, right, a, id);
        law_every_pane_is_placed(*second, right, b, id);
    }
}

/// Panes that are replaced by others stand where those stood that they replace, as
/// long as no two panes are replaced by the same.
pub proof fn law_replaced_panes_keep_the_places(
    layout: Layout,
    rect: Rect,
    known: Map<u64, Rect>,
    map: spec_fn(u64) -> u64,
    id: u64,
)
    requires
        layout.has(id),
        forall|one: u64, other: u64|
            layout.has(one) && layout.has(other) && #[trigger] map(one) == #[trigger] map(other)
                ==> one == other,
    ensures
        layout.mapped(map).placed(rect, known)[map(id)] == layout.placed(rect, known)[id],
    decreases layout,
{
    if let Layout::Split { axis, first, second, first_size } = layout {
        let left = layout::first_part(rect, axis, first_size);
        let right = layout::second_part(rect, axis, first_size);
        let placed = first.placed(left, known);
        let mapped = first.mapped(map).placed(left, known);
        law_every_pane_is_placed(*first, left, known, id);
        law_every_pane_is_placed(*second, right, placed, id);
        if second.has(id) {
            law_replaced_panes_keep_the_places(*second, right, mapped, map, id);
            lemma_places_do_not_depend(*second, right, placed, mapped, id);
        } else {
            law_replaced_panes_keep_the_places(*first, left, known, map, id);
            lemma_mapped_has(*second, map, map(id));
            law_every_pane_is_placed(second.mapped(map), right, mapped, map(id));
            law_every_pane_is_placed(first.mapped(map), left, known, map(id));
            lemma_mapped_has(*first, map, map(id));
        }
    }
}

proof fn lemma_mapped_has(layout: Layout, map: spec_fn(u64) -> u64, id: u64)
    ensures
        layout.mapped(map).has(id) <==> exists|from: u64| layout.has(from) && #[trigger] map(from)
            == id,
    decreases layout,
{
    match layout {
        Layout::Leaf(leaf) => {
            if map(leaf) == id {
                assert(layout.has(leaf) && map(leaf) == id);
            }
        },
        Layout::Split { first, second, .. } => {
            lemma_mapped_has(*first, map, id);
            lemma_mapped_has(*second, map, id);
            if first.mapped(map).has(id) {
                let from = choose|from: u64| first.has(from) && #[trigger] map(from) == id;
                assert(layout.has(from) && map(from) == id);
            }
            if second.mapped(map).has(id) {
                let from = choose|from: u64| second.has(from) && #[trigger] map(from) == id;
                assert(layout.has(from) && map(from) == id);
            }
        },
    }
}

/// Two panes that are exchanged take each other's place, and no other moves.
pub proof fn law_swapped_panes_change_places(
    layout: Layout,
    rect: Rect,
    one: u64,
    other: u64,
    id: u64,
)
    requires
        layout.has(one),
        layout.has(other),
    ensures
        ({
            let old = layout.placed(rect, Map::empty());
            let new = layout.mapped(layout::exchange(one, other)).placed(rect, Map::empty());
            &&& new[one] == old[other]
            &&& new[other] == old[one]
            &&& layout.has(id) && id != one && id != other ==> new[id] == old[id]
        }),
{
    let map = layout::exchange(one, other);
    law_replaced_panes_keep_the_places(layout, rect, Map::empty(), map, one);
    law_replaced_panes_keep_the_places(layout, rect, Map::empty(), map, other);
    if layout.has(id) {
        law_replaced_panes_keep_the_places(layout, rect, Map::empty(), map, id);
    }
}

/// A table of panes replaces those that it has, and leaves the others.
pub proof fn law_table_replaces_what_it_has(table: Map<u64, u64>, id: u64)
    ensures
        (Layout::Leaf(id)).mapped(layout::lookup(table)) == Layout::Leaf(
            if table.dom().contains(id) {
                table[id]
            } else {
                id
            },
        ),
{
}

/// Taking a pane out leaves the others in their order, and the sibling of the pane
/// in the place of both.
pub proof fn law_remove_keeps_the_order(layout: Layout, target: u64, position: int)
    requires
        layout is Split,
        layout.ids().no_duplicates(),
        0 <= position < layout.ids().len(),
        layout.ids()[position] == target,
    ensures
        layout.without(target).ids() == layout.ids().remove(position),
        layout matches Layout::Split { first, second, .. } ==> {
            &&& *first == Layout::Leaf(target) ==> layout.without(target) == *second
            &&& *second == Layout::Leaf(target) ==> layout.without(target) == *first
        },
    decreases layout,
{
    if let Layout::Split { first, second, .. } = layout {
        let left = first.ids();
        let right = second.ids();
        lemma_parts_have_no_duplicates(layout, target);
        lemma_ids_are_held(*first, target);
        lemma_ids_are_held(*second, target);
        if position < left.len() {
            assert(left[position] == target);
            assert((left + right).remove(position) =~= left.remove(position) + right);
            if *first == Layout::Leaf(target) {
                assert(left.remove(position) + right =~= right);
            } else {
                if let Layout::Leaf(id) = *first {
                    assert(left[0] == id);
                }
                law_remove_keeps_the_order(*first, target, position);
                if *second == Layout::Leaf(target) {
                    assert(right[0] == target);
                }
            }
        } else {
            let at = position - left.len();
            assert(right[at] == target);
            assert((left + right).remove(position) =~= left + right.remove(at));
            if *first == Layout::Leaf(target) {
                assert(left[0] == target);
            }
            if *second == Layout::Leaf(target) {
                assert(left + right.remove(at) =~= left);
            } else {
                if let Layout::Leaf(id) = *second {
                    assert(right[0] == id);
                }
                law_remove_keeps_the_order(*second, target, at);
            }
        }
    }
}

/// What is not there is not changed: a pane that is not in the layout is neither
/// split nor taken out, and one that no split along the axis holds is not resized.
pub proof fn law_absent_panes_change_nothing(
    layout: Layout,
    rect: Rect,
    target: u64,
    new_pane: u64,
    axis: Axis,
    before: bool,
    first_size: Option<u16>,
    delta: i32,
    absolute: Option<u16>,
)
    ensures
        !layout.has(target) ==> layout.with_split(target, new_pane, axis, before, first_size)
            == layout,
        !layout.has(target) ==> layout.without(target) == layout,
        !layout.can_resize(target, axis) ==> layout.with_resize(
            rect,
            target,
            axis,
            delta,
            absolute,
        ) == layout,
    decreases layout,
{
    if let Layout::Split { axis: own, first, second, first_size: size } = layout {
        let left = layout::first_part(rect, own, size);
        let right = layout::second_part(rect, own, size);
        law_absent_panes_change_nothing(
            *first,
            left,
            target,
            new_pane,
            axis,
            before,
            first_size,
            delta,
            absolute,
        );
        law_absent_panes_change_nothing(
            *second,
            right,
            target,
            new_pane,
            axis,
            before,
            first_size,
            delta,
            absolute,
        );
    }
}

/// A pane can be resized along an axis exactly if it stands in a split along it,
/// however deep.
pub proof fn law_splits_can_be_resized(
    layout: Layout,
    own: Axis,
    other: Layout,
    first_size: Option<u16>,
    target: u64,
    axis: Axis,
)
    requires
        layout.has(target),
        !other.has(target),
    ensures
        ({
            let before = Layout::Split {
                axis: own,
                first: Box::new(layout),
                second: Box::new(other),
                first_size,
            };
            let behind = Layout::Split {
                axis: own,
                first: Box::new(other),
                second: Box::new(layout),
                first_size,
            };
            &&& before.can_resize(target, axis) == (own == axis || layout.can_resize(target, axis))
            &&& behind.can_resize(target, axis) == (own == axis || layout.can_resize(target, axis))
            &&& !(Layout::Leaf(target)).can_resize(target, axis)
        }),
{
}

/// The outermost split along the axis gives way, and those within keep theirs: a
/// pane in a split along the axis is resized there, wherever it stands within.
pub proof fn law_outermost_split_gives_way(
    first: Layout,
    second: Layout,
    first_size: Option<u16>,
    rect: Rect,
    target: u64,
    axis: Axis,
    delta: i32,
    absolute: Option<u16>,
)
    requires
        first.has(target) || second.has(target),
    ensures
        ({
            let layout = Layout::Split {
                axis,
                first: Box::new(first),
                second: Box::new(second),
                first_size,
            };
            let after = layout.with_resize(rect, target, axis, delta, absolute);
            &&& after matches Layout::Split { axis: own, first: one, second: other, .. }
            &&& own == axis && *one == first && *other == second
        }),
{
}

} // verus!
