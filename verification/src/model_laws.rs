//! What holds of panes and windows whatever is done to them.

use vstd::prelude::*;

use crate::emulator;
use crate::geometry::{Axis, Rect, Size};
use crate::layout::{self, Layout};
use crate::layout_laws;
use crate::model::{self, CopyModeKeys, CopyModeStart, CopySource, Pane, Session, Window};
use crate::terminal;

verus! {

/// The ids of panes.
pub open spec fn ids_of(panes: Seq<Pane>) -> Seq<u64> {
    panes.map_values(|pane: Pane| pane.id)
}

/// Whether a layout holds each of the panes once, and nothing else.
pub open spec fn holds_exactly(layout: Layout, panes: Seq<Pane>) -> bool {
    &&& ids_of(panes).no_duplicates()
    &&& layout.ids().no_duplicates()
    &&& forall|id: u64| #[trigger] layout.has(id) <==> ids_of(panes).contains(id)
}

proof fn lemma_first_with_id(panes: Seq<Pane>, id: u64)
    ensures
        match model::first_with_id(panes, id) {
            Some(position) => {
                &&& 0 <= position < panes.len()
                &&& panes[position].id == id
                &&& forall|i: int| 0 <= i < position ==> (#[trigger] panes[i]).id != id
            },
            None => forall|i: int| 0 <= i < panes.len() ==> (#[trigger] panes[i]).id != id,
        },
    decreases panes.len(),
{
    if panes.len() > 0 {
        let rest = panes.drop_last();
        lemma_first_with_id(rest, id);
        assert forall|i: int| 0 <= i < rest.len() implies panes[i] == rest[i] by {}
        match model::first_with_id(rest, id) {
            Some(position) => {
                assert(panes[position] == rest[position]);
                assert forall|i: int| 0 <= i < position implies (#[trigger] panes[i]).id != id by {
                    assert(panes[i] == rest[i]);
                }
            },
            None => {
                assert forall|i: int| 0 <= i < rest.len() implies (#[trigger] panes[i]).id
                    != id by {
                    assert(panes[i] == rest[i]);
                }
            },
        }
    }
}

/// With no id twice, the first pane with an id is the only one.
proof fn lemma_only_with_id(panes: Seq<Pane>, position: int)
    requires
        ids_of(panes).no_duplicates(),
        0 <= position < panes.len(),
    ensures
        model::first_with_id(panes, panes[position].id) == Some(position),
{
    let id = panes[position].id;
    lemma_first_with_id(panes, id);
    match model::first_with_id(panes, id) {
        Some(found) => {
            assert(ids_of(panes)[found] == ids_of(panes)[position]);
        },
        None => {},
    }
}

proof fn lemma_mapped_ids(layout: Layout, map: spec_fn(u64) -> u64)
    ensures
        layout.mapped(map).ids() == layout.ids().map_values(map),
    decreases layout,
{
    match layout {
        Layout::Leaf(id) => {
            assert(layout.mapped(map).ids() =~= layout.ids().map_values(map));
        },
        Layout::Split { first, second, .. } => {
            lemma_mapped_ids(*first, map);
            lemma_mapped_ids(*second, map);
            assert(layout.mapped(map).ids() =~= layout.ids().map_values(map));
        },
    }
}

/// Panes that go where a map sends them, in the list as in the layout, are
/// still held exactly.
proof fn lemma_mapped_holds_exactly(
    layout: Layout,
    before: Seq<Pane>,
    after: Seq<Pane>,
    map: spec_fn(u64) -> u64,
)
    requires
        holds_exactly(layout, before),
        after.len() == before.len(),
        ids_of(after).no_duplicates(),
        forall|i: int| 0 <= i < before.len() ==> (#[trigger] after[i]).id == map(before[i].id),
    ensures
        holds_exactly(layout.mapped(map), after),
{
    let next = layout.mapped(map);
    lemma_mapped_ids(layout, map);
    assert forall|i: int, j: int|
        0 <= i < next.ids().len() && 0 <= j < next.ids().len() && i != j implies next.ids()[i]
        != next.ids()[j] by {
        let one = layout.ids()[i];
        let other = layout.ids()[j];
        layout_laws::lemma_ids_are_held(layout, one);
        layout_laws::lemma_ids_are_held(layout, other);
        assert(layout.has(one) && layout.has(other));
        let p = choose|p: int| 0 <= p < before.len() && ids_of(before)[p] == one;
        let q = choose|q: int| 0 <= q < before.len() && ids_of(before)[q] == other;
        assert(after[p].id == map(one) && after[q].id == map(other));
        assert(ids_of(after)[p] != ids_of(after)[q]);
    }
    assert forall|id: u64| #[trigger] next.has(id) <==> ids_of(after).contains(id) by {
        layout_laws::lemma_ids_are_held(next, id);
        if next.has(id) {
            let i = choose|i: int| 0 <= i < next.ids().len() && next.ids()[i] == id;
            let one = layout.ids()[i];
            layout_laws::lemma_ids_are_held(layout, one);
            assert(layout.has(one));
            let p = choose|p: int| 0 <= p < before.len() && ids_of(before)[p] == one;
            assert(ids_of(after)[p] == after[p].id);
        }
        if ids_of(after).contains(id) {
            let p = choose|p: int| 0 <= p < after.len() && ids_of(after)[p] == id;
            assert(after[p].id == id);
            let one = before[p].id;
            assert(ids_of(before)[p] == one);
            assert(layout.has(one));
            layout_laws::lemma_ids_are_held(layout, one);
            let i = choose|i: int| 0 <= i < layout.ids().len() && layout.ids()[i] == one;
            assert(next.ids()[i] == id);
        }
    }
}

/// A new window holds exactly its one pane.
pub proof fn law_new_window_holds_its_pane(pane: Pane)
    ensures
        holds_exactly(Layout::Leaf(pane.id), seq![pane]),
{
    let panes = seq![pane];
    assert(ids_of(panes)[0] == pane.id);
    assert(panes.len() == 1);
}

/// Behind a change of order, panes have their positions as indexes, so that each
/// is found by its position.
pub proof fn law_numbered_panes_are_found(panes: Seq<Pane>, position: int)
    requires
        0 <= position < panes.len(),
        panes.len() <= u32::MAX,
    ensures
        model::numbered(panes)[position].index == position,
        model::first_with_index(model::numbered(panes), position as u32) == Some(position),
{
    lemma_found_by_position(model::numbered(panes), position, panes.len() as int);
    let all = model::numbered(panes);
    assert(all.take(panes.len() as int) =~= all);
}

proof fn lemma_found_by_position(panes: Seq<Pane>, position: int, length: int)
    requires
        0 <= length <= panes.len() <= u32::MAX,
        0 <= position <= u32::MAX,
        forall|i: int| 0 <= i < panes.len() ==> (#[trigger] panes[i]).index == i,
    ensures
        model::first_with_index(panes.take(length), position as u32) == if position < length {
            Some(position)
        } else {
            None
        },
    decreases length,
{
    if length > 0 {
        assert(panes.take(length).drop_last() =~= panes.take(length - 1));
        assert(panes.take(length).last() == panes[length - 1]);
        lemma_found_by_position(panes, position, length - 1);
    }
}

/// Exchanging two panes of a window exchanges them in the list and in the
/// layout alike: the pane at each position gets the place of the one that was
/// there.
pub proof fn law_swap_moves_list_and_layout_alike(
    panes: Seq<Pane>,
    one: int,
    other: int,
    position: int,
)
    requires
        ids_of(panes).no_duplicates(),
        0 <= one < panes.len(),
        0 <= other < panes.len(),
        0 <= position < panes.len(),
    ensures
        model::numbered(model::exchanged(panes, one, other))[position].id == layout::exchange(
            panes[one].id,
            panes[other].id,
        )(panes[position].id),
{
    let ids = ids_of(panes);
    assert(ids[one] == panes[one].id && ids[other] == panes[other].id && ids[position]
        == panes[position].id);
}

/// Exchanging two panes keeps a window consistent.
pub proof fn law_swap_keeps_the_panes(layout: Layout, panes: Seq<Pane>, one: int, other: int)
    requires
        holds_exactly(layout, panes),
        0 <= one < panes.len(),
        0 <= other < panes.len(),
    ensures
        holds_exactly(
            layout.mapped(layout::exchange(panes[one].id, panes[other].id)),
            model::numbered(model::exchanged(panes, one, other)),
        ),
{
    let after = model::numbered(model::exchanged(panes, one, other));
    let map = layout::exchange(panes[one].id, panes[other].id);
    let ids = ids_of(panes);
    assert forall|i: int| 0 <= i < panes.len() implies (#[trigger] after[i]).id == map(
        panes[i].id,
    ) by {
        law_swap_moves_list_and_layout_alike(panes, one, other, i);
    }
    assert forall|i: int, j: int|
        0 <= i < after.len() && 0 <= j < after.len() && i != j implies ids_of(after)[i]
        != ids_of(after)[j] by {
        assert(after[i].id == map(panes[i].id) && after[j].id == map(panes[j].id));
        assert(ids[i] != ids[j]);
    }
    lemma_mapped_holds_exactly(layout, panes, after, map);
}

/// Exchanging two panes twice brings everything back to its place.
pub proof fn law_swap_twice_is_nothing(layout: Layout, panes: Seq<Pane>, one: int, other: int)
    requires
        ids_of(panes).no_duplicates(),
        0 <= one < panes.len(),
        0 <= other < panes.len(),
    ensures
        ({
            let once = model::numbered(model::exchanged(panes, one, other));
            let map = layout::exchange(panes[one].id, panes[other].id);
            &&& model::first_with_id(once, panes[one].id) == Some(other)
            &&& model::first_with_id(once, panes[other].id) == Some(one)
            &&& model::numbered(model::exchanged(once, other, one)) == model::numbered(panes)
            &&& layout.mapped(map).mapped(map) == layout
        }),
{
    let once = model::numbered(model::exchanged(panes, one, other));
    let ids = ids_of(panes);
    assert forall|i: int, j: int|
        0 <= i < once.len() && 0 <= j < once.len() && i != j implies ids_of(once)[i]
        != ids_of(once)[j] by {
        law_swap_moves_list_and_layout_alike(panes, one, other, i);
        law_swap_moves_list_and_layout_alike(panes, one, other, j);
        assert(ids[i] != ids[j]);
        assert(ids[i] == panes[i].id && ids[j] == panes[j].id);
    }
    lemma_only_with_id(once, other);
    lemma_only_with_id(once, one);
    assert(model::numbered(model::exchanged(once, other, one)) =~= model::numbered(panes));
    layout_laws::law_swap_twice_is_nothing(layout, panes[one].id, panes[other].id);
}

proof fn lemma_rotated(panes: Seq<Pane>, up: bool, position: int)
    requires
        0 <= position < panes.len(),
    ensures
        model::rotated(panes, up).len() == panes.len(),
        0 <= model::neighbour(position, panes.len() as int, up) < panes.len(),
        model::rotated(panes, up)[position] == panes[model::neighbour(
            position,
            panes.len() as int,
            up,
        )],
{
}

proof fn lemma_successors(panes: Seq<Pane>, up: bool, count: nat, position: int)
    requires
        ids_of(panes).no_duplicates(),
        0 <= position < panes.len(),
        count <= panes.len(),
    ensures
        model::successors(panes, up, count).dom().contains(panes[position].id) <==> position
            < count,
        position < count ==> model::successors(panes, up, count)[panes[position].id]
            == panes[model::neighbour(position, panes.len() as int, up)].id,
    decreases count,
{
    if count > 0 {
        lemma_successors(panes, up, (count - 1) as nat, position);
        let ids = ids_of(panes);
        assert(ids[position] == panes[position].id);
        assert(ids[count - 1] == panes[count - 1].id);
    }
}

/// Rotating the panes of a window moves them in the list and in the layout
/// alike: the pane that comes to each position gets the place of the one that
/// was there.
pub proof fn law_rotation_moves_list_and_layout_alike(panes: Seq<Pane>, up: bool, position: int)
    requires
        ids_of(panes).no_duplicates(),
        0 <= position < panes.len(),
    ensures
        model::numbered(model::rotated(panes, up))[position].id == model::replacing(panes, up)(
            panes[position].id,
        ),
{
    lemma_rotated(panes, up, position);
    lemma_successors(panes, up, panes.len(), position);
}

proof fn lemma_rotated_ids(panes: Seq<Pane>, up: bool)
    requires
        ids_of(panes).no_duplicates(),
    ensures
        ids_of(model::numbered(model::rotated(panes, up))).no_duplicates(),
{
    let after = model::numbered(model::rotated(panes, up));
    let ids = ids_of(panes);
    assert forall|i: int, j: int|
        0 <= i < after.len() && 0 <= j < after.len() && i != j implies ids_of(after)[i]
        != ids_of(after)[j] by {
        lemma_rotated(panes, up, i);
        lemma_rotated(panes, up, j);
        let p = model::neighbour(i, panes.len() as int, up);
        let q = model::neighbour(j, panes.len() as int, up);
        assert(ids[p] == panes[p].id && ids[q] == panes[q].id);
    }
}

/// Rotating the panes keeps a window consistent.
pub proof fn law_rotation_keeps_the_panes(layout: Layout, panes: Seq<Pane>, up: bool)
    requires
        holds_exactly(layout, panes),
    ensures
        holds_exactly(
            layout.mapped(model::replacing(panes, up)),
            model::numbered(model::rotated(panes, up)),
        ),
{
    let after = model::numbered(model::rotated(panes, up));
    let map = model::replacing(panes, up);
    assert forall|i: int| 0 <= i < panes.len() implies (#[trigger] after[i]).id == map(
        panes[i].id,
    ) by {
        law_rotation_moves_list_and_layout_alike(panes, up, i);
    }
    lemma_rotated_ids(panes, up);
    lemma_mapped_holds_exactly(layout, panes, after, map);
}

proof fn lemma_mapped_back(layout: Layout, there: spec_fn(u64) -> u64, back: spec_fn(u64) -> u64)
    requires
        forall|id: u64| layout.has(id) ==> back(#[trigger] there(id)) == id,
    ensures
        layout.mapped(there).mapped(back) == layout,
    decreases layout,
{
    match layout {
        Layout::Leaf(id) => {
            assert(layout.has(id));
            assert(back(there(id)) == id);
        },
        Layout::Split { first, second, .. } => {
            assert forall|id: u64| first.has(id) implies back(#[trigger] there(id)) == id by {
                assert(layout.has(id));
            }
            assert forall|id: u64| second.has(id) implies back(#[trigger] there(id)) == id by {
                assert(layout.has(id));
            }
            lemma_mapped_back(*first, there, back);
            lemma_mapped_back(*second, there, back);
        },
    }
}

/// Rotating the panes one way and then the other brings everything back: their
/// order, the layout, and which pane is active.
pub proof fn law_rotating_back_is_nothing(
    layout: Layout,
    panes: Seq<Pane>,
    active: int,
    up: bool,
)
    requires
        holds_exactly(layout, panes),
        0 <= active < panes.len(),
    ensures
        ({
            let once = model::numbered(model::rotated(panes, up));
            let then_active = model::rotated(panes, up)[model::place_of(
                panes,
                panes[active].id,
            )].id;
            &&& model::numbered(model::rotated(once, !up)) == model::numbered(panes)
            &&& layout.mapped(model::replacing(panes, up)).mapped(model::replacing(once, !up))
                == layout
            &&& model::rotated(once, !up)[model::place_of(once, then_active)].id
                == panes[active].id
        }),
{
    let length = panes.len() as int;
    let once = model::numbered(model::rotated(panes, up));
    let there = model::replacing(panes, up);
    let back = model::replacing(once, !up);
    lemma_rotated_ids(panes, up);
    assert(once.len() == length);
    assert(model::numbered(model::rotated(once, !up)) =~= model::numbered(panes));
    assert forall|id: u64| layout.has(id) implies back(#[trigger] there(id)) == id by {
        assert(ids_of(panes).contains(id));
        let p = choose|p: int| 0 <= p < panes.len() && ids_of(panes)[p] == id;
        assert(panes[p].id == id);
        law_rotation_moves_list_and_layout_alike(panes, up, p);
        law_rotation_moves_list_and_layout_alike(once, !up, p);
        lemma_rotated(panes, up, p);
        lemma_rotated(once, !up, p);
        assert(model::numbered(model::rotated(once, !up))[p].id == panes[p].id);
    }
    lemma_mapped_back(layout, there, back);
    lemma_only_with_id(panes, active);
    lemma_only_with_id(once, active);
    lemma_rotated(panes, up, active);
    lemma_rotated(once, !up, active);
    assert(model::numbered(model::rotated(once, !up))[active].id == panes[active].id);
}

/// Behind a reflow every pane that the layout has stands inside the window.
pub proof fn law_reflowed_panes_stay_inside(window: Window, pane: Pane)
    requires
        window.layout.has(pane.id),
    ensures
        window.places().dom().contains(pane.id),
        layout_laws::lies_in(
            model::place_in_window(window, pane, window.places()[pane.id]),
            Rect::covering(window.size),
        ),
{
    let whole = Rect::covering(window.size);
    layout_laws::law_every_pane_is_placed(window.layout, whole, Map::empty(), pane.id);
    layout_laws::law_panes_span_inside(window.layout, whole, Map::empty(), pane.id);
}

/// Behind a reflow two panes share no cell, unless the window is zoomed or one
/// of them spans it.
pub proof fn law_reflowed_panes_do_not_overlap(window: Window, one: Pane, other: Pane)
    requires
        window.layout.has(one.id),
        window.layout.has(other.id),
        one.id != other.id,
        !window.zoomed,
        one.full_axis is None,
        other.full_axis is None,
    ensures
        layout_laws::are_apart(
            model::place_in_window(window, one, window.places()[one.id]),
            model::place_in_window(window, other, window.places()[other.id]),
        ),
{
    layout_laws::law_panes_do_not_overlap(
        window.layout,
        Rect::covering(window.size),
        Map::empty(),
        one.id,
        other.id,
    );
}

/// A zoomed pane covers its window.
pub proof fn law_zoomed_pane_covers_the_window(window: Window, pane: Pane, rect: Rect)
    requires
        window.zoomed,
        pane.id == window.active_pane,
    ensures
        model::place_in_window(window, pane, rect) == Rect::covering(window.size),
{
}

/// Reflowing again gives every pane the place that it has.
pub proof fn law_reflow_again_keeps_the_places(window: Window, before: Pane, after: Pane)
    requires
        window.layout.has(before.id),
        model::is_moved(
            after,
            before,
            model::place_in_window(window, before, window.places()[before.id]),
        ),
    ensures
        model::place_in_window(window, after, window.places()[after.id]) == after.rect,
{
}

/// Selecting the last window goes back to it, and remembers the one that was
/// left.
pub proof fn law_selecting_the_last_window_goes_back(session: Session, index: u32)
    requires
        session.active_window != index,
    ensures
        session.selecting(index).last_window == Some(session.active_window),
        session.selecting(index).selecting(session.active_window) == (Session {
            last_window: Some(index),
            ..session
        }),
{
}

/// Selecting the active window changes nothing.
pub proof fn law_selecting_the_active_window_is_nothing(session: Session)
    ensures
        session.selecting(session.active_window) == session,
{
}

/// Rotating up moves every pane one place to the front, and the first to the end;
/// rotating down is the other way round.
pub proof fn law_rotation_moves_by_one(panes: Seq<Pane>, position: int)
    requires
        0 <= position < panes.len(),
    ensures
        model::rotated(panes, true).len() == panes.len(),
        model::rotated(panes, false).len() == panes.len(),
        position > 0 ==> model::rotated(panes, true)[position - 1] == panes[position],
        model::rotated(panes, true)[panes.len() - 1] == panes[0],
        position + 1 < panes.len() ==> model::rotated(panes, false)[position + 1]
            == panes[position],
        model::rotated(panes, false)[0] == panes[panes.len() - 1],
{
}

/// Panes that change places: each has the position of the other, and no other pane
/// moves.
pub proof fn law_exchanged_panes_change_positions(
    panes: Seq<Pane>,
    one: int,
    other: int,
    position: int,
)
    requires
        0 <= one < panes.len(),
        0 <= other < panes.len(),
        0 <= position < panes.len(),
    ensures
        model::exchanged(panes, one, other)[one] == panes[other],
        model::exchanged(panes, one, other)[other] == panes[one],
        position != one && position != other ==> model::exchanged(panes, one, other)[position]
            == panes[position],
{
}

/// A pane is found by its id, or by its index, at the first position that has it.
pub proof fn law_first_pane_is_found(panes: Seq<Pane>, id: u64, index: u32)
    ensures
        match model::first_with_id(panes, id) {
            Some(position) => {
                &&& 0 <= position < panes.len()
                &&& panes[position].id == id
                &&& forall|i: int| 0 <= i < position ==> (#[trigger] panes[i]).id != id
            },
            None => forall|i: int| 0 <= i < panes.len() ==> (#[trigger] panes[i]).id != id,
        },
        match model::first_with_index(panes, index) {
            Some(position) => {
                &&& 0 <= position < panes.len()
                &&& panes[position].index == index
                &&& forall|i: int| 0 <= i < position ==> (#[trigger] panes[i]).index != index
            },
            None => forall|i: int| 0 <= i < panes.len() ==> (#[trigger] panes[i]).index != index,
        },
    decreases panes.len(),
{
    if panes.len() > 0 {
        let front = panes.drop_last();
        law_first_pane_is_found(front, id, index);
        assert(forall|i: int| 0 <= i < front.len() ==> front[i] == panes[i]);
    }
}

/// A pane along the whole width of its window keeps its rows and has every column;
/// one along the whole height keeps its columns and has every row; any other stands
/// where the layout has it.
pub proof fn law_full_panes_cross_the_window(window: Window, pane: Pane, rect: Rect)
    requires
        !window.zoomed || pane.id != window.active_pane,
    ensures
        ({
            let place = model::place_in_window(window, pane, rect);
            match pane.full_axis {
                Some(Axis::Vertical) => {
                    &&& place.x == 0 && place.cols == window.size.cols
                    &&& place.y == rect.y && place.rows == rect.rows
                },
                Some(Axis::Horizontal) => {
                    &&& place.y == 0 && place.rows == window.size.rows
                    &&& place.x == rect.x && place.cols == rect.cols
                },
                None => place == rect,
            }
        }),
{
}

/// A pane that is moved has the screen of its place, with one row and one column at
/// the least, and is otherwise as it was.
pub proof fn law_moved_panes_have_the_screen_of_their_place(
    after: Pane,
    before: Pane,
    rect: Rect,
)
    requires
        model::is_moved(after, before, rect),
    ensures
        after.rect == rect,
        rect.rows > 0 ==> emulator::size_of(after.parser).0 == rect.rows,
        rect.cols > 0 ==> emulator::size_of(after.parser).1 == rect.cols,
        rect.rows == 0 ==> emulator::size_of(after.parser).0 == 1,
        rect.cols == 0 ==> emulator::size_of(after.parser).1 == 1,
        after.id == before.id && after.index == before.index && after.title == before.title,
        after.raw_output == before.raw_output,
{
}

/// A window covers its whole size from the first cell on, and no size is without a
/// cell once it is bounded.
pub proof fn law_windows_cover_their_size(size: Size)
    ensures
        Rect::covering(size).x == 0 && Rect::covering(size).y == 0,
        Rect::covering(size).cols == size.cols && Rect::covering(size).rows == size.rows,
        size.at_least_one().cols >= 1 && size.at_least_one().rows >= 1,
        size.cols >= 1 ==> size.at_least_one().cols == size.cols,
        size.rows >= 1 ==> size.at_least_one().rows == size.rows,
        size.cols == 0 ==> size.at_least_one().cols == 1,
        size.rows == 0 ==> size.at_least_one().rows == 1,
{
}

/// Selecting a window makes it active, and remembers the one that was.
pub proof fn law_selecting_makes_active(session: Session, index: u32)
    ensures
        session.selecting(index).active_window == index,
        session.active_window != index ==> session.selecting(index).last_window == Some(
            session.active_window,
        ),
        session.selecting(index).windows == session.windows,
        session.selecting(index).name == session.name,
{
}

/// A new pane is enabled and runs; it has shown nothing and is in no mode, and its
/// emulator keeps ten thousand lines.
pub proof fn law_new_panes_are_idle(pane: Pane, id: u64, index: u32, size: Size)
    requires
        model::is_new_pane(pane, id, index, size),
    ensures
        pane.id == id && pane.index == index,
        pane.enabled && !pane.dead && !pane.panes_mode,
        pane.copy_source is None && pane.full_axis is None,
        pane.title@.len() == 0 && pane.current_path is None && pane.start_path is None,
        pane.raw_output@.len() == 0 && pane.history_floor == 0,
        pane.options@.len() == 0 && pane.copy_prompt_history@.len() == 0,
        pane.output_state.wrap && !pane.output_state.audible_bell,
        pane.output_state.pending@.len() == 0 && pane.output_state.last_printed is None,
        pane.rect.x == 0 && pane.rect.y == 0,
        size.cols > 0 ==> pane.rect.cols == size.cols,
        size.rows > 0 ==> pane.rect.rows == size.rows,
        emulator::state_of(pane.parser).scrollback == 10000,
        emulator::state_of(pane.parser).acts.len() == 0,
        emulator::size_of(pane.parser) == (pane.rect.rows, pane.rect.cols),
{
}

/// The copy of a pane for a second window shows what the pane has put out, from the
/// first byte on, on an emulator of its own that keeps ten thousand lines; it is the
/// same pane, in no mode.
pub proof fn law_links_show_the_same(link: Pane, pane: Pane)
    requires
        link.is_link_of(pane),
        pane.rect.rows > 0,
        pane.rect.cols > 0,
    ensures
        emulator::state_of(link.parser) == terminal::replayed_stream(
            emulator::fresh(pane.rect.rows, pane.rect.cols, 10000),
            pane.raw_output@,
        ),
        link.id == pane.id && link.index == pane.index && link.rect == pane.rect,
        link.title == pane.title && link.command == pane.command,
        link.raw_output@ == pane.raw_output@ && link.options@ == pane.options@,
        link.copy_source is None && !link.panes_mode,
        link.dead == pane.dead && link.enabled == pane.enabled,
        link.history_floor == pane.history_floor && link.full_axis == pane.full_axis,
        link.current_path == pane.current_path && link.start_path == pane.start_path,
        link.command_args@ == pane.command_args@,
        model::all_bytes(link.copy_prompt_history@) == model::all_bytes(pane.copy_prompt_history@),
        link.output_state.pending@.len() == 0 && link.output_state.wrap,
{
}

/// A new window holds its one pane, which is active, and is neither zoomed nor
/// ringing.
pub proof fn law_new_windows_are_quiet(window: Window, pane: Pane, size: Size)
    requires
        model::is_new_window(window, pane, size),
    ensures
        window.panes@.len() == 1 && window.panes@[0] == pane,
        window.active_pane == pane.id && window.last_pane is None,
        window.layout.has(pane.id),
        !window.zoomed && !window.bell_alert && !window.synchronize_panes,
        window.next_pane_index == 1 && window.options@.len() == 0,
        window.mode_keys == CopyModeKeys::Emacs,
        size.cols > 0 && size.rows > 0 ==> window.size == size,
{
}

/// Exchanging two panes leaves the active pane, the name and the modes of a window
/// alone, and does nothing where one of them is not there.
pub proof fn law_swapping_leaves_the_window_alone(
    after: Window,
    before: Window,
    first: u64,
    second: u64,
)
    requires
        model::is_swapped(after, before, first, second),
    ensures
        after.active_pane == before.active_pane && after.last_pane == before.last_pane,
        after.zoomed == before.zoomed && after.name == before.name && after.size == before.size,
        after.panes@.len() == before.panes@.len(),
        (forall|i: int| 0 <= i < before.panes@.len() ==> (#[trigger] before.panes@[i]).id != first)
            ==> after == before,
        (forall|i: int| 0 <= i < before.panes@.len() ==> (#[trigger] before.panes@[i]).id != second)
            ==> after == before,
{
    law_first_pane_is_found(before.panes@, first, 0);
    law_first_pane_is_found(before.panes@, second, 0);
}

/// Rotating keeps the place that was active: the pane that comes there is active.
/// One pane alone stays.
pub proof fn law_rotating_keeps_the_active_place(
    after: Window,
    before: Window,
    up: bool,
    position: int,
)
    requires
        model::is_rotated(after, before, up),
        0 <= position < before.panes@.len(),
        before.panes@[position].id == before.active_pane,
        ids_of(before.panes@).no_duplicates(),
    ensures
        after.panes@.len() == before.panes@.len(),
        after.panes@[position].id == after.active_pane,
        before.panes@.len() == 1 ==> after == before,
        before.panes@.len() >= 2 && up && position + 1 < before.panes@.len() ==> after.active_pane
            == before.panes@[position + 1].id,
        before.panes@.len() >= 2 && !up && position > 0 ==> after.active_pane
            == before.panes@[position - 1].id,
        after.name == before.name && after.size == before.size && after.zoomed == before.zoomed,
{
    let panes = before.panes@;
    law_first_pane_is_found(panes, before.active_pane, 0);
    let found = model::first_with_id(panes, before.active_pane)->0;
    assert(ids_of(panes)[found] == ids_of(panes)[position]);
    assert(found == position);
}

/// Where no pane is active, rotating goes by the first.
pub proof fn law_rotating_goes_by_the_first_pane(after: Window, before: Window, up: bool)
    requires
        model::is_rotated(after, before, up),
        before.panes@.len() >= 2,
        forall|i: int|
            0 <= i < before.panes@.len() ==> (#[trigger] before.panes@[i]).id
                != before.active_pane,
    ensures
        up ==> after.active_pane == before.panes@[1].id,
        !up ==> after.active_pane == before.panes@.last().id,
{
    law_first_pane_is_found(before.panes@, before.active_pane, 0);
}

/// The copy mode shows a snapshot as it was put out, on a screen of the size of the
/// pane and with as many lines as are asked for; without one it shows the output of
/// the pane from where it is told.
pub proof fn law_copy_mode_starts_from_its_source(
    start: CopyModeStart,
    pane: Pane,
    history_floor: usize,
    source: Option<CopySource>,
    history_limit: usize,
)
    requires
        model::is_copy_start(start, pane, history_floor, source, history_limit),
        pane.rect.rows > 0,
        pane.rect.cols > 0,
    ensures
        source matches Some(snapshot) ==> {
            &&& start.raw_output@ == snapshot.raw_output@
            &&& start.history_floor == snapshot.history_floor
            &&& start.parser is Some
            &&& emulator::state_of(start.parser->0) == terminal::replayed_stream(
                emulator::fresh(pane.rect.rows, pane.rect.cols, history_limit),
                snapshot.raw_output@,
            )
        },
        source is None ==> {
            &&& start.raw_output@ == pane.raw_output@
            &&& start.history_floor == history_floor
            &&& start.parser is None
        },
{
}

/// A window in a second session has the same panes in the same places, and is the
/// same in all else.
pub proof fn law_linked_windows_are_alike(window: Window, other: Window)
    requires
        model::is_linked_window(window, other),
    ensures
        ids_of(window.panes@) == ids_of(other.panes@),
        window.places() == other.places(),
        window.id == other.id && window.index == other.index && window.name == other.name,
        window.active_pane == other.active_pane && window.last_pane == other.last_pane,
        window.zoomed == other.zoomed && window.bell_alert == other.bell_alert,
        window.next_pane_index == other.next_pane_index && window.mode_keys == other.mode_keys,
        window.synchronize_panes == other.synchronize_panes && window.options@ == other.options@,
{
    assert forall|i: int| 0 <= i < other.panes@.len() implies ids_of(window.panes@)[i] == ids_of(
        other.panes@,
    )[i] by {
        assert(window.panes@[i].is_link_of(other.panes@[i]));
    }
    assert(ids_of(window.panes@) =~= ids_of(other.panes@));
}

} // verus!
