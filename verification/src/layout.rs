//! How the panes of a window share its cells.

use std::collections::HashMap;

use vstd::prelude::*;

use crate::geometry::{Axis, Rect};

verus! {

broadcast use vstd::std_specs::hash::group_hash_axioms;

/// A small layout tree. A split owns the separator cell, which keeps panes from
/// painting over one another and makes geometry changes deterministic.
#[derive(Debug, PartialEq, Eq)]
pub enum Layout {
    Leaf(u64),
    Split {
        axis: Axis,
        first: Box<Layout>,
        second: Box<Layout>,
        first_size: Option<u16>,
    },
}

impl Clone for Layout {
    fn clone(&self) -> (copy: Self)
        ensures
            copy == *self,
        decreases self,
    {
        match self {
            Layout::Leaf(id) => Layout::Leaf(*id),
            Layout::Split { axis, first, second, first_size } => Layout::Split {
                axis: *axis,
                first: Box::new((&**first).clone()),
                second: Box::new((&**second).clone()),
                first_size: *first_size,
            },
        }
    }
}

/// The cells that the two parts of a split share, along its axis.
pub open spec fn available(rect: Rect, axis: Axis) -> int {
    if rect.length(axis) > 0 {
        rect.length(axis) - 1
    } else {
        0
    }
}

pub open spec fn at_most(value: int, limit: int) -> int {
    if value <= limit {
        value
    } else {
        limit
    }
}

/// The cells of the first part of a split: as many as it asks for, or half.
pub open spec fn first_length(rect: Rect, axis: Axis, first_size: Option<u16>) -> int {
    let available = available(rect, axis);
    match first_size {
        Some(size) => at_most(size as int, available),
        None => available / 2,
    }
}

/// The rectangle of the first part of a split.
pub open spec fn first_part(rect: Rect, axis: Axis, first_size: Option<u16>) -> Rect {
    let length = first_length(rect, axis, first_size);
    match axis {
        Axis::Horizontal => Rect { cols: length as u16, ..rect },
        Axis::Vertical => Rect { rows: length as u16, ..rect },
    }
}

/// The rectangle of the second part of a split, behind the separator.
pub open spec fn second_part(rect: Rect, axis: Axis, first_size: Option<u16>) -> Rect {
    let length = first_length(rect, axis, first_size);
    let rest = available(rect, axis) - length;
    match axis {
        Axis::Horizontal => Rect {
            x: at_most(rect.x + length + 1, 65535) as u16,
            cols: rest as u16,
            ..rect
        },
        Axis::Vertical => Rect {
            y: at_most(rect.y + length + 1, 65535) as u16,
            rows: rest as u16,
            ..rect
        },
    }
}

/// The cells that the two parts of a split share.
fn shared_cells(rect: Rect, axis: Axis) -> (cells: u16)
    ensures
        cells == available(rect, axis),
{
    match axis {
        Axis::Horizontal => rect.cols.saturating_sub(1),
        Axis::Vertical => rect.rows.saturating_sub(1),
    }
}

fn first_cells(rect: Rect, axis: Axis, first_size: Option<u16>) -> (cells: u16)
    ensures
        cells == first_length(rect, axis, first_size),
{
    let shared: u16 = shared_cells(rect, axis);
    match first_size {
        Some(size) => if size <= shared {
            size
        } else {
            shared
        },
        None => shared / 2,
    }
}

/// The rectangles of the two parts of a split.
fn divide(rect: Rect, axis: Axis, first_size: Option<u16>) -> (parts: (Rect, Rect))
    ensures
        parts.0 == first_part(rect, axis, first_size),
        parts.1 == second_part(rect, axis, first_size),
{
    let length: u16 = first_cells(rect, axis, first_size);
    let rest: u16 = shared_cells(rect, axis).saturating_sub(length);
    match axis {
        Axis::Horizontal => (
            Rect { cols: length, ..rect },
            Rect { x: rect.x.saturating_add(length).saturating_add(1), cols: rest, ..rect },
        ),
        Axis::Vertical => (
            Rect { rows: length, ..rect },
            Rect { y: rect.y.saturating_add(length).saturating_add(1), rows: rest, ..rect },
        ),
    }
}

/// What 16 bits keep of a number.
pub open spec fn low_bits(delta: i32) -> int {
    (delta + 32768) % 65536 - 32768
}

/// A length that moves by the 16 low bits of a number and stays within bounds.
pub open spec fn moved(length: int, delta: i32, limit: int) -> int {
    let sum = length + low_bits(delta);
    if sum < 0 {
        0
    } else {
        at_most(at_most(sum, 65535), limit)
    }
}

fn move_length(length: u16, delta: i32, limit: u16) -> (result: u16)
    ensures
        result == moved(length as int, delta, limit as int),
{
    let shifted: i64 = (delta as i64 + 32768 + 4294967296) % 65536 - 32768;
    let sum: i64 = length as i64 + shifted;
    let bounded: i64 = if sum < 0 {
        0
    } else if sum > 65535 {
        65535
    } else {
        sum
    };
    if bounded <= limit as i64 {
        bounded as u16
    } else {
        limit
    }
}

impl Layout {
    /// Whether a pane is in the layout.
    pub open spec fn has(self, id: u64) -> bool
        decreases self,
    {
        match self {
            Layout::Leaf(leaf) => leaf == id,
            Layout::Split { first, second, .. } => first.has(id) || second.has(id),
        }
    }

    /// The panes of the layout, from the first to the last.
    pub open spec fn ids(self) -> Seq<u64>
        decreases self,
    {
        match self {
            Layout::Leaf(leaf) => seq![leaf],
            Layout::Split { first, second, .. } => first.ids() + second.ids(),
        }
    }

    /// The layout with the first leaf of a pane split between that pane and a
    /// new one.
    pub open spec fn with_split(
        self,
        target: u64,
        new_pane: u64,
        axis: Axis,
        before: bool,
        first_size: Option<u16>,
    ) -> Layout
        decreases self,
    {
        match self {
            Layout::Leaf(id) => if id == target {
                let old = Box::new(Layout::Leaf(id));
                let new = Box::new(Layout::Leaf(new_pane));
                if before {
                    Layout::Split { axis, first: new, second: old, first_size }
                } else {
                    Layout::Split { axis, first: old, second: new, first_size }
                }
            } else {
                self
            },
            Layout::Split { axis: own, first, second, first_size: size } => if first.has(target) {
                Layout::Split {
                    axis: own,
                    first: Box::new(first.with_split(target, new_pane, axis, before, first_size)),
                    second,
                    first_size: size,
                }
            } else {
                Layout::Split {
                    axis: own,
                    first,
                    second: Box::new(second.with_split(target, new_pane, axis, before, first_size)),
                    first_size: size,
                }
            },
        }
    }

    /// Splits the leaf of a pane, and says whether there was one.
    pub fn split_with_size(
        &mut self,
        target: u64,
        new_pane: u64,
        axis: Axis,
        before: bool,
        _full: bool,
        first_size: Option<u16>,
    ) -> (found: bool)
        ensures
            found == old(self).has(target),
            *final(self) == old(self).with_split(target, new_pane, axis, before, first_size),
        decreases *old(self),
    {
        match self {
            Layout::Leaf(id) => {
                let id: u64 = *id;
                if id != target {
                    return false;
                }
                let old = Box::new(Layout::Leaf(id));
                let new = Box::new(Layout::Leaf(new_pane));
                *self = if before {
                    Layout::Split { axis, first: new, second: old, first_size }
                } else {
                    Layout::Split { axis, first: old, second: new, first_size }
                };
                true
            },
            Layout::Split { first, second, .. } => {
                let ghost unsplit = **first;
                if first.split_with_size(target, new_pane, axis, before, _full, first_size) {
                    true
                } else {
                    proof {
                        lemma_split_elsewhere(unsplit, target, new_pane, axis, before, first_size);
                    }
                    second.split_with_size(target, new_pane, axis, before, _full, first_size)
                }
            },
        }
    }
}

impl Layout {
    /// Whether a split along the axis can give or take cells of a pane.
    pub open spec fn can_resize(self, target: u64, axis: Axis) -> bool
        decreases self,
    {
        match self {
            Layout::Leaf(_) => false,
            Layout::Split { axis: own, first, second, .. } => if first.has(target) {
                own == axis || first.can_resize(target, axis)
            } else if second.has(target) {
                own == axis || second.can_resize(target, axis)
            } else {
                false
            },
        }
    }

    /// The layout with the outermost split along the axis around a pane moved:
    /// by a distance, or to where the part with the pane has the given length.
    pub open spec fn with_resize(
        self,
        rect: Rect,
        target: u64,
        axis: Axis,
        delta: i32,
        absolute: Option<u16>,
    ) -> Layout
        decreases self,
    {
        match self {
            Layout::Leaf(_) => self,
            Layout::Split { axis: own, first, second, first_size } => {
                let limit = available(rect, own);
                let length = first_length(rect, own, first_size);
                if first.has(target) {
                    if own == axis {
                        let size = at_most(wanted(length, delta, absolute, limit), limit);
                        Layout::Split { axis: own, first, second, first_size: Some(size as u16) }
                    } else {
                        let part = first_part(rect, own, first_size);
                        Layout::Split {
                            axis: own,
                            first: Box::new(first.with_resize(part, target, axis, delta, absolute)),
                            second,
                            first_size,
                        }
                    }
                } else if second.has(target) {
                    if own == axis {
                        let size = at_most(wanted(limit - length, delta, absolute, limit), limit);
                        Layout::Split {
                            axis: own,
                            first,
                            second,
                            first_size: Some((limit - size) as u16),
                        }
                    } else {
                        let part = second_part(rect, own, first_size);
                        Layout::Split {
                            axis: own,
                            first,
                            second: Box::new(second.with_resize(part, target, axis, delta, absolute)),
                            first_size,
                        }
                    }
                } else {
                    self
                }
            },
        }
    }

    /// Moves the outermost split along the axis around a pane, and says whether
    /// there was one.
    pub fn resize(
        &mut self,
        rect: Rect,
        target: u64,
        axis: Axis,
        delta: i32,
        absolute: Option<u16>,
    ) -> (found: bool)
        ensures
            found == old(self).can_resize(target, axis),
            *final(self) == old(self).with_resize(rect, target, axis, delta, absolute),
        decreases *old(self),
    {
        match self {
            Layout::Leaf(_) => false,
            Layout::Split { axis: own, first, second, first_size } => {
                let own: Axis = *own;
                let limit: u16 = shared_cells(rect, own);
                let length: u16 = first_cells(rect, own, *first_size);
                let (first_rect, second_rect) = divide(rect, own, *first_size);
                if first.contains(target) {
                    if own == axis {
                        let desired: u16 = want(length, delta, absolute, limit);
                        *first_size = Some(
                            if desired <= limit {
                                desired
                            } else {
                                limit
                            },
                        );
                        true
                    } else {
                        first.resize(first_rect, target, axis, delta, absolute)
                    }
                } else if second.contains(target) {
                    if own == axis {
                        let desired: u16 = want(limit - length, delta, absolute, limit);
                        *first_size = Some(
                            if desired <= limit {
                                limit - desired
                            } else {
                                0
                            },
                        );
                        true
                    } else {
                        second.resize(second_rect, target, axis, delta, absolute)
                    }
                } else {
                    false
                }
            },
        }
    }

    pub fn contains(&self, target: u64) -> (found: bool)
        ensures
            found == self.has(target),
        decreases self,
    {
        match self {
            Layout::Leaf(id) => *id == target,
            Layout::Split { first, second, .. } => first.contains(target) || second.contains(
                target,
            ),
        }
    }

    /// The layout with every pane replaced by the one that it maps to.
    pub open spec fn mapped(self, map: spec_fn(u64) -> u64) -> Layout
        decreases self,
    {
        match self {
            Layout::Leaf(id) => Layout::Leaf(map(id)),
            Layout::Split { axis, first, second, first_size } => Layout::Split {
                axis,
                first: Box::new(first.mapped(map)),
                second: Box::new(second.mapped(map)),
                first_size,
            },
        }
    }

    pub fn swap_ids(&mut self, first_id: u64, second_id: u64)
        ensures
            *final(self) == old(self).mapped(exchange(first_id, second_id)),
        decreases *old(self),
    {
        match self {
            Layout::Leaf(id) => {
                if *id == first_id {
                    *id = second_id;
                } else if *id == second_id {
                    *id = first_id;
                }
            },
            Layout::Split { first, second, .. } => {
                first.swap_ids(first_id, second_id);
                second.swap_ids(first_id, second_id);
            },
        }
    }

    pub fn remap_ids(&mut self, mapping: &HashMap<u64, u64>)
        ensures
            *final(self) == old(self).mapped(lookup(mapping@)),
        decreases *old(self),
    {
        match self {
            Layout::Leaf(id) => {
                if let Some(replacement) = mapping.get(&*id) {
                    *id = *replacement;
                }
            },
            Layout::Split { first, second, .. } => {
                first.remap_ids(mapping);
                second.remap_ids(mapping);
            },
        }
    }

    /// The layout without a leaf of a pane: one that stands directly below a split
    /// goes before those further down, the first before the second. Its sibling
    /// takes the place of the split that held both; a leaf that is all there is
    /// stays.
    pub open spec fn without(self, target: u64) -> Layout
        decreases self,
    {
        match self {
            Layout::Leaf(_) => self,
            Layout::Split { axis, first, second, first_size } => if *first == Layout::Leaf(target) {
                *second
            } else if *second == Layout::Leaf(target) {
                *first
            } else if first.has(target) {
                Layout::Split { axis, first: Box::new(first.without(target)), second, first_size }
            } else {
                Layout::Split { axis, first, second: Box::new(second.without(target)), first_size }
            },
        }
    }

    fn is_leaf(&self, target: u64) -> (result: bool)
        ensures
            result == (*self == Layout::Leaf(target)),
    {
        match self {
            Layout::Leaf(id) => *id == target,
            Layout::Split { .. } => false,
        }
    }

    /// Takes a pane out of the layout, and says whether it was there.
    pub fn remove(&mut self, target: u64) -> (found: bool)
        ensures
            found == old(self).has(target),
            *final(self) == old(self).without(target),
        decreases *old(self),
    {
        proof {
            reveal_with_fuel(Layout::has, 2);
        }
        let replacement: Option<Layout> = match self {
            Layout::Leaf(id) => return *id == target,
            Layout::Split { first, second, .. } => if first.is_leaf(target) {
                Some((&**second).clone())
            } else if second.is_leaf(target) {
                Some((&**first).clone())
            } else {
                None
            },
        };
        match replacement {
            Some(layout) => {
                *self = layout;
                true
            },
            None => match self {
                Layout::Leaf(_) => false,
                Layout::Split { first, second, .. } => {
                    let ghost whole = **first;
                    if first.remove(target) {
                        true
                    } else {
                        proof {
                            lemma_remove_elsewhere(whole, target);
                        }
                        second.remove(target)
                    }
                },
            },
        }
    }

    /// Where the panes stand, added to places that are already known.
    pub open spec fn placed(self, rect: Rect, known: Map<u64, Rect>) -> Map<u64, Rect>
        decreases self,
    {
        match self {
            Layout::Leaf(id) => known.insert(id, rect),
            Layout::Split { axis, first, second, first_size } => second.placed(
                second_part(rect, axis, first_size),
                first.placed(first_part(rect, axis, first_size), known),
            ),
        }
    }

    /// Adds the place of each pane in a rectangle.
    pub fn rectangles(&self, rect: Rect, output: &mut HashMap<u64, Rect>)
        ensures
            final(output)@ == self.placed(rect, old(output)@),
        decreases self,
    {
        match self {
            Layout::Leaf(id) => {
                output.insert(*id, rect);
            },
            Layout::Split { axis, first, second, first_size } => {
                let (first_rect, second_rect) = divide(rect, *axis, *first_size);
                first.rectangles(first_rect, output);
                second.rectangles(second_rect, output);
            },
        }
    }
}

/// The length that the part of a split with a pane is to have: as asked for, or
/// moved by a distance.
pub open spec fn wanted(length: int, delta: i32, absolute: Option<u16>, limit: int) -> int {
    match absolute {
        Some(size) => size as int,
        None => moved(length, delta, limit),
    }
}

fn want(length: u16, delta: i32, absolute: Option<u16>, limit: u16) -> (size: u16)
    ensures
        size == wanted(length as int, delta, absolute, limit as int),
{
    match absolute {
        Some(size) => size,
        None => move_length(length, delta, limit),
    }
}

/// The map that exchanges two panes.
pub open spec fn exchange(one: u64, other: u64) -> spec_fn(u64) -> u64 {
    |id: u64|
        if id == one {
            other
        } else if id == other {
            one
        } else {
            id
        }
}

/// The map that a table stands for: what it does not have stays as it is.
pub open spec fn lookup(table: Map<u64, u64>) -> spec_fn(u64) -> u64 {
    |id: u64|
        if table.dom().contains(id) {
            table[id]
        } else {
            id
        }
}

/// Taking a pane out that is not there changes nothing.
proof fn lemma_remove_elsewhere(layout: Layout, target: u64)
    requires
        !layout.has(target),
    ensures
        layout.without(target) == layout,
    decreases layout,
{
    match layout {
        Layout::Leaf(_) => {},
        Layout::Split { first, second, .. } => {
            lemma_remove_elsewhere(*first, target);
            lemma_remove_elsewhere(*second, target);
        },
    }
}

/// Splitting a pane that is not there changes nothing.
proof fn lemma_split_elsewhere(
    layout: Layout,
    target: u64,
    new_pane: u64,
    axis: Axis,
    before: bool,
    first_size: Option<u16>,
)
    requires
        !layout.has(target),
    ensures
        layout.with_split(target, new_pane, axis, before, first_size) == layout,
    decreases layout,
{
    match layout {
        Layout::Leaf(_) => {},
        Layout::Split { first, second, .. } => {
            lemma_split_elsewhere(*first, target, new_pane, axis, before, first_size);
            lemma_split_elsewhere(*second, target, new_pane, axis, before, first_size);
        },
    }
}

} // verus!
