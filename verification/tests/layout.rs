use std::collections::HashMap;

use tm::geometry::{Axis, Rect};
use tm::layout::Layout;

#[test]
fn horizontal_split_allocates_a_separator_and_reuses_all_columns() {
    let mut layout = Layout::Leaf(1);
    assert!(layout.split_with_size(1, 2, Axis::Horizontal, false, false, None));
    let mut rectangles = HashMap::new();
    layout.rectangles(
        Rect {
            x: 0,
            y: 0,
            cols: 80,
            rows: 24,
        },
        &mut rectangles,
    );
    assert_eq!(rectangles[&1].cols + rectangles[&2].cols + 1, 80);
    assert_eq!(rectangles[&1].rows, 24);
    assert_eq!(rectangles[&2].x, rectangles[&1].cols + 1);
}

#[test]
fn removing_a_pane_collapses_its_parent_split() {
    let mut layout = Layout::Leaf(1);
    assert!(layout.split_with_size(1, 2, Axis::Vertical, false, false, None));
    assert!(layout.remove(2));
    assert_eq!(layout, Layout::Leaf(1));
}

#[test]
fn nested_splits_keep_each_pane_reachable() {
    let mut layout = Layout::Leaf(1);
    assert!(layout.split_with_size(1, 2, Axis::Horizontal, false, false, None));
    assert!(layout.split_with_size(2, 3, Axis::Vertical, false, false, None));
    let mut rectangles = HashMap::new();
    layout.rectangles(
        Rect {
            x: 0,
            y: 0,
            cols: 80,
            rows: 24,
        },
        &mut rectangles,
    );
    assert_eq!(rectangles.len(), 3);
}

const WINDOW: Rect = Rect { x: 0, y: 0, cols: 80, rows: 24 };

fn places(layout: &Layout, rect: Rect) -> HashMap<u64, Rect> {
    let mut rectangles = HashMap::new();
    layout.rectangles(rect, &mut rectangles);
    rectangles
}

fn three_panes() -> Layout {
    let mut layout = Layout::Leaf(1);
    assert!(layout.split_with_size(1, 2, Axis::Horizontal, false, false, Some(30)));
    assert!(layout.split_with_size(2, 3, Axis::Vertical, true, false, None));
    layout
}

#[test]
fn splits_place_the_new_pane_before_or_behind() {
    let places = places(&three_panes(), WINDOW);
    assert_eq!(places[&1], Rect { x: 0, y: 0, cols: 30, rows: 24 });
    assert_eq!(places[&3], Rect { x: 31, y: 0, cols: 49, rows: 11 });
    assert_eq!(places[&2], Rect { x: 31, y: 12, cols: 49, rows: 12 });
}

#[test]
fn splitting_a_pane_that_is_not_there_changes_nothing() {
    let mut layout = three_panes();
    assert!(!layout.split_with_size(9, 10, Axis::Vertical, false, false, None));
    assert_eq!(layout, three_panes());
    assert!(!layout.remove(9));
    assert_eq!(layout, three_panes());
}

#[test]
fn removing_undoes_splitting() {
    let mut layout = three_panes();
    assert!(layout.split_with_size(3, 4, Axis::Horizontal, true, false, Some(5)));
    assert!(layout.contains(4));
    assert!(layout.remove(4));
    assert_eq!(layout, three_panes());
}

#[test]
fn the_last_pane_stays() {
    let mut layout = Layout::Leaf(1);
    assert!(layout.remove(1));
    assert_eq!(layout, Layout::Leaf(1));
}

#[test]
fn panes_share_no_cell_and_stay_inside() {
    for window in [WINDOW, Rect { x: 0, y: 0, cols: 7, rows: 3 }, Rect { x: 3, y: 2, cols: 1, rows: 1 }] {
        let places = places(&three_panes(), window);
        let mut cells = std::collections::HashSet::new();
        for rect in places.values() {
            for x in rect.x..rect.x + rect.cols {
                for y in rect.y..rect.y + rect.rows {
                    assert!(cells.insert((x, y)));
                    assert!(window.x <= x && x < window.x + window.cols);
                    assert!(window.y <= y && y < window.y + window.rows);
                }
            }
        }
    }
}

#[test]
fn swapping_twice_is_nothing() {
    let mut layout = three_panes();
    layout.swap_ids(1, 3);
    assert_eq!(places(&layout, WINDOW)[&3], places(&three_panes(), WINDOW)[&1]);
    layout.swap_ids(1, 3);
    assert_eq!(layout, three_panes());
}

#[test]
fn ids_are_replaced_by_those_of_a_table() {
    let mut layout = three_panes();
    let mut table = HashMap::new();
    table.insert(1, 2);
    table.insert(2, 1);
    layout.remap_ids(&table);
    let mut swapped = three_panes();
    swapped.swap_ids(1, 2);
    assert_eq!(layout, swapped);
}

#[test]
fn resizing_gives_the_length() {
    let mut layout = three_panes();
    assert!(layout.resize(WINDOW, 1, Axis::Horizontal, 5, None));
    assert_eq!(places(&layout, WINDOW)[&1].cols, 35);
    assert!(layout.resize(WINDOW, 2, Axis::Horizontal, 0, Some(20)));
    assert_eq!(places(&layout, WINDOW)[&2].cols, 20);
    assert!(layout.resize(WINDOW, 3, Axis::Vertical, -100, None));
    assert_eq!(places(&layout, WINDOW)[&3].rows, 0);
    assert!(layout.resize(WINDOW, 2, Axis::Horizontal, 0, Some(500)));
    assert_eq!(places(&layout, WINDOW)[&2].cols, 79);
    assert!(!layout.resize(WINDOW, 1, Axis::Vertical, 1, None));
    assert!(!layout.resize(WINDOW, 9, Axis::Horizontal, 1, None));
}
