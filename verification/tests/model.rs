use tm::geometry::{Axis, Rect, Size};
use tm::layout::Layout;
use tm::model::{can_show_in, CopyModeKeys, CopySource, Pane, Session, Window};

fn window() -> Window {
    let size = Size::new(80, 24);
    let mut window = Window::new(
        1,
        0,
        "shell".to_owned(),
        size,
        Pane::empty(10, 0, size),
        " -_@".to_owned(),
    );
    for (target, id) in [(10, 11), (11, 12)] {
        assert!(window.layout.split_with_size(target, id, Axis::Horizontal, false, false, None));
        let index = window.panes.len() as u32;
        window.panes.push(Pane::empty(id, index, size));
    }
    window.reflow();
    window
}

fn ids(window: &Window) -> Vec<u64> {
    window.panes.iter().map(|pane| pane.id).collect()
}

fn columns(window: &Window) -> Vec<(u64, u16)> {
    let mut columns: Vec<(u64, u16)> =
        window.panes.iter().map(|pane| (pane.id, pane.rect.x)).collect();
    columns.sort();
    columns
}

#[test]
fn sizes_are_at_least_one_cell() {
    assert_eq!(Size::new(0, 5).bounded(), Size::new(1, 5));
    assert_eq!(Pane::empty(1, 0, Size::new(0, 0)).rect, Rect { x: 0, y: 0, cols: 1, rows: 1 });
}

#[test]
fn new_windows_hold_their_pane() {
    let size = Size::new(0, 24);
    let window =
        Window::new(3, 2, "w".to_owned(), size, Pane::empty(7, 0, size), " ".to_owned());
    assert_eq!(window.layout, Layout::Leaf(7));
    assert_eq!(window.size, Size::new(1, 24));
    assert_eq!(window.active().map(|pane| pane.id), Some(7));
    assert_eq!(window.next_pane_index, 1);
    assert_eq!(window.mode_keys, CopyModeKeys::Emacs);
    assert!(window.pane(8).is_none());
}

#[test]
fn reflow_gives_panes_their_place_and_screen() {
    let mut window = window();
    assert_eq!(window.panes[0].rect, Rect { x: 0, y: 0, cols: 39, rows: 24 });
    assert_eq!(window.panes[1].rect, Rect { x: 40, y: 0, cols: 19, rows: 24 });
    assert_eq!(window.panes[2].rect, Rect { x: 60, y: 0, cols: 20, rows: 24 });
    assert_eq!(window.panes[2].parser.screen().size(), (24, 20));

    window.panes[1].full_axis = Some(Axis::Vertical);
    window.reflow();
    assert_eq!(window.panes[1].rect, Rect { x: 0, y: 0, cols: 80, rows: 24 });

    window.panes[1].full_axis = None;
    window.zoomed = true;
    window.active_pane = 12;
    window.reflow();
    assert_eq!(window.panes[2].rect, Rect { x: 0, y: 0, cols: 80, rows: 24 });
    assert_eq!(window.panes[2].parser.screen().size(), (24, 80));
    assert_eq!(window.panes[1].rect, Rect { x: 40, y: 0, cols: 19, rows: 24 });

    window.panes.push(Pane::empty(99, 3, Size::new(5, 5)));
    window.reflow();
    assert_eq!(window.panes[3].rect, Rect { x: 0, y: 0, cols: 5, rows: 5 });
}

#[test]
fn swapping_panes_twice_is_nothing() {
    let mut window = window();
    let before = columns(&window);
    assert!(window.swap_panes(10, 12));
    window.reflow();
    assert_eq!(ids(&window), [12, 11, 10]);
    assert_eq!(columns(&window), [(10, 60), (11, 40), (12, 0)]);
    assert_eq!(window.pane_for_index(0), Some(12));
    assert!(window.swap_panes(10, 12));
    window.reflow();
    assert_eq!(ids(&window), [10, 11, 12]);
    assert_eq!(columns(&window), before);
    assert!(!window.swap_panes(10, 9));
    assert_eq!(ids(&window), [10, 11, 12]);
}

#[test]
fn rotating_back_is_nothing() {
    let mut window = window();
    window.active_pane = 11;
    let before = columns(&window);
    window.rotate_panes(true);
    window.reflow();
    assert_eq!(ids(&window), [11, 12, 10]);
    assert_eq!(columns(&window), [(10, 60), (11, 0), (12, 40)]);
    assert_eq!(window.active_pane, 12);
    assert_eq!(window.pane_for_index(2), Some(10));
    window.rotate_panes(false);
    window.reflow();
    assert_eq!(ids(&window), [10, 11, 12]);
    assert_eq!(columns(&window), before);
    assert_eq!(window.active_pane, 11);
    assert_eq!(window.pane_for_index(3), None);
}

#[test]
fn linked_windows_show_the_same() {
    let mut window = window();
    window.bell_alert = true;
    window.panes[0].title = "title".to_owned();
    window.panes[0].raw_output = b"A\x1b[3bB".to_vec();
    window.panes[0].panes_mode = true;
    window.panes[0].options.push(("@name".to_owned(), "value".to_owned()));
    let link = window.linked_clone();
    assert_eq!(ids(&link), ids(&window));
    assert_eq!(link.layout, window.layout);
    assert!(link.bell_alert);
    assert_eq!(link.panes[0].title, "title");
    assert_eq!(link.panes[0].rect, window.panes[0].rect);
    assert!(!link.panes[0].panes_mode);
    assert_eq!(link.panes[0].options, window.panes[0].options);
    assert_eq!(link.panes[0].raw_output, window.panes[0].raw_output);
    assert_eq!(link.panes[0].parser.screen().contents(), "AAAAB");
}

#[test]
fn copy_mode_starts_from_the_pane_or_from_a_snapshot() {
    let mut window = window();
    let pane = &mut window.panes[0];
    pane.raw_output = b"own".to_vec();
    let own = pane.enter_copy_mode(4, None, 100);
    assert_eq!(own.raw_output, b"own");
    assert_eq!(own.history_floor, 4);
    assert!(own.parser.is_none());
    assert!(pane.copy_source.is_none());
    let source = CopySource { raw_output: b"other".to_vec(), history_floor: 9 };
    let other = pane.enter_copy_mode(4, Some(source), 100);
    assert_eq!(other.raw_output, b"other");
    assert_eq!(other.history_floor, 9);
    let parser = other.parser.expect("a screen for the snapshot");
    assert_eq!(parser.screen().contents(), "other");
    assert_eq!(parser.screen().size(), (24, 39));
    assert_eq!(pane.copy_source.as_ref().map(|source| source.history_floor), Some(9));
    assert_eq!(pane.raw_output, b"own");
}

#[test]
fn sessions_remember_the_last_window() {
    let mut other = window();
    other.index = 3;
    let mut session = Session {
        id: 1,
        name: "work".to_owned(),
        size: Size::new(80, 24),
        windows: vec![window(), other],
        active_window: 0,
        last_window: None,
        base_index: 0,
        renumber_windows: false,
        next_window_index: 4,
        cwd: None,
        options: Vec::new(),
    };
    session.select_window(0);
    assert_eq!(session.last_window, None);
    session.select_window(3);
    assert_eq!(session.last_window, Some(0));
    assert_eq!(session.active_window().map(|window| window.index), Some(3));
    session.select_window(0);
    assert_eq!(session.active_window, 0);
    assert_eq!(session.last_window, Some(3));
    session.select_window(8);
    assert!(session.active_window().is_none());
}

#[test]
fn empty_panes_hold_nothing() {
    let pane = Pane::empty(3, 1, Size::new(0, 5));
    assert_eq!((pane.id, pane.index), (3, 1));
    assert_eq!((pane.rect.cols, pane.rect.rows), (1, 5));
    assert!(pane.title.is_empty() && pane.command.is_empty() && pane.options.is_empty());
    assert!(pane.current_path.is_none() && pane.start_path.is_none());
    assert!(pane.copy_source.is_none() && pane.copy_prompt_history.is_empty());
}

#[test]
fn rectangles_say_what_they_can_show() {
    let row = Rect { x: 0, y: 0, cols: 4, rows: 1 };
    assert!(can_show_in(row, b""));
    assert!(can_show_in(row, b"abcd\r\n1234"));
    assert!(!can_show_in(row, b"abcde"));
    let narrow = Rect { rows: 2, cols: 2, ..row };
    assert!(can_show_in(narrow, "\u{e9}\u{e9}\u{e9}".as_bytes()));
    assert!(!can_show_in(narrow, "\u{3042}".as_bytes()));
    assert!(can_show_in(Rect { cols: 3, ..narrow }, "\u{3042}".as_bytes()));
    let mut pane = Pane::empty(1, 0, Size::new(4, 1));
    pane.raw_output = b"abcd".to_vec();
    assert!(can_show_in(pane.rect, &pane.raw_output));
    assert_eq!(pane.linked_clone().parser.screen().contents(), "abcd");
}
