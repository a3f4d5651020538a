//! Panes, windows and sessions.

use std::collections::HashMap;

use vstd::prelude::*;

use crate::emulator::{self, History, Parser, Part};
use crate::geometry::{Axis, Rect, Size};
use crate::layout::{self, Layout};
use crate::terminal::{self, replay, OutputState};

verus! {

broadcast use vstd::std_specs::hash::group_hash_axioms;

/// The lines that a pane keeps behind its first row.
pub const SCROLLBACK: usize = 10000;

/// The keys that move in the copy mode.
#[derive(Clone, Copy, Debug, PartialEq, Eq, Structural)]
pub enum CopyModeKeys {
    Emacs,
    Vi,
}

/// A copy-mode target can display a snapshot from another pane (`copy-mode
/// -s`). The source is retained as terminal bytes so mode actions can rebuild
/// an isolated parser without mutating the target pane's live screen.
#[derive(Clone, Debug)]
pub struct CopySource {
    pub raw_output: Vec<u8>,
    pub history_floor: usize,
}

/// One pane: its place, its emulator, and what is known of its process.
pub struct Pane {
    pub id: u64,
    pub index: u32,
    pub rect: Rect,
    pub parser: Parser,
    pub command: String,
    pub command_args: Vec<String>,
    /// The directory reported by the pane's shell. `start_path` remains the
    /// creation directory while `current_path` follows OSC 7 notifications.
    pub current_path: Option<String>,
    pub start_path: Option<String>,
    pub dead: bool,
    pub title: String,
    pub enabled: bool,
    pub copy_source: Option<CopySource>,
    pub panes_mode: bool,
    pub copy_prompt_history: Vec<Vec<u8>>,
    pub raw_output: Vec<u8>,
    pub output_state: OutputState,
    pub history_floor: usize,
    /// Names and values, each name once.
    pub options: Vec<(String, String)>,
    /// A full split keeps its split-axis size but spans the window on the
    /// perpendicular axis. This is the non-floating geometry used by
    /// `split-window -f`.
    pub full_axis: Option<Axis>,
}

/// Whether no name occurs twice among options.
pub open spec fn each_once(options: Seq<(String, String)>) -> bool {
    forall|i: int, j: int|
        0 <= i < j < options.len() ==> (#[trigger] options[i]).0@ != (#[trigger] options[j]).0@
}

fn copy_bytes(bytes: &Vec<u8>) -> (copy: Vec<u8>)
    ensures
        copy@ == bytes@,
{
    let copy = bytes.clone();
    assert(copy@ =~= bytes@);
    copy
}

fn copy_strings(list: &Vec<String>) -> (copy: Vec<String>)
    ensures
        copy@ == list@,
{
    let copy = list.clone();
    assert(copy@ =~= list@);
    copy
}

fn copy_text(text: &Option<String>) -> (copy: Option<String>)
    ensures
        copy == *text,
{
    match text {
        Some(value) => Some(value.clone()),
        None => None,
    }
}

/// The bytes of lists of bytes.
pub open spec fn all_bytes(lists: Seq<Vec<u8>>) -> Seq<Seq<u8>> {
    lists.map_values(|list: Vec<u8>| list@)
}

fn copy_byte_lists(lists: &Vec<Vec<u8>>) -> (copy: Vec<Vec<u8>>)
    ensures
        all_bytes(copy@) == all_bytes(lists@),
{
    let mut copy: Vec<Vec<u8>> = Vec::new();
    let mut index: usize = 0;
    while index < lists.len()
        invariant
            index <= lists@.len(),
            all_bytes(copy@) =~= all_bytes(lists@).take(index as int),
        decreases lists@.len() - index,
    {
        let ghost before = copy@;
        copy.push(copy_bytes(&lists[index]));
        assert(all_bytes(copy@) =~= all_bytes(before).push(lists@[index as int]@));
        index += 1;
    }
    assert(all_bytes(lists@).take(index as int) =~= all_bytes(lists@));
    copy
}

fn copy_options(options: &Vec<(String, String)>) -> (copy: Vec<(String, String)>)
    ensures
        copy@ == options@,
{
    let mut copy: Vec<(String, String)> = Vec::new();
    let mut index: usize = 0;
    while index < options.len()
        invariant
            index <= options@.len(),
            copy@ =~= options@.take(index as int),
        decreases options@.len() - index,
    {
        copy.push((options[index].0.clone(), options[index].1.clone()));
        index += 1;
    }
    assert(options@.take(index as int) =~= options@);
    copy
}

/// A rectangle's length that an emulator can have.
pub open spec fn at_least_one(cells: u16) -> u16 {
    if cells == 0 {
        1
    } else {
        cells
    }
}

fn raise_to_one(cells: u16) -> (raised: u16)
    ensures
        raised == at_least_one(cells),
{
    if cells == 0 {
        1
    } else {
        cells
    }
}

/// Whether a new emulator with the size of a rectangle can show output.
pub open spec fn rect_shows(rect: Rect, output: Seq<u8>) -> bool {
    ||| {
        &&& rect.rows >= 2
        &&& at_least_one(rect.cols) <= emulator::MAX_COLS
        &&& rect.cols >= emulator::WIDE_COLS || emulator::is_narrow(output)
    }
    ||| emulator::place_behind(output, (Part::Text, 0), at_least_one(rect.cols) as int) is Some
}

/// Whether a new emulator with the size of a rectangle can show output.
pub fn can_show_in(rect: Rect, output: &[u8]) -> (result: bool)
    ensures
        result == rect_shows(rect, output@),
{
    let cols: u16 = raise_to_one(rect.cols);
    if rect.rows >= 2 && cols <= emulator::MAX_COLS && (rect.cols >= emulator::WIDE_COLS
        || emulator::narrow(output)) {
        return true;
    }
    emulator::place_after(output, (Part::Text, 0), cols).is_some()
}

/// The state of a new emulator with the size of a rectangle, behind output.
pub open spec fn shown_again(rect: Rect, scrollback: usize, output: Seq<u8>) -> History {
    terminal::replayed_stream(
        emulator::fresh(at_least_one(rect.rows), at_least_one(rect.cols), scrollback),
        output,
    )
}

/// Shows output on a new emulator with the size of a rectangle.
fn show_again(rect: Rect, scrollback: usize, output: &Vec<u8>) -> (parser: Parser)
    requires
        rect_shows(rect, output@),
    ensures
        emulator::state_of(parser) == shown_again(rect, scrollback, output@),
        emulator::size_of(parser) == (at_least_one(rect.rows), at_least_one(rect.cols)),
        parser.well_formed(),
{
    let mut parser = Parser::new(raise_to_one(rect.rows), raise_to_one(rect.cols), scrollback);
    replay(&mut parser, output.as_slice());
    parser
}

/// Whether a pane has just been made: it shows nothing, in no mode.
pub open spec fn is_new_pane(pane: Pane, id: u64, index: u32, size: Size) -> bool {
    &&& pane.id == id
    &&& pane.index == index
    &&& pane.rect == Rect::covering(size.at_least_one())
    &&& emulator::state_of(pane.parser) == emulator::fresh(
        size.at_least_one().rows,
        size.at_least_one().cols,
        SCROLLBACK,
    )
    &&& pane.current_path is None
    &&& pane.start_path is None
    &&& !pane.dead
    &&& pane.title@.len() == 0
    &&& pane.enabled
    &&& pane.copy_source is None
    &&& !pane.panes_mode
    &&& pane.copy_prompt_history@.len() == 0
    &&& pane.raw_output@.len() == 0
    &&& is_new_output(pane.output_state)
    &&& pane.history_floor == 0
    &&& pane.options@.len() == 0
    &&& pane.full_axis is None
}

impl Pane {
    pub open spec fn well_formed(self) -> bool {
        each_once(self.options@) && self.parser.well_formed()
    }

    pub fn new(
        id: u64,
        index: u32,
        size: Size,
        command: String,
        command_args: Vec<String>,
    ) -> (pane: Self)
        ensures
            is_new_pane(pane, id, index, size),
            pane.id == id,
            pane.index == index,
            pane.rect == Rect::covering(size.at_least_one()),
            emulator::state_of(pane.parser) == emulator::fresh(
                size.at_least_one().rows,
                size.at_least_one().cols,
                SCROLLBACK,
            ),
            emulator::size_of(pane.parser) == (size.at_least_one().rows, size.at_least_one().cols),
            pane.command == command,
            pane.command_args == command_args,
            pane.current_path is None,
            pane.start_path is None,
            !pane.dead,
            pane.title@.len() == 0,
            pane.enabled,
            pane.copy_source is None,
            !pane.panes_mode,
            pane.copy_prompt_history@.len() == 0,
            pane.raw_output@.len() == 0,
            is_new_output(pane.output_state),
            pane.history_floor == 0,
            pane.options@.len() == 0,
            pane.full_axis is None,
            pane.well_formed(),
    {
        let size = size.bounded();
        Pane {
            id,
            index,
            rect: Rect::of_size(size),
            parser: Parser::new(size.rows, size.cols, SCROLLBACK),
            command,
            command_args,
            current_path: None,
            start_path: None,
            dead: false,
            title: String::new(),
            enabled: true,
            copy_source: None,
            panes_mode: false,
            copy_prompt_history: Vec::new(),
            raw_output: Vec::new(),
            output_state: OutputState::default(),
            history_floor: 0,
            options: Vec::new(),
            full_axis: None,
        }
    }

    /// A pane without a process.
    pub fn empty(id: u64, index: u32, size: Size) -> (pane: Self)
        ensures
            is_new_pane(pane, id, index, size),
            pane.id == id,
            pane.index == index,
            pane.rect == Rect::covering(size.at_least_one()),
            emulator::state_of(pane.parser) == emulator::fresh(
                size.at_least_one().rows,
                size.at_least_one().cols,
                SCROLLBACK,
            ),
            emulator::size_of(pane.parser) == (size.at_least_one().rows, size.at_least_one().cols),
            pane.command@.len() == 0,
            pane.command_args@.len() == 0,
            pane.current_path is None,
            pane.start_path is None,
            pane.title@.len() == 0,
            pane.enabled && !pane.dead && !pane.panes_mode,
            pane.copy_source is None,
            pane.copy_prompt_history@.len() == 0,
            pane.raw_output@.len() == 0,
            is_new_output(pane.output_state),
            pane.history_floor == 0,
            pane.options@.len() == 0,
            pane.full_axis is None,
            pane.well_formed(),
    {
        Pane::new(id, index, size, String::new(), Vec::new())
    }

    /// What the copy mode of a pane starts from: the output of the pane itself
    /// or a snapshot of another's, shown on an emulator of its own in the latter
    /// case, and the line where its history starts.
    pub fn enter_copy_mode(
        &mut self,
        history_floor: usize,
        source: Option<CopySource>,
        history_limit: usize,
    ) -> (start: CopyModeStart)
        requires
            source matches Some(snapshot) ==> rect_shows(old(self).rect, snapshot.raw_output@),
        ensures
            match source {
                Some(snapshot) => {
                    &&& start.raw_output@ == snapshot.raw_output@
                    &&& start.history_floor == snapshot.history_floor
                    &&& start.parser matches Some(parser)
                    &&& emulator::state_of(parser) == shown_again(
                        old(self).rect,
                        history_limit,
                        snapshot.raw_output@,
                    )
                },
                None => {
                    &&& start.raw_output@ == old(self).raw_output@
                    &&& start.history_floor == history_floor
                    &&& start.parser is None
                },
            },
            is_copy_start(start, *old(self), history_floor, source, history_limit),
            *final(self) == (Pane { copy_source: source, ..*old(self) }),
    {
        let start = match &source {
            Some(snapshot) => {
                let raw_output = copy_bytes(&snapshot.raw_output);
                let parser = show_again(self.rect, history_limit, &raw_output);
                CopyModeStart {
                    raw_output,
                    history_floor: snapshot.history_floor,
                    parser: Some(parser),
                }
            },
            None => CopyModeStart {
                raw_output: copy_bytes(&self.raw_output),
                history_floor,
                parser: None,
            },
        };
        self.copy_source = source;
        start
    }

    /// Whether a pane is the copy of another in a second window: it shows the
    /// same output on an emulator of its own, in no mode.
    pub open spec fn is_link_of(self, other: Pane) -> bool {
        &&& self.id == other.id
        &&& self.index == other.index
        &&& self.rect == other.rect
        &&& emulator::state_of(self.parser) == shown_again(
            other.rect,
            SCROLLBACK,
            other.raw_output@,
        )
        &&& self.command == other.command
        &&& self.command_args@ == other.command_args@
        &&& self.current_path == other.current_path
        &&& self.start_path == other.start_path
        &&& self.dead == other.dead
        &&& self.title == other.title
        &&& self.enabled == other.enabled
        &&& self.copy_source is None
        &&& !self.panes_mode
        &&& all_bytes(self.copy_prompt_history@) == all_bytes(other.copy_prompt_history@)
        &&& self.raw_output@ == other.raw_output@
        &&& is_new_output(self.output_state)
        &&& self.history_floor == other.history_floor
        &&& self.options@ == other.options@
        &&& self.parser.well_formed()
        &&& self.full_axis == other.full_axis
    }

    pub fn linked_clone(&self) -> (pane: Self)
        requires
            rect_shows(self.rect, self.raw_output@),
        ensures
            pane.is_link_of(*self),
            self.well_formed() ==> pane.well_formed(),
    {
        Pane {
            id: self.id,
            index: self.index,
            rect: self.rect,
            parser: show_again(self.rect, SCROLLBACK, &self.raw_output),
            command: self.command.clone(),
            command_args: copy_strings(&self.command_args),
            current_path: copy_text(&self.current_path),
            start_path: copy_text(&self.start_path),
            dead: self.dead,
            title: self.title.clone(),
            enabled: self.enabled,
            copy_source: None,
            panes_mode: false,
            copy_prompt_history: copy_byte_lists(&self.copy_prompt_history),
            raw_output: copy_bytes(&self.raw_output),
            output_state: OutputState::default(),
            history_floor: self.history_floor,
            options: copy_options(&self.options),
            full_axis: self.full_axis,
        }
    }
}

/// What the copy mode of a pane starts from.
pub struct CopyModeStart {
    pub raw_output: Vec<u8>,
    pub history_floor: usize,
    /// The emulator with a snapshot; without one the pane's own is shown.
    pub parser: Option<Parser>,
}

/// Whether the copy mode of a pane starts with a source: with a snapshot, or with
/// what the pane itself has put out.
pub open spec fn is_copy_start(
    start: CopyModeStart,
    pane: Pane,
    history_floor: usize,
    source: Option<CopySource>,
    history_limit: usize,
) -> bool {
    match source {
        Some(snapshot) => {
            &&& start.raw_output@ == snapshot.raw_output@
            &&& start.history_floor == snapshot.history_floor
            &&& start.parser matches Some(parser)
            &&& emulator::state_of(parser) == shown_again(
                pane.rect,
                history_limit,
                snapshot.raw_output@,
            )
        },
        None => {
            &&& start.raw_output@ == pane.raw_output@
            &&& start.history_floor == history_floor
            &&& start.parser is None
        },
    }
}

/// Whether nothing has come of some output yet.
pub open spec fn is_new_output(state: OutputState) -> bool {
    &&& state.pending@.len() == 0
    &&& state.last_printed is None
    &&& state.wrap
    &&& !state.audible_bell
}

/// A window: panes in the places of a layout.
pub struct Window {
    pub id: u64,
    pub index: u32,
    pub name: String,
    pub size: Size,
    pub layout: Layout,
    pub panes: Vec<Pane>,
    pub active_pane: u64,
    pub last_pane: Option<u64>,
    pub zoomed: bool,
    /// A BEL received while this window was being monitored. Selecting the
    /// window clears the alert for every linked winlink, in whatever session that
    /// is; a session alone leaves it as it is.
    pub bell_alert: bool,
    pub next_pane_index: u32,
    pub mode_keys: CopyModeKeys,
    pub word_separators: String,
    pub synchronize_panes: bool,
    /// Names and values, each name once.
    pub options: Vec<(String, String)>,
}

/// The position of the first pane with an id.
pub open spec fn first_with_id(panes: Seq<Pane>, id: u64) -> Option<int>
    decreases panes.len(),
{
    if panes.len() == 0 {
        None
    } else {
        match first_with_id(panes.drop_last(), id) {
            Some(position) => Some(position),
            None => if panes.last().id == id {
                Some(panes.len() - 1)
            } else {
                None
            },
        }
    }
}

/// The position of the first pane with an index.
pub open spec fn first_with_index(panes: Seq<Pane>, index: u32) -> Option<int>
    decreases panes.len(),
{
    if panes.len() == 0 {
        None
    } else {
        match first_with_index(panes.drop_last(), index) {
            Some(position) => Some(position),
            None => if panes.last().index == index {
                Some(panes.len() - 1)
            } else {
                None
            },
        }
    }
}

/// The position of the first pane with an id.
fn position_of(panes: &Vec<Pane>, id: u64) -> (found: Option<usize>)
    ensures
        match found {
            Some(position) => first_with_id(panes@, id) == Some(position as int) && position
                < panes@.len() && panes@[position as int].id == id,
            None => first_with_id(panes@, id) is None,
        },
{
    let mut position: usize = 0;
    while position < panes.len()
        invariant
            position <= panes@.len(),
            first_with_id(panes@.take(position as int), id) is None,
        decreases panes@.len() - position,
    {
        proof {
            assert(panes@.take(position + 1).drop_last() =~= panes@.take(position as int));
        }
        if panes[position].id == id {
            proof {
                lemma_first_of_prefix(panes@, position + 1, id);
            }
            return Some(position);
        }
        position += 1;
    }
    assert(panes@.take(position as int) =~= panes@);
    None
}

proof fn lemma_first_of_prefix(panes: Seq<Pane>, length: int, id: u64)
    requires
        0 <= length <= panes.len(),
        first_with_id(panes.take(length), id) is Some,
    ensures
        first_with_id(panes, id) == first_with_id(panes.take(length), id),
    decreases panes.len() - length,
{
    if length < panes.len() {
        assert(panes.take(length + 1).drop_last() =~= panes.take(length));
        lemma_first_of_prefix(panes, length + 1, id);
    } else {
        assert(panes.take(length) =~= panes);
    }
}

/// A pane with its position as its index.
pub open spec fn numbered(panes: Seq<Pane>) -> Seq<Pane> {
    panes.map(|i: int, pane: Pane| Pane { index: i as u32, ..pane })
}

fn number(panes: &mut Vec<Pane>)
    ensures
        final(panes)@ == numbered(old(panes)@),
{
    let mut position: usize = 0;
    while position < panes.len()
        invariant
            position <= panes@.len(),
            panes@.len() == old(panes)@.len(),
            forall|i: int|
                #![trigger panes@[i]]
                0 <= i < position ==> panes@[i] == numbered(old(panes)@)[i],
            forall|i: int|
                #![trigger panes@[i]]
                position <= i < panes@.len() ==> panes@[i] == old(panes)@[i],
        decreases panes@.len() - position,
    {
        panes[position].index = position as u32;
        position += 1;
    }
    assert(panes@ =~= numbered(old(panes)@));
}

/// Two panes in each other's place.
pub open spec fn exchanged(panes: Seq<Pane>, first: int, second: int) -> Seq<Pane> {
    panes.update(first, panes[second]).update(second, panes[first])
}

/// All panes moved by one place: up, the first becomes the last; down, the last
/// becomes the first.
pub open spec fn rotated(panes: Seq<Pane>, up: bool) -> Seq<Pane> {
    if panes.len() == 0 {
        panes
    } else if up {
        panes.skip(1).push(panes[0])
    } else {
        seq![panes.last()] + panes.drop_last()
    }
}

/// The position behind another, or before it, in a circle.
pub open spec fn neighbour(position: int, length: int, up: bool) -> int {
    if up {
        if position + 1 < length {
            position + 1
        } else {
            0
        }
    } else {
        if position > 0 {
            position - 1
        } else {
            length - 1
        }
    }
}

/// Which pane takes the place of each of the first panes when all are rotated.
pub open spec fn successors(panes: Seq<Pane>, up: bool, count: nat) -> Map<u64, u64>
    decreases count,
{
    if count == 0 {
        Map::empty()
    } else {
        let position = (count - 1) as nat;
        successors(panes, up, position).insert(
            panes[position as int].id,
            panes[neighbour(position as int, panes.len() as int, up)].id,
        )
    }
}

/// The map from each pane to the one that takes its place when all are rotated.
pub open spec fn replacing(panes: Seq<Pane>, up: bool) -> spec_fn(u64) -> u64 {
    layout::lookup(successors(panes, up, panes.len()))
}

/// The position of the first pane with an id, or else of the first.
pub open spec fn place_of(panes: Seq<Pane>, id: u64) -> int {
    match first_with_id(panes, id) {
        Some(position) => position,
        None => 0,
    }
}

/// The place of a pane in a window of a size, where the layout has it in a
/// rectangle.
pub open spec fn place_in_window(window: Window, pane: Pane, rect: Rect) -> Rect {
    if window.zoomed && pane.id == window.active_pane {
        Rect::covering(window.size)
    } else {
        match pane.full_axis {
            Some(Axis::Horizontal) => Rect { y: 0, rows: window.size.rows, ..rect },
            Some(Axis::Vertical) => Rect { x: 0, cols: window.size.cols, ..rect },
            None => rect,
        }
    }
}

/// A pane that was given a place, and a screen of its size.
pub open spec fn is_moved(after: Pane, before: Pane, rect: Rect) -> bool {
    &&& after.rect == rect
    &&& emulator::state_of(after.parser) == emulator::resized(
        emulator::state_of(before.parser),
        at_least_one(rect.rows),
        at_least_one(rect.cols),
    )
    &&& emulator::size_of(after.parser) == (at_least_one(rect.rows), at_least_one(rect.cols))
    &&& before.parser.well_formed() ==> after.parser.well_formed()
    &&& after == (Pane { rect: after.rect, parser: after.parser, ..before })
}

/// Whether a window has just been made around a pane.
pub open spec fn is_new_window(window: Window, pane: Pane, size: Size) -> bool {
    &&& window.size == size.at_least_one()
    &&& window.layout == Layout::Leaf(pane.id)
    &&& window.panes@ == seq![pane]
    &&& window.active_pane == pane.id
    &&& window.last_pane is None
    &&& !window.zoomed
    &&& !window.bell_alert
    &&& window.next_pane_index == 1
    &&& window.mode_keys == CopyModeKeys::Emacs
    &&& !window.synchronize_panes
    &&& window.options@.len() == 0
}

/// Whether a window is the copy of another in a second session.
pub open spec fn is_linked_window(window: Window, other: Window) -> bool {
    &&& window.panes@.len() == other.panes@.len()
    &&& forall|i: int|
        0 <= i < other.panes@.len() ==> (#[trigger] window.panes@[i]).is_link_of(other.panes@[i])
    &&& window.options@ == other.options@
    &&& window == (Window { panes: window.panes, options: window.options, ..other })
}

/// Whether a window is another with two panes exchanged.
pub open spec fn is_swapped(after: Window, before: Window, first: u64, second: u64) -> bool {
    match (first_with_id(before.panes@, first), first_with_id(before.panes@, second)) {
        (Some(one), Some(other)) => {
            &&& after.panes@ == numbered(exchanged(before.panes@, one, other))
            &&& after.layout == before.layout.mapped(layout::exchange(first, second))
            &&& after == (Window { panes: after.panes, layout: after.layout, ..before })
        },
        _ => after == before,
    }
}

/// Whether a window is another with its panes moved by one place.
pub open spec fn is_rotated(after: Window, before: Window, up: bool) -> bool {
    if before.panes@.len() < 2 {
        after == before
    } else {
        let panes = before.panes@;
        &&& after.panes@ == numbered(rotated(panes, up))
        &&& after.layout == before.layout.mapped(replacing(panes, up))
        &&& after.active_pane == rotated(panes, up)[place_of(panes, before.active_pane)].id
        &&& after == (Window {
            panes: after.panes,
            layout: after.layout,
            active_pane: after.active_pane,
            ..before
        })
    }
}

impl Window {
    pub open spec fn well_formed(self) -> bool {
        &&& each_once(self.options@)
        &&& forall|i: int| 0 <= i < self.panes@.len() ==> (#[trigger] self.panes@[i]).well_formed()
    }

    /// A window with one pane.
    pub fn new(
        id: u64,
        index: u32,
        name: String,
        size: Size,
        pane: Pane,
        word_separators: String,
    ) -> (window: Self)
        ensures
            window.id == id,
            window.index == index,
            window.name == name,
            is_new_window(window, pane, size),
            window.size == size.at_least_one(),
            window.layout == Layout::Leaf(pane.id),
            window.panes@ == seq![pane],
            window.active_pane == pane.id,
            window.last_pane is None,
            !window.zoomed,
            !window.bell_alert,
            window.next_pane_index == 1,
            window.mode_keys == CopyModeKeys::Emacs,
            window.word_separators == word_separators,
            !window.synchronize_panes,
            window.options@.len() == 0,
            pane.well_formed() ==> window.well_formed(),
    {
        let pane_id: u64 = pane.id;
        let mut panes: Vec<Pane> = Vec::new();
        panes.push(pane);
        Window {
            id,
            index,
            name,
            size: size.bounded(),
            layout: Layout::Leaf(pane_id),
            panes,
            active_pane: pane_id,
            last_pane: None,
            zoomed: false,
            bell_alert: false,
            next_pane_index: 1,
            mode_keys: CopyModeKeys::Emacs,
            word_separators,
            synchronize_panes: false,
            options: Vec::new(),
        }
    }

    /// The first pane with an id.
    pub fn pane(&self, id: u64) -> (pane: Option<&Pane>)
        ensures
            match first_with_id(self.panes@, id) {
                Some(position) => pane == Some(&self.panes@[position]),
                None => pane is None,
            },
    {
        match position_of(&self.panes, id) {
            Some(position) => Some(&self.panes[position]),
            None => None,
        }
    }

    /// The pane that has the keys.
    pub fn active(&self) -> (pane: Option<&Pane>)
        ensures
            match first_with_id(self.panes@, self.active_pane) {
                Some(position) => pane == Some(&self.panes@[position]),
                None => pane is None,
            },
    {
        self.pane(self.active_pane)
    }

    /// The same window for a second session.
    pub fn linked_clone(&self) -> (window: Self)
        requires
            forall|i: int|
                0 <= i < self.panes@.len() ==> rect_shows(
                    (#[trigger] self.panes@[i]).rect,
                    self.panes@[i].raw_output@,
                ),
        ensures
            window.panes@.len() == self.panes@.len(),
            forall|i: int|
                0 <= i < self.panes@.len() ==> (#[trigger] window.panes@[i]).is_link_of(
                    self.panes@[i],
                ),
            window.options@ == self.options@,
            window == (Window { panes: window.panes, options: window.options, ..*self }),
            is_linked_window(window, *self),
            self.well_formed() ==> window.well_formed(),
    {
        let mut panes: Vec<Pane> = Vec::new();
        let mut position: usize = 0;
        while position < self.panes.len()
            invariant
                position <= self.panes@.len(),
                panes@.len() == position,
                forall|i: int|
                    0 <= i < self.panes@.len() ==> rect_shows(
                        (#[trigger] self.panes@[i]).rect,
                        self.panes@[i].raw_output@,
                    ),
                forall|i: int|
                    0 <= i < position ==> (#[trigger] panes@[i]).is_link_of(self.panes@[i]),
            decreases self.panes@.len() - position,
        {
            panes.push(self.panes[position].linked_clone());
            position += 1;
        }
        Window {
            id: self.id,
            index: self.index,
            name: self.name.clone(),
            size: self.size,
            layout: self.layout.clone(),
            panes,
            active_pane: self.active_pane,
            last_pane: self.last_pane,
            zoomed: self.zoomed,
            bell_alert: self.bell_alert,
            next_pane_index: self.next_pane_index,
            mode_keys: self.mode_keys,
            word_separators: self.word_separators.clone(),
            synchronize_panes: self.synchronize_panes,
            options: copy_options(&self.options),
        }
    }

    /// Where the layout has the panes.
    pub open spec fn places(self) -> Map<u64, Rect> {
        self.layout.placed(Rect::covering(self.size), Map::empty())
    }

    /// Gives every pane of the layout its place, and a screen of its size.
    pub fn reflow(&mut self)
        ensures
            final(self).panes@.len() == old(self).panes@.len(),
            forall|i: int|
                #![trigger final(self).panes@[i]]
                0 <= i < old(self).panes@.len() ==> {
                    let before = old(self).panes@[i];
                    if old(self).places().dom().contains(before.id) {
                        is_moved(
                            final(self).panes@[i],
                            before,
                            place_in_window(*old(self), before, old(self).places()[before.id]),
                        )
                    } else {
                        final(self).panes@[i] == before
                    }
                },
            *final(self) == (Window { panes: final(self).panes, ..*old(self) }),
            old(self).well_formed() ==> final(self).well_formed(),
    {
        let mut rectangles: HashMap<u64, Rect> = HashMap::new();
        self.layout.rectangles(Rect::of_size(self.size), &mut rectangles);
        let mut position: usize = 0;
        while position < self.panes.len()
            invariant
                position <= self.panes@.len(),
                self.panes@.len() == old(self).panes@.len(),
                rectangles@ == old(self).places(),
                *self == (Window { panes: self.panes, ..*old(self) }),
                forall|i: int|
                    #![trigger self.panes@[i]]
                    0 <= i < position ==> {
                        let before = old(self).panes@[i];
                        if old(self).places().dom().contains(before.id) {
                            is_moved(
                                self.panes@[i],
                                before,
                                place_in_window(*old(self), before, old(self).places()[before.id]),
                            )
                        } else {
                            self.panes@[i] == before
                        }
                    },
                forall|i: int|
                    #![trigger self.panes@[i]]
                    position <= i < self.panes@.len() ==> self.panes@[i] == old(self).panes@[i],
            decreases self.panes@.len() - position,
        {
            let pane_id: u64 = self.panes[position].id;
            if let Some(found) = rectangles.get(&pane_id) {
                let mut rect: Rect = match self.panes[position].full_axis {
                    Some(Axis::Horizontal) => Rect { y: 0, rows: self.size.rows, ..*found },
                    Some(Axis::Vertical) => Rect { x: 0, cols: self.size.cols, ..*found },
                    None => *found,
                };
                if self.zoomed && pane_id == self.active_pane {
                    rect = Rect::of_size(self.size);
                }
                let pane = &mut self.panes[position];
                pane.rect = rect;
                pane.parser.set_size(raise_to_one(rect.rows), raise_to_one(rect.cols));
            }
            position += 1;
        }
    }

    /// The first pane with an index.
    pub fn pane_for_index(&self, index: u32) -> (id: Option<u64>)
        ensures
            match first_with_index(self.panes@, index) {
                Some(position) => id == Some(self.panes@[position].id),
                None => id is None,
            },
    {
        let mut position: usize = 0;
        while position < self.panes.len()
            invariant
                position <= self.panes@.len(),
                first_with_index(self.panes@.take(position as int), index) is None,
            decreases self.panes@.len() - position,
        {
            proof {
                assert(self.panes@.take(position + 1).drop_last() =~= self.panes@.take(
                    position as int,
                ));
            }
            if self.panes[position].index == index {
                proof {
                    lemma_first_index_of_prefix(self.panes@, position + 1, index);
                }
                return Some(self.panes[position].id);
            }
            position += 1;
        }
        assert(self.panes@.take(position as int) =~= self.panes@);
        None
    }

    /// Exchanges two panes, and says whether both are there.
    pub fn swap_panes(&mut self, first: u64, second: u64) -> (found: bool)
        ensures
            match (
                first_with_id(old(self).panes@, first),
                first_with_id(old(self).panes@, second),
            ) {
                (Some(one), Some(other)) => {
                    &&& found
                    &&& final(self).panes@ == numbered(exchanged(old(self).panes@, one, other))
                    &&& final(self).layout == old(self).layout.mapped(
                        layout::exchange(first, second),
                    )
                    &&& *final(self) == (Window {
                        panes: final(self).panes,
                        layout: final(self).layout,
                        ..*old(self)
                    })
                },
                _ => !found && *final(self) == *old(self),
            },
            is_swapped(*final(self), *old(self), first, second),
            old(self).well_formed() ==> final(self).well_formed(),
    {
        let first_position: usize = match position_of(&self.panes, first) {
            Some(position) => position,
            None => return false,
        };
        let second_position: usize = match position_of(&self.panes, second) {
            Some(position) => position,
            None => return false,
        };
        swap_places(&mut self.panes, first_position, second_position);
        number(&mut self.panes);
        self.layout.swap_ids(first, second);
        true
    }

    /// Moves all panes by one place. The place that was active stays so.
    pub fn rotate_panes(&mut self, up: bool)
        ensures
            is_rotated(*final(self), *old(self), up),
            old(self).panes@.len() < 2 ==> *final(self) == *old(self),
            old(self).panes@.len() >= 2 ==> {
                let before = old(self).panes@;
                &&& final(self).panes@ == numbered(rotated(before, up))
                &&& final(self).layout == old(self).layout.mapped(replacing(before, up))
                &&& final(self).active_pane == rotated(before, up)[place_of(
                    before,
                    old(self).active_pane,
                )].id
                &&& *final(self) == (Window {
                    panes: final(self).panes,
                    layout: final(self).layout,
                    active_pane: final(self).active_pane,
                    ..*old(self)
                })
            },
            old(self).well_formed() ==> final(self).well_formed(),
    {
        let length: usize = self.panes.len();
        if length < 2 {
            return;
        }
        let active_position: usize = match position_of(&self.panes, self.active_pane) {
            Some(position) => position,
            None => 0,
        };
        let mut mapping: HashMap<u64, u64> = HashMap::new();
        let mut position: usize = 0;
        while position < length
            invariant
                position <= length,
                length == self.panes@.len(),
                length >= 2,
                *self == *old(self),
                mapping@ == successors(self.panes@, up, position as nat),
            decreases length - position,
        {
            let next: usize = if up {
                if position + 1 < length {
                    position + 1
                } else {
                    0
                }
            } else {
                if position > 0 {
                    position - 1
                } else {
                    length - 1
                }
            };
            mapping.insert(self.panes[position].id, self.panes[next].id);
            position += 1;
        }
        if up {
            let first = self.panes.remove(0);
            self.panes.push(first);
            assert(self.panes@ =~= rotated(old(self).panes@, up));
        } else {
            let last = self.panes.remove(length - 1);
            self.panes.insert(0, last);
            assert(self.panes@ =~= rotated(old(self).panes@, up));
        }
        self.layout.remap_ids(&mapping);
        number(&mut self.panes);
        self.active_pane = self.panes[active_position].id;
    }
}

/// Exchanges what stands in two places.
fn swap_places(panes: &mut Vec<Pane>, first: usize, second: usize)
    requires
        first < old(panes)@.len(),
        second < old(panes)@.len(),
    ensures
        final(panes)@ == exchanged(old(panes)@, first as int, second as int),
{
    if first == second {
        assert(panes@ =~= exchanged(panes@, first as int, second as int));
        return;
    }
    let (low, high): (usize, usize) = if first < second {
        (first, second)
    } else {
        (second, first)
    };
    let upper = panes.remove(high);
    let lower = panes.remove(low);
    panes.insert(low, upper);
    panes.insert(high, lower);
    assert(panes@ =~= exchanged(old(panes)@, first as int, second as int));
}

proof fn lemma_first_index_of_prefix(panes: Seq<Pane>, length: int, index: u32)
    requires
        0 <= length <= panes.len(),
        first_with_index(panes.take(length), index) is Some,
    ensures
        first_with_index(panes, index) == first_with_index(panes.take(length), index),
    decreases panes.len() - length,
{
    if length < panes.len() {
        assert(panes.take(length + 1).drop_last() =~= panes.take(length));
        lemma_first_index_of_prefix(panes, length + 1, index);
    } else {
        assert(panes.take(length) =~= panes);
    }
}

/// A session: windows, one of which is active.
pub struct Session {
    pub id: u64,
    pub name: String,
    pub size: Size,
    pub windows: Vec<Window>,
    pub active_window: u32,
    pub last_window: Option<u32>,
    pub base_index: u32,
    pub renumber_windows: bool,
    pub next_window_index: u32,
    pub cwd: Option<String>,
    /// Names and values, each name once.
    pub options: Vec<(String, String)>,
}

impl Session {
    pub open spec fn well_formed(self) -> bool {
        each_once(self.options@)
    }

    /// The first window with the active index.
    pub fn active_window(&self) -> (window: Option<&Window>)
        ensures
            match window {
                Some(found) => exists|i: int|
                    #![trigger self.windows@[i]]
                    {
                        &&& 0 <= i < self.windows@.len()
                        &&& self.windows@[i] == found
                        &&& found.index == self.active_window
                        &&& forall|j: int|
                            0 <= j < i ==> (#[trigger] self.windows@[j]).index
                                != self.active_window
                    },
                None => forall|j: int|
                    0 <= j < self.windows@.len() ==> (#[trigger] self.windows@[j]).index
                        != self.active_window,
            },
    {
        let mut position: usize = 0;
        while position < self.windows.len()
            invariant
                position <= self.windows@.len(),
                forall|j: int|
                    0 <= j < position ==> (#[trigger] self.windows@[j]).index
                        != self.active_window,
            decreases self.windows@.len() - position,
        {
            if self.windows[position].index == self.active_window {
                return Some(&self.windows[position]);
            }
            position += 1;
        }
        None
    }

    /// The session with another window active. One that was is remembered as the
    /// last.
    pub open spec fn selecting(self, index: u32) -> Session {
        if self.active_window == index {
            self
        } else {
            Session { active_window: index, last_window: Some(self.active_window), ..self }
        }
    }

    /// Makes a window active.
    pub fn select_window(&mut self, index: u32)
        ensures
            *final(self) == old(self).selecting(index),
            old(self).well_formed() ==> final(self).well_formed(),
    {
        if self.active_window != index {
            self.last_window = Some(self.active_window);
            self.active_window = index;
        }
    }
}

} // verus!
