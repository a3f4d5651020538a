//! Commands on panes.

use vstd::prelude::*;

use crate::command::invocation::{self, Expected, InvocationSpec};
use crate::command::items::{self, first_wrong, last_flag, last_value, operand};
use crate::command::session::{self, format_to_print};
use crate::command::options::{self, options, scan, seen, Grammar, Item, ItemView, Operands};
use crate::protocol::request::RequestOf;
use crate::protocol::wire::{self, PaneDirection};
use crate::text::{self, characters, parse_i32, parse_u16, same_text, string_of};

verus! {

pub open spec fn list_panes_invocation(arguments: Seq<Seq<char>>) -> Expected {
    let scan = options::scanned(
        arguments,
        options("as", "tFf", Operands::Refused, "unknown list-panes option: "),
    );
    let items = scan.items;
    match scan.error {
        Some(error) => Err(error),
        None => invocation::plainly(
            RequestOf::ListPanes {
                target: items::value_of(items, "t"@),
                format: items::value_of(items, "F"@),
            },
        ),
    }
}

pub fn parse_list_panes(arguments: &[String]) -> (result: Result<InvocationSpec, String>)
    ensures
        invocation::answers(result, list_panes_invocation(text::texts(arguments@))),
{
    let scan = scan(
        arguments,
        &options("as", "tFf", Operands::Refused, "unknown list-panes option: "),
    );
    if let Some(error) = scan.error {
        return Err(error);
    }
    let items = scan.items;
    Ok(
        InvocationSpec::plain(
            RequestOf::ListPanes {
                target: last_value(&items, "t"),
                format: last_value(&items, "F"),
            },
        ),
    )
}

/// The direction that a letter stands for.
pub open spec fn direction_of(flag: char) -> PaneDirection {
    if flag == 'L' {
        PaneDirection::Left
    } else if flag == 'R' || flag == 'x' {
        PaneDirection::Right
    } else if flag == 'U' {
        PaneDirection::Up
    } else if flag == 'D' || flag == 'y' {
        PaneDirection::Down
    } else if flag == 'n' {
        PaneDirection::Next
    } else if flag == 'p' {
        PaneDirection::Previous
    } else {
        PaneDirection::Last
    }
}

fn direction_for(flag: char) -> (direction: PaneDirection)
    ensures
        direction == direction_of(flag),
{
    match flag {
        'L' => PaneDirection::Left,
        'R' | 'x' => PaneDirection::Right,
        'U' => PaneDirection::Up,
        'D' | 'y' => PaneDirection::Down,
        'n' => PaneDirection::Next,
        'p' => PaneDirection::Previous,
        _ => PaneDirection::Last,
    }
}

/// The direction of the last of the given options, or the default.
pub open spec fn direction_in(
    items: Seq<ItemView>,
    flags: Seq<char>,
    default: PaneDirection,
) -> PaneDirection {
    match items::flag_of(items, flags) {
        Some(flag) => direction_of(flag),
        None => default,
    }
}

fn last_direction(items: &Vec<Item>, flags: &str, default: PaneDirection) -> (direction:
    PaneDirection)
    ensures
        direction == direction_in(options::item_views(items@), flags@, default),
{
    match last_flag(items, flags) {
        Some(flag) => direction_for(flag),
        None => default,
    }
}

/// Which of two opposite options came last, if any.
pub open spec fn choice_in(items: Seq<ItemView>, flags: Seq<char>, yes: char) -> Option<bool> {
    match items::flag_of(items, flags) {
        Some(flag) => Some(flag == yes),
        None => None,
    }
}

fn last_choice(items: &Vec<Item>, flags: &str, yes: char) -> (chosen: Option<bool>)
    ensures
        chosen == choice_in(options::item_views(items@), flags@, yes),
{
    match last_flag(items, flags) {
        Some(flag) => Some(flag == yes),
        None => None,
    }
}

pub open spec fn select_pane_invocation(arguments: Seq<Seq<char>>) -> Expected {
    let scan = options::scanned(
        arguments,
        options("LRUDlnpmMde", "tT", Operands::Refused, "unknown select-pane option: "),
    );
    let items = scan.items;
    match scan.error {
        Some(error) => Err(error),
        None => invocation::plainly(
            RequestOf::SelectPane {
                target: items::value_of(items, "t"@),
                direction: direction_in(items, "LRUDlnp"@, PaneDirection::Last),
                mark: choice_in(items, "mM"@, 'm'),
                title: items::value_of(items, "T"@),
                enabled: choice_in(items, "de"@, 'e'),
            },
        ),
    }
}

pub fn parse_select_pane(arguments: &[String]) -> (result: Result<InvocationSpec, String>)
    ensures
        invocation::answers(result, select_pane_invocation(text::texts(arguments@))),
{
    let scan = scan(
        arguments,
        &options("LRUDlnpmMde", "tT", Operands::Refused, "unknown select-pane option: "),
    );
    if let Some(error) = scan.error {
        return Err(error);
    }
    let items = scan.items;
    Ok(
        InvocationSpec::plain(
            RequestOf::SelectPane {
                target: last_value(&items, "t"),
                direction: last_direction(&items, "LRUDlnp", PaneDirection::Last),
                mark: last_choice(&items, "mM", 'm'),
                title: last_value(&items, "T"),
                enabled: last_choice(&items, "de", 'e'),
            },
        ),
    )
}

pub open spec fn kill_pane_invocation(arguments: Seq<Seq<char>>) -> Expected {
    let scan = options::scanned(
        arguments,
        options("aK", "tfF", Operands::Refused, "unknown kill-pane option: "),
    );
    let items = scan.items;
    match scan.error {
        Some(error) => Err(error),
        None => invocation::plainly(
            RequestOf::KillPane {
                target: items::value_of(items, "t"@),
                all: options::is_seen(items, 'a'),
                filter: items::value_of(items, "f"@),
            },
        ),
    }
}

pub fn parse_kill_pane(arguments: &[String]) -> (result: Result<InvocationSpec, String>)
    ensures
        invocation::answers(result, kill_pane_invocation(text::texts(arguments@))),
{
    let scan = scan(
        arguments,
        &options("aK", "tfF", Operands::Refused, "unknown kill-pane option: "),
    );
    if let Some(error) = scan.error {
        return Err(error);
    }
    let items = scan.items;
    Ok(
        InvocationSpec::plain(
            RequestOf::KillPane {
                target: last_value(&items, "t"),
                all: seen(&items, 'a'),
                filter: last_value(&items, "f"),
            },
        ),
    )
}

// ---------------------------------------------------------------------------
// Resizing.

/// A size in cells or, behind a number, per cent.
pub open spec fn resize_value(value: Seq<char>) -> Result<(u16, bool), Seq<char>> {
    let percent = value.len() > 0 && value.last() == '%';
    let digits = if percent {
        value.drop_last()
    } else {
        value
    };
    match text::unsigned_number(digits, 65535) {
        Some(number) => Ok((number as u16, percent)),
        None => Err("resize-pane size requires an integer"@),
    }
}

pub fn parse_resize_value(value: &str) -> (result: Result<(u16, bool), String>)
    ensures
        match resize_value(value@) {
            Ok(pair) => result == Ok::<(u16, bool), String>(pair),
            Err(error) => result matches Err(message) && message@ == error,
        },
{
    let list = characters(value);
    let percent = list.len() > 0 && list[list.len() - 1] == '%';
    let number: Option<u16> = if percent {
        let digits = string_of(&list, 0, list.len() - 1);
        assert(digits@ =~= value@.drop_last());
        parse_u16(digits.as_str())
    } else {
        parse_u16(value)
    };
    match number {
        Some(number) => Ok((number, percent)),
        None => Err("resize-pane size requires an integer".to_owned()),
    }
}

pub open spec fn resize_pane_problem(item: ItemView) -> Option<Seq<char>> {
    if item.flag == 'x' || item.flag == 'y' {
        match resize_value(item.value) {
            Ok(_) => None,
            Err(error) => Some(error),
        }
    } else if item.flag == options::OPERAND && text::signed_number(item.value) is None {
        Some("resize-pane count requires an integer"@)
    } else {
        None
    }
}

fn wrong_for_resize_pane(item: &Item) -> (error: Option<String>)
    ensures
        wire::text_view(error) == resize_pane_problem(item@),
{
    if item.flag == 'x' || item.flag == 'y' {
        match parse_resize_value(item.value.as_str()) {
            Ok(_) => None,
            Err(error) => Some(error),
        }
    } else if item.flag == options::OPERAND && parse_i32(item.value.as_str()).is_none() {
        Some("resize-pane count requires an integer".to_owned())
    } else {
        None
    }
}

/// How far a pane's edge is to move.
pub open spec fn amount_in(items: Seq<ItemView>) -> i32 {
    match items::value_of(items, " "@) {
        Some(value) => match text::signed_number(value) {
            Some(number) => number as i32,
            None => 1,
        },
        None => 1,
    }
}

fn last_amount(items: &Vec<Item>) -> (amount: i32)
    ensures
        amount == amount_in(options::item_views(items@)),
{
    match last_value(items, " ") {
        Some(value) => match parse_i32(value.as_str()) {
            Some(number) => number,
            None => 1,
        },
        None => 1,
    }
}

/// The size that a pane is to have, and whether it is per cent.
pub open spec fn absolute_in(items: Seq<ItemView>) -> Option<(u16, bool)> {
    match items::value_of(items, "xy"@) {
        Some(value) => match resize_value(value) {
            Ok(pair) => Some(pair),
            Err(_) => None,
        },
        None => None,
    }
}

fn last_absolute(items: &Vec<Item>) -> (size: Option<(u16, bool)>)
    ensures
        size == absolute_in(options::item_views(items@)),
{
    match last_value(items, "xy") {
        Some(value) => match parse_resize_value(value.as_str()) {
            Ok(pair) => Some(pair),
            Err(_) => None,
        },
        None => None,
    }
}

pub open spec fn resize_pane_invocation(arguments: Seq<Seq<char>>) -> Expected {
    let scan = options::scanned(
        arguments,
        Grammar {
            attached: "xy",
            ..options("LRUDZ", "txy", Operands::Each, "unknown resize-pane option: ")
        },
    );
    let items = scan.items;
    match items::refusal(scan, |item: ItemView| resize_pane_problem(item)) {
        Some(error) => Err(error),
        None => invocation::plainly(
            RequestOf::ResizePane {
                target: items::value_of(items, "t"@),
                direction: direction_in(items, "LRUDxy"@, PaneDirection::Right),
                amount: amount_in(items),
                absolute: match absolute_in(items) {
                    Some(pair) => Some(pair.0),
                    None => None,
                },
                absolute_percent: match absolute_in(items) {
                    Some(pair) => pair.1,
                    None => false,
                },
                zoom: options::is_seen(items, 'Z'),
            },
        ),
    }
}

pub fn parse_resize_pane(arguments: &[String]) -> (result: Result<InvocationSpec, String>)
    ensures
        invocation::answers(result, resize_pane_invocation(text::texts(arguments@))),
{
    let scan = scan(
        arguments,
        &Grammar {
            attached: "xy",
            ..options("LRUDZ", "txy", Operands::Each, "unknown resize-pane option: ")
        },
    );
    let problem = first_wrong(
        &scan.items,
        wrong_for_resize_pane,
        Ghost(|item: ItemView| resize_pane_problem(item)),
    );
    if let Some(error) = problem {
        return Err(error);
    }
    if let Some(error) = scan.error {
        return Err(error);
    }
    let items = scan.items;
    let (absolute, absolute_percent): (Option<u16>, bool) = match last_absolute(&items) {
        Some((size, percent)) => (Some(size), percent),
        None => (None, false),
    };
    Ok(
        InvocationSpec::plain(
            RequestOf::ResizePane {
                target: last_value(&items, "t"),
                direction: last_direction(&items, "LRUDxy", PaneDirection::Right),
                amount: last_amount(&items),
                absolute,
                absolute_percent,
                zoom: seen(&items, 'Z'),
            },
        ),
    )
}

// ---------------------------------------------------------------------------
// Moving panes.

/// The pane to swap with, by its place before or behind.
pub open spec fn neighbour_in(items: Seq<ItemView>) -> Option<PaneDirection> {
    match items::flag_of(items, "UD"@) {
        Some(flag) => Some(
            if flag == 'U' {
                PaneDirection::Previous
            } else {
                PaneDirection::Next
            },
        ),
        None => None,
    }
}

fn last_neighbour(items: &Vec<Item>) -> (direction: Option<PaneDirection>)
    ensures
        direction == neighbour_in(options::item_views(items@)),
{
    match last_flag(items, "UD") {
        Some(flag) => if flag == 'U' {
            Some(PaneDirection::Previous)
        } else {
            Some(PaneDirection::Next)
        },
        None => None,
    }
}

pub open spec fn swap_pane_invocation(arguments: Seq<Seq<char>>) -> Expected {
    let scan = options::scanned(
        arguments,
        options("UDdZ", "st", Operands::Refused, "unknown swap-pane option: "),
    );
    let items = scan.items;
    match scan.error {
        Some(error) => Err(error),
        None => invocation::plainly(
            RequestOf::SwapPane {
                source: items::value_of(items, "s"@),
                target: items::value_of(items, "t"@),
                direction: neighbour_in(items),
                detached: options::is_seen(items, 'd'),
            },
        ),
    }
}

pub fn parse_swap_pane(arguments: &[String]) -> (result: Result<InvocationSpec, String>)
    ensures
        invocation::answers(result, swap_pane_invocation(text::texts(arguments@))),
{
    let scan = scan(
        arguments,
        &options("UDdZ", "st", Operands::Refused, "unknown swap-pane option: "),
    );
    if let Some(error) = scan.error {
        return Err(error);
    }
    let items = scan.items;
    Ok(
        InvocationSpec::plain(
            RequestOf::SwapPane {
                source: last_value(&items, "s"),
                target: last_value(&items, "t"),
                direction: last_neighbour(&items),
                detached: seen(&items, 'd'),
            },
        ),
    )
}

pub open spec fn break_pane_invocation(arguments: Seq<Seq<char>>) -> Expected {
    let scan = options::scanned(
        arguments,
        options("dP", "stnF", Operands::Refused, "unknown break-pane option: "),
    );
    let items = scan.items;
    match scan.error {
        Some(error) => Err(error),
        None => invocation::plainly(
            RequestOf::BreakPane {
                source: items::value_of(items, "s"@),
                target: items::value_of(items, "t"@),
                name: items::value_of(items, "n"@),
                detached: options::is_seen(items, 'd'),
                format: session::print_format(items, "#{window_index}:#{pane_id}"@),
            },
        ),
    }
}

pub fn parse_break_pane(arguments: &[String]) -> (result: Result<InvocationSpec, String>)
    ensures
        invocation::answers(result, break_pane_invocation(text::texts(arguments@))),
{
    let scan = scan(
        arguments,
        &options("dP", "stnF", Operands::Refused, "unknown break-pane option: "),
    );
    if let Some(error) = scan.error {
        return Err(error);
    }
    let items = scan.items;
    Ok(
        InvocationSpec::plain(
            RequestOf::BreakPane {
                source: last_value(&items, "s"),
                target: last_value(&items, "t"),
                name: last_value(&items, "n"),
                detached: seen(&items, 'd'),
                format: format_to_print(&items, "#{window_index}:#{pane_id}"),
            },
        ),
    )
}

pub open spec fn join_pane_invocation(arguments: Seq<Seq<char>>) -> Expected {
    let scan = options::scanned(
        arguments,
        options("hvbd", "stl", Operands::Refused, "unknown join-pane option: "),
    );
    let items = scan.items;
    match scan.error {
        Some(error) => Err(error),
        None => invocation::plainly(
            RequestOf::JoinPane {
                source: items::value_of(items, "s"@),
                target: items::value_of(items, "t"@),
                horizontal: options::is_seen(items, 'h'),
                before: options::is_seen(items, 'b'),
                detached: options::is_seen(items, 'd'),
                size: items::value_of(items, "l"@),
            },
        ),
    }
}

pub fn parse_join_pane(arguments: &[String]) -> (result: Result<InvocationSpec, String>)
    ensures
        invocation::answers(result, join_pane_invocation(text::texts(arguments@))),
{
    let scan = scan(
        arguments,
        &options("hvbd", "stl", Operands::Refused, "unknown join-pane option: "),
    );
    if let Some(error) = scan.error {
        return Err(error);
    }
    let items = scan.items;
    Ok(
        InvocationSpec::plain(
            RequestOf::JoinPane {
                source: last_value(&items, "s"),
                target: last_value(&items, "t"),
                horizontal: seen(&items, 'h'),
                before: seen(&items, 'b'),
                detached: seen(&items, 'd'),
                size: last_value(&items, "l"),
            },
        ),
    )
}

// ---------------------------------------------------------------------------
// Looking at panes.

pub open spec fn copy_mode_invocation(arguments: Seq<Seq<char>>, page: bool) -> Expected {
    let scan = options::scanned(
        arguments,
        options("eHkduqMS", "ts", Operands::Refused, "unknown copy-mode option: "),
    );
    let items = scan.items;
    match scan.error {
        Some(error) => Err(error),
        None => invocation::plainly(
            RequestOf::CopyMode {
                target: items::value_of(items, "t"@),
                source: items::value_of(items, "s"@),
                exit_on_scroll: options::is_seen(items, 'e'),
                hide_position: options::is_seen(items, 'H'),
                kill_on_exit: options::is_seen(items, 'k'),
                page: page || options::is_seen(items, 'u'),
                page_down: options::is_seen(items, 'd'),
                reset: options::is_seen(items, 'q'),
                mouse_start: options::is_seen(items, 'M'),
                scroll_to_mouse: options::is_seen(items, 'S'),
            },
        ),
    }
}

pub fn parse_copy_mode(arguments: &[String], page: bool) -> (result: Result<InvocationSpec, String>)
    ensures
        invocation::answers(result, copy_mode_invocation(text::texts(arguments@), page)),
{
    let scan = scan(
        arguments,
        &options("eHkduqMS", "ts", Operands::Refused, "unknown copy-mode option: "),
    );
    if let Some(error) = scan.error {
        return Err(error);
    }
    let items = scan.items;
    Ok(
        InvocationSpec::plain(
            RequestOf::CopyMode {
                target: last_value(&items, "t"),
                source: last_value(&items, "s"),
                exit_on_scroll: seen(&items, 'e'),
                hide_position: seen(&items, 'H'),
                kill_on_exit: seen(&items, 'k'),
                page: page || seen(&items, 'u'),
                page_down: seen(&items, 'd'),
                reset: seen(&items, 'q'),
                mouse_start: seen(&items, 'M'),
                scroll_to_mouse: seen(&items, 'S'),
            },
        ),
    )
}

pub open spec fn display_panes_invocation(arguments: Seq<Seq<char>>) -> Expected {
    let scan = options::scanned(arguments, Grammar {
        attached: "d",
        delays: true,
        ..options("ZkN", "ts", Operands::Rest, "unknown display-panes option: ")
    });
    let items = scan.items;
    match scan.error {
        Some(error) => Err(error),
        None => invocation::plainly(
            RequestOf::DisplayPanes {
                target: items::value_of(items, "t"@),
                source: items::value_of(items, "s"@),
                no_zoom: options::is_seen(items, 'Z'),
                no_mode: options::is_seen(items, 'N'),
                command: scan.tail,
                kill_on_exit: options::is_seen(items, 'k'),
            },
        ),
    }
}

pub fn parse_display_panes(arguments: &[String]) -> (result: Result<InvocationSpec, String>)
    ensures
        invocation::answers(result, display_panes_invocation(text::texts(arguments@))),
{
    let scan = scan(arguments, &Grammar {
        attached: "d",
        delays: true,
        ..options("ZkN", "ts", Operands::Rest, "unknown display-panes option: ")
    });
    if let Some(error) = scan.error {
        return Err(error);
    }
    let items = scan.items;
    Ok(
        InvocationSpec::plain(
            RequestOf::DisplayPanes {
                target: last_value(&items, "t"),
                source: last_value(&items, "s"),
                no_zoom: seen(&items, 'Z'),
                no_mode: seen(&items, 'N'),
                command: scan.tail,
                kill_on_exit: seen(&items, 'k'),
            },
        ),
    )
}

/// A line of the history or the screen. A dash stands for the very first.
pub open spec fn capture_offset(value: Seq<char>) -> Result<i32, Seq<char>> {
    if value == "-"@ {
        Ok(i32::MIN)
    } else {
        match text::signed_number(value) {
            Some(number) => Ok(number as i32),
            None => Err("capture-pane offset requires an integer"@),
        }
    }
}

pub fn parse_capture_offset(value: &str) -> (result: Result<i32, String>)
    ensures
        match capture_offset(value@) {
            Ok(number) => result == Ok::<i32, String>(number),
            Err(error) => result matches Err(message) && message@ == error,
        },
{
    if same_text(value, "-") {
        return Ok(i32::MIN);
    }
    match parse_i32(value) {
        Some(number) => Ok(number),
        None => Err("capture-pane offset requires an integer".to_owned()),
    }
}

pub open spec fn capture_pane_problem(item: ItemView) -> Option<Seq<char>> {
    if item.flag == 'S' || item.flag == 'E' {
        match capture_offset(item.value) {
            Ok(_) => None,
            Err(error) => Some(error),
        }
    } else {
        None
    }
}

fn wrong_for_capture_pane(item: &Item) -> (error: Option<String>)
    ensures
        wire::text_view(error) == capture_pane_problem(item@),
{
    if item.flag == 'S' || item.flag == 'E' {
        match parse_capture_offset(item.value.as_str()) {
            Ok(_) => None,
            Err(error) => Some(error),
        }
    } else {
        None
    }
}

/// The line that the last of the given options names.
pub open spec fn offset_in(items: Seq<ItemView>, flag: Seq<char>) -> Option<i32> {
    match items::value_of(items, flag) {
        Some(value) => match capture_offset(value) {
            Ok(number) => Some(number),
            Err(_) => None,
        },
        None => None,
    }
}

fn last_offset(items: &Vec<Item>, flag: &str) -> (offset: Option<i32>)
    ensures
        offset == offset_in(options::item_views(items@), flag@),
{
    match last_value(items, flag) {
        Some(value) => match parse_capture_offset(value.as_str()) {
            Ok(number) => Some(number),
            Err(_) => None,
        },
        None => None,
    }
}

pub open spec fn capture_pane_invocation(arguments: Seq<Seq<char>>) -> Expected {
    let scan = options::scanned(
        arguments,
        Grammar {
            attached: "SE",
            cluster: "eJNHp",
            cluster_head: "-p",
            ..options("peJNH", "tSE", Operands::Refused, "unknown capture-pane option: ")
        },
    );
    let items = scan.items;
    match items::refusal(scan, |item: ItemView| capture_pane_problem(item)) {
        Some(error) => Err(error),
        None => invocation::plainly(
            RequestOf::CapturePane {
                target: items::value_of(items, "t"@),
                start: offset_in(items, "S"@),
                end: offset_in(items, "E"@),
                escape: options::is_seen(items, 'e'),
                join: options::is_seen(items, 'J'),
                preserve_trailing: options::is_seen(items, 'N') || options::is_seen(items, 'J'),
            },
        ),
    }
}

pub fn parse_capture_pane(arguments: &[String]) -> (result: Result<InvocationSpec, String>)
    ensures
        invocation::answers(result, capture_pane_invocation(text::texts(arguments@))),
{
    let scan = scan(
        arguments,
        &Grammar {
            attached: "SE",
            cluster: "eJNHp",
            cluster_head: "-p",
            ..options("peJNH", "tSE", Operands::Refused, "unknown capture-pane option: ")
        },
    );
    let problem = first_wrong(
        &scan.items,
        wrong_for_capture_pane,
        Ghost(|item: ItemView| capture_pane_problem(item)),
    );
    if let Some(error) = problem {
        return Err(error);
    }
    if let Some(error) = scan.error {
        return Err(error);
    }
    let items = scan.items;
    let join = seen(&items, 'J');
    Ok(
        InvocationSpec::plain(
            RequestOf::CapturePane {
                target: last_value(&items, "t"),
                start: last_offset(&items, "S"),
                end: last_offset(&items, "E"),
                escape: seen(&items, 'e'),
                join,
                preserve_trailing: seen(&items, 'N') || join,
            },
        ),
    )
}

pub open spec fn pipe_pane_invocation(arguments: Seq<Seq<char>>) -> Expected {
    let scan = options::scanned(arguments, Grammar {
        separator: true,
        ..options("oIO", "t", Operands::Each, "unknown pipe-pane option: ")
    });
    let items = scan.items;
    match scan.error {
        Some(error) => Err(error),
        None => invocation::plainly(
            RequestOf::PipePane {
                target: items::value_of(items, "t"@),
                command: items::operand_of(scan),
                toggle: options::is_seen(items, 'o'),
            },
        ),
    }
}

pub fn parse_pipe_pane(arguments: &[String]) -> (result: Result<InvocationSpec, String>)
    ensures
        invocation::answers(result, pipe_pane_invocation(text::texts(arguments@))),
{
    let scan = scan(arguments, &Grammar {
        separator: true,
        ..options("oIO", "t", Operands::Each, "unknown pipe-pane option: ")
    });
    if scan.error.is_some() {
        return Err(scan.error.unwrap());
    }
    let found = operand(&scan);
    let items = scan.items;
    Ok(
        InvocationSpec::plain(
            RequestOf::PipePane {
                target: last_value(&items, "t"),
                command: found,
                toggle: seen(&items, 'o'),
            },
        ),
    )
}

} // verus!
