//! Commands on windows, and those that put a command into a pane.

use vstd::prelude::*;

use crate::command::invocation::{self, Expected, InvocationSpec, InvocationView};
use crate::command::items::{self, first, first_wrong, last_flag, last_value};
use crate::command::session::{self, command_for_pane, format_to_print, is_blank};
use crate::command::options::{self, options, scan, seen, Grammar, Item, ItemView, Operands, Scan};
use crate::protocol::request::RequestOf;
use crate::protocol::wire;
use crate::text::{self, concat, parse_u32};

verus! {

// ---------------------------------------------------------------------------
// Options that several commands share.

/// The options that come before the command of a new pane. Each command accepts
/// some of them.
pub open spec fn common_scan(arguments: Seq<Seq<char>>) -> options::ScanView {
    options::scanned(
        arguments,
        Grammar {
            separator: true,
            ..options("dhvbfkEPaS", "tnclFI", Operands::Rest, "unknown option: ")
        },
    )
}

pub fn parse_common_tail(arguments: &[String]) -> (scan: Scan)
    ensures
        scan@ == common_scan(text::texts(arguments@)),
{
    scan(
        arguments,
        &Grammar {
            separator: true,
            ..options("dhvbfkEPaS", "tnclFI", Operands::Rest, "unknown option: ")
        },
    )
}

/// What is wrong with an option that a command does not accept.
pub open spec fn not_accepted(item: ItemView, accepted: Seq<char>, unknown: Seq<char>) -> Option<
    Seq<char>,
> {
    if accepted.contains(item.flag) {
        None
    } else {
        Some(unknown + seq!['-', item.flag])
    }
}

fn refuse_other(item: &Item, accepted: &str, unknown: &str) -> (error: Option<String>)
    ensures
        wire::text_view(error) == not_accepted(item@, accepted@, unknown@),
{
    if options::is_listed(accepted, item.flag) {
        None
    } else {
        let mut error = concat(unknown, "-");
        error.push(item.flag);
        proof {
            reveal_strlit("-");
            assert(error@ =~= unknown@ + seq!['-', item.flag]);
        }
        Some(error)
    }
}

// ---------------------------------------------------------------------------
// Creating windows and panes.

pub open spec fn new_window_problem(item: ItemView) -> Option<Seq<char>> {
    match not_accepted(item, "tncdkPFIabSE"@, "unknown new-window option: "@) {
        Some(error) => Some(error),
        None => if item.flag == 'I' && text::unsigned_number(item.value, 4294967295) is None {
            Some("new-window index requires an integer"@)
        } else {
            None
        },
    }
}

fn wrong_for_new_window(item: &Item) -> (error: Option<String>)
    ensures
        wire::text_view(error) == new_window_problem(item@),
{
    match refuse_other(item, "tncdkPFIabSE", "unknown new-window option: ") {
        Some(error) => Some(error),
        None => if item.flag == 'I' && parse_u32(item.value.as_str()).is_none() {
            Some("new-window index requires an integer".to_owned())
        } else {
            None
        },
    }
}

/// The index that a new window is to have.
pub open spec fn index_in(items: Seq<ItemView>) -> Option<u32> {
    match items::value_of(items, "I"@) {
        Some(value) => match text::unsigned_number(value, 4294967295) {
            Some(number) => Some(number as u32),
            None => None,
        },
        None => None,
    }
}

pub open spec fn new_window_invocation(arguments: Seq<Seq<char>>) -> Expected {
    let scan = common_scan(arguments);
    let items = scan.items;
    match items::refusal(scan, |item: ItemView| new_window_problem(item)) {
        Some(error) => Err(error),
        None => match session::pane_command(scan.tail, options::is_seen(items, 'E')) {
            Ok((command, empty)) => Ok(
                InvocationView {
                    request: RequestOf::NewWindow {
                        target: items::value_of(items, "t"@),
                        name: items::value_of(items, "n"@),
                        detached: options::is_seen(items, 'd'),
                        empty,
                        index: index_in(items),
                        force: options::is_seen(items, 'k'),
                        format: session::print_format(items, "#{window_index}:#{window_name}"@),
                        after: options::is_seen(items, 'a'),
                        before: options::is_seen(items, 'b'),
                        select_existing: options::is_seen(items, 'S'),
                        command,
                        cwd: items::value_of(items, "c"@),
                    },
                    attach: !options::is_seen(items, 'd'),
                    source: None,
                },
            ),
            Err(error) => Err(error),
        },
    }
}

pub fn parse_new_window(arguments: &[String]) -> (result: Result<InvocationSpec, String>)
    ensures
        invocation::answers(result, new_window_invocation(text::texts(arguments@))),
{
    let scan = parse_common_tail(arguments);
    let problem = first_wrong(
        &scan.items,
        wrong_for_new_window,
        Ghost(|item: ItemView| new_window_problem(item)),
    );
    if let Some(error) = problem {
        return Err(error);
    }
    if let Some(error) = scan.error {
        return Err(error);
    }
    let items = scan.items;
    let detached = seen(&items, 'd');
    let index: Option<u32> = match last_value(&items, "I") {
        Some(value) => parse_u32(value.as_str()),
        None => None,
    };
    match command_for_pane(scan.tail, seen(&items, 'E')) {
        Ok((command, empty)) => Ok(
            InvocationSpec {
                request: RequestOf::NewWindow {
                    target: last_value(&items, "t"),
                    name: last_value(&items, "n"),
                    detached,
                    empty,
                    index,
                    force: seen(&items, 'k'),
                    format: format_to_print(&items, "#{window_index}:#{window_name}"),
                    after: seen(&items, 'a'),
                    before: seen(&items, 'b'),
                    select_existing: seen(&items, 'S'),
                    command,
                    cwd: last_value(&items, "c"),
                },
                attach: !detached,
                source: None,
            },
        ),
        Err(error) => Err(error),
    }
}

pub open spec fn split_window_problem(item: ItemView) -> Option<Seq<char>> {
    not_accepted(item, "tchvdbfZlE"@, "unknown split-window option: "@)
}

fn wrong_for_split_window(item: &Item) -> (error: Option<String>)
    ensures
        wire::text_view(error) == split_window_problem(item@),
{
    refuse_other(item, "tchvdbfZlE", "unknown split-window option: ")
}

pub open spec fn split_window_invocation(arguments: Seq<Seq<char>>) -> Expected {
    let scan = common_scan(arguments);
    let items = scan.items;
    match items::refusal(scan, |item: ItemView| split_window_problem(item)) {
        Some(error) => Err(error),
        None => match session::pane_command(scan.tail, options::is_seen(items, 'E')) {
            Ok((command, empty)) => invocation::plainly(
                RequestOf::SplitWindow {
                    target: items::value_of(items, "t"@),
                    horizontal: options::is_seen(items, 'h'),
                    before: options::is_seen(items, 'b'),
                    full: options::is_seen(items, 'f'),
                    detached: options::is_seen(items, 'd'),
                    empty,
                    zoom: options::is_seen(items, 'Z'),
                    size: items::value_of(items, "l"@),
                    command,
                    cwd: items::value_of(items, "c"@),
                },
            ),
            Err(error) => Err(error),
        },
    }
}

pub fn parse_split_window(arguments: &[String]) -> (result: Result<InvocationSpec, String>)
    ensures
        invocation::answers(result, split_window_invocation(text::texts(arguments@))),
{
    let scan = parse_common_tail(arguments);
    let problem = first_wrong(
        &scan.items,
        wrong_for_split_window,
        Ghost(|item: ItemView| split_window_problem(item)),
    );
    if let Some(error) = problem {
        return Err(error);
    }
    if let Some(error) = scan.error {
        return Err(error);
    }
    let items = scan.items;
    match command_for_pane(scan.tail, seen(&items, 'E')) {
        Ok((command, empty)) => Ok(
            InvocationSpec::plain(
                RequestOf::SplitWindow {
                    target: last_value(&items, "t"),
                    horizontal: seen(&items, 'h'),
                    before: seen(&items, 'b'),
                    full: seen(&items, 'f'),
                    detached: seen(&items, 'd'),
                    empty,
                    zoom: seen(&items, 'Z'),
                    size: last_value(&items, "l"),
                    command,
                    cwd: last_value(&items, "c"),
                },
            ),
        ),
        Err(error) => Err(error),
    }
}

pub open spec fn respawn_problem(item: ItemView) -> Option<Seq<char>> {
    not_accepted(item, "tckdE"@, "unknown respawn option: "@)
}

fn wrong_for_respawn(item: &Item) -> (error: Option<String>)
    ensures
        wire::text_view(error) == respawn_problem(item@),
{
    refuse_other(item, "tckdE", "unknown respawn option: ")
}

pub open spec fn respawn_invocation(arguments: Seq<Seq<char>>, window: bool) -> Expected {
    let scan = common_scan(arguments);
    let items = scan.items;
    let blank = scan.tail.len() == 1 && scan.tail[0].len() == 0;
    match items::refusal(scan, |item: ItemView| respawn_problem(item)) {
        Some(error) => Err(error),
        None => invocation::plainly(
            RequestOf::RespawnPane {
                target: items::value_of(items, "t"@),
                command: if blank {
                    seq![]
                } else {
                    scan.tail
                },
                cwd: items::value_of(items, "c"@),
                kill: options::is_seen(items, 'k'),
                empty: blank || options::is_seen(items, 'E'),
                window,
            },
        ),
    }
}

pub fn parse_respawn(arguments: &[String], window: bool) -> (result: Result<InvocationSpec, String>)
    ensures
        invocation::answers(result, respawn_invocation(text::texts(arguments@), window)),
{
    let scan = parse_common_tail(arguments);
    let problem = first_wrong(
        &scan.items,
        wrong_for_respawn,
        Ghost(|item: ItemView| respawn_problem(item)),
    );
    if let Some(error) = problem {
        return Err(error);
    }
    if let Some(error) = scan.error {
        return Err(error);
    }
    let items = scan.items;
    let blank = is_blank(&scan.tail);
    let command: Vec<String> = if blank {
        Vec::new()
    } else {
        scan.tail
    };
    assert(blank ==> text::texts(command@) =~= seq![]);
    Ok(
        InvocationSpec::plain(
            RequestOf::RespawnPane {
                target: last_value(&items, "t"),
                command,
                cwd: last_value(&items, "c"),
                kill: seen(&items, 'k'),
                empty: blank || seen(&items, 'E'),
                window,
            },
        ),
    )
}

// ---------------------------------------------------------------------------
// Other commands on windows.

pub open spec fn kill_window_invocation(arguments: Seq<Seq<char>>) -> Expected {
    let scan = options::scanned(
        arguments,
        options("af", "t", Operands::Each, "unknown kill-window option: "),
    );
    let items = scan.items;
    match scan.error {
        Some(error) => Err(error),
        None => if options::is_seen(items, 'f') && !options::is_seen(items, 'a') {
            Err("-f only valid with -a"@)
        } else {
            invocation::plainly(
                RequestOf::KillWindow {
                    target: items::value_of(items, "t "@),
                    all: options::is_seen(items, 'a'),
                },
            )
        },
    }
}

pub fn parse_kill_window(arguments: &[String]) -> (result: Result<InvocationSpec, String>)
    ensures
        invocation::answers(result, kill_window_invocation(text::texts(arguments@))),
{
    let scan = scan(
        arguments,
        &options("af", "t", Operands::Each, "unknown kill-window option: "),
    );
    if let Some(error) = scan.error {
        return Err(error);
    }
    let items = scan.items;
    let all = seen(&items, 'a');
    if seen(&items, 'f') && !all {
        return Err("-f only valid with -a".to_owned());
    }
    Ok(InvocationSpec::plain(RequestOf::KillWindow { target: last_value(&items, "t "), all }))
}

/// Whether `-l` stands behind `-n` or `-p`.
pub open spec fn conflicting_navigation(items: Seq<ItemView>) -> bool {
    exists|i: int, j: int|
        0 <= i < j < items.len() && ((#[trigger] items[i]).flag == 'n' || items[i].flag == 'p') && (
        #[trigger] items[j]).flag == 'l'
}

fn conflicts(items: &Vec<Item>) -> (found: bool)
    ensures
        found == conflicting_navigation(options::item_views(items@)),
{
    let ghost views = options::item_views(items@);
    let mut navigated = false;
    let ghost mut first: int = 0;
    let mut index: usize = 0;
    while index < items.len()
        invariant
            index <= items@.len(),
            views == options::item_views(items@),
            navigated ==> 0 <= first < index && (views[first].flag == 'n' || views[first].flag
                == 'p'),
            !navigated ==> forall|i: int|
                0 <= i < index ==> (#[trigger] views[i]).flag != 'n' && views[i].flag != 'p',
            forall|i: int, j: int|
                0 <= i < j < index && ((#[trigger] views[i]).flag == 'n' || views[i].flag == 'p')
                    ==> (#[trigger] views[j]).flag != 'l',
        decreases items@.len() - index,
    {
        assert(views[index as int].flag == items@[index as int].flag);
        if items[index].flag == 'l' && navigated {
            assert(views[first].flag == 'n' || views[first].flag == 'p');
            return true;
        }
        if items[index].flag == 'n' || items[index].flag == 'p' {
            navigated = true;
            proof {
                first = index as int;
            }
        }
        index += 1;
    }
    false
}

/// The target of a selection: `-l` stands for the last window.
pub open spec fn selected(items: Seq<ItemView>) -> Option<Seq<char>> {
    match items::last_of(items, "tl "@) {
        Some(item) => if item.flag == 'l' {
            Some("!"@)
        } else {
            Some(item.value)
        },
        None => None,
    }
}

pub open spec fn select_window_invocation(arguments: Seq<Seq<char>>) -> Expected {
    let scan = options::scanned(
        arguments,
        options("npl", "t", Operands::Each, "unknown select-window option: "),
    );
    let items = scan.items;
    if conflicting_navigation(items) {
        Err("select-window accepts only one navigation option"@)
    } else {
        match scan.error {
            Some(error) => Err(error),
            None => match items::flag_of(items, "np"@) {
                Some(flag) => if flag == 'n' {
                    invocation::plainly(RequestOf::NextWindow { target: selected(items) })
                } else {
                    invocation::plainly(RequestOf::PreviousWindow { target: selected(items) })
                },
                None => match selected(items) {
                    Some(target) => invocation::plainly(RequestOf::SelectWindow { target }),
                    None => Err("select-window requires a target"@),
                },
            },
        }
    }
}

pub fn parse_select_window(arguments: &[String]) -> (result: Result<InvocationSpec, String>)
    ensures
        invocation::answers(result, select_window_invocation(text::texts(arguments@))),
{
    let scan = scan(
        arguments,
        &options("npl", "t", Operands::Each, "unknown select-window option: "),
    );
    if conflicts(&scan.items) {
        return Err("select-window accepts only one navigation option".to_owned());
    }
    if let Some(error) = scan.error {
        return Err(error);
    }
    let items = scan.items;
    let target: Option<String> = match items::last(&items, "tl ") {
        Some(item) => if item.flag == 'l' {
            Some("!".to_owned())
        } else {
            Some(item.value.clone())
        },
        None => None,
    };
    match last_flag(&items, "np") {
        Some(flag) => if flag == 'n' {
            Ok(InvocationSpec::plain(RequestOf::NextWindow { target }))
        } else {
            Ok(InvocationSpec::plain(RequestOf::PreviousWindow { target }))
        },
        None => match target {
            Some(target) => Ok(InvocationSpec::plain(RequestOf::SelectWindow { target })),
            None => Err("select-window requires a target".to_owned()),
        },
    }
}

pub open spec fn rotate_window_invocation(arguments: Seq<Seq<char>>) -> Expected {
    let scan = options::scanned(
        arguments,
        options("UD", "t", Operands::Refused, "unknown rotate-window option: "),
    );
    let items = scan.items;
    match scan.error {
        Some(error) => Err(error),
        None => invocation::plainly(
            RequestOf::RotateWindow {
                target: items::value_of(items, "t"@),
                up: items::flag_of(items, "UD"@) == Some('U'),
            },
        ),
    }
}

pub fn parse_rotate_window(arguments: &[String]) -> (result: Result<InvocationSpec, String>)
    ensures
        invocation::answers(result, rotate_window_invocation(text::texts(arguments@))),
{
    let scan = scan(
        arguments,
        &options("UD", "t", Operands::Refused, "unknown rotate-window option: "),
    );
    if let Some(error) = scan.error {
        return Err(error);
    }
    let items = scan.items;
    Ok(
        InvocationSpec::plain(
            RequestOf::RotateWindow {
                target: last_value(&items, "t"),
                up: match last_flag(&items, "UD") {
                    Some(flag) => flag == 'U',
                    None => false,
                },
            },
        ),
    )
}

pub open spec fn swap_window_invocation(arguments: Seq<Seq<char>>) -> Expected {
    let scan = options::scanned(
        arguments,
        options("dr", "st", Operands::Refused, "unknown swap-window option: "),
    );
    let items = scan.items;
    match scan.error {
        Some(error) => Err(error),
        None => invocation::plainly(
            RequestOf::SwapWindow {
                source: items::value_of(items, "s"@),
                target: items::value_of(items, "t"@),
                detached: options::is_seen(items, 'd'),
            },
        ),
    }
}

pub fn parse_swap_window(arguments: &[String]) -> (result: Result<InvocationSpec, String>)
    ensures
        invocation::answers(result, swap_window_invocation(text::texts(arguments@))),
{
    let scan = scan(
        arguments,
        &options("dr", "st", Operands::Refused, "unknown swap-window option: "),
    );
    if let Some(error) = scan.error {
        return Err(error);
    }
    let items = scan.items;
    Ok(
        InvocationSpec::plain(
            RequestOf::SwapWindow {
                source: last_value(&items, "s"),
                target: last_value(&items, "t"),
                detached: seen(&items, 'd'),
            },
        ),
    )
}

pub open spec fn move_window_invocation(arguments: Seq<Seq<char>>) -> Expected {
    let scan = options::scanned(
        arguments,
        options("adkr", "st", Operands::Refused, "unknown move-window option: "),
    );
    let items = scan.items;
    match scan.error {
        Some(error) => Err(error),
        None => invocation::plainly(
            RequestOf::MoveWindow {
                source: items::value_of(items, "s"@),
                target: items::value_of(items, "t"@),
                after: options::is_seen(items, 'a'),
                detached: options::is_seen(items, 'd'),
                force: options::is_seen(items, 'k'),
                renumber: options::is_seen(items, 'r'),
            },
        ),
    }
}

pub fn parse_move_window(arguments: &[String]) -> (result: Result<InvocationSpec, String>)
    ensures
        invocation::answers(result, move_window_invocation(text::texts(arguments@))),
{
    let scan = scan(
        arguments,
        &options("adkr", "st", Operands::Refused, "unknown move-window option: "),
    );
    if let Some(error) = scan.error {
        return Err(error);
    }
    let items = scan.items;
    Ok(
        InvocationSpec::plain(
            RequestOf::MoveWindow {
                source: last_value(&items, "s"),
                target: last_value(&items, "t"),
                after: seen(&items, 'a'),
                detached: seen(&items, 'd'),
                force: seen(&items, 'k'),
                renumber: seen(&items, 'r'),
            },
        ),
    )
}

pub open spec fn link_window_invocation(arguments: Seq<Seq<char>>) -> Expected {
    let scan = options::scanned(
        arguments,
        options("dk", "st", Operands::Refused, "unknown link-window option: "),
    );
    let items = scan.items;
    match scan.error {
        Some(error) => Err(error),
        None => invocation::plainly(
            RequestOf::LinkWindow {
                source: items::value_of(items, "s"@),
                target: items::value_of(items, "t"@),
                detached: options::is_seen(items, 'd'),
                force: options::is_seen(items, 'k'),
            },
        ),
    }
}

pub fn parse_link_window(arguments: &[String]) -> (result: Result<InvocationSpec, String>)
    ensures
        invocation::answers(result, link_window_invocation(text::texts(arguments@))),
{
    let scan = scan(
        arguments,
        &options("dk", "st", Operands::Refused, "unknown link-window option: "),
    );
    if let Some(error) = scan.error {
        return Err(error);
    }
    let items = scan.items;
    Ok(
        InvocationSpec::plain(
            RequestOf::LinkWindow {
                source: last_value(&items, "s"),
                target: last_value(&items, "t"),
                detached: seen(&items, 'd'),
                force: seen(&items, 'k'),
            },
        ),
    )
}

pub open spec fn unlink_window_invocation(arguments: Seq<Seq<char>>) -> Expected {
    let scan = options::scanned(
        arguments,
        options("k", "t", Operands::Refused, "unknown unlink-window option: "),
    );
    let items = scan.items;
    match scan.error {
        Some(error) => Err(error),
        None => invocation::plainly(
            RequestOf::UnlinkWindow {
                target: items::value_of(items, "t"@),
                force: options::is_seen(items, 'k'),
            },
        ),
    }
}

pub fn parse_unlink_window(arguments: &[String]) -> (result: Result<InvocationSpec, String>)
    ensures
        invocation::answers(result, unlink_window_invocation(text::texts(arguments@))),
{
    let scan = scan(
        arguments,
        &options("k", "t", Operands::Refused, "unknown unlink-window option: "),
    );
    if let Some(error) = scan.error {
        return Err(error);
    }
    let items = scan.items;
    Ok(
        InvocationSpec::plain(
            RequestOf::UnlinkWindow {
                target: last_value(&items, "t"),
                force: seen(&items, 'k'),
            },
        ),
    )
}

pub open spec fn list_windows_invocation(arguments: Seq<Seq<char>>) -> Expected {
    let scan = options::scanned(
        arguments,
        options("", "tFf", Operands::Refused, "unknown list-windows option: "),
    );
    let items = scan.items;
    match scan.error {
        Some(error) => Err(error),
        None => invocation::plainly(
            RequestOf::ListWindows {
                target: items::value_of(items, "t"@),
                format: items::value_of(items, "F"@),
            },
        ),
    }
}

pub fn parse_list_windows(arguments: &[String]) -> (result: Result<InvocationSpec, String>)
    ensures
        invocation::answers(result, list_windows_invocation(text::texts(arguments@))),
{
    let scan = scan(
        arguments,
        &options("", "tFf", Operands::Refused, "unknown list-windows option: "),
    );
    if let Some(error) = scan.error {
        return Err(error);
    }
    let items = scan.items;
    Ok(
        InvocationSpec::plain(
            RequestOf::ListWindows {
                target: last_value(&items, "t"),
                format: last_value(&items, "F"),
            },
        ),
    )
}

} // verus!
