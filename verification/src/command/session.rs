//! Commands on sessions, and those that name a target only.

use vstd::prelude::*;

use crate::command::invocation::{
    self, Expected, InvocationSpec, InvocationView,
};
use crate::command::items::{self, first, first_wrong, last_value, operands_and_tail};
use crate::command::options::{self, options, scan, seen, Grammar, Item, ItemView, Operands};
use crate::geometry::Size;
use crate::protocol::request::RequestOf;
use crate::protocol::wire;
use crate::text::{self, concat, parse_u16};

verus! {

// ---------------------------------------------------------------------------
// Dimensions.

/// A dimension in cells: a number from one up to what 16 bits hold.
pub open spec fn dimension(value: Seq<char>, flag: Seq<char>) -> Result<u16, Seq<char>> {
    match text::unsigned_number(value, 65535) {
        Some(number) => if number > 0 {
            Ok(number as u16)
        } else {
            Err(flag + " requires a positive integer"@)
        },
        None => Err(flag + " requires a positive integer"@),
    }
}

pub fn parse_dimension(value: &str, flag: &str) -> (result: Result<u16, String>)
    ensures
        match dimension(value@, flag@) {
            Ok(number) => result == Ok::<u16, String>(number),
            Err(error) => result matches Err(message) && message@ == error,
        },
{
    match parse_u16(value) {
        Some(number) => {
            if number == 0 {
                Err(concat(flag, " requires a positive integer"))
            } else {
                Ok(number)
            }
        },
        None => Err(concat(flag, " requires a positive integer")),
    }
}

/// What is wrong with an item that may be a dimension.
pub open spec fn dimension_problem(item: ItemView) -> Option<Seq<char>> {
    if item.flag == 'x' {
        match dimension(item.value, "-x"@) {
            Ok(_) => None,
            Err(error) => Some(error),
        }
    } else if item.flag == 'y' {
        match dimension(item.value, "-y"@) {
            Ok(_) => None,
            Err(error) => Some(error),
        }
    } else {
        None
    }
}

fn wrong_dimension(item: &Item) -> (error: Option<String>)
    ensures
        wire::text_view(error) == dimension_problem(item@),
{
    let result = if item.flag == 'x' {
        parse_dimension(item.value.as_str(), "-x")
    } else if item.flag == 'y' {
        parse_dimension(item.value.as_str(), "-y")
    } else {
        return None;
    };
    match result {
        Ok(_) => None,
        Err(error) => Some(error),
    }
}

/// The last dimension given by an option, or the default.
pub open spec fn dimension_or(items: Seq<ItemView>, flag: Seq<char>, default: u16) -> u16 {
    match items::value_of(items, flag) {
        Some(value) => match dimension(value, flag) {
            Ok(number) => number,
            Err(_) => default,
        },
        None => default,
    }
}

fn last_dimension(items: &Vec<Item>, flag: &str, default: u16) -> (number: u16)
    ensures
        number == dimension_or(options::item_views(items@), flag@, default),
{
    match last_value(items, flag) {
        Some(value) => match parse_dimension(value.as_str(), flag) {
            Ok(number) => number,
            Err(_) => default,
        },
        None => default,
    }
}

/// The size that a client starts out with: what its options say, over the usual
/// 80 columns and 24 rows.
pub open spec fn size_of(items: Seq<ItemView>) -> Size {
    Size { cols: dimension_or(items, "x"@, 80), rows: dimension_or(items, "y"@, 24) }
}

fn last_size(items: &Vec<Item>) -> (size: Size)
    ensures
        size == size_of(options::item_views(items@)),
{
    Size::new(last_dimension(items, "x", 80), last_dimension(items, "y", 24))
}

// ---------------------------------------------------------------------------
// The command that runs in a new pane.

/// What runs in a new pane, and whether the pane stays empty: a command that is
/// one empty text asks for an empty pane, and an empty pane runs no command.
pub open spec fn pane_command(command: Seq<Seq<char>>, empty: bool) -> Result<
    (Seq<Seq<char>>, bool),
    Seq<char>,
> {
    if command.len() == 1 && command[0].len() == 0 {
        Ok((seq![], true))
    } else if empty && command.len() > 0 {
        Err("command cannot be given for empty pane"@)
    } else {
        Ok((command, empty))
    }
}

/// Whether a command is one empty text.
pub fn is_blank(command: &Vec<String>) -> (blank: bool)
    ensures
        blank == (command@.len() == 1 && command@[0]@.len() == 0),
{
    command.len() == 1 && command[0].as_str().unicode_len() == 0
}

pub fn command_for_pane(command: Vec<String>, empty: bool) -> (result: Result<
    (Vec<String>, bool),
    String,
>)
    ensures
        match pane_command(text::texts(command@), empty) {
            Ok((list, flag)) => {
                &&& result matches Ok(pair)
                &&& text::texts(pair.0@) == list
                &&& pair.1 == flag
            },
            Err(error) => result matches Err(message) && message@ == error,
        },
{
    if is_blank(&command) {
        let none: Vec<String> = Vec::new();
        assert(text::texts(none@) =~= seq![]);
        Ok((none, true))
    } else if empty && command.len() > 0 {
        Err("command cannot be given for empty pane".to_owned())
    } else {
        Ok((command, empty))
    }
}

// ---------------------------------------------------------------------------
// New sessions.

/// Options that print what was created: the fixed format, or one of the
/// caller's own.
pub open spec fn print_format(items: Seq<ItemView>, fixed: Seq<char>) -> Option<Seq<char>> {
    match items::last_of(items, "PF"@) {
        Some(item) => if item.flag == 'P' {
            Some(fixed)
        } else {
            Some(item.value)
        },
        None => None,
    }
}

pub fn format_to_print(items: &Vec<Item>, fixed: &str) -> (format: Option<String>)
    ensures
        wire::text_view(format) == print_format(options::item_views(items@), fixed@),
{
    match items::last(items, "PF") {
        Some(item) => if item.flag == 'P' {
            Some(fixed.to_owned())
        } else {
            Some(item.value.clone())
        },
        None => None,
    }
}

/// What a command line without a command stands for.
pub open spec fn default_invocation(cwd: Option<Seq<char>>) -> InvocationView {
    InvocationView {
        request: RequestOf::NewSession {
            name: None,
            detached: false,
            attach_existing: false,
            group_target: None,
            format: None,
            window_name: None,
            empty: false,
            command: seq![],
            cwd,
            size: Size { cols: 80, rows: 24 },
        },
        attach: true,
        source: None,
    }
}

pub fn default_new_session(cwd: Option<String>) -> (invocation: InvocationSpec)
    ensures
        invocation@ == default_invocation(wire::text_view(cwd)),
{
    let command: Vec<String> = Vec::new();
    assert(text::texts(command@) =~= seq![]);
    InvocationSpec {
        request: RequestOf::NewSession {
            name: None,
            detached: false,
            attach_existing: false,
            group_target: None,
            format: None,
            window_name: None,
            empty: false,
            command,
            cwd,
            size: Size::new(80, 24),
        },
        attach: true,
        source: None,
    }
}

pub open spec fn new_session_scan(arguments: Seq<Seq<char>>) -> options::ScanView {
    options::scanned(
        arguments,
        Grammar {
            attached: "snxy",
            joined: true,
            separator: true,
            separator_value: true,
            ..options("dAPE", "tFsncxy", Operands::Rest, "unknown new-session option: ")
        },
    )
}

pub open spec fn new_session_invocation(
    arguments: Seq<Seq<char>>,
    cwd: Option<Seq<char>>,
) -> Expected {
    let scan = new_session_scan(arguments);
    let items = scan.items;
    match items::refusal(scan, |item: ItemView| dimension_problem(item)) {
        Some(error) => Err(error),
        None => match pane_command(scan.tail, options::is_seen(items, 'E')) {
            Ok((command, empty)) => Ok(
                InvocationView {
                    request: RequestOf::NewSession {
                        name: items::value_of(items, "s"@),
                        detached: options::is_seen(items, 'd'),
                        attach_existing: options::is_seen(items, 'A'),
                        group_target: items::value_of(items, "t"@),
                        format: print_format(items, "#{session_name}"@),
                        window_name: items::value_of(items, "n"@),
                        empty,
                        command,
                        cwd: match items::value_of(items, "c"@) {
                            Some(path) => Some(path),
                            None => cwd,
                        },
                        size: size_of(items),
                    },
                    attach: !options::is_seen(items, 'd'),
                    source: None,
                },
            ),
            Err(error) => Err(error),
        },
    }
}

pub fn parse_new_session(arguments: &[String], cwd: Option<String>) -> (result: Result<
    InvocationSpec,
    String,
>)
    ensures
        invocation::answers(
            result,
            new_session_invocation(text::texts(arguments@), wire::text_view(cwd)),
        ),
{
    let scan = scan(
        arguments,
        &Grammar {
            attached: "snxy",
            joined: true,
            separator: true,
            separator_value: true,
            ..options("dAPE", "tFsncxy", Operands::Rest, "unknown new-session option: ")
        },
    );
    let problem = first_wrong(
        &scan.items,
        wrong_dimension,
        Ghost(|item: ItemView| dimension_problem(item)),
    );
    if let Some(error) = problem {
        return Err(error);
    }
    if let Some(error) = scan.error {
        return Err(error);
    }
    let items = scan.items;
    let detached = seen(&items, 'd');
    match command_for_pane(scan.tail, seen(&items, 'E')) {
        Ok((command, empty)) => Ok(
            InvocationSpec {
                request: RequestOf::NewSession {
                    name: last_value(&items, "s"),
                    detached,
                    attach_existing: seen(&items, 'A'),
                    group_target: last_value(&items, "t"),
                    format: format_to_print(&items, "#{session_name}"),
                    window_name: last_value(&items, "n"),
                    empty,
                    command,
                    cwd: match last_value(&items, "c") {
                        Some(path) => Some(path),
                        None => cwd,
                    },
                    size: last_size(&items),
                },
                attach: !detached,
                source: None,
            },
        ),
        Err(error) => Err(error),
    }
}

// ---------------------------------------------------------------------------
// Other commands on sessions.

pub open spec fn attach_scan(arguments: Seq<Seq<char>>) -> options::ScanView {
    options::scanned(
        arguments,
        Grammar {
            attached: "xy",
            ..options("", "txy", Operands::Each, "unknown attach option: ")
        },
    )
}

pub open spec fn attach_invocation(arguments: Seq<Seq<char>>) -> Expected {
    let scan = attach_scan(arguments);
    match items::refusal(scan, |item: ItemView| dimension_problem(item)) {
        Some(error) => Err(error),
        None => Ok(
            InvocationView {
                request: RequestOf::Attach {
                    target: items::value_of(scan.items, "t "@),
                    size: size_of(scan.items),
                },
                attach: true,
                source: None,
            },
        ),
    }
}

pub fn parse_attach(arguments: &[String]) -> (result: Result<InvocationSpec, String>)
    ensures
        invocation::answers(result, attach_invocation(text::texts(arguments@))),
{
    let scan = scan(
        arguments,
        &Grammar {
            attached: "xy",
            ..options("", "txy", Operands::Each, "unknown attach option: ")
        },
    );
    let problem = first_wrong(
        &scan.items,
        wrong_dimension,
        Ghost(|item: ItemView| dimension_problem(item)),
    );
    if let Some(error) = problem {
        return Err(error);
    }
    if let Some(error) = scan.error {
        return Err(error);
    }
    Ok(
        InvocationSpec {
            request: RequestOf::Attach {
                target: last_value(&scan.items, "t "),
                size: last_size(&scan.items),
            },
            attach: true,
            source: None,
        },
    )
}

pub open spec fn kill_session_invocation(arguments: Seq<Seq<char>>) -> Expected {
    let scan = options::scanned(
        arguments,
        options("aCf", "t", Operands::Each, "unknown kill-session option: "),
    );
    let items = scan.items;
    match scan.error {
        Some(error) => Err(error),
        None => if options::is_seen(items, 'f') && !options::is_seen(items, 'a') {
            Err("-f only valid with -a"@)
        } else {
            invocation::plainly(
                RequestOf::KillSession {
                    target: items::value_of(items, "t "@),
                    all: options::is_seen(items, 'a'),
                },
            )
        },
    }
}

pub fn parse_kill_session(arguments: &[String]) -> (result: Result<InvocationSpec, String>)
    ensures
        invocation::answers(result, kill_session_invocation(text::texts(arguments@))),
{
    let scan = scan(
        arguments,
        &options("aCf", "t", Operands::Each, "unknown kill-session option: "),
    );
    if let Some(error) = scan.error {
        return Err(error);
    }
    let items = scan.items;
    let all = seen(&items, 'a');
    if seen(&items, 'f') && !all {
        return Err("-f only valid with -a".to_owned());
    }
    Ok(InvocationSpec::plain(RequestOf::KillSession { target: last_value(&items, "t "), all }))
}

pub open spec fn list_sessions_invocation(arguments: Seq<Seq<char>>) -> Expected {
    let scan = options::scanned(
        arguments,
        options("a", "Ff", Operands::Refused, "unknown list-sessions option: "),
    );
    let items = scan.items;
    match scan.error {
        Some(error) => Err(error),
        None => invocation::plainly(
            RequestOf::ListSessions {
                format: items::value_of(items, "F"@),
            },
        ),
    }
}

pub fn parse_list_sessions(arguments: &[String]) -> (result: Result<InvocationSpec, String>)
    ensures
        invocation::answers(result, list_sessions_invocation(text::texts(arguments@))),
{
    let scan = scan(
        arguments,
        &options("a", "Ff", Operands::Refused, "unknown list-sessions option: "),
    );
    if let Some(error) = scan.error {
        return Err(error);
    }
    let items = scan.items;
    Ok(
        InvocationSpec::plain(
            RequestOf::ListSessions {
                format: last_value(&items, "F"),
            },
        ),
    )
}

// ---------------------------------------------------------------------------
// Targets.

/// The target that arguments name, if any: the last operand or value of `-t`
/// before a separator.
pub open spec fn target_in(arguments: Seq<Seq<char>>) -> Result<Option<Seq<char>>, Seq<char>> {
    let scan = options::scanned(
        arguments,
        Grammar {
            separator: true,
            ..options("", "t", Operands::Each, "unknown target option: ")
        },
    );
    match scan.error {
        Some(error) => Err(error),
        None => Ok(items::value_of(scan.items, "t "@)),
    }
}

pub fn optional_target(arguments: &[String]) -> (result: Result<Option<String>, String>)
    ensures
        invocation::answers_text(result, target_in(text::texts(arguments@))),
{
    let scan = scan(
        arguments,
        &Grammar {
            separator: true,
            ..options("", "t", Operands::Each, "unknown target option: ")
        },
    );
    match scan.error {
        Some(error) => Err(error),
        None => Ok(last_value(&scan.items, "t ")),
    }
}

pub open spec fn target_required_in(arguments: Seq<Seq<char>>) -> Result<Seq<char>, Seq<char>> {
    match target_in(arguments) {
        Ok(Some(target)) => Ok(target),
        Ok(None) => Err("-t target is required"@),
        Err(error) => Err(error),
    }
}

pub fn required_target(arguments: &[String]) -> (result: Result<String, String>)
    ensures
        match target_required_in(text::texts(arguments@)) {
            Ok(target) => result matches Ok(value) && value@ == target,
            Err(error) => result matches Err(message) && message@ == error,
        },
{
    match optional_target(arguments) {
        Ok(Some(target)) => Ok(target),
        Ok(None) => Err("-t target is required".to_owned()),
        Err(error) => Err(error),
    }
}

/// The target that arguments name, if any, and the first of the operands, which
/// is a new name.
pub open spec fn target_and_name_in(arguments: Seq<Seq<char>>) -> Result<
    (Option<Seq<char>>, Seq<char>),
    Seq<char>,
> {
    let scan = options::scanned(
        arguments,
        Grammar { separator: true, ..options("", "t", Operands::Each, "unknown option: ") },
    );
    match scan.error {
        Some(error) => Err(error),
        None => match items::first_of(items::operands_of(scan.items) + scan.tail) {
            Some(name) => Ok((items::value_of(scan.items, "t"@), name)),
            None => Err("a name is required"@),
        },
    }
}

pub fn target_and_name(arguments: &[String]) -> (result: Result<(Option<String>, String), String>)
    ensures
        match target_and_name_in(text::texts(arguments@)) {
            Ok((target, name)) => {
                &&& result matches Ok(pair)
                &&& wire::text_view(pair.0) == target
                &&& pair.1@ == name
            },
            Err(error) => result matches Err(message) && message@ == error,
        },
{
    let scan = scan(
        arguments,
        &Grammar { separator: true, ..options("", "t", Operands::Each, "unknown option: ") },
    );
    if scan.error.is_some() {
        return Err(scan.error.unwrap());
    }
    let operands = operands_and_tail(&scan);
    match first(&operands) {
        Some(name) => Ok((last_value(&scan.items, "t"), name)),
        None => Err("a name is required".to_owned()),
    }
}

} // verus!
