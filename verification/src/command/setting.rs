//! Commands on options and the environment, and messages.

use vstd::prelude::*;

use crate::command::invocation::{self, Expected, InvocationSpec};
use crate::command::items::{self, last_flag, last_value, operand, operands_and_tail};
use crate::command::options::{self, options, scan, seen, Dashes, Grammar, Item, ItemView, Operands};
use crate::protocol::request::RequestOf;
use crate::protocol::wire::{self, OptionScope};
use crate::text;

verus! {

/// The first two of the operands of a command that sets something: what is set,
/// and its value, which may be missing where the command takes it away.
pub open spec fn key_and_value(
    operands: Seq<Seq<char>>,
    removes: bool,
    no_key: Seq<char>,
    no_value: Seq<char>,
) -> Result<(Seq<char>, Option<Seq<char>>), Seq<char>> {
    if operands.len() == 0 {
        Err(no_key)
    } else if operands.len() == 1 {
        if removes {
            Ok((operands[0], None))
        } else {
            Err(no_value)
        }
    } else {
        Ok((operands[0], Some(operands[1])))
    }
}

fn split_operands(
    operands: &Vec<String>,
    removes: bool,
    no_key: &str,
    no_value: &str,
) -> (result: Result<(String, Option<String>), String>)
    ensures
        match key_and_value(text::texts(operands@), removes, no_key@, no_value@) {
            Ok((key, value)) => {
                &&& result matches Ok(pair)
                &&& pair.0@ == key
                &&& wire::text_view(pair.1) == value
            },
            Err(error) => result matches Err(message) && message@ == error,
        },
{
    if operands.len() == 0 {
        Err(no_key.to_owned())
    } else if operands.len() == 1 {
        if removes {
            Ok((operands[0].clone(), None))
        } else {
            Err(no_value.to_owned())
        }
    } else {
        Ok((operands[0].clone(), Some(operands[1].clone())))
    }
}

/// A text that is empty where there is none.
pub open spec fn or_empty(value: Option<Seq<char>>) -> Seq<char> {
    match value {
        Some(text) => text,
        None => seq![],
    }
}

fn text_or_empty(value: Option<String>) -> (text: String)
    ensures
        text@ == or_empty(wire::text_view(value)),
{
    match value {
        Some(text) => text,
        None => String::new(),
    }
}

pub open spec fn set_window_option_invocation(arguments: Seq<Seq<char>>) -> Expected {
    let scan = options::scanned(
        arguments,
        Grammar {
            separator: true,
            separator_value: true,
            ..options("gwu", "t", Operands::Each, "unknown set-window-option option: ")
        },
    );
    let items = scan.items;
    let unset = options::is_seen(items, 'u');
    match scan.error {
        Some(error) => Err(error),
        None => match key_and_value(
            items::operands_of(items) + scan.tail,
            unset,
            "set-window-option requires an option"@,
            "set-window-option requires a value"@,
        ) {
            Ok((key, value)) => if options::is_seen(items, 'g') {
                invocation::plainly(
                    RequestOf::SetOption {
                        target: None,
                        scope: Some(OptionScope::Global),
                        key,
                        value: or_empty(value),
                        unset,
                    },
                )
            } else if unset {
                invocation::plainly(
                    RequestOf::SetOption {
                        target: items::value_of(items, "t"@),
                        scope: Some(OptionScope::Window),
                        key,
                        value: or_empty(value),
                        unset,
                    },
                )
            } else {
                invocation::plainly(
                    RequestOf::SetWindowOption {
                        target: items::value_of(items, "t"@),
                        key,
                        value: or_empty(value),
                    },
                )
            },
            Err(error) => Err(error),
        },
    }
}

pub fn parse_set_window_option(arguments: &[String]) -> (result: Result<InvocationSpec, String>)
    ensures
        invocation::answers(result, set_window_option_invocation(text::texts(arguments@))),
{
    let scan = scan(
        arguments,
        &Grammar {
            separator: true,
            separator_value: true,
            ..options("gwu", "t", Operands::Each, "unknown set-window-option option: ")
        },
    );
    if scan.error.is_some() {
        return Err(scan.error.unwrap());
    }
    let operands = operands_and_tail(&scan);
    let items = scan.items;
    let unset = seen(&items, 'u');
    let (key, value): (String, Option<String>) = match split_operands(
        &operands,
        unset,
        "set-window-option requires an option",
        "set-window-option requires a value",
    ) {
        Ok(pair) => pair,
        Err(error) => return Err(error),
    };
    let value = text_or_empty(value);
    if seen(&items, 'g') {
        return Ok(
            InvocationSpec::plain(
                RequestOf::SetOption {
                    target: None,
                    scope: Some(OptionScope::Global),
                    key,
                    value,
                    unset,
                },
            ),
        );
    }
    let target = last_value(&items, "t");
    if unset {
        return Ok(
            InvocationSpec::plain(
                RequestOf::SetOption {
                    target,
                    scope: Some(OptionScope::Window),
                    key,
                    value,
                    unset,
                },
            ),
        );
    }
    Ok(InvocationSpec::plain(RequestOf::SetWindowOption { target, key, value }))
}

/// The scope that the last of the options for it names.
pub open spec fn scope_in(items: Seq<ItemView>) -> Option<OptionScope> {
    match items::flag_of(items, "gswp"@) {
        Some(flag) => Some(
            if flag == 'g' {
                OptionScope::Global
            } else if flag == 's' {
                OptionScope::Session
            } else if flag == 'w' {
                OptionScope::Window
            } else {
                OptionScope::Pane
            },
        ),
        None => None,
    }
}

fn last_scope(items: &Vec<Item>) -> (scope: Option<OptionScope>)
    ensures
        scope == scope_in(options::item_views(items@)),
{
    match last_flag(items, "gswp") {
        Some('g') => Some(OptionScope::Global),
        Some('s') => Some(OptionScope::Session),
        Some('w') => Some(OptionScope::Window),
        Some(_) => Some(OptionScope::Pane),
        None => None,
    }
}

pub open spec fn set_option_invocation(arguments: Seq<Seq<char>>) -> Expected {
    let scan = options::scanned(
        arguments,
        Grammar {
            cluster: "gswpuq",
            cluster_head: "-",
            separator: true,
            separator_value: true,
            ..options("gswpuq", "t", Operands::Each, "unknown set-option option: ")
        },
    );
    let items = scan.items;
    let unset = options::is_seen(items, 'u');
    match scan.error {
        Some(error) => Err(error),
        None => match key_and_value(
            items::operands_of(items) + scan.tail,
            unset,
            "set-option requires an option"@,
            "set-option requires a value"@,
        ) {
            Ok((key, value)) => invocation::plainly(
                RequestOf::SetOption {
                    target: items::value_of(items, "t"@),
                    scope: scope_in(items),
                    key,
                    value: or_empty(value),
                    unset,
                },
            ),
            Err(error) => Err(error),
        },
    }
}

pub fn parse_set_option(arguments: &[String]) -> (result: Result<InvocationSpec, String>)
    ensures
        invocation::answers(result, set_option_invocation(text::texts(arguments@))),
{
    let scan = scan(
        arguments,
        &Grammar {
            cluster: "gswpuq",
            cluster_head: "-",
            separator: true,
            separator_value: true,
            ..options("gswpuq", "t", Operands::Each, "unknown set-option option: ")
        },
    );
    if scan.error.is_some() {
        return Err(scan.error.unwrap());
    }
    let operands = operands_and_tail(&scan);
    let items = scan.items;
    let unset = seen(&items, 'u');
    match split_operands(
        &operands,
        unset,
        "set-option requires an option",
        "set-option requires a value",
    ) {
        Ok((key, value)) => Ok(
            InvocationSpec::plain(
                RequestOf::SetOption {
                    target: last_value(&items, "t"),
                    scope: last_scope(&items),
                    key,
                    value: text_or_empty(value),
                    unset,
                },
            ),
        ),
        Err(error) => Err(error),
    }
}

pub open spec fn show_options_invocation(
    arguments: Seq<Seq<char>>,
    window_command: bool,
) -> Expected {
    let scan = options::scanned(arguments, Grammar {
        cluster: "gwpvAq",
        cluster_head: "-",
        separator: true,
        ..options("gwpsvAq", "t", Operands::Each, "unknown show-options option: ")
    });
    let items = scan.items;
    match scan.error {
        Some(error) => Err(error),
        None => invocation::plainly(
            RequestOf::ShowOptions {
                target: items::value_of(items, "t"@),
                global: options::is_seen(items, 'g'),
                window: window_command || options::is_seen(items, 'w'),
                pane: options::is_seen(items, 'p'),
                value: options::is_seen(items, 'v'),
                all: options::is_seen(items, 'A'),
                quiet: options::is_seen(items, 'q'),
                key: items::operand_of(scan),
            },
        ),
    }
}

pub fn parse_show_options(
    arguments: &[String],
    window_command: bool,
) -> (result: Result<InvocationSpec, String>)
    ensures
        invocation::answers(
            result,
            show_options_invocation(text::texts(arguments@), window_command),
        ),
{
    let scan = scan(arguments, &Grammar {
        cluster: "gwpvAq",
        cluster_head: "-",
        separator: true,
        ..options("gwpsvAq", "t", Operands::Each, "unknown show-options option: ")
    });
    if scan.error.is_some() {
        return Err(scan.error.unwrap());
    }
    let found = operand(&scan);
    let items = scan.items;
    Ok(
        InvocationSpec::plain(
            RequestOf::ShowOptions {
                target: last_value(&items, "t"),
                global: seen(&items, 'g'),
                window: window_command || seen(&items, 'w'),
                pane: seen(&items, 'p'),
                value: seen(&items, 'v'),
                all: seen(&items, 'A'),
                quiet: seen(&items, 'q'),
                key: found,
            },
        ),
    )
}

pub open spec fn set_environment_invocation(arguments: Seq<Seq<char>>) -> Expected {
    let scan = options::scanned(
        arguments,
        Grammar {
            separator: true,
            separator_value: true,
            ..options("gsru", "", Operands::Each, "unknown set-environment option: ")
        },
    );
    let items = scan.items;
    let remove = options::is_seen(items, 'r') || options::is_seen(items, 'u');
    match scan.error {
        Some(error) => Err(error),
        None => match key_and_value(
            items::operands_of(items) + scan.tail,
            remove,
            "set-environment requires a variable name"@,
            "set-environment requires a value"@,
        ) {
            Ok((name, value)) => invocation::plainly(
                RequestOf::SetEnvironment { name, value, remove },
            ),
            Err(error) => Err(error),
        },
    }
}

pub fn parse_set_environment(arguments: &[String]) -> (result: Result<InvocationSpec, String>)
    ensures
        invocation::answers(result, set_environment_invocation(text::texts(arguments@))),
{
    let scan = scan(
        arguments,
        &Grammar {
            separator: true,
            separator_value: true,
            ..options("gsru", "", Operands::Each, "unknown set-environment option: ")
        },
    );
    if scan.error.is_some() {
        return Err(scan.error.unwrap());
    }
    let operands = operands_and_tail(&scan);
    let remove = seen(&scan.items, 'r') || seen(&scan.items, 'u');
    match split_operands(
        &operands,
        remove,
        "set-environment requires a variable name",
        "set-environment requires a value",
    ) {
        Ok((name, value)) => Ok(
            InvocationSpec::plain(RequestOf::SetEnvironment { name, value, remove }),
        ),
        Err(error) => Err(error),
    }
}

pub open spec fn show_environment_invocation(arguments: Seq<Seq<char>>) -> Expected {
    let scan = options::scanned(arguments, Grammar {
        separator: true,
        ..options("gs", "Ft", Operands::Each, "unknown show-environment option: ")
    });
    let items = scan.items;
    match scan.error {
        Some(error) => Err(error),
        None => invocation::plainly(
            RequestOf::ShowEnvironment {
                format: items::value_of(items, "F"@),
                name: items::operand_of(scan),
            },
        ),
    }
}

pub fn parse_show_environment(arguments: &[String]) -> (result: Result<InvocationSpec, String>)
    ensures
        invocation::answers(result, show_environment_invocation(text::texts(arguments@))),
{
    let scan = scan(arguments, &Grammar {
        separator: true,
        ..options("gs", "Ft", Operands::Each, "unknown show-environment option: ")
    });
    if scan.error.is_some() {
        return Err(scan.error.unwrap());
    }
    let found = operand(&scan);
    let items = scan.items;
    Ok(
        InvocationSpec::plain(
            RequestOf::ShowEnvironment {
                format: last_value(&items, "F"),
                name: found,
            },
        ),
    )
}

pub open spec fn display_message_invocation(arguments: Seq<Seq<char>>) -> Expected {
    let scan = options::scanned(
        arguments,
        Grammar {
            separator: true,
            dashes: Dashes::Any,
            ..options("pv", "t", Operands::Each, "")
        },
    );
    match scan.error {
        Some(error) => Err(error),
        None => match items::operand_of(scan) {
            Some(format) => invocation::plainly(
                RequestOf::DisplayMessage { target: items::value_of(scan.items, "t"@), format },
            ),
            None => Err("display-message requires a format"@),
        },
    }
}

pub fn parse_display_message(arguments: &[String]) -> (result: Result<InvocationSpec, String>)
    ensures
        invocation::answers(result, display_message_invocation(text::texts(arguments@))),
{
    let scan = scan(
        arguments,
        &Grammar {
            separator: true,
            dashes: Dashes::Any,
            ..options("pv", "t", Operands::Each, "")
        },
    );
    if scan.error.is_some() {
        return Err(scan.error.unwrap());
    }
    match operand(&scan) {
        Some(format) => Ok(
            InvocationSpec::plain(
                RequestOf::DisplayMessage { target: last_value(&scan.items, "t"), format },
            ),
        ),
        None => Err("display-message requires a format".to_owned()),
    }
}

} // verus!
