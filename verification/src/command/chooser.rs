//! Commands that open a list to choose from.

use vstd::prelude::*;

use crate::command::invocation::{self, Expected, InvocationSpec};
use crate::command::items::{self, last_value};
use crate::command::options::{self, options, scan, seen, Operands};
use crate::protocol::request::RequestOf;
use crate::protocol::wire;
use crate::text;

verus! {

pub open spec fn choose_tree_invocation(arguments: Seq<Seq<char>>) -> Expected {
    let scan = options::scanned(
        arguments,
        options("rhkNZG", "tfFO", Operands::Refused, "unknown choose-tree option: "),
    );
    let items = scan.items;
    match scan.error {
        Some(error) => Err(error),
        None => invocation::plainly(
            RequestOf::ChooseTree {
                target: items::value_of(items, "t"@),
                filter: items::value_of(items, "f"@),
                format: items::value_of(items, "F"@),
                sort: match items::value_of(items, "O"@) {
                    Some(order) => order,
                    None => "index"@,
                },
                reverse: options::is_seen(items, 'r'),
                hide_source: options::is_seen(items, 'h'),
                kill_on_exit: options::is_seen(items, 'k'),
            },
        ),
    }
}

pub fn parse_choose_tree(arguments: &[String]) -> (result: Result<InvocationSpec, String>)
    ensures
        invocation::answers(result, choose_tree_invocation(text::texts(arguments@))),
{
    let scan = scan(
        arguments,
        &options("rhkNZG", "tfFO", Operands::Refused, "unknown choose-tree option: "),
    );
    if let Some(error) = scan.error {
        return Err(error);
    }
    let items = scan.items;
    Ok(
        InvocationSpec::plain(
            RequestOf::ChooseTree {
                target: last_value(&items, "t"),
                filter: last_value(&items, "f"),
                format: last_value(&items, "F"),
                sort: match last_value(&items, "O") {
                    Some(order) => order,
                    None => "index".to_owned(),
                },
                reverse: seen(&items, 'r'),
                hide_source: seen(&items, 'h'),
                kill_on_exit: seen(&items, 'k'),
            },
        ),
    )
}

pub open spec fn choose_client_invocation(arguments: Seq<Seq<char>>) -> Expected {
    let scan = options::scanned(
        arguments,
        options("kNZG", "tfF", Operands::Refused, "unknown choose-client option: "),
    );
    let items = scan.items;
    match scan.error {
        Some(error) => Err(error),
        None => invocation::plainly(
            RequestOf::ChooseClient {
                target: items::value_of(items, "t"@),
                filter: items::value_of(items, "f"@),
                format: items::value_of(items, "F"@),
                kill_on_exit: options::is_seen(items, 'k'),
            },
        ),
    }
}

pub fn parse_choose_client(arguments: &[String]) -> (result: Result<InvocationSpec, String>)
    ensures
        invocation::answers(result, choose_client_invocation(text::texts(arguments@))),
{
    let scan = scan(
        arguments,
        &options("kNZG", "tfF", Operands::Refused, "unknown choose-client option: "),
    );
    if let Some(error) = scan.error {
        return Err(error);
    }
    let items = scan.items;
    Ok(
        InvocationSpec::plain(
            RequestOf::ChooseClient {
                target: last_value(&items, "t"),
                filter: last_value(&items, "f"),
                format: last_value(&items, "F"),
                kill_on_exit: seen(&items, 'k'),
            },
        ),
    )
}

/// What the options of a list say. Where the list cannot be sorted, the options
/// that sort it are unknown.
pub struct ListOptionsOf<S> {
    pub target: Option<S>,
    pub filter: Option<S>,
    pub format: Option<S>,
    pub sort: S,
    pub reverse: bool,
    pub kill_on_exit: bool,
}

pub open spec fn list_options_in(arguments: Seq<Seq<char>>, allow_sort: bool) -> Result<
    ListOptionsOf<Seq<char>>,
    Seq<char>,
> {
    let scan = options::scanned(
        arguments,
        if allow_sort {
            options("rkNZG", "tfFO", Operands::Refused, "unknown choose-buffer option: ")
        } else {
            options("kNZG", "tfF", Operands::Refused, "unknown choose-buffer option: ")
        },
    );
    let items = scan.items;
    match scan.error {
        Some(error) => Err(error),
        None => Ok(
            ListOptionsOf {
                target: items::value_of(items, "t"@),
                filter: items::value_of(items, "f"@),
                format: items::value_of(items, "F"@),
                sort: match items::value_of(items, "O"@) {
                    Some(order) => order,
                    None => "index"@,
                },
                reverse: options::is_seen(items, 'r'),
                kill_on_exit: options::is_seen(items, 'k'),
            },
        ),
    }
}

pub fn parse_choose_list_options(arguments: &[String], allow_sort: bool) -> (result: Result<
    ListOptionsOf<String>,
    String,
>)
    ensures
        match list_options_in(text::texts(arguments@), allow_sort) {
            Ok(expected) => {
                &&& result matches Ok(found)
                &&& wire::text_view(found.target) == expected.target
                &&& wire::text_view(found.filter) == expected.filter
                &&& wire::text_view(found.format) == expected.format
                &&& found.sort@ == expected.sort
                &&& found.reverse == expected.reverse
                &&& found.kill_on_exit == expected.kill_on_exit
            },
            Err(error) => result matches Err(message) && message@ == error,
        },
{
    let grammar = if allow_sort {
        options("rkNZG", "tfFO", Operands::Refused, "unknown choose-buffer option: ")
    } else {
        options("kNZG", "tfF", Operands::Refused, "unknown choose-buffer option: ")
    };
    let scan = scan(arguments, &grammar);
    if let Some(error) = scan.error {
        return Err(error);
    }
    let items = scan.items;
    Ok(
        ListOptionsOf {
            target: last_value(&items, "t"),
            filter: last_value(&items, "f"),
            format: last_value(&items, "F"),
            sort: match last_value(&items, "O") {
                Some(order) => order,
                None => "index".to_owned(),
            },
            reverse: seen(&items, 'r'),
            kill_on_exit: seen(&items, 'k'),
        },
    )
}

pub open spec fn choose_buffer_invocation(arguments: Seq<Seq<char>>) -> Expected {
    match list_options_in(arguments, true) {
        Ok(list) => invocation::plainly(
            RequestOf::ChooseBuffer {
                target: list.target,
                filter: list.filter,
                format: list.format,
                sort: list.sort,
                reverse: list.reverse,
                kill_on_exit: list.kill_on_exit,
            },
        ),
        Err(error) => Err(error),
    }
}

pub fn parse_choose_buffer(arguments: &[String]) -> (result: Result<InvocationSpec, String>)
    ensures
        invocation::answers(result, choose_buffer_invocation(text::texts(arguments@))),
{
    match parse_choose_list_options(arguments, true) {
        Ok(list) => Ok(
            InvocationSpec::plain(
                RequestOf::ChooseBuffer {
                    target: list.target,
                    filter: list.filter,
                    format: list.format,
                    sort: list.sort,
                    reverse: list.reverse,
                    kill_on_exit: list.kill_on_exit,
                },
            ),
        ),
        Err(error) => Err(error),
    }
}

} // verus!
