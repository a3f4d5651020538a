//! Commands on clients, and shell commands.

use vstd::prelude::*;

use crate::command::invocation::{self, Expected, InvocationSpec};
use crate::command::items::{self, first, last_value};
use crate::command::options::{self, options, scan, seen, Grammar, Operands};
use crate::protocol::request::RequestOf;
use crate::text::{self, join};

verus! {

pub open spec fn list_clients_invocation(arguments: Seq<Seq<char>>) -> Expected {
    let scan = options::scanned(
        arguments,
        options("", "Ff", Operands::Refused, "unknown list-clients option: "),
    );
    let items = scan.items;
    match scan.error {
        Some(error) => Err(error),
        None => invocation::plainly(
            RequestOf::ListClients {
                format: items::value_of(items, "F"@),
            },
        ),
    }
}

pub fn parse_list_clients(arguments: &[String]) -> (result: Result<InvocationSpec, String>)
    ensures
        invocation::answers(result, list_clients_invocation(text::texts(arguments@))),
{
    let scan = scan(
        arguments,
        &options("", "Ff", Operands::Refused, "unknown list-clients option: "),
    );
    if let Some(error) = scan.error {
        return Err(error);
    }
    let items = scan.items;
    Ok(
        InvocationSpec::plain(
            RequestOf::ListClients {
                format: last_value(&items, "F"),
            },
        ),
    )
}

pub open spec fn detach_client_invocation(arguments: Seq<Seq<char>>) -> Expected {
    let scan = options::scanned(
        arguments,
        options("a", "t", Operands::Each, "unknown detach-client option: "),
    );
    let items = scan.items;
    match scan.error {
        Some(error) => Err(error),
        None => invocation::plainly(
            RequestOf::DetachClient {
                target: items::value_of(items, "t "@),
                all: options::is_seen(items, 'a'),
            },
        ),
    }
}

pub fn parse_detach_client(arguments: &[String]) -> (result: Result<InvocationSpec, String>)
    ensures
        invocation::answers(result, detach_client_invocation(text::texts(arguments@))),
{
    let scan = scan(
        arguments,
        &options("a", "t", Operands::Each, "unknown detach-client option: "),
    );
    if let Some(error) = scan.error {
        return Err(error);
    }
    let items = scan.items;
    Ok(
        InvocationSpec::plain(
            RequestOf::DetachClient {
                target: last_value(&items, "t "),
                all: seen(&items, 'a'),
            },
        ),
    )
}

pub open spec fn refresh_client_invocation(arguments: Seq<Seq<char>>) -> Expected {
    let scan = options::scanned(
        arguments,
        options("Slr", "t", Operands::Each, "unknown refresh-client option: "),
    );
    let items = scan.items;
    match scan.error {
        Some(error) => Err(error),
        None => invocation::plainly(
            RequestOf::RefreshClient {
                target: items::value_of(items, "t "@),
            },
        ),
    }
}

pub fn parse_refresh_client(arguments: &[String]) -> (result: Result<InvocationSpec, String>)
    ensures
        invocation::answers(result, refresh_client_invocation(text::texts(arguments@))),
{
    let scan = scan(
        arguments,
        &options("Slr", "t", Operands::Each, "unknown refresh-client option: "),
    );
    if let Some(error) = scan.error {
        return Err(error);
    }
    let items = scan.items;
    Ok(
        InvocationSpec::plain(
            RequestOf::RefreshClient {
                target: last_value(&items, "t "),
            },
        ),
    )
}

/// The session to switch to: the last that an option or operand names, or else
/// what stands behind a separator.
pub open spec fn session_in(scan: options::ScanView) -> Option<Seq<char>> {
    match items::value_of(scan.items, "t "@) {
        Some(session) => Some(session),
        None => items::first_of(scan.tail),
    }
}

pub open spec fn switch_client_invocation(arguments: Seq<Seq<char>>) -> Expected {
    let scan = options::scanned(
        arguments,
        Grammar {
            separator: true,
            ..options("", "ct", Operands::Each, "unknown switch-client option: ")
        },
    );
    match scan.error {
        Some(error) => Err(error),
        None => match session_in(scan) {
            Some(session) => invocation::plainly(
                RequestOf::SwitchClient { client: items::value_of(scan.items, "c"@), session },
            ),
            None => Err("switch-client requires a target session"@),
        },
    }
}

pub fn parse_switch_client(arguments: &[String]) -> (result: Result<InvocationSpec, String>)
    ensures
        invocation::answers(result, switch_client_invocation(text::texts(arguments@))),
{
    let scan = scan(
        arguments,
        &Grammar {
            separator: true,
            ..options("", "ct", Operands::Each, "unknown switch-client option: ")
        },
    );
    if let Some(error) = scan.error {
        return Err(error);
    }
    let session = match last_value(&scan.items, "t ") {
        Some(session) => Some(session),
        None => first(&scan.tail),
    };
    match session {
        Some(session) => Ok(
            InvocationSpec::plain(
                RequestOf::SwitchClient { client: last_value(&scan.items, "c"), session },
            ),
        ),
        None => Err("switch-client requires a target session".to_owned()),
    }
}

pub open spec fn run_shell_invocation(arguments: Seq<Seq<char>>) -> Expected {
    let scan = options::scanned(
        arguments,
        Grammar {
            separator: true,
            ..options("b", "td", Operands::Rest, "unknown run-shell option: ")
        },
    );
    match scan.error {
        Some(error) => Err(error),
        None => if scan.tail.len() == 0 {
            Err("run-shell requires a command"@)
        } else {
            invocation::plainly(
                RequestOf::RunShell {
                    command: text::joined(scan.tail, " "@),
                    background: options::is_seen(scan.items, 'b'),
                    target: items::value_of(scan.items, "t"@),
                },
            )
        },
    }
}

pub fn parse_run_shell(arguments: &[String]) -> (result: Result<InvocationSpec, String>)
    ensures
        invocation::answers(result, run_shell_invocation(text::texts(arguments@))),
{
    let scan = scan(
        arguments,
        &Grammar {
            separator: true,
            ..options("b", "td", Operands::Rest, "unknown run-shell option: ")
        },
    );
    if let Some(error) = scan.error {
        return Err(error);
    }
    if scan.tail.len() == 0 {
        return Err("run-shell requires a command".to_owned());
    }
    Ok(
        InvocationSpec::plain(
            RequestOf::RunShell {
                command: join(&scan.tail, " "),
                background: seen(&scan.items, 'b'),
                target: last_value(&scan.items, "t"),
            },
        ),
    )
}

} // verus!
