//! Commands on paste buffers.

use vstd::prelude::*;

use crate::command::invocation::{self, Expected, InvocationSpec, InvocationView, Source, SourceOf};
use crate::command::items::{self, last_value, operands_and_tail};
use crate::command::options::{self, options, scan, seen, Dashes, Grammar, Operands};
use crate::protocol::request::RequestOf;
use crate::text::{self, join, same_text};

verus! {

/// The bytes of a text.
pub fn bytes_of(text: &str) -> (bytes: Vec<u8>)
    ensures
        bytes@ == vstd::utf8::encode_utf8(text@),
{
    let source = text.as_bytes();
    let mut bytes: Vec<u8> = Vec::new();
    let mut index: usize = 0;
    while index < source.len()
        invariant
            index <= source@.len(),
            bytes@ =~= source@.take(index as int),
        decreases source@.len() - index,
    {
        bytes.push(source[index]);
        index += 1;
    }
    assert(source@.take(index as int) =~= source@);
    bytes
}

pub open spec fn set_buffer_invocation(arguments: Seq<Seq<char>>) -> Expected {
    let scan = options::scanned(
        arguments,
        Grammar {
            separator: true,
            separator_value: true,
            ..options("a", "bn", Operands::Each, "unknown set-buffer option: ")
        },
    );
    let items = scan.items;
    match scan.error {
        Some(error) => Err(error),
        None => invocation::plainly(
            RequestOf::SetBuffer {
                name: items::value_of(items, "b"@),
                append: options::is_seen(items, 'a'),
                data: vstd::utf8::encode_utf8(
                    text::joined(items::operands_of(items) + scan.tail, " "@),
                ),
                rename: items::value_of(items, "n"@),
            },
        ),
    }
}

pub fn parse_set_buffer(arguments: &[String]) -> (result: Result<InvocationSpec, String>)
    ensures
        invocation::answers(result, set_buffer_invocation(text::texts(arguments@))),
{
    let scan = scan(
        arguments,
        &Grammar {
            separator: true,
            separator_value: true,
            ..options("a", "bn", Operands::Each, "unknown set-buffer option: ")
        },
    );
    if scan.error.is_some() {
        return Err(scan.error.unwrap());
    }
    let operands = operands_and_tail(&scan);
    let data = join(&operands, " ");
    Ok(
        InvocationSpec::plain(
            RequestOf::SetBuffer {
                name: last_value(&scan.items, "b"),
                append: seen(&scan.items, 'a'),
                data: bytes_of(data.as_str()),
                rename: last_value(&scan.items, "n"),
            },
        ),
    )
}

pub open spec fn list_buffers_invocation(arguments: Seq<Seq<char>>) -> Expected {
    let scan = options::scanned(
        arguments,
        options("q", "Ff", Operands::Refused, "unknown list-buffers option: "),
    );
    let items = scan.items;
    match scan.error {
        Some(error) => Err(error),
        None => invocation::plainly(
            RequestOf::ListBuffers {
                format: items::value_of(items, "F"@),
                filter: items::value_of(items, "f"@),
            },
        ),
    }
}

pub fn parse_list_buffers(arguments: &[String]) -> (result: Result<InvocationSpec, String>)
    ensures
        invocation::answers(result, list_buffers_invocation(text::texts(arguments@))),
{
    let scan = scan(
        arguments,
        &options("q", "Ff", Operands::Refused, "unknown list-buffers option: "),
    );
    if let Some(error) = scan.error {
        return Err(error);
    }
    let items = scan.items;
    Ok(
        InvocationSpec::plain(
            RequestOf::ListBuffers {
                format: last_value(&items, "F"),
                filter: last_value(&items, "f"),
            },
        ),
    )
}

pub open spec fn delete_buffer_invocation(arguments: Seq<Seq<char>>) -> Expected {
    let scan = options::scanned(
        arguments,
        options("", "b", Operands::Refused, "unknown delete-buffer option: "),
    );
    let items = scan.items;
    match scan.error {
        Some(error) => Err(error),
        None => invocation::plainly(
            RequestOf::DeleteBuffer {
                name: items::value_of(items, "b"@),
            },
        ),
    }
}

pub fn parse_delete_buffer(arguments: &[String]) -> (result: Result<InvocationSpec, String>)
    ensures
        invocation::answers(result, delete_buffer_invocation(text::texts(arguments@))),
{
    let scan = scan(
        arguments,
        &options("", "b", Operands::Refused, "unknown delete-buffer option: "),
    );
    if let Some(error) = scan.error {
        return Err(error);
    }
    let items = scan.items;
    Ok(
        InvocationSpec::plain(
            RequestOf::DeleteBuffer {
                name: last_value(&items, "b"),
            },
        ),
    )
}

pub open spec fn paste_buffer_invocation(arguments: Seq<Seq<char>>) -> Expected {
    let scan = options::scanned(
        arguments,
        options("rpd", "tbs", Operands::Refused, "unknown paste-buffer option: "),
    );
    let items = scan.items;
    match scan.error {
        Some(error) => Err(error),
        None => invocation::plainly(
            RequestOf::PasteBuffer {
                target: items::value_of(items, "t"@),
                name: items::value_of(items, "b"@),
                raw: options::is_seen(items, 'r'),
                bracketed: options::is_seen(items, 'p'),
                separator: match items::value_of(items, "s"@) {
                    Some(separator) => Some(vstd::utf8::encode_utf8(separator)),
                    None => None,
                },
                delete: options::is_seen(items, 'd'),
            },
        ),
    }
}

pub fn parse_paste_buffer(arguments: &[String]) -> (result: Result<InvocationSpec, String>)
    ensures
        invocation::answers(result, paste_buffer_invocation(text::texts(arguments@))),
{
    let scan = scan(
        arguments,
        &options("rpd", "tbs", Operands::Refused, "unknown paste-buffer option: "),
    );
    if let Some(error) = scan.error {
        return Err(error);
    }
    let items = scan.items;
    Ok(
        InvocationSpec::plain(
            RequestOf::PasteBuffer {
                target: last_value(&items, "t"),
                name: last_value(&items, "b"),
                raw: seen(&items, 'r'),
                bracketed: seen(&items, 'p'),
                separator: match last_value(&items, "s") {
                    Some(separator) => Some(bytes_of(separator.as_str())),
                    None => None,
                },
                delete: seen(&items, 'd'),
            },
        ),
    )
}

/// A request to load a buffer lacks its data, which is read from the source that
/// is named: a dash stands for the standard input.
pub open spec fn load_buffer_invocation(arguments: Seq<Seq<char>>) -> Expected {
    let scan = options::scanned(
        arguments,
        Grammar {
            dashes: Dashes::Alone,
            ..options("", "b", Operands::Each, "unknown load-buffer option: ")
        },
    );
    let items = scan.items;
    match scan.error {
        Some(error) => Err(error),
        None => match items::value_of(items, " "@) {
            Some(path) => Ok(
                InvocationView {
                    request: RequestOf::LoadBuffer {
                        name: items::value_of(items, "b"@),
                        data: seq![],
                    },
                    attach: false,
                    source: Some(
                        if path == "-"@ {
                            SourceOf::StandardInput
                        } else {
                            SourceOf::File(path)
                        },
                    ),
                },
            ),
            None => Err("load-buffer requires a file"@),
        },
    }
}

pub fn parse_load_buffer(arguments: &[String]) -> (result: Result<InvocationSpec, String>)
    ensures
        invocation::answers(result, load_buffer_invocation(text::texts(arguments@))),
{
    let scan = scan(
        arguments,
        &Grammar {
            dashes: Dashes::Alone,
            ..options("", "b", Operands::Each, "unknown load-buffer option: ")
        },
    );
    if let Some(error) = scan.error {
        return Err(error);
    }
    let items = scan.items;
    match last_value(&items, " ") {
        Some(path) => {
            let data: Vec<u8> = Vec::new();
            assert(data@ =~= seq![]);
            let source: Source = if same_text(path.as_str(), "-") {
                SourceOf::StandardInput
            } else {
                SourceOf::File(path)
            };
            Ok(
                InvocationSpec {
                    request: RequestOf::LoadBuffer { name: last_value(&items, "b"), data },
                    attach: false,
                    source: Some(source),
                },
            )
        },
        None => Err("load-buffer requires a file".to_owned()),
    }
}

pub open spec fn save_buffer_invocation(arguments: Seq<Seq<char>>) -> Expected {
    let scan = options::scanned(arguments, Grammar {
        dashes: Dashes::Alone,
        ..options("a", "b", Operands::Each, "unknown save-buffer option: ")
    });
    let items = scan.items;
    match scan.error {
        Some(error) => Err(error),
        None => invocation::plainly(
            RequestOf::SaveBuffer {
                name: items::value_of(items, "b"@),
                path: items::value_of(items, " "@),
                append: options::is_seen(items, 'a'),
            },
        ),
    }
}

pub fn parse_save_buffer(arguments: &[String]) -> (result: Result<InvocationSpec, String>)
    ensures
        invocation::answers(result, save_buffer_invocation(text::texts(arguments@))),
{
    let scan = scan(arguments, &Grammar {
        dashes: Dashes::Alone,
        ..options("a", "b", Operands::Each, "unknown save-buffer option: ")
    });
    if let Some(error) = scan.error {
        return Err(error);
    }
    let items = scan.items;
    Ok(
        InvocationSpec::plain(
            RequestOf::SaveBuffer {
                name: last_value(&items, "b"),
                path: last_value(&items, " "),
                append: seen(&items, 'a'),
            },
        ),
    )
}

/// The buffer that arguments name, if any.
pub open spec fn buffer_name_in(arguments: Seq<Seq<char>>) -> Result<Option<Seq<char>>, Seq<char>> {
    let scan = options::scanned(
        arguments,
        Grammar {
            separator: true,
            ..options("", "b", Operands::Refused, "unknown show-buffer option: ")
        },
    );
    match scan.error {
        Some(error) => Err(error),
        None => Ok(items::value_of(scan.items, "b"@)),
    }
}

pub fn parse_buffer_name(arguments: &[String]) -> (result: Result<Option<String>, String>)
    ensures
        invocation::answers_text(result, buffer_name_in(text::texts(arguments@))),
{
    let scan = scan(
        arguments,
        &Grammar {
            separator: true,
            ..options("", "b", Operands::Refused, "unknown show-buffer option: ")
        },
    );
    match scan.error {
        Some(error) => Err(error),
        None => Ok(last_value(&scan.items, "b")),
    }
}

} // verus!
