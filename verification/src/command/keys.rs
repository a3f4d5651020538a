//! Keys: their names, the bytes that they send, and the command that sends them.

use vstd::prelude::*;
use vstd::utf8::*;

use crate::command::buffer::bytes_of;
use crate::command::invocation::{self, Expected, InvocationSpec};
use crate::command::items::{self, first_wrong, last_value, operands_and_tail};
use crate::command::options::{
    self, options, scan, seen, Dashes, Grammar, Item, ItemView, Operands,
};
use crate::protocol::request::RequestOf;
use crate::protocol::wire;
use crate::text::{self, join, parse_u32, same_text};

verus! {

/// The bytes of a key that has a name of its own.
pub open spec fn named_key(key: Seq<char>) -> Option<Seq<u8>> {
    if key == "Enter"@ || key == "C-m"@ || key == "C-M"@ {
        Some(seq![13u8])
    } else if key == "Tab"@ {
        Some(seq![9u8])
    } else if key == "BTab"@ {
        Some(seq![27u8, 91, 90])
    } else if key == "Backspace"@ || key == "BS"@ {
        Some(seq![127u8])
    } else if key == "Escape"@ || key == "Esc"@ {
        Some(seq![27u8])
    } else if key == "Space"@ {
        Some(seq![32u8])
    } else if key == "C-Space"@ {
        Some(seq![0u8])
    } else if key == "Up"@ {
        Some(seq![27u8, 91, 65])
    } else if key == "Down"@ {
        Some(seq![27u8, 91, 66])
    } else if key == "Right"@ {
        Some(seq![27u8, 91, 67])
    } else if key == "Left"@ {
        Some(seq![27u8, 91, 68])
    } else if key == "Home"@ {
        Some(seq![27u8, 91, 72])
    } else if key == "End"@ {
        Some(seq![27u8, 91, 70])
    } else if key == "Delete"@ {
        Some(seq![27u8, 91, 51, 126])
    } else {
        None
    }
}

fn bytes_of_named_key(key: &str) -> (bytes: Option<Vec<u8>>)
    ensures
        wire::bytes_view(bytes) == named_key(key@),
{
    if same_text(key, "Enter") || same_text(key, "C-m") || same_text(key, "C-M") {
        let bytes: Vec<u8> = vec![13];
        assert(bytes@ =~= seq![13u8]);
        Some(bytes)
    } else if same_text(key, "Tab") {
        let bytes: Vec<u8> = vec![9];
        assert(bytes@ =~= seq![9u8]);
        Some(bytes)
    } else if same_text(key, "BTab") {
        Some(vec![27, 91, 90])
    } else if same_text(key, "Backspace") || same_text(key, "BS") {
        let bytes: Vec<u8> = vec![127];
        assert(bytes@ =~= seq![127u8]);
        Some(bytes)
    } else if same_text(key, "Escape") || same_text(key, "Esc") {
        let bytes: Vec<u8> = vec![27];
        assert(bytes@ =~= seq![27u8]);
        Some(bytes)
    } else if same_text(key, "Space") {
        let bytes: Vec<u8> = vec![32];
        assert(bytes@ =~= seq![32u8]);
        Some(bytes)
    } else if same_text(key, "C-Space") {
        let bytes: Vec<u8> = vec![0];
        assert(bytes@ =~= seq![0u8]);
        Some(bytes)
    } else if same_text(key, "Up") {
        Some(vec![27, 91, 65])
    } else if same_text(key, "Down") {
        Some(vec![27, 91, 66])
    } else if same_text(key, "Right") {
        Some(vec![27, 91, 67])
    } else if same_text(key, "Left") {
        Some(vec![27, 91, 68])
    } else if same_text(key, "Home") {
        Some(vec![27, 91, 72])
    } else if same_text(key, "End") {
        Some(vec![27, 91, 70])
    } else if same_text(key, "Delete") {
        Some(vec![27, 91, 51, 126])
    } else {
        None
    }
}

/// Whether bytes begin with a letter, in either case, and a dash.
pub open spec fn has_modifier(bytes: Seq<u8>, upper: u8, lower: u8) -> bool {
    bytes.len() >= 2 && (bytes[0] == upper || bytes[0] == lower) && bytes[1] == 45
}

/// Whether a key can be told from its bytes: one without a name of its own has a
/// character boundary behind its second byte, and a modifier is not all there is
/// of it.
pub open spec fn is_key(key: Seq<char>) -> bool {
    let bytes = encode_utf8(key);
    ||| named_key(key) is Some
    ||| bytes.len() < 2
    ||| {
        &&& bytes.len() == 2 || !is_continuation_byte(bytes[2])
        &&& bytes.len() > 2 || !(has_modifier(bytes, 67, 99) || has_modifier(bytes, 77, 109))
    }
}

/// The byte with a letter in lower case.
pub open spec fn lowered(byte: u8) -> u8 {
    if 65 <= byte <= 90 {
        (byte + 32) as u8
    } else {
        byte
    }
}

/// The bytes that a key sends.
pub open spec fn sent_by(key: Seq<char>) -> Seq<u8> {
    let bytes = encode_utf8(key);
    match named_key(key) {
        Some(sent) => sent,
        None => if has_modifier(bytes, 67, 99) {
            let byte = lowered(bytes[2]);
            seq![
                if byte == 64 {
                    0u8
                } else {
                    byte & 0x1f
                },
            ]
        } else if has_modifier(bytes, 77, 109) {
            seq![27u8, bytes[2]]
        } else {
            bytes
        },
    }
}

pub fn key_bytes(key: &str) -> (sent: Vec<u8>)
    requires
        is_key(key@),
    ensures
        sent@ == sent_by(key@),
{
    match bytes_of_named_key(key) {
        Some(sent) => return sent,
        None => {},
    }
    let bytes = bytes_of(key);
    if bytes.len() >= 2 && bytes[1] == 45 {
        if bytes[0] == 67 || bytes[0] == 99 {
            let byte: u8 = if 65 <= bytes[2] && bytes[2] <= 90 {
                bytes[2] + 32
            } else {
                bytes[2]
            };
            let mut sent: Vec<u8> = Vec::new();
            sent.push(
                if byte == 64 {
                    0
                } else {
                    byte & 0x1f
                },
            );
            assert(sent@ =~= sent_by(key@));
            return sent;
        }
        if bytes[0] == 77 || bytes[0] == 109 {
            return vec![27, bytes[2]];
        }
    }
    bytes
}

/// Whether a text is a key.
pub fn check_key(key: &str) -> (result: bool)
    ensures
        result == is_key(key@),
{
    if bytes_of_named_key(key).is_some() {
        return true;
    }
    let bytes = key.as_bytes();
    if bytes.len() < 2 {
        return true;
    }
    let boundary = bytes.len() == 2 || !(0x80 <= bytes[2] && bytes[2] <= 0xbf);
    let modifier = bytes[1] == 45 && (bytes[0] == 67 || bytes[0] == 99 || bytes[0] == 77 || bytes[0]
        == 109);
    boundary && (bytes.len() > 2 || !modifier)
}

fn check_keys(keys: &Vec<String>) -> (result: bool)
    ensures
        result == forall|i: int| 0 <= i < keys@.len() ==> is_key(#[trigger] text::texts(keys@)[i]),
{
    let ghost all = text::texts(keys@);
    let mut index: usize = 0;
    while index < keys.len()
        invariant
            index <= keys@.len(),
            all == text::texts(keys@),
            forall|i: int| 0 <= i < index ==> is_key(#[trigger] all[i]),
        decreases keys@.len() - index,
    {
        assert(all[index as int] == keys@[index as int]@);
        if !check_key(keys[index].as_str()) {
            return false;
        }
        index += 1;
    }
    true
}

// ---------------------------------------------------------------------------
// Sending keys.

/// The number of times that keys are sent.
pub open spec fn repeat_count(value: Seq<char>) -> Option<u32> {
    match text::unsigned_number(value, 4294967295) {
        Some(number) => if number > 0 {
            Some(number as u32)
        } else {
            None
        },
        None => None,
    }
}

fn parse_repeat_count(value: &str) -> (count: Option<u32>)
    ensures
        count == repeat_count(value@),
{
    match parse_u32(value) {
        Some(number) => if number > 0 {
            Some(number)
        } else {
            None
        },
        None => None,
    }
}

pub open spec fn send_keys_problem(item: ItemView) -> Option<Seq<char>> {
    if item.flag == 'N' && repeat_count(item.value) is None {
        Some("-N requires a positive integer"@)
    } else {
        None
    }
}

fn wrong_for_send_keys(item: &Item) -> (error: Option<String>)
    ensures
        wire::text_view(error) == send_keys_problem(item@),
{
    if item.flag == 'N' && parse_repeat_count(item.value.as_str()).is_none() {
        Some("-N requires a positive integer".to_owned())
    } else {
        None
    }
}

pub open spec fn repeat_in(items: Seq<ItemView>) -> u32 {
    match items::value_of(items, "N"@) {
        Some(value) => match repeat_count(value) {
            Some(count) => count,
            None => 1,
        },
        None => 1,
    }
}

fn last_repeat(items: &Vec<Item>) -> (count: u32)
    ensures
        count == repeat_in(options::item_views(items@)),
{
    match last_value(items, "N") {
        Some(value) => match parse_repeat_count(value.as_str()) {
            Some(count) => count,
            None => 1,
        },
        None => 1,
    }
}

/// Whether an action of the copy mode hands what it copies to a command.
pub open spec fn is_pipe_action(action: Seq<char>) -> bool {
    ||| action == "copy-pipe-no-clear"@
    ||| action == "copy-pipe"@
    ||| action == "copy-pipe-and-cancel"@
    ||| action == "copy-pipe-end-of-line"@
    ||| action == "copy-pipe-end-of-line-and-cancel"@
    ||| action == "copy-pipe-line"@
    ||| action == "copy-pipe-line-and-cancel"@
    ||| action == "pipe-no-clear"@
    ||| action == "pipe"@
    ||| action == "pipe-and-cancel"@
}

fn pipes(action: &str) -> (result: bool)
    ensures
        result == is_pipe_action(action@),
{
    same_text(action, "copy-pipe-no-clear") || same_text(action, "copy-pipe") || same_text(
        action,
        "copy-pipe-and-cancel",
    ) || same_text(action, "copy-pipe-end-of-line") || same_text(
        action,
        "copy-pipe-end-of-line-and-cancel",
    ) || same_text(action, "copy-pipe-line") || same_text(action, "copy-pipe-line-and-cancel")
        || same_text(action, "pipe-no-clear") || same_text(action, "pipe") || same_text(
        action,
        "pipe-and-cancel",
    )
}

/// An action of the copy mode as it is sent: its name, then flags behind a group
/// separator, then arguments behind a null. The arguments of an action that
/// pipes are kept apart by record separators, those of others by spaces.
pub open spec fn action_text(
    action: Seq<char>,
    no_paste: bool,
    no_clipboard: bool,
    arguments: Seq<Seq<char>>,
) -> Seq<char> {
    let flags = (if no_paste {
        seq!['P']
    } else {
        seq![]
    }) + (if no_clipboard {
        seq!['C']
    } else {
        seq![]
    });
    let flagged = if no_paste || no_clipboard {
        action + "\x1d"@ + flags
    } else {
        action
    };
    let separator = if is_pipe_action(action) {
        "\x1e"@
    } else {
        " "@
    };
    if arguments.len() == 0 {
        flagged
    } else {
        flagged + "\0"@ + text::joined(arguments, separator)
    }
}

fn text_of_action(
    action: &str,
    no_paste: bool,
    no_clipboard: bool,
    arguments: &Vec<String>,
) -> (text: String)
    ensures
        text@ == action_text(action@, no_paste, no_clipboard, text::texts(arguments@)),
{
    let mut text = action.to_owned();
    if no_paste || no_clipboard {
        text.append("\x1d");
        let ghost flagged = text@;
        if no_paste {
            text.push('P');
        }
        if no_clipboard {
            text.push('C');
        }
        assert(text@ =~= flagged + ((if no_paste {
            seq!['P']
        } else {
            seq![]
        }) + (if no_clipboard {
            seq!['C']
        } else {
            seq![]
        })));
    }
    if arguments.len() > 0 {
        let list = if pipes(action) {
            join(arguments, "\x1e")
        } else {
            join(arguments, " ")
        };
        text.append("\0");
        text.append(list.as_str());
    }
    text
}

/// What keys send, one after the other.
pub open spec fn sent_by_all(keys: Seq<Seq<char>>) -> Seq<u8>
    decreases keys.len(),
{
    if keys.len() == 0 {
        seq![]
    } else {
        sent_by_all(keys.drop_last()) + sent_by(keys.last())
    }
}

/// Bytes, a number of times over.
pub open spec fn repeated(bytes: Seq<u8>, count: nat) -> Seq<u8>
    decreases count,
{
    if count == 0 {
        seq![]
    } else {
        repeated(bytes, (count - 1) as nat) + bytes
    }
}

fn append_bytes(output: &mut Vec<u8>, bytes: &Vec<u8>)
    ensures
        final(output)@ == old(output)@ + bytes@,
{
    let mut index: usize = 0;
    while index < bytes.len()
        invariant
            index <= bytes@.len(),
            output@ =~= old(output)@ + bytes@.take(index as int),
        decreases bytes@.len() - index,
    {
        output.push(bytes[index]);
        index += 1;
    }
    assert(bytes@.take(index as int) =~= bytes@);
}

fn bytes_of_keys(keys: &Vec<String>) -> (sent: Vec<u8>)
    requires
        forall|i: int| 0 <= i < keys@.len() ==> is_key(#[trigger] text::texts(keys@)[i]),
    ensures
        sent@ == sent_by_all(text::texts(keys@)),
{
    let ghost all = text::texts(keys@);
    let mut sent: Vec<u8> = Vec::new();
    assert(all.take(0) =~= seq![]);
    let mut index: usize = 0;
    while index < keys.len()
        invariant
            index <= keys@.len(),
            all == text::texts(keys@),
            forall|i: int| 0 <= i < keys@.len() ==> is_key(#[trigger] all[i]),
            sent@ =~= sent_by_all(all.take(index as int)),
        decreases keys@.len() - index,
    {
        assert(all[index as int] == keys@[index as int]@);
        let bytes = key_bytes(keys[index].as_str());
        append_bytes(&mut sent, &bytes);
        assert(all.take(index + 1).drop_last() =~= all.take(index as int));
        index += 1;
    }
    assert(all.take(index as int) =~= all);
    sent
}

fn repeat_bytes(bytes: &Vec<u8>, count: u32) -> (output: Vec<u8>)
    ensures
        output@ == repeated(bytes@, count as nat),
{
    let mut output: Vec<u8> = Vec::new();
    let mut index: u32 = 0;
    while index < count
        invariant
            index <= count,
            output@ =~= repeated(bytes@, index as nat),
        decreases count - index,
    {
        append_bytes(&mut output, bytes);
        index += 1;
    }
    output
}

pub open spec fn send_keys_scan(arguments: Seq<Seq<char>>) -> options::ScanView {
    options::scanned(
        arguments,
        Grammar {
            attached: "N",
            gated: "PC",
            gate: 'X',
            separator: true,
            separator_value: true,
            dashes: Dashes::After('l'),
            ..options("lR", "tXN", Operands::Each, "unknown send-keys option: ")
        },
    )
}

/// The keys among the arguments.
pub open spec fn keys_in(scan: options::ScanView) -> Seq<Seq<char>> {
    items::operands_of(scan.items) + scan.tail
}

/// Whether each key that is to be looked up is one.
pub open spec fn sends_keys_only(arguments: Seq<Seq<char>>) -> bool {
    let scan = send_keys_scan(arguments);
    ||| items::refusal(scan, |item: ItemView| send_keys_problem(item)) is Some
    ||| options::is_seen(scan.items, 'X')
    ||| options::is_seen(scan.items, 'l')
    ||| forall|i: int| 0 <= i < keys_in(scan).len() ==> is_key(#[trigger] keys_in(scan)[i])
}

pub open spec fn send_keys_invocation(arguments: Seq<Seq<char>>) -> Expected {
    let scan = send_keys_scan(arguments);
    let items = scan.items;
    let keys = keys_in(scan);
    match items::refusal(scan, |item: ItemView| send_keys_problem(item)) {
        Some(error) => Err(error),
        None => match items::value_of(items, "X"@) {
            Some(action) => invocation::plainly(
                RequestOf::CopyModeCommand {
                    target: items::value_of(items, "t"@),
                    action: action_text(
                        action,
                        options::is_seen(items, 'P'),
                        options::is_seen(items, 'C'),
                        keys,
                    ),
                    repeat: repeat_in(items),
                },
            ),
            None => invocation::plainly(
                RequestOf::SendKeys {
                    target: items::value_of(items, "t"@),
                    bytes: repeated(
                        if options::is_seen(items, 'l') {
                            encode_utf8(text::joined(keys, " "@))
                        } else {
                            sent_by_all(keys)
                        },
                        repeat_in(items) as nat,
                    ),
                    reset: options::is_seen(items, 'R'),
                },
            ),
        },
    }
}

fn scan_send_keys(arguments: &[String]) -> (result: options::Scan)
    ensures
        result@ == send_keys_scan(text::texts(arguments@)),
{
    scan(
        arguments,
        &Grammar {
            attached: "N",
            gated: "PC",
            gate: 'X',
            separator: true,
            separator_value: true,
            dashes: Dashes::After('l'),
            ..options("lR", "tXN", Operands::Each, "unknown send-keys option: ")
        },
    )
}

/// Whether [`parse_send_keys`] can be asked about arguments.
pub fn check_send_keys(arguments: &[String]) -> (result: bool)
    ensures
        result == sends_keys_only(text::texts(arguments@)),
{
    let scan = scan_send_keys(arguments);
    let problem = first_wrong(
        &scan.items,
        wrong_for_send_keys,
        Ghost(|item: ItemView| send_keys_problem(item)),
    );
    let looks_up = !seen(&scan.items, 'X') && !seen(&scan.items, 'l');
    if problem.is_some() || scan.error.is_some() || !looks_up {
        return true;
    }
    let keys = operands_and_tail(&scan);
    check_keys(&keys)
}

pub fn parse_send_keys(arguments: &[String]) -> (result: Result<InvocationSpec, String>)
    requires
        sends_keys_only(text::texts(arguments@)),
    ensures
        invocation::answers(result, send_keys_invocation(text::texts(arguments@))),
{
    let scan = scan_send_keys(arguments);
    let problem = first_wrong(
        &scan.items,
        wrong_for_send_keys,
        Ghost(|item: ItemView| send_keys_problem(item)),
    );
    if let Some(error) = problem {
        return Err(error);
    }
    if scan.error.is_some() {
        return Err(scan.error.unwrap());
    }
    let keys = operands_and_tail(&scan);
    let items = scan.items;
    let repeat: u32 = last_repeat(&items);
    let target = last_value(&items, "t");
    proof {
        lemma_seen_has_value(scan@.items, 'X', "X"@);
    }
    match last_value(&items, "X") {
        Some(action) => {
            let action = text_of_action(
                action.as_str(),
                seen(&items, 'P'),
                seen(&items, 'C'),
                &keys,
            );
            Ok(InvocationSpec::plain(RequestOf::CopyModeCommand { target, action, repeat }))
        },
        None => {
            let once = if seen(&items, 'l') {
                let text = join(&keys, " ");
                bytes_of(text.as_str())
            } else {
                bytes_of_keys(&keys)
            };
            Ok(
                InvocationSpec::plain(
                    RequestOf::SendKeys {
                        target,
                        bytes: repeat_bytes(&once, repeat),
                        reset: seen(&items, 'R'),
                    },
                ),
            )
        },
    }
}

/// An option that is among the items has a value there.
proof fn lemma_seen_has_value(items: Seq<ItemView>, flag: char, flags: Seq<char>)
    requires
        flag == 'X',
        flags == "X"@,
    ensures
        options::is_seen(items, flag) ==> items::value_of(items, flags) is Some,
    decreases items.len(),
{
    reveal_strlit("X");
    if options::is_seen(items, flag) {
        let i = choose|i: int| 0 <= i < items.len() && (#[trigger] items[i]).flag == flag;
        assert(flags[0] == flag);
        if i < items.len() - 1 {
            assert(items.drop_last()[i].flag == flag);
            lemma_seen_has_value(items.drop_last(), flag, flags);
        }
    }
}

} // verus!
