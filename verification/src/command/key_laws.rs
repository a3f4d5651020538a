//! The bytes that keys send.

use vstd::prelude::*;
use vstd::utf8::*;

use crate::command::keys;
use crate::config;

verus! {

/// The keys with a name of their own, as a pane gets them.
#[verifier::rlimit(40)]
#[verifier::spinoff_prover]
pub proof fn law_named_keys_are_sent()
    ensures
        keys::sent_by("Enter"@) == seq![0x0du8],
        keys::sent_by("C-m"@) == seq![0x0du8],
        keys::sent_by("C-M"@) == seq![0x0du8],
        keys::sent_by("Tab"@) == seq![0x09u8],
        keys::sent_by("BTab"@) == seq![0x1bu8, 0x5b, 0x5a],
        keys::sent_by("Backspace"@) == seq![0x7fu8],
        keys::sent_by("BS"@) == seq![0x7fu8],
        keys::sent_by("Escape"@) == seq![0x1bu8],
        keys::sent_by("Esc"@) == seq![0x1bu8],
        keys::sent_by("Space"@) == seq![0x20u8],
        keys::sent_by("C-Space"@) == seq![0x00u8],
        keys::sent_by("Up"@) == seq![0x1bu8, 0x5b, 0x41],
        keys::sent_by("Down"@) == seq![0x1bu8, 0x5b, 0x42],
        keys::sent_by("Right"@) == seq![0x1bu8, 0x5b, 0x43],
        keys::sent_by("Left"@) == seq![0x1bu8, 0x5b, 0x44],
        keys::sent_by("Home"@) == seq![0x1bu8, 0x5b, 0x48],
        keys::sent_by("End"@) == seq![0x1bu8, 0x5b, 0x46],
        keys::sent_by("Delete"@) == seq![0x1bu8, 0x5b, 0x33, 0x7e],
{
    reveal_strlit("Enter");
    reveal_strlit("C-m");
    reveal_strlit("C-M");
    reveal_strlit("Tab");
    reveal_strlit("BTab");
    reveal_strlit("Backspace");
    reveal_strlit("BS");
    reveal_strlit("Escape");
    reveal_strlit("Esc");
    reveal_strlit("Space");
    reveal_strlit("C-Space");
    reveal_strlit("Up");
    reveal_strlit("Down");
    reveal_strlit("Right");
    reveal_strlit("Left");
    reveal_strlit("Home");
    reveal_strlit("End");
    reveal_strlit("Delete");
    assert("Enter"@.len() == 5);
    assert("C-m"@.len() == 3);
    assert("C-M"@.len() == 3);
    assert("Tab"@.len() == 3);
    assert("BTab"@.len() == 4);
    assert("Backspace"@.len() == 9);
    assert("BS"@.len() == 2);
    assert("Escape"@.len() == 6);
    assert("Esc"@.len() == 3);
    assert("Space"@.len() == 5);
    assert("C-Space"@.len() == 7);
    assert("Up"@.len() == 2);
    assert("Down"@.len() == 4);
    assert("Right"@.len() == 5);
    assert("Left"@.len() == 4);
    assert("Home"@.len() == 4);
    assert("End"@.len() == 3);
    assert("Delete"@.len() == 6);
    assert("Enter"@[0] == 'E');
    assert("C-m"@[0] == 'C');
    assert("C-m"@[2] == 'm');
    assert("C-M"@[0] == 'C');
    assert("C-M"@[2] == 'M');
    assert("Tab"@[0] == 'T');
    assert("BTab"@[0] == 'B');
    assert("BS"@[0] == 'B');
    assert("Escape"@[0] == 'E');
    assert("Esc"@[0] == 'E');
    assert("Esc"@[1] == 's');
    assert("Space"@[0] == 'S');
    assert("Up"@[0] == 'U');
    assert("Down"@[0] == 'D');
    assert("Right"@[0] == 'R');
    assert("Left"@[0] == 'L');
    assert("Home"@[0] == 'H');
    assert("End"@[0] == 'E');
    assert("End"@[1] == 'n');
    assert("Delete"@[0] == 'D');
}

/// The keys with a name of their own, as a binding gets them.
#[verifier::rlimit(60)]
#[verifier::spinoff_prover]
pub proof fn law_named_keys_are_bound()
    ensures
        config::sent_by("Enter"@) == Some(seq![0x0du8]),
        config::sent_by("C-m"@) == Some(seq![0x0du8]),
        config::sent_by("C-j"@) == Some(seq![0x0du8]),
        config::sent_by("Tab"@) == Some(seq![0x09u8]),
        config::sent_by("C-i"@) == Some(seq![0x09u8]),
        config::sent_by("BTab"@) == Some(seq![0x1bu8, 0x5b, 0x5a]),
        config::sent_by("C-S-Tab"@) == Some(seq![0x09u8]),
        config::sent_by("Space"@) == Some(seq![0x20u8]),
        config::sent_by("C-Space"@) == Some(seq![0x00u8]),
        config::sent_by("BSpace"@) == Some(seq![0x7fu8]),
        config::sent_by("Left"@) == Some(seq![0x1bu8, 0x5b, 0x44]),
        config::sent_by("Right"@) == Some(seq![0x1bu8, 0x5b, 0x43]),
        config::sent_by("Up"@) == Some(seq![0x1bu8, 0x5b, 0x41]),
        config::sent_by("Down"@) == Some(seq![0x1bu8, 0x5b, 0x42]),
        config::sent_by("C-Left"@) == Some(seq![0x1bu8, 0x5b, 0x31, 0x3b, 0x35, 0x44]),
        config::sent_by("C-Right"@) == Some(seq![0x1bu8, 0x5b, 0x31, 0x3b, 0x35, 0x43]),
        config::sent_by("C-Up"@) == Some(seq![0x1bu8, 0x5b, 0x31, 0x3b, 0x35, 0x41]),
        config::sent_by("C-Down"@) == Some(seq![0x1bu8, 0x5b, 0x31, 0x3b, 0x35, 0x42]),
        config::sent_by("Home"@) == Some(seq![0x1bu8, 0x5b, 0x31, 0x7e]),
        config::sent_by("End"@) == Some(seq![0x1bu8, 0x5b, 0x34, 0x7e]),
        config::sent_by("IC"@) == Some(seq![0x1bu8, 0x5b, 0x32, 0x7e]),
        config::sent_by("Insert"@) == Some(seq![0x1bu8, 0x5b, 0x32, 0x7e]),
        config::sent_by("DC"@) == Some(seq![0x1bu8, 0x5b, 0x33, 0x7e]),
        config::sent_by("Delete"@) == Some(seq![0x1bu8, 0x5b, 0x33, 0x7e]),
        config::sent_by("PPage"@) == Some(seq![0x1bu8, 0x5b, 0x35, 0x7e]),
        config::sent_by("PageUp"@) == Some(seq![0x1bu8, 0x5b, 0x35, 0x7e]),
        config::sent_by("PgUp"@) == Some(seq![0x1bu8, 0x5b, 0x35, 0x7e]),
        config::sent_by("NPage"@) == Some(seq![0x1bu8, 0x5b, 0x36, 0x7e]),
        config::sent_by("PageDown"@) == Some(seq![0x1bu8, 0x5b, 0x36, 0x7e]),
        config::sent_by("PgDn"@) == Some(seq![0x1bu8, 0x5b, 0x36, 0x7e]),
        config::sent_by("F1"@) == Some(seq![0x1bu8, 0x4f, 0x50]),
        config::sent_by("F2"@) == Some(seq![0x1bu8, 0x4f, 0x51]),
        config::sent_by("F3"@) == Some(seq![0x1bu8, 0x4f, 0x52]),
        config::sent_by("F4"@) == Some(seq![0x1bu8, 0x4f, 0x53]),
        config::sent_by("F5"@) == Some(seq![0x1bu8, 0x5b, 0x31, 0x35, 0x7e]),
        config::sent_by("F6"@) == Some(seq![0x1bu8, 0x5b, 0x31, 0x37, 0x7e]),
        config::sent_by("F7"@) == Some(seq![0x1bu8, 0x5b, 0x31, 0x38, 0x7e]),
        config::sent_by("F8"@) == Some(seq![0x1bu8, 0x5b, 0x31, 0x39, 0x7e]),
        config::sent_by("F9"@) == Some(seq![0x1bu8, 0x5b, 0x32, 0x30, 0x7e]),
        config::sent_by("F10"@) == Some(seq![0x1bu8, 0x5b, 0x32, 0x31, 0x7e]),
        config::sent_by("F11"@) == Some(seq![0x1bu8, 0x5b, 0x32, 0x33, 0x7e]),
        config::sent_by("F12"@) == Some(seq![0x1bu8, 0x5b, 0x32, 0x34, 0x7e]),
        config::sent_by("Escape"@) == Some(seq![0x1bu8]),
        config::sent_by("Esc"@) == Some(seq![0x1bu8]),
{
    reveal_strlit("=");
    reveal_strlit("Enter");
    reveal_strlit("C-m");
    reveal_strlit("C-j");
    reveal_strlit("Tab");
    reveal_strlit("C-i");
    reveal_strlit("BTab");
    reveal_strlit("C-S-Tab");
    reveal_strlit("Space");
    reveal_strlit("C-Space");
    reveal_strlit("BSpace");
    reveal_strlit("Left");
    reveal_strlit("Right");
    reveal_strlit("Up");
    reveal_strlit("Down");
    reveal_strlit("C-Left");
    reveal_strlit("C-Right");
    reveal_strlit("C-Up");
    reveal_strlit("C-Down");
    reveal_strlit("Home");
    reveal_strlit("End");
    reveal_strlit("IC");
    reveal_strlit("Insert");
    reveal_strlit("DC");
    reveal_strlit("Delete");
    reveal_strlit("PPage");
    reveal_strlit("PageUp");
    reveal_strlit("PgUp");
    reveal_strlit("NPage");
    reveal_strlit("PageDown");
    reveal_strlit("PgDn");
    reveal_strlit("F1");
    reveal_strlit("F2");
    reveal_strlit("F3");
    reveal_strlit("F4");
    reveal_strlit("F5");
    reveal_strlit("F6");
    reveal_strlit("F7");
    reveal_strlit("F8");
    reveal_strlit("F9");
    reveal_strlit("F10");
    reveal_strlit("F11");
    reveal_strlit("F12");
    reveal_strlit("Escape");
    reveal_strlit("Esc");
    assert("="@.len() == 1);
    assert("Enter"@.len() == 5);
    assert("C-m"@.len() == 3);
    assert("C-j"@.len() == 3);
    assert("Tab"@.len() == 3);
    assert("C-i"@.len() == 3);
    assert("BTab"@.len() == 4);
    assert("C-S-Tab"@.len() == 7);
    assert("Space"@.len() == 5);
    assert("C-Space"@.len() == 7);
    assert("BSpace"@.len() == 6);
    assert("Left"@.len() == 4);
    assert("Right"@.len() == 5);
    assert("Up"@.len() == 2);
    assert("Down"@.len() == 4);
    assert("C-Left"@.len() == 6);
    assert("C-Right"@.len() == 7);
    assert("C-Up"@.len() == 4);
    assert("C-Down"@.len() == 6);
    assert("Home"@.len() == 4);
    assert("End"@.len() == 3);
    assert("IC"@.len() == 2);
    assert("Insert"@.len() == 6);
    assert("DC"@.len() == 2);
    assert("Delete"@.len() == 6);
    assert("PPage"@.len() == 5);
    assert("PageUp"@.len() == 6);
    assert("PgUp"@.len() == 4);
    assert("NPage"@.len() == 5);
    assert("PageDown"@.len() == 8);
    assert("PgDn"@.len() == 4);
    assert("F1"@.len() == 2);
    assert("F2"@.len() == 2);
    assert("F3"@.len() == 2);
    assert("F4"@.len() == 2);
    assert("F5"@.len() == 2);
    assert("F6"@.len() == 2);
    assert("F7"@.len() == 2);
    assert("F8"@.len() == 2);
    assert("F9"@.len() == 2);
    assert("F10"@.len() == 3);
    assert("F11"@.len() == 3);
    assert("F12"@.len() == 3);
    assert("Escape"@.len() == 6);
    assert("Esc"@.len() == 3);
    assert("Enter"@[0] == 'E');
    assert("C-m"@[0] == 'C');
    assert("C-m"@[2] == 'm');
    assert("C-j"@[0] == 'C');
    assert("C-j"@[2] == 'j');
    assert("Tab"@[0] == 'T');
    assert("C-i"@[0] == 'C');
    assert("C-i"@[2] == 'i');
    assert("BTab"@[0] == 'B');
    assert("C-S-Tab"@[2] == 'S');
    assert("C-S-Tab"@[3] == '-');
    assert("Space"@[0] == 'S');
    assert("C-Space"@[2] == 'S');
    assert("C-Space"@[3] == 'p');
    assert("BSpace"@[0] == 'B');
    assert("Left"@[0] == 'L');
    assert("Right"@[0] == 'R');
    assert("Up"@[0] == 'U');
    assert("Down"@[0] == 'D');
    assert("C-Left"@[0] == 'C');
    assert("C-Left"@[2] == 'L');
    assert("C-Right"@[2] == 'R');
    assert("C-Up"@[0] == 'C');
    assert("C-Down"@[0] == 'C');
    assert("C-Down"@[2] == 'D');
    assert("Home"@[0] == 'H');
    assert("End"@[0] == 'E');
    assert("End"@[1] == 'n');
    assert("IC"@[0] == 'I');
    assert("Insert"@[0] == 'I');
    assert("DC"@[0] == 'D');
    assert("Delete"@[0] == 'D');
    assert("PPage"@[0] == 'P');
    assert("PageUp"@[0] == 'P');
    assert("PgUp"@[0] == 'P');
    assert("PgUp"@[2] == 'U');
    assert("NPage"@[0] == 'N');
    assert("PgDn"@[0] == 'P');
    assert("PgDn"@[2] == 'D');
    assert("F1"@[0] == 'F');
    assert("F1"@[1] == '1');
    assert("F2"@[0] == 'F');
    assert("F2"@[1] == '2');
    assert("F3"@[0] == 'F');
    assert("F3"@[1] == '3');
    assert("F4"@[0] == 'F');
    assert("F4"@[1] == '4');
    assert("F5"@[0] == 'F');
    assert("F5"@[1] == '5');
    assert("F6"@[0] == 'F');
    assert("F6"@[1] == '6');
    assert("F7"@[0] == 'F');
    assert("F7"@[1] == '7');
    assert("F8"@[0] == 'F');
    assert("F8"@[1] == '8');
    assert("F9"@[0] == 'F');
    assert("F9"@[1] == '9');
    assert("F10"@[0] == 'F');
    assert("F10"@[2] == '0');
    assert("F11"@[0] == 'F');
    assert("F11"@[2] == '1');
    assert("F12"@[0] == 'F');
    assert("F12"@[2] == '2');
    assert("Escape"@[0] == 'E');
    assert("Esc"@[0] == 'E');
    assert("Esc"@[1] == 's');
    lemma_is_not_marked("Enter"@);
    lemma_is_not_marked("C-m"@);
    lemma_is_not_marked("C-j"@);
    lemma_is_not_marked("Tab"@);
    lemma_is_not_marked("C-i"@);
    lemma_is_not_marked("BTab"@);
    lemma_is_not_marked("C-S-Tab"@);
    lemma_is_not_marked("Space"@);
    lemma_is_not_marked("C-Space"@);
    lemma_is_not_marked("BSpace"@);
    lemma_is_not_marked("Left"@);
    lemma_is_not_marked("Right"@);
    lemma_is_not_marked("Up"@);
    lemma_is_not_marked("Down"@);
    lemma_is_not_marked("C-Left"@);
    lemma_is_not_marked("C-Right"@);
    lemma_is_not_marked("C-Up"@);
    lemma_is_not_marked("C-Down"@);
    lemma_is_not_marked("Home"@);
    lemma_is_not_marked("End"@);
    lemma_is_not_marked("IC"@);
    lemma_is_not_marked("Insert"@);
    lemma_is_not_marked("DC"@);
    lemma_is_not_marked("Delete"@);
    lemma_is_not_marked("PPage"@);
    lemma_is_not_marked("PageUp"@);
    lemma_is_not_marked("PgUp"@);
    lemma_is_not_marked("NPage"@);
    lemma_is_not_marked("PageDown"@);
    lemma_is_not_marked("PgDn"@);
    lemma_is_not_marked("F1"@);
    lemma_is_not_marked("F2"@);
    lemma_is_not_marked("F3"@);
    lemma_is_not_marked("F4"@);
    lemma_is_not_marked("F5"@);
    lemma_is_not_marked("F6"@);
    lemma_is_not_marked("F7"@);
    lemma_is_not_marked("F8"@);
    lemma_is_not_marked("F9"@);
    lemma_is_not_marked("F10"@);
    lemma_is_not_marked("F11"@);
    lemma_is_not_marked("F12"@);
    lemma_is_not_marked("Escape"@);
    lemma_is_not_marked("Esc"@);
}

/// A key that both know is sent as it is bound.
pub proof fn law_keys_are_sent_as_they_are_bound()
    ensures
        config::sent_by("Enter"@) == Some(keys::sent_by("Enter"@)),
        config::sent_by("C-m"@) == Some(keys::sent_by("C-m"@)),
        config::sent_by("Tab"@) == Some(keys::sent_by("Tab"@)),
        config::sent_by("BTab"@) == Some(keys::sent_by("BTab"@)),
        config::sent_by("Escape"@) == Some(keys::sent_by("Escape"@)),
        config::sent_by("Esc"@) == Some(keys::sent_by("Esc"@)),
        config::sent_by("Space"@) == Some(keys::sent_by("Space"@)),
        config::sent_by("C-Space"@) == Some(keys::sent_by("C-Space"@)),
        config::sent_by("Up"@) == Some(keys::sent_by("Up"@)),
        config::sent_by("Down"@) == Some(keys::sent_by("Down"@)),
        config::sent_by("Right"@) == Some(keys::sent_by("Right"@)),
        config::sent_by("Left"@) == Some(keys::sent_by("Left"@)),
        config::sent_by("Delete"@) == Some(keys::sent_by("Delete"@)),
{
    law_named_keys_are_sent();
    law_named_keys_are_bound();
}

/// A text that starts with something other than an equals sign is read as it is.
proof fn lemma_is_not_marked(key: Seq<char>)
    requires
        key.len() > 0,
        key[0] != '=',
    ensures
        config::behind(key, "="@) is None,
{
    reveal_strlit("=");
    assert("="@[0] == '=');
    assert(key.take(1)[0] == key[0]);
}

/// ASCII is written with one byte for each character.
proof fn lemma_ascii_bytes(text: Seq<char>)
    requires
        forall|i: int| 0 <= i < text.len() ==> (#[trigger] text[i]) as u32 <= 0x7f,
    ensures
        encode_utf8(text).len() == text.len(),
        forall|i: int| 0 <= i < text.len() ==> #[trigger] encode_utf8(text)[i] == text[i] as u32,
    decreases text.len(),
{
    if text.len() > 0 {
        let rest = text.drop_first();
        assert forall|i: int| 0 <= i < rest.len() implies (#[trigger] rest[i]) as u32 <= 0x7f by {
            assert(rest[i] == text[i + 1]);
        }
        lemma_ascii_bytes(rest);
        let code = text[0] as u32;
        assert(code <= 0x7f);
        assert((code & 0x7f) as u8 == code) by (bit_vector)
            requires
                code <= 0x7f,
        ;
        let head = encode_scalar(code);
        assert(head.len() == 1 && head[0] == code);
        assert forall|i: int| 0 <= i < text.len() implies #[trigger] encode_utf8(text)[i]
            == text[i] as u32 by {
            if i > 0 {
                assert(encode_utf8(text)[i] == encode_utf8(rest)[i - 1]);
                assert(rest[i - 1] == text[i]);
            }
        }
    }
}

/// The control key with a letter, in either case, sends the number of the letter in
/// the alphabet.
#[verifier::spinoff_prover]
pub proof fn law_control_keys_are_sent(letter: char, small: bool)
    requires
        0x41 <= letter as u32 <= 0x5a,
    ensures
        keys::sent_by(seq!['C', '-', letter]) == seq![(letter as u32 - 0x40) as u8],
        keys::sent_by(seq!['c', '-', letter]) == seq![(letter as u32 - 0x40) as u8],
        keys::sent_by(seq!['C', '-', lower(letter)]) == seq![(letter as u32 - 0x40) as u8],
        keys::sent_by(seq!['c', '-', lower(letter)]) == seq![(letter as u32 - 0x40) as u8],
{
    lemma_control_key('C', letter, letter);
    lemma_control_key('c', letter, letter);
    lemma_control_key('C', letter, lower(letter));
    lemma_control_key('c', letter, lower(letter));
}

/// A letter in lower case.
pub open spec fn lower(letter: char) -> char {
    ((letter as u32 + 0x20) as u8) as char
}

#[verifier::spinoff_prover]
proof fn lemma_control_key(head: char, letter: char, written: char)
    requires
        head == 'C' || head == 'c',
        0x41 <= letter as u32 <= 0x5a,
        written == letter || written as u32 == letter as u32 + 0x20,
    ensures
        keys::sent_by(seq![head, '-', written]) == seq![(letter as u32 - 0x40) as u8],
{
    let key = seq![head, '-', written];
    lemma_ascii_bytes(key);
    let bytes = encode_utf8(key);
    assert(bytes[0] == key[0] as u32 && bytes[1] == key[1] as u32 && bytes[2] == key[2] as u32);
    let byte = (letter as u32 + 0x20) as u8;
    assert(byte & 0x1f == byte - 0x60) by (bit_vector)
        requires
            0x61 <= byte <= 0x7a,
    ;
    lemma_short_names(key);
    assert(keys::lowered(bytes[2]) == byte);
}

/// Which keys of three characters have a name of their own.
#[verifier::rlimit(40)]
#[verifier::spinoff_prover]
proof fn lemma_short_names(key: Seq<char>)
    requires
        key.len() == 3,
        key[1] == '-',
    ensures
        key[0] == 'C' && (key[2] == 'm' || key[2] == 'M') ==> keys::named_key(key) == Some(
            seq![13u8],
        ),
        !(key[0] == 'C' && (key[2] == 'm' || key[2] == 'M')) ==> keys::named_key(key) is None,
{

    reveal_strlit("Enter");
    reveal_strlit("C-m");
    reveal_strlit("C-M");
    reveal_strlit("Tab");
    reveal_strlit("BTab");
    reveal_strlit("Backspace");
    reveal_strlit("BS");
    reveal_strlit("Escape");
    reveal_strlit("Esc");
    reveal_strlit("Space");
    reveal_strlit("C-Space");
    reveal_strlit("Up");
    reveal_strlit("Down");
    reveal_strlit("Right");
    reveal_strlit("Left");
    reveal_strlit("Home");
    reveal_strlit("End");
    reveal_strlit("Delete");
    assert("Enter"@.len() == 5);
    assert("C-m"@.len() == 3);
    assert("C-M"@.len() == 3);
    assert("Tab"@.len() == 3);
    assert("BTab"@.len() == 4);
    assert("Backspace"@.len() == 9);
    assert("BS"@.len() == 2);
    assert("Escape"@.len() == 6);
    assert("Esc"@.len() == 3);
    assert("Space"@.len() == 5);
    assert("C-Space"@.len() == 7);
    assert("Up"@.len() == 2);
    assert("Down"@.len() == 4);
    assert("Right"@.len() == 5);
    assert("Left"@.len() == 4);
    assert("Home"@.len() == 4);
    assert("End"@.len() == 3);
    assert("Delete"@.len() == 6);
    assert(key =~= seq![key[0], key[1], key[2]]);
    assert("C-m"@ =~= seq!['C', '-', 'm']);
    assert("C-M"@ =~= seq!['C', '-', 'M']);
    assert("Tab"@[1] == 'a' && "Esc"@[1] == 's' && "End"@[1] == 'n');
}

/// The meta key puts an escape before the byte of a key.
#[verifier::spinoff_prover]
pub proof fn law_meta_keys_are_sent(key: char)
    requires
        key as u32 <= 0x7f,
    ensures
        keys::sent_by(seq!['M', '-', key]) == seq![0x1bu8, key as u8],
        keys::sent_by(seq!['m', '-', key]) == seq![0x1bu8, key as u8],
{
    let upper = seq!['M', '-', key];
    let small = seq!['m', '-', key];
    lemma_ascii_bytes(upper);
    lemma_ascii_bytes(small);
    assert(encode_utf8(upper)[0] == upper[0] as u32 && encode_utf8(upper)[1] == upper[1] as u32
        && encode_utf8(upper)[2] == upper[2] as u32);
    assert(encode_utf8(small)[0] == small[0] as u32 && encode_utf8(small)[1] == small[1] as u32
        && encode_utf8(small)[2] == small[2] as u32);
    lemma_short_names(upper);
    lemma_short_names(small);
}

/// A text that is no name, and has no modifier, is sent as it is.
pub proof fn law_other_text_is_sent_as_it_is(key: Seq<char>)
    requires
        keys::named_key(key) is None,
        key.len() < 2 || key[1] as u32 != 0x2d,
    ensures
        keys::sent_by(key) == encode_utf8(key),
{
    lemma_second_byte(key);
}

proof fn lemma_second_byte(key: Seq<char>)
    requires
        key.len() < 2 || key[1] as u32 != 0x2d,
    ensures
        ({
            let bytes = encode_utf8(key);
            bytes.len() >= 2 && bytes[0] <= 0x7f ==> bytes[1] != 45
        }),
{
    let bytes = encode_utf8(key);
    if key.len() > 0 && bytes.len() >= 2 && bytes[0] <= 0x7f {
        let rest = key.drop_first();
        lemma_first_byte(key);
        assert(bytes =~= encode_scalar(key[0] as u32) + encode_utf8(rest));
        assert(bytes[1] == encode_utf8(rest)[0]);
        if rest.len() > 0 {
            assert(rest[0] == key[1]);
            lemma_first_byte(rest);
            assert(rest[0] as u32 != 45);
        } else {
            assert(encode_utf8(rest) =~= seq![]);
        }
    }
}

/// A text starts with an ASCII byte exactly if its first character is that.
proof fn lemma_first_byte(text: Seq<char>)
    requires
        text.len() > 0,
    ensures
        encode_utf8(text).len() > 0,
        encode_utf8(text)[0] <= 0x7f ==> encode_utf8(text)[0] == text[0] as u32 && encode_scalar(
            text[0] as u32,
        ).len() == 1,
{
    let bytes = encode_utf8(text);
    encode_utf8_first_scalar(text);
    let first = bytes[0];
    if first <= 0x7f {
        assert((first & 0x7f) as u32 == first) by (bit_vector)
            requires
                first <= 0x7f,
        ;
    }
}

/// Which keys of three characters with a dash have a name of their own in a binding.
#[verifier::rlimit(60)]
#[verifier::spinoff_prover]
proof fn lemma_short_bound_names(key: Seq<char>)
    requires
        key.len() == 3,
        key[1] == '-',
        !(key[0] == 'C' && (key[2] == 'm' || key[2] == 'j' || key[2] == 'i')),
    ensures
        config::named_key(key) is None,
{
    reveal_strlit("Enter");
    reveal_strlit("C-m");
    reveal_strlit("C-j");
    reveal_strlit("Tab");
    reveal_strlit("C-i");
    reveal_strlit("BTab");
    reveal_strlit("C-S-Tab");
    reveal_strlit("Space");
    reveal_strlit("C-Space");
    reveal_strlit("BSpace");
    reveal_strlit("Left");
    reveal_strlit("Right");
    reveal_strlit("Up");
    reveal_strlit("Down");
    reveal_strlit("C-Left");
    reveal_strlit("C-Right");
    reveal_strlit("C-Up");
    reveal_strlit("C-Down");
    reveal_strlit("Home");
    reveal_strlit("End");
    reveal_strlit("IC");
    reveal_strlit("Insert");
    reveal_strlit("DC");
    reveal_strlit("Delete");
    reveal_strlit("PPage");
    reveal_strlit("PageUp");
    reveal_strlit("PgUp");
    reveal_strlit("NPage");
    reveal_strlit("PageDown");
    reveal_strlit("PgDn");
    reveal_strlit("F1");
    reveal_strlit("F2");
    reveal_strlit("F3");
    reveal_strlit("F4");
    reveal_strlit("F5");
    reveal_strlit("F6");
    reveal_strlit("F7");
    reveal_strlit("F8");
    reveal_strlit("F9");
    reveal_strlit("F10");
    reveal_strlit("F11");
    reveal_strlit("F12");
    reveal_strlit("Escape");
    reveal_strlit("Esc");
    assert("Enter"@.len() == 5);
    assert("C-m"@.len() == 3);
    assert("C-j"@.len() == 3);
    assert("Tab"@.len() == 3);
    assert("C-i"@.len() == 3);
    assert("BTab"@.len() == 4);
    assert("C-S-Tab"@.len() == 7);
    assert("Space"@.len() == 5);
    assert("C-Space"@.len() == 7);
    assert("BSpace"@.len() == 6);
    assert("Left"@.len() == 4);
    assert("Right"@.len() == 5);
    assert("Up"@.len() == 2);
    assert("Down"@.len() == 4);
    assert("C-Left"@.len() == 6);
    assert("C-Right"@.len() == 7);
    assert("C-Up"@.len() == 4);
    assert("C-Down"@.len() == 6);
    assert("Home"@.len() == 4);
    assert("End"@.len() == 3);
    assert("IC"@.len() == 2);
    assert("Insert"@.len() == 6);
    assert("DC"@.len() == 2);
    assert("Delete"@.len() == 6);
    assert("PPage"@.len() == 5);
    assert("PageUp"@.len() == 6);
    assert("PgUp"@.len() == 4);
    assert("NPage"@.len() == 5);
    assert("PageDown"@.len() == 8);
    assert("PgDn"@.len() == 4);
    assert("F1"@.len() == 2);
    assert("F2"@.len() == 2);
    assert("F3"@.len() == 2);
    assert("F4"@.len() == 2);
    assert("F5"@.len() == 2);
    assert("F6"@.len() == 2);
    assert("F7"@.len() == 2);
    assert("F8"@.len() == 2);
    assert("F9"@.len() == 2);
    assert("F10"@.len() == 3);
    assert("F11"@.len() == 3);
    assert("F12"@.len() == 3);
    assert("Escape"@.len() == 6);
    assert("Esc"@.len() == 3);
    assert("C-m"@[1] == '-');
    assert("C-j"@[1] == '-');
    assert("Tab"@[1] == 'a');
    assert("C-i"@[1] == '-');
    assert("End"@[1] == 'n');
    assert("F10"@[1] == '1');
    assert("F11"@[1] == '1');
    assert("F12"@[1] == '1');
    assert("Esc"@[1] == 's');
    assert("C-m"@ =~= seq!['C', '-', 'm']);
    assert("C-j"@ =~= seq!['C', '-', 'j']);
    assert("C-i"@ =~= seq!['C', '-', 'i']);
    assert(key =~= seq![key[0], key[1], key[2]]);
}

/// The control key with a letter, in either case, is bound as the number of the
/// letter in the alphabet, but for `C-j`, which is the return key.
#[verifier::spinoff_prover]
pub proof fn law_control_keys_are_bound(letter: char)
    requires
        0x41 <= letter as u32 <= 0x5a,
    ensures
        config::sent_by(seq!['C', '-', letter]) == Some(seq![(letter as u32 - 0x40) as u8]),
        lower(letter) != 'j' && lower(letter) != 'm' && lower(letter) != 'i' ==> config::sent_by(
            seq!['C', '-', lower(letter)],
        ) == Some(seq![(letter as u32 - 0x40) as u8]),
{
    lemma_bound_control_key(letter, letter);
    if lower(letter) != 'j' && lower(letter) != 'm' && lower(letter) != 'i' {
        lemma_bound_control_key(letter, lower(letter));
    }
}

#[verifier::spinoff_prover]
proof fn lemma_bound_control_key(letter: char, written: char)
    requires
        0x41 <= letter as u32 <= 0x5a,
        written == letter || written as u32 == letter as u32 + 0x20,
        written != 'j' && written != 'm' && written != 'i',
    ensures
        config::sent_by(seq!['C', '-', written]) == Some(seq![(letter as u32 - 0x40) as u8]),
{
    let key = seq!['C', '-', written];
    lemma_is_not_marked(key);
    lemma_short_bound_names(key);
    reveal_strlit("C-");
    assert("C-"@ =~= seq!['C', '-']);
    assert(key.take(2) =~= "C-"@);
    let rest = key.skip(2);
    assert(rest =~= seq![written]);
    lemma_ascii_bytes(rest);
    assert(encode_utf8(rest)[0] == rest[0] as u32);
    let byte = letter as u8;
    assert(byte & 0x1f == byte - 0x40) by (bit_vector)
        requires
            0x41 <= byte <= 0x5a,
    ;
}

/// The meta key puts an escape before the byte of a key.
#[verifier::spinoff_prover]
pub proof fn law_meta_keys_are_bound(key: char)
    requires
        0x21 <= key as u32 <= 0x7e,
        key != '=',
    ensures
        config::sent_by(seq!['M', '-', key]) == Some(seq![0x1bu8, key as u8]),
{
    let name = seq!['M', '-', key];
    lemma_is_not_marked(name);
    lemma_short_bound_names(name);
    reveal_strlit("C-");
    reveal_strlit("M-");
    reveal_strlit("M-C-");
    assert("C-"@[0] == 'C');
    assert("M-C-"@.len() == 4);
    assert("M-"@ =~= seq!['M', '-']);
    assert(name.take(2) =~= "M-"@);
    assert(name.take(2)[0] == 'M');
    let rest = name.skip(2);
    assert(rest =~= seq![key]);
    lemma_ascii_bytes(rest);
    assert(encode_utf8(rest)[0] == rest[0] as u32);
}

/// An equals sign before a key says nothing.
pub proof fn law_marked_keys_are_bound_alike(key: Seq<char>)
    requires
        key.len() == 0 || key[0] != '=',
    ensures
        config::sent_by(seq!['='] + key) == config::sent_by(key),
{
    let marked = seq!['='] + key;
    reveal_strlit("=");
    assert("="@ =~= seq!['=']);
    assert(marked.take(1) =~= "="@);
    assert(marked.skip(1) =~= key);
    if key.len() > 0 {
        lemma_is_not_marked(key);
    }
}

/// No name of a key in a binding is a single character, or starts with an `M`.
#[verifier::rlimit(60)]
#[verifier::spinoff_prover]
proof fn lemma_unnamed(key: Seq<char>)
    requires
        key.len() > 0,
        key.len() == 1 || key[0] == 'M',
    ensures
        config::named_key(key) is None,
{
    reveal_strlit("Enter");
    reveal_strlit("C-m");
    reveal_strlit("C-j");
    reveal_strlit("Tab");
    reveal_strlit("C-i");
    reveal_strlit("BTab");
    reveal_strlit("C-S-Tab");
    reveal_strlit("Space");
    reveal_strlit("C-Space");
    reveal_strlit("BSpace");
    reveal_strlit("Left");
    reveal_strlit("Right");
    reveal_strlit("Up");
    reveal_strlit("Down");
    reveal_strlit("C-Left");
    reveal_strlit("C-Right");
    reveal_strlit("C-Up");
    reveal_strlit("C-Down");
    reveal_strlit("Home");
    reveal_strlit("End");
    reveal_strlit("IC");
    reveal_strlit("Insert");
    reveal_strlit("DC");
    reveal_strlit("Delete");
    reveal_strlit("PPage");
    reveal_strlit("PageUp");
    reveal_strlit("PgUp");
    reveal_strlit("NPage");
    reveal_strlit("PageDown");
    reveal_strlit("PgDn");
    reveal_strlit("F1");
    reveal_strlit("F2");
    reveal_strlit("F3");
    reveal_strlit("F4");
    reveal_strlit("F5");
    reveal_strlit("F6");
    reveal_strlit("F7");
    reveal_strlit("F8");
    reveal_strlit("F9");
    reveal_strlit("F10");
    reveal_strlit("F11");
    reveal_strlit("F12");
    reveal_strlit("Escape");
    reveal_strlit("Esc");
    assert("Enter"@.len() == 5 && "Enter"@[0] == 'E');
    assert("C-m"@.len() == 3 && "C-m"@[0] == 'C');
    assert("C-j"@.len() == 3 && "C-j"@[0] == 'C');
    assert("Tab"@.len() == 3 && "Tab"@[0] == 'T');
    assert("C-i"@.len() == 3 && "C-i"@[0] == 'C');
    assert("BTab"@.len() == 4 && "BTab"@[0] == 'B');
    assert("C-S-Tab"@.len() == 7 && "C-S-Tab"@[0] == 'C');
    assert("Space"@.len() == 5 && "Space"@[0] == 'S');
    assert("C-Space"@.len() == 7 && "C-Space"@[0] == 'C');
    assert("BSpace"@.len() == 6 && "BSpace"@[0] == 'B');
    assert("Left"@.len() == 4 && "Left"@[0] == 'L');
    assert("Right"@.len() == 5 && "Right"@[0] == 'R');
    assert("Up"@.len() == 2 && "Up"@[0] == 'U');
    assert("Down"@.len() == 4 && "Down"@[0] == 'D');
    assert("C-Left"@.len() == 6 && "C-Left"@[0] == 'C');
    assert("C-Right"@.len() == 7 && "C-Right"@[0] == 'C');
    assert("C-Up"@.len() == 4 && "C-Up"@[0] == 'C');
    assert("C-Down"@.len() == 6 && "C-Down"@[0] == 'C');
    assert("Home"@.len() == 4 && "Home"@[0] == 'H');
    assert("End"@.len() == 3 && "End"@[0] == 'E');
    assert("IC"@.len() == 2 && "IC"@[0] == 'I');
    assert("Insert"@.len() == 6 && "Insert"@[0] == 'I');
    assert("DC"@.len() == 2 && "DC"@[0] == 'D');
    assert("Delete"@.len() == 6 && "Delete"@[0] == 'D');
    assert("PPage"@.len() == 5 && "PPage"@[0] == 'P');
    assert("PageUp"@.len() == 6 && "PageUp"@[0] == 'P');
    assert("PgUp"@.len() == 4 && "PgUp"@[0] == 'P');
    assert("NPage"@.len() == 5 && "NPage"@[0] == 'N');
    assert("PageDown"@.len() == 8 && "PageDown"@[0] == 'P');
    assert("PgDn"@.len() == 4 && "PgDn"@[0] == 'P');
    assert("F1"@.len() == 2 && "F1"@[0] == 'F');
    assert("F2"@.len() == 2 && "F2"@[0] == 'F');
    assert("F3"@.len() == 2 && "F3"@[0] == 'F');
    assert("F4"@.len() == 2 && "F4"@[0] == 'F');
    assert("F5"@.len() == 2 && "F5"@[0] == 'F');
    assert("F6"@.len() == 2 && "F6"@[0] == 'F');
    assert("F7"@.len() == 2 && "F7"@[0] == 'F');
    assert("F8"@.len() == 2 && "F8"@[0] == 'F');
    assert("F9"@.len() == 2 && "F9"@[0] == 'F');
    assert("F10"@.len() == 3 && "F10"@[0] == 'F');
    assert("F11"@.len() == 3 && "F11"@[0] == 'F');
    assert("F12"@.len() == 3 && "F12"@[0] == 'F');
    assert("Escape"@.len() == 6 && "Escape"@[0] == 'E');
    assert("Esc"@.len() == 3 && "Esc"@[0] == 'E');
}

/// The meta key puts an escape before the code of a control key too.
#[verifier::spinoff_prover]
pub proof fn law_meta_control_keys_are_bound(letter: char, written: char)
    requires
        0x41 <= letter as u32 <= 0x5a,
        written == letter || written as u32 == letter as u32 + 0x20,
    ensures
        config::sent_by(seq!['M', '-', 'C', '-', written]) == Some(
            seq![0x1bu8, (letter as u32 - 0x40) as u8],
        ),
{
    let key = seq!['M', '-', 'C', '-', written];
    lemma_is_not_marked(key);
    lemma_unnamed(key);
    reveal_strlit("C-");
    reveal_strlit("M-C-");
    assert("C-"@[0] == 'C');
    assert(key.take(2)[0] == 'M');
    assert("M-C-"@ =~= seq!['M', '-', 'C', '-']);
    assert(key.take(4) =~= "M-C-"@);
    let rest = key.skip(4);
    assert(rest =~= seq![written]);
    lemma_ascii_bytes(rest);
    assert(encode_utf8(rest)[0] == rest[0] as u32);
    let byte = letter as u8;
    assert(byte & 0x1f == byte - 0x40) by (bit_vector)
        requires
            0x41 <= byte <= 0x5a,
    ;
}

/// A key of one ASCII character sends that character.
#[verifier::spinoff_prover]
pub proof fn law_plain_keys_are_bound(key: char)
    requires
        0x21 <= key as u32 <= 0x7e,
        key != '=',
    ensures
        config::sent_by(seq![key]) == Some(seq![key as u8]),
{
    let name = seq![key];
    lemma_is_not_marked(name);
    lemma_unnamed(name);
    reveal_strlit("C-");
    reveal_strlit("M-");
    reveal_strlit("M-C-");
    assert("C-"@.len() == 2 && "M-"@.len() == 2 && "M-C-"@.len() == 4);
    lemma_ascii_bytes(name);
    assert(encode_utf8(name)[0] == name[0] as u32);
    assert(encode_utf8(name) =~= seq![key as u8]);
}

/// Text of more than one character that is neither a name nor has a modifier is no
/// key in a binding.
pub proof fn law_other_text_is_no_key(key: Seq<char>)
    requires
        key.len() >= 2,
        key[0] != '=',
        key[1] != '-',
        config::named_key(key) is None,
    ensures
        config::sent_by(key) is None,
{
    lemma_is_not_marked(key);
    reveal_strlit("C-");
    reveal_strlit("M-");
    reveal_strlit("M-C-");
    assert("C-"@[1] == '-' && "M-"@[1] == '-' && "M-C-"@[1] == '-');
    assert(key.take(2)[1] == key[1]);
    if key.len() >= 4 {
        assert(key.take(4)[1] == key[1]);
    }
    lemma_bytes_of_characters(key);
}

proof fn lemma_bytes_of_characters(text: Seq<char>)
    ensures
        encode_utf8(text).len() >= text.len(),
    decreases text.len(),
{
    if text.len() > 0 {
        lemma_bytes_of_characters(text.drop_first());
    }
}

/// The control key with any ASCII character sends the lowest five bits of it, in a
/// pane and, where the key has no name of its own, in a binding.
pub proof fn law_control_keys_keep_five_bits(key: char)
    requires
        0x21 <= key as u32 <= 0x7e,
    ensures
        keys::sent_by(seq!['C', '-', key]) == seq![(key as u32 % 32) as u8],
        key != 'm' && key != 'j' && key != 'i' ==> config::sent_by(seq!['C', '-', key]) == Some(
            seq![(key as u32 % 32) as u8],
        ),
{
    lemma_sent_five_bits(key);
    if key != 'm' && key != 'j' && key != 'i' {
        lemma_bound_five_bits(key);
    }
}

#[verifier::spinoff_prover]
proof fn lemma_sent_five_bits(key: char)
    requires
        0x21 <= key as u32 <= 0x7e,
    ensures
        keys::sent_by(seq!['C', '-', key]) == seq![(key as u32 % 32) as u8],
{
    let name = seq!['C', '-', key];
    lemma_ascii_bytes(name);
    let bytes = encode_utf8(name);
    assert(bytes[0] == name[0] as u32 && bytes[1] == name[1] as u32 && bytes[2] == name[2] as u32);
    let low = keys::lowered(key as u8);
    assert(low & 0x1f == low % 32) by (bit_vector);
    lemma_short_names(name);
}

#[verifier::spinoff_prover]
proof fn lemma_bound_five_bits(key: char)
    requires
        0x21 <= key as u32 <= 0x7e,
        key != 'm' && key != 'j' && key != 'i',
    ensures
        config::sent_by(seq!['C', '-', key]) == Some(seq![(key as u32 % 32) as u8]),
{
    let name = seq!['C', '-', key];
    let rest = name.skip(2);
    assert(rest =~= seq![key]);
    lemma_ascii_bytes(rest);
    assert(encode_utf8(rest)[0] == rest[0] as u32);
    let byte = key as u8;
    let high = if 97 <= byte <= 122 {
        (byte - 32) as u8
    } else {
        byte
    };
    assert(high & 0x1f == high % 32) by (bit_vector);
    lemma_is_not_marked(name);
    lemma_short_bound_names(name);
    reveal_strlit("C-");
    assert("C-"@ =~= seq!['C', '-']);
    assert(name.take(2) =~= "C-"@);
}

} // verus!
