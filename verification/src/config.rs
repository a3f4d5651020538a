//! Configuration files: one command per line, or several behind one another.

use vstd::prelude::*;
use vstd::utf8::*;

use crate::command::buffer::bytes_of;
use crate::protocol::wire;
use crate::text::{self, characters, same_text, string_of};

verus! {

/// The characters with the Unicode property `White_Space`.
pub open spec fn is_space(character: char) -> bool {
    ||| '\u{9}' <= character <= '\u{d}'
    ||| character == '\u{20}'
    ||| character == '\u{85}'
    ||| character == '\u{a0}'
    ||| character == '\u{1680}'
    ||| '\u{2000}' <= character <= '\u{200a}'
    ||| character == '\u{2028}'
    ||| character == '\u{2029}'
    ||| character == '\u{202f}'
    ||| character == '\u{205f}'
    ||| character == '\u{3000}'
}

/// `char::is_whitespace`: whether a character has the Unicode property
/// `White_Space`.
pub assume_specification[ char::is_whitespace ](character: char) -> (result: bool)
    ensures
        result == is_space(character),
;

/// One logical command from a tmux configuration file. A binding may have
/// commands chained with `\;`; those are retained separately so quoted command
/// prompt templates survive tokenization.
#[derive(Debug, Clone)]
pub struct ConfigLine {
    pub tokens: Vec<String>,
    pub chained: Vec<Vec<String>>,
}

pub ghost struct ConfigLineView {
    pub tokens: Seq<Seq<char>>,
    pub chained: Seq<Seq<Seq<char>>>,
}

/// The texts of lists of strings.
pub open spec fn all_texts(lists: Seq<Vec<String>>) -> Seq<Seq<Seq<char>>> {
    lists.map_values(|list: Vec<String>| text::texts(list@))
}

impl View for ConfigLine {
    type V = ConfigLineView;

    open spec fn view(&self) -> ConfigLineView {
        ConfigLineView { tokens: text::texts(self.tokens@), chained: all_texts(self.chained@) }
    }
}

pub open spec fn line_views(lines: Seq<ConfigLine>) -> Seq<ConfigLineView> {
    lines.map_values(|line: ConfigLine| line@)
}

// ---------------------------------------------------------------------------
// Lines.

/// The position of the first line feed from a position on, or the end.
pub open spec fn line_end(contents: Seq<char>, at: int) -> int
    decreases contents.len() - at,
{
    if at >= contents.len() || contents[at] == '\n' {
        at
    } else {
        line_end(contents, at + 1)
    }
}

/// A line without the carriage return that belongs to its end.
pub open spec fn without_return(line: Seq<char>) -> Seq<char> {
    if line.len() > 0 && line.last() == '\r' {
        line.drop_last()
    } else {
        line
    }
}

/// The lines of a text from a position on. A line ends with a line feed, or with
/// a carriage return and a line feed; the last may end with the text.
pub open spec fn lines_from(contents: Seq<char>, at: int) -> Seq<Seq<char>>
    decreases contents.len() - at,
    via lines_from_decreases
{
    let end = line_end(contents, at);
    if at < 0 || at >= contents.len() {
        seq![]
    } else if end >= contents.len() {
        seq![contents.skip(at)]
    } else {
        seq![without_return(contents.subrange(at, end))] + lines_from(contents, end + 1)
    }
}

#[via_fn]
proof fn lines_from_decreases(contents: Seq<char>, at: int) {
    lemma_line_end(contents, at);
}

proof fn lemma_line_end(contents: Seq<char>, at: int)
    ensures
        line_end(contents, at) >= at,
        0 <= at <= contents.len() ==> line_end(contents, at) <= contents.len(),
    decreases contents.len() - at,
{
    if at < contents.len() && contents[at] != '\n' {
        lemma_line_end(contents, at + 1);
    }
}

pub open spec fn lines_of(contents: Seq<char>) -> Seq<Seq<char>> {
    lines_from(contents, 0)
}

pub fn lines(contents: &str) -> (list: Vec<String>)
    ensures
        text::texts(list@) == lines_of(contents@),
{
    let all = characters(contents);
    let mut list: Vec<String> = Vec::new();
    assert(text::texts(list@) =~= seq![]);
    let mut at: usize = 0;
    while at < all.len()
        invariant
            at <= all@.len(),
            all@ == contents@,
            lines_of(contents@) =~= text::texts(list@) + lines_from(contents@, at as int),
        decreases all@.len() - at,
    {
        let start = at;
        while at < all.len() && all[at] != '\n'
            invariant
                start <= at <= all@.len(),
                all@ == contents@,
                line_end(contents@, start as int) == line_end(contents@, at as int),
            decreases all@.len() - at,
        {
            at += 1;
        }
        let ghost before = list@;
        let line = if at >= all.len() {
            let line = string_of(&all, start, at);
            assert(line@ =~= contents@.skip(start as int));
            line
        } else {
            let line = if at > start && all[at - 1] == '\r' {
                let line = string_of(&all, start, at - 1);
                assert(line@ =~= contents@.subrange(start as int, at as int).drop_last());
                line
            } else {
                string_of(&all, start, at)
            };
            at += 1;
            line
        };
        list.push(line);
        assert(text::texts(list@) =~= text::texts(before).push(line@));
    }
    list
}

// ---------------------------------------------------------------------------
// Quotes and comments.

/// Which quote a character stands in, and whether a backslash stands before it.
pub ghost struct Quoting {
    pub quote: Option<char>,
    pub escaped: bool,
}

pub open spec fn is_quote(character: char) -> bool {
    character == '\'' || character == '"'
}

/// Whether a backslash here makes the next character a plain one: it does but
/// for single quotes.
pub open spec fn escapes(quoting: Quoting, character: char) -> bool {
    character == '\\' && quoting.quote != Some('\'')
}

/// The quoting behind a character.
pub open spec fn quoting_after(quoting: Quoting, character: char) -> Quoting {
    if quoting.escaped {
        Quoting { escaped: false, ..quoting }
    } else if escapes(quoting, character) {
        Quoting { escaped: true, ..quoting }
    } else {
        match quoting.quote {
            Some(quote) => if quote == character {
                Quoting { quote: None, escaped: false }
            } else {
                quoting
            },
            None => if is_quote(character) {
                Quoting { quote: Some(character), escaped: false }
            } else {
                quoting
            },
        }
    }
}

/// The quoting behind a text that starts in a quote or in none.
pub open spec fn quoting_of(text: Seq<char>, quote: Option<char>) -> Quoting
    decreases text.len(),
{
    if text.len() == 0 {
        Quoting { quote, escaped: false }
    } else {
        quoting_after(quoting_of(text.drop_last(), quote), text.last())
    }
}

/// Whether a comment starts at a position: at a number sign that is neither
/// quoted nor escaped.
pub open spec fn starts_comment(line: Seq<char>, at: int) -> bool {
    line[at] == '#' && quoting_of(line.take(at), None) == (Quoting { quote: None, escaped: false })
}

/// The first position from the given one on where a comment starts, or the end.
pub open spec fn comment_start(line: Seq<char>, at: int) -> int
    decreases line.len() - at,
{
    if at >= line.len() || starts_comment(line, at) {
        at
    } else {
        comment_start(line, at + 1)
    }
}

/// A line without its comment.
pub open spec fn uncommented(line: Seq<char>) -> Seq<char> {
    line.take(comment_start(line, 0))
}

/// What executable code tracks of the quoting.
struct Tracker {
    quote: Option<char>,
    escaped: bool,
}

impl Tracker {
    spec fn quoting(self) -> Quoting {
        Quoting { quote: self.quote, escaped: self.escaped }
    }

    fn starting_in(quote: Option<char>) -> (tracker: Self)
        ensures
            tracker.quoting() == (Quoting { quote, escaped: false }),
    {
        Tracker { quote, escaped: false }
    }

    /// Whether a backslash is the next character and escapes what follows it.
    fn would_escape(&self, character: char) -> (result: bool)
        ensures
            result == (!self.escaped && escapes(self.quoting(), character)),
    {
        !self.escaped && character == '\\' && match self.quote {
            Some(quote) => quote != '\'',
            None => true,
        }
    }

    fn pass(&mut self, character: char)
        ensures
            final(self).quoting() == quoting_after(old(self).quoting(), character),
    {
        if self.escaped {
            self.escaped = false;
            return;
        }
        if self.would_escape(character) {
            self.escaped = true;
            return;
        }
        match self.quote {
            Some(quote) => {
                if quote == character {
                    self.quote = None;
                }
            },
            None => {
                if character == '\'' || character == '"' {
                    self.quote = Some(character);
                }
            },
        }
    }
}

pub fn strip_comment(line: &str) -> (result: String)
    ensures
        result@ == uncommented(line@),
{
    let all = characters(line);
    let mut tracker = Tracker::starting_in(None);
    let mut at: usize = 0;
    assert(line@.take(0) =~= seq![]);
    while at < all.len()
        invariant
            at <= all@.len(),
            all@ == line@,
            tracker.quoting() == quoting_of(line@.take(at as int), None),
            comment_start(line@, 0) == comment_start(line@, at as int),
        decreases all@.len() - at,
    {
        let character = all[at];
        if character == '#' && !tracker.escaped && tracker.quote.is_none() {
            let result = string_of(&all, 0, at);
            assert(result@ =~= uncommented(line@));
            return result;
        }
        tracker.pass(character);
        assert(line@.take(at + 1).drop_last() =~= line@.take(at as int));
        at += 1;
    }
    let result = string_of(&all, 0, at);
    assert(result@ =~= uncommented(line@));
    result
}

// ---------------------------------------------------------------------------
// Commands behind one another.

pub open spec fn is_blank(text: Seq<char>) -> bool {
    forall|i: int| 0 <= i < text.len() ==> is_space(#[trigger] text[i])
}

fn blank(list: &Vec<char>, start: usize) -> (result: bool)
    requires
        start <= list@.len(),
    ensures
        result == is_blank(list@.skip(start as int)),
{
    let ghost all = list@.skip(start as int);
    let mut at = start;
    while at < list.len()
        invariant
            start <= at <= list@.len(),
            all == list@.skip(start as int),
            forall|i: int| 0 <= i < at - start ==> is_space(#[trigger] all[i]),
        decreases list@.len() - at,
    {
        if !list[at].is_whitespace() {
            assert(all[at - start] == list@[at as int]);
            return false;
        }
        at += 1;
    }
    true
}

/// Whether two commands are separated at a position of a line that starts in a
/// quote or in none: by a backslash that is not escaped, stands in no single
/// quotes, and has a semicolon behind it.
pub open spec fn separates(line: Seq<char>, quote: Option<char>, at: int) -> bool {
    let quoting = quoting_of(line.take(at), quote);
    &&& !quoting.escaped
    &&& escapes(quoting, line[at])
    &&& at + 1 < line.len()
    &&& line[at + 1] == ';'
}

/// The first position from the given one on where commands are separated, or
/// the end.
pub open spec fn command_end(line: Seq<char>, quote: Option<char>, at: int) -> int
    decreases line.len() - at,
{
    if at >= line.len() || separates(line, quote, at) {
        at
    } else {
        command_end(line, quote, at + 1)
    }
}

/// The commands of a line that starts in a quote or in none. What stands behind
/// the last separator is a command only if it is not blank.
pub open spec fn commands_of(line: Seq<char>, quote: Option<char>) -> Seq<Seq<char>>
    decreases line.len(),
    via commands_of_decreases
{
    let end = command_end(line, quote, 0);
    if end >= line.len() {
        if is_blank(line) {
            seq![]
        } else {
            seq![line]
        }
    } else {
        seq![line.take(end)] + commands_of(
            line.skip(end + 2),
            quoting_of(line.take(end), quote).quote,
        )
    }
}

#[via_fn]
proof fn commands_of_decreases(line: Seq<char>, quote: Option<char>) {
    lemma_command_end(line, quote, 0);
}

proof fn lemma_command_end(line: Seq<char>, quote: Option<char>, at: int)
    requires
        0 <= at,
    ensures
        at <= command_end(line, quote, at),
        command_end(line, quote, at) < line.len() ==> separates(
            line,
            quote,
            command_end(line, quote, at),
        ),
    decreases line.len() - at,
{
    if at < line.len() && !separates(line, quote, at) {
        lemma_command_end(line, quote, at + 1);
    }
}

pub fn split_commands(line: &str) -> (list: Vec<String>)
    ensures
        text::texts(list@) == commands_of(line@, None),
{
    let all = characters(line);
    let mut list: Vec<String> = Vec::new();
    assert(text::texts(list@) =~= seq![]);
    assert(line@.skip(0) =~= line@);
    let mut start: usize = 0;
    let mut tracker = Tracker::starting_in(None);
    let ghost mut quote: Option<char> = None;
    let mut at: usize = 0;
    assert(line@.skip(0).take(0) =~= seq![]);
    while at < all.len()
        invariant
            start <= at <= all@.len(),
            all@ == line@,
            commands_of(line@, None) =~= text::texts(list@) + commands_of(
                line@.skip(start as int),
                quote,
            ),
            tracker.quoting() == quoting_of(line@.skip(start as int).take(at - start), quote),
            command_end(line@.skip(start as int), quote, 0) == command_end(
                line@.skip(start as int),
                quote,
                at - start,
            ),
        decreases all@.len() - at,
    {
        let ghost rest = line@.skip(start as int);
        let character = all[at];
        assert(rest[at - start] == character);
        if tracker.would_escape(character) && at + 1 < all.len() && all[at + 1] == ';' {
            assert(rest[at - start + 1] == ';');
            assert(separates(rest, quote, at - start));
            let command = string_of(&all, start, at);
            assert(command@ =~= rest.take(at - start));
            let ghost before = list@;
            list.push(command);
            assert(text::texts(list@) =~= text::texts(before).push(command@));
            proof {
                assert(rest.skip(at - start + 2) =~= line@.skip(at + 2));
                quote = tracker.quote;
            }
            start = at + 2;
            at += 2;
            assert(line@.skip(start as int).take(0) =~= seq![]);
        } else {
            assert(!separates(rest, quote, at - start));
            tracker.pass(character);
            assert(rest.take(at - start + 1).drop_last() =~= rest.take(at - start));
            at += 1;
        }
    }
    let ghost rest = line@.skip(start as int);
    if !blank(&all, start) {
        let command = string_of(&all, start, all.len());
        assert(command@ =~= rest);
        let ghost before = list@;
        list.push(command);
        assert(text::texts(list@) =~= text::texts(before).push(command@));
    }
    list
}

// ---------------------------------------------------------------------------
// Words.

/// What has been read of a command: the words that are complete, and the one
/// that is being read.
pub ghost struct Reading {
    pub words: Seq<Seq<char>>,
    pub word: Seq<char>,
    pub quoting: Quoting,
}

/// A word that is complete. An empty one does not count.
pub open spec fn with_word(words: Seq<Seq<char>>, word: Seq<char>) -> Seq<Seq<char>> {
    if word.len() > 0 {
        words.push(word)
    } else {
        words
    }
}

/// What has been read behind a character. Quotes and the backslashes that escape
/// are left out; space that is neither quoted nor escaped ends a word.
pub open spec fn reading_after(reading: Reading, character: char) -> Reading {
    let quoting = quoting_after(reading.quoting, character);
    let kept = Reading { word: reading.word.push(character), quoting, ..reading };
    let dropped = Reading { quoting, ..reading };
    if reading.quoting.escaped {
        kept
    } else if escapes(reading.quoting, character) {
        dropped
    } else {
        match reading.quoting.quote {
            Some(quote) => if quote == character {
                dropped
            } else {
                kept
            },
            None => if is_quote(character) {
                dropped
            } else if is_space(character) {
                Reading { words: with_word(reading.words, reading.word), word: seq![], quoting }
            } else {
                kept
            },
        }
    }
}

pub open spec fn reading_of(command: Seq<char>) -> Reading
    decreases command.len(),
{
    if command.len() == 0 {
        Reading {
            words: seq![],
            word: seq![],
            quoting: Quoting { quote: None, escaped: false },
        }
    } else {
        reading_after(reading_of(command.drop_last()), command.last())
    }
}

/// The words of a command. A backslash at its very end stands for itself.
pub open spec fn words_of(command: Seq<char>) -> Seq<Seq<char>> {
    let reading = reading_of(command);
    with_word(
        reading.words,
        if reading.quoting.escaped {
            reading.word.push('\\')
        } else {
            reading.word
        },
    )
}

fn push_word(list: &mut Vec<String>, word: Vec<char>)
    ensures
        text::texts(final(list)@) == with_word(text::texts(old(list)@), word@),
{
    if word.len() > 0 {
        let text = string_of(&word, 0, word.len());
        assert(text@ =~= word@);
        list.push(text);
        assert(text::texts(list@) =~= text::texts(old(list)@).push(word@));
    }
}

pub fn tokenize(command: &str) -> (list: Vec<String>)
    ensures
        text::texts(list@) == words_of(command@),
{
    let all = characters(command);
    let mut list: Vec<String> = Vec::new();
    assert(text::texts(list@) =~= seq![]);
    let mut word: Vec<char> = Vec::new();
    let mut tracker = Tracker::starting_in(None);
    let mut at: usize = 0;
    assert(command@.take(0) =~= seq![]);
    while at < all.len()
        invariant
            at <= all@.len(),
            all@ == command@,
            reading_of(command@.take(at as int)) == (Reading {
                words: text::texts(list@),
                word: word@,
                quoting: tracker.quoting(),
            }),
        decreases all@.len() - at,
    {
        let character = all[at];
        assert(command@.take(at + 1).drop_last() =~= command@.take(at as int));
        if tracker.escaped {
            word.push(character);
        } else if !tracker.would_escape(character) {
            match tracker.quote {
                Some(quote) => {
                    if quote != character {
                        word.push(character);
                    }
                },
                None => {
                    if character == '\'' || character == '"' {
                    } else if character.is_whitespace() {
                        push_word(&mut list, word);
                        word = Vec::new();
                        assert(word@ =~= seq![]);
                    } else {
                        word.push(character);
                    }
                },
            }
        }
        tracker.pass(character);
        at += 1;
    }
    assert(command@.take(at as int) =~= command@);
    if tracker.escaped {
        word.push('\\');
    }
    push_word(&mut list, word);
    list
}

// ---------------------------------------------------------------------------
// Whole files.

/// The commands of a line, each as its words. A command without words does not
/// count.
pub open spec fn word_lists(commands: Seq<Seq<char>>) -> Seq<Seq<Seq<char>>>
    decreases commands.len(),
{
    if commands.len() == 0 {
        seq![]
    } else {
        let front = word_lists(commands.drop_last());
        let words = words_of(commands.last());
        if words.len() > 0 {
            front.push(words)
        } else {
            front
        }
    }
}

/// The logical command of a line, if it has one.
pub open spec fn config_line(line: Seq<char>) -> Option<ConfigLineView> {
    let lists = word_lists(commands_of(uncommented(line), None));
    if lists.len() > 0 {
        Some(ConfigLineView { tokens: lists[0], chained: lists.skip(1) })
    } else {
        None
    }
}

/// The logical commands of lines.
pub open spec fn config_lines(lines: Seq<Seq<char>>) -> Seq<ConfigLineView>
    decreases lines.len(),
{
    if lines.len() == 0 {
        seq![]
    } else {
        match config_line(lines.last()) {
            Some(line) => config_lines(lines.drop_last()).push(line),
            None => config_lines(lines.drop_last()),
        }
    }
}

fn parse_line(line: &str) -> (result: Option<ConfigLine>)
    ensures
        match config_line(line@) {
            Some(view) => result matches Some(found) && found@ == view,
            None => result is None,
        },
{
    let line = strip_comment(line);
    let commands = split_commands(line.as_str());
    let ghost all = text::texts(commands@);
    let mut tokens: Option<Vec<String>> = None;
    let mut chained: Vec<Vec<String>> = Vec::new();
    let mut index: usize = 0;
    assert(all.take(0) =~= seq![]);
    while index < commands.len()
        invariant
            index <= commands@.len(),
            all == text::texts(commands@),
            match tokens {
                Some(list) => word_lists(all.take(index as int)) == seq![text::texts(list@)]
                    + all_texts(chained@),
                None => word_lists(all.take(index as int)).len() == 0 && chained@.len() == 0,
            },
        decreases commands@.len() - index,
    {
        let ghost before = chained@;
        let ghost lists = word_lists(all.take(index as int));
        let words = tokenize(commands[index].as_str());
        assert(all.take(index + 1).drop_last() =~= all.take(index as int));
        assert(all.take(index + 1).last() == commands@[index as int]@);
        if words.len() > 0 {
            match tokens {
                None => {
                    tokens = Some(words);
                    assert(lists.push(text::texts(words@)) =~= seq![text::texts(words@)]
                        + all_texts(chained@));
                },
                Some(_) => {
                    chained.push(words);
                    assert(all_texts(chained@) =~= all_texts(before).push(text::texts(words@)));
                    assert(lists.push(text::texts(words@)) =~= lists.take(1) + all_texts(chained@));
                },
            }
        }
        index += 1;
    }
    assert(all.take(index as int) =~= all);
    match tokens {
        Some(tokens) => {
            let ghost lists = word_lists(all);
            assert(lists.skip(1) =~= all_texts(chained@));
            Some(ConfigLine { tokens, chained })
        },
        None => None,
    }
}

pub fn parse(contents: &str) -> (list: Vec<ConfigLine>)
    ensures
        line_views(list@) == config_lines(lines_of(contents@)),
{
    let lines = lines(contents);
    let ghost all = text::texts(lines@);
    let mut list: Vec<ConfigLine> = Vec::new();
    assert(line_views(list@) =~= seq![]);
    assert(all.take(0) =~= seq![]);
    let mut index: usize = 0;
    while index < lines.len()
        invariant
            index <= lines@.len(),
            all == text::texts(lines@),
            line_views(list@) == config_lines(all.take(index as int)),
        decreases lines@.len() - index,
    {
        let ghost before = list@;
        assert(all.take(index + 1).drop_last() =~= all.take(index as int));
        assert(all.take(index + 1).last() == lines@[index as int]@);
        if let Some(line) = parse_line(lines[index].as_str()) {
            list.push(line);
            assert(line_views(list@) =~= line_views(before).push(line@));
        }
        index += 1;
    }
    assert(all.take(index as int) =~= all);
    list
}

// ---------------------------------------------------------------------------
// Keys.

fn single(byte: u8) -> (bytes: Vec<u8>)
    ensures
        bytes@ == seq![byte],
{
    let mut bytes: Vec<u8> = Vec::new();
    bytes.push(byte);
    assert(bytes@ =~= seq![byte]);
    bytes
}

/// The bytes of a key that has a name of its own.
pub open spec fn named_key(key: Seq<char>) -> Option<Seq<u8>> {
    if key == "Enter"@ || key == "C-m"@ || key == "C-j"@ {
        Some(seq![13u8])
    } else if key == "Tab"@ || key == "C-i"@ {
        Some(seq![9u8])
    } else if key == "BTab"@ {
        Some(seq![27u8, 91, 90])
    } else if key == "C-S-Tab"@ {
        Some(seq![9u8])
    } else if key == "Space"@ {
        Some(seq![32u8])
    } else if key == "C-Space"@ {
        Some(seq![0u8])
    } else if key == "BSpace"@ {
        Some(seq![127u8])
    } else if key == "Left"@ {
        Some(seq![27u8, 91, 68])
    } else if key == "Right"@ {
        Some(seq![27u8, 91, 67])
    } else if key == "Up"@ {
        Some(seq![27u8, 91, 65])
    } else if key == "Down"@ {
        Some(seq![27u8, 91, 66])
    } else if key == "C-Left"@ {
        Some(seq![27u8, 91, 49, 59, 53, 68])
    } else if key == "C-Right"@ {
        Some(seq![27u8, 91, 49, 59, 53, 67])
    } else if key == "C-Up"@ {
        Some(seq![27u8, 91, 49, 59, 53, 65])
    } else if key == "C-Down"@ {
        Some(seq![27u8, 91, 49, 59, 53, 66])
    } else if key == "Home"@ {
        Some(seq![27u8, 91, 49, 126])
    } else if key == "End"@ {
        Some(seq![27u8, 91, 52, 126])
    } else if key == "IC"@ || key == "Insert"@ {
        Some(seq![27u8, 91, 50, 126])
    } else if key == "DC"@ || key == "Delete"@ {
        Some(seq![27u8, 91, 51, 126])
    } else if key == "PPage"@ || key == "PageUp"@ || key == "PgUp"@ {
        Some(seq![27u8, 91, 53, 126])
    } else if key == "NPage"@ || key == "PageDown"@ || key == "PgDn"@ {
        Some(seq![27u8, 91, 54, 126])
    } else if key == "F1"@ {
        Some(seq![27u8, 79, 80])
    } else if key == "F2"@ {
        Some(seq![27u8, 79, 81])
    } else if key == "F3"@ {
        Some(seq![27u8, 79, 82])
    } else if key == "F4"@ {
        Some(seq![27u8, 79, 83])
    } else if key == "F5"@ {
        Some(seq![27u8, 91, 49, 53, 126])
    } else if key == "F6"@ {
        Some(seq![27u8, 91, 49, 55, 126])
    } else if key == "F7"@ {
        Some(seq![27u8, 91, 49, 56, 126])
    } else if key == "F8"@ {
        Some(seq![27u8, 91, 49, 57, 126])
    } else if key == "F9"@ {
        Some(seq![27u8, 91, 50, 48, 126])
    } else if key == "F10"@ {
        Some(seq![27u8, 91, 50, 49, 126])
    } else if key == "F11"@ {
        Some(seq![27u8, 91, 50, 51, 126])
    } else if key == "F12"@ {
        Some(seq![27u8, 91, 50, 52, 126])
    } else if key == "Escape"@ || key == "Esc"@ {
        Some(seq![27u8])
    } else {
        None
    }
}

fn bytes_of_named_key(key: &str) -> (bytes: Option<Vec<u8>>)
    ensures
        wire::bytes_view(bytes) == named_key(key@),
{
    if same_text(key, "Enter") || same_text(key, "C-m") || same_text(key, "C-j") {
        Some(single(13))
    } else if same_text(key, "Tab") || same_text(key, "C-i") {
        Some(single(9))
    } else if same_text(key, "BTab") {
        Some(vec![27, 91, 90])
    } else if same_text(key, "C-S-Tab") {
        Some(single(9))
    } else if same_text(key, "Space") {
        Some(single(32))
    } else if same_text(key, "C-Space") {
        Some(single(0))
    } else if same_text(key, "BSpace") {
        Some(single(127))
    } else if same_text(key, "Left") {
        Some(vec![27, 91, 68])
    } else if same_text(key, "Right") {
        Some(vec![27, 91, 67])
    } else if same_text(key, "Up") {
        Some(vec![27, 91, 65])
    } else if same_text(key, "Down") {
        Some(vec![27, 91, 66])
    } else if same_text(key, "C-Left") {
        Some(vec![27, 91, 49, 59, 53, 68])
    } else if same_text(key, "C-Right") {
        Some(vec![27, 91, 49, 59, 53, 67])
    } else if same_text(key, "C-Up") {
        Some(vec![27, 91, 49, 59, 53, 65])
    } else if same_text(key, "C-Down") {
        Some(vec![27, 91, 49, 59, 53, 66])
    } else if same_text(key, "Home") {
        Some(vec![27, 91, 49, 126])
    } else if same_text(key, "End") {
        Some(vec![27, 91, 52, 126])
    } else if same_text(key, "IC") || same_text(key, "Insert") {
        Some(vec![27, 91, 50, 126])
    } else if same_text(key, "DC") || same_text(key, "Delete") {
        Some(vec![27, 91, 51, 126])
    } else if same_text(key, "PPage") || same_text(key, "PageUp") || same_text(key, "PgUp") {
        Some(vec![27, 91, 53, 126])
    } else if same_text(key, "NPage") || same_text(key, "PageDown") || same_text(key, "PgDn") {
        Some(vec![27, 91, 54, 126])
    } else if same_text(key, "F1") {
        Some(vec![27, 79, 80])
    } else if same_text(key, "F2") {
        Some(vec![27, 79, 81])
    } else if same_text(key, "F3") {
        Some(vec![27, 79, 82])
    } else if same_text(key, "F4") {
        Some(vec![27, 79, 83])
    } else if same_text(key, "F5") {
        Some(vec![27, 91, 49, 53, 126])
    } else if same_text(key, "F6") {
        Some(vec![27, 91, 49, 55, 126])
    } else if same_text(key, "F7") {
        Some(vec![27, 91, 49, 56, 126])
    } else if same_text(key, "F8") {
        Some(vec![27, 91, 49, 57, 126])
    } else if same_text(key, "F9") {
        Some(vec![27, 91, 50, 48, 126])
    } else if same_text(key, "F10") {
        Some(vec![27, 91, 50, 49, 126])
    } else if same_text(key, "F11") {
        Some(vec![27, 91, 50, 51, 126])
    } else if same_text(key, "F12") {
        Some(vec![27, 91, 50, 52, 126])
    } else if same_text(key, "Escape") || same_text(key, "Esc") {
        Some(single(27))
    } else {
        None
    }
}

/// A text behind a prefix, if it starts with the prefix.
pub open spec fn behind(text: Seq<char>, prefix: Seq<char>) -> Option<Seq<char>> {
    if text.len() >= prefix.len() && text.take(prefix.len() as int) == prefix {
        Some(text.skip(prefix.len() as int))
    } else {
        None
    }
}

fn strip_prefix(text: &str, prefix: &str) -> (rest: Option<String>)
    ensures
        wire::text_view(rest) == behind(text@, prefix@),
{
    let all = characters(text);
    let start = characters(prefix);
    if all.len() < start.len() {
        return None;
    }
    let mut index: usize = 0;
    while index < start.len()
        invariant
            index <= start@.len() <= all@.len(),
            all@ == text@,
            start@ == prefix@,
            forall|i: int| 0 <= i < index ==> all@[i] == start@[i],
        decreases start@.len() - index,
    {
        if all[index] != start[index] {
            assert(text@.take(prefix@.len() as int)[index as int] != prefix@[index as int]);
            return None;
        }
        index += 1;
    }
    assert(text@.take(prefix@.len() as int) =~= prefix@);
    let rest = string_of(&all, start.len(), all.len());
    assert(rest@ =~= text@.skip(prefix@.len() as int));
    Some(rest)
}

/// The control code of the key with a byte.
pub open spec fn control_code(byte: u8) -> u8 {
    (if 97 <= byte <= 122 {
        (byte - 32) as u8
    } else {
        byte
    }) & 0x1f
}

fn control(byte: u8) -> (code: u8)
    ensures
        code == control_code(byte),
{
    let upper: u8 = if 97 <= byte && byte <= 122 {
        byte - 32
    } else {
        byte
    };
    upper & 0x1f
}

/// The bytes that a terminal sends for a key, by its name behind an optional
/// equals sign: a name of its own, a control key, one with the meta key, or a
/// key of a single byte.
pub open spec fn sent_by(value: Seq<char>) -> Option<Seq<u8>> {
    let key = match behind(value, "="@) {
        Some(rest) => rest,
        None => value,
    };
    match named_key(key) {
        Some(sent) => Some(sent),
        None => match behind(key, "C-"@) {
            Some(rest) => if encode_utf8(rest).len() > 0 {
                Some(seq![control_code(encode_utf8(rest)[0])])
            } else {
                None
            },
            None => match behind(key, "M-C-"@) {
                Some(rest) => if encode_utf8(rest).len() > 0 {
                    Some(seq![27u8, control_code(encode_utf8(rest)[0])])
                } else {
                    None
                },
                None => match behind(key, "M-"@) {
                    Some(rest) => if encode_utf8(rest).len() > 0 {
                        Some(seq![27u8, encode_utf8(rest)[0]])
                    } else {
                        None
                    },
                    None => if encode_utf8(key).len() == 1 {
                        Some(encode_utf8(key))
                    } else {
                        None
                    },
                },
            },
        },
    }
}

/// Convert a tmux key name into the bytes a terminal normally sends for it.
/// The set is intentionally the set used by the user's configuration, with a
/// few common aliases retained for future config migrations.
pub fn key_bytes(value: &str) -> (sent: Option<Vec<u8>>)
    ensures
        wire::bytes_view(sent) == sent_by(value@),
{
    let key = match strip_prefix(value, "=") {
        Some(rest) => rest,
        None => value.to_owned(),
    };
    let named = bytes_of_named_key(key.as_str());
    if named.is_some() {
        return named;
    }
    if let Some(rest) = strip_prefix(key.as_str(), "C-") {
        let bytes = rest.as_str().as_bytes();
        if bytes.len() == 0 {
            return None;
        }
        return Some(single(control(bytes[0])));
    }
    if let Some(rest) = strip_prefix(key.as_str(), "M-C-") {
        let bytes = rest.as_str().as_bytes();
        if bytes.len() == 0 {
            return None;
        }
        return Some(vec![27, control(bytes[0])]);
    }
    if let Some(rest) = strip_prefix(key.as_str(), "M-") {
        let bytes = rest.as_str().as_bytes();
        if bytes.len() == 0 {
            return None;
        }
        return Some(vec![27, bytes[0]]);
    }
    let bytes = bytes_of(key.as_str());
    if bytes.len() == 1 {
        Some(bytes)
    } else {
        None
    }
}

} // verus!
