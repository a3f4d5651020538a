//! What holds of all configuration files.

use vstd::prelude::*;

use crate::config::{self, ConfigLineView, Quoting, Reading};
use crate::text;

verus! {

// ---------------------------------------------------------------------------
// Comments.

proof fn lemma_comment_start(line: Seq<char>, at: int)
    requires
        0 <= at <= line.len(),
    ensures
        at <= config::comment_start(line, at) <= line.len(),
        config::comment_start(line, at) < line.len() ==> config::starts_comment(
            line,
            config::comment_start(line, at),
        ),
        forall|i: int|
            at <= i < config::comment_start(line, at) ==> !#[trigger] config::starts_comment(
                line,
                i,
            ),
    decreases line.len() - at,
{
    if at < line.len() && !config::starts_comment(line, at) {
        lemma_comment_start(line, at + 1);
    }
}

/// A line without its comment has none.
pub proof fn law_comment_is_stripped_once(line: Seq<char>)
    ensures
        config::uncommented(config::uncommented(line)) == config::uncommented(line),
{
    let bare = config::uncommented(line);
    lemma_comment_start(line, 0);
    lemma_comment_start(bare, 0);
    let end = config::comment_start(bare, 0);
    if end < bare.len() {
        assert(bare.take(end) =~= line.take(end));
        assert(config::starts_comment(line, end));
    }
    assert(bare.take(bare.len() as int) =~= bare);
}

/// What is left of a line is its beginning, and what is taken off it starts with
/// a number sign.
pub proof fn law_comment_starts_with_a_number_sign(line: Seq<char>)
    ensures
        ({
            let bare = config::uncommented(line);
            &&& bare.len() <= line.len()
            &&& bare == line.take(bare.len() as int)
            &&& bare.len() < line.len() ==> line[bare.len() as int] == '#'
        }),
{
    lemma_comment_start(line, 0);
}

// ---------------------------------------------------------------------------
// Words.

/// Whether a text has nothing that means more than itself between words.
pub open spec fn is_plain(text: Seq<char>) -> bool {
    forall|i: int|
        0 <= i < text.len() ==> !config::is_quote(#[trigger] text[i]) && text[i] != '\\'
            && !config::is_space(text[i])
}

/// No quote is open, and nothing is escaped.
pub open spec fn outside() -> Quoting {
    Quoting { quote: None, escaped: false }
}

proof fn lemma_plain_text(before: Seq<char>, text: Seq<char>)
    requires
        is_plain(text),
        config::reading_of(before).quoting == outside(),
    ensures
        config::reading_of(before + text) == (Reading {
            word: config::reading_of(before).word + text,
            ..config::reading_of(before)
        }),
    decreases text.len(),
{
    let reading = config::reading_of(before);
    if text.len() > 0 {
        let front = text.drop_last();
        lemma_plain_text(before, front);
        assert((before + text).drop_last() =~= before + front);
        assert(reading.word + text =~= (reading.word + front).push(text.last()));
    } else {
        assert(before + text =~= before);
        assert(reading.word + text =~= reading.word);
    }
}

proof fn lemma_plain_words(words: Seq<Seq<char>>)
    requires
        words.len() > 0,
        forall|i: int| 0 <= i < words.len() ==> (#[trigger] words[i]).len() > 0 && is_plain(words[i]),
    ensures
        config::reading_of(text::joined(words, " "@)) == (Reading {
            words: words.drop_last(),
            word: words.last(),
            quoting: outside(),
        }),
    decreases words.len(),
{
    reveal_strlit(" ");
    let none = Seq::<char>::empty();
    let last = words.last();
    assert(config::reading_of(none).quoting == outside());
    if words.len() == 1 {
        assert(text::joined(words, " "@) =~= none + last);
        lemma_plain_text(none, last);
        assert(config::reading_of(none).word + last =~= last);
        assert(words.drop_last() =~= seq![]);
    } else {
        let front = words.drop_last();
        assert forall|i: int| 0 <= i < front.len() implies (#[trigger] front[i]).len() > 0
            && is_plain(front[i]) by {
            assert(front[i] == words[i]);
        }
        lemma_plain_words(front);
        let head = text::joined(front, " "@);
        let spaced = head.push(' ');
        assert(spaced.drop_last() =~= head);
        assert(config::is_space(' '));
        assert(config::reading_of(spaced) == config::reading_after(config::reading_of(head), ' '));
        assert(front.drop_last().push(front.last()) =~= front);
        assert(front[front.len() - 1].len() > 0);
        lemma_plain_text(spaced, last);
        assert(text::joined(words, " "@) =~= spaced + last);
        assert(seq![] + last =~= last);
    }
}

/// Words with nothing special in them are read as they stand.
pub proof fn law_plain_words_are_read_back(words: Seq<Seq<char>>)
    requires
        forall|i: int| 0 <= i < words.len() ==> (#[trigger] words[i]).len() > 0 && is_plain(words[i]),
    ensures
        config::words_of(text::joined(words, " "@)) == words,
{
    if words.len() == 0 {
        assert(text::joined(words, " "@) =~= seq![]);
        assert(config::words_of(seq![]) =~= words);
    } else {
        lemma_plain_words(words);
        assert(words[words.len() - 1].len() > 0);
        assert(words.drop_last().push(words.last()) =~= words);
    }
}

proof fn lemma_quoted_text(before: Seq<char>, text: Seq<char>, quote: char)
    requires
        config::reading_of(before).quoting == (Quoting { quote: Some(quote), escaped: false }),
        forall|i: int| 0 <= i < text.len() ==> #[trigger] text[i] != quote,
        quote == '\'' || forall|i: int| 0 <= i < text.len() ==> #[trigger] text[i] != '\\',
    ensures
        config::reading_of(before + text) == (Reading {
            word: config::reading_of(before).word + text,
            ..config::reading_of(before)
        }),
    decreases text.len(),
{
    let reading = config::reading_of(before);
    if text.len() > 0 {
        let front = text.drop_last();
        assert forall|i: int| 0 <= i < front.len() implies #[trigger] front[i] != quote by {
            assert(front[i] == text[i]);
        }
        if quote != '\'' {
            assert forall|i: int| 0 <= i < front.len() implies #[trigger] front[i] != '\\' by {
                assert(front[i] == text[i]);
            }
            assert(text[text.len() - 1] != '\\');
        }
        assert(text[text.len() - 1] != quote);
        lemma_quoted_text(before, front, quote);
        assert((before + text).drop_last() =~= before + front);
        assert(reading.word + text =~= (reading.word + front).push(text.last()));
    } else {
        assert(before + text =~= before);
        assert(reading.word + text =~= reading.word);
    }
}

/// Text in quotes is one word, with its space: in single quotes as it stands, in
/// double quotes as long as it has no backslash.
pub proof fn law_quoted_text_is_one_word(text: Seq<char>, quote: char)
    requires
        config::is_quote(quote),
        text.len() > 0,
        forall|i: int| 0 <= i < text.len() ==> #[trigger] text[i] != quote,
        quote == '\'' || forall|i: int| 0 <= i < text.len() ==> #[trigger] text[i] != '\\',
    ensures
        config::words_of(seq![quote] + text + seq![quote]) == seq![text],
{
    let none = Seq::<char>::empty();
    let open = seq![quote];
    assert(open.drop_last() =~= none);
    assert(config::reading_of(open) == config::reading_after(config::reading_of(none), quote));
    lemma_quoted_text(open, text, quote);
    let whole = open + text + seq![quote];
    assert(whole.drop_last() =~= open + text);
    assert(config::reading_of(open).word + text =~= text);
    assert(config::words_of(whole) =~= seq![text]);
}

/// Texts, each in single quotes.
pub open spec fn quoted(words: Seq<Seq<char>>) -> Seq<Seq<char>> {
    words.map_values(|word: Seq<char>| seq!['\''] + word + seq!['\''])
}

/// Whether a text can stand in single quotes, and is not empty.
pub open spec fn is_quotable(word: Seq<char>) -> bool {
    word.len() > 0 && forall|i: int| 0 <= i < word.len() ==> #[trigger] word[i] != '\''
}

/// Text in single quotes goes on with the word before it.
proof fn lemma_quoted_behind(before: Seq<char>, word: Seq<char>)
    requires
        config::reading_of(before).quoting == outside(),
        is_quotable(word),
    ensures
        config::reading_of(before + (seq!['\''] + word + seq!['\''])) == (Reading {
            word: config::reading_of(before).word + word,
            ..config::reading_of(before)
        }),
{
    let open = before.push('\'');
    assert(open.drop_last() =~= before);
    assert(config::reading_of(open) == config::reading_after(config::reading_of(before), '\''));
    lemma_quoted_text(open, word, '\'');
    let whole = before + (seq!['\''] + word + seq!['\'']);
    assert(whole.drop_last() =~= open + word);
    assert(whole.last() == '\'');
}

proof fn lemma_quoted_words(words: Seq<Seq<char>>)
    requires
        words.len() > 0,
        forall|i: int| 0 <= i < words.len() ==> is_quotable(#[trigger] words[i]),
    ensures
        config::reading_of(text::joined(quoted(words), " "@)) == (Reading {
            words: words.drop_last(),
            word: words.last(),
            quoting: outside(),
        }),
    decreases words.len(),
{
    reveal_strlit(" ");
    let none = Seq::<char>::empty();
    let last = words.last();
    let shown = seq!['\''] + last + seq!['\''];
    assert(is_quotable(words[words.len() - 1]));
    assert(quoted(words).last() == shown);
    if words.len() == 1 {
        assert(text::joined(quoted(words), " "@) =~= none + shown);
        lemma_quoted_behind(none, last);
        assert(config::reading_of(none).word + last =~= last);
        assert(words.drop_last() =~= seq![]);
    } else {
        let front = words.drop_last();
        assert forall|i: int| 0 <= i < front.len() implies is_quotable(#[trigger] front[i]) by {
            assert(front[i] == words[i]);
        }
        lemma_quoted_words(front);
        assert(quoted(words).drop_last() =~= quoted(front));
        let head = text::joined(quoted(front), " "@);
        let spaced = head.push(' ');
        assert(spaced.drop_last() =~= head);
        assert(config::is_space(' '));
        assert(config::reading_of(spaced) == config::reading_after(config::reading_of(head), ' '));
        assert(front.drop_last().push(front.last()) =~= front);
        assert(is_quotable(front[front.len() - 1]));
        lemma_quoted_behind(spaced, last);
        assert(text::joined(quoted(words), " "@) =~= spaced + shown);
        assert(seq![] + last =~= last);
    }
}

/// Words in single quotes are read as they stand, with their space, backslashes
/// and double quotes.
pub proof fn law_quoted_words_are_read_back(words: Seq<Seq<char>>)
    requires
        forall|i: int| 0 <= i < words.len() ==> is_quotable(#[trigger] words[i]),
    ensures
        config::words_of(text::joined(quoted(words), " "@)) == words,
{
    if words.len() == 0 {
        assert(text::joined(quoted(words), " "@) =~= seq![]);
        assert(config::words_of(seq![]) =~= words);
    } else {
        lemma_quoted_words(words);
        assert(is_quotable(words[words.len() - 1]));
        assert(words.drop_last().push(words.last()) =~= words);
    }
}

proof fn lemma_no_empty_word(command: Seq<char>)
    ensures
        forall|i: int|
            0 <= i < config::reading_of(command).words.len() ==> (#[trigger] config::reading_of(
                command,
            ).words[i]).len() > 0,
    decreases command.len(),
{
    if command.len() > 0 {
        lemma_no_empty_word(command.drop_last());
    }
}

/// No word is empty: a pair of quotes with nothing in it is none.
pub proof fn law_no_word_is_empty(command: Seq<char>)
    ensures
        forall|i: int|
            0 <= i < config::words_of(command).len() ==> (#[trigger] config::words_of(
                command,
            )[i]).len() > 0,
{
    lemma_no_empty_word(command);
}

/// A text with a backslash before each of its characters.
pub open spec fn escaped(text: Seq<char>) -> Seq<char>
    decreases text.len(),
{
    if text.len() == 0 {
        seq![]
    } else {
        escaped(text.drop_last()).push('\\').push(text.last())
    }
}

proof fn lemma_escaped_text(text: Seq<char>)
    ensures
        config::reading_of(escaped(text)) == (Reading {
            words: seq![],
            word: text,
            quoting: outside(),
        }),
    decreases text.len(),
{
    if text.len() > 0 {
        let front = text.drop_last();
        lemma_escaped_text(front);
        let half = escaped(front).push('\\');
        assert(half.drop_last() =~= escaped(front));
        assert(escaped(text).drop_last() =~= half);
        assert(front.push(text.last()) =~= text);
        let before = config::reading_of(escaped(front));
        assert(config::reading_of(half) == config::reading_after(before, '\\'));
        assert(config::reading_of(escaped(text)) == config::reading_after(
            config::reading_of(half),
            text.last(),
        ));
    } else {
        assert(text =~= seq![]);
    }
}

/// Any text can be written as one word, with a backslash before each character.
pub proof fn law_escaped_text_is_one_word(text: Seq<char>)
    requires
        text.len() > 0,
    ensures
        config::words_of(escaped(text)) == seq![text],
{
    lemma_escaped_text(text);
    assert(config::words_of(escaped(text)) =~= seq![text]);
}

// ---------------------------------------------------------------------------
// Commands.

proof fn lemma_command_end(line: Seq<char>, quote: Option<char>, at: int, end: int)
    requires
        0 <= at <= end <= line.len(),
        end == line.len() || config::separates(line, quote, end),
        forall|i: int| at <= i < end ==> !#[trigger] config::separates(line, quote, i),
    ensures
        config::command_end(line, quote, at) == end,
    decreases end - at,
{
    if at < end {
        assert(!config::separates(line, quote, at));
        lemma_command_end(line, quote, at + 1, end);
    }
}

proof fn lemma_no_separator(line: Seq<char>, quote: Option<char>, at: int, position: int)
    requires
        0 <= at <= position < line.len(),
        config::command_end(line, quote, at) >= line.len(),
    ensures
        !config::separates(line, quote, position),
    decreases position - at,
{
    if at < position {
        lemma_no_separator(line, quote, at + 1, position);
    }
}

/// A command ends at `\;`, and the rest of the line is commands of their own.
pub proof fn law_commands_are_separated(command: Seq<char>, rest: Seq<char>)
    requires
        config::command_end(command, None, 0) >= command.len(),
        config::quoting_of(command, None) == outside(),
    ensures
        config::commands_of(command + seq!['\\', ';'] + rest, None) == seq![command]
            + config::commands_of(rest, None),
{
    let line = command + seq!['\\', ';'] + rest;
    let end = command.len() as int;
    assert(line.take(end) =~= command);
    assert(line[end] == '\\' && line[end + 1] == ';');
    assert forall|i: int| 0 <= i < end implies !#[trigger] config::separates(line, None, i) by {
        lemma_no_separator(command, None, 0, i);
        assert(line.take(i) =~= command.take(i));
        assert(line[i] == command[i]);
        if i + 1 < end {
            assert(line[i + 1] == command[i + 1]);
        }
    }
    lemma_command_end(line, None, 0, end);
    assert(line.skip(end + 2) =~= rest);
}

// ---------------------------------------------------------------------------
// Files.

proof fn lemma_line_end(contents: Seq<char>, at: int)
    requires
        0 <= at <= contents.len(),
    ensures
        at <= config::line_end(contents, at) <= contents.len(),
    decreases contents.len() - at,
{
    if at < contents.len() && contents[at] != '\n' {
        lemma_line_end(contents, at + 1);
    }
}

proof fn lemma_shifted_line_end(before: Seq<char>, contents: Seq<char>, at: int)
    requires
        0 <= at <= contents.len(),
    ensures
        config::line_end(before + contents, before.len() + at) == before.len() + config::line_end(
            contents,
            at,
        ),
    decreases contents.len() - at,
{
    if at < contents.len() {
        assert((before + contents)[before.len() + at] == contents[at]);
        if contents[at] != '\n' {
            lemma_shifted_line_end(before, contents, at + 1);
        }
    }
}

proof fn lemma_shifted_lines(before: Seq<char>, contents: Seq<char>, at: int)
    requires
        0 <= at <= contents.len(),
    ensures
        config::lines_from(before + contents, before.len() + at) == config::lines_from(
            contents,
            at,
        ),
    decreases contents.len() - at,
{
    let all = before + contents;
    lemma_shifted_line_end(before, contents, at);
    lemma_line_end(contents, at);
    let end = config::line_end(contents, at);
    if at < contents.len() {
        assert(all.skip(before.len() + at) =~= contents.skip(at));
        if end < contents.len() {
            assert(all.subrange(before.len() + at, before.len() + end) =~= contents.subrange(
                at,
                end,
            ));
            lemma_shifted_lines(before, contents, end + 1);
        }
    }
}

proof fn lemma_line_end_before(contents: Seq<char>, rest: Seq<char>, at: int)
    requires
        0 <= at <= contents.len(),
        rest.len() > 0,
        rest[0] == '\n',
    ensures
        config::line_end(contents + rest, at) == config::line_end(contents, at),
    decreases contents.len() - at,
{
    let all = contents + rest;
    if at < contents.len() {
        assert(all[at] == contents[at]);
        if contents[at] != '\n' {
            lemma_line_end_before(contents, rest, at + 1);
        }
    } else {
        assert(all[at] == '\n');
    }
}

proof fn lemma_lines_in_order(first: Seq<Seq<char>>, second: Seq<Seq<char>>)
    ensures
        config::config_lines(first + second) == config::config_lines(first)
            + config::config_lines(second),
    decreases second.len(),
{
    if second.len() > 0 {
        assert((first + second).drop_last() =~= first + second.drop_last());
        lemma_lines_in_order(first, second.drop_last());
        assert(config::config_lines(first + second) =~= config::config_lines(first)
            + config::config_lines(second));
    } else {
        assert(first + second =~= first);
        assert(config::config_lines(first) + config::config_lines(second)
            =~= config::config_lines(first));
    }
}

proof fn lemma_empty_line()
    ensures
        config::config_line(seq![]) is None,
        config::config_lines(seq![seq![]]) == Seq::<ConfigLineView>::empty(),
{
    let none = Seq::<char>::empty();
    lemma_comment_start(none, 0);
    assert(config::uncommented(none) =~= none);
    assert(config::is_blank(none));
    assert(config::command_end(none, None, 0) == 0);
    assert(config::commands_of(none, None).len() == 0);
    let one = seq![none];
    assert(one.drop_last() =~= seq![]);
    assert(one.last() == none);
    assert(config::config_lines(one) == config::config_lines(one.drop_last()));
    assert(config::config_lines(one.drop_last()) =~= seq![]);
}

proof fn lemma_joined_files(first: Seq<char>, second: Seq<char>, at: int)
    requires
        0 <= at <= first.len(),
        first.len() > 0 ==> first.last() != '\r',
    ensures
        config::config_lines(config::lines_from(first + seq!['\n'] + second, at))
            == config::config_lines(config::lines_from(first, at)) + config::config_lines(
            config::lines_from(second, 0),
        ),
    decreases first.len() - at,
{
    let all = first + seq!['\n'] + second;
    let length = first.len() as int;
    let end = config::line_end(first, at);
    assert(all =~= first + (seq!['\n'] + second));
    lemma_line_end_before(first, seq!['\n'] + second, at);
    lemma_line_end(first, at);
    assert(all[length] == '\n');
    let later = config::lines_from(second, 0);
    lemma_shifted_lines(first + seq!['\n'], second, 0);
    if end < length {
        let line = config::without_return(first.subrange(at, end));
        assert(all.subrange(at, end) =~= first.subrange(at, end));
        lemma_joined_files(first, second, end + 1);
        lemma_lines_in_order(seq![line], config::lines_from(all, end + 1));
        lemma_lines_in_order(seq![line], config::lines_from(first, end + 1));
        let front = config::config_lines(seq![line]);
        let rest = config::config_lines(config::lines_from(first, end + 1));
        let last = config::config_lines(later);
        assert(front + (rest + last) =~= (front + rest) + last);
    } else if at < length {
        let line = first.skip(at);
        assert(all.subrange(at, length) =~= line);
        assert(line.last() == first.last());
        lemma_lines_in_order(seq![line], later);
    } else {
        lemma_empty_line();
        assert(all.subrange(at, length) =~= seq![]);
        lemma_lines_in_order(seq![seq![]], later);
        let last = config::config_lines(later);
        assert(Seq::<ConfigLineView>::empty() + last =~= last);
        assert(config::lines_from(first, at) =~= seq![]);
    }
}

/// Two files behind one another say what both say, in that order. (A carriage
/// return at the very end of the first would become part of a line end.)
pub proof fn law_files_can_be_joined(first: Seq<char>, second: Seq<char>)
    requires
        first.len() > 0 ==> first.last() != '\r',
    ensures
        config::config_lines(config::lines_of(first + seq!['\n'] + second))
            == config::config_lines(config::lines_of(first)) + config::config_lines(
            config::lines_of(second),
        ),
{
    lemma_joined_files(first, second, 0);
}

// ---------------------------------------------------------------------------
// Chained commands.

/// No command of a line is lost: the first with words makes the tokens, and all
/// others with words are chained behind it, in their order.
pub proof fn law_no_command_is_lost(line: Seq<char>)
    ensures
        ({
            let lists = config::word_lists(config::commands_of(config::uncommented(line), None));
            match config::config_line(line) {
                Some(read) => seq![read.tokens] + read.chained == lists,
                None => lists.len() == 0,
            }
        }),
{
    let lists = config::word_lists(config::commands_of(config::uncommented(line), None));
    if lists.len() > 0 {
        assert(seq![lists[0]] + lists.skip(1) =~= lists);
    }
}

/// Every command with words counts, in the order of the commands.
pub proof fn law_commands_count_in_order(first: Seq<Seq<char>>, command: Seq<char>)
    ensures
        config::words_of(command).len() > 0 ==> config::word_lists(first.push(command))
            == config::word_lists(first).push(config::words_of(command)),
        config::words_of(command).len() == 0 ==> config::word_lists(first.push(command))
            == config::word_lists(first),
{
    assert(first.push(command).drop_last() =~= first);
}

proof fn lemma_lists_in_order(first: Seq<Seq<char>>, second: Seq<Seq<char>>)
    ensures
        config::word_lists(first + second) == config::word_lists(first) + config::word_lists(
            second,
        ),
    decreases second.len(),
{
    if second.len() > 0 {
        assert((first + second).drop_last() =~= first + second.drop_last());
        lemma_lists_in_order(first, second.drop_last());
        assert(config::word_lists(first + second) =~= config::word_lists(first)
            + config::word_lists(second));
    } else {
        assert(first + second =~= first);
        assert(config::word_lists(first) + config::word_lists(second) =~= config::word_lists(
            first,
        ));
    }
}

proof fn lemma_blank_has_no_words(text: Seq<char>)
    requires
        config::is_blank(text),
    ensures
        config::reading_of(text) == (Reading { words: seq![], word: seq![], quoting: outside() }),
        config::words_of(text).len() == 0,
    decreases text.len(),
{
    if text.len() > 0 {
        let front = text.drop_last();
        assert forall|i: int| 0 <= i < front.len() implies config::is_space(#[trigger] front[i]) by {
            assert(front[i] == text[i]);
        }
        lemma_blank_has_no_words(front);
        assert(config::is_space(text[text.len() - 1]));
    }
}

proof fn lemma_quoting_goes_on(first: Seq<char>, second: Seq<char>, quote: Option<char>)
    requires
        !config::quoting_of(first, quote).escaped,
    ensures
        config::quoting_of(first + second, quote) == config::quoting_of(
            second,
            config::quoting_of(first, quote).quote,
        ),
    decreases second.len(),
{
    if second.len() > 0 {
        assert((first + second).drop_last() =~= first + second.drop_last());
        lemma_quoting_goes_on(first, second.drop_last(), quote);
    } else {
        assert(first + second =~= first);
    }
}

proof fn lemma_command_ends_at(line: Seq<char>, quote: Option<char>, at: int)
    requires
        0 <= at <= line.len(),
    ensures
        at <= config::command_end(line, quote, at) <= line.len(),
        config::command_end(line, quote, at) < line.len() ==> config::separates(
            line,
            quote,
            config::command_end(line, quote, at),
        ),
        forall|i: int|
            at <= i < config::command_end(line, quote, at) ==> !#[trigger] config::separates(
                line,
                quote,
                i,
            ),
    decreases line.len() - at,
{
    if at < line.len() && !config::separates(line, quote, at) {
        lemma_command_ends_at(line, quote, at + 1);
    }
}

proof fn lemma_chain(line: Seq<char>, more: Seq<char>, quote: Option<char>)
    requires
        config::quoting_of(line, quote) == outside(),
        config::command_end(more, None, 0) >= more.len(),
        config::words_of(more).len() > 0,
    ensures
        config::word_lists(config::commands_of(line + seq!['\\', ';'] + more, quote))
            == config::word_lists(config::commands_of(line, quote)).push(config::words_of(more)),
    decreases line.len(),
{
    let all = line + seq!['\\', ';'] + more;
    let length = line.len() as int;
    let end = config::command_end(line, quote, 0);
    lemma_command_ends_at(line, quote, 0);
    assert(all.take(length) =~= line);
    assert(all[length] == '\\' && all[length + 1] == ';');
    assert forall|i: int| 0 <= i < length implies config::separates(all, quote, i)
        == config::separates(line, quote, i) by {
        assert(all.take(i) =~= line.take(i));
        assert(all[i] == line[i]);
        if i + 1 < length {
            assert(all[i + 1] == line[i + 1]);
        }
    }
    if end >= length {
        assert(config::separates(all, quote, length));
        lemma_command_end(all, quote, 0, length);
        assert(all.skip(length + 2) =~= more);
        if config::is_blank(more) {
            lemma_blank_has_no_words(more);
        }
        assert(config::commands_of(more, None) =~= seq![more]);
        assert(config::commands_of(all, quote) =~= seq![line, more]);
        law_commands_count_in_order(seq![line], more);
        assert(seq![line].push(more) =~= seq![line, more]);
        law_commands_count_in_order(seq![], line);
        assert(Seq::<Seq<char>>::empty().push(line) =~= seq![line]);
        if config::is_blank(line) {
            lemma_blank_has_no_words(line);
        }
    } else {
        let head = line.take(end);
        let rest = line.skip(end + 2);
        lemma_command_end(all, quote, 0, end);
        assert(all.take(end) =~= head);
        assert(all.skip(end + 2) =~= rest + seq!['\\', ';'] + more);
        let inner = config::quoting_of(head, quote).quote;
        let separator = line.subrange(end, end + 2);
        assert(line =~= head + (separator + rest));
        lemma_quoting_goes_on(head, separator + rest, quote);
        assert(separator.drop_last() =~= seq!['\\']);
        assert(seq!['\\'].drop_last() =~= Seq::<char>::empty());
        reveal_with_fuel(config::quoting_of, 3);
        assert(config::quoting_of(separator, inner).quote == inner);
        lemma_quoting_goes_on(separator, rest, inner);
        lemma_chain(rest, more, inner);
        let lists = config::word_lists(seq![head]);
        let later = config::word_lists(config::commands_of(rest, inner));
        lemma_lists_in_order(seq![head], config::commands_of(rest, inner));
        lemma_lists_in_order(
            seq![head],
            config::commands_of(rest + seq!['\\', ';'] + more, inner),
        );
        assert(lists + later.push(config::words_of(more)) =~= (lists + later).push(
            config::words_of(more),
        ));
    }
}

/// Chaining one more command to a line appends exactly its words.
pub proof fn law_chained_command_is_appended(line: Seq<char>, more: Seq<char>)
    requires
        config::config_line(line) is Some,
        config::quoting_of(line, None) == outside(),
        config::command_end(more, None, 0) >= more.len(),
        config::words_of(more).len() > 0,
        config::uncommented(line + seq!['\\', ';'] + more) == line + seq!['\\', ';'] + more,
    ensures
        config::config_line(line + seq!['\\', ';'] + more) == Some(
            ConfigLineView {
                tokens: config::config_line(line)->0.tokens,
                chained: config::config_line(line)->0.chained.push(config::words_of(more)),
            },
        ),
{
    let all = line + seq!['\\', ';'] + more;
    lemma_comment_start(all, 0);
    lemma_comment_start(line, 0);
    let end = config::comment_start(line, 0);
    if end < line.len() {
        assert(line.take(end) =~= all.take(end));
        assert(all[end] == line[end]);
        assert(config::starts_comment(all, end));
        assert(all.take(all.len() as int) =~= all);
        assert(config::comment_start(all, 0) == all.len()) by {
            assert(config::uncommented(all).len() == config::comment_start(all, 0));
        }
    }
    assert(line.take(line.len() as int) =~= line);
    lemma_chain(line, more, None);
    let lists = config::word_lists(config::commands_of(line, None));
    let words = config::words_of(more);
    assert(lists.push(words).skip(1) =~= lists.skip(1).push(words));
}

// ---------------------------------------------------------------------------
// Where comments and lines end.

/// A number sign outside quotes, and not behind a backslash, starts a comment.
pub proof fn law_comment_is_cut_off(text: Seq<char>, comment: Seq<char>)
    requires
        config::quoting_of(text, None) == outside(),
        config::uncommented(text) == text,
    ensures
        config::uncommented(text + seq!['#'] + comment) == text,
{
    let line = text + seq!['#'] + comment;
    let length = text.len() as int;
    lemma_comment_start(text, 0);
    lemma_comment_start(line, 0);
    assert(line.take(length) =~= text);
    assert(line[length] == '#');
    assert(config::starts_comment(line, length));
    let end = config::comment_start(line, 0);
    if end < length {
        assert(line.take(end) =~= text.take(end));
        assert(line[end] == text[end]);
        assert(config::starts_comment(text, end));
        assert(config::uncommented(text).len() == config::comment_start(text, 0));
    }
}

/// Text without a number sign has no comment.
pub proof fn law_text_without_a_number_sign_stays(text: Seq<char>)
    requires
        !text.contains('#'),
    ensures
        config::uncommented(text) == text,
{
    lemma_comment_start(text, 0);
    let end = config::comment_start(text, 0);
    if end < text.len() {
        assert(text[end] == '#');
    }
    assert(text.take(text.len() as int) =~= text);
}

/// A number sign in quotes starts no comment.
pub proof fn law_quoted_number_sign_is_kept(body: Seq<char>, quote: char)
    requires
        config::is_quote(quote),
        !body.contains(quote),
        !body.contains('\\'),
    ensures
        config::uncommented(seq![quote] + body + seq![quote]) == seq![quote] + body + seq![quote],
{
    let line = seq![quote] + body + seq![quote];
    lemma_comment_start(line, 0);
    let end = config::comment_start(line, 0);
    if end < line.len() {
        if 0 < end < line.len() - 1 {
            lemma_inside_quotes(line, quote, end);
        }
    }
    assert(line.take(line.len() as int) =~= line);
}

proof fn lemma_inside_quotes(line: Seq<char>, quote: char, at: int)
    requires
        config::is_quote(quote),
        1 <= at < line.len(),
        line[0] == quote,
        forall|i: int| 1 <= i < at ==> #[trigger] line[i] != quote && line[i] != '\\',
    ensures
        config::quoting_of(line.take(at), None) == (Quoting { quote: Some(quote), escaped: false }),
    decreases at,
{
    assert(line.take(at).drop_last() =~= line.take(at - 1));
    assert(line.take(at).last() == line[at - 1]);
    if at == 1 {
        assert(line.take(0) =~= seq![]);
    } else {
        lemma_inside_quotes(line, quote, at - 1);
    }
}

/// A line ends at its line feed, and a carriage return right before that belongs
/// to the end; the last line needs neither.
pub proof fn law_line_ends_at_a_line_feed(line: Seq<char>, rest: Seq<char>)
    requires
        !line.contains('\n'),
        line.len() > 0 ==> line.last() != '\r',
    ensures
        config::lines_of(line + seq!['\n'] + rest) == seq![line] + config::lines_of(rest),
        config::lines_of(line + seq!['\r', '\n'] + rest) == seq![line] + config::lines_of(rest),
        line.len() > 0 ==> config::lines_of(line) == seq![line],
        config::lines_of(seq![]) == Seq::<Seq<char>>::empty(),
{
    let plain = line + seq!['\n'] + rest;
    let long = line + seq!['\r', '\n'] + rest;
    let length = line.len() as int;
    assert forall|i: int| 0 <= i < length implies line[i] != '\n' by {
        if line[i] == '\n' {
            assert(line.contains(line[i]));
        }
    }
    assert(plain[length] == '\n' && long[length] == '\r' && long[length + 1] == '\n');
    lemma_line_ends(plain, 0, length);
    lemma_line_ends(long, 0, length + 1);
    lemma_line_ends(line, 0, length);
    assert(plain.subrange(0, length) =~= line);
    assert(long.subrange(0, length + 1).drop_last() =~= line);
    assert(long.subrange(0, length + 1).last() == '\r');
    lemma_shifted_lines(line + seq!['\n'], rest, 0);
    lemma_shifted_lines(line + seq!['\r', '\n'], rest, 0);
    assert(line.skip(0) =~= line);
    assert(config::lines_of(seq![]) =~= Seq::<Seq<char>>::empty());
}

proof fn lemma_line_ends(contents: Seq<char>, at: int, end: int)
    requires
        0 <= at <= end <= contents.len(),
        end < contents.len() ==> contents[end] == '\n',
        forall|i: int| at <= i < end ==> #[trigger] contents[i] != '\n',
    ensures
        config::line_end(contents, at) == end,
    decreases end - at,
{
    if at < end {
        assert(contents[at] != '\n');
        lemma_line_ends(contents, at + 1, end);
    }
}

/// Each line of a file with a command counts, in the order of the lines.
pub proof fn law_lines_count_in_order(first: Seq<Seq<char>>, line: Seq<char>)
    ensures
        config::config_lines(first.push(line)) == match config::config_line(line) {
            Some(read) => config::config_lines(first).push(read),
            None => config::config_lines(first),
        },
{
    assert(first.push(line).drop_last() =~= first);
}

/// A text with a backslash before each of its characters reads the same in double
/// quotes.
pub proof fn law_escaped_text_in_double_quotes(text: Seq<char>)
    requires
        text.len() > 0,
    ensures
        config::words_of(seq!['"'] + escaped(text) + seq!['"']) == seq![text],
{
    let none = Seq::<char>::empty();
    let open = seq!['"'];
    assert(open.drop_last() =~= none);
    assert(config::reading_of(open) == config::reading_after(config::reading_of(none), '"'));
    lemma_escaped_in_quotes(text);
    let whole = open + escaped(text) + seq!['"'];
    assert(whole.drop_last() =~= open + escaped(text));
    assert(config::words_of(whole) =~= seq![text]);
}

proof fn lemma_escaped_in_quotes(text: Seq<char>)
    ensures
        config::reading_of(seq!['"'] + escaped(text)) == (Reading {
            words: seq![],
            word: text,
            quoting: Quoting { quote: Some('"'), escaped: false },
        }),
    decreases text.len(),
{
    let open = seq!['"'];
    if text.len() > 0 {
        let front = text.drop_last();
        lemma_escaped_in_quotes(front);
        let earlier = open + escaped(front);
        let half = earlier.push('\\');
        let whole = open + escaped(text);
        assert(half.drop_last() =~= earlier);
        assert(whole.drop_last() =~= half);
        assert(whole.last() == text.last());
        assert(front.push(text.last()) =~= text);
        assert(config::reading_of(half) == config::reading_after(
            config::reading_of(earlier),
            '\\',
        ));
    } else {
        assert(text =~= seq![]);
        let none = Seq::<char>::empty();
        assert(open + escaped(text) =~= open);
        assert(open.drop_last() =~= none);
        assert(config::reading_of(open) == config::reading_after(config::reading_of(none), '"'));
    }
}

/// Words stand next to each other only where nothing but quotes is between them:
/// quoted text goes on with the word before it.
pub proof fn law_quoted_text_goes_on_with_the_word(first: Seq<char>, second: Seq<char>)
    requires
        first.len() > 0,
        is_plain(first),
        is_quotable(second),
    ensures
        config::words_of(first + (seq!['\''] + second + seq!['\''])) == seq![first + second],
{
    let none = Seq::<char>::empty();
    lemma_plain_text(none, first);
    assert(none + first =~= first);
    assert(config::reading_of(none).word + first =~= first);
    lemma_quoted_behind(first, second);
    assert(config::words_of(first + (seq!['\''] + second + seq!['\''])) =~= seq![first + second]);
}

/// Space alone is no command, and a line of it says nothing.
pub proof fn law_space_is_no_command(text: Seq<char>, quote: Option<char>)
    requires
        config::is_blank(text),
    ensures
        config::commands_of(text, quote) == Seq::<Seq<char>>::empty(),
        config::config_line(text) is None,
{
    lemma_blank_has_no_separator(text, quote, 0);
    lemma_blank_has_no_comment(text, 0);
    lemma_blank_has_no_separator(text, None, 0);
    assert(text.take(text.len() as int) =~= text);
}

proof fn lemma_blank_has_no_separator(text: Seq<char>, quote: Option<char>, at: int)
    requires
        config::is_blank(text),
        0 <= at <= text.len(),
    ensures
        config::command_end(text, quote, at) == text.len(),
    decreases text.len() - at,
{
    if at < text.len() {
        assert(config::is_space(text[at]));
        lemma_blank_has_no_separator(text, quote, at + 1);
    }
}

proof fn lemma_blank_has_no_comment(text: Seq<char>, at: int)
    requires
        config::is_blank(text),
        0 <= at <= text.len(),
    ensures
        config::comment_start(text, at) == text.len(),
    decreases text.len() - at,
{
    if at < text.len() {
        assert(config::is_space(text[at]));
        lemma_blank_has_no_comment(text, at + 1);
    }
}

/// A backslash at the very end stands for itself.
pub proof fn law_last_backslash_is_kept(text: Seq<char>)
    requires
        is_plain(text),
    ensures
        config::words_of(text.push('\\')) == seq![text.push('\\')],
{
    let none = Seq::<char>::empty();
    lemma_plain_text(none, text);
    assert(none + text =~= text);
    assert(config::reading_of(none).word + text =~= text);
    assert(text.push('\\').drop_last() =~= text);
    assert(config::words_of(text.push('\\')) =~= seq![text.push('\\')]);
}

/// The last line is what it is, where no line feed ends it: a carriage return at
/// its end is part of it.
pub proof fn law_last_line_is_kept(text: Seq<char>)
    requires
        text.len() > 0,
        !text.contains('\n'),
    ensures
        config::lines_of(text) == seq![text],
{
    assert forall|i: int| 0 <= i < text.len() implies #[trigger] text[i] != '\n' by {
        if text[i] == '\n' {
            assert(text.contains(text[i]));
        }
    }
    lemma_line_ends(text, 0, text.len() as int);
    assert(text.skip(0) =~= text);
}

} // verus!
