use tm::config::{key_bytes, parse, split_commands, strip_comment, tokenize};

#[test]
fn config_parser_preserves_chained_and_quoted_commands() {
    let lines = parse(
        r###"bind Enter source-file ~/.config/tmux/tmux.conf \; display 'configuration reloaded.'
bind r command-prompt -p "rename window:" "rename-window '%%'"
set -g status-left "#{?client_prefix,#[fg=yellow],}(#S) " # comment
"###,
    );
    assert_eq!(lines.len(), 3);
    assert_eq!(lines[0].tokens[0], "bind");
    assert_eq!(lines[0].chained[0], ["display", "configuration reloaded."]);
    assert_eq!(lines[1].tokens[5], "rename-window '%%'");
    assert_eq!(lines[2].tokens[3], "#{?client_prefix,#[fg=yellow],}(#S) ");
}

#[test]
fn config_key_names_cover_prefix_and_arrow_bindings() {
    assert_eq!(key_bytes("C-a"), Some(vec![1]));
    assert_eq!(key_bytes("C-n"), Some(vec![14]));
    assert_eq!(key_bytes("C-Left"), Some(b"\x1b[1;5D".to_vec()));
    assert_eq!(key_bytes("\\"), Some(vec![b'\\']));
}

#[test]
fn config_key_names_cover_common_terminal_keys() {
    assert_eq!(key_bytes("C-Space"), Some(vec![0]));
    assert_eq!(key_bytes("BSpace"), Some(vec![0x7f]));
    assert_eq!(key_bytes("Home"), Some(b"\x1b[1~".to_vec()));
    assert_eq!(key_bytes("End"), Some(b"\x1b[4~".to_vec()));
    assert_eq!(key_bytes("Delete"), Some(b"\x1b[3~".to_vec()));
    assert_eq!(key_bytes("PageUp"), Some(b"\x1b[5~".to_vec()));
    assert_eq!(key_bytes("PageDown"), Some(b"\x1b[6~".to_vec()));
    assert_eq!(key_bytes("F1"), Some(b"\x1bOP".to_vec()));
    assert_eq!(key_bytes("F12"), Some(b"\x1b[24~".to_vec()));
    assert_eq!(key_bytes("M-C-a"), Some(vec![0x1b, 1]));
}

#[test]
fn comments_are_stripped_once() {
    for line in ["set x # y # z", "a '#b' #c", "a \\# b", "#", ""] {
        let bare = strip_comment(line);
        assert!(line.starts_with(&bare));
        assert_eq!(strip_comment(&bare), bare);
    }
    assert_eq!(strip_comment("set x # y # z"), "set x ");
    assert_eq!(strip_comment("a '#b' #c"), "a '#b' ");
    assert_eq!(strip_comment("a \\# b"), "a \\# b");
}

#[test]
fn plain_words_are_read_back() {
    assert_eq!(tokenize("bind -n C-a send"), ["bind", "-n", "C-a", "send"]);
    assert_eq!(tokenize("  spread \t out "), ["spread", "out"]);
    assert_eq!(tokenize("wide\u{3000}space\u{85}too"), ["wide", "space", "too"]);
    assert!(tokenize("").is_empty());
}

#[test]
fn quoted_text_is_one_word() {
    assert_eq!(tokenize("'a b \" \\ c'"), ["a b \" \\ c"]);
    assert_eq!(tokenize("\"it's one\""), ["it's one"]);
    assert_eq!(tokenize("\"a \\\" b\""), ["a \" b"]);
    assert_eq!(tokenize("un'quoted and'quoted"), ["unquoted andquoted"]);
    assert!(tokenize("''").is_empty());
}

#[test]
fn escaped_text_is_one_word() {
    assert_eq!(tokenize("\\a\\ \\'\\\\"), ["a '\\"]);
    assert_eq!(tokenize("end\\"), ["end\\"]);
}

#[test]
fn commands_are_separated() {
    assert_eq!(split_commands("a b \\; c \\; d"), ["a b ", " c ", " d"]);
    assert_eq!(split_commands("a '\\;' b"), ["a '\\;' b"]);
    assert_eq!(split_commands("a \\;  "), ["a "]);
    assert!(split_commands("   ").is_empty());
}

#[test]
fn files_can_be_joined() {
    let first = "set a 1\r\n# nothing\nbind x y \\; z";
    let second = "set b 2\n";
    let both = parse(&format!("{first}\n{second}"));
    let mut apart = parse(first);
    apart.extend(parse(second));
    assert_eq!(format!("{both:?}"), format!("{apart:?}"));
    assert_eq!(both.len(), 3);
    assert_eq!(both[0].tokens, ["set", "a", "1"]);
    assert_eq!(both[1].chained, vec![vec!["z".to_owned()]]);
}

#[test]
fn keys_without_a_meaning_are_none() {
    assert_eq!(key_bytes("F13"), None);
    assert_eq!(key_bytes("NoSuchKey"), None);
    assert_eq!(key_bytes("=x"), Some(vec![b'x']));
    assert_eq!(key_bytes("é"), None);
    assert_eq!(key_bytes("C-"), None);
    assert_eq!(key_bytes("M-x"), Some(vec![0x1b, b'x']));
}

#[test]
fn quoted_words_are_read_back() {
    let words = ["a b", "\\", "\"", "plain", "  "];
    let quoted: Vec<String> = words.iter().map(|word| format!("'{word}'")).collect();
    assert_eq!(tokenize(&quoted.join(" ")), words);
}

#[test]
fn no_word_is_empty() {
    assert!(tokenize("'' \"\"  ''").is_empty());
    assert_eq!(tokenize("'' a \"\" b"), ["a", "b"]);
}
