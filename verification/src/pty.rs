//! What a pane runs: the program, its arguments, and the name of its terminal.

use vstd::prelude::*;

use crate::protocol::wire;
use crate::text::{self, characters, same_text, string_of, strings_from};

verus! {

/// Where the last part of a path starts, behind its last slash.
pub open spec fn last_part(path: Seq<char>) -> int
    decreases path.len(),
{
    if path.len() == 0 || path.last() == '/' {
        path.len() as int
    } else {
        last_part(path.drop_last())
    }
}

/// The last part of a path that is neither empty nor a dot, unless it is two dots.
pub open spec fn file_name_of(path: Seq<char>) -> Option<Seq<char>>
    decreases path.len(),
{
    let start = last_part(path);
    let part = path.skip(start);
    if part.len() > 0 && part != "."@ {
        if part == ".."@ {
            None
        } else {
            Some(part)
        }
    } else if 0 < start <= path.len() {
        file_name_of(path.take(start - 1))
    } else {
        None
    }
}

proof fn lemma_last_part(path: Seq<char>, start: int)
    requires
        0 <= start <= path.len(),
        start == 0 || path[start - 1] == '/',
        forall|i: int| start <= i < path.len() ==> path[i] != '/',
    ensures
        last_part(path) == start,
    decreases path.len(),
{
    if path.len() > start {
        assert(path.last() != '/');
        lemma_last_part(path.drop_last(), start);
    }
}

/// The file name of a path.
pub fn file_name(path: &str) -> (name: Option<String>)
    ensures
        match file_name_of(path@) {
            Some(part) => name matches Some(text) && text@ == part,
            None => name is None,
        },
{
    let list = characters(path);
    let mut end: usize = list.len();
    assert(list@.take(end as int) =~= path@);
    loop
        invariant
            end <= list@.len(),
            list@ == path@,
            file_name_of(path@) == file_name_of(list@.take(end as int)),
        decreases end,
    {
        let mut start: usize = end;
        while start > 0 && list[start - 1] != '/'
            invariant
                start <= end <= list@.len(),
                forall|i: int| start <= i < end ==> list@[i] != '/',
            decreases start,
        {
            start -= 1;
        }
        let part = string_of(&list, start, end);
        let ghost shown = list@.take(end as int);
        proof {
            lemma_last_part(shown, start as int);
            assert(shown.skip(start as int) =~= part@);
        }
        if end > start && !same_text(part.as_str(), ".") {
            return if same_text(part.as_str(), "..") {
                None
            } else {
                Some(part)
            };
        }
        if start == 0 {
            return None;
        }
        proof {
            assert(shown.take(start - 1) =~= list@.take(start - 1));
        }
        end = start - 1;
    }
}

/// Whether a program is a shell that can be told to be interactive and that of a
/// login.
pub open spec fn is_login_shell(program: Seq<char>) -> bool {
    match file_name_of(program) {
        Some(name) => {
            ||| name == "sh"@
            ||| name == "bash"@
            ||| name == "dash"@
            ||| name == "ksh"@
            ||| name == "zsh"@
        },
        None => false,
    }
}

/// What a pane runs: a command as it is given, or else the user's shell.
pub open spec fn line_of(command: Seq<Seq<char>>, shell: Option<Seq<char>>) -> (
    Seq<char>,
    Seq<Seq<char>>,
) {
    if command.len() > 0 {
        (command[0], command.skip(1))
    } else {
        let program = match shell {
            Some(path) => path,
            None => "/bin/sh"@,
        };
        if is_login_shell(program) {
            (program, seq!["-l"@, "-i"@])
        } else {
            (program, seq![])
        }
    }
}

/// The program of a pane and its arguments. `shell` is the user's shell, where
/// it is a file.
pub fn command_line(command: &[String], shell: Option<String>) -> (line: (String, Vec<String>))
    ensures
        (line.0@, text::texts(line.1@)) == line_of(
            text::texts(command@),
            wire::text_view(shell),
        ),
{
    if command.len() > 0 {
        assert(text::texts(command@)[0] == command@[0]@);
        return (command[0].clone(), strings_from(command, 1));
    }
    let program: String = match shell {
        Some(path) => path,
        None => "/bin/sh".to_owned(),
    };
    let mut arguments: Vec<String> = Vec::new();
    if let Some(name) = file_name(program.as_str()) {
        let name = name.as_str();
        if same_text(name, "sh") || same_text(name, "bash") || same_text(name, "dash")
            || same_text(name, "ksh") || same_text(name, "zsh") {
            arguments.push("-l".to_owned());
            arguments.push("-i".to_owned());
        }
    }
    proof {
        if is_login_shell(program@) {
            assert(text::texts(arguments@) =~= seq!["-l"@, "-i"@]);
        } else {
            assert(text::texts(arguments@) =~= seq![]);
        }
    }
    (program, arguments)
}

/// The name of the terminal that a pane is told: the one asked for, unless it is
/// empty or could not stand in an environment.
pub open spec fn terminal_name_of(asked: Option<Seq<char>>) -> Seq<char> {
    match asked {
        Some(name) => if name.len() > 0 && !name.contains('\0') {
            name
        } else {
            "screen-256color"@
        },
        None => "screen-256color"@,
    }
}

pub fn terminal_name(asked: Option<String>) -> (name: String)
    ensures
        name@ == terminal_name_of(wire::text_view(asked)),
{
    let fallback = "screen-256color".to_owned();
    let name: String = match asked {
        Some(name) => name,
        None => return fallback,
    };
    let list = characters(name.as_str());
    let mut index: usize = 0;
    while index < list.len()
        invariant
            index <= list@.len(),
            list@ == name@,
            asked == Some(name),
            fallback@ == "screen-256color"@,
            forall|i: int| 0 <= i < index ==> list@[i] != '\0',
        decreases list@.len() - index,
    {
        if list[index] == '\0' {
            assert(list@.contains('\0'));
            return fallback;
        }
        index += 1;
    }
    if list.len() == 0 {
        fallback
    } else {
        name
    }
}

} // verus!
