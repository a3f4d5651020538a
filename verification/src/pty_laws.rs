//! What holds of all that a pane can run.

use vstd::prelude::*;

use crate::pty;

verus! {

/// A command runs as it is given: the first word is the program, the others are its
/// arguments, in their order.
pub proof fn law_commands_run_as_given(
    program: Seq<char>,
    arguments: Seq<Seq<char>>,
    shell: Option<Seq<char>>,
)
    ensures
        pty::line_of(seq![program] + arguments, shell) == (program, arguments),
{
    let command = seq![program] + arguments;
    assert(command[0] == program);
    assert(command.skip(1) =~= arguments);
}

/// Without a command the shell runs, or else `/bin/sh`; one that is known is told
/// to be that of a login, and interactive, and any other is told nothing.
pub proof fn law_shells_run_without_a_command(shell: Seq<char>)
    ensures
        pty::line_of(seq![], Some(shell)).0 == shell,
        pty::is_login_shell(shell) ==> pty::line_of(seq![], Some(shell)).1 == seq!["-l"@, "-i"@],
        !pty::is_login_shell(shell) ==> pty::line_of(seq![], Some(shell)).1.len() == 0,
        pty::line_of(seq![], None) == pty::line_of(seq![], Some("/bin/sh"@)),
{
}

proof fn lemma_last_part(path: Seq<char>, name: Seq<char>)
    requires
        !name.contains('/'),
    ensures
        pty::last_part(path.push('/') + name) == path.len() + 1,
        pty::last_part(name) == 0,
    decreases name.len(),
{
    let whole = path.push('/') + name;
    if name.len() > 0 {
        let front = name.drop_last();
        assert(whole.drop_last() =~= path.push('/') + front);
        assert(name.contains(name[name.len() - 1]));
        assert(whole.last() == name.last());
        assert forall|i: int| 0 <= i < front.len() implies front[i] != '/' by {
            assert(name.contains(name[i]));
        }
        lemma_last_part(path, front);
    } else {
        assert(whole =~= path.push('/'));
    }
}

/// The name of a file is what stands behind the last slash of its path, or the
/// whole path without one; slashes and dots at the end do not count.
pub proof fn law_file_name_stands_behind_the_last_slash(path: Seq<char>, name: Seq<char>)
    requires
        name.len() > 0,
        !name.contains('/'),
        name != "."@,
        name != ".."@,
    ensures
        pty::file_name_of(path.push('/') + name) == Some(name),
        pty::file_name_of(name) == Some(name),
        pty::file_name_of((path.push('/') + name).push('/')) == Some(name),
        pty::file_name_of(((path.push('/') + name).push('/')).push('.')) == Some(name),
{
    let whole = path.push('/') + name;
    lemma_last_part(path, name);
    assert(whole.skip(path.len() as int + 1) =~= name);
    assert(name.skip(0) =~= name);
    let none = Seq::<char>::empty();
    lemma_last_part(whole, none);
    assert(whole.push('/') + none =~= whole.push('/'));
    assert(whole.push('/').take(whole.len() as int) =~= whole);
    assert(whole.push('/').skip(whole.len() as int + 1) =~= none);
    let dot = seq!['.'];
    reveal_strlit(".");
    assert("."@ =~= dot);
    assert forall|i: int| 0 <= i < dot.len() implies dot[i] != '/' by {}
    lemma_last_part(whole, dot);
    assert(whole.push('/') + dot =~= whole.push('/').push('.'));
    assert(whole.push('/').push('.').take(whole.len() as int) =~= whole);
    assert(whole.push('/').push('.').skip(whole.len() as int + 1) =~= dot);
}

/// The shells that know `-l` and `-i`, wherever they stand.
pub proof fn law_known_shells(path: Seq<char>, name: Seq<char>)
    requires
        name.len() > 0,
        !name.contains('/'),
        name != "."@,
        name != ".."@,
    ensures
        pty::is_login_shell(path.push('/') + name) <==> name == "sh"@ || name == "bash"@ || name
            == "dash"@ || name == "ksh"@ || name == "zsh"@,
{
    law_file_name_stands_behind_the_last_slash(path, name);
}

/// A pane is told the terminal that was asked for, or `screen-256color` where that
/// is empty or could not stand in an environment.
pub proof fn law_terminal_is_what_was_asked_for(asked: Seq<char>)
    ensures
        asked.len() > 0 && !asked.contains('\0') ==> pty::terminal_name_of(Some(asked)) == asked,
        asked.len() == 0 || asked.contains('\0') ==> pty::terminal_name_of(Some(asked))
            == "screen-256color"@,
        pty::terminal_name_of(None) == "screen-256color"@,
{
}

/// A path that ends with two dots has no file name.
pub proof fn law_parents_have_no_file_name(directory: Seq<char>)
    requires
        directory.len() == 0 || directory.last() == '/',
    ensures
        pty::file_name_of(directory + seq!['.', '.']) is None,
        !pty::is_login_shell(directory + seq!['.', '.']),
{
    let path = directory + seq!['.', '.'];
    let start = directory.len() as int;
    reveal_strlit(".");
    reveal_strlit("..");
    assert("."@.len() == 1);
    assert(".."@ =~= seq!['.', '.']);
    let one = path.drop_last();
    assert(one.last() == '.' && path.last() == '.');
    assert(one.drop_last() =~= directory);
    assert(pty::last_part(directory) == start);
    assert(pty::last_part(one) == start);
    assert(pty::last_part(path) == start);
    assert(path.skip(start) =~= ".."@);
}

} // verus!
