//! What the proxy decides before it starts.

use vstd::prelude::*;

use crate::handler::state::ShellKind;
use crate::text::chars_of;
use crate::text::same_text;
use crate::text::string_of;

verus! {

/// A terminal emulator.
#[derive(Debug, PartialEq, Eq)]
pub enum Terminal {
    Ghostty,
    Otty,
    Kitty,
    WezTerm,
    Alacritty,
    Rio,
    ITerm2,
    TerminalApp,
    /// One that is not known, by its name.
    Unknown(String),
}

/// A plain shell is run in place of the proxy: a terminal that is not known needs the
/// experimental flag.
pub open spec fn falls_back_in(terminal: Terminal, multi_terminal_enabled: bool) -> bool {
    terminal is Unknown && !multi_terminal_enabled
}

/// Whether a plain shell is run in place of the proxy.
pub fn should_fallback_to_shell(terminal: &Terminal, multi_terminal_enabled: bool) -> (falls_back:
    bool)
    ensures
        falls_back == falls_back_in(*terminal, multi_terminal_enabled),
{
    matches!(terminal, Terminal::Unknown(_)) && !multi_terminal_enabled
}

/// The name is that of a program, or ends in it as a path does.
pub open spec fn names_program(name: Seq<char>, program: Seq<char>) -> bool {
    ||| name == program
    ||| ({
        let at = name.len() - program.len();
        at > 0 && name[at - 1] == '/' && name.skip(at) == program
    })
}

fn is_program(name: &str, program: &str) -> (named: bool)
    ensures
        named == names_program(name@, program@),
{
    if same_text(name, program) {
        return true;
    }
    let chars = chars_of(name);
    let len: usize = chars_of(program).len();
    if chars.len() <= len {
        return false;
    }
    let at: usize = chars.len() - len;
    if chars[at - 1] != '/' {
        return false;
    }
    let tail = string_of(&chars, at, chars.len());
    assert(tail@ =~= name@.skip(at as int));
    same_text(tail.as_str(), program)
}

pub open spec fn shell_kind_of(name: Seq<char>) -> ShellKind {
    if names_program(name, "zsh"@) {
        ShellKind::Zsh
    } else if names_program(name, "fish"@) {
        ShellKind::Fish
    } else if names_program(name, "bash"@) {
        ShellKind::Bash
    } else {
        ShellKind::Other
    }
}

/// Classifies a shell by the file name of its program.
pub fn detect_shell_kind(name: &str) -> (kind: ShellKind)
    ensures
        kind == shell_kind_of(name@),
{
    if is_program(name, "zsh") {
        ShellKind::Zsh
    } else if is_program(name, "fish") {
        ShellKind::Fish
    } else if is_program(name, "bash") {
        ShellKind::Bash
    } else {
        ShellKind::Other
    }
}

// ---- Laws ----

/// Every terminal that is known runs the proxy; one that is not runs it with the flag only.
pub proof fn law_known_terminals_run_the_proxy(terminal: Terminal, name: String, enabled: bool)
    ensures
        falls_back_in(Terminal::Unknown(name), false),
        !falls_back_in(terminal, true),
        falls_back_in(terminal, enabled) ==> terminal is Unknown,
{
}

/// A shell is told by the file name of its program, alone or behind any directory. A longer
/// file name that only ends so is another program's.
pub proof fn law_shell_is_told_by_its_file_name(front: Seq<char>)
    ensures
        ({
            let is_dir = front.len() == 0 || front.last() == '/';
            let zsh = shell_kind_of(front + seq!['z', 's', 'h']);
            let fish = shell_kind_of(front + seq!['f', 'i', 's', 'h']);
            let bash = shell_kind_of(front + seq!['b', 'a', 's', 'h']);
            &&& is_dir ==> zsh == ShellKind::Zsh && fish == ShellKind::Fish && bash
                == ShellKind::Bash
            &&& !is_dir ==> zsh == ShellKind::Other && fish == ShellKind::Other && bash
                == ShellKind::Other
        }),
{
    reveal_strlit("zsh");
    reveal_strlit("fish");
    reveal_strlit("bash");
    let zsh = seq!['z', 's', 'h'];
    let fish = seq!['f', 'i', 's', 'h'];
    let bash = seq!['b', 'a', 's', 'h'];
    assert(zsh =~= "zsh"@);
    assert(fish =~= "fish"@);
    assert(bash =~= "bash"@);
    lemma_names_program(front, zsh);
    lemma_names_program(front, fish);
    lemma_names_program(front, bash);
    lemma_names_other_program(front + zsh, fish);
    lemma_names_other_program(front + zsh, bash);
    lemma_names_other_program(front + fish, zsh);
    lemma_names_other_program(front + fish, bash);
    lemma_names_other_program(front + bash, zsh);
    lemma_names_other_program(front + bash, fish);
}

proof fn lemma_names_program(front: Seq<char>, program: Seq<char>)
    ensures
        names_program(front + program, program) <==> front.len() == 0 || front.last() == '/',
{
    let name = front + program;
    assert((front + program).skip(front.len() as int) =~= program);
    if front.len() == 0 {
        assert(name =~= program);
    } else {
        assert(name[front.len() - 1] == front.last());
    }
}

proof fn lemma_names_other_program(name: Seq<char>, program: Seq<char>)
    requires
        program.len() >= 3,
        name.len() >= 3,
        name[name.len() - 3] != program[program.len() - 3] || (program.len() >= 4 && name.len() >= 4
            && name[name.len() - 4] != program[program.len() - 4]) || (program.len() >= 4
            && name.len() == 3),
    ensures
        !names_program(name, program),
{
    if names_program(name, program) {
        let at = name.len() - program.len();
        assert(name.skip(at) =~= program);
        assert(name.skip(at)[program.len() - 3] == name[name.len() - 3]);
        if program.len() >= 4 {
            assert(name.skip(at)[program.len() - 4] == name[name.len() - 4]);
        }
    }
}

} // verus!
