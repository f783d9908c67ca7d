use vstd::prelude::*;

use crate::text::{chars_of, substring, trim, trimmed};

verus! {

/// A command of the interactive session.
pub enum Command {
    /// `add <text>`: append the text given.
    Add(String),
    /// `add` alone: the task follows on the next line.
    AddPrompt,
    /// `done <n>`: mark the task of the number given done.
    Done(String),
    /// `done` alone: the number follows on the next line.
    DonePrompt,
    Show,
    Save,
    Exit,
    Unknown,
}

pub open spec fn add_word() -> Seq<char> {
    seq!['a', 'd', 'd']
}

pub open spec fn done_word() -> Seq<char> {
    seq!['d', 'o', 'n', 'e']
}

pub open spec fn show_word() -> Seq<char> {
    seq!['s', 'h', 'o', 'w']
}

pub open spec fn save_word() -> Seq<char> {
    seq!['s', 'a', 'v', 'e']
}

pub open spec fn exit_word() -> Seq<char> {
    seq!['e', 'x', 'i', 't']
}

pub open spec fn has_prefix(s: Seq<char>, p: Seq<char>) -> bool {
    p.len() <= s.len() && s.take(p.len() as int) == p
}

fn starts_with(v: &Vec<char>, p: &Vec<char>) -> (r: bool)
    ensures
        r == has_prefix(v@, p@),
{
    if p.len() > v.len() {
        return false;
    }
    let mut i: usize = 0;
    while i < p.len()
        invariant
            p@.len() <= v@.len(),
            i <= p@.len(),
            v@.take(i as int) == p@.take(i as int),
        decreases p@.len() - i,
    {
        if v[i] != p[i] {
            assert(v@.take(p@.len() as int)[i as int] != p@[i as int]);
            return false;
        }
        assert(v@.take(i + 1) =~= v@.take(i as int).push(v@[i as int]));
        assert(p@.take(i + 1) =~= p@.take(i as int).push(p@[i as int]));
        i = i + 1;
    }
    assert(p@.take(p@.len() as int) =~= p@);
    true
}

/// Reads one command line. The line is trimmed first; `add ` and `done `
/// followed by text carry the rest of the line, and the bare words name the
/// other commands.
pub fn parse_command(line: &str) -> (r: Command)
    ensures
        ({
            let c = trimmed(line@);
            if has_prefix(c, add_word().push(' ')) {
                r matches Command::Add(t) && t@ == c.skip(4)
            } else if has_prefix(c, done_word().push(' ')) {
                r matches Command::Done(t) && t@ == c.skip(5)
            } else if c == add_word() {
                r is AddPrompt
            } else if c == done_word() {
                r is DonePrompt
            } else if c == show_word() {
                r is Show
            } else if c == save_word() {
                r is Save
            } else if c == exit_word() {
                r is Exit
            } else {
                r is Unknown
            }
        }),
{
    let t = trim(line);
    let c = chars_of(t.as_str());
    let add_sp = vec!['a', 'd', 'd', ' '];
    let done_sp = vec!['d', 'o', 'n', 'e', ' '];
    assert(add_sp@ =~= add_word().push(' '));
    assert(done_sp@ =~= done_word().push(' '));
    if starts_with(&c, &add_sp) {
        return Command::Add(substring(t.as_str(), 4, c.len()));
    }
    if starts_with(&c, &done_sp) {
        return Command::Done(substring(t.as_str(), 5, c.len()));
    }
    let add = vec!['a', 'd', 'd'];
    let done = vec!['d', 'o', 'n', 'e'];
    let show = vec!['s', 'h', 'o', 'w'];
    let save = vec!['s', 'a', 'v', 'e'];
    let exit = vec!['e', 'x', 'i', 't'];
    assert(add@ =~= add_word());
    assert(done@ =~= done_word());
    assert(show@ =~= show_word());
    assert(save@ =~= save_word());
    assert(exit@ =~= exit_word());
    if c.len() == add.len() && starts_with(&c, &add) {
        assert(c@ =~= c@.take(3));
        Command::AddPrompt
    } else if c.len() == done.len() && starts_with(&c, &done) {
        assert(c@ =~= c@.take(4));
        Command::DonePrompt
    } else if c.len() == show.len() && starts_with(&c, &show) {
        assert(c@ =~= c@.take(4));
        Command::Show
    } else if c.len() == save.len() && starts_with(&c, &save) {
        assert(c@ =~= c@.take(4));
        Command::Save
    } else if c.len() == exit.len() && starts_with(&c, &exit) {
        assert(c@ =~= c@.take(4));
        Command::Exit
    } else {
        assert(c@.take(c@.len() as int) =~= c@);
        Command::Unknown
    }
}

/// Whether an answer to the question to quit with unsaved tasks says yes:
/// once trimmed, it is `y` or `Y`.
pub fn confirms_exit(answer: &str) -> (r: bool)
    ensures
        r == (trimmed(answer@) == seq!['y'] || trimmed(answer@) == seq!['Y']),
{
    let t = trim(answer);
    let c = chars_of(t.as_str());
    if c.len() == 1 && (c[0] == 'y' || c[0] == 'Y') {
        assert(c@ =~= seq![c[0]]);
        true
    } else {
        assert(c@.len() == 1 ==> c@ != seq!['y'] ==> c@[0] != 'y');
        false
    }
}

} // verus!
