use vstd::prelude::*;

use crate::number::{decimal_value, parse_decimal};
use crate::text::{lemma_trimmed_single_line, trim, trimmed};
use crate::todo_file::{
    file_lines, lemma_render_round_trip, parse_lines, render, render_tasks, single_line, views,
};

verus! {

/// One line of the listing: the task's 1-based number, its text, and whether
/// it lies in the saved prefix of the list.
pub struct Entry {
    pub number: usize,
    pub text: String,
    pub saved: bool,
}

impl View for Entry {
    type V = (nat, Seq<char>, bool);

    open spec fn view(&self) -> (nat, Seq<char>, bool) {
        (self.number as nat, self.text@, self.saved)
    }
}

/// Why a task could not be marked done.
#[derive(Clone, Copy, Debug, PartialEq, Eq, Structural)]
pub enum DoneError {
    /// The text given is not a task number.
    NotANumber,
    /// The number names no task of the list.
    OutOfRange,
}

/// The model of a task list: the tasks in display order, and how many of them,
/// from the first, are taken to match the file.
pub struct TodoState {
    pub tasks: Seq<Seq<char>>,
    pub saved: nat,
}

impl TodoState {
    pub open spec fn empty() -> TodoState {
        TodoState { tasks: seq![], saved: 0 }
    }

    /// A list just read from the file: every task is saved.
    pub open spec fn loaded(lines: Seq<Seq<char>>) -> TodoState {
        TodoState { tasks: lines, saved: lines.len() }
    }

    pub open spec fn wf(self) -> bool {
        self.saved <= self.tasks.len()
    }

    /// The list after `text`, trimmed, was appended.
    pub open spec fn added(self, text: Seq<char>) -> TodoState {
        TodoState { tasks: self.tasks.push(trimmed(text)), saved: self.saved }
    }

    /// The list after each of `texts` was appended, in order.
    pub open spec fn added_all(self, texts: Seq<Seq<char>>) -> TodoState
        decreases texts.len(),
    {
        if texts.len() == 0 {
            self
        } else {
            self.added_all(texts.drop_last()).added(texts.last())
        }
    }

    /// `k` is the 1-based number of a task of the list.
    pub open spec fn valid_number(self, k: int) -> bool {
        1 <= k <= self.tasks.len()
    }

    /// The list after task number `k` was removed; the saved prefix loses
    /// one task when the task removed lay in it.
    pub open spec fn done(self, k: int) -> TodoState {
        TodoState {
            tasks: self.tasks.remove(k - 1),
            saved: if k - 1 < self.saved {
                (self.saved - 1) as nat
            } else {
                self.saved
            },
        }
    }

    /// The list once the file holds all of it.
    pub open spec fn marked_saved(self) -> TodoState {
        TodoState { tasks: self.tasks, saved: self.tasks.len() }
    }

    pub open spec fn has_unsaved(self) -> bool {
        self.saved < self.tasks.len()
    }

    /// The listing: each task with its 1-based number and whether it is saved.
    pub open spec fn shown(self) -> Seq<(nat, Seq<char>, bool)> {
        Seq::new(self.tasks.len(), |i: int| ((i + 1) as nat, self.tasks[i], i < self.saved))
    }
}

/// The task number that `text` gives, read as `usize::from_str` reads it
/// once white space is trimmed from both ends.
pub open spec fn task_number(text: Seq<char>) -> Option<nat> {
    match decimal_value(trimmed(text)) {
        Some(v) => if v <= usize::MAX {
            Some(v)
        } else {
            None
        },
        None => None,
    }
}

/// Appending texts one by one appends their trimmed forms, in order, and
/// leaves the saved prefix as it was.
proof fn lemma_added_all(s: TodoState, texts: Seq<Seq<char>>)
    ensures
        s.added_all(texts).tasks == s.tasks + texts.map_values(|t: Seq<char>| trimmed(t)),
        s.added_all(texts).saved == s.saved,
    decreases texts.len(),
{
    if texts.len() == 0 {
        assert(s.tasks + texts.map_values(|t: Seq<char>| trimmed(t)) =~= s.tasks);
    } else {
        lemma_added_all(s, texts.drop_last());
        assert(s.tasks + texts.map_values(|t: Seq<char>| trimmed(t)) =~= (s.tasks
            + texts.drop_last().map_values(|t: Seq<char>| trimmed(t))).push(trimmed(texts.last())));
    }
}

/// Appending texts to a list and then listing it shows the earlier entries
/// unchanged, then one unsaved entry per text, in the order appended, with
/// the numbers that follow on; from an empty list that is exactly one entry
/// per text, numbered from 1.
pub proof fn lemma_add_then_show(s: TodoState, texts: Seq<Seq<char>>)
    requires
        s.wf(),
    ensures
        s.added_all(texts).shown().len() == s.tasks.len() + texts.len(),
        forall|i: int| 0 <= i < s.tasks.len() ==> s.added_all(texts).shown()[i] == s.shown()[i],
        forall|j: int|
            0 <= j < texts.len() ==> s.added_all(texts).shown()[s.tasks.len() + j] == (
                (s.tasks.len() + j + 1) as nat,
                trimmed(#[trigger] texts[j]),
                false,
            ),
{
    lemma_added_all(s, texts);
}

/// Once the file holds the whole list, every entry of the listing is marked
/// saved and no task is unsaved.
pub proof fn lemma_show_after_save(s: TodoState)
    ensures
        s.marked_saved().shown().len() == s.tasks.len(),
        forall|i: int| 0 <= i < s.tasks.len() ==> (#[trigger] s.marked_saved().shown()[i]).2,
        !s.marked_saved().has_unsaved(),
{
}

/// Marking task `k` done lists one entry fewer: the entries before it keep
/// their numbers and texts, and each entry after it moves up by one number.
pub proof fn lemma_done_shifts(s: TodoState, k: int)
    requires
        s.wf(),
        s.valid_number(k),
    ensures
        s.done(k).wf(),
        s.done(k).shown().len() == s.tasks.len() - 1,
        forall|j: int|
            0 <= j < k - 1 ==> (#[trigger] s.done(k).shown()[j]).0 == s.shown()[j].0
                && s.done(k).shown()[j].1 == s.shown()[j].1,
        forall|j: int|
            k - 1 <= j < s.tasks.len() - 1 ==> (#[trigger] s.done(k).shown()[j]).0 + 1 == s.shown()[j
                + 1].0 && s.done(k).shown()[j].1 == s.shown()[j + 1].1,
{
}

/// Saving a list of single-line tasks and loading the file into a fresh
/// list gives back the same tasks in the same order, all saved.
pub proof fn lemma_save_load_round_trip(s: TodoState)
    requires
        s.wf(),
        forall|i: int| 0 <= i < s.tasks.len() ==> single_line(#[trigger] s.tasks[i]),
    ensures
        TodoState::loaded(file_lines(render(s.tasks))) == s.marked_saved(),
{
    lemma_render_round_trip(s.tasks);
}

/// Appending a text without line breaks to a list of single-line tasks
/// keeps every task a single line, so that the list survives a save and a
/// load unchanged.
pub proof fn lemma_add_keeps_single_line(s: TodoState, text: Seq<char>)
    requires
        forall|i: int| 0 <= i < s.tasks.len() ==> single_line(#[trigger] s.tasks[i]),
        forall|i: int| 0 <= i < text.len() ==> text[i] != '\n',
    ensures
        forall|i: int|
            0 <= i < s.added(text).tasks.len() ==> single_line(#[trigger] s.added(text).tasks[i]),
{
    lemma_trimmed_single_line(text);
    assert(s.added(text).tasks[s.tasks.len() as int] == trimmed(text));
}

/// A task list, and how many of its tasks, from the first, match the file.
pub struct TodoList {
    tasks: Vec<String>,
    saved: usize,
}

impl View for TodoList {
    type V = TodoState;

    closed spec fn view(&self) -> TodoState {
        TodoState { tasks: views(self.tasks@), saved: self.saved as nat }
    }
}

impl TodoList {
    pub closed spec fn wf(&self) -> bool {
        self.saved <= self.tasks@.len()
    }

    /// An empty list.
    pub fn new() -> (r: TodoList)
        ensures
            r.wf(),
            r@ == TodoState::empty(),
    {
        let r = TodoList { tasks: Vec::new(), saved: 0 };
        assert(views(r.tasks@) =~= seq![]);
        r
    }

    /// The list that the file text `contents` holds, every task saved.
    pub fn from_file(contents: &str) -> (r: TodoList)
        ensures
            r.wf(),
            r@ == TodoState::loaded(file_lines(contents@)),
    {
        let tasks = parse_lines(contents);
        let saved = tasks.len();
        TodoList { tasks, saved }
    }

    /// The number of tasks.
    pub fn len(&self) -> (r: usize)
        ensures
            r == self@.tasks.len(),
    {
        self.tasks.len()
    }

    /// How many tasks, from the first, are saved.
    pub fn saved_count(&self) -> (r: usize)
        ensures
            r == self@.saved,
    {
        self.saved
    }

    /// Appends `text`, trimmed, as the last task. It is not saved.
    pub fn add(&mut self, text: &str)
        requires
            old(self).wf(),
        ensures
            final(self).wf(),
            final(self)@ == old(self)@.added(text@),
    {
        let t = trim(text);
        self.tasks.push(t);
        assert(views(self.tasks@) =~= views(old(self).tasks@).push(trimmed(text@)));
    }

    /// Removes task number `number` (1-based). Fails, and changes nothing,
    /// when no task has that number.
    pub fn mark_done(&mut self, number: usize) -> (r: Result<(), DoneError>)
        requires
            old(self).wf(),
        ensures
            final(self).wf(),
            old(self)@.valid_number(number as int) ==> r is Ok && final(self)@ == old(self)@.done(
                number as int,
            ),
            !old(self)@.valid_number(number as int) ==> r == Err::<(), DoneError>(
                DoneError::OutOfRange,
            ) && final(self)@ == old(self)@,
    {
        if number == 0 || number > self.tasks.len() {
            return Err(DoneError::OutOfRange);
        }
        let index = number - 1;
        self.tasks.remove(index);
        if index < self.saved {
            self.saved = self.saved - 1;
        }
        assert(views(self.tasks@) =~= views(old(self).tasks@).remove(index as int));
        Ok(())
    }

    /// Reads a task number from `text` and removes that task. Returns the
    /// number on success; changes nothing on failure.
    pub fn mark_done_text(&mut self, text: &str) -> (r: Result<usize, DoneError>)
        requires
            old(self).wf(),
        ensures
            final(self).wf(),
            match task_number(text@) {
                None => r == Err::<usize, DoneError>(DoneError::NotANumber) && final(self)@ == old(
                    self,
                )@,
                Some(k) => if old(self)@.valid_number(k as int) {
                    r == Ok::<usize, DoneError>(k as usize) && final(self)@ == old(self)@.done(
                        k as int,
                    )
                } else {
                    r == Err::<usize, DoneError>(DoneError::OutOfRange) && final(self)@ == old(
                        self,
                    )@
                },
            },
    {
        let t = trim(text);
        match parse_decimal(t.as_str()) {
            None => Err(DoneError::NotANumber),
            Some(k) => match self.mark_done(k) {
                Ok(()) => Ok(k),
                Err(e) => Err(e),
            },
        }
    }

    /// The file text to save, or `None` when the list is empty and there is
    /// nothing to save.
    pub fn save_text(&self) -> (r: Option<String>)
        requires
            self.wf(),
        ensures
            self@.tasks.len() == 0 <==> r is None,
            r matches Some(c) ==> c@ == render(self@.tasks),
    {
        if self.tasks.len() == 0 {
            None
        } else {
            Some(render_tasks(&self.tasks))
        }
    }

    /// Records that the file now holds the whole list.
    pub fn mark_saved(&mut self)
        requires
            old(self).wf(),
        ensures
            final(self).wf(),
            final(self)@ == old(self)@.marked_saved(),
    {
        self.saved = self.tasks.len();
    }

    /// Whether some task is not saved.
    pub fn has_unsaved(&self) -> (r: bool)
        requires
            self.wf(),
        ensures
            r == self@.has_unsaved(),
    {
        self.saved < self.tasks.len()
    }

    /// The listing, in order: number, text and saved flag of each task.
    pub fn show(&self) -> (r: Vec<Entry>)
        requires
            self.wf(),
        ensures
            r@.map_values(|e: Entry| e@) == self@.shown(),
    {
        let mut out: Vec<Entry> = Vec::new();
        let mut i: usize = 0;
        while i < self.tasks.len()
            invariant
                i <= self.tasks@.len(),
                out@.len() == i,
                forall|j: int| 0 <= j < i ==> (#[trigger] out@[j])@ == self@.shown()[j],
            decreases self.tasks@.len() - i,
        {
            let text = self.tasks[i].clone();
            out.push(Entry { number: i + 1, text, saved: i < self.saved });
            i = i + 1;
        }
        assert(out@.map_values(|e: Entry| e@) =~= self@.shown());
        out
    }
}

} // verus!
