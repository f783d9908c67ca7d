//! A to-do list kept in memory and saved to a text file of one task per
//! line. The list tracks how many of its tasks, from the first, match the
//! file, so that it can show which tasks are saved.
use vstd::prelude::*;

pub mod command;
pub mod number;
pub mod text;
pub mod todo;
pub mod todo_file;

verus! {

} // verus!
