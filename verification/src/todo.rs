//! The task list file: one task per line.
use vstd::prelude::*;

use crate::html::strs;
use crate::messages::strings_of;
use crate::tags::join_strings;
use crate::text::{chars_of, join, lines, lines_of};

verus! {

/// The lines of the task list.
pub fn task_lines(todo_file: &str) -> (r: Vec<String>)
    ensures
        strs(r@) == lines(todo_file@),
{
    let v = chars_of(todo_file);
    let ls = lines_of(v.as_slice());
    strings_of(&ls)
}

/// The task list without its task at `idx` (unchanged if there is none).
pub fn delete_task(todo_file: &str, idx: usize) -> (r: String)
    ensures
        r@ == join(
            if idx < lines(todo_file@).len() {
                lines(todo_file@).remove(idx as int)
            } else {
                lines(todo_file@)
            },
            "\n"@,
        ),
{
    let mut tasks = task_lines(todo_file);
    if idx < tasks.len() {
        let ghost before = strs(tasks@);
        tasks.remove(idx);
        assert(strs(tasks@) =~= before.remove(idx as int));
    }
    join_strings(&tasks, "\n")
}

/// The task list with a task put first.
pub fn insert_task(todo_file: &str, body: &str) -> (r: String)
    ensures
        r@ == join(seq![body@] + lines(todo_file@), "\n"@),
{
    let mut tasks = task_lines(todo_file);
    let ghost before = strs(tasks@);
    tasks.insert(0, body.to_string());
    assert(strs(tasks@) =~= seq![body@] + before);
    join_strings(&tasks, "\n")
}

/// The task list with its task at `idx` replaced.
pub fn replace_task(todo_file: &str, idx: usize, body: &str) -> (r: String)
    requires
        idx < lines(todo_file@).len(),
    ensures
        r@ == join(lines(todo_file@).update(idx as int, body@), "\n"@),
{
    let mut tasks = task_lines(todo_file);
    let ghost before = strs(tasks@);
    tasks.set(idx, body.to_string());
    assert(strs(tasks@) =~= before.update(idx as int, body@));
    join_strings(&tasks, "\n")
}

} // verus!
