//! Tasks that Work sessions are attributed to, and the lookups the task
//! picker and task list make.

use vstd::prelude::*;
use vstd::string::*;

use crate::input::{trim, trimmed};

verus! {

/// A task that sessions can be attributed to, as it is stored.
#[derive(Debug)]
pub struct Task {
    pub name: String,
    pub created_at_ms: i64,
    pub archived: bool,
}

impl Task {
    /// A new, unarchived task.
    pub fn new(name: String, created_at_ms: i64) -> (t: Task)
        ensures
            t.name@ == name@,
            t.created_at_ms == created_at_ms,
            !t.archived,
    {
        Task { name, created_at_ms, archived: false }
    }

    pub fn rename(&mut self, name: &str)
        ensures
            final(self).name@ == name@,
            final(self).created_at_ms == old(self).created_at_ms,
            final(self).archived == old(self).archived,
    {
        self.name = String::from_str(name);
    }

    pub fn set_archived(&mut self, archived: bool)
        ensures
            final(self).name@ == old(self).name@,
            final(self).created_at_ms == old(self).created_at_ms,
            final(self).archived == archived,
    {
        self.archived = archived;
    }
}

/// What the task lists show of a task: its id, current name and whether it
/// is archived.
#[derive(Debug)]
pub struct TaskEntry {
    pub id: u64,
    pub name: String,
    pub archived: bool,
}

impl TaskEntry {
    /// The list entry of a task loaded from storage under `id`; its creation
    /// time is not shown and is dropped.
    pub fn from_loaded(id: u64, task: Task) -> (e: TaskEntry)
        ensures
            e.id == id,
            e.name@ == task.name@,
            e.archived == task.archived,
    {
        TaskEntry { id, name: task.name, archived: task.archived }
    }
}

/// `i` is the first entry of `s` with the given id.
pub open spec fn is_first_with_id(s: Seq<TaskEntry>, id: u64, i: int) -> bool {
    &&& 0 <= i < s.len()
    &&& s[i].id == id
    &&& forall|j: int| 0 <= j < i ==> (#[trigger] s[j]).id != id
}

/// The position of the first task with the given id, if any.
pub fn find_task(tasks: &Vec<TaskEntry>, id: u64) -> (r: Option<usize>)
    ensures
        r is None <==> forall|j: int| 0 <= j < tasks@.len() ==> (#[trigger] tasks@[j]).id != id,
        r matches Some(i) ==> is_first_with_id(tasks@, id, i as int),
{
    let n = tasks.len();
    for i in 0..n
        invariant
            n == tasks@.len(),
            forall|j: int| 0 <= j < i ==> (#[trigger] tasks@[j]).id != id,
    {
        if tasks[i].id == id {
            return Some(i);
        }
    }
    None
}

/// The label of the task chip: `"No task"` when none is selected, the
/// selected task's name, or `"(unknown task)"` when no task has that id.
pub open spec fn label_text(selected: Option<u64>, tasks: Seq<TaskEntry>) -> Seq<char> {
    match selected {
        None => "No task"@,
        Some(id) => if exists|i: int| is_first_with_id(tasks, id, i) {
            tasks[choose|i: int| is_first_with_id(tasks, id, i)].name@
        } else {
            "(unknown task)"@
        },
    }
}

proof fn lemma_first_unique(s: Seq<TaskEntry>, id: u64, i: int, k: int)
    requires
        is_first_with_id(s, id, i),
        is_first_with_id(s, id, k),
    ensures
        i == k,
{
    if i < k {
        assert(s[i].id != id);
    } else if k < i {
        assert(s[k].id != id);
    }
}

pub fn selected_task_label(selected: Option<u64>, tasks: &Vec<TaskEntry>) -> (s: String)
    ensures
        s@ == label_text(selected, tasks@),
{
    match selected {
        None => String::from_str("No task"),
        Some(id) => match find_task(tasks, id) {
            Some(i) => {
                proof {
                    let k = choose|k: int| is_first_with_id(tasks@, id, k);
                    lemma_first_unique(tasks@, id, i as int, k);
                }
                tasks[i].name.clone()
            },
            None => String::from_str("(unknown task)"),
        },
    }
}

/// The name of the task a session was attributed to, if it has one and the
/// task is still listed.
pub open spec fn attributed_name(task_id: Option<u64>, tasks: Seq<TaskEntry>) -> Option<Seq<char>> {
    match task_id {
        None => None,
        Some(id) => if exists|i: int| is_first_with_id(tasks, id, i) {
            Some(tasks[choose|i: int| is_first_with_id(tasks, id, i)].name@)
        } else {
            None
        },
    }
}

pub fn task_name(task_id: Option<u64>, tasks: &Vec<TaskEntry>) -> (r: Option<String>)
    ensures
        r matches Some(n) ==> attributed_name(task_id, tasks@) == Some(n@),
        r is None <==> attributed_name(task_id, tasks@) is None,
{
    match task_id {
        None => None,
        Some(id) => match find_task(tasks, id) {
            Some(i) => {
                proof {
                    let k = choose|k: int| is_first_with_id(tasks@, id, k);
                    lemma_first_unique(tasks@, id, i as int, k);
                }
                Some(tasks[i].name.clone())
            },
            None => None,
        },
    }
}

/// The positions, in list order, of the tasks that are not archived: those
/// the picker offers.
pub fn unarchived_positions(tasks: &Vec<TaskEntry>) -> (r: Vec<usize>)
    ensures
        r@ == Seq::new(tasks@.len(), |i: int| i as usize).filter(|i: usize| !tasks@[i as int].archived),
{
    let ghost keep = |i: usize| !tasks@[i as int].archived;
    let ghost all = Seq::new(tasks@.len(), |i: int| i as usize);
    let n = tasks.len();
    let mut out: Vec<usize> = Vec::new();
    for i in 0..n
        invariant
            n == tasks@.len(),
            keep == (|i: usize| !tasks@[i as int].archived),
            all == Seq::new(tasks@.len(), |i: int| i as usize),
            out@ == all.take(i as int).filter(keep),
    {
        proof {
            assert(all.take(i + 1) == all.take(i as int).push(i));
            all.take(i as int).lemma_filter_push(i, keep);
        }
        if !tasks[i].archived {
            out.push(i);
        }
    }
    proof {
        assert(all.take(n as int) == all);
    }
    out
}

/// The "applies from the next session" hint: a session is in flight and its
/// task differs from the one now selected.
pub fn task_switch_pending(has_active_session: bool, active_task_id: Option<u64>, selected: Option<u64>) -> (b: bool)
    ensures
        b == (has_active_session && active_task_id != selected),
{
    has_active_session && active_task_id != selected
}

/// The name typed for a new task or a rename: trimmed, and `None` when
/// nothing is left.
pub fn entered_name(text: &str) -> (r: Option<String>)
    ensures
        r is None <==> trimmed(text@).len() == 0,
        r matches Some(n) ==> n@ == trimmed(text@),
{
    let t = trim(text);
    if t.unicode_len() == 0 {
        None
    } else {
        Some(String::from_str(t))
    }
}

/// With no task selected the chip reads "No task"; with a task selected it
/// shows the name of the first listed task with that id, or "(unknown task)"
/// when none has it.
pub proof fn lemma_label_cases(selected: Option<u64>, tasks: Seq<TaskEntry>, i: int)
    ensures
        selected is None ==> label_text(selected, tasks) == "No task"@,
        selected matches Some(id) ==> (forall|j: int| 0 <= j < tasks.len() ==> (#[trigger] tasks[j]).id != id)
            ==> label_text(selected, tasks) == "(unknown task)"@,
        selected matches Some(id) ==> (0 <= i < tasks.len() && tasks[i].id == id && forall|j: int|
            0 <= j < i ==> (#[trigger] tasks[j]).id != id) ==> label_text(selected, tasks) == tasks[i].name@,
{
    if let Some(id) = selected {
        if is_first_with_id(tasks, id, i) {
            assert(exists|k: int| is_first_with_id(tasks, id, k));
            let k = choose|k: int| is_first_with_id(tasks, id, k);
            lemma_first_unique(tasks, id, i, k);
        }
    }
}

/// A session's task name is the name of the first listed task with the
/// session's task id; a session without a task, or whose task is not
/// listed, shows none.
pub proof fn lemma_attributed_cases(task_id: Option<u64>, tasks: Seq<TaskEntry>, i: int)
    ensures
        task_id is None ==> attributed_name(task_id, tasks) is None,
        task_id matches Some(id) ==> (forall|j: int| 0 <= j < tasks.len() ==> (#[trigger] tasks[j]).id != id)
            ==> attributed_name(task_id, tasks) is None,
        task_id matches Some(id) ==> (0 <= i < tasks.len() && tasks[i].id == id && forall|j: int|
            0 <= j < i ==> (#[trigger] tasks[j]).id != id) ==> attributed_name(task_id, tasks) == Some(
            tasks[i].name@,
        ),
{
    if let Some(id) = task_id {
        if is_first_with_id(tasks, id, i) {
            assert(exists|k: int| is_first_with_id(tasks, id, k));
            let k = choose|k: int| is_first_with_id(tasks, id, k);
            lemma_first_unique(tasks, id, i, k);
        }
    }
}

} // verus!
