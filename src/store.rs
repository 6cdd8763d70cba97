//! The task store and its undo buffer, with the operations of the task list
//! stated over a model of both.
use vstd::prelude::*;
use crate::matching::{closest_index, find_closest_task, is_first_min, lemma_closest_index, task_distances};
use crate::order::{list_tasks, sorted_tasks};
use crate::task::Task;
use crate::text::{contains_text, has_substring, lower_of, lowercase};

verus! {

/// The undo buffer: empty, holding the last task marked done, or present but
/// unreadable.
#[derive(Debug)]
pub enum UndoSlot {
    Empty,
    Held(Task),
    Unreadable,
}

/// Why an undo could not be carried out.
#[derive(Debug, PartialEq, Eq, Structural)]
pub enum UndoError {
    /// The undo buffer holds data that does not read as a task.
    Unreadable,
}

/// The active tasks in store order, and the undo buffer.
pub struct StoreModel {
    pub tasks: Seq<Task>,
    pub undo: UndoSlot,
}

/// The active tasks and the undo buffer, as one value that every operation
/// reads and changes.
pub struct TaskStore {
    pub tasks: Vec<Task>,
    pub undo: UndoSlot,
}

impl View for TaskStore {
    type V = StoreModel;

    open spec fn view(&self) -> StoreModel {
        StoreModel { tasks: self.tasks@, undo: self.undo }
    }
}

/// `t` is found by a search for `query`: its description contains the query,
/// both with case ignored.
pub open spec fn search_hit(t: Task, query: Seq<char>) -> bool {
    has_substring(lower_of(t.description@), lower_of(query))
}

/// The tasks of `s` that a search for `query` finds, in store order.
pub open spec fn matching_tasks(s: Seq<Task>, query: Seq<char>) -> Seq<Task>
    decreases s.len(),
{
    if s.len() == 0 {
        s
    } else if search_hit(s.last(), query) {
        matching_tasks(s.drop_last(), query).push(s.last())
    } else {
        matching_tasks(s.drop_last(), query)
    }
}

/// The store after the task closest to `query` is marked done: it leaves the
/// store and replaces whatever the undo buffer held. An empty store is left as
/// it is.
pub open spec fn done_model(m: StoreModel, query: Seq<char>) -> StoreModel {
    if m.tasks.len() == 0 {
        m
    } else {
        let i = closest_index(m.tasks, query);
        StoreModel { tasks: m.tasks.remove(i), undo: UndoSlot::Held(m.tasks[i]) }
    }
}

/// The store after an undo: a held task goes back to the end of the store and
/// the buffer empties; an empty or unreadable buffer changes nothing.
pub open spec fn undo_model(m: StoreModel) -> StoreModel {
    match m.undo {
        UndoSlot::Held(t) => StoreModel { tasks: m.tasks.push(t), undo: UndoSlot::Empty },
        _ => m,
    }
}

/// The store after the task closest to `query` gets `description`, keeping its
/// creation time and place. An empty store is left as it is.
pub open spec fn edit_model(m: StoreModel, query: Seq<char>, description: String) -> StoreModel {
    if m.tasks.len() == 0 {
        m
    } else {
        let i = closest_index(m.tasks, query);
        StoreModel {
            tasks: m.tasks.update(i, Task { description, created_at: m.tasks[i].created_at }),
            undo: m.undo,
        }
    }
}

/// The tasks read from the store file: what parsed, or no tasks at all when the
/// file was missing or did not parse.
pub fn tasks_from_parsed(parsed: Option<Vec<Task>>) -> (r: Vec<Task>)
    ensures
        parsed matches Some(v) ==> r@ == v@,
        parsed.is_none() ==> r@.len() == 0,
{
    match parsed {
        Some(v) => v,
        None => Vec::new(),
    }
}

/// The undo buffer as read from its file: empty when there is no file, the
/// task when it parsed, unreadable when it did not.
pub fn undo_slot_from_file(present: bool, parsed: Option<Task>) -> (r: UndoSlot)
    ensures
        !present ==> r == UndoSlot::Empty,
        present ==> (parsed matches Some(t) ==> r == UndoSlot::Held(t)),
        present ==> (parsed.is_none() ==> r == UndoSlot::Unreadable),
{
    if !present {
        UndoSlot::Empty
    } else {
        match parsed {
            Some(t) => UndoSlot::Held(t),
            None => UndoSlot::Unreadable,
        }
    }
}

/// Marking a task done and then undoing gives back the same tasks, as a
/// collection, and leaves the undo buffer empty. This holds whenever the store
/// had a task to mark; with an empty store it holds when no undo was pending.
pub proof fn lemma_done_then_undo(m: StoreModel, query: Seq<char>)
    requires
        m.tasks.len() > 0 || m.undo is Empty,
    ensures
        undo_model(done_model(m, query)).tasks.to_multiset() == m.tasks.to_multiset(),
        undo_model(done_model(m, query)).undo is Empty,
{
    broadcast use vstd::seq_lib::group_to_multiset_ensures;
    if m.tasks.len() > 0 {
        lemma_closest_index(m.tasks, query);
        let i = closest_index(m.tasks, query);
        let after = m.tasks.remove(i).push(m.tasks[i]);
        assert(after.to_multiset() =~= m.tasks.to_multiset());
    }
}

/// The undo buffer holds one task: after two tasks are marked done in a row,
/// an undo brings back the second one only, and the first is gone for good.
pub proof fn lemma_undo_keeps_last_only(m: StoreModel, first: Seq<char>, second: Seq<char>)
    requires
        m.tasks.len() >= 2,
    ensures
        ({
            let s1 = done_model(m, first);
            let s2 = done_model(s1, second);
            let s3 = undo_model(s2);
            &&& s2.undo == UndoSlot::Held(s1.tasks[closest_index(s1.tasks, second)])
            &&& s3.undo is Empty
            &&& s3.tasks.to_multiset() == m.tasks.to_multiset().remove(
                m.tasks[closest_index(m.tasks, first)],
            )
        }),
{
    broadcast use vstd::seq_lib::group_to_multiset_ensures;
    lemma_closest_index(m.tasks, first);
    let s1 = done_model(m, first);
    assert(s1.tasks.len() > 0);
    lemma_done_then_undo(s1, second);
}

impl TaskStore {
    /// A store holding `tasks`, with `undo` as its undo buffer.
    pub fn new(tasks: Vec<Task>, undo: UndoSlot) -> (r: TaskStore)
        ensures
            r@ == (StoreModel { tasks: tasks@, undo }),
    {
        TaskStore { tasks, undo }
    }

    /// Appends `task` to the store.
    pub fn push_task(&mut self, task: Task)
        ensures
            final(self)@ == (StoreModel { tasks: old(self)@.tasks.push(task), undo: old(self)@.undo }),
    {
        self.tasks.push(task);
    }

    /// Appends a new task with `description`, stamped with the current time.
    pub fn add_task(&mut self, description: String)
        ensures
            final(self)@.tasks.len() == old(self)@.tasks.len() + 1,
            final(self)@.tasks.drop_last() == old(self)@.tasks,
            final(self)@.tasks.last().description == description,
            final(self)@.undo == old(self)@.undo,
    {
        let task = Task::new(description);
        self.push_task(task);
        assert(self@.tasks.drop_last() =~= old(self)@.tasks);
    }

    /// All tasks in listing order; the store itself is not changed.
    pub fn list_tasks(&self, alphabetical: bool) -> (r: Vec<Task>)
        ensures
            r@ == sorted_tasks(self@.tasks, alphabetical),
    {
        list_tasks(&self.tasks, alphabetical)
    }

    /// The tasks whose description contains `query`, case ignored, in store
    /// order; the store itself is not changed.
    pub fn search_tasks(&self, query: &str) -> (r: Vec<Task>)
        ensures
            r@ == matching_tasks(self@.tasks, query@),
    {
        let query_lower = lowercase(query);
        let mut found: Vec<Task> = Vec::new();
        let mut i: usize = 0;
        while i < self.tasks.len()
            invariant
                i <= self.tasks@.len(),
                query_lower@ == lower_of(query@),
                found@ == matching_tasks(self.tasks@.subrange(0, i as int), query@),
            decreases self.tasks@.len() - i,
        {
            let description_lower = lowercase(self.tasks[i].description.as_str());
            let hit = contains_text(description_lower.as_str(), query_lower.as_str());
            proof {
                let prefix = self.tasks@.subrange(0, i as int + 1);
                assert(prefix.drop_last() =~= self.tasks@.subrange(0, i as int));
            }
            if hit {
                found.push(self.tasks[i].clone());
            }
            i = i + 1;
        }
        assert(self.tasks@.subrange(0, self.tasks@.len() as int) =~= self.tasks@);
        found
    }

    /// Marks the task closest to `query` done: it leaves the store and becomes
    /// the one task that an undo brings back. Returns its former index, or
    /// `None` when the store is empty.
    pub fn mark_done(&mut self, query: &str) -> (r: Option<usize>)
        ensures
            final(self)@ == done_model(old(self)@, query@),
            r.is_none() <==> old(self)@.tasks.len() == 0,
            r matches Some(i) ==> i == closest_index(old(self)@.tasks, query@),
    {
        let found = find_closest_task(&self.tasks, query);
        match found {
            Some(i) => {
                proof {
                    lemma_closest_index(self@.tasks, query@);
                }
                let removed = self.tasks.remove(i);
                self.undo = UndoSlot::Held(removed);
                Some(i)
            },
            None => None,
        }
    }

    /// Brings back the task last marked done, at the end of the store, and
    /// empties the undo buffer. `Ok(true)` when a task came back, `Ok(false)`
    /// when there was none; an unreadable buffer is an error and changes
    /// nothing.
    pub fn undo_last(&mut self) -> (r: Result<bool, UndoError>)
        ensures
            final(self)@ == undo_model(old(self)@),
            r == Ok::<bool, UndoError>(true) <==> old(self)@.undo is Held,
            r == Ok::<bool, UndoError>(false) <==> old(self)@.undo is Empty,
            r == Err::<bool, UndoError>(UndoError::Unreadable) <==> old(self)@.undo is Unreadable,
    {
        let mut slot = UndoSlot::Empty;
        std::mem::swap(&mut slot, &mut self.undo);
        match slot {
            UndoSlot::Held(t) => {
                self.tasks.push(t);
                Ok(true)
            },
            UndoSlot::Empty => Ok(false),
            UndoSlot::Unreadable => {
                self.undo = UndoSlot::Unreadable;
                Err(UndoError::Unreadable)
            },
        }
    }

    /// Gives the task closest to `query` the description `new_description`,
    /// keeping its creation time. Returns its index, or `None` when the store
    /// is empty.
    pub fn edit_task(&mut self, query: &str, new_description: String) -> (r: Option<usize>)
        ensures
            final(self)@ == edit_model(old(self)@, query@, new_description),
            r.is_none() <==> old(self)@.tasks.len() == 0,
            r matches Some(i) ==> i == closest_index(old(self)@.tasks, query@),
    {
        let found = find_closest_task(&self.tasks, query);
        match found {
            Some(i) => {
                proof {
                    lemma_closest_index(self@.tasks, query@);
                }
                let created_at = self.tasks[i].created_at;
                self.tasks.set(i, Task { description: new_description, created_at });
                Some(i)
            },
            None => None,
        }
    }

    /// Removes every task; the undo buffer is kept.
    pub fn clear_tasks(&mut self)
        ensures
            final(self)@.tasks.len() == 0,
            final(self)@.undo == old(self)@.undo,
    {
        self.tasks = Vec::new();
    }
}

} // verus!
