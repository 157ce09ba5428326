use vstd::prelude::*;
use crate::task::{Priority, Task, TaskView};

verus! {

/// The message of the error that `complete_task` and `incomplete_task` give
/// for a task number that names no task.
pub const INVALID_TASK_INDEX: &'static str = "Invalid task index";

/// A named, ordered list of tasks. Tasks are numbered from 1 in list order.
#[derive(Debug, PartialEq, Eq)]
pub struct Account {
    pub name: String,
    pub tasks: Vec<Task>,
}

/// The value of an account: its name and the values of its tasks, in order.
pub struct AccountView {
    pub name: Seq<char>,
    pub tasks: Seq<TaskView>,
}

/// A task that is not done yet, with the given description and priority.
pub open spec fn fresh_task(description: Seq<char>, priority: Priority) -> TaskView {
    TaskView { description, completed: false, priority }
}

/// Whether `id` is the number of a task among `n` tasks.
pub open spec fn valid_id(id: int, n: int) -> bool {
    1 <= id <= n
}

impl AccountView {
    /// The account with `t` appended to its tasks.
    pub open spec fn with_task(self, t: TaskView) -> AccountView {
        AccountView { tasks: self.tasks.push(t), ..self }
    }

    /// The account with task number `id` removed, if there is one; else the
    /// account itself.
    pub open spec fn without_task(self, id: int) -> AccountView {
        if valid_id(id, self.tasks.len() as int) {
            AccountView { tasks: self.tasks.remove(id - 1), ..self }
        } else {
            self
        }
    }

    /// The account with task number `id` marked done or not done, as `done`
    /// says. Only meant for a valid `id`.
    pub open spec fn with_mark(self, id: int, done: bool) -> AccountView {
        AccountView {
            tasks: self.tasks.update(id - 1, TaskView { completed: done, ..self.tasks[id - 1] }),
            ..self
        }
    }

    /// The account after a sequence of plain additions, one per description.
    pub open spec fn after_adds(self, descriptions: Seq<Seq<char>>) -> AccountView
        decreases descriptions.len(),
    {
        if descriptions.len() == 0 {
            self
        } else {
            self.after_adds(descriptions.drop_last()).with_task(
                fresh_task(descriptions.last(), Priority::Low),
            )
        }
    }
}

/// Tasks added one after another to a new account stand in the order in which
/// they were added, each not done and of low priority.
pub proof fn lemma_adds_keep_order(name: Seq<char>, descriptions: Seq<Seq<char>>)
    ensures
        ({
            let a = (AccountView { name, tasks: Seq::empty() }).after_adds(descriptions);
            &&& a.name == name
            &&& a.tasks.len() == descriptions.len()
            &&& forall|i: int|
                0 <= i < descriptions.len() ==> #[trigger] a.tasks[i] == fresh_task(
                    descriptions[i],
                    Priority::Low,
                )
        }),
    decreases descriptions.len(),
{
    if descriptions.len() > 0 {
        let rest = descriptions.drop_last();
        lemma_adds_keep_order(name, rest);
        let a = (AccountView { name, tasks: Seq::empty() }).after_adds(descriptions);
        assert forall|i: int| 0 <= i < descriptions.len() implies #[trigger] a.tasks[i]
            == fresh_task(descriptions[i], Priority::Low) by {
            if i < rest.len() {
                assert(rest[i] == descriptions[i]);
            }
        }
    }
}

/// Deleting task number `id`, where there is one, removes exactly that task:
/// the tasks before it keep their numbers and those after it move down by
/// one. Any other number leaves the account as it is.
pub proof fn lemma_delete_shifts(a: AccountView, id: int)
    ensures
        ({
            let b = a.without_task(id);
            &&& b.name == a.name
            &&& valid_id(id, a.tasks.len() as int) ==> {
                &&& b.tasks.len() == a.tasks.len() - 1
                &&& forall|i: int| 0 <= i < id - 1 ==> #[trigger] b.tasks[i] == a.tasks[i]
                &&& forall|i: int| id - 1 <= i < b.tasks.len() ==> #[trigger] b.tasks[i] == a.tasks[i + 1]
            }
            &&& !valid_id(id, a.tasks.len() as int) ==> b == a
        }),
{
}

/// Marking a task done and then not done leaves it not done, with its
/// description, its priority, the other tasks and the name as they were.
pub proof fn lemma_complete_then_incomplete(a: AccountView, id: int)
    requires
        valid_id(id, a.tasks.len() as int),
    ensures
        ({
            let b = a.with_mark(id, true).with_mark(id, false);
            &&& b.name == a.name
            &&& b.tasks.len() == a.tasks.len()
            &&& b.tasks[id - 1] == (TaskView { completed: false, ..a.tasks[id - 1] })
            &&& forall|j: int| 0 <= j < a.tasks.len() && j != id - 1 ==> #[trigger] b.tasks[j] == a.tasks[j]
        }),
{
}

impl View for Account {
    type V = AccountView;

    open spec fn view(&self) -> AccountView {
        AccountView { name: self.name@, tasks: self.tasks@.map_values(|t: Task| t@) }
    }
}

impl Account {
    /// An account with no tasks.
    pub fn new(name: String) -> (r: Self)
        ensures
            r@ == (AccountView { name: name@, tasks: Seq::empty() }),
    {
        let r = Account { name, tasks: Vec::new() };
        proof {
            assert(r@.tasks =~= Seq::empty());
        }
        r
    }

    /// Appends a task of low priority.
    pub fn add_task(&mut self, description: String)
        ensures
            final(self)@ == old(self)@.with_task(fresh_task(description@, Priority::Low)),
    {
        let task = Task::new(description);
        self.tasks.push(task);
        proof {
            assert(final(self)@.tasks =~= old(self)@.tasks.push(fresh_task(description@, Priority::Low)));
        }
    }

    /// Appends a task of the given priority.
    pub fn add_task_with_priority(&mut self, description: String, priority: Priority)
        ensures
            final(self)@ == old(self)@.with_task(fresh_task(description@, priority)),
    {
        let task = Task::with_priority(description, priority);
        self.tasks.push(task);
        proof {
            assert(final(self)@.tasks =~= old(self)@.tasks.push(fresh_task(description@, priority)));
        }
    }

    /// Removes task number `id`; a number that names no task changes nothing.
    pub fn delete_task(&mut self, id: usize)
        ensures
            final(self)@ == old(self)@.without_task(id as int),
    {
        if id > 0 && id <= self.tasks.len() {
            self.tasks.remove(id - 1);
            proof {
                assert(final(self)@.tasks =~= old(self)@.tasks.remove(id - 1));
            }
        }
    }

    /// Marks task number `id` done, or fails, changing nothing, when `id`
    /// names no task.
    pub fn complete_task(&mut self, id: usize) -> (r: Result<(), &'static str>)
        ensures
            r is Ok <==> valid_id(id as int, old(self)@.tasks.len() as int),
            r is Ok ==> final(self)@ == old(self)@.with_mark(id as int, true),
            r matches Err(e) ==> final(self)@ == old(self)@ && e@ == INVALID_TASK_INDEX@,
    {
        if id > 0 && id <= self.tasks.len() {
            self.tasks[id - 1].complete();
            proof {
                assert(final(self)@.tasks =~= old(self)@.with_mark(id as int, true).tasks);
            }
            Ok(())
        } else {
            Err(INVALID_TASK_INDEX)
        }
    }

    /// Marks task number `id` not done, or fails, changing nothing, when `id`
    /// names no task.
    pub fn incomplete_task(&mut self, id: usize) -> (r: Result<(), &'static str>)
        ensures
            r is Ok <==> valid_id(id as int, old(self)@.tasks.len() as int),
            r is Ok ==> final(self)@ == old(self)@.with_mark(id as int, false),
            r matches Err(e) ==> final(self)@ == old(self)@ && e@ == INVALID_TASK_INDEX@,
    {
        if id > 0 && id <= self.tasks.len() {
            self.tasks[id - 1].incomplete();
            proof {
                assert(final(self)@.tasks =~= old(self)@.with_mark(id as int, false).tasks);
            }
            Ok(())
        } else {
            Err(INVALID_TASK_INDEX)
        }
    }

    /// Removes every task.
    pub fn clear_tasks(&mut self)
        ensures
            final(self)@ == (AccountView { tasks: Seq::empty(), ..old(self)@ }),
    {
        self.tasks.clear();
        proof {
            assert(final(self)@.tasks =~= Seq::empty());
        }
    }
}

} // verus!
