use vstd::prelude::*;
use crate::account::{Account, AccountView, fresh_task, valid_id};
use crate::task::{Priority, Task, TaskView, priority_of_word};

verus! {

/// Why a command that names an account and a task could not act.
#[derive(Debug, Clone, Copy, PartialEq, Eq, Structural)]
pub enum CommandError {
    /// No account of the given name is in the store.
    NoSuchAccount,
    /// The account has no task of the given number.
    NoSuchTask,
}

/// One line of an account's listing: a task and its number.
#[derive(Debug, PartialEq, Eq)]
pub struct TaskRow {
    pub id: usize,
    pub task: Task,
}

/// All accounts, each kept under its own name, in the order they were made.
#[derive(Debug, PartialEq, Eq)]
pub struct Store {
    accounts: Vec<Account>,
}

/// No two accounts share a name.
pub open spec fn names_unique(s: Seq<AccountView>) -> bool {
    forall|i: int, j: int| 0 <= i < j < s.len() ==> s[i].name != s[j].name
}

/// The position of the account called `name`, if there is one.
pub open spec fn index_of(s: Seq<AccountView>, name: Seq<char>) -> Option<int> {
    if exists|i: int| 0 <= i < s.len() && s[i].name == name {
        Some(choose|i: int| 0 <= i < s.len() && s[i].name == name)
    } else {
        None
    }
}

/// The account called `name`, if there is one.
pub open spec fn lookup(s: Seq<AccountView>, name: Seq<char>) -> Option<AccountView> {
    match index_of(s, name) {
        Some(i) => Some(s[i]),
        None => None,
    }
}

/// The store with `t` appended to the tasks of the account called `name`,
/// which is made, with no other task, if there is none.
pub open spec fn add_to(s: Seq<AccountView>, name: Seq<char>, t: TaskView) -> Seq<AccountView> {
    match index_of(s, name) {
        Some(i) => s.update(i, s[i].with_task(t)),
        None => s.push(AccountView { name, tasks: seq![t] }),
    }
}

/// The priority that an added task gets from a command-line word: the one it
/// names, or low when it names none.
pub open spec fn priority_or_low(word: Seq<char>) -> Priority {
    match priority_of_word(word) {
        Some(p) => p,
        None => Priority::Low,
    }
}

/// Whether `rows` lists `tasks` in order, numbered from 1.
pub open spec fn lists(rows: Seq<TaskRow>, tasks: Seq<TaskView>) -> bool {
    &&& rows.len() == tasks.len()
    &&& forall|k: int| 0 <= k < rows.len() ==> #[trigger] rows[k].id == k + 1 && rows[k].task@ == tasks[k]
}

/// The outcome of marking task `id` of the account called `name` done or not
/// done, as `done` says: the new store and the result of the command.
pub open spec fn marked(s: Seq<AccountView>, name: Seq<char>, id: int, done: bool) -> Result<Seq<AccountView>, CommandError> {
    match index_of(s, name) {
        None => Err(CommandError::NoSuchAccount),
        Some(i) => if valid_id(id, s[i].tasks.len() as int) {
            Ok(s.update(i, s[i].with_mark(id, done)))
        } else {
            Err(CommandError::NoSuchTask)
        },
    }
}

proof fn lemma_index_of_found(s: Seq<AccountView>, name: Seq<char>, i: int)
    requires
        names_unique(s),
        0 <= i < s.len(),
        s[i].name == name,
    ensures
        index_of(s, name) == Some(i),
{
}

impl View for Store {
    type V = Seq<AccountView>;

    closed spec fn view(&self) -> Seq<AccountView> {
        self.accounts@.map_values(|a: Account| a@)
    }
}

impl Store {
    /// Whether the store is well formed: no two accounts share a name.
    pub open spec fn wf(&self) -> bool {
        names_unique(self@)
    }

    /// A store with no account.
    pub fn new() -> (r: Self)
        ensures
            r.wf(),
            r@ == Seq::<AccountView>::empty(),
    {
        let r = Store { accounts: Vec::new() };
        proof {
            assert(r@ =~= Seq::<AccountView>::empty());
        }
        r
    }

    /// The accounts, in order.
    pub fn accounts(&self) -> (r: &Vec<Account>)
        ensures
            r@.map_values(|a: Account| a@) == self@,
    {
        &self.accounts
    }

    /// How many accounts there are.
    pub fn len(&self) -> (r: usize)
        ensures
            r == self@.len(),
    {
        self.accounts.len()
    }

    /// The account called `name`, if there is one.
    pub fn account(&self, name: &str) -> (r: Option<&Account>)
        requires
            self.wf(),
        ensures
            match r {
                Some(a) => lookup(self@, name@) == Some(a@),
                None => lookup(self@, name@) is None,
            },
    {
        match self.position(name) {
            Some(i) => Some(&self.accounts[i]),
            None => None,
        }
    }

    /// The position of the account called `name`, if there is one.
    pub(crate) fn position(&self, name: &str) -> (r: Option<usize>)
        requires
            self.wf(),
        ensures
            match r {
                Some(i) => i < self@.len() && index_of(self@, name@) == Some(i as int),
                None => index_of(self@, name@) is None,
            },
    {
        let key = name.to_owned();
        let mut i: usize = 0;
        while i < self.accounts.len()
            invariant
                0 <= i <= self.accounts@.len(),
                self.wf(),
                key@ == name@,
                forall|j: int| 0 <= j < i ==> #[trigger] self@[j].name != name@,
            decreases self.accounts@.len() - i,
        {
            if self.accounts[i].name == key {
                proof {
                    lemma_index_of_found(self@, name@, i as int);
                }
                return Some(i);
            }
            i = i + 1;
        }
        None
    }

    /// Appends an account whose name no account has yet.
    pub(crate) fn push_account(&mut self, a: Account)
        requires
            old(self).wf(),
            index_of(old(self)@, a@.name) is None,
        ensures
            final(self).wf(),
            final(self)@ == old(self)@.push(a@),
    {
        self.accounts.push(a);
        proof {
            assert(self@ =~= old(self)@.push(a@));
        }
    }

    /// The account called `name`, made with no task if there is none, with
    /// `t` appended to its tasks.
    fn add(&mut self, name: &str, t: Task)
        requires
            old(self).wf(),
        ensures
            final(self).wf(),
            final(self)@ == add_to(old(self)@, name@, t@),
    {
        match self.position(name) {
            Some(i) => {
                let ghost tv = t@;
                self.accounts[i].tasks.push(t);
                proof {
                    let j = i as int;
                    assert(self.accounts@[j]@.tasks =~= old(self)@[j].tasks.push(tv));
                    assert(self@[j] == old(self)@[j].with_task(tv));
                    assert(self@ =~= old(self)@.update(j, old(self)@[j].with_task(tv)));
                }
            },
            None => {
                let ghost tv = t@;
                let mut a = Account::new(name.to_owned());
                a.tasks.push(t);
                self.accounts.push(a);
                proof {
                    assert(a@.tasks =~= seq![tv]);
                    assert(final(self)@ =~= add_to(old(self)@, name@, tv));
                }
            },
        }
    }

    /// The listing of the account at position `i`.
    fn rows(&self, i: usize) -> (r: Vec<TaskRow>)
        requires
            i < self@.len(),
        ensures
            lists(r@, self@[i as int].tasks),
    {
        let tasks = &self.accounts[i].tasks;
        let mut rows: Vec<TaskRow> = Vec::new();
        let mut k: usize = 0;
        while k < tasks.len()
            invariant
                0 <= k <= tasks@.len(),
                tasks@.map_values(|t: Task| t@) == self@[i as int].tasks,
                rows@.len() == k,
                forall|m: int| 0 <= m < k ==> #[trigger] rows@[m].id == m + 1 && rows@[m].task@ == tasks@[m]@,
            decreases tasks@.len() - k,
        {
            rows.push(TaskRow { id: k + 1, task: tasks[k].duplicate() });
            k = k + 1;
        }
        rows
    }
}


/// Appends a task of low priority to the account called `acc`, making the
/// account first if there is none.
pub fn handle_add_command(acc: &str, description: String, accounts: &mut Store)
    requires
        old(accounts).wf(),
    ensures
        final(accounts).wf(),
        final(accounts)@ == add_to(old(accounts)@, acc@, fresh_task(description@, Priority::Low)),
{
    accounts.add(acc, Task::new(description));
}

/// Appends a task of the priority that `priority` names to the account called
/// `acc`, making the account first if there is none. A word that names no
/// priority gives low priority; the result tells whether the word was
/// recognised.
pub fn handle_addp_command(acc: &str, description: String, priority: String, accounts: &mut Store) -> (recognised: bool)
    requires
        old(accounts).wf(),
    ensures
        recognised == priority_of_word(priority@) is Some,
        final(accounts).wf(),
        final(accounts)@ == add_to(old(accounts)@, acc@, fresh_task(description@, priority_or_low(priority@))),
{
    let (p, recognised) = match Priority::from_str(priority) {
        Some(p) => (p, true),
        None => (Priority::Low, false),
    };
    accounts.add(acc, Task::with_priority(description, p));
    recognised
}

/// Removes task number `id` of the account called `acc`; a number that names
/// no task changes nothing. Fails only when there is no such account.
pub fn handle_delete_command(acc: &str, id: usize, accounts: &mut Store) -> (r: Result<(), CommandError>)
    requires
        old(accounts).wf(),
    ensures
        final(accounts).wf(),
        match index_of(old(accounts)@, acc@) {
            None => r == Err::<(), CommandError>(CommandError::NoSuchAccount) && final(accounts)@ == old(accounts)@,
            Some(i) => r is Ok && final(accounts)@ == old(accounts)@.update(i, old(accounts)@[i].without_task(id as int)),
        },
{
    match accounts.position(acc) {
        Some(i) => {
            accounts.accounts[i].delete_task(id);
            proof {
                assert(accounts@ =~= old(accounts)@.update(i as int, old(accounts)@[i as int].without_task(id as int)));
            }
            Ok(())
        },
        None => Err(CommandError::NoSuchAccount),
    }
}

/// The listing of the account called `acc`, or `None` when there is no such
/// account.
pub fn handle_list_command(acc: &str, accounts: &Store) -> (r: Option<Vec<TaskRow>>)
    requires
        accounts.wf(),
    ensures
        match lookup(accounts@, acc@) {
            None => r is None,
            Some(a) => r matches Some(rows) && lists(rows@, a.tasks),
        },
{
    match accounts.position(acc) {
        Some(i) => Some(accounts.rows(i)),
        None => None,
    }
}

/// Marks task number `id` of the account called `acc` done or not done, as
/// `done` says, and gives the account's new listing.
fn mark_command(acc: &str, id: usize, done: bool, accounts: &mut Store) -> (r: Result<Vec<TaskRow>, CommandError>)
    requires
        old(accounts).wf(),
    ensures
        final(accounts).wf(),
        match marked(old(accounts)@, acc@, id as int, done) {
            Ok(s) => final(accounts)@ == s && (r matches Ok(rows) && lists(rows@, lookup(s, acc@)->0.tasks)),
            Err(e) => final(accounts)@ == old(accounts)@ && r == Err::<Vec<TaskRow>, CommandError>(e),
        },
{
    match accounts.position(acc) {
        Some(i) => {
            let res = if done {
                accounts.accounts[i].complete_task(id)
            } else {
                accounts.accounts[i].incomplete_task(id)
            };
            match res {
                Ok(()) => {
                    proof {
                        assert(accounts@ =~= old(accounts)@.update(i as int, old(accounts)@[i as int].with_mark(id as int, done)));
                        lemma_index_of_found(accounts@, acc@, i as int);
                    }
                    Ok(accounts.rows(i))
                },
                Err(_) => {
                    proof {
                        assert(accounts@ =~= old(accounts)@);
                    }
                    Err(CommandError::NoSuchTask)
                },
            }
        },
        None => Err(CommandError::NoSuchAccount),
    }
}

/// Marks task number `id` of the account called `acc` done and gives the
/// account's new listing; fails, changing nothing, when there is no such
/// account or no such task.
pub fn handle_complete_command(acc: &str, id: usize, accounts: &mut Store) -> (r: Result<Vec<TaskRow>, CommandError>)
    requires
        old(accounts).wf(),
    ensures
        final(accounts).wf(),
        match marked(old(accounts)@, acc@, id as int, true) {
            Ok(s) => final(accounts)@ == s && (r matches Ok(rows) && lists(rows@, lookup(s, acc@)->0.tasks)),
            Err(e) => final(accounts)@ == old(accounts)@ && r == Err::<Vec<TaskRow>, CommandError>(e),
        },
{
    mark_command(acc, id, true, accounts)
}

/// Marks task number `id` of the account called `acc` not done and gives the
/// account's new listing; fails, changing nothing, when there is no such
/// account or no such task.
pub fn handle_incomplete_command(acc: &str, id: usize, accounts: &mut Store) -> (r: Result<Vec<TaskRow>, CommandError>)
    requires
        old(accounts).wf(),
    ensures
        final(accounts).wf(),
        match marked(old(accounts)@, acc@, id as int, false) {
            Ok(s) => final(accounts)@ == s && (r matches Ok(rows) && lists(rows@, lookup(s, acc@)->0.tasks)),
            Err(e) => final(accounts)@ == old(accounts)@ && r == Err::<Vec<TaskRow>, CommandError>(e),
        },
{
    mark_command(acc, id, false, accounts)
}

/// Removes every task of the account called `acc`. Fails only when there is
/// no such account.
pub fn handle_clear_command(acc: &str, accounts: &mut Store) -> (r: Result<(), CommandError>)
    requires
        old(accounts).wf(),
    ensures
        final(accounts).wf(),
        match index_of(old(accounts)@, acc@) {
            None => r == Err::<(), CommandError>(CommandError::NoSuchAccount) && final(accounts)@ == old(accounts)@,
            Some(i) => r is Ok && final(accounts)@ == old(accounts)@.update(
                i,
                AccountView { tasks: Seq::empty(), ..old(accounts)@[i] },
            ),
        },
{
    match accounts.position(acc) {
        Some(i) => {
            accounts.accounts[i].clear_tasks();
            proof {
                assert(accounts@ =~= old(accounts)@.update(
                    i as int,
                    AccountView { tasks: Seq::empty(), ..old(accounts)@[i as int] },
                ));
            }
            Ok(())
        },
        None => Err(CommandError::NoSuchAccount),
    }
}

} // verus!
