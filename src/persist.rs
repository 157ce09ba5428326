use vstd::prelude::*;
use crate::account::{Account, AccountView};
use crate::store::{Store, index_of, names_unique};
use crate::task::{Priority, Task, TaskView, priority_label, same_text};

verus! {

/// A JSON document, as a tree of values. Object members keep their order.
#[derive(Debug, PartialEq, Eq)]
pub enum Json {
    Null,
    Bool(bool),
    /// A number, in its written form.
    Number(String),
    Str(String),
    Array(Vec<Json>),
    Object(Vec<(String, Json)>),
}

/// Why a stored document could not be read as a store.
#[derive(Debug, Clone, Copy, PartialEq, Eq, Structural)]
pub enum LoadError {
    /// The document does not have the shape of a stored store.
    Malformed,
}

/// The priority whose stored name is `s`, if any.
pub open spec fn priority_of_label(s: Seq<char>) -> Option<Priority> {
    if s == "High"@ {
        Some(Priority::High)
    } else if s == "Medium"@ {
        Some(Priority::Medium)
    } else if s == "Low"@ {
        Some(Priority::Low)
    } else {
        None
    }
}

/// The value of the first member of `fs`, from position `i` on, whose key is
/// `key`.
pub open spec fn field_from(fs: Seq<(String, Json)>, key: Seq<char>, i: int) -> Option<Json>
    decreases fs.len() - i,
{
    if i < 0 || i >= fs.len() {
        None
    } else if fs[i].0@ == key {
        Some(fs[i].1)
    } else {
        field_from(fs, key, i + 1)
    }
}

/// The value of the first member of `fs` whose key is `key`.
pub open spec fn field_of(fs: Seq<(String, Json)>, key: Seq<char>) -> Option<Json> {
    field_from(fs, key, 0)
}

/// The task that a stored task object holds, if it is one.
pub open spec fn task_of(j: Json) -> Option<TaskView> {
    match j {
        Json::Object(fs) => match (
            field_of(fs@, "description"@),
            field_of(fs@, "completed"@),
            field_of(fs@, "priority"@),
        ) {
            (Some(Json::Str(d)), Some(Json::Bool(c)), Some(Json::Str(p))) => match priority_of_label(p@) {
                Some(pr) => Some(TaskView { description: d@, completed: c, priority: pr }),
                None => None,
            },
            _ => None,
        },
        _ => None,
    }
}

/// The tasks that a stored array of tasks holds, if it is one.
pub open spec fn tasks_of(j: Json) -> Option<Seq<TaskView>> {
    match j {
        Json::Array(items) => if forall|k: int| 0 <= k < items@.len() ==> #[trigger] task_of(items@[k]) is Some {
            Some(Seq::new(items@.len(), |k: int| task_of(items@[k])->0))
        } else {
            None
        },
        _ => None,
    }
}

/// The account stored under `key`, if `j` is a stored account of that name.
/// Its nested accounts are not read; they must be an object.
pub open spec fn account_of(key: Seq<char>, j: Json) -> Option<AccountView> {
    match j {
        Json::Object(fs) => match (
            field_of(fs@, "name"@),
            field_of(fs@, "tasks"@),
            field_of(fs@, "subaccounts"@),
        ) {
            (Some(Json::Str(n)), Some(t), Some(Json::Object(_))) => if n@ == key {
                match tasks_of(t) {
                    Some(ts) => Some(AccountView { name: key, tasks: ts }),
                    None => None,
                }
            } else {
                None
            },
            _ => None,
        },
        _ => None,
    }
}

/// No two members of `fs` share a key.
pub open spec fn keys_unique(fs: Seq<(String, Json)>) -> bool {
    forall|i: int, k: int| 0 <= i < k < fs.len() ==> fs[i].0@ != fs[k].0@
}

/// The store that a stored document holds, if it is one: an object with one
/// member per account, keyed by the account's name.
pub open spec fn store_of(j: Json) -> Option<Seq<AccountView>> {
    match j {
        Json::Object(es) => if keys_unique(es@) && forall|k: int|
            0 <= k < es@.len() ==> #[trigger] account_of(es@[k].0@, es@[k].1) is Some {
            Some(Seq::new(es@.len(), |k: int| account_of(es@[k].0@, es@[k].1)->0))
        } else {
            None
        },
        _ => None,
    }
}

/// Whether `j` is the stored form of task `t`: an object with the members
/// `description`, `completed` and `priority`, in that order.
pub open spec fn encodes_task(j: Json, t: TaskView) -> bool {
    match j {
        Json::Object(fs) => {
            &&& fs@.len() == 3
            &&& fs@[0].0@ == "description"@
            &&& fs@[0].1 matches Json::Str(d) && d@ == t.description
            &&& fs@[1].0@ == "completed"@ && fs@[1].1 == Json::Bool(t.completed)
            &&& fs@[2].0@ == "priority"@
            &&& fs@[2].1 matches Json::Str(p) && p@ == priority_label(t.priority)
        },
        _ => false,
    }
}

/// Whether `j` is the stored form of account `a`: an object with the members
/// `name`, `tasks` (an array of stored tasks) and `subaccounts` (an empty
/// object), in that order.
pub open spec fn encodes_account(j: Json, a: AccountView) -> bool {
    match j {
        Json::Object(fs) => {
            &&& fs@.len() == 3
            &&& fs@[0].0@ == "name"@
            &&& fs@[0].1 matches Json::Str(n) && n@ == a.name
            &&& fs@[1].0@ == "tasks"@
            &&& fs@[1].1 matches Json::Array(ts) && ts@.len() == a.tasks.len()
                && forall|k: int| 0 <= k < ts@.len() ==> #[trigger] encodes_task(ts@[k], a.tasks[k])
            &&& fs@[2].0@ == "subaccounts"@
            &&& fs@[2].1 matches Json::Object(subs) && subs@.len() == 0
        },
        _ => false,
    }
}

/// Whether `j` is the stored form of the store `s`: an object with one member
/// per account, in order, keyed by its name.
pub open spec fn encodes_store(j: Json, s: Seq<AccountView>) -> bool {
    match j {
        Json::Object(es) => {
            &&& es@.len() == s.len()
            &&& forall|k: int| 0 <= k < s.len() ==> #[trigger] es@[k].0@ == s[k].name && encodes_account(es@[k].1, s[k])
        },
        _ => false,
    }
}

/// The priority whose stored name is `s`, if any.
fn priority_from_label(s: &String) -> (r: Option<Priority>)
    ensures
        r == priority_of_label(s@),
{
    if same_text(s, "High") {
        Some(Priority::High)
    } else if same_text(s, "Medium") {
        Some(Priority::Medium)
    } else if same_text(s, "Low") {
        Some(Priority::Low)
    } else {
        None
    }
}

/// The value of the first member of `fs` whose key is `key`.
fn field<'a>(fs: &'a Vec<(String, Json)>, key: &str) -> (r: Option<&'a Json>)
    ensures
        match r {
            Some(v) => field_of(fs@, key@) == Some(*v),
            None => field_of(fs@, key@) is None,
        },
{
    let k = key.to_owned();
    let mut i: usize = 0;
    while i < fs.len()
        invariant
            0 <= i <= fs@.len(),
            k@ == key@,
            field_of(fs@, key@) == field_from(fs@, key@, i as int),
        decreases fs@.len() - i,
    {
        if fs[i].0 == k {
            return Some(&fs[i].1);
        }
        i = i + 1;
    }
    None
}

/// The task that a stored task object holds, if it is one.
fn task_from_json(j: &Json) -> (r: Option<Task>)
    ensures
        match task_of(*j) {
            Some(t) => r matches Some(x) && x@ == t,
            None => r is None,
        },
{
    match j {
        Json::Object(fs) => {
            match (field(fs, "description"), field(fs, "completed"), field(fs, "priority")) {
                (Some(Json::Str(d)), Some(Json::Bool(c)), Some(Json::Str(p))) => {
                    match priority_from_label(p) {
                        Some(pr) => Some(Task { description: d.clone(), completed: *c, priority: pr }),
                        None => None,
                    }
                },
                _ => None,
            }
        },
        _ => None,
    }
}

/// The tasks that a stored array of tasks holds, if it is one.
fn tasks_from_json(j: &Json) -> (r: Option<Vec<Task>>)
    ensures
        match tasks_of(*j) {
            Some(ts) => r matches Some(v) && v@.map_values(|t: Task| t@) == ts,
            None => r is None,
        },
{
    match j {
        Json::Array(items) => {
            let mut v: Vec<Task> = Vec::new();
            let mut i: usize = 0;
            while i < items.len()
                invariant
                    0 <= i <= items@.len(),
                    *j == Json::Array(*items),
                    v@.len() == i,
                    forall|k: int| 0 <= k < i ==> #[trigger] task_of(items@[k]) == Some(v@[k]@),
                decreases items@.len() - i,
            {
                match task_from_json(&items[i]) {
                    Some(t) => v.push(t),
                    None => {
                        assert(task_of(items@[i as int]) is None);
                        assert(tasks_of(*j) is None);
                        return None;
                    },
                }
                i = i + 1;
            }
            proof {
                assert(forall|k: int| 0 <= k < items@.len() ==> #[trigger] task_of(items@[k]) is Some);
                assert(v@.map_values(|t: Task| t@) =~= Seq::new(items@.len(), |k: int| task_of(items@[k])->0));
            }
            Some(v)
        },
        _ => None,
    }
}

/// The account stored under `key`, if `j` is a stored account of that name.
fn account_from_json(key: &String, j: &Json) -> (r: Option<Account>)
    ensures
        match account_of(key@, *j) {
            Some(a) => r matches Some(x) && x@ == a,
            None => r is None,
        },
{
    match j {
        Json::Object(fs) => {
            match (field(fs, "name"), field(fs, "tasks"), field(fs, "subaccounts")) {
                (Some(Json::Str(n)), Some(t), Some(Json::Object(_))) => {
                    if *n == *key {
                        match tasks_from_json(t) {
                            Some(tasks) => Some(Account { name: key.clone(), tasks }),
                            None => None,
                        }
                    } else {
                        None
                    }
                },
                _ => None,
            }
        },
        _ => None,
    }
}

/// Reads a stored document as a store; fails when the document does not have
/// the shape of one.
pub fn store_from_json(j: &Json) -> (r: Result<Store, LoadError>)
    ensures
        match store_of(*j) {
            Some(s) => r matches Ok(st) && st.wf() && st@ == s,
            None => r == Err::<Store, LoadError>(LoadError::Malformed),
        },
{
    match j {
        Json::Object(es) => {
            let mut st = Store::new();
            let mut i: usize = 0;
            while i < es.len()
                invariant
                    0 <= i <= es@.len(),
                    *j == Json::Object(*es),
                    st.wf(),
                    st@.len() == i,
                    keys_unique(es@.subrange(0, i as int)),
                    forall|k: int| 0 <= k < i ==> #[trigger] account_of(es@[k].0@, es@[k].1) == Some(st@[k]),
                    forall|k: int| 0 <= k < i ==> #[trigger] st@[k].name == es@[k].0@,
                decreases es@.len() - i,
            {
                let key = &es[i].0;
                match st.position(key.as_str()) {
                    Some(p) => {
                        proof {
                            assert(es@[p as int].0@ == es@[i as int].0@);
                            assert(!keys_unique(es@));
                            assert(store_of(*j) is None);
                        }
                        return Err(LoadError::Malformed);
                    },
                    None => {},
                }
                match account_from_json(key, &es[i].1) {
                    Some(a) => {
                        proof {
                            assert forall|k: int| 0 <= k < i implies st@[k].name != a@.name by {
                                if st@[k].name == a@.name {
                                    assert(index_of(st@, a@.name) is Some);
                                }
                            }
                            let before = es@.subrange(0, i as int);
                            let upto = es@.subrange(0, i + 1);
                            assert forall|x: int, y: int| 0 <= x < y < upto.len() implies
                                #[trigger] upto[x].0@ != #[trigger] upto[y].0@ by {
                                assert(upto[x] == es@[x]);
                                assert(upto[y] == es@[y]);
                                if y < i {
                                    assert(before[x] == es@[x]);
                                    assert(before[y] == es@[y]);
                                } else {
                                    assert(st@[x].name == es@[x].0@);
                                }
                            }
                        }
                        st.push_account(a);
                    },
                    None => {
                        assert(account_of(es@[i as int].0@, es@[i as int].1) is None);
                        return Err(LoadError::Malformed);
                    },
                }
                i = i + 1;
            }
            proof {
                assert(es@.subrange(0, es@.len() as int) =~= es@);
                assert(st@ =~= Seq::new(es@.len(), |k: int| account_of(es@[k].0@, es@[k].1)->0));
            }
            Ok(st)
        },
        _ => Err(LoadError::Malformed),
    }
}

/// Reads the stored document, if there is one: no document gives a store with
/// no account; a document that does not have the shape of a store is an
/// error.
pub fn load_store(doc: Option<&Json>) -> (r: Result<Store, LoadError>)
    ensures
        match doc {
            None => r matches Ok(st) && st.wf() && st@.len() == 0,
            Some(j) => match store_of(*j) {
                Some(s) => r matches Ok(st) && st.wf() && st@ == s,
                None => r == Err::<Store, LoadError>(LoadError::Malformed),
            },
        },
{
    match doc {
        None => Ok(Store::new()),
        Some(j) => store_from_json(j),
    }
}

/// The stored form of a task.
fn task_to_json(t: &Task) -> (r: Json)
    ensures
        encodes_task(r, t@),
{
    let mut fs: Vec<(String, Json)> = Vec::new();
    fs.push(("description".to_owned(), Json::Str(t.description.clone())));
    fs.push(("completed".to_owned(), Json::Bool(t.completed)));
    fs.push(("priority".to_owned(), Json::Str(t.priority.label().to_owned())));
    Json::Object(fs)
}

/// The stored form of an account.
fn account_to_json(a: &Account) -> (r: Json)
    ensures
        encodes_account(r, a@),
{
    let mut ts: Vec<Json> = Vec::new();
    let mut k: usize = 0;
    while k < a.tasks.len()
        invariant
            0 <= k <= a.tasks@.len(),
            ts@.len() == k,
            forall|m: int| 0 <= m < k ==> #[trigger] encodes_task(ts@[m], a@.tasks[m]),
        decreases a.tasks@.len() - k,
    {
        ts.push(task_to_json(&a.tasks[k]));
        k = k + 1;
    }
    let mut fs: Vec<(String, Json)> = Vec::new();
    fs.push(("name".to_owned(), Json::Str(a.name.clone())));
    fs.push(("tasks".to_owned(), Json::Array(ts)));
    fs.push(("subaccounts".to_owned(), Json::Object(Vec::new())));
    Json::Object(fs)
}

/// The stored form of a store: an object with one member per account, in
/// order, keyed by its name.
pub fn store_to_json(s: &Store) -> (r: Json)
    ensures
        encodes_store(r, s@),
{
    let accounts = s.accounts();
    let mut es: Vec<(String, Json)> = Vec::new();
    let mut k: usize = 0;
    while k < accounts.len()
        invariant
            0 <= k <= accounts@.len(),
            accounts@.map_values(|a: Account| a@) == s@,
            es@.len() == k,
            forall|m: int| 0 <= m < k ==> #[trigger] es@[m].0@ == s@[m].name && encodes_account(es@[m].1, s@[m]),
        decreases accounts@.len() - k,
    {
        let a = &accounts[k];
        es.push((a.name.clone(), account_to_json(a)));
        k = k + 1;
    }
    Json::Object(es)
}

proof fn lemma_label_read_back(p: Priority)
    ensures
        priority_of_label(priority_label(p)) == Some(p),
{
    reveal_strlit("High");
    reveal_strlit("Medium");
    reveal_strlit("Low");
    assert("High"@.len() != "Medium"@.len());
    assert("High"@.len() != "Low"@.len());
    assert("Medium"@.len() != "Low"@.len());
}

proof fn lemma_task_read_back(j: Json, t: TaskView)
    requires
        encodes_task(j, t),
    ensures
        task_of(j) == Some(t),
{
    reveal_strlit("description");
    reveal_strlit("completed");
    reveal_strlit("priority");
    let fs = j->Object_0@;
    assert("description"@.len() != "completed"@.len());
    assert("description"@.len() != "priority"@.len());
    assert("completed"@.len() != "priority"@.len());
    assert(field_from(fs, "completed"@, 0) == field_from(fs, "completed"@, 1));
    assert(field_from(fs, "priority"@, 0) == field_from(fs, "priority"@, 1));
    assert(field_from(fs, "priority"@, 1) == field_from(fs, "priority"@, 2));
    lemma_label_read_back(t.priority);
}

proof fn lemma_account_read_back(j: Json, a: AccountView)
    requires
        encodes_account(j, a),
    ensures
        account_of(a.name, j) == Some(a),
{
    reveal_strlit("name");
    reveal_strlit("tasks");
    reveal_strlit("subaccounts");
    let fs = j->Object_0@;
    assert("name"@.len() != "tasks"@.len());
    assert("name"@.len() != "subaccounts"@.len());
    assert("tasks"@.len() != "subaccounts"@.len());
    assert(field_from(fs, "tasks"@, 0) == field_from(fs, "tasks"@, 1));
    assert(field_from(fs, "subaccounts"@, 0) == field_from(fs, "subaccounts"@, 1));
    assert(field_from(fs, "subaccounts"@, 1) == field_from(fs, "subaccounts"@, 2));
    let items = fs[1].1->Array_0@;
    assert forall|k: int| 0 <= k < items.len() implies #[trigger] task_of(items[k]) == Some(a.tasks[k]) by {
        lemma_task_read_back(items[k], a.tasks[k]);
    }
    assert(Seq::new(items.len(), |k: int| task_of(items[k])->0) =~= a.tasks);
}

/// Writing a well-formed store out and reading the result back gives the same
/// store: the same accounts in the same order, each with the same name and
/// the same tasks, descriptions, completion marks and priorities.
pub proof fn lemma_round_trip(j: Json, s: Seq<AccountView>)
    requires
        names_unique(s),
        encodes_store(j, s),
    ensures
        store_of(j) == Some(s),
{
    let es = j->Object_0@;
    assert forall|k: int| 0 <= k < es.len() implies #[trigger] account_of(es[k].0@, es[k].1) == Some(s[k]) by {
        lemma_account_read_back(es[k].1, s[k]);
    }
    assert forall|x: int, y: int| 0 <= x < y < es.len() implies #[trigger] es[x].0@ != #[trigger] es[y].0@ by {
        assert(s[x].name != s[y].name);
    }
    assert(Seq::new(es.len(), |k: int| account_of(es[k].0@, es[k].1)->0) =~= s);
}

} // verus!
