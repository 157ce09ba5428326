use vstd::prelude::*;

verus! {

/// How urgent a task is.
#[derive(Debug, Clone, Copy, PartialEq, Eq, Structural)]
pub enum Priority {
    High,
    Medium,
    Low,
}

/// The priority that a command-line word names: exactly `high`, `medium` or
/// `low`, in lower case.
pub open spec fn priority_of_word(s: Seq<char>) -> Option<Priority> {
    if s == "high"@ {
        Some(Priority::High)
    } else if s == "medium"@ {
        Some(Priority::Medium)
    } else if s == "low"@ {
        Some(Priority::Low)
    } else {
        None
    }
}

/// The name of a priority as it is written out and stored.
pub open spec fn priority_label(p: Priority) -> Seq<char> {
    match p {
        Priority::High => "High"@,
        Priority::Medium => "Medium"@,
        Priority::Low => "Low"@,
    }
}

/// Whether `s` holds exactly the characters of `w`.
pub(crate) fn same_text(s: &String, w: &str) -> (r: bool)
    ensures
        r == (s@ == w@),
{
    let t = w.to_owned();
    *s == t
}

impl Priority {
    /// Reads a command-line priority word; any other text gives `None`.
    pub fn from_str(s: String) -> (r: Option<Self>)
        ensures
            r == priority_of_word(s@),
    {
        if same_text(&s, "high") {
            Some(Priority::High)
        } else if same_text(&s, "medium") {
            Some(Priority::Medium)
        } else if same_text(&s, "low") {
            Some(Priority::Low)
        } else {
            None
        }
    }

    /// The stored name of this priority: `High`, `Medium` or `Low`.
    pub fn label(&self) -> (r: &'static str)
        ensures
            r@ == priority_label(*self),
    {
        match self {
            Priority::High => "High",
            Priority::Medium => "Medium",
            Priority::Low => "Low",
        }
    }
}

/// A task: what is to be done, whether it is done, and how urgent it is.
#[derive(Debug, PartialEq, Eq)]
pub struct Task {
    pub description: String,
    pub completed: bool,
    pub priority: Priority,
}

/// The value of a task, with its description as a sequence of characters.
pub struct TaskView {
    pub description: Seq<char>,
    pub completed: bool,
    pub priority: Priority,
}

impl View for Task {
    type V = TaskView;

    open spec fn view(&self) -> TaskView {
        TaskView {
            description: self.description@,
            completed: self.completed,
            priority: self.priority,
        }
    }
}

impl Task {
    /// A task that is not done yet, of low priority.
    pub fn new(description: String) -> (r: Self)
        ensures
            r@ == (TaskView { description: description@, completed: false, priority: Priority::Low }),
    {
        Task { description, completed: false, priority: Priority::Low }
    }

    /// A task that is not done yet, of the given priority.
    pub fn with_priority(description: String, priority: Priority) -> (r: Self)
        ensures
            r@ == (TaskView { description: description@, completed: false, priority }),
    {
        Task { description, completed: false, priority }
    }

    /// Marks the task done; nothing else changes.
    pub fn complete(&mut self)
        ensures
            final(self)@ == (TaskView { completed: true, ..old(self)@ }),
    {
        self.completed = true;
    }

    /// Marks the task not done; nothing else changes.
    pub fn incomplete(&mut self)
        ensures
            final(self)@ == (TaskView { completed: false, ..old(self)@ }),
    {
        self.completed = false;
    }

    /// The mark shown for the task in a listing: `X` when it is done, a
    /// space when it is not.
    pub fn status_mark(&self) -> (r: &'static str)
        ensures
            r@ == (if self.completed { "X"@ } else { " "@ }),
    {
        if self.completed {
            "X"
        } else {
            " "
        }
    }

    /// A new task equal to this one.
    pub fn duplicate(&self) -> (r: Self)
        ensures
            r@ == self@,
    {
        Task {
            description: self.description.clone(),
            completed: self.completed,
            priority: self.priority,
        }
    }
}

} // verus!
