use tusk::{Priority, Task};

#[test]
fn priority_words_are_read_in_lower_case_only() {
    assert_eq!(Priority::from_str("high".to_string()), Some(Priority::High));
    assert_eq!(Priority::from_str("medium".to_string()), Some(Priority::Medium));
    assert_eq!(Priority::from_str("low".to_string()), Some(Priority::Low));
    assert_eq!(Priority::from_str("High".to_string()), None);
    assert_eq!(Priority::from_str("urgent".to_string()), None);
    assert_eq!(Priority::from_str(String::new()), None);
}

#[test]
fn priority_labels() {
    assert_eq!(Priority::High.label(), "High");
    assert_eq!(Priority::Medium.label(), "Medium");
    assert_eq!(Priority::Low.label(), "Low");
}

#[test]
fn new_task_is_open_and_low() {
    let t = Task::new("buy milk".to_string());
    assert_eq!(t.description, "buy milk");
    assert!(!t.completed);
    assert_eq!(t.priority, Priority::Low);
}

#[test]
fn task_with_priority_keeps_it() {
    let t = Task::with_priority("fix".to_string(), Priority::Medium);
    assert_eq!(t.priority, Priority::Medium);
    assert!(!t.completed);
}

#[test]
fn complete_and_incomplete_are_idempotent() {
    let mut t = Task::with_priority("x".to_string(), Priority::High);
    t.complete();
    t.complete();
    assert!(t.completed);
    assert_eq!(t.status_mark(), "X");
    t.incomplete();
    t.incomplete();
    assert!(!t.completed);
    assert_eq!(t.status_mark(), " ");
    assert_eq!(t.description, "x");
    assert_eq!(t.priority, Priority::High);
}

#[test]
fn duplicate_is_equal() {
    let mut t = Task::new("twin".to_string());
    t.complete();
    assert_eq!(t.duplicate(), t);
}
