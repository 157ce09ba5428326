use tusk::{
    handle_add_command, handle_addp_command, handle_clear_command, handle_complete_command,
    handle_delete_command, handle_incomplete_command, handle_list_command, CommandError, Priority,
    Store, Task,
};

#[test]
fn add_on_empty_store_makes_account() {
    let mut store = Store::new();
    handle_add_command("acme", "buy milk".to_string(), &mut store);
    assert_eq!(store.len(), 1);
    let acme = store.account("acme").unwrap();
    assert_eq!(acme.name, "acme");
    assert_eq!(acme.tasks.len(), 1);
    assert_eq!(acme.tasks[0].description, "buy milk");
    assert!(!acme.tasks[0].completed);
    assert_eq!(acme.tasks[0].priority, Priority::Low);
}

#[test]
fn add_to_existing_account_appends() {
    let mut store = Store::new();
    handle_add_command("acme", "one".to_string(), &mut store);
    handle_add_command("other", "x".to_string(), &mut store);
    handle_add_command("acme", "two".to_string(), &mut store);
    assert_eq!(store.len(), 2);
    let acme = store.account("acme").unwrap();
    assert_eq!(acme.tasks, vec![Task::new("one".to_string()), Task::new("two".to_string())]);
    assert_eq!(store.account("other").unwrap().tasks.len(), 1);
}

#[test]
fn add_with_priority_then_complete() {
    let mut store = Store::new();
    let recognised = handle_addp_command("acme", "urgent fix".to_string(), "high".to_string(), &mut store);
    assert!(recognised);
    let rows = handle_complete_command("acme", 1, &mut store).unwrap();
    let t = &store.account("acme").unwrap().tasks[0];
    assert_eq!(t.priority, Priority::High);
    assert!(t.completed);
    assert_eq!(rows.len(), 1);
    assert_eq!(rows[0].id, 1);
    assert_eq!(rows[0].task, Task { description: "urgent fix".to_string(), completed: true, priority: Priority::High });
}

#[test]
fn unknown_priority_word_gives_low() {
    let mut store = Store::new();
    let recognised = handle_addp_command("acme", "later".to_string(), "HIGH".to_string(), &mut store);
    assert!(!recognised);
    assert_eq!(store.account("acme").unwrap().tasks[0], Task::new("later".to_string()));
}

#[test]
fn delete_only_task_then_again() {
    let mut store = Store::new();
    handle_add_command("acme", "only".to_string(), &mut store);
    assert_eq!(handle_delete_command("acme", 1, &mut store), Ok(()));
    assert!(store.account("acme").unwrap().tasks.is_empty());
    assert_eq!(handle_delete_command("acme", 1, &mut store), Ok(()));
    assert!(store.account("acme").unwrap().tasks.is_empty());
    assert_eq!(store.len(), 1);
}

#[test]
fn complete_on_unknown_account_changes_nothing() {
    let mut store = Store::new();
    handle_add_command("acme", "a".to_string(), &mut store);
    assert_eq!(handle_complete_command("ghost", 1, &mut store), Err(CommandError::NoSuchAccount));
    assert_eq!(store.len(), 1);
    assert!(store.account("ghost").is_none());
    assert!(!store.account("acme").unwrap().tasks[0].completed);
}

#[test]
fn other_commands_on_unknown_account_fail() {
    let mut store = Store::new();
    assert_eq!(handle_delete_command("ghost", 1, &mut store), Err(CommandError::NoSuchAccount));
    assert_eq!(handle_incomplete_command("ghost", 1, &mut store), Err(CommandError::NoSuchAccount));
    assert_eq!(handle_clear_command("ghost", &mut store), Err(CommandError::NoSuchAccount));
    assert!(handle_list_command("ghost", &store).is_none());
    assert_eq!(store.len(), 0);
}

#[test]
fn complete_bad_index_is_no_such_task() {
    let mut store = Store::new();
    handle_add_command("acme", "a".to_string(), &mut store);
    assert_eq!(handle_complete_command("acme", 0, &mut store), Err(CommandError::NoSuchTask));
    assert_eq!(handle_complete_command("acme", 2, &mut store), Err(CommandError::NoSuchTask));
    assert_eq!(handle_incomplete_command("acme", 2, &mut store), Err(CommandError::NoSuchTask));
    assert!(!store.account("acme").unwrap().tasks[0].completed);
}

#[test]
fn incomplete_lists_after_change() {
    let mut store = Store::new();
    handle_add_command("acme", "a".to_string(), &mut store);
    handle_add_command("acme", "b".to_string(), &mut store);
    handle_complete_command("acme", 2, &mut store).unwrap();
    let rows = handle_incomplete_command("acme", 2, &mut store).unwrap();
    assert_eq!(rows.len(), 2);
    assert_eq!(rows[1].id, 2);
    assert!(!rows[1].task.completed);
    assert_eq!(rows[1].task.description, "b");
}

#[test]
fn list_numbers_tasks_from_one() {
    let mut store = Store::new();
    handle_add_command("acme", "a".to_string(), &mut store);
    handle_addp_command("acme", "b".to_string(), "medium".to_string(), &mut store);
    let rows = handle_list_command("acme", &store).unwrap();
    assert_eq!(rows.len(), 2);
    assert_eq!((rows[0].id, rows[0].task.description.as_str()), (1, "a"));
    assert_eq!((rows[1].id, rows[1].task.priority), (2, Priority::Medium));
}

#[test]
fn list_of_empty_account_is_empty() {
    let mut store = Store::new();
    handle_add_command("acme", "a".to_string(), &mut store);
    assert_eq!(handle_clear_command("acme", &mut store), Ok(()));
    let rows = handle_list_command("acme", &store).unwrap();
    assert!(rows.is_empty());
}
