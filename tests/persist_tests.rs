use tusk::{
    handle_add_command, handle_addp_command, handle_complete_command, load_store, store_from_json,
    store_to_json, Json, LoadError, Store,
};

fn s(x: &str) -> String {
    x.to_string()
}

fn task_json(d: &str, done: bool, p: &str) -> Json {
    Json::Object(vec![
        (s("description"), Json::Str(s(d))),
        (s("completed"), Json::Bool(done)),
        (s("priority"), Json::Str(s(p))),
    ])
}

fn account_json(name: &str, tasks: Vec<Json>) -> Json {
    Json::Object(vec![
        (s("name"), Json::Str(s(name))),
        (s("tasks"), Json::Array(tasks)),
        (s("subaccounts"), Json::Object(vec![])),
    ])
}

fn sample() -> Store {
    let mut store = Store::new();
    handle_add_command("acme", s("buy milk"), &mut store);
    handle_addp_command("acme", s("urgent fix"), s("high"), &mut store);
    handle_complete_command("acme", 2, &mut store).unwrap();
    handle_addp_command("home", s("paint"), s("medium"), &mut store);
    store
}

#[test]
fn store_is_written_in_canonical_form() {
    let expected = Json::Object(vec![
        (
            s("acme"),
            account_json(
                "acme",
                vec![task_json("buy milk", false, "Low"), task_json("urgent fix", true, "High")],
            ),
        ),
        (s("home"), account_json("home", vec![task_json("paint", false, "Medium")])),
    ]);
    assert_eq!(store_to_json(&sample()), expected);
}

#[test]
fn empty_store_is_empty_object() {
    assert_eq!(store_to_json(&Store::new()), Json::Object(vec![]));
}

#[test]
fn write_then_read_gives_same_store() {
    let store = sample();
    let back = store_from_json(&store_to_json(&store)).unwrap();
    assert_eq!(back, store);
}

#[test]
fn missing_document_gives_empty_store() {
    let store = load_store(None).unwrap();
    assert_eq!(store.len(), 0);
}

#[test]
fn present_document_is_read() {
    let doc = Json::Object(vec![(s("w"), account_json("w", vec![task_json("t", true, "Low")]))]);
    let store = load_store(Some(&doc)).unwrap();
    let w = store.account("w").unwrap();
    assert_eq!(w.tasks.len(), 1);
    assert!(w.tasks[0].completed);
}

#[test]
fn extra_members_are_ignored() {
    let doc = Json::Object(vec![(
        s("w"),
        Json::Object(vec![
            (s("subaccounts"), Json::Object(vec![])),
            (s("extra"), Json::Null),
            (s("tasks"), Json::Array(vec![])),
            (s("name"), Json::Str(s("w"))),
        ]),
    )]);
    assert_eq!(store_from_json(&doc).unwrap().account("w").unwrap().name, "w");
}

#[test]
fn malformed_documents_are_rejected() {
    let bad_priority = Json::Object(vec![(s("w"), account_json("w", vec![task_json("t", false, "low")]))]);
    let wrong_name = Json::Object(vec![(s("w"), account_json("v", vec![]))]);
    let not_object = Json::Array(vec![]);
    let number_completed = Json::Object(vec![(
        s("w"),
        account_json(
            "w",
            vec![Json::Object(vec![
                (s("description"), Json::Str(s("t"))),
                (s("completed"), Json::Number(s("1"))),
                (s("priority"), Json::Str(s("Low"))),
            ])],
        ),
    )]);
    let missing_tasks = Json::Object(vec![(
        s("w"),
        Json::Object(vec![(s("name"), Json::Str(s("w"))), (s("subaccounts"), Json::Object(vec![]))]),
    )]);
    let twice = Json::Object(vec![(s("w"), account_json("w", vec![])), (s("w"), account_json("w", vec![]))]);
    for doc in [bad_priority, wrong_name, not_object, number_completed, missing_tasks, twice] {
        assert_eq!(store_from_json(&doc), Err(LoadError::Malformed));
        assert_eq!(load_store(Some(&doc)), Err(LoadError::Malformed));
    }
}
