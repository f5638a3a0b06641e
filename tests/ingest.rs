use todo_sync::ingest::{
    ensure_list, find_item_by_task, find_item_by_text, find_list, guess_task_id, item_metadata,
    list_name_from_dir, meta_is, plan_create, plan_update, session_list, session_metadata,
    session_title, status_needs_toggle,
};
use todo_sync::rpc::{get_todos, name_session, TodoListsResponse};
use todo_sync::model::{TodoCommand, TodoItem, TodoList, TodoState};

fn list(title: &str, session: Option<&str>, items: Vec<TodoItem>) -> TodoList {
    TodoList {
        title: title.to_string(),
        items,
        metadata: match session {
            Some(s) => session_metadata(s),
            None => vec![],
        },
    }
}

fn task(text: &str, session: &str, task_id: &str) -> TodoItem {
    TodoItem { text: text.to_string(), completed: false, metadata: item_metadata(session, task_id) }
}

#[test]
fn titles_of_session_lists() {
    assert_eq!(session_title("fix bug"), "Agent: fix bug");
    assert_eq!(list_name_from_dir(Some("repo")), "Agent: repo");
    assert_eq!(list_name_from_dir(None), "Agent Tasks");
}

#[test]
fn lists_are_found_by_session_then_by_title() {
    let s = TodoState {
        lists: vec![
            list("Agent: repo", None, vec![]),
            list("Other", Some("s1"), vec![]),
            list("Agent: repo", Some("s2"), vec![]),
        ],
    };
    assert_eq!(find_list(&s, "s2", "Agent: repo"), Some(2));
    assert_eq!(find_list(&s, "s9", "Agent: repo"), Some(0));
    assert_eq!(find_list(&s, "s9", "Nope"), None);
    assert_eq!(session_list(&s, "s1"), Some(1));
    assert_eq!(session_list(&s, "s9"), None);
}

#[test]
fn a_missing_session_list_is_added() {
    let mut s = TodoState { lists: vec![list("A", None, vec![])] };
    let (idx, cmd) = ensure_list(&mut s, "Agent: repo", "s1");
    assert_eq!(idx, 1);
    match cmd {
        Some(TodoCommand::AddList { title, metadata }) => {
            assert_eq!(title, "Agent: repo");
            assert_eq!(metadata, vec![("session_id".to_string(), "s1".to_string())]);
        }
        other => panic!("unexpected {other:?}"),
    }
    assert_eq!(s.lists.len(), 2);
    assert!(meta_is(&s.lists[1].metadata, "session_id", "s1"));
    let (again, none) = ensure_list(&mut s, "whatever", "s1");
    assert_eq!(again, 1);
    assert!(none.is_none());
    assert_eq!(s.lists.len(), 2);
}

#[test]
fn task_ids_count_the_sessions_items() {
    let l = list(
        "L",
        Some("s1"),
        vec![task("a", "s1", "1"), task("b", "s2", "1"), task("c", "s1", "2")],
    );
    assert_eq!(guess_task_id(&l, "s1"), "3");
    assert_eq!(guess_task_id(&l, "s2"), "2");
    assert_eq!(guess_task_id(&l, "s3"), "1");
}

#[test]
fn items_are_found_by_task_id_or_text() {
    let l = list("L", Some("s1"), vec![task("a", "s1", "1"), task("b", "s1", "2")]);
    assert_eq!(find_item_by_task(&l, "2"), Some(1));
    assert_eq!(find_item_by_task(&l, "3"), None);
    assert_eq!(find_item_by_text(&l, "a"), Some(0));
    assert_eq!(find_item_by_text(&l, "zz"), None);
}

#[test]
fn status_changes_flip_only_when_needed() {
    assert!(status_needs_toggle(false, Some("completed")));
    assert!(!status_needs_toggle(true, Some("completed")));
    assert!(status_needs_toggle(true, Some("pending")));
    assert!(!status_needs_toggle(false, Some("pending")));
    assert!(!status_needs_toggle(false, Some("in_progress")));
    assert!(!status_needs_toggle(true, None));
}

#[test]
fn metadata_lookup_uses_the_first_entry() {
    let md = vec![
        ("k".to_string(), "1".to_string()),
        ("k".to_string(), "2".to_string()),
    ];
    assert!(meta_is(&md, "k", "1"));
    assert!(!meta_is(&md, "k", "2"));
    assert!(!meta_is(&md, "x", "1"));
}

#[test]
fn created_task_goes_to_a_new_session_list() {
    let mut s = TodoState { lists: vec![] };
    let cmds = plan_create(&mut s, "Agent: repo", "s1", "write tests", None);
    assert_eq!(cmds.len(), 2);
    assert!(matches!(&cmds[0], TodoCommand::AddList { title, .. } if title == "Agent: repo"));
    match &cmds[1] {
        TodoCommand::AddTodo { list_index, text, metadata } => {
            assert_eq!(*list_index, 0);
            assert_eq!(text, "write tests");
            assert_eq!(
                metadata,
                &vec![
                    ("session_id".to_string(), "s1".to_string()),
                    ("task_id".to_string(), "1".to_string())
                ]
            );
        }
        other => panic!("unexpected {other:?}"),
    }
    assert_eq!(s.lists[0].items[0].text, "write tests");
    let again = plan_create(&mut s, "Agent: repo", "s1", "second", Some("7"));
    assert_eq!(again.len(), 1);
    assert!(matches!(&again[0], TodoCommand::AddTodo { list_index: 0, metadata, .. }
        if metadata[1].1 == "7"));
    assert_eq!(s.lists[0].items.len(), 2);
}

#[test]
fn updated_task_flips_its_item() {
    let s = TodoState {
        lists: vec![list("L", Some("s1"), vec![task("a", "s1", "1"), task("b", "s1", "2")])],
    };
    assert!(matches!(
        plan_update(&s, "L", "s1", "2", None, Some("completed")),
        Some(TodoCommand::ToggleTodo { list_index: 0, item_index: 1 })
    ));
    assert!(plan_update(&s, "L", "s1", "2", None, Some("pending")).is_none());
    assert!(matches!(
        plan_update(&s, "L", "s1", "9", Some("a"), Some("completed")),
        Some(TodoCommand::ToggleTodo { list_index: 0, item_index: 0 })
    ));
    assert!(plan_update(&s, "L", "s1", "9", Some("zz"), Some("completed")).is_none());
    assert!(plan_update(&s, "M", "s9", "1", None, Some("completed")).is_none());
}

#[test]
fn responses_number_lists_and_items() {
    let mut s = TodoState {
        lists: vec![
            list("A", None, vec![task("x", "s", "1")]),
            list("B", Some("s2"), vec![]),
        ],
    };
    let all = get_todos(&s, None);
    assert_eq!(all.lists.len(), 2);
    assert_eq!(all.lists[1].index, 1);
    assert_eq!(all.lists[0].items[0].text, "x");
    assert_eq!(all.lists[0].items[0].index, 0);
    let one = get_todos(&s, Some(1));
    assert_eq!(one.lists.len(), 1);
    assert_eq!(one.lists[0].title, "B");
    assert!(get_todos(&s, Some(5)).lists.is_empty());
    let full = TodoListsResponse::from_state(&s);
    assert_eq!(full.lists.len(), 2);
    match name_session(&mut s, "s2", "refactor") {
        Some(TodoCommand::RenameList { list_index: 1, title }) => assert_eq!(title, "Agent: refactor"),
        other => panic!("unexpected {other:?}"),
    }
    assert_eq!(s.lists[1].title, "Agent: refactor");
    assert!(name_session(&mut s, "nobody", "x").is_none());
}
