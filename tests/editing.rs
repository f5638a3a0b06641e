use todo_sync::model::{apply_command, TodoCommand, TodoEvent, TodoItem, TodoList, TodoState};
use todo_sync::tui::{EditState, EditTarget, Focus, Key, ListUiState, TuiState};

fn item(text: &str, completed: bool) -> TodoItem {
    TodoItem { text: text.to_string(), completed, metadata: vec![] }
}

fn state_with(lists: Vec<(&str, Vec<TodoItem>)>) -> TodoState {
    TodoState {
        lists: lists
            .into_iter()
            .map(|(t, items)| TodoList { title: t.to_string(), items, metadata: vec![] })
            .collect(),
    }
}

fn texts(l: &TodoList) -> Vec<String> {
    l.items.iter().map(|i| i.text.clone()).collect()
}

#[test]
fn commands_edit_the_named_list_and_item() {
    let mut s = TodoState::new();
    assert!(apply_command(&mut s, TodoCommand::AddList { title: "A".into(), metadata: vec![] }));
    assert!(apply_command(
        &mut s,
        TodoCommand::AddTodo { list_index: 0, text: "x".into(), metadata: vec![] }
    ));
    assert!(apply_command(
        &mut s,
        TodoCommand::AddTodo { list_index: 0, text: "y".into(), metadata: vec![] }
    ));
    assert!(apply_command(&mut s, TodoCommand::ToggleTodo { list_index: 0, item_index: 1 }));
    assert!(s.lists[0].items[1].completed);
    assert!(apply_command(
        &mut s,
        TodoCommand::RenameTodo { list_index: 0, item_index: 0, text: "z".into() }
    ));
    assert!(apply_command(&mut s, TodoCommand::RenameList { list_index: 0, title: "B".into() }));
    assert_eq!(s.lists[0].title, "B");
    assert_eq!(texts(&s.lists[0]), vec!["z", "y"]);
    assert!(apply_command(&mut s, TodoCommand::RemoveTodo { list_index: 0, item_index: 0 }));
    assert_eq!(texts(&s.lists[0]), vec!["y"]);
    assert!(apply_command(&mut s, TodoCommand::RemoveList { list_index: 0 }));
    assert!(s.lists.is_empty());
}

#[test]
fn out_of_range_commands_change_nothing() {
    let mut s = state_with(vec![("A", vec![item("x", false)])]);
    assert!(!apply_command(&mut s, TodoCommand::RemoveList { list_index: 1 }));
    assert!(!apply_command(&mut s, TodoCommand::RenameList { list_index: 3, title: "Q".into() }));
    assert!(!apply_command(&mut s, TodoCommand::ToggleTodo { list_index: 0, item_index: 1 }));
    assert!(!apply_command(
        &mut s,
        TodoCommand::RenameTodo { list_index: 0, item_index: 5, text: "q".into() }
    ));
    assert!(!apply_command(&mut s, TodoCommand::RemoveTodo { list_index: 2, item_index: 0 }));
    assert!(!apply_command(&mut s, TodoCommand::ClearCompleted { list_index: 1 }));
    assert!(!apply_command(
        &mut s,
        TodoCommand::AddTodo { list_index: 1, text: "q".into(), metadata: vec![] }
    ));
    assert!(!apply_command(&mut s, TodoCommand::Shutdown));
    assert_eq!(s.lists.len(), 1);
    assert_eq!(s.lists[0].title, "A");
    assert_eq!(texts(&s.lists[0]), vec!["x"]);
    assert!(!s.lists[0].items[0].completed);
}

#[test]
fn clear_completed_keeps_open_items_in_order() {
    let mut s = state_with(vec![(
        "A",
        vec![item("a", true), item("b", false), item("c", true), item("d", false)],
    )]);
    assert!(apply_command(&mut s, TodoCommand::ClearCompleted { list_index: 0 }));
    assert_eq!(texts(&s.lists[0]), vec!["b", "d"]);
}

#[test]
fn edit_line_handles_wide_characters() {
    let mut e = EditState::new(EditTarget::NewList, "héllo");
    assert_eq!(e.cursor, 5);
    e.move_left();
    e.move_left();
    e.insert_char('ß');
    assert_eq!(e.buffer, "hélßlo");
    assert_eq!(e.cursor, 4);
    e.delete_back();
    e.delete_back();
    assert_eq!(e.buffer, "hélo");
    assert_eq!(e.cursor, 2);
    e.delete_forward();
    assert_eq!(e.buffer, "héo");
    e.move_right();
    e.move_right();
    e.move_right();
    assert_eq!(e.cursor, 3);
    e.delete_forward();
    assert_eq!(e.buffer, "héo");
    let mut start = EditState::new(EditTarget::NewList, "ab");
    start.cursor = 0;
    start.delete_back();
    start.move_left();
    assert_eq!((start.buffer.as_str(), start.cursor), ("ab", 0));
}

fn typed(t: &mut TuiState, s: &str) {
    for c in s.chars() {
        assert!(t.handle_key(Key::Char(c)).is_none());
    }
}

#[test]
fn adding_a_list_from_the_keyboard() {
    let mut t = TuiState::new();
    assert!(t.on_add_list_row());
    assert!(t.handle_key(Key::Enter).is_none());
    assert_eq!(t.focus, Focus::Editing);
    typed(&mut t, "  Groceries ");
    let cmd = t.handle_key(Key::Enter);
    match cmd {
        Some(TodoCommand::AddList { title, metadata }) => {
            assert_eq!(title, "Groceries");
            assert!(metadata.is_empty());
        }
        other => panic!("unexpected {other:?}"),
    }
    assert_eq!(t.todo_state.lists.len(), 1);
    assert_eq!(t.todo_state.lists[0].title, "Groceries");
    assert_eq!(t.list_ui.len(), 1);
    assert_eq!(t.focus, Focus::ListSelector);
}

#[test]
fn blank_edit_sends_nothing() {
    let mut t = TuiState::new();
    t.handle_key(Key::Char('a'));
    typed(&mut t, "   ");
    assert!(t.handle_key(Key::Enter).is_none());
    assert!(t.todo_state.lists.is_empty());
    assert_eq!(t.focus, Focus::ListSelector);
    assert!(t.edit.is_none());
}

#[test]
fn items_are_added_toggled_and_removed() {
    let mut t = TuiState::new();
    t.handle_event(TodoEvent::StateUpdate(state_with(vec![("A", vec![item("x", false)])])));
    assert_eq!(t.list_ui, vec![ListUiState { expanded: false, selected_item: 0 }]);
    t.handle_key(Key::Enter);
    assert_eq!(t.focus, Focus::ItemList);
    assert!(t.selected_list_expanded());
    match t.handle_key(Key::Char(' ')) {
        Some(TodoCommand::ToggleTodo { list_index: 0, item_index: 0 }) => {}
        other => panic!("unexpected {other:?}"),
    }
    assert!(t.todo_state.lists[0].items[0].completed);
    t.handle_key(Key::Down);
    assert_eq!(t.selected_item_index(), 1);
    t.handle_key(Key::Down);
    assert_eq!(t.selected_item_index(), 1);
    t.handle_key(Key::Enter);
    typed(&mut t, "y");
    match t.handle_key(Key::Enter) {
        Some(TodoCommand::AddTodo { list_index: 0, text, .. }) => assert_eq!(text, "y"),
        other => panic!("unexpected {other:?}"),
    }
    assert_eq!(texts(&t.todo_state.lists[0]), vec!["x", "y"]);
    assert_eq!(t.selected_item_index(), 1);
    match t.handle_key(Key::Char('d')) {
        Some(TodoCommand::RemoveTodo { list_index: 0, item_index: 1 }) => {}
        other => panic!("unexpected {other:?}"),
    }
    assert_eq!(t.selected_item_index(), 0);
    t.handle_key(Key::Esc);
    assert_eq!(t.focus, Focus::ListSelector);
    assert!(!t.selected_list_expanded());
}

#[test]
fn state_updates_keep_display_state_and_clamp_the_selection() {
    let mut t = TuiState::new();
    t.handle_event(TodoEvent::StateUpdate(state_with(vec![("A", vec![]), ("B", vec![])])));
    t.handle_key(Key::Down);
    t.handle_key(Key::Enter);
    assert_eq!(t.selected_list, 1);
    t.handle_event(TodoEvent::StateUpdate(state_with(vec![("A", vec![]), ("B", vec![]), ("C", vec![])])));
    assert_eq!(t.list_ui[1].expanded, true);
    assert_eq!(t.list_ui[2], ListUiState { expanded: false, selected_item: 0 });
    t.handle_event(TodoEvent::StateUpdate(state_with(vec![("A", vec![])])));
    assert_eq!(t.selected_list, 0);
    t.handle_event(TodoEvent::StateUpdate(TodoState::new()));
    assert_eq!(t.selected_list, 0);
    t.handle_event(TodoEvent::ConnectionStatus("Connections: 2".to_string()));
    assert_eq!(t.connection_status, "Connections: 2");
}

#[test]
fn removing_and_renaming_lists() {
    let mut t = TuiState::new();
    t.handle_event(TodoEvent::StateUpdate(state_with(vec![("A", vec![]), ("B", vec![])])));
    t.handle_key(Key::Down);
    t.handle_key(Key::Char('r'));
    assert_eq!(t.edit.as_ref().unwrap().buffer, "B");
    t.handle_key(Key::Backspace);
    typed(&mut t, "Z");
    match t.handle_key(Key::Enter) {
        Some(TodoCommand::RenameList { list_index: 1, title }) => assert_eq!(title, "Z"),
        other => panic!("unexpected {other:?}"),
    }
    match t.handle_key(Key::Char('d')) {
        Some(TodoCommand::RemoveList { list_index: 1 }) => {}
        other => panic!("unexpected {other:?}"),
    }
    assert_eq!(t.todo_state.lists.len(), 1);
    assert_eq!(t.selected_list, 0);
    t.handle_key(Key::Down);
    assert!(t.on_add_list_row());
    assert!(t.handle_key(Key::Char('d')).is_none());
}

#[test]
fn quitting() {
    let mut t = TuiState::new();
    t.handle_key(Key::Char('q'));
    assert!(t.should_quit);
    let mut t = TuiState::new();
    t.handle_key(Key::Char('a'));
    t.handle_key(Key::Char('q'));
    assert!(!t.should_quit);
    assert_eq!(t.edit.as_ref().unwrap().buffer, "q");
    t.handle_key(Key::CtrlC);
    assert!(t.should_quit);
}
