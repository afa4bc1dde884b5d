use totodo::{update, Action, Effects, Filter, Model, Msg, Stack, Todo};

fn titles(m: &Model) -> Vec<String> {
    m.todos().values().map(|t| t.title.clone()).collect()
}

fn snapshot(m: &Model) -> Vec<(u128, String, bool, String)> {
    m.todos()
        .values()
        .map(|t| (t.id, t.title.clone(), t.completed, t.markdown.clone()))
        .collect()
}

#[test]
fn trace_create_undo_redo() {
    let mut m = Model::new();
    assert!(m.create("A", 1));
    assert_eq!(titles(&m), vec!["A"]);
    assert!(m.create("B", 2));
    assert_eq!(titles(&m), vec!["A", "B"]);
    assert!(m.undo());
    assert_eq!(titles(&m), vec!["A"]);
    assert!(m.undo());
    assert!(titles(&m).is_empty());
    assert!(m.redo());
    assert_eq!(titles(&m), vec!["A"]);
    assert!(m.redo());
    assert_eq!(titles(&m), vec!["A", "B"]);
    assert!(!m.redo());
    assert_eq!(titles(&m), vec!["A", "B"]);
    assert_eq!(m.redo_stack.size(), 0);
}

#[test]
fn trace_new_create_invalidates_redo() {
    let mut m = Model::new();
    assert!(m.create("X", 10));
    assert!(m.undo());
    assert!(m.create("Y", 11));
    assert_eq!(titles(&m), vec!["Y"]);
    assert_eq!(m.redo_stack.size(), 0);
    assert!(!m.redo());
    assert_eq!(titles(&m), vec!["Y"]);
}

#[test]
fn blank_titles_create_nothing() {
    let mut m = Model::new();
    assert!(m.create("A", 1));
    for blank in ["", "   ", "\t\n "] {
        assert!(!m.create(blank, 2));
        assert_eq!(m.todos().len(), 1);
        assert_eq!(m.undo_stack.size(), 1);
    }
}

#[test]
fn create_trims_the_title() {
    let mut m = Model::new();
    assert!(m.create("  Buy milk \n", 5));
    let t = &m.todos()[&5];
    assert_eq!(t.id, 5);
    assert_eq!(t.title, "Buy milk");
    assert!(!t.completed);
    assert_eq!(t.markdown, "");
}

#[test]
fn create_under_taken_id_is_refused() {
    let mut m = Model::new();
    assert!(m.create("A", 1));
    assert!(!m.create("B", 1));
    assert_eq!(titles(&m), vec!["A"]);
    assert_eq!(m.undo_stack.size(), 1);
}

#[test]
fn remove_of_absent_id_changes_nothing() {
    let mut m = Model::new();
    assert!(m.create("A", 1));
    assert!(m.create("B", 2));
    assert!(m.undo());
    let before = snapshot(&m);
    assert!(!m.remove_todo(99));
    assert_eq!(snapshot(&m), before);
    assert_eq!(m.undo_stack.size(), 1);
    assert_eq!(m.redo_stack.size(), 1);
}

#[test]
fn undo_once_per_call_restores_the_items() {
    let mut m = Model::new();
    m.load_todo(Todo::new(7, "kept".to_string(), true, "body".to_string()));
    let initial = snapshot(&m);
    assert!(m.create("one", 1));
    assert!(m.create("two", 2));
    assert!(m.remove_todo(7));
    assert!(m.remove_todo(1));
    assert!(m.create("three", 3));
    for _ in 0..5 {
        assert!(m.undo());
    }
    assert_eq!(snapshot(&m), initial);
}

#[test]
fn undo_then_redo_gives_back_a_remove() {
    let mut m = Model::new();
    m.load_todo(Todo::new(7, "kept".to_string(), true, "body".to_string()));
    assert!(m.create("one", 1));
    assert!(m.remove_todo(7));
    let after = snapshot(&m);
    assert!(m.undo());
    assert_eq!(m.todos()[&7].markdown, "body");
    assert!(m.redo());
    assert_eq!(snapshot(&m), after);
    assert_eq!(m.undo_stack.size(), 2);
}

#[test]
fn undo_drops_an_action_whose_item_is_gone() {
    let mut m = Model::new();
    assert!(m.create("A", 1));
    assert!(m.toggle_todo(1));
    m.clear_completed();
    assert!(m.todos().is_empty());
    assert!(!m.undo());
    assert_eq!(m.undo_stack.size(), 0);
    assert_eq!(m.redo_stack.size(), 0);
}

#[test]
fn filter_from_hash_path() {
    let p = |v: &[&str]| v.iter().map(|s| s.to_string()).collect::<Vec<String>>();
    assert_eq!(Filter::from_hash_path(&p(&["active"])), Filter::Active);
    assert_eq!(Filter::from_hash_path(&p(&["completed"])), Filter::Completed);
    assert_eq!(Filter::from_hash_path(&p(&[])), Filter::All);
    assert_eq!(Filter::from_hash_path(&p(&["active", "x"])), Filter::All);
    assert_eq!(Filter::from_hash_path(&p(&["other"])), Filter::All);
}

#[test]
fn toggle_and_bulk_operations() {
    let mut m = Model::new();
    assert!(m.create("A", 1));
    assert!(m.create("B", 2));
    assert!(m.toggle_todo(2));
    assert!(!m.toggle_todo(3));
    assert!(!m.all_completed());
    m.check_or_uncheck_all();
    assert!(m.all_completed());
    m.check_or_uncheck_all();
    assert!(m.todos().values().all(|t| !t.completed));
    assert!(m.toggle_todo(1));
    m.clear_completed();
    assert_eq!(titles(&m), vec!["B"]);
    assert_eq!(m.undo_stack.size(), 2);
}

#[test]
fn visible_todos_follow_the_filter() {
    let mut m = Model::new();
    assert!(m.create("C", 30));
    assert!(m.create("A", 10));
    assert!(m.create("B", 20));
    assert!(m.toggle_todo(20));
    let ids = |v: Vec<Todo>| v.iter().map(|t| t.id).collect::<Vec<u128>>();
    assert_eq!(ids(m.visible_todos(Filter::All)), vec![10, 20, 30]);
    assert_eq!(ids(m.visible_todos(Filter::Active)), vec![10, 30]);
    assert_eq!(ids(m.visible_todos(Filter::Completed)), vec![20]);
    assert_eq!(m.ids(), vec![10, 20, 30]);
}

#[test]
fn selection_edits_a_title() {
    let mut m = Model::new();
    assert!(m.create("A", 1));
    assert!(!m.select_todo(Some(9)));
    assert!(m.selected_todo.is_none());
    assert!(m.select_todo(Some(1)));
    assert_eq!(m.selected_todo.as_ref().map(|s| s.title.clone()), Some("A".to_string()));
    m.selected_todo_title_changed("A2".to_string());
    assert!(m.save_selected_todo());
    assert!(m.selected_todo.is_none());
    assert_eq!(titles(&m), vec!["A2"]);
    assert!(!m.select_todo(None));
    assert!(!m.save_selected_todo());
}

#[test]
fn createtodo_uses_the_typed_title() {
    let mut m = Model::new();
    m.new_todo_title = "  first ".to_string();
    assert!(m.createtodo());
    assert_eq!(m.new_todo_title, "");
    m.new_todo_title = "second".to_string();
    assert!(m.createtodo());
    assert_eq!(titles(&m).len(), 2);
    m.new_todo_title = "   ".to_string();
    assert!(!m.createtodo());
    assert_eq!(m.new_todo_title, "   ");
    assert_eq!(m.todos().len(), 2);
    assert!(m.undo());
    assert_eq!(titles(&m), vec!["first"]);
}

#[test]
fn update_dispatches_messages() {
    let mut m = Model::new();
    let e: Effects = update(Msg::NewTodoTitleChanged("task".to_string()), &mut m);
    assert!(!e.persist);
    let e = update(Msg::CreateTodo, &mut m);
    assert!(e.persist && !e.focus_selected);
    let id = *m.todos().keys().next().unwrap();
    let e = update(Msg::SelectTodo(Some(id)), &mut m);
    assert!(e.focus_selected && !e.persist);
    update(Msg::SelectedTodoTitleChanged("renamed".to_string()), &mut m);
    assert!(update(Msg::SaveSelectedTodo, &mut m).persist);
    assert_eq!(titles(&m), vec!["renamed"]);
    assert!(update(Msg::ToggleTodo(id), &mut m).persist);
    assert!(m.todos()[&id].completed);
    update(Msg::UrlChanged(vec!["completed".to_string()]), &mut m);
    assert_eq!(m.filter, Filter::Completed);
    assert!(update(Msg::CheckOrUncheckAll, &mut m).persist);
    assert!(!m.todos()[&id].completed);
    assert!(update(Msg::RemoveTodo(id), &mut m).persist);
    assert!(!update(Msg::RemoveTodo(id), &mut m).persist);
    assert!(m.todos().is_empty());
    assert!(update(Msg::Undo, &mut m).persist);
    assert_eq!(titles(&m), vec!["renamed"]);
    assert!(update(Msg::Redo, &mut m).persist);
    assert!(m.todos().is_empty());
    assert!(!update(Msg::Redo, &mut m).persist);
    assert!(update(Msg::ClearCompleted, &mut m).persist);
}

#[test]
fn stack_is_last_in_first_out() {
    let mut s = Stack::new();
    assert_eq!(s.size(), 0);
    assert!(s.pop().is_none());
    s.push(Action::Created(Todo::new(1, "a".to_string(), false, String::new())));
    s.push(Action::Removed(2, Todo::new(2, "b".to_string(), false, String::new())));
    assert_eq!(s.size(), 2);
    assert!(matches!(s.pop(), Some(Action::Removed(2, _))));
    assert!(matches!(s.pop(), Some(Action::Created(t)) if t.id == 1));
    s.push(Action::Created(Todo::new(3, "c".to_string(), false, String::new())));
    s.clear();
    assert_eq!(s.size(), 0);
}

#[test]
fn mock_data_fills_the_editor() {
    let m = Model::new().add_mock_data_with_ids(1, 2);
    assert_eq!(titles(&m), vec!["I'm todo A", "I'm todo B"]);
    assert!(m.todos()[&2].completed);
    assert_eq!(m.new_todo_title, "I'm a new todo title");
    let sel = m.selected_todo.as_ref().unwrap();
    assert_eq!((sel.id, sel.title.as_str()), (2, "I'm better todo B"));
    let m = Model::new().add_mock_data();
    assert_eq!(m.todos().len(), 2);
    assert_eq!(m.undo_stack.size(), 0);
}

#[test]
fn redo_of_a_create_brings_back_the_recorded_item() {
    let mut m = Model::new();
    assert!(m.create("A", 1));
    assert!(m.toggle_todo(1));
    assert!(m.undo());
    assert!(m.todos().is_empty());
    assert!(m.redo());
    let t = &m.todos()[&1];
    assert_eq!(t.title, "A");
    assert!(!t.completed);
}

#[test]
fn from_todos_loads_in_order() {
    let empty = Model::from_todos(&vec![]);
    assert!(empty.todos().is_empty());
    assert_eq!(empty.undo_stack.size(), 0);
    let m = Model::from_todos(&vec![
        Todo::new(2, "b".to_string(), false, String::new()),
        Todo::new(1, "a".to_string(), true, "x".to_string()),
        Todo::new(2, "b2".to_string(), true, String::new()),
    ]);
    assert_eq!(titles(&m), vec!["a", "b2"]);
    assert!(m.todos()[&2].completed);
    assert_eq!(m.redo_stack.size(), 0);
    assert_eq!(m.filter, Filter::All);
}

#[test]
fn mock_data_keeps_existing_items() {
    let mut m = Model::new();
    assert!(m.create("mine", 9));
    let m = m.add_mock_data_with_ids(1, 2);
    assert_eq!(titles(&m), vec!["I'm todo A", "I'm todo B", "mine"]);
    assert!(!m.todos()[&1].completed);
    assert_eq!(m.undo_stack.size(), 1);
}
