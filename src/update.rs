use vstd::prelude::*;

use crate::model::{active_only, all_done, filter_for, marked_all, toggled, Model, SelectedTodo, Todo};
use crate::undo::{revert, EditorState};

verus! {

/// What the user did.
pub enum Msg {
    /// The URL changed; these are the parts of its hash path.
    UrlChanged(Vec<String>),
    NewTodoTitleChanged(String),
    CreateTodo,
    ToggleTodo(u128),
    RemoveTodo(u128),
    CheckOrUncheckAll,
    ClearCompleted,
    SelectTodo(Option<u128>),
    SelectedTodoTitleChanged(String),
    SaveSelectedTodo,
    Undo,
    Redo,
}

/// What the surroundings are to do after an update.
pub struct Effects {
    /// The items changed: save them.
    pub persist: bool,
    /// An item was selected: focus its title input, cursor at the end.
    pub focus_selected: bool,
}

/// Handles one message: every change to the items goes through here.
pub fn update(msg: Msg, model: &mut Model) -> (r: Effects)
    requires
        old(model).wf(),
    ensures
        final(model).wf(),
        r.focus_selected ==> msg is SelectTodo,
        match msg {
            Msg::UrlChanged(parts) => {
                &&& final(model).filter == filter_for(parts@.map_values(|p: String| p@))
                &&& final(model).state() == old(model).state()
                &&& final(model).new_todo_title == old(model).new_todo_title
                &&& final(model).selected_todo == old(model).selected_todo
                &&& !r.persist
            },
            Msg::NewTodoTitleChanged(title) => {
                &&& final(model).new_todo_title == title
                &&& final(model).state() == old(model).state()
                &&& final(model).selected_todo == old(model).selected_todo
                &&& final(model).filter == old(model).filter
                &&& !r.persist
            },
            Msg::CreateTodo => old(model).creates(*final(model), r.persist),
            Msg::ToggleTodo(id) => {
                &&& final(model).same_fields(old(model))
                &&& final(model).state() == toggled(old(model).state(), id)
                &&& r.persist == old(model).state().todos.contains_key(id)
            },
            Msg::RemoveTodo(id) => {
                &&& final(model).same_fields(old(model))
                &&& final(model).state() == old(model).state().removed(id)
                &&& r.persist == old(model).state().todos.contains_key(id)
            },
            Msg::CheckOrUncheckAll => {
                &&& final(model).same_fields(old(model))
                &&& final(model).state() == (EditorState {
                    todos: marked_all(old(model).state().todos, !all_done(old(model).state().todos)),
                    ..old(model).state()
                })
                &&& r.persist
            },
            Msg::ClearCompleted => {
                &&& final(model).same_fields(old(model))
                &&& final(model).state() == (EditorState {
                    todos: active_only(old(model).state().todos),
                    ..old(model).state()
                })
                &&& r.persist
            },
            Msg::SelectTodo(id) => {
                &&& final(model).state() == old(model).state()
                &&& final(model).new_todo_title == old(model).new_todo_title
                &&& final(model).filter == old(model).filter
                &&& r.focus_selected == (id is Some && old(model).state().todos.contains_key(id->0))
                &&& r.focus_selected ==> (final(model).selected_todo matches Some(sel) && sel.id
                    == id->0 && sel.title == old(model).state().todos[id->0].title)
                &&& id is None ==> final(model).selected_todo is None
                &&& id is Some && !r.focus_selected ==> final(model).selected_todo == old(
                    model,
                ).selected_todo
                &&& !r.persist
            },
            Msg::SelectedTodoTitleChanged(title) => {
                &&& final(model).state() == old(model).state()
                &&& final(model).new_todo_title == old(model).new_todo_title
                &&& final(model).filter == old(model).filter
                &&& match old(model).selected_todo {
                    Some(sel) => final(model).selected_todo == Some(SelectedTodo { id: sel.id, title }),
                    None => final(model).selected_todo is None,
                }
                &&& !r.persist
            },
            Msg::SaveSelectedTodo => {
                &&& final(model).new_todo_title == old(model).new_todo_title
                &&& final(model).filter == old(model).filter
                &&& final(model).selected_todo is None
                &&& r.persist == (old(model).selected_todo matches Some(sel)
                    && old(model).state().todos.contains_key(sel.id))
                &&& r.persist ==> final(model).state() == (EditorState {
                    todos: old(model).state().todos.insert(
                        old(model).selected_todo->0.id,
                        Todo {
                            title: old(model).selected_todo->0.title,
                            ..old(model).state().todos[old(model).selected_todo->0.id]
                        },
                    ),
                    ..old(model).state()
                })
                &&& !r.persist ==> final(model).state() == old(model).state()
            },
            Msg::Undo => {
                &&& final(model).same_fields(old(model))
                &&& final(model).state() == old(model).state().undone()
                &&& r.persist == (old(model).state().undo.len() > 0 && revert(
                    old(model).state().todos,
                    old(model).state().undo.last(),
                ) is Some)
            },
            Msg::Redo => {
                &&& final(model).same_fields(old(model))
                &&& final(model).state() == old(model).state().redone()
                &&& r.persist == (old(model).state().redo.len() > 0 && revert(
                    old(model).state().todos,
                    old(model).state().redo.last(),
                ) is Some)
            },
        },
{
    let mut effects = Effects { persist: false, focus_selected: false };
    match msg {
        Msg::UrlChanged(parts) => {
            model.filter = crate::model::Filter::from_hash_path(&parts);
        },
        Msg::NewTodoTitleChanged(title) => {
            model.new_todo_title = title;
        },
        Msg::CreateTodo => {
            effects.persist = model.createtodo();
        },
        Msg::ToggleTodo(id) => {
            effects.persist = model.toggle_todo(id);
        },
        Msg::RemoveTodo(id) => {
            effects.persist = model.remove_todo(id);
        },
        Msg::CheckOrUncheckAll => {
            model.check_or_uncheck_all();
            effects.persist = true;
        },
        Msg::ClearCompleted => {
            model.clear_completed();
            effects.persist = true;
        },
        Msg::SelectTodo(id) => {
            effects.focus_selected = model.select_todo(id);
        },
        Msg::SelectedTodoTitleChanged(title) => {
            model.selected_todo_title_changed(title);
        },
        Msg::SaveSelectedTodo => {
            effects.persist = model.save_selected_todo();
        },
        Msg::Undo => {
            effects.persist = model.undo();
        },
        Msg::Redo => {
            effects.persist = model.redo();
        },
    }
    effects
}

} // verus!
