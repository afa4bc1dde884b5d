use vstd::prelude::*;

use crate::model::Todo;

verus! {

/// A committed change to the item collection, recorded so that it can be
/// taken back.
pub enum Action {
    /// The item was inserted.
    Created(Todo),
    /// The item with this id, whose whole value is kept, was deleted.
    Removed(u128, Todo),
}

/// What the history is about: the items by id, and the actions that undo and
/// redo would take back, the latest last.
pub struct EditorState {
    pub todos: Map<u128, Todo>,
    pub undo: Seq<Action>,
    pub redo: Seq<Action>,
}

/// Taking back `a` on `todos`: the items afterwards and the action that takes
/// that back in turn (it carries the item as `a` recorded it), or `None` where `a` no longer fits `todos` (its item is
/// gone, or its id is taken) and is dropped.
pub open spec fn revert(todos: Map<u128, Todo>, a: Action) -> Option<(Map<u128, Todo>, Action)> {
    match a {
        Action::Created(t) => if todos.contains_key(t.id) {
            Some((todos.remove(t.id), Action::Removed(t.id, t)))
        } else {
            None
        },
        Action::Removed(id, t) => if !todos.contains_key(id) && t.id == id {
            Some((todos.insert(id, t), Action::Created(t)))
        } else {
            None
        },
    }
}

/// Each item is stored under its own id.
pub open spec fn keyed(todos: Map<u128, Todo>) -> bool {
    forall|k: u128| #[trigger] todos.contains_key(k) ==> todos[k].id == k
}

impl EditorState {
    /// `t` was inserted: the action is recorded and redo is cleared.
    pub open spec fn created(self, t: Todo) -> EditorState {
        EditorState {
            todos: self.todos.insert(t.id, t),
            undo: self.undo.push(Action::Created(t)),
            redo: Seq::empty(),
        }
    }

    /// The item under `id` was deleted, where there is one; else nothing
    /// changes.
    pub open spec fn removed(self, id: u128) -> EditorState {
        if self.todos.contains_key(id) {
            EditorState {
                todos: self.todos.remove(id),
                undo: self.undo.push(Action::Removed(id, self.todos[id])),
                redo: Seq::empty(),
            }
        } else {
            self
        }
    }

    /// One undo: the latest action is taken back and its inverse goes to
    /// redo; one that no longer fits is dropped.
    pub open spec fn undone(self) -> EditorState {
        if self.undo.len() == 0 {
            self
        } else {
            match revert(self.todos, self.undo.last()) {
                Some((todos, back)) => EditorState {
                    todos,
                    undo: self.undo.drop_last(),
                    redo: self.redo.push(back),
                },
                None => EditorState { todos: self.todos, undo: self.undo.drop_last(), redo: self.redo },
            }
        }
    }

    /// One redo: symmetric to `undone`, from redo back to undo.
    pub open spec fn redone(self) -> EditorState {
        if self.redo.len() == 0 {
            self
        } else {
            match revert(self.todos, self.redo.last()) {
                Some((todos, back)) => EditorState {
                    todos,
                    undo: self.undo.push(back),
                    redo: self.redo.drop_last(),
                },
                None => EditorState { todos: self.todos, undo: self.undo, redo: self.redo.drop_last() },
            }
        }
    }
}

/// A last-in, first-out stack of actions.
pub struct Stack {
    stack: Vec<Action>,
}

impl View for Stack {
    type V = Seq<Action>;

    closed spec fn view(&self) -> Seq<Action> {
        self.stack@
    }
}

impl Stack {
    pub fn new() -> (r: Stack)
        ensures
            r@ == Seq::<Action>::empty(),
    {
        Stack { stack: Vec::new() }
    }

    pub fn push(&mut self, action: Action)
        ensures
            final(self)@ == old(self)@.push(action),
    {
        self.stack.push(action);
    }

    pub fn pop(&mut self) -> (r: Option<Action>)
        ensures
            old(self)@.len() == 0 ==> r is None && final(self)@ == old(self)@,
            old(self)@.len() > 0 ==> r == Some(old(self)@.last()) && final(self)@ == old(
                self,
            )@.drop_last(),
    {
        self.stack.pop()
    }

    pub fn size(&self) -> (r: usize)
        ensures
            r == self@.len(),
    {
        self.stack.len()
    }

    pub fn clear(&mut self)
        ensures
            final(self)@ == Seq::<Action>::empty(),
    {
        self.stack.clear();
    }
}

} // verus!
