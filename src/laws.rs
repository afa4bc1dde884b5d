use vstd::prelude::*;

use crate::model::Todo;
use crate::undo::{keyed, revert, Action, EditorState};

verus! {

/// A call that changes the items and is recorded: a create, with the item
/// that it builds, or a remove of an id.
pub enum Edit {
    Create(Todo),
    Remove(u128),
}

impl EditorState {
    /// Whether `e` changes anything here: a create needs a non-empty title
    /// and a free id, a remove an id that is present.
    pub open spec fn takes_effect(self, e: Edit) -> bool {
        match e {
            Edit::Create(t) => t.title@.len() > 0 && !self.todos.contains_key(t.id),
            Edit::Remove(id) => self.todos.contains_key(id),
        }
    }

    /// The state after `e`.
    pub open spec fn apply(self, e: Edit) -> EditorState {
        match e {
            Edit::Create(t) => if self.takes_effect(e) {
                self.created(t)
            } else {
                self
            },
            Edit::Remove(id) => self.removed(id),
        }
    }

    /// The state after `n` undos.
    pub open spec fn undone_times(self, n: nat) -> EditorState
        decreases n,
    {
        if n == 0 {
            self
        } else {
            self.undone().undone_times((n - 1) as nat)
        }
    }
}

/// The state after each of `ops`, in order.
pub open spec fn apply_all(s: EditorState, ops: Seq<Edit>) -> EditorState
    decreases ops.len(),
{
    if ops.len() == 0 {
        s
    } else {
        apply_all(s, ops.drop_last()).apply(ops.last())
    }
}

/// Whether each of `ops` takes effect where it comes.
pub open spec fn all_take_effect(s: EditorState, ops: Seq<Edit>) -> bool
    decreases ops.len(),
{
    ops.len() == 0 || (all_take_effect(s, ops.drop_last()) && apply_all(
        s,
        ops.drop_last(),
    ).takes_effect(ops.last()))
}

/// Whether `a` can be taken back on `todos` exactly: a created item is still
/// there unchanged, a removed one's id is free and is its own id.
pub open spec fn fits(todos: Map<u128, Todo>, a: Action) -> bool {
    match a {
        Action::Created(t) => todos.contains_key(t.id) && todos[t.id] == t,
        Action::Removed(id, t) => !todos.contains_key(id) && t.id == id,
    }
}

/// Whether the actions of `stack`, taken back from the latest down, each fit
/// the items that the ones before leave.
pub open spec fn consistent(todos: Map<u128, Todo>, stack: Seq<Action>) -> bool
    decreases stack.len(),
{
    stack.len() == 0 || (fits(todos, stack.last()) && match revert(todos, stack.last()) {
        Some((rest, _)) => consistent(rest, stack.drop_last()),
        None => false,
    })
}

impl EditorState {
    /// The items are keyed by id, and both stacks can be taken back all the
    /// way.
    pub open spec fn coherent(self) -> bool {
        &&& keyed(self.todos)
        &&& consistent(self.todos, self.undo)
        &&& consistent(self.todos, self.redo)
    }
}

/// How many of `ops` take effect where they come.
pub open spec fn effective_count(s: EditorState, ops: Seq<Edit>) -> nat
    decreases ops.len(),
{
    if ops.len() == 0 {
        0
    } else if apply_all(s, ops.drop_last()).takes_effect(ops.last()) {
        effective_count(s, ops.drop_last()) + 1
    } else {
        effective_count(s, ops.drop_last())
    }
}

proof fn lemma_undo_after_effect(s: EditorState, e: Edit)
    requires
        keyed(s.todos),
        s.takes_effect(e),
    ensures
        s.apply(e).undone().todos == s.todos,
        s.apply(e).undone().undo == s.undo,
{
    match e {
        Edit::Create(t) => {
            assert(s.apply(e).undo.last() == Action::Created(t));
            assert(s.apply(e).undo.drop_last() =~= s.undo);
            assert(s.todos.insert(t.id, t).remove(t.id) =~= s.todos);
        },
        Edit::Remove(id) => {
            assert(s.apply(e).undo.drop_last() =~= s.undo);
            assert(s.todos.remove(id).insert(id, s.todos[id]) =~= s.todos);
        },
    }
}

proof fn lemma_apply_keeps_keyed(s: EditorState, e: Edit)
    requires
        keyed(s.todos),
    ensures
        keyed(s.apply(e).todos),
{
    match e {
        Edit::Create(t) => {
            let m = s.apply(e).todos;
            assert forall|k: u128| #[trigger] m.contains_key(k) implies m[k].id == k by {
                if s.takes_effect(e) && k != t.id {
                    assert(s.todos.contains_key(k));
                }
            }
        },
        Edit::Remove(id) => {
            let m = s.apply(e).todos;
            assert forall|k: u128| #[trigger] m.contains_key(k) implies m[k].id == k by {
                assert(s.todos.contains_key(k));
            }
        },
    }
}

proof fn lemma_undone_times_same(x: EditorState, y: EditorState, n: nat)
    requires
        x.todos == y.todos,
        x.undo == y.undo,
    ensures
        x.undone_times(n).todos == y.undone_times(n).todos,
        x.undone_times(n).undo == y.undone_times(n).undo,
    decreases n,
{
    if n > 0 {
        lemma_undone_times_same(x.undone(), y.undone(), (n - 1) as nat);
    }
}

proof fn lemma_undone_times_split(s: EditorState, a: nat, b: nat)
    ensures
        s.undone_times(a + b) == s.undone_times(a).undone_times(b),
    decreases a,
{
    if a > 0 {
        lemma_undone_times_split(s.undone(), (a - 1) as nat, b);
        assert((a + b - 1) as nat == (a - 1) as nat + b);
    }
}

proof fn lemma_undone_times_nothing(s: EditorState, n: nat)
    requires
        s.undo.len() == 0,
    ensures
        s.undone_times(n) == s,
    decreases n,
{
    if n > 0 {
        lemma_undone_times_nothing(s.undone(), (n - 1) as nat);
    }
}

proof fn lemma_undo_effective(s: EditorState, ops: Seq<Edit>)
    requires
        keyed(s.todos),
    ensures
        keyed(apply_all(s, ops).todos),
        apply_all(s, ops).undone_times(effective_count(s, ops)).todos == s.todos,
        apply_all(s, ops).undone_times(effective_count(s, ops)).undo == s.undo,
        effective_count(s, ops) <= ops.len(),
        all_take_effect(s, ops) ==> effective_count(s, ops) == ops.len(),
    decreases ops.len(),
{
    if ops.len() > 0 {
        let rest = ops.drop_last();
        let e = ops.last();
        let a = apply_all(s, rest);
        lemma_undo_effective(s, rest);
        lemma_apply_keeps_keyed(a, e);
        let c = effective_count(s, rest);
        if a.takes_effect(e) {
            lemma_undo_after_effect(a, e);
            lemma_undone_times_same(a.apply(e).undone(), a, c);
            assert(a.apply(e).undone_times(c + 1) == a.apply(e).undone().undone_times(c));
        } else {
            assert(a.apply(e) == a);
        }
    }
}

/// Round trip: after any sequence of creates and removes on items stored
/// under their own ids, one undo per call gives the items back exactly as
/// they were, where nothing had been recorded before or every call took
/// effect.
pub proof fn lemma_undo_round_trip(s: EditorState, ops: Seq<Edit>)
    requires
        keyed(s.todos),
        s.undo.len() == 0 || all_take_effect(s, ops),
    ensures
        apply_all(s, ops).undone_times(ops.len()).todos == s.todos,
{
    lemma_undo_effective(s, ops);
    let c = effective_count(s, ops);
    let rest = (ops.len() - c) as nat;
    lemma_undone_times_split(apply_all(s, ops), c, rest);
    assert(c + rest == ops.len());
    if s.undo.len() == 0 {
        lemma_undone_times_nothing(apply_all(s, ops).undone_times(c), rest);
    } else {
        assert(rest == 0);
    }
}

/// Undo then redo after a call that took effect gives back exactly the state
/// that the call left; so does it after any call where both stacks were
/// empty.
pub proof fn lemma_undo_redo_identity(s: EditorState, e: Edit)
    requires
        keyed(s.todos),
        s.takes_effect(e) || (s.undo.len() == 0 && s.redo.len() == 0),
    ensures
        s.apply(e).undone().redone() == s.apply(e),
{
    if s.takes_effect(e) {
        let a = s.apply(e);
        match e {
            Edit::Create(t) => {
                assert(a.undone().redo =~= seq![Action::Removed(t.id, t)]);
                assert(s.todos.insert(t.id, t).remove(t.id) =~= s.todos);
                assert(a.undone().undo =~= s.undo);
                assert(a.undone().redone().undo =~= a.undo);
                assert(a.undone().redone().redo =~= a.redo);
            },
            Edit::Remove(id) => {
                let v = s.todos[id];
                assert(s.todos.remove(id).insert(id, v) =~= s.todos);
                assert(a.undone().undo =~= s.undo);
                assert(a.undone().redo =~= seq![Action::Created(v)]);
                assert(a.undone().redone().undo =~= a.undo);
                assert(a.undone().redone().redo =~= a.redo);
            },
        }
    } else {
        assert(s.apply(e) == s);
    }
}

proof fn lemma_revert_back(todos: Map<u128, Todo>, a: Action)
    requires
        keyed(todos),
        fits(todos, a),
    ensures
        revert(todos, a) is Some,
        ({
            let (rest, back) = revert(todos, a)->0;
            &&& keyed(rest)
            &&& fits(rest, back)
            &&& revert(rest, back) is Some
            &&& revert(rest, back) matches Some((again, _)) && again == todos
        }),
{
    match a {
        Action::Created(t) => {
            let rest = todos.remove(t.id);
            assert(rest.insert(t.id, t) =~= todos);
            assert forall|k: u128| #[trigger] rest.contains_key(k) implies rest[k].id == k by {
                assert(todos.contains_key(k));
            }
        },
        Action::Removed(id, t) => {
            let rest = todos.insert(id, t);
            assert(rest.remove(id) =~= todos);
            assert forall|k: u128| #[trigger] rest.contains_key(k) implies rest[k].id == k by {
                if k != id {
                    assert(todos.contains_key(k));
                }
            }
        },
    }
}

/// History stays consistent: from a state whose items are keyed by id and
/// whose stacks can each be taken back all the way, every create, remove,
/// undo and redo leads to such a state again, and an undo or redo there
/// always applies its action, never dropping it.
pub proof fn lemma_history_stays_coherent(s: EditorState, e: Edit)
    requires
        s.coherent(),
    ensures
        s.apply(e).coherent(),
        s.undone().coherent(),
        s.redone().coherent(),
        s.undo.len() > 0 ==> revert(s.todos, s.undo.last()) is Some,
        s.redo.len() > 0 ==> revert(s.todos, s.redo.last()) is Some,
{
    lemma_apply_keeps_keyed(s, e);
    if s.takes_effect(e) {
        let a = s.apply(e);
        assert(a.undo.drop_last() =~= s.undo);
        match e {
            Edit::Create(t) => {
                assert(a.todos.remove(t.id) =~= s.todos);
            },
            Edit::Remove(id) => {
                assert(a.todos.insert(id, s.todos[id]) =~= s.todos);
            },
        }
    } else {
        assert(s.apply(e) == s);
    }
    if s.undo.len() > 0 {
        lemma_revert_back(s.todos, s.undo.last());
        let u = s.undone();
        assert(u.redo.drop_last() =~= s.redo);
    }
    if s.redo.len() > 0 {
        lemma_revert_back(s.todos, s.redo.last());
        let r = s.redone();
        assert(r.undo.drop_last() =~= s.undo);
    }
}

/// A call that takes effect after an undo empties redo, so that a redo right
/// after it changes nothing.
pub proof fn lemma_new_edit_clears_redo(s: EditorState, e: Edit)
    requires
        s.undone().takes_effect(e),
    ensures
        s.undone().apply(e).redo.len() == 0,
        s.undone().apply(e).redone() == s.undone().apply(e),
{
}

} // verus!
