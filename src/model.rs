use vstd::prelude::*;

use std::collections::BTreeMap;
use vstd::std_specs::btree::{increasing_seq, spec_keys_iter};
use vstd::std_specs::cmp::OrdSpec;
use vstd::std_specs::iter::IteratorSpec;

use crate::text::{trim, trimmed, white_space, lemma_trimmed_empty};
use crate::undo::{keyed, revert, Action, EditorState, Stack};

verus! {

/// One entry of the list.
#[derive(Debug, PartialEq, Eq)]
pub struct Todo {
    pub id: u128,
    pub title: String,
    pub completed: bool,
    pub markdown: String,
}

impl Todo {
    pub fn new(id: u128, title: String, completed: bool, markdown: String) -> (r: Todo)
        ensures
            r == (Todo { id, title, completed, markdown }),
    {
        Todo { id, title, completed, markdown }
    }
}

impl Clone for Todo {
    fn clone(&self) -> (r: Todo)
        ensures
            r == *self,
    {
        Todo {
            id: self.id,
            title: self.title.clone(),
            completed: self.completed,
            markdown: self.markdown.clone(),
        }
    }
}

/// The hash path part that selects the active items.
pub const ACTIVE: &'static str = "active";

/// The hash path part that selects the completed items.
pub const COMPLETED: &'static str = "completed";

/// Which items the list shows.
#[derive(Clone, Copy, Debug, PartialEq, Eq, Structural)]
pub enum Filter {
    All,
    Active,
    Completed,
}

/// The filter that a hash path selects: the active or the completed items
/// for a path of exactly that one part, else all of them.
pub open spec fn filter_for(parts: Seq<Seq<char>>) -> Filter {
    if parts.len() == 1 && parts[0] == ACTIVE@ {
        Filter::Active
    } else if parts.len() == 1 && parts[0] == COMPLETED@ {
        Filter::Completed
    } else {
        Filter::All
    }
}

impl Filter {
    /// The filter that the parts of a URL's hash path select.
    pub fn from_hash_path(parts: &Vec<String>) -> (r: Filter)
        ensures
            r == filter_for(parts@.map_values(|p: String| p@)),
    {
        if parts.len() == 1 {
            if parts[0] == ACTIVE.to_owned() {
                return Filter::Active;
            }
            if parts[0] == COMPLETED.to_owned() {
                return Filter::Completed;
            }
        }
        Filter::All
    }
}

/// The item whose title is being edited, and the title as edited so far.
pub struct SelectedTodo {
    pub id: u128,
    pub title: String,
}

/// Whether `t` is what a create of `title` under `id` inserts.
pub open spec fn made(t: Todo, id: u128, title: Seq<char>) -> bool {
    &&& t.id == id
    &&& t.title@ == trimmed(title)
    &&& !t.completed
    &&& t.markdown@.len() == 0
}

/// `t` with its completed flag set to `c`.
pub open spec fn with_completed(t: Todo, c: bool) -> Todo {
    Todo { completed: c, ..t }
}

/// Whether each item is completed.
pub open spec fn all_done(todos: Map<u128, Todo>) -> bool {
    forall|k: u128| #[trigger] todos.contains_key(k) ==> todos[k].completed
}

/// The items, each with its completed flag set to `c`.
pub open spec fn marked_all(todos: Map<u128, Todo>, c: bool) -> Map<u128, Todo> {
    Map::new(|k: u128| todos.contains_key(k), |k: u128| with_completed(todos[k], c))
}

/// The items that are not completed.
pub open spec fn active_only(todos: Map<u128, Todo>) -> Map<u128, Todo> {
    Map::new(|k: u128| todos.contains_key(k) && !todos[k].completed, |k: u128| todos[k])
}

/// Whether filter `f` shows `t`.
pub open spec fn shows(f: Filter, t: Todo) -> bool {
    match f {
        Filter::All => true,
        Filter::Active => !t.completed,
        Filter::Completed => t.completed,
    }
}

/// `s` with the completed flag of the item under `id` flipped, where there
/// is one.
pub open spec fn toggled(s: EditorState, id: u128) -> EditorState {
    if s.todos.contains_key(id) {
        EditorState {
            todos: s.todos.insert(id, with_completed(s.todos[id], !s.todos[id].completed)),
            ..s
        }
    } else {
        s
    }
}

/// The items after loading `todos` in order, each under its own id; a later
/// item replaces an earlier one with the same id.
pub open spec fn loaded(todos: Seq<Todo>) -> Map<u128, Todo>
    decreases todos.len(),
{
    if todos.len() == 0 {
        Map::empty()
    } else {
        loaded(todos.drop_last()).insert(todos.last().id, todos.last())
    }
}

/// Relies on `ulid::Ulid::new`: a new identifier from the clock and a random
/// source; nothing is known of its value.
#[verifier::external_body]
fn new_ulid() -> (r: u128) {
    ulid::Ulid::new().0
}

/// The editor: the items by id, the title being typed, the selection, the
/// filter, and the undo and redo stacks.
pub struct Model {
    pub todos: BTreeMap<u128, Todo>,
    pub new_todo_title: String,
    pub selected_todo: Option<SelectedTodo>,
    pub filter: Filter,
    pub undo_stack: Stack,
    pub redo_stack: Stack,
}

impl Model {
    /// The items and the two stacks.
    pub open spec fn state(&self) -> EditorState {
        EditorState { todos: self.todos@, undo: self.undo_stack@, redo: self.redo_stack@ }
    }

    /// Each item is stored under its own id.
    pub open spec fn wf(&self) -> bool {
        keyed(self.todos@)
    }

    /// The fields outside the history are those of `o`.
    pub open spec fn same_fields(&self, o: &Model) -> bool {
        &&& self.new_todo_title == o.new_todo_title
        &&& self.selected_todo == o.selected_todo
        &&& self.filter == o.filter
    }

    /// What a create from the title being typed leaves: where `created`,
    /// an item made from that title under an id that was free, recorded,
    /// and an empty title; else nothing changed. With a title that trims to
    /// nothing, nothing is created; with any other title and no items yet,
    /// an item is.
    pub open spec fn creates(&self, new: Model, created: bool) -> bool {
        &&& new.selected_todo == self.selected_todo
        &&& new.filter == self.filter
        &&& created ==> exists|id: u128|
            {
                &&& !self.state().todos.contains_key(id)
                &&& #[trigger] made(new.state().todos[id], id, self.new_todo_title@)
                &&& new.state() == self.state().created(new.state().todos[id])
            }
        &&& created ==> new.new_todo_title@.len() == 0
        &&& !created ==> new.state() == self.state() && new.new_todo_title == self.new_todo_title
        &&& trimmed(self.new_todo_title@).len() == 0 ==> !created
        &&& trimmed(self.new_todo_title@).len() > 0 && (forall|k: u128|
            !self.state().todos.contains_key(k)) ==> created
    }

    /// An editor with no items, no history and an empty title.
    pub fn new() -> (r: Model)
        ensures
            r.wf(),
            r.state().todos == Map::<u128, Todo>::empty(),
            r.state().undo.len() == 0,
            r.state().redo.len() == 0,
            r.new_todo_title@.len() == 0,
            r.selected_todo is None,
            r.filter == Filter::All,
    {
        Model {
            todos: BTreeMap::new(),
            new_todo_title: String::new(),
            selected_todo: None,
            filter: Filter::All,
            undo_stack: Stack::new(),
            redo_stack: Stack::new(),
        }
    }

    /// The items, by id.
    pub fn todos(&self) -> (r: &BTreeMap<u128, Todo>)
        ensures
            r@ == self.state().todos,
    {
        &self.todos
    }

    /// The ids of the items, in increasing order.
    pub fn ids(&self) -> (r: Vec<u128>)
        ensures
            r@.to_set() == self.state().todos.dom(),
            r@.no_duplicates(),
            forall|i: int, j: int| 0 <= i < j < r@.len() ==> r@[i] < r@[j],
    {
        let ghost ks = spec_keys_iter(&self.todos).remaining();
        let mut r: Vec<u128> = Vec::new();
        for k in it: self.todos.keys()
            invariant
                it.seq() == ks,
                r@ == ks.take(it.index() as int).unref(),
        {
            r.push(*k);
            proof {
                assert(r@ =~= ks.take(it.index() + 1).unref());
            }
        }
        proof {
            assert(r@ =~= ks.unref());
            assert(increasing_seq(ks));
            assert(vstd::laws_cmp::obeys_cmp::<&u128>());
            assert forall|i: int, j: int| 0 <= i < j < r@.len() implies r@[i] < r@[j] by {
                assert(<&u128 as OrdSpec>::cmp_spec(&ks[i], &ks[j]) is Less);
                assert(r@[i] == *ks[i] && r@[j] == *ks[j]);
            }
        }
        r
    }

    /// Whether each item is completed (so too where there is none).
    pub fn all_completed(&self) -> (r: bool)
        ensures
            r == all_done(self.state().todos),
    {
        let ids = self.ids();
        let mut all = true;
        let mut i: usize = 0;
        while i < ids.len()
            invariant
                ids@.to_set() == self.todos@.dom(),
                0 <= i <= ids.len(),
                all <==> forall|j: int| 0 <= j < i ==> (#[trigger] self.todos@[ids@[j]]).completed,
            decreases ids.len() - i,
        {
            let id = ids[i];
            assert(ids@.to_set().contains(id));
            match self.todos.get(&id) {
                Some(t) => {
                    all = all && t.completed;
                },
                None => {},
            }
            i = i + 1;
        }
        proof {
            if all {
                assert forall|k: u128| #[trigger] self.todos@.contains_key(k) implies self.todos@[k].completed by {
                    assert(ids@.to_set().contains(k));
                    let j = choose|j: int| 0 <= j < ids@.len() && ids@[j] == k;
                    assert(self.todos@[ids@[j]].completed);
                }
            } else {
                let j = choose|j: int| 0 <= j < i && !(#[trigger] self.todos@[ids@[j]]).completed;
                assert(ids@.to_set().contains(ids@[j]));
            }
        }
        all
    }

    /// The items that filter `f` shows, in increasing order of id.
    pub fn visible_todos(&self, f: Filter) -> (r: Vec<Todo>)
        requires
            self.wf(),
        ensures
            forall|p: int|
                0 <= p < r@.len() ==> {
                    &&& self.state().todos.contains_key(#[trigger] r@[p].id)
                    &&& self.state().todos[r@[p].id] == r@[p]
                    &&& shows(f, r@[p])
                },
            forall|k: u128|
                #[trigger] self.state().todos.contains_key(k) && shows(f, self.state().todos[k])
                    ==> exists|p: int| 0 <= p < r@.len() && r@[p].id == k,
            forall|p: int, q: int| 0 <= p < q < r@.len() ==> r@[p].id < r@[q].id,
    {
        let ids = self.ids();
        let mut r: Vec<Todo> = Vec::new();
        let mut i: usize = 0;
        while i < ids.len()
            invariant
                ids@.to_set() == self.todos@.dom(),
                forall|a: int, b: int| 0 <= a < b < ids@.len() ==> ids@[a] < ids@[b],
                keyed(self.todos@),
                0 <= i <= ids.len(),
                forall|p: int|
                    0 <= p < r@.len() ==> {
                        &&& self.todos@.contains_key(#[trigger] r@[p].id)
                        &&& self.todos@[r@[p].id] == r@[p]
                        &&& shows(f, r@[p])
                    },
                forall|q: int|
                    0 <= q < i && shows(f, #[trigger] self.todos@[ids@[q]]) ==> exists|p: int|
                        0 <= p < r@.len() && r@[p].id == ids@[q],
                forall|p: int, q: int| 0 <= p < q < r@.len() ==> r@[p].id < r@[q].id,
                i < ids.len() ==> forall|p: int| 0 <= p < r@.len() ==> r@[p].id < ids@[i as int],
            decreases ids.len() - i,
        {
            let id = ids[i];
            assert(ids@.to_set().contains(id));
            let ghost r0 = r@;
            match self.todos.get(&id) {
                Some(t) => {
                    if matches!(f, Filter::All) || (matches!(f, Filter::Active) && !t.completed)
                        || (matches!(f, Filter::Completed) && t.completed) {
                        r.push(t.clone());
                        assert(r@[r@.len() - 1].id == id);
                    }
                },
                None => {},
            }
            proof {
                assert forall|q: int|
                    0 <= q < i + 1 && shows(f, #[trigger] self.todos@[ids@[q]]) implies exists|p: int|
                        0 <= p < r@.len() && r@[p].id == ids@[q] by {
                    if q < i {
                        let p = choose|p: int| 0 <= p < r0.len() && r0[p].id == ids@[q];
                        assert(r@[p] == r0[p]);
                    } else {
                        assert(r@[r@.len() - 1].id == ids@[q]);
                    }
                }
                if i + 1 < ids.len() {
                    assert(ids@[i as int] < ids@[i + 1]);
                }
            }
            i = i + 1;
        }
        proof {
            assert forall|k: u128|
                #[trigger] self.todos@.contains_key(k) && shows(f, self.todos@[k]) implies exists|p: int|
                    0 <= p < r@.len() && r@[p].id == k by {
                assert(ids@.to_set().contains(k));
                let q = choose|q: int| 0 <= q < ids@.len() && ids@[q] == k;
                assert(shows(f, self.todos@[ids@[q]]));
            }
        }
        r
    }

    /// Flips the completed flag of the item under `id`, where there is one,
    /// outside the history.
    pub fn toggle_todo(&mut self, id: u128) -> (found: bool)
        requires
            old(self).wf(),
        ensures
            final(self).wf(),
            final(self).same_fields(old(self)),
            found == old(self).state().todos.contains_key(id),
            final(self).state() == toggled(old(self).state(), id),
    {
        match self.todos.remove(&id) {
            Some(t) => {
                let mut t = t;
                t.completed = !t.completed;
                self.todos.insert(id, t);
                assert(self.todos@ =~= old(self).todos@.insert(
                    id,
                    with_completed(old(self).todos@[id], !old(self).todos@[id].completed),
                ));
                true
            },
            None => {
                assert(self.todos@ =~= old(self).todos@);
                false
            },
        }
    }

    /// Marks every item completed, or, where all already are, none; outside
    /// the history.
    pub fn check_or_uncheck_all(&mut self)
        requires
            old(self).wf(),
        ensures
            final(self).wf(),
            final(self).same_fields(old(self)),
            final(self).state() == (EditorState {
                todos: marked_all(old(self).state().todos, !all_done(old(self).state().todos)),
                ..old(self).state()
            }),
    {
        let target = !self.all_completed();
        let ids = self.ids();
        let mut i: usize = 0;
        while i < ids.len()
            invariant
                ids@.to_set() == old(self).todos@.dom(),
                ids@.no_duplicates(),
                0 <= i <= ids.len(),
                self.todos@.dom() == old(self).todos@.dom(),
                forall|j: int|
                    0 <= j < i ==> self.todos@[#[trigger] ids@[j]] == with_completed(
                        old(self).todos@[ids@[j]],
                        target,
                    ),
                forall|j: int| i <= j < ids@.len() ==> self.todos@[#[trigger] ids@[j]] == old(self).todos@[ids@[j]],
                self.same_fields(old(self)),
                self.undo_stack@ == old(self).undo_stack@,
                self.redo_stack@ == old(self).redo_stack@,
            decreases ids.len() - i,
        {
            let id = ids[i];
            assert(ids@.to_set().contains(id));
            match self.todos.remove(&id) {
                Some(t) => {
                    let mut t = t;
                    t.completed = target;
                    self.todos.insert(id, t);
                },
                None => {},
            }
            assert(self.todos@.dom() =~= old(self).todos@.dom());
            assert forall|j: int| i < j < ids@.len() implies self.todos@[#[trigger] ids@[j]] == old(self).todos@[ids@[j]] by {
                assert(ids@[j] != ids@[i as int]);
            }
            assert forall|j: int| 0 <= j < i implies self.todos@[#[trigger] ids@[j]] == with_completed(
                old(self).todos@[ids@[j]],
                target,
            ) by {
                assert(ids@[j] != ids@[i as int]);
            }
            i = i + 1;
        }
        proof {
            assert forall|k: u128| #[trigger] self.todos@.contains_key(k) implies self.todos@[k] == with_completed(old(self).todos@[k], target) by {
                assert(ids@.to_set().contains(k));
                let j = choose|j: int| 0 <= j < ids@.len() && ids@[j] == k;
                assert(self.todos@[ids@[j]] == with_completed(old(self).todos@[ids@[j]], target));
            }
            assert(self.todos@ =~= marked_all(old(self).todos@, target));
            assert forall|k: u128| #[trigger] self.todos@.contains_key(k) implies self.todos@[k].id == k by {
                assert(old(self).todos@.contains_key(k));
            }
        }
    }

    /// Removes every completed item, outside the history.
    pub fn clear_completed(&mut self)
        requires
            old(self).wf(),
        ensures
            final(self).wf(),
            final(self).same_fields(old(self)),
            final(self).state() == (EditorState {
                todos: active_only(old(self).state().todos),
                ..old(self).state()
            }),
    {
        let ids = self.ids();
        let mut i: usize = 0;
        while i < ids.len()
            invariant
                ids@.to_set() == old(self).todos@.dom(),
                ids@.no_duplicates(),
                0 <= i <= ids.len(),
                forall|k: u128| #[trigger] self.todos@.contains_key(k) ==> old(self).todos@.contains_key(k)
                    && self.todos@[k] == old(self).todos@[k],
                forall|j: int|
                    0 <= j < i ==> (self.todos@.contains_key(#[trigger] ids@[j]) <==> !old(
                        self,
                    ).todos@[ids@[j]].completed),
                forall|j: int| i <= j < ids@.len() ==> self.todos@.contains_key(#[trigger] ids@[j]),
                self.same_fields(old(self)),
                self.undo_stack@ == old(self).undo_stack@,
                self.redo_stack@ == old(self).redo_stack@,
            decreases ids.len() - i,
        {
            let id = ids[i];
            let done = match self.todos.get(&id) {
                Some(t) => t.completed,
                None => false,
            };
            if done {
                self.todos.remove(&id);
            }
            assert forall|j: int| i < j < ids@.len() implies self.todos@.contains_key(#[trigger] ids@[j]) by {
                assert(ids@[j] != ids@[i as int]);
            }
            assert forall|j: int| 0 <= j < i implies (self.todos@.contains_key(#[trigger] ids@[j]) <==> !old(
                self,
            ).todos@[ids@[j]].completed) by {
                assert(ids@[j] != ids@[i as int]);
            }
            i = i + 1;
        }
        proof {
            assert forall|k: u128| #[trigger] old(self).todos@.contains_key(k) implies (self.todos@.contains_key(k) <==> !old(self).todos@[k].completed) by {
                assert(ids@.to_set().contains(k));
                let j = choose|j: int| 0 <= j < ids@.len() && ids@[j] == k;
                assert(self.todos@.contains_key(ids@[j]) <==> !old(self).todos@[ids@[j]].completed);
            }
            assert(self.todos@ =~= active_only(old(self).todos@));
        }
    }

    /// Starts editing the title of the item under `id`, where there is one;
    /// with `None`, stops editing.
    pub fn select_todo(&mut self, id: Option<u128>) -> (selected: bool)
        requires
            old(self).wf(),
        ensures
            final(self).wf(),
            final(self).state() == old(self).state(),
            final(self).new_todo_title == old(self).new_todo_title,
            final(self).filter == old(self).filter,
            selected == (id is Some && old(self).state().todos.contains_key(id->0)),
            selected ==> (final(self).selected_todo matches Some(sel) && sel.id == id->0
                && sel.title == old(self).state().todos[id->0].title),
            id is None ==> final(self).selected_todo is None,
            id is Some && !selected ==> final(self).selected_todo == old(self).selected_todo,
    {
        match id {
            Some(id) => match self.todos.get(&id) {
                Some(t) => {
                    self.selected_todo = Some(SelectedTodo { id, title: t.title.clone() });
                    true
                },
                None => false,
            },
            None => {
                self.selected_todo = None;
                false
            },
        }
    }

    /// Replaces the title being edited, where an item is selected.
    pub fn selected_todo_title_changed(&mut self, title: String)
        requires
            old(self).wf(),
        ensures
            final(self).wf(),
            final(self).state() == old(self).state(),
            final(self).new_todo_title == old(self).new_todo_title,
            final(self).filter == old(self).filter,
            match old(self).selected_todo {
                Some(sel) => final(self).selected_todo == Some(SelectedTodo { id: sel.id, title }),
                None => final(self).selected_todo is None,
            },
    {
        match self.selected_todo.take() {
            Some(sel) => {
                self.selected_todo = Some(SelectedTodo { id: sel.id, title });
            },
            None => {},
        }
    }

    /// Stops editing and gives the selected item the edited title, where it
    /// is still there; outside the history.
    pub fn save_selected_todo(&mut self) -> (saved: bool)
        requires
            old(self).wf(),
        ensures
            final(self).wf(),
            final(self).new_todo_title == old(self).new_todo_title,
            final(self).filter == old(self).filter,
            final(self).selected_todo is None,
            saved == (old(self).selected_todo matches Some(sel)
                && old(self).state().todos.contains_key(sel.id)),
            saved ==> final(self).state() == (EditorState {
                todos: old(self).state().todos.insert(
                    old(self).selected_todo->0.id,
                    Todo {
                        title: old(self).selected_todo->0.title,
                        ..old(self).state().todos[old(self).selected_todo->0.id]
                    },
                ),
                ..old(self).state()
            }),
            !saved ==> final(self).state() == old(self).state(),
    {
        match self.selected_todo.take() {
            Some(sel) => match self.todos.remove(&sel.id) {
                Some(t) => {
                    let mut t = t;
                    t.title = sel.title;
                    self.todos.insert(sel.id, t);
                    proof {
                        let o = old(self).todos@;
                        let n = o.insert(sel.id, Todo { title: sel.title, ..o[sel.id] });
                        assert(self.todos@ =~= n);
                        assert forall|k: u128| #[trigger] self.todos@.contains_key(k) implies self.todos@[k].id == k by {
                            if k != sel.id {
                                assert(o.contains_key(k));
                            }
                        }
                    }
                    true
                },
                None => {
                    assert(self.todos@ =~= old(self).todos@);
                    false
                },
            },
            None => false,
        }
    }

    /// What filling the editor with sample data under `id_a` and `id_b`
    /// leaves: the items kept, with A (not completed) under `id_a` and B
    /// (completed) under `id_b`, so that B replaces A where the ids are
    /// equal; B selected with a sample title, a sample new title, and the
    /// history and filter unchanged.
    pub open spec fn mock_filled(&self, r: Model, id_a: u128, id_b: u128) -> bool {
        &&& r.filter == self.filter
        &&& r.state() == (EditorState {
            todos: self.state().todos.insert(id_a, r.state().todos[id_a]).insert(
                id_b,
                r.state().todos[id_b],
            ),
            ..self.state()
        })
        &&& id_a != id_b ==> {
            &&& r.state().todos[id_a].id == id_a
            &&& r.state().todos[id_a].title@ == "I'm todo A"@
            &&& !r.state().todos[id_a].completed
            &&& r.state().todos[id_a].markdown@.len() == 0
        }
        &&& r.state().todos[id_b].id == id_b
        &&& r.state().todos[id_b].title@ == "I'm todo B"@
        &&& r.state().todos[id_b].completed
        &&& r.state().todos[id_b].markdown@.len() == 0
        &&& r.new_todo_title@ == "I'm a new todo title"@
        &&& r.selected_todo matches Some(sel) && sel.id == id_b && sel.title@
            == "I'm better todo B"@
    }

    /// Fills the editor with two sample items under `id_a` and `id_b`, the
    /// second completed and selected, and a sample title; outside the
    /// history.
    pub fn add_mock_data_with_ids(self, id_a: u128, id_b: u128) -> (r: Model)
        requires
            self.wf(),
        ensures
            r.wf(),
            self.mock_filled(r, id_a, id_b),
    {
        let mut m = self;
        let a = Todo::new(id_a, "I'm todo A".to_owned(), false, String::new());
        let b = Todo::new(id_b, "I'm todo B".to_owned(), true, String::new());
        m.load_todo(a);
        m.load_todo(b);
        m.new_todo_title = "I'm a new todo title".to_owned();
        m.selected_todo = Some(SelectedTodo { id: id_b, title: "I'm better todo B".to_owned() });
        assert(m.todos@ =~= self.todos@.insert(id_a, m.todos@[id_a]).insert(id_b, m.todos@[id_b]));
        m
    }

    /// Fills the editor with two sample items under new identifiers, the
    /// second completed and selected, and a sample title; outside the
    /// history.
    pub fn add_mock_data(self) -> (r: Model)
        requires
            self.wf(),
        ensures
            r.wf(),
            exists|id_a: u128, id_b: u128| #[trigger] self.mock_filled(r, id_a, id_b),
    {
        let id_a = new_ulid();
        let id_b = new_ulid();
        let r = self.add_mock_data_with_ids(id_a, id_b);
        assert(self.mock_filled(r, id_a, id_b));
        r
    }

    /// An editor holding `todos`, loaded in order, with no history, an
    /// empty title and the filter that shows every item.
    pub fn from_todos(todos: &Vec<Todo>) -> (r: Model)
        ensures
            r.wf(),
            r.state().todos == loaded(todos@),
            r.state().undo.len() == 0,
            r.state().redo.len() == 0,
            r.new_todo_title@.len() == 0,
            r.selected_todo is None,
            r.filter == Filter::All,
    {
        let mut m = Model::new();
        let mut i: usize = 0;
        while i < todos.len()
            invariant
                0 <= i <= todos.len(),
                m.wf(),
                m.state().todos == loaded(todos@.take(i as int)),
                m.state().undo.len() == 0,
                m.state().redo.len() == 0,
                m.new_todo_title@.len() == 0,
                m.selected_todo is None,
                m.filter == Filter::All,
            decreases todos.len() - i,
        {
            m.load_todo(todos[i].clone());
            assert(todos@.take(i + 1).drop_last() =~= todos@.take(i as int));
            i = i + 1;
        }
        assert(todos@.take(todos.len() as int) =~= todos@);
        m
    }

    /// Puts back an item that was saved earlier, under its own id, outside
    /// the history.
    pub fn load_todo(&mut self, todo: Todo)
        requires
            old(self).wf(),
        ensures
            final(self).wf(),
            final(self).same_fields(old(self)),
            final(self).state() == (EditorState {
                todos: old(self).state().todos.insert(todo.id, todo),
                ..old(self).state()
            }),
    {
        let id = todo.id;
        self.todos.insert(id, todo);
    }

    fn record(&mut self, action: Action)
        ensures
            final(self).todos@ == old(self).todos@,
            final(self).same_fields(old(self)),
            final(self).undo_stack@ == old(self).undo_stack@.push(action),
            final(self).redo_stack@ == Seq::<Action>::empty(),
    {
        self.undo_stack.push(action);
        self.redo_stack.clear();
    }

    /// Creates an item from `title`, trimmed, under `id`. Nothing happens
    /// where the trimmed title is empty or `id` is taken.
    pub fn create(&mut self, title: &str, id: u128) -> (created: bool)
        requires
            old(self).wf(),
        ensures
            final(self).wf(),
            final(self).same_fields(old(self)),
            created == (trimmed(title@).len() > 0 && !old(self).state().todos.contains_key(id)),
            created ==> made(final(self).state().todos[id], id, title@) && final(self).state()
                == old(self).state().created(final(self).state().todos[id]),
            !created ==> final(self).state() == old(self).state(),
            (forall|k: int| 0 <= k < title@.len() ==> white_space(#[trigger] title@[k]))
                ==> final(self).state() == old(self).state(),
    {
        proof {
            lemma_trimmed_empty(title@);
        }
        let t = trim(title);
        if t.is_empty() {
            return false;
        }
        if self.todos.contains_key(&id) {
            return false;
        }
        let todo = Todo::new(id, t.to_owned(), false, String::new());
        let action = Action::Created(todo.clone());
        self.todos.insert(id, todo);
        self.record(action);
        true
    }

    /// Creates an item from the title being typed, under a new identifier,
    /// and clears that title. Nothing happens where the trimmed title is
    /// empty, or in the unlikely case that the new identifier is taken.
    pub fn createtodo(&mut self) -> (created: bool)
        requires
            old(self).wf(),
        ensures
            final(self).wf(),
            old(self).creates(*final(self), created),
    {
        let id = new_ulid();
        let title = self.new_todo_title.clone();
        let ghost before = self.state();
        let created = self.create(title.as_str(), id);
        if created {
            self.new_todo_title = String::new();
            assert(made(self.state().todos[id], id, old(self).new_todo_title@));
            assert(!before.todos.contains_key(id));
        }
        created
    }

    /// Removes the item under `id`, where there is one, and records it.
    pub fn remove_todo(&mut self, id: u128) -> (removed: bool)
        requires
            old(self).wf(),
        ensures
            final(self).wf(),
            final(self).same_fields(old(self)),
            removed == old(self).state().todos.contains_key(id),
            final(self).state() == old(self).state().removed(id),
    {
        match self.todos.remove(&id) {
            Some(todo) => {
                self.record(Action::Removed(id, todo));
                true
            },
            None => {
                assert(self.todos@ =~= old(self).todos@);
                false
            },
        }
    }

    /// Takes `a` back on the items; see `revert`.
    fn revert_action(&mut self, a: Action) -> (r: Option<Action>)
        requires
            old(self).wf(),
        ensures
            final(self).wf(),
            final(self).same_fields(old(self)),
            final(self).undo_stack@ == old(self).undo_stack@,
            final(self).redo_stack@ == old(self).redo_stack@,
            match revert(old(self).todos@, a) {
                Some((todos, back)) => final(self).todos@ == todos && r == Some(back),
                None => final(self).todos@ == old(self).todos@ && r is None,
            },
    {
        match a {
            Action::Created(t) => match self.todos.remove(&t.id) {
                Some(_) => Some(Action::Removed(t.id, t)),
                None => None,
            },
            Action::Removed(id, t) => {
                if t.id == id && !self.todos.contains_key(&id) {
                    let back = t.clone();
                    self.todos.insert(id, t);
                    Some(Action::Created(back))
                } else {
                    None
                }
            },
        }
    }

    /// Takes the latest recorded action back and moves its inverse to redo.
    /// An action that no longer fits the items is dropped.
    pub fn undo(&mut self) -> (changed: bool)
        requires
            old(self).wf(),
        ensures
            final(self).wf(),
            final(self).same_fields(old(self)),
            final(self).state() == old(self).state().undone(),
            changed == (old(self).state().undo.len() > 0 && revert(
                old(self).state().todos,
                old(self).state().undo.last(),
            ) is Some),
    {
        match self.undo_stack.pop() {
            Some(a) => match self.revert_action(a) {
                Some(back) => {
                    self.redo_stack.push(back);
                    true
                },
                None => false,
            },
            None => false,
        }
    }

    /// Takes the latest undone action back again and moves its inverse to
    /// undo, without clearing redo. An action that no longer fits the items
    /// is dropped.
    pub fn redo(&mut self) -> (changed: bool)
        requires
            old(self).wf(),
        ensures
            final(self).wf(),
            final(self).same_fields(old(self)),
            final(self).state() == old(self).state().redone(),
            changed == (old(self).state().redo.len() > 0 && revert(
                old(self).state().todos,
                old(self).state().redo.last(),
            ) is Some),
    {
        match self.redo_stack.pop() {
            Some(a) => match self.revert_action(a) {
                Some(back) => {
                    self.undo_stack.push(back);
                    true
                },
                None => false,
            },
            None => false,
        }
    }
}

} // verus!
