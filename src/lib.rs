//! A to-do list editor whose item collection carries a linear undo/redo
//! history of invertible actions.

mod laws;
mod model;
mod text;
mod undo;
mod update;

pub use laws::{
    all_take_effect, apply_all, consistent, effective_count, fits, lemma_history_stays_coherent, lemma_new_edit_clears_redo, lemma_undo_redo_identity,
    lemma_undo_round_trip, Edit,
};
pub use model::{
    active_only, all_done, filter_for, loaded, made, marked_all, shows, toggled, with_completed, ACTIVE, COMPLETED,
    Filter, Model, SelectedTodo, Todo};
pub use text::{trim_end, trim_start, trimmed, white_space};
pub use undo::{keyed, revert, Action, EditorState, Stack};
pub use update::{update, Effects, Msg};
