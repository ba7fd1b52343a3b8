//! A storage and consistency layer for a personal task tracker.
//!
//! The crate keeps two kinds of records: tags (named labels with a color and
//! an activity flag) and tasks (titled work items with scheduling metadata,
//! an optional tag reference, and a completion state). The store owns both
//! collections, assigns ids and timestamps, and enforces referential
//! integrity between tasks and tags. A small filter engine builds composable
//! predicates over task fields for ad-hoc queries.

mod db;
mod filters;
mod hsl_color;
mod my_date_time;
mod tag;
mod task;
mod task_filter_options;

pub use db::{
    apply_edit, detach_tag, filter_by_mask, has_tag, has_task, lemma_cascade_on_delete,
    lemma_filter_composition, lemma_id_monotonicity, lemma_tag_round_trip, tag_index, tag_with_id,
    task_index, task_with_id, Db, DbError, DbView,
};
pub use filters::{
    ApplyFilter, ContainsStringFilter, ExactlyFilter, OptionalFilter, OrderedRangeFilter,
    SetFilter,
};
pub use filters::contains_subrange;
pub use hsl_color::{lemma_packed_injective, HslColor};
pub use my_date_time::MyDateTime;
pub use tag::{EditableTagData, GeneratedTagData, Tag, TagId};
pub use task::{
    EditableTaskData, FinishedTaskData, GeneratedTaskData, ModifiedTaskData, Task, TaskId,
};
pub use task_filter_options::{none_or, none_or_filter, spec_none_or_filter, TaskFilterOptions};
