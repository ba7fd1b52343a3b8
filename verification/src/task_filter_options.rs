use crate::filters::{
    ApplyFilter, ContainsStringFilter, ExactlyFilter, OptionalFilter, OrderedRangeFilter,
    SetFilter,
};
use crate::my_date_time::MyDateTime;
use crate::tag::TagId;
use crate::task::{Task, TaskId};
use vstd::prelude::*;

verus! {

broadcast use vstd::std_specs::hash::group_hash_axioms;

/// The possible filters from a caller, one optional slot per filterable
/// field of a `Task`. A task passes the composite iff it passes every
/// present slot's filter; absent slots impose no constraint.
pub struct TaskFilterOptions {
    pub id_filter: Option<ExactlyFilter<TaskId>>,
    pub title_filter: Option<ContainsStringFilter>,
    pub tag_filter: Option<OptionalFilter<SetFilter<TagId>>>,
    pub body_filter: Option<ContainsStringFilter>,
    pub difficulty_filter: Option<SetFilter<i32>>,
    pub create_time_filter: Option<OrderedRangeFilter<MyDateTime>>,
    pub last_edit_time_filter: Option<OrderedRangeFilter<MyDateTime>>,
    pub due_time_filter: Option<OptionalFilter<OrderedRangeFilter<MyDateTime>>>,
    pub target_time_filter: Option<OptionalFilter<OrderedRangeFilter<MyDateTime>>>,
    pub done_time_filter: Option<OptionalFilter<OrderedRangeFilter<MyDateTime>>>,
    pub paused_filter: Option<ExactlyFilter<bool>>,
}

impl ApplyFilter<Task> for TaskFilterOptions {
    open spec fn obeys_passes_spec() -> bool {
        true
    }

    open spec fn spec_passes(self, task: Task) -> bool {
        &&& spec_none_or_filter(self.id_filter, task.id)
        &&& spec_none_or_filter(self.title_filter, task.title)
        &&& spec_none_or_filter(self.tag_filter, task.tag)
        &&& spec_none_or_filter(self.body_filter, task.body)
        &&& spec_none_or_filter(self.difficulty_filter, task.difficulty)
        &&& spec_none_or_filter(self.create_time_filter, task.create_time)
        &&& spec_none_or_filter(self.last_edit_time_filter, task.last_edit_time)
        &&& spec_none_or_filter(self.due_time_filter, task.due_time)
        &&& spec_none_or_filter(self.target_time_filter, task.target_time)
        &&& spec_none_or_filter(self.done_time_filter, task.done_time)
        &&& spec_none_or_filter(self.paused_filter, task.paused)
    }

    fn passes(&self, task: &Task) -> (r: bool) {
        none_or_filter(&self.id_filter, &task.id) && none_or_filter(&self.title_filter, &task.title)
            && none_or_filter(&self.tag_filter, &task.tag) && none_or_filter(
            &self.body_filter,
            &task.body,
        ) && none_or_filter(&self.difficulty_filter, &task.difficulty) && none_or_filter(
            &self.create_time_filter,
            &task.create_time,
        ) && none_or_filter(&self.last_edit_time_filter, &task.last_edit_time) && none_or_filter(
            &self.due_time_filter,
            &task.due_time,
        ) && none_or_filter(&self.target_time_filter, &task.target_time) && none_or_filter(
            &self.done_time_filter,
            &task.done_time,
        ) && none_or_filter(&self.paused_filter, &task.paused)
    }
}

/// What `none_or_filter` decides: an absent filter imposes no constraint,
/// a present one decides by its own `spec_passes`.
pub open spec fn spec_none_or_filter<T, F: ApplyFilter<T>>(opt_filter: Option<F>, value: T) -> bool {
    match opt_filter {
        Some(filter) => filter.spec_passes(value),
        None => true,
    }
}

/// Applies `pred` to the content of `opt`, or passes vacuously when `opt`
/// is empty.
pub fn none_or<T, P: FnOnce(&T) -> bool>(opt: &Option<T>, pred: P) -> (r: bool)
    requires
        *opt matches Some(val) ==> call_requires(pred, (&val,)),
    ensures
        match *opt {
            Some(val) => call_ensures(pred, (&val,), r),
            None => r == true,
        },
{
    match opt {
        Some(val) => pred(val),
        None => true,
    }
}

/// Applies an optional filter to a value; an absent filter passes
/// everything.
pub fn none_or_filter<T, F: ApplyFilter<T>>(opt_filter: &Option<F>, value: &T) -> (r: bool)
    ensures
        F::obeys_passes_spec() ==> r == spec_none_or_filter(*opt_filter, *value),
{
    match opt_filter {
        Some(filter) => filter.passes(value),
        None => true,
    }
}

} // verus!
