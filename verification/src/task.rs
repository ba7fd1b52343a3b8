use crate::my_date_time::MyDateTime;
use crate::tag::TagId;
use vstd::prelude::*;

verus! {

pub type TaskId = i64;

/// A task: a titled work item with scheduling metadata, an optional tag
/// reference, and a completion state. A task counts as finished exactly
/// when `done_time` holds a value; there is no separate status flag.
#[derive(Debug, PartialEq)]
pub struct Task {
    pub id: TaskId,
    pub title: String,
    pub tag: Option<TagId>,
    pub body: String,
    pub difficulty: i32,
    pub create_time: MyDateTime,
    pub last_edit_time: MyDateTime,
    pub due_time: Option<MyDateTime>,
    pub target_time: Option<MyDateTime>,
    pub done_time: Option<MyDateTime>,
    pub paused: bool,
}

impl Task {
    /// The task assembled from caller-editable fields and store-generated
    /// fields.
    pub open spec fn spec_from_parts(
        editable: EditableTaskData,
        generated: GeneratedTaskData,
    ) -> Task {
        Task {
            id: generated.id,
            title: editable.title,
            tag: editable.tag,
            body: editable.body,
            difficulty: editable.difficulty,
            create_time: generated.create_time,
            last_edit_time: generated.last_edit_time,
            due_time: editable.due_time,
            target_time: editable.target_time,
            done_time: generated.done_time,
            paused: editable.paused,
        }
    }

    pub fn from_parts(editable: &EditableTaskData, generated: &GeneratedTaskData) -> (r: Task)
        ensures
            r == Task::spec_from_parts(*editable, *generated),
    {
        Task {
            id: generated.id,
            title: editable.title.clone(),
            tag: editable.tag,
            body: editable.body.clone(),
            difficulty: editable.difficulty,
            create_time: generated.create_time,
            last_edit_time: generated.last_edit_time,
            due_time: editable.due_time,
            target_time: editable.target_time,
            done_time: generated.done_time,
            paused: editable.paused,
        }
    }

    /// True exactly when the task carries a done time.
    pub open spec fn spec_is_done(self) -> bool {
        self.done_time is Some
    }

    pub fn is_done(&self) -> (r: bool)
        ensures
            r == self.spec_is_done(),
    {
        self.done_time.is_some()
    }
}

impl Clone for Task {
    fn clone(&self) -> (r: Task)
        ensures
            r == *self,
    {
        Task {
            id: self.id,
            title: self.title.clone(),
            tag: self.tag,
            body: self.body.clone(),
            difficulty: self.difficulty,
            create_time: self.create_time,
            last_edit_time: self.last_edit_time,
            due_time: self.due_time,
            target_time: self.target_time,
            done_time: self.done_time,
            paused: self.paused,
        }
    }
}

/// Fields of a `Task` modifiable by the client.
#[derive(Debug, PartialEq)]
pub struct EditableTaskData {
    pub title: String,
    pub tag: Option<TagId>,
    pub body: String,
    pub difficulty: i32,
    pub due_time: Option<MyDateTime>,
    pub target_time: Option<MyDateTime>,
    pub paused: bool,
}

impl Clone for EditableTaskData {
    fn clone(&self) -> (r: EditableTaskData)
        ensures
            r == *self,
    {
        EditableTaskData {
            title: self.title.clone(),
            tag: self.tag,
            body: self.body.clone(),
            difficulty: self.difficulty,
            due_time: self.due_time,
            target_time: self.target_time,
            paused: self.paused,
        }
    }
}

/// Fields of a `Task` determined by the store when a new task is created.
#[derive(Debug, PartialEq, Clone, Copy)]
pub struct GeneratedTaskData {
    pub id: TaskId,
    pub create_time: MyDateTime,
    pub last_edit_time: MyDateTime,
    pub done_time: Option<MyDateTime>,
}

/// Fields of a `Task` determined by the store when an existing task is
/// modified.
#[derive(Debug, PartialEq, Clone, Copy)]
pub struct ModifiedTaskData {
    pub last_edit_time: MyDateTime,
}

/// Fields of a `Task` determined by the store when an existing task is
/// marked (or unmarked) as done.
#[derive(Debug, PartialEq, Clone, Copy)]
pub struct FinishedTaskData {
    pub done_time: Option<MyDateTime>,
}

} // verus!
