use crate::hsl_color::HslColor;
use crate::my_date_time::MyDateTime;
use vstd::prelude::*;

verus! {

pub type TagId = i64;

/// A tag: a named label a task may reference. Identity is the id, assigned
/// by the store on creation and never reused within a store's lifetime.
#[derive(Debug, PartialEq)]
pub struct Tag {
    pub id: TagId,
    pub name: String,
    pub color: HslColor,
    pub active: bool,
    pub create_time: MyDateTime,
}

impl Tag {
    /// The tag assembled from caller-editable fields and store-generated
    /// fields.
    pub open spec fn spec_from_parts(editable: EditableTagData, generated: GeneratedTagData) -> Tag {
        Tag {
            id: generated.id,
            name: editable.name,
            color: editable.color,
            active: editable.active,
            create_time: generated.create_time,
        }
    }

    pub fn from_parts(editable: &EditableTagData, generated: &GeneratedTagData) -> (r: Tag)
        ensures
            r == Tag::spec_from_parts(*editable, *generated),
    {
        Tag {
            id: generated.id,
            name: editable.name.clone(),
            color: editable.color,
            active: editable.active,
            create_time: generated.create_time,
        }
    }
}

impl Clone for Tag {
    fn clone(&self) -> (r: Tag)
        ensures
            r == *self,
    {
        Tag {
            id: self.id,
            name: self.name.clone(),
            color: self.color,
            active: self.active,
            create_time: self.create_time,
        }
    }
}

/// Fields of a `Tag` determined by the store when a new tag is created.
#[derive(Debug, PartialEq, Clone, Copy)]
pub struct GeneratedTagData {
    pub id: TagId,
    pub create_time: MyDateTime,
}

/// Fields of a `Tag` modifiable by the client.
#[derive(Debug, PartialEq)]
pub struct EditableTagData {
    pub name: String,
    pub color: HslColor,
    pub active: bool,
}

impl Clone for EditableTagData {
    fn clone(&self) -> (r: EditableTagData)
        ensures
            r == *self,
    {
        EditableTagData { name: self.name.clone(), color: self.color, active: self.active }
    }
}

} // verus!
