use crate::filters::ApplyFilter;
use crate::my_date_time::{now, MyDateTime};
use crate::task_filter_options::TaskFilterOptions;
use crate::tag::{EditableTagData, GeneratedTagData, Tag, TagId};
use crate::task::{
    EditableTaskData, FinishedTaskData, GeneratedTaskData, ModifiedTaskData, Task, TaskId,
};
use vstd::prelude::*;

verus! {

/// Errors that can occur during operation of the store.
#[derive(Debug, Clone, Copy, PartialEq, Eq, Structural)]
pub enum DbError {
    /// A command referenced a tag `id` not present in the store.
    TagDoesNotExistError { id: TagId },
    /// A command referenced a task `id` not present in the store.
    TaskDoesNotExistError { id: TaskId },
    /// A command attempted to change the done status of the task with `id`
    /// to the status it is already in; `actual_status` echoes the current
    /// status.
    TaskStatusError { id: TaskId, actual_status: bool },
}

/// The mathematical content of a store: the tag and task rows in insertion
/// order, and the next id each table will assign.
pub ghost struct DbView {
    pub tags: Seq<Tag>,
    pub tasks: Seq<Task>,
    pub next_tag_id: int,
    pub next_task_id: int,
}

/// Whether some tag row carries `id`.
pub open spec fn has_tag(tags: Seq<Tag>, id: TagId) -> bool {
    exists|i: int| 0 <= i < tags.len() && #[trigger] tags[i].id == id
}

/// The position of the tag row carrying `id`; meaningful when `has_tag`
/// holds and tag ids are unique.
pub open spec fn tag_index(tags: Seq<Tag>, id: TagId) -> int {
    choose|i: int| 0 <= i < tags.len() && #[trigger] tags[i].id == id
}

/// The tag row carrying `id`.
pub open spec fn tag_with_id(tags: Seq<Tag>, id: TagId) -> Tag {
    tags[tag_index(tags, id)]
}

/// Whether some task row carries `id`.
pub open spec fn has_task(tasks: Seq<Task>, id: TaskId) -> bool {
    exists|i: int| 0 <= i < tasks.len() && #[trigger] tasks[i].id == id
}

/// The position of the task row carrying `id`; meaningful when `has_task`
/// holds and task ids are unique.
pub open spec fn task_index(tasks: Seq<Task>, id: TaskId) -> int {
    choose|i: int| 0 <= i < tasks.len() && #[trigger] tasks[i].id == id
}

/// The task row carrying `id`.
pub open spec fn task_with_id(tasks: Seq<Task>, id: TaskId) -> Task {
    tasks[task_index(tasks, id)]
}

/// A task with any association to tag `id` removed; every other field is
/// untouched.
pub open spec fn detach_tag(t: Task, id: TagId) -> Task {
    if t.tag == Some(id) {
        Task { tag: None, ..t }
    } else {
        t
    }
}

/// A task after a full-field edit: every caller-editable field is replaced,
/// `last_edit_time` is restamped, and the id, creation time and completion
/// state are kept.
pub open spec fn apply_edit(t: Task, data: EditableTaskData, last_edit_time: MyDateTime) -> Task {
    Task {
        id: t.id,
        title: data.title,
        tag: data.tag,
        body: data.body,
        difficulty: data.difficulty,
        create_time: t.create_time,
        last_edit_time: last_edit_time,
        due_time: data.due_time,
        target_time: data.target_time,
        done_time: t.done_time,
        paused: data.paused,
    }
}

impl DbView {
    /// The store invariant: rows sit in insertion order with strictly
    /// increasing, never-reused ids below the next id to assign; every tag
    /// reference on a task points at a tag present in the store; and no
    /// task's last edit precedes its creation.
    pub open spec fn wf(self) -> bool {
        &&& forall|i: int, j: int|
            #![trigger self.tags[i], self.tags[j]]
            0 <= i < j < self.tags.len() ==> self.tags[i].id < self.tags[j].id
        &&& forall|i: int|
            0 <= i < self.tags.len() ==> 1 <= (#[trigger] self.tags[i]).id < self.next_tag_id
        &&& forall|i: int, j: int|
            #![trigger self.tasks[i], self.tasks[j]]
            0 <= i < j < self.tasks.len() ==> self.tasks[i].id < self.tasks[j].id
        &&& forall|i: int|
            0 <= i < self.tasks.len() ==> 1 <= (#[trigger] self.tasks[i]).id < self.next_task_id
        &&& forall|i: int|
            0 <= i < self.tasks.len() ==> ((#[trigger] self.tasks[i]).tag is Some ==> has_tag(
                self.tags,
                self.tasks[i].tag->0,
            ))
        &&& forall|i: int|
            0 <= i < self.tasks.len() ==> (#[trigger] self.tasks[i]).create_time.0
                <= self.tasks[i].last_edit_time.0
        &&& 1 <= self.next_tag_id <= i64::MAX
        &&& 1 <= self.next_task_id <= i64::MAX
    }
}

/// Tag ids are unique under the store invariant's ordering: two rows
/// carrying one id are the same row.
proof fn lemma_tag_id_unique(tags: Seq<Tag>, i: int, j: int)
    requires
        forall|p: int, q: int|
            #![trigger tags[p], tags[q]]
            0 <= p < q < tags.len() ==> tags[p].id < tags[q].id,
        0 <= i < tags.len(),
        0 <= j < tags.len(),
        tags[i].id == tags[j].id,
    ensures
        i == j,
{
    if i < j {
        assert(tags[i].id < tags[j].id);
    }
    if j < i {
        assert(tags[j].id < tags[i].id);
    }
}

/// Task ids are unique under the store invariant's ordering.
proof fn lemma_task_id_unique(tasks: Seq<Task>, i: int, j: int)
    requires
        forall|p: int, q: int|
            #![trigger tasks[p], tasks[q]]
            0 <= p < q < tasks.len() ==> tasks[p].id < tasks[q].id,
        0 <= i < tasks.len(),
        0 <= j < tasks.len(),
        tasks[i].id == tasks[j].id,
    ensures
        i == j,
{
    if i < j {
        assert(tasks[i].id < tasks[j].id);
    }
    if j < i {
        assert(tasks[j].id < tasks[i].id);
    }
}

/// The elements of `s` selected by the boolean mask `keep`, in order.
pub open spec fn filter_by_mask<A>(s: Seq<A>, keep: Seq<bool>) -> Seq<A>
    recommends
        keep.len() == s.len(),
    decreases s.len(),
{
    if s.len() == 0 {
        Seq::empty()
    } else {
        let rest = filter_by_mask(s.drop_last(), keep.subrange(0, s.len() - 1));
        if keep[s.len() - 1] {
            rest.push(s.last())
        } else {
            rest
        }
    }
}

/// Two tag tables of one length with pointwise equal ids hold the same
/// ids.
proof fn lemma_same_ids_has_tag(tags1: Seq<Tag>, tags2: Seq<Tag>, id: TagId)
    requires
        tags1.len() == tags2.len(),
        forall|p: int| 0 <= p < tags1.len() ==> (#[trigger] tags1[p]).id == tags2[p].id,
        has_tag(tags1, id),
    ensures
        has_tag(tags2, id),
{
    let k = choose|k: int| 0 <= k < tags1.len() && #[trigger] tags1[k].id == id;
    assert(tags2[k].id == id);
}

/// Deleting a tag row and detaching its id from every task preserves the
/// store invariant.
proof fn lemma_delete_tag_wf(v: DbView, v2: DbView, id: TagId)
    requires
        v.wf(),
        has_tag(v.tags, id),
        v2.tags == v.tags.remove(tag_index(v.tags, id)),
        v2.tasks == v.tasks.map_values(|t: Task| detach_tag(t, id)),
        v2.next_tag_id == v.next_tag_id,
        v2.next_task_id == v.next_task_id,
    ensures
        v2.wf(),
{
    let i = tag_index(v.tags, id);
    assert(0 <= i < v.tags.len() && v.tags[i].id == id);
    v.tags.remove_ensures(i);
    assert forall|p: int| 0 <= p < v2.tasks.len() implies #[trigger] v2.tasks[p] == detach_tag(
        v.tasks[p],
        id,
    ) by {}
    assert forall|t: int|
        0 <= t < v2.tasks.len() && (#[trigger] v2.tasks[t]).tag is Some implies has_tag(
        v2.tags,
        v2.tasks[t].tag->0,
    ) by {
        let tid = v2.tasks[t].tag->0;
        assert(v.tasks[t].tag == Some(tid));
        assert(tid != id);
        assert(has_tag(v.tags, tid));
        let k = choose|k: int| 0 <= k < v.tags.len() && #[trigger] v.tags[k].id == tid;
        if k < i {
            assert(v2.tags[k].id == tid);
        } else {
            assert(v2.tags[k - 1].id == tid);
        }
    }
}

/// Replacing one task row with a row carrying the same id, the same
/// creation time order, and a valid tag reference preserves the store
/// invariant.
proof fn lemma_update_task_wf(v: DbView, v2: DbView, i: int)
    requires
        v.wf(),
        0 <= i < v.tasks.len(),
        v2.tags == v.tags,
        v2.next_tag_id == v.next_tag_id,
        v2.next_task_id == v.next_task_id,
        v2.tasks == v.tasks.update(i, v2.tasks[i]),
        v2.tasks[i].id == v.tasks[i].id,
        v2.tasks[i].create_time.0 <= v2.tasks[i].last_edit_time.0,
        v2.tasks[i].tag is Some ==> has_tag(v.tags, v2.tasks[i].tag->0),
    ensures
        v2.wf(),
{
    assert forall|p: int| 0 <= p < v2.tasks.len() implies (#[trigger] v2.tasks[p]).id
        == v.tasks[p].id by {}
    assert forall|p: int|
        0 <= p < v2.tasks.len() && p != i implies #[trigger] v2.tasks[p] == v.tasks[p] by {}
    assert forall|t: int|
        0 <= t < v2.tasks.len() && (#[trigger] v2.tasks[t]).tag is Some implies has_tag(
        v2.tags,
        v2.tasks[t].tag->0,
    ) by {
        if t != i {
            assert(v2.tasks[t] == v.tasks[t]);
        }
    }
}

/// Removing one task row preserves the store invariant.
proof fn lemma_remove_task_wf(v: DbView, v2: DbView, i: int)
    requires
        v.wf(),
        0 <= i < v.tasks.len(),
        v2.tags == v.tags,
        v2.next_tag_id == v.next_tag_id,
        v2.next_task_id == v.next_task_id,
        v2.tasks == v.tasks.remove(i),
    ensures
        v2.wf(),
{
    v.tasks.remove_ensures(i);
    assert forall|p: int, q: int|
        #![trigger v2.tasks[p], v2.tasks[q]]
        0 <= p < q < v2.tasks.len() implies v2.tasks[p].id < v2.tasks[q].id by {
        if p < i {
            assert(v2.tasks[p] == v.tasks[p]);
        } else {
            assert(v2.tasks[p] == v.tasks[p + 1]);
        }
        if q < i {
            assert(v2.tasks[q] == v.tasks[q]);
        } else {
            assert(v2.tasks[q] == v.tasks[q + 1]);
        }
    }
    assert forall|p: int| 0 <= p < v2.tasks.len() implies {
        &&& 1 <= (#[trigger] v2.tasks[p]).id < v2.next_task_id
        &&& v2.tasks[p].create_time.0 <= v2.tasks[p].last_edit_time.0
        &&& (v2.tasks[p].tag is Some ==> has_tag(v2.tags, v2.tasks[p].tag->0))
    } by {
        if p < i {
            assert(v2.tasks[p] == v.tasks[p]);
        } else {
            assert(v2.tasks[p] == v.tasks[p + 1]);
        }
    }
}

/// The position of the tag row carrying `id`, or `None` if there is none.
fn tag_position(tags: &Vec<Tag>, id: TagId) -> (r: Option<usize>)
    ensures
        match r {
            Some(i) => i < tags@.len() && tags@[i as int].id == id,
            None => !has_tag(tags@, id),
        },
{
    let n = tags.len();
    let mut i: usize = 0;
    while i < n
        invariant
            n == tags@.len(),
            i <= n,
            forall|k: int| 0 <= k < i ==> (#[trigger] tags@[k]).id != id,
        decreases n - i,
    {
        if tags[i].id == id {
            return Some(i);
        }
        i += 1;
    }
    None
}

/// The position of the task row carrying `id`, or `None` if there is none.
fn task_position(tasks: &Vec<Task>, id: TaskId) -> (r: Option<usize>)
    ensures
        match r {
            Some(i) => i < tasks@.len() && tasks@[i as int].id == id,
            None => !has_task(tasks@, id),
        },
{
    let n = tasks.len();
    let mut i: usize = 0;
    while i < n
        invariant
            n == tasks@.len(),
            i <= n,
            forall|k: int| 0 <= k < i ==> (#[trigger] tasks@[k]).id != id,
        decreases n - i,
    {
        if tasks[i].id == id {
            return Some(i);
        }
        i += 1;
    }
    None
}

/// The store: tags and tasks with server-assigned identity and timestamps,
/// and referentially consistent mutation.
pub struct Db {
    tags: Vec<Tag>,
    tasks: Vec<Task>,
    next_tag_id: TagId,
    next_task_id: TaskId,
}

impl View for Db {
    type V = DbView;

    closed spec fn view(&self) -> DbView {
        DbView {
            tags: self.tags@,
            tasks: self.tasks@,
            next_tag_id: self.next_tag_id as int,
            next_task_id: self.next_task_id as int,
        }
    }
}

impl Db {
    /// The store invariant; every operation requires and preserves it.
    pub open spec fn wf(&self) -> bool {
        self@.wf()
    }

    /// Creates an empty store. Ids start at 1, matching the row ids the
    /// backing table of a fresh database file would assign.
    pub fn new() -> (db: Db)
        ensures
            db.wf(),
            db@.tags == Seq::<Tag>::empty(),
            db@.tasks == Seq::<Task>::empty(),
            db@.next_tag_id == 1,
            db@.next_task_id == 1,
    {
        Db { tags: Vec::new(), tasks: Vec::new(), next_tag_id: 1, next_task_id: 1 }
    }

    /// Rebuilds a store from previously persisted rows and counters.
    /// Returns `None` exactly when the rows and counters do not satisfy
    /// the store invariant: ids out of order or out of range, a dangling
    /// tag reference, or a task edited before it was created.
    pub fn from_records(
        tags: Vec<Tag>,
        tasks: Vec<Task>,
        next_tag_id: TagId,
        next_task_id: TaskId,
    ) -> (r: Option<Db>)
        ensures
            ({
                let v = DbView {
                    tags: tags@,
                    tasks: tasks@,
                    next_tag_id: next_tag_id as int,
                    next_task_id: next_task_id as int,
                };
                match r {
                    Some(db) => v.wf() && db@ == v,
                    None => !v.wf(),
                }
            }),
    {
        let ghost v = DbView {
            tags: tags@,
            tasks: tasks@,
            next_tag_id: next_tag_id as int,
            next_task_id: next_task_id as int,
        };
        if next_tag_id < 1 || next_task_id < 1 {
            return None;
        }
        let n_tags = tags.len();
        let mut i: usize = 0;
        while i < n_tags
            invariant
                v == (DbView {
                    tags: tags@,
                    tasks: tasks@,
                    next_tag_id: next_tag_id as int,
                    next_task_id: next_task_id as int,
                }),
                n_tags == tags@.len(),
                i <= n_tags,
                forall|p: int, q: int|
                    #![trigger tags@[p], tags@[q]]
                    0 <= p < q < i ==> tags@[p].id < tags@[q].id,
                forall|p: int| 0 <= p < i ==> 1 <= (#[trigger] tags@[p]).id < next_tag_id,
            decreases n_tags - i,
        {
            if tags[i].id < 1 || tags[i].id >= next_tag_id {
                proof {
                    assert(!v.wf()) by {
                        if v.wf() {
                            assert(1 <= v.tags[i as int].id < v.next_tag_id);
                        }
                    }
                }
                return None;
            }
            if i > 0 && tags[i - 1].id >= tags[i].id {
                proof {
                    assert(!v.wf()) by {
                        if v.wf() {
                            assert(v.tags[i - 1].id < v.tags[i as int].id);
                        }
                    }
                }
                return None;
            }
            i += 1;
        }
        let n_tasks = tasks.len();
        let mut k: usize = 0;
        while k < n_tasks
            invariant
                v == (DbView {
                    tags: tags@,
                    tasks: tasks@,
                    next_tag_id: next_tag_id as int,
                    next_task_id: next_task_id as int,
                }),
                n_tasks == tasks@.len(),
                k <= n_tasks,
                forall|p: int, q: int|
                    #![trigger tasks@[p], tasks@[q]]
                    0 <= p < q < k ==> tasks@[p].id < tasks@[q].id,
                forall|p: int| 0 <= p < k ==> 1 <= (#[trigger] tasks@[p]).id < next_task_id,
                forall|p: int|
                    0 <= p < k ==> (#[trigger] tasks@[p]).create_time.0
                        <= tasks@[p].last_edit_time.0,
                forall|p: int|
                    0 <= p < k ==> ((#[trigger] tasks@[p]).tag is Some ==> has_tag(
                        tags@,
                        tasks@[p].tag->0,
                    )),
            decreases n_tasks - k,
        {
            if tasks[k].id < 1 || tasks[k].id >= next_task_id {
                return None;
            }
            if k > 0 && tasks[k - 1].id >= tasks[k].id {
                return None;
            }
            if tasks[k].create_time.0 > tasks[k].last_edit_time.0 {
                return None;
            }
            if let Some(tag_id) = tasks[k].tag {
                if tag_position(&tags, tag_id).is_none() {
                    return None;
                }
            }
            k += 1;
        }
        Some(Db { tags, tasks, next_tag_id, next_task_id })
    }

    /// Whether the store can still assign a new tag id without exhausting
    /// the id space.
    pub fn can_add_tag(&self) -> (r: bool)
        ensures
            r == (self@.next_tag_id < i64::MAX),
    {
        self.next_tag_id < i64::MAX
    }

    /// Whether the store can still assign a new task id without exhausting
    /// the id space.
    pub fn can_add_task(&self) -> (r: bool)
        ensures
            r == (self@.next_task_id < i64::MAX),
    {
        self.next_task_id < i64::MAX
    }

    /// All tags stored, in order of insertion.
    pub fn all_tags(&self) -> (r: Vec<Tag>)
        ensures
            r@ == self@.tags,
    {
        let n = self.tags.len();
        let mut r: Vec<Tag> = Vec::new();
        let mut i: usize = 0;
        while i < n
            invariant
                n == self.tags@.len(),
                i <= n,
                r@ == self.tags@.subrange(0, i as int),
            decreases n - i,
        {
            r.push(self.tags[i].clone());
            proof {
                assert(self.tags@.subrange(0, i + 1) =~= self.tags@.subrange(0, i as int).push(
                    self.tags@[i as int],
                ));
            }
            i += 1;
        }
        proof {
            assert(self.tags@.subrange(0, n as int) =~= self.tags@);
        }
        r
    }

    /// Adds a new tag, assigning the next id and stamping the creation
    /// time with the current clock. Returns the generated fields.
    pub fn add_new_tag(&mut self, data: &EditableTagData) -> (r: GeneratedTagData)
        requires
            old(self).wf(),
            old(self)@.next_tag_id < i64::MAX,
        ensures
            final(self).wf(),
            r.id == old(self)@.next_tag_id,
            final(self)@.tags == old(self)@.tags.push(Tag::spec_from_parts(*data, r)),
            final(self)@.tasks == old(self)@.tasks,
            final(self)@.next_tag_id == old(self)@.next_tag_id + 1,
            final(self)@.next_task_id == old(self)@.next_task_id,
    {
        let create_time = now();
        let generated = GeneratedTagData { id: self.next_tag_id, create_time };
        let tag = Tag::from_parts(data, &generated);
        self.tags.push(tag);
        self.next_tag_id = self.next_tag_id + 1;
        proof {
            assert forall|i: int|
                0 <= i < self.tasks@.len() && (#[trigger] self.tasks@[i]).tag is Some implies has_tag(
                self.tags@,
                self.tasks@[i].tag->0,
            ) by {
                let tid = self.tasks@[i].tag->0;
                assert(has_tag(old(self)@.tags, tid));
                let k = choose|k: int|
                    0 <= k < old(self)@.tags.len() && #[trigger] old(self)@.tags[k].id == tid;
                assert(self.tags@[k].id == tid);
            }
        }
        generated
    }

    /// Replaces all editable fields of the tag carrying `id`; the id and
    /// creation time are kept.
    ///
    /// # Failure
    /// Returns `DbError::TagDoesNotExistError` if no tag carries `id`; the
    /// store is then unchanged.
    pub fn modify_tag(&mut self, id: TagId, modify: &EditableTagData) -> (r: Result<(), DbError>)
        requires
            old(self).wf(),
        ensures
            final(self).wf(),
            final(self)@.tasks == old(self)@.tasks,
            final(self)@.next_tag_id == old(self)@.next_tag_id,
            final(self)@.next_task_id == old(self)@.next_task_id,
            has_tag(old(self)@.tags, id) ==> {
                &&& r == Ok::<(), DbError>(())
                &&& final(self)@.tags == old(self)@.tags.update(
                    tag_index(old(self)@.tags, id),
                    (Tag {
                        id: id,
                        name: modify.name,
                        color: modify.color,
                        active: modify.active,
                        create_time: tag_with_id(old(self)@.tags, id).create_time,
                    }),
                )
            },
            !has_tag(old(self)@.tags, id) ==> {
                &&& r == Err::<(), DbError>(DbError::TagDoesNotExistError { id })
                &&& final(self)@ == old(self)@
            },
    {
        match tag_position(&self.tags, id) {
            Some(i) => {
                let create_time = self.tags[i].create_time;
                let new_tag = Tag {
                    id,
                    name: modify.name.clone(),
                    color: modify.color,
                    active: modify.active,
                    create_time,
                };
                self.tags.set(i, new_tag);
                proof {
                    lemma_tag_id_unique(old(self)@.tags, i as int, tag_index(old(self)@.tags, id));
                    assert forall|p: int| 0 <= p < old(self)@.tags.len() implies (
                    #[trigger] old(self)@.tags[p]).id == self.tags@[p].id by {}
                    assert forall|t: int|
                        0 <= t < self.tasks@.len() && (#[trigger] self.tasks@[t]).tag
                            is Some implies has_tag(self.tags@, self.tasks@[t].tag->0) by {
                        lemma_same_ids_has_tag(old(self)@.tags, self.tags@, self.tasks@[t].tag->0);
                    }
                }
                Ok(())
            },
            None => Err(DbError::TagDoesNotExistError { id }),
        }
    }

    /// Deletes the tag carrying `id` and, in the same step, removes every
    /// task's association with it: the tasks keep existing and keep all
    /// their other fields, they just lose their tag.
    ///
    /// # Failure
    /// Returns `DbError::TagDoesNotExistError` if no tag carries `id`; the
    /// store is then unchanged.
    pub fn delete_tag(&mut self, id: TagId) -> (r: Result<(), DbError>)
        requires
            old(self).wf(),
        ensures
            final(self).wf(),
            final(self)@.next_tag_id == old(self)@.next_tag_id,
            final(self)@.next_task_id == old(self)@.next_task_id,
            has_tag(old(self)@.tags, id) ==> {
                &&& r == Ok::<(), DbError>(())
                &&& final(self)@.tags == old(self)@.tags.remove(tag_index(old(self)@.tags, id))
                &&& final(self)@.tasks == old(self)@.tasks.map_values(
                    |t: Task| detach_tag(t, id),
                )
            },
            !has_tag(old(self)@.tags, id) ==> {
                &&& r == Err::<(), DbError>(DbError::TagDoesNotExistError { id })
                &&& final(self)@ == old(self)@
            },
    {
        match tag_position(&self.tags, id) {
            Some(i) => {
                proof {
                    lemma_tag_id_unique(old(self)@.tags, i as int, tag_index(old(self)@.tags, id));
                    old(self)@.tags.remove_ensures(i as int);
                }
                self.tags.remove(i);
                let n = self.tasks.len();
                let mut k: usize = 0;
                while k < n
                    invariant
                        old(self).wf(),
                        n == self.tasks@.len(),
                        self.tasks@.len() == old(self)@.tasks.len(),
                        k <= n,
                        self.tags@ == old(self)@.tags.remove(tag_index(old(self)@.tags, id)),
                        self.next_tag_id == old(self).next_tag_id,
                        self.next_task_id == old(self).next_task_id,
                        forall|j: int|
                            0 <= j < k ==> #[trigger] self.tasks@[j] == detach_tag(
                                old(self)@.tasks[j],
                                id,
                            ),
                        forall|j: int| k <= j < n ==> #[trigger] self.tasks@[j] == old(self)@.tasks[j],
                    decreases n - k,
                {
                    let tagged = match self.tasks[k].tag {
                        Some(tag_id) => tag_id == id,
                        None => false,
                    };
                    if tagged {
                        let mut t = self.tasks[k].clone();
                        t.tag = None;
                        self.tasks.set(k, t);
                    }
                    k += 1;
                }
                proof {
                    assert(self.tasks@ =~= old(self)@.tasks.map_values(
                        |t: Task| detach_tag(t, id),
                    ));
                    lemma_delete_tag_wf(old(self)@, self@, id);
                }
                Ok(())
            },
            None => Err(DbError::TagDoesNotExistError { id }),
        }
    }

    /// Applies a filter function to the tags in this store, returning the
    /// tags that pass it, in order. The mask in the contract records one
    /// answer of the predicate per tag; when the predicate's contract pins
    /// its answers down, so is the result.
    pub fn filter_tags<P: Fn(&Tag) -> bool>(&self, predicate: P) -> (r: Vec<Tag>)
        requires
            forall|j: int|
                0 <= j < self@.tags.len() ==> call_requires(predicate, (&self@.tags[j],)),
        ensures
            exists|keep: Seq<bool>|
                {
                    &&& keep.len() == self@.tags.len()
                    &&& (forall|j: int|
                        0 <= j < keep.len() ==> call_ensures(
                            predicate,
                            (&self@.tags[j],),
                            keep[j],
                        ))
                    &&& r@ == #[trigger] filter_by_mask(self@.tags, keep)
                },
    {
        let n = self.tags.len();
        let mut r: Vec<Tag> = Vec::new();
        let ghost mut keep: Seq<bool> = Seq::empty();
        let mut i: usize = 0;
        while i < n
            invariant
                n == self.tags@.len(),
                i <= n,
                forall|j: int|
                    0 <= j < self@.tags.len() ==> call_requires(predicate, (&self@.tags[j],)),
                keep.len() == i,
                forall|j: int|
                    0 <= j < i ==> call_ensures(predicate, (&self@.tags[j],), #[trigger] keep[j]),
                r@ == filter_by_mask(self.tags@.subrange(0, i as int), keep),
            decreases n - i,
        {
            let passed = predicate(&self.tags[i]);
            if passed {
                r.push(self.tags[i].clone());
            }
            proof {
                let prev = self.tags@.subrange(0, i as int);
                let next = self.tags@.subrange(0, i + 1);
                assert(next.drop_last() =~= prev);
                assert(keep.push(passed).subrange(0, i as int) =~= keep);
                keep = keep.push(passed);
            }
            i += 1;
        }
        proof {
            assert(self.tags@.subrange(0, n as int) =~= self.tags@);
        }
        r
    }

    /// All tasks stored, in order of insertion.
    pub fn all_tasks(&self) -> (r: Vec<Task>)
        ensures
            r@ == self@.tasks,
    {
        let n = self.tasks.len();
        let mut r: Vec<Task> = Vec::new();
        let mut i: usize = 0;
        while i < n
            invariant
                n == self.tasks@.len(),
                i <= n,
                r@ == self.tasks@.subrange(0, i as int),
            decreases n - i,
        {
            r.push(self.tasks[i].clone());
            proof {
                assert(self.tasks@.subrange(0, i + 1) =~= self.tasks@.subrange(0, i as int).push(
                    self.tasks@[i as int],
                ));
            }
            i += 1;
        }
        proof {
            assert(self.tasks@.subrange(0, n as int) =~= self.tasks@);
        }
        r
    }

    /// Adds a new task, assigning the next id, stamping creation and last
    /// edit with one clock reading, and starting unfinished. If the data
    /// references a tag, that tag must exist at this moment.
    ///
    /// # Failure
    /// Returns `DbError::TagDoesNotExistError` if the data references a
    /// tag no row carries; the store is then unchanged.
    pub fn add_new_task(&mut self, data: &EditableTaskData) -> (r: Result<
        GeneratedTaskData,
        DbError,
    >)
        requires
            old(self).wf(),
            old(self)@.next_task_id < i64::MAX,
        ensures
            final(self).wf(),
            final(self)@.tags == old(self)@.tags,
            final(self)@.next_tag_id == old(self)@.next_tag_id,
            (data.tag is Some && !has_tag(old(self)@.tags, data.tag->0)) ==> {
                &&& r == Err::<GeneratedTaskData, DbError>(
                    DbError::TagDoesNotExistError { id: data.tag->0 },
                )
                &&& final(self)@ == old(self)@
            },
            (data.tag is None || has_tag(old(self)@.tags, data.tag->0)) ==> {
                &&& r is Ok
                &&& (r->Ok_0).id == old(self)@.next_task_id
                &&& (r->Ok_0).done_time is None
                &&& (r->Ok_0).last_edit_time == (r->Ok_0).create_time
                &&& final(self)@.tasks == old(self)@.tasks.push(
                    Task::spec_from_parts(*data, r->Ok_0),
                )
                &&& final(self)@.next_task_id == old(self)@.next_task_id + 1
            },
    {
        if let Some(tag_id) = data.tag {
            if tag_position(&self.tags, tag_id).is_none() {
                return Err(DbError::TagDoesNotExistError { id: tag_id });
            }
        }
        let create_time = now();
        let generated = GeneratedTaskData {
            id: self.next_task_id,
            create_time,
            last_edit_time: create_time,
            done_time: None,
        };
        let task = Task::from_parts(data, &generated);
        self.tasks.push(task);
        self.next_task_id = self.next_task_id + 1;
        proof {
            assert forall|t: int|
                0 <= t < self.tasks@.len() && (#[trigger] self.tasks@[t]).tag is Some implies has_tag(
                self.tags@,
                self.tasks@[t].tag->0,
            ) by {
                if t < self.tasks@.len() - 1 {
                    assert(self.tasks@[t] == old(self)@.tasks[t]);
                }
            }
        }
        Ok(generated)
    }

    /// The task with this id, or `None` if no task carries it.
    pub fn task_by_id(&self, id: TaskId) -> (r: Option<Task>)
        requires
            self.wf(),
        ensures
            has_task(self@.tasks, id) ==> r == Some(task_with_id(self@.tasks, id)),
            !has_task(self@.tasks, id) ==> r is None,
    {
        match task_position(&self.tasks, id) {
            Some(i) => {
                proof {
                    lemma_task_id_unique(self@.tasks, i as int, task_index(self@.tasks, id));
                }
                Some(self.tasks[i].clone())
            },
            None => None,
        }
    }

    /// Replaces all editable fields of the task carrying `id` and restamps
    /// its last edit time; the id, creation time and completion state are
    /// kept. If the new data references a tag, that tag must exist at this
    /// moment; the association is recomputed in full, not diffed.
    ///
    /// # Failure
    /// Returns `DbError::TagDoesNotExistError` if the data references a
    /// tag no row carries, and otherwise `DbError::TaskDoesNotExistError`
    /// if no task carries `id`; either way the store is unchanged.
    pub fn modify_task(&mut self, id: TaskId, data: &EditableTaskData) -> (r: Result<
        ModifiedTaskData,
        DbError,
    >)
        requires
            old(self).wf(),
        ensures
            final(self).wf(),
            final(self)@.tags == old(self)@.tags,
            final(self)@.next_tag_id == old(self)@.next_tag_id,
            final(self)@.next_task_id == old(self)@.next_task_id,
            (data.tag is Some && !has_tag(old(self)@.tags, data.tag->0)) ==> {
                &&& r == Err::<ModifiedTaskData, DbError>(
                    DbError::TagDoesNotExistError { id: data.tag->0 },
                )
                &&& final(self)@ == old(self)@
            },
            ((data.tag is None || has_tag(old(self)@.tags, data.tag->0)) && !has_task(
                old(self)@.tasks,
                id,
            )) ==> {
                &&& r == Err::<ModifiedTaskData, DbError>(DbError::TaskDoesNotExistError { id })
                &&& final(self)@ == old(self)@
            },
            ((data.tag is None || has_tag(old(self)@.tags, data.tag->0)) && has_task(
                old(self)@.tasks,
                id,
            )) ==> {
                &&& r is Ok
                &&& (r->Ok_0).last_edit_time.0 >= task_with_id(
                    old(self)@.tasks,
                    id,
                ).create_time.0
                &&& final(self)@.tasks == old(self)@.tasks.update(
                    task_index(old(self)@.tasks, id),
                    apply_edit(
                        task_with_id(old(self)@.tasks, id),
                        *data,
                        (r->Ok_0).last_edit_time,
                    ),
                )
            },
    {
        if let Some(tag_id) = data.tag {
            if tag_position(&self.tags, tag_id).is_none() {
                return Err(DbError::TagDoesNotExistError { id: tag_id });
            }
        }
        match task_position(&self.tasks, id) {
            Some(i) => {
                proof {
                    lemma_task_id_unique(
                        old(self)@.tasks,
                        i as int,
                        task_index(old(self)@.tasks, id),
                    );
                }
                let create_time = self.tasks[i].create_time;
                let done_time = self.tasks[i].done_time;
                let stamp = now();
                let last_edit_time = if stamp.0 >= create_time.0 {
                    stamp
                } else {
                    create_time
                };
                let new_task = Task {
                    id,
                    title: data.title.clone(),
                    tag: data.tag,
                    body: data.body.clone(),
                    difficulty: data.difficulty,
                    create_time,
                    last_edit_time,
                    due_time: data.due_time,
                    target_time: data.target_time,
                    done_time,
                    paused: data.paused,
                };
                self.tasks.set(i, new_task);
                proof {
                    lemma_update_task_wf(old(self)@, self@, i as int);
                }
                Ok(ModifiedTaskData { last_edit_time })
            },
            None => Err(DbError::TaskDoesNotExistError { id }),
        }
    }

    /// Deletes the task carrying `id`, together with any tag association
    /// it holds.
    ///
    /// # Failure
    /// Returns `DbError::TaskDoesNotExistError` if no task carries `id`;
    /// the store is then unchanged.
    pub fn delete_task(&mut self, id: TaskId) -> (r: Result<(), DbError>)
        requires
            old(self).wf(),
        ensures
            final(self).wf(),
            final(self)@.tags == old(self)@.tags,
            final(self)@.next_tag_id == old(self)@.next_tag_id,
            final(self)@.next_task_id == old(self)@.next_task_id,
            has_task(old(self)@.tasks, id) ==> {
                &&& r == Ok::<(), DbError>(())
                &&& final(self)@.tasks == old(self)@.tasks.remove(
                    task_index(old(self)@.tasks, id),
                )
            },
            !has_task(old(self)@.tasks, id) ==> {
                &&& r == Err::<(), DbError>(DbError::TaskDoesNotExistError { id })
                &&& final(self)@ == old(self)@
            },
    {
        match task_position(&self.tasks, id) {
            Some(i) => {
                proof {
                    lemma_task_id_unique(
                        old(self)@.tasks,
                        i as int,
                        task_index(old(self)@.tasks, id),
                    );
                    old(self)@.tasks.remove_ensures(i as int);
                }
                self.tasks.remove(i);
                proof {
                    lemma_remove_task_wf(old(self)@, self@, i as int);
                }
                Ok(())
            },
            None => Err(DbError::TaskDoesNotExistError { id }),
        }
    }

    /// Marks the task carrying `id` as done, stamping its done time with
    /// the current clock; no other field changes. Returns the new done
    /// time.
    ///
    /// # Failure
    /// Returns `DbError::TaskDoesNotExistError` if no task carries `id`,
    /// and `DbError::TaskStatusError` if the task is already finished;
    /// either way the store is unchanged.
    pub fn finish_task(&mut self, id: TaskId) -> (r: Result<FinishedTaskData, DbError>)
        requires
            old(self).wf(),
        ensures
            final(self).wf(),
            final(self)@.tags == old(self)@.tags,
            final(self)@.next_tag_id == old(self)@.next_tag_id,
            final(self)@.next_task_id == old(self)@.next_task_id,
            !has_task(old(self)@.tasks, id) ==> {
                &&& r == Err::<FinishedTaskData, DbError>(DbError::TaskDoesNotExistError { id })
                &&& final(self)@ == old(self)@
            },
            (has_task(old(self)@.tasks, id) && task_with_id(old(self)@.tasks, id).done_time
                is Some) ==> {
                &&& r == Err::<FinishedTaskData, DbError>(
                    DbError::TaskStatusError { id, actual_status: true },
                )
                &&& final(self)@ == old(self)@
            },
            (has_task(old(self)@.tasks, id) && task_with_id(old(self)@.tasks, id).done_time
                is None) ==> {
                &&& r is Ok
                &&& (r->Ok_0).done_time is Some
                &&& final(self)@.tasks == old(self)@.tasks.update(
                    task_index(old(self)@.tasks, id),
                    (Task { done_time: (r->Ok_0).done_time, ..task_with_id(old(self)@.tasks, id) }),
                )
            },
    {
        match task_position(&self.tasks, id) {
            Some(i) => {
                proof {
                    lemma_task_id_unique(
                        old(self)@.tasks,
                        i as int,
                        task_index(old(self)@.tasks, id),
                    );
                }
                if self.tasks[i].done_time.is_some() {
                    return Err(DbError::TaskStatusError { id, actual_status: true });
                }
                let done_time = Some(now());
                let mut task = self.tasks[i].clone();
                task.done_time = done_time;
                self.tasks.set(i, task);
                proof {
                    lemma_update_task_wf(old(self)@, self@, i as int);
                }
                Ok(FinishedTaskData { done_time })
            },
            None => Err(DbError::TaskDoesNotExistError { id }),
        }
    }

    /// Marks the task carrying `id` as not done, clearing its done time;
    /// no other field changes.
    ///
    /// # Failure
    /// Returns `DbError::TaskDoesNotExistError` if no task carries `id`,
    /// and `DbError::TaskStatusError` if the task is already not finished;
    /// either way the store is unchanged.
    pub fn unfinish_task(&mut self, id: TaskId) -> (r: Result<FinishedTaskData, DbError>)
        requires
            old(self).wf(),
        ensures
            final(self).wf(),
            final(self)@.tags == old(self)@.tags,
            final(self)@.next_tag_id == old(self)@.next_tag_id,
            final(self)@.next_task_id == old(self)@.next_task_id,
            !has_task(old(self)@.tasks, id) ==> {
                &&& r == Err::<FinishedTaskData, DbError>(DbError::TaskDoesNotExistError { id })
                &&& final(self)@ == old(self)@
            },
            (has_task(old(self)@.tasks, id) && task_with_id(old(self)@.tasks, id).done_time
                is None) ==> {
                &&& r == Err::<FinishedTaskData, DbError>(
                    DbError::TaskStatusError { id, actual_status: false },
                )
                &&& final(self)@ == old(self)@
            },
            (has_task(old(self)@.tasks, id) && task_with_id(old(self)@.tasks, id).done_time
                is Some) ==> {
                &&& r == Ok::<FinishedTaskData, DbError>(FinishedTaskData { done_time: None })
                &&& final(self)@.tasks == old(self)@.tasks.update(
                    task_index(old(self)@.tasks, id),
                    (Task { done_time: None, ..task_with_id(old(self)@.tasks, id) }),
                )
            },
    {
        match task_position(&self.tasks, id) {
            Some(i) => {
                proof {
                    lemma_task_id_unique(
                        old(self)@.tasks,
                        i as int,
                        task_index(old(self)@.tasks, id),
                    );
                }
                if self.tasks[i].done_time.is_none() {
                    return Err(DbError::TaskStatusError { id, actual_status: false });
                }
                let mut task = self.tasks[i].clone();
                task.done_time = None;
                self.tasks.set(i, task);
                proof {
                    lemma_update_task_wf(old(self)@, self@, i as int);
                }
                Ok(FinishedTaskData { done_time: None })
            },
            None => Err(DbError::TaskDoesNotExistError { id }),
        }
    }

    /// Applies a filter function to the tasks in this store, returning the
    /// tasks that pass it, in order. The mask in the contract records one
    /// answer of the predicate per task; when the predicate's contract pins
    /// its answers down, so is the result.
    pub fn filter_tasks<P: Fn(&Task) -> bool>(&self, predicate: P) -> (r: Vec<Task>)
        requires
            forall|j: int|
                0 <= j < self@.tasks.len() ==> call_requires(predicate, (&self@.tasks[j],)),
        ensures
            exists|keep: Seq<bool>|
                {
                    &&& keep.len() == self@.tasks.len()
                    &&& (forall|j: int|
                        0 <= j < keep.len() ==> call_ensures(
                            predicate,
                            (&self@.tasks[j],),
                            keep[j],
                        ))
                    &&& r@ == #[trigger] filter_by_mask(self@.tasks, keep)
                },
    {
        let n = self.tasks.len();
        let mut r: Vec<Task> = Vec::new();
        let ghost mut keep: Seq<bool> = Seq::empty();
        let mut i: usize = 0;
        while i < n
            invariant
                n == self.tasks@.len(),
                i <= n,
                forall|j: int|
                    0 <= j < self@.tasks.len() ==> call_requires(predicate, (&self@.tasks[j],)),
                keep.len() == i,
                forall|j: int|
                    0 <= j < i ==> call_ensures(predicate, (&self@.tasks[j],), #[trigger] keep[j]),
                r@ == filter_by_mask(self.tasks@.subrange(0, i as int), keep),
            decreases n - i,
        {
            let passed = predicate(&self.tasks[i]);
            if passed {
                r.push(self.tasks[i].clone());
            }
            proof {
                let prev = self.tasks@.subrange(0, i as int);
                let next = self.tasks@.subrange(0, i + 1);
                assert(next.drop_last() =~= prev);
                assert(keep.push(passed).subrange(0, i as int) =~= keep);
                keep = keep.push(passed);
            }
            i += 1;
        }
        proof {
            assert(self.tasks@.subrange(0, n as int) =~= self.tasks@);
        }
        r
    }

    /// Applies a composite per-field filter to the tasks in this store,
    /// returning exactly the tasks that pass every present slot, in order.
    pub fn filter_tasks_with_options(&self, options: &TaskFilterOptions) -> (r: Vec<Task>)
        ensures
            r@ == self@.tasks.filter(|t: Task| options.spec_passes(t)),
    {
        let n = self.tasks.len();
        let mut r: Vec<Task> = Vec::new();
        proof {
            reveal(Seq::filter);
            assert(self.tasks@.subrange(0, 0).filter(|t: Task| options.spec_passes(t))
                =~= Seq::<Task>::empty());
        }
        let mut i: usize = 0;
        while i < n
            invariant
                n == self.tasks@.len(),
                i <= n,
                r@ == self.tasks@.subrange(0, i as int).filter(
                    |t: Task| options.spec_passes(t),
                ),
            decreases n - i,
        {
            let passed = options.passes(&self.tasks[i]);
            if passed {
                r.push(self.tasks[i].clone());
            }
            proof {
                reveal(Seq::filter);
                let prev = self.tasks@.subrange(0, i as int);
                let next = self.tasks@.subrange(0, i + 1);
                assert(next.drop_last() =~= prev);
                assert(next.last() == self.tasks@[i as int]);
                assert(passed == options.spec_passes(next.last()));
                if passed {
                    assert(next.filter(|t: Task| options.spec_passes(t)) == prev.filter(
                        |t: Task| options.spec_passes(t),
                    ).push(next.last()));
                } else {
                    assert(next.filter(|t: Task| options.spec_passes(t)) == prev.filter(
                        |t: Task| options.spec_passes(t),
                    ));
                }
            }
            i += 1;
        }
        proof {
            assert(self.tasks@.subrange(0, n as int) =~= self.tasks@);
        }
        r
    }

    /// The tag with this id, or `None` if no tag carries it.
    pub fn tag_by_id(&self, id: TagId) -> (r: Option<Tag>)
        requires
            self.wf(),
        ensures
            has_tag(self@.tags, id) ==> r == Some(tag_with_id(self@.tags, id)),
            !has_tag(self@.tags, id) ==> r is None,
    {
        match tag_position(&self.tags, id) {
            Some(i) => {
                proof {
                    lemma_tag_id_unique(self@.tags, i as int, tag_index(self@.tags, id));
                }
                Some(self.tags[i].clone())
            },
            None => None,
        }
    }
}

/// Id monotonicity: in any well-formed store the rows sit in strictly
/// increasing id order — which is creation order, since every create
/// appends — and the next id to assign is strictly greater than every id
/// present. With the creation contracts (a create returns the store's
/// next id and increments it), any sequence of creates yields unique,
/// strictly increasing ids, and no delete frees an id for reuse.
pub proof fn lemma_id_monotonicity(v: DbView)
    requires
        v.wf(),
    ensures
        forall|i: int, j: int|
            #![trigger v.tags[i], v.tags[j]]
            0 <= i < j < v.tags.len() ==> v.tags[i].id < v.tags[j].id,
        forall|i: int| 0 <= i < v.tags.len() ==> (#[trigger] v.tags[i]).id < v.next_tag_id,
        forall|i: int, j: int|
            #![trigger v.tasks[i], v.tasks[j]]
            0 <= i < j < v.tasks.len() ==> v.tasks[i].id < v.tasks[j].id,
        forall|i: int| 0 <= i < v.tasks.len() ==> (#[trigger] v.tasks[i]).id < v.next_task_id,
{
}

/// Round-trip: after a create appends the tag built from `data` and the
/// returned generated fields, looking the returned id up finds exactly
/// that tag — its editable fields equal `data`, its generated fields
/// equal what the create returned.
pub proof fn lemma_tag_round_trip(v: DbView, data: EditableTagData, generated: GeneratedTagData)
    requires
        v.wf(),
        generated.id == v.next_tag_id,
    ensures
        ({
            let tags2 = v.tags.push(Tag::spec_from_parts(data, generated));
            &&& has_tag(tags2, generated.id)
            &&& tag_with_id(tags2, generated.id) == Tag::spec_from_parts(data, generated)
            &&& tag_with_id(tags2, generated.id).name == data.name
            &&& tag_with_id(tags2, generated.id).color == data.color
            &&& tag_with_id(tags2, generated.id).active == data.active
            &&& tag_with_id(tags2, generated.id).create_time == generated.create_time
        }),
{
    let tags2 = v.tags.push(Tag::spec_from_parts(data, generated));
    assert(tags2[v.tags.len() as int].id == generated.id);
    assert(has_tag(tags2, generated.id));
    let k = tag_index(tags2, generated.id);
    assert(0 <= k < tags2.len() && tags2[k].id == generated.id);
    if k < v.tags.len() {
        assert(tags2[k] == v.tags[k]);
        assert(false);
    }
}

/// Cascade on delete: detaching a tag id from the task table — what
/// `delete_tag` does to tasks — keeps every task in place, turns the tag
/// of each task that referenced the deleted tag into `None`, and leaves
/// every other field of every task untouched.
pub proof fn lemma_cascade_on_delete(v: DbView, tag_id: TagId, i: int)
    requires
        v.wf(),
        0 <= i < v.tasks.len(),
    ensures
        ({
            let tasks2 = v.tasks.map_values(|t: Task| detach_tag(t, tag_id));
            &&& tasks2.len() == v.tasks.len()
            &&& has_task(tasks2, v.tasks[i].id)
            &&& (v.tasks[i].tag == Some(tag_id) ==> tasks2[i].tag is None)
            &&& (v.tasks[i].tag != Some(tag_id) ==> tasks2[i].tag == v.tasks[i].tag)
            &&& tasks2[i].id == v.tasks[i].id
            &&& tasks2[i].title == v.tasks[i].title
            &&& tasks2[i].body == v.tasks[i].body
            &&& tasks2[i].difficulty == v.tasks[i].difficulty
            &&& tasks2[i].create_time == v.tasks[i].create_time
            &&& tasks2[i].last_edit_time == v.tasks[i].last_edit_time
            &&& tasks2[i].due_time == v.tasks[i].due_time
            &&& tasks2[i].target_time == v.tasks[i].target_time
            &&& tasks2[i].done_time == v.tasks[i].done_time
            &&& tasks2[i].paused == v.tasks[i].paused
        }),
{
    let tasks2 = v.tasks.map_values(|t: Task| detach_tag(t, tag_id));
    assert(tasks2[i] == detach_tag(v.tasks[i], tag_id));
    assert(tasks2[i].id == v.tasks[i].id);
    assert(has_task(tasks2, v.tasks[i].id));
}

/// Everything a filtered sequence holds comes from the sequence it was
/// filtered from.
proof fn lemma_filter_subset<A>(s: Seq<A>, pred: spec_fn(A) -> bool, x: A)
    requires
        s.filter(pred).contains(x),
    ensures
        s.contains(x),
    decreases s.len(),
{
    reveal(Seq::filter);
    if s.len() > 0 {
        let sub = s.drop_last().filter(pred);
        if pred(s.last()) {
            let j = choose|j: int| 0 <= j < s.filter(pred).len() && s.filter(pred)[j] == x;
            if j == s.filter(pred).len() - 1 {
                assert(s[s.len() - 1] == x);
            } else {
                assert(sub.contains(x));
                lemma_filter_subset(s.drop_last(), pred, x);
                let m = choose|m: int| 0 <= m < s.drop_last().len() && s.drop_last()[m] == x;
                assert(s[m] == x);
            }
        } else {
            assert(sub.contains(x));
            lemma_filter_subset(s.drop_last(), pred, x);
            let m = choose|m: int| 0 <= m < s.drop_last().len() && s.drop_last()[m] == x;
            assert(s[m] == x);
        }
    }
}

/// Filter composition: a task appears in the composite-filtered listing
/// iff it is in the store and passes every present per-field filter. The
/// composite is a plain conjunction of the present slots, so the outcome
/// does not depend on any order of declaration.
pub proof fn lemma_filter_composition(tasks: Seq<Task>, options: TaskFilterOptions, t: Task)
    ensures
        tasks.filter(|x: Task| options.spec_passes(x)).contains(t) <==> tasks.contains(t)
            && options.spec_passes(t),
{
    let pred = |x: Task| options.spec_passes(x);
    if tasks.filter(pred).contains(t) {
        lemma_filter_subset(tasks, pred, t);
        let j = choose|j: int| 0 <= j < tasks.filter(pred).len() && tasks.filter(pred)[j] == t;
        tasks.lemma_filter_pred(pred, j);
    }
    if tasks.contains(t) && options.spec_passes(t) {
        let i = choose|i: int| 0 <= i < tasks.len() && tasks[i] == t;
        tasks.lemma_filter_contains(pred, i);
    }
}

} // verus!
