use chrono::{TimeZone, Utc};
use task_store::DbError::TagDoesNotExistError;
use task_store::{
    Db, EditableTagData, EditableTaskData, HslColor, MyDateTime, Tag, Task,
};

fn sample_tag_data() -> Vec<EditableTagData> {
    vec![
        EditableTagData {
            name: String::from("new_tag"),
            color: HslColor { hue: 50, saturation: 89, lightness: 73 },
            active: true,
        },
        EditableTagData {
            name: String::from("whee!"),
            color: HslColor { hue: 360, saturation: 100, lightness: 0 },
            active: false,
        },
    ]
}

fn sample_task_data() -> Vec<EditableTaskData> {
    vec![
        EditableTaskData {
            title: String::from("Blueberries"),
            tag: Some(1),
            body: String::from("A type of berry"),
            difficulty: 3,
            due_time: Some(MyDateTime(
                Utc.with_ymd_and_hms(2023, 9, 1, 0, 0, 0).unwrap().timestamp(),
            )),
            target_time: Some(MyDateTime(
                Utc.with_ymd_and_hms(2023, 8, 1, 0, 0, 0).unwrap().timestamp(),
            )),
            paused: false,
        },
        EditableTaskData {
            title: String::from("Apples"),
            tag: None,
            body: String::from("Not a berry"),
            difficulty: 0,
            due_time: None,
            target_time: None,
            paused: false,
        },
    ]
}

#[test]
fn db_tag_empty() {
    let db = Db::new();
    assert_eq!(db.all_tags(), Vec::<Tag>::new());
}

#[test]
fn db_tag_add_new() {
    let mut db = Db::new();
    let result0 = db.add_new_tag(&sample_tag_data()[0]);
    // note: the first id is 1, not 0
    assert_eq!(result0.id, 1);
    // generated timestamp is within 1 second of now
    assert!(result0.create_time.0.abs_diff(Utc::now().timestamp()) < 2);

    let result1 = db.add_new_tag(&sample_tag_data()[1]);
    assert_eq!(result1.id, 2);
    assert!(result1.create_time.0.abs_diff(Utc::now().timestamp()) < 2);

    let mut all_tags = db.all_tags();
    // sort just in case order isn't consistent
    all_tags.sort_by_key(|tag| tag.id);

    assert_eq!(
        db.all_tags(),
        vec![
            Tag::from_parts(&sample_tag_data()[0], &result0),
            Tag::from_parts(&sample_tag_data()[1], &result1),
        ]
    );
}

#[test]
fn db_tag_get_by_id_success() {
    let mut db = Db::new();
    db.add_new_tag(&sample_tag_data()[0]);
    let result1 = db.add_new_tag(&sample_tag_data()[1]);
    assert_eq!(
        db.tag_by_id(result1.id),
        Some(Tag::from_parts(&sample_tag_data()[1], &result1)),
    );
}

#[test]
fn db_tag_get_by_id_failure() {
    let mut db = Db::new();
    db.add_new_tag(&sample_tag_data()[0]);
    db.add_new_tag(&sample_tag_data()[1]);
    assert_eq!(db.tag_by_id(0), None);
}

#[test]
fn db_modify_tag_success() {
    let mut db = Db::new();
    let result0 = db.add_new_tag(&sample_tag_data()[0]);
    db.modify_tag(result0.id, &sample_tag_data()[1])
        .expect("Modify tag should not fail");
    assert_eq!(
        db.tag_by_id(result0.id).unwrap(),
        Tag::from_parts(&sample_tag_data()[1], &result0)
    );
}

#[test]
fn db_modify_tag_failure() {
    let mut db = Db::new();
    db.add_new_tag(&sample_tag_data()[0]);
    db.add_new_tag(&sample_tag_data()[1]);
    assert_eq!(
        db.modify_tag(0, &sample_tag_data()[1]),
        Err(TagDoesNotExistError { id: 0 })
    );
}

#[test]
fn db_delete_tag_success() {
    let mut db = Db::new();
    let result0 = db.add_new_tag(&sample_tag_data()[0]);
    let result1 = db.add_new_tag(&sample_tag_data()[1]);
    db.delete_tag(result0.id).expect("Delete tag should not fail");
    assert_eq!(
        db.all_tags(),
        vec![Tag::from_parts(&sample_tag_data()[1], &result1)]
    );
}

#[test]
fn db_delete_tag_success_remove_from_task() {
    let mut db = Db::new();
    let tag_result0 = db.add_new_tag(&sample_tag_data()[0]);
    let mut task_data0 = sample_task_data()[0].clone();
    task_data0.tag = Some(tag_result0.id);
    let task_data = db.add_new_task(&task_data0).unwrap();

    db.delete_tag(tag_result0.id).expect("Delete tag should not fail");
    task_data0.tag = None;
    assert_eq!(
        db.all_tasks(),
        vec![Task::from_parts(&task_data0, &task_data)]
    );
}

#[test]
fn db_delete_tag_failure() {
    let mut db = Db::new();
    assert_eq!(db.delete_tag(0), Err(TagDoesNotExistError { id: 0 }));
}
