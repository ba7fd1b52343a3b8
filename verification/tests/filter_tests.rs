use std::collections::HashSet;
use task_store::{
    none_or, none_or_filter, ApplyFilter, ContainsStringFilter, Db, EditableTagData,
    EditableTaskData, ExactlyFilter, HslColor, MyDateTime, OptionalFilter, OrderedRangeFilter,
    SetFilter, Task, TaskFilterOptions,
};

fn no_filters() -> TaskFilterOptions {
    TaskFilterOptions {
        id_filter: None,
        title_filter: None,
        tag_filter: None,
        body_filter: None,
        difficulty_filter: None,
        create_time_filter: None,
        last_edit_time_filter: None,
        due_time_filter: None,
        target_time_filter: None,
        done_time_filter: None,
        paused_filter: None,
    }
}

fn task_with(title: &str, difficulty: i32, paused: bool) -> EditableTaskData {
    EditableTaskData {
        title: String::from(title),
        tag: None,
        body: String::from("body"),
        difficulty,
        due_time: None,
        target_time: None,
        paused,
    }
}

#[test]
fn exactly_filter_passes_on_equality() {
    let filter = ExactlyFilter { value: 42i64 };
    assert!(filter.passes(&42));
    assert!(!filter.passes(&41));
    let flag = ExactlyFilter { value: true };
    assert!(flag.passes(&true));
    assert!(!flag.passes(&false));
}

#[test]
fn contains_string_filter_finds_substrings() {
    let filter = ContainsStringFilter { pattern: String::from("err") };
    assert!(filter.passes(&String::from("blueberries")));
    assert!(!filter.passes(&String::from("apples")));
    let empty = ContainsStringFilter { pattern: String::new() };
    assert!(empty.passes(&String::from("anything")));
    assert!(empty.passes(&String::new()));
    let long = ContainsStringFilter { pattern: String::from("apples and more") };
    assert!(!long.passes(&String::from("apples")));
    let unicode = ContainsStringFilter { pattern: String::from("bèrry") };
    assert!(unicode.passes(&String::from("one bèrry more")));
    assert!(!unicode.passes(&String::from("one berry more")));
}

#[test]
fn set_filter_tests_membership() {
    let filter = SetFilter { set: HashSet::from([1i64, 2, 3]) };
    assert!(filter.passes(&2));
    assert!(!filter.passes(&4));
}

#[test]
fn ordered_range_filter_respects_bounds() {
    let both = OrderedRangeFilter {
        lower_bound: Some(MyDateTime(10)),
        upper_bound: Some(MyDateTime(20)),
    };
    assert!(both.passes(&MyDateTime(10)));
    assert!(both.passes(&MyDateTime(15)));
    assert!(both.passes(&MyDateTime(20)));
    assert!(!both.passes(&MyDateTime(9)));
    assert!(!both.passes(&MyDateTime(21)));

    let lower_only = OrderedRangeFilter { lower_bound: Some(MyDateTime(10)), upper_bound: None };
    assert!(lower_only.passes(&MyDateTime(1000)));
    assert!(!lower_only.passes(&MyDateTime(9)));

    let unbounded: OrderedRangeFilter<MyDateTime> = OrderedRangeFilter {
        lower_bound: None,
        upper_bound: None,
    };
    assert!(unbounded.passes(&MyDateTime(i64::MIN)));
}

#[test]
fn optional_filter_wraps_inner_filter() {
    let only_none: OptionalFilter<OrderedRangeFilter<MyDateTime>> = OptionalFilter::OnlyNone;
    assert!(only_none.passes(&None));
    assert!(!only_none.passes(&Some(MyDateTime(5))));

    let only_some = OptionalFilter::OnlySome(OrderedRangeFilter {
        lower_bound: Some(MyDateTime(0)),
        upper_bound: Some(MyDateTime(10)),
    });
    assert!(only_some.passes(&Some(MyDateTime(5))));
    assert!(!only_some.passes(&Some(MyDateTime(11))));
    assert!(!only_some.passes(&None));
}

#[test]
fn none_or_defaults_to_true() {
    assert!(none_or(&None::<i64>, |v: &i64| *v > 10));
    assert!(none_or(&Some(11i64), |v: &i64| *v > 10));
    assert!(!none_or(&Some(9i64), |v: &i64| *v > 10));
}

#[test]
fn none_or_filter_defaults_to_true() {
    assert!(none_or_filter(&None::<ExactlyFilter<i64>>, &5));
    assert!(none_or_filter(&Some(ExactlyFilter { value: 5i64 }), &5));
    assert!(!none_or_filter(&Some(ExactlyFilter { value: 5i64 }), &6));
}

#[test]
fn filter_composition_difficulty_and_paused() {
    let mut db = Db::new();
    // difficulties {0, 3, 5} crossed with paused in {true, false}
    for &difficulty in &[0, 3, 5] {
        for &paused in &[true, false] {
            let title = format!("task d{} p{}", difficulty, paused);
            db.add_new_task(&task_with(&title, difficulty, paused)).unwrap();
        }
    }
    let options = TaskFilterOptions {
        difficulty_filter: Some(SetFilter { set: HashSet::from([3, 5]) }),
        paused_filter: Some(ExactlyFilter { value: false }),
        ..no_filters()
    };
    let picked = db.filter_tasks_with_options(&options);
    let titles: Vec<String> = picked.iter().map(|t| t.title.clone()).collect();
    assert_eq!(
        titles,
        vec![String::from("task d3 pfalse"), String::from("task d5 pfalse")]
    );
    // every picked task matches both constraints
    assert!(picked.iter().all(|t| (t.difficulty == 3 || t.difficulty == 5) && !t.paused));
}

#[test]
fn composite_passes_is_conjunction_of_present_slots() {
    let mut db = Db::new();
    db.add_new_task(&task_with("alpha", 3, false)).unwrap();
    let task = db.task_by_id(1).unwrap();

    assert!(no_filters().passes(&task));

    let title_hit = TaskFilterOptions {
        title_filter: Some(ContainsStringFilter { pattern: String::from("alp") }),
        ..no_filters()
    };
    assert!(title_hit.passes(&task));

    let title_miss = TaskFilterOptions {
        title_filter: Some(ContainsStringFilter { pattern: String::from("beta") }),
        ..no_filters()
    };
    assert!(!title_miss.passes(&task));

    // one failing slot fails the whole composite, whatever else passes
    let mixed = TaskFilterOptions {
        title_filter: Some(ContainsStringFilter { pattern: String::from("alp") }),
        difficulty_filter: Some(SetFilter { set: HashSet::from([4]) }),
        ..no_filters()
    };
    assert!(!mixed.passes(&task));

    let done_filter = TaskFilterOptions {
        done_time_filter: Some(OptionalFilter::OnlyNone),
        ..no_filters()
    };
    assert!(done_filter.passes(&task));
}

#[test]
fn filter_tasks_with_closure_predicate() {
    let mut db = Db::new();
    db.add_new_task(&task_with("one", 1, false)).unwrap();
    db.add_new_task(&task_with("two", 2, true)).unwrap();
    db.add_new_task(&task_with("three", 3, false)).unwrap();
    let picked = db.filter_tasks(|t: &Task| t.difficulty >= 2);
    let titles: Vec<String> = picked.iter().map(|t| t.title.clone()).collect();
    assert_eq!(titles, vec![String::from("two"), String::from("three")]);
}

#[test]
fn filter_tags_with_closure_predicate() {
    let mut db = Db::new();
    db.add_new_tag(&EditableTagData {
        name: String::from("active one"),
        color: HslColor { hue: 0, saturation: 0, lightness: 0 },
        active: true,
    });
    db.add_new_tag(&EditableTagData {
        name: String::from("dormant"),
        color: HslColor { hue: 0, saturation: 0, lightness: 0 },
        active: false,
    });
    let active = db.filter_tags(|t| t.active);
    assert_eq!(active.len(), 1);
    assert_eq!(active[0].name, String::from("active one"));
}
