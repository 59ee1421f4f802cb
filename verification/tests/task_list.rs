use tasknet::filters::Filters;
use tasknet::sort::{sort_viewable_task, Field, SortDirection};
use tasknet::task::{Id, Priority, Status, Task};
use tasknet::task_list::{
    columns, row_shade, status_label, view_rows, Columns, Shade, UrgencyLevel,
};
use tasknet::time::DateTime;

fn task(id: u128, entry: i64, description: &str) -> Task {
    let mut t = Task::new_at(Id(id), DateTime(entry));
    t.set_description(description.to_string());
    t
}

fn sample() -> Vec<Task> {
    let mut done = task(4, 40, "d");
    done.complete_at(DateTime(50));
    let mut b = task(2, 20, "b");
    b.set_priority(Some(Priority::High));
    vec![task(1, 10, "c"), b, task(3, 30, "a"), done]
}

#[test]
fn rows_are_the_shown_tasks_sorted() {
    let tasks = sample();
    let f = Filters::default();
    let ranks = vec![0; tasks.len()];
    assert_eq!(view_rows(&tasks, &f, Field::Description, SortDirection::Ascending, &ranks), vec![2, 1, 0]);
    assert_eq!(view_rows(&tasks, &f, Field::Description, SortDirection::Descending, &ranks), vec![0, 1, 2]);
    assert_eq!(view_rows(&tasks, &f, Field::Age, SortDirection::Ascending, &ranks), vec![2, 1, 0]);
    assert_eq!(view_rows(&tasks, &f, Field::Priority, SortDirection::Ascending, &ranks), vec![1, 2, 0]);
}

#[test]
fn equal_rows_keep_their_order() {
    let tasks = vec![task(1, 10, "same"), task(2, 20, "same"), task(3, 5, "same")];
    let f = Filters::default();
    let ranks = vec![0; 3];
    assert_eq!(view_rows(&tasks, &f, Field::Description, SortDirection::Ascending, &ranks), vec![0, 1, 2]);
    assert_eq!(view_rows(&tasks, &f, Field::Description, SortDirection::Descending, &ranks), vec![2, 1, 0]);
}

#[test]
fn urgency_sorts_by_rank_most_urgent_last_when_ascending() {
    let tasks = sample();
    let mut f = Filters::default();
    f.status_completed = true;
    let ranks = vec![2, 0, 1, 9];
    assert_eq!(view_rows(&tasks, &f, Field::Urgency, SortDirection::Ascending, &ranks), vec![1, 2, 0, 3]);
    assert_eq!(view_rows(&tasks, &f, Field::Urgency, SortDirection::Descending, &ranks), vec![3, 0, 2, 1]);
}

#[test]
fn columns_follow_the_rows() {
    let tasks = sample();
    let none = Columns { due: false, scheduled: false, status: false, project: false, tags: false, priority: false };
    assert_eq!(columns(&tasks, &[]), none);
    assert_eq!(columns(&tasks, &[0, 2]), none);
    let c = columns(&tasks, &[0, 1, 3]);
    assert!(c.status && c.priority);
    assert!(!c.due && !c.tags && !c.project && !c.scheduled);
    let mut t = task(9, 0, "x");
    t.set_due(Some(DateTime(1)));
    t.set_tags(vec!["g".to_string()]);
    t.set_project(vec!["p".to_string()]);
    t.set_scheduled(Some(DateTime(2)));
    let c = columns(&[t], &[0]);
    assert!(c.due && c.tags && c.project && c.scheduled && !c.status && !c.priority);
}

#[test]
fn row_shading() {
    let mut active = task(1, 0, "a");
    active.activate_at(DateTime(1));
    assert_eq!(row_shade(&active, UrgencyLevel::High, 0), Shade::Active);
    let mut next = task(2, 0, "n");
    next.set_tags(vec!["next".to_string()]);
    assert_eq!(row_shade(&next, UrgencyLevel::High, 0), Shade::Next);
    let plain = task(3, 0, "p");
    assert_eq!(row_shade(&plain, UrgencyLevel::High, 1), Shade::Urgent);
    assert_eq!(row_shade(&plain, UrgencyLevel::Raised, 1), Shade::Raised);
    assert_eq!(row_shade(&plain, UrgencyLevel::Low, 4), Shade::Striped);
    assert_eq!(row_shade(&plain, UrgencyLevel::Low, 5), Shade::Plain);
}

#[test]
fn status_labels() {
    assert_eq!(status_label(Status::Pending), "Pending");
    assert_eq!(status_label(Status::Completed), "Completed");
    assert_eq!(status_label(Status::Recurring), "Recurring");
}

#[test]
fn rows_match_a_stable_standard_sort() {
    let mut tasks = Vec::new();
    for i in 0..12u128 {
        let mut t = task(i, (i as i64 * 7) % 5, ["b", "a", "c"][(i % 3) as usize]);
        if i % 4 == 0 {
            t.set_priority(Some(Priority::Low));
        }
        if i % 5 == 1 {
            t.set_due(Some(DateTime(100 - i as i64)));
        }
        t.set_project(vec![["x", "y"][(i % 2) as usize].to_string()]);
        tasks.push(t);
    }
    let ranks: Vec<u64> = (0..12u64).map(|i| (i * 5) % 4).collect();
    let f = Filters::default();
    for field in [
        Field::Age,
        Field::Due,
        Field::Project,
        Field::Priority,
        Field::Description,
        Field::Urgency,
    ] {
        let mut expected: Vec<usize> = (0..tasks.len()).collect();
        expected.sort_by(|&a, &b| {
            let u = ranks[a].cmp(&ranks[b]);
            sort_viewable_task(field, &tasks[a], &tasks[b], u)
        });
        assert_eq!(view_rows(&tasks, &f, field, SortDirection::Ascending, &ranks), expected);
        expected.reverse();
        assert_eq!(view_rows(&tasks, &f, field, SortDirection::Descending, &ranks), expected);
    }
}
