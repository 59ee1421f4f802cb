use std::cmp::Ordering;

use tasknet::sort::{compare_text, compare_texts, sort_viewable_task, Field};
use tasknet::task::{Id, Priority, Task};
use tasknet::time::DateTime;

fn task(id: u128, entry: i64) -> Task {
    Task::new_at(Id(id), DateTime(entry))
}

fn strings(v: &[&str]) -> Vec<String> {
    v.iter().map(|s| s.to_string()).collect()
}

#[test]
fn compare_text_is_lexicographic() {
    assert_eq!(compare_text("abc", "abd"), Ordering::Less);
    assert_eq!(compare_text("abc", "abc"), Ordering::Equal);
    assert_eq!(compare_text("abc", "ab"), Ordering::Greater);
    assert_eq!(compare_text("", "a"), Ordering::Less);
    assert_eq!(compare_text("B", "a"), Ordering::Less);
    assert_eq!(compare_text("é", "z"), Ordering::Greater);
    assert_eq!(compare_text("abc", "abd"), "abc".cmp("abd"));
}

#[test]
fn compare_texts_is_lexicographic() {
    let a = strings(&["a", "b"]);
    let b = strings(&["a", "c"]);
    let c = strings(&["a"]);
    assert_eq!(compare_texts(&a, &b), Ordering::Less);
    assert_eq!(compare_texts(&b, &a), Ordering::Greater);
    assert_eq!(compare_texts(&a, &a), Ordering::Equal);
    assert_eq!(compare_texts(&c, &a), Ordering::Less);
    assert_eq!(compare_texts(&[], &c), Ordering::Less);
}

#[test]
fn age_puts_newer_tasks_first() {
    let old = task(1, 10);
    let new = task(2, 20);
    assert_eq!(sort_viewable_task(Field::Age, &new, &old, Ordering::Equal), Ordering::Less);
    assert_eq!(sort_viewable_task(Field::Age, &old, &new, Ordering::Equal), Ordering::Greater);
    assert_eq!(sort_viewable_task(Field::Age, &old, &old, Ordering::Equal), Ordering::Equal);
}

#[test]
fn due_puts_dated_tasks_first_then_by_date() {
    let mut a = task(1, 10);
    a.set_due(Some(DateTime(500)));
    let mut b = task(2, 20);
    b.set_due(Some(DateTime(300)));
    let c = task(3, 30);
    let d = task(4, 40);
    assert_eq!(sort_viewable_task(Field::Due, &a, &b, Ordering::Equal), Ordering::Greater);
    assert_eq!(sort_viewable_task(Field::Due, &a, &c, Ordering::Equal), Ordering::Less);
    assert_eq!(sort_viewable_task(Field::Due, &c, &a, Ordering::Equal), Ordering::Greater);
    // neither has a date: newer first
    assert_eq!(sort_viewable_task(Field::Due, &c, &d, Ordering::Equal), Ordering::Greater);
}

#[test]
fn scheduled_orders_like_due() {
    let mut a = task(1, 10);
    a.set_scheduled(Some(DateTime(100)));
    let b = task(2, 20);
    assert_eq!(sort_viewable_task(Field::Scheduled, &a, &b, Ordering::Equal), Ordering::Less);
    assert_eq!(sort_viewable_task(Field::Scheduled, &b, &a, Ordering::Equal), Ordering::Greater);
}

#[test]
fn project_and_description_compare_text() {
    let mut a = task(1, 10);
    a.set_project(strings(&["home", "garden"]));
    a.set_description("b".to_string());
    let mut b = task(2, 20);
    b.set_project(strings(&["work"]));
    b.set_description("a".to_string());
    assert_eq!(sort_viewable_task(Field::Project, &a, &b, Ordering::Equal), Ordering::Less);
    assert_eq!(sort_viewable_task(Field::Description, &a, &b, Ordering::Equal), Ordering::Greater);
}

#[test]
fn tags_put_tagged_tasks_first() {
    let mut a = task(1, 10);
    a.set_tags(strings(&["x"]));
    let mut b = task(2, 20);
    b.set_tags(strings(&["a"]));
    let c = task(3, 30);
    let d = task(4, 40);
    assert_eq!(sort_viewable_task(Field::Tags, &a, &b, Ordering::Equal), Ordering::Greater);
    assert_eq!(sort_viewable_task(Field::Tags, &a, &c, Ordering::Equal), Ordering::Less);
    assert_eq!(sort_viewable_task(Field::Tags, &c, &a, Ordering::Equal), Ordering::Greater);
    assert_eq!(sort_viewable_task(Field::Tags, &d, &c, Ordering::Equal), Ordering::Less);
}

#[test]
fn priority_puts_high_first_and_unset_last() {
    let mut h = task(1, 10);
    h.set_priority(Some(Priority::High));
    let mut l = task(2, 20);
    l.set_priority(Some(Priority::Low));
    let n = task(3, 30);
    assert_eq!(sort_viewable_task(Field::Priority, &h, &l, Ordering::Equal), Ordering::Less);
    assert_eq!(sort_viewable_task(Field::Priority, &l, &h, Ordering::Equal), Ordering::Greater);
    assert_eq!(sort_viewable_task(Field::Priority, &l, &n, Ordering::Equal), Ordering::Less);
    assert_eq!(sort_viewable_task(Field::Priority, &n, &h, Ordering::Equal), Ordering::Greater);
}

#[test]
fn status_follows_declared_order() {
    let pending = task(1, 10);
    let mut done = task(2, 20);
    done.complete_at(DateTime(30));
    let mut deleted = task(3, 20);
    deleted.delete_at(DateTime(30));
    assert_eq!(sort_viewable_task(Field::Status, &pending, &done, Ordering::Equal), Ordering::Less);
    assert_eq!(sort_viewable_task(Field::Status, &deleted, &done, Ordering::Equal), Ordering::Less);
    assert_eq!(sort_viewable_task(Field::Status, &done, &deleted, Ordering::Equal), Ordering::Greater);
}

#[test]
fn urgency_uses_given_order_only_when_both_have_urgency() {
    let a = task(1, 10);
    let b = task(2, 20);
    let mut done = task(3, 30);
    done.complete_at(DateTime(40));
    let mut done_old = task(4, 5);
    done_old.complete_at(DateTime(40));
    assert_eq!(sort_viewable_task(Field::Urgency, &a, &b, Ordering::Greater), Ordering::Greater);
    assert_eq!(sort_viewable_task(Field::Urgency, &a, &b, Ordering::Less), Ordering::Less);
    assert_eq!(sort_viewable_task(Field::Urgency, &a, &done, Ordering::Greater), Ordering::Less);
    assert_eq!(sort_viewable_task(Field::Urgency, &done, &a, Ordering::Less), Ordering::Greater);
    assert_eq!(sort_viewable_task(Field::Urgency, &done, &done_old, Ordering::Less), Ordering::Less);
}

#[test]
fn swapping_tasks_reverses_the_order() {
    let mut a = task(1, 10);
    a.set_project(strings(&["p"]));
    a.set_priority(Some(Priority::Medium));
    let mut b = task(2, 20);
    b.set_tags(strings(&["t"]));
    b.set_due(Some(DateTime(7)));
    for field in [
        Field::Age,
        Field::Due,
        Field::Scheduled,
        Field::Project,
        Field::Tags,
        Field::Priority,
        Field::Description,
        Field::Status,
    ] {
        let ab = sort_viewable_task(field, &a, &b, Ordering::Equal);
        let ba = sort_viewable_task(field, &b, &a, Ordering::Equal);
        assert_eq!(ab, ba.reverse());
        assert_eq!(sort_viewable_task(field, &a, &a, Ordering::Equal), Ordering::Equal);
    }
}
