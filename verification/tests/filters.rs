use tasknet::filters::Filters;
use tasknet::task::{Id, Priority, Task};
use tasknet::time::DateTime;

fn task() -> Task {
    Task::new_at(Id(1), DateTime(0))
}

#[test]
fn default_filters_show_exactly_pending_tasks() {
    let f = Filters::default();
    let mut t = task();
    t.set_description("Something".to_string());
    t.set_tags(vec!["a".to_string()]);
    t.set_priority(Some(Priority::Low));
    assert!(f.filter_task(&t));
    let mut done = task();
    done.complete_at(DateTime(1));
    assert!(!f.filter_task(&done));
    let mut deleted = task();
    deleted.delete_at(DateTime(1));
    assert!(!f.filter_task(&deleted));
}

#[test]
fn project_filter_matches_dotted_substring_ignoring_case() {
    let mut f = Filters::default();
    f.project = vec!["Work".to_string(), "Tas".to_string()];
    let mut t = task();
    t.set_project(vec!["work".to_string(), "tasknet".to_string(), "web".to_string()]);
    assert!(f.filter_task(&t));
    t.set_project(vec!["home".to_string()]);
    assert!(!f.filter_task(&t));
}

#[test]
fn every_tag_text_must_occur_in_some_tag() {
    let mut f = Filters::default();
    f.tags = vec!["ho".to_string(), "URG".to_string()];
    let mut t = task();
    t.set_tags(vec!["home".to_string(), "urgent".to_string()]);
    assert!(f.filter_task(&t));
    t.set_tags(vec!["home".to_string()]);
    assert!(!f.filter_task(&t));
}

#[test]
fn empty_tag_text_needs_some_tag() {
    let mut f = Filters::default();
    f.tags = vec![String::new()];
    let mut t = task();
    assert!(!f.filter_task(&t));
    t.set_tags(vec!["x".to_string()]);
    assert!(f.filter_task(&t));
}

#[test]
fn description_and_priority_filters() {
    let mut f = Filters::default();
    f.description = "MILK".to_string();
    let mut t = task();
    t.set_description("buy milk".to_string());
    assert!(f.filter_task(&t));
    f.priority_none = false;
    assert!(!f.filter_task(&t));
    t.set_priority(Some(Priority::Medium));
    assert!(f.filter_task(&t));
    f.priority_medium = false;
    assert!(!f.filter_task(&t));
}

#[test]
fn status_checkboxes() {
    let mut f = Filters::default();
    f.status_pending = false;
    f.status_recurring = true;
    let mut t = task();
    assert!(!f.filter_task(&t));
    t.set_recur(Some(tasknet::task::Recur { amount: 1, unit: tasknet::task::RecurUnit::Day }));
    assert!(f.filter_task(&t));
}

#[test]
fn same_and_duplicate() {
    let mut f = Filters::default();
    f.tags = vec!["x".to_string()];
    let g = f.duplicate();
    assert!(f.same(&g));
    let mut h = f.duplicate();
    h.description = "d".to_string();
    assert!(!f.same(&h));
}
