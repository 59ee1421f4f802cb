use tasknet::suggest::{project_suggestions, tag_click_text, tag_suggestions};
use tasknet::task::{Id, Task};
use tasknet::time::DateTime;

fn task(id: u128, project: &[&str], tags: &[&str]) -> Task {
    let mut t = Task::new_at(Id(id), DateTime(0));
    t.set_project(project.iter().map(|s| s.to_string()).collect());
    t.set_tags(tags.iter().map(|s| s.to_string()).collect());
    t
}

fn sorted(mut v: Vec<String>) -> Vec<String> {
    v.sort();
    v
}

#[test]
fn projects_containing_the_current_one_are_suggested_once() {
    let current = task(1, &["Work"], &[]);
    let others = vec![
        task(2, &["work", "tasknet"], &[]),
        task(3, &["work", "tasknet"], &[]),
        task(4, &["home"], &[]),
        task(5, &["Work"], &[]),
        task(6, &["homework"], &[]),
    ];
    assert_eq!(
        sorted(project_suggestions(&current, &others)),
        vec!["homework".to_string(), "work.tasknet".to_string()]
    );
}

#[test]
fn empty_project_suggests_every_other_project() {
    let current = task(1, &[], &[]);
    let others = vec![task(2, &["a"], &[]), task(3, &[], &[]), task(4, &["b", "c"], &[])];
    assert_eq!(
        sorted(project_suggestions(&current, &others)),
        vec!["a".to_string(), "b.c".to_string()]
    );
}

#[test]
fn untagged_task_gets_all_tags_and_next() {
    let current = task(1, &[], &[]);
    let others = vec![task(2, &[], &["home", "x"]), task(3, &[], &["x"])];
    assert_eq!(
        sorted(tag_suggestions(&current, &others)),
        vec!["home".to_string(), "next".to_string(), "x".to_string()]
    );
}

#[test]
fn tags_containing_a_typed_tag_are_suggested() {
    let current = task(1, &[], &["ho", "next"]);
    let others = vec![task(2, &[], &["home", "shop", "work"]), task(3, &[], &["ho"])];
    assert_eq!(sorted(tag_suggestions(&current, &others)), vec!["home".to_string(), "shop".to_string()]);
}

#[test]
fn suggestions_come_in_ascending_order() {
    let current = task(1, &[], &[]);
    let others = vec![
        task(2, &["zeta"], &["zoo", "Apple"]),
        task(3, &["alpha", "b"], &["mid", "apple"]),
        task(4, &["Beta"], &["zoo"]),
    ];
    assert_eq!(
        project_suggestions(&current, &others),
        vec!["Beta".to_string(), "alpha.b".to_string(), "zeta".to_string()]
    );
    assert_eq!(
        tag_suggestions(&current, &others),
        vec!["Apple", "apple", "mid", "next", "zoo"].into_iter().map(String::from).collect::<Vec<_>>()
    );
}

#[test]
fn clicking_a_tag_suggestion() {
    let none: Vec<String> = vec![];
    assert_eq!(tag_click_text(&none, "home"), " home");
    let typed = vec!["work".to_string(), "ho".to_string()];
    assert_eq!(tag_click_text(&typed, "home"), "work home");
    let one = vec!["ho".to_string()];
    assert_eq!(tag_click_text(&one, "home"), " home");
    let trailing = vec!["work".to_string(), "".to_string()];
    assert_eq!(tag_click_text(&trailing, "next"), "work  next");
}
