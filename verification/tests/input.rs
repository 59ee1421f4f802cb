use tasknet::document::Document;
use tasknet::input::{parse_project, parse_tags};
use tasknet::pages::view_task;
use tasknet::task::{Id, Recur, RecurUnit, Task};
use tasknet::time::DateTime;

fn strings(v: &[&str]) -> Vec<String> {
    v.iter().map(|s| s.to_string()).collect()
}

#[test]
fn project_input_is_trimmed_and_split_at_dots() {
    assert_eq!(parse_project(" work.tasknet "), strings(&["work", "tasknet"]));
    assert_eq!(parse_project("home"), strings(&["home"]));
    assert_eq!(parse_project("   "), Vec::<String>::new());
    assert_eq!(parse_project(""), Vec::<String>::new());
    assert_eq!(parse_project("a..b"), strings(&["a", "", "b"]));
}

#[test]
fn tag_input_words_and_trailing_space() {
    assert_eq!(parse_tags("a b"), strings(&["a", "b"]));
    assert_eq!(parse_tags("a b "), strings(&["a", "b", ""]));
    assert_eq!(parse_tags(""), Vec::<String>::new());
    assert_eq!(parse_tags(" "), strings(&[""]));
    assert_eq!(parse_tags("  x\ty"), strings(&["x", "y"]));
}

#[test]
fn recurrence_amount_parsing() {
    let mut d = Document::new();
    d.update_task(Task::new_at(Id(1), DateTime(0)));
    let m = view_task::init(Id(1));
    let amount = |d: &mut Document, s: &str| {
        view_task::update(view_task::Msg::SelectedTaskRecurAmountChanged(s.to_string()), d, &m, DateTime(0));
        *d.get_task(&Id(1)).unwrap().recur()
    };
    assert_eq!(amount(&mut d, "12"), Some(Recur { amount: 12, unit: RecurUnit::Week }));
    assert_eq!(amount(&mut d, "65535"), Some(Recur { amount: 65535, unit: RecurUnit::Week }));
    assert_eq!(amount(&mut d, "65536"), Some(Recur { amount: 65535, unit: RecurUnit::Week }));
    assert_eq!(amount(&mut d, "-1"), Some(Recur { amount: 65535, unit: RecurUnit::Week }));
    assert_eq!(amount(&mut d, " 3"), Some(Recur { amount: 65535, unit: RecurUnit::Week }));
    assert_eq!(amount(&mut d, ""), Some(Recur { amount: 65535, unit: RecurUnit::Week }));
    assert_eq!(amount(&mut d, "+7"), Some(Recur { amount: 7, unit: RecurUnit::Week }));
}

#[test]
fn recurrence_amount_forms() {
    let mut d = Document::new();
    d.update_task(Task::new_at(Id(1), DateTime(0)));
    let m = view_task::init(Id(1));
    let amount = |d: &mut Document, s: &str| {
        view_task::update(view_task::Msg::SelectedTaskRecurAmountChanged(s.to_string()), d, &m, DateTime(0));
        *d.get_task(&Id(1)).unwrap().recur()
    };
    assert_eq!(amount(&mut d, "007"), Some(Recur { amount: 7, unit: RecurUnit::Week }));
    assert_eq!(amount(&mut d, "+"), Some(Recur { amount: 7, unit: RecurUnit::Week }));
    assert_eq!(amount(&mut d, "++3"), Some(Recur { amount: 7, unit: RecurUnit::Week }));
    assert_eq!(amount(&mut d, "3a"), Some(Recur { amount: 7, unit: RecurUnit::Week }));
    assert_eq!(amount(&mut d, "0"), None);
}
