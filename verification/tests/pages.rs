use tasknet::document::Document;
use tasknet::filters::Filters;
use tasknet::pages::home::{self, Context, ReservedContextName};
use tasknet::pages::view_task::{self, Outcome};
use tasknet::sort::{Field, SortDirection};
use tasknet::task::{Id, Priority, Recur, RecurUnit, Status, Task};
use tasknet::time::DateTime;

fn context(name: &str, filters: Filters) -> Context {
    Context { name: name.to_string(), filters }
}

fn names(m: &home::Model) -> Vec<String> {
    m.contexts.iter().map(|c| c.name.clone()).collect()
}

#[test]
fn home_opens_sorted_by_urgency_descending() {
    let m = home::init(Filters::default(), vec![]);
    assert_eq!(m.sort_field, Field::Urgency);
    assert_eq!(m.sort_direction, SortDirection::Descending);
    assert!(m.contexts.is_empty());
    assert!(m.filters.same(&Filters::default()));
}

#[test]
fn home_toggles_and_text_filters() {
    let mut m = home::init(Filters::default(), vec![]);
    assert_eq!(m.update(home::Msg::FiltersStatusTogglePending), Ok(()));
    assert!(!m.filters.status_pending);
    m.update(home::Msg::FiltersStatusToggleDeleted).unwrap();
    m.update(home::Msg::FiltersStatusToggleCompleted).unwrap();
    m.update(home::Msg::FiltersStatusToggleWaiting).unwrap();
    m.update(home::Msg::FiltersStatusToggleRecurring).unwrap();
    assert!(m.filters.status_deleted && m.filters.status_completed);
    assert!(m.filters.status_waiting && m.filters.status_recurring);
    m.update(home::Msg::FiltersPriorityToggleNone).unwrap();
    m.update(home::Msg::FiltersPriorityToggleLow).unwrap();
    m.update(home::Msg::FiltersPriorityToggleMedium).unwrap();
    m.update(home::Msg::FiltersPriorityToggleHigh).unwrap();
    assert!(!m.filters.priority_none && !m.filters.priority_low);
    assert!(!m.filters.priority_medium && !m.filters.priority_high);
    m.update(home::Msg::FiltersProjectChanged(" a.b ".to_string())).unwrap();
    assert_eq!(m.filters.project, vec!["a".to_string(), "b".to_string()]);
    m.update(home::Msg::FiltersTagsChanged("x y ".to_string())).unwrap();
    assert_eq!(m.filters.tags, vec!["x".to_string(), "y".to_string(), String::new()]);
    m.update(home::Msg::FiltersDescriptionChanged("Buy".to_string())).unwrap();
    assert_eq!(m.filters.description, "Buy");
    m.update(home::Msg::FiltersReset).unwrap();
    assert!(m.filters.same(&Filters::default()));
}

#[test]
fn home_saves_contexts_replacing_same_name_or_settings() {
    let mut m = home::init(Filters::default(), vec![]);
    m.update(home::Msg::FiltersSave("all".to_string())).unwrap();
    assert_eq!(names(&m), vec!["all".to_string()]);
    // same settings under another name replace the first context
    m.update(home::Msg::FiltersSave("mine".to_string())).unwrap();
    assert_eq!(names(&m), vec!["mine".to_string()]);
    m.update(home::Msg::FiltersStatusToggleCompleted).unwrap();
    m.update(home::Msg::FiltersSave("done".to_string())).unwrap();
    assert_eq!(names(&m), vec!["mine".to_string(), "done".to_string()]);
    // an empty name saves nothing
    m.update(home::Msg::FiltersStatusToggleDeleted).unwrap();
    m.update(home::Msg::FiltersSave(String::new())).unwrap();
    assert_eq!(names(&m), vec!["mine".to_string(), "done".to_string()]);
}

#[test]
fn home_refuses_the_reserved_context_name() {
    let mut m = home::init(Filters::default(), vec![context("x", Filters::default())]);
    assert_eq!(m.update(home::Msg::FiltersSave("Custom".to_string())), Err(ReservedContextName));
    assert_eq!(m.update(home::Msg::FiltersSave("custom".to_string())), Err(ReservedContextName));
    assert_eq!(names(&m), vec!["x".to_string()]);
    assert_eq!(m.update(home::Msg::FiltersSave("customs".to_string())), Ok(()));
}

#[test]
fn home_selects_and_removes_contexts() {
    let mut done = Filters::default();
    done.status_pending = false;
    done.status_completed = true;
    let mut m = home::init(
        Filters::default(),
        vec![context("pending", Filters::default()), context("done", done.duplicate())],
    );
    m.update(home::Msg::SelectedContextChanged("done".to_string())).unwrap();
    assert!(m.filters.same(&done));
    m.update(home::Msg::SelectedContextChanged("unknown".to_string())).unwrap();
    assert!(m.filters.same(&done));
    m.update(home::Msg::ContextsRemove).unwrap();
    assert_eq!(names(&m), vec!["pending".to_string()]);
    assert!(m.filters.same(&done));
}

#[test]
fn home_toggle_sort_sets_field_and_flips_direction() {
    let mut m = home::init(Filters::default(), vec![]);
    m.update(home::Msg::ToggleSort(Field::Due)).unwrap();
    assert_eq!(m.sort_field, Field::Due);
    assert_eq!(m.sort_direction, SortDirection::Ascending);
    m.update(home::Msg::ToggleSort(Field::Due)).unwrap();
    assert_eq!(m.sort_direction, SortDirection::Descending);
}

fn doc_with(id: u128) -> Document {
    let mut d = Document::new();
    d.update_task(Task::new_at(Id(id), DateTime(0)));
    d
}

#[test]
fn view_task_edits_fields() {
    let mut d = doc_with(1);
    let m = view_task::init(Id(1));
    let now = DateTime(50);
    let stay = Outcome { go_home: false, confirm_removal: false };
    let msgs = vec![
        view_task::Msg::SelectedTaskDescriptionChanged("write".to_string()),
        view_task::Msg::SelectedTaskProjectChanged("a.b".to_string()),
        view_task::Msg::SelectedTaskTagsChanged("t u".to_string()),
        view_task::Msg::SelectedTaskPriorityChanged(" h ".to_string()),
        view_task::Msg::SelectedTaskNotesChanged("n".to_string()),
        view_task::Msg::SelectedTaskDueDateChanged("2024-03-05".to_string()),
        view_task::Msg::SelectedTaskDueTimeChanged("14:30".to_string()),
        view_task::Msg::SelectedTaskScheduledDateChanged("2024-03-04".to_string()),
    ];
    for msg in msgs {
        assert_eq!(view_task::update(msg, &mut d, &m, now), stay);
    }
    let t = d.get_task(&Id(1)).unwrap();
    assert_eq!(t.description(), "write");
    assert_eq!(t.project(), &["a".to_string(), "b".to_string()][..]);
    assert_eq!(t.tags(), &["t".to_string(), "u".to_string()][..]);
    assert_eq!(*t.priority(), Some(Priority::High));
    assert_eq!(t.notes(), "n");
    // 2024-03-05T14:30:00Z and 2024-03-04T00:00:00Z
    assert_eq!(*t.due(), Some(DateTime(1_709_649_000_000)));
    assert_eq!(*t.scheduled(), Some(DateTime(1_709_510_400_000)));
    view_task::update(view_task::Msg::SelectedTaskPriorityChanged("?".to_string()), &mut d, &m, now);
    assert_eq!(*d.get_task(&Id(1)).unwrap().priority(), None);
}

#[test]
fn view_task_recurrence_edits() {
    let mut d = doc_with(1);
    let m = view_task::init(Id(1));
    let now = DateTime(50);
    view_task::update(view_task::Msg::SelectedTaskRecurAmountChanged("3".to_string()), &mut d, &m, now);
    assert_eq!(*d.get_task(&Id(1)).unwrap().recur(), Some(Recur { amount: 3, unit: RecurUnit::Week }));
    assert_eq!(*d.get_task(&Id(1)).unwrap().status(), Status::Recurring);
    view_task::update(view_task::Msg::SelectedTaskRecurUnitChanged("Day".to_string()), &mut d, &m, now);
    assert_eq!(*d.get_task(&Id(1)).unwrap().recur(), Some(Recur { amount: 3, unit: RecurUnit::Day }));
    // an unreadable amount changes nothing
    view_task::update(view_task::Msg::SelectedTaskRecurAmountChanged("x".to_string()), &mut d, &m, now);
    assert_eq!(*d.get_task(&Id(1)).unwrap().recur(), Some(Recur { amount: 3, unit: RecurUnit::Day }));
    view_task::update(view_task::Msg::SelectedTaskRecurAmountChanged("0".to_string()), &mut d, &m, now);
    assert_eq!(*d.get_task(&Id(1)).unwrap().recur(), None);
    assert_eq!(*d.get_task(&Id(1)).unwrap().status(), Status::Pending);
    view_task::update(view_task::Msg::SelectedTaskRecurUnitChanged("Month".to_string()), &mut d, &m, now);
    assert_eq!(*d.get_task(&Id(1)).unwrap().recur(), Some(Recur { amount: 1, unit: RecurUnit::Month }));
    view_task::update(view_task::Msg::SelectedTaskRecurUnitChanged("".to_string()), &mut d, &m, now);
    assert_eq!(*d.get_task(&Id(1)).unwrap().recur(), None);
}

#[test]
fn view_task_state_changes_go_home() {
    let mut d = doc_with(1);
    let m = view_task::init(Id(1));
    let home = Outcome { go_home: true, confirm_removal: false };
    d.get_task(&Id(1)).unwrap();
    let mut t = d.get_task(&Id(1)).unwrap().clone();
    t.set_tags(vec!["next".to_string(), "x".to_string()]);
    d.update_task(t);
    assert_eq!(view_task::update(view_task::Msg::StartSelectedTask, &mut d, &m, DateTime(10)), home);
    assert_eq!(*d.get_task(&Id(1)).unwrap().start(), Some(DateTime(10)));
    assert_eq!(d.get_task(&Id(1)).unwrap().tags(), &["x".to_string()][..]);
    assert_eq!(view_task::update(view_task::Msg::StopSelectedTask, &mut d, &m, DateTime(11)), home);
    assert_eq!(*d.get_task(&Id(1)).unwrap().start(), None);
    assert_eq!(view_task::update(view_task::Msg::CompleteSelectedTask, &mut d, &m, DateTime(12)), home);
    assert_eq!(*d.get_task(&Id(1)).unwrap().status(), Status::Completed);
    assert_eq!(d.get_task(&Id(1)).unwrap().end(), Some(DateTime(12)));
    assert_eq!(view_task::update(view_task::Msg::MoveSelectedTaskToPending, &mut d, &m, DateTime(13)), home);
    assert_eq!(*d.get_task(&Id(1)).unwrap().status(), Status::Pending);
    assert_eq!(view_task::update(view_task::Msg::EscapeKey, &mut d, &m, DateTime(14)), home);
}

#[test]
fn view_task_delete_then_confirm_removal() {
    let mut d = doc_with(1);
    let m = view_task::init(Id(1));
    let first = view_task::update(view_task::Msg::DeleteSelectedTask, &mut d, &m, DateTime(20));
    assert_eq!(first, Outcome { go_home: true, confirm_removal: false });
    assert_eq!(*d.get_task(&Id(1)).unwrap().status(), Status::Deleted);
    assert_eq!(d.get_task(&Id(1)).unwrap().end(), Some(DateTime(20)));
    let second = view_task::update(view_task::Msg::DeleteSelectedTask, &mut d, &m, DateTime(30));
    assert_eq!(second, Outcome { go_home: true, confirm_removal: true });
    assert_eq!(d.get_task(&Id(1)).unwrap().end(), Some(DateTime(20)));
    view_task::removal_answered(false, &mut d, &m);
    assert!(d.get_task(&Id(1)).is_some());
    view_task::removal_answered(true, &mut d, &m);
    assert!(d.get_task(&Id(1)).is_none());
    assert_eq!(d.tasks().len(), 0);
}

#[test]
fn view_task_on_missing_task_changes_nothing() {
    let mut d = doc_with(1);
    let m = view_task::init(Id(2));
    let out = view_task::update(view_task::Msg::DeleteSelectedTask, &mut d, &m, DateTime(20));
    assert_eq!(out, Outcome { go_home: true, confirm_removal: false });
    assert_eq!(*d.get_task(&Id(1)).unwrap().status(), Status::Pending);
    assert_eq!(d.tasks().len(), 1);
}

#[test]
fn home_context_match_and_sort_marks() {
    let mut done = Filters::default();
    done.status_completed = true;
    let mut m = home::init(Filters::default(), vec![context("done", done)]);
    assert!(!m.context_matches());
    m.update(home::Msg::FiltersStatusToggleCompleted).unwrap();
    assert!(m.context_matches());
    assert_eq!(m.sort_marker(Field::Urgency), '\u{2b07}');
    assert_eq!(m.sort_marker(Field::Due), '\u{2b0d}');
    m.update(home::Msg::ToggleSort(Field::Due)).unwrap();
    assert_eq!(m.sort_marker(Field::Due), '\u{2b06}');
}

#[test]
fn view_task_date_and_time_inputs() {
    let mut d = doc_with(1);
    let m = view_task::init(Id(1));
    // 2024-01-01T00:00:00Z
    let now = DateTime(1_704_067_200_000);
    view_task::update(view_task::Msg::SelectedTaskDueTimeChanged("09:15".to_string()), &mut d, &m, now);
    assert_eq!(*d.get_task(&Id(1)).unwrap().due(), Some(DateTime(1_704_100_500_000)));
    view_task::update(view_task::Msg::SelectedTaskDueDateChanged("2024-02-29".to_string()), &mut d, &m, now);
    assert_eq!(*d.get_task(&Id(1)).unwrap().due(), Some(DateTime(1_709_198_100_000)));
    view_task::update(view_task::Msg::SelectedTaskDueDateChanged("not a date".to_string()), &mut d, &m, now);
    assert_eq!(*d.get_task(&Id(1)).unwrap().due(), None);
    view_task::update(view_task::Msg::SelectedTaskScheduledTimeChanged("25:00".to_string()), &mut d, &m, now);
    assert_eq!(*d.get_task(&Id(1)).unwrap().scheduled(), None);
}

#[test]
fn saved_context_comes_back_by_name() {
    let mut m = home::init(Filters::default(), vec![context("x", Filters::default())]);
    m.update(home::Msg::FiltersStatusToggleWaiting).unwrap();
    m.update(home::Msg::FiltersDescriptionChanged("report".to_string())).unwrap();
    let saved = m.filters.duplicate();
    m.update(home::Msg::FiltersSave("x".to_string())).unwrap();
    assert_eq!(names(&m), vec!["x".to_string()]);
    m.update(home::Msg::FiltersReset).unwrap();
    m.update(home::Msg::SelectedContextChanged("x".to_string())).unwrap();
    assert!(m.filters.same(&saved));
}

#[test]
fn c_key_creates_a_task_when_nothing_is_focused() {
    assert!(home::key_creates_task("c", None));
    assert!(home::key_creates_task("C", Some("BODY")));
    assert!(!home::key_creates_task("c", Some("INPUT")));
    assert!(!home::key_creates_task("x", None));
    assert!(!home::key_creates_task("cc", None));
}

#[test]
fn saved_contexts_stay_apart() {
    let mut m = home::init(Filters::default(), vec![]);
    m.update(home::Msg::FiltersSave("a".to_string())).unwrap();
    m.update(home::Msg::FiltersStatusToggleCompleted).unwrap();
    m.update(home::Msg::FiltersSave("b".to_string())).unwrap();
    m.update(home::Msg::FiltersSave("a".to_string())).unwrap();
    assert_eq!(names(&m), vec!["a".to_string()]);
    m.update(home::Msg::FiltersReset).unwrap();
    m.update(home::Msg::FiltersSave("c".to_string())).unwrap();
    assert_eq!(names(&m), vec!["a".to_string(), "c".to_string()]);
    for i in 0..m.contexts.len() {
        for j in i + 1..m.contexts.len() {
            assert_ne!(m.contexts[i].name, m.contexts[j].name);
            assert!(!m.contexts[i].filters.same(&m.contexts[j].filters));
        }
    }
    m.update(home::Msg::ContextsRemove).unwrap();
    assert_eq!(names(&m), vec!["a".to_string()]);
    assert!(m.filters.same(&Filters::default()));
}

fn labels(t: &Task) -> Vec<&'static str> {
    view_task::task_actions(t).into_iter().map(|a| a.label()).collect()
}

#[test]
fn action_row_follows_the_status() {
    let mut t = Task::new_at(Id(1), DateTime(0));
    assert_eq!(labels(&t), vec!["Start", "Complete", "Delete", "Close"]);
    t.activate_at(DateTime(5));
    assert_eq!(labels(&t), vec!["Stop", "Complete", "Delete", "Close"]);
    t.complete_at(DateTime(6));
    assert_eq!(labels(&t), vec!["Uncomplete", "Close"]);
    t.restore();
    t.delete_at(DateTime(7));
    assert_eq!(labels(&t), vec!["Permanently delete", "Undelete", "Close"]);
    t.restore();
    t.set_recur(Some(Recur { amount: 1, unit: RecurUnit::Week }));
    assert_eq!(labels(&t), vec!["Delete", "Close"]);
    assert!(matches!(view_task::TaskAction::Undelete.msg(), Some(view_task::Msg::MoveSelectedTaskToPending)));
    assert!(view_task::TaskAction::Close.msg().is_none());
}
