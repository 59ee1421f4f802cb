use tasknet::task::{Id, Priority, Recur, RecurUnit, Status, Task, TaskChange};
use tasknet::time::DateTime;

fn task(id: u128, entry: i64) -> Task {
    Task::new_at(Id(id), DateTime(entry))
}

#[test]
fn new_task_is_pending_and_empty() {
    let t = task(7, 1_000);
    assert_eq!(*t.id(), Id(7));
    assert_eq!(*t.status(), Status::Pending);
    assert_eq!(*t.entry(), DateTime(1_000));
    assert_eq!(t.description(), "");
    assert!(t.project().is_empty());
    assert!(t.tags().is_empty());
    assert_eq!(*t.priority(), None);
    assert_eq!(*t.recur(), None);
    assert_eq!(*t.parent(), None);
    assert_eq!(t.end(), None);
}

#[test]
fn new_task_gets_random_identifiers() {
    let a = Task::new();
    let b = Task::new();
    assert_ne!(a.id(), b.id());
    assert_eq!(*a.status(), Status::Pending);
}

#[test]
fn set_recur_makes_recurring_and_clearing_makes_pending() {
    let mut t = task(1, 0);
    t.set_recur(Some(Recur { amount: 2, unit: RecurUnit::Day }));
    assert_eq!(*t.status(), Status::Recurring);
    t.set_recur(None);
    assert_eq!(*t.status(), Status::Pending);
    assert_eq!(*t.recur(), None);
}

#[test]
fn clearing_recur_of_completed_task_keeps_status() {
    let mut t = task(1, 0);
    t.complete_at(DateTime(5));
    t.set_recur(None);
    assert_eq!(*t.status(), Status::Completed);
}

#[test]
fn complete_then_restore() {
    let mut t = task(1, 0);
    t.activate_at(DateTime(3));
    t.complete_at(DateTime(9));
    assert_eq!(*t.status(), Status::Completed);
    assert_eq!(t.end(), Some(DateTime(9)));
    assert_eq!(*t.start(), None);
    t.restore();
    assert_eq!(*t.status(), Status::Pending);
    assert_eq!(t.end(), None);
}

#[test]
fn delete_then_restore() {
    let mut t = task(1, 0);
    t.delete_at(DateTime(4));
    assert_eq!(*t.status(), Status::Deleted);
    assert_eq!(t.end(), Some(DateTime(4)));
    t.restore();
    assert_eq!(*t.status(), Status::Pending);
}

#[test]
fn restore_leaves_waiting_alone() {
    let mut t = task(1, 0);
    t.set_recur(Some(Recur { amount: 1, unit: RecurUnit::Week }));
    t.restore();
    assert_eq!(*t.status(), Status::Recurring);
}

#[test]
fn complete_now_and_delete_now_record_an_end() {
    let mut t = task(1, 0);
    t.complete();
    assert!(t.end().is_some());
    let mut u = task(2, 0);
    u.delete();
    assert!(u.end().is_some());
    assert_eq!(*u.status(), Status::Deleted);
}

#[test]
fn activate_drops_next_tags_only() {
    let mut t = task(1, 0);
    t.set_tags(vec!["home".to_string(), "next".to_string(), "nextish".to_string(), "next".to_string()]);
    t.activate_at(DateTime(42));
    assert_eq!(t.tags(), &["home".to_string(), "nextish".to_string()]);
    assert_eq!(*t.start(), Some(DateTime(42)));
    t.deactivate();
    assert_eq!(*t.start(), None);
    assert_eq!(t.tags().len(), 2);
}

#[test]
fn activate_now_sets_start() {
    let mut t = task(1, 0);
    t.activate();
    assert!(t.start().is_some());
}

#[test]
fn setters_change_only_their_field() {
    let mut t = task(1, 0);
    t.set_description("write tests".to_string());
    t.set_project(vec!["work".to_string(), "tasknet".to_string()]);
    t.set_notes("some notes".to_string());
    t.set_priority(Some(Priority::High));
    t.set_due(Some(DateTime(100)));
    t.set_scheduled(Some(DateTime(50)));
    assert_eq!(t.description(), "write tests");
    assert_eq!(t.project(), &["work".to_string(), "tasknet".to_string()]);
    assert_eq!(t.notes(), "some notes");
    assert_eq!(*t.priority(), Some(Priority::High));
    assert_eq!(*t.due(), Some(DateTime(100)));
    assert_eq!(*t.scheduled(), Some(DateTime(50)));
    assert_eq!(*t.status(), Status::Pending);
}

#[test]
fn new_child_copies_and_links_to_parent() {
    let mut t = task(1, 0);
    t.set_description("water plants".to_string());
    t.set_tags(vec!["home".to_string()]);
    t.set_recur(Some(Recur { amount: 1, unit: RecurUnit::Week }));
    let (id, child) = t.new_child_at(Id(1), Id(2), DateTime(77));
    assert_eq!(id, Id(2));
    assert_eq!(*child.id(), Id(2));
    assert_eq!(*child.parent(), Some(Id(1)));
    assert_eq!(*child.status(), Status::Pending);
    assert_eq!(*child.entry(), DateTime(77));
    assert_eq!(child.description(), "water plants");
    assert_eq!(child.tags(), &["home".to_string()]);
    assert_eq!(*child.recur(), Some(Recur { amount: 1, unit: RecurUnit::Week }));
    let (rid, random_child) = t.new_child(Id(1));
    assert_eq!(rid, *random_child.id());
    assert_eq!(*random_child.parent(), Some(Id(1)));
}

#[test]
fn apply_matches_the_named_methods() {
    let mut t = task(1, 0);
    t.apply(TaskChange::SetDescription("x".to_string()));
    t.apply(TaskChange::SetRecur(Some(Recur { amount: 3, unit: RecurUnit::Hour })));
    assert_eq!(t.description(), "x");
    assert_eq!(*t.status(), Status::Recurring);
    t.apply(TaskChange::Complete(DateTime(10)));
    assert_eq!(*t.status(), Status::Completed);
    t.apply(TaskChange::Restore);
    assert_eq!(*t.status(), Status::Pending);
}

#[test]
fn recur_durations() {
    assert_eq!(RecurUnit::Hour.duration().millis, 3_600_000);
    assert_eq!(RecurUnit::Day.duration().millis, 86_400_000);
    assert_eq!(RecurUnit::Week.duration().millis, 604_800_000);
    assert_eq!(RecurUnit::Month.duration().millis, 4 * 604_800_000);
    assert_eq!(RecurUnit::Year.duration().millis, 52 * 604_800_000);
    assert_eq!(Recur { amount: 3, unit: RecurUnit::Day }.duration().millis, 3 * 86_400_000);
    assert_eq!(Recur { amount: 0, unit: RecurUnit::Year }.duration().millis, 0);
    assert_eq!(
        Recur { amount: u16::MAX, unit: RecurUnit::Year }.duration().millis,
        65_535 * 52 * 604_800_000
    );
}

#[test]
fn recur_unit_parsing_ignores_case_and_whitespace() {
    assert_eq!(RecurUnit::try_from("  Week ".to_string()), Ok(RecurUnit::Week));
    assert_eq!(RecurUnit::try_from("YEAR".to_string()), Ok(RecurUnit::Year));
    assert_eq!(RecurUnit::try_from("month".to_string()), Ok(RecurUnit::Month));
    assert_eq!(RecurUnit::try_from("day".to_string()), Ok(RecurUnit::Day));
    assert_eq!(RecurUnit::try_from("hour\n".to_string()), Ok(RecurUnit::Hour));
    assert_eq!(RecurUnit::try_from("fortnight".to_string()), Err(()));
    assert_eq!(RecurUnit::try_from("".to_string()), Err(()));
    assert_eq!(RecurUnit::default(), RecurUnit::Week);
}

#[test]
fn priority_parsing() {
    assert_eq!(Priority::try_from("H".to_string()), Ok(Priority::High));
    assert_eq!(Priority::try_from(" m ".to_string()), Ok(Priority::Medium));
    assert_eq!(Priority::try_from("l".to_string()), Ok(Priority::Low));
    assert_eq!(Priority::try_from("".to_string()), Err(()));
    assert_eq!(Priority::try_from("high".to_string()), Err(()));
}

#[test]
fn ids_parse_and_print() {
    let id = Id::from_str("67e55044-10b1-426f-9247-bb680e5fe0c8").unwrap();
    assert_eq!(id.0, 0x67e55044_10b1_426f_9247_bb680e5fe0c8);
    assert_eq!(id.to_string(), "67e55044-10b1-426f-9247-bb680e5fe0c8");
    assert!(Id::from_str("not a uuid").is_err());
    assert_ne!(Id::new(), Id::new());
}

#[test]
fn status_default_is_pending() {
    assert_eq!(Status::default(), Status::Pending);
    assert_eq!(*Task::default().status(), Status::Pending);
}

#[test]
fn fields_round_trip() {
    let mut t = task(3, 100);
    t.set_description("x".to_string());
    t.set_tags(vec!["a".to_string()]);
    t.complete_at(DateTime(200));
    let f = t.clone().into_fields();
    assert_eq!(f.status, Status::Completed);
    assert_eq!(f.end, Some(DateTime(200)));
    let back = Task::from_fields(f);
    assert_eq!(back.description(), "x");
    assert_eq!(back.tags(), &["a".to_string()][..]);
    assert_eq!(*back.status(), Status::Completed);
    assert_eq!(back.end(), Some(DateTime(200)));
}

#[test]
fn new_ids_are_version_four_uuids() {
    for _ in 0..8 {
        let id = Id::new();
        assert_eq!((id.0 >> 76) & 0xf, 4);
        assert_eq!((id.0 >> 62) & 0x3, 2);
        assert_eq!(id.to_string().chars().nth(14), Some('4'));
    }
}
