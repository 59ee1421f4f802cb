use tasknet::document::Document;
use tasknet::task::{Id, Recur, RecurUnit, Status, Task, TaskChange};
use tasknet::time::DateTime;

const DAY: i64 = 86_400_000;

fn task(id: u128, entry: i64) -> Task {
    Task::new_at(Id(id), DateTime(entry))
}

#[test]
fn update_then_get_returns_the_task() {
    let mut d = Document::new();
    let mut t = task(1, 0);
    t.set_description("first".to_string());
    d.update_task(t);
    assert_eq!(d.get_task(&Id(1)).unwrap().description(), "first");
    let mut t2 = task(1, 5);
    t2.set_description("second".to_string());
    d.update_task(t2);
    assert_eq!(d.tasks().len(), 1);
    assert_eq!(d.get_task(&Id(1)).unwrap().description(), "second");
    assert!(d.get_task(&Id(2)).is_none());
}

#[test]
fn remove_then_get_is_none() {
    let mut d = Document::new();
    d.update_task(task(1, 0));
    d.update_task(task(2, 0));
    d.remove_task(&Id(1));
    assert!(d.get_task(&Id(1)).is_none());
    assert!(d.get_task(&Id(2)).is_some());
    d.remove_task(&Id(9));
    assert_eq!(d.tasks().len(), 1);
}

#[test]
fn change_task_edits_only_that_task() {
    let mut d = Document::new();
    d.update_task(task(1, 0));
    d.update_task(task(2, 0));
    d.change_task(&Id(2), TaskChange::Complete(DateTime(8)));
    assert_eq!(*d.get_task(&Id(2)).unwrap().status(), Status::Completed);
    assert_eq!(*d.get_task(&Id(1)).unwrap().status(), Status::Pending);
    d.change_task(&Id(3), TaskChange::Deactivate);
    assert_eq!(d.tasks().len(), 2);
}

#[test]
fn new_task_adds_one_pending_task() {
    let mut d = Document::new();
    let id = d.new_task();
    assert_eq!(d.tasks().len(), 1);
    let t = d.get_task(&id).unwrap();
    assert_eq!(*t.status(), Status::Pending);
    assert_eq!(t.description(), "");
}

#[test]
fn update_tasks_puts_each_in() {
    let mut d = Document::new();
    d.update_tasks(vec![task(1, 0), task(2, 0), task(1, 9)]);
    assert_eq!(d.tasks().len(), 2);
    assert_eq!(*d.get_task(&Id(1)).unwrap().entry(), DateTime(9));
}

fn recurring(id: u128, entry: i64, days: u16) -> Task {
    let mut t = task(id, entry);
    t.set_recur(Some(Recur { amount: days, unit: RecurUnit::Day }));
    t
}

#[test]
fn recurring_task_without_children_is_due() {
    let mut d = Document::new();
    d.update_task(recurring(1, 0, 1));
    d.update_task(task(2, 0));
    assert_eq!(d.recurring_due(DateTime(0)), vec![Id(1)]);
}

#[test]
fn recurring_task_with_young_child_is_not_due() {
    let mut d = Document::new();
    let r = recurring(1, 0, 1);
    let (_, child) = r.new_child_at(Id(1), Id(2), DateTime(10 * DAY));
    d.update_task(r);
    d.update_task(child);
    assert!(d.recurring_due(DateTime(10 * DAY + DAY)).is_empty());
    assert_eq!(d.recurring_due(DateTime(10 * DAY + DAY + 1)), vec![Id(1)]);
}

#[test]
fn recur_tick_spawns_and_settles() {
    let mut d = Document::new();
    d.update_task(recurring(1, 0, 2));
    d.update_task(recurring(2, 0, 1));
    let fresh = d.recur_tick_at(DateTime(5 * DAY));
    assert_eq!(fresh.len(), 2);
    assert_eq!(d.tasks().len(), 4);
    for (parent, child) in [Id(1), Id(2)].iter().zip(fresh.iter()) {
        let c = d.get_task(child).unwrap();
        assert_eq!(*c.parent(), Some(*parent));
        assert_eq!(*c.status(), Status::Pending);
        assert_eq!(*c.entry(), DateTime(5 * DAY));
    }
    // a second tick at the same time spawns nothing
    assert!(d.recur_tick_at(DateTime(5 * DAY)).is_empty());
    assert_eq!(d.tasks().len(), 4);
    // a day later only the daily task is due
    assert_eq!(d.recurring_due(DateTime(6 * DAY + 1)), vec![Id(2)]);
}

#[test]
fn recur_tick_now_on_empty_document_does_nothing() {
    let mut d = Document::new();
    d.update_task(task(1, 0));
    assert!(d.recur_tick().is_empty());
    assert_eq!(d.tasks().len(), 1);
}

fn recurring_without_interval(id: u128) -> Task {
    let mut f = task(id, 0).into_fields();
    f.status = Status::Recurring;
    f.recur = None;
    Task::from_fields(f)
}

#[test]
fn recurring_task_without_interval_gets_a_first_child_only() {
    let mut d = Document::new();
    d.update_task(recurring_without_interval(1));
    assert!(d.can_tick());
    assert_eq!(d.recurring_due(DateTime(0)), vec![Id(1)]);
    let fresh = d.recur_tick_at(DateTime(3 * DAY));
    assert_eq!(fresh.len(), 1);
    assert_eq!(*d.get_task(&fresh[0]).unwrap().parent(), Some(Id(1)));
    // with a child and no interval, a further tick has nothing to go by
    assert!(!d.can_tick());
}

#[test]
fn spawned_children_have_version_four_ids() {
    let mut d = Document::new();
    d.update_task(recurring(1, 0, 1));
    d.update_task(recurring(2, 0, 1));
    let fresh = d.recur_tick_at(DateTime(DAY));
    assert_eq!(fresh.len(), 2);
    for id in fresh {
        assert_eq!((id.0 >> 76) & 0xf, 4);
        assert_eq!((id.0 >> 62) & 0x3, 2);
    }
    let (cid, child) = recurring(3, 0, 1).new_child(Id(3));
    assert_eq!(*child.id(), cid);
    assert_eq!((cid.0 >> 76) & 0xf, 4);
    let id = d.new_task();
    assert_eq!((id.0 >> 76) & 0xf, 4);
    assert!(d.can_tick());
}
