use tasknet::task::{Id, Priority, Task};
use tasknet::time::DateTime;
use tasknet::urgency::{date_band, urgency_terms, DateBand};

const SECOND: i64 = 1_000;
const DAY: i64 = 86_400_000;

fn task(entry: i64) -> Task {
    Task::new_at(Id(1), DateTime(entry))
}

#[test]
fn date_band_counts_whole_days_past() {
    let now = DateTime(100 * DAY);
    assert_eq!(date_band(DateTime(100 * DAY), now), DateBand::Near(0));
    assert_eq!(date_band(DateTime(97 * DAY), now), DateBand::Near(3));
    assert_eq!(date_band(DateTime(93 * DAY), now), DateBand::Near(7));
    assert_eq!(date_band(DateTime(92 * DAY), now), DateBand::Late);
    assert_eq!(date_band(DateTime(110 * DAY), now), DateBand::Near(-10));
    assert_eq!(date_band(DateTime(114 * DAY), now), DateBand::Near(-14));
    assert_eq!(date_band(DateTime(115 * DAY), now), DateBand::Far);
}

#[test]
fn date_band_rounds_toward_zero() {
    let now = DateTime(100 * DAY);
    // a day and a half ahead is one whole day ahead
    assert_eq!(date_band(DateTime(100 * DAY + DAY + DAY / 2), now), DateBand::Near(-1));
    // half a day ago is no whole day
    assert_eq!(date_band(DateTime(100 * DAY - DAY / 2), now), DateBand::Near(0));
    // fourteen and a half days ahead still counts as fourteen
    assert_eq!(date_band(DateTime(100 * DAY + 14 * DAY + DAY / 2), now), DateBand::Near(-14));
}

#[test]
fn finished_and_recurring_tasks_have_no_urgency() {
    let now = DateTime(DAY);
    let mut done = task(0);
    done.complete_at(DateTime(5));
    assert_eq!(urgency_terms(&done, now), None);
    let mut deleted = task(0);
    deleted.delete_at(DateTime(5));
    assert_eq!(urgency_terms(&deleted, now), None);
    let mut recurring = task(0);
    recurring.set_recur(Some(tasknet::task::Recur { amount: 1, unit: tasknet::task::RecurUnit::Week }));
    assert_eq!(urgency_terms(&recurring, now), None);
}

#[test]
fn urgency_terms_of_a_full_task() {
    let now = DateTime(10 * DAY);
    let mut t = task(10 * DAY - 90 * SECOND - 500);
    t.set_project(vec!["home".to_string()]);
    t.set_tags(vec!["next".to_string(), "x".to_string()]);
    t.set_priority(Some(Priority::High));
    t.set_notes("some notes".to_string());
    t.set_due(Some(DateTime(8 * DAY)));
    t.set_scheduled(Some(DateTime(30 * DAY)));
    let u = urgency_terms(&t, now).unwrap();
    assert!(!u.waiting);
    assert_eq!(u.age_seconds, 90);
    assert!(u.project);
    assert!(!u.active);
    assert_eq!(u.due, Some(DateBand::Near(2)));
    assert_eq!(u.scheduled, Some(DateBand::Far));
    assert_eq!(u.tag_count, 2);
    assert!(u.next);
    assert_eq!(u.priority, Some(Priority::High));
    assert!(u.notes);
}

#[test]
fn urgency_terms_of_a_bare_active_task() {
    let now = DateTime(DAY);
    let mut t = task(0);
    t.set_tags(vec!["nextish".to_string()]);
    t.activate_at(DateTime(5));
    let u = urgency_terms(&t, now).unwrap();
    assert!(u.active);
    assert!(!u.project);
    assert!(!u.next);
    assert_eq!(u.tag_count, 1);
    assert_eq!(u.due, None);
    assert_eq!(u.scheduled, None);
    assert_eq!(u.priority, None);
    assert!(!u.notes);
    assert_eq!(u.age_seconds, 86_400);
}

#[test]
fn urgency_presence_does_not_depend_on_time() {
    let t = task(0);
    assert!(urgency_terms(&t, DateTime(0)).is_some());
    assert!(urgency_terms(&t, DateTime(1_000 * DAY)).is_some());
    let mut done = task(0);
    done.complete_at(DateTime(1));
    assert!(urgency_terms(&done, DateTime(0)).is_none());
    assert!(urgency_terms(&done, DateTime(1_000 * DAY)).is_none());
}
