//! The inputs of a task's urgency. Urgency itself is a weighted sum of these
//! terms with user-chosen floating-point coefficients; this module decides,
//! from the task and the current time, which terms apply and with what
//! integer measure (age in seconds, days overdue, number of tags).
use vstd::prelude::*;

use crate::task::{next_tag, Priority, Status, Task, TaskModel};
use crate::text::{same_text, strings_view};
use crate::time::{trunc_div, DateTime};

verus! {

/// Where a date lies relative to now, in whole days past it (negative when
/// it is still ahead): more than a week late, within the window from two
/// weeks ahead to a week late, or further ahead than that.
#[derive(Clone, Copy, Debug, PartialEq, Eq, Structural)]
pub enum DateBand {
    Late,
    Near(i128),
    Far,
}

/// The terms that make up a task's urgency.
#[derive(Clone, Copy, Debug, PartialEq, Eq, Structural)]
pub struct UrgencyTerms {
    /// The task is waiting (the waiting coefficient applies).
    pub waiting: bool,
    /// Whole seconds since the task was entered.
    pub age_seconds: i128,
    /// The task belongs to a project.
    pub project: bool,
    /// The task is being worked on (pending tasks only).
    pub active: bool,
    /// Where the due date lies, if there is one.
    pub due: Option<DateBand>,
    /// Where the scheduled date lies, if there is one.
    pub scheduled: Option<DateBand>,
    /// How many tags the task has.
    pub tag_count: usize,
    /// The task is tagged `next`.
    pub next: bool,
    pub priority: Option<Priority>,
    /// The task has notes.
    pub notes: bool,
}

/// Whole days from `date` to `now`, rounded toward zero.
pub open spec fn days_past(date: DateTime, now: DateTime) -> int {
    trunc_div(trunc_div(now.0 - date.0, 1000), 86400)
}

/// The band of a date seen from `now`.
pub open spec fn band_of(date: DateTime, now: DateTime) -> DateBand {
    let d = days_past(date, now);
    if d > 7 {
        DateBand::Late
    } else if d >= -14 {
        DateBand::Near(d as i128)
    } else {
        DateBand::Far
    }
}

/// Whether a task has an urgency at all: only pending and waiting tasks do.
pub open spec fn has_urgency(t: TaskModel) -> bool {
    t.status == Status::Pending || t.status == Status::Waiting
}

/// The urgency terms of a task at `now`; finished and recurring tasks have none.
pub open spec fn terms_of(t: TaskModel, now: DateTime) -> Option<UrgencyTerms> {
    match t.status {
        Status::Deleted | Status::Completed | Status::Recurring => None,
        Status::Waiting | Status::Pending => Some(
            UrgencyTerms {
                waiting: t.status == Status::Waiting,
                age_seconds: trunc_div(now.0 - t.entry.0, 1000) as i128,
                project: t.project.len() > 0,
                active: t.status == Status::Pending && t.start is Some,
                due: match t.due {
                    Some(d) => Some(band_of(d, now)),
                    None => None,
                },
                scheduled: match t.scheduled {
                    Some(d) => Some(band_of(d, now)),
                    None => None,
                },
                tag_count: t.tags.len() as usize,
                next: t.tags.contains(next_tag()),
                priority: t.priority,
                notes: t.notes.len() > 0,
            },
        ),
    }
}

/// The band of `date` seen from `now`.
pub fn date_band(date: DateTime, now: DateTime) -> (b: DateBand)
    ensures
        b == band_of(date, now),
{
    let days = now.signed_duration_since(date).num_days();
    if days > 7 {
        DateBand::Late
    } else if days >= -14 {
        DateBand::Near(days)
    } else {
        DateBand::Far
    }
}

/// Whether one of the tags is exactly `next`.
pub(crate) fn has_next_tag(tags: &[String]) -> (r: bool)
    ensures
        r == strings_view(tags@).contains(next_tag()),
{
    proof {
        reveal_strlit("next");
        assert("next"@ =~= next_tag());
    }
    let mut i: usize = 0;
    while i < tags.len()
        invariant
            i <= tags@.len(),
            forall|k: int| 0 <= k < i ==> strings_view(tags@)[k] != next_tag(),
        decreases tags.len() - i,
    {
        proof {
            reveal_strlit("next");
            assert("next"@ =~= next_tag());
            assert(strings_view(tags@)[i as int] == tags@[i as int]@);
        }
        if same_text(tags[i].as_str(), "next") {
            return true;
        }
        i = i + 1;
    }
    false
}

/// The urgency terms of `task` at `now`; `None` for completed, deleted and
/// recurring tasks.
pub fn urgency_terms(task: &Task, now: DateTime) -> (r: Option<UrgencyTerms>)
    ensures
        r == terms_of(task@, now),
{
    let status = *task.status();
    match status {
        Status::Deleted | Status::Completed | Status::Recurring => None,
        Status::Waiting | Status::Pending => {
            let age_seconds = now.signed_duration_since(*task.entry()).num_seconds();
            let due = match task.due() {
                Some(d) => Some(date_band(*d, now)),
                None => None,
            };
            let scheduled = match task.scheduled() {
                Some(d) => Some(date_band(*d, now)),
                None => None,
            };
            Some(
                UrgencyTerms {
                    waiting: status == Status::Waiting,
                    age_seconds,
                    project: task.project().len() > 0,
                    active: status == Status::Pending && task.start().is_some(),
                    due,
                    scheduled,
                    tag_count: task.tags().len(),
                    next: has_next_tag(task.tags()),
                    priority: *task.priority(),
                    notes: !task.notes().is_empty(),
                },
            )
        },
    }
}

/// Law: a task has urgency terms at some time exactly when it is pending
/// or waiting, whatever the time; only a waiting task carries the waiting
/// term, and only a pending task can be active.
pub proof fn law_urgency_presence(t: TaskModel, now: DateTime, later: DateTime)
    ensures
        (terms_of(t, now) is Some) == has_urgency(t),
        (terms_of(t, now) is Some) == (terms_of(t, later) is Some),
        terms_of(t, now) matches Some(u) ==> (u.waiting == (t.status == Status::Waiting)),
        terms_of(t, now) matches Some(u) ==> (u.active ==> t.status == Status::Pending),
{
}

/// Law: the urgency terms of a pending or waiting task are read off the
/// task itself: its own priority, whether it has notes and a project, how
/// many tags it has and whether one is `next`, whether it is started, and
/// which of the due and scheduled dates it has. Its age is its whole
/// seconds since entry, rounded toward zero.
pub proof fn law_terms_follow_task(t: TaskModel, now: DateTime)
    requires
        t.status == Status::Pending || t.status == Status::Waiting,
        t.tags.len() <= usize::MAX,
    ensures
        terms_of(t, now) is Some,
        terms_of(t, now).unwrap().priority == t.priority,
        terms_of(t, now).unwrap().notes == (t.notes.len() > 0),
        terms_of(t, now).unwrap().project == (t.project.len() > 0),
        terms_of(t, now).unwrap().tag_count == t.tags.len(),
        terms_of(t, now).unwrap().next == t.tags.contains(next_tag()),
        terms_of(t, now).unwrap().active == (t.status == Status::Pending && t.start is Some),
        terms_of(t, now).unwrap().waiting == (t.status == Status::Waiting),
        (terms_of(t, now).unwrap().due is Some) == (t.due is Some),
        (terms_of(t, now).unwrap().scheduled is Some) == (t.scheduled is Some),
        now.0 >= t.entry.0 ==> 1000 * terms_of(t, now).unwrap().age_seconds <= now.0 - t.entry.0 < 1000
            * terms_of(t, now).unwrap().age_seconds + 1000,
        now.0 < t.entry.0 ==> 1000 * terms_of(t, now).unwrap().age_seconds - 1000 < now.0 - t.entry.0 <= 1000
            * terms_of(t, now).unwrap().age_seconds,
{
    let d = now.0 - t.entry.0;
    if d < 0 {
        assert(trunc_div(d, 1000) == -((-d) / 1000));
    }
}

/// Law: a date more than a week past (at least eight whole days) is late,
/// one more than two weeks ahead (at least fifteen whole days) is far, and
/// any other date is near, counted in whole days past.
pub proof fn law_date_bands(date: DateTime, now: DateTime)
    ensures
        (band_of(date, now) == DateBand::Late) == (now.0 - date.0 >= 8 * 86_400_000),
        (band_of(date, now) == DateBand::Far) == (now.0 - date.0 <= -15 * 86_400_000),
        band_of(date, now) is Near ==> -14 <= days_past(date, now) <= 7 && band_of(date, now)
            == DateBand::Near(days_past(date, now) as i128),
        days_past(date, now) > 0 ==> 86_400_000 * days_past(date, now) <= now.0 - date.0 < 86_400_000 * (
        days_past(date, now) + 1),
        days_past(date, now) < 0 ==> 86_400_000 * (days_past(date, now) - 1) < now.0 - date.0 <= 86_400_000
            * days_past(date, now),
        days_past(date, now) == 0 ==> -86_400_000 < now.0 - date.0 < 86_400_000,
{
    let x = now.0 - date.0;
    let k = days_past(date, now);
    if x >= 0 {
        let sec = x / 1000;
        assert(1000 * sec <= x < 1000 * sec + 1000) by (nonlinear_arith)
            requires
                sec == x / 1000,
                x >= 0,
        ;
        assert(86400 * (sec / 86400) <= sec < 86400 * (sec / 86400) + 86400) by (nonlinear_arith)
            requires
                sec >= 0,
        ;
        assert(k == sec / 86400);
        assert(86_400_000 * k <= x < 86_400_000 * (k + 1));
    } else {
        let sec = (-x) / 1000;
        assert(1000 * sec <= -x < 1000 * sec + 1000) by (nonlinear_arith)
            requires
                sec == (-x) / 1000,
                -x > 0,
        ;
        assert(86400 * (sec / 86400) <= sec < 86400 * (sec / 86400) + 86400) by (nonlinear_arith)
            requires
                sec >= 0,
        ;
        assert(k == -(sec / 86400));
        assert(86_400_000 * (k - 1) < x <= 86_400_000 * k);
    }
}

} // verus!
