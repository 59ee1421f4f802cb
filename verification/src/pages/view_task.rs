//! The page that shows one task and edits it.
use vstd::prelude::*;

use crate::dates::{date_edited, edit_date, edit_time, time_edited};
use crate::document::Document;
use crate::input::{parse_project, parse_tags, parse_u16, parsed_u16, project_from_input, tags_from_input};
use crate::task::{
    changed, priority_named, recur_unit_named, Id, Priority, Recur, RecurUnit, Status, Task,
    TaskChange, TaskModel,
};
use crate::text::{lowercase_of, strings_view, trimmed};
use crate::time::DateTime;

verus! {

/// The state of the task page: which task it shows.
pub struct Model {
    pub selected_task: Id,
}

/// The page as it opens on a task.
pub fn init(id: Id) -> (m: Model)
    ensures
        m.selected_task == id,
{
    Model { selected_task: id }
}

/// A message of the task page.
pub enum Msg {
    SelectedTaskDescriptionChanged(String),
    SelectedTaskProjectChanged(String),
    SelectedTaskTagsChanged(String),
    SelectedTaskPriorityChanged(String),
    SelectedTaskNotesChanged(String),
    SelectedTaskDueDateChanged(String),
    SelectedTaskDueTimeChanged(String),
    SelectedTaskScheduledDateChanged(String),
    SelectedTaskScheduledTimeChanged(String),
    SelectedTaskRecurUnitChanged(String),
    SelectedTaskRecurAmountChanged(String),
    DeleteSelectedTask,
    CompleteSelectedTask,
    StartSelectedTask,
    StopSelectedTask,
    MoveSelectedTaskToPending,
    EscapeKey,
}

/// What the page does besides editing the task: whether it goes back to
/// the task list, and whether it asks the user to confirm removing the
/// (already deleted) task for good.
#[derive(Clone, Copy, Debug, PartialEq, Eq, Structural)]
pub struct Outcome {
    pub go_home: bool,
    pub confirm_removal: bool,
}

/// A task with its recurrence set as `Task::set_recur` sets it.
pub open spec fn with_recur(t: TaskModel, r: Option<Recur>) -> TaskModel {
    TaskModel { recur: r, status: t.status_after_set_recur(r), ..t }
}

/// The task after a message at `now`, or `None` when the message leaves it as it is.
#[verifier::opaque]
pub open spec fn edited(t: TaskModel, msg: Msg, now: DateTime) -> Option<TaskModel> {
    match msg {
        Msg::SelectedTaskDescriptionChanged(s) => Some(TaskModel { description: s@, ..t }),
        Msg::SelectedTaskProjectChanged(s) => Some(TaskModel { project: project_from_input(s@), ..t }),
        Msg::SelectedTaskTagsChanged(s) => Some(TaskModel { tags: tags_from_input(s@), ..t }),
        Msg::SelectedTaskPriorityChanged(s) => Some(
            TaskModel {
                priority: match priority_named(lowercase_of(trimmed(s@))) {
                    Ok(p) => Some(p),
                    Err(_) => None,
                },
                ..t
            },
        ),
        Msg::SelectedTaskNotesChanged(s) => Some(TaskModel { notes: s@, ..t }),
        Msg::SelectedTaskDueDateChanged(s) => Some(TaskModel { due: date_edited(t.due, s@), ..t }),
        Msg::SelectedTaskDueTimeChanged(s) => Some(TaskModel { due: time_edited(t.due, s@, now), ..t }),
        Msg::SelectedTaskScheduledDateChanged(s) => Some(
            TaskModel { scheduled: date_edited(t.scheduled, s@), ..t },
        ),
        Msg::SelectedTaskScheduledTimeChanged(s) => Some(
            TaskModel { scheduled: time_edited(t.scheduled, s@, now), ..t },
        ),
        Msg::SelectedTaskRecurUnitChanged(s) => match recur_unit_named(lowercase_of(trimmed(s@))) {
            Ok(unit) => Some(
                with_recur(
                    t,
                    Some(
                        Recur {
                            amount: match t.recur {
                                Some(r) => r.amount,
                                None => 1,
                            },
                            unit,
                        },
                    ),
                ),
            ),
            Err(_) => Some(with_recur(t, None)),
        },
        Msg::SelectedTaskRecurAmountChanged(s) => match parsed_u16(s@) {
            Some(n) => if n > 0 {
                Some(
                    with_recur(
                        t,
                        Some(
                            Recur {
                                amount: n,
                                unit: match t.recur {
                                    Some(r) => r.unit,
                                    None => RecurUnit::Week,
                                },
                            },
                        ),
                    ),
                )
            } else {
                Some(with_recur(t, None))
            },
            None => None,
        },
        Msg::DeleteSelectedTask => if t.status == Status::Deleted {
            None
        } else {
            Some(TaskModel { end: Some(now), status: Status::Deleted, ..t })
        },
        Msg::CompleteSelectedTask => Some(
            TaskModel { end: Some(now), start: None, status: Status::Completed, ..t },
        ),
        Msg::StartSelectedTask => Some(
            TaskModel { tags: crate::task::without_next(t.tags), start: Some(now), ..t },
        ),
        Msg::StopSelectedTask => Some(TaskModel { start: None, ..t }),
        Msg::MoveSelectedTaskToPending => Some(TaskModel { status: t.status_after_restore(), ..t }),
        Msg::EscapeKey => None,
    }
}

/// Whether a message sends the page back to the task list.
pub open spec fn leaves_page(msg: Msg) -> bool {
    match msg {
        Msg::DeleteSelectedTask | Msg::CompleteSelectedTask | Msg::StartSelectedTask
        | Msg::StopSelectedTask | Msg::MoveSelectedTaskToPending | Msg::EscapeKey => true,
        _ => false,
    }
}

/// The edit a message makes to `task` at `now`, if any.
fn change_for(msg: Msg, task: &Task, now: DateTime) -> (r: Option<TaskChange>)
    ensures
        match r {
            Some(c) => edited(task@, msg, now) == Some(changed(task@, c)),
            None => edited(task@, msg, now) is None,
        },
{
    proof {
        reveal(edited);
    }
    let ghost t = task@;
    match msg {
        Msg::SelectedTaskDescriptionChanged(s) => Some(TaskChange::SetDescription(s)),
        Msg::SelectedTaskProjectChanged(s) => Some(TaskChange::SetProject(parse_project(s.as_str()))),
        Msg::SelectedTaskTagsChanged(s) => Some(TaskChange::SetTags(parse_tags(s.as_str()))),
        Msg::SelectedTaskPriorityChanged(s) => {
            let p = match Priority::try_from(s) {
                Ok(p) => Some(p),
                Err(()) => None,
            };
            Some(TaskChange::SetPriority(p))
        },
        Msg::SelectedTaskNotesChanged(s) => Some(TaskChange::SetNotes(s)),
        Msg::SelectedTaskDueDateChanged(s) => Some(TaskChange::SetDue(edit_date(*task.due(), s.as_str()))),
        Msg::SelectedTaskDueTimeChanged(s) => Some(
            TaskChange::SetDue(edit_time(*task.due(), s.as_str(), now)),
        ),
        Msg::SelectedTaskScheduledDateChanged(s) => Some(
            TaskChange::SetScheduled(edit_date(*task.scheduled(), s.as_str())),
        ),
        Msg::SelectedTaskScheduledTimeChanged(s) => Some(
            TaskChange::SetScheduled(edit_time(*task.scheduled(), s.as_str(), now)),
        ),
        Msg::SelectedTaskRecurUnitChanged(s) => match RecurUnit::try_from(s) {
            Ok(unit) => {
                let amount = match task.recur() {
                    Some(r) => r.amount,
                    None => 1,
                };
                Some(TaskChange::SetRecur(Some(Recur { amount, unit })))
            },
            Err(()) => Some(TaskChange::SetRecur(None)),
        },
        Msg::SelectedTaskRecurAmountChanged(s) => match parse_u16(s.as_str()) {
            Some(n) => if n > 0 {
                let unit = match task.recur() {
                    Some(r) => r.unit,
                    None => RecurUnit::Week,
                };
                Some(TaskChange::SetRecur(Some(Recur { amount: n, unit })))
            } else {
                Some(TaskChange::SetRecur(None))
            },
            None => None,
        },
        Msg::DeleteSelectedTask => if *task.status() == Status::Deleted {
            None
        } else {
            Some(TaskChange::Delete(now))
        },
        Msg::CompleteSelectedTask => Some(TaskChange::Complete(now)),
        Msg::StartSelectedTask => Some(TaskChange::Activate(now)),
        Msg::StopSelectedTask => Some(TaskChange::Deactivate),
        Msg::MoveSelectedTaskToPending => Some(TaskChange::Restore),
        Msg::EscapeKey => None,
    }
}

/// Handles a message at `now`: edits the shown task in the document (if it
/// is still there) and says whether to go back to the list and whether to
/// ask for confirmation before removing a deleted task for good.
pub fn update(msg: Msg, document: &mut Document, model: &Model, now: DateTime) -> (out: Outcome)
    ensures
        final(document)@ == (if old(document)@.contains_key(model.selected_task)
            && edited(old(document)@[model.selected_task], msg, now) is Some {
            old(document)@.insert(
                model.selected_task,
                edited(old(document)@[model.selected_task], msg, now).unwrap(),
            )
        } else {
            old(document)@
        }),
        out.go_home == leaves_page(msg),
        out.confirm_removal == (msg is DeleteSelectedTask && old(document)@.contains_key(
            model.selected_task,
        ) && old(document)@[model.selected_task].status == Status::Deleted),
{
    let go_home = match msg {
        Msg::DeleteSelectedTask | Msg::CompleteSelectedTask | Msg::StartSelectedTask
        | Msg::StopSelectedTask | Msg::MoveSelectedTaskToPending | Msg::EscapeKey => true,
        _ => false,
    };
    let is_delete = match msg {
        Msg::DeleteSelectedTask => true,
        _ => false,
    };
    let ghost m = msg;
    match document.get_task(&model.selected_task) {
        Some(task) => {
            let confirm_removal = is_delete && *task.status() == Status::Deleted;
            let change = change_for(msg, task, now);
            match change {
                Some(c) => document.change_task(&model.selected_task, c),
                None => {},
            }
            Outcome { go_home, confirm_removal }
        },
        None => Outcome { go_home, confirm_removal: false },
    }
}

/// Handles the user's answer to the confirmation `update` asked for: the
/// deleted task is removed from the document for good when the user
/// confirmed, and kept otherwise (also when the dialog failed).
pub fn removal_answered(confirmed: bool, document: &mut Document, model: &Model)
    ensures
        final(document)@ == (if confirmed {
            old(document)@.remove(model.selected_task)
        } else {
            old(document)@
        }),
{
    if confirmed {
        document.remove_task(&model.selected_task);
    }
}

/// A button of the task page's action row.
#[derive(Clone, Copy, Debug, PartialEq, Eq, Structural)]
pub enum TaskAction {
    Start,
    Stop,
    Complete,
    Delete,
    PermanentlyDelete,
    Undelete,
    Uncomplete,
    Close,
}

/// The action row for a task with status `status` that has been started
/// (`started`) or not: a pending task can be started or stopped and
/// completed; a pending, waiting or recurring task deleted; a deleted task
/// deleted for good or restored; a completed task restored; and every task
/// page can be closed.
pub open spec fn actions_for(status: Status, started: bool) -> Seq<TaskAction> {
    let pending = status == Status::Pending;
    let run = if pending {
        if started {
            seq![TaskAction::Stop, TaskAction::Complete]
        } else {
            seq![TaskAction::Start, TaskAction::Complete]
        }
    } else {
        seq![]
    };
    let ends = match status {
        Status::Pending | Status::Waiting | Status::Recurring => seq![TaskAction::Delete],
        Status::Deleted => seq![TaskAction::PermanentlyDelete, TaskAction::Undelete],
        Status::Completed => seq![TaskAction::Uncomplete],
    };
    run + ends + seq![TaskAction::Close]
}

/// The buttons of the action row for `task`, in order.
pub fn task_actions(task: &Task) -> (r: Vec<TaskAction>)
    ensures
        r@ == actions_for(task@.status, task@.start is Some),
{
    let mut r: Vec<TaskAction> = Vec::new();
    let status = *task.status();
    if status == Status::Pending {
        if task.start().is_some() {
            r.push(TaskAction::Stop);
        } else {
            r.push(TaskAction::Start);
        }
        r.push(TaskAction::Complete);
    }
    match status {
        Status::Pending | Status::Waiting | Status::Recurring => r.push(TaskAction::Delete),
        Status::Deleted => {
            r.push(TaskAction::PermanentlyDelete);
            r.push(TaskAction::Undelete);
        },
        Status::Completed => r.push(TaskAction::Uncomplete),
    }
    r.push(TaskAction::Close);
    assert(r@ =~= actions_for(task@.status, task@.start is Some));
    r
}

impl TaskAction {
    /// The message the button sends to the page; closing the page is left
    /// to the client, which goes back to the task list.
    pub fn msg(self) -> (m: Option<Msg>)
        ensures
            match self {
                TaskAction::Start => m matches Some(Msg::StartSelectedTask),
                TaskAction::Stop => m matches Some(Msg::StopSelectedTask),
                TaskAction::Complete => m matches Some(Msg::CompleteSelectedTask),
                TaskAction::Delete | TaskAction::PermanentlyDelete => m matches Some(
                    Msg::DeleteSelectedTask,
                ),
                TaskAction::Undelete | TaskAction::Uncomplete => m matches Some(
                    Msg::MoveSelectedTaskToPending,
                ),
                TaskAction::Close => m is None,
            },
    {
        match self {
            TaskAction::Start => Some(Msg::StartSelectedTask),
            TaskAction::Stop => Some(Msg::StopSelectedTask),
            TaskAction::Complete => Some(Msg::CompleteSelectedTask),
            TaskAction::Delete | TaskAction::PermanentlyDelete => Some(Msg::DeleteSelectedTask),
            TaskAction::Undelete | TaskAction::Uncomplete => Some(Msg::MoveSelectedTaskToPending),
            TaskAction::Close => None,
        }
    }

    /// The button's text.
    pub fn label(self) -> (r: &'static str)
        ensures
            r@ == action_text(self),
    {
        proof {
            reveal_strlit("Start");
            reveal_strlit("Stop");
            reveal_strlit("Complete");
            reveal_strlit("Delete");
            reveal_strlit("Permanently delete");
            reveal_strlit("Undelete");
            reveal_strlit("Uncomplete");
            reveal_strlit("Close");
            assert("Start"@ =~= action_text(TaskAction::Start));
            assert("Stop"@ =~= action_text(TaskAction::Stop));
            assert("Complete"@ =~= action_text(TaskAction::Complete));
            assert("Delete"@ =~= action_text(TaskAction::Delete));
            assert("Permanently delete"@ =~= action_text(TaskAction::PermanentlyDelete));
            assert("Undelete"@ =~= action_text(TaskAction::Undelete));
            assert("Uncomplete"@ =~= action_text(TaskAction::Uncomplete));
            assert("Close"@ =~= action_text(TaskAction::Close));
        }
        match self {
            TaskAction::Start => "Start",
            TaskAction::Stop => "Stop",
            TaskAction::Complete => "Complete",
            TaskAction::Delete => "Delete",
            TaskAction::PermanentlyDelete => "Permanently delete",
            TaskAction::Undelete => "Undelete",
            TaskAction::Uncomplete => "Uncomplete",
            TaskAction::Close => "Close",
        }
    }
}

/// The text of an action button.
pub open spec fn action_text(a: TaskAction) -> Seq<char> {
    match a {
        TaskAction::Start => seq!['S', 't', 'a', 'r', 't'],
        TaskAction::Stop => seq!['S', 't', 'o', 'p'],
        TaskAction::Complete => seq!['C', 'o', 'm', 'p', 'l', 'e', 't', 'e'],
        TaskAction::Delete => seq!['D', 'e', 'l', 'e', 't', 'e'],
        TaskAction::PermanentlyDelete => seq![
            'P', 'e', 'r', 'm', 'a', 'n', 'e', 'n', 't', 'l', 'y', ' ', 'd', 'e', 'l', 'e', 't', 'e'
        ],
        TaskAction::Undelete => seq!['U', 'n', 'd', 'e', 'l', 'e', 't', 'e'],
        TaskAction::Uncomplete => seq!['U', 'n', 'c', 'o', 'm', 'p', 'l', 'e', 't', 'e'],
        TaskAction::Close => seq!['C', 'l', 'o', 's', 'e'],
    }
}

} // verus!
