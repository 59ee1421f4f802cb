//! Which tasks the task list shows: the user's filter settings and the test
//! of a task against them.
use vstd::prelude::*;

use crate::task::{Priority, Status, Task, TaskModel};
use crate::text::{contains, has_substring, join, joined, lowercase_of, strings_view, to_lowercase};

verus! {

/// The filter settings of the task list. A task is shown when its status and
/// priority are ticked, its dotted project contains the project text, each
/// tag text occurs in one of its tags, and its description contains the
/// description text; text comparisons ignore case.
pub struct Filters {
    pub status_pending: bool,
    pub status_completed: bool,
    pub status_deleted: bool,
    pub status_waiting: bool,
    pub status_recurring: bool,
    pub project: Vec<String>,
    pub tags: Vec<String>,
    pub description: String,
    pub priority_none: bool,
    pub priority_low: bool,
    pub priority_medium: bool,
    pub priority_high: bool,
}

/// `needle` is empty or occurs in `hay`, both lowercased.
pub open spec fn text_matches(hay: Seq<char>, needle: Seq<char>) -> bool {
    needle.len() == 0 || has_substring(lowercase_of(hay), lowercase_of(needle))
}

/// The tag text `needle` occurs in one of `tags`.
pub open spec fn tag_occurs(tags: Seq<Seq<char>>, needle: Seq<char>) -> bool {
    exists|j: int| 0 <= j < tags.len() && #[trigger] text_matches(tags[j], needle)
}

/// The dotted form of a project path.
pub open spec fn dotted(project: Seq<Seq<char>>) -> Seq<char> {
    joined(project, seq!['.'])
}

impl Filters {
    /// Whether tasks with status `s` are ticked.
    pub open spec fn status_ticked(self, s: Status) -> bool {
        match s {
            Status::Pending => self.status_pending,
            Status::Deleted => self.status_deleted,
            Status::Completed => self.status_completed,
            Status::Waiting => self.status_waiting,
            Status::Recurring => self.status_recurring,
        }
    }

    /// Whether tasks with priority `p` are ticked.
    pub open spec fn priority_ticked(self, p: Option<Priority>) -> bool {
        match p {
            None => self.priority_none,
            Some(Priority::Low) => self.priority_low,
            Some(Priority::Medium) => self.priority_medium,
            Some(Priority::High) => self.priority_high,
        }
    }

    /// Every tag text occurs in one of the task's tags.
    pub open spec fn tags_match(self, tags: Seq<Seq<char>>) -> bool {
        forall|i: int| 0 <= i < self.tags@.len() ==> #[trigger] tag_occurs(tags, self.tags@[i]@)
    }

    /// Whether the task list shows a task with these contents.
    pub open spec fn shows(self, t: TaskModel) -> bool {
        &&& self.status_ticked(t.status)
        &&& text_matches(dotted(t.project), dotted(strings_view(self.project@)))
        &&& self.tags_match(t.tags)
        &&& text_matches(t.description, self.description@)
        &&& self.priority_ticked(t.priority)
    }

    /// The settings a new list starts with: pending tasks of any priority.
    pub open spec fn is_default(self) -> bool {
        &&& self.status_pending
        &&& !self.status_completed
        &&& !self.status_deleted
        &&& !self.status_waiting
        &&& !self.status_recurring
        &&& self.project@.len() == 0
        &&& self.tags@.len() == 0
        &&& self.description@.len() == 0
        &&& self.priority_none
        &&& self.priority_low
        &&& self.priority_medium
        &&& self.priority_high
    }
}

impl Default for Filters {
    fn default() -> (r: Self)
        ensures
            r.is_default(),
    {
        Filters {
            status_pending: true,
            status_completed: false,
            status_deleted: false,
            status_waiting: false,
            status_recurring: false,
            project: Vec::new(),
            tags: Vec::new(),
            description: String::new(),
            priority_none: true,
            priority_low: true,
            priority_medium: true,
            priority_high: true,
        }
    }
}

/// Whether `needle` is empty or occurs in `hay`, ignoring case.
fn text_matches_exec(hay: &str, needle: &str) -> (r: bool)
    ensures
        r == text_matches(hay@, needle@),
{
    let n = to_lowercase(needle);
    if n.as_str().is_empty() {
        return true;
    }
    let h = to_lowercase(hay);
    contains(h.as_str(), n.as_str())
}

impl Filters {
    /// Whether every tag text occurs in one of `tags`.
    fn tags_match_exec(&self, tags: &[String]) -> (r: bool)
        ensures
            r == self.tags_match(strings_view(tags@)),
    {
        let mut i: usize = 0;
        while i < self.tags.len()
            invariant
                i <= self.tags@.len(),
                forall|k: int|
                    0 <= k < i ==> #[trigger] tag_occurs(strings_view(tags@), self.tags@[k]@),
            decreases self.tags.len() - i,
        {
            let found = self.tag_found(i, tags);
            if !found {
                return false;
            }
            i = i + 1;
        }
        true
    }

    /// Whether the `i`-th tag text occurs in one of `tags`.
    fn tag_found(&self, i: usize, tags: &[String]) -> (r: bool)
        requires
            i < self.tags@.len(),
        ensures
            r == tag_occurs(strings_view(tags@), self.tags@[i as int]@),
    {
        let mut j: usize = 0;
        while j < tags.len()
            invariant
                i < self.tags@.len(),
                j <= tags@.len(),
                forall|jj: int|
                    0 <= jj < j ==> !#[trigger] text_matches(
                        strings_view(tags@)[jj],
                        self.tags@[i as int]@,
                    ),
            decreases tags.len() - j,
        {
            assert(strings_view(tags@)[j as int] == tags@[j as int]@);
            if text_matches_exec(tags[j].as_str(), self.tags[i].as_str()) {
                return true;
            }
            j = j + 1;
        }
        false
    }

    /// Whether the task list shows `task`.
    pub fn filter_task(&self, task: &Task) -> (r: bool)
        ensures
            r == self.shows(task@),
    {
        let filter_status = match task.status() {
            Status::Pending => self.status_pending,
            Status::Deleted => self.status_deleted,
            Status::Completed => self.status_completed,
            Status::Waiting => self.status_waiting,
            Status::Recurring => self.status_recurring,
        };
        proof {
            reveal_strlit(".");
            assert("."@ =~= seq!['.']);
        }
        let task_project = join(task.project(), ".");
        let wanted_project = join(self.project.as_slice(), ".");
        let filter_project = text_matches_exec(task_project.as_str(), wanted_project.as_str());
        let filter_tags = self.tags_match_exec(task.tags());
        let filter_description = text_matches_exec(task.description(), self.description.as_str());
        let filter_priority = match task.priority() {
            None => self.priority_none,
            Some(Priority::Low) => self.priority_low,
            Some(Priority::Medium) => self.priority_medium,
            Some(Priority::High) => self.priority_high,
        };
        filter_status && filter_project && filter_tags && filter_description && filter_priority
    }
}

/// The filter settings as plain values.
#[verifier::ext_equal]
pub struct FiltersModel {
    pub status_pending: bool,
    pub status_completed: bool,
    pub status_deleted: bool,
    pub status_waiting: bool,
    pub status_recurring: bool,
    pub project: Seq<Seq<char>>,
    pub tags: Seq<Seq<char>>,
    pub description: Seq<char>,
    pub priority_none: bool,
    pub priority_low: bool,
    pub priority_medium: bool,
    pub priority_high: bool,
}

impl View for Filters {
    type V = FiltersModel;

    open spec fn view(&self) -> FiltersModel {
        FiltersModel {
            status_pending: self.status_pending,
            status_completed: self.status_completed,
            status_deleted: self.status_deleted,
            status_waiting: self.status_waiting,
            status_recurring: self.status_recurring,
            project: strings_view(self.project@),
            tags: strings_view(self.tags@),
            description: self.description@,
            priority_none: self.priority_none,
            priority_low: self.priority_low,
            priority_medium: self.priority_medium,
            priority_high: self.priority_high,
        }
    }
}

/// Whether two lists of strings hold the same texts.
pub fn same_strings(a: &[String], b: &[String]) -> (r: bool)
    ensures
        r == (strings_view(a@) == strings_view(b@)),
{
    if a.len() != b.len() {
        assert(strings_view(a@).len() != strings_view(b@).len());
        return false;
    }
    let mut i: usize = 0;
    while i < a.len()
        invariant
            a@.len() == b@.len(),
            i <= a@.len(),
            forall|k: int| 0 <= k < i ==> a@[k]@ == b@[k]@,
        decreases a.len() - i,
    {
        if !crate::text::same_text(a[i].as_str(), b[i].as_str()) {
            assert(strings_view(a@)[i as int] != strings_view(b@)[i as int]);
            return false;
        }
        i = i + 1;
    }
    assert(strings_view(a@) =~= strings_view(b@));
    true
}

/// A copy of a list of strings.
pub fn copy_strings(v: &[String]) -> (r: Vec<String>)
    ensures
        strings_view(r@) == strings_view(v@),
{
    let mut out: Vec<String> = Vec::new();
    let mut i: usize = 0;
    while i < v.len()
        invariant
            i <= v@.len(),
            out@.len() == i,
            forall|j: int| 0 <= j < i ==> out@[j]@ == v@[j]@,
        decreases v.len() - i,
    {
        out.push(v[i].clone());
        i = i + 1;
    }
    assert(strings_view(out@) =~= strings_view(v@));
    out
}

impl Filters {
    /// Whether two settings are the same.
    pub fn same(&self, other: &Filters) -> (r: bool)
        ensures
            r == (self@ == other@),
    {
        let r = self.status_pending == other.status_pending && self.status_completed
            == other.status_completed && self.status_deleted == other.status_deleted
            && self.status_waiting == other.status_waiting && self.status_recurring
            == other.status_recurring && self.priority_none == other.priority_none
            && self.priority_low == other.priority_low && self.priority_medium
            == other.priority_medium && self.priority_high == other.priority_high
            && same_strings(self.project.as_slice(), other.project.as_slice()) && same_strings(
            self.tags.as_slice(),
            other.tags.as_slice(),
        ) && crate::text::same_text(self.description.as_str(), other.description.as_str());
        proof {
            if r {
                assert(self@ =~= other@);
            }
        }
        r
    }

    /// A copy of the settings.
    pub fn duplicate(&self) -> (r: Filters)
        ensures
            r@ == self@,
    {
        let r = Filters {
            status_pending: self.status_pending,
            status_completed: self.status_completed,
            status_deleted: self.status_deleted,
            status_waiting: self.status_waiting,
            status_recurring: self.status_recurring,
            project: copy_strings(self.project.as_slice()),
            tags: copy_strings(self.tags.as_slice()),
            description: self.description.clone(),
            priority_none: self.priority_none,
            priority_low: self.priority_low,
            priority_medium: self.priority_medium,
            priority_high: self.priority_high,
        };
        assert(r@ =~= self@);
        r
    }
}

/// Law: with the settings a new list starts with, the list shows exactly the
/// pending tasks.
pub proof fn law_default_filters_show_pending(f: Filters, t: TaskModel)
    requires
        f.is_default(),
    ensures
        f.shows(t) <==> t.status == Status::Pending,
{
    assert(strings_view(f.project@) =~= seq![]);
    assert(dotted(strings_view(f.project@)) =~= seq![]);
    match t.priority {
        None => {},
        Some(p) => {},
    }
}

} // verus!
