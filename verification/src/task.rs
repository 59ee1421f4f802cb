//! Tasks in the style of Taskwarrior: their fields, their life cycle
//! (pending, waiting, recurring, completed, deleted) and the small value
//! types they are built from.
use vstd::prelude::*;

use crate::text::{chars_of, lowercase_of, same_text, strings_view, to_lowercase, trim, trimmed};
use crate::time::{DateTime, Duration};

pub mod stored;

verus! {

// ------------------------------------------------------------------
//  Identifiers
// ------------------------------------------------------------------

/// Identifier of a task: a UUID, held as its 128-bit value.
#[derive(Clone, Copy, Debug, PartialEq, Eq, Structural, Hash)]
pub struct Id(pub u128);

/// The lowercase hexadecimal character of a digit below 16.
pub open spec fn hex_digit(d: int) -> char {
    if d < 10 {
        (48 + d) as char
    } else {
        (87 + d) as char
    }
}

/// The last `n` hexadecimal digits of `v`, most significant first.
pub open spec fn hex_digits(v: nat, n: nat) -> Seq<char>
    decreases n,
{
    if n == 0 {
        seq![]
    } else {
        hex_digits(v / 16, (n - 1) as nat).push(hex_digit((v % 16) as int))
    }
}

/// The text `uuid::Uuid` displays for a 128-bit value: its 32 lowercase
/// hexadecimal digits in groups of 8, 4, 4, 4 and 12, joined by hyphens.
pub open spec fn uuid_text(v: u128) -> Seq<char> {
    let h = hex_digits(v as nat, 32);
    h.subrange(0, 8) + seq!['-'] + h.subrange(8, 12) + seq!['-'] + h.subrange(12, 16) + seq!['-']
        + h.subrange(16, 20) + seq!['-'] + h.subrange(20, 32)
}

/// The value `uuid::Uuid::parse_str` accepts a text as, or `None` where it refuses it.
pub uninterp spec fn parsed_uuid(s: Seq<char>) -> Option<u128>;

/// A version-4 (random) UUID of the RFC 4122 variant: its version field
/// holds 4 and its variant bits are `10`.
pub open spec fn is_v4_uuid(v: u128) -> bool {
    &&& v & 0xf000_0000_0000_0000_0000u128 == 0x4000_0000_0000_0000_0000u128
    &&& v & 0xc000_0000_0000_0000u128 == 0x8000_0000_0000_0000u128
}

/// Calls `uuid::Uuid::new_v4` and takes its 128-bit value. Claimed: the
/// value is a version-4 UUID of the RFC 4122 variant (`new_v4` masks the
/// random bits and sets those fields). The other bits are random, so
/// nothing more is stated of them.
#[verifier::external_body]
pub(crate) fn random_uuid_value() -> (r: u128)
    ensures
        is_v4_uuid(r),
{
    uuid::Uuid::new_v4().as_u128()
}

/// Calls `uuid::Uuid::parse_str`. Claimed: the outcome is the named function
/// `parsed_uuid` of the text, `None` standing for the crate's error.
#[verifier::external_body]
pub(crate) fn parse_uuid(s: &str) -> (r: Option<u128>)
    ensures
        r == parsed_uuid(s@),
{
    match uuid::Uuid::parse_str(s) {
        Ok(u) => Some(u.as_u128()),
        Err(_) => None,
    }
}

/// Calls `Display` of `uuid::Uuid` through `to_string`. Claimed: the text
/// is the hyphenated lowercase form `uuid_text` of the value, and
/// `Uuid::parse_str` reads that text back as the same value.
#[verifier::external_body]
pub(crate) fn uuid_to_string(v: u128) -> (r: String)
    ensures
        r@ == uuid_text(v),
        parsed_uuid(r@) == Some(v),
{
    uuid::Uuid::from_u128(v).to_string()
}

/// A text that is not a UUID.
#[derive(Clone, Copy, Debug, PartialEq, Eq, Structural)]
pub struct InvalidId;

impl Id {
    /// A fresh random identifier: a version-4 UUID.
    pub fn new() -> (r: Id)
        ensures
            is_v4_uuid(r.0),
    {
        Id(random_uuid_value())
    }

    /// Parses the textual form of a UUID.
    pub fn from_str(s: &str) -> (r: Result<Id, InvalidId>)
        ensures
            r == (match parsed_uuid(s@) {
                Some(v) => Ok(Id(v)),
                None => Err(InvalidId),
            }),
    {
        match parse_uuid(s) {
            Some(v) => Ok(Id(v)),
            None => Err(InvalidId),
        }
    }

    /// The textual form of the UUID.
    pub fn to_string(&self) -> (r: String)
        ensures
            r@ == uuid_text(self.0),
            parsed_uuid(r@) == Some(self.0),
    {
        uuid_to_string(self.0)
    }
}

// ------------------------------------------------------------------
//  Small value types
// ------------------------------------------------------------------

/// Where a task is in its life cycle.
#[derive(Clone, Copy, Debug, PartialEq, Eq, Structural)]
pub enum Status {
    Pending,
    Deleted,
    Completed,
    Waiting,
    Recurring,
}

impl Default for Status {
    fn default() -> (r: Self)
        ensures
            r == Status::Pending,
    {
        Status::Pending
    }
}

/// How important a task is.
#[derive(Clone, Copy, Debug, PartialEq, Eq, Structural)]
pub enum Priority {
    High,
    Medium,
    Low,
}

/// The unit in which a recurrence interval is counted.
#[derive(Clone, Copy, Debug, PartialEq, Eq, Structural)]
pub enum RecurUnit {
    Year,
    Month,
    Week,
    Day,
    Hour,
}

/// The interval at which a recurring task spawns a new pending child.
#[derive(Clone, Copy, Debug, PartialEq, Eq, Structural)]
pub struct Recur {
    pub amount: u16,
    pub unit: RecurUnit,
}

/// A user-defined attribute value. A number is held as the bit pattern of
/// its IEEE 754 double (`f64::to_bits`).
#[derive(Debug, PartialEq, Eq)]
pub enum Uda {
    Duration(String),
    String(String),
    Number(u64),
    Date(DateTime),
}

impl Clone for Uda {
    fn clone(&self) -> (r: Self)
        ensures
            r == *self,
    {
        match self {
            Uda::Duration(s) => Uda::Duration(s.clone()),
            Uda::String(s) => Uda::String(s.clone()),
            Uda::Number(n) => Uda::Number(*n),
            Uda::Date(d) => Uda::Date(*d),
        }
    }
}

/// One named user-defined attribute of a task.
#[derive(Debug, PartialEq, Eq)]
pub struct UdaEntry {
    pub name: String,
    pub value: Uda,
}

impl Clone for UdaEntry {
    fn clone(&self) -> (r: Self)
        ensures
            r == *self,
    {
        UdaEntry { name: self.name.clone(), value: self.value.clone() }
    }
}

pub const MILLIS_PER_HOUR: i128 = 3_600_000;

pub const MILLIS_PER_DAY: i128 = 86_400_000;

pub const MILLIS_PER_WEEK: i128 = 604_800_000;

/// The length of one unit, in milliseconds: a year counts as 52 weeks and a
/// month as 4 weeks.
pub open spec fn unit_millis(u: RecurUnit) -> int {
    match u {
        RecurUnit::Year => 31_449_600_000int,
        RecurUnit::Month => 2_419_200_000int,
        RecurUnit::Week => 604_800_000int,
        RecurUnit::Day => 86_400_000,
        RecurUnit::Hour => 3_600_000,
    }
}

impl RecurUnit {
    /// The length of one unit.
    pub fn duration(self) -> (d: Duration)
        ensures
            d.millis == unit_millis(self),
    {
        match self {
            RecurUnit::Year => Duration { millis: 52 * MILLIS_PER_WEEK },
            RecurUnit::Month => Duration { millis: 4 * MILLIS_PER_WEEK },
            RecurUnit::Week => Duration { millis: MILLIS_PER_WEEK },
            RecurUnit::Day => Duration { millis: MILLIS_PER_DAY },
            RecurUnit::Hour => Duration { millis: MILLIS_PER_HOUR },
        }
    }

    /// The unit named by an already trimmed and lowercased text.
    pub fn from_normalized(s: &str) -> (r: Result<RecurUnit, ()>)
        ensures
            r == recur_unit_named(s@),
    {
        proof {
            reveal_strlit("year");
            reveal_strlit("month");
            reveal_strlit("week");
            reveal_strlit("day");
            reveal_strlit("hour");
            assert("year"@ =~= seq!['y', 'e', 'a', 'r']);
            assert("month"@ =~= seq!['m', 'o', 'n', 't', 'h']);
            assert("week"@ =~= seq!['w', 'e', 'e', 'k']);
            assert("day"@ =~= seq!['d', 'a', 'y']);
            assert("hour"@ =~= seq!['h', 'o', 'u', 'r']);
        }
        if same_text(s, "year") {
            Ok(RecurUnit::Year)
        } else if same_text(s, "month") {
            Ok(RecurUnit::Month)
        } else if same_text(s, "week") {
            Ok(RecurUnit::Week)
        } else if same_text(s, "day") {
            Ok(RecurUnit::Day)
        } else if same_text(s, "hour") {
            Ok(RecurUnit::Hour)
        } else {
            Err(())
        }
    }

    /// Reads a unit from user input: surrounding whitespace and case are ignored.
    pub fn try_from(value: String) -> (r: Result<RecurUnit, ()>)
        ensures
            r == recur_unit_named(lowercase_of(trimmed(value@))),
    {
        let lowered = to_lowercase(trim(value.as_str()));
        RecurUnit::from_normalized(lowered.as_str())
    }
}

impl Default for RecurUnit {
    fn default() -> (r: Self)
        ensures
            r == RecurUnit::Week,
    {
        RecurUnit::Week
    }
}

/// The unit a normalized text names.
pub open spec fn recur_unit_named(s: Seq<char>) -> Result<RecurUnit, ()> {
    if s == seq!['y', 'e', 'a', 'r'] {
        Ok(RecurUnit::Year)
    } else if s == seq!['m', 'o', 'n', 't', 'h'] {
        Ok(RecurUnit::Month)
    } else if s == seq!['w', 'e', 'e', 'k'] {
        Ok(RecurUnit::Week)
    } else if s == seq!['d', 'a', 'y'] {
        Ok(RecurUnit::Day)
    } else if s == seq!['h', 'o', 'u', 'r'] {
        Ok(RecurUnit::Hour)
    } else {
        Err(())
    }
}

/// The priority a normalized text names.
pub open spec fn priority_named(s: Seq<char>) -> Result<Priority, ()> {
    if s == seq!['h'] {
        Ok(Priority::High)
    } else if s == seq!['m'] {
        Ok(Priority::Medium)
    } else if s == seq!['l'] {
        Ok(Priority::Low)
    } else {
        Err(())
    }
}

impl Priority {
    /// The priority named by an already trimmed and lowercased text.
    pub fn from_normalized(s: &str) -> (r: Result<Priority, ()>)
        ensures
            r == priority_named(s@),
    {
        proof {
            reveal_strlit("h");
            reveal_strlit("m");
            reveal_strlit("l");
            assert("h"@ =~= seq!['h']);
            assert("m"@ =~= seq!['m']);
            assert("l"@ =~= seq!['l']);
        }
        if same_text(s, "h") {
            Ok(Priority::High)
        } else if same_text(s, "m") {
            Ok(Priority::Medium)
        } else if same_text(s, "l") {
            Ok(Priority::Low)
        } else {
            Err(())
        }
    }

    /// Reads a priority from user input (`H`, `M` or `L`): surrounding
    /// whitespace and case are ignored.
    pub fn try_from(value: String) -> (r: Result<Priority, ()>)
        ensures
            r == priority_named(lowercase_of(trimmed(value@))),
    {
        let lowered = to_lowercase(trim(value.as_str()));
        Priority::from_normalized(lowered.as_str())
    }
}

impl Recur {
    /// The interval: `amount` times the length of `unit`.
    pub fn duration(&self) -> (d: Duration)
        ensures
            d.millis == unit_millis(self.unit) * self.amount,
    {
        let unit = self.unit.duration();
        proof {
            assert(0 <= unit_millis(self.unit) <= 52 * 604_800_000);
            assert(unit.millis * (self.amount as int) <= 52 * 604_800_000 * 65535) by (nonlinear_arith)
                requires
                    0 <= unit.millis <= 52 * 604_800_000,
                    0 <= self.amount <= 65535,
            ;
            assert(unit.millis * (self.amount as int) >= 0) by (nonlinear_arith)
                requires
                    0 <= unit.millis,
                    0 <= self.amount,
            ;
        }
        Duration { millis: unit.millis * (self.amount as i128) }
    }
}

// ------------------------------------------------------------------
//  Tasks
// ------------------------------------------------------------------

/// The contents of a task, as plain values.
#[verifier::ext_equal]
pub struct TaskModel {
    pub id: Id,
    pub status: Status,
    pub entry: DateTime,
    pub description: Seq<char>,
    pub start: Option<DateTime>,
    pub due: Option<DateTime>,
    pub end: Option<DateTime>,
    pub wait: Option<DateTime>,
    pub scheduled: Option<DateTime>,
    pub recur: Option<Recur>,
    pub parent: Option<Id>,
    pub until: Option<DateTime>,
    pub notes: Seq<char>,
    pub project: Seq<Seq<char>>,
    pub tags: Seq<Seq<char>>,
    pub priority: Option<Priority>,
    pub depends: Seq<Id>,
    pub udas: Seq<UdaEntry>,
}

/// The tag that marks a task as the next one to work on.
pub open spec fn next_tag() -> Seq<char> {
    seq!['n', 'e', 'x', 't']
}

/// `tags` with every `next` tag left out, the others in their order.
pub open spec fn without_next(tags: Seq<Seq<char>>) -> Seq<Seq<char>> {
    tags.filter(|t: Seq<char>| t != next_tag())
}

impl TaskModel {
    /// A task as it is first created: pending, entered at `entry`, everything else empty.
    pub open spec fn fresh(id: Id, entry: DateTime) -> TaskModel {
        TaskModel {
            id,
            status: Status::Pending,
            entry,
            description: seq![],
            start: None,
            due: None,
            end: None,
            wait: None,
            scheduled: None,
            recur: None,
            parent: None,
            until: None,
            notes: seq![],
            project: seq![],
            tags: seq![],
            priority: None,
            depends: seq![],
            udas: seq![],
        }
    }

    /// A task in the recurring state carries its recurrence interval.
    pub open spec fn recur_consistent(self) -> bool {
        self.status == Status::Recurring ==> self.recur is Some
    }

    /// The end time shown for the task: only finished tasks have one.
    pub open spec fn shown_end(self) -> Option<DateTime> {
        match self.status {
            Status::Completed | Status::Deleted => self.end,
            _ => None,
        }
    }

    /// The status after `set_recur(recur)`.
    pub open spec fn status_after_set_recur(self, recur: Option<Recur>) -> Status {
        match recur {
            Some(_) => Status::Recurring,
            None => if self.status == Status::Recurring {
                Status::Pending
            } else {
                self.status
            },
        }
    }

    /// The status after `restore`.
    pub open spec fn status_after_restore(self) -> Status {
        match self.status {
            Status::Completed | Status::Deleted => Status::Pending,
            s => s,
        }
    }

    /// The child a recurring task spawns: a copy entered at `entry`, pending,
    /// with `parent` as its parent and `id` as its own identifier.
    pub open spec fn child(self, parent: Id, id: Id, entry: DateTime) -> TaskModel {
        TaskModel { id, status: Status::Pending, entry, parent: Some(parent), ..self }
    }
}

/// A task.
pub struct Task {
    id: Id,
    status: Status,
    entry: DateTime,
    description: String,
    start: Option<DateTime>,
    due: Option<DateTime>,
    end: Option<DateTime>,
    wait: Option<DateTime>,
    scheduled: Option<DateTime>,
    recur: Option<Recur>,
    parent: Option<Id>,
    until: Option<DateTime>,
    notes: String,
    project: Vec<String>,
    tags: Vec<String>,
    priority: Option<Priority>,
    depends: Vec<Id>,
    udas: Vec<UdaEntry>,
}

impl View for Task {
    type V = TaskModel;

    closed spec fn view(&self) -> TaskModel {
        TaskModel {
            id: self.id,
            status: self.status,
            entry: self.entry,
            description: self.description@,
            start: self.start,
            due: self.due,
            end: self.end,
            wait: self.wait,
            scheduled: self.scheduled,
            recur: self.recur,
            parent: self.parent,
            until: self.until,
            notes: self.notes@,
            project: strings_view(self.project@),
            tags: strings_view(self.tags@),
            priority: self.priority,
            depends: self.depends@,
            udas: self.udas@,
        }
    }
}

/// Calls `chrono::Utc::now` and takes its millisecond timestamp. The value
/// is the clock's reading, so nothing is stated of it.
#[verifier::external_body]
pub fn now() -> (r: DateTime) {
    DateTime(chrono::Utc::now().timestamp_millis())
}

/// A copy of a list of strings.
fn clone_strings(v: &Vec<String>) -> (r: Vec<String>)
    ensures
        strings_view(r@) == strings_view(v@),
{
    let mut out: Vec<String> = Vec::new();
    let mut i: usize = 0;
    while i < v.len()
        invariant
            i <= v@.len(),
            out@.len() == i,
            forall|j: int| 0 <= j < i ==> out@[j] == v@[j],
        decreases v.len() - i,
    {
        out.push(v[i].clone());
        i = i + 1;
    }
    assert(strings_view(out@) =~= strings_view(v@));
    out
}

/// A copy of a list of attribute entries.
fn clone_udas(v: &Vec<UdaEntry>) -> (r: Vec<UdaEntry>)
    ensures
        r@ == v@,
{
    let mut out: Vec<UdaEntry> = Vec::new();
    let mut i: usize = 0;
    while i < v.len()
        invariant
            i <= v@.len(),
            out@.len() == i,
            forall|j: int| 0 <= j < i ==> out@[j] == v@[j],
        decreases v.len() - i,
    {
        out.push(v[i].clone());
        i = i + 1;
    }
    assert(out@ =~= v@);
    out
}

/// A copy of a list of identifiers.
fn clone_ids(v: &Vec<Id>) -> (r: Vec<Id>)
    ensures
        r@ == v@,
{
    let mut out: Vec<Id> = Vec::new();
    let mut i: usize = 0;
    while i < v.len()
        invariant
            i <= v@.len(),
            out@.len() == i,
            forall|j: int| 0 <= j < i ==> out@[j] == v@[j],
        decreases v.len() - i,
    {
        out.push(v[i]);
        i = i + 1;
    }
    assert(out@ =~= v@);
    out
}

impl Task {
    /// A new pending task with the given identifier, entered at `entry`.
    pub fn new_at(id: Id, entry: DateTime) -> (t: Task)
        ensures
            t@ == TaskModel::fresh(id, entry),
    {
        let t = Task {
            id,
            status: Status::Pending,
            entry,
            description: String::new(),
            start: None,
            due: None,
            end: None,
            wait: None,
            scheduled: None,
            recur: None,
            parent: None,
            until: None,
            notes: String::new(),
            project: Vec::new(),
            tags: Vec::new(),
            priority: None,
            depends: Vec::new(),
            udas: Vec::new(),
        };
        assert(t@ =~= TaskModel::fresh(id, entry));
        t
    }

    /// A new pending task with a fresh random identifier (a version-4
    /// UUID), entered now.
    pub fn new() -> (t: Task)
        ensures
            t@ == TaskModel::fresh(t@.id, t@.entry),
            is_v4_uuid(t@.id.0),
    {
        Task::new_at(Id::new(), now())
    }

    /// A copy of the task.
    pub fn clone(&self) -> (r: Task)
        ensures
            r@ == self@,
    {
        let r = Task {
            id: self.id,
            status: self.status,
            entry: self.entry,
            description: self.description.clone(),
            start: self.start,
            due: self.due,
            end: self.end,
            wait: self.wait,
            scheduled: self.scheduled,
            recur: self.recur,
            parent: self.parent,
            until: self.until,
            notes: self.notes.clone(),
            project: clone_strings(&self.project),
            tags: clone_strings(&self.tags),
            priority: self.priority,
            depends: clone_ids(&self.depends),
            udas: clone_udas(&self.udas),
        };
        assert(r@ =~= self@);
        r
    }

    /// The next instance of a recurring task: the same fields, pending,
    /// entered at `entry`, with `parent` as its parent and `id` as its identifier.
    pub fn new_child_at(&self, parent: Id, id: Id, entry: DateTime) -> (r: (Id, Task))
        ensures
            r.0 == id,
            r.1@ == self@.child(parent, id, entry),
    {
        let mut child = self.clone();
        child.id = id;
        child.status = Status::Pending;
        child.entry = entry;
        child.parent = Some(parent);
        assert(child@ =~= self@.child(parent, id, entry));
        (id, child)
    }

    /// The next instance of a recurring task, with a fresh random
    /// identifier (a version-4 UUID), entered now.
    pub fn new_child(&self, uuid: Id) -> (r: (Id, Task))
        ensures
            r.0 == r.1@.id,
            is_v4_uuid(r.0.0),
            r.1@ == self@.child(uuid, r.1@.id, r.1@.entry),
    {
        self.new_child_at(uuid, Id::new(), now())
    }

    pub fn id(&self) -> (r: &Id)
        ensures
            *r == self@.id,
    {
        &self.id
    }

    pub fn parent(&self) -> (r: &Option<Id>)
        ensures
            *r == self@.parent,
    {
        &self.parent
    }

    pub fn status(&self) -> (r: &Status)
        ensures
            *r == self@.status,
    {
        &self.status
    }

    pub fn entry(&self) -> (r: &DateTime)
        ensures
            *r == self@.entry,
    {
        &self.entry
    }

    pub fn description(&self) -> (r: &str)
        ensures
            r@ == self@.description,
    {
        self.description.as_str()
    }

    pub fn set_description(&mut self, description: String)
        ensures
            final(self)@ == (TaskModel { description: description@, ..old(self)@ }),
    {
        self.description = description;
        assert(self@ =~= (TaskModel { description: description@, ..old(self)@ }));
    }

    pub fn project(&self) -> (r: &[String])
        ensures
            strings_view(r@) == self@.project,
    {
        self.project.as_slice()
    }

    pub fn set_project(&mut self, project: Vec<String>)
        ensures
            final(self)@ == (TaskModel { project: strings_view(project@), ..old(self)@ }),
    {
        self.project = project;
        assert(self@ =~= (TaskModel { project: strings_view(project@), ..old(self)@ }));
    }

    pub fn due(&self) -> (r: &Option<DateTime>)
        ensures
            *r == self@.due,
    {
        &self.due
    }

    pub fn set_due(&mut self, due: Option<DateTime>)
        ensures
            final(self)@ == (TaskModel { due, ..old(self)@ }),
    {
        self.due = due;
        assert(self@ =~= (TaskModel { due, ..old(self)@ }));
    }

    pub fn scheduled(&self) -> (r: &Option<DateTime>)
        ensures
            *r == self@.scheduled,
    {
        &self.scheduled
    }

    pub fn set_scheduled(&mut self, scheduled: Option<DateTime>)
        ensures
            final(self)@ == (TaskModel { scheduled, ..old(self)@ }),
    {
        self.scheduled = scheduled;
        assert(self@ =~= (TaskModel { scheduled, ..old(self)@ }));
    }

    pub fn recur(&self) -> (r: &Option<Recur>)
        ensures
            *r == self@.recur,
    {
        &self.recur
    }

    /// Sets the recurrence: a task with one becomes recurring, and a
    /// recurring task whose recurrence is cleared becomes pending again.
    pub fn set_recur(&mut self, recur: Option<Recur>)
        ensures
            final(self)@ == (TaskModel {
                recur,
                status: old(self)@.status_after_set_recur(recur),
                ..old(self)@
            }),
    {
        match recur {
            None => {
                if self.status == Status::Recurring {
                    self.status = Status::Pending;
                }
            },
            Some(_) => self.status = Status::Recurring,
        }
        self.recur = recur;
        assert(self@ =~= (TaskModel {
            recur,
            status: old(self)@.status_after_set_recur(recur),
            ..old(self)@
        }));
    }

    /// Marks the task completed at `at`: it ends then and is no longer active.
    pub fn complete_at(&mut self, at: DateTime)
        ensures
            final(self)@ == (TaskModel {
                end: Some(at),
                start: None,
                status: Status::Completed,
                ..old(self)@
            }),
    {
        self.end = Some(at);
        self.start = None;
        self.status = Status::Completed;
        assert(self@ =~= (TaskModel {
            end: Some(at),
            start: None,
            status: Status::Completed,
            ..old(self)@
        }));
    }

    /// Marks the task completed now.
    pub fn complete(&mut self)
        ensures
            final(self)@.end is Some,
            final(self)@ == (TaskModel {
                end: final(self)@.end,
                start: None,
                status: Status::Completed,
                ..old(self)@
            }),
    {
        let at = now();
        self.complete_at(at);
    }

    /// Marks the task deleted at `at`.
    pub fn delete_at(&mut self, at: DateTime)
        ensures
            final(self)@ == (TaskModel { end: Some(at), status: Status::Deleted, ..old(self)@ }),
    {
        self.end = Some(at);
        self.status = Status::Deleted;
        assert(self@ =~= (TaskModel { end: Some(at), status: Status::Deleted, ..old(self)@ }));
    }

    /// Marks the task deleted now.
    pub fn delete(&mut self)
        ensures
            final(self)@.end is Some,
            final(self)@ == (TaskModel {
                end: final(self)@.end,
                status: Status::Deleted,
                ..old(self)@
            }),
    {
        let at = now();
        self.delete_at(at);
    }

    /// Brings a completed or deleted task back to pending; other tasks are unchanged.
    pub fn restore(&mut self)
        ensures
            final(self)@ == (TaskModel { status: old(self)@.status_after_restore(), ..old(self)@ }),
    {
        match self.status {
            Status::Pending | Status::Waiting | Status::Recurring => {},
            Status::Completed | Status::Deleted => self.status = Status::Pending,
        }
        assert(self@ =~= (TaskModel { status: old(self)@.status_after_restore(), ..old(self)@ }));
    }

    pub fn tags(&self) -> (r: &[String])
        ensures
            strings_view(r@) == self@.tags,
    {
        self.tags.as_slice()
    }

    pub fn set_tags(&mut self, tags: Vec<String>)
        ensures
            final(self)@ == (TaskModel { tags: strings_view(tags@), ..old(self)@ }),
    {
        self.tags = tags;
        assert(self@ =~= (TaskModel { tags: strings_view(tags@), ..old(self)@ }));
    }

    pub fn priority(&self) -> (r: &Option<Priority>)
        ensures
            *r == self@.priority,
    {
        &self.priority
    }

    pub fn set_priority(&mut self, priority: Option<Priority>)
        ensures
            final(self)@ == (TaskModel { priority, ..old(self)@ }),
    {
        self.priority = priority;
        assert(self@ =~= (TaskModel { priority, ..old(self)@ }));
    }

    pub fn set_notes(&mut self, notes: String)
        ensures
            final(self)@ == (TaskModel { notes: notes@, ..old(self)@ }),
    {
        self.notes = notes;
        assert(self@ =~= (TaskModel { notes: notes@, ..old(self)@ }));
    }

    pub fn notes(&self) -> (r: &str)
        ensures
            r@ == self@.notes,
    {
        self.notes.as_str()
    }

    pub fn start(&self) -> (r: &Option<DateTime>)
        ensures
            *r == self@.start,
    {
        &self.start
    }

    /// When the task ended; only completed and deleted tasks report one.
    pub fn end(&self) -> (r: Option<DateTime>)
        ensures
            r == self@.shown_end(),
    {
        match self.status {
            Status::Pending | Status::Waiting | Status::Recurring => None,
            Status::Completed | Status::Deleted => self.end,
        }
    }

    pub fn wait(&self) -> (r: &Option<DateTime>)
        ensures
            *r == self@.wait,
    {
        &self.wait
    }

    pub fn until(&self) -> (r: &Option<DateTime>)
        ensures
            *r == self@.until,
    {
        &self.until
    }

    pub fn depends(&self) -> (r: &[Id])
        ensures
            r@ == self@.depends,
    {
        self.depends.as_slice()
    }

    pub fn udas(&self) -> (r: &[UdaEntry])
        ensures
            r@ == self@.udas,
    {
        self.udas.as_slice()
    }

    /// Starts working on the task at `at`; it loses its `next` tags.
    pub fn activate_at(&mut self, at: DateTime)
        ensures
            final(self)@ == (TaskModel {
                tags: without_next(old(self)@.tags),
                start: Some(at),
                ..old(self)@
            }),
    {
        let ghost tv = strings_view(self.tags@);
        let mut kept: Vec<String> = Vec::new();
        let mut i: usize = 0;
        while i < self.tags.len()
            invariant
                tv == strings_view(self.tags@),
                i <= self.tags@.len(),
                strings_view(kept@) == without_next(tv.take(i as int)),
            decreases self.tags.len() - i,
        {
            proof {
                reveal(Seq::filter);
                reveal_strlit("next");
                assert(tv.take(i + 1).drop_last() =~= tv.take(i as int));
                assert(tv.take(i + 1).last() == tv[i as int]);
                assert("next"@ =~= next_tag());
                assert(tv[i as int] == self.tags@[i as int]@);
            }
            let is_next = same_text(self.tags[i].as_str(), "next");
            if !is_next {
                let ghost before = strings_view(kept@);
                kept.push(self.tags[i].clone());
                assert(strings_view(kept@) =~= before.push(tv[i as int]));
            }
            i = i + 1;
        }
        assert(tv.take(self.tags@.len() as int) =~= tv);
        self.tags = kept;
        self.start = Some(at);
        assert(self@ =~= (TaskModel {
            tags: without_next(old(self)@.tags),
            start: Some(at),
            ..old(self)@
        }));
    }

    /// Starts working on the task now.
    pub fn activate(&mut self)
        ensures
            final(self)@.start is Some,
            final(self)@ == (TaskModel {
                tags: without_next(old(self)@.tags),
                start: final(self)@.start,
                ..old(self)@
            }),
    {
        let at = now();
        self.activate_at(at);
    }

    /// Stops working on the task.
    pub fn deactivate(&mut self)
        ensures
            final(self)@ == (TaskModel { start: None, ..old(self)@ }),
    {
        self.start = None;
        assert(self@ =~= (TaskModel { start: None, ..old(self)@ }));
    }
}

/// One edit of a task, as the task view issues them.
pub enum TaskChange {
    SetDescription(String),
    SetProject(Vec<String>),
    SetTags(Vec<String>),
    SetPriority(Option<Priority>),
    SetNotes(String),
    SetDue(Option<DateTime>),
    SetScheduled(Option<DateTime>),
    SetRecur(Option<Recur>),
    Complete(DateTime),
    Delete(DateTime),
    Restore,
    Activate(DateTime),
    Deactivate,
}

/// The task after an edit.
pub open spec fn changed(t: TaskModel, c: TaskChange) -> TaskModel {
    match c {
        TaskChange::SetDescription(d) => TaskModel { description: d@, ..t },
        TaskChange::SetProject(p) => TaskModel { project: strings_view(p@), ..t },
        TaskChange::SetTags(g) => TaskModel { tags: strings_view(g@), ..t },
        TaskChange::SetPriority(p) => TaskModel { priority: p, ..t },
        TaskChange::SetNotes(n) => TaskModel { notes: n@, ..t },
        TaskChange::SetDue(d) => TaskModel { due: d, ..t },
        TaskChange::SetScheduled(d) => TaskModel { scheduled: d, ..t },
        TaskChange::SetRecur(r) => TaskModel {
            recur: r,
            status: t.status_after_set_recur(r),
            ..t
        },
        TaskChange::Complete(at) => TaskModel {
            end: Some(at),
            start: None,
            status: Status::Completed,
            ..t
        },
        TaskChange::Delete(at) => TaskModel { end: Some(at), status: Status::Deleted, ..t },
        TaskChange::Restore => TaskModel { status: t.status_after_restore(), ..t },
        TaskChange::Activate(at) => TaskModel { tags: without_next(t.tags), start: Some(at), ..t },
        TaskChange::Deactivate => TaskModel { start: None, ..t },
    }
}

impl Task {
    /// Applies one edit.
    pub fn apply(&mut self, change: TaskChange)
        ensures
            final(self)@ == changed(old(self)@, change),
    {
        match change {
            TaskChange::SetDescription(d) => self.set_description(d),
            TaskChange::SetProject(p) => self.set_project(p),
            TaskChange::SetTags(g) => self.set_tags(g),
            TaskChange::SetPriority(p) => self.set_priority(p),
            TaskChange::SetNotes(n) => self.set_notes(n),
            TaskChange::SetDue(d) => self.set_due(d),
            TaskChange::SetScheduled(d) => self.set_scheduled(d),
            TaskChange::SetRecur(r) => self.set_recur(r),
            TaskChange::Complete(at) => self.complete_at(at),
            TaskChange::Delete(at) => self.delete_at(at),
            TaskChange::Restore => self.restore(),
            TaskChange::Activate(at) => self.activate_at(at),
            TaskChange::Deactivate => self.deactivate(),
        }
    }
}

/// Every field of a task, as plain values (for moving tasks in and out of
/// their serialised form).
pub struct TaskFields {
    pub id: Id,
    pub status: Status,
    pub entry: DateTime,
    pub description: String,
    pub start: Option<DateTime>,
    pub due: Option<DateTime>,
    pub end: Option<DateTime>,
    pub wait: Option<DateTime>,
    pub scheduled: Option<DateTime>,
    pub recur: Option<Recur>,
    pub parent: Option<Id>,
    pub until: Option<DateTime>,
    pub notes: String,
    pub project: Vec<String>,
    pub tags: Vec<String>,
    pub priority: Option<Priority>,
    pub depends: Vec<Id>,
    pub udas: Vec<UdaEntry>,
}

/// The contents of a task's fields.
pub open spec fn fields_view(f: TaskFields) -> TaskModel {
    TaskModel {
        id: f.id,
        status: f.status,
        entry: f.entry,
        description: f.description@,
        start: f.start,
        due: f.due,
        end: f.end,
        wait: f.wait,
        scheduled: f.scheduled,
        recur: f.recur,
        parent: f.parent,
        until: f.until,
        notes: f.notes@,
        project: strings_view(f.project@),
        tags: strings_view(f.tags@),
        priority: f.priority,
        depends: f.depends@,
        udas: f.udas@,
    }
}

impl Task {
    /// The task with these fields.
    pub fn from_fields(f: TaskFields) -> (t: Task)
        ensures
            t@ == fields_view(f),
    {
        let ghost v = fields_view(f);
        let t = Task {
            id: f.id,
            status: f.status,
            entry: f.entry,
            description: f.description,
            start: f.start,
            due: f.due,
            end: f.end,
            wait: f.wait,
            scheduled: f.scheduled,
            recur: f.recur,
            parent: f.parent,
            until: f.until,
            notes: f.notes,
            project: f.project,
            tags: f.tags,
            priority: f.priority,
            depends: f.depends,
            udas: f.udas,
        };
        assert(t@ =~= v);
        t
    }

    /// The fields of the task.
    pub fn into_fields(self) -> (f: TaskFields)
        ensures
            fields_view(f) == self@,
    {
        let ghost v = self@;
        let f = TaskFields {
            id: self.id,
            status: self.status,
            entry: self.entry,
            description: self.description,
            start: self.start,
            due: self.due,
            end: self.end,
            wait: self.wait,
            scheduled: self.scheduled,
            recur: self.recur,
            parent: self.parent,
            until: self.until,
            notes: self.notes,
            project: self.project,
            tags: self.tags,
            priority: self.priority,
            depends: self.depends,
            udas: self.udas,
        };
        assert(fields_view(f) =~= v);
        f
    }
}

impl Default for Task {
    fn default() -> (t: Self)
        ensures
            t@ == TaskModel::fresh(t@.id, t@.entry),
    {
        Task::new()
    }
}

} // verus!

verus! {

/// Law: no edit changes a task's identifier.
pub proof fn law_edits_keep_id(t: TaskModel, c: TaskChange)
    ensures
        changed(t, c).id == t.id,
{
}

/// Law: every edit keeps a recurring task's recurrence interval with it; so
/// do new tasks and spawned children.
pub proof fn law_recurrence_stays_consistent(t: TaskModel, c: TaskChange, parent: Id, id: Id, at: DateTime)
    requires
        t.recur_consistent(),
    ensures
        changed(t, c).recur_consistent(),
        TaskModel::fresh(id, at).recur_consistent(),
        t.child(parent, id, at).recur_consistent(),
{
}

/// Law: a task given a recurrence becomes recurring, and clearing the
/// recurrence again makes it pending.
pub proof fn law_set_then_clear_recur(t: TaskModel, r: Recur)
    ensures
        t.status_after_set_recur(Some(r)) == Status::Recurring,
        (TaskModel { recur: Some(r), status: Status::Recurring, ..t }).status_after_set_recur(None)
            == Status::Pending,
{
}

/// Law: completing a task records when it ended and stops it; restoring it
/// makes it pending again and hides the end time.
pub proof fn law_complete_then_restore(t: TaskModel, at: DateTime)
    ensures
        changed(t, TaskChange::Complete(at)).shown_end() == Some(at),
        changed(t, TaskChange::Complete(at)).start is None,
        changed(changed(t, TaskChange::Complete(at)), TaskChange::Restore).status
            == Status::Pending,
        changed(changed(t, TaskChange::Complete(at)), TaskChange::Restore).shown_end() is None,
{
}

/// Law: deleting a task records when it ended; restoring it makes it
/// pending again.
pub proof fn law_delete_then_restore(t: TaskModel, at: DateTime)
    ensures
        changed(t, TaskChange::Delete(at)).shown_end() == Some(at),
        changed(changed(t, TaskChange::Delete(at)), TaskChange::Restore).status == Status::Pending,
{
}

/// Law: restoring leaves pending, waiting and recurring tasks as they are.
pub proof fn law_restore_keeps_open_tasks(t: TaskModel)
    requires
        t.status == Status::Pending || t.status == Status::Waiting || t.status == Status::Recurring,
    ensures
        changed(t, TaskChange::Restore) == t,
{
    assert(changed(t, TaskChange::Restore) =~= t);
}

/// Law: starting a task removes every `next` tag and keeps every other tag,
/// in order; stopping it again leaves the tags alone.
pub proof fn law_activate_drops_next(t: TaskModel, at: DateTime)
    ensures
        !changed(t, TaskChange::Activate(at)).tags.contains(next_tag()),
        forall|g: Seq<char>|
            t.tags.contains(g) && g != next_tag() ==> changed(t, TaskChange::Activate(at)).tags.contains(g),
        changed(t, TaskChange::Activate(at)).start == Some(at),
        changed(changed(t, TaskChange::Activate(at)), TaskChange::Deactivate).tags == without_next(t.tags),
        changed(changed(t, TaskChange::Activate(at)), TaskChange::Deactivate).start is None,
{
    let p = |g: Seq<char>| g != next_tag();
    broadcast use Seq::lemma_filter_pred, Seq::lemma_filter_contains;
    if without_next(t.tags).contains(next_tag()) {
        let k = choose|k: int| 0 <= k < without_next(t.tags).len() && without_next(t.tags)[k] == next_tag();
        t.tags.lemma_filter_pred(p, k);
    }
    assert forall|g: Seq<char>| t.tags.contains(g) && g != next_tag() implies without_next(t.tags).contains(g) by {
        let k = choose|k: int| 0 <= k < t.tags.len() && t.tags[k] == g;
        t.tags.lemma_filter_contains(p, k);
    }
}

/// Law: the next instance of a recurring task is a copy of it in every
/// field but four: it has its own identifier, it is pending, it was entered
/// at the given time, and its parent is the given task. Description,
/// project, tags, priority, notes, dates, recurrence, dependencies and
/// user-defined attributes are all the parent's.
pub proof fn law_child_copies_parent(p: TaskModel, parent: Id, id: Id, entry: DateTime)
    ensures
        p.child(parent, id, entry).id == id,
        p.child(parent, id, entry).status == Status::Pending,
        p.child(parent, id, entry).entry == entry,
        p.child(parent, id, entry).parent == Some(parent),
        p.child(parent, id, entry).description == p.description,
        p.child(parent, id, entry).project == p.project,
        p.child(parent, id, entry).tags == p.tags,
        p.child(parent, id, entry).priority == p.priority,
        p.child(parent, id, entry).notes == p.notes,
        p.child(parent, id, entry).start == p.start,
        p.child(parent, id, entry).due == p.due,
        p.child(parent, id, entry).end == p.end,
        p.child(parent, id, entry).wait == p.wait,
        p.child(parent, id, entry).scheduled == p.scheduled,
        p.child(parent, id, entry).until == p.until,
        p.child(parent, id, entry).recur == p.recur,
        p.child(parent, id, entry).depends == p.depends,
        p.child(parent, id, entry).udas == p.udas,
{
}

} // verus!
