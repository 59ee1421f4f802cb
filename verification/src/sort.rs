//! The order of the task list: by age, due or scheduled date, project, tags,
//! priority, description, status or urgency.
use vstd::prelude::*;

use std::cmp::Ordering;

use crate::task::{Priority, Status, Task, TaskModel};
use crate::text::{char_code, chars_of, code_of, lemma_char_code_injective, strings_view};
use crate::time::DateTime;
use crate::urgency::has_urgency;

verus! {

/// The column the task list is sorted by.
#[derive(Clone, Copy, Debug, PartialEq, Eq, Structural)]
pub enum Field {
    Age,
    Due,
    Scheduled,
    Project,
    Tags,
    Priority,
    Description,
    Status,
    Urgency,
}

/// The heading of a column.
pub open spec fn field_label(f: Field) -> Seq<char> {
    match f {
        Field::Age => seq!['A', 'g', 'e'],
        Field::Due => seq!['D', 'u', 'e'],
        Field::Scheduled => seq!['S', 'c', 'h', 'e', 'd', 'u', 'l', 'e', 'd'],
        Field::Project => seq!['P', 'r', 'o', 'j', 'e', 'c', 't'],
        Field::Tags => seq!['T', 'a', 'g', 's'],
        Field::Priority => seq!['P', 'r', 'i', 'o', 'r', 'i', 't', 'y'],
        Field::Description => seq!['D', 'e', 's', 'c', 'r', 'i', 'p', 't', 'i', 'o', 'n'],
        Field::Status => seq!['S', 't', 'a', 't', 'u', 's'],
        Field::Urgency => seq!['U', 'r', 'g', 'e', 'n', 'c', 'y'],
    }
}

impl Field {
    /// The heading of the column.
    pub fn to_string(&self) -> (r: String)
        ensures
            r@ == field_label(*self),
    {
        let s: &str = match self {
            Field::Age => {
                proof {
                    reveal_strlit("Age");
                    assert("Age"@ =~= field_label(*self));
                }
                "Age"
            },
            Field::Due => {
                proof {
                    reveal_strlit("Due");
                    assert("Due"@ =~= field_label(*self));
                }
                "Due"
            },
            Field::Scheduled => {
                proof {
                    reveal_strlit("Scheduled");
                    assert("Scheduled"@ =~= field_label(*self));
                }
                "Scheduled"
            },
            Field::Project => {
                proof {
                    reveal_strlit("Project");
                    assert("Project"@ =~= field_label(*self));
                }
                "Project"
            },
            Field::Tags => {
                proof {
                    reveal_strlit("Tags");
                    assert("Tags"@ =~= field_label(*self));
                }
                "Tags"
            },
            Field::Priority => {
                proof {
                    reveal_strlit("Priority");
                    assert("Priority"@ =~= field_label(*self));
                }
                "Priority"
            },
            Field::Description => {
                proof {
                    reveal_strlit("Description");
                    assert("Description"@ =~= field_label(*self));
                }
                "Description"
            },
            Field::Status => {
                proof {
                    reveal_strlit("Status");
                    assert("Status"@ =~= field_label(*self));
                }
                "Status"
            },
            Field::Urgency => {
                proof {
                    reveal_strlit("Urgency");
                    assert("Urgency"@ =~= field_label(*self));
                }
                "Urgency"
            },
        };
        s.to_owned()
    }
}

/// Which way the task list is sorted.
#[derive(Clone, Copy, Debug, PartialEq, Eq, Structural)]
pub enum SortDirection {
    Ascending,
    Descending,
}

/// The opposite of an ordering.
pub open spec fn reversed(o: Ordering) -> Ordering {
    match o {
        Ordering::Less => Ordering::Greater,
        Ordering::Equal => Ordering::Equal,
        Ordering::Greater => Ordering::Less,
    }
}

/// The order of two 64-bit integers.
pub open spec fn order_i64(a: i64, b: i64) -> Ordering {
    if a < b {
        Ordering::Less
    } else if a == b {
        Ordering::Equal
    } else {
        Ordering::Greater
    }
}

/// The order of two 32-bit codes.
pub open spec fn order_u32(a: u32, b: u32) -> Ordering {
    if a < b {
        Ordering::Less
    } else if a == b {
        Ordering::Equal
    } else {
        Ordering::Greater
    }
}

/// The lexicographic order of two texts from position `i` on, comparing
/// characters by their scalar values (as `str`'s `Ord` does).
pub open spec fn order_text_from(a: Seq<char>, b: Seq<char>, i: int) -> Ordering
    decreases a.len() - i,
{
    if i < 0 || i >= a.len() {
        if i >= 0 && i < b.len() {
            Ordering::Less
        } else {
            Ordering::Equal
        }
    } else if i >= b.len() {
        Ordering::Greater
    } else if char_code(a[i]) == char_code(b[i]) {
        order_text_from(a, b, i + 1)
    } else {
        order_u32(char_code(a[i]), char_code(b[i]))
    }
}

/// The lexicographic order of two texts.
pub open spec fn order_text(a: Seq<char>, b: Seq<char>) -> Ordering {
    order_text_from(a, b, 0)
}

/// The lexicographic order of two lists of texts from position `i` on (as
/// `Ord` of a slice of strings).
pub open spec fn order_texts_from(a: Seq<Seq<char>>, b: Seq<Seq<char>>, i: int) -> Ordering
    decreases a.len() - i,
{
    if i < 0 || i >= a.len() {
        if i >= 0 && i < b.len() {
            Ordering::Less
        } else {
            Ordering::Equal
        }
    } else if i >= b.len() {
        Ordering::Greater
    } else if order_text(a[i], b[i]) == Ordering::Equal {
        order_texts_from(a, b, i + 1)
    } else {
        order_text(a[i], b[i])
    }
}

/// The lexicographic order of two lists of texts.
pub open spec fn order_texts(a: Seq<Seq<char>>, b: Seq<Seq<char>>) -> Ordering {
    order_texts_from(a, b, 0)
}

/// The rank of a priority in its declared order (high first).
pub open spec fn priority_rank(p: Priority) -> u32 {
    match p {
        Priority::High => 0,
        Priority::Medium => 1,
        Priority::Low => 2,
    }
}

/// The rank of a status in its declared order.
pub open spec fn status_rank(s: Status) -> u32 {
    match s {
        Status::Pending => 0,
        Status::Deleted => 1,
        Status::Completed => 2,
        Status::Waiting => 3,
        Status::Recurring => 4,
    }
}

/// Optional dates: both present compare by time, a present one comes
/// before an absent one, and two absent ones fall back to `fallback`.
pub open spec fn order_dates(a: Option<DateTime>, b: Option<DateTime>, fallback: Ordering) -> Ordering {
    match (a, b) {
        (Some(x), Some(y)) => order_i64(x.0, y.0),
        (Some(_), None) => Ordering::Less,
        (None, Some(_)) => Ordering::Greater,
        (None, None) => fallback,
    }
}

/// The order of two tasks by `field`: newer entries first for age (and as
/// the tie-break of the optional columns), tasks with a value before tasks
/// without one, and `urgency_order` where both tasks have an urgency.
pub open spec fn task_order(field: Field, t1: TaskModel, t2: TaskModel, urgency_order: Ordering) -> Ordering {
    let newer_first = order_i64(t2.entry.0, t1.entry.0);
    match field {
        Field::Urgency => match (has_urgency(t1), has_urgency(t2)) {
            (true, true) => urgency_order,
            (true, false) => Ordering::Less,
            (false, true) => Ordering::Greater,
            (false, false) => newer_first,
        },
        Field::Age => newer_first,
        Field::Due => order_dates(t1.due, t2.due, newer_first),
        Field::Scheduled => order_dates(t1.scheduled, t2.scheduled, newer_first),
        Field::Project => order_texts(t1.project, t2.project),
        Field::Tags => if t1.tags.len() == 0 && t2.tags.len() == 0 {
            newer_first
        } else if t1.tags.len() == 0 {
            Ordering::Greater
        } else if t2.tags.len() == 0 {
            Ordering::Less
        } else {
            order_texts(t1.tags, t2.tags)
        },
        Field::Priority => match (t1.priority, t2.priority) {
            (Some(x), Some(y)) => order_u32(priority_rank(x), priority_rank(y)),
            (Some(_), None) => Ordering::Less,
            (None, Some(_)) => Ordering::Greater,
            (None, None) => newer_first,
        },
        Field::Description => order_text(t1.description, t2.description),
        Field::Status => order_u32(status_rank(t1.status), status_rank(t2.status)),
    }
}

fn compare_i64(a: i64, b: i64) -> (r: Ordering)
    ensures
        r == order_i64(a, b),
{
    if a < b {
        Ordering::Less
    } else if a == b {
        Ordering::Equal
    } else {
        Ordering::Greater
    }
}

fn compare_u32(a: u32, b: u32) -> (r: Ordering)
    ensures
        r == order_u32(a, b),
{
    if a < b {
        Ordering::Less
    } else if a == b {
        Ordering::Equal
    } else {
        Ordering::Greater
    }
}

/// Compares two texts lexicographically.
pub fn compare_text(a: &str, b: &str) -> (r: Ordering)
    ensures
        r == order_text(a@, b@),
{
    let x = chars_of(a);
    let y = chars_of(b);
    let mut i: usize = 0;
    let ghost mut gi: int = 0;
    while i < x.len() && i < y.len()
        invariant
            x@ == a@,
            y@ == b@,
            gi == i,
            i <= x@.len(),
            i <= y@.len(),
            order_text(a@, b@) == order_text_from(a@, b@, gi),
        decreases x.len() - i,
    {
        let cx = code_of(x[i]);
        let cy = code_of(y[i]);
        if cx != cy {
            return compare_u32(cx, cy);
        }
        i = i + 1;
        proof {
            gi = gi + 1;
        }
    }
    if i < x.len() {
        Ordering::Greater
    } else if i < y.len() {
        Ordering::Less
    } else {
        Ordering::Equal
    }
}

/// Compares two lists of texts lexicographically.
pub fn compare_texts(a: &[String], b: &[String]) -> (r: Ordering)
    ensures
        r == order_texts(strings_view(a@), strings_view(b@)),
{
    let ghost av = strings_view(a@);
    let ghost bv = strings_view(b@);
    let mut i: usize = 0;
    let ghost mut gi: int = 0;
    while i < a.len() && i < b.len()
        invariant
            av == strings_view(a@),
            bv == strings_view(b@),
            gi == i,
            i <= a@.len(),
            i <= b@.len(),
            order_texts(av, bv) == order_texts_from(av, bv, gi),
        decreases a.len() - i,
    {
        assert(av[gi] == a@[gi]@);
        assert(bv[gi] == b@[gi]@);
        let o = compare_text(a[i].as_str(), b[i].as_str());
        match o {
            Ordering::Equal => {},
            _ => {
                return o;
            },
        }
        i = i + 1;
        proof {
            gi = gi + 1;
        }
    }
    if i < a.len() {
        Ordering::Greater
    } else if i < b.len() {
        Ordering::Less
    } else {
        Ordering::Equal
    }
}

fn priority_rank_of(p: Priority) -> (r: u32)
    ensures
        r == priority_rank(p),
{
    match p {
        Priority::High => 0,
        Priority::Medium => 1,
        Priority::Low => 2,
    }
}

fn status_rank_of(s: Status) -> (r: u32)
    ensures
        r == status_rank(s),
{
    match s {
        Status::Pending => 0,
        Status::Deleted => 1,
        Status::Completed => 2,
        Status::Waiting => 3,
        Status::Recurring => 4,
    }
}

fn compare_dates(a: Option<DateTime>, b: Option<DateTime>, fallback: Ordering) -> (r: Ordering)
    ensures
        r == order_dates(a, b, fallback),
{
    match (a, b) {
        (Some(x), Some(y)) => compare_i64(x.0, y.0),
        (Some(_), None) => Ordering::Less,
        (None, Some(_)) => Ordering::Greater,
        (None, None) => fallback,
    }
}

/// Whether a task has an urgency at all (it is pending or waiting).
fn urgency_applies(t: &Task) -> (r: bool)
    ensures
        r == has_urgency(t@),
{
    match t.status() {
        Status::Pending | Status::Waiting => true,
        _ => false,
    }
}

/// Compares two tasks for the task list sorted by `sort_field`.
/// `urgency_order` is the order of the two tasks' urgencies, used when both
/// have one.
pub fn sort_viewable_task(sort_field: Field, t1: &Task, t2: &Task, urgency_order: Ordering) -> (r: Ordering)
    ensures
        r == task_order(sort_field, t1@, t2@, urgency_order),
{
    let newer_first = compare_i64(t2.entry().0, t1.entry().0);
    match sort_field {
        Field::Urgency => match (urgency_applies(t1), urgency_applies(t2)) {
            (true, true) => urgency_order,
            (true, false) => Ordering::Less,
            (false, true) => Ordering::Greater,
            (false, false) => newer_first,
        },
        Field::Age => newer_first,
        Field::Due => compare_dates(*t1.due(), *t2.due(), newer_first),
        Field::Scheduled => compare_dates(*t1.scheduled(), *t2.scheduled(), newer_first),
        Field::Project => compare_texts(t1.project(), t2.project()),
        Field::Tags => {
            let a = t1.tags();
            let b = t2.tags();
            if a.len() == 0 && b.len() == 0 {
                newer_first
            } else if a.len() == 0 {
                Ordering::Greater
            } else if b.len() == 0 {
                Ordering::Less
            } else {
                compare_texts(a, b)
            }
        },
        Field::Priority => match (*t1.priority(), *t2.priority()) {
            (Some(x), Some(y)) => compare_u32(priority_rank_of(x), priority_rank_of(y)),
            (Some(_), None) => Ordering::Less,
            (None, Some(_)) => Ordering::Greater,
            (None, None) => newer_first,
        },
        Field::Description => compare_text(t1.description(), t2.description()),
        Field::Status => compare_u32(status_rank_of(*t1.status()), status_rank_of(*t2.status())),
    }
}

proof fn lemma_order_text_from_reverse(a: Seq<char>, b: Seq<char>, i: int)
    requires
        0 <= i,
    ensures
        order_text_from(a, b, i) == reversed(order_text_from(b, a, i)),
    decreases a.len() - i,
{
    if i < a.len() && i < b.len() && char_code(a[i]) == char_code(b[i]) {
        lemma_order_text_from_reverse(a, b, i + 1);
    }
}

proof fn lemma_order_texts_from_reverse(a: Seq<Seq<char>>, b: Seq<Seq<char>>, i: int)
    requires
        0 <= i,
    ensures
        order_texts_from(a, b, i) == reversed(order_texts_from(b, a, i)),
    decreases a.len() - i,
{
    if i < a.len() && i < b.len() {
        lemma_order_text_from_reverse(a[i], b[i], 0);
        if order_text(a[i], b[i]) == Ordering::Equal {
            lemma_order_texts_from_reverse(a, b, i + 1);
        }
    }
}

/// Law: comparing two tasks the other way round gives the opposite order,
/// whichever column the list is sorted by (given the urgencies' own order
/// reversed too).
pub proof fn law_task_order_antisymmetric(field: Field, t1: TaskModel, t2: TaskModel, urgency_order: Ordering)
    ensures
        task_order(field, t1, t2, urgency_order) == reversed(
            task_order(field, t2, t1, reversed(urgency_order)),
        ),
{
    lemma_order_text_from_reverse(t1.description, t2.description, 0);
    lemma_order_texts_from_reverse(t1.project, t2.project, 0);
    lemma_order_texts_from_reverse(t1.tags, t2.tags, 0);
}

/// Law: a task compares equal to itself, whichever column the list is
/// sorted by (given that its urgency does).
pub proof fn law_task_order_reflexive(field: Field, t: TaskModel)
    ensures
        task_order(field, t, t, Ordering::Equal) == Ordering::Equal,
{
    lemma_order_text_from_reverse(t.description, t.description, 0);
    lemma_order_texts_from_reverse(t.project, t.project, 0);
    lemma_order_texts_from_reverse(t.tags, t.tags, 0);
}

/// `a` comes strictly before `b` in the lexicographic order of texts (the
/// order of `String`'s `Ord`, which a `BTreeSet` of strings keeps).
pub open spec fn text_lt(a: Seq<char>, b: Seq<char>) -> bool {
    order_text(a, b) == Ordering::Less
}

/// Whether `a` comes strictly before `b` in the order of texts.
pub fn text_less(a: &str, b: &str) -> (r: bool)
    ensures
        r == text_lt(a@, b@),
{
    match compare_text(a, b) {
        Ordering::Less => true,
        _ => false,
    }
}

/// The order of texts is a strict total order.
pub proof fn lemma_text_lt_order(a: Seq<char>, b: Seq<char>, c: Seq<char>)
    ensures
        !text_lt(a, a),
        text_lt(a, b) ==> !text_lt(b, a),
        a != b ==> text_lt(a, b) || text_lt(b, a),
        text_lt(a, b) && text_lt(b, c) ==> text_lt(a, c),
{
    lemma_order_text_from_reverse(a, a, 0);
    lemma_order_text_from_reverse(a, b, 0);
    lemma_order_text_from_reverse(b, c, 0);
    lemma_order_text_from_reverse(a, c, 0);
    if a != b && order_text(a, b) == Ordering::Equal {
        lemma_order_text_from_equal(a, b, 0);
        assert forall|j: int| 0 <= j < a.len() implies a[j] == b[j] by {
            lemma_char_code_injective(a[j], b[j]);
        }
        assert(a =~= b);
    }
    if text_lt(a, b) && text_lt(b, c) {
        lemma_order_text_from_trans(a, b, c, 0);
        if order_text(a, c) == Ordering::Equal {
            lemma_order_text_equal(a, c, b);
        }
    }
}

/// The order of two 64-bit ranks.
pub open spec fn order_u64(a: u64, b: u64) -> Ordering {
    if a < b {
        Ordering::Less
    } else if a == b {
        Ordering::Equal
    } else {
        Ordering::Greater
    }
}

proof fn lemma_order_text_from_equal(a: Seq<char>, b: Seq<char>, i: int)
    requires
        0 <= i <= a.len(),
        i <= b.len(),
        order_text_from(a, b, i) == Ordering::Equal,
    ensures
        a.len() == b.len(),
        forall|j: int| i <= j < a.len() ==> char_code(#[trigger] a[j]) == char_code(b[j]),
    decreases a.len() - i,
{
    if i < a.len() {
        lemma_order_text_from_equal(a, b, i + 1);
    }
}

proof fn lemma_order_text_from_same(a: Seq<char>, b: Seq<char>, c: Seq<char>, i: int)
    requires
        0 <= i,
        a.len() == b.len(),
        forall|j: int| i <= j < a.len() ==> char_code(#[trigger] a[j]) == char_code(b[j]),
    ensures
        order_text_from(a, c, i) == order_text_from(b, c, i),
        order_text_from(c, a, i) == order_text_from(c, b, i),
    decreases a.len() - i,
{
    if i < a.len() {
        assert(char_code(a[i]) == char_code(b[i]));
        lemma_order_text_from_same(a, b, c, i + 1);
    }
}

/// Texts that compare equal compare alike with every other text.
proof fn lemma_order_text_equal(a: Seq<char>, b: Seq<char>, c: Seq<char>)
    requires
        order_text(a, b) == Ordering::Equal,
    ensures
        order_text(a, c) == order_text(b, c),
        order_text(c, a) == order_text(c, b),
{
    lemma_order_text_from_equal(a, b, 0);
    lemma_order_text_from_same(a, b, c, 0);
}

proof fn lemma_order_text_from_trans(a: Seq<char>, b: Seq<char>, c: Seq<char>, i: int)
    requires
        0 <= i,
        order_text_from(a, b, i) != Ordering::Greater,
        order_text_from(b, c, i) != Ordering::Greater,
    ensures
        order_text_from(a, c, i) != Ordering::Greater,
    decreases a.len() - i,
{
    if i < a.len() {
        if char_code(a[i]) == char_code(b[i]) && char_code(b[i]) == char_code(c[i]) {
            lemma_order_text_from_trans(a, b, c, i + 1);
        }
    }
}

proof fn lemma_order_texts_from_trans(a: Seq<Seq<char>>, b: Seq<Seq<char>>, c: Seq<Seq<char>>, i: int)
    requires
        0 <= i,
        order_texts_from(a, b, i) != Ordering::Greater,
        order_texts_from(b, c, i) != Ordering::Greater,
    ensures
        order_texts_from(a, c, i) != Ordering::Greater,
    decreases a.len() - i,
{
    if i < a.len() && i < b.len() && i < c.len() {
        let (x, y, z) = (a[i], b[i], c[i]);
        lemma_order_text_from_reverse(x, y, 0);
        lemma_order_text_from_reverse(y, z, 0);
        lemma_order_text_from_reverse(x, z, 0);
        lemma_order_text_from_reverse(x, x, 0);
        lemma_order_text_from_trans(x, y, z, 0);
        if order_text(x, y) == Ordering::Equal {
            lemma_order_text_equal(x, y, z);
        }
        if order_text(y, z) == Ordering::Equal {
            lemma_order_text_equal(y, z, x);
        }
        if order_text(x, z) == Ordering::Equal {
            lemma_order_text_equal(x, z, y);
        }
        if order_text(x, y) == Ordering::Equal && order_text(y, z) == Ordering::Equal {
            lemma_order_texts_from_trans(a, b, c, i + 1);
        }
    }
}

/// Law: the order of tasks is transitive, whichever column the list is
/// sorted by, when the urgencies are ordered by ranks: with the antisymmetry
/// and reflexivity laws it is a total preorder, so a stable sort by it has
/// exactly one outcome.
pub proof fn law_task_order_transitive(
    field: Field,
    t1: TaskModel,
    t2: TaskModel,
    t3: TaskModel,
    r1: u64,
    r2: u64,
    r3: u64,
)
    requires
        task_order(field, t1, t2, order_u64(r1, r2)) != Ordering::Greater,
        task_order(field, t2, t3, order_u64(r2, r3)) != Ordering::Greater,
    ensures
        task_order(field, t1, t3, order_u64(r1, r3)) != Ordering::Greater,
{
    match field {
        Field::Project => lemma_order_texts_from_trans(t1.project, t2.project, t3.project, 0),
        Field::Tags => {
            if t1.tags.len() > 0 && t2.tags.len() > 0 && t3.tags.len() > 0 {
                lemma_order_texts_from_trans(t1.tags, t2.tags, t3.tags, 0);
            }
        },
        Field::Description => lemma_order_text_from_trans(t1.description, t2.description, t3.description, 0),
        _ => {},
    }
}

/// Whether a priority is more pressing than another: high before medium
/// before low.
pub open spec fn more_pressing(a: Priority, b: Priority) -> bool {
    (a == Priority::High && b != Priority::High) || (a == Priority::Medium && b == Priority::Low)
}

/// Law: the date columns put the earlier date first, a task with the date
/// before one without it, and tasks without it newest first. The same holds
/// of the due column and of the scheduled column.
pub proof fn law_date_columns(t1: TaskModel, t2: TaskModel, urgency_order: Ordering)
    ensures
        t1.scheduled is Some && t2.scheduled is Some ==> {
            let x = t1.scheduled.unwrap();
            let y = t2.scheduled.unwrap();
            &&& (task_order(Field::Scheduled, t1, t2, urgency_order) == Ordering::Less) == (x.0 < y.0)
            &&& (task_order(Field::Scheduled, t1, t2, urgency_order) == Ordering::Equal) == (x.0 == y.0)
            &&& (task_order(Field::Scheduled, t1, t2, urgency_order) == Ordering::Greater) == (x.0 > y.0)
        },
        t1.due is Some && t2.due is Some ==> {
            let x = t1.due.unwrap();
            let y = t2.due.unwrap();
            &&& (task_order(Field::Due, t1, t2, urgency_order) == Ordering::Less) == (x.0 < y.0)
            &&& (task_order(Field::Due, t1, t2, urgency_order) == Ordering::Equal) == (x.0 == y.0)
            &&& (task_order(Field::Due, t1, t2, urgency_order) == Ordering::Greater) == (x.0 > y.0)
        },
        t1.scheduled is Some && t2.scheduled is None ==> task_order(Field::Scheduled, t1, t2, urgency_order)
            == Ordering::Less,
        t1.scheduled is None && t2.scheduled is Some ==> task_order(Field::Scheduled, t1, t2, urgency_order)
            == Ordering::Greater,
        t1.due is Some && t2.due is None ==> task_order(Field::Due, t1, t2, urgency_order) == Ordering::Less,
        t1.due is None && t2.due is Some ==> task_order(Field::Due, t1, t2, urgency_order) == Ordering::Greater,
        t1.scheduled is None && t2.scheduled is None ==> ((task_order(Field::Scheduled, t1, t2, urgency_order)
            == Ordering::Less) == (t1.entry.0 > t2.entry.0)),
        t1.due is None && t2.due is None ==> ((task_order(Field::Due, t1, t2, urgency_order) == Ordering::Less)
            == (t1.entry.0 > t2.entry.0)),
{
}

/// Law: the age column puts newer tasks first; the priority column puts
/// high before medium before low and any priority before none; the
/// urgency column puts tasks with an urgency (pending or waiting) before
/// the others and orders two of them by their urgencies; the tags column
/// puts tagged tasks before untagged ones; the status column follows the
/// declared order of statuses.
pub proof fn law_other_columns(t1: TaskModel, t2: TaskModel, urgency_order: Ordering)
    ensures
        (task_order(Field::Age, t1, t2, urgency_order) == Ordering::Less) == (t1.entry.0 > t2.entry.0),
        (task_order(Field::Age, t1, t2, urgency_order) == Ordering::Equal) == (t1.entry.0 == t2.entry.0),
        t1.priority is Some && t2.priority is Some ==> {
            let a = t1.priority.unwrap();
            let b = t2.priority.unwrap();
            &&& (task_order(Field::Priority, t1, t2, urgency_order) == Ordering::Less) == more_pressing(a, b)
            &&& (task_order(Field::Priority, t1, t2, urgency_order) == Ordering::Equal) == (a == b)
            &&& (task_order(Field::Priority, t1, t2, urgency_order) == Ordering::Greater) == more_pressing(b, a)
        },
        t1.priority is Some && t2.priority is None ==> task_order(Field::Priority, t1, t2, urgency_order)
            == Ordering::Less,
        t1.priority is None && t2.priority is Some ==> task_order(Field::Priority, t1, t2, urgency_order)
            == Ordering::Greater,
        has_urgency(t1) && has_urgency(t2) ==> task_order(Field::Urgency, t1, t2, urgency_order)
            == urgency_order,
        has_urgency(t1) && !has_urgency(t2) ==> task_order(Field::Urgency, t1, t2, urgency_order)
            == Ordering::Less,
        !has_urgency(t1) && has_urgency(t2) ==> task_order(Field::Urgency, t1, t2, urgency_order)
            == Ordering::Greater,
        t1.tags.len() > 0 && t2.tags.len() == 0 ==> task_order(Field::Tags, t1, t2, urgency_order)
            == Ordering::Less,
        t1.tags.len() == 0 && t2.tags.len() > 0 ==> task_order(Field::Tags, t1, t2, urgency_order)
            == Ordering::Greater,
        t1.status == Status::Pending && t2.status != Status::Pending ==> task_order(
            Field::Status,
            t1,
            t2,
            urgency_order,
        ) == Ordering::Less,
        t1.status == t2.status ==> task_order(Field::Status, t1, t2, urgency_order) == Ordering::Equal,
        (task_order(Field::Description, t1, t2, urgency_order) == Ordering::Equal) == (t1.description
            == t2.description),
{
    lemma_text_lt_order(t1.description, t2.description, t2.description);
    lemma_text_lt_order(t2.description, t1.description, t1.description);
    lemma_order_text_from_reverse(t1.description, t2.description, 0);
    lemma_order_text_from_reverse(t1.description, t1.description, 0);
}

} // verus!
