//! The task list page's table: which tasks it shows and in which order,
//! which optional columns appear, and how each row is shaded. Urgencies are
//! floating-point numbers the caller computes; the table takes them as
//! ranks (a task's rank orders its urgency among the others) and as levels.
use vstd::prelude::*;

use std::cmp::Ordering;

use crate::filters::Filters;
use crate::sort::{
    law_task_order_antisymmetric, law_task_order_reflexive, law_task_order_transitive, order_u64, reversed,
    sort_viewable_task, task_order, Field, SortDirection,
};
use crate::task::{next_tag, Status, Task, TaskModel};
use crate::urgency::has_next_tag;

verus! {

/// The contents of a list of tasks.
pub open spec fn models(ts: Seq<Task>) -> Seq<TaskModel> {
    ts.map_values(|t: Task| t@)
}

/// The task at a position.
pub open spec fn at(ts: Seq<TaskModel>, i: usize) -> TaskModel {
    ts[i as int]
}

/// The rank at a position.
pub open spec fn rank_at(ranks: Seq<u64>, i: usize) -> u64 {
    ranks[i as int]
}

/// The first `k` rows.
pub open spec fn prefix(s: Seq<usize>, k: usize) -> Seq<usize> {
    s.take(k as int)
}

/// The row at place `k`.
pub open spec fn nth(s: Seq<usize>, k: usize) -> usize {
    s[k as int]
}

/// The positions, in increasing order, of the first `n` tasks that the
/// filters show.
pub open spec fn shown_upto(f: Filters, ts: Seq<TaskModel>, n: int) -> Seq<usize>
    decreases n,
{
    if n <= 0 {
        seq![]
    } else {
        let p = shown_upto(f, ts, n - 1);
        if f.shows(ts[n - 1]) {
            p.push((n - 1) as usize)
        } else {
            p
        }
    }
}

/// The positions, in increasing order, of the tasks that the filters show.
pub open spec fn shown(f: Filters, ts: Seq<TaskModel>) -> Seq<usize> {
    shown_upto(f, ts, ts.len() as int)
}

/// The order of the rows at positions `i` and `j`, by `field`, with the
/// urgencies ordered by their ranks.
#[verifier::opaque]
pub open spec fn row_order(field: Field, ts: Seq<TaskModel>, ranks: Seq<u64>, i: usize, j: usize) -> Ordering {
    task_order(field, at(ts, i), at(ts, j), order_u64(rank_at(ranks, i), rank_at(ranks, j)))
}

/// Whether the row at position `i` goes strictly before the one at `j`.
pub open spec fn precedes(field: Field, ts: Seq<TaskModel>, ranks: Seq<u64>, i: usize, j: usize) -> bool {
    row_order(field, ts, ranks, i, j) == Ordering::Less
}

/// Rows in order: no row comes after the next one, and rows that compare
/// equal keep the order of the tasks (the sort is stable).
pub open spec fn sorted_rows(field: Field, ts: Seq<TaskModel>, ranks: Seq<u64>, rows: Seq<usize>) -> bool {
    forall|k: int|
        0 <= k < rows.len() - 1 ==> {
            &&& #[trigger] row_order(field, ts, ranks, rows[k], rows[k + 1]) != Ordering::Greater
            &&& row_order(field, ts, ranks, rows[k], rows[k + 1]) == Ordering::Equal ==> rows[k] < rows[k + 1]
        }
}

/// `rows` holds exactly the positions of `want`, each once.
pub open spec fn same_rows(rows: Seq<usize>, want: Seq<usize>) -> bool {
    &&& rows.len() == want.len()
    &&& rows.no_duplicates()
    &&& forall|x: usize| rows.contains(x) <==> want.contains(x)
}

/// Positions in strictly increasing order, each below `n`.
pub open spec fn increasing_below(s: Seq<usize>, n: nat) -> bool {
    &&& forall|a: int, b: int| 0 <= a < b < s.len() ==> s[a] < s[b]
    &&& forall|a: int| 0 <= a < s.len() ==> s[a] < n
}

proof fn lemma_shown_upto(f: Filters, ts: Seq<TaskModel>, n: nat)
    requires
        n <= ts.len(),
        ts.len() <= usize::MAX,
    ensures
        increasing_below(shown_upto(f, ts, n as int), n),
        forall|i: int| 0 <= i < n ==> (shown_upto(f, ts, n as int).contains(i as usize) <==> f.shows(ts[i])),
        forall|x: usize| shown_upto(f, ts, n as int).contains(x) ==> x < n,
    decreases n,
{
    if n > 0 {
        lemma_shown_upto(f, ts, (n - 1) as nat);
        let p = shown_upto(f, ts, n - 1);
        let s = shown_upto(f, ts, n as int);
        assert forall|i: int| 0 <= i < n implies (s.contains(i as usize) <==> f.shows(ts[i])) by {
            if i < n - 1 {
                if f.shows(ts[n - 1]) {
                    if s.contains(i as usize) {
                        let k = choose|k: int| 0 <= k < s.len() && s[k] == i as usize;
                        if k < p.len() {
                            assert(p[k] == i as usize);
                        }
                    }
                    if p.contains(i as usize) {
                        let k = choose|k: int| 0 <= k < p.len() && p[k] == i as usize;
                        assert(s[k] == i as usize);
                    }
                }
            } else {
                if f.shows(ts[n - 1]) {
                    assert(s[s.len() - 1] == (n - 1) as usize);
                } else {
                    if p.contains(i as usize) {
                        let k = choose|k: int| 0 <= k < p.len() && p[k] == i as usize;
                    }
                }
            }
        }
        assert forall|x: usize| s.contains(x) implies x < n by {
            let k = choose|k: int| 0 <= k < s.len() && s[k] == x;
            if k < p.len() {
                assert(p[k] == x);
                assert(p.contains(x));
            }
        }
    }
}

/// The positions of the tasks the filters show, in increasing order.
fn shown_rows(tasks: &[Task], filters: &Filters) -> (r: Vec<usize>)
    ensures
        r@ == shown(*filters, models(tasks@)),
{
    let ghost ts = models(tasks@);
    let mut r: Vec<usize> = Vec::new();
    let mut i: usize = 0;
    while i < tasks.len()
        invariant
            ts == models(tasks@),
            i <= tasks@.len(),
            r@ == shown_upto(*filters, ts, i as int),
        decreases tasks.len() - i,
    {
        if filters.filter_task(&tasks[i]) {
            r.push(i);
        }
        i = i + 1;
    }
    r
}

/// The order of the urgencies of two rows, by their ranks.
fn rank_order(ranks: &[u64], i: usize, j: usize) -> (r: Ordering)
    requires
        i < ranks@.len(),
        j < ranks@.len(),
    ensures
        r == order_u64(rank_at(ranks@, i), rank_at(ranks@, j)),
{
    if ranks[i] < ranks[j] {
        Ordering::Less
    } else if ranks[i] == ranks[j] {
        Ordering::Equal
    } else {
        Ordering::Greater
    }
}

/// Whether row `x` goes before row `y`.
fn goes_before(tasks: &[Task], ranks: &[u64], field: Field, x: usize, y: usize) -> (r: bool)
    requires
        x < tasks@.len(),
        y < tasks@.len(),
        ranks@.len() == tasks@.len(),
    ensures
        r == precedes(field, models(tasks@), ranks@, x, y),
{
    proof {
        reveal(row_order);
    }
    let o = sort_viewable_task(field, &tasks[x], &tasks[y], rank_order(ranks, x, y));
    match o {
        Ordering::Less => true,
        _ => false,
    }
}

proof fn lemma_row_order_reverse(field: Field, ts: Seq<TaskModel>, ranks: Seq<u64>, x: usize, y: usize)
    ensures
        row_order(field, ts, ranks, x, y) == reversed(row_order(field, ts, ranks, y, x)),
{
    reveal(row_order);
    law_task_order_antisymmetric(
        field,
        at(ts, x),
        at(ts, y),
        order_u64(rank_at(ranks, x), rank_at(ranks, y)),
    );
}

/// Inserting a row at the place an insertion sort finds keeps the rows in
/// order: every row before the place does not go after it, the row at the
/// place goes after it, and it comes later than every row already there.
proof fn lemma_insert_sorted(field: Field, ts: Seq<TaskModel>, ranks: Seq<u64>, before: Seq<usize>, j: int, x: usize)
    requires
        0 <= j <= before.len(),
        sorted_rows(field, ts, ranks, before),
        forall|m: int| 0 <= m < before.len() ==> before[m] < x,
        j > 0 ==> !precedes(field, ts, ranks, x, before[j - 1]),
        j < before.len() ==> precedes(field, ts, ranks, x, before[j]),
    ensures
        sorted_rows(field, ts, ranks, before.insert(j, x)),
{
    before.insert_ensures(j, x);
    let after = before.insert(j, x);
    if j > 0 {
        lemma_row_order_reverse(field, ts, ranks, before[j - 1], x);
    }
    assert forall|m: int| 0 <= m < after.len() - 1 implies {
        &&& #[trigger] row_order(field, ts, ranks, after[m], after[m + 1]) != Ordering::Greater
        &&& row_order(field, ts, ranks, after[m], after[m + 1]) == Ordering::Equal ==> after[m] < after[m + 1]
    } by {
        if m + 1 < j {
            assert(after[m] == before[m] && after[m + 1] == before[m + 1]);
        } else if m + 1 == j {
            assert(after[m] == before[m] && after[m + 1] == x);
        } else if m == j {
            assert(after[m] == x && after[m + 1] == before[m]);
        } else {
            assert(after[m] == before[m - 1] && after[m + 1] == before[m]);
        }
    }
}

/// Inserting the next given row keeps the rows exactly those given so far.
proof fn lemma_insert_same(rows: Seq<usize>, k: usize, before: Seq<usize>, j: usize)
    requires
        k < rows.len() <= usize::MAX,
        j <= before.len(),
        forall|a: int, b: int| 0 <= a < b < rows.len() ==> rows[a] < rows[b],
        same_rows(before, prefix(rows, k)),
    ensures
        same_rows(before.insert(j as int, rows[k as int]), prefix(rows, (k + 1) as usize)),
        forall|m: int| 0 <= m < before.len() ==> before[m] < rows[k as int],
{
    let x = rows[k as int];
    let after = before.insert(j as int, x);
    before.insert_ensures(j as int, x);
    let p = prefix(rows, k);
    let q = prefix(rows, (k + 1) as usize);
    assert(q =~= p.push(x));
    assert forall|m: int| 0 <= m < before.len() implies before[m] < x by {
        assert(before.contains(before[m]));
        let a = choose|a: int| 0 <= a < p.len() && p[a] == before[m];
        assert(rows[a] == before[m]);
    }
    assert(!p.contains(x)) by {
        if p.contains(x) {
            let a = choose|a: int| 0 <= a < p.len() && p[a] == x;
            assert(rows[a] == x);
        }
    }
    assert forall|y: usize| after.contains(y) <==> q.contains(y) by {
        if after.contains(y) {
            let m = choose|m: int| 0 <= m < after.len() && after[m] == y;
            if m < j {
                assert(before[m] == y);
                assert(before.contains(y));
            } else if m > j {
                assert(before[m - 1] == y);
                assert(before.contains(y));
            }
            assert(q[k as int] == x);
        }
        if q.contains(y) {
            if y == x {
                assert(after[j as int] == x);
            } else {
                let a = choose|a: int| 0 <= a < q.len() && q[a] == y;
                assert(p[a] == y);
                assert(before.contains(y));
                let m = choose|m: int| 0 <= m < before.len() && before[m] == y;
                if m < j {
                    assert(after[m] == y);
                } else {
                    assert(after[m + 1] == y);
                }
            }
        }
    }
    assert forall|a: int, b: int| 0 <= a < after.len() && 0 <= b < after.len() && a != b implies after[a]
        != after[b] by {
        if a != j && b != j {
            let aa = if a < j { a } else { a - 1 };
            let bb = if b < j { b } else { b - 1 };
            assert(after[a] == before[aa]);
            assert(after[b] == before[bb]);
        } else if a == j {
            let bb = if b < j { b } else { b - 1 };
            assert(after[b] == before[bb]);
        } else {
            let aa = if a < j { a } else { a - 1 };
            assert(after[a] == before[aa]);
        }
    }
}

/// Sorts rows given in strictly increasing order: a stable insertion sort.
fn sort_rows(tasks: &[Task], ranks: &[u64], field: Field, rows: &Vec<usize>) -> (out: Vec<usize>)
    requires
        ranks@.len() == tasks@.len(),
        increasing_below(rows@, tasks@.len()),
    ensures
        same_rows(out@, rows@),
        sorted_rows(field, models(tasks@), ranks@, out@),
{
    let ghost ts = models(tasks@);
    let mut out: Vec<usize> = Vec::new();
    let mut k: usize = 0;
    proof {
        assert(prefix(rows@, 0) =~= Seq::<usize>::empty());
    }
    while k < rows.len()
        invariant
            ts == models(tasks@),
            ranks@.len() == tasks@.len(),
            increasing_below(rows@, tasks@.len()),
            k <= rows@.len(),
            same_rows(out@, prefix(rows@, k)),
            sorted_rows(field, ts, ranks@, out@),
            forall|m: int| 0 <= m < out@.len() ==> out@[m] < tasks@.len(),
        decreases rows.len() - k,
    {
        let x = rows[k];
        let mut j: usize = out.len();
        while j > 0 && goes_before(tasks, ranks, field, x, out[j - 1])
            invariant
                ts == models(tasks@),
                ranks@.len() == tasks@.len(),
                x < tasks@.len(),
                j <= out@.len(),
                forall|m: int| 0 <= m < out@.len() ==> out@[m] < tasks@.len(),
                j < out@.len() ==> precedes(field, ts, ranks@, x, nth(out@, j)),
            decreases j,
        {
            j = j - 1;
        }
        let ghost before = out@;
        proof {
            lemma_insert_same(rows@, k, before, j);
            lemma_insert_sorted(field, ts, ranks@, before, j as int, x);
        }
        out.insert(j, x);
        k = k + 1;
    }
    proof {
        assert(prefix(rows@, k) =~= rows@);
    }
    out
}

/// Row `x` comes before row `y` in a stable sort: it goes strictly before
/// it, or they compare equal and `x` is the earlier task.
pub open spec fn comes_before(field: Field, ts: Seq<TaskModel>, ranks: Seq<u64>, x: usize, y: usize) -> bool {
    row_order(field, ts, ranks, x, y) == Ordering::Less || (row_order(field, ts, ranks, x, y)
        == Ordering::Equal && x < y)
}

/// Coming before is a strict total order on rows.
proof fn lemma_comes_before(field: Field, ts: Seq<TaskModel>, ranks: Seq<u64>, x: usize, y: usize, z: usize)
    ensures
        !comes_before(field, ts, ranks, x, x),
        x != y ==> comes_before(field, ts, ranks, x, y) || comes_before(field, ts, ranks, y, x),
        comes_before(field, ts, ranks, x, y) ==> !comes_before(field, ts, ranks, y, x),
        comes_before(field, ts, ranks, x, y) && comes_before(field, ts, ranks, y, z) ==> comes_before(
            field,
            ts,
            ranks,
            x,
            z,
        ),
{
    reveal(row_order);
    law_task_order_reflexive(field, at(ts, x));
    lemma_row_order_reverse(field, ts, ranks, x, y);
    lemma_row_order_reverse(field, ts, ranks, y, z);
    lemma_row_order_reverse(field, ts, ranks, x, z);
    let (tx, ty, tz) = (at(ts, x), at(ts, y), at(ts, z));
    let (rx, ry, rz) = (rank_at(ranks, x), rank_at(ranks, y), rank_at(ranks, z));
    if row_order(field, ts, ranks, x, y) != Ordering::Greater && row_order(field, ts, ranks, y, z)
        != Ordering::Greater {
        law_task_order_transitive(field, tx, ty, tz, rx, ry, rz);
        if row_order(field, ts, ranks, x, z) == Ordering::Equal {
            law_task_order_transitive(field, tz, tx, ty, rz, rx, ry);
            law_task_order_transitive(field, ty, tz, tx, ry, rz, rx);
        }
    }
}

/// In rows sorted as the table sorts them, every row comes before every
/// later one.
proof fn lemma_sorted_everywhere(field: Field, ts: Seq<TaskModel>, ranks: Seq<u64>, rows: Seq<usize>, i: int, j: int)
    requires
        sorted_rows(field, ts, ranks, rows),
        0 <= i < j < rows.len(),
    ensures
        comes_before(field, ts, ranks, rows[i], rows[j]),
    decreases j - i,
{
    assert(row_order(field, ts, ranks, rows[j - 1], rows[j - 1 + 1]) != Ordering::Greater);
    if i < j - 1 {
        lemma_sorted_everywhere(field, ts, ranks, rows, i, j - 1);
        lemma_comes_before(field, ts, ranks, rows[i], rows[j - 1], rows[j]);
    }
}

/// Law: the table's order leaves no choice: two lists that both hold
/// exactly the rows shown and are both sorted as the table sorts them (with
/// equal rows in the order of the tasks) are the same list.
pub proof fn law_rows_determined(
    field: Field,
    ts: Seq<TaskModel>,
    ranks: Seq<u64>,
    a: Seq<usize>,
    b: Seq<usize>,
    want: Seq<usize>,
)
    requires
        same_rows(a, want),
        same_rows(b, want),
        sorted_rows(field, ts, ranks, a),
        sorted_rows(field, ts, ranks, b),
    ensures
        a == b,
    decreases a.len(),
{
    if a.len() > 0 {
        assert(a.contains(a[0]));
        assert(b.contains(a[0]));
        let m = choose|m: int| 0 <= m < b.len() && b[m] == a[0];
        assert(a.contains(b[0]));
        let p = choose|p: int| 0 <= p < a.len() && a[p] == b[0];
        if m > 0 {
            lemma_sorted_everywhere(field, ts, ranks, b, 0, m);
            if p > 0 {
                lemma_sorted_everywhere(field, ts, ranks, a, 0, p);
            }
            lemma_comes_before(field, ts, ranks, b[0], a[0], a[0]);
            assert(false);
        }
        let (a1, b1) = (a.drop_first(), b.drop_first());
        let w1 = a1;
        assert forall|x: usize| a1.contains(x) <==> w1.contains(x) by {}
        assert(a1.no_duplicates()) by {
            assert forall|i: int, j: int| 0 <= i < a1.len() && 0 <= j < a1.len() && i != j implies a1[i] != a1[j] by {
                assert(a1[i] == a[i + 1] && a1[j] == a[j + 1]);
            }
        }
        assert(b1.no_duplicates()) by {
            assert forall|i: int, j: int| 0 <= i < b1.len() && 0 <= j < b1.len() && i != j implies b1[i] != b1[j] by {
                assert(b1[i] == b[i + 1] && b1[j] == b[j + 1]);
            }
        }
        assert forall|x: usize| b1.contains(x) <==> w1.contains(x) by {
            if b1.contains(x) {
                let i = choose|i: int| 0 <= i < b1.len() && b1[i] == x;
                assert(b[i + 1] == x);
                assert(b.contains(x));
                assert(a.contains(x));
                let j = choose|j: int| 0 <= j < a.len() && a[j] == x;
                assert(j != 0);
                assert(a1[j - 1] == x);
            }
            if w1.contains(x) {
                let i = choose|i: int| 0 <= i < a1.len() && a1[i] == x;
                assert(a[i + 1] == x);
                assert(a.contains(x));
                assert(b.contains(x));
                let j = choose|j: int| 0 <= j < b.len() && b[j] == x;
                assert(j != 0);
                assert(b1[j - 1] == x);
            }
        }
        assert(sorted_rows(field, ts, ranks, a1)) by {
            assert forall|k: int| 0 <= k < a1.len() - 1 implies {
                &&& #[trigger] row_order(field, ts, ranks, a1[k], a1[k + 1]) != Ordering::Greater
                &&& row_order(field, ts, ranks, a1[k], a1[k + 1]) == Ordering::Equal ==> a1[k] < a1[k + 1]
            } by {
                assert(a1[k] == a[k + 1] && a1[k + 1] == a[k + 1 + 1]);
            }
        }
        assert(sorted_rows(field, ts, ranks, b1)) by {
            assert forall|k: int| 0 <= k < b1.len() - 1 implies {
                &&& #[trigger] row_order(field, ts, ranks, b1[k], b1[k + 1]) != Ordering::Greater
                &&& row_order(field, ts, ranks, b1[k], b1[k + 1]) == Ordering::Equal ==> b1[k] < b1[k + 1]
            } by {
                assert(b1[k] == b[k + 1] && b1[k + 1] == b[k + 1 + 1]);
            }
        }
        law_rows_determined(field, ts, ranks, a1, b1, w1);
        assert(a =~= b) by {
            assert forall|i: int| 0 <= i < a.len() implies a[i] == b[i] by {
                if i > 0 {
                    assert(a[i] == a1[i - 1] && b[i] == b1[i - 1]);
                }
            }
        }
    }
}

/// The rows of `v` in the opposite order.
fn reversed_rows(v: &Vec<usize>) -> (r: Vec<usize>)
    ensures
        r@ == v@.reverse(),
{
    let mut r: Vec<usize> = Vec::new();
    let mut i: usize = v.len();
    while i > 0
        invariant
            i <= v@.len(),
            r@ == v@.subrange(i as int, v@.len() as int).reverse(),
        decreases i,
    {
        i = i - 1;
        let ghost before = r@;
        r.push(v[i]);
        assert(r@ =~= v@.subrange(i as int, v@.len() as int).reverse());
    }
    assert(v@.subrange(0, v@.len() as int) =~= v@);
    r
}

/// The rows of the task list: the positions of the tasks the filters show,
/// sorted by `field` (a stable sort; urgencies compared by their ranks),
/// last first when the direction is descending.
pub fn view_rows(
    tasks: &[Task],
    filters: &Filters,
    field: Field,
    direction: SortDirection,
    ranks: &[u64],
) -> (rows: Vec<usize>)
    requires
        ranks@.len() == tasks@.len(),
    ensures
        same_rows(rows@, shown(*filters, models(tasks@))),
        direction == SortDirection::Ascending ==> sorted_rows(field, models(tasks@), ranks@, rows@),
        direction == SortDirection::Descending ==> sorted_rows(
            field,
            models(tasks@),
            ranks@,
            rows@.reverse(),
        ),
{
    let count = tasks.len();
    let shown_positions = shown_rows(tasks, filters);
    proof {
        assert(count == tasks@.len());
        lemma_shown_upto(*filters, models(tasks@), tasks@.len());
    }
    let sorted = sort_rows(tasks, ranks, field, &shown_positions);
    match direction {
        SortDirection::Ascending => sorted,
        SortDirection::Descending => {
            let r = reversed_rows(&sorted);
            proof {
                assert(r@.reverse() =~= sorted@);
                assert forall|x: usize| r@.contains(x) <==> sorted@.contains(x) by {
                    if r@.contains(x) {
                        let m = choose|m: int| 0 <= m < r@.len() && r@[m] == x;
                        assert(sorted@[sorted@.len() - 1 - m] == x);
                    }
                    if sorted@.contains(x) {
                        let m = choose|m: int| 0 <= m < sorted@.len() && sorted@[m] == x;
                        assert(r@[r@.len() - 1 - m] == x);
                    }
                }
                assert(r@.no_duplicates()) by {
                    assert forall|a: int, b: int| 0 <= a < r@.len() && 0 <= b < r@.len() && a != b implies r@[a]
                        != r@[b] by {
                        assert(r@[a] == sorted@[sorted@.len() - 1 - a]);
                        assert(r@[b] == sorted@[sorted@.len() - 1 - b]);
                    }
                }
            }
            r
        },
    }
}

// ------------------------------------------------------------------
//  Columns and rows
// ------------------------------------------------------------------

/// Which optional columns the table shows.
#[derive(Clone, Copy, Debug, PartialEq, Eq, Structural)]
pub struct Columns {
    pub due: bool,
    pub scheduled: bool,
    pub status: bool,
    pub project: bool,
    pub tags: bool,
    pub priority: bool,
}

/// The optional columns for the rows shown: a date or text column when some
/// row has a value for it, the status column when the rows differ in status.
pub open spec fn columns_of(ts: Seq<TaskModel>, rows: Seq<usize>) -> Columns {
    Columns {
        due: exists|k: int| 0 <= k < rows.len() && (#[trigger] at(ts, rows[k])).due is Some,
        scheduled: exists|k: int| 0 <= k < rows.len() && (#[trigger] at(ts, rows[k])).scheduled is Some,
        status: exists|k1: int, k2: int|
            0 <= k1 < rows.len() && 0 <= k2 < rows.len() && (#[trigger] at(ts, rows[k1])).status != (
            #[trigger] at(ts, rows[k2])).status,
        project: exists|k: int| 0 <= k < rows.len() && (#[trigger] at(ts, rows[k])).project.len() > 0,
        tags: exists|k: int| 0 <= k < rows.len() && (#[trigger] at(ts, rows[k])).tags.len() > 0,
        priority: exists|k: int| 0 <= k < rows.len() && (#[trigger] at(ts, rows[k])).priority is Some,
    }
}

/// The optional columns for the rows shown.
pub fn columns(tasks: &[Task], rows: &[usize]) -> (c: Columns)
    requires
        forall|k: int| 0 <= k < rows@.len() ==> rows@[k] < tasks@.len(),
    ensures
        c == columns_of(models(tasks@), rows@),
{
    let ghost ts = models(tasks@);
    let mut c = Columns { due: false, scheduled: false, status: false, project: false, tags: false, priority: false };
    if rows.len() == 0 {
        return c;
    }
    let first = *tasks[rows[0]].status();
    let mut k: usize = 0;
    while k < rows.len()
        invariant
            ts == models(tasks@),
            0 < rows@.len(),
            first == at(ts, rows@[0]).status,
            forall|m: int| 0 <= m < rows@.len() ==> rows@[m] < tasks@.len(),
            k <= rows@.len(),
            c.due == exists|m: int| 0 <= m < k && (#[trigger] at(ts, rows@[m])).due is Some,
            c.scheduled == exists|m: int| 0 <= m < k && (#[trigger] at(ts, rows@[m])).scheduled is Some,
            c.status == exists|m: int| 0 <= m < k && (#[trigger] at(ts, rows@[m])).status != first,
            c.project == exists|m: int| 0 <= m < k && (#[trigger] at(ts, rows@[m])).project.len() > 0,
            c.tags == exists|m: int| 0 <= m < k && (#[trigger] at(ts, rows@[m])).tags.len() > 0,
            c.priority == exists|m: int| 0 <= m < k && (#[trigger] at(ts, rows@[m])).priority is Some,
        decreases rows.len() - k,
    {
        let t = &tasks[rows[k]];
        assert(at(ts, rows@[k as int]) == t@);
        if t.due().is_some() {
            c.due = true;
        }
        if t.scheduled().is_some() {
            c.scheduled = true;
        }
        if *t.status() != first {
            c.status = true;
        }
        if t.project().len() > 0 {
            c.project = true;
        }
        if t.tags().len() > 0 {
            c.tags = true;
        }
        if t.priority().is_some() {
            c.priority = true;
        }
        k = k + 1;
    }
    proof {
        let want = columns_of(ts, rows@);
        if want.status {
            let (k1, k2) = choose|k1: int, k2: int|
                0 <= k1 < rows@.len() && 0 <= k2 < rows@.len() && (#[trigger] at(ts, rows@[k1])).status != (
                #[trigger] at(ts, rows@[k2])).status;
            if at(ts, rows@[k1]).status == first {
                assert(at(ts, rows@[k2]).status != first);
            }
        }
        if c.status {
            let m = choose|m: int| 0 <= m < rows@.len() && (#[trigger] at(ts, rows@[m])).status != first;
            assert(at(ts, rows@[0]).status != at(ts, rows@[m]).status);
        }
        assert(c == want);
    }
    c
}

/// How urgent a row's task is: over 10, over 5, or neither (the caller
/// compares the urgency).
#[derive(Clone, Copy, Debug, PartialEq, Eq, Structural)]
pub enum UrgencyLevel {
    High,
    Raised,
    Low,
}

/// The shading of a row.
#[derive(Clone, Copy, Debug, PartialEq, Eq, Structural)]
pub enum Shade {
    /// Green: the task is being worked on.
    Active,
    /// Blue: the task is tagged `next`.
    Next,
    /// Red: the urgency is over 10.
    Urgent,
    /// Yellow: the urgency is over 5.
    Raised,
    /// Grey: an even row.
    Striped,
    /// An odd row.
    Plain,
}

/// The shading of the row at `place` for a task with an urgency level.
pub open spec fn shade_of(t: TaskModel, urgency: UrgencyLevel, place: usize) -> Shade {
    if t.start is Some {
        Shade::Active
    } else if t.tags.contains(next_tag()) {
        Shade::Next
    } else if urgency == UrgencyLevel::High {
        Shade::Urgent
    } else if urgency == UrgencyLevel::Raised {
        Shade::Raised
    } else if place % 2 == 0 {
        Shade::Striped
    } else {
        Shade::Plain
    }
}

/// The shading of the row at `place` for `task`: active tasks first, then
/// tasks tagged `next`, then by urgency, and alternate stripes otherwise.
pub fn row_shade(task: &Task, urgency: UrgencyLevel, place: usize) -> (r: Shade)
    ensures
        r == shade_of(task@, urgency, place),
{
    if task.start().is_some() {
        Shade::Active
    } else if has_next_tag(task.tags()) {
        Shade::Next
    } else {
        match urgency {
            UrgencyLevel::High => Shade::Urgent,
            UrgencyLevel::Raised => Shade::Raised,
            UrgencyLevel::Low => if place % 2 == 0 {
                Shade::Striped
            } else {
                Shade::Plain
            },
        }
    }
}

/// The text of a status in the table.
pub open spec fn status_text(s: Status) -> Seq<char> {
    match s {
        Status::Pending => seq!['P', 'e', 'n', 'd', 'i', 'n', 'g'],
        Status::Deleted => seq!['D', 'e', 'l', 'e', 't', 'e', 'd'],
        Status::Completed => seq!['C', 'o', 'm', 'p', 'l', 'e', 't', 'e', 'd'],
        Status::Waiting => seq!['W', 'a', 'i', 't', 'i', 'n', 'g'],
        Status::Recurring => seq!['R', 'e', 'c', 'u', 'r', 'r', 'i', 'n', 'g'],
    }
}

/// The text of a status in the table.
pub fn status_label(s: Status) -> (r: &'static str)
    ensures
        r@ == status_text(s),
{
    proof {
        reveal_strlit("Pending");
        reveal_strlit("Deleted");
        reveal_strlit("Completed");
        reveal_strlit("Waiting");
        reveal_strlit("Recurring");
        assert("Pending"@ =~= status_text(Status::Pending));
        assert("Deleted"@ =~= status_text(Status::Deleted));
        assert("Completed"@ =~= status_text(Status::Completed));
        assert("Waiting"@ =~= status_text(Status::Waiting));
        assert("Recurring"@ =~= status_text(Status::Recurring));
    }
    match s {
        Status::Pending => "Pending",
        Status::Deleted => "Deleted",
        Status::Completed => "Completed",
        Status::Waiting => "Waiting",
        Status::Recurring => "Recurring",
    }
}

} // verus!
