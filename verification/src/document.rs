//! The document: every task, keyed by its identifier, and the operations the
//! client performs on it, including spawning the children of recurring tasks.
use vstd::prelude::*;

use crate::task::{changed, is_v4_uuid, now, Id, Status, Task, TaskChange, TaskModel};
use crate::time::DateTime;

verus! {

/// The tasks of a list, keyed by identifier (a later entry wins).
pub open spec fn models_by_id(s: Seq<Task>) -> Map<Id, TaskModel>
    decreases s.len(),
{
    if s.len() == 0 {
        Map::empty()
    } else {
        models_by_id(s.drop_last()).insert(s.last()@.id, s.last()@)
    }
}

/// No two tasks of the list share an identifier.
pub open spec fn ids_unique(s: Seq<Task>) -> bool {
    forall|i: int, j: int| 0 <= i < j < s.len() ==> s[i]@.id != s[j]@.id
}

/// `m` with the tasks of `ts` put in one after another, each replacing any
/// task with its identifier.
pub open spec fn insert_all(m: Map<Id, TaskModel>, ts: Seq<TaskModel>) -> Map<Id, TaskModel>
    decreases ts.len(),
{
    if ts.len() == 0 {
        m
    } else {
        insert_all(m, ts.drop_last()).insert(ts.last().id, ts.last())
    }
}

/// The recurring task `id` of `m` is due a new child at `at`: every child it
/// already has was entered longer than its recurrence interval before `at`
/// (vacuously so when it has none).
pub open spec fn needs_child(m: Map<Id, TaskModel>, id: Id, at: DateTime) -> bool {
    &&& m.contains_key(id)
    &&& m[id].status == Status::Recurring
    &&& forall|c: Id|
        #![trigger m[c]]
        m.contains_key(c) && m[c].parent == Some(id) ==> at.0 - m[c].entry.0
            > crate::task::unit_millis(m[id].recur.unwrap().unit) * m[id].recur.unwrap().amount
}

/// The test `needs_child(m, _, at)` as a predicate.
pub open spec fn due_pred(m: Map<Id, TaskModel>, at: DateTime) -> spec_fn(Id) -> bool {
    |id: Id| needs_child(m, id, at)
}

/// The recurring tasks due a new child at `at`, in the given order.
pub open spec fn due_ids(m: Map<Id, TaskModel>, order: Seq<Id>, at: DateTime) -> Seq<Id> {
    order.filter(due_pred(m, at))
}

/// The recurring task `id` of `m` has no recurrence interval but has a
/// child already, so there is no interval to measure that child's age by.
pub open spec fn stuck_recurring(m: Map<Id, TaskModel>, id: Id) -> bool {
    &&& m.contains_key(id)
    &&& m[id].status == Status::Recurring
    &&& m[id].recur is None
    &&& exists|c: Id| #![trigger m[c]] m.contains_key(c) && m[c].parent == Some(id)
}

/// A recurrence tick can run on `m`: no recurring task lacks its interval
/// while it already has a child. (One without an interval and without a
/// child is simply given its first child.)
pub open spec fn tick_safe(m: Map<Id, TaskModel>) -> bool {
    forall|id: Id| !#[trigger] stuck_recurring(m, id)
}

/// The children spawned for the parents `due`, the i-th with identifier
/// `fresh[i]`, all entered at `at`.
pub open spec fn spawned(m: Map<Id, TaskModel>, due: Seq<Id>, fresh: Seq<Id>, at: DateTime) -> Seq<
    TaskModel,
> {
    Seq::new(due.len(), |i: int| m[due[i]].child(due[i], fresh[i], at))
}

proof fn lemma_models_by_id_contains(s: Seq<Task>, id: Id)
    ensures
        models_by_id(s).contains_key(id) <==> exists|i: int| 0 <= i < s.len() && s[i]@.id == id,
    decreases s.len(),
{
    if s.len() > 0 {
        lemma_models_by_id_contains(s.drop_last(), id);
        if models_by_id(s.drop_last()).contains_key(id) {
            let i = choose|i: int| 0 <= i < s.drop_last().len() && s.drop_last()[i]@.id == id;
            assert(s[i]@.id == id);
        }
        if exists|i: int| 0 <= i < s.len() && s[i]@.id == id {
            let i = choose|i: int| 0 <= i < s.len() && s[i]@.id == id;
            if i < s.len() - 1 {
                assert(s.drop_last()[i]@.id == id);
            }
        }
    }
}

proof fn lemma_models_by_id_index(s: Seq<Task>, i: int)
    requires
        ids_unique(s),
        0 <= i < s.len(),
    ensures
        models_by_id(s).contains_key(s[i]@.id),
        models_by_id(s)[s[i]@.id] == s[i]@,
    decreases s.len(),
{
    if i < s.len() - 1 {
        assert(ids_unique(s.drop_last()));
        lemma_models_by_id_index(s.drop_last(), i);
        assert(s.drop_last()[i] == s[i]);
        assert(s.last()@.id != s[i]@.id);
    }
}

proof fn lemma_models_by_id_update(s: Seq<Task>, i: int, t: Task)
    requires
        ids_unique(s),
        0 <= i < s.len(),
        s[i]@.id == t@.id,
    ensures
        ids_unique(s.update(i, t)),
        models_by_id(s.update(i, t)) == models_by_id(s).insert(t@.id, t@),
    decreases s.len(),
{
    let u = s.update(i, t);
    if i == s.len() - 1 {
        assert(u.drop_last() =~= s.drop_last());
        assert(!models_by_id(s.drop_last()).contains_key(t@.id)) by {
            lemma_models_by_id_contains(s.drop_last(), t@.id);
            if exists|j: int| 0 <= j < s.drop_last().len() && s.drop_last()[j]@.id == t@.id {
                let j = choose|j: int| 0 <= j < s.drop_last().len() && s.drop_last()[j]@.id == t@.id;
                assert(s[j]@.id == s[i]@.id);
            }
        }
        assert(models_by_id(u) =~= models_by_id(s).insert(t@.id, t@));
    } else {
        assert(ids_unique(s.drop_last()));
        lemma_models_by_id_update(s.drop_last(), i, t);
        assert(u.drop_last() =~= s.drop_last().update(i, t));
        assert(u.last() == s.last());
        assert(s.last()@.id != t@.id);
        assert(models_by_id(u) =~= models_by_id(s).insert(t@.id, t@));
    }
}

proof fn lemma_models_by_id_remove(s: Seq<Task>, i: int)
    requires
        ids_unique(s),
        0 <= i < s.len(),
    ensures
        ids_unique(s.remove(i)),
        models_by_id(s.remove(i)) == models_by_id(s).remove(s[i]@.id),
    decreases s.len(),
{
    let r = s.remove(i);
    let id = s[i]@.id;
    if i == s.len() - 1 {
        assert(r =~= s.drop_last());
        assert(!models_by_id(s.drop_last()).contains_key(id)) by {
            lemma_models_by_id_contains(s.drop_last(), id);
            if exists|j: int| 0 <= j < s.drop_last().len() && s.drop_last()[j]@.id == id {
                let j = choose|j: int| 0 <= j < s.drop_last().len() && s.drop_last()[j]@.id == id;
                assert(s[j]@.id == s[i]@.id);
            }
        }
        assert(models_by_id(r) =~= models_by_id(s).remove(id));
    } else {
        assert(ids_unique(s.drop_last()));
        lemma_models_by_id_remove(s.drop_last(), i);
        assert(r.drop_last() =~= s.drop_last().remove(i));
        assert(r.last() == s.last());
        assert(s.last()@.id != id);
        assert(models_by_id(r) =~= models_by_id(s).remove(id));
    }
}

/// Every task, keyed by its identifier.
pub struct Document {
    tasks: Vec<Task>,
}

impl Document {
    #[verifier::type_invariant]
    spec fn unique(self) -> bool {
        ids_unique(self.tasks@)
    }

    /// The tasks in the order the document keeps them.
    pub closed spec fn order(self) -> Seq<Id> {
        self.tasks@.map_values(|t: Task| t@.id)
    }
}

impl View for Document {
    type V = Map<Id, TaskModel>;

    closed spec fn view(&self) -> Map<Id, TaskModel> {
        models_by_id(self.tasks@)
    }
}

impl Document {
    /// An empty document.
    pub fn new() -> (d: Document)
        ensures
            d@ == Map::<Id, TaskModel>::empty(),
            d.order() == Seq::<Id>::empty(),
    {
        let d = Document { tasks: Vec::new() };
        assert(d.order() =~= Seq::<Id>::empty());
        d
    }

    /// Where the task `id` is kept, if it is there.
    fn position(&self, id: &Id) -> (r: Option<usize>)
        ensures
            match r {
                Some(i) => i < self.tasks@.len() && self.tasks@[i as int]@.id == *id,
                None => forall|j: int| 0 <= j < self.tasks@.len() ==> self.tasks@[j]@.id != *id,
            },
    {
        let mut i: usize = 0;
        while i < self.tasks.len()
            invariant
                i <= self.tasks@.len(),
                forall|j: int| 0 <= j < i ==> self.tasks@[j]@.id != *id,
            decreases self.tasks.len() - i,
        {
            if *self.tasks[i].id() == *id {
                return Some(i);
            }
            i = i + 1;
        }
        None
    }

    proof fn lemma_view_facts(self)
        requires
            ids_unique(self.tasks@),
        ensures
            forall|i: int|
                0 <= i < self.tasks@.len() ==> #[trigger] self@.contains_key(self.tasks@[i]@.id)
                    && self@[self.tasks@[i]@.id] == self.tasks@[i]@,
            forall|id: Id|
                #[trigger] self@.contains_key(id) ==> exists|i: int|
                    0 <= i < self.tasks@.len() && self.tasks@[i]@.id == id,
    {
        assert forall|i: int| 0 <= i < self.tasks@.len() implies #[trigger] self@.contains_key(
            self.tasks@[i]@.id,
        ) && self@[self.tasks@[i]@.id] == self.tasks@[i]@ by {
            lemma_models_by_id_index(self.tasks@, i);
        }
        assert forall|id: Id| #[trigger] self@.contains_key(id) implies exists|i: int|
            0 <= i < self.tasks@.len() && self.tasks@[i]@.id == id by {
            lemma_models_by_id_contains(self.tasks@, id);
        }
    }

    /// The task with the given identifier, if there is one.
    pub fn get_task(&self, id: &Id) -> (r: Option<&Task>)
        ensures
            match r {
                Some(t) => self@.contains_key(*id) && t@ == self@[*id],
                None => !self@.contains_key(*id),
            },
    {
        proof {
            use_type_invariant(self);
            self.lemma_view_facts();
        }
        match self.position(id) {
            Some(i) => Some(&self.tasks[i]),
            None => {
                proof {
                    lemma_models_by_id_contains(self.tasks@, *id);
                }
                None
            },
        }
    }

    /// All tasks, each once, in the order the document keeps them.
    pub fn tasks(&self) -> (r: &[Task])
        ensures
            models_by_id(r@) == self@,
            ids_unique(r@),
            r@.map_values(|t: Task| t@.id) == self.order(),
    {
        proof {
            use_type_invariant(self);
        }
        self.tasks.as_slice()
    }

    /// Puts a task in, replacing any task with its identifier.
    pub fn update_task(&mut self, task: Task)
        ensures
            final(self)@ == old(self)@.insert(task@.id, task@),
    {
        proof {
            use_type_invariant(&*self);
        }
        let ghost t = task@;
        let id = *task.id();
        match self.position(&id) {
            Some(i) => {
                proof {
                    lemma_models_by_id_update(self.tasks@, i as int, task);
                }
                let mut v: Vec<Task> = Vec::new();
                std::mem::swap(&mut v, &mut self.tasks);
                v.set(i, task);
                self.tasks = v;
            },
            None => {
                let ghost before = self.tasks@;
                let mut v: Vec<Task> = Vec::new();
                std::mem::swap(&mut v, &mut self.tasks);
                v.push(task);
                proof {
                    assert(v@.drop_last() =~= before);
                    assert(ids_unique(v@));
                }
                self.tasks = v;
            },
        }
    }

    /// Puts the tasks in, one after another, as `update_task` does.
    pub fn update_tasks(&mut self, tasks: Vec<Task>)
        ensures
            final(self)@ == insert_all(old(self)@, tasks@.map_values(|t: Task| t@)),
    {
        let ghost models = tasks@.map_values(|t: Task| t@);
        let ghost start = self@;
        let mut rest = tasks;
        let mut done: usize = 0;
        let total = rest.len();
        let ghost n = rest@.len();
        assert(n == total);
        let mut queue: Vec<Task> = Vec::new();
        // reverse so that tasks can be taken from the end in the order given
        while rest.len() > 0
            invariant
                queue@.len() + rest@.len() == n,
                n <= usize::MAX,
                forall|k: int|
                    0 <= k < rest@.len() ==> #[trigger] rest@[k]@ == models[k],
                forall|k: int|
                    0 <= k < queue@.len() ==> #[trigger] queue@[k]@ == models[n - 1 - k],
                models.len() == n,
            decreases rest.len(),
        {
            let t = rest.pop().unwrap();
            queue.push(t);
        }
        while queue.len() > 0
            invariant
                done + queue@.len() == n,
                n <= usize::MAX,
                models.len() == n,
                forall|k: int|
                    0 <= k < queue@.len() ==> #[trigger] queue@[k]@ == models[n - 1 - k],
                self@ == insert_all(start, models.take(done as int)),
            decreases queue.len(),
        {
            let t = queue.pop().unwrap();
            proof {
                assert(t@ == models[done as int]);
                assert(models.take(done + 1).drop_last() =~= models.take(done as int));
            }
            self.update_task(t);
            done = done + 1;
        }
        assert(models.take(n as int) =~= models);
    }

    /// Removes the task with the given identifier, if it is there.
    pub fn remove_task(&mut self, id: &Id)
        ensures
            final(self)@ == old(self)@.remove(*id),
    {
        proof {
            use_type_invariant(&*self);
        }
        match self.position(id) {
            Some(i) => {
                proof {
                    lemma_models_by_id_remove(self.tasks@, i as int);
                }
                let mut v: Vec<Task> = Vec::new();
                std::mem::swap(&mut v, &mut self.tasks);
                v.remove(i);
                self.tasks = v;
            },
            None => {
                proof {
                    lemma_models_by_id_contains(self.tasks@, *id);
                    assert(self@ =~= self@.remove(*id));
                }
            },
        }
    }

    /// Applies an edit to the task with the given identifier, if it is there.
    pub fn change_task(&mut self, id: &Id, change: TaskChange)
        ensures
            final(self)@ == (if old(self)@.contains_key(*id) {
                old(self)@.insert(*id, changed(old(self)@[*id], change))
            } else {
                old(self)@
            }),
    {
        proof {
            use_type_invariant(&*self);
            self.lemma_view_facts();
        }
        match self.position(id) {
            Some(i) => {
                let mut t = self.tasks[i].clone();
                let ghost before = t@;
                t.apply(change);
                proof {
                    assert(t@.id == before.id);
                    lemma_models_by_id_update(self.tasks@, i as int, t);
                }
                let mut v: Vec<Task> = Vec::new();
                std::mem::swap(&mut v, &mut self.tasks);
                v.set(i, t);
                self.tasks = v;
            },
            None => {
                proof {
                    lemma_models_by_id_contains(self.tasks@, *id);
                }
            },
        }
    }

    /// Whether every child of `parent` was entered more than `interval`
    /// milliseconds before `at`.
    fn children_older_than(&self, parent: Id, at: DateTime, interval: i128) -> (r: bool)
        ensures
            r == (forall|c: Id|
                #![trigger self@[c]]
                self@.contains_key(c) && self@[c].parent == Some(parent) ==> at.0 - self@[c].entry.0
                    > interval),
    {
        proof {
            use_type_invariant(self);
            self.lemma_view_facts();
        }
        let mut j: usize = 0;
        while j < self.tasks.len()
            invariant
                j <= self.tasks@.len(),
                forall|k: int|
                    0 <= k < self.tasks@.len() ==> #[trigger] self@.contains_key(self.tasks@[k]@.id)
                        && self@[self.tasks@[k]@.id] == self.tasks@[k]@,
                forall|id: Id|
                    #[trigger] self@.contains_key(id) ==> exists|k: int|
                        0 <= k < self.tasks@.len() && self.tasks@[k]@.id == id,
                forall|k: int|
                    0 <= k < j ==> #[trigger] self.tasks@[k]@.parent == Some(parent) ==> at.0
                        - self.tasks@[k]@.entry.0 > interval,
            decreases self.tasks.len() - j,
        {
            let c = &self.tasks[j];
            let is_child = match c.parent() {
                Some(p) => *p == parent,
                None => false,
            };
            if is_child {
                let age = (at.0 as i128) - (c.entry().0 as i128);
                if !(age > interval) {
                    proof {
                        assert(self@.contains_key(self.tasks@[j as int]@.id));
                        assert(self@[self.tasks@[j as int]@.id] == self.tasks@[j as int]@);
                    }
                    return false;
                }
            }
            j = j + 1;
        }
        proof {
            assert forall|c: Id|
                #![trigger self@[c]]
                self@.contains_key(c) && self@[c].parent == Some(parent) implies at.0
                    - self@[c].entry.0 > interval by {
                let k = choose|k: int| 0 <= k < self.tasks@.len() && self.tasks@[k]@.id == c;
                assert(self@[self.tasks@[k]@.id] == self.tasks@[k]@);
            }
        }
        true
    }

    /// Whether some task of the document has `parent` as its parent.
    fn has_child(&self, parent: Id) -> (r: bool)
        ensures
            r == (exists|c: Id| #![trigger self@[c]] self@.contains_key(c) && self@[c].parent == Some(parent)),
    {
        proof {
            use_type_invariant(self);
            self.lemma_view_facts();
        }
        let mut j: usize = 0;
        while j < self.tasks.len()
            invariant
                j <= self.tasks@.len(),
                forall|k: int|
                    0 <= k < self.tasks@.len() ==> #[trigger] self@.contains_key(self.tasks@[k]@.id)
                        && self@[self.tasks@[k]@.id] == self.tasks@[k]@,
                forall|id: Id|
                    #[trigger] self@.contains_key(id) ==> exists|k: int|
                        0 <= k < self.tasks@.len() && self.tasks@[k]@.id == id,
                forall|k: int| 0 <= k < j ==> #[trigger] self.tasks@[k]@.parent != Some(parent),
            decreases self.tasks.len() - j,
        {
            let is_child = match self.tasks[j].parent() {
                Some(p) => *p == parent,
                None => false,
            };
            if is_child {
                proof {
                    assert(self@.contains_key(self.tasks@[j as int]@.id));
                    let c = self.tasks@[j as int]@.id;
                    assert(self@.contains_key(c) && self@[c] == self.tasks@[j as int]@);
                }
                return true;
            }
            j = j + 1;
        }
        proof {
            assert forall|c: Id| #![trigger self@[c]] self@.contains_key(c) implies self@[c].parent
                != Some(parent) by {
                let k = choose|k: int| 0 <= k < self.tasks@.len() && self.tasks@[k]@.id == c;
                assert(self@[self.tasks@[k]@.id] == self.tasks@[k]@);
            }
        }
        false
    }

    /// Whether a recurrence tick can run on the document: no recurring task
    /// without a recurrence interval has a child yet.
    pub fn can_tick(&self) -> (r: bool)
        ensures
            r == tick_safe(self@),
    {
        proof {
            use_type_invariant(self);
            self.lemma_view_facts();
        }
        let mut i: usize = 0;
        while i < self.tasks.len()
            invariant
                i <= self.tasks@.len(),
                forall|k: int|
                    0 <= k < self.tasks@.len() ==> #[trigger] self@.contains_key(self.tasks@[k]@.id)
                        && self@[self.tasks@[k]@.id] == self.tasks@[k]@,
                forall|id: Id|
                    #[trigger] self@.contains_key(id) ==> exists|k: int|
                        0 <= k < self.tasks@.len() && self.tasks@[k]@.id == id,
                forall|k: int| 0 <= k < i ==> !stuck_recurring(self@, #[trigger] self.tasks@[k]@.id),
            decreases self.tasks.len() - i,
        {
            let t = &self.tasks[i];
            let id = *t.id();
            proof {
                assert(self@.contains_key(self.tasks@[i as int]@.id));
            }
            if *t.status() == Status::Recurring && t.recur().is_none() {
                if self.has_child(id) {
                    proof {
                        assert(stuck_recurring(self@, id));
                    }
                    return false;
                }
            }
            i = i + 1;
        }
        proof {
            assert forall|id: Id| !#[trigger] stuck_recurring(self@, id) by {
                if self@.contains_key(id) {
                    let k = choose|k: int| 0 <= k < self.tasks@.len() && self.tasks@[k]@.id == id;
                    assert(!stuck_recurring(self@, self.tasks@[k]@.id));
                }
            }
        }
        true
    }

    /// The recurring tasks that are due a new child at `at`, in document order.
    pub fn recurring_due(&self, at: DateTime) -> (r: Vec<Id>)
        requires
            tick_safe(self@),
        ensures
            r@ == due_ids(self@, self.order(), at),
            forall|id: Id| self@.contains_key(id) <==> self.order().contains(id),
    {
        proof {
            use_type_invariant(self);
            self.lemma_view_facts();
            let o = self.order();
            assert forall|id: Id| self@.contains_key(id) <==> o.contains(id) by {
                if self@.contains_key(id) {
                    let i = choose|i: int| 0 <= i < self.tasks@.len() && self.tasks@[i]@.id == id;
                    assert(o[i] == id);
                }
                if o.contains(id) {
                    let i = choose|i: int| 0 <= i < o.len() && o[i] == id;
                    assert(self.tasks@[i]@.id == id);
                }
            }
        }
        let ghost order = self.order();
        let ghost pred = due_pred(self@, at);
        let mut due: Vec<Id> = Vec::new();
        let mut i: usize = 0;
        while i < self.tasks.len()
            invariant
                order == self.order(),
                order.len() == self.tasks@.len(),
                pred == due_pred(self@, at),
                tick_safe(self@),
                i <= self.tasks@.len(),
                due@ == order.take(i as int).filter(pred),
                forall|k: int|
                    0 <= k < self.tasks@.len() ==> #[trigger] self@.contains_key(self.tasks@[k]@.id)
                        && self@[self.tasks@[k]@.id] == self.tasks@[k]@,
            decreases self.tasks.len() - i,
        {
            proof {
                reveal(Seq::filter);
                assert(order.take(i + 1).drop_last() =~= order.take(i as int));
                assert(order[i as int] == self.tasks@[i as int]@.id);
                assert(self@.contains_key(self.tasks@[i as int]@.id));
            }
            let t = &self.tasks[i];
            let id = *t.id();
            if *t.status() == Status::Recurring {
                match t.recur() {
                    Some(rec) => {
                        let interval = rec.duration();
                        if self.children_older_than(id, at, interval.millis) {
                            due.push(id);
                        }
                    },
                    None => {
                        proof {
                            assert(!stuck_recurring(self@, id));
                            assert(needs_child(self@, id, at));
                        }
                        due.push(id);
                    },
                }
            }
            i = i + 1;
        }
        assert(order.take(self.tasks@.len() as int) =~= order);
        due
    }

    /// Spawns, at `at`, one new pending child for every recurring task that is
    /// due one, each with a fresh random identifier; returns those identifiers,
    /// in the order of their parents.
    pub fn recur_tick_at(&mut self, at: DateTime) -> (fresh: Vec<Id>)
        requires
            tick_safe(old(self)@),
        ensures
            fresh@.len() == due_ids(old(self)@, old(self).order(), at).len(),
            forall|k: int| 0 <= k < fresh@.len() ==> is_v4_uuid(#[trigger] fresh@[k].0),
            final(self)@ == insert_all(
                old(self)@,
                spawned(old(self)@, due_ids(old(self)@, old(self).order(), at), fresh@, at),
            ),
    {
        let due = self.recurring_due(at);
        let ghost m = self@;
        let ghost pred = due_pred(self@, at);
        proof {
            assert forall|k: int| 0 <= k < due@.len() implies #[trigger] m.contains_key(due@[k]) by {
                self.order().lemma_filter_pred(pred, k);
            }
        }
        let mut fresh: Vec<Id> = Vec::new();
        let mut children: Vec<Task> = Vec::new();
        let mut k: usize = 0;
        while k < due.len()
            invariant
                m == self@,
                k <= due@.len(),
                fresh@.len() == k,
                forall|j: int| 0 <= j < k ==> is_v4_uuid(#[trigger] fresh@[j].0),
                children@.len() == k,
                forall|j: int| 0 <= j < due@.len() ==> #[trigger] m.contains_key(due@[j]),
                forall|j: int|
                    0 <= j < k ==> #[trigger] children@[j]@ == m[due@[j]].child(
                        due@[j],
                        fresh@[j],
                        at,
                    ),
            decreases due.len() - k,
        {
            let parent_id = due[k];
            match self.get_task(&parent_id) {
                Some(parent) => {
                    let (cid, child) = parent.new_child_at(parent_id, Id::new(), at);
                    fresh.push(cid);
                    children.push(child);
                },
                None => {
                    proof {
                        assert(m.contains_key(due@[k as int]));
                    }
                },
            }
            k = k + 1;
        }
        proof {
            assert(children@.map_values(|t: Task| t@) =~= spawned(m, due@, fresh@, at));
        }
        self.update_tasks(children);
        fresh
    }

    /// Spawns, now, the children of the recurring tasks that are due one.
    pub fn recur_tick(&mut self) -> (fresh: Vec<Id>)
        requires
            tick_safe(old(self)@),
        ensures
            exists|at: DateTime|
                {
                    &&& fresh@.len() == due_ids(old(self)@, old(self).order(), at).len()
                    &&& forall|k: int| 0 <= k < fresh@.len() ==> is_v4_uuid(#[trigger] fresh@[k].0)
                    &&& final(self)@ == insert_all(
                        old(self)@,
                        spawned(old(self)@, due_ids(old(self)@, old(self).order(), at), fresh@, at),
                    )
                },
    {
        let at = now();
        self.recur_tick_at(at)
    }

    /// Adds a new empty pending task with a fresh identifier (a version-4
    /// UUID), entered now, and returns its identifier.
    pub fn new_task(&mut self) -> (id: Id)
        ensures
            is_v4_uuid(id.0),
            exists|entry: DateTime|
                final(self)@ == old(self)@.insert(id, TaskModel::fresh(id, entry)),
    {
        let task = Task::new();
        let id = *task.id();
        let ghost entry = task@.entry;
        self.update_task(task);
        id
    }
}

/// Law: after putting a task in, reading its identifier gives it back, and
/// every other task is as it was.
pub proof fn law_update_then_get(m: Map<Id, TaskModel>, t: TaskModel)
    ensures
        m.insert(t.id, t).contains_key(t.id),
        m.insert(t.id, t)[t.id] == t,
        forall|k: Id| k != t.id ==> (m.insert(t.id, t).contains_key(k) == m.contains_key(k)),
        forall|k: Id| k != t.id && m.contains_key(k) ==> m.insert(t.id, t)[k] == m[k],
{
}

/// Law: after removing a task it is gone, and every other task is as it was.
pub proof fn law_remove_then_get(m: Map<Id, TaskModel>, id: Id)
    ensures
        !m.remove(id).contains_key(id),
        forall|k: Id| k != id ==> (m.remove(id).contains_key(k) == m.contains_key(k)),
        forall|k: Id| k != id && m.contains_key(k) ==> m.remove(id)[k] == m[k],
{
}

/// Law: an edit of a task that is not there changes nothing, and an edit of
/// one that is there changes only that task, keeping its identifier.
pub proof fn law_change_touches_one_task(m: Map<Id, TaskModel>, id: Id, c: TaskChange)
    requires
        m.contains_key(id),
        m[id].id == id,
    ensures
        m.insert(id, changed(m[id], c))[id].id == id,
        m.insert(id, changed(m[id], c)).dom() == m.dom(),
{
    assert(m.insert(id, changed(m[id], c)).dom() =~= m.dom());
}

/// What `insert_all` holds: the tasks put in win, all others stay.
proof fn lemma_insert_all(m: Map<Id, TaskModel>, ts: Seq<TaskModel>)
    requires
        forall|i: int, j: int| 0 <= i < j < ts.len() ==> ts[i].id != ts[j].id,
    ensures
        forall|k: Id|
            #[trigger] insert_all(m, ts).contains_key(k) <==> (m.contains_key(k) || exists|i: int|
                0 <= i < ts.len() && ts[i].id == k),
        forall|i: int| 0 <= i < ts.len() ==> #[trigger] insert_all(m, ts)[ts[i].id] == ts[i],
        forall|k: Id|
            m.contains_key(k) && (forall|i: int| 0 <= i < ts.len() ==> ts[i].id != k)
                ==> #[trigger] insert_all(m, ts)[k] == m[k],
    decreases ts.len(),
{
    if ts.len() > 0 {
        let rest = ts.drop_last();
        lemma_insert_all(m, rest);
        assert(insert_all(m, ts) == insert_all(m, rest).insert(ts.last().id, ts.last()));
        assert forall|k: Id|
            #[trigger] insert_all(m, ts).contains_key(k) <==> (m.contains_key(k) || exists|i: int|
                0 <= i < ts.len() && ts[i].id == k) by {
            assert(insert_all(m, rest).contains_key(k) <==> (m.contains_key(k) || exists|i: int|
                0 <= i < rest.len() && rest[i].id == k));
            if exists|i: int| 0 <= i < ts.len() && ts[i].id == k {
                let i = choose|i: int| 0 <= i < ts.len() && ts[i].id == k;
                if i < ts.len() - 1 {
                    assert(rest[i].id == k);
                }
            }
            if insert_all(m, rest).contains_key(k) && !m.contains_key(k) {
                let i = choose|i: int| 0 <= i < rest.len() && rest[i].id == k;
                assert(ts[i].id == k);
            }
        }
        assert forall|i: int| 0 <= i < ts.len() implies #[trigger] insert_all(m, ts)[ts[i].id] == ts[i] by {
            if i < ts.len() - 1 {
                assert(rest[i] == ts[i]);
                assert(insert_all(m, rest)[rest[i].id] == rest[i]);
                assert(ts[i].id != ts.last().id);
            }
        }
        assert forall|k: Id|
            m.contains_key(k) && (forall|i: int| 0 <= i < ts.len() ==> ts[i].id != k)
                implies #[trigger] insert_all(m, ts)[k] == m[k] by {
            assert(ts[ts.len() - 1].id != k);
            assert forall|i: int| 0 <= i < rest.len() implies rest[i].id != k by {
                assert(rest[i] == ts[i]);
            }
            assert(insert_all(m, rest)[k] == m[k]);
        }
    }
}

/// Law: a tick spawns, for each recurring task due a child, a pending child
/// of it entered at the tick's time, with the parent's description,
/// project, tags, priority, notes, dates and recurrence.
pub proof fn law_spawned_children(m: Map<Id, TaskModel>, due: Seq<Id>, fresh: Seq<Id>, at: DateTime, i: int)
    requires
        fresh.len() == due.len(),
        0 <= i < due.len(),
    ensures
        spawned(m, due, fresh, at)[i].status == Status::Pending,
        spawned(m, due, fresh, at)[i].parent == Some(due[i]),
        spawned(m, due, fresh, at)[i].entry == at,
        spawned(m, due, fresh, at)[i].id == fresh[i],
        spawned(m, due, fresh, at)[i].description == m[due[i]].description,
        spawned(m, due, fresh, at)[i].project == m[due[i]].project,
        spawned(m, due, fresh, at)[i].tags == m[due[i]].tags,
        spawned(m, due, fresh, at)[i].priority == m[due[i]].priority,
        spawned(m, due, fresh, at)[i].notes == m[due[i]].notes,
        spawned(m, due, fresh, at)[i].due == m[due[i]].due,
        spawned(m, due, fresh, at)[i].scheduled == m[due[i]].scheduled,
        spawned(m, due, fresh, at)[i].recur == m[due[i]].recur,
{
}

/// Law: a second tick at the same time spawns nothing more: once a tick has
/// given every due recurring task a child entered at `at`, no recurring task
/// is due a child at `at` (given fresh identifiers that are new and distinct).
pub proof fn law_recur_tick_settles(m: Map<Id, TaskModel>, order: Seq<Id>, fresh: Seq<Id>, at: DateTime)
    requires
        forall|id: Id| m.contains_key(id) <==> order.contains(id),
        fresh.len() == due_ids(m, order, at).len(),
        forall|i: int, j: int| 0 <= i < j < fresh.len() ==> fresh[i] != fresh[j],
        forall|i: int| 0 <= i < fresh.len() ==> !m.contains_key(#[trigger] fresh[i]),
    ensures
        forall|id: Id|
            !needs_child(
                insert_all(m, spawned(m, due_ids(m, order, at), fresh, at)),
                id,
                at,
            ),
{
    let due = due_ids(m, order, at);
    let kids = spawned(m, due, fresh, at);
    let m2 = insert_all(m, kids);
    assert forall|i: int, j: int| 0 <= i < j < kids.len() implies kids[i].id != kids[j].id by {}
    lemma_insert_all(m, kids);
    assert forall|id: Id| !needs_child(m2, id, at) by {
        if m2.contains_key(id) && m2[id].status == Status::Recurring {
            if exists|i: int| 0 <= i < kids.len() && kids[i].id == id {
                let i = choose|i: int| 0 <= i < kids.len() && kids[i].id == id;
                assert(m2[kids[i].id] == kids[i]);
            } else {
                assert(m.contains_key(id));
                assert forall|i: int| 0 <= i < kids.len() implies kids[i].id != id by {}
                assert(m2[id] == m[id]);
                assert(order.contains(id));
                let r = m[id].recur.unwrap();
                let bound = crate::task::unit_millis(r.unit) * r.amount;
                assert(crate::task::unit_millis(r.unit) * r.amount >= 0) by (nonlinear_arith)
                    requires
                        crate::task::unit_millis(r.unit) >= 0,
                        r.amount >= 0,
                ;
                if due.contains(id) {
                    let k = choose|k: int| 0 <= k < due.len() && due[k] == id;
                    let c = kids[k].id;
                    assert(m2[kids[k].id] == kids[k]);
                    assert(m2.contains_key(c));
                    assert(m2[c].parent == Some(id));
                    assert(at.0 - m2[c].entry.0 == 0);
                } else {
                    let o = choose|o: int| 0 <= o < order.len() && order[o] == id;
                    if needs_child(m, id, at) {
                        order.lemma_filter_contains(due_pred(m, at), o);
                    }
                    assert(!needs_child(m, id, at));
                    let c = choose|c: Id|
                        m.contains_key(c) && m[c].parent == Some(id) && !(at.0 - m[c].entry.0 > bound);
                    assert(m2.contains_key(c));
                    if exists|i: int| 0 <= i < kids.len() && kids[i].id == c {
                        let i = choose|i: int| 0 <= i < kids.len() && kids[i].id == c;
                        assert(!m.contains_key(fresh[i]));
                    }
                    assert forall|i: int| 0 <= i < kids.len() implies kids[i].id != c by {
                        if kids[i].id == c {
                            assert(!m.contains_key(fresh[i]));
                        }
                    }
                    assert(m2[c] == m[c]);
                }
            }
        }
    }
}

} // verus!
