//! The task list page: its filter settings, the saved filter contexts, and
//! the column it is sorted by.
use vstd::prelude::*;

use crate::filters::{Filters, FiltersModel};
use crate::input::{parse_project, parse_tags, project_from_input, tags_from_input};
use crate::sort::{Field, SortDirection};
use crate::text::{lowercase_of, same_text, strings_view, to_lowercase};

verus! {

/// Filter settings saved under a name.
pub struct Context {
    pub name: String,
    pub filters: Filters,
}

/// The state of the task list page.
pub struct Model {
    pub filters: Filters,
    pub contexts: Vec<Context>,
    pub sort_field: Field,
    pub sort_direction: SortDirection,
}

/// A saved context as plain values.
pub type ContextView = (Seq<char>, FiltersModel);

/// The state of the task list page as plain values.
#[verifier::ext_equal]
pub struct ModelView {
    pub filters: FiltersModel,
    pub contexts: Seq<ContextView>,
    pub sort_field: Field,
    pub sort_direction: SortDirection,
}

pub open spec fn contexts_view(cs: Seq<Context>) -> Seq<ContextView> {
    cs.map_values(|c: Context| (c.name@, c.filters@))
}

impl View for Model {
    type V = ModelView;

    open spec fn view(&self) -> ModelView {
        ModelView {
            filters: self.filters@,
            contexts: contexts_view(self.contexts@),
            sort_field: self.sort_field,
            sort_direction: self.sort_direction,
        }
    }
}

/// A message of the task list page.
pub enum Msg {
    FiltersStatusTogglePending,
    FiltersStatusToggleDeleted,
    FiltersStatusToggleCompleted,
    FiltersStatusToggleWaiting,
    FiltersStatusToggleRecurring,
    FiltersPriorityToggleNone,
    FiltersPriorityToggleLow,
    FiltersPriorityToggleMedium,
    FiltersPriorityToggleHigh,
    FiltersProjectChanged(String),
    FiltersTagsChanged(String),
    FiltersDescriptionChanged(String),
    FiltersReset,
    /// Save the current settings under the given name.
    FiltersSave(String),
    SelectedContextChanged(String),
    ContextsRemove,
    ToggleSort(Field),
}

/// A context name the page does not accept.
#[derive(Clone, Copy, Debug, PartialEq, Eq, Structural)]
pub struct ReservedContextName;

/// The name the context chooser uses for unsaved settings.
pub open spec fn custom_name() -> Seq<char> {
    seq!['c', 'u', 's', 't', 'o', 'm']
}

/// The settings a new page starts with.
pub open spec fn default_filters() -> FiltersModel {
    FiltersModel {
        status_pending: true,
        status_completed: false,
        status_deleted: false,
        status_waiting: false,
        status_recurring: false,
        project: seq![],
        tags: seq![],
        description: seq![],
        priority_none: true,
        priority_low: true,
        priority_medium: true,
        priority_high: true,
    }
}

/// Whether a context stays when `f` is saved or removed (and, when a name
/// is given, a context is saved under that name).
pub open spec fn keep(f: FiltersModel, name: Option<Seq<char>>) -> spec_fn(ContextView) -> bool {
    |c: ContextView|
        c.1 != f && match name {
            Some(n) => c.0 != n,
            None => true,
        }
}

/// The character sequence of an optional string slice.
pub open spec fn opt_view(s: Option<&str>) -> Option<Seq<char>> {
    match s {
        Some(x) => Some(x@),
        None => None,
    }
}

/// The contexts other than those saving exactly `f`.
pub open spec fn without_filters(cs: Seq<ContextView>, f: FiltersModel) -> Seq<ContextView> {
    cs.filter(keep(f, None))
}

/// The contexts after saving `f` under `name`: any context with the same
/// settings or the same name gives way to the new one, which comes last.
pub open spec fn saved(cs: Seq<ContextView>, name: Seq<char>, f: FiltersModel) -> Seq<ContextView> {
    cs.filter(keep(f, Some(name))).push((name, f))
}

/// The first context with the given name.
pub open spec fn first_named(cs: Seq<ContextView>, name: Seq<char>) -> Option<int> {
    if exists|i: int| 0 <= i < cs.len() && cs[i].0 == name {
        Some(choose|i: int| 0 <= i < cs.len() && cs[i].0 == name && forall|j: int| 0 <= j < i ==> cs[j].0 != name)
    } else {
        None
    }
}

/// The other direction.
pub open spec fn flipped(d: SortDirection) -> SortDirection {
    match d {
        SortDirection::Ascending => SortDirection::Descending,
        SortDirection::Descending => SortDirection::Ascending,
    }
}

/// Whether saving under `name` is refused: the name is reserved.
pub open spec fn save_refused(name: Seq<char>) -> bool {
    name.len() > 0 && lowercase_of(name) == custom_name()
}

/// The page after a message.
#[verifier::opaque]
pub open spec fn stepped(m: ModelView, msg: Msg) -> ModelView {
    let f = m.filters;
    match msg {
        Msg::FiltersStatusTogglePending => ModelView {
            filters: FiltersModel { status_pending: !f.status_pending, ..f },
            ..m
        },
        Msg::FiltersStatusToggleDeleted => ModelView {
            filters: FiltersModel { status_deleted: !f.status_deleted, ..f },
            ..m
        },
        Msg::FiltersStatusToggleCompleted => ModelView {
            filters: FiltersModel { status_completed: !f.status_completed, ..f },
            ..m
        },
        Msg::FiltersStatusToggleWaiting => ModelView {
            filters: FiltersModel { status_waiting: !f.status_waiting, ..f },
            ..m
        },
        Msg::FiltersStatusToggleRecurring => ModelView {
            filters: FiltersModel { status_recurring: !f.status_recurring, ..f },
            ..m
        },
        Msg::FiltersPriorityToggleNone => ModelView {
            filters: FiltersModel { priority_none: !f.priority_none, ..f },
            ..m
        },
        Msg::FiltersPriorityToggleLow => ModelView {
            filters: FiltersModel { priority_low: !f.priority_low, ..f },
            ..m
        },
        Msg::FiltersPriorityToggleMedium => ModelView {
            filters: FiltersModel { priority_medium: !f.priority_medium, ..f },
            ..m
        },
        Msg::FiltersPriorityToggleHigh => ModelView {
            filters: FiltersModel { priority_high: !f.priority_high, ..f },
            ..m
        },
        Msg::FiltersProjectChanged(s) => ModelView {
            filters: FiltersModel { project: project_from_input(s@), ..f },
            ..m
        },
        Msg::FiltersTagsChanged(s) => ModelView {
            filters: FiltersModel { tags: tags_from_input(s@), ..f },
            ..m
        },
        Msg::FiltersDescriptionChanged(s) => ModelView {
            filters: FiltersModel { description: s@, ..f },
            ..m
        },
        Msg::FiltersReset => ModelView { filters: default_filters(), ..m },
        Msg::FiltersSave(name) => if name@.len() == 0 || save_refused(name@) {
            m
        } else {
            ModelView { contexts: saved(m.contexts, name@, f), ..m }
        },
        Msg::SelectedContextChanged(name) => match first_named(m.contexts, name@) {
            Some(i) => ModelView { filters: m.contexts[i].1, ..m },
            None => m,
        },
        Msg::ContextsRemove => ModelView { contexts: without_filters(m.contexts, f), ..m },
        Msg::ToggleSort(field) => ModelView {
            sort_field: field,
            sort_direction: flipped(m.sort_direction),
            ..m
        },
    }
}

/// The page as it opens, with the settings and contexts the client had
/// stored: sorted by urgency, most urgent first.
pub fn init(filters: Filters, contexts: Vec<Context>) -> (m: Model)
    ensures
        m@ == (ModelView {
            filters: filters@,
            contexts: contexts_view(contexts@),
            sort_field: Field::Urgency,
            sort_direction: SortDirection::Descending,
        }),
{
    Model { filters, contexts, sort_field: Field::Urgency, sort_direction: SortDirection::Descending }
}

/// Whether a key released on the page creates a task: `c` or `C`, while
/// no element other than the page body has the focus (`focused` is the tag
/// name of the focused element, if any).
pub fn key_creates_task(key: &str, focused: Option<&str>) -> (r: bool)
    ensures
        r == ((key@ == seq!['c'] || key@ == seq!['C']) && match focused {
            Some(tag) => tag@ == seq!['B', 'O', 'D', 'Y'],
            None => true,
        }),
{
    proof {
        reveal_strlit("c");
        reveal_strlit("C");
        reveal_strlit("BODY");
        assert("c"@ =~= seq!['c']);
        assert("C"@ =~= seq!['C']);
        assert("BODY"@ =~= seq!['B', 'O', 'D', 'Y']);
    }
    let unfocused = match focused {
        Some(tag) => same_text(tag, "BODY"),
        None => true,
    };
    unfocused && (same_text(key, "c") || same_text(key, "C"))
}

fn copy_context(c: &Context) -> (r: Context)
    ensures
        r.name@ == c.name@,
        r.filters@ == c.filters@,
{
    Context { name: c.name.clone(), filters: c.filters.duplicate() }
}

impl Model {
    /// The contexts other than those saving exactly the current settings
    /// (and, when `name` is given, other than those with that name).
    fn kept_contexts(&self, name: Option<&str>) -> (r: Vec<Context>)
        ensures
            contexts_view(r@) == contexts_view(self.contexts@).filter(
                keep(self.filters@, opt_view(name)),
            ),
    {
        let ghost cv = contexts_view(self.contexts@);
        let ghost pred = keep(self.filters@, opt_view(name));
        let mut kept: Vec<Context> = Vec::new();
        let mut i: usize = 0;
        while i < self.contexts.len()
            invariant
                cv == contexts_view(self.contexts@),
                pred == keep(self.filters@, opt_view(name)),
                i <= self.contexts@.len(),
                contexts_view(kept@) == cv.take(i as int).filter(pred),
            decreases self.contexts.len() - i,
        {
            proof {
                reveal(Seq::filter);
                assert(cv.take(i + 1).drop_last() =~= cv.take(i as int));
                assert(cv.take(i + 1).last() == cv[i as int]);
            }
            let c = &self.contexts[i];
            let same_settings = c.filters.same(&self.filters);
            let same_name = match name {
                Some(n) => same_text(c.name.as_str(), n),
                None => false,
            };
            if !same_settings && !same_name {
                let ghost before = contexts_view(kept@);
                kept.push(copy_context(c));
                assert(contexts_view(kept@) =~= before.push(cv[i as int]));
            }
            i = i + 1;
        }
        assert(cv.take(self.contexts@.len() as int) =~= cv);
        kept
    }

    /// The first context with the given name, if any.
    fn find_context(&self, name: &str) -> (r: Option<usize>)
        ensures
            match r {
                Some(i) => i < self.contexts@.len() && first_named(contexts_view(self.contexts@), name@)
                    == Some(i as int),
                None => first_named(contexts_view(self.contexts@), name@) is None,
            },
    {
        let ghost cv = contexts_view(self.contexts@);
        let mut i: usize = 0;
        while i < self.contexts.len()
            invariant
                cv == contexts_view(self.contexts@),
                i <= self.contexts@.len(),
                forall|j: int| 0 <= j < i ==> cv[j].0 != name@,
            decreases self.contexts.len() - i,
        {
            if same_text(self.contexts[i].name.as_str(), name) {
                proof {
                    assert(cv[i as int].0 == name@);
                    let k = choose|k: int|
                        0 <= k < cv.len() && cv[k].0 == name@ && forall|j: int|
                            0 <= j < k ==> cv[j].0 != name@;
                    if k < i {
                    } else if k > i {
                        assert(cv[i as int].0 != name@);
                    }
                }
                return Some(i);
            }
            proof {
                assert(cv[i as int].0 != name@);
            }
            i = i + 1;
        }
        None
    }

    /// Saves the current settings under `name`, unless the name is empty
    /// or reserved.
    fn save_context(&mut self, name: String) -> (r: Result<(), ReservedContextName>)
        ensures
            final(self)@ == (if name@.len() == 0 || save_refused(name@) {
                old(self)@
            } else {
                ModelView { contexts: saved(old(self)@.contexts, name@, old(self)@.filters), ..old(self)@ }
            }),
            r is Err <==> save_refused(name@),
    {
        if name.as_str().is_empty() {
            return Ok(());
        }
        proof {
            reveal_strlit("custom");
            assert("custom"@ =~= custom_name());
        }
        let lowered = to_lowercase(name.as_str());
        if same_text(lowered.as_str(), "custom") {
            return Err(ReservedContextName);
        }
        let mut kept = self.kept_contexts(Some(name.as_str()));
        let ghost kv = contexts_view(kept@);
        let entry = Context { name, filters: self.filters.duplicate() };
        kept.push(entry);
        assert(contexts_view(kept@) =~= kv.push((name@, self.filters@)));
        self.contexts = kept;
        assert(self@ =~= (ModelView {
            contexts: saved(old(self)@.contexts, name@, old(self)@.filters),
            ..old(self)@
        }));
        Ok(())
    }

    /// Switches to the settings saved under `name`, if there are any.
    fn select_context(&mut self, name: &str)
        ensures
            final(self)@ == (match first_named(old(self)@.contexts, name@) {
                Some(i) => ModelView { filters: old(self)@.contexts[i].1, ..old(self)@ },
                None => old(self)@,
            }),
    {
        match self.find_context(name) {
            Some(i) => {
                let f = self.contexts[i].filters.duplicate();
                assert(contexts_view(self.contexts@)[i as int].1 == self.contexts@[i as int].filters@);
                self.filters = f;
                assert(self@ =~= (ModelView {
                    filters: old(self)@.contexts[i as int].1,
                    ..old(self)@
                }));
            },
            None => {},
        }
    }

    /// Handles a message; refuses, and changes nothing, when asked to save
    /// under the reserved name `custom` (in any case).
    #[verifier::rlimit(100)]
    pub fn update(&mut self, msg: Msg) -> (r: Result<(), ReservedContextName>)
        ensures
            final(self)@ == stepped(old(self)@, msg),
            r is Err <==> (msg matches Msg::FiltersSave(name) && save_refused(name@)),
    {
        let ghost before = self@;
        match msg {
            Msg::FiltersStatusTogglePending => {
                self.filters.status_pending = !self.filters.status_pending;
                assert(self@ =~= stepped(before, msg)) by {
                    reveal(stepped);
                }
            },
            Msg::FiltersStatusToggleDeleted => {
                self.filters.status_deleted = !self.filters.status_deleted;
                assert(self@ =~= stepped(before, msg)) by {
                    reveal(stepped);
                }
            },
            Msg::FiltersStatusToggleCompleted => {
                self.filters.status_completed = !self.filters.status_completed;
                assert(self@ =~= stepped(before, msg)) by {
                    reveal(stepped);
                }
            },
            Msg::FiltersStatusToggleWaiting => {
                self.filters.status_waiting = !self.filters.status_waiting;
                assert(self@ =~= stepped(before, msg)) by {
                    reveal(stepped);
                }
            },
            Msg::FiltersStatusToggleRecurring => {
                self.filters.status_recurring = !self.filters.status_recurring;
                assert(self@ =~= stepped(before, msg)) by {
                    reveal(stepped);
                }
            },
            Msg::FiltersPriorityToggleNone => {
                self.filters.priority_none = !self.filters.priority_none;
                assert(self@ =~= stepped(before, msg)) by {
                    reveal(stepped);
                }
            },
            Msg::FiltersPriorityToggleLow => {
                self.filters.priority_low = !self.filters.priority_low;
                assert(self@ =~= stepped(before, msg)) by {
                    reveal(stepped);
                }
            },
            Msg::FiltersPriorityToggleMedium => {
                self.filters.priority_medium = !self.filters.priority_medium;
                assert(self@ =~= stepped(before, msg)) by {
                    reveal(stepped);
                }
            },
            Msg::FiltersPriorityToggleHigh => {
                self.filters.priority_high = !self.filters.priority_high;
                assert(self@ =~= stepped(before, msg)) by {
                    reveal(stepped);
                }
            },
            Msg::FiltersProjectChanged(s) => {
                self.filters.project = parse_project(s.as_str());
                assert(self@ =~= stepped(before, msg)) by {
                    reveal(stepped);
                }
            },
            Msg::FiltersTagsChanged(s) => {
                self.filters.tags = parse_tags(s.as_str());
                assert(self@ =~= stepped(before, msg)) by {
                    reveal(stepped);
                }
            },
            Msg::FiltersDescriptionChanged(s) => {
                self.filters.description = s;
                assert(self@ =~= stepped(before, msg)) by {
                    reveal(stepped);
                }
            },
            Msg::FiltersReset => {
                self.filters = Filters::default();
                assert(self.filters@ =~= default_filters());
                assert(self@ =~= stepped(before, msg)) by {
                    reveal(stepped);
                }
            },
            Msg::FiltersSave(name) => {
                let r = self.save_context(name);
                assert(self@ =~= stepped(before, msg)) by {
                    reveal(stepped);
                }
                return r;
            },
            Msg::SelectedContextChanged(name) => {
                self.select_context(name.as_str());
                assert(self@ =~= stepped(before, msg)) by {
                    reveal(stepped);
                }
            },
            Msg::ContextsRemove => {
                let kept = self.kept_contexts(None);
                self.contexts = kept;
                assert(self@ =~= stepped(before, msg)) by {
                    reveal(stepped);
                }
            },
            Msg::ToggleSort(field) => {
                self.sort_field = field;
                self.sort_direction = match self.sort_direction {
                    SortDirection::Ascending => SortDirection::Descending,
                    SortDirection::Descending => SortDirection::Ascending,
                };
                assert(self@ =~= stepped(before, msg)) by {
                    reveal(stepped);
                }
            },
        }
        Ok(())
    }
}

/// The mark a column heading carries: an arrow up or down on the column the
/// list is sorted by, for the direction, and a double arrow on the others.
pub open spec fn marker_of(m: ModelView, field: Field) -> char {
    if m.sort_field == field {
        match m.sort_direction {
            SortDirection::Ascending => '\u{2b06}',
            SortDirection::Descending => '\u{2b07}',
        }
    } else {
        '\u{2b0d}'
    }
}

impl Model {
    /// Whether a saved context holds exactly the current settings (the
    /// context chooser shows it rather than the unsaved `custom` entry).
    pub fn context_matches(&self) -> (r: bool)
        ensures
            r == exists|i: int| 0 <= i < self@.contexts.len() && #[trigger] self@.contexts[i].1 == self@.filters,
    {
        let ghost cv = contexts_view(self.contexts@);
        let mut i: usize = 0;
        while i < self.contexts.len()
            invariant
                cv == contexts_view(self.contexts@),
                i <= self.contexts@.len(),
                forall|j: int| 0 <= j < i ==> #[trigger] cv[j].1 != self.filters@,
            decreases self.contexts.len() - i,
        {
            if self.contexts[i].filters.same(&self.filters) {
                assert(cv[i as int].1 == self.filters@);
                assert(self@.contexts[i as int].1 == self@.filters);
                return true;
            }
            i = i + 1;
        }
        false
    }

    /// The mark of a column heading.
    pub fn sort_marker(&self, field: Field) -> (r: char)
        ensures
            r == marker_of(self@, field),
    {
        if self.sort_field == field {
            match self.sort_direction {
                SortDirection::Ascending => '\u{2b06}',
                SortDirection::Descending => '\u{2b07}',
            }
        } else {
            '\u{2b0d}'
        }
    }
}

/// Law: settings saved under a name come back when that name is chosen,
/// whatever the settings were changed to in between.
pub proof fn law_save_then_select(m: ModelView, name: String, later: FiltersModel)
    requires
        name@.len() > 0,
        !save_refused(name@),
    ensures
        stepped(
            ModelView { filters: later, ..stepped(m, Msg::FiltersSave(name)) },
            Msg::SelectedContextChanged(name),
        ).filters == m.filters,
{
    reveal(stepped);
    let kept = m.contexts.filter(keep(m.filters, Some(name@)));
    let cs = kept.push((name@, m.filters));
    let last = cs.len() - 1;
    assert(cs[last].0 == name@);
    assert forall|j: int| 0 <= j < last implies cs[j].0 != name@ by {
        m.contexts.lemma_filter_pred(keep(m.filters, Some(name@)), j);
        assert(cs[j] == kept[j]);
    }
    assert(exists|i: int| 0 <= i < cs.len() && cs[i].0 == name@);
    let i = choose|i: int| 0 <= i < cs.len() && cs[i].0 == name@ && forall|j: int| 0 <= j < i ==> cs[j].0 != name@;
    assert(first_named(cs, name@) == Some(i));
    assert(i == last);
}

/// No two saved contexts share a name or settings.
pub open spec fn distinct_contexts(cs: Seq<ContextView>) -> bool {
    forall|i: int, j: int| 0 <= i < j < cs.len() ==> cs[i].0 != cs[j].0 && cs[i].1 != cs[j].1
}

/// Dropping contexts keeps the rest apart.
proof fn lemma_filter_distinct(cs: Seq<ContextView>, p: spec_fn(ContextView) -> bool)
    requires
        distinct_contexts(cs),
    ensures
        distinct_contexts(cs.filter(p)),
    decreases cs.len(),
{
    reveal(Seq::filter);
    if cs.len() > 0 {
        let d = cs.drop_last();
        lemma_filter_distinct(d, p);
        let sub = d.filter(p);
        if p(cs.last()) {
            let out = sub.push(cs.last());
            assert(cs.filter(p) == out);
            assert forall|i: int, j: int| 0 <= i < j < out.len() implies out[i].0 != out[j].0
                && out[i].1 != out[j].1 by {
                if j == out.len() - 1 {
                    assert(sub.contains(sub[i]));
                    d.lemma_filter_contains_rev(p, sub[i]);
                    let k = choose|k: int| 0 <= k < d.len() && d[k] == sub[i];
                    assert(cs[k] == sub[i]);
                }
            }
        }
    }
}

/// Law: saved contexts never share a name or settings: saving the current
/// settings and removing them keep the contexts apart. Removing leaves no
/// context with the current settings, and neither message changes the
/// current settings.
pub proof fn law_contexts_stay_distinct(m: ModelView, msg: Msg)
    requires
        distinct_contexts(m.contexts),
    ensures
        distinct_contexts(stepped(m, msg).contexts),
        (msg is ContextsRemove || msg is FiltersSave) ==> stepped(m, msg).filters == m.filters,
        msg is ContextsRemove ==> forall|i: int|
            0 <= i < stepped(m, msg).contexts.len() ==> stepped(m, msg).contexts[i].1 != m.filters,
{
    reveal(stepped);
    match msg {
        Msg::FiltersSave(name) => {
            if !(name@.len() == 0 || save_refused(name@)) {
                let pred = keep(m.filters, Some(name@));
                let kept = m.contexts.filter(pred);
                lemma_filter_distinct(m.contexts, pred);
                let cs = kept.push((name@, m.filters));
                assert forall|i: int, j: int| 0 <= i < j < cs.len() implies cs[i].0 != cs[j].0
                    && cs[i].1 != cs[j].1 by {
                    if j == cs.len() - 1 {
                        m.contexts.lemma_filter_pred(pred, i);
                    }
                }
            }
        },
        Msg::ContextsRemove => {
            let pred = keep(m.filters, None);
            lemma_filter_distinct(m.contexts, pred);
            assert forall|i: int| 0 <= i < m.contexts.filter(pred).len() implies m.contexts.filter(
                pred,
            )[i].1 != m.filters by {
                m.contexts.lemma_filter_pred(pred, i);
            }
        },
        _ => {},
    }
}

} // verus!
