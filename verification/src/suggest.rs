//! The suggestions the task page offers while editing a task's project and
//! tags, drawn from the projects and tags of the other tasks.
use vstd::prelude::*;

use crate::filters::dotted;
use crate::sort::{lemma_text_lt_order, text_less, text_lt};
use crate::task::{next_tag, Task, TaskModel};
use crate::text::{
    chars_of, concat_strs, contains, has_substring, join, joined, lemma_concatenated_three,
    lowercase_of, same_text, split_whitespace, strings_view, strs_view, to_lowercase, whitespace_words,
};

verus! {

/// The contents of a list of tasks.
pub open spec fn task_models(tasks: Seq<Task>) -> Seq<TaskModel> {
    tasks.map_values(|t: Task| t@)
}

/// Another task's project is suggested for a task with project `current`:
/// the other project contains the current one, ignoring case, without being
/// the same.
pub open spec fn suggests_project(current: Seq<Seq<char>>, other: Seq<Seq<char>>) -> bool {
    let c = lowercase_of(dotted(current));
    let o = lowercase_of(dotted(other));
    has_substring(o, c) && o != c
}

/// The dotted projects suggested for a task with project `current`.
pub open spec fn project_suggestion_set(current: Seq<Seq<char>>, tasks: Seq<TaskModel>) -> Set<
    Seq<char>,
> {
    Set::new(
        |p: Seq<char>|
            exists|i: int|
                0 <= i < tasks.len() && p == dotted(tasks[i].project) && suggests_project(
                    current,
                    tasks[i].project,
                ),
    )
}

/// A saved tag is suggested for a task with tags `input`: the task has no
/// tags yet, or it lacks the tag's lowercase form and one of its tags occurs
/// in the saved tag.
pub open spec fn suggests_tag(input: Seq<Seq<char>>, saved: Seq<char>) -> bool {
    input.len() == 0 || (!input.contains(lowercase_of(saved)) && exists|k: int|
        0 <= k < input.len() && has_substring(saved, input[k]))
}

/// The tags suggested for a task with tags `input`: the suggested tags of
/// all tasks, and `next` when the task is not tagged `next` yet.
pub open spec fn tag_suggestion_set(input: Seq<Seq<char>>, tasks: Seq<TaskModel>) -> Set<Seq<char>> {
    Set::new(
        |g: Seq<char>|
            (exists|i: int, j: int|
                0 <= i < tasks.len() && 0 <= j < tasks[i].tags.len() && g == tasks[i].tags[j]
                    && suggests_tag(input, g)) || (g == next_tag() && !input.contains(next_tag())),
    )
}

/// Texts in strictly ascending order (so each at most once), as a
/// `BTreeSet` of strings yields them.
pub open spec fn ascending(s: Seq<Seq<char>>) -> bool {
    forall|i: int, j: int| 0 <= i < j < s.len() ==> text_lt(s[i], s[j])
}

/// Texts in strictly ascending order hold no text twice.
proof fn lemma_ascending_unique(s: Seq<Seq<char>>)
    requires
        ascending(s),
    ensures
        s.no_duplicates(),
{
    assert forall|i: int, j: int| 0 <= i < s.len() && 0 <= j < s.len() && i != j implies s[i]
        != s[j] by {
        lemma_text_lt_order(s[i], s[j], s[j]);
        lemma_text_lt_order(s[j], s[i], s[i]);
    }
}

/// Puts `s` into the ascending list `v` at its place, unless it is there.
fn insert_sorted(v: &mut Vec<String>, s: String)
    requires
        ascending(strings_view(old(v)@)),
    ensures
        ascending(strings_view(final(v)@)),
        forall|x: Seq<char>|
            strings_view(final(v)@).contains(x) <==> (strings_view(old(v)@).contains(x) || x == s@),
{
    let ghost before = strings_view(v@);
    let mut p: usize = 0;
    while p < v.len() && text_less(v[p].as_str(), s.as_str())
        invariant
            before == strings_view(v@),
            p <= v@.len(),
            forall|k: int| 0 <= k < p ==> text_lt(#[trigger] before[k], s@),
        decreases v.len() - p,
    {
        p = p + 1;
    }
    if p < v.len() && same_text(v[p].as_str(), s.as_str()) {
        assert(before[p as int] == s@);
        return;
    }
    proof {
        if p < v@.len() {
            assert(before[p as int] == v@[p as int]@);
            lemma_text_lt_order(before[p as int], s@, s@);
        }
    }
    v.insert(p, s);
    let ghost after = strings_view(v@);
    proof {
        assert(after =~= before.insert(p as int, s@));
        assert forall|i: int, j: int| 0 <= i < j < after.len() implies text_lt(after[i], after[j]) by {
            if j < p {
            } else if j == p {
            } else if i < p {
                lemma_text_lt_order(before[i], s@, before[j - 1]);
                if j - 1 > p {
                    lemma_text_lt_order(s@, before[p as int], before[j - 1]);
                }
            } else if i == p {
                if j - 1 > p {
                    lemma_text_lt_order(s@, before[p as int], before[j - 1]);
                }
            } else {
            }
        }
        assert forall|x: Seq<char>| after.contains(x) <==> (before.contains(x) || x == s@) by {
            if before.contains(x) {
                let k = choose|k: int| 0 <= k < before.len() && before[k] == x;
                if k < p {
                    assert(after[k] == x);
                } else {
                    assert(after[k + 1] == x);
                }
            }
            if x == s@ {
                assert(after[p as int] == x);
            }
            if after.contains(x) {
                let k = choose|k: int| 0 <= k < after.len() && after[k] == x;
                if k < p {
                    assert(before[k] == x);
                } else if k > p {
                    assert(before[k - 1] == x);
                }
            }
        }
    }
}

/// The projects to suggest while editing `task`'s project, each once: the
/// dotted projects of `tasks` that contain the task's own, ignoring case,
/// without being equal to it.
pub fn project_suggestions(task: &Task, tasks: &[Task]) -> (r: Vec<String>)
    ensures
        ascending(strings_view(r@)),
        strings_view(r@).no_duplicates(),
        forall|p: Seq<char>|
            strings_view(r@).contains(p) <==> project_suggestion_set(task@.project, task_models(tasks@)).contains(
                p,
            ),
{
    proof {
        reveal_strlit(".");
        assert("."@ =~= seq!['.']);
    }
    let current = to_lowercase(join(task.project(), ".").as_str());
    let ghost models = task_models(tasks@);
    let mut out: Vec<String> = Vec::new();
    let mut i: usize = 0;
    while i < tasks.len()
        invariant
            models == task_models(tasks@),
            "."@ == seq!['.'],
            current@ == lowercase_of(dotted(task@.project)),
            i <= tasks@.len(),
            ascending(strings_view(out@)),
            forall|p: Seq<char>|
                strings_view(out@).contains(p) <==> exists|k: int|
                    0 <= k < i && p == dotted(models[k].project) && suggests_project(
                        task@.project,
                        models[k].project,
                    ),
        decreases tasks.len() - i,
    {
        let p = join(tasks[i].project(), ".");
        let pl = to_lowercase(p.as_str());
        let take = contains(pl.as_str(), current.as_str()) && !same_text(pl.as_str(), current.as_str());
        let ghost before = strings_view(out@);
        proof {
            assert(models[i as int] == tasks@[i as int]@);
        }
        if take {
            insert_sorted(&mut out, p);
        }
        proof {
            assert forall|q: Seq<char>|
                strings_view(out@).contains(q) <==> exists|k: int|
                    0 <= k < i + 1 && q == dotted(models[k].project) && suggests_project(
                        task@.project,
                        models[k].project,
                    ) by {
                if exists|k: int|
                    0 <= k < i + 1 && q == dotted(models[k].project) && suggests_project(
                        task@.project,
                        models[k].project,
                    ) {
                    let k = choose|k: int|
                        0 <= k < i + 1 && q == dotted(models[k].project) && suggests_project(
                            task@.project,
                            models[k].project,
                        );
                    if k < i {
                        assert(before.contains(q));
                    }
                }
            }
        }
        i = i + 1;
    }
    proof {
        assert forall|p: Seq<char>|
            strings_view(out@).contains(p) <==> project_suggestion_set(task@.project, models).contains(
                p,
            ) by {}
        lemma_ascending_unique(strings_view(out@));
    }
    out
}

/// Whether a saved tag is suggested for a task with tags `input`.
fn tag_suggested(input: &[String], saved: &String) -> (r: bool)
    ensures
        r == suggests_tag(strings_view(input@), saved@),
{
    if input.len() == 0 {
        return true;
    }
    let lowered = to_lowercase(saved.as_str());
    let mut i: usize = 0;
    let mut lacks = true;
    let mut occurs = false;
    while i < input.len()
        invariant
            i <= input@.len(),
            lowered@ == lowercase_of(saved@),
            lacks == forall|k: int| 0 <= k < i ==> strings_view(input@)[k] != lowered@,
            occurs == exists|k: int| 0 <= k < i && has_substring(saved@, strings_view(input@)[k]),
        decreases input.len() - i,
    {
        assert(strings_view(input@)[i as int] == input@[i as int]@);
        if same_text(input[i].as_str(), lowered.as_str()) {
            lacks = false;
        }
        if contains(saved.as_str(), input[i].as_str()) {
            occurs = true;
        }
        proof {
            if !occurs {
                assert forall|k: int| 0 <= k < i + 1 implies !has_substring(
                    saved@,
                    strings_view(input@)[k],
                ) by {}
            }
        }
        i = i + 1;
    }
    proof {
        if !lacks {
            let k = choose|k: int| 0 <= k < input@.len() && !(strings_view(input@)[k] != lowered@);
            assert(strings_view(input@).contains(lowercase_of(saved@)));
        }
    }
    lacks && occurs
}

/// The tags to suggest while editing `task`'s tags, each once: the
/// suggested tags of `tasks`, and `next` when the task is not tagged `next`.
pub fn tag_suggestions(task: &Task, tasks: &[Task]) -> (r: Vec<String>)
    ensures
        ascending(strings_view(r@)),
        strings_view(r@).no_duplicates(),
        forall|g: Seq<char>|
            strings_view(r@).contains(g) <==> tag_suggestion_set(task@.tags, task_models(tasks@)).contains(g),
{
    let input = task.tags();
    let ghost models = task_models(tasks@);
    let ghost iv = task@.tags;
    let mut out: Vec<String> = Vec::new();
    let mut i: usize = 0;
    while i < tasks.len()
        invariant
            models == task_models(tasks@),
            iv == strings_view(input@),
            i <= tasks@.len(),
            ascending(strings_view(out@)),
            forall|g: Seq<char>|
                strings_view(out@).contains(g) <==> exists|a: int, b: int|
                    0 <= a < i && 0 <= b < models[a].tags.len() && g == models[a].tags[b]
                        && suggests_tag(iv, g),
        decreases tasks.len() - i,
    {
        let tags = tasks[i].tags();
        proof {
            assert(models[i as int] == tasks@[i as int]@);
        }
        let mut j: usize = 0;
        while j < tags.len()
            invariant
                models == task_models(tasks@),
                iv == strings_view(input@),
                i < tasks@.len(),
                models[i as int].tags == strings_view(tags@),
                j <= tags@.len(),
                ascending(strings_view(out@)),
                forall|g: Seq<char>|
                    strings_view(out@).contains(g) <==> exists|a: int, b: int|
                        ((0 <= a < i && 0 <= b < models[a].tags.len()) || (a == i && 0 <= b < j))
                            && g == models[a].tags[b] && suggests_tag(iv, g),
            decreases tags.len() - j,
        {
            let ghost before = strings_view(out@);
            assert(strings_view(tags@)[j as int] == tags@[j as int]@);
            if tag_suggested(input, &tags[j]) {
                insert_sorted(&mut out, tags[j].clone());
            }
            proof {
                assert forall|g: Seq<char>|
                    strings_view(out@).contains(g) <==> exists|a: int, b: int|
                        ((0 <= a < i && 0 <= b < models[a].tags.len()) || (a == i && 0 <= b < j
                            + 1)) && g == models[a].tags[b] && suggests_tag(iv, g) by {
                    if exists|a: int, b: int|
                        ((0 <= a < i && 0 <= b < models[a].tags.len()) || (a == i && 0 <= b < j
                            + 1)) && g == models[a].tags[b] && suggests_tag(iv, g) {
                        let (a, b) = choose|a: int, b: int|
                            ((0 <= a < i && 0 <= b < models[a].tags.len()) || (a == i && 0 <= b
                                < j + 1)) && g == models[a].tags[b] && suggests_tag(iv, g);
                        if !(a == i && b == j) {
                            assert(before.contains(g));
                        }
                    }
                }
            }
            j = j + 1;
        }
        i = i + 1;
    }
    proof {
        reveal_strlit("next");
        assert("next"@ =~= next_tag());
    }
    let mut is_next = false;
    let mut k: usize = 0;
    while k < input.len()
        invariant
            k <= input@.len(),
            is_next == exists|m: int| 0 <= m < k && strings_view(input@)[m] == next_tag(),
            "next"@ == next_tag(),
        decreases input.len() - k,
    {
        assert(strings_view(input@)[k as int] == input@[k as int]@);
        if same_text(input[k].as_str(), "next") {
            is_next = true;
        }
        k = k + 1;
    }
    let ghost before = strings_view(out@);
    if !is_next {
        insert_sorted(&mut out, String::from_str("next"));
    }
    proof {
        assert forall|g: Seq<char>|
            strings_view(out@).contains(g) <==> tag_suggestion_set(iv, models).contains(g) by {
            if is_next {
                let m = choose|m: int| 0 <= m < input@.len() && strings_view(input@)[m] == next_tag();
                assert(iv.contains(next_tag()));
            } else {
                if iv.contains(next_tag()) {
                    let m = choose|m: int| 0 <= m < iv.len() && iv[m] == next_tag();
                    assert(strings_view(input@)[m] == next_tag());
                }
            }
        }
        lemma_ascending_unique(strings_view(out@));
    }
    out
}

/// The tags text a click on the tag suggestion `suggestion` sends, for a
/// task with tags `tags` (shown joined with spaces): when that text is empty
/// or ends with a space the suggestion is added after a space; otherwise it
/// replaces the last word being typed.
pub open spec fn clicked_tags(tags: Seq<Seq<char>>, suggestion: Seq<char>) -> Seq<char> {
    let t = joined(tags, seq![' ']);
    let kept = if t.len() == 0 || t.last() == ' ' {
        t
    } else {
        let w = whitespace_words(t);
        joined(w.take(if w.len() == 0 { 0 } else { w.len() - 1 }), seq![' '])
    };
    kept + seq![' '] + suggestion
}

/// The tags text a click on the tag suggestion `suggestion` sends. (A
/// click on a project suggestion sends the suggestion itself.)
pub fn tag_click_text(tags: &[String], suggestion: &str) -> (r: String)
    ensures
        r@ == clicked_tags(strings_view(tags@), suggestion@),
{
    proof {
        reveal_strlit(" ");
        assert(" "@ =~= seq![' ']);
    }
    let t = join(tags, " ");
    let cs = chars_of(t.as_str());
    let kept: String = if cs.len() == 0 || cs[cs.len() - 1] == ' ' {
        t
    } else {
        let mut w = split_whitespace(t.as_str());
        let ghost words = strings_view(w@);
        if w.len() > 0 {
            let _ = w.pop();
        }
        proof {
            let n = if words.len() == 0 { 0 } else { words.len() - 1 };
            assert(strings_view(w@) =~= words.take(n));
        }
        join(w.as_slice(), " ")
    };
    let parts: Vec<&str> = vec![kept.as_str(), " ", suggestion];
    proof {
        assert(strs_view(parts@) =~= seq![kept@, seq![' '], suggestion@]);
        lemma_concatenated_three(kept@, seq![' '], suggestion@);
    }
    concat_strs(&parts)
}

} // verus!
