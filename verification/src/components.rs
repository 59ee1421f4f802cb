//! Short human-readable forms of spans of time, as the task list shows ages
//! and due dates ("3d", "now", "-2h").
use vstd::prelude::*;

use crate::sort::{lemma_text_lt_order, text_less, text_lt};
use crate::suggest::ascending;
use crate::text::{chars_of, same_text, string_from_chars, strings_view};
use crate::time::Duration;

verus! {

/// The character of a decimal digit.
pub open spec fn digit_char(d: int) -> char {
    (48 + d) as char
}

/// The decimal digits of a natural number, most significant first, with no
/// leading zero (`0` for zero).
pub open spec fn digits(n: nat) -> Seq<char>
    decreases n,
{
    if n < 10 {
        seq![digit_char(n as int)]
    } else {
        digits(n / 10).push(digit_char((n % 10) as int))
    }
}

/// The text `i128`'s `Display` writes for a number: a minus sign for a
/// negative number, then the decimal digits of its magnitude.
pub open spec fn decimal_text(n: i128) -> Seq<char> {
    if n < 0 {
        seq!['-'] + digits((-n) as nat)
    } else {
        digits(n as nat)
    }
}

/// The decimal form of a number, as `i128`'s `Display` writes it.
fn decimal(n: i128) -> (r: String)
    ensures
        r@ == decimal_text(n),
{
    let negative = n < 0;
    let mut cur: u128 = if negative {
        ((-(n + 1)) as u128) + 1
    } else {
        n as u128
    };
    let ghost magnitude: nat = if n < 0 {
        (-n) as nat
    } else {
        n as nat
    };
    assert(cur == magnitude);
    let mut acc: Vec<char> = Vec::new();
    while cur >= 10
        invariant
            digits(magnitude) == digits(cur as nat) + acc@,
        decreases cur,
    {
        let d = (cur % 10) as u8;
        let c = (48u8 + d) as char;
        proof {
            assert(c == digit_char((cur % 10) as int));
            assert(digits(cur as nat) == digits((cur / 10) as nat).push(c));
            assert(digits((cur / 10) as nat) + seq![c] + acc@ =~= digits((cur / 10) as nat) + (seq![c] + acc@));
            assert(digits((cur / 10) as nat).push(c) =~= digits((cur / 10) as nat) + seq![c]);
        }
        acc.insert(0, c);
        cur = cur / 10;
    }
    let c = (48u8 + (cur as u8)) as char;
    proof {
        assert(c == digit_char(cur as int));
        assert(digits(cur as nat) == seq![c]);
    }
    acc.insert(0, c);
    assert(acc@ =~= digits(magnitude));
    if negative {
        acc.insert(0, '-');
        assert(acc@ =~= seq!['-'] + digits(magnitude));
    }
    string_from_chars(acc.as_slice())
}

/// How a span is shown: the count of the largest of weeks, days, hours,
/// minutes and seconds whose whole count (rounded toward zero) is not zero,
/// with that unit's letter; `None` ("now") when not even a whole second
/// has passed either way.
pub open spec fn duration_label(d: Duration) -> Option<(int, char)> {
    if d.spec_weeks() != 0 {
        Some((d.spec_weeks(), 'w'))
    } else if d.spec_days() != 0 {
        Some((d.spec_days(), 'd'))
    } else if d.spec_hours() != 0 {
        Some((d.spec_hours(), 'h'))
    } else if d.spec_minutes() != 0 {
        Some((d.spec_minutes(), 'm'))
    } else if d.spec_seconds() != 0 {
        Some((d.spec_seconds(), 's'))
    } else {
        None
    }
}

/// The whole counts of a span share its sign, and each is zero exactly when
/// the next smaller one is below one of the larger unit.
proof fn lemma_counts(d: Duration)
    ensures
        d.spec_seconds() >= 0 ==> d.spec_minutes() >= 0 && d.spec_hours() >= 0 && d.spec_days() >= 0
            && d.spec_weeks() >= 0,
        d.spec_seconds() <= 0 ==> d.spec_minutes() <= 0 && d.spec_hours() <= 0 && d.spec_days() <= 0
            && d.spec_weeks() <= 0,
        d.spec_seconds() <= 0 ==> (d.spec_minutes() == 0 <==> d.spec_seconds() > -60),
        d.spec_seconds() <= 0 ==> (d.spec_hours() == 0 <==> d.spec_minutes() > -60),
        d.spec_seconds() <= 0 ==> (d.spec_days() == 0 <==> d.spec_hours() > -24),
        d.spec_seconds() <= 0 ==> (d.spec_weeks() == 0 <==> d.spec_days() > -7),
{
    let s = d.spec_seconds();
    if s <= 0 {
        let a = -s;
        assert(a >= 0);
        assert(d.spec_minutes() == -(a / 60));
        assert(d.spec_hours() == -(a / 3600));
        assert(d.spec_days() == -(a / 86400));
        assert((a / 3600 == 0) == (a / 60 < 60));
        assert((a / 86400 == 0) == (a / 3600 < 24));
        assert((a / 86400) / 7 == 0 <==> a / 86400 < 7);
    }
}

/// The text shown for a span: the count followed by its unit, or `now`.
pub open spec fn duration_text(d: Duration) -> Seq<char> {
    match duration_label(d) {
        Some((n, unit)) => decimal_text(n as i128) + seq![unit],
        None => seq!['n', 'o', 'w'],
    }
}

/// The count and unit a span is shown with (`None` for "now").
pub fn label_of(duration: Duration) -> (r: Option<(i128, char)>)
    ensures
        match r {
            Some((n, u)) => duration_label(duration) == Some((n as int, u)),
            None => duration_label(duration) is None,
        },
{
    proof {
        lemma_counts(duration);
    }
    let s = duration.num_seconds();
    let m = duration.num_minutes();
    let h = duration.num_hours();
    let d = duration.num_days();
    let w = duration.num_weeks();
    if w > 0 {
        Some((w, 'w'))
    } else if d > 0 {
        Some((d, 'd'))
    } else if h > 0 {
        Some((h, 'h'))
    } else if m > 0 {
        Some((m, 'm'))
    } else if s > 0 {
        Some((s, 's'))
    } else if s > -1 {
        None
    } else if s > -60 {
        Some((s, 's'))
    } else if m > -60 {
        Some((m, 'm'))
    } else if h > -24 {
        Some((h, 'h'))
    } else if d > -7 {
        Some((d, 'd'))
    } else {
        Some((w, 'w'))
    }
}

/// The short text for a span: whole weeks, days, hours, minutes or seconds
/// (the largest unit with a non-zero count), or `now`.
pub fn duration_string(duration: Duration) -> (r: String)
    ensures
        r@ == duration_text(duration),
{
    match label_of(duration) {
        Some((n, unit)) => {
            let digits = decimal(n);
            let mut chars = crate::text::chars_of(digits.as_str());
            chars.push(unit);
            crate::text::string_from_chars(chars.as_slice())
        },
        None => {
            proof {
                reveal_strlit("now");
                assert("now"@ =~= seq!['n', 'o', 'w']);
            }
            crate::text::string_from_chars(crate::text::chars_of("now").as_slice())
        },
    }
}

// ------------------------------------------------------------------
//  Forms of the account pages
// ------------------------------------------------------------------

/// A node of a sign-in or account form, as plain values: the group it
/// belongs to, and the type of its input (`None` for a node that is not an
/// input).
pub struct UiNode {
    pub group: String,
    pub input_type: Option<String>,
}

/// A group of form nodes as the form shows it: its name, the positions of
/// its nodes in the form's order, whether it gets a heading (a legend) and
/// whether it is framed (a fieldset).
pub struct UiGroup {
    pub name: String,
    pub nodes: Vec<usize>,
    pub legend: bool,
    pub fieldset: bool,
}

/// The group names of the nodes.
pub open spec fn node_groups(ns: Seq<UiNode>) -> Seq<Seq<char>> {
    ns.map_values(|n: UiNode| n.group@)
}

/// The names of the groups.
pub open spec fn group_names(gs: Seq<UiGroup>) -> Seq<Seq<char>> {
    gs.map_values(|g: UiGroup| g.name@)
}

/// A node is a hidden input.
pub open spec fn is_hidden(n: UiNode) -> bool {
    match n.input_type {
        Some(t) => t@ == seq!['h', 'i', 'd', 'd', 'e', 'n'],
        None => false,
    }
}

/// The name of the group whose nodes are shown without a heading.
pub open spec fn default_group() -> Seq<char> {
    seq!['d', 'e', 'f', 'a', 'u', 'l', 't']
}

/// The positions below `k` of the nodes in group `name`, in increasing order.
pub open spec fn members_upto(gs: Seq<Seq<char>>, name: Seq<char>, k: int) -> Seq<usize>
    decreases k,
{
    if k <= 0 {
        seq![]
    } else if gs[k - 1] == name {
        members_upto(gs, name, k - 1).push((k - 1) as usize)
    } else {
        members_upto(gs, name, k - 1)
    }
}

/// The positions of the nodes in group `name`, in increasing order.
pub open spec fn members(gs: Seq<Seq<char>>, name: Seq<char>) -> Seq<usize> {
    members_upto(gs, name, gs.len() as int)
}

/// Every group's positions are those of its nodes so far, and no group is
/// empty.
spec fn groups_so_far(gs: Seq<Seq<char>>, names: Seq<Seq<char>>, ms: Seq<Vec<usize>>, k: int) -> bool {
    &&& names.len() == ms.len()
    &&& ascending(names)
    &&& forall|j: int| 0 <= j < ms.len() ==> #[trigger] ms[j]@ == members_upto(gs, names[j], k)
    &&& forall|j: int| 0 <= j < ms.len() ==> #[trigger] ms[j]@.len() > 0
    &&& forall|m: int| 0 <= m < k ==> names.contains(#[trigger] gs[m])
}

/// Groups the nodes of a form as the account pages show them: the groups
/// in ascending order of name, each with the positions of its nodes in
/// form order; every group but `default` has a legend, and a group is
/// framed unless all its nodes are hidden inputs.
pub fn ui_groups(nodes: &[UiNode]) -> (r: Vec<UiGroup>)
    ensures
        ascending(group_names(r@)),
        forall|j: int|
            0 <= j < r@.len() ==> #[trigger] r@[j].nodes@ == members(node_groups(nodes@), r@[j].name@)
                && r@[j].nodes@.len() > 0,
        forall|k: int| 0 <= k < nodes@.len() ==> group_names(r@).contains(#[trigger] node_groups(nodes@)[k]),
        forall|j: int| 0 <= j < r@.len() ==> #[trigger] r@[j].legend == (r@[j].name@ != default_group()),
        forall|j: int|
            0 <= j < r@.len() ==> #[trigger] r@[j].fieldset == exists|m: int|
                0 <= m < r@[j].nodes@.len() && !is_hidden(nodes@[r@[j].nodes@[m] as int]),
{
    let ghost gs = node_groups(nodes@);
    let mut names: Vec<String> = Vec::new();
    let mut ms: Vec<Vec<usize>> = Vec::new();
    let mut i: usize = 0;
    while i < nodes.len()
        invariant
            gs == node_groups(nodes@),
            i <= nodes@.len(),
            groups_so_far(gs, strings_view(names@), ms@, i as int),
        decreases nodes.len() - i,
    {
        let g = &nodes[i].group;
        let ghost nv = strings_view(names@);
        let ghost before = ms@;
        assert(gs[i as int] == g@);
        let mut p: usize = 0;
        while p < names.len() && text_less(names[p].as_str(), g.as_str())
            invariant
                nv == strings_view(names@),
                p <= names@.len(),
                forall|q: int| 0 <= q < p ==> text_lt(#[trigger] nv[q], g@),
            decreases names.len() - p,
        {
            p = p + 1;
        }
        if p < names.len() && same_text(names[p].as_str(), g.as_str()) {
            let mut m = ms.remove(p);
            m.push(i);
            ms.insert(p, m);
            proof {
                assert forall|j: int| 0 <= j < ms@.len() implies #[trigger] ms@[j]@ == members_upto(
                    gs,
                    nv[j],
                    i + 1,
                ) by {
                    if j != p {
                        assert(ms@[j] == before[j]);
                        lemma_text_lt_order(nv[j], nv[p as int], nv[p as int]);
                        lemma_text_lt_order(nv[p as int], nv[j], nv[j]);
                        assert(nv[j] != g@);
                    }
                }
                assert forall|j: int| 0 <= j < ms@.len() implies #[trigger] ms@[j]@.len() > 0 by {
                    if j != p {
                        assert(ms@[j] == before[j]);
                    }
                }
                assert forall|q: int| 0 <= q < i + 1 implies nv.contains(#[trigger] gs[q]) by {
                    if q == i {
                        assert(nv[p as int] == gs[q]);
                    }
                }
            }
        } else {
            proof {
                if p < names@.len() {
                    lemma_text_lt_order(nv[p as int], g@, g@);
                }
                assert forall|j: int| 0 <= j < nv.len() implies nv[j] != g@ by {
                    if j < p {
                        lemma_text_lt_order(nv[j], g@, g@);
                    } else {
                        if j > p {
                            lemma_text_lt_order(g@, nv[p as int], nv[j]);
                        }
                        lemma_text_lt_order(g@, nv[j], nv[j]);
                    }
                }
            }
            let mut m: Vec<usize> = Vec::new();
            m.push(i);
            names.insert(p, g.clone());
            ms.insert(p, m);
            let ghost after = strings_view(names@);
            proof {
                assert(after =~= nv.insert(p as int, g@));
                assert(members_upto(gs, g@, i as int).len() == 0) by {
                    lemma_members_absent(gs, g@, i as int);
                }
                assert forall|a: int, b: int| 0 <= a < b < after.len() implies text_lt(
                    after[a],
                    after[b],
                ) by {
                    if b < p {
                    } else if b == p {
                    } else if a < p {
                        lemma_text_lt_order(nv[a], g@, nv[b - 1]);
                        if b - 1 > p {
                            lemma_text_lt_order(g@, nv[p as int], nv[b - 1]);
                        }
                    } else if a == p {
                        if b - 1 > p {
                            lemma_text_lt_order(g@, nv[p as int], nv[b - 1]);
                        }
                    } else {
                    }
                }
                assert forall|j: int| 0 <= j < ms@.len() implies #[trigger] ms@[j]@ == members_upto(
                    gs,
                    after[j],
                    i + 1,
                ) by {
                    if j < p {
                        assert(ms@[j] == before[j]);
                        assert(after[j] == nv[j]);
                    } else if j > p {
                        assert(ms@[j] == before[j - 1]);
                        assert(after[j] == nv[j - 1]);
                    } else {
                        assert(members_upto(gs, g@, i as int) =~= seq![]);
                        assert(ms@[j]@ =~= seq![i]);
                    }
                }
                assert forall|j: int| 0 <= j < ms@.len() implies #[trigger] ms@[j]@.len() > 0 by {
                    if j < p {
                        assert(ms@[j] == before[j]);
                    } else if j > p {
                        assert(ms@[j] == before[j - 1]);
                    }
                }
                assert forall|q: int| 0 <= q < i + 1 implies after.contains(#[trigger] gs[q]) by {
                    if q == i {
                        assert(after[p as int] == gs[q]);
                    } else {
                        assert(nv.contains(gs[q]));
                        let k = choose|k: int| 0 <= k < nv.len() && nv[k] == gs[q];
                        if k < p {
                            assert(after[k] == gs[q]);
                        } else {
                            assert(after[k + 1] == gs[q]);
                        }
                    }
                }
            }
        }
        i = i + 1;
    }
    proof {
        reveal_strlit("default");
        reveal_strlit("hidden");
        assert("default"@ =~= default_group());
        assert("hidden"@ =~= seq!['h', 'i', 'd', 'd', 'e', 'n']);
    }
    let ghost nv = strings_view(names@);
    let ghost msv = ms@;
    let count = nodes.len();
    assert(gs.len() == count);
    let mut out: Vec<UiGroup> = Vec::new();
    let mut j: usize = 0;
    while j < names.len()
        invariant
            gs == node_groups(nodes@),
            nv == strings_view(names@),
            msv == ms@,
            gs.len() == count,
            count == nodes@.len(),
            groups_so_far(gs, nv, msv, nodes@.len() as int),
            "default"@ == default_group(),
            "hidden"@ == seq!['h', 'i', 'd', 'd', 'e', 'n'],
            j <= names@.len(),
            out@.len() == j,
            forall|k: int| 0 <= k < j ==> #[trigger] out@[k].name@ == nv[k],
            forall|k: int| 0 <= k < j ==> #[trigger] out@[k].nodes@ == msv[k]@,
            forall|k: int| 0 <= k < j ==> #[trigger] out@[k].legend == (nv[k] != default_group()),
            forall|k: int|
                0 <= k < j ==> #[trigger] out@[k].fieldset == exists|m: int|
                    0 <= m < out@[k].nodes@.len() && !is_hidden(nodes@[out@[k].nodes@[m] as int]),
        decreases names.len() - j,
    {
        let members_j = &ms[j];
        let mut framed = false;
        let mut copy: Vec<usize> = Vec::new();
        let mut k: usize = 0;
        proof {
            lemma_members_below(gs, nv[j as int], nodes@.len() as int);
        }
        while k < members_j.len()
            invariant
                k <= members_j@.len(),
                copy@ == members_j@.take(k as int),
                forall|m: int| 0 <= m < members_j@.len() ==> #[trigger] members_j@[m] < nodes@.len(),
                members_j@ == msv[j as int]@,
                j < msv.len(),
                msv[j as int]@ == members_upto(gs, nv[j as int], nodes@.len() as int),
                gs == node_groups(nodes@),
                "hidden"@ == seq!['h', 'i', 'd', 'd', 'e', 'n'],
                framed == exists|m: int| 0 <= m < k && !is_hidden(nodes@[members_j@[m] as int]),
            decreases members_j.len() - k,
        {
            let at = members_j[k];
            copy.push(at);
            proof {
                assert(copy@ =~= members_j@.take(k + 1));
            }
            let hidden = match &nodes[at].input_type {
                Some(t) => same_text(t.as_str(), "hidden"),
                None => false,
            };
            if !hidden {
                framed = true;
            }
            k = k + 1;
        }
        let legend = !same_text(names[j].as_str(), "default");
        proof {
            assert(copy@ =~= members_j@);
        }
        let ghost old_out = out@;
        out.push(UiGroup { name: names[j].clone(), nodes: copy, legend, fieldset: framed });
        proof {
            assert forall|q: int| 0 <= q < j implies out@[q] == old_out[q] by {}
            let o = out@[j as int];
            assert(o.nodes@ == members_j@);
            assert(o.fieldset == exists|m: int|
                0 <= m < o.nodes@.len() && !is_hidden(nodes@[o.nodes@[m] as int])) by {
                if framed {
                    let m = choose|m: int| 0 <= m < members_j@.len() && !is_hidden(nodes@[members_j@[m] as int]);
                    assert(o.nodes@[m] == members_j@[m]);
                }
            }
        }
        j = j + 1;
    }
    proof {
        assert(group_names(out@) =~= nv);
        assert forall|q: int| 0 <= q < nodes@.len() implies group_names(out@).contains(
            #[trigger] node_groups(nodes@)[q],
        ) by {
            assert(nv.contains(gs[q]));
        }
    }
    out
}

/// Group `name` has no member below `k` when no node below `k` is in it.
proof fn lemma_members_absent(gs: Seq<Seq<char>>, name: Seq<char>, k: int)
    requires
        forall|m: int| 0 <= m < k ==> gs[m] != name,
    ensures
        members_upto(gs, name, k).len() == 0,
    decreases k,
{
    if k > 0 {
        lemma_members_absent(gs, name, k - 1);
    }
}

/// Every member position below `k` is a node position below `k`.
proof fn lemma_members_below(gs: Seq<Seq<char>>, name: Seq<char>, k: int)
    requires
        k <= gs.len(),
        gs.len() <= usize::MAX,
    ensures
        forall|m: int| 0 <= m < members_upto(gs, name, k).len() ==> #[trigger] members_upto(gs, name, k)[m] < k,
    decreases k,
{
    if k > 0 {
        lemma_members_below(gs, name, k - 1);
        let prev = members_upto(gs, name, k - 1);
        let cur = members_upto(gs, name, k);
        assert forall|m: int| 0 <= m < cur.len() implies #[trigger] cur[m] < k by {
            if m < prev.len() {
                assert(cur[m] == prev[m]);
            }
        }
    }
}

/// A node shown as a button: an input of type `submit`.
pub open spec fn is_submit(n: UiNode) -> bool {
    match n.input_type {
        Some(t) => t@ == seq!['s', 'u', 'b', 'm', 'i', 't'],
        None => false,
    }
}

/// Whether the form shows a node as a button (a `submit` input) rather
/// than as a labelled field.
pub fn shown_as_button(node: &UiNode) -> (r: bool)
    ensures
        r == is_submit(*node),
{
    proof {
        reveal_strlit("submit");
        assert("submit"@ =~= seq!['s', 'u', 'b', 'm', 'i', 't']);
    }
    match &node.input_type {
        Some(t) => same_text(t.as_str(), "submit"),
        None => false,
    }
}

/// A text with every double quote taken out.
pub open spec fn without_quotes(s: Seq<char>) -> Seq<char> {
    s.filter(|c: char| c != '"')
}

/// The value attribute the form gives an input whose value has the JSON
/// text `json`: that text with its double quotes taken out.
pub fn attribute_value(json: &str) -> (r: String)
    ensures
        r@ == without_quotes(json@),
{
    let v = chars_of(json);
    let mut out: Vec<char> = Vec::new();
    let mut i: usize = 0;
    while i < v.len()
        invariant
            v@ == json@,
            i <= v@.len(),
            out@ == v@.take(i as int).filter(|c: char| c != '"'),
        decreases v.len() - i,
    {
        proof {
            reveal(Seq::filter);
            assert(v@.take(i + 1).drop_last() =~= v@.take(i as int));
            assert(v@.take(i + 1).last() == v@[i as int]);
        }
        if v[i] != '"' {
            out.push(v[i]);
        }
        i = i + 1;
    }
    assert(v@.take(v@.len() as int) =~= v@);
    string_from_chars(out.as_slice())
}

} // verus!
