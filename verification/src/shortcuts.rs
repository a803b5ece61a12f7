//! The keyboard shortcut reference: registered bindings grouped by category, with runs of
//! consecutive digit bindings for one action collapsed into a range.

use vstd::prelude::*;
use crate::text::{push_str, str_eq};

verus! {

/// The modifier keys held in a key chord.
#[derive(Clone, Copy, Debug, PartialEq, Eq, Structural)]
pub struct Modifiers {
    pub control: bool,
    pub alt: bool,
    pub shift: bool,
    pub platform: bool,
    pub function: bool,
}

/// A parsed key chord: its modifiers and the key pressed with them.
pub struct KeyChord {
    pub modifiers: Modifiers,
    pub key: String,
}

/// `c` is an ASCII decimal digit.
pub open spec fn is_digit(c: char) -> bool {
    '0' <= c && c <= '9'
}

/// The value of a decimal digit.
pub open spec fn digit_value(c: char) -> int {
    c as int - '0' as int
}

/// `key` is exactly one decimal digit, which is when it is one byte long and parses as a
/// `u8`.
pub open spec fn single_digit(key: Seq<char>) -> bool {
    key.len() == 1 && is_digit(key[0])
}

/// Two bindings follow each other as digits: both parsed, with the same modifiers, and
/// each key a single digit, the second one more than the first.
pub open spec fn consecutive_digit_spec(previous: Option<KeyChord>, next: Option<KeyChord>) -> bool {
    match (previous, next) {
        (Some(p), Some(n)) => p.modifiers == n.modifiers && single_digit(p.key@) && single_digit(
            n.key@,
        ) && digit_value(n.key@[0]) == digit_value(p.key@[0]) + 1,
        _ => false,
    }
}

/// The single digit `key` holds, if it holds exactly one.
fn single_digit_of(key: &String) -> (r: Option<u32>)
    ensures
        r.is_some() == single_digit(key@),
        r.is_some() ==> r.unwrap() == digit_value(key@[0]),
{
    if key.unicode_len() != 1 {
        return None;
    }
    let c = key.as_str().get_char(0);
    if '0' <= c && c <= '9' {
        Some((c as u32) - ('0' as u32))
    } else {
        None
    }
}

/// Whether `next` continues `previous` as the next digit; a binding that did not parse
/// continues nothing.
pub fn consecutive_digit(previous: Option<&KeyChord>, next: Option<&KeyChord>) -> (r: bool)
    ensures
        r == consecutive_digit_spec(
            match previous {
                Some(p) => Some(*p),
                None => None,
            },
            match next {
                Some(n) => Some(*n),
                None => None,
            },
        ),
{
    match (previous, next) {
        (Some(p), Some(n)) => {
            if p.modifiers != n.modifiers {
                return false;
            }
            match (single_digit_of(&p.key), single_digit_of(&n.key)) {
                (Some(a), Some(b)) => b == a + 1,
                _ => false,
            }
        },
        _ => false,
    }
}

/// A registered shortcut: its category, the action it runs, its binding as registered,
/// that binding parsed (if it parses), and the binding as it is displayed.
pub struct ShortcutEntry {
    pub category: String,
    pub action: String,
    pub keys: String,
    pub chord: Option<KeyChord>,
    pub display: String,
}

/// Entry `i` continues the run that ends at `last` and began at `first`: same category,
/// same action, and the next digit after the run's last binding.
pub open spec fn continues_run(es: Seq<ShortcutEntry>, first: int, last: int, i: int) -> bool {
    es[first].category@ == es[i].category@ && es[first].action@ == es[i].action@
        && consecutive_digit_spec(es[last].chord, es[i].chord)
}

/// The runs of the first `n` entries, each as the indices of its first and last entry.
pub open spec fn runs_upto(es: Seq<ShortcutEntry>, n: nat) -> Seq<(int, int)>
    decreases n,
{
    if n == 0 {
        Seq::empty()
    } else {
        let r = runs_upto(es, (n - 1) as nat);
        let i = n - 1;
        if r.len() > 0 && continues_run(es, r.last().0, r.last().1, i) {
            r.update(r.len() - 1, (r.last().0, i))
        } else {
            r.push((i, i))
        }
    }
}

/// The binding shown for a run: the first binding, or `first … last` when the run's
/// first and last registered bindings differ.
pub open spec fn run_binding(es: Seq<ShortcutEntry>, run: (int, int)) -> Seq<char> {
    if es[run.0].keys@ == es[run.1].keys@ {
        es[run.0].display@
    } else {
        es[run.0].display@ + " … "@ + es[run.1].display@
    }
}

/// The row shown for a run: its action and binding.
pub open spec fn run_row(es: Seq<ShortcutEntry>, run: (int, int)) -> (Seq<char>, Seq<char>) {
    (es[run.0].action@, run_binding(es, run))
}

/// The groups of the first `n` runs: consecutive runs of one category share a group.
pub open spec fn groups_upto(es: Seq<ShortcutEntry>, runs: Seq<(int, int)>, n: nat) -> Seq<
    (Seq<char>, Seq<(Seq<char>, Seq<char>)>),
>
    decreases n,
{
    if n == 0 {
        Seq::empty()
    } else {
        let g = groups_upto(es, runs, (n - 1) as nat);
        let run = runs[n - 1];
        let category = es[run.0].category@;
        if g.len() > 0 && g.last().0 == category {
            g.update(g.len() - 1, (category, g.last().1.push(run_row(es, run))))
        } else {
            g.push((category, seq![run_row(es, run)]))
        }
    }
}

/// The shortcut reference for the registered shortcuts `es`, in registration order.
pub open spec fn shortcut_groups_spec(es: Seq<ShortcutEntry>) -> Seq<
    (Seq<char>, Seq<(Seq<char>, Seq<char>)>),
> {
    let runs = runs_upto(es, es.len());
    groups_upto(es, runs, runs.len())
}

/// A category of the reference and its rows of action and displayed binding.
pub struct ShortcutGroup {
    pub category: String,
    pub rows: Vec<(String, String)>,
}

/// A group as plain values.
pub open spec fn group_view(g: ShortcutGroup) -> (Seq<char>, Seq<(Seq<char>, Seq<char>)>) {
    (g.category@, g.rows@.map_values(|r: (String, String)| (r.0@, r.1@)))
}

/// Splits the entries into runs.
fn collect_runs(es: &Vec<ShortcutEntry>) -> (r: Vec<(usize, usize)>)
    ensures
        r@.map_values(|p: (usize, usize)| (p.0 as int, p.1 as int)) == runs_upto(
            es@,
            es@.len(),
        ),
        forall|k: int| 0 <= k < r@.len() ==> (#[trigger] r@[k]).0 <= r@[k].1 < es@.len(),
{
    let mut runs: Vec<(usize, usize)> = Vec::new();
    let mut i: usize = 0;
    while i < es.len()
        invariant
            i <= es@.len(),
            runs@.map_values(|p: (usize, usize)| (p.0 as int, p.1 as int)) == runs_upto(
                es@,
                i as nat,
            ),
            forall|k: int| 0 <= k < runs@.len() ==> (#[trigger] runs@[k]).0 <= runs@[k].1 < i,
        decreases es.len() - i,
    {
        let ghost before = runs@.map_values(|p: (usize, usize)| (p.0 as int, p.1 as int));
        let n = runs.len();
        let mut extends = false;
        if n > 0 {
            let (first, last) = runs[n - 1];
            extends = str_eq(es[first].category.as_str(), es[i].category.as_str()) && str_eq(
                es[first].action.as_str(),
                es[i].action.as_str(),
            ) && consecutive_digit(es[last].chord.as_ref(), es[i].chord.as_ref());
            proof {
                assert(before.last() == (first as int, last as int));
                assert(extends == continues_run(es@, first as int, last as int, i as int)) by {
                    match (es@[last as int].chord, es@[i as int].chord) {
                        (Some(p), Some(q)) => {},
                        _ => {},
                    }
                }
            }
            if extends {
                runs.set(n - 1, (first, i));
                assert(runs@.map_values(|p: (usize, usize)| (p.0 as int, p.1 as int)) =~= before.update(
                    before.len() - 1,
                    (first as int, i as int),
                ));
            }
        }
        if !extends {
            runs.push((i, i));
            assert(runs@.map_values(|p: (usize, usize)| (p.0 as int, p.1 as int)) =~= before.push(
                (i as int, i as int),
            ));
        }
        i = i + 1;
    }
    runs
}

/// The row shown for the run from `first` to `last`.
fn row_of(es: &Vec<ShortcutEntry>, first: usize, last: usize) -> (r: (String, String))
    requires
        first < es@.len(),
        last < es@.len(),
    ensures
        (r.0@, r.1@) == run_row(es@, (first as int, last as int)),
{
    let action = es[first].action.clone();
    let binding = if str_eq(es[first].keys.as_str(), es[last].keys.as_str()) {
        es[first].display.clone()
    } else {
        let mut b = es[first].display.clone();
        push_str(&mut b, " … ");
        push_str(&mut b, es[last].display.as_str());
        b
    };
    (action, binding)
}

/// The keyboard shortcut reference: the registered shortcuts in order, runs of
/// consecutive digit bindings for one action collapsed into one `first … last` row, and
/// consecutive rows of one category gathered under it.
pub fn shortcut_groups(es: &Vec<ShortcutEntry>) -> (r: Vec<ShortcutGroup>)
    ensures
        r@.map_values(|g: ShortcutGroup| group_view(g)) == shortcut_groups_spec(es@),
{
    let runs = collect_runs(es);
    let ghost rs = runs@.map_values(|p: (usize, usize)| (p.0 as int, p.1 as int));
    let mut groups: Vec<ShortcutGroup> = Vec::new();
    if runs.len() == 0 {
        assert(groups@.map_values(|g: ShortcutGroup| group_view(g)) =~= shortcut_groups_spec(es@));
        return groups;
    }
    let (f0, l0) = runs[0];
    let mut category = es[f0].category.clone();
    let mut rows: Vec<(String, String)> = Vec::new();
    let row = row_of(es, f0, l0);
    rows.push(row);
    proof {
        assert(rs[0] == (f0 as int, l0 as int));
        assert(groups_upto(es@, rs, 0) =~= Seq::<(Seq<char>, Seq<(Seq<char>, Seq<char>)>)>::empty());
        assert(groups_upto(es@, rs, 1) =~= seq![(category@, seq![run_row(es@, rs[0])])]);
        assert(rows@.map_values(|r: (String, String)| (r.0@, r.1@)) =~= seq![
            run_row(es@, rs[0]),
        ]);
    }
    let mut k: usize = 1;
    while k < runs.len()
        invariant
            1 <= k <= runs@.len(),
            rs == runs@.map_values(|p: (usize, usize)| (p.0 as int, p.1 as int)),
            rs == runs_upto(es@, es@.len()),
            forall|j: int| 0 <= j < runs@.len() ==> (#[trigger] runs@[j]).0 <= runs@[j].1 < es@.len(),
            groups@.map_values(|g: ShortcutGroup| group_view(g)).push(
                (category@, rows@.map_values(|r: (String, String)| (r.0@, r.1@))),
            ) == groups_upto(es@, rs, k as nat),
        decreases runs.len() - k,
    {
        let (f, l) = runs[k];
        let row = row_of(es, f, l);
        let ghost done = groups@.map_values(|g: ShortcutGroup| group_view(g));
        let ghost cur = rows@.map_values(|r: (String, String)| (r.0@, r.1@));
        assert(rs[k as int] == (f as int, l as int));
        if str_eq(category.as_str(), es[f].category.as_str()) {
            rows.push(row);
            assert(rows@.map_values(|r: (String, String)| (r.0@, r.1@)) =~= cur.push(
                run_row(es@, rs[k as int]),
            ));
            assert(done.push((category@, cur)).update(done.len() as int, (category@, cur.push(run_row(es@, rs[k as int])))) =~= done.push((category@, cur.push(run_row(es@, rs[k as int])))));
        } else {
            let finished = ShortcutGroup { category, rows };
            groups.push(finished);
            assert(groups@.map_values(|g: ShortcutGroup| group_view(g)) =~= done.push((finished.category@, cur)));
            category = es[f].category.clone();
            rows = Vec::new();
            rows.push(row);
            assert(rows@.map_values(|r: (String, String)| (r.0@, r.1@)) =~= seq![
                run_row(es@, rs[k as int]),
            ]);
        }
        k = k + 1;
    }
    let last = ShortcutGroup { category, rows };
    let ghost done = groups@.map_values(|g: ShortcutGroup| group_view(g));
    groups.push(last);
    assert(groups@.map_values(|g: ShortcutGroup| group_view(g)) =~= done.push(group_view(last)));
    groups
}


/// Every entry of `run` after its first has the first one's category and action and is
/// the next digit after the entry before it.
pub open spec fn run_coherent(es: Seq<ShortcutEntry>, run: (int, int)) -> bool {
    forall|j: int|
        run.0 < j <= run.1 ==> es[j].category@ == es[run.0].category@ && es[j].action@
            == es[run.0].action@ && consecutive_digit_spec(es[j - 1].chord, #[trigger] es[j].chord)
}

/// The runs `r` split the first `n` entries into contiguous coherent stretches, in order.
pub open spec fn runs_partition(es: Seq<ShortcutEntry>, r: Seq<(int, int)>, n: int) -> bool {
    &&& (n == 0 <==> r.len() == 0)
    &&& n > 0 ==> r[0].0 == 0 && r.last().1 == n - 1
    &&& forall|k: int| 0 <= k < r.len() ==> 0 <= (#[trigger] r[k]).0 <= r[k].1 < n
    &&& forall|k: int| 0 <= k < r.len() - 1 ==> (#[trigger] r[k]).1 + 1 == r[k + 1].0
    &&& forall|k: int| 0 <= k < r.len() ==> run_coherent(es, #[trigger] r[k])
}

proof fn lemma_runs_partition(es: Seq<ShortcutEntry>, n: nat)
    requires
        n <= es.len(),
    ensures
        runs_partition(es, runs_upto(es, n), n as int),
    decreases n,
{
    if n > 0 {
        lemma_runs_partition(es, (n - 1) as nat);
        let r = runs_upto(es, (n - 1) as nat);
        let i = n - 1;
        let out = runs_upto(es, n);
        if r.len() > 0 && continues_run(es, r.last().0, r.last().1, i) {
            let last = (r.last().0, i);
            assert(out == r.update(r.len() - 1, last));
            assert(run_coherent(es, r.last()));
            assert(run_coherent(es, last)) by {
                assert forall|j: int| last.0 < j <= last.1 implies es[j].category@
                    == es[last.0].category@ && es[j].action@ == es[last.0].action@
                    && consecutive_digit_spec(es[j - 1].chord, #[trigger] es[j].chord) by {
                    if j < i {
                        assert(r.last().0 < j <= r.last().1);
                    }
                }
            }
            assert forall|k: int| 0 <= k < out.len() implies run_coherent(es, #[trigger] out[k]) by {
                if k < r.len() - 1 {
                    assert(out[k] == r[k]);
                }
            }
            assert forall|k: int| 0 <= k < out.len() - 1 implies (#[trigger] out[k]).1 + 1
                == out[k + 1].0 by {
                assert(out[k] == r[k]);
                if k + 1 < r.len() - 1 {
                    assert(out[k + 1] == r[k + 1]);
                }
            }
        } else {
            assert(out == r.push((i, i)));
            assert(run_coherent(es, (i, i)));
            assert forall|k: int| 0 <= k < out.len() implies run_coherent(es, #[trigger] out[k]) by {
                if k < r.len() {
                    assert(out[k] == r[k]);
                }
            }
            assert forall|k: int| 0 <= k < out.len() - 1 implies (#[trigger] out[k]).1 + 1
                == out[k + 1].0 by {
                assert(out[k] == r[k]);
                if k + 1 < r.len() {
                    assert(out[k + 1] == r[k + 1]);
                }
            }
        }
    }
}

/// The reference collapses only what was registered: its runs cover every registered
/// shortcut once, in order, and a run gathers only bindings of one category and action
/// whose keys are consecutive digits with the same modifiers.
pub proof fn law_runs_cover_every_registration(es: Seq<ShortcutEntry>)
    ensures
        runs_partition(es, runs_upto(es, es.len()), es.len() as int),
{
    lemma_runs_partition(es, es.len());
}

/// Two neighbouring groups of the reference never have the same category.
pub proof fn law_neighbouring_groups_differ(es: Seq<ShortcutEntry>)
    ensures
        forall|k: int|
            0 <= k < shortcut_groups_spec(es).len() - 1 ==> (#[trigger] shortcut_groups_spec(es)[k]).0
                != shortcut_groups_spec(es)[k + 1].0,
{
    let runs = runs_upto(es, es.len());
    lemma_groups_differ(es, runs, runs.len());
}

proof fn lemma_groups_differ(es: Seq<ShortcutEntry>, runs: Seq<(int, int)>, n: nat)
    requires
        n <= runs.len(),
    ensures
        forall|k: int|
            0 <= k < groups_upto(es, runs, n).len() - 1 ==> (#[trigger] groups_upto(es, runs, n)[k]).0
                != groups_upto(es, runs, n)[k + 1].0,
    decreases n,
{
    if n > 0 {
        lemma_groups_differ(es, runs, (n - 1) as nat);
        let g = groups_upto(es, runs, (n - 1) as nat);
        let out = groups_upto(es, runs, n);
        assert forall|k: int| 0 <= k < out.len() - 1 implies (#[trigger] out[k]).0 != out[k + 1].0 by {
            if k < g.len() - 1 {
                assert(out[k].0 == g[k].0);
                assert(out[k + 1].0 == g[k + 1].0);
            } else {
                assert(out[k].0 == g[k].0);
            }
        }
    }
}

} // verus!
