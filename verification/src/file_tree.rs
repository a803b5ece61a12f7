//! The sidebar's file tree: its nodes, which folders are expanded, how many rows it
//! shows, moving the selection, and what a rename does to ids and names.

use vstd::prelude::*;
use crate::paths::{rebase, starts_with, DocPath, PartView};
use crate::text::{chars_of, push_str, str_lowercase, string_from_chars, string_of};

verus! {

broadcast use vstd::std_specs::vec::axiom_vec_decreases_to_view;

/// A row of the file tree: the path it stands for, its label, whether it is a folder, and
/// whether it is expanded with its children.
pub struct FileNode {
    pub id: DocPath,
    pub label: String,
    pub is_dir: bool,
    pub expanded: bool,
    pub children: Vec<FileNode>,
}

/// The rows `nodes` show: each node, and the rows of the children of an expanded one.
pub open spec fn visible_rows(nodes: Seq<FileNode>) -> nat
    decreases nodes,
{
    if nodes.len() == 0 {
        0
    } else {
        let n = nodes.last();
        proof {
            assert(decreases_to!(nodes => nodes.drop_last()));
            assert(decreases_to!(nodes => n));
            assert(decreases_to!(n => n.children));
        }
        visible_rows(nodes.drop_last()) + 1 + if n.expanded {
            visible_rows(n.children@)
        } else {
            0
        }
    }
}

/// `n`, or `usize::MAX` when it does not fit.
pub open spec fn saturated(n: nat) -> usize {
    if n <= usize::MAX {
        n as usize
    } else {
        usize::MAX
    }
}

fn add_saturating(a: usize, b: usize) -> (r: usize)
    ensures
        r == saturated((a + b) as nat),
{
    a.saturating_add(b)
}

/// The number of rows the tree shows (`usize::MAX` if it were ever larger).
pub fn visible_tree_entry_count(nodes: &Vec<FileNode>) -> (r: usize)
    ensures
        r == saturated(visible_rows(nodes@)),
    decreases nodes@,
{
    let mut total: usize = 0;
    let mut i: usize = 0;
    while i < nodes.len()
        invariant
            i <= nodes@.len(),
            total == saturated(visible_rows(nodes@.subrange(0, i as int))),
        decreases nodes.len() - i,
    {
        let node = &nodes[i];
        proof {
            assert(nodes@.subrange(0, i + 1).drop_last() =~= nodes@.subrange(0, i as int));
            assert(nodes@.subrange(0, i + 1).last() == *node);
            assert(decreases_to!(nodes@ => nodes@[i as int]));
            assert(decreases_to!(nodes@[i as int] => nodes@[i as int].children));
        }
        let below = if node.expanded {
            visible_tree_entry_count(&node.children)
        } else {
            0
        };
        total = add_saturating(add_saturating(total, 1), below);
        i = i + 1;
    }
    assert(nodes@.subrange(0, nodes@.len() as int) =~= nodes@);
    total
}

/// The ids of the expanded folders as plain values.
pub open spec fn ids_view(ids: Seq<DocPath>) -> Seq<Seq<PartView>> {
    ids.map_values(|p: DocPath| p@)
}

/// `ids` with `id` added when `expanded` and it is not there yet, and with every copy of
/// `id` removed when not `expanded`.
pub open spec fn marked(ids: Seq<Seq<PartView>>, id: Seq<PartView>, expanded: bool) -> Seq<Seq<PartView>> {
    if expanded {
        if ids.contains(id) {
            ids
        } else {
            ids.push(id)
        }
    } else {
        ids.filter(other_than(id))
    }
}

/// Every path but `id`.
pub open spec fn other_than(id: Seq<PartView>) -> spec_fn(Seq<PartView>) -> bool {
    |x: Seq<PartView>| x != id
}

/// Records that the folder `id` is expanded or collapsed.
pub fn mark_tree_item_expanded(ids: &mut Vec<DocPath>, id: &DocPath, expanded: bool)
    ensures
        ids_view(final(ids)@) == marked(ids_view(old(ids)@), id@, expanded),
{
    let ghost start = ids_view(ids@);
    if expanded {
        let mut i: usize = 0;
        while i < ids.len()
            invariant
                i <= ids@.len(),
                start == ids_view(ids@),
                ids@ == old(ids)@,
                expanded,
                forall|j: int| 0 <= j < i ==> start[j] != id@,
            decreases ids.len() - i,
        {
            if ids[i].same(id) {
                assert(start[i as int] == id@);
                assert(start.contains(id@));
                return;
            }
            i = i + 1;
        }
        assert(!start.contains(id@)) by {
            if start.contains(id@) {
                let k = choose|k: int| 0 <= k < start.len() && start[k] == id@;
                assert(start[k] != id@);
            }
        }
        ids.push(id.duplicate());
        assert(ids_view(ids@) =~= start.push(id@));
    } else {
        let ghost pred = other_than(id@);
        let mut kept: Vec<DocPath> = Vec::new();
        let mut i: usize = 0;
        while i < ids.len()
            invariant
                i <= ids@.len(),
                start == ids_view(ids@),
                pred == other_than(id@),
                ids_view(kept@) == start.subrange(0, i as int).filter(pred),
            decreases ids.len() - i,
        {
            proof {
                crate::text::lemma_prefix_filter_step(start, pred, i as int);
            }
            if !ids[i].same(id) {
                let ghost before = ids_view(kept@);
                kept.push(ids[i].duplicate());
                assert(ids_view(kept@) =~= before.push(start[i as int]));
            }
            i = i + 1;
        }
        assert(start.subrange(0, start.len() as int) =~= start);
        *ids = kept;
    }
}

/// Expanding a folder records it exactly once, and collapsing it forgets it, whatever
/// else is recorded; other folders keep their state.
pub proof fn law_expand_and_collapse(ids: Seq<Seq<PartView>>, id: Seq<PartView>, other: Seq<PartView>)
    requires
        other != id,
    ensures
        marked(ids, id, true).contains(id),
        !marked(ids, id, false).contains(id),
        marked(ids, id, true).contains(other) == ids.contains(other),
        marked(ids, id, false).contains(other) == ids.contains(other),
{
    let pred = other_than(id);
    broadcast use vstd::seq_lib::group_filter_ensures;

    if marked(ids, id, true).contains(other) && !ids.contains(other) {
        let k = choose|k: int|
            0 <= k < marked(ids, id, true).len() && marked(ids, id, true)[k] == other;
        if !ids.contains(id) {
            assert(k < ids.len());
        }
    }
    if ids.contains(other) {
        let k = choose|k: int| 0 <= k < ids.len() && ids[k] == other;
        assert(pred(ids[k]));
        if !ids.contains(id) {
            assert(marked(ids, id, true)[k] == other);
        }
    }
    if marked(ids, id, false).contains(id) {
        let k = choose|k: int|
            0 <= k < marked(ids, id, false).len() && marked(ids, id, false)[k] == id;
        assert(pred(ids.filter(pred)[k]));
    }
    if marked(ids, id, false).contains(other) {
        let k = choose|k: int|
            0 <= k < marked(ids, id, false).len() && marked(ids, id, false)[k] == other;
        assert(ids.filter(pred).contains(other));
        lemma_filter_subset(ids, pred, other);
    }
    if !ids.contains(id) {
        assert(ids.push(id)[ids.len() as int] == id);
    }
}

proof fn lemma_filter_subset(s: Seq<Seq<PartView>>, pred: spec_fn(Seq<PartView>) -> bool, x: Seq<PartView>)
    requires
        s.filter(pred).contains(x),
    ensures
        s.contains(x),
    decreases s.len(),
{
    reveal(Seq::filter);
    if s.len() > 0 {
        let rest = s.drop_last().filter(pred);
        if pred(s.last()) && x == s.last() {
            assert(s[s.len() - 1] == x);
        } else {
            if pred(s.last()) {
                let k = choose|k: int| 0 <= k < s.filter(pred).len() && s.filter(pred)[k] == x;
                assert(rest.push(s.last())[k] == x);
                assert(k < rest.len());
                assert(rest[k] == x);
            }
            lemma_filter_subset(s.drop_last(), pred, x);
            let k = choose|k: int| 0 <= k < s.drop_last().len() && s.drop_last()[k] == x;
            assert(s[k] == x);
        }
    }
}

/// Moves every recorded folder from under `from` to under `to`.
pub fn remap_expanded(ids: &mut Vec<DocPath>, from: &DocPath, to: &DocPath)
    ensures
        ids_view(final(ids)@) == ids_view(old(ids)@).map_values(
            |p: Seq<PartView>| rebase(p, from@, to@),
        ),
{
    let ghost start = ids_view(ids@);
    let mut out: Vec<DocPath> = Vec::new();
    let mut i: usize = 0;
    while i < ids.len()
        invariant
            i <= ids@.len(),
            start == ids_view(ids@),
            ids_view(out@) == start.subrange(0, i as int).map_values(
                |p: Seq<PartView>| rebase(p, from@, to@),
            ),
        decreases ids.len() - i,
    {
        let ghost before = ids_view(out@);
        out.push(ids[i].rebase(from, to));
        assert(ids_view(out@) =~= before.push(rebase(start[i as int], from@, to@)));
        assert(start.subrange(0, i + 1).map_values(|p: Seq<PartView>| rebase(p, from@, to@))
            =~= start.subrange(0, i as int).map_values(
            |p: Seq<PartView>| rebase(p, from@, to@),
        ).push(rebase(start[i as int], from@, to@)));
        i = i + 1;
    }
    assert(start.subrange(0, start.len() as int) =~= start);
    *ids = out;
}

/// The row the selection moves to with the up arrow: the previous row, or from the first
/// row to the last; nothing moves without a selection.
pub open spec fn row_above(selected: Option<usize>, count: usize) -> Option<usize> {
    match selected {
        Some(ix) => Some(
            if ix > 0 {
                (ix - 1) as usize
            } else if count > 0 {
                (count - 1) as usize
            } else {
                0
            },
        ),
        None => None,
    }
}

/// The row the selection moves to with the up arrow.
pub fn navigate_up(selected: Option<usize>, count: usize) -> (r: Option<usize>)
    ensures
        r == row_above(selected, count),
{
    match selected {
        Some(ix) => Some(
            if ix > 0 {
                ix - 1
            } else {
                count.saturating_sub(1)
            },
        ),
        None => None,
    }
}

/// The row the selection moves to with the down arrow: the next row, or back to the first
/// past the last; nothing moves without a selection.
pub open spec fn row_below(selected: Option<usize>, count: usize) -> Option<usize> {
    match selected {
        Some(ix) => Some(
            if ix + 1 < count {
                (ix + 1) as usize
            } else {
                0
            },
        ),
        None => None,
    }
}

/// The row the selection moves to with the down arrow.
pub fn navigate_down(selected: Option<usize>, count: usize) -> (r: Option<usize>)
    ensures
        r == row_below(selected, count),
{
    match selected {
        Some(ix) => Some(
            if ix < usize::MAX && ix + 1 < count {
                ix + 1
            } else {
                0
            },
        ),
        None => None,
    }
}

/// On a tree of `count` rows, down then up, or up then down, comes back to the row
/// selected before.
pub proof fn law_up_and_down_undo_each_other(ix: usize, count: usize)
    requires
        ix < count,
    ensures
        row_above(row_below(Some(ix), count), count) == Some(ix),
        row_below(row_above(Some(ix), count), count) == Some(ix),
{
}

/// The extension of a file name: from its last `.` on, when that dot is not its first
/// character.
pub open spec fn extension_of(name: Seq<char>) -> Option<Seq<char>> {
    if exists|i: int| 0 < i < name.len() && name[i] == '.' {
        let d = choose|i: int|
            0 < i < name.len() && name[i] == '.' && forall|j: int| i < j < name.len() ==> name[j]
                != '.';
        Some(name.subrange(d, name.len() as int))
    } else {
        None
    }
}

/// The name a rename gives: nothing for an empty name; a file keeps its extension when
/// the new name has no dot at all.
pub open spec fn renamed_name(new_name: Seq<char>, target_name: Option<Seq<char>>, is_dir: bool) -> Option<Seq<char>> {
    if new_name.len() == 0 {
        None
    } else {
        let ext = if is_dir {
            None
        } else {
            match target_name {
                Some(t) => extension_of(t),
                None => None,
            }
        };
        match ext {
            Some(e) => if !new_name.contains('.') {
                Some(new_name + e)
            } else {
                Some(new_name)
            },
            None => Some(new_name),
        }
    }
}

/// The index of the last `.` of `cs`, if it is not at the start.
fn last_dot(cs: &Vec<char>) -> (r: Option<usize>)
    ensures
        match r {
            Some(d) => 0 < d < cs@.len() && cs@[d as int] == '.' && forall|j: int|
                d < j < cs@.len() ==> cs@[j] != '.',
            None => !exists|i: int| 0 < i < cs@.len() && cs@[i] == '.',
        },
{
    let mut k = cs.len();
    while k > 0
        invariant
            k <= cs@.len(),
            forall|j: int| k <= j < cs@.len() ==> cs@[j] != '.',
        decreases k,
    {
        if cs[k - 1] == '.' {
            if k - 1 == 0 {
                return None;
            }
            return Some(k - 1);
        }
        k = k - 1;
    }
    None
}

/// The name a rename gives, as [`renamed_name`] states; `target_name` is the file name of
/// what is renamed.
pub fn renamed_file_name(new_name: &str, target_name: Option<&str>, is_dir: bool) -> (r: Option<String>)
    ensures
        match r {
            Some(s) => renamed_name(
                new_name@,
                match target_name {
                    Some(t) => Some(t@),
                    None => None,
                },
                is_dir,
            ) == Some(s@),
            None => renamed_name(
                new_name@,
                match target_name {
                    Some(t) => Some(t@),
                    None => None,
                },
                is_dir,
            ) is None,
        },
{
    if new_name.unicode_len() == 0 {
        return None;
    }
    let mut name = string_of(new_name);
    if is_dir {
        return Some(name);
    }
    match target_name {
        Some(t) => {
            let tc = chars_of(t);
            match last_dot(&tc) {
                Some(d) => {
                    let ghost e = t@.subrange(d as int, t@.len() as int);
                    assert(extension_of(t@) == Some(e)) by {
                        let c = choose|i: int|
                            0 < i < t@.len() && t@[i] == '.' && forall|j: int|
                                i < j < t@.len() ==> t@[j] != '.';
                        assert(c == d) by {
                            if c < d {
                                assert(t@[d as int] == '.');
                            }
                            if c > d {
                                assert(t@[c] == '.');
                            }
                        }
                    }
                    let has_dot = crate::text::contains_char(new_name, '.');
                    if !has_dot {
                        let ext = string_from_chars(&tc, d, tc.len());
                        push_str(&mut name, ext.as_str());
                    }
                    Some(name)
                },
                None => Some(name),
            }
        },
        None => Some(name),
    }
}


/// A node of the file tree as plain values.
pub struct NodeView {
    pub id: Seq<PartView>,
    pub label: Seq<char>,
    pub is_dir: bool,
    pub expanded: bool,
    pub children: Seq<NodeView>,
}

/// The nodes as plain values, children included.
pub open spec fn node_views(ns: Seq<FileNode>) -> Seq<NodeView>
    decreases ns,
{
    if ns.len() == 0 {
        Seq::empty()
    } else {
        let n = ns.last();
        proof {
            assert(decreases_to!(ns => ns.drop_last()));
            assert(decreases_to!(ns => n));
            assert(decreases_to!(n => n.children));
        }
        node_views(ns.drop_last()).push(
            NodeView {
                id: n.id@,
                label: n.label@,
                is_dir: n.is_dir,
                expanded: n.expanded,
                children: node_views(n.children@),
            },
        )
    }
}

/// The tree after `old` was renamed to `new`: every node at or under `old` moves under
/// `new`, and the node that was `old` is labelled `label`.
pub open spec fn remapped(vs: Seq<NodeView>, old: Seq<PartView>, new: Seq<PartView>, label: Seq<char>) -> Seq<NodeView>
    decreases vs,
{
    if vs.len() == 0 {
        Seq::empty()
    } else {
        let v = vs.last();
        remapped(vs.drop_last(), old, new, label).push(
            NodeView {
                id: if starts_with(v.id, old) {
                    rebase(v.id, old, new)
                } else {
                    v.id
                },
                label: if v.id == old {
                    label
                } else {
                    v.label
                },
                children: remapped(v.children, old, new, label),
                ..v
            },
        )
    }
}

/// Renames the ids of every node at or under `old` to sit under `new`, and gives the node
/// that was `old` the label `new_label`.
pub fn remap_tree(nodes: Vec<FileNode>, old: &DocPath, new: &DocPath, new_label: &str) -> (r: Vec<FileNode>)
    ensures
        node_views(r@) == remapped(node_views(nodes@), old@, new@, new_label@),
    decreases nodes@,
{
    let ghost orig = nodes@;
    assert(orig.len() == nodes.len());
    let mut rest = nodes;
    let mut out: Vec<FileNode> = Vec::new();
    let mut k: usize = 0;
    while rest.len() > 0
        invariant
            k <= orig.len(),
            orig.len() <= usize::MAX,
            orig == nodes@,
            rest@ == orig.subrange(k as int, orig.len() as int),
            node_views(out@) == remapped(node_views(orig.subrange(0, k as int)), old@, new@, new_label@),
        decreases rest.len(),
    {
        let n = rest.remove(0);
        assert(n == orig[k as int]);
        proof {
            assert(decreases_to!(orig => orig[k as int]));
            assert(decreases_to!(orig[k as int] => orig[k as int].children));
        }
        let FileNode { id, label, is_dir, expanded, children } = n;
        proof {
            assert(children == orig[k as int].children);
            assert(decreases_to!(orig[k as int].children => children@));
            assert(decreases_to!(nodes@ => children@));
        }
        let kids = remap_tree(children, old, new, new_label);
        let moved = id.starts_with(old);
        let was_old = id.same(old);
        let new_id = if moved {
            id.rebase(old, new)
        } else {
            id
        };
        let new_label_here = if was_old {
            string_of(new_label)
        } else {
            label
        };
        let ghost out_before = out@;
        let node = FileNode { id: new_id, label: new_label_here, is_dir, expanded, children: kids };
        out.push(node);
        proof {
            let pre = orig.subrange(0, k as int);
            let pre1 = orig.subrange(0, k + 1);
            assert(pre1.drop_last() =~= pre);
            assert(pre1.last() == n);
            assert(out@.drop_last() =~= out_before);
            assert(out@.last() == node);
            let vs = node_views(pre);
            let v = node_views(pre1).last();
            assert(node_views(pre1) == vs.push(v));
            assert(vs.push(v).drop_last() =~= vs);
            assert(orig.subrange(k + 1, orig.len() as int) =~= orig.subrange(
                k as int,
                orig.len() as int,
            ).remove(0));
        }
        k = k + 1;
    }
    assert(orig.subrange(0, orig.len() as int) =~= orig);
    out
}

/// `a` comes before `b` in the lexicographic order of their characters, which is the
/// order of `String`s.
pub open spec fn text_lt(a: Seq<char>, b: Seq<char>) -> bool
    decreases a.len(),
{
    if a.len() == 0 {
        b.len() > 0
    } else if b.len() == 0 {
        false
    } else if a[0] != b[0] {
        a[0] < b[0]
    } else {
        text_lt(a.drop_first(), b.drop_first())
    }
}

pub(crate) proof fn lemma_text_lt_irreflexive(a: Seq<char>)
    ensures
        !text_lt(a, a),
    decreases a.len(),
{
    if a.len() > 0 {
        lemma_text_lt_irreflexive(a.drop_first());
    }
}

pub(crate) proof fn lemma_text_lt_total(a: Seq<char>, b: Seq<char>)
    ensures
        a == b || text_lt(a, b) || text_lt(b, a),
    decreases a.len(),
{
    if a.len() > 0 && b.len() > 0 && a[0] == b[0] {
        lemma_text_lt_total(a.drop_first(), b.drop_first());
        if a.drop_first() == b.drop_first() {
            assert(a =~= seq![a[0]] + a.drop_first());
            assert(b =~= seq![b[0]] + b.drop_first());
        }
    } else if a.len() == 0 && b.len() == 0 {
        assert(a =~= b);
    }
}

pub(crate) proof fn lemma_text_lt_transitive(a: Seq<char>, b: Seq<char>, c: Seq<char>)
    requires
        text_lt(a, b),
        text_lt(b, c),
    ensures
        text_lt(a, c),
    decreases a.len(),
{
    if a.len() > 0 && b.len() > 0 && c.len() > 0 && a[0] == b[0] && b[0] == c[0] {
        lemma_text_lt_transitive(a.drop_first(), b.drop_first(), c.drop_first());
    }
}

/// A directory entry as read from the file system: its name and whether it is a folder.
pub struct DirEntry {
    pub name: String,
    pub is_dir: bool,
}

/// A name that starts with `.` is hidden from the tree.
pub open spec fn hidden(name: Seq<char>) -> bool {
    name.len() > 0 && name[0] == '.'
}

/// Entry `i` is listed before entry `j`: folders before files, then by lower-case name,
/// then in the order they were read.
pub open spec fn listed_before(es: Seq<DirEntry>, i: int, j: int) -> bool {
    let ki = str_lowercase(es[i].name@);
    let kj = str_lowercase(es[j].name@);
    if es[i].is_dir != es[j].is_dir {
        es[i].is_dir
    } else if ki != kj {
        text_lt(ki, kj)
    } else {
        i < j
    }
}

proof fn lemma_listed_total(es: Seq<DirEntry>, i: int, j: int)
    requires
        i != j,
    ensures
        listed_before(es, i, j) != listed_before(es, j, i),
{
    let ki = str_lowercase(es[i].name@);
    let kj = str_lowercase(es[j].name@);
    lemma_text_lt_total(ki, kj);
    if ki != kj && text_lt(ki, kj) && text_lt(kj, ki) {
        lemma_text_lt_transitive(ki, kj, ki);
        lemma_text_lt_irreflexive(ki);
    }
}

proof fn lemma_listed_transitive(es: Seq<DirEntry>, i: int, j: int, k: int)
    requires
        listed_before(es, i, j),
        listed_before(es, j, k),
    ensures
        listed_before(es, i, k),
{
    let ki = str_lowercase(es[i].name@);
    let kj = str_lowercase(es[j].name@);
    let kk = str_lowercase(es[k].name@);
    if es[i].is_dir == es[j].is_dir && es[j].is_dir == es[k].is_dir {
        if ki != kj && kj != kk {
            lemma_text_lt_transitive(ki, kj, kk);
            if ki == kk {
                lemma_text_lt_transitive(kj, kk, kj);
                lemma_text_lt_irreflexive(kj);
            }
        }
    }
}

/// Whether `keys[a]` comes before `keys[b]`, as [`text_lt`] states.
pub(crate) fn key_lt(a: &Vec<char>, b: &Vec<char>) -> (r: bool)
    ensures
        r == text_lt(a@, b@),
{
    let mut i: usize = 0;
    assert(a@.subrange(0, a@.len() as int) =~= a@);
    assert(b@.subrange(0, b@.len() as int) =~= b@);
    while i < a.len() && i < b.len()
        invariant
            i <= a@.len(),
            i <= b@.len(),
            a@.subrange(0, i as int) == b@.subrange(0, i as int),
            text_lt(a@, b@) == text_lt(a@.subrange(i as int, a@.len() as int), b@.subrange(
                i as int,
                b@.len() as int,
            )),
        decreases a.len() - i,
    {
        if a[i] != b[i] {
            return a[i] < b[i];
        }
        proof {
            let ta = a@.subrange(i as int, a@.len() as int);
            let tb = b@.subrange(i as int, b@.len() as int);
            assert(ta.drop_first() =~= a@.subrange(i + 1, a@.len() as int));
            assert(tb.drop_first() =~= b@.subrange(i + 1, b@.len() as int));
            assert(a@.subrange(0, i + 1) =~= a@.subrange(0, i as int).push(a@[i as int]));
            assert(b@.subrange(0, i + 1) =~= b@.subrange(0, i as int).push(b@[i as int]));
        }
        i = i + 1;
    }
    i == a.len() && i < b.len()
}

/// `order` lists the indices of the entries of `es` that are not hidden, each once, folders
/// first, each kind by lower-case name, ties in reading order.
pub open spec fn arranged(es: Seq<DirEntry>, order: Seq<usize>) -> bool {
    &&& forall|a: int| 0 <= a < order.len() ==> order[a] < es.len() && !hidden(es[order[a] as int].name@)
    &&& forall|i: int| 0 <= i < es.len() && !hidden(es[i].name@) ==> order.contains(i as usize)
    &&& forall|a: int, b: int| 0 <= a < b < order.len() ==> listed_before(es, order[a] as int, order[b] as int)
}

/// The node of the tree for entry `e`, whose path is `id`: a folder carries the nodes of
/// its own entries (`children`) and is expanded when `id` is among the `expanded` folders;
/// a file has no children and is never expanded.
pub open spec fn item_spec(v: NodeView, e: DirEntry, id: Seq<PartView>, children: Seq<FileNode>, expanded: Seq<DocPath>) -> bool {
    &&& v.id == id
    &&& v.label == e.name@
    &&& v.is_dir == e.is_dir
    &&& v.expanded == (e.is_dir && ids_view(expanded).contains(id))
    &&& v.children == (if e.is_dir { node_views(children) } else { Seq::empty() })
}

/// The order in which the tree lists the entries of one folder: the indices of the entries
/// that are not hidden, folders first, each kind by lower-case name, ties in reading order.
pub fn arrange_entries(es: &Vec<DirEntry>) -> (r: Vec<usize>)
    ensures
        arranged(es@, r@),
{
    let mut keys: Vec<Vec<char>> = Vec::new();
    let mut i: usize = 0;
    while i < es.len()
        invariant
            i <= es@.len(),
            keys@.len() == i,
            forall|j: int| 0 <= j < i ==> (#[trigger] keys@[j])@ == str_lowercase(es@[j].name@),
        decreases es.len() - i,
    {
        let lowered = crate::text::lowercase(es[i].name.as_str());
        keys.push(chars_of(lowered.as_str()));
        i = i + 1;
    }
    let mut r: Vec<usize> = Vec::new();
    let mut i: usize = 0;
    while i < es.len()
        invariant
            i <= es@.len(),
            keys@.len() == es@.len(),
            forall|j: int| 0 <= j < es@.len() ==> (#[trigger] keys@[j])@ == str_lowercase(es@[j].name@),
            forall|a: int| 0 <= a < r@.len() ==> r@[a] < i && !hidden(es@[r@[a] as int].name@),
            forall|j: int| 0 <= j < i && !hidden(es@[j].name@) ==> r@.contains(j as usize),
            forall|a: int, b: int|
                0 <= a < b < r@.len() ==> listed_before(es@, r@[a] as int, r@[b] as int),
        decreases es.len() - i,
    {
        let name = chars_of(es[i].name.as_str());
        if name.len() > 0 && name[0] == '.' {
            i = i + 1;
            continue;
        }
        let mut p: usize = 0;
        while p < r.len()
            invariant
                p <= r@.len(),
                i < es@.len(),
                keys@.len() == es@.len(),
                forall|j: int| 0 <= j < es@.len() ==> (#[trigger] keys@[j])@ == str_lowercase(es@[j].name@),
                forall|a: int| 0 <= a < r@.len() ==> r@[a] < i,
                forall|a: int| 0 <= a < p ==> !listed_before(es@, i as int, r@[a] as int),
            ensures
                p <= r@.len(),
                forall|a: int| 0 <= a < p ==> !listed_before(es@, i as int, r@[a] as int),
                p < r@.len() ==> listed_before(es@, i as int, r@[p as int] as int),
            decreases r.len() - p,
        {
            let j = r[p];
            let before = if es[i].is_dir != es[j].is_dir {
                es[i].is_dir
            } else if key_lt(&keys[i], &keys[j]) {
                true
            } else {
                false
            };
            proof {
                let ki = str_lowercase(es@[i as int].name@);
                let kj = str_lowercase(es@[j as int].name@);
                if es@[i as int].is_dir == es@[j as int].is_dir && !text_lt(ki, kj) && ki == kj {
                    assert(!listed_before(es@, i as int, j as int));
                }
                if es@[i as int].is_dir == es@[j as int].is_dir && text_lt(ki, kj) {
                    lemma_text_lt_irreflexive(ki);
                }
                assert(j < i);
                assert(before == listed_before(es@, i as int, j as int));
            }
            if before {
                break;
            }
            p = p + 1;
        }
        let ghost old_r = r@;
        proof {
            assert forall|a: int| 0 <= a < p implies listed_before(es@, old_r[a] as int, i as int) by {
                lemma_listed_total(es@, i as int, old_r[a] as int);
            }
            assert forall|a: int| p <= a < old_r.len() implies listed_before(es@, i as int, old_r[a] as int) by {
                if a > p {
                    lemma_listed_transitive(es@, i as int, old_r[p as int] as int, old_r[a] as int);
                }
            }
        }
        r.insert(p, i);
        proof {
            assert forall|a: int, b: int|
                0 <= a < b < r@.len() implies listed_before(es@, r@[a] as int, r@[b] as int) by {
                if b < p {
                    assert(r@[a] == old_r[a] && r@[b] == old_r[b]);
                } else if b == p {
                    assert(r@[a] == old_r[a]);
                } else if a < p {
                    assert(r@[a] == old_r[a] && r@[b] == old_r[b - 1]);
                    lemma_listed_transitive(es@, old_r[a] as int, i as int, old_r[b - 1] as int);
                } else if a == p {
                    assert(r@[b] == old_r[b - 1]);
                } else {
                    assert(r@[a] == old_r[a - 1] && r@[b] == old_r[b - 1]);
                }
            }
            assert forall|j: int| 0 <= j < i + 1 && !hidden(es@[j].name@) implies r@.contains(j as usize) by {
                if j == i {
                    assert(r@[p as int] == i);
                } else {
                    assert(old_r.contains(j as usize));
                    let a = choose|a: int| 0 <= a < old_r.len() && old_r[a] == j as usize;
                    if a < p {
                        assert(r@[a] == j as usize);
                    } else {
                        assert(r@[a + 1] == j as usize);
                    }
                }
            }
        }
        i = i + 1;
    }
    r
}

/// There is one view per node.
proof fn lemma_node_views_len(ns: Seq<FileNode>)
    ensures
        node_views(ns).len() == ns.len(),
    decreases ns.len(),
{
    if ns.len() > 0 {
        lemma_node_views_len(ns.drop_last());
    }
}

/// The nodes of one folder of the tree. `entries` are the folder's entries as read, `ids`
/// their paths, `children[i]` the nodes of entry `i`'s own folder (only read for folders
/// that are listed), and `expanded` the folders recorded as expanded. The nodes come in the
/// order of [`arrange_entries`], each built as [`item_spec`] states.
pub fn file_items(entries: &Vec<DirEntry>, ids: &Vec<DocPath>, children: Vec<Vec<FileNode>>, expanded: &Vec<DocPath>) -> (r: Vec<FileNode>)
    requires
        ids@.len() == entries@.len(),
        children@.len() == entries@.len(),
    ensures
        exists|order: Seq<usize>| {
            &&& arranged(entries@, order)
            &&& r@.len() == order.len()
            &&& forall|a: int| 0 <= a < order.len() ==> item_spec(
                #[trigger] node_views(r@)[a],
                entries@[order[a] as int],
                ids@[order[a] as int]@,
                children@[order[a] as int]@,
                expanded@,
            )
        },
{
    let order = arrange_entries(entries);
    let ghost orig = children@;
    let mut children = children;
    let mut out: Vec<FileNode> = Vec::new();
    let mut k: usize = 0;
    while k < order.len()
        invariant
            k <= order@.len(),
            arranged(entries@, order@),
            ids@.len() == entries@.len(),
            orig.len() == entries@.len(),
            children@.len() == entries@.len(),
            forall|j: int|
                #![trigger children@[j]]
                0 <= j < orig.len() && (forall|a: int| 0 <= a < k ==> order@[a] != j) ==> children@[j] == orig[j],
            out@.len() == k,
            forall|a: int| 0 <= a < k ==> item_spec(
                #[trigger] node_views(out@)[a],
                entries@[order@[a] as int],
                ids@[order@[a] as int]@,
                orig[order@[a] as int]@,
                expanded@,
            ),
        decreases order.len() - k,
    {
        let ix = order[k];
        proof {
            assert forall|a: int| 0 <= a < k implies order@[a] != ix by {
                assert(listed_before(entries@, order@[a] as int, order@[k as int] as int));
            }
        }
        assert(children@[ix as int] == orig[ix as int]);
        let kids = children.remove(ix);
        children.insert(ix, Vec::new());
        let id = ids[ix].duplicate();
        let is_dir = entries[ix].is_dir;
        let open = if is_dir { is_expanded(expanded, &id) } else { false };
        let node = FileNode {
            id,
            label: entries[ix].name.clone(),
            is_dir,
            expanded: open,
            children: if is_dir { kids } else { Vec::new() },
        };
        let ghost before = out@;
        out.push(node);
        proof {
            assert(out@.drop_last() =~= before);
            lemma_node_views_len(before);
            let n = out@.last();
            assert(node_views(out@) == node_views(before).push(
                NodeView {
                    id: n.id@,
                    label: n.label@,
                    is_dir: n.is_dir,
                    expanded: n.expanded,
                    children: node_views(n.children@),
                },
            ));
            if !is_dir {
                assert(node_views(Seq::<FileNode>::empty()) =~= Seq::<NodeView>::empty());
            }
            assert forall|j: int|
                #![trigger children@[j]]
                0 <= j < orig.len() && (forall|a: int| 0 <= a < k + 1 ==> order@[a] != j) implies children@[j] == orig[j] by {
                assert(order@[k as int] != j);
            }
        }
        k = k + 1;
    }
    out
}

/// A file or folder being dragged in the tree.
pub struct DragFile {
    pub path: DocPath,
}

/// Where a dragged path lands when dropped on `target`: under it, with its own name; a
/// path that does not end in a name goes nowhere.
pub open spec fn drop_destination_spec(dragged: Seq<PartView>, target: Seq<PartView>) -> Option<Seq<PartView>> {
    if dragged.len() > 0 && dragged.last() is Normal {
        Some(crate::paths::join(target, seq![dragged.last()]))
    } else {
        None
    }
}

impl DragFile {
    /// Where the dragged path lands when dropped on the folder `target`.
    pub fn drop_destination(&self, target: &DocPath) -> (r: Option<DocPath>)
        ensures
            match r {
                Some(d) => drop_destination_spec(self.path@, target@) == Some(d@),
                None => drop_destination_spec(self.path@, target@) is None,
            },
    {
        let n = self.path.parts.len();
        if n == 0 {
            return None;
        }
        match &self.path.parts[n - 1] {
            crate::paths::PathPart::Normal(name) => {
                let name_path = DocPath::from_parts(vec![crate::paths::PathPart::Normal(name.clone())]);
                assert(name_path@ =~= seq![self.path@.last()]);
                Some(target.join(&name_path))
            },
            _ => None,
        }
    }
}

/// The folder holding `p` (`Path::parent`): `p` without its last component, when that
/// component is a name, `.` or `..`.
pub open spec fn parent_of(p: Seq<PartView>) -> Option<Seq<PartView>> {
    if crate::paths::can_pop(p) {
        Some(p.drop_last())
    } else {
        None
    }
}

/// The path a rename of `target` to `name` asks for: `name` beside `target`, unless that
/// is `target` itself or `target` has no parent.
pub open spec fn rename_destination_spec(target: Seq<PartView>, name: Seq<PartView>) -> Option<Seq<PartView>> {
    match parent_of(target) {
        Some(parent) => if crate::paths::join(parent, name) != target {
            Some(crate::paths::join(parent, name))
        } else {
            None
        },
        None => None,
    }
}

/// The path renaming `target` to `name` asks for; the vault then picks a free name near it.
pub fn rename_destination(target: &DocPath, name: &str) -> (r: Option<DocPath>)
    ensures
        match r {
            Some(d) => rename_destination_spec(
                target@,
                crate::paths::std_path_components(name@),
            ) == Some(d@),
            None => rename_destination_spec(
                target@,
                crate::paths::std_path_components(name@),
            ) is None,
        },
{
    let n = target.parts.len();
    if n == 0 {
        return None;
    }
    let poppable = match &target.parts[n - 1] {
        crate::paths::PathPart::Normal(_) => true,
        crate::paths::PathPart::Current => true,
        crate::paths::PathPart::Parent => true,
        _ => false,
    };
    if !poppable {
        return None;
    }
    let mut parts: Vec<crate::paths::PathPart> = Vec::new();
    let mut i: usize = 0;
    while i < n - 1
        invariant
            n == target.parts@.len(),
            n > 0,
            i <= n - 1,
            crate::paths::parts_view(parts@) == target@.subrange(0, i as int),
        decreases n - 1 - i,
    {
        let part = target.parts[i].duplicate();
        proof {
            assert(crate::paths::parts_view(parts@.push(part)) =~= crate::paths::parts_view(
                parts@,
            ).push(part@));
            assert(target@.subrange(0, i + 1) =~= target@.subrange(0, i as int).push(target@[i as int]));
        }
        parts.push(part);
        i = i + 1;
    }
    let parent = DocPath::from_parts(parts);
    assert(parent@ =~= target@.drop_last());
    let candidate = parent.join(&DocPath::parse(name));
    if candidate.same(target) {
        None
    } else {
        Some(candidate)
    }
}

/// What Enter does on the selected row of the tree.
#[derive(Clone, Copy, Debug, PartialEq, Eq, Structural)]
pub enum EnterAction {
    /// Collapse the expanded folder.
    Collapse,
    /// Expand the collapsed folder.
    Expand,
    /// Open the file, in a new tab when the platform modifier is held.
    Open { new_tab: bool },
}

/// What Enter does on a row: a folder toggles, a file opens.
pub fn enter_action(is_folder: bool, is_expanded: bool, platform_modifier: bool) -> (r: EnterAction)
    ensures
        r == (if is_folder {
            if is_expanded {
                EnterAction::Collapse
            } else {
                EnterAction::Expand
            }
        } else {
            EnterAction::Open { new_tab: platform_modifier }
        }),
{
    if is_folder {
        if is_expanded {
            EnterAction::Collapse
        } else {
            EnterAction::Expand
        }
    } else {
        EnterAction::Open { new_tab: platform_modifier }
    }
}

/// Whether the folder `id` is recorded as expanded.
pub fn is_expanded(ids: &Vec<DocPath>, id: &DocPath) -> (r: bool)
    ensures
        r == ids_view(ids@).contains(id@),
{
    let ghost v = ids_view(ids@);
    let mut i: usize = 0;
    while i < ids.len()
        invariant
            i <= ids@.len(),
            v == ids_view(ids@),
            forall|j: int| 0 <= j < i ==> v[j] != id@,
        decreases ids.len() - i,
    {
        if ids[i].same(id) {
            assert(v[i as int] == id@);
            return true;
        }
        i = i + 1;
    }
    assert(!v.contains(id@)) by {
        if v.contains(id@) {
            let k = choose|k: int| 0 <= k < v.len() && v[k] == id@;
            assert(v[k] != id@);
        }
    }
    false
}

/// Where a new file or folder goes: the tree's selection, else the active tab's document,
/// else the last selection in the sidebar.
pub fn resolve_target(selected: Option<&DocPath>, active: Option<&DocPath>, last_selection: Option<&DocPath>) -> (r: Option<DocPath>)
    ensures
        match r {
            Some(t) => match selected {
                Some(s) => t@ == s@,
                None => match active {
                    Some(a) => t@ == a@,
                    None => match last_selection {
                        Some(l) => t@ == l@,
                        None => false,
                    },
                },
            },
            None => selected is None && active is None && last_selection is None,
        },
{
    match selected {
        Some(s) => Some(s.duplicate()),
        None => match active {
            Some(a) => Some(a.duplicate()),
            None => match last_selection {
                Some(l) => Some(l.duplicate()),
                None => None,
            },
        },
    }
}

/// The name of a quick-created file of the given extension: `New Note.<extension>`.
pub fn quick_file_name(extension: &str) -> (r: String)
    ensures
        r@ == "New Note."@ + extension@,
{
    let mut r = string_of("New Note.");
    push_str(&mut r, extension);
    r
}

/// What a quick-created file starts with: a Base starts with one table view of all files;
/// every other kind starts empty.
pub fn quick_file_content(extension: &str) -> (r: Option<&'static str>)
    ensures
        match r {
            Some(c) => extension@ == "base"@ && c@ == "views:\n  - type: table\n    name: All files\n"@,
            None => extension@ != "base"@,
        },
{
    if crate::text::str_eq(extension, "base") {
        Some("views:\n  - type: table\n    name: All files\n")
    } else {
        None
    }
}
} // verus!
