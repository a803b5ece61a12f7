//! The workspace's open tabs: which documents are open, which one is active, and how the
//! selection moves when tabs are opened, replaced, closed or renamed.

use vstd::prelude::*;

use crate::paths::{normalized, opt_view, rebase, starts_with, DocPath, PartView};

verus! {

/// The identity of a workspace tab, stable across navigation and restarts.
#[derive(Clone, Copy, Debug, PartialEq, Eq, Structural, Hash)]
pub struct TabId(pub u64);

/// How a document handler presents a document.
#[derive(Clone, Copy, Debug, PartialEq, Eq, Structural)]
pub enum ViewMode {
    Edit,
    View,
}

/// One open tab: the document it shows, the handler that shows it, and its own
/// back/forward history.
pub struct Tab<H> {
    id: TabId,
    path: DocPath,
    handler: H,
    history: Vec<DocPath>,
    history_position: usize,
}

/// The mathematical value of a [`Tab`].
pub struct TabView<H> {
    pub id: TabId,
    pub path: Seq<PartView>,
    pub handler: H,
    pub history: Seq<Seq<PartView>>,
    pub history_position: usize,
}

pub open spec fn paths_view(paths: Seq<DocPath>) -> Seq<Seq<PartView>> {
    paths.map_values(|p: DocPath| p@)
}

impl<H> View for Tab<H> {
    type V = TabView<H>;

    closed spec fn view(&self) -> TabView<H> {
        TabView {
            id: self.id,
            path: self.path@,
            handler: self.handler,
            history: paths_view(self.history@),
            history_position: self.history_position,
        }
    }
}

impl<H> Tab<H> {
    /// A tab showing `path` through `handler`, with the given history and position in it.
    pub fn new(id: TabId, path: DocPath, handler: H, history: Vec<DocPath>, history_position: usize) -> (r: Tab<H>)
        ensures
            r@ == (TabView {
                id,
                path: path@,
                handler,
                history: paths_view(history@),
                history_position,
            }),
    {
        Tab { id, path, handler, history, history_position }
    }

    pub fn id(&self) -> (r: &TabId)
        ensures
            *r == self@.id,
    {
        &self.id
    }

    pub fn path(&self) -> (r: &DocPath)
        ensures
            r@ == self@.path,
    {
        &self.path
    }

    pub fn handler(&self) -> (r: &H)
        ensures
            *r == self@.handler,
    {
        &self.handler
    }

    pub fn history(&self) -> (r: &Vec<DocPath>)
        ensures
            paths_view(r@) == self@.history,
    {
        &self.history
    }

    pub fn history_position(&self) -> (r: usize)
        ensures
            r == self@.history_position,
    {
        self.history_position
    }
}

/// The open tabs and the index of the active one.
pub struct Tabs<H> {
    entries: Vec<Tab<H>>,
    active: Option<usize>,
}

/// The mathematical value of [`Tabs`].
pub struct TabsView<H> {
    pub entries: Seq<TabView<H>>,
    pub active: Option<usize>,
}

pub open spec fn tabs_view<H>(entries: Seq<Tab<H>>) -> Seq<TabView<H>> {
    entries.map_values(|t: Tab<H>| t@)
}

impl<H> View for Tabs<H> {
    type V = TabsView<H>;

    closed spec fn view(&self) -> TabsView<H> {
        TabsView { entries: tabs_view(self.entries@), active: self.active }
    }
}

/// Two paths name the same document: neither is empty and their normalised absolute
/// forms are equal.
pub open spec fn same_document_spec(
    left: Seq<PartView>,
    right: Seq<PartView>,
    cwd: Option<Seq<PartView>>,
) -> bool {
    left.len() > 0 && right.len() > 0 && normalized(left, cwd) == normalized(right, cwd)
}

/// The stored active index, when it designates an open tab.
pub open spec fn active_index_spec<H>(t: TabsView<H>) -> Option<usize> {
    match t.active {
        Some(i) => if i < t.entries.len() {
            Some(i)
        } else {
            None
        },
        None => None,
    }
}

/// The index of the first tab showing the same document as `path`.
pub open spec fn first_same_document<H>(
    entries: Seq<TabView<H>>,
    path: Seq<PartView>,
    cwd: Option<Seq<PartView>>,
    i: int,
) -> bool {
    0 <= i < entries.len() && same_document_spec(entries[i].path, path, cwd) && forall|j: int|
        0 <= j < i ==> !same_document_spec(#[trigger] entries[j].path, path, cwd)
}

/// The active index after removing the tab at `removed`, leaving `remaining` tabs: the
/// same tab stays active when it survives, the tab that takes the removed one's place
/// (or the new last tab) otherwise, and nothing when no tab is left.
pub open spec fn active_after_removal_spec(
    active: Option<usize>,
    removed: usize,
    remaining: usize,
) -> Option<usize> {
    if remaining == 0 {
        None
    } else {
        match active {
            Some(a) => if a > removed {
                Some((a - 1) as usize)
            } else if a < remaining {
                Some(a)
            } else {
                Some((remaining - 1) as usize)
            },
            None => Some(0),
        }
    }
}

/// The selection after a tab is removed, as [`active_after_removal_spec`] states.
pub fn active_after_removal(active: Option<usize>, removed: usize, remaining: usize) -> (r: Option<usize>)
    ensures
        r == active_after_removal_spec(active, removed, remaining),
{
    if remaining == 0 {
        return None;
    }
    match active {
        Some(a) => if a > removed {
            Some(a - 1)
        } else {
            Some(if a < remaining - 1 { a } else { remaining - 1 })
        },
        None => Some(0),
    }
}

/// Whether two paths name the same document.
pub fn same_document(left: &DocPath, right: &DocPath, cwd: Option<&DocPath>) -> (r: bool)
    ensures
        r == same_document_spec(left@, right@, opt_view(cwd)),
{
    if left.is_empty() || right.is_empty() {
        return false;
    }
    left.normalized(cwd).same(&right.normalized(cwd))
}

/// The normalised absolute form of `path`; `cwd` is the working directory when it is
/// known.
pub fn normalized_path(path: &DocPath, cwd: Option<&DocPath>) -> (r: DocPath)
    ensures
        r@ == normalized(path@, opt_view(cwd)),
{
    path.normalized(cwd)
}

impl<H> Tabs<H> {
    /// No tab open.
    pub fn new() -> (r: Tabs<H>)
        ensures
            r@.entries.len() == 0,
            r@.active is None,
            tabs_wf(r@),
    {
        Tabs { entries: Vec::new(), active: None }
    }

    pub fn len(&self) -> (r: usize)
        ensures
            r == self@.entries.len(),
    {
        self.entries.len()
    }

    pub fn is_empty(&self) -> (r: bool)
        ensures
            r == (self@.entries.len() == 0),
    {
        self.entries.len() == 0
    }

    /// The tab at `index`.
    pub fn get(&self, index: usize) -> (r: Option<&Tab<H>>)
        ensures
            match r {
                Some(t) => index < self@.entries.len() && t@ == self@.entries[index as int],
                None => index >= self@.entries.len(),
            },
    {
        if index < self.entries.len() {
            Some(&self.entries[index])
        } else {
            None
        }
    }

    /// The active index, when it designates an open tab.
    pub fn active_index(&self) -> (r: Option<usize>)
        ensures
            r == active_index_spec(self@),
    {
        match self.active {
            Some(i) => if i < self.entries.len() {
                Some(i)
            } else {
                None
            },
            None => None,
        }
    }

    /// The active tab.
    pub fn active(&self) -> (r: Option<&Tab<H>>)
        ensures
            match r {
                Some(t) => active_index_spec(self@) is Some && t@ == self@.entries[active_index_spec(
                    self@,
                )->0 as int],
                None => active_index_spec(self@) is None,
            },
    {
        match self.active_index() {
            Some(i) => Some(&self.entries[i]),
            None => None,
        }
    }

    /// The document of the active tab, unless that tab is empty.
    pub fn active_path(&self) -> (r: Option<&DocPath>)
        ensures
            match r {
                Some(p) => active_index_spec(self@) is Some && p@ == self@.entries[active_index_spec(
                    self@,
                )->0 as int].path && p@.len() > 0,
                None => active_index_spec(self@) is None || self@.entries[active_index_spec(
                    self@,
                )->0 as int].path.len() == 0,
            },
    {
        match self.active() {
            Some(tab) => if tab.path.is_empty() {
                None
            } else {
                Some(&tab.path)
            },
            None => None,
        }
    }

    /// The handler of the active tab.
    pub fn active_handler(&self) -> (r: Option<&H>)
        ensures
            match r {
                Some(h) => active_index_spec(self@) is Some && *h == self@.entries[active_index_spec(
                    self@,
                )->0 as int].handler,
                None => active_index_spec(self@) is None,
            },
    {
        match self.active() {
            Some(tab) => Some(&tab.handler),
            None => None,
        }
    }

    /// The identity of the active tab.
    pub fn active_tab_id(&self) -> (r: Option<TabId>)
        ensures
            match r {
                Some(id) => active_index_spec(self@) is Some && id == self@.entries[active_index_spec(
                    self@,
                )->0 as int].id,
                None => active_index_spec(self@) is None,
            },
    {
        match self.active() {
            Some(tab) => Some(tab.id),
            None => None,
        }
    }

    /// The index of the first tab that shows the same document as `path`.
    fn position_of_document(&self, path: &DocPath, cwd: Option<&DocPath>) -> (r: Option<usize>)
        ensures
            match r {
                Some(i) => first_same_document(self@.entries, path@, opt_view(cwd), i as int),
                None => forall|j: int|
                    0 <= j < self@.entries.len() ==> !same_document_spec(
                        #[trigger] self@.entries[j].path,
                        path@,
                        opt_view(cwd),
                    ),
            },
    {
        let mut i: usize = 0;
        while i < self.entries.len()
            invariant
                i <= self.entries.len(),
                forall|j: int|
                    0 <= j < i ==> !same_document_spec(
                        #[trigger] self@.entries[j].path,
                        path@,
                        opt_view(cwd),
                    ),
            decreases self.entries.len() - i,
        {
            if same_document(&self.entries[i].path, path, cwd) {
                return Some(i);
            }
            i = i + 1;
        }
        None
    }

    /// The handler of the first tab that shows the same document as `path`.
    pub fn handler_for_path(&self, path: &DocPath, cwd: Option<&DocPath>) -> (r: Option<&H>)
        ensures
            match r {
                Some(h) => exists|i: int|
                    first_same_document(self@.entries, path@, opt_view(cwd), i) && *h
                        == self@.entries[i].handler,
                None => forall|j: int|
                    0 <= j < self@.entries.len() ==> !same_document_spec(
                        #[trigger] self@.entries[j].path,
                        path@,
                        opt_view(cwd),
                    ),
            },
    {
        match self.position_of_document(path, cwd) {
            Some(i) => Some(&self.entries[i].handler),
            None => None,
        }
    }

    /// The paths of all tabs, in order.
    pub fn open_paths(&self) -> (r: Vec<DocPath>)
        ensures
            r@.len() == self@.entries.len(),
            forall|i: int| 0 <= i < r@.len() ==> (#[trigger] r@[i])@ == self@.entries[i].path,
    {
        let mut r: Vec<DocPath> = Vec::new();
        let mut i: usize = 0;
        while i < self.entries.len()
            invariant
                i <= self.entries.len(),
                r@.len() == i,
                forall|j: int| 0 <= j < i ==> (#[trigger] r@[j])@ == self@.entries[j].path,
            decreases self.entries.len() - i,
        {
            r.push(self.entries[i].path.duplicate());
            i = i + 1;
        }
        r
    }

    /// Makes the tab at `index` active; `false` when there is no such tab.
    pub fn select(&mut self, index: usize) -> (r: bool)
        ensures
            r == (index < old(self)@.entries.len()),
            final(self)@.entries == old(self)@.entries,
            final(self)@.active == (if r {
                Some(index)
            } else {
                old(self)@.active
            }),
            tabs_wf(old(self)@) ==> tabs_wf(final(self)@),
    {
        if index >= self.entries.len() {
            return false;
        }
        self.active = Some(index);
        true
    }

    /// Makes the last tab active; `false` when no tab is open.
    pub fn select_last(&mut self) -> (r: bool)
        ensures
            r == (old(self)@.entries.len() > 0),
            final(self)@.entries == old(self)@.entries,
            final(self)@.active == (if r {
                Some((old(self)@.entries.len() - 1) as usize)
            } else {
                old(self)@.active
            }),
            tabs_wf(old(self)@) ==> tabs_wf(final(self)@),
    {
        if self.entries.len() == 0 {
            return false;
        }
        self.active = Some(self.entries.len() - 1);
        true
    }

    /// The tab to focus for `path`: the active tab when it already shows that document,
    /// the first tab that shows it otherwise, and none for the empty path.
    pub fn find_path(&self, path: &DocPath, cwd: Option<&DocPath>) -> (r: Option<usize>)
        ensures
            path@.len() == 0 ==> r is None,
            path@.len() > 0 ==> match r {
                Some(i) => (active_index_spec(self@) == Some(i) && same_document_spec(
                    self@.entries[i as int].path,
                    path@,
                    opt_view(cwd),
                )) || ((active_index_spec(self@) is None || !same_document_spec(
                    self@.entries[active_index_spec(self@)->0 as int].path,
                    path@,
                    opt_view(cwd),
                )) && first_same_document(self@.entries, path@, opt_view(cwd), i as int)),
                None => forall|j: int|
                    0 <= j < self@.entries.len() ==> !same_document_spec(
                        #[trigger] self@.entries[j].path,
                        path@,
                        opt_view(cwd),
                    ),
            },
    {
        if path.is_empty() {
            return None;
        }
        if let Some(index) = self.active_index() {
            if same_document(&self.entries[index].path, path, cwd) {
                return Some(index);
            }
        }
        self.position_of_document(path, cwd)
    }

    /// Makes the tab with identity `id` active; `false` when no tab has it.
    pub fn select_by_id(&mut self, id: &TabId) -> (r: bool)
        ensures
            final(self)@.entries == old(self)@.entries,
            r == exists|i: int| 0 <= i < old(self)@.entries.len() && old(self)@.entries[i].id == *id,
            r ==> (final(self)@.active matches Some(i) && i < old(self)@.entries.len()
                && old(self)@.entries[i as int].id == *id && forall|j: int|
                0 <= j < i ==> old(self)@.entries[j].id != *id),
            !r ==> final(self)@.active == old(self)@.active,
            tabs_wf(old(self)@) ==> tabs_wf(final(self)@),
    {
        let mut i: usize = 0;
        while i < self.entries.len()
            invariant
                i <= self.entries.len(),
                self@ == old(self)@,
                forall|j: int| 0 <= j < i ==> self@.entries[j].id != *id,
            decreases self.entries.len() - i,
        {
            if self.entries[i].id == *id {
                assert(self@.entries[i as int].id == self.entries@[i as int].id);
                self.active = Some(i);
                return true;
            }
            i = i + 1;
        }
        false
    }

    /// Closes every tab.
    pub fn clear(&mut self)
        ensures
            final(self)@.entries.len() == 0,
            final(self)@.active is None,
            tabs_wf(final(self)@),
    {
        self.entries.clear();
        self.active = None;
    }

    /// Opens `tab`: as a new active tab when `new_tab` is set or nothing is open, in place
    /// of the active tab otherwise. With neither a new tab nor an active tab, nothing
    /// changes.
    pub fn insert(&mut self, tab: Tab<H>, new_tab: bool)
        ensures
            (new_tab || old(self)@.entries.len() == 0) ==> final(self)@.entries == old(
                self,
            )@.entries.push(tab@) && final(self)@.active == Some(old(self)@.entries.len() as usize),
            !(new_tab || old(self)@.entries.len() == 0) ==> match active_index_spec(old(self)@) {
                Some(a) => final(self)@.entries == old(self)@.entries.update(a as int, tab@)
                    && final(self)@.active == old(self)@.active,
                None => final(self)@ == old(self)@,
            },
            selection_valid(old(self)@) ==> selection_valid(final(self)@),
            tabs_wf(old(self)@) && tab_wf(tab@) ==> tabs_wf(final(self)@),
    {
        if new_tab || self.entries.len() == 0 {
            let index = self.entries.len();
            self.entries.push(tab);
            self.active = Some(index);
            assert(tabs_view(self.entries@) =~= tabs_view(old(self).entries@).push(tab@));
        } else if let Some(active) = self.active_index() {
            self.entries.set(active, tab);
            assert(tabs_view(self.entries@) =~= tabs_view(old(self).entries@).update(
                active as int,
                tab@,
            ));
        }
    }

    /// Closes the tab at `index`; `false` when there is no such tab. The selection follows
    /// [`active_after_removal_spec`].
    pub fn remove(&mut self, index: usize) -> (r: bool)
        ensures
            r == (index < old(self)@.entries.len()),
            r ==> final(self)@.entries == old(self)@.entries.remove(index as int),
            r ==> final(self)@.active == active_after_removal_spec(
                old(self)@.active,
                index,
                (old(self)@.entries.len() - 1) as usize,
            ),
            !r ==> final(self)@ == old(self)@,
            selection_valid(old(self)@) ==> selection_valid(final(self)@),
            tabs_wf(old(self)@) ==> tabs_wf(final(self)@),
    {
        if index >= self.entries.len() {
            return false;
        }
        let active = self.active;
        self.entries.remove(index);
        self.active = active_after_removal(active, index, self.entries.len());
        assert(tabs_view(self.entries@) =~= tabs_view(old(self).entries@).remove(index as int));
        true
    }

    /// Moves every tab path and history entry that lies under `old_path` to `new_path`.
    pub fn rename_path(&mut self, old_path: &DocPath, new_path: &DocPath)
        ensures
            tabs_renamed(old(self)@, final(self)@, old_path@, new_path@),
            tabs_wf(old(self)@) ==> tabs_wf(final(self)@),
    {
        let mut i: usize = 0;
        while i < self.entries.len()
            invariant
                i <= self.entries.len(),
                self.active == old(self).active,
                self.entries.len() == old(self).entries.len(),
                forall|j: int|
                    #![trigger self@.entries[j]]
                    i <= j < self.entries.len() ==> self@.entries[j] == old(self)@.entries[j],
                forall|j: int|
                    #![trigger self@.entries[j]]
                    0 <= j < i ==> {
                        let before = old(self)@.entries[j];
                        let after = self@.entries[j];
                        &&& after.id == before.id
                        &&& after.handler == before.handler
                        &&& after.history_position == before.history_position
                        &&& after.path == rebase(before.path, old_path@, new_path@)
                        &&& after.history.len() == before.history.len()
                        &&& forall|k: int|
                            0 <= k < before.history.len() ==> #[trigger] after.history[k]
                                == rebase(before.history[k], old_path@, new_path@)
                    },
            decreases self.entries.len() - i,
        {
            let new_tab_path = self.entries[i].path.rebase(old_path, new_path);
            let mut history: Vec<DocPath> = Vec::new();
            let mut k: usize = 0;
            while k < self.entries[i].history.len()
                invariant
                    i < self.entries.len(),
                    k <= self.entries[i as int].history.len(),
                    history@.len() == k,
                    forall|m: int|
                        0 <= m < k ==> (#[trigger] history@[m])@ == rebase(
                            self.entries[i as int].history@[m]@,
                            old_path@,
                            new_path@,
                        ),
                decreases self.entries[i as int].history.len() - k,
            {
                history.push(self.entries[i].history[k].rebase(old_path, new_path));
                k = k + 1;
            }
            let ghost before = self@.entries[i as int];
            let ghost old_entries = self.entries@;
            let ghost old_view = self@;
            self.entries[i].path = new_tab_path;
            self.entries[i].history = history;
            proof {
                assert(self.entries@.len() == old_entries.len());
                assert(forall|j: int| 0 <= j < old_entries.len() && j != i ==> self.entries@[j] == old_entries[j]);
                assert(self.entries@[i as int].id == old_entries[i as int].id);
                assert(self.entries@[i as int].handler == old_entries[i as int].handler);
                assert forall|j: int| 0 <= j < old_entries.len() && j != i implies #[trigger] self@.entries[j]
                    == old_view.entries[j] by {
                    assert(self@.entries[j] == self.entries@[j]@);
                    assert(old_view.entries[j] == old_entries[j]@);
                }
                assert(self@.entries[i as int] == self.entries@[i as int]@);
                let after = self@.entries[i as int];
                assert(after.history.len() == before.history.len());
                assert forall|m: int| 0 <= m < before.history.len() implies #[trigger] after.history[m]
                    == rebase(before.history[m], old_path@, new_path@) by {}
            }
            i = i + 1;
        }
    }
}

/// `after` is `before` once `from` was renamed to `to`: every tab path and history entry
/// under `from` moves under `to`, and nothing else changes.
pub open spec fn tabs_renamed<H>(before: TabsView<H>, after: TabsView<H>, from: Seq<PartView>, to: Seq<PartView>) -> bool {
    &&& after.active == before.active
    &&& after.entries.len() == before.entries.len()
    &&& forall|i: int|
        #![trigger after.entries[i]]
        0 <= i < before.entries.len() ==> {
            let b = before.entries[i];
            let a = after.entries[i];
            &&& a.id == b.id
            &&& a.handler == b.handler
            &&& a.history_position == b.history_position
            &&& a.path == rebase(b.path, from, to)
            &&& a.history.len() == b.history.len()
            &&& forall|k: int|
                0 <= k < b.history.len() ==> #[trigger] a.history[k] == rebase(b.history[k], from, to)
        }
}

/// The tabs after closing, from the last to the first of the first `n` tabs, every tab whose
/// document lies under `root`.
pub open spec fn close_under_spec<H>(t: TabsView<H>, root: Seq<PartView>, n: nat) -> TabsView<H>
    decreases n,
{
    if n == 0 || n > t.entries.len() {
        t
    } else {
        let i = (n - 1) as int;
        let next = if starts_with(t.entries[i].path, root) {
            TabsView {
                entries: t.entries.remove(i),
                active: active_after_removal_spec(t.active, i as usize, (t.entries.len() - 1) as usize),
            }
        } else {
            t
        };
        close_under_spec(next, root, (n - 1) as nat)
    }
}

impl<H> Tabs<H> {
    /// Closes every tab whose document lies under `root`, from the last to the first.
    pub fn close_under(&mut self, root: &DocPath)
        ensures
            final(self)@ == close_under_spec(old(self)@, root@, old(self)@.entries.len()),
            selection_valid(old(self)@) ==> selection_valid(final(self)@),
            tabs_wf(old(self)@) ==> tabs_wf(final(self)@),
    {
        let mut n = self.entries.len();
        while n > 0
            invariant
                n <= self@.entries.len(),
                close_under_spec(self@, root@, n as nat) == close_under_spec(
                    old(self)@,
                    root@,
                    old(self)@.entries.len(),
                ),
                selection_valid(old(self)@) ==> selection_valid(self@),
                tabs_wf(old(self)@) ==> tabs_wf(self@),
            decreases n,
        {
            let i = n - 1;
            let ghost before = self@;
            if self.entries[i].path.starts_with(root) {
                assert(starts_with(before.entries[i as int].path, root@));
                self.remove(i);
            } else {
                assert(!starts_with(before.entries[i as int].path, root@));
            }
            n = i;
        }
    }

    /// After restoring a workspace: selects the tab with `active_id` when there is one,
    /// the first tab otherwise.
    pub fn select_restored(&mut self, active_id: Option<TabId>)
        ensures
            final(self)@.entries == old(self)@.entries,
            match active_id {
                Some(id) if exists|i: int|
                    0 <= i < old(self)@.entries.len() && old(self)@.entries[i].id == id => {
                    final(self)@.active matches Some(i) && i < old(self)@.entries.len()
                        && old(self)@.entries[i as int].id == id && forall|j: int|
                        0 <= j < i ==> old(self)@.entries[j].id != id
                },
                _ => if old(self)@.entries.len() > 0 {
                    final(self)@.active == Some(0usize)
                } else {
                    final(self)@.active == old(self)@.active
                },
            },
            tabs_wf(old(self)@) ==> tabs_wf(final(self)@),
    {
        let found = match active_id {
            Some(id) => self.select_by_id(&id),
            None => false,
        };
        if !found && self.entries.len() > 0 {
            self.select(0);
        }
    }
}

/// The stored selection designates an open tab or nothing.
pub open spec fn selection_valid<H>(t: TabsView<H>) -> bool {
    match t.active {
        Some(a) => a < t.entries.len(),
        None => true,
    }
}

/// A tab's position designates one of its history entries; a tab with no history (an
/// empty tab) stands at position 0.
pub open spec fn tab_wf<H>(t: TabView<H>) -> bool {
    ||| t.history_position < t.history.len()
    ||| (t.history.len() == 0 && t.history_position == 0)
}

/// What every operation on [`Tabs`] keeps: a tab is active exactly when some tab is open,
/// the active index designates an open tab, and every tab is well formed.
pub open spec fn tabs_wf<H>(t: TabsView<H>) -> bool {
    &&& (t.active is None <==> t.entries.len() == 0)
    &&& selection_valid(t)
    &&& forall|i: int| 0 <= i < t.entries.len() ==> tab_wf(#[trigger] t.entries[i])
}

/// Closing a tab leaves a valid selection, and clears it exactly when the last tab was
/// closed.
pub proof fn law_closing_keeps_a_valid_selection<H>(t: TabsView<H>, index: usize)
    requires
        selection_valid(t),
        index < t.entries.len() <= usize::MAX,
    ensures
        ({
            let after = TabsView {
                entries: t.entries.remove(index as int),
                active: active_after_removal_spec(t.active, index, (t.entries.len() - 1) as usize),
            };
            &&& selection_valid(after)
            &&& (after.active is None <==> after.entries.len() == 0)
        }),
{
}

/// Closing a tab other than the active one keeps the same tab active.
pub proof fn law_closing_another_tab_keeps_the_active_tab<H>(t: TabsView<H>, index: usize)
    requires
        selection_valid(t),
        index < t.entries.len() <= usize::MAX,
        t.active matches Some(a) && a != index,
    ensures
        ({
            let after = TabsView {
                entries: t.entries.remove(index as int),
                active: active_after_removal_spec(t.active, index, (t.entries.len() - 1) as usize),
            };
            after.active matches Some(b) && b < after.entries.len() && after.entries[b as int]
                == t.entries[t.active->0 as int]
        }),
{
}

/// Closing the active tab selects the tab that takes its place, or the new last tab.
pub proof fn law_closing_the_active_tab_selects_its_neighbour<H>(t: TabsView<H>, index: usize)
    requires
        index < t.entries.len() <= usize::MAX,
        t.entries.len() > 1,
        t.active == Some(index),
    ensures
        ({
            let after = TabsView {
                entries: t.entries.remove(index as int),
                active: active_after_removal_spec(t.active, index, (t.entries.len() - 1) as usize),
            };
            &&& index + 1 < t.entries.len() ==> after.active == Some(index) && after.entries[index as int]
                == t.entries[index + 1]
            &&& index + 1 == t.entries.len() ==> after.active == Some((index - 1) as usize)
        }),
{
}

/// With an absolute working directory, a path and that path resolved against it are the
/// same document, so a tab opened by a relative path is found again by its absolute one.
pub proof fn law_a_path_and_its_resolved_form_are_the_same_document(p: Seq<PartView>, cwd: Seq<PartView>)
    requires
        p.len() > 0,
        crate::paths::is_absolute_start(cwd),
    ensures
        same_document_spec(p, crate::paths::join(cwd, p), Some(cwd)),
{
    crate::paths::lemma_join_onto_absolute(cwd, p);
    let j = crate::paths::join(cwd, p);
    assert(j.len() > 0);
}

/// Document identity is an equivalence on non-empty paths: every non-empty path names
/// the same document as itself, the relation is symmetric and transitive, and the empty
/// path (an empty tab) names no document.
pub proof fn law_document_identity_is_an_equivalence(
    a: Seq<PartView>,
    b: Seq<PartView>,
    c: Seq<PartView>,
    cwd: Option<Seq<PartView>>,
)
    ensures
        a.len() > 0 ==> same_document_spec(a, a, cwd),
        same_document_spec(a, b, cwd) == same_document_spec(b, a, cwd),
        same_document_spec(a, b, cwd) && same_document_spec(b, c, cwd) ==> same_document_spec(a, c, cwd),
        !same_document_spec(Seq::empty(), b, cwd),
{
}

} // verus!
