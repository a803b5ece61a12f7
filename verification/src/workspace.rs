//! The saved shape of a vault's workspace, how open tabs are saved into it and restored
//! from it, and the identity checks used when a vault is opened, switched or reloaded.

use vstd::prelude::*;

use crate::paths::{join, DocPath, PartView};
use crate::tabs::{active_index_spec, tabs_wf, Tab, TabId, TabView, Tabs, TabsView, ViewMode};

verus! {

/// One tab of a saved workspace: its identity, its document (none for an empty tab) and
/// its view mode.
#[derive(Debug, PartialEq, Eq)]
pub struct WorkspaceTab {
    pub id: TabId,
    pub path: Option<DocPath>,
    pub mode: ViewMode,
}

/// A saved workspace.
pub struct Workspace {
    pub tabs: Vec<WorkspaceTab>,
    pub active_tab_id: Option<TabId>,
    pub expanded_folders: Vec<DocPath>,
    pub sidebar_selection: Option<DocPath>,
}

pub open spec fn opt_path_view(p: Option<DocPath>) -> Option<Seq<PartView>> {
    match p {
        Some(p) => Some(p@),
        None => None,
    }
}

/// Two vault paths are the same vault: their canonical forms are equal when both could be
/// resolved, the paths themselves are equal otherwise.
pub open spec fn same_vault_path_spec(
    left: Seq<PartView>,
    right: Seq<PartView>,
    left_canonical: Option<Seq<PartView>>,
    right_canonical: Option<Seq<PartView>>,
) -> bool {
    match (left_canonical, right_canonical) {
        (Some(l), Some(r)) => l == r,
        _ => left == right,
    }
}

/// Whether `left` and `right` are the same vault; `left_canonical` and `right_canonical`
/// are their canonical forms where the file system could resolve them.
pub fn same_vault_path(
    left: &DocPath,
    right: &DocPath,
    left_canonical: Option<&DocPath>,
    right_canonical: Option<&DocPath>,
) -> (r: bool)
    ensures
        r == same_vault_path_spec(
            left@,
            right@,
            crate::paths::opt_view(left_canonical),
            crate::paths::opt_view(right_canonical),
        ),
{
    match (left_canonical, right_canonical) {
        (Some(l), Some(r)) => l.same(r),
        _ => left.same(right),
    }
}

/// The workspace of a vault opened for the first time: on the very first start, a single
/// tab viewing the welcome note when that note exists, and no tab otherwise.
/// `welcome_exists` tells whether `root` joined with `welcome_note` is a file and `new_id`
/// is the identity for the welcome tab.
pub fn initial_workspace(
    root: &DocPath,
    welcome_note: &DocPath,
    first_startup: bool,
    welcome_exists: bool,
    new_id: TabId,
) -> (r: Workspace)
    ensures
        r.expanded_folders@.len() == 0,
        r.sidebar_selection is None,
        (first_startup && welcome_exists) ==> {
            &&& r.tabs@.len() == 1
            &&& r.tabs@[0].id == new_id
            &&& opt_path_view(r.tabs@[0].path) == Some(join(root@, welcome_note@))
            &&& r.tabs@[0].mode == ViewMode::View
            &&& r.active_tab_id == Some(new_id)
        },
        !(first_startup && welcome_exists) ==> r.tabs@.len() == 0 && r.active_tab_id is None,
{
    let mut tabs: Vec<WorkspaceTab> = Vec::new();
    let mut active_tab_id: Option<TabId> = None;
    if first_startup && welcome_exists {
        let welcome = root.join(welcome_note);
        tabs.push(WorkspaceTab { id: new_id, path: Some(welcome), mode: ViewMode::View });
        active_tab_id = Some(new_id);
    }
    Workspace { tabs, active_tab_id, expanded_folders: Vec::new(), sidebar_selection: None }
}

/// Whether a finished vault load still belongs to the vault on screen: the load generation
/// has not moved on and the same root is open.
pub fn is_current_vault_load(
    current_generation: u64,
    current_root: Option<&DocPath>,
    load_generation: u64,
    load_root: &DocPath,
) -> (r: bool)
    ensures
        r == (current_generation == load_generation && crate::paths::opt_view(current_root) == Some(
            load_root@,
        )),
{
    if current_generation != load_generation {
        return false;
    }
    match current_root {
        Some(root) => root.same(load_root),
        None => false,
    }
}

/// A saved tab as plain values: its identity, its document (none for an empty tab) and its
/// view mode.
pub type SavedTab = (TabId, Option<Seq<PartView>>, ViewMode);

/// The plain value of a [`WorkspaceTab`].
pub open spec fn saved_view(t: WorkspaceTab) -> SavedTab {
    (t.id, opt_path_view(t.path), t.mode)
}

/// How a tab is saved, its handler being in view mode `mode`: an empty tab without a path.
pub open spec fn saved_tab_spec<H>(t: TabView<H>, mode: ViewMode) -> SavedTab {
    (t.id, if t.path.len() == 0 { None } else { Some(t.path) }, mode)
}

/// The saved form of the tabs, `modes` being the view modes of their handlers in tab order.
pub open spec fn snapshot_tabs_spec<H>(t: TabsView<H>, modes: Seq<ViewMode>) -> Seq<SavedTab> {
    Seq::new(t.entries.len(), |i: int| saved_tab_spec(t.entries[i], modes[i]))
}

/// The identity saved as the active tab's.
pub open spec fn snapshot_active_spec<H>(t: TabsView<H>) -> Option<TabId> {
    match active_index_spec(t) {
        Some(a) => Some(t.entries[a as int].id),
        None => None,
    }
}

/// The saved form of the open tabs, with the active tab's identity. `modes` holds the view
/// mode of each tab's handler, in tab order. Empty tabs are saved without a path.
pub fn snapshot<H>(tabs: &Tabs<H>, modes: &Vec<ViewMode>) -> (r: (Vec<WorkspaceTab>, Option<TabId>))
    requires
        modes@.len() == tabs@.entries.len(),
    ensures
        r.0@.map_values(|w: WorkspaceTab| saved_view(w)) == snapshot_tabs_spec(tabs@, modes@),
        r.1 == snapshot_active_spec(tabs@),
{
    let mut out: Vec<WorkspaceTab> = Vec::new();
    let mut i: usize = 0;
    while i < tabs.len()
        invariant
            i <= tabs@.entries.len(),
            modes@.len() == tabs@.entries.len(),
            out@.map_values(|w: WorkspaceTab| saved_view(w)) == snapshot_tabs_spec(tabs@, modes@).subrange(0, i as int),
        decreases tabs@.entries.len() - i,
    {
        let tab = tabs.get(i).unwrap();
        let path = if tab.path().is_empty() {
            None
        } else {
            Some(tab.path().duplicate())
        };
        let ghost before = out@.map_values(|w: WorkspaceTab| saved_view(w));
        let w = WorkspaceTab { id: *tab.id(), path, mode: modes[i] };
        proof {
            assert(saved_view(w) == saved_tab_spec(tabs@.entries[i as int], modes@[i as int]));
            assert(out@.push(w).map_values(|w: WorkspaceTab| saved_view(w)) =~= before.push(saved_view(w)));
            assert(snapshot_tabs_spec(tabs@, modes@).subrange(0, i + 1) =~= snapshot_tabs_spec(tabs@, modes@).subrange(0, i as int).push(saved_view(w)));
        }
        out.push(w);
        i = i + 1;
    }
    assert(snapshot_tabs_spec(tabs@, modes@).subrange(0, i as int) =~= snapshot_tabs_spec(tabs@, modes@));
    (out, tabs.active_tab_id())
}

/// What restoring one saved tab does.
pub enum RestoreStep {
    /// Open the document in a tab with the saved identity and view mode.
    Open { id: TabId, path: DocPath, mode: ViewMode },
    /// Recreate the empty tab with the saved identity and view mode.
    Empty { id: TabId, mode: ViewMode },
}

/// The steps that restore the saved `tabs`, in order: a tab whose document can be opened
/// (`openable` tells, for each tab, whether its path is a supported file) is reopened, an
/// empty tab is recreated, and a tab whose document is gone is dropped.
pub open spec fn restore_steps_spec(tabs: Seq<SavedTab>, openable: Seq<bool>, n: nat) -> Seq<SavedTab>
    decreases n,
{
    if n == 0 {
        Seq::empty()
    } else {
        let before = restore_steps_spec(tabs, openable, (n - 1) as nat);
        let t = tabs[n - 1];
        match t.1 {
            Some(p) => if openable[n - 1] {
                before.push(t)
            } else {
                before
            },
            None => before.push(t),
        }
    }
}

/// A step as plain values: the tab's identity, its document (none for an empty tab) and
/// its view mode.
pub open spec fn step_view(s: RestoreStep) -> SavedTab {
    match s {
        RestoreStep::Open { id, path, mode } => (id, Some(path@), mode),
        RestoreStep::Empty { id, mode } => (id, None, mode),
    }
}

/// The steps that restore the saved tabs; the shell then selects the saved active tab.
pub fn restore_steps(tabs: &Vec<WorkspaceTab>, openable: &Vec<bool>) -> (r: Vec<RestoreStep>)
    requires
        openable@.len() == tabs@.len(),
    ensures
        r@.map_values(|s: RestoreStep| step_view(s)) == restore_steps_spec(
            tabs@.map_values(|w: WorkspaceTab| saved_view(w)),
            openable@,
            tabs@.len(),
        ),
{
    let ghost saved = tabs@.map_values(|w: WorkspaceTab| saved_view(w));
    let mut out: Vec<RestoreStep> = Vec::new();
    let mut i: usize = 0;
    while i < tabs.len()
        invariant
            i <= tabs@.len(),
            openable@.len() == tabs@.len(),
            saved == tabs@.map_values(|w: WorkspaceTab| saved_view(w)),
            out@.map_values(|s: RestoreStep| step_view(s)) == restore_steps_spec(saved, openable@, i as nat),
        decreases tabs.len() - i,
    {
        let ghost before = out@.map_values(|s: RestoreStep| step_view(s));
        let t = &tabs[i];
        assert(saved[i as int] == saved_view(*t));
        match &t.path {
            Some(p) => {
                if openable[i] {
                    out.push(RestoreStep::Open { id: t.id, path: p.duplicate(), mode: t.mode });
                    assert(out@.map_values(|s: RestoreStep| step_view(s)) =~= before.push((t.id, Some(p@), t.mode)));
                }
            },
            None => {
                out.push(RestoreStep::Empty { id: t.id, mode: t.mode });
                assert(out@.map_values(|s: RestoreStep| step_view(s)) =~= before.push((t.id, None, t.mode)));
            },
        }
        i = i + 1;
    }
    out
}

/// The tab that one restore step creates, shown through `handler`: a reopened document
/// starts a fresh history holding only itself, an empty tab has no history.
pub open spec fn restored_tab_spec<H>(step: SavedTab, handler: H) -> TabView<H> {
    match step.1 {
        Some(p) => TabView { id: step.0, path: p, handler, history: seq![p], history_position: 0 },
        None => TabView {
            id: step.0,
            path: Seq::empty(),
            handler,
            history: Seq::empty(),
            history_position: 0,
        },
    }
}

/// `i` is the first tab with identity `id`.
pub open spec fn first_with_id<H>(entries: Seq<TabView<H>>, id: TabId, i: int) -> bool {
    &&& 0 <= i < entries.len()
    &&& entries[i].id == id
    &&& forall|j: int| 0 <= j < i ==> entries[j].id != id
}

/// The selection after a restore: the first tab with the saved active identity when one has
/// it, the first tab otherwise, and nothing when no tab was restored.
pub open spec fn restored_selection_spec<H>(entries: Seq<TabView<H>>, active_id: Option<TabId>) -> Option<usize> {
    match active_id {
        Some(id) if exists|i: int| 0 <= i < entries.len() && entries[i].id == id => Some(
            (choose|i: int| first_with_id(entries, id, i)) as usize,
        ),
        _ => if entries.len() > 0 {
            Some(0usize)
        } else {
            None
        },
    }
}

/// The tabs after restoring: one tab per step, in order, each shown through the handler
/// made for it, and the selection of [`restored_selection_spec`].
pub open spec fn restore_spec<H>(steps: Seq<SavedTab>, handlers: Seq<H>, active_id: Option<TabId>) -> TabsView<H> {
    let entries = Seq::new(steps.len(), |i: int| restored_tab_spec(steps[i], handlers[i]));
    TabsView { entries, active: restored_selection_spec(entries, active_id) }
}

/// When some tab has identity `id`, a first one has it.
proof fn lemma_first_with_id_exists<H>(entries: Seq<TabView<H>>, id: TabId, k: int)
    requires
        0 <= k < entries.len(),
        entries[k].id == id,
    ensures
        exists|i: int| first_with_id(entries, id, i),
    decreases k,
{
    if exists|j: int| 0 <= j < k && entries[j].id == id {
        let j = choose|j: int| 0 <= j < k && entries[j].id == id;
        lemma_first_with_id_exists(entries, id, j);
    } else {
        assert(first_with_id(entries, id, k));
    }
}

/// The tab that restoring `step` creates, shown through `handler`.
pub fn restored_tab<H>(step: RestoreStep, handler: H) -> (r: Tab<H>)
    ensures
        r@ == restored_tab_spec(step_view(step), handler),
{
    match step {
        RestoreStep::Open { id, path, mode: _ } => {
            let mut history: Vec<DocPath> = Vec::new();
            history.push(path.duplicate());
            assert(crate::tabs::paths_view(history@) =~= seq![path@]);
            Tab::new(id, path, handler, history, 0)
        },
        RestoreStep::Empty { id, mode: _ } => {
            let history: Vec<DocPath> = Vec::new();
            assert(crate::tabs::paths_view(history@) =~= Seq::<Seq<PartView>>::empty());
            Tab::new(id, DocPath::empty(), handler, history, 0)
        },
    }
}

/// Replaces the open tabs with those the restore `steps` create, `handlers[i]` showing the
/// tab of `steps[i]`, then selects the tab with `active_id` (or the first tab).
pub fn restore_tabs<H>(tabs: &mut Tabs<H>, steps: Vec<RestoreStep>, handlers: Vec<H>, active_id: Option<TabId>)
    requires
        handlers@.len() == steps@.len(),
    ensures
        final(tabs)@ == restore_spec(steps@.map_values(|s: RestoreStep| step_view(s)), handlers@, active_id),
        tabs_wf(final(tabs)@),
{
    let ghost all_steps = steps@.map_values(|s: RestoreStep| step_view(s));
    let ghost all_handlers = handlers@;
    let total: usize = steps.len();
    let ghost n = steps@.len();
    assert(n == total);
    let mut steps = steps;
    let mut handlers = handlers;
    tabs.clear();
    let mut i: usize = 0;
    while steps.len() > 0
        invariant
            i + steps@.len() == n,
            n <= usize::MAX,
            handlers@.len() == steps@.len(),
            all_steps.len() == n,
            all_handlers.len() == n,
            steps@.map_values(|s: RestoreStep| step_view(s)) == all_steps.subrange(i as int, n as int),
            handlers@ == all_handlers.subrange(i as int, n as int),
            tabs@.entries == Seq::new(i as nat, |k: int| restored_tab_spec(all_steps[k], all_handlers[k])),
            tabs@.active == (if i == 0 { None } else { Some((i - 1) as usize) }),
            tabs_wf(tabs@),
        decreases steps@.len(),
    {
        let ghost old_steps = steps@;
        let step = steps.remove(0);
        let handler = handlers.remove(0);
        proof {
            assert(old_steps.map_values(|s: RestoreStep| step_view(s))[0] == all_steps.subrange(i as int, n as int)[0]);
            assert(step_view(step) == all_steps[i as int]);
            assert(steps@ =~= old_steps.subrange(1, old_steps.len() as int));
            assert(handler == all_handlers[i as int]);
            assert forall|k: int| 0 <= k < steps@.len() implies step_view(#[trigger] steps@[k])
                == all_steps[i + 1 + k] by {
                assert(steps@[k] == old_steps[k + 1]);
                assert(old_steps.map_values(|s: RestoreStep| step_view(s))[k + 1] == all_steps.subrange(
                    i as int,
                    n as int,
                )[k + 1]);
            }
            assert(steps@.map_values(|s: RestoreStep| step_view(s)) =~= all_steps.subrange(i + 1, n as int));
            assert(handlers@ =~= all_handlers.subrange(i + 1, n as int));
        }
        let tab = restored_tab(step, handler);
        tabs.insert(tab, true);
        assert(tabs@.entries =~= Seq::new((i + 1) as nat, |k: int| restored_tab_spec(all_steps[k], all_handlers[k])));
        i = i + 1;
    }
    let ghost entries = tabs@.entries;
    assert(entries =~= Seq::new(n, |k: int| restored_tab_spec(all_steps[k], all_handlers[k])));
    tabs.select_restored(active_id);
    proof {
        if let Some(id) = active_id {
            if exists|k: int| 0 <= k < entries.len() && entries[k].id == id {
                let k = choose|k: int| 0 <= k < entries.len() && entries[k].id == id;
                lemma_first_with_id_exists(entries, id, k);
                let c = choose|c: int| first_with_id(entries, id, c);
                let a = tabs@.active->0;
                assert(first_with_id(entries, id, a as int));
                assert(a as int == c);
            }
        }
    }
}

/// Restoring a snapshot of well-formed tabs gives that snapshot back (the same identities,
/// documents and modes, and the same active identity), and going back is not possible
/// afterwards: no tab, the active one included, has an earlier history entry (what
/// [`crate::navigation::can_go_back`] reports). It holds when every saved
/// document can be reopened (`openable[i]` for every tab saved with a path) and
/// `handlers[i]` shows the tab that the `i`-th step restores in the mode it was saved with.
pub proof fn law_restoring_a_snapshot_gives_it_back<H>(
    t: TabsView<H>,
    modes: Seq<ViewMode>,
    openable: Seq<bool>,
    handlers: Seq<H>,
)
    requires
        tabs_wf(t),
        modes.len() == t.entries.len(),
        openable.len() == t.entries.len(),
        handlers.len() == t.entries.len(),
        forall|i: int| 0 <= i < t.entries.len() && t.entries[i].path.len() > 0 ==> #[trigger] openable[i],
    ensures
        ({
            let saved = snapshot_tabs_spec(t, modes);
            let steps = restore_steps_spec(saved, openable, saved.len());
            let restored = restore_spec(steps, handlers, snapshot_active_spec(t));
            &&& steps == saved
            &&& snapshot_tabs_spec(restored, modes) == saved
            &&& snapshot_active_spec(restored) == snapshot_active_spec(t)
            &&& forall|i: int| 0 <= i < restored.entries.len() ==> (#[trigger] restored.entries[i]).history_position == 0
            &&& !(active_index_spec(restored) matches Some(a) && restored.entries[a as int].history_position > 0)
        }),
{
    let saved = snapshot_tabs_spec(t, modes);
    lemma_all_openable_steps(saved, openable, saved.len());
    let steps = restore_steps_spec(saved, openable, saved.len());
    let restored = restore_spec(steps, handlers, snapshot_active_spec(t));
    assert(snapshot_tabs_spec(restored, modes) =~= saved);
    match active_index_spec(t) {
        Some(a) => {
            let id = t.entries[a as int].id;
            assert(restored.entries[a as int].id == id);
            lemma_first_with_id_exists(restored.entries, id, a as int);
            let c = choose|c: int| first_with_id(restored.entries, id, c);
            assert(restored.active == Some(c as usize));
        },
        None => {
            assert(t.entries.len() == 0);
        },
    }
}

/// When every tab saved with a path can be reopened, the restore steps are the saved tabs.
proof fn lemma_all_openable_steps(saved: Seq<SavedTab>, openable: Seq<bool>, n: nat)
    requires
        n <= saved.len(),
        openable.len() == saved.len(),
        forall|i: int| 0 <= i < saved.len() && saved[i].1 is Some ==> #[trigger] openable[i],
    ensures
        restore_steps_spec(saved, openable, n) == saved.subrange(0, n as int),
    decreases n,
{
    if n > 0 {
        lemma_all_openable_steps(saved, openable, (n - 1) as nat);
        assert(saved.subrange(0, n as int) =~= saved.subrange(0, n - 1).push(saved[n - 1]));
    }
}

/// The expanded folders a vault restores: those saved under its root that are still
/// folders (`is_dir` tells, for each saved folder, whether it is one), in saved order.
pub open spec fn restored_expanded_spec(folders: Seq<Seq<PartView>>, is_dir: Seq<bool>, root: Seq<PartView>, n: nat) -> Seq<Seq<PartView>>
    decreases n,
{
    if n == 0 {
        Seq::empty()
    } else {
        let before = restored_expanded_spec(folders, is_dir, root, (n - 1) as nat);
        if crate::paths::starts_with(folders[n - 1], root) && is_dir[n - 1] {
            before.push(folders[n - 1])
        } else {
            before
        }
    }
}

/// The expanded folders a vault restores.
pub fn restored_expanded(folders: &Vec<DocPath>, is_dir: &Vec<bool>, root: &DocPath) -> (r: Vec<DocPath>)
    requires
        is_dir@.len() == folders@.len(),
    ensures
        r@.map_values(|p: DocPath| p@) == restored_expanded_spec(
            folders@.map_values(|p: DocPath| p@),
            is_dir@,
            root@,
            folders@.len(),
        ),
{
    let ghost fs = folders@.map_values(|p: DocPath| p@);
    let mut out: Vec<DocPath> = Vec::new();
    let mut i: usize = 0;
    while i < folders.len()
        invariant
            i <= folders@.len(),
            is_dir@.len() == folders@.len(),
            fs == folders@.map_values(|p: DocPath| p@),
            out@.map_values(|p: DocPath| p@) == restored_expanded_spec(fs, is_dir@, root@, i as nat),
        decreases folders.len() - i,
    {
        if folders[i].starts_with(root) && is_dir[i] {
            let ghost before = out@.map_values(|p: DocPath| p@);
            out.push(folders[i].duplicate());
            assert(out@.map_values(|p: DocPath| p@) =~= before.push(fs[i as int]));
        }
        i = i + 1;
    }
    out
}

/// The sidebar selection a vault restores: the saved one, when it lies under the vault's
/// root and still exists.
pub fn restored_selection(selection: Option<&DocPath>, exists: bool, root: &DocPath) -> (r: Option<DocPath>)
    ensures
        match r {
            Some(p) => selection matches Some(s) && p@ == s@ && crate::paths::starts_with(s@, root@)
                && exists,
            None => match selection {
                Some(s) => !(crate::paths::starts_with(s@, root@) && exists),
                None => true,
            },
        },
{
    match selection {
        Some(s) => if s.starts_with(root) && exists {
            Some(s.duplicate())
        } else {
            None
        },
        None => None,
    }
}

/// Whether the workspace can be saved, and why not.
#[derive(Clone, Copy, Debug, PartialEq, Eq, Structural)]
pub enum SaveCheck {
    /// No vault is open: there is nothing to save.
    NothingOpen,
    /// The saved workspace could not be read when the vault opened; it is left as it is.
    Blocked,
    /// The machine's workspace identity is unknown.
    NoMachineId,
    /// The workspace is saved.
    Save,
}

impl SaveCheck {
    /// The reason a save is refused, as the notification gives it.
    pub fn reason(self) -> (r: Option<&'static str>)
        ensures
            match self {
                SaveCheck::Blocked => r matches Some(t) && t@
                    == "the saved workspace could not be read and was left untouched"@,
                SaveCheck::NoMachineId => r matches Some(t) && t@
                    == "the machine workspace identity is unavailable"@,
                _ => r is None,
            },
    {
        match self {
            SaveCheck::Blocked => Some("the saved workspace could not be read and was left untouched"),
            SaveCheck::NoMachineId => Some("the machine workspace identity is unavailable"),
            _ => None,
        }
    }
}

/// Whether saving the workspace goes ahead: a vault must be open, its saved workspace
/// must have been readable, and the machine's identity known.
pub fn save_check(has_root: bool, save_blocked: bool, has_machine_id: bool) -> (r: SaveCheck)
    ensures
        r == (if !has_root {
            SaveCheck::NothingOpen
        } else if save_blocked {
            SaveCheck::Blocked
        } else if !has_machine_id {
            SaveCheck::NoMachineId
        } else {
            SaveCheck::Save
        }),
{
    if !has_root {
        SaveCheck::NothingOpen
    } else if save_blocked {
        SaveCheck::Blocked
    } else if !has_machine_id {
        SaveCheck::NoMachineId
    } else {
        SaveCheck::Save
    }
}
} // verus!
