//! Per-tab back/forward history and the decisions behind opening a document: which tab it
//! lands in, which identity and view mode that tab gets, and what its history becomes.

use vstd::prelude::*;

use crate::paths::{opt_view, DocPath, PartView};
use crate::tabs::{
    active_index_spec, first_same_document, paths_view, same_document_spec, tabs_wf, TabId, Tabs,
    TabsView, ViewMode,
};

verus! {

/// The history after navigating to `path` from `position`: unchanged when `path` is
/// already the current entry, otherwise the entries after `position` are dropped and
/// `path` becomes the new last and current entry.
pub open spec fn next_history_spec(
    history: Seq<Seq<PartView>>,
    position: int,
    path: Seq<PartView>,
) -> (Seq<Seq<PartView>>, int) {
    if 0 <= position < history.len() && history[position] == path {
        (history, position)
    } else {
        let keep = if position + 1 <= history.len() {
            position + 1
        } else {
            history.len() as int
        };
        let h = history.subrange(0, keep).push(path);
        (h, h.len() - 1)
    }
}

/// Navigates a history to `path` as [`next_history_spec`] states.
pub fn next_history(history: &Vec<DocPath>, position: usize, path: &DocPath) -> (r: (
    Vec<DocPath>,
    usize,
))
    ensures
        (paths_view(r.0@), r.1 as int) == next_history_spec(
            paths_view(history@),
            position as int,
            path@,
        ),
{
    let mut out: Vec<DocPath> = Vec::new();
    let mut i: usize = 0;
    while i < history.len()
        invariant
            i <= history.len(),
            paths_view(out@) == paths_view(history@).subrange(0, i as int),
        decreases history.len() - i,
    {
        let p = history[i].duplicate();
        proof {
            assert(paths_view(out@.push(p)) =~= paths_view(out@).push(p@));
            assert(paths_view(history@).subrange(0, i + 1) =~= paths_view(history@).subrange(
                0,
                i as int,
            ).push(history@[i as int]@));
        }
        out.push(p);
        i = i + 1;
    }
    assert(paths_view(history@).subrange(0, history@.len() as int) =~= paths_view(history@));
    if position < history.len() && history[position].same(path) {
        return (out, position);
    }
    let keep = if position < history.len() {
        position + 1
    } else {
        history.len()
    };
    out.truncate(keep);
    let p = path.duplicate();
    proof {
        assert(paths_view(out@.push(p)) =~= paths_view(out@).push(p@));
        assert(paths_view(out@) =~= paths_view(history@).subrange(0, keep as int));
    }
    out.push(p);
    let last = out.len() - 1;
    (out, last)
}

/// How a document is being opened.
pub enum OpenMode {
    /// Into the active tab, adding to its history.
    Replace,
    /// Into a new tab.
    NewTab,
    /// A file that was just created, into a new tab for editing.
    Created,
    /// A tab restored from a saved workspace, keeping its identity and mode.
    Restore { id: TabId, mode: ViewMode },
    /// Back or forward within the active tab's history.
    History { position: usize },
}

/// The identity a tab gets when a document opens in it.
#[derive(Clone, Copy, Debug, PartialEq, Eq, Structural)]
pub enum TabIdChoice {
    /// A newly generated identity.
    Fresh,
    /// This existing identity.
    Keep(TabId),
}

/// What opening a document amounts to.
pub enum OpenPlan {
    /// No viewer is registered for the document: nothing happens.
    Unsupported,
    /// An open tab already shows the document: that tab is selected.
    Focus(usize),
    /// A handler is created for the document and the tab is inserted, as a new tab when
    /// `new_tab` is set.
    Open {
        id: TabIdChoice,
        mode: ViewMode,
        history: Vec<DocPath>,
        history_position: usize,
        new_tab: bool,
    },
}

pub open spec fn is_replace_or_new(mode: OpenMode) -> bool {
    mode is Replace || mode is NewTab
}

/// The view mode a newly opened handler gets. `current` is the mode of the active tab's
/// handler, `default_mode` the preferred mode for new tabs.
pub open spec fn handler_mode_spec(
    mode: OpenMode,
    current: Option<ViewMode>,
    default_mode: ViewMode,
) -> ViewMode {
    match mode {
        OpenMode::Replace | OpenMode::History { .. } => match current {
            Some(m) => m,
            None => default_mode,
        },
        OpenMode::NewTab => default_mode,
        OpenMode::Created => ViewMode::Edit,
        OpenMode::Restore { mode, .. } => mode,
    }
}

/// The identity of the tab a document opens in.
pub open spec fn tab_id_spec<H>(mode: OpenMode, tabs: TabsView<H>) -> TabIdChoice {
    match mode {
        OpenMode::Replace | OpenMode::History { .. } => match active_index_spec(tabs) {
            Some(a) => TabIdChoice::Keep(tabs.entries[a as int].id),
            None => TabIdChoice::Fresh,
        },
        OpenMode::NewTab | OpenMode::Created => TabIdChoice::Fresh,
        OpenMode::Restore { id, .. } => TabIdChoice::Keep(id),
    }
}

/// The history and position of the tab a document opens in.
pub open spec fn open_history_spec<H>(mode: OpenMode, tabs: TabsView<H>, path: Seq<PartView>) -> (
    Seq<Seq<PartView>>,
    int,
) {
    match mode {
        OpenMode::NewTab | OpenMode::Created | OpenMode::Restore { .. } => (seq![path], 0),
        OpenMode::Replace => match active_index_spec(tabs) {
            Some(a) => next_history_spec(
                tabs.entries[a as int].history,
                tabs.entries[a as int].history_position as int,
                path,
            ),
            None => (seq![path], 0),
        },
        OpenMode::History { position } => match active_index_spec(tabs) {
            Some(a) => (tabs.entries[a as int].history, position as int),
            None => (seq![path], position as int),
        },
    }
}

/// The tab that opening an already open document focuses: the active tab when it shows
/// the document, the first tab that shows it otherwise.
pub open spec fn focus_target_spec<H>(
    tabs: TabsView<H>,
    path: Seq<PartView>,
    cwd: Option<Seq<PartView>>,
    i: int,
) -> bool {
    match active_index_spec(tabs) {
        Some(a) if same_document_spec(tabs.entries[a as int].path, path, cwd) => i == a,
        _ => first_same_document(tabs.entries, path, cwd, i),
    }
}

/// Decides how to open `path`. `supported` tells whether a viewer is registered for it,
/// `current` is the mode of the active tab's handler and `default_mode` the preferred mode
/// for new tabs; `cwd` is the working directory used to compare documents.
pub fn plan_open<H>(
    tabs: &Tabs<H>,
    path: &DocPath,
    mode: &OpenMode,
    supported: bool,
    current: Option<ViewMode>,
    default_mode: ViewMode,
    cwd: Option<&DocPath>,
) -> (r: OpenPlan)
    ensures
        !supported ==> r is Unsupported,
        supported ==> match r {
            OpenPlan::Unsupported => false,
            OpenPlan::Focus(i) => is_replace_or_new(*mode) && path@.len() > 0 && focus_target_spec(
                tabs@,
                path@,
                opt_view(cwd),
                i as int,
            ),
            OpenPlan::Open { id, mode: m, history, history_position, new_tab } => {
                &&& (is_replace_or_new(*mode) && path@.len() > 0) ==> forall|j: int|
                    0 <= j < tabs@.entries.len() ==> !same_document_spec(
                        #[trigger] tabs@.entries[j].path,
                        path@,
                        opt_view(cwd),
                    )
                &&& m == handler_mode_spec(*mode, current, default_mode)
                &&& id == tab_id_spec(*mode, tabs@)
                &&& (paths_view(history@), history_position as int) == open_history_spec(
                    *mode,
                    tabs@,
                    path@,
                )
                &&& new_tab == (*mode is NewTab || *mode is Created || *mode is Restore)
            },
        },
{
    if !supported {
        return OpenPlan::Unsupported;
    }
    let replace_or_new = match mode {
        OpenMode::Replace | OpenMode::NewTab => true,
        _ => false,
    };
    if replace_or_new {
        if let Some(index) = tabs.find_path(path, cwd) {
            return OpenPlan::Focus(index);
        }
    }
    let handler_mode = match mode {
        OpenMode::Replace | OpenMode::History { .. } => match current {
            Some(m) => m,
            None => default_mode,
        },
        OpenMode::NewTab => default_mode,
        OpenMode::Created => ViewMode::Edit,
        OpenMode::Restore { mode, .. } => *mode,
    };
    let id = match mode {
        OpenMode::Replace | OpenMode::History { .. } => match tabs.active() {
            Some(tab) => TabIdChoice::Keep(*tab.id()),
            None => TabIdChoice::Fresh,
        },
        OpenMode::NewTab | OpenMode::Created => TabIdChoice::Fresh,
        OpenMode::Restore { id, .. } => TabIdChoice::Keep(*id),
    };
    let (history, history_position) = match mode {
        OpenMode::NewTab | OpenMode::Created | OpenMode::Restore { .. } => {
            let mut h: Vec<DocPath> = Vec::new();
            h.push(path.duplicate());
            assert(paths_view(h@) =~= seq![path@]);
            (h, 0)
        },
        OpenMode::Replace => match tabs.active() {
            Some(tab) => next_history(tab.history(), tab.history_position(), path),
            None => {
                let mut h: Vec<DocPath> = Vec::new();
                h.push(path.duplicate());
                assert(paths_view(h@) =~= seq![path@]);
                (h, 0)
            },
        },
        OpenMode::History { position } => match tabs.active() {
            Some(tab) => {
                let mut h: Vec<DocPath> = Vec::new();
                let source = tab.history();
                let mut i: usize = 0;
                while i < source.len()
                    invariant
                        i <= source.len(),
                        paths_view(h@) == paths_view(source@).subrange(0, i as int),
                    decreases source.len() - i,
                {
                    let p = source[i].duplicate();
                    proof {
                        assert(paths_view(h@.push(p)) =~= paths_view(h@).push(p@));
                        assert(paths_view(source@).subrange(0, i + 1) =~= paths_view(
                            source@,
                        ).subrange(0, i as int).push(source@[i as int]@));
                    }
                    h.push(p);
                    i = i + 1;
                }
                assert(paths_view(source@).subrange(0, source@.len() as int) =~= paths_view(
                    source@,
                ));
                (h, *position)
            },
            None => {
                let mut h: Vec<DocPath> = Vec::new();
                h.push(path.duplicate());
                assert(paths_view(h@) =~= seq![path@]);
                (h, *position)
            },
        },
    };
    let new_tab = match mode {
        OpenMode::NewTab | OpenMode::Created | OpenMode::Restore { .. } => true,
        _ => false,
    };
    OpenPlan::Open { id, mode: handler_mode, history, history_position, new_tab }
}

/// The history entry that going back in the active tab opens, with its position.
pub fn back_target<H>(tabs: &Tabs<H>) -> (r: Option<(DocPath, usize)>)
    ensures
        match r {
            Some((p, pos)) => active_index_spec(tabs@) matches Some(a) && {
                let t = tabs@.entries[a as int];
                &&& t.history_position > 0
                &&& pos == t.history_position - 1
                &&& pos < t.history.len()
                &&& p@ == t.history[pos as int]
            },
            None => active_index_spec(tabs@) matches Some(a) ==> {
                let t = tabs@.entries[a as int];
                t.history_position == 0 || t.history_position - 1 >= t.history.len()
            },
        },
{
    let tab = match tabs.active() {
        Some(tab) => tab,
        None => return None,
    };
    let history = tab.history();
    if tab.history_position() == 0 {
        return None;
    }
    let position = tab.history_position() - 1;
    if position < history.len() {
        Some((history[position].duplicate(), position))
    } else {
        None
    }
}

/// The history entry that going forward in the active tab opens, with its position.
pub fn forward_target<H>(tabs: &Tabs<H>) -> (r: Option<(DocPath, usize)>)
    ensures
        match r {
            Some((p, pos)) => active_index_spec(tabs@) matches Some(a) && {
                let t = tabs@.entries[a as int];
                &&& pos == t.history_position + 1
                &&& pos < t.history.len()
                &&& p@ == t.history[pos as int]
            },
            None => active_index_spec(tabs@) matches Some(a) ==> {
                let t = tabs@.entries[a as int];
                t.history_position + 1 >= t.history.len()
            },
        },
{
    let tab = match tabs.active() {
        Some(tab) => tab,
        None => return None,
    };
    let history = tab.history();
    let n = history.len();
    assert(paths_view(history@).len() == n);
    if tab.history_position() == usize::MAX {
        return None;
    }
    let position = tab.history_position() + 1;
    if position < history.len() {
        Some((history[position].duplicate(), position))
    } else {
        None
    }
}

/// A step through the active tab's history, asked for from the tab bar.
#[derive(Clone, Copy, Debug, PartialEq, Eq, Structural)]
pub enum NavigationAction {
    GoBack,
    GoForward,
}

/// The history entry a navigation step opens in the active tab, with its position; none
/// when the active tab has no entry in that direction.
pub fn navigation_target<H>(tabs: &Tabs<H>, action: NavigationAction) -> (r: Option<(DocPath, usize)>)
    ensures
        match r {
            Some((p, pos)) => active_index_spec(tabs@) matches Some(a) && {
                let t = tabs@.entries[a as int];
                &&& pos < t.history.len()
                &&& p@ == t.history[pos as int]
                &&& action == NavigationAction::GoBack ==> t.history_position > 0 && pos
                    == t.history_position - 1
                &&& action == NavigationAction::GoForward ==> pos == t.history_position + 1
            },
            None => active_index_spec(tabs@) matches Some(a) ==> {
                let t = tabs@.entries[a as int];
                &&& action == NavigationAction::GoBack ==> t.history_position == 0
                    || t.history_position - 1 >= t.history.len()
                &&& action == NavigationAction::GoForward ==> t.history_position + 1
                    >= t.history.len()
            },
        },
{
    match action {
        NavigationAction::GoBack => back_target(tabs),
        NavigationAction::GoForward => forward_target(tabs),
    }
}

/// Whether the active tab has an earlier history entry.
pub fn can_go_back<H>(tabs: &Tabs<H>) -> (r: bool)
    ensures
        r == (active_index_spec(tabs@) matches Some(a) && tabs@.entries[a as int].history_position
            > 0),
{
    match tabs.active() {
        Some(tab) => tab.history_position() > 0,
        None => false,
    }
}

/// Whether the active tab has a later history entry.
pub fn can_go_forward<H>(tabs: &Tabs<H>) -> (r: bool)
    ensures
        r == (active_index_spec(tabs@) matches Some(a) && tabs@.entries[a as int].history_position
            + 1 < tabs@.entries[a as int].history.len()),
{
    match tabs.active() {
        Some(tab) => {
            let history = tab.history();
            let n = history.len();
            assert(paths_view(history@).len() == n);
            tab.history_position() < usize::MAX && tab.history_position() + 1 < history.len()
        },
        None => false,
    }
}

/// After navigating, the current history entry is the path navigated to.
pub proof fn law_navigation_lands_on_the_path(
    history: Seq<Seq<PartView>>,
    position: int,
    path: Seq<PartView>,
)
    requires
        0 <= position,
    ensures
        ({
            let (h, p) = next_history_spec(history, position, path);
            0 <= p < h.len() && h[p] == path
        }),
{
}

/// Navigating to the current entry again changes nothing.
pub proof fn law_navigation_is_idempotent(
    history: Seq<Seq<PartView>>,
    position: int,
    path: Seq<PartView>,
)
    requires
        0 <= position,
    ensures
        ({
            let (h, p) = next_history_spec(history, position, path);
            next_history_spec(h, p, path) == (h, p)
        }),
{
}

/// Navigating to a new path keeps every entry up to the current one and drops the
/// entries after it (the forward branch).
pub proof fn law_navigation_branches_after_the_current_entry(
    history: Seq<Seq<PartView>>,
    position: int,
    path: Seq<PartView>,
)
    requires
        0 <= position < history.len(),
        history[position] != path,
    ensures
        ({
            let (h, p) = next_history_spec(history, position, path);
            &&& p == position + 1
            &&& h.len() == position + 2
            &&& forall|i: int| 0 <= i <= position ==> h[i] == history[i]
        }),
{
}

/// In well-formed tabs, going back finds an entry exactly when the active tab has an
/// earlier history entry: [`back_target`] gives a target exactly when [`can_go_back`] holds.
pub proof fn law_going_back_is_possible_exactly_when_offered<H>(t: TabsView<H>)
    requires
        tabs_wf(t),
    ensures
        (active_index_spec(t) matches Some(a) && t.entries[a as int].history_position > 0)
            <==> (active_index_spec(t) matches Some(a) && {
            let tab = t.entries[a as int];
            tab.history_position > 0 && tab.history_position - 1 < tab.history.len()
        }),
{
    if let Some(a) = active_index_spec(t) {
        assert(crate::tabs::tab_wf(t.entries[a as int]));
    }
}

/// The view mode of the handler a document opens in: a new tab takes the preferred mode
/// for new tabs whatever the active tab shows, a created file opens for editing, and a
/// restored tab keeps the mode it was saved in. Only opening in place and moving through
/// the history keep the active tab's mode, falling back to the preferred mode when no tab
/// is active.
pub proof fn law_the_mode_an_opened_document_gets(
    current: Option<ViewMode>,
    default_mode: ViewMode,
    active_mode: ViewMode,
    id: TabId,
    saved: ViewMode,
    position: usize,
)
    ensures
        handler_mode_spec(OpenMode::NewTab, current, default_mode) == default_mode,
        handler_mode_spec(OpenMode::Created, current, default_mode) == ViewMode::Edit,
        handler_mode_spec(OpenMode::Restore { id, mode: saved }, current, default_mode) == saved,
        handler_mode_spec(OpenMode::Replace, Some(active_mode), default_mode) == active_mode,
        handler_mode_spec(OpenMode::Replace, None, default_mode) == default_mode,
        handler_mode_spec(OpenMode::History { position }, Some(active_mode), default_mode) == active_mode,
        handler_mode_spec(OpenMode::History { position }, None, default_mode) == default_mode,
{
}

/// A new tab starts afresh: opened as a new tab or as a created file it gets a new
/// identity, a restored tab keeps its saved identity, and each holds a history of just the
/// document, at its first entry. Opening in place or moving through the history keeps the
/// active tab's identity; opening in place lands on the document in that tab's history.
pub proof fn law_the_tab_an_opened_document_lands_in<H>(
    tabs: TabsView<H>,
    path: Seq<PartView>,
    id: TabId,
    saved: ViewMode,
    position: usize,
)
    ensures
        tab_id_spec(OpenMode::NewTab, tabs) == TabIdChoice::Fresh,
        tab_id_spec(OpenMode::Created, tabs) == TabIdChoice::Fresh,
        tab_id_spec(OpenMode::Restore { id, mode: saved }, tabs) == TabIdChoice::Keep(id),
        open_history_spec(OpenMode::NewTab, tabs, path) == (seq![path], 0int),
        open_history_spec(OpenMode::Created, tabs, path) == (seq![path], 0int),
        open_history_spec(OpenMode::Restore { id, mode: saved }, tabs, path) == (seq![path], 0int),
        active_index_spec(tabs) matches Some(a) ==> {
            &&& tab_id_spec(OpenMode::Replace, tabs) == TabIdChoice::Keep(tabs.entries[a as int].id)
            &&& tab_id_spec(OpenMode::History { position }, tabs) == TabIdChoice::Keep(tabs.entries[a as int].id)
            &&& open_history_spec(OpenMode::History { position }, tabs, path) == (tabs.entries[a as int].history, position as int)
            &&& ({
                let (h, p) = open_history_spec(OpenMode::Replace, tabs, path);
                0 <= p < h.len() && h[p] == path
            })
        },
        active_index_spec(tabs) is None ==> {
            &&& tab_id_spec(OpenMode::Replace, tabs) == TabIdChoice::Fresh
            &&& open_history_spec(OpenMode::Replace, tabs, path) == (seq![path], 0int)
        },
{
    if let Some(a) = active_index_spec(tabs) {
        law_navigation_lands_on_the_path(
            tabs.entries[a as int].history,
            tabs.entries[a as int].history_position as int,
            path,
        );
    }
}

/// The tab focused for an already open document shows that document; it is the active
/// tab whenever the active tab shows it, and otherwise no earlier tab shows it.
pub proof fn law_focusing_prefers_the_active_tab<H>(
    tabs: TabsView<H>,
    path: Seq<PartView>,
    cwd: Option<Seq<PartView>>,
    i: int,
)
    requires
        focus_target_spec(tabs, path, cwd, i),
    ensures
        0 <= i < tabs.entries.len(),
        same_document_spec(tabs.entries[i].path, path, cwd),
        (active_index_spec(tabs) matches Some(a) && same_document_spec(tabs.entries[a as int].path, path, cwd))
            ==> active_index_spec(tabs) == Some(i as usize),
        active_index_spec(tabs) != Some(i as usize) ==> forall|j: int|
            0 <= j < i ==> !same_document_spec(#[trigger] tabs.entries[j].path, path, cwd),
{
}

} // verus!
