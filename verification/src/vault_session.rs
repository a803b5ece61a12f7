//! Switching the open vault: a request for another folder starts a transition that opens
//! its catalog in the background; the transition commits only if nothing superseded it.
//! Also what each poll of an open vault's catalog does.
//!
//! Every decision is a step from state and event to the next state and an action; the
//! shell performs the file system work and the waiting, and hands the outcome back.

use vstd::prelude::*;
use crate::paths::{opt_view, starts_with, DocPath, PartView};

verus! {

/// A document waiting to be opened once its vault is on screen.
pub enum PendingOpen {
    /// An existing document.
    Open(DocPath),
    /// A document that was just created.
    Created(DocPath),
}

/// A pending open as plain values: whether it was created, and its path.
pub open spec fn pending_view(p: Option<PendingOpen>) -> Option<(bool, Seq<PartView>)> {
    match p {
        Some(PendingOpen::Open(path)) => Some((false, path@)),
        Some(PendingOpen::Created(path)) => Some((true, path@)),
        None => None,
    }
}

/// The generation after `g`, wrapping from the largest to zero (`u64::wrapping_add(1)`).
pub open spec fn next_generation(g: u64) -> u64 {
    if g == u64::MAX {
        0
    } else {
        (g + 1) as u64
    }
}

fn bump(g: u64) -> (r: u64)
    ensures
        r == next_generation(g),
{
    if g == u64::MAX {
        0
    } else {
        g + 1
    }
}

/// The vault bookkeeping of a window.
pub struct VaultSession {
    /// The vault on screen.
    pub root: Option<DocPath>,
    /// The document to open once the vault on screen has its tabs.
    pub pending_open: Option<PendingOpen>,
    /// Moves on whenever a transition starts or is given up.
    pub transition_generation: u64,
    /// The folder a transition is opening, while one is under way.
    pub pending_vault_path: Option<DocPath>,
    /// The document to open once that transition commits.
    pub pending_vault_open: Option<PendingOpen>,
    /// Moves on whenever a vault becomes the one on screen.
    pub load_generation: u64,
    /// Whether the readiness of the current vault's catalog was announced.
    pub db_ready_notified: bool,
}

/// The session as plain values.
pub struct SessionView {
    pub root: Option<Seq<PartView>>,
    pub pending_open: Option<(bool, Seq<PartView>)>,
    pub transition_generation: u64,
    pub pending_vault_path: Option<Seq<PartView>>,
    pub pending_vault_open: Option<(bool, Seq<PartView>)>,
    pub load_generation: u64,
    pub db_ready_notified: bool,
}

impl View for VaultSession {
    type V = SessionView;

    open spec fn view(&self) -> SessionView {
        SessionView {
            root: opt_view(
                match &self.root {
                    Some(p) => Some(p),
                    None => None,
                },
            ),
            pending_open: pending_view(self.pending_open),
            transition_generation: self.transition_generation,
            pending_vault_path: match self.pending_vault_path {
                Some(p) => Some(p@),
                None => None,
            },
            pending_vault_open: pending_view(self.pending_vault_open),
            load_generation: self.load_generation,
            db_ready_notified: self.db_ready_notified,
        }
    }
}

/// `s` with its transition given up: the generation moves on and nothing is pending.
pub open spec fn cancelled(s: SessionView) -> SessionView {
    SessionView {
        transition_generation: next_generation(s.transition_generation),
        pending_vault_path: None,
        pending_vault_open: None,
        ..s
    }
}

/// `s` with `path` on screen: the transition is given up, the load generation moves on,
/// the catalog's readiness is yet to be announced and no document waits.
pub open spec fn activated(s: SessionView, path: Seq<PartView>) -> SessionView {
    SessionView {
        root: Some(path),
        pending_open: None,
        load_generation: next_generation(s.load_generation),
        db_ready_notified: false,
        ..cancelled(s)
    }
}

/// `s` once a transition to `path` started, with `open` waiting for it.
pub open spec fn started(s: SessionView, path: Seq<PartView>, open: Option<(bool, Seq<PartView>)>) -> SessionView {
    SessionView {
        transition_generation: next_generation(s.transition_generation),
        pending_vault_path: Some(path),
        pending_vault_open: open,
        ..s
    }
}

/// A completion for `generation`, started while `source` was on screen, belongs to the
/// transition of `s`.
pub open spec fn transition_current(s: SessionView, generation: u64, source: Option<Seq<PartView>>) -> bool {
    s.transition_generation == generation && s.root == source
}

/// `s` once its transition to `path` committed: `path` is on screen and the document that
/// waited for it is the one to open.
pub open spec fn committed(s: SessionView, path: Seq<PartView>) -> SessionView {
    SessionView { pending_open: s.pending_vault_open, ..activated(s, path) }
}

/// `s` after `old` was renamed to `new`: the document waiting to be opened follows it.
pub open spec fn pending_renamed(s: SessionView, old: Seq<PartView>, new: Seq<PartView>) -> SessionView {
    SessionView {
        pending_open: match s.pending_open {
            Some((created, p)) => Some((created, crate::paths::rebase(p, old, new))),
            None => None,
        },
        ..s
    }
}

/// What a request to show a folder leads to.
#[derive(Clone, Copy, Debug, PartialEq, Eq, Structural)]
pub enum VaultRequest {
    /// The folder is the vault on screen; the request succeeds.
    AlreadyOpen,
    /// The folder is the one a transition is already opening; the request succeeds.
    AlreadyPending,
    /// The folder is not a directory; the request fails and the user is told.
    Unavailable,
    /// The current workspace is to be saved and the folder's workspace loaded; if both
    /// succeed, the transition starts.
    Proceed,
}

/// A poll-time state of a vault's catalog.
#[derive(Clone, Copy, Debug, PartialEq, Eq, Structural)]
pub enum CatalogStatus {
    Loading,
    Ready,
    Failed,
}

/// How a background catalog open ended, once the transition is still current.
#[derive(Clone, Copy, Debug, PartialEq, Eq, Structural)]
pub enum TransitionCheck {
    /// Another request or a change of vault superseded the transition: nothing happens.
    Stale,
    /// The catalog could not be opened: the transition is given up and the user told.
    CatalogFailed,
    /// The vault on screen is to be saved before the transition commits.
    SaveFirst,
    /// Nothing is on screen: the transition commits.
    Commit,
}

/// What a request to show a folder leads to, and the session after it: the vault on screen
/// stays and takes the document to open, if one was given; a folder already being opened
/// takes it for when it shows; any other request gives up the transition under way and,
/// for a directory, proceeds.
pub open spec fn after_request(
    s: SessionView,
    open: Option<(bool, Seq<PartView>)>,
    matches_root: bool,
    matches_pending: bool,
    is_dir: bool,
) -> (VaultRequest, SessionView) {
    if matches_root && s.root is Some {
        (
            VaultRequest::AlreadyOpen,
            if open is Some {
                SessionView { pending_open: open, ..cancelled(s) }
            } else {
                cancelled(s)
            },
        )
    } else if is_dir && matches_pending && s.pending_vault_path is Some {
        (
            VaultRequest::AlreadyPending,
            if open is Some {
                SessionView { pending_vault_open: open, ..s }
            } else {
                s
            },
        )
    } else if is_dir {
        (VaultRequest::Proceed, cancelled(s))
    } else {
        (VaultRequest::Unavailable, cancelled(s))
    }
}

/// The decision when a transition's catalog open ends, and the session after it: a
/// completion that is no longer current changes nothing; a failed open gives the
/// transition up; a successful one waits for the vault on screen to be saved, if any.
pub open spec fn after_check(s: SessionView, generation: u64, source: Option<Seq<PartView>>, catalog_ok: bool) -> (TransitionCheck, SessionView) {
    if !transition_current(s, generation, source) {
        (TransitionCheck::Stale, s)
    } else if !catalog_ok {
        (TransitionCheck::CatalogFailed, cancelled(s))
    } else if s.root is Some {
        (TransitionCheck::SaveFirst, s)
    } else {
        (TransitionCheck::Commit, s)
    }
}

impl VaultSession {
    /// A window with no vault.
    pub fn new() -> (r: VaultSession)
        ensures
            r@.root is None,
            r@.pending_open is None,
            r@.pending_vault_path is None,
            r@.pending_vault_open is None,
            r@.transition_generation == 0,
            r@.load_generation == 0,
            !r@.db_ready_notified,
    {
        VaultSession {
            root: None,
            pending_open: None,
            transition_generation: 0,
            pending_vault_path: None,
            pending_vault_open: None,
            load_generation: 0,
            db_ready_notified: false,
        }
    }

    /// Gives up the transition under way, if any.
    pub fn cancel_transition(&mut self)
        ensures
            final(self)@ == cancelled(old(self)@),
    {
        self.transition_generation = bump(self.transition_generation);
        self.pending_vault_path = None;
        self.pending_vault_open = None;
    }

    /// The first decisions on a request to show a folder. `matches_root` and
    /// `matches_pending` tell whether the folder is the same vault as the one on screen and
    /// the one being opened; `is_dir` whether it is a directory; `open` the document to open
    /// in it.
    pub fn request(&mut self, open: Option<PendingOpen>, matches_root: bool, matches_pending: bool, is_dir: bool) -> (r: VaultRequest)
        ensures
            (r, final(self)@) == after_request(
                old(self)@,
                pending_view(open),
                matches_root,
                matches_pending,
                is_dir,
            ),
    {
        if matches_root && self.root.is_some() {
            self.cancel_transition();
            if open.is_some() {
                self.pending_open = open;
            }
            return VaultRequest::AlreadyOpen;
        }
        if is_dir && matches_pending && self.pending_vault_path.is_some() {
            if open.is_some() {
                self.pending_vault_open = open;
            }
            return VaultRequest::AlreadyPending;
        }
        self.cancel_transition();
        if !is_dir {
            VaultRequest::Unavailable
        } else {
            VaultRequest::Proceed
        }
    }

    /// Starts opening `path`'s catalog: returns the generation the completion must still
    /// find, with the vault on screen it must still find.
    pub fn start_transition(&mut self, path: DocPath, open: Option<PendingOpen>) -> (r: (u64, Option<DocPath>))
        ensures
            r.0 == next_generation(old(self)@.transition_generation),
            opt_view(
                match &r.1 {
                    Some(p) => Some(p),
                    None => None,
                },
            ) == old(self)@.root,
            final(self)@ == started(old(self)@, path@, pending_view(open)),
    {
        self.transition_generation = bump(self.transition_generation);
        let source = match &self.root {
            Some(p) => Some(p.duplicate()),
            None => None,
        };
        self.pending_vault_path = Some(path);
        self.pending_vault_open = open;
        (self.transition_generation, source)
    }

    /// Whether a completion for `generation`, started while `source_root` was on screen,
    /// still belongs to the current transition.
    pub fn transition_is_current(&self, generation: u64, source_root: &Option<DocPath>) -> (r: bool)
        ensures
            r == transition_current(
                self@,
                generation,
                opt_view(
                    match source_root {
                        Some(p) => Some(p),
                        None => None,
                    },
                ),
            ),
    {
        if self.transition_generation != generation {
            return false;
        }
        match (&self.root, source_root) {
            (Some(a), Some(b)) => a.same(b),
            (None, None) => true,
            _ => false,
        }
    }

    /// The decision when the background catalog open of a transition ends.
    pub fn check_transition(&mut self, generation: u64, source_root: &Option<DocPath>, catalog_ok: bool) -> (r: TransitionCheck)
        ensures
            (r, final(self)@) == after_check(
                old(self)@,
                generation,
                opt_view(
                    match source_root {
                        Some(p) => Some(p),
                        None => None,
                    },
                ),
                catalog_ok,
            ),
    {
        if !self.transition_is_current(generation, source_root) {
            return TransitionCheck::Stale;
        }
        if !catalog_ok {
            self.cancel_transition();
            return TransitionCheck::CatalogFailed;
        }
        if self.root.is_some() {
            TransitionCheck::SaveFirst
        } else {
            TransitionCheck::Commit
        }
    }

    /// Puts `path` on screen (the shell clears the tabs and restores the workspace), and
    /// returns the load generation its own catalog load must still find.
    pub fn activate(&mut self, path: DocPath) -> (r: u64)
        ensures
            final(self)@ == activated(old(self)@, path@),
            r == final(self)@.load_generation,
    {
        let p = path.duplicate();
        self.cancel_transition();
        self.load_generation = bump(self.load_generation);
        self.db_ready_notified = false;
        self.root = Some(p);
        self.pending_open = None;
        self.load_generation
    }

    /// Commits the transition to `path` once the workspace on screen is saved (`saved`
    /// is whether that succeeded): the document waiting for the new vault is opened there.
    /// When saving failed the transition is given up and `false` returned.
    pub fn commit_transition(&mut self, path: DocPath, saved: bool) -> (r: bool)
        ensures
            r == saved,
            !saved ==> final(self)@ == cancelled(old(self)@),
            saved ==> final(self)@ == committed(old(self)@, path@),
    {
        if !saved {
            self.cancel_transition();
            return false;
        }
        let open = self.pending_vault_open.take();
        self.pending_vault_path = None;
        self.activate(path);
        self.pending_open = open;
        true
    }

    /// After `from` was renamed to `to`, the document waiting to be opened follows it.
    pub fn rename_pending_open(&mut self, from: &DocPath, to: &DocPath)
        ensures
            final(self)@ == pending_renamed(old(self)@, from@, to@),
    {
        let next = match &self.pending_open {
            Some(PendingOpen::Open(p)) => Some(PendingOpen::Open(p.rebase(from, to))),
            Some(PendingOpen::Created(p)) => Some(PendingOpen::Created(p.rebase(from, to))),
            None => None,
        };
        self.pending_open = next;
    }

    /// Whether a vault load started under `generation` for `root` is still current.
    pub fn load_is_current(&self, generation: u64, root: &DocPath) -> (r: bool)
        ensures
            r == (self@.load_generation == generation && self@.root == Some(root@)),
    {
        let current = match &self.root {
            Some(p) => Some(p),
            None => None,
        };
        crate::workspace::is_current_vault_load(self.load_generation, current, generation, root)
    }
}

/// A batch of changes the catalog reported.
pub struct CatalogUpdate {
    pub structure_changed: bool,
    pub paths: Vec<DocPath>,
}

/// What one poll of the catalog does.
pub struct PollOutcome {
    /// The catalog changed since the last poll.
    pub catalog_changed: bool,
    /// Hand the ready catalog to the handlers of the tabs inside the vault.
    pub attach_catalog: bool,
    /// Announce that the catalog is ready (and remember that it was).
    pub announce_ready: bool,
    /// Announce that the catalog could not be loaded.
    pub announce_failed: bool,
    /// Rebuild the file tree.
    pub refresh_tree: bool,
    /// The documents to recheck: every path the updates reported, then, on the first
    /// ready poll, every open document inside the vault. The shell closes the tabs under
    /// those that no longer exist.
    pub changed_paths: Vec<DocPath>,
}

/// The paths of a batch of updates, in order.
pub open spec fn update_paths(updates: Seq<CatalogUpdate>) -> Seq<Seq<PartView>>
    decreases updates.len(),
{
    if updates.len() == 0 {
        Seq::empty()
    } else {
        update_paths(updates.drop_last()) + updates.last().paths@.map_values(|p: DocPath| p@)
    }
}

/// The open documents inside the vault `root`, in tab order.
pub open spec fn paths_under(open: Seq<Seq<PartView>>, root: Seq<PartView>) -> Seq<Seq<PartView>> {
    open.filter(|p: Seq<PartView>| starts_with(p, root))
}

/// Copies `src` onto the end of `dst`.
fn append_paths(dst: &mut Vec<DocPath>, src: &Vec<DocPath>)
    ensures
        final(dst)@.map_values(|p: DocPath| p@) == old(dst)@.map_values(|p: DocPath| p@) + src@.map_values(
            |p: DocPath| p@,
        ),
{
    let ghost start = dst@.map_values(|p: DocPath| p@);
    let mut i: usize = 0;
    while i < src.len()
        invariant
            i <= src@.len(),
            dst@.map_values(|p: DocPath| p@) == start + src@.subrange(0, i as int).map_values(
                |p: DocPath| p@,
            ),
        decreases src.len() - i,
    {
        let ghost before = dst@.map_values(|p: DocPath| p@);
        dst.push(src[i].duplicate());
        assert(dst@.map_values(|p: DocPath| p@) =~= before.push(src@[i as int]@));
        assert(src@.subrange(0, i + 1).map_values(|p: DocPath| p@) =~= src@.subrange(
            0,
            i as int,
        ).map_values(|p: DocPath| p@).push(src@[i as int]@));
        i = i + 1;
    }
    assert(src@.subrange(0, src@.len() as int) =~= src@);
}

/// One poll of the vault's catalog. `ready_notified` tells whether readiness was already
/// announced; `status` is the catalog's state (none without a catalog); `updates` are the
/// batches it reported since the last poll; `root` is the vault on screen and `open` the
/// documents of the open tabs.
pub fn poll_catalog(
    ready_notified: bool,
    status: Option<CatalogStatus>,
    updates: &Vec<CatalogUpdate>,
    root: Option<&DocPath>,
    open: &Vec<DocPath>,
) -> (r: PollOutcome)
    ensures
        r.catalog_changed == ((!ready_notified && status == Some(CatalogStatus::Ready))
            || updates@.len() > 0),
        r.attach_catalog == (r.catalog_changed && status == Some(CatalogStatus::Ready)
            && root is Some),
        r.announce_ready == (r.catalog_changed && status == Some(CatalogStatus::Ready)
            && !ready_notified),
        r.announce_failed == (r.catalog_changed && status == Some(CatalogStatus::Failed)),
        r.changed_paths@.map_values(|p: DocPath| p@) == update_paths(updates@) + (if r.attach_catalog
            && !ready_notified {
            paths_under(open@.map_values(|p: DocPath| p@), opt_view(root).unwrap())
        } else {
            Seq::empty()
        }),
        r.refresh_tree == ((r.catalog_changed && status == Some(CatalogStatus::Ready)) || (
        r.changed_paths@.len() > 0 && exists|i: int|
            0 <= i < updates@.len() && (#[trigger] updates@[i]).structure_changed)),
{
    let mut changed: Vec<DocPath> = Vec::new();
    let mut structure_changed = false;
    let mut i: usize = 0;
    while i < updates.len()
        invariant
            i <= updates@.len(),
            changed@.map_values(|p: DocPath| p@) == update_paths(updates@.subrange(0, i as int)),
            structure_changed == exists|j: int|
                0 <= j < i && (#[trigger] updates@[j]).structure_changed,
        decreases updates.len() - i,
    {
        proof {
            assert(updates@.subrange(0, i + 1).drop_last() =~= updates@.subrange(0, i as int));
        }
        append_paths(&mut changed, &updates[i].paths);
        if updates[i].structure_changed {
            structure_changed = true;
        }
        i = i + 1;
    }
    assert(updates@.subrange(0, updates@.len() as int) =~= updates@);
    let ready = match status {
        Some(CatalogStatus::Ready) => true,
        _ => false,
    };
    let failed = match status {
        Some(CatalogStatus::Failed) => true,
        _ => false,
    };
    let catalog_changed = (!ready_notified && ready) || updates.len() > 0;
    let mut attach = false;
    let mut refresh = false;
    if catalog_changed && ready {
        match root {
            Some(root) => {
                attach = true;
                if !ready_notified {
                    let ghost before = changed@.map_values(|p: DocPath| p@);
                    let ghost pred = |p: Seq<PartView>| starts_with(p, root@);
                    let ghost os = open@.map_values(|p: DocPath| p@);
                    let mut k: usize = 0;
                    while k < open.len()
                        invariant
                            k <= open@.len(),
                            os == open@.map_values(|p: DocPath| p@),
                            pred == (|p: Seq<PartView>| starts_with(p, root@)),
                            changed@.map_values(|p: DocPath| p@) == before + os.subrange(
                                0,
                                k as int,
                            ).filter(pred),
                        decreases open.len() - k,
                    {
                        proof {
                            crate::text::lemma_prefix_filter_step(os, pred, k as int);
                        }
                        if open[k].starts_with(root) {
                            let ghost b = changed@.map_values(|p: DocPath| p@);
                            changed.push(open[k].duplicate());
                            assert(changed@.map_values(|p: DocPath| p@) =~= b.push(os[k as int]));
                        }
                        k = k + 1;
                    }
                    assert(os.subrange(0, os.len() as int) =~= os);
                    assert(paths_under(os, root@) == os.filter(pred));
                }
            },
            None => {},
        }
        refresh = true;
    } else if changed.len() > 0 && structure_changed {
        refresh = true;
    }
    PollOutcome {
        catalog_changed,
        attach_catalog: attach,
        announce_ready: catalog_changed && ready && !ready_notified,
        announce_failed: catalog_changed && failed,
        refresh_tree: refresh,
        changed_paths: changed,
    }
}

/// Every request for another folder supersedes the transition under way: once it is
/// given up or another one starts, a completion for its generation is no longer current.
pub proof fn law_superseded_transitions_are_stale(
    s: SessionView,
    generation: u64,
    source: Option<Seq<PartView>>,
    path: Seq<PartView>,
    open: Option<(bool, Seq<PartView>)>,
)
    requires
        transition_current(s, generation, source),
    ensures
        !transition_current(cancelled(s), generation, source),
        !transition_current(started(s, path, open), generation, source),
{
}

/// A catalog that fails to open leaves the vault on screen, and the document waiting in
/// it, as they were.
pub proof fn law_failed_catalog_keeps_the_vault(s: SessionView, generation: u64, source: Option<Seq<PartView>>)
    ensures
        after_check(s, generation, source, false).1.root == s.root,
        after_check(s, generation, source, false).1.pending_open == s.pending_open,
        after_check(s, generation, source, false).1.load_generation == s.load_generation,
{
}

/// A request that does not join the transition under way gives it up. Whatever the
/// request (the vault already on screen, another folder, or something that is not a
/// folder), unless it asks for the folder already being opened, afterwards no folder is
/// being opened and no completion that was current before it is current any more; the
/// vault on screen stays.
pub proof fn law_requests_give_up_the_transition_under_way(
    s: SessionView,
    open: Option<(bool, Seq<PartView>)>,
    matches_root: bool,
    matches_pending: bool,
    is_dir: bool,
    generation: u64,
    source: Option<Seq<PartView>>,
)
    requires
        transition_current(s, generation, source),
    ensures
        ({
            let (r, t) = after_request(s, open, matches_root, matches_pending, is_dir);
            &&& r != VaultRequest::AlreadyPending ==> {
                &&& t.pending_vault_path is None
                &&& t.pending_vault_open is None
                &&& !transition_current(t, generation, source)
            }
            &&& t.root == s.root
            &&& t.load_generation == s.load_generation
        }),
{
}

/// Asking for the vault already on screen keeps it, and the document asked for becomes the
/// one to open in it; asking for the folder already being opened keeps that transition,
/// with the document asked for waiting for it.
pub proof fn law_requests_for_a_vault_already_there(
    s: SessionView,
    open: Option<(bool, Seq<PartView>)>,
    matches_pending: bool,
    is_dir: bool,
)
    ensures
        s.root is Some ==> ({
            let (r, t) = after_request(s, open, true, matches_pending, is_dir);
            &&& r == VaultRequest::AlreadyOpen
            &&& t.root == s.root
            &&& open is Some ==> t.pending_open == open
            &&& open is None ==> t.pending_open == s.pending_open
        }),
        (is_dir && s.pending_vault_path is Some) ==> ({
            let (r, t) = after_request(s, open, false, true, is_dir);
            &&& r == VaultRequest::AlreadyPending
            &&& t.transition_generation == s.transition_generation
            &&& t.pending_vault_path == s.pending_vault_path
            &&& open is Some ==> t.pending_vault_open == open
        }),
{
}

} // verus!
