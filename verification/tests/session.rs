use datalith::workspace::{restore_steps, RestoreStep, WorkspaceTab};
use datalith::menu_session::{MenuOpen, MenuSession};
use datalith::paths::DocPath;
use datalith::settings::{
    about_logo_rgb, about_page_index, shown_page_titles, updates_description, updates_label, Channel, SettingsNav, SettingsPage,
};
use datalith::vault_session::{poll_catalog, CatalogStatus, CatalogUpdate, PendingOpen, TransitionCheck, VaultRequest, VaultSession};
use datalith::workspace::{
    initial_workspace, is_current_vault_load, restored_expanded, restored_selection, same_vault_path, save_check, SaveCheck,
};
use datalith::tabs::{TabId, ViewMode};

fn p(text: &str) -> DocPath {
    DocPath::parse(text)
}

fn opened(path: &str) -> Option<PendingOpen> {
    Some(PendingOpen::Open(p(path)))
}

#[test]
fn a_transition_commits_only_while_it_is_current() {
    let mut s = VaultSession::new();
    s.activate(p("/a"));
    assert_eq!(s.request(opened("/b/x.md"), false, false, true), VaultRequest::Proceed);
    let (generation, source) = s.start_transition(p("/b"), opened("/b/x.md"));
    assert!(s.transition_is_current(generation, &source));
    assert_eq!(s.check_transition(generation, &source, true), TransitionCheck::SaveFirst);
    assert!(s.commit_transition(p("/b"), true));
    assert_eq!(s.root, Some(p("/b")));
    assert!(matches!(&s.pending_open, Some(PendingOpen::Open(path)) if *path == p("/b/x.md")));
    assert_eq!(s.pending_vault_path, None);
}

#[test]
fn a_newer_request_makes_the_older_completion_stale() {
    let mut s = VaultSession::new();
    s.activate(p("/a"));
    s.request(None, false, false, true);
    let (first, source) = s.start_transition(p("/b"), None);
    assert_eq!(s.request(None, false, false, true), VaultRequest::Proceed);
    let (second, _) = s.start_transition(p("/c"), None);
    assert_ne!(first, second);
    assert_eq!(s.check_transition(first, &source, true), TransitionCheck::Stale);
    assert_eq!(s.pending_vault_path, Some(p("/c")));
    assert_eq!(s.check_transition(second, &source, false), TransitionCheck::CatalogFailed);
    assert_eq!(s.pending_vault_path, None);
    assert_eq!(s.root, Some(p("/a")));
}

#[test]
fn requests_for_the_open_or_pending_vault_succeed_at_once() {
    let mut s = VaultSession::new();
    s.activate(p("/a"));
    assert_eq!(s.request(opened("/a/n.md"), true, false, true), VaultRequest::AlreadyOpen);
    assert!(matches!(&s.pending_open, Some(PendingOpen::Open(path)) if *path == p("/a/n.md")));
    s.start_transition(p("/b"), None);
    assert_eq!(s.request(Some(PendingOpen::Created(p("/b/new.md"))), false, true, true), VaultRequest::AlreadyPending);
    assert!(matches!(&s.pending_vault_open, Some(PendingOpen::Created(path)) if *path == p("/b/new.md")));
    assert_eq!(s.request(None, false, false, false), VaultRequest::Unavailable);
    assert_eq!(s.pending_vault_path, None);
}

#[test]
fn a_failed_save_gives_the_transition_up() {
    let mut s = VaultSession::new();
    s.activate(p("/a"));
    let (g, src) = s.start_transition(p("/b"), None);
    assert_eq!(s.check_transition(g, &src, true), TransitionCheck::SaveFirst);
    assert!(!s.commit_transition(p("/b"), false));
    assert_eq!(s.root, Some(p("/a")));
    assert_eq!(s.check_transition(g, &src, true), TransitionCheck::Stale);
}

#[test]
fn loads_of_an_earlier_vault_are_ignored() {
    let mut s = VaultSession::new();
    let first = s.activate(p("/a"));
    assert!(s.load_is_current(first, &p("/a")));
    let second = s.activate(p("/b"));
    assert!(!s.load_is_current(first, &p("/a")));
    assert!(s.load_is_current(second, &p("/b")));
    assert!(is_current_vault_load(3, Some(&p("/a")), 3, &p("/a")));
    assert!(!is_current_vault_load(3, None, 3, &p("/a")));
}

#[test]
fn renames_carry_the_waiting_document_along() {
    let mut s = VaultSession::new();
    s.activate(p("/v"));
    s.request(opened("/v/notes/a.md"), true, false, true);
    s.rename_pending_open(&p("/v/notes"), &p("/v/archive"));
    assert!(matches!(&s.pending_open, Some(PendingOpen::Open(path)) if *path == p("/v/archive/a.md")));
}

#[test]
fn the_first_ready_poll_rechecks_open_documents_and_announces_once() {
    let open = vec![p("/v/a.md"), p("/elsewhere/b.md"), p("/v/c.md")];
    let out = poll_catalog(false, Some(CatalogStatus::Ready), &Vec::new(), Some(&p("/v")), &open);
    assert!(out.catalog_changed && out.attach_catalog && out.announce_ready && out.refresh_tree);
    assert_eq!(out.changed_paths, vec![p("/v/a.md"), p("/v/c.md")]);
    let quiet = poll_catalog(true, Some(CatalogStatus::Ready), &Vec::new(), Some(&p("/v")), &open);
    assert!(!quiet.catalog_changed && !quiet.refresh_tree && quiet.changed_paths.is_empty());
    let updates = vec![CatalogUpdate { structure_changed: true, paths: vec![p("/v/new.md")] }];
    let loading = poll_catalog(false, Some(CatalogStatus::Loading), &updates, Some(&p("/v")), &open);
    assert!(loading.catalog_changed && !loading.attach_catalog && loading.refresh_tree);
    assert_eq!(loading.changed_paths, vec![p("/v/new.md")]);
    let failed = poll_catalog(false, Some(CatalogStatus::Failed), &updates, Some(&p("/v")), &open);
    assert!(failed.announce_failed && !failed.announce_ready);
}

#[test]
fn vaults_are_compared_by_canonical_form_when_known() {
    assert!(same_vault_path(&p("/a/../b"), &p("/b"), Some(&p("/b")), Some(&p("/b"))));
    assert!(!same_vault_path(&p("/a/../b"), &p("/b"), None, Some(&p("/b"))));
    assert!(same_vault_path(&p("/b"), &p("/b"), None, None));
}

#[test]
fn a_first_start_opens_the_welcome_note() {
    let ws = initial_workspace(&p("/docs/vault"), &p("Welcome.md"), true, true, TabId(5));
    assert_eq!(ws.tabs.len(), 1);
    assert_eq!(ws.tabs[0].path, Some(p("/docs/vault/Welcome.md")));
    assert_eq!(ws.tabs[0].mode, ViewMode::View);
    assert_eq!(ws.active_tab_id, Some(TabId(5)));
    let later = initial_workspace(&p("/docs/vault"), &p("Welcome.md"), false, true, TabId(5));
    assert!(later.tabs.is_empty() && later.active_tab_id.is_none());
}

#[test]
fn the_menu_session_wraps_and_returns_focus() {
    let disabled = vec![false, false, true, false];
    let mut m = MenuSession::new();
    assert_eq!(m.open(0, false, &disabled, true), MenuOpen::Open { ix: 0, capture_focus: true });
    assert_eq!(m.left_target(4), Some(3));
    assert_eq!(m.open(3, false, &disabled, false), MenuOpen::Open { ix: 3, capture_focus: false });
    assert_eq!(m.right_target(4), Some(0));
    assert_eq!(m.open(2, false, &disabled, false), MenuOpen::Unchanged);
    assert_eq!(m.open(3, true, &disabled, false), MenuOpen::Unchanged);
    assert!(m.close(true));
    assert!(!m.close(true));
    assert_eq!(m.left_target(4), None);
}

#[test]
fn settings_open_on_the_right_page() {
    assert_eq!(about_page_index(), 2);
    assert_eq!(SettingsPage::Server.title(), "Local Server");
    assert_eq!(shown_page_titles(true), vec!["General", "Appearance", "Local Server", "About"]);
    assert_eq!(shown_page_titles(false), vec!["Appearance", "Local Server", "About"]);
    let mut nav = SettingsNav::new(true);
    nav.open_about();
    assert!(nav.open);
    assert_eq!(nav.page_index, 3);
    nav.close();
    assert!(!nav.open);
    nav.open();
    assert_eq!(nav.page_index, 0);
    let mut dev = SettingsNav::new(false);
    dev.open_about();
    assert_eq!(dev.page_index, 2);
}

#[test]
fn restoring_reopens_documents_recreates_empty_tabs_and_drops_missing_ones() {
    let saved = vec![
        WorkspaceTab { id: TabId(1), path: Some(p("/v/a.md")), mode: ViewMode::Edit },
        WorkspaceTab { id: TabId(2), path: Some(p("/v/gone.md")), mode: ViewMode::View },
        WorkspaceTab { id: TabId(3), path: None, mode: ViewMode::View },
    ];
    let steps = restore_steps(&saved, &vec![true, false, true]);
    assert_eq!(steps.len(), 2);
    assert!(matches!(&steps[0], RestoreStep::Open { id: TabId(1), path, mode: ViewMode::Edit } if *path == p("/v/a.md")));
    assert!(matches!(&steps[1], RestoreStep::Empty { id: TabId(3), mode: ViewMode::View }));
}

#[test]
fn left_and_right_come_back_to_the_same_menu() {
    let disabled = vec![false; 4];
    for ix in 0..4usize {
        let mut m = MenuSession::new();
        m.open(ix, false, &disabled, false);
        let left = m.left_target(4).unwrap();
        m.open(left, false, &disabled, false);
        assert_eq!(m.right_target(4), Some(ix));
    }
}

#[test]
fn a_vault_restores_only_its_own_folders_and_selection() {
    let folders = vec![p("/v/a"), p("/other/b"), p("/v/gone")];
    let kept = restored_expanded(&folders, &vec![true, true, false], &p("/v"));
    assert_eq!(kept, vec![p("/v/a")]);
    assert_eq!(restored_selection(Some(&p("/v/a.md")), true, &p("/v")), Some(p("/v/a.md")));
    assert_eq!(restored_selection(Some(&p("/v/a.md")), false, &p("/v")), None);
    assert_eq!(restored_selection(Some(&p("/w/a.md")), true, &p("/v")), None);
}

#[test]
fn saving_needs_a_readable_workspace_and_a_machine_identity() {
    assert_eq!(save_check(false, true, false), SaveCheck::NothingOpen);
    assert_eq!(save_check(true, true, true), SaveCheck::Blocked);
    assert_eq!(save_check(true, false, false), SaveCheck::NoMachineId);
    assert_eq!(save_check(true, false, true), SaveCheck::Save);
    assert_eq!(SaveCheck::Blocked.reason(), Some("the saved workspace could not be read and was left untouched"));
    assert_eq!(SaveCheck::Save.reason(), None);
}

#[test]
fn channels_set_the_update_texts_and_the_mark_colour() {
    assert_eq!(
        updates_description(Channel::Preview),
        "Periodically check for and download release candidates. Stable releases are not offered."
    );
    assert_eq!(updates_description(Channel::Stable), "Periodically check for and download updates in the background.");
    assert_eq!(updates_label("Datalith"), "Automatically update Datalith");
    assert_eq!(about_logo_rgb(Channel::Stable), None);
    assert_eq!(about_logo_rgb(Channel::Dev), Some(0x30ba78));
}
