use datalith::navigation::{can_go_back, next_history, plan_open, OpenMode, OpenPlan, TabIdChoice};
use datalith::paths::{DocPath, PathPart};
use datalith::tabs::{active_after_removal, same_document, Tab, TabId, Tabs, ViewMode};
use datalith::workspace::{restore_steps, restore_tabs, snapshot, RestoreStep};

fn p(text: &str) -> DocPath {
    DocPath::parse(text)
}

#[test]
fn closing_tabs_keeps_a_valid_selection_or_clears_the_last_one() {
    assert_eq!(active_after_removal(Some(2), 0, 2), Some(1));
    assert_eq!(active_after_removal(Some(2), 2, 2), Some(1));
    assert_eq!(active_after_removal(Some(0), 0, 0), None);
}

#[test]
fn document_identity_uses_normalized_paths_and_excludes_empty_tabs() {
    assert!(same_document(&p("./notes/../notes/today.md"), &p("notes/today.md"), None));
    assert!(!same_document(&p(""), &p("notes/today.md"), None));
}

#[test]
fn history_appends_replaces_current_and_branches_after_back() {
    let history = vec![p("a.md")];
    let (history, position) = next_history(&history, 0, &p("b.md"));
    assert_eq!(history, [p("a.md"), p("b.md")]);
    assert_eq!(position, 1);

    let (same_history, same_position) = next_history(&history, 1, &p("b.md"));
    assert_eq!(same_history, history);
    assert_eq!(same_position, 1);

    let (branched, branch_position) = next_history(&vec![p("a.md"), p("b.md"), p("c.md")], 0, &p("d.md"));
    assert_eq!(branched, [p("a.md"), p("d.md")]);
    assert_eq!(branch_position, 1);
}

fn tab(id: u64, path: &str) -> Tab<u32> {
    Tab::new(TabId(id), p(path), id as u32, vec![p(path)], 0)
}

#[test]
fn closing_the_active_tab_selects_its_neighbour() {
    let mut tabs: Tabs<u32> = Tabs::new();
    tabs.insert(tab(1, "a.md"), true);
    tabs.insert(tab(2, "b.md"), true);
    tabs.insert(tab(3, "c.md"), true);
    assert_eq!(tabs.active_index(), Some(2));
    assert!(tabs.remove(2));
    assert_eq!(tabs.active_index(), Some(1));
    assert_eq!(tabs.active_tab_id(), Some(TabId(2)));
    assert!(tabs.select(0));
    assert!(tabs.remove(1));
    assert_eq!(tabs.active_index(), Some(0));
    assert!(tabs.remove(0));
    assert_eq!(tabs.active_index(), None);
    assert!(!tabs.remove(0));
}

#[test]
fn renaming_a_folder_moves_the_open_documents_under_it() {
    let mut tabs: Tabs<u32> = Tabs::new();
    tabs.insert(tab(1, "/vault/notes/a.md"), true);
    tabs.insert(tab(2, "/vault/other.md"), true);
    tabs.rename_path(&p("/vault/notes"), &p("/vault/archive"));
    let paths = tabs.open_paths();
    assert_eq!(paths, vec![p("/vault/archive/a.md"), p("/vault/other.md")]);
    tabs.close_under(&p("/vault/archive"));
    assert_eq!(tabs.open_paths(), vec![p("/vault/other.md")]);
    assert_eq!(tabs.active_index(), Some(0));
}

#[test]
fn finding_a_path_compares_normalized_documents() {
    let mut tabs: Tabs<u32> = Tabs::new();
    tabs.insert(tab(7, "/vault/a.md"), true);
    tabs.insert(tab(8, "/vault/b.md"), true);
    assert_eq!(tabs.find_path(&p("/vault/./x/../b.md"), None), Some(1));
    assert_eq!(tabs.find_path(&p("/vault/c.md"), None), None);
    assert!(tabs.select_by_id(&TabId(7)));
    assert_eq!(tabs.active_index(), Some(0));
    assert_eq!(tabs.handler_for_path(&p("/vault/b.md"), None), Some(&8));
}

#[test]
fn restoring_a_snapshot_gives_the_same_tabs_back_without_history() {
    let mut tabs: Tabs<ViewMode> = Tabs::new();
    tabs.insert(Tab::new(TabId(1), p("/v/b.md"), ViewMode::View, vec![p("/v/a.md"), p("/v/b.md")], 1), true);
    tabs.insert(Tab::new(TabId(2), p("/v/a.md"), ViewMode::Edit, vec![p("/v/a.md")], 0), true);
    tabs.insert(Tab::new(TabId(3), DocPath::empty(), ViewMode::View, Vec::new(), 0), true);
    assert!(tabs.select(0));
    assert!(can_go_back(&tabs));

    let modes = vec![ViewMode::View, ViewMode::Edit, ViewMode::View];
    let saved = snapshot(&tabs, &modes);
    assert_eq!(saved.1, Some(TabId(1)));
    assert_eq!(saved.0[0].path, Some(p("/v/b.md")));
    assert_eq!(saved.0[2].path, None);

    let steps = restore_steps(&saved.0, &vec![true, true, true]);
    let handlers: Vec<ViewMode> = steps
        .iter()
        .map(|step| match step {
            RestoreStep::Open { mode, .. } | RestoreStep::Empty { mode, .. } => *mode,
        })
        .collect();
    restore_tabs(&mut tabs, steps, handlers, saved.1);

    assert_eq!(snapshot(&tabs, &modes), saved);
    assert!(!can_go_back(&tabs));
    assert_eq!(tabs.active_index(), Some(0));
    assert_eq!(tabs.get(0).unwrap().history(), &vec![p("/v/b.md")]);
    assert_eq!(tabs.get(2).unwrap().history().len(), 0);
}

#[test]
fn restoring_without_the_saved_active_tab_selects_the_first_tab() {
    let mut tabs: Tabs<ViewMode> = Tabs::new();
    let steps = vec![
        RestoreStep::Empty { id: TabId(4), mode: ViewMode::View },
        RestoreStep::Open { id: TabId(5), path: p("/v/c.md"), mode: ViewMode::Edit },
    ];
    restore_tabs(&mut tabs, steps, vec![ViewMode::View, ViewMode::Edit], Some(TabId(9)));
    assert_eq!(tabs.len(), 2);
    assert_eq!(tabs.active_tab_id(), Some(TabId(4)));

    let mut none: Tabs<ViewMode> = Tabs::new();
    restore_tabs(&mut none, Vec::new(), Vec::new(), Some(TabId(9)));
    assert_eq!(none.active_index(), None);
}

#[test]
fn joining_follows_prefix_and_root_rules() {
    let drive = |name: &str| PathPart::Prefix(name.to_string());
    let name = |text: &str| PathPart::Normal(text.to_string());
    let base = DocPath::from_parts(vec![drive("C:"), PathPart::Root, name("docs")]);
    let rooted = DocPath::from_parts(vec![PathPart::Root, name("notes")]);
    assert_eq!(base.join(&rooted), DocPath::from_parts(vec![drive("C:"), PathPart::Root, name("notes")]));
    let other_drive = DocPath::from_parts(vec![drive("D:"), name("x")]);
    assert_eq!(base.join(&other_drive), DocPath::from_parts(vec![drive("D:"), name("x")]));
    assert_eq!(
        base.join(&p("a.md")),
        DocPath::from_parts(vec![drive("C:"), PathPart::Root, name("docs"), name("a.md")])
    );
    assert_eq!(p("/v").join(&p("/w/a.md")), p("/w/a.md"));
    assert_eq!(p("/v").join(&p("a.md")), p("/v/a.md"));
    assert_eq!(p("docs").absolute(Some(&p("/home"))), p("/home/docs"));
    assert_eq!(p("/etc").absolute(Some(&p("/home"))), p("/etc"));
    assert_eq!(p("docs").absolute(None), p("docs"));
}

#[test]
fn opening_an_open_document_focuses_the_active_tab_before_the_first_match() {
    let mut tabs: Tabs<u32> = Tabs::new();
    tabs.insert(tab(1, "/v/a.md"), true);
    tabs.insert(tab(2, "/v/b.md"), true);
    tabs.insert(tab(3, "/v/a.md"), true);
    let plan = plan_open(&tabs, &p("/v/./a.md"), &OpenMode::NewTab, true, None, ViewMode::View, None);
    assert!(matches!(plan, OpenPlan::Focus(2)));
    assert!(tabs.select(1));
    let plan = plan_open(&tabs, &p("/v/a.md"), &OpenMode::Replace, true, None, ViewMode::View, None);
    assert!(matches!(plan, OpenPlan::Focus(0)));
    let plan = plan_open(&tabs, &p("/v/a.md"), &OpenMode::Replace, false, None, ViewMode::View, None);
    assert!(matches!(plan, OpenPlan::Unsupported));
    let plan = plan_open(&tabs, &p("/v/c.md"), &OpenMode::Replace, true, Some(ViewMode::Edit), ViewMode::View, None);
    match plan {
        OpenPlan::Open { id, mode, history, history_position, new_tab } => {
            assert_eq!(id, TabIdChoice::Keep(TabId(2)));
            assert_eq!(mode, ViewMode::Edit);
            assert_eq!(history, vec![p("/v/b.md"), p("/v/c.md")]);
            assert_eq!(history_position, 1);
            assert!(!new_tab);
        }
        _ => panic!("a document that is not open is opened"),
    }
}
