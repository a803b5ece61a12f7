use datalith::file_tree::{is_expanded, quick_file_content, quick_file_name, resolve_target};
use datalith::file_tree::{enter_action, file_items, EnterAction};
use datalith::messages::NoticeKind;
use datalith::rename::{follow_rename, rename_allowed, rename_notice};
use datalith::tabs::{Tab, TabId, Tabs};
use datalith::vault_session::{PendingOpen, VaultSession};
use datalith::file_tree::{
    arrange_entries, mark_tree_item_expanded, navigate_down, navigate_up, remap_expanded, remap_tree,
    rename_destination, renamed_file_name, visible_tree_entry_count, DirEntry, DragFile, FileNode,
};
use datalith::paths::DocPath;

fn p(text: &str) -> DocPath {
    DocPath::parse(text)
}

fn node(path: &str, label: &str, expanded: bool, children: Vec<FileNode>) -> FileNode {
    FileNode { id: p(path), label: label.to_string(), is_dir: !children.is_empty(), expanded, children }
}

fn tree() -> Vec<FileNode> {
    vec![
        node(
            "/v/notes",
            "notes",
            true,
            vec![node("/v/notes/a.md", "a.md", false, vec![]), node("/v/notes/deep", "deep", false, vec![node("/v/notes/deep/x.md", "x.md", false, vec![])])],
        ),
        node("/v/b.md", "b.md", false, vec![]),
    ]
}

#[test]
fn only_rows_of_expanded_folders_count() {
    assert_eq!(visible_tree_entry_count(&tree()), 4);
    assert_eq!(visible_tree_entry_count(&Vec::new()), 0);
}

#[test]
fn expanding_records_a_folder_once_and_collapsing_forgets_it() {
    let mut ids = vec![p("/v/a")];
    mark_tree_item_expanded(&mut ids, &p("/v/b"), true);
    mark_tree_item_expanded(&mut ids, &p("/v/b"), true);
    assert_eq!(ids, vec![p("/v/a"), p("/v/b")]);
    mark_tree_item_expanded(&mut ids, &p("/v/a"), false);
    assert_eq!(ids, vec![p("/v/b")]);
    remap_expanded(&mut ids, &p("/v/b"), &p("/v/c"));
    assert_eq!(ids, vec![p("/v/c")]);
}

#[test]
fn arrow_keys_wrap_around_the_tree() {
    assert_eq!(navigate_up(Some(0), 5), Some(4));
    assert_eq!(navigate_up(Some(3), 5), Some(2));
    assert_eq!(navigate_down(Some(4), 5), Some(0));
    assert_eq!(navigate_down(Some(1), 5), Some(2));
    assert_eq!(navigate_down(None, 5), None);
}

#[test]
fn renaming_keeps_a_files_extension_unless_a_new_one_is_typed() {
    assert_eq!(renamed_file_name("report", Some("draft.md"), false), Some("report.md".to_string()));
    assert_eq!(renamed_file_name("report.txt", Some("draft.md"), false), Some("report.txt".to_string()));
    assert_eq!(renamed_file_name("report", Some(".hidden"), false), Some("report".to_string()));
    assert_eq!(renamed_file_name("archive", Some("notes.d"), true), Some("archive".to_string()));
    assert_eq!(renamed_file_name("x", Some("a.tar.gz"), false), Some("x.gz".to_string()));
    assert_eq!(renamed_file_name("", Some("a.md"), false), None);
}

#[test]
fn a_rename_lands_beside_its_target() {
    assert_eq!(rename_destination(&p("/v/notes/a.md"), "b.md"), Some(p("/v/notes/b.md")));
    assert_eq!(rename_destination(&p("/v/notes/a.md"), "a.md"), None);
    assert_eq!(rename_destination(&p("/"), "a.md"), None);
}

#[test]
fn dropped_files_keep_their_name() {
    let drag = DragFile { path: p("/v/notes/a.md") };
    assert_eq!(drag.drop_destination(&p("/v/archive")), Some(p("/v/archive/a.md")));
    let root = DragFile { path: p("/") };
    assert_eq!(root.drop_destination(&p("/v")), None);
}

#[test]
fn folders_come_first_then_names_ignoring_case() {
    let entries = vec![
        DirEntry { name: "zeta.md".to_string(), is_dir: false },
        DirEntry { name: ".git".to_string(), is_dir: true },
        DirEntry { name: "Beta".to_string(), is_dir: true },
        DirEntry { name: "alpha.md".to_string(), is_dir: false },
        DirEntry { name: "alpha".to_string(), is_dir: true },
        DirEntry { name: "Alpha.md".to_string(), is_dir: false },
    ];
    assert_eq!(arrange_entries(&entries), vec![4, 2, 3, 5, 0]);
}

#[test]
fn renaming_a_folder_moves_its_rows() {
    let moved = remap_tree(tree(), &p("/v/notes"), &p("/v/archive"), "archive");
    assert_eq!(moved[0].id, p("/v/archive"));
    assert_eq!(moved[0].label, "archive");
    assert_eq!(moved[0].children[1].children[0].id, p("/v/archive/deep/x.md"));
    assert_eq!(moved[0].children[0].label, "a.md");
    assert_eq!(moved[1].id, p("/v/b.md"));
}

#[test]
fn enter_toggles_folders_and_opens_files() {
    assert_eq!(enter_action(true, true, false), EnterAction::Collapse);
    assert_eq!(enter_action(true, false, true), EnterAction::Expand);
    assert_eq!(enter_action(false, false, true), EnterAction::Open { new_tab: true });
}

#[test]
fn new_files_go_next_to_the_selection_first() {
    assert_eq!(resolve_target(None, Some(&p("/v/a.md")), Some(&p("/v/b.md"))), Some(p("/v/a.md")));
    assert_eq!(resolve_target(Some(&p("/v/s")), Some(&p("/v/a.md")), None), Some(p("/v/s")));
    assert_eq!(resolve_target(None, None, None), None);
    assert_eq!(quick_file_name("md"), "New Note.md");
    assert_eq!(quick_file_content("base"), Some("views:\n  - type: table\n    name: All files\n"));
    assert_eq!(quick_file_content("md"), None);
    assert!(is_expanded(&vec![p("/v/a"), p("/v/b")], &p("/v/b")));
    assert!(!is_expanded(&vec![p("/v/a")], &p("/v/b")));
}

#[test]
fn up_and_down_come_back_to_the_same_row() {
    for count in 1..6usize {
        for ix in 0..count {
            assert_eq!(navigate_up(navigate_down(Some(ix), count), count), Some(ix));
            assert_eq!(navigate_down(navigate_up(Some(ix), count), count), Some(ix));
        }
    }
}

fn entry(name: &str, is_dir: bool) -> DirEntry {
    DirEntry { name: name.to_string(), is_dir }
}

#[test]
fn a_folder_lists_folders_first_with_their_children_and_expanded_state() {
    let entries = vec![entry("b.md", false), entry("Docs", true), entry(".git", true), entry("a.md", false), entry("archive", true)];
    let ids = vec![p("/v/b.md"), p("/v/Docs"), p("/v/.git"), p("/v/a.md"), p("/v/archive")];
    let inner = FileNode { id: p("/v/Docs/n.md"), label: "n.md".to_string(), is_dir: false, expanded: false, children: Vec::new() };
    let children = vec![Vec::new(), vec![inner], Vec::new(), Vec::new(), Vec::new()];
    let items = file_items(&entries, &ids, children, &vec![p("/v/Docs")]);
    let labels: Vec<&str> = items.iter().map(|n| n.label.as_str()).collect();
    assert_eq!(labels, vec!["archive", "Docs", "a.md", "b.md"]);
    assert!(!items[0].expanded);
    assert!(items[1].is_dir && items[1].expanded);
    assert_eq!(items[1].id, p("/v/Docs"));
    assert_eq!(items[1].children.len(), 1);
    assert_eq!(items[1].children[0].label, "n.md");
    assert!(!items[2].is_dir && !items[2].expanded && items[2].children.is_empty());
}

#[test]
fn a_rename_needs_two_different_writable_paths_and_a_catalog() {
    assert!(rename_allowed(&p("/v/a.md"), &p("/v/b.md"), false, false, true));
    assert!(!rename_allowed(&p("/v/a.md"), &p("/v/./a.md"), false, false, true));
    assert!(!rename_allowed(&p("/v/a.md"), &p("/v/b.md"), true, false, true));
    assert!(!rename_allowed(&p("/v/a.md"), &p("/v/b.md"), false, true, true));
    assert!(!rename_allowed(&p("/v/a.md"), &p("/v/b.md"), false, false, false));
}

#[test]
fn a_rename_reports_its_outcome() {
    let failed = rename_notice(None);
    assert_eq!(failed.kind, NoticeKind::Error);
    assert_eq!(failed.message, "Rename failed");
    assert!(!failed.autohide);
    let done = rename_notice(Some((2, 2)));
    assert_eq!(done.kind, NoticeKind::Success);
    assert_eq!(done.message, "Rename completed, 2 files updated");
    let partial = rename_notice(Some((1, 3)));
    assert_eq!(partial.kind, NoticeKind::Warning);
    assert_eq!(partial.message, "Rename completed partially, 1/3 files updated");
}

#[test]
fn tabs_the_pending_document_and_the_selection_follow_a_rename() {
    let mut tabs: Tabs<u32> = Tabs::new();
    tabs.insert(Tab::new(TabId(1), p("/v/old/a.md"), 1, vec![p("/v/x.md"), p("/v/old/a.md")], 1), true);
    tabs.insert(Tab::new(TabId(2), p("/v/y.md"), 2, vec![p("/v/y.md")], 0), true);
    let mut session = VaultSession::new();
    session.pending_open = Some(PendingOpen::Created(p("/v/old/b.md")));
    let mut selection = Some(p("/v/old"));
    follow_rename(&mut tabs, &mut session, &mut selection, &p("/v/old"), &p("/v/new"));
    assert_eq!(tabs.get(0).unwrap().path(), &p("/v/new/a.md"));
    assert_eq!(tabs.get(0).unwrap().history(), &vec![p("/v/x.md"), p("/v/new/a.md")]);
    assert_eq!(tabs.get(1).unwrap().path(), &p("/v/y.md"));
    assert!(matches!(&session.pending_open, Some(PendingOpen::Created(path)) if *path == p("/v/new/b.md")));
    assert_eq!(selection, Some(p("/v/new")));
}
