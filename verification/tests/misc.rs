use datalith::fonts::{choice_index, default_label, font_choices, font_label, font_options, role_id, FontRole};
use datalith::icons::DatalithIcon;
use datalith::links::{decode_link, link_action, LinkAction};
use datalith::messages::{decimal, rename_completed, rename_outcome, settings_save_failed, theme_fallback, NoticeKind};
use datalith::monolith::{parse_logo, LogoCell, Tier};
use datalith::navigation::NavigationAction;
use datalith::paths::DocPath;
use datalith::server_settings::{generate_token, hex_token, status_text, token_display, ServerStatus};
use datalith::startup::{startup_type, StartupType};
use datalith::todo::{
    menu_label, pill_labels, priority_option_id, priority_rgb, priority_token, row_key_action, step_priority, RowKeyAction,
};

#[test]
fn priorities_step_around_the_picker() {
    assert_eq!(step_priority(None, true), "(E)");
    assert_eq!(step_priority(None, false), "(A)");
    assert_eq!(step_priority(Some('E'), false), "");
    assert_eq!(step_priority(Some('B'), true), "(A)");
    assert_eq!(step_priority(Some('Z'), false), "(A)");
    assert_eq!(priority_token(Some('C')), "(C)");
    assert_eq!(priority_token(None), "");
    assert_eq!(menu_label(None), "×");
    assert_eq!(priority_rgb('A'), 0xEF4444);
    assert_eq!(priority_rgb('Q'), 0x9CA3AF);
}

#[test]
fn priority_menu_ids_pack_the_row_and_the_letter() {
    assert_eq!(priority_option_id(3, Some('A')), (3 << 4) | 65);
    assert_eq!(priority_option_id(0, None), 215);
    assert_eq!(priority_option_id(1, None), 16 | 215);
}

#[test]
fn the_logo_grid_reads_tiers_by_row_and_column() {
    let logo = parse_logo("  M1\n\n   \r\n2 I\n");
    assert_eq!(logo.height, 2);
    assert_eq!(logo.width, 4);
    assert_eq!(
        logo.cells,
        vec![
            LogoCell { col: 2, row: 0, tier: Tier::Light },
            LogoCell { col: 3, row: 0, tier: Tier::RightSide },
            LogoCell { col: 0, row: 1, tier: Tier::LeftSide },
            LogoCell { col: 2, row: 1, tier: Tier::Inscription },
        ]
    );
}

#[test]
fn notifications_spell_out_counts() {
    assert_eq!(decimal(0), "0");
    assert_eq!(decimal(4096), "4096");
    let done = rename_completed(0);
    assert_eq!(done.message, "Rename completed");
    assert_eq!(done.kind, NoticeKind::Success);
    assert_eq!(rename_completed(12).message, "Rename completed, 12 files updated");
    let partial = rename_outcome(2, 5);
    assert_eq!(partial.message, "Rename completed partially, 2/5 files updated");
    assert_eq!(partial.kind, NoticeKind::Warning);
    assert!(!partial.autohide);
    assert_eq!(settings_save_failed("font", "disk full").message, "Failed to save font: disk full");
    assert_eq!(theme_fallback("Old", "Default").message, "Saved theme \"Old\" is not available, using \"Default\"");
}

#[test]
fn tokens_are_hex_and_shown_shortened() {
    assert_eq!(hex_token(&vec![0x00, 0xab, 0x7f]), "00ab7f");
    let token = generate_token();
    assert_eq!(token.len(), 32);
    assert!(token.chars().all(|c| c.is_ascii_digit() || ('a'..='f').contains(&c)));
    assert_ne!(token, "0".repeat(32));
    assert_ne!(generate_token(), generate_token());
    assert_eq!(token_display(None), "Not set");
    assert_eq!(token_display(Some("abcdef")), "abcd…");
    assert_eq!(token_display(Some("ab")), "ab…");
    assert_eq!(token_display(Some("aé€")), "aé€…");
    assert_eq!(token_display(Some("aébc")), "aéb…");
}

#[test]
fn the_server_status_line() {
    assert_eq!(status_text(&ServerStatus::Running(27124), "127.0.0.1"), "Running on 127.0.0.1:27124");
    assert_eq!(status_text(&ServerStatus::Stopped, "127.0.0.1"), "Stopped");
    assert_eq!(status_text(&ServerStatus::Failed("port in use".to_string()), "127.0.0.1"), "port in use");
}

#[test]
fn font_pickers_list_the_default_the_families_and_a_missing_selection() {
    let families = vec!["Arial".to_string(), "Helvetica".to_string()];
    let options = font_options(default_label("Inter", false), &families, Some("Comic"));
    let labels: Vec<&str> = options.iter().map(|o| o.label.as_str()).collect();
    assert_eq!(labels, ["Theme (Inter)", "Arial", "Helvetica", "Comic (unavailable)"]);
    assert!(options[3].unavailable && !options[1].unavailable);
    assert_eq!(choice_index(&options, "Helvetica"), 2);
    assert_eq!(choice_index(&options, "Nope"), 0);
    assert_eq!(default_label(".SystemUIFont", true), "Theme (SF Pro)");
    assert_eq!(default_label(".SystemUIFont", false), "Theme (.SystemUIFont)");
    let choices = font_choices(&families, "Arial");
    assert_eq!(choices.len(), 3);
    assert_eq!(choices[0].label, "Datalith default");
    assert_eq!(font_choices(&families, "Gone").len(), 4);
    assert_eq!(role_id(FontRole::Code), "font-code");
    assert_eq!(font_label(FontRole::Code), "Code and editing");
}

#[test]
fn links_are_decoded_before_they_are_resolved() {
    assert_eq!(decode_link("My%20Note.md"), "My Note.md");
    assert_eq!(decode_link("plain.md"), "plain.md");
    assert_eq!(decode_link("bad%zz"), "bad%zz");
    match link_action("https://example.com", None, false) {
        LinkAction::OpenUrl(url) => assert_eq!(url, "https://example.com"),
        LinkAction::OpenDocument { .. } => panic!("an unresolved link opens as a URL"),
    }
    match link_action("a.md", Some(DocPath::parse("/v/a.md")), true) {
        LinkAction::OpenDocument { path, new_tab } => {
            assert_eq!(path, DocPath::parse("/v/a.md"));
            assert!(new_tab);
        }
        LinkAction::OpenUrl(_) => panic!("a resolved link opens the document"),
    }
}

#[test]
fn small_enums_and_assets() {
    assert_eq!(DatalithIcon::Settings.asset(), "icons/gear.svg");
    assert_eq!(DatalithIcon::ArrowDownAz.asset(), "icons/arrow-down-a-z.svg");
    assert_eq!(startup_type(true), StartupType::First);
    assert_eq!(startup_type(false), StartupType::Standard);
    assert_ne!(NavigationAction::GoBack, NavigationAction::GoForward);
}

#[test]
fn arrow_steps_on_the_priority_pill_undo_each_other() {
    let values = [None, Some('A'), Some('B'), Some('C'), Some('D'), Some('E')];
    for (ix, value) in values.iter().enumerate() {
        let down = values[(ix + 1) % values.len()];
        let up = values[(ix + values.len() - 1) % values.len()];
        assert_eq!(step_priority(*value, false), priority_token(down));
        assert_eq!(step_priority(*value, true), priority_token(up));
    }
}

#[test]
fn every_cell_of_the_mark_lies_inside_it() {
    let logo = parse_logo("M1 2\n I\n\n  MMMMM\n");
    assert_eq!(logo.width, 7);
    assert_eq!(logo.height, 3);
    assert!(logo.cells.iter().all(|c| c.col < logo.width && c.row < logo.height));
    assert_eq!(logo.cells.len(), 9);
}

#[test]
fn keys_in_a_task_description() {
    let visible = &vec![0, 2, 5];
    assert_eq!(row_key_action("enter", true, false, visible, 2), RowKeyAction::AddSubtask);
    assert_eq!(row_key_action("enter", false, false, visible, 2), RowKeyAction::ToggleComplete);
    assert_eq!(row_key_action("backspace", true, true, visible, 2), RowKeyAction::Delete);
    assert_eq!(row_key_action("backspace", true, false, visible, 2), RowKeyAction::Nothing);
    assert_eq!(row_key_action("up", false, false, visible, 2), RowKeyAction::FocusTask(0));
    assert_eq!(row_key_action("up", false, false, visible, 0), RowKeyAction::FocusSearch);
    assert_eq!(row_key_action("down", false, false, visible, 2), RowKeyAction::FocusTask(5));
    assert_eq!(row_key_action("down", false, false, visible, 5), RowKeyAction::FocusNewTask);
    assert_eq!(row_key_action("down", false, false, visible, 3), RowKeyAction::Nothing);
    let projects = vec!["home".to_string()];
    let contexts = vec!["phone".to_string(), "desk".to_string()];
    assert_eq!(pill_labels(&projects, &contexts), vec!["+home", "@phone", "@desk"]);
}
