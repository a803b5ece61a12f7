use datalith::theme_editor::{
    add_variant_step, repaints_application, AddVariant,
    color_label, color_target, rename_commits, suffix_error, variant_label, variant_name_defaults, ColorEdit, ColorRow,
    ColorTarget, SuffixError, VariantSuffix, color_rows, save_status_text, HighlightColor, ResolvedColors, SaveStatus,
};
use datalith::theme_page::{
    current_theme_heading, font_display, import_choice, import_title, plan_import, shown_variants,
    variant_accessibility_text, variant_action, variant_count_label, FamilyActions, preference_from_label, preference_index, theme_rows,
    FamilyInfo, FamilyRow, ImportChoice, RowHeading, ThemeFilter, ThemePreference, VariantInfo,
};
use datalith::theme_schema::{description, group, label};

#[test]
fn tokens_are_grouped_by_their_first_segment() {
    assert_eq!(group("highlight:syntax.keyword"), "Syntax");
    assert_eq!(group("highlight:editor.background"), "Source editor");
    assert_eq!(group("base.red"), "Base palette");
    assert_eq!(group("tab_bar.background"), "Navigation");
    assert_eq!(group("primary.hover.background"), "Buttons");
    assert_eq!(group("caret"), "Inputs & selection");
    assert_eq!(group("table.head.background"), "Lists & tables");
    assert_eq!(group("warning.foreground"), "Feedback");
    assert_eq!(group("drop_target"), "Workspace");
    assert_eq!(group("chart.1"), "Other components");
}

#[test]
fn labels_spell_out_every_segment() {
    assert_eq!(label("foreground"), "Text");
    assert_eq!(label("tab_bar.active.background"), "Tab bar · Selected / pressed · Background");
    assert_eq!(label("highlight:syntax.comment_doc"), "Comment doc");
    assert_eq!(label("highlight:editor.active_line_number"), "Editor · Active line number");
    assert_eq!(label("table.head.foreground"), "Table · Header · Text");
    assert_eq!(label("base.ring"), "Palette · Focus outline");
    assert_eq!(label("a..b"), "A ·  · B");
}

#[test]
fn descriptions_follow_the_schema_areas() {
    assert_eq!(description("highlight:syntax.keyword"), "Source syntax: keywords such as let, if and return");
    assert_eq!(description("highlight:syntax.emphasis.strong"), "Markdown source: emphasized text");
    assert_eq!(description("highlight:syntax.tag"), "Source syntax: used when the language grammar recognizes this token");
    assert_eq!(description("window.border"), "Window border on Linux only; no effect on macOS");
    assert_eq!(description("sidebar.accent.background"), "Library Sidebar states; Datalith file rows use the List colors instead");
    assert_eq!(description("danger.background"), "Status messages, progress indicators and semantic action colors");
    assert_eq!(description("chart.1"), "Component-library setting; this component is not currently shown in Datalith");
    assert_eq!(description("muted.background"), "Shared workspace color; specific component colors can override it");
}

#[test]
fn essential_colors_have_their_own_labels() {
    assert_eq!(color_label("primary.background"), "Primary accent");
    assert_eq!(color_label("muted.background"), "Muted surface");
    assert_eq!(color_label("list.active.border"), "List · Selected / pressed · Border");
}

#[test]
fn variants_are_named_by_suffix_or_mode() {
    assert_eq!(variant_label(Some("Mocha"), true), "Mocha");
    assert_eq!(variant_label(Some(""), true), "Dark");
    assert_eq!(variant_label(None, false), "Light");
}

#[test]
fn the_first_split_proposes_two_distinct_names() {
    assert_eq!(variant_name_defaults(None), ("Variant 1".to_string(), "Variant 2".to_string()));
    assert_eq!(variant_name_defaults(Some("")), ("Variant 1".to_string(), "Variant 2".to_string()));
    assert_eq!(variant_name_defaults(Some("variant 1")), ("variant 1".to_string(), "Variant 2".to_string()));
    assert_eq!(variant_name_defaults(Some("Latte")), ("Latte".to_string(), "Variant 1".to_string()));
}

fn variants() -> Vec<VariantSuffix> {
    vec![
        VariantSuffix { id: 1, suffix: Some("Latte".to_string()) },
        VariantSuffix { id: 2, suffix: Some("Mocha".to_string()) },
        VariantSuffix { id: 3, suffix: None },
    ]
}

#[test]
fn suffixes_must_be_set_and_unique() {
    let vs = variants();
    assert_eq!(suffix_error("  ", 1, &vs), Some(SuffixError::Missing));
    assert_eq!(suffix_error(" mocha ", 1, &vs), Some(SuffixError::Duplicate));
    assert_eq!(suffix_error("Mocha", 2, &vs), None);
    assert_eq!(suffix_error("Frappé", 1, &vs), None);
    let single = vec![VariantSuffix { id: 9, suffix: Some("Only".to_string()) }];
    assert_eq!(suffix_error("", 9, &single), None);
    assert_eq!(SuffixError::Missing.message(), "Enter a variant suffix");
    assert_eq!(SuffixError::Duplicate.message(), "Variant suffix already exists");
}

#[test]
fn renames_commit_only_valid_changes() {
    assert!(rename_commits(true, None, Some("Latte"), " Frappé "));
    assert!(!rename_commits(true, None, Some("Latte"), " Latte "));
    assert!(!rename_commits(false, None, Some("Latte"), "Frappé"));
    assert!(!rename_commits(true, Some(SuffixError::Duplicate), Some("Latte"), "Mocha"));
    assert!(rename_commits(true, None, None, "New"));
}

fn family(id: u64, name: &str, custom: bool, variants: &[(&str, bool)]) -> FamilyInfo {
    FamilyInfo {
        id,
        name: name.to_string(),
        custom,
        variants: variants.iter().map(|(n, dark)| VariantInfo { name: n.to_string(), dark: *dark }).collect(),
    }
}

fn library() -> Vec<FamilyInfo> {
    vec![
        family(1, "Catppuccin", false, &[("Catppuccin Latte", false), ("Catppuccin Mocha", true)]),
        family(2, "My Theme", true, &[("My Theme", true)]),
        family(3, "Solarized", false, &[("Solarized Light", false)]),
    ]
}

#[test]
fn the_family_list_puts_custom_themes_first() {
    let fams = library();
    assert_eq!(
        theme_rows(&fams, ThemeFilter::All, ""),
        vec![
            FamilyRow::Heading(RowHeading::Custom),
            FamilyRow::Family(2),
            FamilyRow::Heading(RowHeading::BuiltIn),
            FamilyRow::Family(1),
            FamilyRow::Family(3),
        ]
    );
    assert_eq!(theme_rows(&fams, ThemeFilter::Dark, ""), vec![
        FamilyRow::Heading(RowHeading::Custom),
        FamilyRow::Family(2),
        FamilyRow::Heading(RowHeading::BuiltIn),
        FamilyRow::Family(1),
    ]);
    assert_eq!(theme_rows(&fams, ThemeFilter::Custom, "MOCHA"), vec![]);
    assert_eq!(theme_rows(&fams, ThemeFilter::All, "MOCHA"), vec![
        FamilyRow::Heading(RowHeading::BuiltIn),
        FamilyRow::Family(1),
    ]);
    assert_eq!(RowHeading::BuiltIn.title(), "Built-in");
    assert!(datalith::theme_page::matches(&fams[2], ThemeFilter::Light, "solar"));
    assert!(!datalith::theme_page::matches(&fams[2], ThemeFilter::Dark, "solar"));
}

#[test]
fn the_mode_select_round_trips_preferences() {
    assert_eq!(preference_index(ThemePreference::Dark), 2);
    assert_eq!(preference_from_label("Light"), Some(ThemePreference::Light));
    assert_eq!(preference_from_label("light"), None);
}

#[test]
fn importing_a_known_name_asks_and_offers_replace_only_for_custom_themes() {
    let fams = library();
    assert_eq!(import_choice(Some("catppuccin"), &fams), ImportChoice::Ask { family: 0, replace: false });
    assert_eq!(import_choice(Some("MY THEME"), &fams), ImportChoice::Ask { family: 1, replace: true });
    assert_eq!(import_choice(Some("Nord"), &fams), ImportChoice::Import);
    assert_eq!(import_choice(None, &fams), ImportChoice::Import);
    assert_eq!(plan_import(br#"{"name": "My Theme", "themes": []}"#, &fams), ImportChoice::Ask { family: 1, replace: true });
    assert_eq!(plan_import(br#"{"name": 3}"#, &fams), ImportChoice::Import);
    assert_eq!(plan_import(b"not json", &fams), ImportChoice::Import);
    assert_eq!(import_title("Nord"), "Import “Nord”");
}

#[test]
fn theme_cards_offer_the_right_actions() {
    let fam = &library()[0];
    assert_eq!(shown_variants(fam, ThemeFilter::Dark), vec![1]);
    assert_eq!(shown_variants(fam, ThemeFilter::All), vec![0, 1]);
    assert_eq!(variant_action(true, true), "Current light theme ✓");
    assert_eq!(variant_action(false, false), "Set as dark theme");
    assert_eq!(
        variant_accessibility_text("Catppuccin Mocha", false, true),
        "Catppuccin Mocha is set as the dark theme"
    );
    assert_eq!(
        variant_accessibility_text("Catppuccin Latte", true, false),
        "Set Catppuccin Latte as the light theme"
    );
    assert_eq!(font_display(".SystemUIFont"), "System font");
    assert_eq!(font_display("Inter"), "Inter");
    let custom = FamilyActions::of(true);
    assert_eq!(custom.primary_label(), "Customize…");
    assert_eq!(custom.menu_entries(), vec!["Rename", "Export", "Delete"]);
    assert!(FamilyActions::of(false).menu_entries().is_empty());
    assert_eq!(variant_count_label(2), "2 variants");
    assert_eq!(current_theme_heading(false), "Current dark theme");
}

#[test]
fn an_invalid_color_stays_in_its_field_until_blur() {
    let mut row = ColorRow::new(Some("#112233".to_string()), "#112233".to_string());
    assert_eq!(row.edit("invalid", false), ColorEdit::Invalid);
    assert_eq!(row.error.as_deref(), Some("Enter a valid color, such as #6750A4"));
    assert_eq!(row.valid.as_deref(), Some("#112233"));
    assert_eq!(row.input, "invalid");
    row.blur();
    assert_eq!(row.input, "#112233");
    assert_eq!(row.error, None);
    assert_eq!(row.edit("#112233", true), ColorEdit::Unchanged);
    assert_eq!(row.edit("#445566", true), ColorEdit::Save);
    row.saved("#445566");
    assert_eq!(row.display, "#445566");
    row.reset(Some("#000000"));
    assert_eq!(row.valid, None);
    assert_eq!((row.display.as_str(), row.input.as_str()), ("#000000", "#000000"));
    row.inherit(Some("#ffffff"));
    assert_eq!(row.display, "#ffffff");
    row.saved("#123456");
    row.inherit(Some("#abcdef"));
    assert_eq!(row.display, "#123456");
}

#[test]
fn highlight_tokens_are_saved_with_the_highlight_settings() {
    assert_eq!(color_target("highlight:syntax.keyword"), ColorTarget::Highlight("syntax.keyword".to_string()));
    assert_eq!(color_target("background"), ColorTarget::Color("background".to_string()));
}

#[test]
fn edits_of_a_current_theme_repaint_the_application() {
    assert!(repaints_application(Some("Catppuccin Mocha"), "Catppuccin Latte", "Catppuccin Mocha"));
    assert!(!repaints_application(Some("Solarized Light"), "Catppuccin Latte", "Catppuccin Mocha"));
    assert!(!repaints_application(None, "a", "b"));
    assert_eq!(add_variant_step(1), AddVariant::NameBoth);
    assert_eq!(add_variant_step(3), AddVariant::NextSuffix);
}

#[test]
fn the_save_status_line_names_the_state_and_the_error() {
    assert_eq!(save_status_text(&SaveStatus::Saving), "Saving\u{2026}");
    assert_eq!(save_status_text(&SaveStatus::Autosaved), "All changes saved");
    assert_eq!(
        save_status_text(&SaveStatus::Failed("disk full".to_string())),
        "Couldn\u{2019}t save: disk full"
    );
}

fn s(text: &str) -> String {
    text.to_string()
}

#[test]
fn color_rows_merge_saved_colors_with_the_resolved_highlight_style() {
    let saved = vec![(s("border"), None), (s("background"), Some(s("#111111"))), (s("background"), Some(s("#222222")))];
    let resolved = ResolvedColors {
        highlight: vec![HighlightColor::Plain(s("editor.background")), HighlightColor::Syntax(s("keyword"))],
        colors: vec![
            (s("border"), s("#333333")),
            (s("highlight:editor.background"), s("#444444")),
            (s("highlight:syntax.keyword"), s("#555555")),
        ],
    };
    let overrides = vec![(s("editor.background"), s("#666666"))];
    let rows = color_rows(&saved, Some(&resolved), &overrides, &Vec::new());
    assert_eq!(rows.len(), 4);
    let tokens: Vec<&str> = rows.iter().map(|(t, _)| t.as_str()).collect();
    assert_eq!(tokens, vec!["background", "border", "highlight:editor.background", "highlight:syntax.keyword"]);
    let find = |token: &str| rows.iter().find(|(t, _)| t == token).map(|(_, row)| row).unwrap();
    assert_eq!(find("background").valid, Some(s("#222222")));
    assert_eq!(find("background").display, "#222222");
    assert_eq!(find("border").valid, None);
    assert_eq!(find("border").display, "#333333");
    assert_eq!(find("highlight:editor.background").valid, Some(s("#666666")));
    assert_eq!(find("highlight:editor.background").display, "#666666");
    assert_eq!(find("highlight:syntax.keyword").valid, None);
    assert_eq!(find("highlight:syntax.keyword").display, "#555555");
    assert!(find("highlight:syntax.keyword").error.is_none());

    let unresolved = color_rows(&saved, None, &overrides, &Vec::new());
    assert_eq!(unresolved.len(), 2);
    let border = unresolved.iter().find(|(t, _)| t == "border").map(|(_, row)| row).unwrap();
    assert_eq!(border.display, "");
}
