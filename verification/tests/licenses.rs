use datalith::licenses::{corresponding_source_url, license_rows, wrap_line, LicenseRow, RELEASE_REPO, WRAP_WIDTH};
use datalith::notices::{gpl_license, license_sections};

#[test]
fn gpl_license_is_complete_gplv3() {
    let gpl = gpl_license();
    assert!(gpl.contains("GNU GENERAL PUBLIC LICENSE"));
    assert!(gpl.contains("Version 3, 29 June 2007"));
}

#[test]
fn corresponding_source_url_uses_package_version() {
    let version = "0.1.0";
    let url = corresponding_source_url(None, version);
    assert!(url.contains(version));
    assert!(url.starts_with(RELEASE_REPO));
    assert!(url.contains("/releases/tag/v"));
}

#[test]
fn corresponding_source_url_prefers_the_release_tag() {
    let url = corresponding_source_url(Some("v1.2.0-rc.1"), "1.2.0");
    assert_eq!(url, "https://github.com/mycelium-build/datalith/releases/tag/v1.2.0-rc.1");
    let url = corresponding_source_url(None, "1.2.0");
    assert_eq!(url, "https://github.com/mycelium-build/datalith/releases/tag/v1.2.0");
}

#[test]
fn wrap_line_splits_long_lines_on_word_boundaries() {
    let wrapped = wrap_line("one two three four five", 10);
    assert!(wrapped.iter().all(|line| line.len() <= 10));
    assert_eq!(wrapped.join(" "), "one two three four five");
}

#[test]
fn wrap_line_preserves_blank_lines() {
    assert_eq!(wrap_line("", 10), vec![String::new()]);
    assert_eq!(wrap_line("   ", 10), vec![String::new()]);
}

#[test]
fn wrap_line_keeps_an_overlong_word_intact() {
    let word = "x".repeat(50);
    let wrapped = wrap_line(&word, 10);
    assert_eq!(wrapped, vec![word]);
}

#[test]
fn wrap_line_fills_each_row_greedily() {
    assert_eq!(wrap_line("aa bb cc dd", 5), vec!["aa bb".to_string(), "cc dd".to_string()]);
    assert_eq!(wrap_line("  lead  and   gaps ", 8), vec!["lead and".to_string(), "gaps".to_string()]);
    assert_eq!(wrap_line("tiny", 100), vec!["tiny".to_string()]);
}

#[test]
fn rows_cover_every_section_with_a_header() {
    let sections = license_sections("MIT License\n\nPermission is hereby granted.", "Overview\r\nMIT and GPL", "Notices");
    assert_eq!(sections.len(), 4);
    assert_eq!(sections[1].title, "GNU General Public License v3");
    assert_eq!(sections[1].content, gpl_license());
    let rows = license_rows(&sections);
    let headers: Vec<&String> = rows
        .iter()
        .filter_map(|row| match row {
            LicenseRow::Header(text) => Some(text),
            LicenseRow::Line(_) => None,
        })
        .collect();
    assert_eq!(headers.len(), 4);
    assert!(matches!(rows.first(), Some(LicenseRow::Header(_))));
    for row in &rows {
        let text = match row {
            LicenseRow::Header(text) | LicenseRow::Line(text) => text,
        };
        assert!(text.len() <= WRAP_WIDTH || !text.contains(' '));
    }
    match &rows[1] {
        LicenseRow::Line(text) => assert_eq!(text, "MIT License"),
        LicenseRow::Header(_) => panic!("the first section's text follows its header"),
    }
}
