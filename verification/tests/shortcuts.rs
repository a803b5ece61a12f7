use datalith::shortcuts::{consecutive_digit, shortcut_groups, KeyChord, Modifiers, ShortcutEntry};

fn mods(platform: bool, shift: bool) -> Modifiers {
    Modifiers { control: false, alt: false, shift, platform, function: false }
}

fn chord(platform: bool, shift: bool, key: &str) -> KeyChord {
    KeyChord { modifiers: mods(platform, shift), key: key.to_string() }
}

#[test]
fn collapses_only_registered_contiguous_digit_bindings() {
    assert!(consecutive_digit(Some(&chord(true, false, "1")), Some(&chord(true, false, "2"))));
    assert!(!consecutive_digit(Some(&chord(true, false, "1")), Some(&chord(true, false, "3"))));
    assert!(!consecutive_digit(Some(&chord(true, false, "1")), Some(&chord(true, true, "2"))));
    assert!(!consecutive_digit(Some(&chord(true, false, "a")), Some(&chord(true, false, "b"))));
    assert!(!consecutive_digit(None, Some(&chord(true, false, "2"))));
    assert!(!consecutive_digit(Some(&chord(true, false, "9")), Some(&chord(true, false, "10"))));
}

fn entry(category: &str, action: &str, keys: &str, chord: Option<KeyChord>, display: &str) -> ShortcutEntry {
    ShortcutEntry {
        category: category.to_string(),
        action: action.to_string(),
        keys: keys.to_string(),
        chord,
        display: display.to_string(),
    }
}

fn registrations() -> Vec<ShortcutEntry> {
    let mut es = vec![
        entry("File", "New note", "secondary-n", Some(chord(true, false, "n")), "⌘N"),
        entry("File", "Save", "secondary-s", Some(chord(true, false, "s")), "⌘S"),
    ];
    for digit in 1..=8 {
        let key = digit.to_string();
        es.push(entry(
            "Tabs",
            "Select tab",
            &format!("secondary-{key}"),
            Some(chord(true, false, &key)),
            &format!("⌘{key}"),
        ));
    }
    es.push(entry("Tabs", "Select last tab", "secondary-9", Some(chord(true, false, "9")), "⌘9"));
    es.push(entry("Help", "Documentation", "f1", Some(chord(false, false, "f1")), "F1"));
    es.push(entry("File", "Quit", "secondary-q", Some(chord(true, false, "q")), "⌘Q"));
    es
}

#[test]
fn the_reference_groups_runs_by_category() {
    let groups = shortcut_groups(&registrations());
    let categories: Vec<&str> = groups.iter().map(|g| g.category.as_str()).collect();
    assert_eq!(categories, ["File", "Tabs", "Help", "File"]);
    let tabs = &groups[1];
    assert_eq!(
        tabs.rows,
        vec![
            ("Select tab".to_string(), "⌘1 … ⌘8".to_string()),
            ("Select last tab".to_string(), "⌘9".to_string()),
        ]
    );
    assert_eq!(groups[0].rows.len(), 2);
    assert_eq!(groups[0].rows[1], ("Save".to_string(), "⌘S".to_string()));
    assert_eq!(groups[3].rows, vec![("Quit".to_string(), "⌘Q".to_string())]);
}

#[test]
fn gaps_and_unparsed_bindings_are_not_collapsed() {
    let es = vec![
        entry("Tabs", "Select tab", "secondary-1", Some(chord(true, false, "1")), "⌘1"),
        entry("Tabs", "Select tab", "secondary-3", Some(chord(true, false, "3")), "⌘3"),
        entry("Tabs", "Select tab", "bogus", None, "bogus"),
        entry("Tabs", "Select tab", "secondary-4", Some(chord(true, false, "4")), "⌘4"),
    ];
    let groups = shortcut_groups(&es);
    assert_eq!(groups.len(), 1);
    let bindings: Vec<&str> = groups[0].rows.iter().map(|(_, b)| b.as_str()).collect();
    assert_eq!(bindings, ["⌘1", "⌘3", "bogus", "⌘4"]);
    assert!(shortcut_groups(&Vec::new()).is_empty());
}
