//! The theme page of the settings: which families a search and filter show, in which
//! sections, the appearance preference select, and what importing a theme file asks.

use vstd::prelude::*;
use crate::text::{
    occurs_at, lemma_prefix_filter_step, contains_text, contains_str, eq_ignore_ascii_case, eq_ignore_ascii_case_spec, lowercase,
    push_str, str_lowercase, string_of,
};

verus! {

/// The filter chips of the theme page.
#[derive(Clone, Copy, Debug, PartialEq, Eq, Structural)]
pub enum ThemeFilter {
    All,
    Light,
    Dark,
    Custom,
}

/// A variant of a family, as the theme page reads it.
pub struct VariantInfo {
    pub name: String,
    pub dark: bool,
}

/// A theme family, as the theme page reads it: its id, name, whether the user made it,
/// and its variants.
pub struct FamilyInfo {
    pub id: u64,
    pub name: String,
    pub custom: bool,
    pub variants: Vec<VariantInfo>,
}

/// `family` passes `filter` and its name, or one of its variants' names, contains the
/// lower-case `query` once lower-cased.
pub open spec fn family_matches(family: FamilyInfo, filter: ThemeFilter, query: Seq<char>) -> bool {
    let vs = family.variants@;
    let source_ok = filter != ThemeFilter::Custom || family.custom;
    let mode_ok = match filter {
        ThemeFilter::Light => exists|i: int| 0 <= i < vs.len() && !(#[trigger] vs[i]).dark,
        ThemeFilter::Dark => exists|i: int| 0 <= i < vs.len() && (#[trigger] vs[i]).dark,
        _ => true,
    };
    let name_ok = contains_text(str_lowercase(family.name@), query) || exists|i: int|
        0 <= i < vs.len() && contains_text(str_lowercase((#[trigger] vs[i]).name@), query);
    source_ok && mode_ok && name_ok
}

/// Whether one of `vs` has the given darkness.
fn has_mode(vs: &Vec<VariantInfo>, dark: bool) -> (r: bool)
    ensures
        r == exists|i: int| 0 <= i < vs@.len() && (#[trigger] vs@[i]).dark == dark,
{
    let mut i: usize = 0;
    while i < vs.len()
        invariant
            i <= vs@.len(),
            forall|j: int| 0 <= j < i ==> (#[trigger] vs@[j]).dark != dark,
        decreases vs.len() - i,
    {
        if vs[i].dark == dark {
            return true;
        }
        i = i + 1;
    }
    false
}

/// Whether `family` is shown for `filter` and the lower-case `query`.
pub fn matches(family: &FamilyInfo, filter: ThemeFilter, query: &str) -> (r: bool)
    ensures
        r == family_matches(*family, filter, query@),
{
    let vs = &family.variants;
    if filter == ThemeFilter::Custom && !family.custom {
        return false;
    }
    let mode_ok = match filter {
        ThemeFilter::Light => has_mode(vs, false),
        ThemeFilter::Dark => has_mode(vs, true),
        _ => true,
    };
    proof {
        if filter == ThemeFilter::Light {
            assert((exists|i: int| 0 <= i < vs@.len() && !(#[trigger] vs@[i]).dark) == (exists|
                i: int,
            | 0 <= i < vs@.len() && (#[trigger] vs@[i]).dark == false));
        }
    }
    if !mode_ok {
        return false;
    }
    let name = lowercase(family.name.as_str());
    if contains_str(name.as_str(), query) {
        return true;
    }
    let ghost mode_ok_spec = match filter {
        ThemeFilter::Light => exists|i: int| 0 <= i < vs@.len() && !(#[trigger] vs@[i]).dark,
        ThemeFilter::Dark => exists|i: int| 0 <= i < vs@.len() && (#[trigger] vs@[i]).dark,
        _ => true,
    };
    assert(mode_ok_spec);
    let mut i: usize = 0;
    while i < vs.len()
        invariant
            i <= vs@.len(),
            vs@ == family.variants@,
            filter != ThemeFilter::Custom || family.custom,
            mode_ok_spec,
            mode_ok_spec == (match filter {
                ThemeFilter::Light => exists|i: int| 0 <= i < vs@.len() && !(#[trigger] vs@[i]).dark,
                ThemeFilter::Dark => exists|i: int| 0 <= i < vs@.len() && (#[trigger] vs@[i]).dark,
                _ => true,
            }),
            !contains_text(str_lowercase(family.name@), query@),
            forall|j: int|
                0 <= j < i ==> !contains_text(str_lowercase((#[trigger] vs@[j]).name@), query@),
        decreases vs.len() - i,
    {
        let lowered = lowercase(vs[i].name.as_str());
        if contains_str(lowered.as_str(), query) {
            assert(contains_text(str_lowercase(vs@[i as int].name@), query@));
            return true;
        }
        i = i + 1;
    }
    false
}

/// The heading of a section of the family list.
#[derive(Clone, Copy, Debug, PartialEq, Eq, Structural)]
pub enum RowHeading {
    Custom,
    BuiltIn,
}

impl RowHeading {
    /// The heading's text.
    pub fn title(self) -> (r: &'static str)
        ensures
            r@ == (match self {
                RowHeading::Custom => "Custom"@,
                RowHeading::BuiltIn => "Built-in"@,
            }),
    {
        match self {
            RowHeading::Custom => "Custom",
            RowHeading::BuiltIn => "Built-in",
        }
    }
}

/// A row of the family list: a section heading or a family, by id.
#[derive(Clone, Copy, Debug, PartialEq, Eq, Structural)]
pub enum FamilyRow {
    Heading(RowHeading),
    Family(u64),
}

/// The shown families of one section.
pub open spec fn section_pred(filter: ThemeFilter, query: Seq<char>, custom: bool) -> spec_fn(FamilyInfo) -> bool {
    |f: FamilyInfo| family_matches(f, filter, query) && f.custom == custom
}

/// The rows of one section: its heading and its families, or nothing when it is empty.
pub open spec fn section_rows(heading: RowHeading, ids: Seq<u64>) -> Seq<FamilyRow> {
    if ids.len() == 0 {
        Seq::empty()
    } else {
        seq![FamilyRow::Heading(heading)] + ids.map_values(|id: u64| FamilyRow::Family(id))
    }
}

/// The ids of the families of one section, in library order.
pub open spec fn section_ids(families: Seq<FamilyInfo>, filter: ThemeFilter, query: Seq<char>, custom: bool) -> Seq<u64> {
    families.filter(section_pred(filter, query, custom)).map_values(|f: FamilyInfo| f.id)
}

/// The family list: the matching custom families under "Custom", then the matching
/// built-in ones under "Built-in"; a section without families is left out.
pub open spec fn family_rows(families: Seq<FamilyInfo>, filter: ThemeFilter, query: Seq<char>) -> Seq<FamilyRow> {
    section_rows(RowHeading::Custom, section_ids(families, filter, query, true)) + section_rows(
        RowHeading::BuiltIn,
        section_ids(families, filter, query, false),
    )
}

/// Appends the rows of one section to `out`.
fn push_section(out: &mut Vec<FamilyRow>, heading: RowHeading, ids: &Vec<u64>)
    ensures
        final(out)@ == old(out)@ + section_rows(heading, ids@),
{
    if ids.len() == 0 {
        assert(old(out)@ + section_rows(heading, ids@) =~= old(out)@);
        return;
    }
    let ghost start = out@;
    out.push(FamilyRow::Heading(heading));
    let mut i: usize = 0;
    while i < ids.len()
        invariant
            i <= ids@.len(),
            ids@.len() > 0,
            out@ == start + seq![FamilyRow::Heading(heading)] + ids@.subrange(0, i as int).map_values(
                |id: u64| FamilyRow::Family(id),
            ),
        decreases ids.len() - i,
    {
        out.push(FamilyRow::Family(ids[i]));
        assert(ids@.subrange(0, i + 1).map_values(|id: u64| FamilyRow::Family(id)) =~= ids@.subrange(
            0,
            i as int,
        ).map_values(|id: u64| FamilyRow::Family(id)).push(FamilyRow::Family(ids@[i as int])));
        i = i + 1;
    }
    assert(ids@.subrange(0, ids@.len() as int) =~= ids@);
    assert(out@ =~= start + section_rows(heading, ids@));
}

/// The rows of the family list for a filter and a search as typed.
pub fn theme_rows(families: &Vec<FamilyInfo>, filter: ThemeFilter, raw_query: &str) -> (r: Vec<FamilyRow>)
    ensures
        r@ == family_rows(families@, filter, str_lowercase(raw_query@)),
{
    let query = lowercase(raw_query);
    let ghost q = query@;
    let ghost pc = section_pred(filter, q, true);
    let ghost pb = section_pred(filter, q, false);
    let mut custom: Vec<u64> = Vec::new();
    let mut bundled: Vec<u64> = Vec::new();
    let mut i: usize = 0;
    while i < families.len()
        invariant
            i <= families@.len(),
            q == query@,
            pc == section_pred(filter, q, true),
            pb == section_pred(filter, q, false),
            custom@ == families@.subrange(0, i as int).filter(pc).map_values(|f: FamilyInfo| f.id),
            bundled@ == families@.subrange(0, i as int).filter(pb).map_values(|f: FamilyInfo| f.id),
        decreases families.len() - i,
    {
        let f = &families[i];
        let shown = matches(f, filter, query.as_str());
        proof {
            lemma_prefix_filter_step(families@, pc, i as int);
            lemma_prefix_filter_step(families@, pb, i as int);
        }
        if shown {
            if f.custom {
                custom.push(f.id);
            } else {
                bundled.push(f.id);
            }
        }
        proof {
            let fi = families@[i as int];
            let sc = families@.subrange(0, i as int).filter(pc);
            let sb = families@.subrange(0, i as int).filter(pb);
            if pc(fi) {
                assert(sc.push(fi).map_values(|f: FamilyInfo| f.id) =~= sc.map_values(
                    |f: FamilyInfo| f.id,
                ).push(fi.id));
            }
            if pb(fi) {
                assert(sb.push(fi).map_values(|f: FamilyInfo| f.id) =~= sb.map_values(
                    |f: FamilyInfo| f.id,
                ).push(fi.id));
            }
        }
        i = i + 1;
    }
    assert(families@.subrange(0, families@.len() as int) =~= families@);
    let mut rows: Vec<FamilyRow> = Vec::new();
    push_section(&mut rows, RowHeading::Custom, &custom);
    push_section(&mut rows, RowHeading::BuiltIn, &bundled);
    assert(rows@ =~= family_rows(families@, filter, q));
    rows
}

/// The appearance the application follows.
#[derive(Clone, Copy, Debug, PartialEq, Eq, Structural)]
pub enum ThemePreference {
    System,
    Light,
    Dark,
}

/// The label of a preference in the mode select.
pub open spec fn preference_label_spec(p: ThemePreference) -> Seq<char> {
    match p {
        ThemePreference::System => "System"@,
        ThemePreference::Light => "Light"@,
        ThemePreference::Dark => "Dark"@,
    }
}

/// The label of a preference in the mode select.
pub fn preference_label(p: ThemePreference) -> (r: &'static str)
    ensures
        r@ == preference_label_spec(p),
{
    match p {
        ThemePreference::System => "System",
        ThemePreference::Light => "Light",
        ThemePreference::Dark => "Dark",
    }
}

/// The row of a preference in the mode select, whose rows are System, Light and Dark.
pub fn preference_index(p: ThemePreference) -> (r: usize)
    ensures
        r == (match p {
            ThemePreference::System => 0usize,
            ThemePreference::Light => 1usize,
            ThemePreference::Dark => 2usize,
        }),
{
    match p {
        ThemePreference::System => 0,
        ThemePreference::Light => 1,
        ThemePreference::Dark => 2,
    }
}

/// The preference a confirmed select value names, if it names one.
pub fn preference_from_label(value: &str) -> (r: Option<ThemePreference>)
    ensures
        r == (if value@ == "System"@ {
            Some(ThemePreference::System)
        } else if value@ == "Light"@ {
            Some(ThemePreference::Light)
        } else if value@ == "Dark"@ {
            Some(ThemePreference::Dark)
        } else {
            None
        }),
{
    if crate::text::str_eq(value, "System") {
        Some(ThemePreference::System)
    } else if crate::text::str_eq(value, "Light") {
        Some(ThemePreference::Light)
    } else if crate::text::str_eq(value, "Dark") {
        Some(ThemePreference::Dark)
    } else {
        None
    }
}

/// The value of the `name` field of a theme file, when the file is JSON whose top level
/// has a string there: `serde_json::from_slice` into a `Value`, then `get("name")` and
/// `as_str`.
pub uninterp spec fn json_name_field(bytes: Seq<u8>) -> Option<Seq<char>>;

/// The `name` of a theme file (`serde_json::from_slice::<Value>`, `Value::get`,
/// `Value::as_str`). The contract names the result; what serde_json accepts as JSON is
/// left to it.
#[verifier::external_body]
fn theme_file_name(bytes: &[u8]) -> (r: Option<String>)
    ensures
        r.is_some() == json_name_field(bytes@).is_some(),
        r.is_some() ==> r.unwrap()@ == json_name_field(bytes@).unwrap(),
{
    serde_json::from_slice::<serde_json::Value>(bytes).ok().and_then(
        |value| value.get("name")?.as_str().map(str::to_owned),
    )
}

/// What importing a theme file does.
#[derive(Clone, Copy, Debug, PartialEq, Eq, Structural)]
pub enum ImportChoice {
    /// No family has the file's name: the file is imported as a new family.
    Import,
    /// The family at `family` already has that name, up to ASCII case: the user is asked,
    /// and may replace it only where it is a custom family.
    Ask { family: usize, replace: bool },
}

/// The first family whose name equals `name` up to ASCII case.
pub open spec fn first_same_name(names: Seq<Seq<char>>, name: Seq<char>) -> Option<int> {
    if exists|i: int| 0 <= i < names.len() && eq_ignore_ascii_case_spec(names[i], name) {
        Some(
            choose|i: int|
                0 <= i < names.len() && eq_ignore_ascii_case_spec(names[i], name) && forall|j: int|
                    0 <= j < i ==> !eq_ignore_ascii_case_spec(names[j], name),
        )
    } else {
        None
    }
}

/// The names of the families.
pub open spec fn family_names(families: Seq<FamilyInfo>) -> Seq<Seq<char>> {
    families.map_values(|f: FamilyInfo| f.name@)
}

/// What importing a file named `name` does, given the families there are.
pub open spec fn import_choice_spec(name: Option<Seq<char>>, families: Seq<FamilyInfo>) -> ImportChoice {
    match name {
        None => ImportChoice::Import,
        Some(n) => match first_same_name(family_names(families), n) {
            None => ImportChoice::Import,
            Some(i) => ImportChoice::Ask { family: i as usize, replace: families[i].custom },
        },
    }
}

/// What importing a file whose `name` field is `name` does.
pub fn import_choice(name: Option<&str>, families: &Vec<FamilyInfo>) -> (r: ImportChoice)
    ensures
        r == import_choice_spec(
            match name {
                Some(n) => Some(n@),
                None => None,
            },
            families@,
        ),
{
    if name.is_none() {
        return ImportChoice::Import;
    }
    let n = name.unwrap();
    let ghost names = family_names(families@);
    let mut i: usize = 0;
    while i < families.len()
        invariant
            i <= families@.len(),
            names == family_names(families@),
            name == Some(n),
            forall|j: int| 0 <= j < i ==> !eq_ignore_ascii_case_spec(names[j], n@),
        decreases families.len() - i,
    {
        if eq_ignore_ascii_case(families[i].name.as_str(), n) {
            assert(eq_ignore_ascii_case_spec(names[i as int], n@));
            let ghost c = choose|k: int|
                0 <= k < names.len() && eq_ignore_ascii_case_spec(names[k], n@) && forall|j: int|
                    0 <= j < k ==> !eq_ignore_ascii_case_spec(names[j], n@);
            assert(c == i) by {
                if c < i {
                    assert(!eq_ignore_ascii_case_spec(names[c], n@));
                }
                if c > i {
                    assert(!eq_ignore_ascii_case_spec(names[i as int], n@));
                }
            }
            assert(first_same_name(names, n@) == Some(i as int));
            return ImportChoice::Ask { family: i, replace: families[i].custom };
        }
        i = i + 1;
    }
    assert(first_same_name(names, n@) is None) by {
        if exists|k: int| 0 <= k < names.len() && eq_ignore_ascii_case_spec(names[k], n@) {
            let k = choose|k: int| 0 <= k < names.len() && eq_ignore_ascii_case_spec(names[k], n@);
            assert(!eq_ignore_ascii_case_spec(names[k], n@));
        }
    }
    ImportChoice::Import
}

/// What importing the theme file with contents `bytes` does: its `name` field, read by
/// serde_json, is looked up among the families.
pub fn plan_import(bytes: &[u8], families: &Vec<FamilyInfo>) -> (r: ImportChoice)
    ensures
        r == import_choice_spec(json_name_field(bytes@), families@),
{
    let name = theme_file_name(bytes);
    match &name {
        Some(n) => import_choice(Some(n.as_str()), families),
        None => import_choice(None, families),
    }
}

/// The title of the dialog that asks what to do with a same-named import.
pub fn import_title(name: &str) -> (r: String)
    ensures
        r@ == "Import “"@ + name@ + "”"@,
{
    let mut r = string_of("Import “");
    push_str(&mut r, name);
    push_str(&mut r, "”");
    r
}


/// The variants of a family the list shows under a filter: the light ones under Light,
/// the dark ones under Dark, all of them otherwise.
pub open spec fn variant_shown(v: VariantInfo, filter: ThemeFilter) -> bool {
    match filter {
        ThemeFilter::Light => !v.dark,
        ThemeFilter::Dark => v.dark,
        _ => true,
    }
}

/// The indices of the variants of `family` that the list shows under `filter`, in order.
pub fn shown_variants(family: &FamilyInfo, filter: ThemeFilter) -> (r: Vec<usize>)
    ensures
        forall|a: int, b: int| 0 <= a < b < r@.len() ==> r@[a] < r@[b],
        forall|a: int|
            0 <= a < r@.len() ==> r@[a] < family.variants@.len() && variant_shown(
                family.variants@[r@[a] as int],
                filter,
            ),
        forall|i: int|
            0 <= i < family.variants@.len() && variant_shown(family.variants@[i], filter)
                ==> r@.contains(i as usize),
{
    let vs = &family.variants;
    let mut r: Vec<usize> = Vec::new();
    let mut i: usize = 0;
    while i < vs.len()
        invariant
            i <= vs@.len(),
            vs@ == family.variants@,
            forall|a: int, b: int| 0 <= a < b < r@.len() ==> r@[a] < r@[b],
            forall|a: int| 0 <= a < r@.len() ==> r@[a] < i && variant_shown(vs@[r@[a] as int], filter),
            forall|j: int| 0 <= j < i && variant_shown(vs@[j], filter) ==> r@.contains(j as usize),
        decreases vs.len() - i,
    {
        let shown = match filter {
            ThemeFilter::Light => !vs[i].dark,
            ThemeFilter::Dark => vs[i].dark,
            _ => true,
        };
        if shown {
            let ghost before = r@;
            r.push(i);
            assert forall|j: int| 0 <= j < i + 1 && variant_shown(vs@[j], filter) implies r@.contains(j as usize) by {
                if j < i {
                    let k = choose|k: int| 0 <= k < before.len() && before[k] == j as usize;
                    assert(r@[k] == j as usize);
                } else {
                    assert(r@[before.len() as int] == i);
                }
            }
        }
        i = i + 1;
    }
    r
}

/// The label of a variant's action: the slot it holds, checked, when it is the current
/// theme for its mode; an offer to take that slot otherwise.
pub open spec fn variant_action_spec(current: bool, light: bool) -> Seq<char> {
    if current {
        if light {
            "Current light theme ✓"@
        } else {
            "Current dark theme ✓"@
        }
    } else if light {
        "Set as light theme"@
    } else {
        "Set as dark theme"@
    }
}

/// The label of a variant's action.
pub fn variant_action(current: bool, light: bool) -> (r: &'static str)
    ensures
        r@ == variant_action_spec(current, light),
{
    if current {
        if light {
            "Current light theme ✓"
        } else {
            "Current dark theme ✓"
        }
    } else if light {
        "Set as light theme"
    } else {
        "Set as dark theme"
    }
}

/// The name of a slot: `light` or `dark`.
pub open spec fn slot_name(light: bool) -> Seq<char> {
    if light {
        "light"@
    } else {
        "dark"@
    }
}

/// What assistive technology reads for a variant: that it holds its slot, or the offer to
/// put it there.
pub fn variant_accessibility_text(name: &str, light: bool, current: bool) -> (r: String)
    ensures
        current ==> r@ == name@ + " is set as the "@ + slot_name(light) + " theme"@,
        !current ==> r@ == "Set "@ + name@ + " as the "@ + slot_name(light) + " theme"@,
{
    let slot = if light {
        "light"
    } else {
        "dark"
    };
    if current {
        let mut r = string_of(name);
        push_str(&mut r, " is set as the ");
        push_str(&mut r, slot);
        push_str(&mut r, " theme");
        r
    } else {
        let mut r = string_of("Set ");
        push_str(&mut r, name);
        push_str(&mut r, " as the ");
        push_str(&mut r, slot);
        push_str(&mut r, " theme");
        r
    }
}

/// How a variant's summary names a font: the platform's virtual `.SystemUIFont` is the
/// system font.
pub fn font_display(font: &str) -> (r: String)
    ensures
        r@ == (if font@ == ".SystemUIFont"@ {
            "System font"@
        } else {
            font@
        }),
{
    if crate::text::str_eq(font, ".SystemUIFont") {
        string_of("System font")
    } else {
        string_of(font)
    }
}

/// The actions of a family's card.
#[derive(Clone, Copy, Debug, PartialEq, Eq, Structural)]
pub enum FamilyActions {
    /// A custom family: "Customize…", with a menu to rename, export and delete it.
    Custom,
    /// A built-in family: "Copy & customize…" only.
    BuiltIn,
}

impl FamilyActions {
    /// The actions of a family's card.
    pub fn of(custom: bool) -> (r: FamilyActions)
        ensures
            r == (if custom {
                FamilyActions::Custom
            } else {
                FamilyActions::BuiltIn
            }),
    {
        if custom {
            FamilyActions::Custom
        } else {
            FamilyActions::BuiltIn
        }
    }

    /// The label of the card's main button.
    pub fn primary_label(self) -> (r: &'static str)
        ensures
            r@ == (match self {
                FamilyActions::Custom => "Customize…"@,
                FamilyActions::BuiltIn => "Copy & customize…"@,
            }),
    {
        match self {
            FamilyActions::Custom => "Customize…",
            FamilyActions::BuiltIn => "Copy & customize…",
        }
    }

    /// The entries of the card's menu: rename, export and delete for a custom family,
    /// none for a built-in one.
    pub fn menu_entries(self) -> (r: Vec<&'static str>)
        ensures
            self == FamilyActions::BuiltIn ==> r@.len() == 0,
            self == FamilyActions::Custom ==> r@.len() == 3 && r@[0]@ == "Rename"@ && r@[1]@
                == "Export"@ && r@[2]@ == "Delete"@,
    {
        match self {
            FamilyActions::Custom => vec!["Rename", "Export", "Delete"],
            FamilyActions::BuiltIn => Vec::new(),
        }
    }
}

/// The count shown on a family's card: `<n> variants`.
pub fn variant_count_label(n: usize) -> (r: String)
    ensures
        r@ == crate::messages::decimal_spec(n as nat) + " variants"@,
{
    let mut r = String::new();
    crate::messages::push_decimal(&mut r, n);
    push_str(&mut r, " variants");
    r
}

/// The heading of a current-theme card.
pub fn current_theme_heading(light: bool) -> (r: &'static str)
    ensures
        r@ == (if light {
            "Current light theme"@
        } else {
            "Current dark theme"@
        }),
{
    if light {
        "Current light theme"
    } else {
        "Current dark theme"
    }
}
/// The filter chips narrow the list by one property each: Light shows exactly the
/// families the search shows that have a light variant, Dark those that have a dark
/// variant, Custom those the user made. A family with both a light and a dark variant
/// shows under both chips.
pub proof fn law_filter_chips_narrow_by_one_property(family: FamilyInfo, query: Seq<char>)
    ensures
        family_matches(family, ThemeFilter::Light, query) == (family_matches(family, ThemeFilter::All, query)
            && exists|i: int| 0 <= i < family.variants@.len() && !(#[trigger] family.variants@[i]).dark),
        family_matches(family, ThemeFilter::Dark, query) == (family_matches(family, ThemeFilter::All, query)
            && exists|i: int| 0 <= i < family.variants@.len() && (#[trigger] family.variants@[i]).dark),
        family_matches(family, ThemeFilter::Custom, query) == (family_matches(family, ThemeFilter::All, query)
            && family.custom),
{
}

/// An empty search hides nothing: under All every family shows, under Light and Dark
/// every family with a variant of that kind.
pub proof fn law_an_empty_search_shows_every_family(family: FamilyInfo)
    ensures
        family_matches(family, ThemeFilter::All, Seq::empty()),
        (exists|i: int| 0 <= i < family.variants@.len() && !(#[trigger] family.variants@[i]).dark)
            ==> family_matches(family, ThemeFilter::Light, Seq::empty()),
        (exists|i: int| 0 <= i < family.variants@.len() && (#[trigger] family.variants@[i]).dark)
            ==> family_matches(family, ThemeFilter::Dark, Seq::empty()),
{
    assert(str_lowercase(family.name@).subrange(0, 0) =~= Seq::<char>::empty());
    assert(occurs_at(str_lowercase(family.name@), Seq::empty(), 0));
}

} // verus!
