//! Font roles and the choice lists of the font pickers.

use vstd::prelude::*;
use crate::text::{push_str, str_eq, string_of};

verus! {

/// The text a font setting applies to.
#[derive(Clone, Copy, Debug, PartialEq, Eq, Structural)]
pub enum FontRole {
    Interface,
    Reading,
    Headings,
    Code,
}

/// Every font role, in the order the settings list them.
pub open spec fn all_roles() -> Seq<FontRole> {
    seq![FontRole::Interface, FontRole::Reading, FontRole::Headings, FontRole::Code]
}

/// Every font role, in settings order.
pub fn font_roles() -> (r: Vec<FontRole>)
    ensures
        r@ == all_roles(),
{
    let r = vec![FontRole::Interface, FontRole::Reading, FontRole::Headings, FontRole::Code];
    assert(r@ =~= all_roles());
    r
}

/// The element id of a role's picker.
pub open spec fn role_id_spec(role: FontRole) -> Seq<char> {
    match role {
        FontRole::Interface => "font-interface"@,
        FontRole::Reading => "font-reading"@,
        FontRole::Headings => "font-headings"@,
        FontRole::Code => "font-code"@,
    }
}

/// The element id of a role's picker.
pub fn role_id(role: FontRole) -> (r: &'static str)
    ensures
        r@ == role_id_spec(role),
{
    match role {
        FontRole::Interface => "font-interface",
        FontRole::Reading => "font-reading",
        FontRole::Headings => "font-headings",
        FontRole::Code => "font-code",
    }
}

/// The name of a role in the theme editor.
pub open spec fn font_label_spec(role: FontRole) -> Seq<char> {
    match role {
        FontRole::Interface => "Interface"@,
        FontRole::Reading => "Reading"@,
        FontRole::Headings => "Headings"@,
        FontRole::Code => "Code and editing"@,
    }
}

/// The name of a role in the theme editor.
pub fn font_label(role: FontRole) -> (r: &'static str)
    ensures
        r@ == font_label_spec(role),
{
    match role {
        FontRole::Interface => "Interface",
        FontRole::Reading => "Reading",
        FontRole::Headings => "Headings",
        FontRole::Code => "Code and editing",
    }
}

/// The family name shown for the theme's default family: the platform's virtual
/// `.SystemUIFont` is San Francisco on macOS.
pub open spec fn shown_family(family: Seq<char>, is_macos: bool) -> Seq<char> {
    if is_macos && family == ".SystemUIFont"@ {
        "SF Pro"@
    } else {
        family
    }
}

/// The label of the "theme default" entry of a font picker: `Theme (<family>)`.
pub open spec fn default_label_spec(family: Seq<char>, is_macos: bool) -> Seq<char> {
    "Theme ("@ + shown_family(family, is_macos) + ")"@
}

/// The label of the "theme default" entry of a font picker.
pub fn default_label(family: &str, is_macos: bool) -> (r: String)
    ensures
        r@ == default_label_spec(family@, is_macos),
{
    let mut r = string_of("Theme (");
    if is_macos && str_eq(family, ".SystemUIFont") {
        push_str(&mut r, "SF Pro");
    } else {
        push_str(&mut r, family);
    }
    push_str(&mut r, ")");
    r
}

/// An entry of a font picker: the family it selects (empty for the theme default), its
/// label, and whether it is shown disabled.
pub struct FontChoice {
    pub value: String,
    pub label: String,
    pub unavailable: bool,
}

/// A choice as plain values.
pub open spec fn choice_view(c: FontChoice) -> (Seq<char>, Seq<char>, bool) {
    (c.value@, c.label@, c.unavailable)
}

/// The choices of a picker: the default entry, every installed family, and the selected
/// family marked `(unavailable)` when it is set and not installed.
pub open spec fn choices_spec(
    default_label: Seq<char>,
    families: Seq<Seq<char>>,
    selected: Option<Seq<char>>,
    mark_unavailable: bool,
) -> Seq<(Seq<char>, Seq<char>, bool)> {
    let head = seq![(Seq::<char>::empty(), default_label, false)];
    let listed = families.map_values(|f: Seq<char>| (f, f, false));
    match selected {
        Some(s) => if !families.contains(s) {
            head + listed + seq![(s, s + " (unavailable)"@, mark_unavailable)]
        } else {
            head + listed
        },
        None => head + listed,
    }
}

/// Whether `name` is one of `families`.
fn contains_family(families: &Vec<String>, name: &str) -> (r: bool)
    ensures
        r == families@.map_values(|f: String| f@).contains(name@),
{
    let ghost fs = families@.map_values(|f: String| f@);
    let mut i: usize = 0;
    while i < families.len()
        invariant
            i <= families@.len(),
            fs == families@.map_values(|f: String| f@),
            forall|j: int| 0 <= j < i ==> fs[j] != name@,
        decreases families.len() - i,
    {
        if str_eq(families[i].as_str(), name) {
            assert(fs[i as int] == name@);
            return true;
        }
        i = i + 1;
    }
    assert(!fs.contains(name@)) by {
        if fs.contains(name@) {
            let k = choose|k: int| 0 <= k < fs.len() && fs[k] == name@;
            assert(fs[k] != name@);
        }
    }
    false
}

/// Builds the choice list of [`choices_spec`].
fn build_choices(
    default_label: String,
    families: &Vec<String>,
    selected: Option<&str>,
    mark_unavailable: bool,
) -> (r: Vec<FontChoice>)
    ensures
        r@.map_values(|c: FontChoice| choice_view(c)) == choices_spec(
            default_label@,
            families@.map_values(|f: String| f@),
            match selected {
                Some(s) => Some(s@),
                None => None,
            },
            mark_unavailable,
        ),
{
    let ghost fs = families@.map_values(|f: String| f@);
    let ghost head = seq![(Seq::<char>::empty(), default_label@, false)];
    let mut r: Vec<FontChoice> = Vec::new();
    r.push(FontChoice { value: String::new(), label: default_label, unavailable: false });
    assert(r@.map_values(|c: FontChoice| choice_view(c)) =~= head);
    let mut i: usize = 0;
    while i < families.len()
        invariant
            i <= families@.len(),
            fs == families@.map_values(|f: String| f@),
            head.len() == 1,
            r@.map_values(|c: FontChoice| choice_view(c)) == head + fs.subrange(0, i as int).map_values(
                |f: Seq<char>| (f, f, false),
            ),
        decreases families.len() - i,
    {
        let f = families[i].clone();
        let g = families[i].clone();
        let ghost before = r@.map_values(|c: FontChoice| choice_view(c));
        r.push(FontChoice { value: f, label: g, unavailable: false });
        assert(r@.map_values(|c: FontChoice| choice_view(c)) =~= before.push(
            (fs[i as int], fs[i as int], false),
        ));
        assert(fs.subrange(0, i + 1).map_values(|f: Seq<char>| (f, f, false)) =~= fs.subrange(
            0,
            i as int,
        ).map_values(|f: Seq<char>| (f, f, false)).push((fs[i as int], fs[i as int], false)));
        i = i + 1;
    }
    assert(fs.subrange(0, fs.len() as int) =~= fs);
    match selected {
        Some(s) => {
            if !contains_family(families, s) {
                let mut label = string_of(s);
                push_str(&mut label, " (unavailable)");
                let ghost before = r@.map_values(|c: FontChoice| choice_view(c));
                r.push(FontChoice { value: string_of(s), label, unavailable: mark_unavailable });
                assert(r@.map_values(|c: FontChoice| choice_view(c)) =~= before.push(
                    (s@, s@ + " (unavailable)"@, mark_unavailable),
                ));
            }
        },
        None => {},
    }
    r
}

/// The entries of a role's font picker in the settings: the theme default, every
/// installed family, and the role's selected family, disabled, when it is not installed.
pub fn font_options(default_label: String, families: &Vec<String>, selected: Option<&str>) -> (r:
    Vec<FontChoice>)
    ensures
        r@.map_values(|c: FontChoice| choice_view(c)) == choices_spec(
            default_label@,
            families@.map_values(|f: String| f@),
            match selected {
                Some(s) => Some(s@),
                None => None,
            },
            true,
        ),
{
    build_choices(default_label, families, selected, true)
}

/// The entries of a font select in the theme editor: "Datalith default", every installed
/// family, and a non-empty selection that is not installed.
pub fn font_choices(families: &Vec<String>, selected: &str) -> (r: Vec<FontChoice>)
    ensures
        r@.map_values(|c: FontChoice| choice_view(c)) == choices_spec(
            "Datalith default"@,
            families@.map_values(|f: String| f@),
            if selected@.len() == 0 {
                None
            } else {
                Some(selected@)
            },
            false,
        ),
{
    let default_label = string_of("Datalith default");
    if selected.unicode_len() == 0 {
        build_choices(default_label, families, None, false)
    } else {
        build_choices(default_label, families, Some(selected), false)
    }
}

/// The index of the first choice whose value is `selected`, or 0 when there is none.
pub open spec fn choice_index_spec(values: Seq<Seq<char>>, selected: Seq<char>) -> int {
    if values.contains(selected) {
        choose|i: int|
            0 <= i < values.len() && values[i] == selected && forall|j: int| 0 <= j < i ==> values[j]
                != selected
    } else {
        0
    }
}

/// The row a picker starts on: the first choice that selects `selected`, else the first.
pub fn choice_index(choices: &Vec<FontChoice>, selected: &str) -> (r: usize)
    ensures
        r == choice_index_spec(choices@.map_values(|c: FontChoice| c.value@), selected@),
{
    let ghost vs = choices@.map_values(|c: FontChoice| c.value@);
    let mut i: usize = 0;
    while i < choices.len()
        invariant
            i <= choices@.len(),
            vs == choices@.map_values(|c: FontChoice| c.value@),
            forall|j: int| 0 <= j < i ==> vs[j] != selected@,
        decreases choices.len() - i,
    {
        if str_eq(choices[i].value.as_str(), selected) {
            assert(vs[i as int] == selected@);
            let ghost c = choose|k: int|
                0 <= k < vs.len() && vs[k] == selected@ && forall|j: int| 0 <= j < k ==> vs[j]
                    != selected@;
            assert(c == i) by {
                if c < i {
                    assert(vs[c] != selected@);
                }
                if c > i {
                    assert(vs[i as int] != selected@);
                }
            }
            return i;
        }
        i = i + 1;
    }
    assert(!vs.contains(selected@)) by {
        if vs.contains(selected@) {
            let k = choose|k: int| 0 <= k < vs.len() && vs[k] == selected@;
            assert(vs[k] != selected@);
        }
    }
    0
}

} // verus!
