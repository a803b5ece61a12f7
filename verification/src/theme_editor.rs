//! Labels and validation of the theme editor: the essential colours, variant names and
//! the suffix a variant is renamed to.

use vstd::prelude::*;
use crate::text::{eq_ignore_ascii_case, eq_ignore_ascii_case_spec, str_eq, string_of, trim, trimmed};
use crate::theme_schema::{label, label_spec};
use crate::file_tree::{key_lt, text_lt};
use crate::text::chars_of;

verus! {

/// The essential colours, in the order the editor lists them: token, label and description.
pub open spec fn essential_colors() -> Seq<(Seq<char>, Seq<char>, Seq<char>)> {
    seq![
        ("background"@, "Page background"@, "The main workspace and reading surface"@),
        ("foreground"@, "Text"@, "Body text and interface labels"@),
        ("primary.background"@, "Primary accent"@, "Primary buttons, note links and highlighted controls"@),
        ("primary.foreground"@, "Text on accent"@, "Labels on primary buttons"@),
        ("muted.foreground"@, "Secondary text"@, "Hints and supporting information"@),
        ("border"@, "Borders"@, "Dividers between panels and controls"@),
        ("sidebar.background"@, "Sidebar background"@, "The file navigation panel"@),
        ("sidebar.foreground"@, "Sidebar text"@, "File and folder names"@),
        ("tab.active.background"@, "Active tab"@, "The selected workspace tab"@),
        ("accent.background"@, "Selection accent"@, "Selected items and highlighted surfaces"@),
        ("muted.background"@, "Muted surface"@, "Code blocks and secondary surfaces"@),
    ]
}

/// The essential colours, as the editor lists them.
pub fn essential_color_list() -> (r: Vec<(&'static str, &'static str, &'static str)>)
    ensures
        r@.len() == essential_colors().len(),
        forall|i: int|
            0 <= i < r@.len() ==> (#[trigger] r@[i]).0@ == essential_colors()[i].0 && r@[i].1@
                == essential_colors()[i].1 && r@[i].2@ == essential_colors()[i].2,
{
    let r = vec![
        ("background", "Page background", "The main workspace and reading surface"),
        ("foreground", "Text", "Body text and interface labels"),
        ("primary.background", "Primary accent", "Primary buttons, note links and highlighted controls"),
        ("primary.foreground", "Text on accent", "Labels on primary buttons"),
        ("muted.foreground", "Secondary text", "Hints and supporting information"),
        ("border", "Borders", "Dividers between panels and controls"),
        ("sidebar.background", "Sidebar background", "The file navigation panel"),
        ("sidebar.foreground", "Sidebar text", "File and folder names"),
        ("tab.active.background", "Active tab", "The selected workspace tab"),
        ("accent.background", "Selection accent", "Selected items and highlighted surfaces"),
        ("muted.background", "Muted surface", "Code blocks and secondary surfaces"),
    ];
    r
}

/// The label of the first essential colour whose token is `token`, if there is one.
pub open spec fn essential_label(token: Seq<char>) -> Option<Seq<char>> {
    let cs = essential_colors();
    if exists|i: int| 0 <= i < cs.len() && cs[i].0 == token {
        let i = choose|i: int|
            0 <= i < cs.len() && cs[i].0 == token && forall|j: int| 0 <= j < i ==> cs[j].0 != token;
        Some(cs[i].1)
    } else {
        None
    }
}

/// The label of a colour row: the essential label where the token has one, else the
/// schema label.
pub open spec fn color_label_spec(token: Seq<char>) -> Seq<char> {
    match essential_label(token) {
        Some(l) => l,
        None => label_spec(token),
    }
}

/// The label of a colour row.
pub fn color_label(token: &str) -> (r: String)
    ensures
        r@ == color_label_spec(token@),
{
    let list = essential_color_list();
    let ghost cs = essential_colors();
    let mut i: usize = 0;
    while i < list.len()
        invariant
            i <= list@.len(),
            list@.len() == cs.len(),
            cs == essential_colors(),
            forall|k: int|
                0 <= k < list@.len() ==> (#[trigger] list@[k]).0@ == cs[k].0 && list@[k].1@
                    == cs[k].1,
            forall|j: int| 0 <= j < i ==> cs[j].0 != token@,
        decreases list.len() - i,
    {
        let (key, shown, _) = list[i];
        if str_eq(key, token) {
            assert(list@[i as int].0@ == cs[i as int].0);
            let ghost c = choose|k: int|
                0 <= k < cs.len() && cs[k].0 == token@ && forall|j: int| 0 <= j < k ==> cs[j].0
                    != token@;
            assert(c == i) by {
                if c < i {
                    assert(cs[c].0 != token@);
                }
                if c > i {
                    assert(cs[i as int].0 != token@);
                }
            }
            assert(list@[i as int].1@ == cs[i as int].1);
            return string_of(shown);
        }
        i = i + 1;
    }
    assert(essential_label(token@) is None) by {
        if exists|k: int| 0 <= k < cs.len() && cs[k].0 == token@ {
            let k = choose|k: int| 0 <= k < cs.len() && cs[k].0 == token@;
            assert(cs[k].0 != token@);
        }
    }
    label(token)
}

/// The name of a variant: its suffix in the family where it has a non-empty one, else
/// `Dark` or `Light` after its mode.
pub open spec fn variant_label_spec(suffix: Option<Seq<char>>, is_dark: bool) -> Seq<char> {
    match suffix {
        Some(s) => if s.len() > 0 {
            s
        } else if is_dark {
            "Dark"@
        } else {
            "Light"@
        },
        None => if is_dark {
            "Dark"@
        } else {
            "Light"@
        },
    }
}

/// The name of a variant in the editor's navigation and headers.
pub fn variant_label(suffix: Option<&str>, is_dark: bool) -> (r: String)
    ensures
        r@ == variant_label_spec(
            match suffix {
                Some(s) => Some(s@),
                None => None,
            },
            is_dark,
        ),
{
    match suffix {
        Some(s) => {
            if s.unicode_len() > 0 {
                return string_of(s);
            }
        },
        None => {},
    }
    if is_dark {
        string_of("Dark")
    } else {
        string_of("Light")
    }
}

/// The two names a family's first split proposes: the existing variant keeps its
/// non-empty suffix or becomes `Variant 1`; the new one is `Variant 2`, unless the first
/// already is `Variant 1` up to ASCII case, in which case it is `Variant 1`.
pub open spec fn variant_name_defaults_spec(suffix: Option<Seq<char>>) -> (Seq<char>, Seq<char>) {
    let first = match suffix {
        Some(s) => if s.len() > 0 {
            s
        } else {
            "Variant 1"@
        },
        None => "Variant 1"@,
    };
    let second = if eq_ignore_ascii_case_spec(first, "Variant 1"@) {
        "Variant 2"@
    } else {
        "Variant 1"@
    };
    (first, second)
}

/// The names proposed when a family with one variant gets a second one.
pub fn variant_name_defaults(suffix: Option<&str>) -> (r: (String, String))
    ensures
        (r.0@, r.1@) == variant_name_defaults_spec(
            match suffix {
                Some(s) => Some(s@),
                None => None,
            },
        ),
{
    let first = match suffix {
        Some(s) => if s.unicode_len() > 0 {
            string_of(s)
        } else {
            string_of("Variant 1")
        },
        None => string_of("Variant 1"),
    };
    let second = if eq_ignore_ascii_case(first.as_str(), "Variant 1") {
        string_of("Variant 2")
    } else {
        string_of("Variant 1")
    };
    (first, second)
}

/// A variant of the family being edited: its id and its suffix, where it has one.
pub struct VariantSuffix {
    pub id: u64,
    pub suffix: Option<String>,
}

/// Why a suffix cannot be taken.
#[derive(Clone, Copy, Debug, PartialEq, Eq, Structural)]
pub enum SuffixError {
    /// The suffix is blank and the family has more than one variant.
    Missing,
    /// Another variant already has that suffix, up to ASCII case.
    Duplicate,
}

impl SuffixError {
    /// The message shown under the suffix field.
    pub fn message(self) -> (r: &'static str)
        ensures
            r@ == (match self {
                SuffixError::Missing => "Enter a variant suffix"@,
                SuffixError::Duplicate => "Variant suffix already exists"@,
            }),
    {
        match self {
            SuffixError::Missing => "Enter a variant suffix",
            SuffixError::Duplicate => "Variant suffix already exists",
        }
    }
}

/// Another variant than `id` has a suffix equal to `wanted` up to ASCII case.
pub open spec fn suffix_taken(variants: Seq<(u64, Option<Seq<char>>)>, id: u64, wanted: Seq<char>) -> bool {
    exists|i: int|
        0 <= i < variants.len() && variants[i].0 != id && (match variants[i].1 {
            Some(s) => eq_ignore_ascii_case_spec(s, wanted),
            None => false,
        })
}

/// The variants as plain values.
pub open spec fn suffix_views(variants: Seq<VariantSuffix>) -> Seq<(u64, Option<Seq<char>>)> {
    variants.map_values(
        |v: VariantSuffix|
            (
                v.id,
                match v.suffix {
                    Some(s) => Some(s@),
                    None => None,
                },
            ),
    )
}

/// What renaming variant `id` to `text` runs into: a blank suffix where the family has
/// several variants, else a suffix another variant has; nothing otherwise.
pub open spec fn suffix_error_spec(text: Seq<char>, id: u64, variants: Seq<(u64, Option<Seq<char>>)>) -> Option<SuffixError> {
    if trimmed(text).len() == 0 && variants.len() > 1 {
        Some(SuffixError::Missing)
    } else if suffix_taken(variants, id, trimmed(text)) {
        Some(SuffixError::Duplicate)
    } else {
        None
    }
}

/// Checks the suffix typed for variant `id` against the other variants of its family.
pub fn suffix_error(text: &str, id: u64, variants: &Vec<VariantSuffix>) -> (r: Option<SuffixError>)
    ensures
        r == suffix_error_spec(text@, id, suffix_views(variants@)),
{
    let wanted = trim(text);
    let ghost vs = suffix_views(variants@);
    let mut taken = false;
    let mut i: usize = 0;
    while i < variants.len()
        invariant
            i <= variants@.len(),
            vs == suffix_views(variants@),
            wanted@ == trimmed(text@),
            taken == exists|j: int|
                0 <= j < i && vs[j].0 != id && (match vs[j].1 {
                    Some(s) => eq_ignore_ascii_case_spec(s, wanted@),
                    None => false,
                }),
        decreases variants.len() - i,
    {
        if variants[i].id != id {
            match &variants[i].suffix {
                Some(s) => {
                    if eq_ignore_ascii_case(s.as_str(), wanted.as_str()) {
                        taken = true;
                    }
                },
                None => {},
            }
        }
        proof {
            if taken {
                if !(exists|j: int|
                    0 <= j < i && vs[j].0 != id && (match vs[j].1 {
                        Some(s) => eq_ignore_ascii_case_spec(s, wanted@),
                        None => false,
                    })) {
                    assert(vs[i as int].0 != id && (match vs[i as int].1 {
                        Some(s) => eq_ignore_ascii_case_spec(s, wanted@),
                        None => false,
                    }));
                }
            }
        }
        i = i + 1;
    }
    if wanted.unicode_len() == 0 && variants.len() > 1 {
        Some(SuffixError::Missing)
    } else if taken {
        Some(SuffixError::Duplicate)
    } else {
        None
    }
}

/// A rename is committed on blur or Enter when the suffix is valid and differs from the
/// variant's current suffix.
pub open spec fn rename_commits_spec(commit: bool, error: Option<SuffixError>, current: Option<Seq<char>>, text: Seq<char>) -> bool {
    commit && error is None && current != Some(trimmed(text))
}

/// Whether the typed suffix is to be saved.
pub fn rename_commits(commit: bool, error: Option<SuffixError>, current: Option<&str>, text: &str) -> (r: bool)
    ensures
        r == rename_commits_spec(
            commit,
            error,
            match current {
                Some(s) => Some(s@),
                None => None,
            },
            text@,
        ),
{
    if !commit || error.is_some() {
        return false;
    }
    let wanted = trim(text);
    match current {
        Some(s) => !str_eq(s, wanted.as_str()),
        None => true,
    }
}


/// Where an edit of a colour token is saved: a `highlight:` token in the variant's
/// highlight settings, under the rest of its name; any other token among its colours.
#[derive(Clone, Debug, PartialEq, Eq)]
pub enum ColorTarget {
    Highlight(String),
    Color(String),
}

/// Where an edit of `token` is saved.
pub open spec fn color_target_spec(token: Seq<char>) -> (bool, Seq<char>) {
    if crate::text::has_prefix(token, "highlight:"@) {
        (true, token.subrange(10, token.len() as int))
    } else {
        (false, token)
    }
}

/// A target as plain values: whether it is a highlight setting, and its key.
pub open spec fn target_view(t: ColorTarget) -> (bool, Seq<char>) {
    match t {
        ColorTarget::Highlight(k) => (true, k@),
        ColorTarget::Color(k) => (false, k@),
    }
}

/// Where an edit of `token` is saved.
pub fn color_target(token: &str) -> (r: ColorTarget)
    ensures
        target_view(r) == color_target_spec(token@),
{
    proof {
        reveal_strlit("highlight:");
    }
    let cs = crate::text::chars_of(token);
    if crate::text::starts_with_str(token, "highlight:") {
        ColorTarget::Highlight(crate::text::string_from_chars(&cs, 10, cs.len()))
    } else {
        ColorTarget::Color(string_of(token))
    }
}

/// A colour row of the editor: the value saved in the variant (none when it inherits),
/// the value shown, the text in its field, and the message under it.
pub struct ColorRow {
    pub valid: Option<String>,
    pub display: String,
    pub input: String,
    pub error: Option<String>,
}

/// A colour row as plain values.
pub struct ColorRowView {
    pub valid: Option<Seq<char>>,
    pub display: Seq<char>,
    pub input: Seq<char>,
    pub error: Option<Seq<char>>,
}

impl View for ColorRow {
    type V = ColorRowView;

    open spec fn view(&self) -> ColorRowView {
        ColorRowView {
            valid: match self.valid {
                Some(v) => Some(v@),
                None => None,
            },
            display: self.display@,
            input: self.input@,
            error: match self.error {
                Some(e) => Some(e@),
                None => None,
            },
        }
    }
}

/// The message under a field that does not hold a colour.
pub open spec fn invalid_color_message() -> Seq<char> {
    "Enter a valid color, such as #6750A4"@
}

/// What typing in a colour field does.
#[derive(Clone, Copy, Debug, PartialEq, Eq, Structural)]
pub enum ColorEdit {
    /// The text is not a colour: the row shows why, and nothing is saved.
    Invalid,
    /// The text is the saved value: nothing to save.
    Unchanged,
    /// The text is a new colour: it is to be saved.
    Save,
}

/// The row after a new text was typed and what is to be done: `parses` tells whether
/// the text is a colour.
pub open spec fn edit_spec(row: ColorRowView, text: Seq<char>, parses: bool) -> (ColorEdit, ColorRowView) {
    if !parses {
        (ColorEdit::Invalid, ColorRowView { input: text, error: Some(invalid_color_message()), ..row })
    } else if row.valid == Some(text) {
        (ColorEdit::Unchanged, ColorRowView { input: text, error: None, ..row })
    } else {
        (ColorEdit::Save, ColorRowView { input: text, error: None, ..row })
    }
}

/// The row once a blur settles it: a field holding an invalid text shows the last valid
/// value again.
pub open spec fn blur_spec(row: ColorRowView) -> ColorRowView {
    if row.error is Some {
        ColorRowView { input: row.display, error: None, ..row }
    } else {
        row
    }
}

/// The row once `value` was saved in the variant: it shows it.
pub open spec fn saved_spec(row: ColorRowView, value: Seq<char>) -> ColorRowView {
    ColorRowView { valid: Some(value), display: value, ..row }
}

/// The row once `display` is shown in it: no message, and the field holds it.
pub open spec fn show_spec(row: ColorRowView, display: Seq<char>) -> ColorRowView {
    ColorRowView { display, input: display, error: None, ..row }
}

impl ColorRow {
    /// A row for a value saved in the variant (`valid`), showing `display`.
    pub fn new(valid: Option<String>, display: String) -> (r: ColorRow)
        ensures
            r@.valid == (match valid {
                Some(v) => Some(v@),
                None => None,
            }),
            r@.display == display@,
            r@.input == display@,
            r@.error is None,
    {
        let input = display.clone();
        ColorRow { valid, display, input, error: None }
    }

    /// Takes the text typed in the field.
    pub fn edit(&mut self, text: &str, parses: bool) -> (r: ColorEdit)
        ensures
            (r, final(self)@) == edit_spec(old(self)@, text@, parses),
    {
        self.input = string_of(text);
        if !parses {
            self.error = Some(string_of("Enter a valid color, such as #6750A4"));
            return ColorEdit::Invalid;
        }
        self.error = None;
        let same = match &self.valid {
            Some(v) => crate::text::str_eq(v.as_str(), text),
            None => false,
        };
        if same {
            ColorEdit::Unchanged
        } else {
            ColorEdit::Save
        }
    }

    /// Records that `value` was saved in the variant; the row shows it.
    pub fn saved(&mut self, value: &str)
        ensures
            final(self)@ == saved_spec(old(self)@, value@),
    {
        self.valid = Some(string_of(value));
        self.display = string_of(value);
    }

    /// Leaves the field.
    pub fn blur(&mut self)
        ensures
            final(self)@ == blur_spec(old(self)@),
    {
        if self.error.is_some() {
            self.error = None;
            self.input = self.display.clone();
        }
    }

    /// Shows `display` in the row (`None` shows nothing).
    fn show(&mut self, display: Option<&str>)
        ensures
            final(self)@ == show_spec(
                old(self)@,
                match display {
                    Some(d) => d@,
                    None => Seq::empty(),
                },
            ),
    {
        let shown = match display {
            Some(d) => string_of(d),
            None => String::new(),
        };
        self.error = None;
        self.input = shown.clone();
        self.display = shown;
    }

    /// Records that the saved value was removed: the row inherits and shows the resolved
    /// colour, `resolved`, if there is one.
    pub fn reset(&mut self, resolved: Option<&str>)
        ensures
            final(self)@ == show_spec(
                (ColorRowView { valid: None, ..old(self)@ }),
                match resolved {
                    Some(d) => d@,
                    None => Seq::empty(),
                },
            ),
    {
        self.valid = None;
        self.show(resolved);
    }

    /// After the variant's mode changed: a row that inherits shows the newly resolved
    /// colour; a row with a saved value keeps it.
    pub fn inherit(&mut self, resolved: Option<&str>)
        ensures
            old(self)@.valid is None ==> final(self)@ == show_spec(
                old(self)@,
                match resolved {
                    Some(d) => d@,
                    None => Seq::empty(),
                },
            ),
            old(self)@.valid is Some ==> final(self)@ == old(self)@,
    {
        if self.valid.is_none() {
            self.show(resolved);
        }
    }
}

/// An invalid colour stays in its field: typing it saves nothing and keeps the saved and
/// shown values, and leaving the field restores the last valid value.
pub proof fn law_invalid_color_stays_local(row: ColorRowView, text: Seq<char>)
    ensures
        edit_spec(row, text, false).0 == ColorEdit::Invalid,
        edit_spec(row, text, false).1.valid == row.valid,
        edit_spec(row, text, false).1.display == row.display,
        blur_spec(edit_spec(row, text, false).1).input == row.display,
        blur_spec(edit_spec(row, text, false).1).error is None,
{
}

/// Whether an edit of the variant named `name` repaints the application: it does when the
/// variant is the current light or dark theme.
pub fn repaints_application(name: Option<&str>, current_light: &str, current_dark: &str) -> (r: bool)
    ensures
        r == (match name {
            Some(n) => n@ == current_light@ || n@ == current_dark@,
            None => false,
        }),
{
    match name {
        Some(n) => crate::text::str_eq(n, current_light) || crate::text::str_eq(n, current_dark),
        None => false,
    }
}

/// How a variant is added to a family.
#[derive(Clone, Copy, Debug, PartialEq, Eq, Structural)]
pub enum AddVariant {
    /// The family has a single variant: both variants are named first.
    NameBoth,
    /// The new variant takes the family's next free suffix.
    NextSuffix,
}

/// How a variant is added to a family of `variant_count` variants.
pub fn add_variant_step(variant_count: usize) -> (r: AddVariant)
    ensures
        r == (if variant_count == 1 {
            AddVariant::NameBoth
        } else {
            AddVariant::NextSuffix
        }),
{
    if variant_count == 1 {
        AddVariant::NameBoth
    } else {
        AddVariant::NextSuffix
    }
}

/// A colour that the resolved highlight style defines, in the order the style lists it: a
/// top-level entry with a colour, or a syntax entry with a colour.
pub enum HighlightColor {
    Plain(String),
    Syntax(String),
}

/// What a resolved variant contributes to its colour rows: the highlight colours it
/// defines, and the colour it resolves each token to.
pub struct ResolvedColors {
    pub highlight: Vec<HighlightColor>,
    pub colors: Vec<(String, String)>,
}

pub open spec fn opt_str(o: Option<String>) -> Option<Seq<char>> {
    match o {
        Some(s) => Some(s@),
        None => None,
    }
}

/// The value of the first entry of `pairs` with key `key`.
pub open spec fn lookup_spec(pairs: Seq<(String, String)>, key: Seq<char>) -> Option<Seq<char>>
    decreases pairs.len(),
{
    if pairs.len() == 0 {
        None
    } else if pairs[0].0@ == key {
        Some(pairs[0].1@)
    } else {
        lookup_spec(pairs.drop_first(), key)
    }
}

/// The colours saved in a variant, by token; a later entry for a token wins.
pub open spec fn saved_colors_spec(saved: Seq<(String, Option<String>)>) -> Map<Seq<char>, Option<Seq<char>>>
    decreases saved.len(),
{
    if saved.len() == 0 {
        Map::empty()
    } else {
        saved_colors_spec(saved.drop_last()).insert(saved.last().0@, opt_str(saved.last().1))
    }
}

/// The token of a highlight colour.
pub open spec fn highlight_token_spec(h: HighlightColor) -> Seq<char> {
    match h {
        HighlightColor::Plain(k) => "highlight:"@ + k@,
        HighlightColor::Syntax(k) => "highlight:syntax."@ + k@,
    }
}

/// The value a variant saves for a highlight colour: its entry among the variant's own
/// highlight settings (`overrides`, and `syntax_overrides` for syntax colours).
pub open spec fn highlight_valid_spec(
    h: HighlightColor,
    overrides: Seq<(String, String)>,
    syntax_overrides: Seq<(String, String)>,
) -> Option<Seq<char>> {
    match h {
        HighlightColor::Plain(k) => lookup_spec(overrides, k@),
        HighlightColor::Syntax(k) => lookup_spec(syntax_overrides, k@),
    }
}

/// `base` with a token for each highlight colour, in order.
pub open spec fn with_highlight_spec(
    base: Map<Seq<char>, Option<Seq<char>>>,
    highlight: Seq<HighlightColor>,
    overrides: Seq<(String, String)>,
    syntax_overrides: Seq<(String, String)>,
) -> Map<Seq<char>, Option<Seq<char>>>
    decreases highlight.len(),
{
    if highlight.len() == 0 {
        base
    } else {
        with_highlight_spec(base, highlight.drop_last(), overrides, syntax_overrides).insert(
            highlight_token_spec(highlight.last()),
            highlight_valid_spec(highlight.last(), overrides, syntax_overrides),
        )
    }
}

/// The tokens of a variant's colour rows with their saved values: those saved in the
/// variant, and, when the variant resolves, one per highlight colour it defines.
pub open spec fn color_tokens_spec(
    saved: Seq<(String, Option<String>)>,
    resolved: Option<ResolvedColors>,
    overrides: Seq<(String, String)>,
    syntax_overrides: Seq<(String, String)>,
) -> Map<Seq<char>, Option<Seq<char>>> {
    match resolved {
        Some(r) => with_highlight_spec(saved_colors_spec(saved), r.highlight@, overrides, syntax_overrides),
        None => saved_colors_spec(saved),
    }
}

/// What a colour row shows: its saved value, else the colour the variant resolves the
/// token to, else nothing.
pub open spec fn color_display_spec(valid: Option<Seq<char>>, resolved: Option<ResolvedColors>, token: Seq<char>) -> Seq<char> {
    match valid {
        Some(v) => v,
        None => match resolved {
            Some(r) => match lookup_spec(r.colors@, token) {
                Some(c) => c,
                None => Seq::empty(),
            },
            None => Seq::empty(),
        },
    }
}

/// The colour rows of a variant, by token.
pub open spec fn color_rows_spec(
    saved: Seq<(String, Option<String>)>,
    resolved: Option<ResolvedColors>,
    overrides: Seq<(String, String)>,
    syntax_overrides: Seq<(String, String)>,
) -> Map<Seq<char>, ColorRowView> {
    let tokens = color_tokens_spec(saved, resolved, overrides, syntax_overrides);
    Map::new(
        |k: Seq<char>| tokens.contains_key(k),
        |k: Seq<char>| {
            let display = color_display_spec(tokens[k], resolved, k);
            ColorRowView { valid: tokens[k], display, input: display, error: None }
        },
    )
}

/// `pairs` lists the entries of `m`, each key once.
pub open spec fn lists_map<V>(pairs: Seq<(Seq<char>, V)>, m: Map<Seq<char>, V>) -> bool {
    &&& forall|i: int, j: int| 0 <= i < j < pairs.len() ==> pairs[i].0 != pairs[j].0
    &&& forall|i: int| 0 <= i < pairs.len() ==> m.contains_key(#[trigger] pairs[i].0) && m[pairs[i].0] == pairs[i].1
    &&& forall|k: Seq<char>| m.contains_key(k) ==> exists|i: int| 0 <= i < pairs.len() && #[trigger] pairs[i].0 == k
}

pub open spec fn token_pairs(list: Seq<(String, Option<String>)>) -> Seq<(Seq<char>, Option<Seq<char>>)> {
    list.map_values(|p: (String, Option<String>)| (p.0@, opt_str(p.1)))
}

pub open spec fn row_pairs(list: Seq<(String, ColorRow)>) -> Seq<(Seq<char>, ColorRowView)> {
    list.map_values(|p: (String, ColorRow)| (p.0@, p.1@))
}

fn copy_opt(o: &Option<String>) -> (r: Option<String>)
    ensures
        opt_str(r) == opt_str(*o),
{
    match o {
        Some(s) => Some(s.clone()),
        None => None,
    }
}

/// The value of the first entry of `pairs` with key `key`.
fn lookup(pairs: &Vec<(String, String)>, key: &str) -> (r: Option<String>)
    ensures
        opt_str(r) == lookup_spec(pairs@, key@),
{
    let mut i: usize = 0;
    assert(pairs@.subrange(0, pairs@.len() as int) =~= pairs@);
    while i < pairs.len()
        invariant
            i <= pairs@.len(),
            lookup_spec(pairs@, key@) == lookup_spec(pairs@.subrange(i as int, pairs@.len() as int), key@),
        decreases pairs.len() - i,
    {
        let ghost rest = pairs@.subrange(i as int, pairs@.len() as int);
        assert(rest[0] == pairs@[i as int]);
        assert(rest.drop_first() =~= pairs@.subrange(i + 1, pairs@.len() as int));
        if str_eq(pairs[i].0.as_str(), key) {
            return Some(pairs[i].1.clone());
        }
        i = i + 1;
    }
    None
}

/// Sets the saved value of `token` in the list, adding the token when it is not there.
fn set_color(
    list: &mut Vec<(String, Option<String>)>,
    token: String,
    valid: Option<String>,
    Ghost(m): Ghost<Map<Seq<char>, Option<Seq<char>>>>,
)
    requires
        lists_map(token_pairs(old(list)@), m),
    ensures
        lists_map(token_pairs(final(list)@), m.insert(token@, opt_str(valid))),
{
    let ghost before = token_pairs(list@);
    let ghost m2 = m.insert(token@, opt_str(valid));
    let ghost entry = (token@, opt_str(valid));
    let mut i: usize = 0;
    while i < list.len()
        invariant
            i <= list@.len(),
            list@ == old(list)@,
            before == token_pairs(list@),
            lists_map(before, m),
            entry == (token@, opt_str(valid)),
            m2 == m.insert(token@, opt_str(valid)),
            forall|j: int| 0 <= j < i ==> before[j].0 != token@,
        decreases list.len() - i,
    {
        if str_eq(list[i].0.as_str(), token.as_str()) {
            let ghost at = i as int;
            assert(before[at].0 == entry.0);
            list.set(i, (token, valid));
            proof {
                let after = token_pairs(list@);
                assert(after =~= before.update(at, entry));
                assert forall|x: int| 0 <= x < after.len() implies m2.contains_key(#[trigger] after[x].0)
                    && m2[after[x].0] == after[x].1 by {
                    if x != at {
                        assert(before[x].0 != before[at].0);
                    }
                }
                assert forall|k: Seq<char>| m2.contains_key(k) implies exists|j: int|
                    0 <= j < after.len() && #[trigger] after[j].0 == k by {
                    if k == entry.0 {
                        assert(after[at].0 == k);
                    } else {
                        assert(m.contains_key(k));
                        let j = choose|j: int| 0 <= j < before.len() && #[trigger] before[j].0 == k;
                        assert(after[j].0 == k);
                    }
                }
            }
            return;
        }
        i = i + 1;
    }
    list.push((token, valid));
    proof {
        let after = token_pairs(list@);
        assert(after =~= before.push(entry));
        assert forall|k: Seq<char>| m2.contains_key(k) implies exists|j: int|
            0 <= j < after.len() && #[trigger] after[j].0 == k by {
            if k == entry.0 {
                assert(after[before.len() as int].0 == k);
            } else {
                assert(m.contains_key(k));
                let j = choose|j: int| 0 <= j < before.len() && #[trigger] before[j].0 == k;
                assert(after[j].0 == k);
            }
        }
    }
}

/// `pairs` is in increasing order of its keys, the order of `String`s.
pub open spec fn sorted_by_key<V>(pairs: Seq<(Seq<char>, V)>) -> bool {
    forall|a: int, b: int| 0 <= a < b < pairs.len() ==> text_lt(pairs[a].0, pairs[b].0)
}

/// Inserting an entry where it belongs keeps a sequence sorted.
proof fn lemma_insert_sorted<V>(ov: Seq<(Seq<char>, V)>, p: int, e: (Seq<char>, V))
    requires
        sorted_by_key(ov),
        0 <= p <= ov.len(),
        forall|a: int| 0 <= a < p ==> text_lt(#[trigger] ov[a].0, e.0),
        p < ov.len() ==> text_lt(e.0, ov[p].0),
    ensures
        sorted_by_key(ov.insert(p, e)),
{
    let nv = ov.insert(p, e);
    assert forall|a: int, b: int| 0 <= a < b < nv.len() implies text_lt(nv[a].0, nv[b].0) by {
        if a < p && b > p {
            if b - 1 > p {
                crate::file_tree::lemma_text_lt_transitive(e.0, ov[p].0, ov[b - 1].0);
            }
            crate::file_tree::lemma_text_lt_transitive(ov[a].0, e.0, ov[b - 1].0);
        } else if a == p && b - 1 > p {
            crate::file_tree::lemma_text_lt_transitive(e.0, ov[p].0, ov[b - 1].0);
        }
    }
}

/// `out` holds exactly the first `i` entries of `src`, in some order.
#[verifier::opaque]
pub open spec fn holds_prefix<V>(src: Seq<(Seq<char>, V)>, out: Seq<(Seq<char>, V)>, i: int) -> bool {
    &&& forall|a: int| #![trigger out[a]] 0 <= a < out.len() ==> exists|x: int| 0 <= x < i && src[x] == out[a]
    &&& forall|x: int| #![trigger src[x]] 0 <= x < i ==> exists|a: int| 0 <= a < out.len() && out[a] == src[x]
}

/// Inserting the next entry of `src` anywhere keeps `out` holding a prefix of `src`.
proof fn lemma_insert_holds_prefix<V>(src: Seq<(Seq<char>, V)>, ov: Seq<(Seq<char>, V)>, i: int, p: int)
    requires
        0 <= i < src.len(),
        0 <= p <= ov.len(),
        holds_prefix(src, ov, i),
    ensures
        holds_prefix(src, ov.insert(p, src[i]), i + 1),
{
    reveal(holds_prefix);
    let nv = ov.insert(p, src[i]);
    assert forall|a: int| #![trigger nv[a]] 0 <= a < nv.len() implies exists|x: int| 0 <= x < i + 1 && src[x] == nv[a] by {
        if a < p {
            let x = choose|x: int| 0 <= x < i && src[x] == ov[a];
            assert(src[x] == nv[a]);
        } else if a == p {
            assert(src[i] == nv[a]);
        } else {
            let x = choose|x: int| 0 <= x < i && src[x] == ov[a - 1];
            assert(src[x] == nv[a]);
        }
    }
    assert forall|x: int| #![trigger src[x]] 0 <= x < i + 1 implies exists|a: int| 0 <= a < nv.len() && nv[a] == src[x] by {
        if x == i {
            assert(nv[p] == src[x]);
        } else {
            let a = choose|a: int| 0 <= a < ov.len() && ov[a] == src[x];
            if a < p {
                assert(nv[a] == src[x]);
            } else {
                assert(nv[a + 1] == src[x]);
            }
        }
    }
}

/// A sorted sequence that holds all the entries of a listing of `m` lists `m` too.
proof fn lemma_sorted_lists_map<V>(src: Seq<(Seq<char>, V)>, out: Seq<(Seq<char>, V)>, m: Map<Seq<char>, V>)
    requires
        lists_map(src, m),
        holds_prefix(src, out, src.len() as int),
        sorted_by_key(out),
    ensures
        lists_map(out, m),
{
    reveal(holds_prefix);
    assert forall|a: int, b: int| 0 <= a < b < out.len() implies out[a].0 != out[b].0 by {
        crate::file_tree::lemma_text_lt_irreflexive(out[a].0);
    }
    assert forall|a: int| 0 <= a < out.len() implies m.contains_key(#[trigger] out[a].0) && m[out[a].0] == out[a].1 by {
        let x = choose|x: int| 0 <= x < src.len() && src[x] == out[a];
        assert(m.contains_key(src[x].0));
    }
    assert forall|k: Seq<char>| m.contains_key(k) implies exists|a: int| 0 <= a < out.len() && #[trigger] out[a].0 == k by {
        let x = choose|x: int| 0 <= x < src.len() && #[trigger] src[x].0 == k;
        assert(0 <= x < src.len());
        let a = choose|a: int| 0 <= a < out.len() && out[a] == src[x];
        assert(out[a].0 == k);
    }
}

/// The entries of `list` in increasing order of their tokens.
fn sort_by_token(
    list: &Vec<(String, Option<String>)>,
    Ghost(m): Ghost<Map<Seq<char>, Option<Seq<char>>>>,
) -> (r: Vec<(String, Option<String>)>)
    requires
        lists_map(token_pairs(list@), m),
    ensures
        lists_map(token_pairs(r@), m),
        sorted_by_key(token_pairs(r@)),
{
    let ghost src = token_pairs(list@);
    let mut out: Vec<(String, Option<String>)> = Vec::new();
    let mut i: usize = 0;
    assert(holds_prefix(src, token_pairs(out@), 0)) by {
        reveal(holds_prefix);
    }
    while i < list.len()
        invariant
            i <= list@.len(),
            src == token_pairs(list@),
            forall|a: int, b: int| 0 <= a < b < src.len() ==> src[a].0 != src[b].0,
            sorted_by_key(token_pairs(out@)),
            holds_prefix(src, token_pairs(out@), i as int),
        decreases list.len() - i,
    {
        let key = chars_of(list[i].0.as_str());
        let ghost ov = token_pairs(out@);
        proof {
            assert forall|a: int| 0 <= a < ov.len() implies #[trigger] ov[a].0 != key@ by {
                reveal(holds_prefix);
                let x = choose|x: int| 0 <= x < i && src[x] == ov[a];
                assert(src[x].0 != src[i as int].0);
            }
        }
        let mut p: usize = 0;
        while p < out.len()
            invariant
                p <= out@.len(),
                ov == token_pairs(out@),
                forall|a: int| 0 <= a < ov.len() ==> #[trigger] ov[a].0 != key@,
                forall|a: int| 0 <= a < p ==> text_lt(#[trigger] ov[a].0, key@),
            ensures
                p <= out@.len(),
                forall|a: int| 0 <= a < p ==> text_lt(#[trigger] ov[a].0, key@),
                p < out@.len() ==> text_lt(key@, ov[p as int].0),
            decreases out.len() - p,
        {
            let other = chars_of(out[p].0.as_str());
            if key_lt(&key, &other) {
                break;
            }
            proof {
                assert(ov[p as int].0 != key@);
                crate::file_tree::lemma_text_lt_total(key@, other@);
            }
            p = p + 1;
        }
        let entry = (list[i].0.clone(), copy_opt(&list[i].1));
        proof {
            assert((entry.0@, opt_str(entry.1)) == src[i as int]);
            lemma_insert_sorted(ov, p as int, src[i as int]);
            lemma_insert_holds_prefix(src, ov, i as int, p as int);
        }
        out.insert(p, entry);
        assert(token_pairs(out@) =~= ov.insert(p as int, src[i as int]));
        i = i + 1;
    }
    proof {
        lemma_sorted_lists_map(src, token_pairs(out@), m);
    }
    out
}

/// The token of a highlight colour.
fn highlight_token(h: &HighlightColor) -> (r: String)
    ensures
        r@ == highlight_token_spec(*h),
{
    match h {
        HighlightColor::Plain(k) => {
            let mut t = string_of("highlight:");
            crate::text::push_str(&mut t, k.as_str());
            t
        },
        HighlightColor::Syntax(k) => {
            let mut t = string_of("highlight:syntax.");
            crate::text::push_str(&mut t, k.as_str());
            t
        },
    }
}

/// The colour rows of a variant, one per token, as [`color_rows_spec`] states: `saved`
/// holds the colours saved in the variant, `resolved` what the variant resolves to (none
/// when it does not resolve), and `overrides` and `syntax_overrides` the variant's own
/// highlight settings.
pub fn color_rows(
    saved: &Vec<(String, Option<String>)>,
    resolved: Option<&ResolvedColors>,
    overrides: &Vec<(String, String)>,
    syntax_overrides: &Vec<(String, String)>,
) -> (r: Vec<(String, ColorRow)>)
    ensures
        lists_map(
            row_pairs(r@),
            color_rows_spec(
                saved@,
                match resolved {
                    Some(x) => Some(*x),
                    None => None,
                },
                overrides@,
                syntax_overrides@,
            ),
        ),
        sorted_by_key(row_pairs(r@)),
{
    let ghost res = match resolved {
        Some(x) => Some(*x),
        None => None,
    };
    let mut list: Vec<(String, Option<String>)> = Vec::new();
    let mut i: usize = 0;
    assert(token_pairs(list@) =~= Seq::<(Seq<char>, Option<Seq<char>>)>::empty());
    while i < saved.len()
        invariant
            i <= saved@.len(),
            lists_map(token_pairs(list@), saved_colors_spec(saved@.subrange(0, i as int))),
        decreases saved.len() - i,
    {
        let ghost m = saved_colors_spec(saved@.subrange(0, i as int));
        proof {
            let s = saved@.subrange(0, i + 1);
            assert(s.drop_last() =~= saved@.subrange(0, i as int));
            assert(s.last() == saved@[i as int]);
        }
        set_color(&mut list, saved[i].0.clone(), copy_opt(&saved[i].1), Ghost(m));
        i = i + 1;
    }
    assert(saved@.subrange(0, saved@.len() as int) =~= saved@);
    if let Some(rc) = resolved {
        let ghost base = saved_colors_spec(saved@);
        let mut k: usize = 0;
        while k < rc.highlight.len()
            invariant
                k <= rc.highlight@.len(),
                lists_map(
                    token_pairs(list@),
                    with_highlight_spec(base, rc.highlight@.subrange(0, k as int), overrides@, syntax_overrides@),
                ),
            decreases rc.highlight.len() - k,
        {
            let ghost m = with_highlight_spec(base, rc.highlight@.subrange(0, k as int), overrides@, syntax_overrides@);
            proof {
                let s = rc.highlight@.subrange(0, k + 1);
                assert(s.drop_last() =~= rc.highlight@.subrange(0, k as int));
                assert(s.last() == rc.highlight@[k as int]);
            }
            let h = &rc.highlight[k];
            let token = highlight_token(h);
            let valid = match h {
                HighlightColor::Plain(key) => lookup(overrides, key.as_str()),
                HighlightColor::Syntax(key) => lookup(syntax_overrides, key.as_str()),
            };
            set_color(&mut list, token, valid, Ghost(m));
            k = k + 1;
        }
        assert(rc.highlight@.subrange(0, rc.highlight@.len() as int) =~= rc.highlight@);
    }
    let ghost tokens = color_tokens_spec(saved@, res, overrides@, syntax_overrides@);
    let ghost rows = color_rows_spec(saved@, res, overrides@, syntax_overrides@);
    assert(lists_map(token_pairs(list@), tokens));
    let list = sort_by_token(&list, Ghost(tokens));
    let mut out: Vec<(String, ColorRow)> = Vec::new();
    let mut j: usize = 0;
    while j < list.len()
        invariant
            j <= list@.len(),
            lists_map(token_pairs(list@), tokens),
            sorted_by_key(token_pairs(list@)),
            rows == color_rows_spec(saved@, res, overrides@, syntax_overrides@),
            tokens == color_tokens_spec(saved@, res, overrides@, syntax_overrides@),
            res == (match resolved {
                Some(x) => Some(*x),
                None => None,
            }),
            row_pairs(out@) =~= token_pairs(list@).subrange(0, j as int).map_values(
                |p: (Seq<char>, Option<Seq<char>>)| (p.0, rows[p.0]),
            ),
        decreases list.len() - j,
    {
        let ghost tp = token_pairs(list@);
        let token = &list[j].0;
        let valid = copy_opt(&list[j].1);
        let display = match &list[j].1 {
            Some(v) => v.clone(),
            None => match resolved {
                Some(rc) => match lookup(&rc.colors, token.as_str()) {
                    Some(c) => c,
                    None => String::new(),
                },
                None => String::new(),
            },
        };
        let row = ColorRow::new(valid, display);
        proof {
            assert(tp[j as int].0 == token@);
            assert(tokens.contains_key(token@));
            assert(tokens[token@] == opt_str(list@[j as int].1));
            assert(row@ == rows[token@]);
        }
        let ghost before = row_pairs(out@);
        out.push((token.clone(), row));
        proof {
            assert(row_pairs(out@) =~= before.push((token@, row@)));
            assert(tp.subrange(0, j + 1) =~= tp.subrange(0, j as int).push(tp[j as int]));
        }
        j = j + 1;
    }
    proof {
        let tp = token_pairs(list@);
        assert(tp.subrange(0, tp.len() as int) =~= tp);
        let rp = row_pairs(out@);
        assert forall|k: Seq<char>| rows.contains_key(k) implies exists|x: int|
            0 <= x < rp.len() && #[trigger] rp[x].0 == k by {
            let x = choose|x: int| 0 <= x < tp.len() && #[trigger] tp[x].0 == k;
            assert(rp[x].0 == k);
        }
    }
    out
}

/// Where saving a theme family stands.
#[derive(Debug, PartialEq, Eq)]
pub enum SaveStatus {
    /// A save is under way.
    Saving,
    /// Every change has been written.
    Autosaved,
    /// The last save failed, with the error's message.
    Failed(String),
}

/// The line the editor shows for a save status.
pub open spec fn save_status_spec(status: SaveStatus) -> Seq<char> {
    match status {
        SaveStatus::Saving => "Saving\u{2026}"@,
        SaveStatus::Autosaved => "All changes saved"@,
        SaveStatus::Failed(error) => "Couldn\u{2019}t save: "@ + error@,
    }
}

/// The line the editor shows for `status`.
pub fn save_status_text(status: &SaveStatus) -> (r: String)
    ensures
        r@ == save_status_spec(*status),
{
    match status {
        SaveStatus::Saving => string_of("Saving\u{2026}"),
        SaveStatus::Autosaved => string_of("All changes saved"),
        SaveStatus::Failed(error) => {
            let mut text = string_of("Couldn\u{2019}t save: ");
            crate::text::push_str(&mut text, error.as_str());
            text
        },
    }
}
} // verus!
