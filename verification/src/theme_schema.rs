//! Human-facing names for the theme colour schema: the navigation group of each colour
//! token, its label and its description, plus the labels of variants and font roles.

use vstd::prelude::*;

use crate::text::{chars_of, has_prefix, push_char, push_str, str_eq, string_from_chars, string_of};

verus! {

/// The navigation groups of the colour schema, in display order.
pub const GROUPS: [&'static str; 11] = [
    "All areas",
    "Workspace",
    "Navigation",
    "Buttons",
    "Inputs & selection",
    "Lists & tables",
    "Feedback",
    "Source editor",
    "Syntax",
    "Base palette",
    "Other components",
];

/// The text of `token` before its first `.` (all of it when there is none).
pub open spec fn first_segment(token: Seq<char>) -> Seq<char>
    decreases token.len(),
{
    if token.len() == 0 {
        Seq::empty()
    } else if token[0] == '.' {
        Seq::empty()
    } else {
        seq![token[0]] + first_segment(token.drop_first())
    }
}

/// The group of a segment that does not belong to the editor highlight schema.
pub open spec fn segment_group(seg: Seq<char>) -> Seq<char> {
    if seg == "base"@ {
        "Base palette"@
    } else if seg == "sidebar"@ || seg == "tab"@ || seg == "tab_bar"@ || seg == "title_bar"@
        || seg == "scrollbar"@ {
        "Navigation"@
    } else if seg == "button"@ || seg == "primary"@ || seg == "secondary"@ {
        "Buttons"@
    } else if seg == "input"@ || seg == "caret"@ || seg == "ring"@ || seg == "selection"@ || seg
        == "switch"@ || seg == "slider"@ {
        "Inputs & selection"@
    } else if seg == "list"@ || seg == "table"@ {
        "Lists & tables"@
    } else if seg == "danger"@ || seg == "info"@ || seg == "warning"@ || seg == "success"@ || seg
        == "progress"@ {
        "Feedback"@
    } else if seg == "background"@ || seg == "foreground"@ || seg == "border"@ || seg == "muted"@
        || seg == "accent"@ || seg == "popover"@ || seg == "overlay"@ || seg == "link"@ || seg
        == "drag"@ || seg == "drop_target"@ {
        "Workspace"@
    } else {
        "Other components"@
    }
}

/// The navigation group of a colour token: syntax highlight tokens, other highlight
/// tokens, and otherwise the group of the token's first segment.
pub open spec fn group_spec(token: Seq<char>) -> Seq<char> {
    if has_prefix(token, "highlight:syntax."@) {
        "Syntax"@
    } else if has_prefix(token, "highlight:"@) {
        "Source editor"@
    } else {
        segment_group(first_segment(token))
    }
}

/// Whether `cs[from..to]` is `lit`.
fn chars_eq(cs: &Vec<char>, from: usize, to: usize, lit: &str) -> (r: bool)
    requires
        from <= to <= cs@.len(),
    ensures
        r == (cs@.subrange(from as int, to as int) == lit@),
{
    let lc = chars_of(lit);
    if to - from != lc.len() {
        return false;
    }
    let mut i: usize = 0;
    while i < lc.len()
        invariant
            from <= to <= cs@.len(),
            to - from == lc@.len(),
            lc@ == lit@,
            i <= lc@.len(),
            forall|j: int| 0 <= j < i ==> cs@[from + j] == lc@[j],
        decreases lc@.len() - i,
    {
        if cs[from + i] != lc[i] {
            assert(cs@.subrange(from as int, to as int)[i as int] != lc@[i as int]);
            return false;
        }
        i = i + 1;
    }
    assert(cs@.subrange(from as int, to as int) =~= lc@);
    true
}

/// Whether `cs` starts with `lit`.
fn chars_start_with(cs: &Vec<char>, lit: &str) -> (r: bool)
    ensures
        r == has_prefix(cs@, lit@),
{
    let lc = chars_of(lit);
    if lc.len() > cs.len() {
        return false;
    }
    chars_eq(cs, 0, lc.len(), lit)
}

/// The index of the first `.` at or after `from` in `cs` (its length when there is none).
fn find_dot(cs: &Vec<char>, from: usize) -> (r: usize)
    requires
        from <= cs@.len(),
    ensures
        from <= r <= cs@.len(),
        forall|j: int| from <= j < r ==> cs@[j] != '.',
        r < cs@.len() ==> cs@[r as int] == '.',
{
    let mut i = from;
    while i < cs.len() && cs[i] != '.'
        invariant
            from <= i <= cs@.len(),
            forall|j: int| from <= j < i ==> cs@[j] != '.',
        decreases cs@.len() - i,
    {
        i = i + 1;
    }
    i
}

proof fn lemma_first_segment(s: Seq<char>, k: int)
    requires
        0 <= k <= s.len(),
        forall|j: int| 0 <= j < k ==> s[j] != '.',
        k < s.len() ==> s[k] == '.',
    ensures
        first_segment(s) == s.subrange(0, k),
    decreases s.len(),
{
    if s.len() > 0 && k > 0 {
        assert forall|j: int| 0 <= j < k - 1 implies s.drop_first()[j] != '.' by {
            assert(s.drop_first()[j] == s[j + 1]);
        }
        lemma_first_segment(s.drop_first(), k - 1);
        assert(seq![s[0]] + s.drop_first().subrange(0, k - 1) =~= s.subrange(0, k));
    } else if s.len() > 0 {
        assert(s.subrange(0, 0) =~= Seq::<char>::empty());
    } else {
        assert(s.subrange(0, k) =~= Seq::<char>::empty());
    }
}

/// The group of a segment, as [`segment_group`] states.
fn segment_group_of(cs: &Vec<char>, to: usize) -> (r: &'static str)
    requires
        to <= cs@.len(),
    ensures
        r@ == segment_group(cs@.subrange(0, to as int)),
{
    if chars_eq(cs, 0, to, "base") {
        "Base palette"
    } else if chars_eq(cs, 0, to, "sidebar") || chars_eq(cs, 0, to, "tab") || chars_eq(cs, 0, to, "tab_bar")
        || chars_eq(cs, 0, to, "title_bar") || chars_eq(cs, 0, to, "scrollbar") {
        "Navigation"
    } else if chars_eq(cs, 0, to, "button") || chars_eq(cs, 0, to, "primary") || chars_eq(
        cs,
        0,
        to,
        "secondary",
    ) {
        "Buttons"
    } else if chars_eq(cs, 0, to, "input") || chars_eq(cs, 0, to, "caret") || chars_eq(cs, 0, to, "ring")
        || chars_eq(cs, 0, to, "selection") || chars_eq(cs, 0, to, "switch") || chars_eq(
        cs,
        0,
        to,
        "slider",
    ) {
        "Inputs & selection"
    } else if chars_eq(cs, 0, to, "list") || chars_eq(cs, 0, to, "table") {
        "Lists & tables"
    } else if chars_eq(cs, 0, to, "danger") || chars_eq(cs, 0, to, "info") || chars_eq(cs, 0, to, "warning")
        || chars_eq(cs, 0, to, "success") || chars_eq(cs, 0, to, "progress") {
        "Feedback"
    } else if chars_eq(cs, 0, to, "background") || chars_eq(cs, 0, to, "foreground") || chars_eq(
        cs,
        0,
        to,
        "border",
    ) || chars_eq(cs, 0, to, "muted") || chars_eq(cs, 0, to, "accent") || chars_eq(cs, 0, to, "popover")
        || chars_eq(cs, 0, to, "overlay") || chars_eq(cs, 0, to, "link") || chars_eq(cs, 0, to, "drag")
        || chars_eq(cs, 0, to, "drop_target") {
        "Workspace"
    } else {
        "Other components"
    }
}

/// The navigation group of a colour token, as [`group_spec`] states.
pub fn group(token: &str) -> (r: &'static str)
    ensures
        r@ == group_spec(token@),
{
    let cs = chars_of(token);
    if chars_start_with(&cs, "highlight:syntax.") {
        return "Syntax";
    }
    if chars_start_with(&cs, "highlight:") {
        return "Source editor";
    }
    let end = find_dot(&cs, 0);
    proof {
        lemma_first_segment(cs@, end as int);
    }
    segment_group_of(&cs, end)
}

/// The description of a syntax highlight token, by the part after `highlight:syntax.`.
pub open spec fn syntax_description(name: Seq<char>) -> Seq<char> {
    if name == "keyword"@ {
        "Source syntax: keywords such as let, if and return"@
    } else if name == "comment"@ || name == "comment_doc"@ {
        "Source syntax: comments and documentation"@
    } else if name == "string"@ || name == "text.literal"@ || name == "text.code.span"@ {
        "Source syntax: quoted text and literal values"@
    } else if name == "number"@ || name == "boolean"@ || name == "constant"@ {
        "Source syntax: numbers, true / false and constants"@
    } else if name == "function"@ || name == "constructor"@ {
        "Source syntax: function names and constructors"@
    } else if name == "link_text"@ {
        "Markdown source: the visible text of a link"@
    } else if name == "link_uri"@ {
        "Markdown source: the destination of a link"@
    } else if name == "title"@ {
        "Markdown source: heading text"@
    } else if name == "emphasis"@ || name == "emphasis.strong"@ {
        "Markdown source: emphasized text"@
    } else {
        "Source syntax: used when the language grammar recognizes this token"@
    }
}

/// The description of a colour token shown under its label.
pub open spec fn description_spec(token: Seq<char>) -> Seq<char> {
    if has_prefix(token, "highlight:syntax."@) {
        syntax_description(token.subrange(17, token.len() as int))
    } else if token == "highlight:editor.background"@ {
        "Source editor surface; separate from the rendered note background"@
    } else if token == "highlight:editor.foreground"@ {
        "Stored but not applied by the current editor; use Text (foreground) instead"@
    } else if token == "highlight:editor.active_line.background"@ {
        "Source editor: background of the line containing the cursor"@
    } else if token == "highlight:editor.invisible"@ {
        "Source editor: whitespace markers when enabled"@
    } else if token == "highlight:editor.line_number"@ || token == "highlight:editor.active_line_number"@ || token == "highlight:editor.gutter.background"@ {
        "Stored for the editor; line numbers are currently hidden in Datalith"@
    } else if token == "group_box.title.foreground"@ {
        "Accepted by the schema, but not applied by the component library"@
    } else if token == "window.border"@ {
        "Window border on Linux only; no effect on macOS"@
    } else if token == "link"@ || token == "link.active"@ || token == "link.hover"@ {
        "Link components; rendered note links use Primary accent instead"@
    } else if has_prefix(token, "highlight:"@) {
        "Source diagnostics when provided; Datalith currently has no diagnostic provider"@
    } else if has_prefix(token, "sidebar.primary."@) || has_prefix(token, "sidebar.accent."@) {
        "Library Sidebar states; Datalith file rows use the List colors instead"@
    } else if has_prefix(token, "sidebar."@) {
        "File navigation: panel, text and item states"@
    } else if has_prefix(token, "tab"@) {
        "Workspace tabs and the tab strip"@
    } else if has_prefix(token, "title_bar."@) {
        "The window title bar and its border"@
    } else if has_prefix(token, "scrollbar."@) {
        "Scroll track and draggable thumb"@
    } else if has_prefix(token, "button."@) {
        "Button-specific override; takes precedence over its matching accent color"@
    } else if has_prefix(token, "primary."@) {
        "Primary actions and their hover / pressed states; also used by note links"@
    } else if has_prefix(token, "secondary."@) {
        "Secondary actions and supporting surfaces"@
    } else if has_prefix(token, "table."@) {
        "Table components in rendered notes and shortcuts; Base views use shared workspace colors"@
    } else if has_prefix(token, "list."@) {
        "Menus, file lists and selection rows"@
    } else if has_prefix(token, "base."@) {
        "Base palette used by default component colors; explicit component overrides take precedence"@
    } else if has_prefix(token, "popover."@) {
        "Floating menus and popovers"@
    } else if token == "overlay"@ {
        "The dimmed backdrop behind dialogs"@
    } else if token == "selection.background"@ {
        "Selected text in input fields and source editors"@
    } else if token == "caret"@ {
        "The blinking text cursor"@
    } else if token == "ring"@ {
        "Keyboard focus outline around controls"@
    } else if token == "input.border"@ {
        "Borders of text fields and select controls"@
    } else if has_prefix(token, "switch."@) {
        "Toggle switch track and thumb"@
    } else if has_prefix(token, "slider."@) {
        "Slider track and thumb, including display scale"@
    } else if group_spec(token) == "Feedback"@ {
        "Status messages, progress indicators and semantic action colors"@
    } else if group_spec(token) == "Other components"@ {
        "Component-library setting; this component is not currently shown in Datalith"@
    } else {
        "Shared workspace color; specific component colors can override it"@
    }
}

/// The description of a syntax token, as [`syntax_description`] states.
fn syntax_description_of(cs: &Vec<char>, from: usize) -> (r: &'static str)
    requires
        from <= cs@.len(),
    ensures
        r@ == syntax_description(cs@.subrange(from as int, cs@.len() as int)),
{
    if chars_eq(cs, from, cs.len(), "keyword") {
        "Source syntax: keywords such as let, if and return"
    } else if chars_eq(cs, from, cs.len(), "comment") || chars_eq(cs, from, cs.len(), "comment_doc") {
        "Source syntax: comments and documentation"
    } else if chars_eq(cs, from, cs.len(), "string") || chars_eq(cs, from, cs.len(), "text.literal") || chars_eq(cs, from, cs.len(), "text.code.span") {
        "Source syntax: quoted text and literal values"
    } else if chars_eq(cs, from, cs.len(), "number") || chars_eq(cs, from, cs.len(), "boolean") || chars_eq(cs, from, cs.len(), "constant") {
        "Source syntax: numbers, true / false and constants"
    } else if chars_eq(cs, from, cs.len(), "function") || chars_eq(cs, from, cs.len(), "constructor") {
        "Source syntax: function names and constructors"
    } else if chars_eq(cs, from, cs.len(), "link_text") {
        "Markdown source: the visible text of a link"
    } else if chars_eq(cs, from, cs.len(), "link_uri") {
        "Markdown source: the destination of a link"
    } else if chars_eq(cs, from, cs.len(), "title") {
        "Markdown source: heading text"
    } else if chars_eq(cs, from, cs.len(), "emphasis") || chars_eq(cs, from, cs.len(), "emphasis.strong") {
        "Markdown source: emphasized text"
    } else {
        "Source syntax: used when the language grammar recognizes this token"
    }
}

/// The description of a colour token, as [`description_spec`] states.
pub fn description(token: &str) -> (r: &'static str)
    ensures
        r@ == description_spec(token@),
{
    let cs = chars_of(token);
    proof {
        assert(cs@.subrange(0, cs@.len() as int) =~= cs@);
    }
    if chars_start_with(&cs, "highlight:syntax.") {
        proof {
            reveal_strlit("highlight:syntax.");
        }
        return syntax_description_of(&cs, 17);
    } else if chars_eq(&cs, 0, cs.len(), "highlight:editor.background") {
        "Source editor surface; separate from the rendered note background"
    } else if chars_eq(&cs, 0, cs.len(), "highlight:editor.foreground") {
        "Stored but not applied by the current editor; use Text (foreground) instead"
    } else if chars_eq(&cs, 0, cs.len(), "highlight:editor.active_line.background") {
        "Source editor: background of the line containing the cursor"
    } else if chars_eq(&cs, 0, cs.len(), "highlight:editor.invisible") {
        "Source editor: whitespace markers when enabled"
    } else if chars_eq(&cs, 0, cs.len(), "highlight:editor.line_number") || chars_eq(&cs, 0, cs.len(), "highlight:editor.active_line_number") || chars_eq(&cs, 0, cs.len(), "highlight:editor.gutter.background") {
        "Stored for the editor; line numbers are currently hidden in Datalith"
    } else if chars_eq(&cs, 0, cs.len(), "group_box.title.foreground") {
        "Accepted by the schema, but not applied by the component library"
    } else if chars_eq(&cs, 0, cs.len(), "window.border") {
        "Window border on Linux only; no effect on macOS"
    } else if chars_eq(&cs, 0, cs.len(), "link") || chars_eq(&cs, 0, cs.len(), "link.active") || chars_eq(&cs, 0, cs.len(), "link.hover") {
        "Link components; rendered note links use Primary accent instead"
    } else if chars_start_with(&cs, "highlight:") {
        "Source diagnostics when provided; Datalith currently has no diagnostic provider"
    } else if chars_start_with(&cs, "sidebar.primary.") || chars_start_with(&cs, "sidebar.accent.") {
        "Library Sidebar states; Datalith file rows use the List colors instead"
    } else if chars_start_with(&cs, "sidebar.") {
        "File navigation: panel, text and item states"
    } else if chars_start_with(&cs, "tab") {
        "Workspace tabs and the tab strip"
    } else if chars_start_with(&cs, "title_bar.") {
        "The window title bar and its border"
    } else if chars_start_with(&cs, "scrollbar.") {
        "Scroll track and draggable thumb"
    } else if chars_start_with(&cs, "button.") {
        "Button-specific override; takes precedence over its matching accent color"
    } else if chars_start_with(&cs, "primary.") {
        "Primary actions and their hover / pressed states; also used by note links"
    } else if chars_start_with(&cs, "secondary.") {
        "Secondary actions and supporting surfaces"
    } else if chars_start_with(&cs, "table.") {
        "Table components in rendered notes and shortcuts; Base views use shared workspace colors"
    } else if chars_start_with(&cs, "list.") {
        "Menus, file lists and selection rows"
    } else if chars_start_with(&cs, "base.") {
        "Base palette used by default component colors; explicit component overrides take precedence"
    } else if chars_start_with(&cs, "popover.") {
        "Floating menus and popovers"
    } else if chars_eq(&cs, 0, cs.len(), "overlay") {
        "The dimmed backdrop behind dialogs"
    } else if chars_eq(&cs, 0, cs.len(), "selection.background") {
        "Selected text in input fields and source editors"
    } else if chars_eq(&cs, 0, cs.len(), "caret") {
        "The blinking text cursor"
    } else if chars_eq(&cs, 0, cs.len(), "ring") {
        "Keyboard focus outline around controls"
    } else if chars_eq(&cs, 0, cs.len(), "input.border") {
        "Borders of text fields and select controls"
    } else if chars_start_with(&cs, "switch.") {
        "Toggle switch track and thumb"
    } else if chars_start_with(&cs, "slider.") {
        "Slider track and thumb, including display scale"
    } else if str_eq(group(token), "Feedback") {
        "Status messages, progress indicators and semantic action colors"
    } else if str_eq(group(token), "Other components") {
        "Component-library setting; this component is not currently shown in Datalith"
    } else {
        "Shared workspace color; specific component colors can override it"
    }
}

/// The `.`-separated segments of `s`, empty segments included (`str::split('.')`).
pub open spec fn split_dots(s: Seq<char>) -> Seq<Seq<char>>
    decreases s.len(),
{
    if s.len() == 0 {
        seq![Seq::empty()]
    } else {
        let rest = split_dots(s.drop_first());
        if s[0] == '.' {
            seq![Seq::empty()] + rest
        } else {
            seq![seq![s[0]] + rest[0]] + rest.drop_first()
        }
    }
}

proof fn lemma_split_dots_nonempty(s: Seq<char>)
    ensures
        split_dots(s).len() > 0,
    decreases s.len(),
{
    if s.len() > 0 {
        lemma_split_dots_nonempty(s.drop_first());
    }
}

/// Splitting at the first `.` from `i`: the text up to it is the first segment and the
/// segments after it follow; without a `.` the rest is the only segment.
proof fn lemma_split_dots_at(s: Seq<char>, i: int, k: int)
    requires
        0 <= i <= k <= s.len(),
        forall|j: int| i <= j < k ==> s[j] != '.',
        k < s.len() ==> s[k] == '.',
    ensures
        k < s.len() ==> split_dots(s.subrange(i, s.len() as int)) == seq![s.subrange(i, k)]
            + split_dots(s.subrange(k + 1, s.len() as int)),
        k == s.len() ==> split_dots(s.subrange(i, s.len() as int)) == seq![s.subrange(i, k)],
    decreases k - i,
{
    let t = s.subrange(i, s.len() as int);
    if i == k {
        if k < s.len() {
            assert(t[0] == '.');
            assert(t.drop_first() =~= s.subrange(k + 1, s.len() as int));
            assert(s.subrange(i, k) =~= Seq::<char>::empty());
        } else {
            assert(t =~= Seq::<char>::empty());
            assert(s.subrange(i, k) =~= Seq::<char>::empty());
        }
    } else {
        lemma_split_dots_at(s, i + 1, k);
        assert(t.drop_first() =~= s.subrange(i + 1, s.len() as int));
        assert(t[0] == s[i]);
        let rest = split_dots(t.drop_first());
        assert(rest[0] == s.subrange(i + 1, k));
        assert(seq![s[i]] + s.subrange(i + 1, k) =~= s.subrange(i, k));
        if k < s.len() {
            assert(rest.drop_first() =~= split_dots(s.subrange(k + 1, s.len() as int)));
            assert(seq![seq![t[0]] + rest[0]] + rest.drop_first() =~= seq![s.subrange(i, k)]
                + split_dots(s.subrange(k + 1, s.len() as int)));
        } else {
            assert(rest.drop_first() =~= Seq::<Seq<char>>::empty());
            assert(seq![seq![t[0]] + rest[0]] + rest.drop_first() =~= seq![s.subrange(i, k)]);
        }
    }
}

/// What the schema calls a segment in plain words.
pub open spec fn renamed_segment(p: Seq<char>) -> Seq<char> {
    if p == "foreground"@ {
        "text"@
    } else if p == "active"@ {
        "selected / pressed"@
    } else if p == "head"@ {
        "header"@
    } else if p == "foot"@ {
        "footer"@
    } else if p == "ring"@ {
        "focus outline"@
    } else if p == "caret"@ {
        "text cursor"@
    } else if p == "base"@ {
        "palette"@
    } else {
        p
    }
}

/// `s` with every `_` replaced by a space.
pub open spec fn spaced(s: Seq<char>) -> Seq<char> {
    s.map_values(|c: char| if c == '_' {
        ' '
    } else {
        c
    })
}

/// The characters `char::to_uppercase` yields for `c`.
pub uninterp spec fn char_uppercase(c: char) -> Seq<char>;

/// The upper-case form of `c` (`char::to_uppercase`). Its contract claims only that the
/// result is the characters `std` yields for `c`.
#[verifier::external_body]
fn uppercase(c: char) -> (r: String)
    ensures
        r@ == char_uppercase(c),
{
    c.to_uppercase().collect()
}

/// `s` with its first character in upper case.
pub open spec fn capitalized(s: Seq<char>) -> Seq<char> {
    if s.len() == 0 {
        Seq::empty()
    } else {
        char_uppercase(s[0]) + s.drop_first()
    }
}

/// The label of one segment.
pub open spec fn segment_label(p: Seq<char>) -> Seq<char> {
    capitalized(spaced(renamed_segment(p)))
}

/// `parts` joined by `sep`.
pub open spec fn join_with(parts: Seq<Seq<char>>, sep: Seq<char>) -> Seq<char>
    decreases parts.len(),
{
    if parts.len() == 0 {
        Seq::empty()
    } else if parts.len() == 1 {
        parts[0]
    } else {
        join_with(parts.drop_last(), sep) + sep + parts.last()
    }
}

/// The token without its `highlight:syntax.` or `highlight:` prefix.
pub open spec fn unhighlighted(token: Seq<char>) -> Seq<char> {
    if has_prefix(token, "highlight:syntax."@) {
        token.subrange(17, token.len() as int)
    } else if has_prefix(token, "highlight:"@) {
        token.subrange(10, token.len() as int)
    } else {
        token
    }
}

/// The label of a colour token: its segments in plain words, capitalised, joined by
/// ` · `.
pub open spec fn label_spec(token: Seq<char>) -> Seq<char> {
    join_with(split_dots(unhighlighted(token)).map_values(|p: Seq<char>| segment_label(p)), " · "@)
}

/// The label of one segment, `cs[from..to]`.
fn segment_label_of(cs: &Vec<char>, from: usize, to: usize) -> (r: String)
    requires
        from <= to <= cs@.len(),
    ensures
        r@ == segment_label(cs@.subrange(from as int, to as int)),
{
    let renamed: String = if chars_eq(cs, from, to, "foreground") {
        string_of("text")
    } else if chars_eq(cs, from, to, "active") {
        string_of("selected / pressed")
    } else if chars_eq(cs, from, to, "head") {
        string_of("header")
    } else if chars_eq(cs, from, to, "foot") {
        string_of("footer")
    } else if chars_eq(cs, from, to, "ring") {
        string_of("focus outline")
    } else if chars_eq(cs, from, to, "caret") {
        string_of("text cursor")
    } else if chars_eq(cs, from, to, "base") {
        string_of("palette")
    } else {
        string_from_chars(cs, from, to)
    };
    let rc = chars_of(renamed.as_str());
    let ghost sp = spaced(rc@);
    if rc.len() == 0 {
        assert(sp.len() == 0);
        return String::new();
    }
    let first = if rc[0] == '_' {
        ' '
    } else {
        rc[0]
    };
    let mut out = uppercase(first);
    let ghost head = out@;
    let mut i: usize = 1;
    while i < rc.len()
        invariant
            1 <= i <= rc@.len(),
            out@ == head + sp.subrange(1, i as int),
            sp == spaced(rc@),
        decreases rc@.len() - i,
    {
        let c = if rc[i] == '_' {
            ' '
        } else {
            rc[i]
        };
        push_char(&mut out, c);
        assert(sp.subrange(1, i + 1) =~= sp.subrange(1, i as int).push(sp[i as int]));
        i = i + 1;
    }
    assert(sp.drop_first() =~= sp.subrange(1, rc@.len() as int));
    out
}

/// The label of a colour token, as [`label_spec`] states.
pub fn label(token: &str) -> (r: String)
    ensures
        r@ == label_spec(token@),
{
    let cs = chars_of(token);
    let start: usize = if chars_start_with(&cs, "highlight:syntax.") {
        proof {
            reveal_strlit("highlight:syntax.");
        }
        17
    } else if chars_start_with(&cs, "highlight:") {
        proof {
            reveal_strlit("highlight:");
        }
        10
    } else {
        0
    };
    let ghost body = cs@.subrange(start as int, cs@.len() as int);
    assert(body == unhighlighted(token@)) by {
        if start == 0 {
            assert(cs@.subrange(0, cs@.len() as int) =~= cs@);
        }
    }
    let mut out = String::new();
    let mut seg_start = start;
    let mut count: usize = 0;
    let ghost mut done: Seq<Seq<char>> = Seq::empty();
    assert(body == cs@.subrange(seg_start as int, cs@.len() as int));
    loop
        invariant
            start <= seg_start <= cs@.len(),
            body == cs@.subrange(start as int, cs@.len() as int),
            body == unhighlighted(token@),
            split_dots(body) == done + split_dots(cs@.subrange(seg_start as int, cs@.len() as int)),
            out@ == join_with(done.map_values(|p: Seq<char>| segment_label(p)), " · "@),
            count == done.len(),
            count <= seg_start,
        decreases cs@.len() - seg_start,
    {
        let end = find_dot(&cs, seg_start);
        let piece = segment_label_of(&cs, seg_start, end);
        let ghost seg = cs@.subrange(seg_start as int, end as int);
        proof {
            lemma_split_dots_at(cs@, seg_start as int, end as int);
            let labels = done.map_values(|p: Seq<char>| segment_label(p));
            assert(done.push(seg).map_values(|p: Seq<char>| segment_label(p)) =~= labels.push(
                segment_label(seg),
            ));
            if done.len() > 0 {
                assert(labels.push(segment_label(seg)).drop_last() =~= labels);
            }
        }
        if count > 0 {
            push_str(&mut out, " · ");
        }
        push_str(&mut out, piece.as_str());
        proof {
            if count == 0 {
                assert(out@ =~= segment_label(seg));
                assert(done.push(seg).map_values(|p: Seq<char>| segment_label(p)) =~= seq![
                    segment_label(seg),
                ]);
            }
        }
        proof {
            let labels = done.map_values(|p: Seq<char>| segment_label(p));
            let next = done.push(seg).map_values(|p: Seq<char>| segment_label(p));
            assert(next =~= labels.push(segment_label(seg)));
            if count > 0 {
                assert(next.drop_last() =~= labels);
                assert(next.last() == segment_label(seg));
            }
            assert(out@ == join_with(next, " · "@));
        }
        if end == cs.len() {
            proof {
                assert(done + seq![seg] =~= done.push(seg));
                assert(split_dots(body) == done.push(seg));
                assert(split_dots(unhighlighted(token@)).map_values(|p: Seq<char>| segment_label(p))
                    =~= done.push(seg).map_values(|p: Seq<char>| segment_label(p)));
            }
            return out;
        }
        proof {
            assert(done + (seq![seg] + split_dots(cs@.subrange(end + 1, cs@.len() as int)))
                =~= done.push(seg) + split_dots(cs@.subrange(end + 1, cs@.len() as int)));
            done = done.push(seg);
        }
        seg_start = end + 1;
        count = count + 1;
    }
}

} // verus!
