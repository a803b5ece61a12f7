//! Licence notices: the release source address and the pre-wrapping of notice text into
//! the fixed-width rows of the licences panel.

use vstd::prelude::*;

use crate::text::{
    byte_len, char_width, chars_of, is_space, is_space_char, lemma_byte_len_append, lemma_byte_len_prefix,
    lemma_byte_len_push, push_char, push_str, string_of, utf8_width,
};

verus! {

/// The repository whose releases carry the corresponding source.
pub const RELEASE_REPO: &'static str = "https://github.com/mycelium-build/datalith";

/// The width, in bytes, the licences panel fits on one monospace line.
pub const WRAP_WIDTH: usize = 100;

/// The words of `s`: its maximal runs of non-white-space characters, in order
/// (`str::split_whitespace`).
pub open spec fn words(s: Seq<char>) -> Seq<Seq<char>>
    decreases s.len(),
{
    if s.len() == 0 {
        Seq::empty()
    } else {
        let w = words(s.drop_last());
        let c = s.last();
        if is_space(c) {
            w
        } else if s.len() >= 2 && !is_space(s[s.len() - 2]) {
            w.drop_last().push(w.last().push(c))
        } else {
            w.push(seq![c])
        }
    }
}

/// `a + b` saturating at `usize::MAX`.
pub open spec fn sat_add(a: int, b: int) -> int {
    if a + b > usize::MAX {
        usize::MAX as int
    } else {
        a + b
    }
}

/// One word placed by the wrapper: it joins the current line after a space when the line
/// is empty or the result fits `width`; otherwise the current line is finished and the word
/// starts the next one.
pub open spec fn wrap_step(state: (Seq<Seq<char>>, Seq<char>), word: Seq<char>, width: int) -> (
    Seq<Seq<char>>,
    Seq<char>,
) {
    let (lines, current) = state;
    let fits = sat_add(sat_add(byte_len(current) as int, 1), byte_len(word) as int) <= width;
    if current.len() == 0 {
        (lines, current + word)
    } else if fits {
        (lines, current.push(' ') + word)
    } else {
        (lines.push(current), word)
    }
}

/// The finished lines and the current line after placing `ws` in order.
pub open spec fn wrap_state(ws: Seq<Seq<char>>, width: int) -> (Seq<Seq<char>>, Seq<char>)
    decreases ws.len(),
{
    if ws.len() == 0 {
        (Seq::empty(), Seq::empty())
    } else {
        wrap_step(wrap_state(ws.drop_last(), width), ws.last(), width)
    }
}

/// The rows `line` wraps into at `width` bytes: words are kept whole and separated by one
/// space, a word that does not fit starts a new row, and a line without words gives one
/// empty row.
pub open spec fn wrap_line_spec(line: Seq<char>, width: int) -> Seq<Seq<char>> {
    let (lines, current) = wrap_state(words(line), width);
    let all = if current.len() > 0 {
        lines.push(current)
    } else {
        lines
    };
    if all.len() == 0 {
        seq![Seq::empty()]
    } else {
        all
    }
}

/// Places one word as [`wrap_step`] states.
fn place_word(
    lines: &mut Vec<String>,
    current: &mut String,
    current_len: &mut usize,
    word: &str,
    word_len: usize,
    width: usize,
)
    requires
        *old(current_len) == byte_len(old(current)@),
        word_len == byte_len(word@),
        word@.len() > 0,
        *old(current_len) + (if *old(current_len) > 0 {
            1int
        } else {
            0int
        }) + word_len <= usize::MAX,
    ensures
        (final(lines)@.map_values(|s: String| s@), final(current)@) == wrap_step(
            (old(lines)@.map_values(|s: String| s@), old(current)@),
            word@,
            width as int,
        ),
        *final(current_len) == byte_len(final(current)@),
        final(current)@.len() > 0,
        *final(current_len) <= *old(current_len) + (if *old(current_len) > 0 {
            1int
        } else {
            0int
        }) + word_len,
{
    let ghost prev = (lines@.map_values(|s: String| s@), current@);
    let fits = (*current_len).saturating_add(1).saturating_add(word_len) <= width;
    if *current_len == 0 {
        proof {
            lemma_byte_len_append(prev.1, word@);
            assert(prev.1.len() == 0) by {
                if prev.1.len() > 0 {
                    assert(byte_len(prev.1) >= utf8_width(prev.1[0]));
                }
            }
        }
        push_str(current, word);
        *current_len = word_len;
    } else if fits {
        proof {
            lemma_byte_len_push(prev.1, ' ');
            lemma_byte_len_append(prev.1.push(' '), word@);
        }
        push_char(current, ' ');
        push_str(current, word);
        *current_len = *current_len + 1 + word_len;
    } else {
        let mut next = String::new();
        push_str(&mut next, word);
        let mut finished = next;
        std::mem::swap(current, &mut finished);
        lines.push(finished);
        *current_len = word_len;
        proof {
            assert(Seq::<char>::empty() + word@ =~= word@);
            assert(lines@.map_values(|s: String| s@) =~= prev.0.push(prev.1));
        }
    }
}

/// Wraps one line of notice text into rows of at most `width` bytes, as
/// [`wrap_line_spec`] states.
pub fn wrap_line(line: &str, width: usize) -> (r: Vec<String>)
    ensures
        r@.map_values(|s: String| s@) == wrap_line_spec(line@, width as int),
{
    let cs = chars_of(line);
    let total = line.as_bytes().len();
    proof {
        crate::text::lemma_str_len(line);
    }
    let mut lines: Vec<String> = Vec::new();
    let mut current = String::new();
    let mut current_len: usize = 0;
    let mut word = String::new();
    let mut word_len: usize = 0;
    let mut in_word = false;
    let ghost mut done: Seq<Seq<char>> = Seq::empty();
    let mut i: usize = 0;
    while i < cs.len()
        invariant
            i <= cs@.len(),
            cs@ == line@,
            byte_len(cs@) == total,
            in_word == (i > 0 && !is_space(cs@[i - 1])),
            words(cs@.subrange(0, i as int)) == (if in_word {
                done.push(word@)
            } else {
                done
            }),
            in_word ==> word@.len() > 0,
            !in_word ==> word@.len() == 0,
            (lines@.map_values(|s: String| s@), current@) == wrap_state(done, width as int),
            current_len == byte_len(current@),
            word_len == byte_len(word@),
            in_word ==> current_len + (if current_len > 0 {
                1int
            } else {
                0int
            }) + word_len <= byte_len(cs@.subrange(0, i as int)),
            !in_word ==> current_len == 0 || current_len + 1 <= byte_len(
                cs@.subrange(0, i as int),
            ),
        decreases cs@.len() - i,
    {
        let c = cs[i];
        let ghost p = cs@.subrange(0, i as int);
        let ghost p1 = cs@.subrange(0, i + 1);
        proof {
            assert(p1.drop_last() =~= p);
            assert(p1.last() == c);
            assert(p.push(c) =~= p1);
            lemma_byte_len_push(p, c);
            lemma_byte_len_prefix(cs@, i + 1);
        }
        if is_space_char(c) {
            if in_word {
                place_word(&mut lines, &mut current, &mut current_len, word.as_str(), word_len, width);
                proof {
                    assert(done.push(word@).drop_last() =~= done);
                    done = done.push(word@);
                }
                word = String::new();
                word_len = 0;
                in_word = false;
            }
        } else {
            proof {
                if in_word {
                    assert(p1[p1.len() - 2] == cs@[i - 1]);
                    assert(done.push(word@).drop_last().push(word@.push(c)) =~= done.push(
                        word@.push(c),
                    ));
                } else {
                    assert(word@.push(c) =~= seq![c]);
                }
                lemma_byte_len_push(word@, c);
            }
            push_char(&mut word, c);
            let w = char_width(c);
            word_len = word_len + w;
            in_word = true;
        }
        i = i + 1;
    }
    assert(cs@.subrange(0, i as int) =~= cs@);
    if in_word {
        proof {
            lemma_byte_len_prefix(cs@, i as int);
        }
        place_word(&mut lines, &mut current, &mut current_len, word.as_str(), word_len, width);
        proof {
            assert(done.push(word@).drop_last() =~= done);
            done = done.push(word@);
        }
    }
    assert(words(line@) == done);
    let ghost finished_lines = lines@.map_values(|s: String| s@);
    if current_len > 0 {
        lines.push(current);
        proof {
            assert(lines@.map_values(|s: String| s@) =~= finished_lines.push(current@));
        }
    } else {
        proof {
            assert(current@.len() == 0) by {
                if current@.len() > 0 {
                    assert(byte_len(current@) >= utf8_width(current@[0]));
                }
            }
        }
    }
    if lines.len() == 0 {
        lines.push(String::new());
        assert(lines@.map_values(|s: String| s@) =~= seq![Seq::<char>::empty()]);
    }
    lines
}

/// `s` without one trailing carriage return.
pub open spec fn strip_cr(s: Seq<char>) -> Seq<char> {
    if s.len() > 0 && s.last() == '\r' {
        s.drop_last()
    } else {
        s
    }
}

/// The finished lines and the unfinished last line of `s`.
pub open spec fn lines_state(s: Seq<char>) -> (Seq<Seq<char>>, Seq<char>)
    decreases s.len(),
{
    if s.len() == 0 {
        (Seq::empty(), Seq::empty())
    } else {
        let (done, current) = lines_state(s.drop_last());
        if s.last() == '\n' {
            (done.push(strip_cr(current)), Seq::empty())
        } else {
            (done, current.push(s.last()))
        }
    }
}

/// The lines of `s` (`str::lines`): split at `\n`, with a `\r` before the `\n` removed
/// and without an empty line after a final line ending.
pub open spec fn text_lines(s: Seq<char>) -> Seq<Seq<char>> {
    let (done, current) = lines_state(s);
    if current.len() > 0 {
        done.push(current)
    } else {
        done
    }
}

/// The lines of `s`, as [`text_lines`] states.
pub fn lines_of(s: &str) -> (r: Vec<String>)
    ensures
        r@.map_values(|l: String| l@) == text_lines(s@),
{
    let cs = chars_of(s);
    let mut done: Vec<String> = Vec::new();
    let mut current = String::new();
    let mut i: usize = 0;
    while i < cs.len()
        invariant
            i <= cs@.len(),
            cs@ == s@,
            (done@.map_values(|l: String| l@), current@) == lines_state(cs@.subrange(0, i as int)),
        decreases cs@.len() - i,
    {
        let c = cs[i];
        proof {
            let p1 = cs@.subrange(0, i + 1);
            assert(p1.drop_last() =~= cs@.subrange(0, i as int));
            assert(p1.last() == c);
        }
        if c == '\n' {
            let mut line = current;
            let cl = chars_of(line.as_str());
            if cl.len() > 0 && cl[cl.len() - 1] == '\r' {
                line = crate::text::string_from_chars(&cl, 0, cl.len() - 1);
                assert(line@ =~= cl@.drop_last());
            }
            let ghost before = done@.map_values(|l: String| l@);
            done.push(line);
            assert(done@.map_values(|l: String| l@) =~= before.push(strip_cr(cl@)));
            current = String::new();
        } else {
            push_char(&mut current, c);
        }
        i = i + 1;
    }
    assert(cs@.subrange(0, i as int) =~= cs@);
    let ghost before = done@.map_values(|l: String| l@);
    if !current.as_str().is_empty() {
        done.push(current);
        assert(done@.map_values(|l: String| l@) =~= before.push(current@));
    }
    done
}

/// One row of the licences panel.
pub enum LicenseRow {
    /// The title of a section.
    Header(String),
    /// One wrapped line of text.
    Line(String),
}

/// The value of a [`LicenseRow`].
pub enum RowView {
    Header(Seq<char>),
    Line(Seq<char>),
}

impl View for LicenseRow {
    type V = RowView;

    open spec fn view(&self) -> RowView {
        match self {
            LicenseRow::Header(s) => RowView::Header(s@),
            LicenseRow::Line(s) => RowView::Line(s@),
        }
    }
}

/// A titled block of notice text.
pub struct LicenseSection {
    pub title: String,
    pub content: String,
}

/// The rows that text lines wrap into, as plain lines.
pub open spec fn wrapped_rows(lines: Seq<Seq<char>>) -> Seq<RowView>
    decreases lines.len(),
{
    if lines.len() == 0 {
        Seq::empty()
    } else {
        wrapped_rows(lines.drop_last()) + wrap_line_spec(lines.last(), WRAP_WIDTH as int).map_values(
            |l: Seq<char>| RowView::Line(l),
        )
    }
}

/// The panel rows for the sections: each section is its title followed by its wrapped
/// lines, and sections are separated by one empty line.
pub open spec fn license_rows_spec(sections: Seq<(Seq<char>, Seq<char>)>) -> Seq<RowView>
    decreases sections.len(),
{
    if sections.len() == 0 {
        Seq::empty()
    } else {
        let before = license_rows_spec(sections.drop_last());
        let (title, content) = sections.last();
        let head = if before.len() > 0 {
            before.push(RowView::Line(Seq::empty()))
        } else {
            before
        };
        head.push(RowView::Header(title)) + wrapped_rows(text_lines(content))
    }
}

pub open spec fn sections_view(sections: Seq<LicenseSection>) -> Seq<(Seq<char>, Seq<char>)> {
    sections.map_values(|s: LicenseSection| (s.title@, s.content@))
}

pub open spec fn rows_view(rows: Seq<LicenseRow>) -> Seq<RowView> {
    rows.map_values(|r: LicenseRow| r@)
}

/// Appends to `rows` the wrapped rows of the given text lines.
fn append_wrapped(rows: &mut Vec<LicenseRow>, lines: &Vec<String>)
    ensures
        rows_view(final(rows)@) == rows_view(old(rows)@) + wrapped_rows(
            lines@.map_values(|l: String| l@),
        ),
{
    let mut k: usize = 0;
    while k < lines.len()
        invariant
            k <= lines@.len(),
            rows_view(rows@) == rows_view(old(rows)@) + wrapped_rows(
                lines@.map_values(|l: String| l@).subrange(0, k as int),
            ),
        decreases lines@.len() - k,
    {
        let wrapped = wrap_line(lines[k].as_str(), WRAP_WIDTH);
        let ghost mid = rows_view(rows@);
        let mut j: usize = 0;
        while j < wrapped.len()
            invariant
                j <= wrapped@.len(),
                rows_view(rows@) == mid + wrapped@.map_values(|s: String| s@).subrange(
                    0,
                    j as int,
                ).map_values(|l: Seq<char>| RowView::Line(l)),
            decreases wrapped@.len() - j,
        {
            let text = string_of(wrapped[j].as_str());
            let ghost before = rows_view(rows@);
            rows.push(LicenseRow::Line(text));
            proof {
                let ws = wrapped@.map_values(|s: String| s@);
                assert(ws.subrange(0, j + 1) =~= ws.subrange(0, j as int).push(ws[j as int]));
                assert(ws.subrange(0, j + 1).map_values(|l: Seq<char>| RowView::Line(l))
                    =~= ws.subrange(0, j as int).map_values(|l: Seq<char>| RowView::Line(l)).push(
                    RowView::Line(ws[j as int]),
                ));
                assert(rows_view(rows@) =~= before.push(RowView::Line(text@)));
            }
            j = j + 1;
        }
        proof {
            let ls = lines@.map_values(|l: String| l@);
            let ws = wrapped@.map_values(|s: String| s@);
            assert(ws.subrange(0, wrapped@.len() as int) =~= ws);
            assert(ls.subrange(0, k + 1).drop_last() =~= ls.subrange(0, k as int));
            assert(ls.subrange(0, k + 1).last() == lines@[k as int]@);
            assert(mid == rows_view(old(rows)@) + wrapped_rows(ls.subrange(0, k as int)));
            assert(rows_view(rows@) =~= rows_view(old(rows)@) + wrapped_rows(ls.subrange(0, k + 1)));
        }
        k = k + 1;
    }
    assert(lines@.map_values(|l: String| l@).subrange(0, lines@.len() as int) =~= lines@.map_values(
        |l: String| l@,
    ));
}

/// The rows of the licences panel for the given sections, as [`license_rows_spec`]
/// states.
pub fn license_rows(sections: &Vec<LicenseSection>) -> (r: Vec<LicenseRow>)
    ensures
        rows_view(r@) == license_rows_spec(sections_view(sections@)),
{
    let mut rows: Vec<LicenseRow> = Vec::new();
    let mut i: usize = 0;
    while i < sections.len()
        invariant
            i <= sections@.len(),
            rows_view(rows@) == license_rows_spec(sections_view(sections@).subrange(0, i as int)),
        decreases sections@.len() - i,
    {
        let ghost before = rows_view(rows@);
        if rows.len() > 0 {
            rows.push(LicenseRow::Line(String::new()));
            assert(rows_view(rows@) =~= before.push(RowView::Line(Seq::empty())));
        }
        let ghost mid = rows_view(rows@);
        rows.push(LicenseRow::Header(string_of(sections[i].title.as_str())));
        assert(rows_view(rows@) =~= mid.push(RowView::Header(sections@[i as int].title@)));
        let lines = lines_of(sections[i].content.as_str());
        append_wrapped(&mut rows, &lines);
        proof {
            let sv = sections_view(sections@);
            assert(sv.subrange(0, i + 1).drop_last() =~= sv.subrange(0, i as int));
            assert(sv.subrange(0, i + 1).last() == sv[i as int]);
        }
        i = i + 1;
    }
    assert(sections_view(sections@).subrange(0, sections@.len() as int) =~= sections_view(
        sections@,
    ));
    rows
}

/// The corresponding-source address of a release: the release tag when one is set, `v`
/// followed by the package version otherwise.
pub open spec fn source_url_spec(release_tag: Option<Seq<char>>, version: Seq<char>) -> Seq<char> {
    let tag = match release_tag {
        Some(t) => t,
        None => seq!['v'] + version,
    };
    RELEASE_REPO@ + "/releases/tag/"@ + tag
}

/// The address of the release's corresponding source. `release_tag` is the release tag the
/// build was made from, when set, and `version` the package version.
pub fn corresponding_source_url(release_tag: Option<&str>, version: &str) -> (r: String)
    ensures
        r@ == source_url_spec(
            match release_tag {
                Some(t) => Some(t@),
                None => None,
            },
            version@,
        ),
{
    let mut r = string_of(RELEASE_REPO);
    push_str(&mut r, "/releases/tag/");
    match release_tag {
        Some(tag) => push_str(&mut r, tag),
        None => {
            let ghost base = r@;
            push_char(&mut r, 'v');
            push_str(&mut r, version);
            assert(r@ =~= base + (seq!['v'] + version@));
        },
    }
    r
}

/// Words joined by single spaces.
pub open spec fn join_space(ws: Seq<Seq<char>>) -> Seq<char>
    decreases ws.len(),
{
    if ws.len() == 0 {
        Seq::empty()
    } else if ws.len() == 1 {
        ws[0]
    } else {
        join_space(ws.drop_last()).push(' ') + ws.last()
    }
}

/// Every word is non-empty and free of white space; joined by single spaces the words
/// take no more bytes than the text, and one byte less when the text ends in white space
/// after a word.
proof fn lemma_words_shape(s: Seq<char>)
    ensures
        forall|k: int| 0 <= k < words(s).len() ==> (#[trigger] words(s)[k]).len() > 0,
        byte_len(join_space(words(s))) <= byte_len(s),
        s.len() > 0 && is_space(s.last()) && words(s).len() > 0 ==> byte_len(
            join_space(words(s)),
        ) + 1 <= byte_len(s),
        s.len() > 0 && !is_space(s.last()) ==> words(s).len() > 0,
    decreases s.len(),
{
    if s.len() > 0 {
        let t = s.drop_last();
        let c = s.last();
        lemma_words_shape(t);
        lemma_byte_len_push(t, c);
        assert(t.push(c) =~= s);
        let w = words(t);
        if is_space(c) {
        } else if s.len() >= 2 && !is_space(s[s.len() - 2]) {
            assert(t.last() == s[s.len() - 2]);
            let last = w.last();
            let r = w.drop_last().push(last.push(c));
            assert forall|k: int| 0 <= k < r.len() implies (#[trigger] r[k]).len() > 0 by {
                if k < r.len() - 1 {
                    assert(r[k] == w[k]);
                }
            }
            lemma_byte_len_push(join_space(w), c);
            if w.len() == 1 {
                assert(join_space(r) == last.push(c));
                assert(join_space(w) == last);
            } else {
                assert(r.drop_last() =~= w.drop_last());
                assert(join_space(r) == join_space(w.drop_last()).push(' ') + last.push(c));
                assert(join_space(w.drop_last()).push(' ') + last.push(c) =~= (join_space(
                    w.drop_last(),
                ).push(' ') + last).push(c));
            }
        } else {
            let r = w.push(seq![c]);
            assert forall|k: int| 0 <= k < r.len() implies (#[trigger] r[k]).len() > 0 by {
                if k < r.len() - 1 {
                    assert(r[k] == w[k]);
                }
            }
            assert(r.drop_last() =~= w);
            if w.len() == 0 {
                assert(join_space(r) == seq![c]);
                lemma_byte_len_push(Seq::<char>::empty(), c);
                assert(Seq::<char>::empty().push(c) =~= seq![c]);
            } else {
                assert(t.len() > 0);
                assert(is_space(t.last()));
                lemma_byte_len_push(join_space(w), ' ');
                lemma_byte_len_append(join_space(w).push(' '), seq![c]);
                lemma_byte_len_push(Seq::<char>::empty(), c);
                assert(Seq::<char>::empty().push(c) =~= seq![c]);
            }
        }
    }
}

/// The state of the wrapper after placing non-empty words `ws`, whose joined form fits
/// in `usize`: the current line is empty only before the first word, the finished lines
/// and the current line joined by spaces give the words joined by spaces, the current
/// line ends that joined text, and every line fits `width` or is a single word.
proof fn lemma_wrap_state(ws: Seq<Seq<char>>, width: int)
    requires
        forall|k: int| 0 <= k < ws.len() ==> (#[trigger] ws[k]).len() > 0,
        byte_len(join_space(ws)) < usize::MAX,
    ensures
        ({
            let (lines, current) = wrap_state(ws, width);
            &&& (ws.len() == 0 <==> current.len() == 0)
            &&& ws.len() == 0 ==> lines.len() == 0
            &&& ws.len() > 0 ==> join_space(lines.push(current)) == join_space(ws)
            &&& ws.len() > 0 ==> exists|q: Seq<char>| q + current == join_space(ws)
            &&& forall|k: int|
                0 <= k < lines.len() ==> byte_len(#[trigger] lines[k]) <= width || exists|j: int|
                    0 <= j < ws.len() && lines[k] == ws[j]
            &&& ws.len() > 0 ==> (byte_len(current) <= width || exists|j: int|
                0 <= j < ws.len() && current == ws[j])
        }),
    decreases ws.len(),
{
    if ws.len() > 0 {
        let prev = ws.drop_last();
        let word = ws.last();
        assert forall|k: int| 0 <= k < prev.len() implies (#[trigger] prev[k]).len() > 0 by {
            assert(prev[k] == ws[k]);
        }
        if prev.len() > 0 {
            assert(join_space(ws) == join_space(prev).push(' ') + word);
            lemma_byte_len_push(join_space(prev), ' ');
            lemma_byte_len_append(join_space(prev).push(' '), word);
        }
        lemma_wrap_state(prev, width);
        let (lines, current) = wrap_state(prev, width);
        let fits = sat_add(sat_add(byte_len(current) as int, 1), byte_len(word) as int) <= width;
        assert(ws.len() - 1 < ws.len());
        assert(ws[ws.len() - 1] == word);
        if current.len() == 0 {
            assert(prev.len() == 0);
            assert(current + word =~= word);
            assert(ws =~= seq![word]);
            assert(join_space(ws) == word);
            assert(Seq::<char>::empty() + word =~= word);
            assert(lines.push(word) =~= seq![word]);
        } else {
            let q = choose|q: Seq<char>| q + current == join_space(prev);
            lemma_byte_len_append(q, current);
            assert(join_space(ws) == join_space(prev).push(' ') + word);
            if fits {
                let next = current.push(' ') + word;
                lemma_byte_len_push(current, ' ');
                lemma_byte_len_append(current.push(' '), word);
                assert(q + next =~= (q + current).push(' ') + word);
                lemma_byte_len_append(q, next);
                if lines.len() == 0 {
                    assert(lines.push(current) =~= seq![current]);
                    assert(lines.push(next) =~= seq![next]);
                } else {
                    assert(lines.push(current).drop_last() =~= lines);
                    assert(lines.push(next).drop_last() =~= lines);
                    assert(join_space(lines.push(next)) == join_space(lines).push(' ') + next);
                    assert(join_space(lines.push(current)) == join_space(lines).push(' ')
                        + current);
                    assert(join_space(lines).push(' ') + next =~= (join_space(lines).push(' ')
                        + current).push(' ') + word);
                }
            } else {
                let lines2 = lines.push(current);
                assert(lines2.push(word).drop_last() =~= lines2);
                assert(join_space(lines2.push(word)) == join_space(lines2).push(' ') + word);
                assert((join_space(prev).push(' ')) + word =~= join_space(prev).push(' ') + word);
                let q2 = join_space(prev).push(' ');
                assert(q2 + word == join_space(ws));
                assert forall|k: int|
                    0 <= k < lines2.len() implies byte_len(#[trigger] lines2[k]) <= width
                    || exists|j: int| 0 <= j < ws.len() && lines2[k] == ws[j] by {
                    if k < lines.len() {
                        assert(lines2[k] == lines[k]);
                        if byte_len(lines[k]) > width {
                            let j = choose|j: int| 0 <= j < prev.len() && lines[k] == prev[j];
                            assert(ws[j] == prev[j]);
                        }
                    } else {
                        assert(lines2[k] == current);
                        if byte_len(current) > width {
                            let j = choose|j: int| 0 <= j < prev.len() && current == prev[j];
                            assert(ws[j] == prev[j]);
                        }
                    }
                }
            }
        }
        assert forall|k: int|
            0 <= k < lines.len() && byte_len(#[trigger] lines[k]) > width implies exists|j: int|
            0 <= j < ws.len() && lines[k] == ws[j] by {
            let j = choose|j: int| 0 <= j < prev.len() && lines[k] == prev[j];
            assert(ws[j] == prev[j]);
        }
    }
}

/// Wrapping never loses, adds or reorders a word: the rows joined by single spaces are
/// the line's words joined by single spaces.
pub proof fn law_wrapping_keeps_every_word(line: Seq<char>, width: int)
    requires
        byte_len(line) < usize::MAX,
    ensures
        join_space(wrap_line_spec(line, width)) == join_space(words(line)),
{
    lemma_words_shape(line);
    lemma_wrap_state(words(line), width);
    let (lines, current) = wrap_state(words(line), width);
    if words(line).len() == 0 {
        assert(wrap_line_spec(line, width) =~= seq![Seq::<char>::empty()]);
    }
}

/// Every row fits the width, except a row holding a single word that is wider on its own.
pub proof fn law_rows_fit_or_hold_one_word(line: Seq<char>, width: int)
    requires
        byte_len(line) < usize::MAX,
        width >= 0,
    ensures
        forall|k: int|
            0 <= k < wrap_line_spec(line, width).len() ==> byte_len(
                #[trigger] wrap_line_spec(line, width)[k],
            ) <= width || exists|j: int|
                0 <= j < words(line).len() && wrap_line_spec(line, width)[k] == words(line)[j],
{
    lemma_words_shape(line);
    lemma_wrap_state(words(line), width);
    let (lines, current) = wrap_state(words(line), width);
    let rows = wrap_line_spec(line, width);
    assert forall|k: int| 0 <= k < rows.len() implies byte_len(#[trigger] rows[k]) <= width
        || exists|j: int| 0 <= j < words(line).len() && rows[k] == words(line)[j] by {
        if words(line).len() == 0 {
            assert(rows =~= seq![Seq::<char>::empty()]);
            assert(byte_len(rows[k]) == 0);
        } else if k < lines.len() {
            assert(rows[k] == lines[k]);
        } else {
            assert(rows[k] == current);
        }
    }
}

/// The number of section titles among `rows`.
pub open spec fn header_count(rows: Seq<RowView>) -> nat
    decreases rows.len(),
{
    if rows.len() == 0 {
        0
    } else {
        header_count(rows.drop_last()) + if rows.last() is Header {
            1nat
        } else {
            0nat
        }
    }
}

proof fn lemma_header_count_append(a: Seq<RowView>, b: Seq<RowView>)
    ensures
        header_count(a + b) == header_count(a) + header_count(b),
    decreases b.len(),
{
    if b.len() > 0 {
        lemma_header_count_append(a, b.drop_last());
        assert((a + b).drop_last() =~= a + b.drop_last());
    } else {
        assert(a + b =~= a);
    }
}

proof fn lemma_wrapped_rows_are_lines(lines: Seq<Seq<char>>)
    ensures
        forall|k: int| 0 <= k < wrapped_rows(lines).len() ==> (#[trigger] wrapped_rows(lines)[k]) is Line,
        header_count(wrapped_rows(lines)) == 0,
    decreases lines.len(),
{
    if lines.len() > 0 {
        lemma_wrapped_rows_are_lines(lines.drop_last());
        let a = wrapped_rows(lines.drop_last());
        let b = wrap_line_spec(lines.last(), WRAP_WIDTH as int).map_values(
            |l: Seq<char>| RowView::Line(l),
        );
        lemma_lines_have_no_header(b);
        lemma_header_count_append(a, b);
    }
}

proof fn lemma_lines_have_no_header(b: Seq<RowView>)
    requires
        forall|k: int| 0 <= k < b.len() ==> (#[trigger] b[k]) is Line,
    ensures
        header_count(b) == 0,
    decreases b.len(),
{
    if b.len() > 0 {
        lemma_lines_have_no_header(b.drop_last());
    }
}

/// Every section contributes exactly one title row, and the panel starts with a title.
pub proof fn law_every_section_has_one_title(sections: Seq<(Seq<char>, Seq<char>)>)
    ensures
        header_count(license_rows_spec(sections)) == sections.len(),
        sections.len() > 0 ==> license_rows_spec(sections)[0] is Header,
    decreases sections.len(),
{
    if sections.len() > 0 {
        let prev = sections.drop_last();
        law_every_section_has_one_title(prev);
        let before = license_rows_spec(prev);
        let (title, content) = sections.last();
        let head = if before.len() > 0 {
            before.push(RowView::Line(Seq::empty()))
        } else {
            before
        };
        lemma_wrapped_rows_are_lines(text_lines(content));
        lemma_header_count_append(head.push(RowView::Header(title)), wrapped_rows(text_lines(content)));
        if before.len() > 0 {
            assert(head.drop_last() =~= before);
            assert(header_count(head) == header_count(before));
            assert(head.push(RowView::Header(title)).drop_last() =~= head);
            assert(header_count(head.push(RowView::Header(title))) == header_count(head) + 1);
        } else {
            assert(head.push(RowView::Header(title)).drop_last() =~= head);
            assert(head.len() == 0);
            assert(header_count(head.push(RowView::Header(title))) == header_count(head) + 1);
        }
    }
}

/// The lines written one after the other, each followed by a line ending.
pub open spec fn terminated(lines: Seq<Seq<char>>) -> Seq<char>
    decreases lines.len(),
{
    if lines.len() == 0 {
        Seq::empty()
    } else {
        terminated(lines.drop_last()) + lines.last() + seq!['\n']
    }
}

/// Splitting a text without carriage returns keeps all of it: the finished lines, each
/// with its line ending, followed by the unfinished one give the text back, and the
/// unfinished line is empty exactly when the text is empty or ends with a line ending.
proof fn lemma_lines_state_keeps_the_text(s: Seq<char>)
    requires
        forall|i: int| 0 <= i < s.len() ==> s[i] != '\r',
    ensures
        terminated(lines_state(s).0) + lines_state(s).1 == s,
        (lines_state(s).1.len() == 0) == (s.len() == 0 || s.last() == '\n'),
        forall|i: int| 0 <= i < lines_state(s).1.len() ==> lines_state(s).1[i] != '\r',
    decreases s.len(),
{
    if s.len() > 0 {
        let t = s.drop_last();
        assert forall|i: int| 0 <= i < t.len() implies t[i] != '\r' by {
            assert(t[i] == s[i]);
        }
        lemma_lines_state_keeps_the_text(t);
        let (done, current) = lines_state(t);
        if s.last() == '\n' {
            assert(strip_cr(current) == current);
            let nd = done.push(current);
            assert(nd.drop_last() =~= done);
            assert(terminated(nd) == terminated(done) + current + seq!['\n']);
            assert(terminated(nd) + Seq::<char>::empty() =~= s);
        } else {
            assert(terminated(done) + current.push(s.last()) =~= (terminated(done) + current).push(s.last()));
            assert(s =~= t.push(s.last()));
        }
    }
}

/// The panel keeps every line of a notice, empty ones included: for a text without
/// carriage returns, writing its lines back one after the other, each followed by a line
/// ending, gives the text itself, with a line ending added when it did not end with one.
pub proof fn law_lines_keep_the_whole_text(s: Seq<char>)
    requires
        forall|i: int| 0 <= i < s.len() ==> s[i] != '\r',
    ensures
        terminated(text_lines(s)) == (if s.len() == 0 || s.last() == '\n' {
            s
        } else {
            s.push('\n')
        }),
{
    lemma_lines_state_keeps_the_text(s);
    let (done, current) = lines_state(s);
    if current.len() > 0 {
        let nd = done.push(current);
        assert(nd.drop_last() =~= done);
        assert(terminated(nd) == terminated(done) + current + seq!['\n']);
        assert(terminated(nd) =~= s.push('\n'));
    } else {
        assert(terminated(done) + current =~= terminated(done));
    }
}

/// A carriage return before a line ending is not part of the line: the lines of a text
/// with `\r\n` endings are those of the same text with `\n` endings.
pub proof fn law_crlf_endings_read_as_lf(lines: Seq<Seq<char>>)
    requires
        forall|k: int, i: int| 0 <= k < lines.len() && 0 <= i < lines[k].len() ==> #[trigger] lines[k][i] != '\r' && lines[k][i] != '\n',
    ensures
        text_lines(crlf_terminated(lines)) == lines,
        text_lines(terminated(lines)) == lines,
{
    lemma_terminated_lines(lines);
}

/// The lines written one after the other, each followed by `\r\n`.
pub open spec fn crlf_terminated(lines: Seq<Seq<char>>) -> Seq<char>
    decreases lines.len(),
{
    if lines.len() == 0 {
        Seq::empty()
    } else {
        crlf_terminated(lines.drop_last()) + lines.last() + seq!['\r', '\n']
    }
}

/// Appending a line without a line ending to a finished text extends the unfinished line.
proof fn lemma_lines_state_append(s: Seq<char>, line: Seq<char>)
    requires
        lines_state(s).1.len() == 0,
        forall|i: int| 0 <= i < line.len() ==> line[i] != '\n',
    ensures
        lines_state(s + line) == (lines_state(s).0, line),
    decreases line.len(),
{
    if line.len() == 0 {
        assert(s + line =~= s);
    } else {
        let l0 = line.drop_last();
        assert forall|i: int| 0 <= i < l0.len() implies l0[i] != '\n' by {
            assert(l0[i] == line[i]);
        }
        lemma_lines_state_append(s, l0);
        assert((s + line).drop_last() =~= s + l0);
        assert((s + line).last() == line.last());
        assert(l0.push(line.last()) =~= line);
    }
}

/// The lines of texts written line by line, with either kind of line ending.
proof fn lemma_terminated_lines(lines: Seq<Seq<char>>)
    requires
        forall|k: int, i: int| 0 <= k < lines.len() && 0 <= i < lines[k].len() ==> #[trigger] lines[k][i] != '\r' && lines[k][i] != '\n',
    ensures
        lines_state(terminated(lines)) == (lines, Seq::<char>::empty()),
        lines_state(crlf_terminated(lines)) == (lines, Seq::<char>::empty()),
        text_lines(crlf_terminated(lines)) == lines,
        text_lines(terminated(lines)) == lines,
    decreases lines.len(),
{
    if lines.len() > 0 {
        let init = lines.drop_last();
        let last = lines.last();
        assert forall|k: int, i: int| 0 <= k < init.len() && 0 <= i < init[k].len() implies #[trigger] init[k][i] != '\r' && init[k][i] != '\n' by {
            assert(init[k] == lines[k]);
        }
        lemma_terminated_lines(init);
        assert forall|i: int| 0 <= i < last.len() implies last[i] != '\n' && last[i] != '\r' by {
            assert(last[i] == lines[lines.len() - 1][i]);
        }
        // `\n` ending
        let a = terminated(init);
        lemma_lines_state_append(a, last);
        let t = terminated(lines);
        assert(t.drop_last() =~= a + last);
        assert(t.last() == '\n');
        assert(strip_cr(last) == last);
        assert(init.push(last) =~= lines);
        // `\r\n` ending
        let b = crlf_terminated(init);
        lemma_lines_state_append(b, last);
        let u = crlf_terminated(lines);
        assert(u.drop_last() =~= (b + last).push('\r'));
        assert(u.drop_last().drop_last() =~= b + last);
        assert(u.last() == '\n');
        assert(u.drop_last().last() == '\r');
        assert(last.push('\r').drop_last() =~= last);
        assert(strip_cr(last.push('\r')) == last);
        assert(lines_state(b + last) == (init, last));
        assert(lines_state(u.drop_last()) == (init, last.push('\r')));
        assert(lines_state(u) == (init.push(strip_cr(last.push('\r'))), Seq::<char>::empty()));
    }
}

} // verus!
