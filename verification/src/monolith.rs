//! The monolith mark: its source art, a grid of characters in which `M`, `1`, `2` and `I`
//! mark the cells of the four colour tiers, read into cells by column and row.

use vstd::prelude::*;
use crate::licenses::{lines_of, text_lines};
use crate::text::{chars_of, lemma_prefix_filter_step, trim, trimmed};

verus! {

/// The colour tier of a cell of the mark.
#[derive(Clone, Copy, Debug, PartialEq, Eq, Structural)]
pub enum Tier {
    Light,
    RightSide,
    LeftSide,
    Inscription,
}

/// The tier a character of the art encodes: `M` main, `1` slightly whiter, `2` closest
/// to white, `I` inscription; any other character is an empty cell.
pub open spec fn tier_of(c: char) -> Option<Tier> {
    if c == 'M' {
        Some(Tier::Light)
    } else if c == '1' {
        Some(Tier::RightSide)
    } else if c == '2' {
        Some(Tier::LeftSide)
    } else if c == 'I' {
        Some(Tier::Inscription)
    } else {
        None
    }
}

/// The tier a character encodes.
pub fn tier_of_char(c: char) -> (r: Option<Tier>)
    ensures
        r == tier_of(c),
{
    if c == 'M' {
        Some(Tier::Light)
    } else if c == '1' {
        Some(Tier::RightSide)
    } else if c == '2' {
        Some(Tier::LeftSide)
    } else if c == 'I' {
        Some(Tier::Inscription)
    } else {
        None
    }
}

/// A painted cell of the mark, by column and row.
#[derive(Clone, Copy, Debug, PartialEq, Eq, Structural)]
pub struct LogoCell {
    pub col: usize,
    pub row: usize,
    pub tier: Tier,
}

/// The mark read from its art: its size in cells and its painted cells.
pub struct LogoGrid {
    pub width: usize,
    pub height: usize,
    pub cells: Vec<LogoCell>,
}

/// A line of the art that holds more than white space.
pub open spec fn nonblank() -> spec_fn(Seq<char>) -> bool {
    |l: Seq<char>| trimmed(l).len() > 0
}

/// The lines of the art that make rows of the mark.
pub open spec fn art_rows(source: Seq<char>) -> Seq<Seq<char>> {
    text_lines(source).filter(nonblank())
}

/// The painted cells among the first `n` characters of `line`, which is row `row`.
pub open spec fn line_cells(line: Seq<char>, row: int, n: nat) -> Seq<(int, int, Tier)>
    decreases n,
{
    if n == 0 {
        Seq::empty()
    } else {
        let before = line_cells(line, row, (n - 1) as nat);
        match tier_of(line[n - 1]) {
            Some(t) => before.push((n - 1, row, t)),
            None => before,
        }
    }
}

/// The painted cells of the first `n` rows, row by row and left to right.
pub open spec fn grid_cells(rows: Seq<Seq<char>>, n: nat) -> Seq<(int, int, Tier)>
    decreases n,
{
    if n == 0 {
        Seq::empty()
    } else {
        grid_cells(rows, (n - 1) as nat) + line_cells(rows[n - 1], n - 1, rows[n - 1].len())
    }
}

/// The length of the longest of the first `n` rows.
pub open spec fn widest(rows: Seq<Seq<char>>, n: nat) -> nat
    decreases n,
{
    if n == 0 {
        0
    } else {
        let w = widest(rows, (n - 1) as nat);
        if rows[n - 1].len() > w {
            rows[n - 1].len()
        } else {
            w
        }
    }
}

/// A cell as plain values.
pub open spec fn cell_view(c: LogoCell) -> (int, int, Tier) {
    (c.col as int, c.row as int, c.tier)
}

/// Reads the mark from its art: every line that is not blank is a row; the mark is as
/// wide as its longest row, in characters, and as high as its number of rows; each
/// tier character is a cell at its column and row.
pub fn parse_logo(source: &str) -> (r: LogoGrid)
    ensures
        r.height == art_rows(source@).len(),
        r.width == widest(art_rows(source@), art_rows(source@).len()),
        r.cells@.map_values(|c: LogoCell| cell_view(c)) == grid_cells(
            art_rows(source@),
            art_rows(source@).len(),
        ),
{
    let lines = lines_of(source);
    let ghost ls = lines@.map_values(|l: String| l@);
    let ghost pred = nonblank();
    let mut cells: Vec<LogoCell> = Vec::new();
    let mut width: usize = 0;
    let mut height: usize = 0;
    let mut i: usize = 0;
    while i < lines.len()
        invariant
            i <= lines@.len(),
            ls == lines@.map_values(|l: String| l@),
            ls == text_lines(source@),
            pred == nonblank(),
            height == ls.subrange(0, i as int).filter(pred).len(),
            height <= i,
            width == widest(ls.subrange(0, i as int).filter(pred), height as nat),
            cells@.map_values(|c: LogoCell| cell_view(c)) == grid_cells(
                ls.subrange(0, i as int).filter(pred),
                height as nat,
            ),
        decreases lines.len() - i,
    {
        let ghost kept = ls.subrange(0, i as int).filter(pred);
        proof {
            lemma_prefix_filter_step(ls, pred, i as int);
        }
        let t = trim(lines[i].as_str());
        if t.as_str().unicode_len() > 0 {
            let line = chars_of(lines[i].as_str());
            let ghost next = kept.push(ls[i as int]);
            assert(pred(ls[i as int]));
            assert(next.subrange(0, height as int) =~= kept);
            assert forall|m: nat| m <= height implies #[trigger] grid_cells(next, m) == grid_cells(
                kept,
                m,
            ) && widest(next, m) == widest(kept, m) by {
                lemma_rows_prefix(next, kept, m);
            }
            let ghost start = cells@.map_values(|c: LogoCell| cell_view(c));
            let mut col: usize = 0;
            while col < line.len()
                invariant
                    col <= line@.len(),
                    i < ls.len(),
                    line@ == ls[i as int],
                    height < usize::MAX,
                    cells@.map_values(|c: LogoCell| cell_view(c)) == start + line_cells(
                        line@,
                        height as int,
                        col as nat,
                    ),
                decreases line.len() - col,
            {
                let ghost before = cells@.map_values(|c: LogoCell| cell_view(c));
                match tier_of_char(line[col]) {
                    Some(tier) => {
                        cells.push(LogoCell { col, row: height, tier });
                        assert(cells@.map_values(|c: LogoCell| cell_view(c)) =~= before.push(
                            (col as int, height as int, tier),
                        ));
                    },
                    None => {},
                }
                col = col + 1;
            }
            if line.len() > width {
                width = line.len();
            }
            proof {
                let h = height as nat;
                assert(next[h as int] == ls[i as int]);
                assert(grid_cells(next, h + 1) == grid_cells(next, h) + line_cells(
                    next[h as int],
                    h as int,
                    next[h as int].len(),
                ));
                assert(widest(next, h + 1) == (if next[h as int].len() > widest(next, h) {
                    next[h as int].len()
                } else {
                    widest(next, h)
                }));
                assert(ls.subrange(0, i + 1).filter(pred) == next);
            }
            height = height + 1;
        }
        i = i + 1;
    }
    assert(ls.subrange(0, lines@.len() as int) =~= ls);
    LogoGrid { width, height, cells }
}

/// The cells and width of the first `m` rows depend on those rows alone.
proof fn lemma_rows_prefix(a: Seq<Seq<char>>, b: Seq<Seq<char>>, m: nat)
    requires
        m <= a.len(),
        m <= b.len(),
        forall|j: int| 0 <= j < m ==> a[j] == b[j],
    ensures
        grid_cells(a, m) == grid_cells(b, m),
        widest(a, m) == widest(b, m),
    decreases m,
{
    if m > 0 {
        lemma_rows_prefix(a, b, (m - 1) as nat);
    }
}


/// Every cell of the mark lies inside it: its column is less than the width and its row
/// less than the height.
pub proof fn law_cells_lie_inside_the_grid(rows: Seq<Seq<char>>, n: nat)
    requires
        n <= rows.len(),
    ensures
        forall|k: int|
            0 <= k < grid_cells(rows, n).len() ==> (#[trigger] grid_cells(rows, n)[k]).0 < widest(rows, n)
                && grid_cells(rows, n)[k].1 < n && 0 <= grid_cells(rows, n)[k].0 && 0
                <= grid_cells(rows, n)[k].1,
    decreases n,
{
    if n > 0 {
        law_cells_lie_inside_the_grid(rows, (n - 1) as nat);
        let before = grid_cells(rows, (n - 1) as nat);
        let line = rows[n - 1];
        lemma_line_cells_bounds(line, n - 1, line.len());
        let here = line_cells(line, n - 1, line.len());
        assert forall|k: int| 0 <= k < grid_cells(rows, n).len() implies (#[trigger] grid_cells(rows, n)[k]).0
            < widest(rows, n) && grid_cells(rows, n)[k].1 < n && 0 <= grid_cells(rows, n)[k].0 && 0
            <= grid_cells(rows, n)[k].1 by {
            if k < before.len() {
                assert(grid_cells(rows, n)[k] == before[k]);
            } else {
                assert(grid_cells(rows, n)[k] == here[k - before.len()]);
            }
        }
    }
}

proof fn lemma_line_cells_bounds(line: Seq<char>, row: int, m: nat)
    requires
        m <= line.len(),
    ensures
        forall|k: int|
            0 <= k < line_cells(line, row, m).len() ==> 0 <= (#[trigger] line_cells(line, row, m)[k]).0 < m
                && line_cells(line, row, m)[k].1 == row,
    decreases m,
{
    if m > 0 {
        lemma_line_cells_bounds(line, row, (m - 1) as nat);
        let before = line_cells(line, row, (m - 1) as nat);
        assert forall|k: int| 0 <= k < line_cells(line, row, m).len() implies 0 <= (#[trigger] line_cells(
            line,
            row,
            m,
        )[k]).0 < m && line_cells(line, row, m)[k].1 == row by {
            if k < before.len() {
                assert(line_cells(line, row, m)[k] == before[k]);
            }
        }
    }
}
} // verus!
