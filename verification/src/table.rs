//! Markdown table collection and layout: rows are gathered cell by cell, then
//! rendered as a box-drawn grid that fits the available width, or as a
//! vertical "Row n / Header: value" listing when no grid fits.

use vstd::prelude::*;
use vstd::string::*;
use unicode_width::UnicodeWidthStr;

use crate::text::{
    char_seqs, chars_to_string, contains_char, decimal, inclusive_lines, push_chars, push_decimal,
    push_str, split_inclusive_lines, split_on, split_on_char, str_chars, str_to_string, string_seqs,
    trim, trim_char, trim_char_chars, trim_chars, join_with, lemma_join_step,
};

verus! {

/// Display width of a string in terminal columns, as `unicode-width` measures it.
pub uninterp spec fn str_width(s: Seq<char>) -> usize;

/// The lines `textwrap::wrap` produces for `text`; `table_cell` selects the
/// options used for table cells (ASCII-space word separation, first-fit).
pub uninterp spec fn wrapped_lines(
    text: Seq<char>,
    width: usize,
    break_words: bool,
    table_cell: bool,
) -> Seq<Seq<char>>;

/// `UnicodeWidthStr::width`: the result is the display width named by `str_width`.
#[verifier::external_body]
fn display_width(s: &str) -> (w: usize)
    ensures
        w == str_width(s@),
{
    UnicodeWidthStr::width(s)
}

/// `textwrap::wrap` with `Options::new(width).break_words(break_words)`.
/// The lines returned are named by `wrapped_lines` (with `table_cell`
/// false); nothing more is claimed.
#[verifier::external_body]
fn textwrap_wrap_plain(text: &str, width: usize, break_words: bool) -> (r: Vec<String>)
    ensures
        string_seqs(r@) == wrapped_lines(text@, width, break_words, false),
{
    let options = textwrap::Options::new(width).break_words(break_words);
    textwrap::wrap(text, options).into_iter().map(std::borrow::Cow::into_owned).collect()
}

/// `textwrap::wrap` with `Options::new(width).break_words(break_words)`,
/// `WordSeparator::AsciiSpace` and `WrapAlgorithm::FirstFit`, the options
/// used for table cells. The lines returned are named by `wrapped_lines`
/// (with `table_cell` true); nothing more is claimed.
#[verifier::external_body]
fn textwrap_wrap_cell(text: &str, width: usize, break_words: bool) -> (r: Vec<String>)
    ensures
        string_seqs(r@) == wrapped_lines(text@, width, break_words, true),
{
    let options = textwrap::Options::new(width).break_words(break_words).word_separator(
        textwrap::WordSeparator::AsciiSpace,
    ).wrap_algorithm(textwrap::WrapAlgorithm::FirstFit);
    textwrap::wrap(text, options).into_iter().map(std::borrow::Cow::into_owned).collect()
}

/// Collects the cells of a markdown table while it is being parsed.
pub struct TableState {
    pub rows: Vec<Vec<String>>,
    pub current_row: Vec<String>,
    pub current_cell: String,
    pub in_cell: bool,
}

/// The character view of a row of cells.
pub open spec fn row_view(row: Seq<String>) -> Seq<Seq<char>> {
    string_seqs(row)
}

/// The character view of a table.
pub open spec fn rows_view(rows: Seq<Vec<String>>) -> Seq<Seq<Seq<char>>> {
    rows.map_values(|r: Vec<String>| string_seqs(r@))
}

impl TableState {
    pub fn new() -> (t: Self)
        ensures
            t.rows@.len() == 0,
            t.current_row@.len() == 0,
            t.current_cell@.len() == 0,
            !t.in_cell,
    {
        TableState {
            rows: Vec::new(),
            current_row: Vec::new(),
            current_cell: String::new(),
            in_cell: false,
        }
    }

    pub fn start_row(&mut self)
        ensures
            final(self).current_row@.len() == 0,
            final(self).rows@ == old(self).rows@,
            final(self).current_cell@ == old(self).current_cell@,
            final(self).in_cell == old(self).in_cell,
    {
        self.current_row.clear();
    }

    pub fn start_cell(&mut self)
        ensures
            final(self).current_cell@.len() == 0,
            final(self).in_cell,
            final(self).rows@ == old(self).rows@,
            final(self).current_row@ == old(self).current_row@,
    {
        self.current_cell = String::new();
        self.in_cell = true;
    }

    pub fn push_text(&mut self, text: &str)
        ensures
            final(self).current_cell@ == (if old(self).in_cell {
                old(self).current_cell@ + text@
            } else {
                old(self).current_cell@
            }),
            final(self).in_cell == old(self).in_cell,
            final(self).rows@ == old(self).rows@,
            final(self).current_row@ == old(self).current_row@,
    {
        if self.in_cell {
            self.current_cell.append(text);
        }
    }

    pub fn end_cell(&mut self)
        ensures
            final(self).current_row@ == old(self).current_row@.push(old(self).current_cell),
            final(self).current_cell@.len() == 0,
            !final(self).in_cell,
            final(self).rows@ == old(self).rows@,
    {
        let mut cell = String::new();
        std::mem::swap(&mut cell, &mut self.current_cell);
        self.current_row.push(cell);
        self.in_cell = false;
    }

    pub fn end_row(&mut self)
        ensures
            old(self).current_row@.len() > 0 ==> final(self).rows@ == old(self).rows@.push(
                old(self).current_row,
            ) && final(self).current_row@.len() == 0,
            old(self).current_row@.len() == 0 ==> final(self).rows@ == old(self).rows@
                && final(self).current_row@.len() == 0,
            final(self).current_cell@ == old(self).current_cell@,
            final(self).in_cell == old(self).in_cell,
    {
        if self.current_row.len() > 0 {
            let mut row: Vec<String> = Vec::new();
            std::mem::swap(&mut row, &mut self.current_row);
            self.rows.push(row);
        }
    }
}

/// How the grid is laid out: with one space of padding around each cell, or none.
#[derive(Clone, Copy, PartialEq, Eq, Debug, Structural)]
pub enum TableLayoutMode {
    Normal,
    Compact,
}

/// The number of columns: the length of the longest row.
pub open spec fn widest_row(rows: Seq<Seq<Seq<char>>>) -> nat
    decreases rows.len(),
{
    if rows.len() == 0 {
        0
    } else {
        let rest = widest_row(rows.drop_last());
        if rows.last().len() > rest {
            rows.last().len()
        } else {
            rest
        }
    }
}

/// A row resized to `n` cells: cut short, or padded with empty cells.
pub open spec fn resize_row(row: Seq<Seq<char>>, n: nat) -> Seq<Seq<char>> {
    Seq::new(n, |i: int| if i < row.len() { row[i] } else { Seq::<char>::empty() })
}

pub open spec fn normalize_rows(rows: Seq<Seq<Seq<char>>>, n: nat) -> Seq<Seq<Seq<char>>> {
    rows.map_values(|r: Seq<Seq<char>>| resize_row(r, n))
}

/// The widest cell of column `i` over the rows, and at least 3.
pub open spec fn column_desired_width(rows: Seq<Seq<Seq<char>>>, i: int) -> usize
    decreases rows.len(),
{
    if rows.len() == 0 {
        3
    } else {
        let rest = column_desired_width(rows.drop_last(), i);
        let w: usize = if 0 <= i < rows.last().len() {
            str_width(rows.last()[i])
        } else {
            0
        };
        if w > rest {
            w
        } else {
            rest
        }
    }
}

pub open spec fn desired_widths(rows: Seq<Seq<Seq<char>>>, n: nat) -> Seq<usize> {
    Seq::new(n, |i: int| column_desired_width(rows, i))
}

/// A column's target width: its desired width, but never under 3.
pub open spec fn cap_width(d: usize) -> int {
    if d < 3 {
        3
    } else {
        d as int
    }
}

/// The width column `i` has once every column has grown to `3 + level`
/// (or stopped at its target width).
pub open spec fn level_width(d: Seq<usize>, level: int, i: int) -> int {
    if cap_width(d[i]) < 3 + level {
        cap_width(d[i])
    } else {
        3 + level
    }
}

/// Sum of `level_width` over the first `n` columns.
pub open spec fn level_sum(d: Seq<usize>, level: int, n: int) -> int
    decreases n,
{
    if n <= 0 {
        0
    } else {
        level_sum(d, level, n - 1) + level_width(d, level, n - 1)
    }
}

/// How many of the first `n` columns want more than `3 + level`.
pub open spec fn count_above(d: Seq<usize>, level: int, n: int) -> int
    decreases n,
{
    if n <= 0 {
        0
    } else {
        count_above(d, level, n - 1) + (if cap_width(d[n - 1]) > 3 + level {
            1int
        } else {
            0int
        })
    }
}

/// The highest level that every column can be raised to within `budget`:
/// columns grow one cell at a time, in column order, pass after pass.
pub open spec fn fill_level(d: Seq<usize>, budget: int, level: int) -> int
    decreases budget - level,
{
    if level < budget && count_above(d, level, d.len() as int) > 0 && level_sum(
        d,
        level + 1,
        d.len() as int,
    ) <= budget {
        fill_level(d, budget, level + 1)
    } else {
        level
    }
}

/// The width of column `i` after `budget` cells of content width were handed
/// out round-robin: every column reaches the fill level, and the cells left
/// over go one each to the first columns that still want more.
pub open spec fn allocated_width(d: Seq<usize>, budget: int, i: int) -> int {
    let l = fill_level(d, budget, 0);
    let extra = budget - level_sum(d, l, d.len() as int);
    level_width(d, l, i) + (if cap_width(d[i]) > 3 + l && count_above(d, l, i) < extra {
        1int
    } else {
        0int
    })
}

pub open spec fn allocated_widths(d: Seq<usize>, budget: int) -> Seq<int> {
    Seq::new(d.len(), |i: int| allocated_width(d, budget, i))
}

/// Column widths for a grid of `c` columns with `padding` spaces on each side
/// of every cell, or `None` when the grid cannot give each column 3 cells.
pub open spec fn allocate_spec(desired: Seq<usize>, available: int, c: int, padding: int) -> Option<
    Seq<int>,
> {
    let overhead = (c + 1) + padding * 2 * c;
    if available < overhead || available - overhead < 3 * c {
        None
    } else {
        Some(allocated_widths(desired.take(c), available - overhead))
    }
}

pub open spec fn ints(v: Seq<usize>) -> Seq<int> {
    v.map_values(|x: usize| x as int)
}

proof fn lemma_level_sum_mono(d: Seq<usize>, level: int, n: int, m: int)
    requires
        0 <= n <= m,
        level >= 0,
    ensures
        level_sum(d, level, n) <= level_sum(d, level, m),
    decreases m - n,
{
    if n < m {
        lemma_level_sum_mono(d, level, n, m - 1);
        assert(level_width(d, level, m - 1) >= 0);
    }
}

proof fn lemma_level_sum_at_zero(d: Seq<usize>, n: int)
    requires
        0 <= n,
    ensures
        level_sum(d, 0, n) == 3 * n,
    decreases n,
{
    if n > 0 {
        lemma_level_sum_at_zero(d, n - 1);
    }
}

/// The number of the first `n` columns that want more than `3 + level`.
fn count_columns_above(caps: &[usize], level: usize, n: usize) -> (r: usize)
    requires
        n <= caps.len(),
        forall|i: int| 0 <= i < caps.len() ==> caps[i] >= 3,
    ensures
        r == count_above(caps@, level as int, n as int),
{
    let mut k: usize = 0;
    let mut r: usize = 0;
    while k < n
        invariant
            k <= n <= caps.len(),
            forall|i: int| 0 <= i < caps.len() ==> caps[i] >= 3,
            r == count_above(caps@, level as int, k as int),
            r <= k,
        decreases n - k,
    {
        if caps[k] - 3 > level {
            r = r + 1;
        }
        k = k + 1;
    }
    r
}

/// Whether `level_sum(caps, level, n) <= budget`, computed without overflow.
fn level_sum_within(caps: &[usize], level: usize, n: usize, budget: usize) -> (r: bool)
    requires
        n <= caps.len(),
        forall|i: int| 0 <= i < caps.len() ==> caps[i] >= 3,
    ensures
        r == (level_sum(caps@, level as int, n as int) <= budget),
{
    let mut k: usize = 0;
    let mut acc: usize = 0;
    while k < n
        invariant
            k <= n <= caps.len(),
            forall|i: int| 0 <= i < caps.len() ==> caps[i] >= 3,
            acc == level_sum(caps@, level as int, k as int),
            acc <= budget,
        decreases n - k,
    {
        let w: usize = if caps[k] - 3 < level {
            caps[k]
        } else {
            if level > budget {
                proof {
                    lemma_level_sum_mono(caps@, level as int, k as int + 1, n as int);
                }
                return false;
            }
            3 + level
        };
        if w > budget - acc {
            proof {
                lemma_level_sum_mono(caps@, level as int, k as int + 1, n as int);
            }
            return false;
        }
        acc = acc + w;
        k = k + 1;
    }
    true
}

/// Hands out the content width left after borders and padding, one cell per
/// column per pass, until each column reaches its desired width or the width
/// runs out.
pub fn allocate_table_widths(
    desired_widths: &[usize],
    available_width: usize,
    column_count: usize,
    padding: usize,
) -> (r: Option<Vec<usize>>)
    requires
        column_count <= desired_widths.len(),
        (column_count + 1) + padding * 2 * column_count <= usize::MAX,
        3 * column_count <= usize::MAX,
    ensures
        r matches Some(v) ==> allocate_spec(
            desired_widths@,
            available_width as int,
            column_count as int,
            padding as int,
        ) == Some(ints(v@)),
        r is None ==> allocate_spec(
            desired_widths@,
            available_width as int,
            column_count as int,
            padding as int,
        ) is None,
{
    let border_width = column_count + 1;
    let two_c = 2 * column_count;
    assert(padding * two_c == padding * 2 * column_count) by (nonlinear_arith)
        requires
            two_c == 2 * column_count,
    ;
    let padding_width = padding * two_c;
    if available_width < border_width + padding_width {
        return None;
    }
    let budget = available_width - (border_width + padding_width);
    let min_total = 3 * column_count;
    if budget < min_total {
        return None;
    }
    let ghost d = desired_widths@.take(column_count as int);
    let mut caps: Vec<usize> = Vec::new();
    let mut k: usize = 0;
    while k < column_count
        invariant
            k <= column_count <= desired_widths.len(),
            d == desired_widths@.take(column_count as int),
            caps@.len() == k,
            forall|i: int| 0 <= i < k ==> caps[i] as int == cap_width(d[i]),
        decreases column_count - k,
    {
        let w = if desired_widths[k] < 3 {
            3
        } else {
            desired_widths[k]
        };
        caps.push(w);
        k = k + 1;
    }
    let mut level: usize = 0;
    proof {
        lemma_level_sum_at_zero(d, column_count as int);
    }
    loop
        invariant
            caps@.len() == column_count,
            d.len() == column_count,
            forall|i: int| 0 <= i < column_count ==> caps[i] as int == cap_width(d[i]),
            forall|i: int| 0 <= i < column_count ==> caps[i] >= 3,
            level_sum(d, level as int, column_count as int) <= budget,
            fill_level(d, budget as int, 0) == fill_level(d, budget as int, level as int),
        ensures
            level_sum(d, level as int, column_count as int) <= budget,
            fill_level(d, budget as int, 0) == level as int,
        decreases budget - level,
    {
        if level >= budget {
            break;
        }
        proof {
            lemma_caps_agree(caps@, d, level as int, column_count as int);
            lemma_caps_agree(caps@, d, level as int + 1, column_count as int);
        }
        let above = count_columns_above(caps.as_slice(), level, column_count);
        if above == 0 {
            break;
        }
        if !level_sum_within(caps.as_slice(), level + 1, column_count, budget) {
            break;
        }
        level = level + 1;
    }
    let ghost l = level as int;
    let mut used: usize = 0;
    let mut j: usize = 0;
    while j < column_count
        invariant
            j <= column_count,
            caps@.len() == column_count,
            forall|i: int| 0 <= i < column_count ==> caps[i] >= 3,
            forall|i: int| 0 <= i < column_count ==> caps[i] as int == cap_width(d[i]),
            l == level as int,
            used == level_sum(d, l, j as int),
            level_sum(d, l, column_count as int) <= budget,
        decreases column_count - j,
    {
        proof {
            lemma_level_sum_mono(d, l, j as int + 1, column_count as int);
        }
        let w: usize = if caps[j] - 3 < level {
            caps[j]
        } else {
            3 + level
        };
        used = used + w;
        j = j + 1;
    }
    let extra = budget - used;
    let mut widths: Vec<usize> = Vec::new();
    let mut given: usize = 0;
    let mut i: usize = 0;
    while i < column_count
        invariant
            i <= column_count,
            caps@.len() == column_count,
            d.len() == column_count,
            forall|x: int| 0 <= x < column_count ==> caps[x] >= 3,
            forall|x: int| 0 <= x < column_count ==> caps[x] as int == cap_width(d[x]),
            l == level as int,
            given == count_above(d, l, i as int),
            given <= i,
            extra == budget - level_sum(d, l, column_count as int),
            l == fill_level(d, budget as int, 0),
            widths@.len() == i,
            forall|x: int| 0 <= x < i ==> widths[x] as int == allocated_width(d, budget as int, x),
        decreases column_count - i,
    {
        let above = caps[i] - 3 > level;
        let base: usize = if caps[i] - 3 < level {
            caps[i]
        } else {
            3 + level
        };
        let w = if above && given < extra {
            base + 1
        } else {
            base
        };
        widths.push(w);
        if above {
            given = given + 1;
        }
        i = i + 1;
    }
    assert(ints(widths@) =~= allocated_widths(d, budget as int));
    Some(widths)
}

proof fn lemma_caps_agree(caps: Seq<usize>, d: Seq<usize>, lv: int, n: int)
    requires
        caps.len() == d.len(),
        0 <= n <= d.len(),
        forall|i: int| 0 <= i < d.len() ==> caps[i] as int == cap_width(d[i]),
    ensures
        level_sum(caps, lv, n) == level_sum(d, lv, n),
        count_above(caps, lv, n) == count_above(d, lv, n),
    decreases n,
{
    if n > 0 {
        lemma_caps_agree(caps, d, lv, n - 1);
    }
}

/// A whole layout choice: padded grid, compact grid, or none (use the vertical listing).
pub open spec fn choose_layout_spec(desired: Seq<usize>, available: int, c: int) -> Option<
    (TableLayoutMode, Seq<int>, int),
> {
    if available < 20 {
        None
    } else {
        match allocate_spec(desired, available, c, 1) {
            Some(w) => Some((TableLayoutMode::Normal, w, 1)),
            None => match allocate_spec(desired, available, c, 0) {
                Some(w) => Some((TableLayoutMode::Compact, w, 0)),
                None => None,
            },
        }
    }
}

/// Prefers one space of padding around cells and falls back to none; a
/// width under 20 never gets a grid.
pub fn choose_table_layout(desired_widths: &[usize], available_width: usize, column_count: usize) -> (r:
    Option<(TableLayoutMode, Vec<usize>, usize)>)
    requires
        column_count <= desired_widths.len(),
        3 * column_count + 1 <= usize::MAX,
    ensures
        r matches Some(t) ==> choose_layout_spec(
            desired_widths@,
            available_width as int,
            column_count as int,
        ) == Some((t.0, ints(t.1@), t.2 as int)),
        r is None ==> choose_layout_spec(
            desired_widths@,
            available_width as int,
            column_count as int,
        ) is None,
{
    if available_width < 20 {
        return None;
    }
    if let Some(widths) = allocate_table_widths(desired_widths, available_width, column_count, 1) {
        return Some((TableLayoutMode::Normal, widths, 1));
    }
    match allocate_table_widths(desired_widths, available_width, column_count, 0) {
        Some(widths) => Some((TableLayoutMode::Compact, widths, 0)),
        None => None,
    }
}

/// Sum of a sequence of integers.
pub open spec fn sum_ints(v: Seq<int>) -> int
    decreases v.len(),
{
    if v.len() == 0 {
        0
    } else {
        sum_ints(v.drop_last()) + v.last()
    }
}

/// Total width of a grid: the columns, one border between and around them,
/// and the padding on both sides of each cell.
pub open spec fn table_total(widths: Seq<int>, padding: int) -> int {
    sum_ints(widths) + widths.len() + 1 + padding * 2 * widths.len()
}

pub fn table_total_width(column_widths: &[usize], padding: usize) -> (r: usize)
    requires
        table_total(ints(column_widths@), padding as int) <= usize::MAX,
    ensures
        r == table_total(ints(column_widths@), padding as int),
{
    let n = column_widths.len();
    let ghost w = ints(column_widths@);
    proof {
        lemma_table_total_parts(w, padding as int);
    }
    let mut acc: usize = 0;
    let mut i: usize = 0;
    while i < n
        invariant
            i <= n == column_widths@.len(),
            w == ints(column_widths@),
            acc == sum_ints(w.take(i as int)),
            sum_ints(w) <= usize::MAX,
            forall|k: int| 0 <= k <= n ==> sum_ints(#[trigger] w.take(k)) <= sum_ints(w),
        decreases n - i,
    {
        assert(w.take(i as int + 1).drop_last() =~= w.take(i as int));
        assert(sum_ints(w.take(i as int + 1)) <= sum_ints(w));
        acc = acc + column_widths[i];
        i = i + 1;
    }
    assert(w.take(n as int) =~= w);
    if padding == 0 {
        assert(padding * 2 * n == 0) by (nonlinear_arith)
            requires
                padding == 0,
        ;
        acc + n + 1
    } else {
        assert(2 * n <= padding * 2 * n) by (nonlinear_arith)
            requires
                padding >= 1,
        ;
        let two_n = 2 * n;
        assert(padding * two_n == padding * 2 * n) by (nonlinear_arith)
            requires
                two_n == 2 * n,
        ;
        acc + n + 1 + padding * two_n
    }
}

proof fn lemma_sum_nonneg_prefix(w: Seq<int>, k: int)
    requires
        0 <= k <= w.len(),
        forall|i: int| 0 <= i < w.len() ==> w[i] >= 0,
    ensures
        sum_ints(w.take(k)) <= sum_ints(w),
        sum_ints(w.take(k)) >= 0,
    decreases w.len() - k,
{
    if k < w.len() {
        lemma_sum_nonneg_prefix(w.drop_last(), k);
        assert(w.drop_last().take(k) =~= w.take(k));
        assert(w.drop_last() =~= w.take(w.len() - 1));
    } else {
        assert(w.take(k) =~= w);
        lemma_sum_nonneg(w);
    }
}

proof fn lemma_sum_nonneg(w: Seq<int>)
    requires
        forall|i: int| 0 <= i < w.len() ==> w[i] >= 0,
    ensures
        sum_ints(w) >= 0,
        forall|i: int| 0 <= i < w.len() ==> w[i] <= sum_ints(w),
    decreases w.len(),
{
    if w.len() > 0 {
        lemma_sum_nonneg(w.drop_last());
        assert forall|i: int| 0 <= i < w.len() implies w[i] <= sum_ints(w) by {
            if i < w.len() - 1 {
                assert(w.drop_last()[i] == w[i]);
            }
        }
    }
}

proof fn lemma_table_total_parts(w: Seq<int>, padding: int)
    requires
        forall|i: int| 0 <= i < w.len() ==> w[i] >= 0,
        padding >= 0,
    ensures
        forall|k: int| 0 <= k <= w.len() ==> sum_ints(#[trigger] w.take(k)) <= sum_ints(w),
        sum_ints(w) >= 0,
        forall|i: int| 0 <= i < w.len() ==> w[i] <= sum_ints(w),
        padding * 2 * w.len() >= 0,
{
    lemma_sum_nonneg(w);
    assert forall|k: int| 0 <= k <= w.len() implies sum_ints(#[trigger] w.take(k)) <= sum_ints(w) by {
        lemma_sum_nonneg_prefix(w, k);
    }
    assert(padding * 2 * w.len() >= 0) by (nonlinear_arith)
        requires
            padding >= 0,
    ;
}

/// `n` copies of `c`.
pub open spec fn repeat_char(c: char, n: int) -> Seq<char> {
    Seq::new(n as nat, |_i: int| c)
}

pub open spec fn border_segments(widths: Seq<int>, padding: int) -> Seq<Seq<char>> {
    Seq::new(widths.len(), |i: int| repeat_char('─', widths[i] + padding * 2))
}

/// A horizontal rule of the grid: `left`, one run of `─` per column joined by
/// `sep`, then `right`.
pub open spec fn border_line_spec(
    left: Seq<char>,
    sep: Seq<char>,
    right: Seq<char>,
    widths: Seq<int>,
    padding: int,
) -> Seq<char> {
    left + join_with(border_segments(widths, padding), sep) + right
}

/// Appends `n` copies of `c`.
fn push_repeat(out: &mut Vec<char>, c: char, n: usize)
    ensures
        final(out)@ == old(out)@ + repeat_char(c, n as int),
{
    let mut i: usize = 0;
    while i < n
        invariant
            i <= n,
            out@ == old(out)@ + repeat_char(c, i as int),
        decreases n - i,
    {
        out.push(c);
        i = i + 1;
        assert(out@ =~= old(out)@ + repeat_char(c, i as int));
    }
}

pub fn border_line(
    left: &str,
    separator: &str,
    right: &str,
    column_widths: &[usize],
    padding: usize,
) -> (r: String)
    requires
        forall|i: int|
            0 <= i < column_widths.len() ==> column_widths[i] + padding * 2 <= usize::MAX,
    ensures
        r@ == border_line_spec(left@, separator@, right@, ints(column_widths@), padding as int),
{
    let ghost parts = border_segments(ints(column_widths@), padding as int);
    let mut out: Vec<char> = Vec::new();
    push_str(&mut out, left);
    let mut i: usize = 0;
    assert(parts.take(0) =~= Seq::<Seq<char>>::empty());
    while i < column_widths.len()
        invariant
            i <= column_widths.len(),
            parts == border_segments(ints(column_widths@), padding as int),
            forall|k: int|
                0 <= k < column_widths.len() ==> column_widths[k] + padding * 2 <= usize::MAX,
            out@ == left@ + join_with(parts.take(i as int), separator@),
        decreases column_widths.len() - i,
    {
        proof {
            lemma_join_step(parts, separator@, i as int);
        }
        if i > 0 {
            push_str(&mut out, separator);
        }
        let n = column_widths[i] + padding * 2;
        push_repeat(&mut out, '─', n);
        i = i + 1;
    }
    assert(parts.take(column_widths.len() as int) =~= parts);
    push_str(&mut out, right);
    chars_to_string(out.as_slice())
}

/// The lines of one cell: an empty cell, or one that wraps to nothing, is one
/// empty line.
pub open spec fn wrapped_cell(cell: Seq<char>, width: int, hard_wrap: bool) -> Seq<Seq<char>> {
    if cell.len() == 0 {
        seq![seq![]]
    } else {
        let w = wrapped_lines(cell, width as usize, hard_wrap, true);
        if w.len() == 0 {
            seq![seq![]]
        } else {
            w
        }
    }
}

pub fn wrap_table_cell(cell: &str, width: usize, hard_wrap: bool) -> (r: Vec<String>)
    ensures
        string_seqs(r@) == wrapped_cell(cell@, width as int, hard_wrap),
        r@.len() >= 1,
{
    if cell.unicode_len() == 0 {
        let mut v: Vec<String> = Vec::new();
        v.push(String::new());
        assert(string_seqs(v@) =~= seq![Seq::<char>::empty()]);
        return v;
    }
    let wrapped = textwrap_wrap_cell(cell, width, hard_wrap);
    if wrapped.len() == 0 {
        let mut v: Vec<String> = Vec::new();
        v.push(String::new());
        assert(string_seqs(v@) =~= seq![Seq::<char>::empty()]);
        v
    } else {
        wrapped
    }
}

/// Number of cells a row shows: one per column width it can be paired with.
pub open spec fn shown_cells(row: Seq<Seq<char>>, widths: Seq<int>) -> int {
    if row.len() < widths.len() {
        row.len() as int
    } else {
        widths.len() as int
    }
}

/// The tallest of the first `k` wrapped cells of a row.
pub open spec fn tallest_cell(row: Seq<Seq<char>>, widths: Seq<int>, hard_wrap: bool, k: int) -> int
    decreases k,
{
    if k <= 0 {
        0
    } else {
        let rest = tallest_cell(row, widths, hard_wrap, k - 1);
        let h = wrapped_cell(row[k - 1], widths[k - 1], hard_wrap).len() as int;
        if h > rest {
            h
        } else {
            rest
        }
    }
}

/// How many terminal lines a row takes.
pub open spec fn row_height(row: Seq<Seq<char>>, widths: Seq<int>, hard_wrap: bool) -> int {
    let n = shown_cells(row, widths);
    if n == 0 {
        1
    } else {
        tallest_cell(row, widths, hard_wrap, n)
    }
}

/// One cell's part of line `li` of a row: padding, the cell's `li`th wrapped
/// line (or nothing), spaces up to the column width, padding, and a border.
pub open spec fn cell_segment(lines: Seq<Seq<char>>, width: int, padding: int, li: int) -> Seq<char> {
    let content = if 0 <= li < lines.len() {
        lines[li]
    } else {
        seq![]
    };
    let cw = str_width(content) as int;
    let fill = if cw < width {
        width - cw
    } else {
        0
    };
    repeat_char(' ', padding) + content + repeat_char(' ', fill) + repeat_char(' ', padding) + seq![
        '│',
    ]
}

pub open spec fn row_segments(
    row: Seq<Seq<char>>,
    widths: Seq<int>,
    padding: int,
    hard_wrap: bool,
    li: int,
    k: int,
) -> Seq<char>
    decreases k,
{
    if k <= 0 {
        seq!['│']
    } else {
        row_segments(row, widths, padding, hard_wrap, li, k - 1) + cell_segment(
            wrapped_cell(row[k - 1], widths[k - 1], hard_wrap),
            widths[k - 1],
            padding,
            li,
        )
    }
}

/// The terminal lines of one table row.
pub open spec fn row_lines(row: Seq<Seq<char>>, widths: Seq<int>, padding: int, hard_wrap: bool) -> Seq<
    Seq<char>,
> {
    Seq::new(
        row_height(row, widths, hard_wrap) as nat,
        |li: int| row_segments(row, widths, padding, hard_wrap, li, shown_cells(row, widths)),
    )
}

proof fn lemma_tallest_positive(row: Seq<Seq<char>>, widths: Seq<int>, hard_wrap: bool, k: int)
    requires
        k >= 1,
    ensures
        tallest_cell(row, widths, hard_wrap, k) >= 1,
    decreases k,
{
    if k > 1 {
        lemma_tallest_positive(row, widths, hard_wrap, k - 1);
    }
}

pub fn render_table_row(row: &[String], column_widths: &[usize], padding: usize, hard_wrap: bool) -> (r:
    Vec<String>)
    ensures
        string_seqs(r@) == row_lines(string_seqs(row@), ints(column_widths@), padding as int, hard_wrap),
{
    let ghost rv = string_seqs(row@);
    let ghost wv = ints(column_widths@);
    let n = if row.len() < column_widths.len() {
        row.len()
    } else {
        column_widths.len()
    };
    let mut wrapped: Vec<Vec<String>> = Vec::new();
    let mut height: usize = 0;
    let mut k: usize = 0;
    while k < n
        invariant
            k <= n,
            n == shown_cells(rv, wv),
            n <= row.len(),
            n <= column_widths.len(),
            rv == string_seqs(row@),
            wv == ints(column_widths@),
            wrapped@.len() == k,
            forall|x: int|
                0 <= x < k ==> string_seqs(#[trigger] wrapped@[x]@) == wrapped_cell(
                    rv[x],
                    wv[x],
                    hard_wrap,
                ),
            height == tallest_cell(rv, wv, hard_wrap, k as int),
        decreases n - k,
    {
        let cell_lines = wrap_table_cell(row[k].as_str(), column_widths[k], hard_wrap);
        if cell_lines.len() > height {
            height = cell_lines.len();
        }
        wrapped.push(cell_lines);
        k = k + 1;
    }
    if n == 0 {
        height = 1;
    }
    assert(height == row_height(rv, wv, hard_wrap));
    let mut out: Vec<String> = Vec::new();
    let mut li: usize = 0;
    while li < height
        invariant
            li <= height,
            height == row_height(rv, wv, hard_wrap),
            n == shown_cells(rv, wv),
            n <= row.len(),
            n <= column_widths.len(),
            rv == string_seqs(row@),
            wv == ints(column_widths@),
            wrapped@.len() == n,
            forall|x: int|
                0 <= x < n ==> string_seqs(#[trigger] wrapped@[x]@) == wrapped_cell(
                    rv[x],
                    wv[x],
                    hard_wrap,
                ),
            out@.len() == li,
            forall|x: int|
                0 <= x < li ==> (#[trigger] out@[x])@ == row_segments(
                    rv,
                    wv,
                    padding as int,
                    hard_wrap,
                    x,
                    n as int,
                ),
        decreases height - li,
    {
        let mut line: Vec<char> = Vec::new();
        line.push('│');
        let mut j: usize = 0;
        while j < n
            invariant
                j <= n,
                n <= row.len(),
                n <= column_widths.len(),
                rv == string_seqs(row@),
                wv == ints(column_widths@),
                wrapped@.len() == n,
                forall|x: int|
                    0 <= x < n ==> string_seqs(#[trigger] wrapped@[x]@) == wrapped_cell(
                        rv[x],
                        wv[x],
                        hard_wrap,
                    ),
                line@ == row_segments(rv, wv, padding as int, hard_wrap, li as int, j as int),
            decreases n - j,
        {
            let ghost cl = wrapped_cell(rv[j as int], wv[j as int], hard_wrap);
            assert(string_seqs(wrapped@[j as int]@) == cl);
            let content: String = if li < wrapped[j].len() {
                wrapped[j][li].clone()
            } else {
                String::new()
            };
            assert(content@ == (if 0 <= li < cl.len() {
                cl[li as int]
            } else {
                Seq::<char>::empty()
            }));
            push_repeat(&mut line, ' ', padding);
            let cv = str_chars(content.as_str());
            push_chars(&mut line, cv.as_slice());
            let cw = display_width(content.as_str());
            let fill: usize = if cw < column_widths[j] {
                column_widths[j] - cw
            } else {
                0
            };
            push_repeat(&mut line, ' ', fill);
            push_repeat(&mut line, ' ', padding);
            line.push('│');
            assert(line@ =~= row_segments(rv, wv, padding as int, hard_wrap, li as int, j as int)
                + cell_segment(cl, wv[j as int], padding as int, li as int));
            j = j + 1;
        }
        out.push(chars_to_string(line.as_slice()));
        li = li + 1;
    }
    assert(string_seqs(out@) =~= row_lines(rv, wv, padding as int, hard_wrap));
    out
}

/// The lines of the first `n` rows of a grid, with a separator rule under the
/// header row.
pub open spec fn grid_rows_lines(
    rows: Seq<Seq<Seq<char>>>,
    widths: Seq<int>,
    padding: int,
    hard_wrap: bool,
    n: int,
) -> Seq<Seq<char>>
    decreases n,
{
    if n <= 0 {
        seq![]
    } else {
        grid_rows_lines(rows, widths, padding, hard_wrap, n - 1) + row_lines(
            rows[n - 1],
            widths,
            padding,
            hard_wrap,
        ) + (if n - 1 == 0 {
            seq![border_line_spec("├"@, "┼"@, "┤"@, widths, padding)]
        } else {
            seq![]
        })
    }
}

/// A whole box-drawn grid: top rule, rows, bottom rule.
pub open spec fn grid_lines(rows: Seq<Seq<Seq<char>>>, widths: Seq<int>, padding: int, hard_wrap: bool) -> Seq<
    Seq<char>,
> {
    seq![border_line_spec("┌"@, "┬"@, "┐"@, widths, padding)] + grid_rows_lines(
        rows,
        widths,
        padding,
        hard_wrap,
        rows.len() as int,
    ) + seq![border_line_spec("└"@, "┴"@, "┘"@, widths, padding)]
}

pub open spec fn rows_fit_borders(widths: Seq<usize>, padding: usize) -> bool {
    forall|i: int| 0 <= i < widths.len() ==> widths[i] + padding * 2 <= usize::MAX
}

/// Appends each string of `v` to `out`.
fn extend_strings(out: &mut Vec<String>, v: Vec<String>)
    ensures
        string_seqs(final(out)@) == string_seqs(old(out)@) + string_seqs(v@),
{
    let mut i: usize = 0;
    while i < v.len()
        invariant
            i <= v.len(),
            string_seqs(out@) == string_seqs(old(out)@) + string_seqs(v@).take(i as int),
        decreases v.len() - i,
    {
        let ghost before = out@;
        let c = v[i].clone();
        assert(c@ == v@[i as int]@);
        out.push(c);
        assert(string_seqs(out@) =~= string_seqs(before).push(c@));
        i = i + 1;
        assert(string_seqs(out@) =~= string_seqs(old(out)@) + string_seqs(v@).take(i as int));
    }
    assert(string_seqs(v@).take(v.len() as int) =~= string_seqs(v@));
}

pub fn render_box_table_with_wrap(
    rows: &[Vec<String>],
    column_widths: &[usize],
    padding: usize,
    hard_wrap: bool,
) -> (r: Vec<String>)
    requires
        rows_fit_borders(column_widths@, padding),
    ensures
        string_seqs(r@) == grid_lines(rows_view(rows@), ints(column_widths@), padding as int, hard_wrap),
{
    let ghost rv = rows_view(rows@);
    let ghost wv = ints(column_widths@);
    let mut out: Vec<String> = Vec::new();
    out.push(border_line("┌", "┬", "┐", column_widths, padding));
    let mut index: usize = 0;
    while index < rows.len()
        invariant
            index <= rows.len(),
            rv == rows_view(rows@),
            wv == ints(column_widths@),
            rows_fit_borders(column_widths@, padding),
            string_seqs(out@) == seq![border_line_spec("┌"@, "┬"@, "┐"@, wv, padding as int)]
                + grid_rows_lines(rv, wv, padding as int, hard_wrap, index as int),
        decreases rows.len() - index,
    {
        let lines = render_table_row(rows[index].as_slice(), column_widths, padding, hard_wrap);
        assert(string_seqs(rows@[index as int]@) == rv[index as int]);
        extend_strings(&mut out, lines);
        if index == 0 {
            let ghost before = out@;
            out.push(border_line("├", "┼", "┤", column_widths, padding));
            assert(string_seqs(out@) =~= string_seqs(before) + seq![
                border_line_spec("├"@, "┼"@, "┤"@, wv, padding as int),
            ]);
        }
        index = index + 1;
        assert(string_seqs(out@) =~= seq![border_line_spec("┌"@, "┬"@, "┐"@, wv, padding as int)]
            + grid_rows_lines(rv, wv, padding as int, hard_wrap, index as int));
    }
    let ghost before = out@;
    out.push(border_line("└", "┴", "┘", column_widths, padding));
    assert(string_seqs(out@) =~= string_seqs(before) + seq![
        border_line_spec("└"@, "┴"@, "┘"@, wv, padding as int),
    ]);
    out
}

/// Some body row (every row after the header) wraps to more than 20 lines.
pub open spec fn any_row_too_tall_spec(rows: Seq<Seq<Seq<char>>>, widths: Seq<int>, hard_wrap: bool) -> bool {
    exists|i: int| 1 <= i < rows.len() && row_height(#[trigger] rows[i], widths, hard_wrap) > 20
}

/// The height of one row, computed by wrapping each shown cell.
fn measured_row_height(row: &[String], column_widths: &[usize], hard_wrap: bool) -> (h: usize)
    ensures
        h == row_height(string_seqs(row@), ints(column_widths@), hard_wrap),
{
    let ghost rv = string_seqs(row@);
    let ghost wv = ints(column_widths@);
    let n = if row.len() < column_widths.len() {
        row.len()
    } else {
        column_widths.len()
    };
    let mut height: usize = 0;
    let mut k: usize = 0;
    while k < n
        invariant
            k <= n,
            n == shown_cells(rv, wv),
            n <= row.len(),
            n <= column_widths.len(),
            rv == string_seqs(row@),
            wv == ints(column_widths@),
            height == tallest_cell(rv, wv, hard_wrap, k as int),
        decreases n - k,
    {
        let cell_lines = wrap_table_cell(row[k].as_str(), column_widths[k], hard_wrap);
        if cell_lines.len() > height {
            height = cell_lines.len();
        }
        k = k + 1;
    }
    if n == 0 {
        1
    } else {
        height
    }
}

pub fn any_row_too_tall(rows: &[Vec<String>], column_widths: &[usize], hard_wrap: bool) -> (r: bool)
    ensures
        r == any_row_too_tall_spec(rows_view(rows@), ints(column_widths@), hard_wrap),
{
    let ghost rv = rows_view(rows@);
    let mut i: usize = 1;
    while i < rows.len()
        invariant
            1 <= i,
            rv == rows_view(rows@),
            forall|x: int|
                1 <= x < i && x < rows.len() ==> row_height(#[trigger] rv[x], ints(column_widths@), hard_wrap)
                    <= 20,
        decreases rows.len() - i,
    {
        let h = measured_row_height(rows[i].as_slice(), column_widths, hard_wrap);
        assert(string_seqs(rows@[i as int]@) == rv[i as int]);
        if h > 20 {
            return true;
        }
        i = i + 1;
    }
    false
}

/// The label a vertical listing prints for a header: the header, or "Column"
/// when it is empty.
pub open spec fn header_label(h: Seq<char>) -> Seq<char> {
    if h.len() == 0 {
        "Column"@
    } else {
        h
    }
}

/// The wrapped "label: value" lines for the first `k` cells of a body row.
pub open spec fn labeled_cells(headers: Seq<Seq<char>>, row: Seq<Seq<char>>, wrap_width: int, k: int) -> Seq<
    Seq<char>,
>
    decreases k,
{
    if k <= 0 {
        seq![]
    } else {
        labeled_cells(headers, row, wrap_width, k - 1) + wrapped_lines(
            header_label(headers[k - 1]) + ": "@ + row[k - 1],
            wrap_width as usize,
            true,
            false,
        )
    }
}

pub open spec fn min_int(a: int, b: int) -> int {
    if a < b {
        a
    } else {
        b
    }
}

/// The listing for the first `n` body rows.
pub open spec fn vertical_rows(rows: Seq<Seq<Seq<char>>>, wrap_width: int, n: int) -> Seq<Seq<char>>
    decreases n,
{
    if n <= 0 {
        seq![]
    } else {
        let ri = n - 1;
        let row = rows[ri + 1];
        vertical_rows(rows, wrap_width, n - 1) + (if ri > 0 {
            seq![seq![]]
        } else {
            seq![]
        }) + seq!["Row "@ + decimal((ri + 1) as nat)] + labeled_cells(
            rows[0],
            row,
            wrap_width,
            min_int(rows[0].len() as int, row.len() as int),
        )
    }
}

/// The vertical listing: for each body row, "Row n" then one wrapped
/// "header: value" entry per cell, rows separated by an empty line.
pub open spec fn vertical_lines(rows: Seq<Seq<Seq<char>>>, available: int) -> Seq<Seq<char>> {
    if rows.len() == 0 {
        seq![]
    } else {
        vertical_rows(rows, if available < 1 {
            1
        } else {
            available
        }, rows.len() - 1)
    }
}

pub fn render_vertical_table(rows: &[Vec<String>], available_width: usize) -> (r: Vec<String>)
    ensures
        string_seqs(r@) == vertical_lines(rows_view(rows@), available_width as int),
{
    let ghost rv = rows_view(rows@);
    let mut out: Vec<String> = Vec::new();
    if rows.len() == 0 {
        assert(string_seqs(out@) =~= Seq::<Seq<char>>::empty());
        return out;
    }
    let wrap_width: usize = if available_width < 1 {
        1
    } else {
        available_width
    };
    let headers = &rows[0];
    assert(string_seqs(headers@) == rv[0]);
    let mut ri: usize = 0;
    while ri + 1 < rows.len()
        invariant
            ri + 1 <= rows.len(),
            rows.len() >= 1,
            rv == rows_view(rows@),
            string_seqs(headers@) == rv[0],
            wrap_width as int == (if available_width < 1 {
                1
            } else {
                available_width as int
            }),
            string_seqs(out@) == vertical_rows(rv, wrap_width as int, ri as int),
        decreases rows.len() - ri,
    {
        let row = &rows[ri + 1];
        assert(string_seqs(row@) == rv[ri + 1]);
        let ghost before = string_seqs(out@);
        if ri > 0 {
            out.push(String::new());
        }
        let mut title: Vec<char> = Vec::new();
        push_str(&mut title, "Row ");
        push_decimal(&mut title, (ri + 1) as u64);
        out.push(chars_to_string(title.as_slice()));
        let ghost mid = string_seqs(out@);
        assert(mid =~= before + (if ri > 0 {
            seq![Seq::<char>::empty()]
        } else {
            Seq::<Seq<char>>::empty()
        }) + seq!["Row "@ + decimal((ri + 1) as nat)]);
        let m = if headers.len() < row.len() {
            headers.len()
        } else {
            row.len()
        };
        let mut k: usize = 0;
        while k < m
            invariant
                k <= m,
                m <= headers.len(),
                m <= row.len(),
                string_seqs(headers@) == rv[0],
                string_seqs(row@) == rv[ri + 1],
                string_seqs(out@) == mid + labeled_cells(rv[0], rv[ri + 1], wrap_width as int, k as int),
            decreases m - k,
        {
            let mut line: Vec<char> = Vec::new();
            let header = &headers[k];
            if header.unicode_len() == 0 {
                push_str(&mut line, "Column");
            } else {
                let hv = str_chars(header.as_str());
                push_chars(&mut line, hv.as_slice());
            }
            push_str(&mut line, ": ");
            let cv = str_chars(row[k].as_str());
            push_chars(&mut line, cv.as_slice());
            assert(line@ =~= header_label(rv[0][k as int]) + ": "@ + rv[ri + 1][k as int]);
            let line_str = chars_to_string(line.as_slice());
            let wrapped = textwrap_wrap_plain(line_str.as_str(), wrap_width, true);
            extend_strings(&mut out, wrapped);
            k = k + 1;
            assert(string_seqs(out@) =~= mid + labeled_cells(
                rv[0],
                rv[ri + 1],
                wrap_width as int,
                k as int,
            ));
        }
        ri = ri + 1;
        assert(string_seqs(out@) =~= vertical_rows(rv, wrap_width as int, ri as int));
    }
    out
}

proof fn lemma_fill_level_fits(d: Seq<usize>, budget: int, level: int)
    requires
        0 <= level,
        level_sum(d, level, d.len() as int) <= budget,
    ensures
        level_sum(d, fill_level(d, budget, level), d.len() as int) <= budget,
        fill_level(d, budget, level) >= level,
    decreases budget - level,
{
    if level < budget && count_above(d, level, d.len() as int) > 0 && level_sum(
        d,
        level + 1,
        d.len() as int,
    ) <= budget {
        lemma_fill_level_fits(d, budget, level + 1);
    }
}

proof fn lemma_alloc_prefix(d: Seq<usize>, budget: int, n: int)
    requires
        0 <= n <= d.len(),
        0 <= fill_level(d, budget, 0),
        level_sum(d, fill_level(d, budget, 0), d.len() as int) <= budget,
    ensures
        sum_ints(allocated_widths(d, budget).take(n)) == level_sum(d, fill_level(d, budget, 0), n)
            + min_int(
            budget - level_sum(d, fill_level(d, budget, 0), d.len() as int),
            count_above(d, fill_level(d, budget, 0), n),
        ),
    decreases n,
{
    let a = allocated_widths(d, budget);
    if n > 0 {
        lemma_alloc_prefix(d, budget, n - 1);
        assert(a.take(n).drop_last() =~= a.take(n - 1));
        lemma_count_nonneg(d, fill_level(d, budget, 0), n - 1);
    } else {
        assert(a.take(0) =~= Seq::<int>::empty());
    }
}

proof fn lemma_count_nonneg(d: Seq<usize>, level: int, n: int)
    ensures
        count_above(d, level, n) >= 0,
    decreases n,
{
    if n > 0 {
        lemma_count_nonneg(d, level, n - 1);
    }
}

/// A grid laid out by `allocate_spec` fits the width it was laid out for, and
/// every column is at least 3 wide.
pub proof fn lemma_allocation_fits(desired: Seq<usize>, available: int, c: int, padding: int)
    requires
        0 <= c <= desired.len(),
        0 <= padding,
        allocate_spec(desired, available, c, padding) is Some,
    ensures
        table_total(allocate_spec(desired, available, c, padding)->0, padding) <= available,
        allocate_spec(desired, available, c, padding)->0.len() == c,
        forall|i: int|
            0 <= i < c ==> allocate_spec(desired, available, c, padding)->0[i] >= 3,
{
    let d = desired.take(c);
    let overhead = (c + 1) + padding * 2 * c;
    let budget = available - overhead;
    let w = allocated_widths(d, budget);
    lemma_level_sum_at_zero(d, c);
    lemma_fill_level_fits(d, budget, 0);
    let l = fill_level(d, budget, 0);
    lemma_alloc_prefix(d, budget, c);
    assert(w.take(c) =~= w);
    assert(sum_ints(w) <= budget);
    assert forall|i: int| 0 <= i < c implies w[i] >= 3 by {
        assert(level_width(d, l, i) >= 3);
    }
}

proof fn lemma_fill_level_stops(d: Seq<usize>, budget: int, level: int)
    ensures
        ({
            let l = fill_level(d, budget, level);
            !(l < budget && count_above(d, l, d.len() as int) > 0 && level_sum(d, l + 1, d.len() as int)
                <= budget)
        }),
    decreases budget - level,
{
    if level < budget && count_above(d, level, d.len() as int) > 0 && level_sum(
        d,
        level + 1,
        d.len() as int,
    ) <= budget {
        lemma_fill_level_stops(d, budget, level + 1);
    }
}

proof fn lemma_level_sum_step(d: Seq<usize>, level: int, n: int)
    requires
        0 <= n <= d.len(),
    ensures
        level_sum(d, level + 1, n) == level_sum(d, level, n) + count_above(d, level, n),
    decreases n,
{
    if n > 0 {
        lemma_level_sum_step(d, level, n - 1);
    }
}

proof fn lemma_level_sum_with_column_above(d: Seq<usize>, level: int, n: int)
    requires
        0 <= n <= d.len(),
        0 <= level,
        count_above(d, level, n) > 0,
    ensures
        level_sum(d, level, n) >= 3 + level,
    decreases n,
{
    lemma_level_sum_at_least(d, level, n - 1);
    if !(cap_width(d[n - 1]) > 3 + level) {
        lemma_level_sum_with_column_above(d, level, n - 1);
    }
}

proof fn lemma_level_sum_at_least(d: Seq<usize>, level: int, n: int)
    requires
        0 <= n <= d.len(),
        0 <= level,
    ensures
        level_sum(d, level, n) >= 3 * n,
    decreases n,
{
    if n > 0 {
        lemma_level_sum_at_least(d, level, n - 1);
    }
}

proof fn lemma_none_above(d: Seq<usize>, level: int, n: int)
    requires
        0 <= n <= d.len(),
        count_above(d, level, n) == 0,
    ensures
        forall|i: int| 0 <= i < n ==> cap_width(#[trigger] d[i]) <= 3 + level,
    decreases n,
{
    if n > 0 {
        lemma_count_nonneg(d, level, n - 1);
        lemma_none_above(d, level, n - 1);
    }
}

/// What the layout hands out: a grid gets widths exactly when the width
/// left after borders and padding gives each column 3 cells; no column is
/// wider than its target `max(3, desired)`; and either the whole content
/// width is used or every column has its target width.
pub proof fn lemma_allocation_bounds(desired: Seq<usize>, available: int, c: int, padding: int)
    requires
        0 <= c <= desired.len(),
        0 <= padding,
    ensures
        allocate_spec(desired, available, c, padding) is None <==> available < (c + 1) + padding * 2
            * c + 3 * c,
        allocate_spec(desired, available, c, padding) is Some ==> forall|i: int|
            0 <= i < c ==> #[trigger] allocate_spec(desired, available, c, padding)->0[i] <= cap_width(
                desired[i],
            ),
        allocate_spec(desired, available, c, padding) is Some ==> sum_ints(
            allocate_spec(desired, available, c, padding)->0,
        ) <= available - ((c + 1) + padding * 2 * c),
        allocate_spec(desired, available, c, padding) is Some ==> (sum_ints(
            allocate_spec(desired, available, c, padding)->0,
        ) == available - ((c + 1) + padding * 2 * c) || forall|i: int|
            0 <= i < c ==> #[trigger] allocate_spec(desired, available, c, padding)->0[i] == cap_width(
                desired[i],
            )),
{
    let overhead = (c + 1) + padding * 2 * c;
    assert(padding * 2 * c >= 0) by (nonlinear_arith)
        requires
            padding >= 0,
            c >= 0,
    ;
    if allocate_spec(desired, available, c, padding) is Some {
        let d = desired.take(c);
        let budget = available - overhead;
        let w = allocated_widths(d, budget);
        lemma_level_sum_at_zero(d, c);
        lemma_fill_level_fits(d, budget, 0);
        let l = fill_level(d, budget, 0);
        lemma_alloc_prefix(d, budget, c);
        assert(w.take(c) =~= w);
        let extra = budget - level_sum(d, l, c);
        lemma_count_nonneg(d, l, c);
        assert forall|i: int| 0 <= i < c implies #[trigger] w[i] <= cap_width(desired[i]) by {
            assert(d[i] == desired[i]);
        }
        if extra > count_above(d, l, c) {
            lemma_level_sum_step(d, l, c);
            lemma_fill_level_stops(d, budget, 0);
            if count_above(d, l, c) > 0 {
                lemma_level_sum_with_column_above(d, l, c);
            }
            assert(count_above(d, l, c) == 0);
            lemma_none_above(d, l, c);
            assert forall|i: int| 0 <= i < c implies #[trigger] w[i] == cap_width(desired[i]) by {
                assert(d[i] == desired[i]);
                assert(cap_width(d[i]) <= 3 + l);
            }
        }
    }
}

proof fn lemma_widths_fit_borders(w: Seq<usize>, padding: usize)
    requires
        table_total(ints(w), padding as int) <= usize::MAX,
    ensures
        rows_fit_borders(w, padding),
{
    let iw = ints(w);
    lemma_table_total_parts(iw, padding as int);
    assert forall|i: int| 0 <= i < w.len() implies w[i] + padding * 2 <= usize::MAX by {
        assert(iw[i] == w[i] as int);
        assert(padding * 2 <= padding * 2 * w.len()) by (nonlinear_arith)
            requires
                i < w.len(),
                0 <= i,
                padding >= 0,
        ;
    }
}

/// The final lines of a grid: the soft-wrapped grid if it fits; otherwise the
/// hard-wrapped grid, or the vertical listing when some row would still be
/// taller than 20 lines.
pub open spec fn box_table_spec(rows: Seq<Seq<Seq<char>>>, widths: Seq<int>, padding: int) -> Seq<
    Seq<char>,
> {
    let soft = grid_lines(rows, widths, padding, false);
    let avail = table_total(widths, padding);
    let too_wide = exists|i: int| 0 <= i < soft.len() && str_width(#[trigger] soft[i]) > avail;
    if too_wide || any_row_too_tall_spec(rows, widths, false) {
        if any_row_too_tall_spec(rows, widths, true) {
            vertical_lines(rows, avail)
        } else {
            grid_lines(rows, widths, padding, true)
        }
    } else {
        soft
    }
}

pub fn render_box_table(
    rows: &[Vec<String>],
    column_widths: &[usize],
    padding: usize,
    mode: TableLayoutMode,
) -> (r: Vec<String>)
    requires
        table_total(ints(column_widths@), padding as int) <= usize::MAX,
    ensures
        string_seqs(r@) == box_table_spec(rows_view(rows@), ints(column_widths@), padding as int),
{
    proof {
        lemma_widths_fit_borders(column_widths@, padding);
    }
    let ghost rv = rows_view(rows@);
    let ghost wv = ints(column_widths@);
    let mut rendered = render_box_table_with_wrap(rows, column_widths, padding, false);
    let available_width = table_total_width(column_widths, padding);
    let ghost soft = string_seqs(rendered@);
    let mut too_wide = false;
    let mut i: usize = 0;
    while i < rendered.len()
        invariant
            i <= rendered.len(),
            soft == string_seqs(rendered@),
            !too_wide ==> forall|x: int| 0 <= x < i ==> str_width(#[trigger] soft[x]) <= available_width,
            too_wide ==> exists|x: int| 0 <= x < soft.len() && str_width(#[trigger] soft[x]) > available_width,
        decreases rendered.len() - i,
    {
        if display_width(rendered[i].as_str()) > available_width {
            assert(str_width(soft[i as int]) > available_width);
            too_wide = true;
        }
        i = i + 1;
    }
    let needs_hard_wrap = too_wide || any_row_too_tall(rows, column_widths, false);
    if needs_hard_wrap {
        rendered = render_box_table_with_wrap(rows, column_widths, padding, true);
        if any_row_too_tall(rows, column_widths, true) {
            return render_vertical_table(rows, available_width);
        }
    }
    rendered
}

/// Each row cut to, or padded with empty cells to, `column_count` cells.
pub fn normalize_table_rows(rows: &[Vec<String>], column_count: usize) -> (r: Vec<Vec<String>>)
    ensures
        rows_view(r@) == normalize_rows(rows_view(rows@), column_count as nat),
{
    let ghost rv = rows_view(rows@);
    let mut out: Vec<Vec<String>> = Vec::new();
    let mut i: usize = 0;
    while i < rows.len()
        invariant
            i <= rows.len(),
            rv == rows_view(rows@),
            out@.len() == i,
            forall|x: int|
                0 <= x < i ==> string_seqs(#[trigger] out@[x]@) == resize_row(
                    rv[x],
                    column_count as nat,
                ),
        decreases rows.len() - i,
    {
        let row = &rows[i];
        assert(string_seqs(row@) == rv[i as int]);
        let mut normalized: Vec<String> = Vec::new();
        let mut k: usize = 0;
        while k < column_count
            invariant
                k <= column_count,
                string_seqs(row@) == rv[i as int],
                normalized@.len() == k,
                forall|x: int|
                    0 <= x < k ==> (#[trigger] normalized@[x])@ == resize_row(
                        rv[i as int],
                        column_count as nat,
                    )[x],
            decreases column_count - k,
        {
            if k < row.len() {
                normalized.push(row[k].clone());
            } else {
                normalized.push(String::new());
            }
            k = k + 1;
        }
        assert(string_seqs(normalized@) =~= resize_row(rv[i as int], column_count as nat));
        out.push(normalized);
        i = i + 1;
    }
    assert(rows_view(out@) =~= normalize_rows(rv, column_count as nat));
    out
}

proof fn lemma_desired_at_least_3(rows: Seq<Seq<Seq<char>>>, i: int)
    ensures
        column_desired_width(rows, i) >= 3,
    decreases rows.len(),
{
    if rows.len() > 0 {
        lemma_desired_at_least_3(rows.drop_last(), i);
    }
}

/// A column's desired width is at least 3, at least the display width of
/// the column's cell in every row that has one, and is either 3 or the width
/// of one of those cells: the widest cell over all rows, never under 3.
pub proof fn lemma_desired_width_is_widest_cell(rows: Seq<Seq<Seq<char>>>, n: nat, i: int)
    requires
        0 <= i < n,
    ensures
        desired_widths(rows, n)[i] >= 3,
        forall|r: int|
            0 <= r < rows.len() && i < rows[r].len() ==> desired_widths(rows, n)[i] >= str_width(
                #[trigger] rows[r][i],
            ),
        desired_widths(rows, n)[i] == 3 || exists|r: int|
            0 <= r < rows.len() && i < rows[r].len() && desired_widths(rows, n)[i] == str_width(
                #[trigger] rows[r][i],
            ),
{
    lemma_column_width_is_widest(rows, i);
}

proof fn lemma_column_width_is_widest(rows: Seq<Seq<Seq<char>>>, i: int)
    requires
        0 <= i,
    ensures
        column_desired_width(rows, i) >= 3,
        forall|r: int|
            0 <= r < rows.len() && i < rows[r].len() ==> column_desired_width(rows, i) >= str_width(
                #[trigger] rows[r][i],
            ),
        column_desired_width(rows, i) == 3 || exists|r: int|
            0 <= r < rows.len() && i < rows[r].len() && column_desired_width(rows, i) == str_width(
                #[trigger] rows[r][i],
            ),
    decreases rows.len(),
{
    if rows.len() > 0 {
        let prev = rows.drop_last();
        lemma_column_width_is_widest(prev, i);
        let last = rows.len() - 1;
        assert forall|r: int| 0 <= r < rows.len() && i < rows[r].len() implies column_desired_width(
            rows,
            i,
        ) >= str_width(#[trigger] rows[r][i]) by {
            if r < last {
                assert(rows[r] == prev[r]);
            }
        }
        if column_desired_width(rows, i) != 3 {
            if i < rows[last].len() && column_desired_width(rows, i) == str_width(rows[last][i]) {
            } else {
                let r = choose|r: int|
                    0 <= r < prev.len() && i < prev[r].len() && column_desired_width(prev, i) == str_width(
                        #[trigger] prev[r][i],
                    );
                assert(rows[r] == prev[r]);
            }
        }
    }
}

/// For each column, the widest cell over all rows (at least 3).
pub fn desired_column_widths(rows: &[Vec<String>], column_count: usize) -> (r: Vec<usize>)
    requires
        forall|i: int| 0 <= i < rows.len() ==> rows[i].len() <= column_count,
    ensures
        r@ == desired_widths(rows_view(rows@), column_count as nat),
{
    let ghost rv = rows_view(rows@);
    let mut widths: Vec<usize> = Vec::new();
    let mut k: usize = 0;
    while k < column_count
        invariant
            k <= column_count,
            widths@.len() == k,
            forall|x: int| 0 <= x < k ==> widths@[x] == 3,
        decreases column_count - k,
    {
        widths.push(3);
        k = k + 1;
    }
    let mut r: usize = 0;
    while r < rows.len()
        invariant
            r <= rows.len(),
            rv == rows_view(rows@),
            forall|i: int| 0 <= i < rows.len() ==> rows[i].len() <= column_count,
            widths@.len() == column_count,
            forall|x: int|
                0 <= x < column_count ==> widths@[x] == column_desired_width(
                    rv.take(r as int),
                    x,
                ),
        decreases rows.len() - r,
    {
        let row = &rows[r];
        assert(string_seqs(row@) == rv[r as int]);
        let ghost prev = rv.take(r as int);
        let ghost next = rv.take(r as int + 1);
        assert(next.drop_last() =~= prev);
        assert(next.last() == rv[r as int]);
        let mut j: usize = 0;
        while j < row.len()
            invariant
                j <= row.len() <= column_count,
                string_seqs(row@) == rv[r as int],
                next.drop_last() == prev,
                next.last() == rv[r as int],
                next.len() > 0,
                r < rows.len(),
                rv.len() == rows.len(),
                widths@.len() == column_count,
                forall|x: int|
                    0 <= x < j ==> widths@[x] == column_desired_width(next, x),
                forall|x: int|
                    j <= x < column_count ==> widths@[x] == column_desired_width(prev, x),
            decreases row.len() - j,
        {
            let w = display_width(row[j].as_str());
            assert(rv[r as int][j as int] == row@[j as int]@);
            assert(next.last().len() == row.len());
            assert(next.last()[j as int] == row@[j as int]@);
            assert(column_desired_width(next.drop_last(), j as int) == widths@[j as int]);
            assert(str_width(next.last()[j as int]) == w);
            assert(column_desired_width(next, j as int) == (if w > widths@[j as int] {
                w
            } else {
                widths@[j as int]
            }));
            if w > widths[j] {
                widths.set(j, w);
            }
            j = j + 1;
        }
        assert forall|x: int| row.len() <= x < column_count implies widths@[x]
            == column_desired_width(next, x) by {
            lemma_desired_at_least_3(prev, x);
        }
        r = r + 1;
    }
    assert(rv.take(rows.len() as int) =~= rv);
    assert(widths@ =~= desired_widths(rv, column_count as nat));
    widths
}

/// The whole table rendering: nothing for an empty table; otherwise rows are
/// padded to the widest row, and laid out as a grid when one fits the width
/// (or a quarter of the address space when no width is given), else listed
/// vertically.
pub open spec fn render_table_spec(rows: Seq<Seq<Seq<char>>>, width: Option<usize>) -> Seq<Seq<char>> {
    let c = widest_row(rows);
    if rows.len() == 0 || c == 0 {
        seq![]
    } else {
        let available: int = match width {
            Some(w) => if w < 1 {
                1
            } else {
                w as int
            },
            None => (usize::MAX / 4) as int,
        };
        let norm = normalize_rows(rows, c);
        let desired = desired_widths(norm, c);
        match choose_layout_spec(desired, available, c as int) {
            Some((_mode, widths, padding)) => box_table_spec(norm, widths, padding),
            None => vertical_lines(norm, available),
        }
    }
}

/// Renders collected table rows as terminal lines for the given width.
pub fn render_table_lines(rows: &[Vec<String>], width: Option<usize>) -> (r: Vec<String>)
    requires
        forall|i: int| 0 <= i < rows.len() ==> 3 * rows[i].len() + 1 <= usize::MAX,
    ensures
        string_seqs(r@) == render_table_spec(rows_view(rows@), width),
{
    let ghost rv = rows_view(rows@);
    if rows.len() == 0 {
        let v: Vec<String> = Vec::new();
        assert(string_seqs(v@) =~= Seq::<Seq<char>>::empty());
        return v;
    }
    let mut column_count: usize = 0;
    let mut i: usize = 0;
    assert(rv.take(0) =~= Seq::<Seq<Seq<char>>>::empty());
    while i < rows.len()
        invariant
            i <= rows.len(),
            rv == rows_view(rows@),
            column_count == widest_row(rv.take(i as int)),
            forall|x: int| 0 <= x < rows.len() ==> 3 * rows[x].len() + 1 <= usize::MAX,
            i > 0 ==> 3 * column_count + 1 <= usize::MAX,
        decreases rows.len() - i,
    {
        assert(rv.take(i as int + 1).drop_last() =~= rv.take(i as int));
        assert(rv[i as int].len() == rows[i as int].len());
        if rows[i].len() > column_count {
            column_count = rows[i].len();
        }
        i = i + 1;
    }
    assert(rv.take(rows.len() as int) =~= rv);
    if column_count == 0 {
        let v: Vec<String> = Vec::new();
        assert(string_seqs(v@) =~= Seq::<Seq<char>>::empty());
        return v;
    }
    let available_width: usize = match width {
        Some(w) => if w < 1 {
            1
        } else {
            w
        },
        None => usize::MAX / 4,
    };
    let normalized_rows = normalize_table_rows(rows, column_count);
    let ghost norm = normalize_rows(rv, column_count as nat);
    assert(rows_view(normalized_rows@).len() == normalized_rows@.len());
    assert(normalized_rows@.len() == rows@.len());
    assert forall|x: int| 0 <= x < normalized_rows.len() implies normalized_rows[x].len()
        <= column_count by {
        assert(rows_view(normalized_rows@)[x] == string_seqs(normalized_rows@[x]@));
        assert(norm[x] == resize_row(rv[x], column_count as nat));
        assert(string_seqs(normalized_rows@[x]@).len() == normalized_rows@[x]@.len());
    }
    let widths = desired_column_widths(normalized_rows.as_slice(), column_count);
    let layout = choose_table_layout(widths.as_slice(), available_width, column_count);
    match layout {
        Some((mode, column_widths, padding)) => {
            proof {
                lemma_allocation_fits(
                    widths@,
                    available_width as int,
                    column_count as int,
                    padding as int,
                );
                assert(padding == 1 || padding == 0);
            }
            render_box_table(normalized_rows.as_slice(), column_widths.as_slice(), padding, mode)
        },
        None => render_vertical_table(normalized_rows.as_slice(), available_width),
    }
}

/// How many times `c` occurs in `s`.
pub open spec fn count_char(s: Seq<char>, c: char) -> int
    decreases s.len(),
{
    if s.len() == 0 {
        0
    } else {
        count_char(s.drop_last(), c) + (if s.last() == c {
            1int
        } else {
            0int
        })
    }
}

/// A source line that can be a table row: not blank, and holding a `|`.
pub open spec fn is_table_row_spec(line: Seq<char>) -> bool {
    trim(line).len() > 0 && trim(line).contains('|')
}

/// A delimiter cell: at least three dashes, and nothing but `-`, `:` and spaces.
pub open spec fn delimiter_cell_ok(cell: Seq<char>) -> bool {
    let t = trim(cell);
    count_char(t, '-') >= 3 && forall|i: int| 0 <= i < t.len() ==> (t[i] == '-' || t[i] == ':' || t[i] == ' ')
}

/// A source line that is a table delimiter row such as `| --- | :---: |`.
pub open spec fn is_table_delimiter_spec(line: Seq<char>) -> bool {
    let t = trim(trim_char(trim(line), '|'));
    t.len() > 0 && forall|k: int| 0 <= k < split_on(t, '|').len() ==> delimiter_cell_ok(
        #[trigger] split_on(t, '|')[k],
    )
}

pub fn is_table_row_source(line: &[char]) -> (r: bool)
    ensures
        r == is_table_row_spec(line@),
{
    let t = trim_chars(line);
    t.len() > 0 && contains_char(t.as_slice(), '|')
}

fn delimiter_cell_valid(cell: &[char]) -> (r: bool)
    ensures
        r == delimiter_cell_ok(cell@),
{
    let t = trim_chars(cell);
    let mut dashes: usize = 0;
    let mut i: usize = 0;
    let mut all_allowed = true;
    assert(t@.take(0) =~= Seq::<char>::empty());
    while i < t.len()
        invariant
            i <= t.len(),
            t@ == trim(cell@),
            dashes == count_char(t@.take(i as int), '-'),
            dashes <= i,
            all_allowed == forall|x: int|
                0 <= x < i ==> (t@[x] == '-' || t@[x] == ':' || t@[x] == ' '),
        decreases t.len() - i,
    {
        assert(t@.take(i as int + 1).drop_last() =~= t@.take(i as int));
        let c = t[i];
        if c == '-' {
            dashes = dashes + 1;
        }
        if !(c == '-' || c == ':' || c == ' ') {
            all_allowed = false;
        }
        i = i + 1;
    }
    assert(t@.take(t.len() as int) =~= t@);
    dashes >= 3 && all_allowed
}

pub fn is_table_delimiter_source(line: &[char]) -> (r: bool)
    ensures
        r == is_table_delimiter_spec(line@),
{
    let t1 = trim_chars(line);
    let t2 = trim_char_chars(t1.as_slice(), '|');
    let t = trim_chars(t2.as_slice());
    if t.len() == 0 {
        return false;
    }
    let cells = split_on_char(t.as_slice(), '|');
    let mut k: usize = 0;
    while k < cells.len()
        invariant
            k <= cells.len(),
            char_seqs(cells@) == split_on(t@, '|'),
            t@ == trim(trim_char(trim(line@), '|')),
            forall|x: int| 0 <= x < k ==> delimiter_cell_ok(#[trigger] split_on(t@, '|')[x]),
        decreases cells.len() - k,
    {
        assert(char_seqs(cells@)[k as int] == cells@[k as int]@);
        if !delimiter_cell_valid(cells[k].as_slice()) {
            return false;
        }
        k = k + 1;
    }
    true
}

/// The first line at or after `k` that is not a table row.
pub open spec fn table_run_end(lines: Seq<Seq<char>>, k: int) -> int
    decreases lines.len() - k,
{
    if 0 <= k < lines.len() && is_table_row_spec(lines[k]) {
        table_run_end(lines, k + 1)
    } else {
        k
    }
}

pub proof fn lemma_run_end_ge(lines: Seq<Seq<char>>, k: int)
    ensures
        table_run_end(lines, k) >= k,
        k <= lines.len() ==> table_run_end(lines, k) <= lines.len(),
    decreases lines.len() - k,
{
    if 0 <= k < lines.len() && is_table_row_spec(lines[k]) {
        lemma_run_end_ge(lines, k + 1);
    }
}

/// The concatenation of the given lines.
pub open spec fn concat_lines(lines: Seq<Seq<char>>) -> Seq<char>
    decreases lines.len(),
{
    if lines.len() == 0 {
        seq![]
    } else {
        concat_lines(lines.drop_last()) + lines.last()
    }
}

/// The lines from index `i` on, with a newline added after each table (a row
/// line, a delimiter line and the row lines after it) that is directly
/// followed by a non-blank line.
pub open spec fn boundaries_from(lines: Seq<Seq<char>>, i: int) -> Seq<char>
    decreases lines.len() - i,
{
    if i < 0 || i >= lines.len() {
        seq![]
    } else if i + 1 < lines.len() && is_table_row_spec(lines[i]) && is_table_delimiter_spec(
        lines[i + 1],
    ) {
        let j = table_run_end(lines, i + 2);
        proof {
            lemma_run_end_ge(lines, i + 2);
        }
        concat_lines(lines.subrange(i, j)) + (if j < lines.len() && trim(lines[j]).len() > 0 {
            seq!['\n']
        } else {
            seq![]
        }) + boundaries_from(lines, j)
    } else {
        lines[i] + boundaries_from(lines, i + 1)
    }
}

/// Source text whose tables end with a blank line: markdown needs one before
/// a paragraph that follows a table. Text without `|` is returned as is.
pub open spec fn normalize_boundaries_spec(input: Seq<char>) -> Seq<char> {
    if !input.contains('|') {
        input
    } else {
        boundaries_from(inclusive_lines(input), 0)
    }
}

pub fn normalize_table_boundaries(input: &str) -> (r: String)
    ensures
        r@ == normalize_boundaries_spec(input@),
{
    let chars = str_chars(input);
    if !contains_char(chars.as_slice(), '|') {
        return str_to_string(input);
    }
    let lines = split_inclusive_lines(chars.as_slice());
    let ghost lv = char_seqs(lines@);
    let n = lines.len();
    let mut out: Vec<char> = Vec::new();
    let mut index: usize = 0;
    while index < n
        invariant
            index <= n == lines@.len(),
            lv == char_seqs(lines@),
            lv.len() == n,
            boundaries_from(lv, 0) == out@ + boundaries_from(lv, index as int),
        decreases n - index,
    {
        if index + 1 < n && is_table_row_source(lines[index].as_slice())
            && is_table_delimiter_source(lines[index + 1].as_slice()) {
            let ghost start = index as int;
            let ghost before = out@;
            let ghost j = table_run_end(lv, start + 2);
            proof {
                lemma_run_end_ge(lv, start + 2);
            }
            push_chars(&mut out, lines[index].as_slice());
            push_chars(&mut out, lines[index + 1].as_slice());
            let ghost one = lv.subrange(start, start + 1);
            let ghost two = lv.subrange(start, start + 2);
            assert(one.drop_last() =~= Seq::<Seq<char>>::empty());
            assert(concat_lines(one) == concat_lines(one.drop_last()) + one.last());
            assert(concat_lines(one) =~= lv[start]);
            assert(two.drop_last() =~= one);
            assert(concat_lines(two) == concat_lines(one) + lv[start + 1]);
            index = index + 2;
            while index < n && is_table_row_source(lines[index].as_slice())
                invariant
                    0 <= start,
                    start + 2 <= index <= n == lines@.len(),
                    lv == char_seqs(lines@),
                    lv.len() == n,
                    j == table_run_end(lv, start + 2),
                    table_run_end(lv, index as int) == j,
                    out@ == before + concat_lines(lv.subrange(start, index as int)),
                decreases n - index,
            {
                assert(lv.subrange(start, index as int + 1).drop_last() =~= lv.subrange(
                    start,
                    index as int,
                ));
                push_chars(&mut out, lines[index].as_slice());
                index = index + 1;
            }
            assert(index as int == j);
            if index < n {
                let t = trim_chars(lines[index].as_slice());
                if t.len() > 0 {
                    out.push('\n');
                }
            }
            assert(out@ + boundaries_from(lv, index as int) =~= before + boundaries_from(
                lv,
                start,
            ));
        } else {
            let ghost before = out@;
            push_chars(&mut out, lines[index].as_slice());
            assert(out@ + boundaries_from(lv, index + 1) =~= before + boundaries_from(
                lv,
                index as int,
            ));
            index = index + 1;
        }
    }
    chars_to_string(out.as_slice())
}

} // verus!
