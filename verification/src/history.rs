//! Inserting history above the inline viewport: the insertion strategy, the
//! scroll-region escape sequences, which lines are preformatted box tables,
//! and the text attributes to switch between two styled spans.

use vstd::prelude::*;

use crate::text::{chars_to_string, push_decimal, str_chars, trim_start};

verus! {

/// Selects the terminal escape strategy for inserting history lines above
/// the viewport.
///
/// Standard terminals support `DECSTBM` scroll regions and Reverse Index
/// (`ESC M`), which let us slide existing content down without redrawing it.
/// Some terminals or terminal-like surfaces mishandle those sequences for
/// normal scrollback, so `Newline` mode falls back to emitting newlines at
/// the bottom of the screen and writing lines at absolute positions.
#[derive(Clone, Copy, Debug, PartialEq, Eq, Structural)]
pub enum InsertHistoryMode {
    Standard,
    Newline,
}

impl InsertHistoryMode {
    pub fn new(use_newline_insert: bool) -> (r: Self)
        ensures
            r == (if use_newline_insert {
                InsertHistoryMode::Newline
            } else {
                InsertHistoryMode::Standard
            }),
    {
        if use_newline_insert {
            InsertHistoryMode::Newline
        } else {
            InsertHistoryMode::Standard
        }
    }
}

/// Whether history lines are wrapped before they are written, or left to the
/// terminal to wrap.
#[derive(Clone, Copy, Debug, PartialEq, Eq, Structural)]
pub enum HistoryLineWrapPolicy {
    PreWrap,
    Terminal,
}

/// `DECSTBM`: limit scrolling to the rows `start..end` (1-based).
#[derive(Debug, PartialEq, Eq)]
pub struct SetScrollRegion(pub std::ops::Range<u16>);

pub open spec fn set_scroll_region_spec(start: u16, end: u16) -> Seq<char> {
    seq!['\x1b', '['] + crate::text::decimal(start as nat) + seq![';'] + crate::text::decimal(
        end as nat,
    ) + seq!['r']
}

impl SetScrollRegion {
    /// The escape sequence `ESC [ <start> ; <end> r`.
    pub fn ansi(&self) -> (r: String)
        ensures
            r@ == set_scroll_region_spec(self.0.start, self.0.end),
    {
        let mut out: Vec<char> = Vec::new();
        out.push('\x1b');
        out.push('[');
        push_decimal(&mut out, self.0.start as u64);
        out.push(';');
        push_decimal(&mut out, self.0.end as u64);
        out.push('r');
        assert(out@ =~= set_scroll_region_spec(self.0.start, self.0.end));
        chars_to_string(out.as_slice())
    }
}

/// Resets the scroll region to the whole screen.
#[derive(Clone, Copy, Debug, PartialEq, Eq, Structural)]
pub struct ResetScrollRegion;

impl ResetScrollRegion {
    /// The escape sequence `ESC [ r`.
    pub fn ansi(&self) -> (r: String)
        ensures
            r@ == seq!['\x1b', '[', 'r'],
    {
        let mut out: Vec<char> = Vec::new();
        out.push('\x1b');
        out.push('[');
        out.push('r');
        chars_to_string(out.as_slice())
    }
}

/// A line of an already rendered box table: after leading whitespace it is a
/// row (a `│` that starts at least two of them) or a border (`┌`, `├`, `└`).
pub open spec fn preformatted_box_line_spec(text: Seq<char>) -> bool {
    let t = trim_start(text);
    &&& t.len() > 0
    &&& ((t[0] == '│' && crate::table::count_char(t, '│') >= 2) || t[0] == '┌' || t[0] == '├' || t[0] == '└')
}

pub fn is_preformatted_box_table_line(text: &str) -> (r: bool)
    ensures
        r == preformatted_box_line_spec(text@),
{
    let v = str_chars(text);
    let n = v.len();
    let mut a: usize = 0;
    assert(v@.skip(0) =~= v@);
    while a < n && crate::text::is_whitespace(v[a])
        invariant
            n == v@.len(),
            a <= n,
            trim_start(v@) == trim_start(v@.skip(a as int)),
        decreases n - a,
    {
        proof {
            crate::text::lemma_trim_start_step(v@, a as int);
        }
        a = a + 1;
    }
    assert(trim_start(v@) == v@.skip(a as int));
    if a >= n {
        return false;
    }
    let first = v[a];
    if first == '┌' || first == '├' || first == '└' {
        return true;
    }
    if first != '│' {
        return false;
    }
    let mut count: usize = 0;
    let mut i: usize = a;
    while i < n
        invariant
            a <= i <= n == v@.len(),
            count as int == crate::table::count_char(v@.subrange(a as int, i as int), '│'),
            count <= i - a,
        decreases n - i,
    {
        assert(v@.subrange(a as int, i as int + 1).drop_last() =~= v@.subrange(a as int, i as int));
        if v[i] == '│' {
            count = count + 1;
        }
        i = i + 1;
    }
    assert(v@.subrange(a as int, n as int) =~= trim_start(v@));
    count >= 2
}

/// Text attributes, as ratatui's `Modifier` flags.
#[derive(Clone, Copy, Debug, PartialEq, Eq, Structural)]
pub struct ModifierSet {
    pub bold: bool,
    pub dim: bool,
    pub italic: bool,
    pub underlined: bool,
    pub slow_blink: bool,
    pub rapid_blink: bool,
    pub reversed: bool,
    pub hidden: bool,
    pub crossed_out: bool,
}

/// The SGR attributes written to switch styles.
#[derive(Clone, Copy, Debug, PartialEq, Eq, Structural)]
pub enum SgrAttribute {
    NoReverse,
    NormalIntensity,
    Dim,
    NoItalic,
    NoUnderline,
    NotCrossedOut,
    NoBlink,
    Reverse,
    Bold,
    Italic,
    Underlined,
    CrossedOut,
    SlowBlink,
    RapidBlink,
}

pub open spec fn when(c: bool, a: SgrAttribute) -> Seq<SgrAttribute> {
    if c {
        seq![a]
    } else {
        seq![]
    }
}

/// The attributes that turn the style `from` into `to`: first those that
/// end what `to` drops (ending bold also ends dim, which is restored if `to`
/// keeps it), then those that start what `to` adds.
pub open spec fn modifier_diff_spec(from: ModifierSet, to: ModifierSet) -> Seq<SgrAttribute> {
    when(from.reversed && !to.reversed, SgrAttribute::NoReverse) + (if from.bold && !to.bold {
        seq![SgrAttribute::NormalIntensity] + when(to.dim, SgrAttribute::Dim)
    } else {
        seq![]
    }) + when(from.italic && !to.italic, SgrAttribute::NoItalic) + when(
        from.underlined && !to.underlined,
        SgrAttribute::NoUnderline,
    ) + when(from.dim && !to.dim, SgrAttribute::NormalIntensity) + when(
        from.crossed_out && !to.crossed_out,
        SgrAttribute::NotCrossedOut,
    ) + when(
        (from.slow_blink && !to.slow_blink) || (from.rapid_blink && !to.rapid_blink),
        SgrAttribute::NoBlink,
    ) + when(to.reversed && !from.reversed, SgrAttribute::Reverse) + when(
        to.bold && !from.bold,
        SgrAttribute::Bold,
    ) + when(to.italic && !from.italic, SgrAttribute::Italic) + when(
        to.underlined && !from.underlined,
        SgrAttribute::Underlined,
    ) + when(to.dim && !from.dim, SgrAttribute::Dim) + when(
        to.crossed_out && !from.crossed_out,
        SgrAttribute::CrossedOut,
    ) + when(to.slow_blink && !from.slow_blink, SgrAttribute::SlowBlink) + when(
        to.rapid_blink && !from.rapid_blink,
        SgrAttribute::RapidBlink,
    )
}

fn push_when(out: &mut Vec<SgrAttribute>, c: bool, a: SgrAttribute)
    ensures
        final(out)@ == old(out)@ + when(c, a),
{
    if c {
        out.push(a);
    }
    assert(out@ =~= old(out)@ + when(c, a));
}

pub fn modifier_diff(from: ModifierSet, to: ModifierSet) -> (r: Vec<SgrAttribute>)
    ensures
        r@ == modifier_diff_spec(from, to),
{
    let mut out: Vec<SgrAttribute> = Vec::new();
    push_when(&mut out, from.reversed && !to.reversed, SgrAttribute::NoReverse);
    let ghost a = out@;
    if from.bold && !to.bold {
        out.push(SgrAttribute::NormalIntensity);
        push_when(&mut out, to.dim, SgrAttribute::Dim);
    }
    assert(out@ =~= a + (if from.bold && !to.bold {
        seq![SgrAttribute::NormalIntensity] + when(to.dim, SgrAttribute::Dim)
    } else {
        seq![]
    }));
    push_when(&mut out, from.italic && !to.italic, SgrAttribute::NoItalic);
    push_when(&mut out, from.underlined && !to.underlined, SgrAttribute::NoUnderline);
    push_when(&mut out, from.dim && !to.dim, SgrAttribute::NormalIntensity);
    push_when(&mut out, from.crossed_out && !to.crossed_out, SgrAttribute::NotCrossedOut);
    push_when(
        &mut out,
        (from.slow_blink && !to.slow_blink) || (from.rapid_blink && !to.rapid_blink),
        SgrAttribute::NoBlink,
    );
    push_when(&mut out, to.reversed && !from.reversed, SgrAttribute::Reverse);
    push_when(&mut out, to.bold && !from.bold, SgrAttribute::Bold);
    push_when(&mut out, to.italic && !from.italic, SgrAttribute::Italic);
    push_when(&mut out, to.underlined && !from.underlined, SgrAttribute::Underlined);
    push_when(&mut out, to.dim && !from.dim, SgrAttribute::Dim);
    push_when(&mut out, to.crossed_out && !from.crossed_out, SgrAttribute::CrossedOut);
    push_when(&mut out, to.slow_blink && !from.slow_blink, SgrAttribute::SlowBlink);
    push_when(&mut out, to.rapid_blink && !from.rapid_blink, SgrAttribute::RapidBlink);
    assert(out@ =~= modifier_diff_spec(from, to));
    out
}


/// How many terminal rows a line takes at `width` columns, given the display
/// widths of its visible symbols (control and zero-width symbols left out):
/// a symbol that does not fit after others starts a new row, and one wider
/// than a row takes a row to itself. Counted from `(rows, x)`, saturating
/// as `u16` arithmetic does.
pub open spec fn line_rows_from(widths: Seq<u16>, width: u16, rows: u16, x: u16) -> u16
    decreases widths.len(),
{
    if widths.len() == 0 {
        rows
    } else {
        let w = widths[0];
        let (rows2, x2) = if x > 0 && (if x + w > u16::MAX { u16::MAX as int } else { x + w }) > width {
            ((if rows + 1 > u16::MAX { u16::MAX as int } else { rows + 1 }) as u16, 0u16)
        } else {
            (rows, x)
        };
        let x3 = if w <= width {
            (if x2 + w > u16::MAX { u16::MAX as int } else { x2 + w }) as u16
        } else {
            x2
        };
        line_rows_from(widths.drop_first(), width, rows2, x3)
    }
}

/// The rows a rendered history line takes: one, plus one for each wrap.
pub fn rendered_history_line_rows(symbol_widths: &[u16], width: u16) -> (r: u16)
    ensures
        r == line_rows_from(symbol_widths@, width, 1, 0),
{
    let mut rows: u16 = 1;
    let mut x: u16 = 0;
    let mut i: usize = 0;
    assert(symbol_widths@.skip(0) =~= symbol_widths@);
    while i < symbol_widths.len()
        invariant
            i <= symbol_widths.len(),
            line_rows_from(symbol_widths@, width, 1, 0) == line_rows_from(symbol_widths@.skip(i as int), width, rows, x),
        decreases symbol_widths.len() - i,
    {
        let w = symbol_widths[i];
        assert(symbol_widths@.skip(i as int).drop_first() =~= symbol_widths@.skip(i as int + 1));
        assert(symbol_widths@.skip(i as int)[0] == w);
        if x > 0 && x.saturating_add(w) > width {
            rows = rows.saturating_add(1);
            x = 0;
        }
        if w <= width {
            x = x.saturating_add(w);
        }
        i = i + 1;
    }
    rows
}

/// The rows a pre-wrapped line of display width `w` takes at `wrap_width`
/// columns: at least one.
pub open spec fn wrapped_rows_of(w: int, wrap_width: int) -> int {
    let v = if w < 1 { 1 } else { w };
    (v + wrap_width - 1) / wrap_width
}

pub open spec fn wrapped_rows_sum(widths: Seq<usize>, wrap_width: int) -> int
    decreases widths.len(),
{
    if widths.len() == 0 {
        0
    } else {
        wrapped_rows_sum(widths.drop_last(), wrap_width) + wrapped_rows_of(widths.last() as int, wrap_width)
    }
}

/// The rows the wrapped lines of an insertion take, given each wrapped
/// line's display width, kept as the low 16 bits as the terminal counts them.
pub fn wrapped_row_count(line_widths: &[usize], wrap_width: usize) -> (r: u16)
    requires
        wrap_width >= 1,
        wrapped_rows_sum(line_widths@, wrap_width as int) <= usize::MAX,
    ensures
        r as int == wrapped_rows_sum(line_widths@, wrap_width as int) % 65536,
{
    let mut total: usize = 0;
    let mut i: usize = 0;
    while i < line_widths.len()
        invariant
            i <= line_widths.len(),
            wrap_width >= 1,
            wrapped_rows_sum(line_widths@, wrap_width as int) <= usize::MAX,
            total as int == wrapped_rows_sum(line_widths@.take(i as int), wrap_width as int),
        decreases line_widths.len() - i,
    {
        assert(line_widths@.take(i as int + 1).drop_last() =~= line_widths@.take(i as int));
        proof {
            lemma_wrapped_rows_prefix(line_widths@, wrap_width as int, i as int + 1);
        }
        let w = if line_widths[i] < 1 { 1 } else { line_widths[i] };
        let q = w / wrap_width;
        assert(w % wrap_width != 0 ==> q < usize::MAX) by (nonlinear_arith)
            requires
                wrap_width >= 1,
                q == w / wrap_width,
        ;
        let rows = if w % wrap_width == 0 { q } else { q + 1 };
        assert(rows as int == wrapped_rows_of(line_widths@[i as int] as int, wrap_width as int)) by (nonlinear_arith)
            requires
                wrap_width >= 1,
                w >= 1,
                q == w / wrap_width,
                rows == (if w % wrap_width == 0 { q as int } else { q + 1 }),
                w as int == (if (line_widths@[i as int] as int) < 1 { 1 } else { line_widths@[i as int] as int }),
        ;
        total = total + rows;
        i = i + 1;
    }
    assert(line_widths@.take(line_widths.len() as int) =~= line_widths@);
    (total % 65536) as u16
}

proof fn lemma_wrapped_rows_prefix(widths: Seq<usize>, wrap_width: int, n: int)
    requires
        wrap_width >= 1,
        0 <= n <= widths.len(),
    ensures
        wrapped_rows_sum(widths.take(n), wrap_width) <= wrapped_rows_sum(widths, wrap_width),
    decreases widths.len(),
{
    if n < widths.len() {
        assert(widths.drop_last().take(n) =~= widths.take(n));
        lemma_wrapped_rows_prefix(widths.drop_last(), wrap_width, n);
        assert(wrapped_rows_of(widths.last() as int, wrap_width) >= 0) by (nonlinear_arith)
            requires
                wrap_width >= 1,
        ;
    } else {
        assert(widths.take(n) =~= widths);
    }
}

/// Scrolling the screen below the viewport: the scroll region's 1-based top
/// row and its bottom, and by how many rows.
#[derive(Clone, Copy, Debug, PartialEq, Eq, Structural)]
pub struct PreScroll {
    pub region_top: u16,
    pub region_bottom: u16,
    pub amount: u16,
}

/// How a standard insertion moves things, for a viewport whose top row is
/// `area_top` and which is `area_height` rows tall, on a screen
/// `screen_height` rows tall, inserting `wrapped_rows` rows of history.
#[derive(Clone, Copy, Debug, PartialEq, Eq, Structural)]
pub struct StandardInsertPlan {
    /// When the viewport does not reach the bottom of the screen: the
    /// scrolling that pushes the viewport down.
    pub pre_scroll: Option<PreScroll>,
    /// The row the cursor starts writing history after.
    pub cursor_top: u16,
    /// The viewport's top row afterwards.
    pub viewport_top: u16,
    /// Whether the viewport moved.
    pub viewport_moved: bool,
}

pub fn standard_insert_plan(area_top: u16, area_height: u16, screen_height: u16, wrapped_rows: u16) -> (r:
    StandardInsertPlan)
    ensures
        ({
            let bottom = if area_top + area_height > u16::MAX { u16::MAX as int } else { area_top + area_height };
            let cursor = if area_top >= 1 { area_top - 1 } else { 0 };
            if bottom < screen_height {
                let amount = if wrapped_rows < screen_height - bottom { wrapped_rows as int } else { screen_height - bottom };
                r == StandardInsertPlan {
                    pre_scroll: Some(
                        PreScroll {
                            region_top: (area_top + 1) as u16,
                            region_bottom: screen_height,
                            amount: amount as u16,
                        },
                    ),
                    cursor_top: cursor as u16,
                    viewport_top: (area_top + amount) as u16,
                    viewport_moved: true,
                }
            } else {
                r == StandardInsertPlan {
                    pre_scroll: None,
                    cursor_top: cursor as u16,
                    viewport_top: area_top,
                    viewport_moved: false,
                }
            }
        }),
{
    let bottom = area_top.saturating_add(area_height);
    let cursor_top = area_top.saturating_sub(1);
    if bottom < screen_height {
        let room = screen_height - bottom;
        let amount = if wrapped_rows < room { wrapped_rows } else { room };
        StandardInsertPlan {
            pre_scroll: Some(PreScroll { region_top: area_top + 1, region_bottom: screen_height, amount }),
            cursor_top,
            viewport_top: area_top + amount,
            viewport_moved: true,
        }
    } else {
        StandardInsertPlan { pre_scroll: None, cursor_top, viewport_top: area_top, viewport_moved: false }
    }
}

} // verus!
