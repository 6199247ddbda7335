//! Splitting streamed markdown into blocks that can be committed now and a
//! tail that may still change: a trailing table (or what may become one)
//! stays in the tail until a later block follows it.

use vstd::prelude::*;

use pulldown_cmark::Event;
use pulldown_cmark::Options;
use pulldown_cmark::Parser;
use pulldown_cmark::Tag;
use pulldown_cmark::TagEnd;

use crate::table::count_char;
use crate::text::{split_on, str_chars, trim};
use vstd::utf8::{decode_utf8, encode_utf8, is_char_boundary};

verus! {

/// A markdown parser event as the block partition sees it, with byte offsets.
#[derive(Clone, Copy, Debug, PartialEq, Eq, Structural)]
pub enum MdEvent {
    /// A block-level element other than a table starts.
    BlockStart(usize),
    /// A table starts.
    TableStart(usize),
    /// A block-level element ends.
    BlockEnd(usize),
    /// A thematic break, which is a block of its own.
    Rule(usize, usize),
    /// Anything inline.
    Other,
}

#[verifier::external_type_specification]
#[verifier::external_body]
pub struct ExCowStr<'a>(pulldown_cmark::CowStr<'a>);

#[verifier::external_type_specification]
#[verifier::external_body]
pub struct ExCodeBlockKind<'a>(pulldown_cmark::CodeBlockKind<'a>);

#[verifier::external_type_specification]
#[verifier::external_body]
pub struct ExHeadingLevel(pulldown_cmark::HeadingLevel);

#[verifier::external_type_specification]
#[verifier::external_body]
pub struct ExBlockQuoteKind(pulldown_cmark::BlockQuoteKind);

#[verifier::external_type_specification]
#[verifier::external_body]
pub struct ExLinkType(pulldown_cmark::LinkType);

#[verifier::external_type_specification]
#[verifier::external_body]
pub struct ExAlignment(pulldown_cmark::Alignment);

#[verifier::external_type_specification]
#[verifier::external_body]
pub struct ExMetadataBlockKind(pulldown_cmark::MetadataBlockKind);

#[verifier::external_type_specification]
pub struct ExTag<'a>(Tag<'a>);

#[verifier::external_type_specification]
pub struct ExTagEnd(TagEnd);

#[verifier::external_type_specification]
pub struct ExEvent<'a>(Event<'a>);

/// The kind of a markdown element, one for each `pulldown_cmark` tag.
#[derive(Clone, Copy, Debug, PartialEq, Eq, Structural)]
pub enum MdTag {
    Paragraph,
    Heading,
    BlockQuote,
    CodeBlock,
    HtmlBlock,
    List,
    Item,
    FootnoteDefinition,
    DefinitionList,
    DefinitionListTitle,
    DefinitionListDefinition,
    Table,
    TableHead,
    TableRow,
    TableCell,
    Emphasis,
    Strong,
    Strikethrough,
    Superscript,
    Subscript,
    Link,
    Image,
    MetadataBlock,
}

/// The kind of a parser event, one for each `pulldown_cmark` event.
#[derive(Clone, Copy, Debug, PartialEq, Eq, Structural)]
pub enum RawKind {
    Start(MdTag),
    End(MdTag),
    Text,
    Code,
    InlineMath,
    DisplayMath,
    Html,
    InlineHtml,
    FootnoteReference,
    SoftBreak,
    HardBreak,
    Rule,
    TaskListMarker,
}

/// A parser event reduced to its kind and its byte range in the source.
#[derive(Clone, Copy, Debug, PartialEq, Eq, Structural)]
pub struct RawMdEvent {
    pub kind: RawKind,
    pub start: usize,
    pub end: usize,
}

pub open spec fn tag_kind(t: Tag) -> MdTag {
    match t {
        Tag::Paragraph => MdTag::Paragraph,
        Tag::Heading { .. } => MdTag::Heading,
        Tag::BlockQuote(_) => MdTag::BlockQuote,
        Tag::CodeBlock(_) => MdTag::CodeBlock,
        Tag::HtmlBlock => MdTag::HtmlBlock,
        Tag::List(_) => MdTag::List,
        Tag::Item => MdTag::Item,
        Tag::FootnoteDefinition(_) => MdTag::FootnoteDefinition,
        Tag::DefinitionList => MdTag::DefinitionList,
        Tag::DefinitionListTitle => MdTag::DefinitionListTitle,
        Tag::DefinitionListDefinition => MdTag::DefinitionListDefinition,
        Tag::Table(_) => MdTag::Table,
        Tag::TableHead => MdTag::TableHead,
        Tag::TableRow => MdTag::TableRow,
        Tag::TableCell => MdTag::TableCell,
        Tag::Emphasis => MdTag::Emphasis,
        Tag::Strong => MdTag::Strong,
        Tag::Strikethrough => MdTag::Strikethrough,
        Tag::Superscript => MdTag::Superscript,
        Tag::Subscript => MdTag::Subscript,
        Tag::Link { .. } => MdTag::Link,
        Tag::Image { .. } => MdTag::Image,
        Tag::MetadataBlock(_) => MdTag::MetadataBlock,
    }
}

pub open spec fn tag_end_kind(t: TagEnd) -> MdTag {
    match t {
        TagEnd::Paragraph => MdTag::Paragraph,
        TagEnd::Heading(_) => MdTag::Heading,
        TagEnd::BlockQuote(_) => MdTag::BlockQuote,
        TagEnd::CodeBlock => MdTag::CodeBlock,
        TagEnd::HtmlBlock => MdTag::HtmlBlock,
        TagEnd::List(_) => MdTag::List,
        TagEnd::Item => MdTag::Item,
        TagEnd::FootnoteDefinition => MdTag::FootnoteDefinition,
        TagEnd::DefinitionList => MdTag::DefinitionList,
        TagEnd::DefinitionListTitle => MdTag::DefinitionListTitle,
        TagEnd::DefinitionListDefinition => MdTag::DefinitionListDefinition,
        TagEnd::Table => MdTag::Table,
        TagEnd::TableHead => MdTag::TableHead,
        TagEnd::TableRow => MdTag::TableRow,
        TagEnd::TableCell => MdTag::TableCell,
        TagEnd::Emphasis => MdTag::Emphasis,
        TagEnd::Strong => MdTag::Strong,
        TagEnd::Strikethrough => MdTag::Strikethrough,
        TagEnd::Superscript => MdTag::Superscript,
        TagEnd::Subscript => MdTag::Subscript,
        TagEnd::Link => MdTag::Link,
        TagEnd::Image => MdTag::Image,
        TagEnd::MetadataBlock(_) => MdTag::MetadataBlock,
    }
}

pub open spec fn event_kind(e: Event) -> RawKind {
    match e {
        Event::Start(t) => RawKind::Start(tag_kind(t)),
        Event::End(t) => RawKind::End(tag_end_kind(t)),
        Event::Text(_) => RawKind::Text,
        Event::Code(_) => RawKind::Code,
        Event::InlineMath(_) => RawKind::InlineMath,
        Event::DisplayMath(_) => RawKind::DisplayMath,
        Event::Html(_) => RawKind::Html,
        Event::InlineHtml(_) => RawKind::InlineHtml,
        Event::FootnoteReference(_) => RawKind::FootnoteReference,
        Event::SoftBreak => RawKind::SoftBreak,
        Event::HardBreak => RawKind::HardBreak,
        Event::Rule => RawKind::Rule,
        Event::TaskListMarker(_) => RawKind::TaskListMarker,
    }
}

/// Each event with its range, reduced to its kind.
pub open spec fn raw_events(v: Seq<(Event, usize, usize)>) -> Seq<RawMdEvent> {
    v.map_values(|x: (Event, usize, usize)| RawMdEvent { kind: event_kind(x.0), start: x.1, end: x.2 })
}

/// The events, with their byte ranges, that `pulldown_cmark` produces for a
/// source with tables and strikethrough enabled.
pub uninterp spec fn markdown_events_of(source: Seq<char>) -> Seq<RawMdEvent>;

/// `pulldown_cmark::Parser::new_ext` with tables and strikethrough, read
/// through `into_offset_iter`: the events in order, each with the start and
/// end of its byte range; the sequence, reduced to kinds and ranges, is
/// named [`markdown_events_of`] here.
#[verifier::external_body]
fn markdown_events<'a>(source: &'a str) -> (r: Vec<(Event<'a>, usize, usize)>)
    ensures
        raw_events(r@) == markdown_events_of(source@),
{
    let options = Options::ENABLE_STRIKETHROUGH | Options::ENABLE_TABLES;
    Parser::new_ext(source, options).into_offset_iter().map(|(e, r)| (e, r.start, r.end)).collect()
}

/// The elements that make up blocks of their own: paragraphs, headings,
/// block quotes, code blocks, lists, HTML blocks, footnote definitions,
/// tables and metadata blocks.
pub open spec fn is_block_tag(t: MdTag) -> bool {
    t == MdTag::Paragraph || t == MdTag::Heading || t == MdTag::BlockQuote || t == MdTag::CodeBlock
        || t == MdTag::List || t == MdTag::HtmlBlock || t == MdTag::FootnoteDefinition || t
        == MdTag::Table || t == MdTag::MetadataBlock
}

/// An event as the block partition reads it: where a block (or a table)
/// starts, where a block ends, a thematic break; anything else is inline.
pub open spec fn classify_spec(e: RawMdEvent) -> MdEvent {
    match e.kind {
        RawKind::Start(t) => if t == MdTag::Table {
            MdEvent::TableStart(e.start)
        } else if is_block_tag(t) {
            MdEvent::BlockStart(e.start)
        } else {
            MdEvent::Other
        },
        RawKind::End(t) => if is_block_tag(t) {
            MdEvent::BlockEnd(e.end)
        } else {
            MdEvent::Other
        },
        RawKind::Rule => MdEvent::Rule(e.start, e.end),
        _ => MdEvent::Other,
    }
}

/// The classified events of a source.
pub open spec fn md_events(source: Seq<char>) -> Seq<MdEvent> {
    markdown_events_of(source).map_values(|e: RawMdEvent| classify_spec(e))
}

fn tag_is_block(t: &Tag) -> (r: (bool, bool))
    ensures
        r == (is_block_tag(tag_kind(*t)), tag_kind(*t) == MdTag::Table),
{
    match t {
        Tag::Table(_) => (true, true),
        Tag::Paragraph | Tag::Heading { .. } | Tag::BlockQuote(_) | Tag::CodeBlock(_) | Tag::List(_)
        | Tag::HtmlBlock | Tag::FootnoteDefinition(_) | Tag::MetadataBlock(_) => (true, false),
        _ => (false, false),
    }
}

fn tag_end_is_block(t: &TagEnd) -> (r: bool)
    ensures
        r == is_block_tag(tag_end_kind(*t)),
{
    match t {
        TagEnd::Paragraph | TagEnd::Heading(_) | TagEnd::BlockQuote(_) | TagEnd::CodeBlock
        | TagEnd::List(_) | TagEnd::HtmlBlock | TagEnd::FootnoteDefinition | TagEnd::Table
        | TagEnd::MetadataBlock(_) => true,
        _ => false,
    }
}

/// Classifies one parser event with its byte range.
pub fn classify_event(e: &Event, start: usize, end: usize) -> (r: MdEvent)
    ensures
        r == classify_spec(RawMdEvent { kind: event_kind(*e), start, end }),
{
    match e {
        Event::Start(t) => {
            let (block, table) = tag_is_block(t);
            if table {
                MdEvent::TableStart(start)
            } else if block {
                MdEvent::BlockStart(start)
            } else {
                MdEvent::Other
            }
        },
        Event::End(t) => {
            if tag_end_is_block(t) {
                MdEvent::BlockEnd(end)
            } else {
                MdEvent::Other
            }
        },
        Event::Rule => MdEvent::Rule(start, end),
        _ => MdEvent::Other,
    }
}

/// The events of a source, classified.
fn classified_events(source: &str) -> (r: Vec<MdEvent>)
    ensures
        r@ == md_events(source@),
{
    let raw = markdown_events(source);
    let ghost rv = raw_events(raw@);
    let mut out: Vec<MdEvent> = Vec::new();
    let mut i: usize = 0;
    while i < raw.len()
        invariant
            i <= raw@.len(),
            rv == raw_events(raw@),
            rv == markdown_events_of(source@),
            out@ == rv.take(i as int).map_values(|e: RawMdEvent| classify_spec(e)),
        decreases raw@.len() - i,
    {
        let (e, start, end) = &raw[i];
        let c = classify_event(e, *start, *end);
        assert(rv[i as int] == RawMdEvent { kind: event_kind(*e), start: *start, end: *end });
        out.push(c);
        assert(out@ =~= rv.take(i as int + 1).map_values(|e: RawMdEvent| classify_spec(e)));
        i = i + 1;
    }
    assert(rv.take(raw@.len() as int) =~= rv);
    out
}

/// A top-level block: its byte range and whether it is a table.
#[derive(Clone, Copy, Debug, PartialEq, Eq, Structural)]
pub struct SourceBlock {
    pub start: usize,
    pub end: usize,
    pub is_table: bool,
}

/// The fold over the events: nesting depth, where the open top-level block
/// started and whether it is a table, and the blocks closed so far.
pub type BlockScan = (int, Option<int>, bool, Seq<SourceBlock>);

pub open spec fn scan_step(s: BlockScan, e: MdEvent) -> BlockScan {
    let (depth, start, table, blocks) = s;
    match e {
        MdEvent::BlockStart(at) => if depth == 0 {
            (1, Some(at as int), false, blocks)
        } else {
            (depth + 1, start, table, blocks)
        },
        MdEvent::TableStart(at) => if depth == 0 {
            (1, Some(at as int), true, blocks)
        } else {
            (depth + 1, start, table, blocks)
        },
        MdEvent::BlockEnd(at) => if depth > 0 {
            if depth == 1 && start is Some {
                (0, None, false, blocks.push(SourceBlock { start: start->0 as usize, end: at, is_table: table }))
            } else {
                (depth - 1, start, table, blocks)
            }
        } else {
            s
        },
        MdEvent::Rule(a, b) => if depth == 0 {
            (depth, start, table, blocks.push(SourceBlock { start: a, end: b, is_table: false }))
        } else {
            s
        },
        MdEvent::Other => s,
    }
}

pub open spec fn scan_events(events: Seq<MdEvent>) -> BlockScan
    decreases events.len(),
{
    if events.len() == 0 {
        (0, None, false, seq![])
    } else {
        scan_step(scan_events(events.drop_last()), events.last())
    }
}

/// The top-level blocks of an event stream, in order.
pub open spec fn blocks_spec(events: Seq<MdEvent>) -> Seq<SourceBlock> {
    scan_events(events).3
}

pub fn blocks_from_events(events: &Vec<MdEvent>) -> (r: Vec<SourceBlock>)
    ensures
        r@ == blocks_spec(events@),
{
    let mut blocks: Vec<SourceBlock> = Vec::new();
    let mut depth: usize = 0;
    let mut start: Option<usize> = None;
    let mut table = false;
    let mut i: usize = 0;
    while i < events.len()
        invariant
            i <= events@.len(),
            depth <= i,
            scan_events(events@.take(i as int)) == (
                depth as int,
                match start {
                    Some(s) => Some(s as int),
                    None => None,
                },
                table,
                blocks@,
            ),
        decreases events.len() - i,
    {
        assert(events@.take(i as int + 1).drop_last() =~= events@.take(i as int));
        match events[i] {
            MdEvent::BlockStart(at) => {
                if depth == 0 {
                    start = Some(at);
                    table = false;
                }
                depth = depth + 1;
            },
            MdEvent::TableStart(at) => {
                if depth == 0 {
                    start = Some(at);
                    table = true;
                }
                depth = depth + 1;
            },
            MdEvent::BlockEnd(at) => {
                if depth > 0 {
                    depth = depth - 1;
                    if depth == 0 {
                        match start {
                            Some(s) => {
                                blocks.push(SourceBlock { start: s, end: at, is_table: table });
                                start = None;
                                table = false;
                            },
                            None => {},
                        }
                    }
                }
            },
            MdEvent::Rule(a, b) => {
                if depth == 0 {
                    blocks.push(SourceBlock { start: a, end: b, is_table: false });
                }
            },
            MdEvent::Other => {},
        }
        i = i + 1;
    }
    assert(events@.take(events.len() as int) =~= events@);
    blocks
}

/// The first line that is not blank, if any.
pub open spec fn first_nonblank(lines: Seq<Seq<char>>) -> Option<Seq<char>>
    decreases lines.len(),
{
    if lines.len() == 0 {
        None
    } else if trim(lines[0]).len() > 0 {
        Some(lines[0])
    } else {
        first_nonblank(lines.drop_first())
    }
}

/// Whether the first non-blank line of a block looks like a table row: two
/// pipes, or a leading one. (Lines are split at `\n`; a `\r` before it is
/// whitespace and trimmed with the rest.)
pub open spec fn table_prefix_spec(text: Seq<char>) -> bool {
    match first_nonblank(split_on(text, '\n')) {
        None => false,
        Some(l) => {
            let t = trim(l);
            count_char(t, '|') >= 2 || (count_char(t, '|') >= 1 && t[0] == '|')
        },
    }
}

fn count_pipes(v: &Vec<char>) -> (r: usize)
    ensures
        r as int == count_char(v@, '|'),
{
    let mut n: usize = 0;
    let mut i: usize = 0;
    while i < v.len()
        invariant
            i <= v.len(),
            n as int == count_char(v@.take(i as int), '|'),
            n <= i,
        decreases v.len() - i,
    {
        assert(v@.take(i as int + 1).drop_last() =~= v@.take(i as int));
        if v[i] == '|' {
            n = n + 1;
        }
        i = i + 1;
    }
    assert(v@.take(v.len() as int) =~= v@);
    n
}

pub fn looks_like_table_prefix(text: &str) -> (r: bool)
    ensures
        r == table_prefix_spec(text@),
{
    let v = str_chars(text);
    let lines = crate::text::split_on_char(v.as_slice(), '\n');
    let ghost lv = crate::text::char_seqs(lines@);
    let mut i: usize = 0;
    assert(lv.skip(0) =~= lv);
    while i < lines.len()
        invariant
            i <= lines.len(),
            lv == crate::text::char_seqs(lines@),
            lv == split_on(text@, '\n'),
            first_nonblank(lv) == first_nonblank(lv.skip(i as int)),
        decreases lines.len() - i,
    {
        let t = crate::text::trim_chars(lines[i].as_slice());
        assert(lv.skip(i as int)[0] == lv[i as int]);
        if t.len() > 0 {
            let pipes = count_pipes(&t);
            return pipes >= 2 || (pipes >= 1 && t[0] == '|');
        }
        assert(lv.skip(i as int).drop_first() =~= lv.skip(i as int + 1));
        i = i + 1;
    }
    false
}

/// A byte range within the text that starts and ends on character
/// boundaries.
pub open spec fn slice_ok(s: Seq<char>, start: int, end: int) -> bool {
    &&& start <= end <= encode_utf8(s).len()
    &&& is_char_boundary(encode_utf8(s), start)
    &&& is_char_boundary(encode_utf8(s), end)
}

/// `str::get` with a byte range: where the range lies on character
/// boundaries within the string, the text it covers.
#[verifier::external_body]
fn byte_slice(s: &str, start: usize, end: usize) -> (r: Option<String>)
    ensures
        r is Some <==> slice_ok(s@, start as int, end as int),
        r is Some ==> r->0@ == decode_utf8(encode_utf8(s@).subrange(start as int, end as int)),
{
    s.get(start..end).map(|t| t.to_string())
}

/// The partition of a streamed source: the committed end, the committed
/// blocks, and the tail.
#[derive(Debug, PartialEq, Eq)]
pub struct SourcePartition {
    pub stable_end: usize,
    pub stable_blocks: Vec<(usize, usize)>,
    pub tail: (usize, usize),
}

/// Where the committed part ends: before the last block when that block is a
/// table or looks like the start of one (`last_looks_like_table`), else at
/// the end of the source.
pub open spec fn stable_end_spec(blocks: Seq<SourceBlock>, last_looks_like_table: bool, len: int) -> int {
    if blocks.len() > 0 && (blocks.last().is_table || last_looks_like_table) {
        if blocks.len() >= 2 {
            blocks[blocks.len() - 2].end as int
        } else {
            0
        }
    } else {
        len
    }
}

pub open spec fn stable_ranges(blocks: Seq<SourceBlock>, stable_end: int) -> Seq<(usize, usize)>
    decreases blocks.len(),
{
    if blocks.len() == 0 {
        seq![]
    } else {
        let rest = stable_ranges(blocks.drop_last(), stable_end);
        if blocks.last().end <= stable_end {
            rest.push((blocks.last().start, blocks.last().end))
        } else {
            rest
        }
    }
}

/// The committed blocks all end where the tail begins or before: nothing the
/// tail will re-render has been committed, and the committed blocks keep
/// their order.
pub proof fn lemma_stable_blocks_precede_tail(blocks: Seq<SourceBlock>, stable_end: int)
    ensures
        forall|i: int|
            0 <= i < stable_ranges(blocks, stable_end).len() ==> (#[trigger] stable_ranges(
                blocks,
                stable_end,
            )[i]).1 <= stable_end,
        stable_ranges(blocks, stable_end).len() <= blocks.len(),
    decreases blocks.len(),
{
    if blocks.len() > 0 {
        lemma_stable_blocks_precede_tail(blocks.drop_last(), stable_end);
        let rest = stable_ranges(blocks.drop_last(), stable_end);
        let r = stable_ranges(blocks, stable_end);
        assert forall|i: int| 0 <= i < r.len() implies (#[trigger] r[i]).1 <= stable_end by {
            if i < rest.len() {
                assert(r[i] == rest[i]);
            }
        }
    }
}

/// A block's byte range.
pub open spec fn range_of(b: SourceBlock) -> (usize, usize) {
    (b.start, b.end)
}

proof fn lemma_stable_ranges_members(blocks: Seq<SourceBlock>, stable_end: int)
    ensures
        forall|i: int|
            0 <= i < blocks.len() && blocks[i].end <= stable_end ==> stable_ranges(
                blocks,
                stable_end,
            ).contains((#[trigger] blocks[i].start, blocks[i].end)),
        forall|x: int|
            0 <= x < stable_ranges(blocks, stable_end).len() ==> exists|i: int|
                0 <= i < blocks.len() && blocks[i].end <= stable_end && #[trigger] stable_ranges(
                    blocks,
                    stable_end,
                )[x] == range_of(#[trigger] blocks[i]),
    decreases blocks.len(),
{
    if blocks.len() > 0 {
        let prev = blocks.drop_last();
        lemma_stable_ranges_members(prev, stable_end);
        let rest = stable_ranges(prev, stable_end);
        let all = stable_ranges(blocks, stable_end);
        let last = blocks.len() - 1;
        assert(blocks.last() == blocks[last]);
        if blocks[last].end <= stable_end {
            assert(all == rest.push((blocks[last].start, blocks[last].end)));
        } else {
            assert(all == rest);
        }
        assert forall|i: int| 0 <= i < blocks.len() && blocks[i].end <= stable_end implies all.contains(
            (#[trigger] blocks[i].start, blocks[i].end),
        ) by {
            if i < last {
                assert(blocks[i] == prev[i]);
                assert(rest.contains((prev[i].start, prev[i].end)));
                let k = choose|k: int| 0 <= k < rest.len() && rest[k] == (prev[i].start, prev[i].end);
                assert(all[k] == rest[k]);
            } else {
                assert(all[all.len() - 1] == (blocks[i].start, blocks[i].end));
            }
        }
        assert forall|x: int| 0 <= x < all.len() implies exists|i: int|
            0 <= i < blocks.len() && blocks[i].end <= stable_end && #[trigger] all[x] == range_of(
                #[trigger] blocks[i],
            ) by {
            if x < rest.len() {
                assert(all[x] == rest[x]);
                let i = choose|i: int|
                    0 <= i < prev.len() && prev[i].end <= stable_end && #[trigger] rest[x] == range_of(
                        #[trigger] prev[i],
                    );
                assert(blocks[i] == prev[i]);
                assert(all[x] == range_of(blocks[i]));
            } else {
                assert(all[x] == range_of(blocks[last]));
            }
        }
    }
}

/// Whether a block ends by `stable_end`.
pub open spec fn ends_by(stable_end: int) -> spec_fn(SourceBlock) -> bool {
    |b: SourceBlock| b.end <= stable_end
}

/// Each block as its byte range.
pub open spec fn ranges_of(blocks: Seq<SourceBlock>) -> Seq<(usize, usize)> {
    blocks.map_values(|b: SourceBlock| range_of(b))
}

/// The committed blocks are the blocks that end no later than the committed
/// part, in their order, each as its byte range.
pub proof fn lemma_stable_blocks_in_order(blocks: Seq<SourceBlock>, stable_end: int)
    ensures
        stable_ranges(blocks, stable_end) == ranges_of(blocks.filter(ends_by(stable_end))),
    decreases blocks.len(),
{
    let p = ends_by(stable_end);
    reveal(Seq::filter);
    if blocks.len() > 0 {
        lemma_stable_blocks_in_order(blocks.drop_last(), stable_end);
        let f = blocks.drop_last().filter(p);
        assert(p(blocks.last()) == (blocks.last().end <= stable_end));
        if blocks.last().end <= stable_end {
            assert(blocks.filter(p) == f.push(blocks.last()));
            assert(ranges_of(f.push(blocks.last())) =~= ranges_of(f).push(range_of(blocks.last())));
        } else {
            assert(blocks.filter(p) == f);
        }
    } else {
        assert(ranges_of(blocks.filter(p)) =~= Seq::<(usize, usize)>::empty());
    }
}

/// Where the committed part ends, and what it holds. When the last block is
/// held back (a table, or a block that looks like the start of one) and
/// blocks come before it, everything up to the end of the block just before
/// it is committed, that block included; a held-back block alone commits
/// nothing; otherwise the whole source is committed. The committed blocks
/// are exactly the blocks that end no later than the committed part.
#[verifier::spinoff_prover]
pub proof fn lemma_partition_commits_before_held_table(
    blocks: Seq<SourceBlock>,
    last_looks_like_table: bool,
    len: int,
)
    ensures
        ({
            let n = blocks.len() as int;
            let held = n > 0 && (blocks[n - 1].is_table || last_looks_like_table);
            let se = stable_end_spec(blocks, last_looks_like_table, len);
            &&& held && n >= 2 ==> se == blocks[n - 2].end as int && stable_ranges(blocks, se).contains(
                (blocks[n - 2].start, blocks[n - 2].end),
            )
            &&& held && n == 1 ==> se == 0
            &&& !held ==> se == len
            &&& forall|i: int|
                0 <= i < n && blocks[i].end <= se ==> stable_ranges(blocks, se).contains(
                    (#[trigger] blocks[i].start, blocks[i].end),
                )
            &&& forall|x: int|
                0 <= x < stable_ranges(blocks, se).len() ==> exists|i: int|
                    0 <= i < blocks.len() && blocks[i].end <= se && #[trigger] stable_ranges(blocks, se)[x]
                        == range_of(#[trigger] blocks[i])
        }),
{
    let n = blocks.len() as int;
    let se = stable_end_spec(blocks, last_looks_like_table, len);
    lemma_stable_ranges_members(blocks, se);
    let sr = stable_ranges(blocks, se);
    assert forall|x: int| 0 <= x < sr.len() implies exists|i: int|
        0 <= i < blocks.len() && blocks[i].end <= se && #[trigger] sr[x] == range_of(#[trigger] blocks[i]) by {
        assert(0 <= x < stable_ranges(blocks, se).len());
    }
    if n > 0 {
        assert(blocks.last() == blocks[n - 1]);
    }
    if n >= 2 && (blocks[n - 1].is_table || last_looks_like_table) {
        assert(se == blocks[n - 2].end as int);
        assert(blocks[n - 2].end <= se);
        assert(stable_ranges(blocks, se).contains((blocks[n - 2].start, blocks[n - 2].end)));
    }
}

/// The partition for the blocks of a source of `len` bytes.
pub fn partition_blocks(blocks: &Vec<SourceBlock>, last_looks_like_table: bool, len: usize) -> (r:
    SourcePartition)
    ensures
        r.stable_end as int == stable_end_spec(blocks@, last_looks_like_table, len as int),
        r.stable_blocks@ == stable_ranges(blocks@, r.stable_end as int),
        r.tail == (r.stable_end, len),
{
    let n = blocks.len();
    let stable_end = if n > 0 && (blocks[n - 1].is_table || last_looks_like_table) {
        if n >= 2 {
            blocks[n - 2].end
        } else {
            0
        }
    } else {
        len
    };
    let mut stable: Vec<(usize, usize)> = Vec::new();
    let mut i: usize = 0;
    while i < n
        invariant
            i <= n == blocks@.len(),
            stable@ == stable_ranges(blocks@.take(i as int), stable_end as int),
        decreases n - i,
    {
        assert(blocks@.take(i as int + 1).drop_last() =~= blocks@.take(i as int));
        let b = blocks[i];
        if b.end <= stable_end {
            stable.push((b.start, b.end));
        }
        i = i + 1;
    }
    assert(blocks@.take(n as int) =~= blocks@);
    SourcePartition { stable_end, stable_blocks: stable, tail: (stable_end, len) }
}

/// Whether the source has a top-level table.
pub open spec fn has_table_spec(blocks: Seq<SourceBlock>) -> bool {
    exists|i: int| 0 <= i < blocks.len() && #[trigger] blocks[i].is_table
}

pub fn source_has_table_block(source: &str) -> (r: bool)
    ensures
        r == has_table_spec(blocks_spec(md_events(source@))),
{
    let events = classified_events(source);
    let blocks = blocks_from_events(&events);
    let mut i: usize = 0;
    while i < blocks.len()
        invariant
            i <= blocks@.len(),
            blocks@ == blocks_spec(md_events(source@)),
            forall|k: int| 0 <= k < i ==> !(#[trigger] blocks@[k]).is_table,
        decreases blocks.len() - i,
    {
        if blocks[i].is_table {
            assert(blocks@[i as int].is_table);
            assert(has_table_spec(blocks@));
            return true;
        }
        i = i + 1;
    }
    false
}


/// The text of a block, where its range lies on character boundaries.
pub open spec fn block_text(source: Seq<char>, b: SourceBlock) -> Option<Seq<char>> {
    if slice_ok(source, b.start as int, b.end as int) {
        Some(decode_utf8(encode_utf8(source).subrange(b.start as int, b.end as int)))
    } else {
        None
    }
}

/// Partitions a streamed markdown source. The last top-level block stays in
/// the tail when it is a table or its first non-blank line looks like a
/// table row; everything before it is committed.
pub fn partition_source(source: &str) -> (r: SourcePartition)
    ensures
        ({
            let blocks = blocks_spec(md_events(source@));
            let last_like = blocks.len() > 0 && match block_text(source@, blocks.last()) {
                Some(t) => table_prefix_spec(t),
                None => false,
            };
            &&& r.stable_end as int == stable_end_spec(blocks, last_like, source.len() as int)
            &&& r.stable_blocks@ == stable_ranges(blocks, r.stable_end as int)
            &&& r.tail == (r.stable_end, source.len())
        }),
{
    let events = classified_events(source);
    let blocks = blocks_from_events(&events);
    let len = source.len();
    let n = blocks.len();
    let last_like = if n > 0 {
        let b = blocks[n - 1];
        match byte_slice(source, b.start, b.end) {
            Some(t) => looks_like_table_prefix(t.as_str()),
            None => false,
        }
    } else {
        false
    };
    proof {
        if n > 0 {
            let b = blocks@[n - 1];
            assert(b == blocks@.last());
        }
    }
    partition_blocks(&blocks, last_like, len)
}

} // verus!
