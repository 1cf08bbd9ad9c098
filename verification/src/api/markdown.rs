//! Markdown to Notion blocks.
//!
//! Markdown is tokenised by pulldown-cmark (CommonMark with GFM
//! strikethrough, task lists and tables); the token stream is then folded
//! into Notion blocks by a small state machine.
use crate::ir::inline::opt_view;
use crate::models::block::{
    heading_view, kind_view, nblocks_view, lemma_nblocks_view, text_view, Block, BlockType, CalloutContent, HeadingContent, SpecCallout,
    SpecHeading, SpecKind, SpecNBlock, SpecTable, SpecText, SpecToDo, TableContent, TableRowContent,
    TextBlockContent, ToDoContent,
};
use crate::models::common::{
    now_rfc3339, placeholder_user, rfc3339_utc, rich_view, Annotations, BotInfo, Icon, RichText, SpecAnnotations, SpecIcon,
    SpecRichText, SpecSpan, TextContent, User, UserType,
};
use crate::text::chars_of;
use pulldown_cmark::{Event as PEvent, Options as POptions, Parser as PParser, TagEnd as PTagEnd};
use vstd::prelude::*;

verus! {

broadcast use vstd::std_specs::vec::group_vec_axioms;

/// The kind of a Markdown element that starts or ends.
#[derive(Debug, Clone, Copy, PartialEq, Eq)]
pub enum MdTag {
    Paragraph,
    /// A heading of the given level (1 to 6).
    Heading(u8),
    BlockQuote,
    CodeBlock,
    /// A list; `true` when it is ordered.
    List(bool),
    Item,
    Table,
    TableHead,
    TableRow,
    TableCell,
    Emphasis,
    Strong,
    Strikethrough,
    /// Any other element (links, images, HTML blocks, footnotes, ...).
    Other,
}

/// A Markdown token.
#[derive(Debug)]
pub enum MdEvent {
    Start(MdTag),
    End(MdTag),
    Text(String),
    Code(String),
    Html(String),
    TaskListMarker(bool),
    Rule,
    /// Any other token (breaks, math, inline HTML, footnote references).
    Other,
}

/// The content of an [`MdEvent`].
pub enum SpecMdEvent {
    Start(MdTag),
    End(MdTag),
    Text(Seq<char>),
    Code(Seq<char>),
    Html(Seq<char>),
    TaskListMarker(bool),
    Rule,
    Other,
}

impl View for MdEvent {
    type V = SpecMdEvent;

    open spec fn view(&self) -> SpecMdEvent {
        match self {
            MdEvent::Start(t) => SpecMdEvent::Start(*t),
            MdEvent::End(t) => SpecMdEvent::End(*t),
            MdEvent::Text(s) => SpecMdEvent::Text(s@),
            MdEvent::Code(s) => SpecMdEvent::Code(s@),
            MdEvent::Html(s) => SpecMdEvent::Html(s@),
            MdEvent::TaskListMarker(b) => SpecMdEvent::TaskListMarker(*b),
            MdEvent::Rule => SpecMdEvent::Rule,
            MdEvent::Other => SpecMdEvent::Other,
        }
    }
}

/// The contents of a token sequence.
pub open spec fn events_view(s: Seq<MdEvent>) -> Seq<SpecMdEvent> {
    Seq::new(s.len(), |i: int| s[i]@)
}

/// The tokens pulldown-cmark reads from a Markdown text with strikethrough,
/// task lists and tables enabled.
pub uninterp spec fn markdown_tokens(md: Seq<char>) -> Seq<SpecMdEvent>;

/// An element kind of pulldown-cmark.
#[verifier::external_type_specification]
#[verifier::external_body]
pub struct ExTagEnd(PTagEnd);

/// A token of pulldown-cmark.
#[verifier::external_type_specification]
#[verifier::external_body]
pub struct ExEvent<'a>(PEvent<'a>);

/// Converts an element kind of pulldown-cmark, variant for variant.
#[verifier::external_body]
fn tag_of(t: PTagEnd) -> MdTag {
    match t {
        PTagEnd::Paragraph => MdTag::Paragraph, PTagEnd::Heading(l) => MdTag::Heading(l as u8),
        PTagEnd::BlockQuote(_) => MdTag::BlockQuote, PTagEnd::CodeBlock => MdTag::CodeBlock,
        PTagEnd::List(o) => MdTag::List(o), PTagEnd::Item => MdTag::Item, PTagEnd::Table => MdTag::Table,
        PTagEnd::TableHead => MdTag::TableHead, PTagEnd::TableRow => MdTag::TableRow,
        PTagEnd::TableCell => MdTag::TableCell, PTagEnd::Emphasis => MdTag::Emphasis,
        PTagEnd::Strong => MdTag::Strong, PTagEnd::Strikethrough => MdTag::Strikethrough, _ => MdTag::Other,
    }
}

/// Converts a token of pulldown-cmark, variant for variant.
#[verifier::external_body]
fn event_of(e: PEvent) -> MdEvent {
    match e {
        PEvent::Start(t) => MdEvent::Start(tag_of(t.to_end())), PEvent::End(t) => MdEvent::End(tag_of(t)),
        PEvent::Text(s) => MdEvent::Text(s.to_string()), PEvent::Code(s) => MdEvent::Code(s.to_string()),
        PEvent::Html(s) => MdEvent::Html(s.to_string()), PEvent::TaskListMarker(b) => MdEvent::TaskListMarker(b),
        PEvent::Rule => MdEvent::Rule, _ => MdEvent::Other,
    }
}

/// Tokenises Markdown with `pulldown_cmark::Parser::new_ext` (strikethrough,
/// task lists and tables enabled), each token converted variant for variant;
/// the contract names the result.
#[verifier::external_body]
pub(crate) fn markdown_events(md: &str) -> (r: Vec<MdEvent>)
    ensures
        events_view(r@) == markdown_tokens(md@),
{
    let opts = POptions::ENABLE_STRIKETHROUGH | POptions::ENABLE_TASKLISTS | POptions::ENABLE_TABLES;
    PParser::new_ext(md, opts).map(event_of).collect()
}

/// A container the parser is inside of.
#[derive(Debug, Clone, Copy, PartialEq, Eq)]
pub enum ContainerType {
    BulletedList,
    NumberedList,
    Quote,
    Callout,
}

/// The state of the Markdown-to-blocks fold.
pub struct ParserState {
    pub bold: bool,
    pub italic: bool,
    pub strikethrough: bool,
    pub code: bool,
    pub underline: bool,
    pub color: String,
    pub container_stack: Vec<ContainerType>,
    pub current_todo_checked: Option<bool>,
    pub current_callout_icon: Option<String>,
    pub current_callout_color: Option<String>,
    /// Spans read since the last block was made.
    pub current_rich_text: Vec<RichText>,
    /// Blocks made so far.
    pub blocks: Vec<Block>,
    /// Rows of the table being read.
    pub table_rows: Vec<Vec<Vec<RichText>>>,
    /// Cells of the table row being read.
    pub current_row: Vec<Vec<RichText>>,
}

/// The content of a [`ParserState`].
#[verifier::ext_equal]
pub struct SpecParse {
    pub bold: bool,
    pub italic: bool,
    pub strikethrough: bool,
    pub code: bool,
    pub underline: bool,
    pub color: Seq<char>,
    pub containers: Seq<ContainerType>,
    pub todo: Option<bool>,
    pub icon: Option<Seq<char>>,
    pub callout_color: Option<Seq<char>>,
    pub rich: Seq<SpecRichText>,
    pub blocks: Seq<SpecNBlock>,
    pub rows: Seq<Seq<Seq<SpecRichText>>>,
    pub row: Seq<Seq<SpecRichText>>,
}

/// The rich text of each cell.
pub open spec fn cells_view(s: Seq<Vec<RichText>>) -> Seq<Seq<SpecRichText>> {
    Seq::new(s.len(), |i: int| rich_view(s[i]@))
}

/// The cells of each row.
pub open spec fn table_view(s: Seq<Vec<Vec<RichText>>>) -> Seq<Seq<Seq<SpecRichText>>> {
    Seq::new(s.len(), |i: int| cells_view(s[i]@))
}

impl View for ParserState {
    type V = SpecParse;

    open spec fn view(&self) -> SpecParse {
        SpecParse {
            bold: self.bold,
            italic: self.italic,
            strikethrough: self.strikethrough,
            code: self.code,
            underline: self.underline,
            color: self.color@,
            containers: self.container_stack@,
            todo: self.current_todo_checked,
            icon: opt_view(self.current_callout_icon),
            callout_color: opt_view(self.current_callout_color),
            rich: rich_view(self.current_rich_text@),
            blocks: nblocks_view(self.blocks@),
            rows: table_view(self.table_rows@),
            row: cells_view(self.current_row@),
        }
    }
}

/// The state before any token: no style, the `default` color, outside any
/// container, nothing read.
pub open spec fn initial_parse() -> SpecParse {
    SpecParse {
        bold: false,
        italic: false,
        strikethrough: false,
        code: false,
        underline: false,
        color: "default"@,
        containers: seq![],
        todo: None,
        icon: None,
        callout_color: None,
        rich: seq![],
        blocks: seq![],
        rows: seq![],
        row: seq![],
    }
}

/// The annotations of text read in state `st`.
pub open spec fn parse_annotations(st: SpecParse) -> SpecAnnotations {
    SpecAnnotations {
        bold: st.bold,
        italic: st.italic,
        strikethrough: st.strikethrough,
        underline: st.underline,
        code: st.code,
        color: st.color,
    }
}

/// A text span with the given annotations.
pub open spec fn text_span(content: Seq<char>, ann: SpecAnnotations) -> SpecRichText {
    SpecRichText {
        span: SpecSpan::Text { content, link: None },
        annotations: Some(ann),
        plain_text: Some(content),
        href: None,
    }
}

/// A block made from Markdown: object `block`, id `temp-id`, both
/// timestamps `now`, the placeholder author, no children, not in the
/// trash, without a parent.
pub open spec fn local_block(kind: SpecKind, now: Seq<char>) -> SpecNBlock {
    SpecNBlock {
        object: "block"@,
        id: "temp-id"@,
        created_time: now,
        last_edited_time: now,
        created_by: placeholder_user(),
        last_edited_by: placeholder_user(),
        has_children: false,
        in_trash: false,
        parent: None,
        kind,
    }
}

/// Text-like content with the `default` color and no children.
pub open spec fn text_of(rich: Seq<SpecRichText>) -> SpecText {
    SpecText { rich_text: rich, color: "default"@, children: None }
}

/// Whether a list is among the open containers.
pub open spec fn in_list(cs: Seq<ContainerType>) -> bool {
    exists|i: int| 0 <= i < cs.len() && (cs[i] == ContainerType::BulletedList || cs[i] == ContainerType::NumberedList)
}

/// Whether a container of kind `c` is open.
pub open spec fn in_container(cs: Seq<ContainerType>, c: ContainerType) -> bool {
    exists|i: int| 0 <= i < cs.len() && cs[i] == c
}

/// The open containers after closing the innermost one.
pub open spec fn pop_container(cs: Seq<ContainerType>) -> Seq<ContainerType> {
    if cs.len() > 0 {
        cs.drop_last()
    } else {
        cs
    }
}

/// Whether `s` starts with `p`.
pub open spec fn starts_with(s: Seq<char>, p: Seq<char>) -> bool {
    s.len() >= p.len() && s.subrange(0, p.len() as int) == p
}

/// The first position at or after `i` where `pat` occurs in `s`.
pub open spec fn find_from(s: Seq<char>, pat: Seq<char>, i: int) -> Option<int>
    decreases s.len() + 1 - i,
{
    if i < 0 || i + pat.len() > s.len() {
        None
    } else if s.subrange(i, i + pat.len() as int) == pat {
        Some(i)
    } else {
        find_from(s, pat, i + 1)
    }
}

/// The value of attribute `attr` in an HTML tag: the text between
/// `attr="` and the next `"`.
pub open spec fn attr_value(html: Seq<char>, attr: Seq<char>) -> Option<Seq<char>> {
    let pat = attr + seq!['=', '"'];
    match find_from(html, pat, 0) {
        Some(k) => {
            let start = k + pat.len();
            match find_from(html, seq!['"'], start) {
                Some(end) => Some(html.subrange(start, end)),
                None => None,
            }
        },
        None => None,
    }
}

/// Largest number of cells in a row.
pub open spec fn widest_row(rows: Seq<Seq<Seq<SpecRichText>>>) -> nat
    decreases rows.len(),
{
    if rows.len() == 0 {
        0
    } else {
        let m = widest_row(rows.drop_last());
        if rows.last().len() > m {
            rows.last().len()
        } else {
            m
        }
    }
}

/// The state after a token starts an element.
pub open spec fn start_step(st: SpecParse, t: MdTag) -> SpecParse {
    match t {
        MdTag::Strong => SpecParse { bold: true, ..st },
        MdTag::Emphasis => SpecParse { italic: true, ..st },
        MdTag::Strikethrough => SpecParse { strikethrough: true, ..st },
        MdTag::CodeBlock => SpecParse { code: true, ..st },
        MdTag::List(ordered) => SpecParse {
            containers: st.containers.push(
                if ordered {
                    ContainerType::NumberedList
                } else {
                    ContainerType::BulletedList
                },
            ),
            ..st
        },
        MdTag::BlockQuote => SpecParse { containers: st.containers.push(ContainerType::Quote), ..st },
        MdTag::Table => SpecParse { rows: seq![], ..st },
        MdTag::TableHead | MdTag::TableRow => SpecParse { row: seq![], ..st },
        _ => st,
    }
}

/// The block closing a list item: a to-do when a task marker was read, a
/// numbered item inside a numbered list, else a bulleted item.
pub open spec fn item_kind(st: SpecParse) -> SpecKind {
    match st.todo {
        Some(c) => SpecKind::ToDo(SpecToDo { rich_text: st.rich, checked: c, color: "default"@, children: None }),
        None => if st.containers.len() > 0 && st.containers.last() == ContainerType::NumberedList {
            SpecKind::NumberedListItem(text_of(st.rich))
        } else {
            SpecKind::BulletedListItem(text_of(st.rich))
        },
    }
}

/// The heading block of a level: levels past 3 become level 3.
pub open spec fn heading_kind(level: u8, rich: Seq<SpecRichText>) -> SpecKind {
    let h = SpecHeading { rich_text: rich, color: "default"@, is_toggleable: false, children: None };
    if level == 1 {
        SpecKind::Heading1(h)
    } else if level == 2 {
        SpecKind::Heading2(h)
    } else {
        SpecKind::Heading3(h)
    }
}

/// The table block of the rows read: every row a row block, with a column
/// header.
pub open spec fn table_kind(rows: Seq<Seq<Seq<SpecRichText>>>, now: Seq<char>) -> SpecKind {
    SpecKind::Table(
        SpecTable {
            table_width: widest_row(rows) as u32,
            has_column_header: true,
            has_row_header: false,
            children: Some(Seq::new(rows.len(), |i: int| local_block(SpecKind::TableRow(rows[i]), now))),
        },
    )
}

/// The state after a token ends an element.
pub open spec fn end_step(st: SpecParse, t: MdTag, now: Seq<char>) -> SpecParse {
    match t {
        MdTag::Strong => SpecParse { bold: false, ..st },
        MdTag::Emphasis => SpecParse { italic: false, ..st },
        MdTag::Strikethrough => SpecParse { strikethrough: false, ..st },
        MdTag::CodeBlock => SpecParse { code: false, ..st },
        MdTag::List(_) => SpecParse { containers: pop_container(st.containers), ..st },
        MdTag::BlockQuote => SpecParse {
            containers: pop_container(st.containers),
            blocks: st.blocks.push(local_block(SpecKind::Quote(text_of(st.rich)), now)),
            rich: seq![],
            ..st
        },
        MdTag::Paragraph => if !in_list(st.containers) && !in_container(st.containers, ContainerType::Quote)
            && !in_container(st.containers, ContainerType::Callout) {
            SpecParse {
                blocks: st.blocks.push(local_block(SpecKind::Paragraph(text_of(st.rich)), now)),
                rich: seq![],
                ..st
            }
        } else if (in_container(st.containers, ContainerType::Quote) || in_container(
            st.containers,
            ContainerType::Callout,
        )) && st.rich.len() > 0 {
            SpecParse { rich: st.rich.push(text_span(seq!['\n'], parse_annotations(st))), ..st }
        } else {
            st
        },
        MdTag::Item => SpecParse {
            blocks: st.blocks.push(local_block(item_kind(st), now)),
            rich: seq![],
            todo: None,
            ..st
        },
        MdTag::Heading(level) => SpecParse {
            blocks: st.blocks.push(local_block(heading_kind(level, st.rich), now)),
            rich: seq![],
            ..st
        },
        MdTag::TableCell => SpecParse { row: st.row.push(st.rich), rich: seq![], ..st },
        MdTag::TableHead | MdTag::TableRow => SpecParse { rows: st.rows.push(st.row), row: seq![], ..st },
        MdTag::Table => SpecParse {
            blocks: st.blocks.push(local_block(table_kind(st.rows, now), now)),
            rows: seq![],
            ..st
        },
        MdTag::Other => st,
    }
}

/// The state after an HTML token: `<callout icon=".." color="..">` opens a
/// callout, `</callout>` closes it into a callout block.
pub open spec fn html_step(st: SpecParse, h: Seq<char>, now: Seq<char>) -> SpecParse {
    if starts_with(h, "<callout"@) {
        SpecParse {
            containers: st.containers.push(ContainerType::Callout),
            icon: match attr_value(h, "icon"@) {
                Some(i) => Some(i),
                None => st.icon,
            },
            callout_color: match attr_value(h, "color"@) {
                Some(c) => Some(c),
                None => st.callout_color,
            },
            ..st
        }
    } else if starts_with(h, "</callout>"@) {
        SpecParse {
            containers: pop_container(st.containers),
            icon: None,
            callout_color: None,
            blocks: st.blocks.push(
                local_block(
                    SpecKind::Callout(
                        SpecCallout {
                            rich_text: st.rich,
                            icon: match st.icon {
                                Some(e) => Some(SpecIcon::Emoji { emoji: e }),
                                None => None,
                            },
                            color: match st.callout_color {
                                Some(c) => c,
                                None => "default"@,
                            },
                            children: None,
                        },
                    ),
                    now,
                ),
            ),
            rich: seq![],
            ..st
        }
    } else {
        st
    }
}

/// The state after one token.
pub open spec fn parse_step(st: SpecParse, e: SpecMdEvent, now: Seq<char>) -> SpecParse {
    match e {
        SpecMdEvent::Start(t) => start_step(st, t),
        SpecMdEvent::End(t) => end_step(st, t, now),
        SpecMdEvent::Text(s) => SpecParse { rich: st.rich.push(text_span(s, parse_annotations(st))), ..st },
        SpecMdEvent::Code(s) => SpecParse {
            rich: st.rich.push(text_span(s, SpecAnnotations { code: true, ..parse_annotations(st) })),
            ..st
        },
        SpecMdEvent::Html(h) => html_step(st, h, now),
        SpecMdEvent::TaskListMarker(b) => SpecParse { todo: Some(b), ..st },
        SpecMdEvent::Rule => SpecParse { blocks: st.blocks.push(local_block(SpecKind::Divider, now)), ..st },
        SpecMdEvent::Other => st,
    }
}

/// The state after the first `n` tokens.
pub open spec fn parse_run(events: Seq<SpecMdEvent>, n: int, now: Seq<char>) -> SpecParse
    decreases n,
{
    if n <= 0 {
        initial_parse()
    } else {
        parse_step(parse_run(events, n - 1, now), events[n - 1], now)
    }
}

/// The blocks read from a token sequence.
pub open spec fn blocks_of_events(events: Seq<SpecMdEvent>, now: Seq<char>) -> Seq<SpecNBlock> {
    parse_run(events, events.len() as int, now).blocks
}

/// A match found at or after `i` lies within the text.
pub proof fn lemma_find_from(s: Seq<char>, pat: Seq<char>, i: int)
    ensures
        find_from(s, pat, i) matches Some(k) ==> i <= k && k + pat.len() <= s.len(),
    decreases s.len() + 1 - i,
{
    if !(i < 0 || i + pat.len() > s.len()) && s.subrange(i, i + pat.len() as int) != pat {
        lemma_find_from(s, pat, i + 1);
    }
}

/// The first position at or after `from` where `pat` occurs in `s`.
fn find_chars(s: &[char], pat: &[char], from: usize) -> (r: Option<usize>)
    requires
        from <= s.len(),
    ensures
        r matches Some(k) ==> find_from(s@, pat@, from as int) == Some(k as int),
        r is None ==> find_from(s@, pat@, from as int) is None,
        r matches Some(k) ==> from <= k && k + pat.len() <= s.len(),
    decreases s.len() + 1 - from,
{
    proof {
        lemma_find_from(s@, pat@, from as int);
    }
    if pat.len() > s.len() - from {
        return None;
    }
    let mut j: usize = 0;
    while j < pat.len()
        invariant
            j <= pat.len(),
            from + pat.len() <= s.len(),
            forall|q: int| 0 <= q < j ==> s@[from + q] == pat@[q],
        decreases pat.len() - j,
    {
        if s[from + j] != pat[j] {
            assert(s@.subrange(from as int, from + pat.len()) != pat@) by {
                assert(s@.subrange(from as int, from + pat.len())[j as int] != pat@[j as int]);
            }
            return find_chars(s, pat, from + 1);
        }
        j = j + 1;
    }
    assert(s@.subrange(from as int, from + pat.len()) =~= pat@);
    Some(from)
}

/// The value of attribute `attr` in an HTML tag.
fn extract_attr(html: &str, attr: &str) -> (r: Option<String>)
    ensures
        opt_view(r) == attr_value(html@, attr@),
{
    let h = chars_of(html);
    let mut pat = chars_of(attr);
    pat.push('=');
    pat.push('"');
    assert(pat@ =~= attr@ + seq!['=', '"']);
    match find_chars(h.as_slice(), pat.as_slice(), 0) {
        Some(k) => {
            let start = k + pat.len();
            let quote = vec!['"'];
            assert(quote@ =~= seq!['"']);
            match find_chars(h.as_slice(), quote.as_slice(), start) {
                Some(end) => {
                    let mut out: Vec<char> = Vec::new();
                    let mut i: usize = start;
                    while i < end
                        invariant
                            start <= i <= end,
                            end <= h@.len(),
                            out@ == h@.subrange(start as int, i as int),
                        decreases end - i,
                    {
                        out.push(h[i]);
                        assert(h@.subrange(start as int, i as int).push(h@[i as int]) =~= h@.subrange(
                            start as int,
                            i + 1,
                        ));
                        i = i + 1;
                    }
                    assert(out@ == h@.subrange(start as int, end as int));
                    let r = crate::text::string_of(&out);
                    Some(r)
                },
                None => None,
            }
        },
        None => None,
    }
}

/// Whether `s` starts with `p`.
fn starts_with_str(s: &[char], p: &str) -> (r: bool)
    ensures
        r == starts_with(s@, p@),
{
    let pv = chars_of(p);
    if pv.len() > s.len() {
        return false;
    }
    let mut i: usize = 0;
    while i < pv.len()
        invariant
            i <= pv.len(),
            pv.len() <= s.len(),
            pv@ == p@,
            forall|q: int| 0 <= q < i ==> s@[q] == pv@[q],
        decreases pv.len() - i,
    {
        if s[i] != pv[i] {
            assert(s@.subrange(0, p@.len() as int)[i as int] != p@[i as int]);
            return false;
        }
        i = i + 1;
    }
    assert(s@.subrange(0, p@.len() as int) =~= p@);
    true
}

/// A block made from Markdown.
fn create_block(block_type: BlockType, now: &String) -> (b: Block)
    ensures
        b@ == local_block(kind_view(block_type), now@),
{
    Block {
        object: String::from_str("block"),
        id: String::from_str("temp-id"),
        created_time: now.clone(),
        last_edited_time: now.clone(),
        created_by: User::placeholder(),
        last_edited_by: User::placeholder(),
        has_children: false,
        in_trash: false,
        parent: None,
        block_type,
    }
}

/// Largest number of cells in a row.
fn widest_row_of(rows: &Vec<Vec<Vec<RichText>>>) -> (n: usize)
    ensures
        n == widest_row(table_view(rows@)),
{
    let ghost v = table_view(rows@);
    let mut n: usize = 0;
    let mut i: usize = 0;
    while i < rows.len()
        invariant
            i <= rows.len(),
            v == table_view(rows@),
            n == widest_row(v.take(i as int)),
        decreases rows.len() - i,
    {
        assert(v.take(i + 1).drop_last() =~= v.take(i as int));
        assert(v.take(i + 1).last().len() == rows@[i as int]@.len());
        if rows[i].len() > n {
            n = rows[i].len();
        }
        i = i + 1;
    }
    assert(v.take(rows.len() as int) =~= v);
    n
}

impl ParserState {
    /// The state before any token.
    pub fn new() -> (st: Self)
        ensures
            st@ == initial_parse(),
    {
        let st = ParserState {
            bold: false,
            italic: false,
            strikethrough: false,
            code: false,
            underline: false,
            color: String::from_str("default"),
            container_stack: Vec::new(),
            current_todo_checked: None,
            current_callout_icon: None,
            current_callout_color: None,
            current_rich_text: Vec::new(),
            blocks: Vec::new(),
            table_rows: Vec::new(),
            current_row: Vec::new(),
        };
        assert(st@ =~= initial_parse());
        st
    }

    /// The annotations of text read now.
    pub fn to_annotations(&self) -> (a: Annotations)
        ensures
            a@ == parse_annotations(self@),
    {
        Annotations {
            bold: self.bold,
            italic: self.italic,
            strikethrough: self.strikethrough,
            underline: self.underline,
            code: self.code,
            color: self.color.clone(),
        }
    }

    /// Whether a list is open.
    pub fn is_in_list(&self) -> (r: bool)
        ensures
            r == in_list(self@.containers),
    {
        let mut i: usize = 0;
        while i < self.container_stack.len()
            invariant
                i <= self.container_stack.len(),
                forall|q: int|
                    0 <= q < i ==> !(self.container_stack@[q] == ContainerType::BulletedList
                        || self.container_stack@[q] == ContainerType::NumberedList),
            decreases self.container_stack.len() - i,
        {
            match self.container_stack[i] {
                ContainerType::BulletedList | ContainerType::NumberedList => {
                    return true;
                },
                _ => {},
            }
            i = i + 1;
        }
        false
    }

    /// Whether a container of kind `c` is open.
    fn is_in(&self, c: ContainerType) -> (r: bool)
        ensures
            r == in_container(self@.containers, c),
    {
        let mut i: usize = 0;
        while i < self.container_stack.len()
            invariant
                i <= self.container_stack.len(),
                forall|q: int| 0 <= q < i ==> self.container_stack@[q] != c,
            decreases self.container_stack.len() - i,
        {
            if same_container(self.container_stack[i], c) {
                return true;
            }
            i = i + 1;
        }
        false
    }

    /// Whether a quote is open.
    pub fn is_in_quote(&self) -> (r: bool)
        ensures
            r == in_container(self@.containers, ContainerType::Quote),
    {
        self.is_in(ContainerType::Quote)
    }

    /// Whether a callout is open.
    pub fn is_in_callout(&self) -> (r: bool)
        ensures
            r == in_container(self@.containers, ContainerType::Callout),
    {
        self.is_in(ContainerType::Callout)
    }
}

/// Whether two container kinds are the same.
fn same_container(a: ContainerType, b: ContainerType) -> (r: bool)
    ensures
        r == (a == b),
{
    match (a, b) {
        (ContainerType::BulletedList, ContainerType::BulletedList) => true,
        (ContainerType::NumberedList, ContainerType::NumberedList) => true,
        (ContainerType::Quote, ContainerType::Quote) => true,
        (ContainerType::Callout, ContainerType::Callout) => true,
        _ => false,
    }
}

/// The `default` color.
fn default_color() -> (s: String)
    ensures
        s@ == "default"@,
{
    String::from_str("default")
}

/// Text-like content with the `default` color and no children.
fn text_content(rich: Vec<RichText>) -> (c: TextBlockContent)
    ensures
        crate::models::block::text_view(c) == text_of(rich_view(rich@)),
{
    TextBlockContent { rich_text: rich, color: default_color(), children: None }
}

impl ParserState {
    /// Takes the spans read so far.
    fn take_rich(&mut self) -> (r: Vec<RichText>)
        ensures
            rich_view(r@) == old(self)@.rich,
            final(self)@ =~= (SpecParse { rich: seq![], ..old(self)@ }),
    {
        let mut r: Vec<RichText> = Vec::new();
        std::mem::swap(&mut r, &mut self.current_rich_text);
        r
    }

    /// Adds a block.
    fn add_block(&mut self, b: Block)
        ensures
            final(self)@ =~= (SpecParse { blocks: old(self)@.blocks.push(b@), ..old(self)@ }),
    {
        let ghost bv = b@;
        self.blocks.push(b);
        proof {
            lemma_nblocks_view(self.blocks@);
            lemma_nblocks_view(old(self).blocks@);
            assert(nblocks_view(self.blocks@) =~= nblocks_view(old(self).blocks@).push(bv));
        }
    }

    /// Applies the start of an element.
    fn start(&mut self, t: MdTag)
        ensures
            final(self)@ =~= start_step(old(self)@, t),
    {
        match t {
            MdTag::Strong => {
                self.bold = true;
            },
            MdTag::Emphasis => {
                self.italic = true;
            },
            MdTag::Strikethrough => {
                self.strikethrough = true;
            },
            MdTag::CodeBlock => {
                self.code = true;
            },
            MdTag::List(ordered) => {
                if ordered {
                    self.container_stack.push(ContainerType::NumberedList);
                } else {
                    self.container_stack.push(ContainerType::BulletedList);
                }
            },
            MdTag::BlockQuote => {
                self.container_stack.push(ContainerType::Quote);
            },
            MdTag::Table => {
                self.table_rows = Vec::new();
                assert(table_view(self.table_rows@) =~= Seq::<Seq<Seq<SpecRichText>>>::empty());
            },
            MdTag::TableHead | MdTag::TableRow => {
                self.current_row = Vec::new();
                assert(cells_view(self.current_row@) =~= Seq::<Seq<SpecRichText>>::empty());
            },
            _ => {},
        }
    }

    /// Closes the table being read into a table block.
    fn end_table(&mut self, now: &String)
        ensures
            final(self)@ =~= end_step(old(self)@, MdTag::Table, now@),
    {
        let mut rows: Vec<Vec<Vec<RichText>>> = Vec::new();
        std::mem::swap(&mut rows, &mut self.table_rows);
        let ghost rv = table_view(rows@);
        let width = widest_row_of(&rows);
        let mut children: Vec<Block> = Vec::new();
        let ghost n = rows@.len();
        let ghost all = rows@;
        while rows.len() > 0
            invariant
                rows@.len() + children@.len() == n,
                rows@ == all.skip(children@.len() as int),
                rv == table_view(all),
                n == all.len(),
                forall|q: int|
                    0 <= q < children@.len() ==> (#[trigger] children@[q])@ == local_block(SpecKind::TableRow(rv[q]), now@),
            decreases rows.len(),
        {
            let ghost k: int = children@.len() as int;
            let r = rows.remove(0);
            assert(r == all[k]);
            assert(rows@ =~= all.skip(k + 1 as int));
            children.push(create_block(BlockType::TableRow { table_row: TableRowContent { cells: r } }, now));
            proof {
                assert(crate::models::block::cells_rich_view(all[k]@) =~= rv[k]);
            }
        }
        proof {
            lemma_nblocks_view(children@);
            assert(nblocks_view(children@) =~= Seq::new(rv.len(), |i: int| local_block(SpecKind::TableRow(rv[i]), now@)));
        }
        let table = TableContent {
            table_width: #[verifier::truncate] (width as u32),
            has_column_header: true,
            has_row_header: false,
            children: Some(children),
        };
        self.add_block(create_block(BlockType::Table { table }, now));
        assert(table_view(self.table_rows@) =~= Seq::<Seq<Seq<SpecRichText>>>::empty());
    }

    /// Applies the end of an element.
    fn end(&mut self, t: MdTag, now: &String)
        ensures
            final(self)@ =~= end_step(old(self)@, t, now@),
    {
        match t {
            MdTag::Strong => {
                self.bold = false;
            },
            MdTag::Emphasis => {
                self.italic = false;
            },
            MdTag::Strikethrough => {
                self.strikethrough = false;
            },
            MdTag::CodeBlock => {
                self.code = false;
            },
            MdTag::List(_) => {
                let _ = self.container_stack.pop();
            },
            MdTag::BlockQuote => {
                let _ = self.container_stack.pop();
                let rich = self.take_rich();
                self.add_block(create_block(BlockType::Quote { quote: text_content(rich) }, now));
            },
            MdTag::Paragraph => {
                let in_list = self.is_in_list();
                let in_quote = self.is_in_quote();
                let in_callout = self.is_in_callout();
                if !in_list && !in_quote && !in_callout {
                    let rich = self.take_rich();
                    self.add_block(create_block(BlockType::Paragraph { paragraph: text_content(rich) }, now));
                } else if (in_quote || in_callout) && self.current_rich_text.len() > 0 {
                    let a = self.to_annotations();
                    let mut nl = String::new();
                    crate::text::push_char(&mut nl, '\n');
                    assert(nl@ =~= seq!['\n']);
                    let span = RichText::Text {
                        text: TextContent { content: nl.clone(), link: None },
                        annotations: Some(a),
                        plain_text: Some(nl),
                        href: None,
                    };
                    let ghost sv = span@;
                    self.current_rich_text.push(span);
                    assert(rich_view(self.current_rich_text@) =~= rich_view(old(self).current_rich_text@).push(sv));
                }
            },
            MdTag::Item => {
                let todo = self.current_todo_checked;
                self.current_todo_checked = None;
                let numbered = match self.container_stack.last() {
                    Some(ContainerType::NumberedList) => true,
                    _ => false,
                };
                let rich = self.take_rich();
                let bt = match todo {
                    Some(checked) => BlockType::ToDo {
                        to_do: ToDoContent { rich_text: rich, checked, color: default_color(), children: None },
                    },
                    None => if numbered {
                        BlockType::NumberedListItem { numbered_list_item: text_content(rich) }
                    } else {
                        BlockType::BulletedListItem { bulleted_list_item: text_content(rich) }
                    },
                };
                assert(kind_view(bt) == item_kind(old(self)@));
                self.add_block(create_block(bt, now));
            },
            MdTag::Heading(level) => {
                let rich = self.take_rich();
                let h = HeadingContent { rich_text: rich, color: default_color(), is_toggleable: false, children: None };
                let bt = if level == 1 {
                    BlockType::Heading1 { heading_1: h }
                } else if level == 2 {
                    BlockType::Heading2 { heading_2: h }
                } else {
                    BlockType::Heading3 { heading_3: h }
                };
                assert(kind_view(bt) == heading_kind(level, old(self)@.rich));
                self.add_block(create_block(bt, now));
            },
            MdTag::TableCell => {
                let rich = self.take_rich();
                let ghost rv = rich_view(rich@);
                self.current_row.push(rich);
                assert(cells_view(self.current_row@) =~= old(self)@.row.push(rv));
            },
            MdTag::TableHead | MdTag::TableRow => {
                let mut row: Vec<Vec<RichText>> = Vec::new();
                std::mem::swap(&mut row, &mut self.current_row);
                let ghost cv = cells_view(row@);
                self.table_rows.push(row);
                assert(table_view(self.table_rows@) =~= old(self)@.rows.push(cv));
                assert(cells_view(self.current_row@) =~= Seq::<Seq<SpecRichText>>::empty());
            },
            MdTag::Table => {
                self.end_table(now);
            },
            MdTag::Other => {},
        }
    }

    /// Applies an HTML token.
    fn html(&mut self, h: &String, now: &String)
        ensures
            final(self)@ =~= html_step(old(self)@, h@, now@),
    {
        let hv = chars_of(h.as_str());
        if starts_with_str(hv.as_slice(), "<callout") {
            self.container_stack.push(ContainerType::Callout);
            match extract_attr(h.as_str(), "icon") {
                Some(i) => {
                    self.current_callout_icon = Some(i);
                },
                None => {},
            }
            match extract_attr(h.as_str(), "color") {
                Some(c) => {
                    self.current_callout_color = Some(c);
                },
                None => {},
            }
        } else if starts_with_str(hv.as_slice(), "</callout>") {
            let _ = self.container_stack.pop();
            let mut icon: Option<String> = None;
            std::mem::swap(&mut icon, &mut self.current_callout_icon);
            let mut color: Option<String> = None;
            std::mem::swap(&mut color, &mut self.current_callout_color);
            let rich = self.take_rich();
            let c = CalloutContent {
                rich_text: rich,
                icon: match icon {
                    Some(e) => Some(Icon::Emoji { emoji: e }),
                    None => None,
                },
                color: match color {
                    Some(c) => c,
                    None => default_color(),
                },
                children: None,
            };
            self.add_block(create_block(BlockType::Callout { callout: c }, now));
        }
    }

    /// Applies one token.
    pub fn step(&mut self, e: &MdEvent, now: &String)
        ensures
            final(self)@ =~= parse_step(old(self)@, e@, now@),
    {
        match e {
            MdEvent::Start(t) => self.start(*t),
            MdEvent::End(t) => self.end(*t, now),
            MdEvent::Text(s) => {
                let a = self.to_annotations();
                let span = RichText::Text {
                    text: TextContent { content: s.clone(), link: None },
                    annotations: Some(a),
                    plain_text: Some(s.clone()),
                    href: None,
                };
                let ghost sv = span@;
                self.current_rich_text.push(span);
                assert(rich_view(self.current_rich_text@) =~= rich_view(old(self).current_rich_text@).push(sv));
            },
            MdEvent::Code(s) => {
                let mut a = self.to_annotations();
                a.code = true;
                let span = RichText::Text {
                    text: TextContent { content: s.clone(), link: None },
                    annotations: Some(a),
                    plain_text: Some(s.clone()),
                    href: None,
                };
                let ghost sv = span@;
                self.current_rich_text.push(span);
                assert(rich_view(self.current_rich_text@) =~= rich_view(old(self).current_rich_text@).push(sv));
            },
            MdEvent::Html(h) => self.html(h, now),
            MdEvent::TaskListMarker(b) => {
                self.current_todo_checked = Some(*b);
            },
            MdEvent::Rule => {
                self.add_block(create_block(BlockType::Divider, now));
            },
            MdEvent::Other => {},
        }
    }
}

/// Folds Markdown tokens into Notion blocks stamped with `now`.
pub fn parse_events(events: &[MdEvent], now: &String) -> (r: Vec<Block>)
    ensures
        nblocks_view(r@) == blocks_of_events(events_view(events@), now@),
{
    let ghost ev = events_view(events@);
    let mut st = ParserState::new();
    let mut i: usize = 0;
    while i < events.len()
        invariant
            i <= events.len(),
            ev == events_view(events@),
            st@ =~= parse_run(ev, i as int, now@),
        decreases events.len() - i,
    {
        assert(ev[i as int] == events@[i as int]@);
        st.step(&events[i], now);
        i = i + 1;
    }
    st.blocks
}

/// Parses Markdown into Notion blocks, all stamped with the time of the
/// call.
pub fn parse_markdown(md: &str) -> (r: Vec<Block>)
    ensures
        exists|now: Seq<char>|
            rfc3339_utc(now) && nblocks_view(r@) == #[trigger] blocks_of_events(markdown_tokens(md@), now),
{
    let events = markdown_events(md);
    let now = now_rfc3339();
    parse_events(events.as_slice(), &now)
}

/// A value that can be written as Notion-flavoured Markdown.
pub trait ToMarkdown {
    /// The Markdown of the value, indented by `indent` tabs.
    fn to_markdown(&self, indent: usize) -> String;
}

/// `s` wrapped between `open` and `close`.
pub open spec fn wrap(open: Seq<char>, s: Seq<char>, close: Seq<char>) -> Seq<char> {
    open + s + close
}

/// The Markdown of a text span's text under its annotations: bold,
/// italic, strikethrough and code marks, then underline and color spans,
/// each wrapping what came before.
pub open spec fn annotated_md(content: Seq<char>, a: Option<SpecAnnotations>) -> Seq<char> {
    match a {
        None => content,
        Some(a) => {
            let c1 = if a.bold { wrap("**"@, content, "**"@) } else { content };
            let c2 = if a.italic { wrap("*"@, c1, "*"@) } else { c1 };
            let c3 = if a.strikethrough { wrap("~~"@, c2, "~~"@) } else { c2 };
            let c4 = if a.code { wrap("`"@, c3, "`"@) } else { c3 };
            let c5 = if a.underline { wrap("<span underline=\"true\">"@, c4, "</span>"@) } else { c4 };
            if a.color != "default"@ {
                "<span color=\""@ + a.color + "\">"@ + c5 + "</span>"@
            } else {
                c5
            }
        },
    }
}

/// The Markdown of one rich-text span: annotated text, linked when it has
/// a link; `[Mention]` for a mention; `` $`expr`$ `` for an equation.
pub open spec fn span_md(rt: SpecRichText) -> Seq<char> {
    match rt.span {
        SpecSpan::Text { content, link } => {
            let c = annotated_md(content, rt.annotations);
            match link {
                Some(u) => "["@ + c + "]("@ + u + ")"@,
                None => c,
            }
        },
        SpecSpan::Mention { .. } => "[Mention]"@,
        SpecSpan::Equation { expression } => "$`"@ + expression + "`$"@,
    }
}

/// The Markdown of a sequence of spans.
pub open spec fn rich_md(s: Seq<SpecRichText>) -> Seq<char>
    decreases s.len(),
{
    if s.len() == 0 {
        seq![]
    } else {
        rich_md(s.drop_last()) + span_md(s.last())
    }
}

/// Appends `s` wrapped between two literals.
fn wrap_with(open: &str, s: Vec<char>, close: &str) -> (r: Vec<char>)
    ensures
        r@ == wrap(open@, s@, close@),
{
    let mut out: Vec<char> = Vec::new();
    crate::text::extend_str(&mut out, open);
    crate::text::extend_chars(&mut out, s.as_slice());
    crate::text::extend_str(&mut out, close);
    out
}

/// The Markdown of a text span's text under its annotations.
fn annotated_text(content: &String, a: &Option<Annotations>) -> (r: Vec<char>)
    ensures
        r@ == annotated_md(content@, crate::models::common::opt_annotations(*a)),
{
    let c = chars_of(content.as_str());
    match a {
        None => c,
        Some(a) => {
            let c1 = if a.bold { wrap_with("**", c, "**") } else { c };
            let c2 = if a.italic { wrap_with("*", c1, "*") } else { c1 };
            let c3 = if a.strikethrough { wrap_with("~~", c2, "~~") } else { c2 };
            let c4 = if a.code { wrap_with("`", c3, "`") } else { c3 };
            let c5 = if a.underline { wrap_with("<span underline=\"true\">", c4, "</span>") } else { c4 };
            if !crate::json::string_is(&a.color, "default") {
                let mut out: Vec<char> = Vec::new();
                crate::text::extend_str(&mut out, "<span color=\"");
                crate::text::extend_str(&mut out, a.color.as_str());
                crate::text::extend_str(&mut out, "\">");
                crate::text::extend_chars(&mut out, c5.as_slice());
                crate::text::extend_str(&mut out, "</span>");
                out
            } else {
                c5
            }
        },
    }
}

/// Appends the Markdown of one span.
fn span_markdown(rt: &RichText, out: &mut Vec<char>)
    ensures
        final(out)@ == old(out)@ + span_md(rt@),
{
    match rt {
        RichText::Text { text, annotations, .. } => {
            let c = annotated_text(&text.content, annotations);
            match &text.link {
                Some(l) => {
                    crate::text::extend_str(out, "[");
                    crate::text::extend_chars(out, c.as_slice());
                    crate::text::extend_str(out, "](");
                    crate::text::extend_str(out, l.url.as_str());
                    crate::text::extend_str(out, ")");
                },
                None => {
                    crate::text::extend_chars(out, c.as_slice());
                },
            }
        },
        RichText::Mention { .. } => {
            crate::text::extend_str(out, "[Mention]");
        },
        RichText::Equation { equation, .. } => {
            crate::text::extend_str(out, "$`");
            crate::text::extend_str(out, equation.expression.as_str());
            crate::text::extend_str(out, "`$");
        },
    }
    assert(final(out)@ =~= old(out)@ + span_md(rt@));
}

/// Appends the Markdown of a sequence of spans.
fn rich_markdown(v: &[RichText], out: &mut Vec<char>)
    ensures
        final(out)@ == old(out)@ + rich_md(rich_view(v@)),
{
    let ghost rv = rich_view(v@);
    let mut i: usize = 0;
    while i < v.len()
        invariant
            i <= v.len(),
            rv == rich_view(v@),
            out@ == old(out)@ + rich_md(rv.take(i as int)),
        decreases v.len() - i,
    {
        assert(rv.take(i + 1).drop_last() =~= rv.take(i as int));
        assert(rv.take(i + 1).last() == v@[i as int]@);
        span_markdown(&v[i], out);
        assert(out@ =~= old(out)@ + rich_md(rv.take(i + 1)));
        i = i + 1;
    }
    assert(rv.take(v.len() as int) =~= rv);
}

impl ToMarkdown for Vec<RichText> {
    /// The Markdown of the spans, one after another.
    fn to_markdown(&self, indent: usize) -> (r: String)
        ensures
            r@ == rich_md(rich_view(self@)),
    {
        let mut out: Vec<char> = Vec::new();
        rich_markdown(self.as_slice(), &mut out);
        crate::text::string_of(&out)
    }
}

/// `n` tabs.
pub open spec fn tabs_md(n: nat) -> Seq<char> {
    Seq::new(n, |i: int| '\t')
}

/// A `{color="..."}` suffix unless the color is `default`.
pub open spec fn color_suffix(color: Seq<char>) -> Seq<char> {
    if color != "default"@ {
        " {color=\""@ + color + "\"}"@
    } else {
        seq![]
    }
}

/// The attribute suffix of a heading: its color unless `default`, and
/// `toggle="true"` when it toggles.
pub open spec fn heading_suffix(color: Seq<char>, toggle: bool) -> Seq<char> {
    let c = color != "default"@;
    if c && toggle {
        " {color=\""@ + color + "\" toggle=\"true\"}"@
    } else if c {
        " {color=\""@ + color + "\"}"@
    } else if toggle {
        " {toggle=\"true\"}"@
    } else {
        seq![]
    }
}

/// The icon text of a callout: its emoji, else the information sign.
pub open spec fn icon_text(icon: Option<SpecIcon>) -> Seq<char> {
    match icon {
        Some(SpecIcon::Emoji { emoji }) => emoji,
        _ => "\u{2139}\u{fe0f}"@,
    }
}

/// The Markdown of a block at `indent` tabs: a marker for the block type,
/// its rich text, attribute suffixes, and its children one level deeper,
/// each on its own line; a callout becomes a `<callout>` element; other
/// types become an HTML comment naming the type.
pub open spec fn block_md(b: SpecNBlock, indent: nat) -> Seq<char>
    decreases b, 2nat, 0int,
{
    let tabs = tabs_md(indent);
    match b.kind {
        SpecKind::Paragraph(t) => text_block_md(t, seq![], indent),
        SpecKind::Heading1(h) => heading_block_md(h, "# "@, indent),
        SpecKind::Heading2(h) => heading_block_md(h, "## "@, indent),
        SpecKind::Heading3(h) => heading_block_md(h, "### "@, indent),
        SpecKind::BulletedListItem(t) => text_block_md(t, "- "@, indent),
        SpecKind::NumberedListItem(t) => text_block_md(t, "1. "@, indent),
        SpecKind::ToDo(t) => todo_block_md(t, indent),
        SpecKind::Divider => tabs + "---"@,
        SpecKind::Quote(t) => text_block_md(t, "> "@, indent),
        SpecKind::Callout(c) => tabs + "<callout icon=\""@ + icon_text(c.icon) + "\" color=\""@ + c.color + "\">\n"@ + tabs
            + "\t"@ + rich_md(c.rich_text) + "\n"@ + callout_children_md(c.children, indent) + tabs + "</callout>"@,
        _ => tabs + "<!-- Unsupported block type: "@ + crate::models::block::kind_name(b.kind) + " -->"@,
    }
}

/// A text block at `indent` tabs: the marker, its rich text, its color
/// suffix and its children.
pub open spec fn text_block_md(t: SpecText, marker: Seq<char>, indent: nat) -> Seq<char>
    decreases t, 1nat, 1int,
{
    tabs_md(indent) + marker + rich_md(t.rich_text) + color_suffix(t.color) + children_md(t.children, indent)
}

/// A to-do at `indent` tabs: a task-list marker checked or not, its rich
/// text, its color suffix and its children.
pub open spec fn todo_block_md(t: SpecToDo, indent: nat) -> Seq<char>
    decreases t, 1nat, 1int,
{
    tabs_md(indent) + "- ["@ + (if t.checked { "x"@ } else { " "@ }) + "] "@ + rich_md(t.rich_text) + color_suffix(
        t.color,
    ) + children_md(t.children, indent)
}

/// A to-do is written with `- [x] ` after its indentation exactly when it
/// is checked, and with `- [ ] ` when it is not, so the checked state can be
/// read back from the Markdown.
pub proof fn lemma_todo_marker(b: SpecNBlock, indent: nat)
    requires
        b.kind is ToDo,
    ensures
        block_md(b, indent).len() >= indent + 6,
        block_md(b, indent).subrange(indent as int, indent + 6int) == (if b.kind->ToDo_0.checked {
            seq!['-', ' ', '[', 'x', ']', ' ']
        } else {
            seq!['-', ' ', '[', ' ', ']', ' ']
        }),
        block_md(b, indent)[indent + 3int] == 'x' <==> b.kind->ToDo_0.checked,
{
    let t = b.kind->ToDo_0;
    let m = block_md(b, indent);
    let want = if t.checked { seq!['-', ' ', '[', 'x', ']', ' '] } else { seq!['-', ' ', '[', ' ', ']', ' '] };
    reveal_strlit("- [");
    reveal_strlit("x");
    reveal_strlit(" ");
    reveal_strlit("] ");
    assert(m == todo_block_md(t, indent));
    assert(m.subrange(indent as int, indent + 6int) =~= want);
    assert(m[indent + 3int] == want[3]);
}

/// A task item read from Markdown keeps its checked state through writing
/// it back: the tokens of `- [x] text` (or `- [ ] text`) give one to-do,
/// checked exactly when the marker was, written with `- [x] ` exactly then.
pub proof fn lemma_task_parse_render(checked: bool, text: Seq<char>, now: Seq<char>)
    ensures
        ({
            let events = seq![
                SpecMdEvent::Start(MdTag::List(false)),
                SpecMdEvent::Start(MdTag::Item),
                SpecMdEvent::TaskListMarker(checked),
                SpecMdEvent::Text(text),
                SpecMdEvent::End(MdTag::Item),
                SpecMdEvent::End(MdTag::List(false)),
            ];
            let bs = blocks_of_events(events, now);
            &&& bs.len() == 1
            &&& bs[0].kind matches SpecKind::ToDo(t) && t.checked == checked
            &&& (block_md(bs[0], 0)[3] == 'x' <==> checked)
        }),
{
    let events = seq![
        SpecMdEvent::Start(MdTag::List(false)),
        SpecMdEvent::Start(MdTag::Item),
        SpecMdEvent::TaskListMarker(checked),
        SpecMdEvent::Text(text),
        SpecMdEvent::End(MdTag::Item),
        SpecMdEvent::End(MdTag::List(false)),
    ];
    assert(parse_run(events, 0, now) == initial_parse());
    let st1 = parse_run(events, 1, now);
    let st2 = parse_run(events, 2, now);
    let st3 = parse_run(events, 3, now);
    let st4 = parse_run(events, 4, now);
    let st5 = parse_run(events, 5, now);
    let st6 = parse_run(events, 6, now);
    assert(st1.blocks.len() == 0);
    assert(st2.blocks.len() == 0);
    assert(st3.blocks.len() == 0 && st3.todo == Some(checked));
    assert(st4.blocks.len() == 0 && st4.todo == Some(checked));
    assert(st5.blocks =~= seq![local_block(item_kind(st4), now)]);
    assert(st6.blocks == st5.blocks);
    let b = st6.blocks[0];
    lemma_todo_marker(b, 0);
}

/// A heading of level 1 to 3 read from Markdown is written back with as
/// many `#` marks: the tokens of `#`, `##` or `###` and a text give one
/// block, whose Markdown starts with that many `#` and a space.
pub proof fn lemma_heading_parse_render(level: u8, text: Seq<char>, now: Seq<char>)
    requires
        1 <= level <= 3,
    ensures
        ({
            let events = seq![
                SpecMdEvent::Start(MdTag::Heading(level)),
                SpecMdEvent::Text(text),
                SpecMdEvent::End(MdTag::Heading(level)),
            ];
            let bs = blocks_of_events(events, now);
            &&& bs.len() == 1
            &&& starts_with(block_md(bs[0], 0), Seq::new(level as nat, |i: int| '#') + seq![' '])
            &&& block_md(bs[0], 0) == Seq::new(level as nat, |i: int| '#') + seq![' '] + text
        }),
{
    let events = seq![
        SpecMdEvent::Start(MdTag::Heading(level)),
        SpecMdEvent::Text(text),
        SpecMdEvent::End(MdTag::Heading(level)),
    ];
    let st1 = parse_run(events, 1, now);
    let st2 = parse_run(events, 2, now);
    let st3 = parse_run(events, 3, now);
    assert(parse_run(events, 0, now) == initial_parse());
    assert(st1 == initial_parse());
    assert(st2.blocks.len() == 0);
    assert(st3.blocks =~= seq![local_block(heading_kind(level, st2.rich), now)]);
    let b = st3.blocks[0];
    let h = SpecHeading { rich_text: st2.rich, color: "default"@, is_toggleable: false, children: None };
    let marker = Seq::new(level as nat, |i: int| '#') + seq![' '];
    let m = block_md(b, 0);
    reveal_strlit("# ");
    reveal_strlit("## ");
    reveal_strlit("### ");
    let written = if level == 1 { "# "@ } else if level == 2 { "## "@ } else { "### "@ };
    assert(written =~= marker);
    assert(m == heading_block_md(h, written, 0));
    assert(tabs_md(0) =~= Seq::<char>::empty());
    assert(m.subrange(0, marker.len() as int) =~= marker);
    let span = text_span(text, parse_annotations(initial_parse()));
    assert(st2.rich =~= seq![span]);
    assert(st2.rich.drop_last() =~= Seq::<SpecRichText>::empty());
    assert(rich_md(st2.rich.drop_last()) == Seq::<char>::empty());
    assert(span_md(span) == text) by {
        reveal_strlit("default");
    }
    assert(rich_md(st2.rich) =~= text);
    assert(heading_suffix("default"@, false) == Seq::<char>::empty()) by {
        reveal_strlit("default");
    }
    assert(m =~= marker + text);
}

/// A heading at `indent` tabs: the marker, its rich text, its attribute
/// suffix and its children.
pub open spec fn heading_block_md(h: SpecHeading, marker: Seq<char>, indent: nat) -> Seq<char>
    decreases h, 1nat, 1int,
{
    tabs_md(indent) + marker + rich_md(h.rich_text) + heading_suffix(h.color, h.is_toggleable) + children_md(
        h.children,
        indent,
    )
}

/// The children of a text block: a newline, then each child one level
/// deeper, each followed by a newline; nothing without children.
pub open spec fn children_md(ch: Option<Seq<SpecNBlock>>, indent: nat) -> Seq<char>
    decreases ch, 1nat, 0int,
{
    match ch {
        Some(c) => seq!['\n'] + blocks_md(c, indent + 1, c.len() as int),
        None => seq![],
    }
}

/// The children of a callout: each child one level deeper, each followed
/// by a newline.
pub open spec fn callout_children_md(ch: Option<Seq<SpecNBlock>>, indent: nat) -> Seq<char>
    decreases ch, 1nat, 0int,
{
    match ch {
        Some(c) => blocks_md(c, indent + 1, c.len() as int),
        None => seq![],
    }
}

/// The first `n` blocks, each followed by a newline.
pub open spec fn blocks_md(bs: Seq<SpecNBlock>, indent: nat, n: int) -> Seq<char>
    decreases bs, 0nat, n,
{
    if n <= 0 || n > bs.len() {
        seq![]
    } else {
        blocks_md(bs, indent, n - 1) + block_md(bs[n - 1], indent) + seq!['\n']
    }
}

/// How deeply blocks nest below a block.
pub open spec fn nesting(b: SpecNBlock) -> nat
    decreases b, 2nat, 0int,
{
    match b.kind {
        SpecKind::Paragraph(t) => kids_nesting(t.children),
        SpecKind::Heading1(h) => kids_nesting(h.children),
        SpecKind::Heading2(h) => kids_nesting(h.children),
        SpecKind::Heading3(h) => kids_nesting(h.children),
        SpecKind::BulletedListItem(t) => kids_nesting(t.children),
        SpecKind::NumberedListItem(t) => kids_nesting(t.children),
        SpecKind::ToDo(t) => kids_nesting(t.children),
        SpecKind::Quote(t) => kids_nesting(t.children),
        SpecKind::Callout(c) => kids_nesting(c.children),
        _ => 0,
    }
}

/// How deeply blocks nest below optional children.
pub open spec fn kids_nesting(ch: Option<Seq<SpecNBlock>>) -> nat
    decreases ch, 1nat, 0int,
{
    match ch {
        Some(c) => 1 + seq_nesting(c, c.len() as int),
        None => 0,
    }
}

/// The deepest nesting below the first `n` blocks.
pub open spec fn seq_nesting(bs: Seq<SpecNBlock>, n: int) -> nat
    decreases bs, 0nat, n,
{
    if n <= 0 || n > bs.len() {
        0
    } else {
        let a = seq_nesting(bs, n - 1);
        let b = nesting(bs[n - 1]);
        if a > b {
            a
        } else {
            b
        }
    }
}

/// A prefix nests no deeper than the whole.
proof fn lemma_seq_nesting_mono(bs: Seq<SpecNBlock>, n: int, m: int)
    requires
        0 <= n <= m <= bs.len(),
    ensures
        seq_nesting(bs, n) <= seq_nesting(bs, m),
        n > 0 ==> nesting(bs[n - 1]) <= seq_nesting(bs, m),
    decreases m - n,
{
    if m > n {
        lemma_seq_nesting_mono(bs, n, m - 1);
    }
}

/// Appends `n` tabs.
fn push_tabs(out: &mut Vec<char>, n: usize)
    ensures
        final(out)@ == old(out)@ + tabs_md(n as nat),
{
    let mut i: usize = 0;
    while i < n
        invariant
            i <= n,
            out@ == old(out)@ + tabs_md(i as nat),
        decreases n - i,
    {
        out.push('\t');
        assert(out@ =~= old(out)@ + tabs_md((i + 1) as nat));
        i = i + 1;
    }
}

/// Appends a `{color="..."}` suffix unless the color is `default`.
fn push_color_suffix(out: &mut Vec<char>, color: &String)
    ensures
        final(out)@ == old(out)@ + color_suffix(color@),
{
    if !crate::json::string_is(color, "default") {
        crate::text::extend_str(out, " {color=\"");
        crate::text::extend_str(out, color.as_str());
        crate::text::extend_str(out, "\"}");
        assert(final(out)@ =~= old(out)@ + color_suffix(color@));
    } else {
        assert(final(out)@ =~= old(out)@ + color_suffix(color@));
    }
}

/// Appends the attribute suffix of a heading.
fn push_heading_suffix(out: &mut Vec<char>, color: &String, toggle: bool)
    ensures
        final(out)@ == old(out)@ + heading_suffix(color@, toggle),
{
    let c = !crate::json::string_is(color, "default");
    if c && toggle {
        crate::text::extend_str(out, " {color=\"");
        crate::text::extend_str(out, color.as_str());
        crate::text::extend_str(out, "\" toggle=\"true\"}");
    } else if c {
        crate::text::extend_str(out, " {color=\"");
        crate::text::extend_str(out, color.as_str());
        crate::text::extend_str(out, "\"}");
    } else if toggle {
        crate::text::extend_str(out, " {toggle=\"true\"}");
    }
    assert(final(out)@ =~= old(out)@ + heading_suffix(color@, toggle));
}

/// Appends the Markdown of blocks, each followed by a newline.
#[verifier::loop_isolation(false)]
fn children_markdown(children: &Vec<Block>, indent: usize, out: &mut Vec<char>)
    ensures
        indent + seq_nesting(nblocks_view(children@), children@.len() as int) < usize::MAX ==> final(out)@ == old(out)@
            + blocks_md(nblocks_view(children@), indent as nat, children@.len() as int),
    decreases children, 1nat,
{
    let ghost cv = nblocks_view(children@);
    proof {
        lemma_nblocks_view(children@);
    }
    let mut i: usize = 0;
    while i < children.len()
        invariant
            i <= children.len(),
            cv == nblocks_view(children@),
            cv.len() == children.len(),
            forall|q: int| 0 <= q < children.len() ==> #[trigger] cv[q] == children@[q]@,
            indent + seq_nesting(cv, cv.len() as int) < usize::MAX ==> out@ == old(out)@ + blocks_md(
                cv,
                indent as nat,
                i as int,
            ),
        decreases children.len() - i,
    {
        proof {
            assert(decreases_to!(*children => children[i as int]));
            lemma_seq_nesting_mono(cv, i + 1, cv.len() as int);
        }
        block_markdown(&children[i], indent, out);
        out.push('\n');
        i = i + 1;
    }
}

/// The view of optional children.
pub open spec fn opt_nblocks(ch: Option<Vec<Block>>) -> Option<Seq<SpecNBlock>> {
    match ch {
        Some(v) => Some(nblocks_view(v@)),
        None => None,
    }
}

/// Appends the children of a text block: a newline, then each child one
/// level deeper, each followed by a newline; nothing without children.
fn text_children_markdown(ch: &Option<Vec<Block>>, indent: usize, out: &mut Vec<char>)
    ensures
        indent + kids_nesting(opt_nblocks(*ch)) < usize::MAX ==> final(out)@ == old(out)@ + children_md(
            opt_nblocks(*ch),
            indent as nat,
        ),
    decreases ch, 0nat,
{
    match ch {
        Some(c) => {
            proof {
                assert(decreases_to!(*ch => *c));
                lemma_nblocks_view(c@);
            }
            out.push('\n');
            if indent < usize::MAX {
                children_markdown(c, indent + 1, out);
            }
        },
        None => {
            assert(out@ =~= old(out)@ + children_md(opt_nblocks(*ch), indent as nat));
        },
    }
}

/// Appends a text block: tabs, a marker, its rich text, its color suffix
/// and its children.
fn text_block_markdown(t: &TextBlockContent, marker: &str, indent: usize, out: &mut Vec<char>)
    ensures
        indent + kids_nesting(text_view(*t).children) < usize::MAX ==> final(out)@ == old(out)@ + text_block_md(
            text_view(*t),
            marker@,
            indent as nat,
        ),
    decreases t, 0nat,
{
    push_tabs(out, indent);
    crate::text::extend_str(out, marker);
    rich_markdown(t.rich_text.as_slice(), out);
    push_color_suffix(out, &t.color);
    proof {
        assert(decreases_to!(*t => t.children));
        assert(opt_nblocks(t.children) == text_view(*t).children);
    }
    text_children_markdown(&t.children, indent, out);
    assert(indent + kids_nesting(text_view(*t).children) < usize::MAX ==> final(out)@ =~= old(out)@ + text_block_md(
        text_view(*t),
        marker@,
        indent as nat,
    ));
}

/// Appends a to-do: tabs, a task-list marker, its rich text, its color
/// suffix and its children.
fn todo_markdown(t: &ToDoContent, indent: usize, out: &mut Vec<char>)
    ensures
        indent + kids_nesting(opt_nblocks(t.children)) < usize::MAX ==> final(out)@ == old(out)@ + todo_block_md(
            crate::models::block::todo_view(*t),
            indent as nat,
        ),
    decreases t, 0nat,
{
    push_tabs(out, indent);
    crate::text::extend_str(out, "- [");
    if t.checked {
        crate::text::extend_str(out, "x");
    } else {
        crate::text::extend_str(out, " ");
    }
    crate::text::extend_str(out, "] ");
    rich_markdown(t.rich_text.as_slice(), out);
    push_color_suffix(out, &t.color);
    proof {
        assert(decreases_to!(*t => t.children));
    }
    text_children_markdown(&t.children, indent, out);
    assert(indent + kids_nesting(opt_nblocks(t.children)) < usize::MAX ==> final(out)@ =~= old(out)@ + todo_block_md(
        crate::models::block::todo_view(*t),
        indent as nat,
    ));
}

/// Appends a heading: tabs, a marker, its rich text, its attribute suffix
/// and its children.
fn heading_block_markdown(t: &HeadingContent, marker: &str, indent: usize, out: &mut Vec<char>)
    ensures
        indent + kids_nesting(heading_view(*t).children) < usize::MAX ==> final(out)@ == old(out)@ + heading_block_md(
            heading_view(*t),
            marker@,
            indent as nat,
        ),
    decreases t, 0nat,
{
    push_tabs(out, indent);
    crate::text::extend_str(out, marker);
    rich_markdown(t.rich_text.as_slice(), out);
    push_heading_suffix(out, &t.color, t.is_toggleable);
    proof {
        assert(decreases_to!(*t => t.children));
        assert(opt_nblocks(t.children) == heading_view(*t).children);
    }
    text_children_markdown(&t.children, indent, out);
    assert(indent + kids_nesting(heading_view(*t).children) < usize::MAX ==> final(out)@ =~= old(out)@ + heading_block_md(
        heading_view(*t),
        marker@,
        indent as nat,
    ));
}

/// Appends a callout element: its icon and color, its rich text indented
/// one level, its children one level deeper and the closing tag.
fn callout_markdown(c: &CalloutContent, indent: usize, out: &mut Vec<char>)
    ensures
        indent + kids_nesting(opt_nblocks(c.children)) < usize::MAX ==> final(out)@ == old(out)@ + tabs_md(
            indent as nat,
        ) + "<callout icon=\""@ + icon_text(crate::models::common::opt_icon(c.icon)) + "\" color=\""@ + c.color@ + "\">\n"@ + tabs_md(
            indent as nat,
        ) + "\t"@ + rich_md(rich_view(c.rich_text@)) + "\n"@ + callout_children_md(opt_nblocks(c.children), indent as nat)
            + tabs_md(indent as nat) + "</callout>"@,
    decreases c, 0nat,
{
    let ghost o0 = out@;
    push_tabs(out, indent);
    crate::text::extend_str(out, "<callout icon=\"");
    match &c.icon {
        Some(Icon::Emoji { emoji }) => crate::text::extend_str(out, emoji.as_str()),
        _ => crate::text::extend_str(out, "\u{2139}\u{fe0f}"),
    }
    crate::text::extend_str(out, "\" color=\"");
    crate::text::extend_str(out, c.color.as_str());
    crate::text::extend_str(out, "\">\n");
    push_tabs(out, indent);
    crate::text::extend_str(out, "\t");
    rich_markdown(c.rich_text.as_slice(), out);
    crate::text::extend_str(out, "\n");
    let ghost mid = out@;
    match &c.children {
        Some(k) => {
            proof {
                assert(decreases_to!(*c => c.children));
                assert(decreases_to!(c.children => *k));
                lemma_nblocks_view(k@);
            }
            if indent < usize::MAX {
                children_markdown(k, indent + 1, out);
            }
        },
        None => {},
    }
    let ghost mid2 = out@;
    push_tabs(out, indent);
    crate::text::extend_str(out, "</callout>");
    assert(indent + kids_nesting(opt_nblocks(c.children)) < usize::MAX ==> mid2 =~= mid + callout_children_md(
        opt_nblocks(c.children),
        indent as nat,
    ));
    assert(indent + kids_nesting(opt_nblocks(c.children)) < usize::MAX ==> out@ =~= o0 + tabs_md(indent as nat)
        + "<callout icon=\""@ + icon_text(crate::models::common::opt_icon(c.icon)) + "\" color=\""@ + c.color@ + "\">\n"@ + tabs_md(
        indent as nat,
    ) + "\t"@ + rich_md(rich_view(c.rich_text@)) + "\n"@ + callout_children_md(opt_nblocks(c.children), indent as nat)
        + tabs_md(indent as nat) + "</callout>"@);
}

/// Whether the block's Markdown is a marker, its rich text and its
/// children.
pub open spec fn is_text_kind(k: SpecKind) -> bool {
    ||| k is Paragraph
    ||| k is BulletedListItem
    ||| k is NumberedListItem
    ||| k is Quote
    ||| k is Heading1
    ||| k is Heading2
    ||| k is Heading3
}

/// Appends the Markdown of a block at `indent` tabs.
fn block_markdown(b: &Block, indent: usize, out: &mut Vec<char>)
    ensures
        indent + nesting(b@) < usize::MAX ==> final(out)@ == old(out)@ + block_md(b@, indent as nat),
    decreases b, 2nat,
{
    let text = match &b.block_type {
        BlockType::Paragraph { .. } | BlockType::BulletedListItem { .. } | BlockType::NumberedListItem { .. }
        | BlockType::Quote { .. } | BlockType::Heading1 { .. } | BlockType::Heading2 { .. } | BlockType::Heading3 {
            ..
        } => true,
        _ => false,
    };
    if text {
        text_kind_markdown(b, indent, out);
    } else {
        other_kind_markdown(b, indent, out);
    }
}

/// Appends the Markdown of a paragraph, list item, quote or heading.
#[verifier::rlimit(40)]
fn text_kind_markdown(b: &Block, indent: usize, out: &mut Vec<char>)
    requires
        is_text_kind(b@.kind),
    ensures
        indent + nesting(b@) < usize::MAX ==> final(out)@ == old(out)@ + block_md(b@, indent as nat),
    decreases b, 1nat,
{
    let ghost o0 = out@;
    proof {
        assert(decreases_to!(*b => b.block_type));
    }
    match &b.block_type {
        BlockType::Paragraph { paragraph: t } => {
            proof {
                assert(decreases_to!(b.block_type => *t));
                reveal_strlit("");
                assert(""@ =~= Seq::<char>::empty());
            }
            text_block_markdown(t, "", indent, out);
            assert(indent + nesting(b@) < usize::MAX ==> out@ =~= o0 + block_md(b@, indent as nat));
        },
        BlockType::BulletedListItem { bulleted_list_item: t } => {
            proof {
                assert(decreases_to!(b.block_type => *t));
            }
            text_block_markdown(t, "- ", indent, out);
            assert(indent + nesting(b@) < usize::MAX ==> out@ =~= o0 + block_md(b@, indent as nat));
        },
        BlockType::NumberedListItem { numbered_list_item: t } => {
            proof {
                assert(decreases_to!(b.block_type => *t));
            }
            text_block_markdown(t, "1. ", indent, out);
            assert(indent + nesting(b@) < usize::MAX ==> out@ =~= o0 + block_md(b@, indent as nat));
        },
        BlockType::Quote { quote: t } => {
            proof {
                assert(decreases_to!(b.block_type => *t));
            }
            text_block_markdown(t, "> ", indent, out);
            assert(indent + nesting(b@) < usize::MAX ==> out@ =~= o0 + block_md(b@, indent as nat));
        },
        BlockType::Heading1 { heading_1: t } => {
            proof {
                assert(decreases_to!(b.block_type => *t));
            }
            heading_block_markdown(t, "# ", indent, out);
            assert(indent + nesting(b@) < usize::MAX ==> out@ =~= o0 + block_md(b@, indent as nat));
        },
        BlockType::Heading2 { heading_2: t } => {
            proof {
                assert(decreases_to!(b.block_type => *t));
            }
            heading_block_markdown(t, "## ", indent, out);
            assert(indent + nesting(b@) < usize::MAX ==> out@ =~= o0 + block_md(b@, indent as nat));
        },
        BlockType::Heading3 { heading_3: t } => {
            proof {
                assert(decreases_to!(b.block_type => *t));
            }
            heading_block_markdown(t, "### ", indent, out);
            assert(indent + nesting(b@) < usize::MAX ==> out@ =~= o0 + block_md(b@, indent as nat));
        },
        _ => {},
    }
}

/// Appends the Markdown of a to-do, divider, callout or unsupported block.
#[verifier::rlimit(40)]
fn other_kind_markdown(b: &Block, indent: usize, out: &mut Vec<char>)
    requires
        !is_text_kind(b@.kind),
    ensures
        indent + nesting(b@) < usize::MAX ==> final(out)@ == old(out)@ + block_md(b@, indent as nat),
    decreases b, 1nat,
{
    let ghost o0 = out@;
    proof {
        assert(decreases_to!(*b => b.block_type));
    }
    match &b.block_type {
        BlockType::ToDo { to_do: t } => {
            proof {
                assert(decreases_to!(b.block_type => *t));
            }
            todo_markdown(t, indent, out);
            assert(indent + nesting(b@) < usize::MAX ==> out@ =~= o0 + block_md(b@, indent as nat));
        },
        BlockType::Divider => {
            push_tabs(out, indent);
            crate::text::extend_str(out, "---");
        },
        BlockType::Callout { callout: c } => {
            proof {
                assert(decreases_to!(b.block_type => *c));
            }
            callout_markdown(c, indent, out);
            assert(indent + nesting(b@) < usize::MAX ==> out@ =~= o0 + block_md(b@, indent as nat));
        },
        _ => {
            push_tabs(out, indent);
            crate::text::extend_str(out, "<!-- Unsupported block type: ");
            let t = b.type_str();
            crate::text::extend_str(out, t.as_str());
            crate::text::extend_str(out, " -->");
            assert(indent + nesting(b@) < usize::MAX ==> out@ =~= o0 + block_md(b@, indent as nat));
        },
    }
}

impl ToMarkdown for Block {
    /// The Markdown of the block and its children.
    fn to_markdown(&self, indent: usize) -> (r: String)
        ensures
            indent + nesting(self@) < usize::MAX ==> r@ == block_md(self@, indent as nat),
    {
        let mut out: Vec<char> = Vec::new();
        block_markdown(self, indent, &mut out);
        crate::text::string_of(&out)
    }
}

} // verus!
