//! Markdown conversion of the universal document model.
//!
//! Blocks are rendered in CommonMark/GFM syntax: headings, paragraphs with
//! bold/italic/code/link runs, block quotes, bullet lists and GFM pipe
//! tables. Other block kinds are rendered as an HTML comment.
use crate::converter::{ConverterError, FromPlatform, ToPlatform};
use crate::ir::blocks::{blocks_view, items_view, lemma_blocks_view, lemma_items_view, opt_cells, SpecBlock, SpecItem, UniversalBlock};
use crate::ir::UniversalDocument;
use crate::api::markdown::{
    blocks_of_events, heading_kind, initial_parse, local_block, markdown_tokens, parse_markdown, parse_run, MdTag,
    SpecMdEvent,
};
use crate::ir::blocks::{lemma_items_view_single, lemma_tasks_view_single, lemma_blocks_view_single, ListItem, SpecTask, TaskItem};
use crate::ir::inline::{plain_style, SpecStyle, TextStyle};
use crate::ir::metadata::DocumentMetadata;
use crate::ir::style::StyleSheet;
use crate::ir::Platform;
use crate::models::block_json::block_record_json;
use crate::models::common::rfc3339_utc;
use crate::models::block::{lemma_nblocks_view, nblocks_view, Block, BlockType, SpecKind, SpecNBlock};
use crate::models::common::{rich_view, Icon, RichText, SpecIcon, SpecRichText, SpecSpan};
use crate::ir::inline::{inlines_view, opt_view, InlineElement, SpecInline};
use crate::ir::table::{cells_view, copy_cells, rows_view, CellAlignment, SpecCell, SpecRow, TableCell, TableRow, TableRowType};
use crate::text::{chars_of, extend_chars, extend_str, is_space, string_of, trim_end, trim_end_chars, trim_start, trim_start_chars};
use vstd::prelude::*;

verus! {

broadcast use vstd::std_specs::vec::group_vec_axioms;

/// `n` copies of `c`.
pub open spec fn repeat(c: char, n: nat) -> Seq<char> {
    Seq::new(n, |i: int| c)
}

/// Markdown of one inline element: a text run wrapped in `**`, `*` and
/// backticks for bold, italic and code, as `[text](url)` when linked; other
/// elements render as nothing.
pub open spec fn inline_md(e: SpecInline) -> Seq<char> {
    match e {
        SpecInline::TextRun { content, style } => match style {
            None => content,
            Some(s) => {
                let b = s.bold == Some(true);
                let it = s.italic == Some(true);
                let cd = s.code == Some(true);
                let body = match s.link {
                    Some(l) => seq!['['] + content + seq![']', '('] + l + seq![')'],
                    None => content,
                };
                open_marks(b, it, cd) + body + close_marks(b, it, cd)
            },
        },
        _ => seq![],
    }
}

/// A linked text run keeps its link: whatever else its style sets, its
/// Markdown holds `[content](url)`.
pub proof fn lemma_linked_run_keeps_target(content: Seq<char>, s: SpecStyle, url: Seq<char>)
    requires
        s.link == Some(url),
    ensures
        exists|pre: Seq<char>, post: Seq<char>|
            inline_md(SpecInline::TextRun { content, style: Some(s) }) == pre + (seq!['['] + content + seq![']', '(']
                + url + seq![')']) + post,
{
    let b = s.bold == Some(true);
    let it = s.italic == Some(true);
    let cd = s.code == Some(true);
    let link = seq!['['] + content + seq![']', '('] + url + seq![')'];
    assert(inline_md(SpecInline::TextRun { content, style: Some(s) }) == open_marks(b, it, cd) + link + close_marks(
        b,
        it,
        cd,
    ));
}

/// Opening marks of a run: `**` for bold, `*` for italic, a backtick for code.
pub open spec fn open_marks(b: bool, it: bool, cd: bool) -> Seq<char> {
    (if b { seq!['*', '*'] } else { seq![] }) + (if it { seq!['*'] } else { seq![] }) + (if cd {
        seq!['`']
    } else {
        seq![]
    })
}

/// Closing marks of a run, in the reverse order of the opening ones.
pub open spec fn close_marks(b: bool, it: bool, cd: bool) -> Seq<char> {
    (if cd { seq!['`'] } else { seq![] }) + (if it { seq!['*'] } else { seq![] }) + (if b {
        seq!['*', '*']
    } else {
        seq![]
    })
}

/// Markdown of a sequence of inline elements.
pub open spec fn inlines_md(s: Seq<SpecInline>) -> Seq<char>
    decreases s.len(),
{
    if s.len() == 0 {
        seq![]
    } else {
        inlines_md(s.drop_last()) + inline_md(s.last())
    }
}

/// A table cell's text made safe for a pipe table: `|` is escaped as `\|`,
/// line breaks become spaces.
pub open spec fn escape_md(s: Seq<char>) -> Seq<char>
    decreases s.len(),
{
    if s.len() == 0 {
        seq![]
    } else {
        let c = s.last();
        escape_md(s.drop_last()) + (if c == '|' {
            seq!['\\', '|']
        } else if c == '\n' || c == '\r' {
            seq![' ']
        } else {
            seq![c]
        })
    }
}

/// Largest number of cells in a row.
pub open spec fn max_cells(rows: Seq<SpecRow>) -> nat
    decreases rows.len(),
{
    if rows.len() == 0 {
        0
    } else {
        let m = max_cells(rows.drop_last());
        if rows.last().cells.len() > m {
            rows.last().cells.len()
        } else {
            m
        }
    }
}

/// Text of cell `c` of a row, empty past the row's end.
pub open spec fn cell_md(row: SpecRow, c: int) -> Seq<char> {
    if 0 <= c < row.cells.len() {
        escape_md(inlines_md(row.cells[c].content))
    } else {
        seq![]
    }
}

/// ` text |` for the first `n` columns of a row.
pub open spec fn row_cells_md(row: SpecRow, n: nat) -> Seq<char>
    decreases n,
{
    if n == 0 {
        seq![]
    } else {
        row_cells_md(row, (n - 1) as nat) + seq![' '] + cell_md(row, n - 1) + seq![' ', '|']
    }
}

/// One pipe-table line.
pub open spec fn row_md(tabs: Seq<char>, row: SpecRow, ncols: nat) -> Seq<char> {
    tabs + seq!['|'] + row_cells_md(row, ncols)
}

/// Alignment marker of a header cell.
pub open spec fn align_md(a: Option<CellAlignment>) -> Seq<char> {
    match a {
        Some(CellAlignment::Left) => seq![':', '-', '-', '-'],
        Some(CellAlignment::Center) => seq![':', '-', '-', '-', ':'],
        Some(CellAlignment::Right) => seq!['-', '-', '-', ':'],
        None => seq!['-', '-', '-'],
    }
}

/// Alignment of column `c` as given by the header row.
pub open spec fn head_align(head: SpecRow, c: int) -> Option<CellAlignment> {
    if 0 <= c < head.cells.len() {
        head.cells[c].align
    } else {
        None
    }
}

/// ` marker |` for the first `n` columns.
pub open spec fn sep_cells_md(head: SpecRow, n: nat) -> Seq<char>
    decreases n,
{
    if n == 0 {
        seq![]
    } else {
        sep_cells_md(head, (n - 1) as nat) + seq![' '] + align_md(head_align(head, n - 1)) + seq![' ', '|']
    }
}

/// Lines `\n<row>` for rows `1..n`.
pub open spec fn body_rows_md(tabs: Seq<char>, rows: Seq<SpecRow>, ncols: nat, n: int) -> Seq<char>
    decreases n,
{
    if n <= 1 {
        seq![]
    } else {
        body_rows_md(tabs, rows, ncols, n - 1) + seq!['\n'] + row_md(tabs, rows[n - 1], ncols)
    }
}

/// The rows of a table, the optional header row first.
pub open spec fn all_rows(rows: Seq<SpecRow>, header: Option<Seq<SpecCell>>) -> Seq<SpecRow> {
    match header {
        Some(h) => seq![SpecRow { cells: h, row_type: TableRowType::Header, style: None }] + rows,
        None => rows,
    }
}

/// A GFM pipe table: header line, separator line with alignment markers from
/// the header cells, then one line per remaining row; every line has as many
/// columns as the widest row; nothing for a table without rows.
pub open spec fn table_md(tabs: Seq<char>, rows: Seq<SpecRow>, header: Option<Seq<SpecCell>>) -> Seq<char> {
    let all = all_rows(rows, header);
    let n = max_cells(all);
    if all.len() == 0 {
        seq![]
    } else {
        row_md(tabs, all[0], n) + seq!['\n'] + tabs + seq!['|'] + sep_cells_md(all[0], n)
            + body_rows_md(tabs, all, n, all.len() as int)
    }
}

/// The text of the marker for an unsupported block.
pub open spec fn unsupported_md() -> Seq<char> {
    "<!-- Unsupported UniversalBlock -->"@
}

/// Output after rendering block `b` at `indent` onto `out`.
///
/// Paragraphs and headings are one line; a quote prefixes each child with
/// `> `; a bullet list prefixes the first block of each item with `- ` and
/// the others with two spaces; each child ends with a newline and the very
/// last newline of a non-empty quote or list is taken back.
pub open spec fn render(out: Seq<char>, b: SpecBlock, indent: nat) -> Seq<char>
    decreases b, 0nat, 0nat,
{
    let tabs = repeat('\t', indent);
    match b {
        SpecBlock::Paragraph { content, .. } => out + tabs + inlines_md(content),
        SpecBlock::Heading { level, content, .. } => out + trim_start(
            tabs + seq![' '] + repeat('#', level as nat) + seq![' '] + inlines_md(content),
        ),
        SpecBlock::Quote { content, .. } => {
            let r = render_quote(out, content, tabs, content.len() as int);
            if content.len() > 0 {
                r.drop_last()
            } else {
                r
            }
        },
        SpecBlock::BulletList { items, .. } => {
            let r = render_items(out, items, tabs, items.len() as int);
            if items.len() > 0 {
                r.drop_last()
            } else {
                r
            }
        },
        SpecBlock::Table { rows, header, .. } => out + table_md(tabs, rows, header),
        _ => out + tabs + unsupported_md(),
    }
}

/// Output after the first `n` children of a quote.
pub open spec fn render_quote(out: Seq<char>, content: Seq<SpecBlock>, tabs: Seq<char>, n: int) -> Seq<char>
    decreases content, 0nat, n,
{
    if n <= 0 || n > content.len() {
        out
    } else {
        render(render_quote(out, content, tabs, n - 1) + tabs + seq!['>', ' '], content[n - 1], 0).push(
            '\n',
        )
    }
}

/// Output after the first `n` items of a bullet list.
pub open spec fn render_items(out: Seq<char>, items: Seq<SpecItem>, tabs: Seq<char>, n: int) -> Seq<char>
    decreases items, 1nat, n,
{
    if n <= 0 || n > items.len() {
        out
    } else {
        render_item(render_items(out, items, tabs, n - 1), items[n - 1].content, tabs, items[n - 1].content.len() as int)
    }
}

/// Output after the first `n` blocks of one list item.
pub open spec fn render_item(out: Seq<char>, content: Seq<SpecBlock>, tabs: Seq<char>, n: int) -> Seq<char>
    decreases content, 0nat, n,
{
    if n <= 0 || n > content.len() {
        out
    } else {
        let prefix = if n - 1 == 0 { seq!['-', ' '] } else { seq![' ', ' '] };
        render(render_item(out, content, tabs, n - 1) + tabs + prefix, content[n - 1], 0).push('\n')
    }
}

/// A bullet list with items none of which holds a block.
pub open spec fn hollow_list(b: SpecBlock) -> bool {
    match b {
        SpecBlock::BulletList { items, .. } => items.len() > 0 && forall|k: int|
            0 <= k < items.len() ==> (#[trigger] items[k]).content.len() == 0,
        _ => false,
    }
}

/// Whether a document starts with a bullet list none of whose items holds
/// a block: such a document cannot be rendered.
pub fn starts_with_hollow_list(doc: &UniversalDocument) -> (r: bool)
    ensures
        r == (doc.blocks@.len() > 0 && hollow_list(doc.blocks@[0]@)),
{
    if doc.blocks.len() == 0 {
        return false;
    }
    match &doc.blocks[0] {
        UniversalBlock::BulletList { items, .. } => {
            proof {
                crate::ir::blocks::lemma_items_view(items@);
            }
            if items.len() == 0 {
                return false;
            }
            let mut k: usize = 0;
            while k < items.len()
                invariant
                    k <= items.len(),
                    doc.blocks@.len() > 0,
                    doc.blocks@[0]@ matches SpecBlock::BulletList { items: its, .. } && its == items_view(items@),
                    items_view(items@).len() == items.len(),
                    forall|j: int| 0 <= j < k ==> (#[trigger] items_view(items@)[j]).content.len() == 0,
                    forall|j: int| 0 <= j < items.len() ==> #[trigger] items_view(items@)[j] == (SpecItem { content: blocks_view(items@[j].content@), style: crate::ir::style::opt_ref(items@[j].style) }),
                decreases items.len() - k,
            {
                proof {
                    crate::ir::blocks::lemma_blocks_view(items@[k as int].content@);
                }
                if items[k].content.len() > 0 {
                    assert(items_view(items@)[k as int].content.len() > 0);
                    assert(!hollow_list(doc.blocks@[0]@));
                    return false;
                }
                k = k + 1;
            }
            true
        },
        _ => false,
    }
}

/// Whether block `b` can be rendered after `out`: closing a hollow list takes
/// back the last character written before it, which must be an ASCII one.
pub open spec fn can_render(out: Seq<char>, b: SpecBlock) -> bool {
    hollow_list(b) ==> out.len() > 0 && out.last() <= '\u{7f}'
}

/// Output after rendering the first `n` blocks of a document, each followed
/// by a newline.
pub open spec fn render_doc(blocks: Seq<SpecBlock>, n: int) -> Seq<char>
    decreases n,
{
    if n <= 0 || n > blocks.len() {
        seq![]
    } else {
        render(render_doc(blocks, n - 1), blocks[n - 1], 0).push('\n')
    }
}

/// Markdown of a document: its blocks one after another, trailing white
/// space removed.
pub open spec fn document_md(blocks: Seq<SpecBlock>) -> Seq<char> {
    trim_end(render_doc(blocks, blocks.len() as int))
}

/// A document of one paragraph holding a linked text run is written with
/// the link in it: its Markdown holds `[content](url)`, whatever else the
/// run's style sets.
pub proof fn lemma_linked_paragraph_keeps_target(
    content: Seq<char>,
    s: SpecStyle,
    url: Seq<char>,
    style: Option<Seq<char>>,
)
    requires
        s.link == Some(url),
    ensures
        exists|pre: Seq<char>, post: Seq<char>|
            document_md(
                seq![SpecBlock::Paragraph { content: seq![SpecInline::TextRun { content, style: Some(s) }], style }],
            ) == pre + (seq!['['] + content + seq![']', '('] + url + seq![')']) + post,
{
    let run = SpecInline::TextRun { content, style: Some(s) };
    let p = SpecBlock::Paragraph { content: seq![run], style };
    let blocks = seq![p];
    let b = s.bold == Some(true);
    let it = s.italic == Some(true);
    let cd = s.code == Some(true);
    let link = seq!['['] + content + seq![']', '('] + url + seq![')'];
    let a = open_marks(b, it, cd) + link + close_marks(b, it, cd);
    assert(inline_md(run) == a);
    let rs = seq![run];
    assert(rs.drop_last() =~= Seq::<SpecInline>::empty());
    assert(rs.last() == run);
    assert(inlines_md(rs.drop_last()) == Seq::<char>::empty());
    assert(inlines_md(rs) == inlines_md(rs.drop_last()) + inline_md(rs.last()));
    assert(inlines_md(rs) =~= a);
    assert(repeat('\t', 0) =~= Seq::<char>::empty());
    assert(render_doc(blocks, 0) == Seq::<char>::empty());
    assert(render(Seq::<char>::empty(), p, 0) =~= a);
    assert(render_doc(blocks, 1) == a.push('\n'));
    assert(a.len() > 0 && !is_space(a.last())) by {
        if cd || it || b {
            let c = close_marks(b, it, cd);
            assert(c.len() > 0);
            assert(a.last() == c.last());
            assert(c.last() == '*' || c.last() == '`');
        } else {
            assert(close_marks(b, it, cd) =~= Seq::<char>::empty());
            assert(a.last() == ')');
        }
    }
    assert(a.push('\n').drop_last() =~= a);
    assert(trim_end(a.push('\n')) == trim_end(a));
    assert(document_md(blocks) == a);
}

/// Whether an optional flag is set.
fn flag_on(o: Option<bool>) -> (b: bool)
    ensures
        b == (o == Some(true)),
{
    match o {
        Some(true) => true,
        _ => false,
    }
}

/// Appends the opening marks of a run.
fn push_open_marks(b: bool, it: bool, cd: bool, out: &mut Vec<char>)
    ensures
        final(out)@ == old(out)@ + open_marks(b, it, cd),
{
    if b {
        out.push('*');
        out.push('*');
    }
    if it {
        out.push('*');
    }
    if cd {
        out.push('`');
    }
    assert(final(out)@ =~= old(out)@ + open_marks(b, it, cd));
}

/// Appends the closing marks of a run.
fn push_close_marks(b: bool, it: bool, cd: bool, out: &mut Vec<char>)
    ensures
        final(out)@ == old(out)@ + close_marks(b, it, cd),
{
    if cd {
        out.push('`');
    }
    if it {
        out.push('*');
    }
    if b {
        out.push('*');
        out.push('*');
    }
    assert(final(out)@ =~= old(out)@ + close_marks(b, it, cd));
}

/// Appends a run's text, as `[text](url)` when it is linked.
fn push_run_body(content: &String, link: &Option<String>, out: &mut Vec<char>)
    ensures
        final(out)@ == old(out)@ + match opt_view(*link) {
            Some(l) => seq!['['] + content@ + seq![']', '('] + l + seq![')'],
            None => content@,
        },
{
    match link {
        Some(l) => {
            out.push('[');
            extend_str(out, content.as_str());
            out.push(']');
            out.push('(');
            extend_str(out, l.as_str());
            out.push(')');
            assert(final(out)@ =~= old(out)@ + (seq!['['] + content@ + seq![']', '('] + l@ + seq![')']));
        },
        None => {
            extend_str(out, content.as_str());
        },
    }
}

/// Appends the Markdown of one inline element.
fn render_inline_one(e: &InlineElement, out: &mut Vec<char>)
    ensures
        final(out)@ == old(out)@ + inline_md(e@),
{
    match e {
        InlineElement::TextRun { content, style } => {
            match style {
                Some(s) => {
                    let b = flag_on(s.bold);
                    let it = flag_on(s.italic);
                    let cd = flag_on(s.code);
                    push_open_marks(b, it, cd, out);
                    push_run_body(content, &s.link, out);
                    push_close_marks(b, it, cd, out);
                    assert(final(out)@ =~= old(out)@ + inline_md(e@));
                },
                None => {
                    extend_str(out, content.as_str());
                },
            }
        },
        _ => {
            assert(final(out)@ =~= old(out)@ + inline_md(e@));
        },
    }
}

/// Appends the Markdown of a sequence of inline elements.
pub fn render_inline(content: &[InlineElement], out: &mut Vec<char>)
    ensures
        final(out)@ == old(out)@ + inlines_md(inlines_view(content@)),
{
    let ghost v = inlines_view(content@);
    let mut i: usize = 0;
    while i < content.len()
        invariant
            i <= content.len(),
            v == inlines_view(content@),
            out@ == old(out)@ + inlines_md(v.take(i as int)),
        decreases content.len() - i,
    {
        render_inline_one(&content[i], out);
        assert(v.take(i + 1).drop_last() =~= v.take(i as int));
        assert(v.take(i + 1).last() == content@[i as int]@);
        assert(out@ =~= old(out)@ + inlines_md(v.take(i + 1)));
        i = i + 1;
    }
    assert(v.take(content.len() as int) =~= v);
}

/// Escapes a cell's text for a pipe table.
pub fn escape_chars(s: &[char]) -> (r: Vec<char>)
    ensures
        r@ == escape_md(s@),
{
    let mut r: Vec<char> = Vec::new();
    let mut i: usize = 0;
    while i < s.len()
        invariant
            i <= s.len(),
            r@ == escape_md(s@.take(i as int)),
        decreases s.len() - i,
    {
        let c = s[i];
        assert(s@.take(i + 1).drop_last() =~= s@.take(i as int));
        if c == '|' {
            r.push('\\');
            r.push('|');
        } else if c == '\n' || c == '\r' {
            r.push(' ');
        } else {
            r.push(c);
        }
        assert(r@ =~= escape_md(s@.take(i + 1)));
        i = i + 1;
    }
    assert(s@.take(s.len() as int) =~= s@);
    r
}

/// Escapes a cell's text so it is safe inside a GFM pipe table: literal
/// pipes are backslash-escaped and line breaks are flattened to spaces.
pub fn escape_cell(s: &str) -> (r: String)
    ensures
        r@ == escape_md(s@),
{
    let v = chars_of(s);
    let e = escape_chars(v.as_slice());
    string_of(&e)
}

/// Largest number of cells in a row.
fn widest_row(rows: &[TableRow]) -> (n: usize)
    ensures
        n == max_cells(rows_view(rows@)),
{
    let ghost v = rows_view(rows@);
    let mut n: usize = 0;
    let mut i: usize = 0;
    while i < rows.len()
        invariant
            i <= rows.len(),
            v == rows_view(rows@),
            n == max_cells(v.take(i as int)),
        decreases rows.len() - i,
    {
        assert(v.take(i + 1).drop_last() =~= v.take(i as int));
        assert(v.take(i + 1).last() == rows@[i as int]@);
        let k = rows[i].cells.len();
        if k > n {
            n = k;
        }
        i = i + 1;
    }
    assert(v.take(rows.len() as int) =~= v);
    n
}

/// Appends one pipe-table line.
fn render_row(row: &TableRow, ncols: usize, tabs: &[char], out: &mut Vec<char>)
    ensures
        final(out)@ == old(out)@ + row_md(tabs@, row@, ncols as nat),
{
    extend_chars(out, tabs);
    out.push('|');
    let mut c: usize = 0;
    while c < ncols
        invariant
            c <= ncols,
            out@ == old(out)@ + tabs@ + seq!['|'] + row_cells_md(row@, c as nat),
        decreases ncols - c,
    {
        let ghost before = out@;
        out.push(' ');
        if c < row.cells.len() {
            let mut s: Vec<char> = Vec::new();
            render_inline(row.cells[c].content.as_slice(), &mut s);
            let e = escape_chars(s.as_slice());
            extend_chars(out, e.as_slice());
        }
        out.push(' ');
        out.push('|');
        assert(out@ =~= before + seq![' '] + cell_md(row@, c as int) + seq![' ', '|']);
        c = c + 1;
    }
}

/// Appends an alignment marker.
fn render_align(a: Option<CellAlignment>, out: &mut Vec<char>)
    ensures
        final(out)@ == old(out)@ + align_md(a),
{
    match a {
        Some(CellAlignment::Left) => {
            out.push(':');
            out.push('-');
            out.push('-');
            out.push('-');
        },
        Some(CellAlignment::Center) => {
            out.push(':');
            out.push('-');
            out.push('-');
            out.push('-');
            out.push(':');
        },
        Some(CellAlignment::Right) => {
            out.push('-');
            out.push('-');
            out.push('-');
            out.push(':');
        },
        None => {
            out.push('-');
            out.push('-');
            out.push('-');
        },
    }
    assert(final(out)@ =~= old(out)@ + align_md(a));
}

/// The rows of a table with the optional header row first.
fn table_rows(rows: &[TableRow], header: &Option<Vec<TableCell>>) -> (all: Vec<TableRow>)
    ensures
        rows_view(all@) == all_rows(rows_view(rows@), opt_cells(*header)),
{
    let mut all: Vec<TableRow> = Vec::new();
    match header {
        Some(cells) => {
            all.push(TableRow { cells: copy_cells(cells.as_slice()), row_type: TableRowType::Header, style: None });
        },
        None => {},
    }
    let ghost start = all@.len();
    let mut i: usize = 0;
    while i < rows.len()
        invariant
            i <= rows.len(),
            start <= 1,
            all@.len() == start + i,
            header is Some <==> start == 1,
            header matches Some(h) ==> all@[0]@ == (SpecRow { cells: cells_view(h@), row_type: TableRowType::Header, style: None }),
            forall|j: int| 0 <= j < i ==> (#[trigger] all@[start + j])@ == rows@[j]@,
        decreases rows.len() - i,
    {
        all.push(rows[i].copy());
        i = i + 1;
    }
    proof {
        let target = all_rows(rows_view(rows@), opt_cells(*header));
        assert forall|k: int| 0 <= k < target.len() implies rows_view(all@)[k] == target[k] by {
            if start == 1 {
                if k > 0 {
                    assert(all@[start + (k - 1)]@ == rows@[k - 1]@);
                }
            } else {
                assert(all@[start + k]@ == rows@[k]@);
            }
        }
        assert(rows_view(all@) =~= target);
    }
    all
}

/// Appends an IR table as a GFM pipe table: the first row (the optional
/// header, else the first row) is the header line, the separator line takes
/// its alignment markers from the header cells, and no newline follows the
/// last line.
fn render_table(rows: &[TableRow], header: &Option<Vec<TableCell>>, tabs: &[char], out: &mut Vec<char>)
    ensures
        final(out)@ == old(out)@ + table_md(tabs@, rows_view(rows@), opt_cells(*header)),
{
    let all = table_rows(rows, header);
    if all.len() == 0 {
        assert(final(out)@ =~= old(out)@ + table_md(tabs@, rows_view(rows@), opt_cells(*header)));
        return;
    }
    let ghost av = rows_view(all@);
    let ncols = widest_row(all.as_slice());
    let head = &all[0];
    render_row(head, ncols, tabs, out);
    out.push('\n');
    extend_chars(out, tabs);
    out.push('|');
    let ghost mid = out@;
    let mut c: usize = 0;
    while c < ncols
        invariant
            c <= ncols,
            out@ == mid + sep_cells_md(head@, c as nat),
        decreases ncols - c,
    {
        let ghost before = out@;
        out.push(' ');
        let a = if c < head.cells.len() {
            head.cells[c].align
        } else {
            None
        };
        render_align(a, out);
        out.push(' ');
        out.push('|');
        assert(out@ =~= before + seq![' '] + align_md(head_align(head@, c as int)) + seq![' ', '|']);
        c = c + 1;
    }
    let ghost sep = out@;
    let mut r: usize = 1;
    while r < all.len()
        invariant
            1 <= r <= all.len(),
            av == rows_view(all@),
            out@ == sep + body_rows_md(tabs@, av, ncols as nat, r as int),
        decreases all.len() - r,
    {
        out.push('\n');
        render_row(&all[r], ncols, tabs, out);
        assert(av[r as int] == all@[r as int]@);
        assert(out@ =~= sep + body_rows_md(tabs@, av, ncols as nat, r + 1));
        r = r + 1;
    }
    assert(av[0] == all@[0]@);
    assert(final(out)@ =~= old(out)@ + table_md(tabs@, rows_view(rows@), opt_cells(*header)));
}

/// `n` copies of `c`.
fn repeat_char(c: char, n: usize) -> (r: Vec<char>)
    ensures
        r@ == repeat(c, n as nat),
{
    let mut r: Vec<char> = Vec::new();
    let mut i: usize = 0;
    while i < n
        invariant
            i <= n,
            r@ == repeat(c, i as nat),
        decreases n - i,
    {
        r.push(c);
        assert(r@ =~= repeat(c, (i + 1) as nat));
        i = i + 1;
    }
    r
}

/// Appends the Markdown of one block, indented by `indent` tabs.
#[verifier::loop_isolation(false)]
pub fn render_universal_block(block: &UniversalBlock, indent: usize, out: &mut Vec<char>)
    requires
        can_render(old(out)@, block@),
    ensures
        final(out)@ == render(old(out)@, block@, indent as nat),
        final(out)@.len() + 1 >= old(out)@.len(),
    decreases block,
{
    let tabs = repeat_char('\t', indent);
    match block {
        UniversalBlock::Paragraph { content, .. } => {
            extend_chars(out, tabs.as_slice());
            render_inline(content.as_slice(), out);
        },
        UniversalBlock::Heading { level, content, .. } => {
            let mut line: Vec<char> = Vec::new();
            extend_chars(&mut line, tabs.as_slice());
            line.push(' ');
            let hashes = repeat_char('#', *level as usize);
            extend_chars(&mut line, hashes.as_slice());
            line.push(' ');
            render_inline(content.as_slice(), &mut line);
            let t = trim_start_chars(line.as_slice());
            extend_chars(out, t.as_slice());
            assert(line@ =~= tabs@ + seq![' '] + repeat('#', *level as nat) + seq![' '] + inlines_md(
                inlines_view(content@),
            ));
        },
        UniversalBlock::Quote { content, .. } => {
            let ghost cv = blocks_view(content@);
            proof {
                lemma_blocks_view(content@);
            }
            let mut i: usize = 0;
            while i < content.len()
                invariant
                    i <= content.len(),
                    cv == blocks_view(content@),
                    cv.len() == content.len(),
                    out@ == render_quote(old(out)@, cv, tabs@, i as int),
                    out@.len() >= old(out)@.len(),
                    i > 0 ==> out@.len() >= old(out)@.len() + 2,
                decreases content.len() - i,
            {
                proof {
                    assert(decreases_to!(*block => *content));
                    assert(decreases_to!(*content => content[i as int]));
                }
                let ghost before = out@;
                extend_chars(out, tabs.as_slice());
                out.push('>');
                out.push(' ');
                let ghost pre = out@;
                assert(pre =~= before + tabs@ + seq!['>', ' ']);
                assert(cv[i as int] == content@[i as int]@);
                render_universal_block(&content[i], 0, out);
                out.push('\n');
                assert(out@ == render(pre, cv[i as int], 0).push('\n'));
                i = i + 1;
            }
            if content.len() > 0 {
                let _ = out.pop();
            }
        },
        UniversalBlock::BulletList { items, .. } => {
            let ghost iv = items_view(items@);
            proof {
                lemma_items_view(items@);
            }
            let ghost mut seen = false;
            let mut i: usize = 0;
            while i < items.len()
                invariant
                    i <= items.len(),
                    iv == items_view(items@),
                    iv.len() == items.len(),
                    out@ == render_items(old(out)@, iv, tabs@, i as int),
                    out@.len() >= old(out)@.len(),
                    seen ==> out@.len() >= old(out)@.len() + 2,
                    !seen ==> out@ == old(out)@,
                    !seen ==> forall|k: int| 0 <= k < i ==> (#[trigger] iv[k]).content.len() == 0,
                decreases items.len() - i,
            {
                let item_blocks = &items[i].content;
                let ghost bv = blocks_view(item_blocks@);
                proof {
                    lemma_blocks_view(item_blocks@);
                    assert(iv[i as int].content == bv);
                }
                let ghost base = out@;
                let mut j: usize = 0;
                while j < item_blocks.len()
                    invariant
                        j <= item_blocks.len(),
                        bv == blocks_view(item_blocks@),
                        bv.len() == item_blocks.len(),
                        out@ == render_item(base, bv, tabs@, j as int),
                        out@.len() >= base.len(),
                        j > 0 ==> out@.len() >= base.len() + 2,
                    decreases item_blocks.len() - j,
                {
                    proof {
                        assert(decreases_to!(*block => *items));
                        assert(decreases_to!(*items => items[i as int]));
                        assert(decreases_to!(items[i as int] => items[i as int].content));
                        assert(decreases_to!(items[i as int].content => items[i as int].content[j as int]));
                    }
                    let ghost before = out@;
                    extend_chars(out, tabs.as_slice());
                    if j == 0 {
                        out.push('-');
                        out.push(' ');
                    } else {
                        out.push(' ');
                        out.push(' ');
                    }
                    let ghost pre = out@;
                    let ghost prefix = if j == 0 { seq!['-', ' '] } else { seq![' ', ' '] };
                    assert(pre =~= before + tabs@ + prefix);
                    assert(bv[j as int] == item_blocks@[j as int]@);
                    render_universal_block(&item_blocks[j], 0, out);
                    out.push('\n');
                    assert(out@ == render(pre, bv[j as int], 0).push('\n'));
                    j = j + 1;
                }
                proof {
                    if item_blocks.len() > 0 {
                        seen = true;
                    }
                }
                i = i + 1;
            }
            if items.len() > 0 {
                let _ = out.pop();
            }
        },
        UniversalBlock::Table { rows, header, .. } => {
            render_table(rows.as_slice(), header, tabs.as_slice(), out);
        },
        _ => {
            extend_chars(out, tabs.as_slice());
            extend_str(out, "<!-- Unsupported UniversalBlock -->");
        },
    }
}

/// Markdown converter (CommonMark with GFM tables).
pub struct MarkdownConverter;

/// Whether `doc` is what Markdown text `md` is read as: its blocks, with
/// no title, properties, custom metadata, source platform or styles.
pub open spec fn markdown_doc(md: Seq<char>, doc: UniversalDocument) -> bool {
    &&& blocks_from_markdown(md, blocks_view(doc.blocks@))
    &&& doc.metadata.title is None
    &&& doc.metadata.properties@.len() == 0
    &&& doc.metadata.custom@.len() == 0
    &&& doc.metadata.source_platform is None
    &&& doc.styles.styles@.len() == 0
}

impl FromPlatform for MarkdownConverter {
    const PLATFORM: Platform = Platform::Markdown;

    type Input = String;

    open spec fn reads(input: String) -> bool {
        true
    }

    open spec fn reads_as(input: String, doc: UniversalDocument) -> bool {
        markdown_doc(input@, doc)
    }

    fn from_platform(input: String) -> (r: Result<UniversalDocument, ConverterError>) {
        MarkdownConverter::from_platform(input)
    }
}

impl ToPlatform for MarkdownConverter {
    const PLATFORM: Platform = Platform::Markdown;

    type Output = String;

    open spec fn takes(doc: UniversalDocument) -> bool {
        doc.blocks@.len() > 0 ==> !hollow_list(doc.blocks@[0]@)
    }

    open spec fn writes(doc: UniversalDocument) -> bool {
        true
    }

    fn to_platform(doc: &UniversalDocument) -> (r: Result<String, ConverterError>) {
        MarkdownConverter::to_platform(doc)
    }
}

impl MarkdownConverter {
    /// Renders a document as Markdown: each block followed by a newline,
    /// trailing white space removed.
    pub fn to_platform(doc: &UniversalDocument) -> (r: Result<String, ConverterError>)
        requires
            doc.blocks@.len() > 0 ==> !hollow_list(doc.blocks@[0]@),
        ensures
            r matches Ok(md) && md@ == document_md(blocks_view(doc.blocks@)),
    {
        let ghost bv = blocks_view(doc.blocks@);
        proof {
            lemma_blocks_view(doc.blocks@);
        }
        let mut out: Vec<char> = Vec::new();
        let mut i: usize = 0;
        while i < doc.blocks.len()
            invariant
                i <= doc.blocks.len(),
                bv == blocks_view(doc.blocks@),
                bv.len() == doc.blocks.len(),
                doc.blocks@.len() > 0 ==> !hollow_list(doc.blocks@[0]@),
                out@ == render_doc(bv, i as int),
                i > 0 ==> out@.len() > 0 && out@.last() == '\n',
            decreases doc.blocks.len() - i,
        {
            proof {
                lemma_blocks_view(doc.blocks@);
            }
            assert(bv[i as int] == doc.blocks@[i as int]@);
            render_universal_block(&doc.blocks[i], 0, &mut out);
            out.push('\n');
            i = i + 1;
        }
        let t = trim_end_chars(out.as_slice());
        Ok(string_of(&t))
    }
}

/// The inline element of a span read from Markdown: a text run carrying
/// the span's flags (when it has annotations), its color unless `default`,
/// and its link; other spans become a marker text.
pub open spec fn bridge_span(rt: SpecRichText) -> SpecInline {
    match rt.span {
        SpecSpan::Text { content, link } => {
            let base = match rt.annotations {
                Some(a) => SpecStyle {
                    bold: Some(a.bold),
                    italic: Some(a.italic),
                    strikethrough: Some(a.strikethrough),
                    code: Some(a.code),
                    color: if a.color != "default"@ { Some(a.color) } else { None },
                    ..plain_style()
                },
                None => plain_style(),
            };
            SpecInline::TextRun {
                content,
                style: Some(
                    match link {
                        Some(u) => SpecStyle { link: Some(u), ..base },
                        None => base,
                    },
                ),
            }
        },
        _ => SpecInline::TextRun { content: "[Unsupported RichText]"@, style: Some(plain_style()) },
    }
}

/// The inline elements of spans read from Markdown.
pub open spec fn bridge_rich(s: Seq<SpecRichText>) -> Seq<SpecInline> {
    Seq::new(s.len(), |i: int| bridge_span(s[i]))
}

/// A paragraph of bridged spans.
pub open spec fn bridge_para(s: Seq<SpecRichText>) -> SpecBlock {
    SpecBlock::Paragraph { content: bridge_rich(s), style: None }
}

/// A table cell of bridged spans.
pub open spec fn bridge_cell(cell: Seq<SpecRichText>) -> SpecCell {
    SpecCell { content: bridge_rich(cell), colspan: None, rowspan: None, style: None, align: None }
}

/// The universal block of a Notion block read from Markdown; a kind with
/// no universal counterpart is kept whole as raw Notion data, its full JSON
/// record.
pub open spec fn bridge(b: SpecNBlock) -> SpecBlock {
    match b.kind {
        SpecKind::Paragraph(t) => bridge_para(t.rich_text),
        SpecKind::Heading1(h) => SpecBlock::Heading { level: 1, content: bridge_rich(h.rich_text), style: None },
        SpecKind::Heading2(h) => SpecBlock::Heading { level: 2, content: bridge_rich(h.rich_text), style: None },
        SpecKind::Heading3(h) => SpecBlock::Heading { level: 3, content: bridge_rich(h.rich_text), style: None },
        SpecKind::BulletedListItem(t) => SpecBlock::BulletList {
            items: seq![SpecItem { content: seq![bridge_para(t.rich_text)], style: None }],
            style: None,
        },
        SpecKind::NumberedListItem(t) => SpecBlock::OrderedList {
            items: seq![SpecItem { content: seq![bridge_para(t.rich_text)], style: None }],
            start: 1,
            style: None,
        },
        SpecKind::ToDo(t) => SpecBlock::TaskList {
            items: seq![SpecTask { content: seq![bridge_para(t.rich_text)], checked: t.checked, style: None }],
            style: None,
        },
        SpecKind::Divider => SpecBlock::PageBreak,
        SpecKind::Quote(t) => SpecBlock::Quote { content: seq![bridge_para(t.rich_text)], style: None },
        SpecKind::Callout(c) => SpecBlock::Callout {
            icon: match c.icon {
                Some(SpecIcon::Emoji { emoji }) => Some(emoji),
                Some(_) => Some("\u{2139}\u{fe0f}"@),
                None => None,
            },
            color: Some(c.color),
            content: seq![bridge_para(c.rich_text)],
            style: None,
        },
        SpecKind::Table(t) => {
            let kids = match t.children {
                Some(k) => k,
                None => seq![],
            };
            SpecBlock::Table {
                rows: Seq::new(
                    kids.len(),
                    |i: int|
                        SpecRow {
                            cells: match kids[i].kind {
                                SpecKind::TableRow(cells) => Seq::new(cells.len(), |k: int| bridge_cell(cells[k])),
                                _ => seq![],
                            },
                            row_type: if i == 0 && t.has_column_header {
                                TableRowType::Header
                            } else {
                                TableRowType::Body
                            },
                            style: None,
                        },
                ),
                header: None,
                style: None,
            }
        },
        _ => SpecBlock::Raw { platform: Platform::Notion, data: block_record_json(b) },
    }
}

/// The inline element of one span read from Markdown.
fn bridge_span_of(rt: &RichText) -> (e: InlineElement)
    ensures
        e@ == bridge_span(rt@),
{
    match rt {
        RichText::Text { text, annotations, .. } => {
            let mut style = TextStyle::new();
            match annotations {
                Some(a) => {
                    style.bold = Some(a.bold);
                    style.italic = Some(a.italic);
                    style.strikethrough = Some(a.strikethrough);
                    style.code = Some(a.code);
                    if !crate::json::string_is(&a.color, "default") {
                        style.color = Some(a.color.clone());
                    }
                },
                None => {},
            }
            match &text.link {
                Some(l) => {
                    style.link = Some(l.url.clone());
                },
                None => {},
            }
            InlineElement::TextRun { content: text.content.clone(), style: Some(style) }
        },
        _ => InlineElement::TextRun {
            content: String::from_str("[Unsupported RichText]"),
            style: Some(TextStyle::new()),
        },
    }
}

/// The inline elements of spans read from Markdown.
fn bridge_rich_text_to_inline(rich: &[RichText]) -> (r: Vec<InlineElement>)
    ensures
        inlines_view(r@) == bridge_rich(rich_view(rich@)),
{
    let mut out: Vec<InlineElement> = Vec::new();
    let mut i: usize = 0;
    while i < rich.len()
        invariant
            i <= rich.len(),
            out.len() == i,
            forall|j: int| 0 <= j < i ==> (#[trigger] out@[j])@ == bridge_span(rich@[j]@),
        decreases rich.len() - i,
    {
        out.push(bridge_span_of(&rich[i]));
        i = i + 1;
    }
    assert(inlines_view(out@) =~= bridge_rich(rich_view(rich@)));
    out
}

/// A paragraph of bridged spans.
fn bridge_paragraph(rich: &[RichText]) -> (b: UniversalBlock)
    ensures
        b@ == bridge_para(rich_view(rich@)),
{
    UniversalBlock::Paragraph { content: bridge_rich_text_to_inline(rich), style: None }
}

/// One universal block holding a paragraph of bridged spans.
fn bridge_paragraphs(rich: &[RichText]) -> (v: Vec<UniversalBlock>)
    ensures
        blocks_view(v@) == seq![bridge_para(rich_view(rich@))],
{
    let v = vec![bridge_paragraph(rich)];
    proof {
        lemma_blocks_view_single(v@);
    }
    v
}

/// The universal table rows of a Notion table block's row children.
fn bridge_table_rows(children: &Vec<Block>, has_header: bool) -> (rows: Vec<TableRow>)
    ensures
        rows_view(rows@) == Seq::new(
            nblocks_view(children@).len(),
            |i: int|
                SpecRow {
                    cells: match nblocks_view(children@)[i].kind {
                        SpecKind::TableRow(cells) => Seq::new(cells.len(), |k: int| bridge_cell(cells[k])),
                        _ => seq![],
                    },
                    row_type: if i == 0 && has_header {
                        TableRowType::Header
                    } else {
                        TableRowType::Body
                    },
                    style: None,
                },
        ),
{
    let ghost kv = nblocks_view(children@);
    proof {
        lemma_nblocks_view(children@);
    }
    let mut rows: Vec<TableRow> = Vec::new();
    let mut i: usize = 0;
    while i < children.len()
        invariant
            i <= children.len(),
            kv == nblocks_view(children@),
            kv.len() == children.len(),
            forall|q: int| 0 <= q < children.len() ==> #[trigger] kv[q] == children@[q]@,
            rows.len() == i,
            forall|j: int|
                0 <= j < i ==> (#[trigger] rows@[j])@ == (SpecRow {
                    cells: match kv[j].kind {
                        SpecKind::TableRow(cells) => Seq::new(cells.len(), |k: int| bridge_cell(cells[k])),
                        _ => seq![],
                    },
                    row_type: if j == 0 && has_header {
                        TableRowType::Header
                    } else {
                        TableRowType::Body
                    },
                    style: None,
                }),
        decreases children.len() - i,
    {
        let mut cells: Vec<TableCell> = Vec::new();
        match &children[i].block_type {
            BlockType::TableRow { table_row } => {
                let mut k: usize = 0;
                while k < table_row.cells.len()
                    invariant
                        k <= table_row.cells.len(),
                        cells.len() == k,
                        forall|q: int|
                            0 <= q < k ==> (#[trigger] cells@[q])@ == bridge_cell(rich_view(table_row.cells@[q]@)),
                    decreases table_row.cells.len() - k,
                {
                    cells.push(
                        TableCell {
                            content: bridge_rich_text_to_inline(table_row.cells[k].as_slice()),
                            colspan: None,
                            rowspan: None,
                            style: None,
                            align: None,
                        },
                    );
                    k = k + 1;
                }
                assert(cells_view(cells@) =~= Seq::new(
                    crate::models::block::cells_rich_view(table_row.cells@).len(),
                    |k: int| bridge_cell(crate::models::block::cells_rich_view(table_row.cells@)[k]),
                ));
            },
            _ => {
                assert(cells_view(cells@) =~= Seq::<SpecCell>::empty());
            },
        }
        let row_type = if i == 0 && has_header {
            TableRowType::Header
        } else {
            TableRowType::Body
        };
        rows.push(TableRow { cells, row_type, style: None });
        i = i + 1;
    }
    assert(rows_view(rows@) =~= Seq::new(
        kv.len(),
        |i: int|
            SpecRow {
                cells: match kv[i].kind {
                    SpecKind::TableRow(cells) => Seq::new(cells.len(), |k: int| bridge_cell(cells[k])),
                    _ => seq![],
                },
                row_type: if i == 0 && has_header {
                    TableRowType::Header
                } else {
                    TableRowType::Body
                },
                style: None,
            },
    ));
    rows
}

/// Converts a Notion block read from Markdown to a universal block.
pub fn bridge_notion_block_to_universal(block: &Block) -> (b: UniversalBlock)
    ensures
        b@ == bridge(block@),
{
    match &block.block_type {
        BlockType::Paragraph { paragraph } => bridge_paragraph(paragraph.rich_text.as_slice()),
        BlockType::Heading1 { heading_1 } => UniversalBlock::Heading {
            level: 1,
            content: bridge_rich_text_to_inline(heading_1.rich_text.as_slice()),
            style: None,
        },
        BlockType::Heading2 { heading_2 } => UniversalBlock::Heading {
            level: 2,
            content: bridge_rich_text_to_inline(heading_2.rich_text.as_slice()),
            style: None,
        },
        BlockType::Heading3 { heading_3 } => UniversalBlock::Heading {
            level: 3,
            content: bridge_rich_text_to_inline(heading_3.rich_text.as_slice()),
            style: None,
        },
        BlockType::BulletedListItem { bulleted_list_item } => {
            let items = vec![ListItem { content: bridge_paragraphs(bulleted_list_item.rich_text.as_slice()), style: None }];
            proof {
                lemma_items_view_single(items@);
            }
            UniversalBlock::BulletList { items, style: None }
        },
        BlockType::NumberedListItem { numbered_list_item } => {
            let items = vec![ListItem { content: bridge_paragraphs(numbered_list_item.rich_text.as_slice()), style: None }];
            proof {
                lemma_items_view_single(items@);
            }
            UniversalBlock::OrderedList { items, start: 1, style: None }
        },
        BlockType::ToDo { to_do } => {
            let items = vec![
                TaskItem { content: bridge_paragraphs(to_do.rich_text.as_slice()), checked: to_do.checked, style: None },
            ];
            proof {
                lemma_tasks_view_single(items@);
            }
            UniversalBlock::TaskList { items, style: None }
        },
        BlockType::Divider => UniversalBlock::PageBreak,
        BlockType::Quote { quote } => UniversalBlock::Quote {
            content: bridge_paragraphs(quote.rich_text.as_slice()),
            style: None,
        },
        BlockType::Callout { callout } => {
            let icon = match &callout.icon {
                Some(Icon::Emoji { emoji }) => Some(emoji.clone()),
                Some(_) => Some(String::from_str("\u{2139}\u{fe0f}")),
                None => None,
            };
            UniversalBlock::Callout {
                icon,
                color: Some(callout.color.clone()),
                content: bridge_paragraphs(callout.rich_text.as_slice()),
                style: None,
            }
        },
        BlockType::Table { table } => {
            let rows = match &table.children {
                Some(children) => bridge_table_rows(children, table.has_column_header),
                None => {
                    let r: Vec<TableRow> = Vec::new();
                    assert(rows_view(r@) =~= Seq::<SpecRow>::empty());
                    r
                },
            };
            let ghost want = match bridge(block@) {
                SpecBlock::Table { rows, .. } => rows,
                _ => seq![],
            };
            assert(rows_view(rows@) =~= want);
            UniversalBlock::Table { rows, header: None, style: None }
        },
        _ => UniversalBlock::Raw { platform: Platform::Notion, data: block.record_json() },
    }
}

/// The universal blocks of Notion blocks read from Markdown.
pub open spec fn bridge_all(bs: Seq<SpecNBlock>) -> Seq<SpecBlock> {
    Seq::new(bs.len(), |i: int| bridge(bs[i]))
}

/// Whether `blocks` are what Markdown text `md` is read as: the bridged
/// Notion blocks the tokens of `md` fold into, stamped with some RFC 3339
/// UTC time.
pub open spec fn blocks_from_markdown(md: Seq<char>, blocks: Seq<SpecBlock>) -> bool {
    exists|now: Seq<char>|
        rfc3339_utc(now) && blocks == bridge_all(#[trigger] blocks_of_events(markdown_tokens(md), now))
}

/// A Markdown heading of level 1 to 3 is read as a universal heading of
/// the same level: the tokens of `#`, `##` or `###` and a text give one
/// universal block, a heading of that level.
pub proof fn lemma_heading_reads_as_same_level(level: u8, text: Seq<char>, now: Seq<char>)
    requires
        1 <= level <= 3,
    ensures
        ({
            let events = seq![
                SpecMdEvent::Start(MdTag::Heading(level)),
                SpecMdEvent::Text(text),
                SpecMdEvent::End(MdTag::Heading(level)),
            ];
            let ir = bridge_all(blocks_of_events(events, now));
            &&& ir.len() == 1
            &&& ir[0] matches SpecBlock::Heading { level: l, .. } && l == level
        }),
{
    let events = seq![
        SpecMdEvent::Start(MdTag::Heading(level)),
        SpecMdEvent::Text(text),
        SpecMdEvent::End(MdTag::Heading(level)),
    ];
    let st2 = parse_run(events, 2, now);
    assert(parse_run(events, 0, now) == initial_parse());
    assert(parse_run(events, 1, now) == initial_parse());
    assert(st2.blocks.len() == 0);
    let bs = blocks_of_events(events, now);
    assert(bs =~= seq![local_block(heading_kind(level, st2.rich), now)]);
    let ir = bridge_all(bs);
    assert(ir[0] == bridge(bs[0]));
}

impl MarkdownConverter {
    /// Reads Markdown into a universal document: empty metadata and style
    /// sheet, one block per Notion block the Markdown is read as.
    pub fn from_platform(input: String) -> (r: Result<UniversalDocument, ConverterError>)
        ensures
            r matches Ok(doc) && blocks_from_markdown(input@, blocks_view(doc.blocks@)) && doc.metadata.title is None && doc.metadata.properties@.len() == 0
                && doc.metadata.custom@.len() == 0 && doc.metadata.source_platform is None
                && doc.styles.styles@.len() == 0,
    {
        let notion_blocks = parse_markdown(input.as_str());
        let ghost now = choose|now: Seq<char>|
            rfc3339_utc(now) && nblocks_view(notion_blocks@) == #[trigger] blocks_of_events(markdown_tokens(input@), now);
        proof {
            lemma_nblocks_view(notion_blocks@);
        }
        let mut universal_blocks: Vec<UniversalBlock> = Vec::new();
        let mut i: usize = 0;
        while i < notion_blocks.len()
            invariant
                i <= notion_blocks.len(),
                universal_blocks.len() == i,
                nblocks_view(notion_blocks@).len() == notion_blocks.len(),
                forall|q: int| 0 <= q < notion_blocks.len() ==> #[trigger] nblocks_view(notion_blocks@)[q] == notion_blocks@[q]@,
                forall|j: int| 0 <= j < i ==> (#[trigger] universal_blocks@[j])@ == bridge(notion_blocks@[j]@),
            decreases notion_blocks.len() - i,
        {
            universal_blocks.push(bridge_notion_block_to_universal(&notion_blocks[i]));
            i = i + 1;
        }
        proof {
            lemma_blocks_view(universal_blocks@);
            assert(blocks_view(universal_blocks@) =~= bridge_all(nblocks_view(notion_blocks@)));
        }
        Ok(UniversalDocument { metadata: DocumentMetadata::empty(), blocks: universal_blocks, styles: StyleSheet::empty() })
    }
}

} // verus!
