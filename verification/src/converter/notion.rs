//! Conversion between Notion objects and the universal document model.
use crate::converter::{ConverterError, FromPlatform, ToPlatform};
use crate::ir::blocks::{
    blocks_view, items_view, lemma_blocks_view, lemma_blocks_view_single, lemma_items_view, lemma_items_view_single,
    lemma_blocks_view_push, lemma_tasks_view, lemma_tasks_view_single,
    tasks_view, ListItem, MediaSource, MentionType, SpecBlock, SpecItem, SpecMedia, SpecProvider, SpecTask,
    TaskItem, UniversalBlock, EmbedProvider,
};
use crate::ir::inline::{inlines_view, opt_view, plain_style, InlineElement, SpecInline, SpecStyle, TextStyle};
use crate::ir::table::{cells_view, rows_view, SpecCell, SpecRow, TableCell, TableRow, TableRowType};
use crate::ir::Platform;
use crate::converter::markdown::max_cells;
use crate::json::{
    as_object_spec, json_views, lemma_json_views, lemma_member_views, member_views, string_is, JsonValue, SpecJson,
};
use crate::ir::metadata::{
    date_json, double_json, double_to_json, file_value_json, names_unique, opt_str_json, opt_str_to_json, props_view,
    select_json, DocumentMetadata, FileValue, PropertyValue, SelectOption, SpecProperty,
};
use crate::ir::style::StyleSheet;
use crate::ir::UniversalDocument;
use crate::models::page::properties_title;
use crate::models::block::{
    cells_rich_view, heading_view, kind_view, lemma_nblocks_view, nblocks_view, text_view, Block, BlockType,
    CalloutContent, CodeBlockContent, HeadingContent, SpecCallout, SpecHeading, SpecKind, SpecNBlock, SpecTable,
    SpecText, SpecToDo, TableContent, TableRowContent, TextBlockContent, ToDoContent,
};
use crate::models::common::{
    href_of, id_json, opt_annotations, placeholder_user, rich_seq_json, rich_text_array_json, plain_annotations, plain_text_of, rich_view, Annotations,
    ExternalFile, FileBlockContent, FileType, Icon, Link, MentionObject, RichText, SpecAnnotations, SpecFile,
    SpecIcon, SpecMention, SpecRichText, SpecSpan, TextContent, UploadedFile, User,
};
use crate::models::common::{now_rfc3339, rfc3339_utc};
use crate::models::page::{CreatePageRequest, Page};
use crate::text::{extend_str, string_of};
use vstd::prelude::*;

verus! {

broadcast use vstd::std_specs::vec::group_vec_axioms;

/// Text of an RFC 3339 timestamp as chrono prints the same instant in UTC
/// (`2024-01-02 03:04:05 UTC`); `None` when the text is no RFC 3339 timestamp.
pub uninterp spec fn utc_display(s: Seq<char>) -> Option<Seq<char>>;

/// Parses an RFC 3339 timestamp with `chrono::DateTime::parse_from_rfc3339`
/// and prints it in UTC with chrono's `Display`; the contract names the
/// result and says nothing more of chrono's formatting.
#[verifier::external_body]
fn utc_text(s: &str) -> (r: Option<String>)
    ensures
        opt_view(r) == utc_display(s@),
{
    chrono::DateTime::parse_from_rfc3339(s).ok().map(|d| d.with_timezone(&chrono::Utc).to_string())
}

/// Style of a span from its annotations: each flag that is on, and the color
/// unless it is empty or `default`.
pub open spec fn annotated_style(a: Option<SpecAnnotations>) -> SpecStyle {
    match a {
        None => plain_style(),
        Some(a) => SpecStyle {
            bold: if a.bold { Some(true) } else { None },
            italic: if a.italic { Some(true) } else { None },
            strikethrough: if a.strikethrough { Some(true) } else { None },
            underline: if a.underline { Some(true) } else { None },
            code: if a.code { Some(true) } else { None },
            color: if a.color.len() > 0 && a.color != "default"@ { Some(a.color) } else { None },
            link: None,
        },
    }
}

/// Style of a span: its annotations and its link.
pub open spec fn span_style(rt: SpecRichText) -> SpecStyle {
    match href_of(rt) {
        Some(u) => SpecStyle { link: Some(u), ..annotated_style(rt.annotations) },
        None => annotated_style(rt.annotations),
    }
}

/// Kind of a mention.
pub open spec fn mention_kind(m: SpecMention) -> MentionType {
    match m {
        SpecMention::User { .. } => MentionType::User,
        SpecMention::Page { .. } => MentionType::Page,
        SpecMention::Database { .. } => MentionType::Database,
        SpecMention::Date { .. } => MentionType::Date,
        SpecMention::LinkPreview { .. } => MentionType::LinkPreview,
    }
}

/// Target of a mention: the id of a user, page or database, the start of a
/// date, the URL of a link preview.
pub open spec fn mention_target(m: SpecMention) -> Seq<char> {
    match m {
        SpecMention::User { id } => id,
        SpecMention::Page { id } => id,
        SpecMention::Database { id } => id,
        SpecMention::Date { start, .. } => start,
        SpecMention::LinkPreview { url } => url,
    }
}

/// The inline element of a rich-text span: a text run, a mention labelled
/// with the span's plain text, or an equation, each with the span's style.
pub open spec fn rt_inline(rt: SpecRichText) -> SpecInline {
    match rt.span {
        SpecSpan::Text { content, .. } => SpecInline::TextRun { content, style: Some(span_style(rt)) },
        SpecSpan::Mention { mention } => SpecInline::Mention {
            mention_type: mention_kind(mention),
            target: mention_target(mention),
            label: Some(plain_text_of(rt)),
            style: Some(span_style(rt)),
        },
        SpecSpan::Equation { expression } => SpecInline::Equation {
            expression,
            style: Some(span_style(rt)),
        },
    }
}

/// The inline elements of a sequence of spans.
pub open spec fn rich_ir(s: Seq<SpecRichText>) -> Seq<SpecInline> {
    Seq::new(s.len(), |i: int| rt_inline(s[i]))
}

/// Rich text converts span by span: the conversion of two texts one after
/// the other is the two conversions one after the other, and each span
/// keeps its kind (text to a text run, mention to a mention, equation to an
/// equation).
pub proof fn lemma_rich_ir_concat(a: Seq<SpecRichText>, b: Seq<SpecRichText>)
    ensures
        rich_ir(a + b) == rich_ir(a) + rich_ir(b),
        forall|i: int| 0 <= i < a.len() ==> {
            &&& (#[trigger] a[i]).span is Text ==> rich_ir(a)[i] is TextRun
            &&& a[i].span is Mention ==> rich_ir(a)[i] is Mention
            &&& a[i].span is Equation ==> rich_ir(a)[i] is Equation
        },
{
    assert(rich_ir(a + b) =~= rich_ir(a) + rich_ir(b));
}

fn annotated_style_of(ann: &Option<Annotations>) -> (s: TextStyle)
    ensures
        s@ == annotated_style(opt_annotations(*ann)),
{
    let mut style = TextStyle::new();
    match ann {
        Some(a) => {
            if a.bold {
                style = style.bold();
            }
            if a.italic {
                style = style.italic();
            }
            if a.strikethrough {
                style = style.strikethrough();
            }
            if a.underline {
                style = style.underline();
            }
            if a.code {
                style = style.code();
            }
            let empty = a.color.as_str().is_empty();
            let dflt = string_is(&a.color, "default");
            assert(style@ == SpecStyle { color: None, ..annotated_style(opt_annotations(*ann)) });
            if !empty && !dflt {
                style = style.color(a.color.clone());
            }
        },
        None => {},
    }
    style
}

/// Kind of a mention.
fn mention_object_to_type(mention: &MentionObject) -> (t: MentionType)
    ensures
        t == mention_kind(mention@),
{
    match mention {
        MentionObject::User { .. } => MentionType::User,
        MentionObject::Page { .. } => MentionType::Page,
        MentionObject::Database { .. } => MentionType::Database,
        MentionObject::Date { .. } => MentionType::Date,
        MentionObject::LinkPreview { .. } => MentionType::LinkPreview,
    }
}

/// Target of a mention.
fn mention_object_to_target(mention: &MentionObject) -> (t: String)
    ensures
        t@ == mention_target(mention@),
{
    match mention {
        MentionObject::User { user } => user.id.clone(),
        MentionObject::Page { page } => page.id.clone(),
        MentionObject::Database { database } => database.id.clone(),
        MentionObject::Date { date } => date.start.clone(),
        MentionObject::LinkPreview { url } => url.clone(),
    }
}

/// The inline element of one rich-text span.
fn rich_text_single_to_ir(rt: &RichText) -> (e: InlineElement)
    ensures
        e@ == rt_inline(rt@),
{
    let ann = match rt {
        RichText::Text { annotations, .. } => annotations,
        RichText::Mention { annotations, .. } => annotations,
        RichText::Equation { annotations, .. } => annotations,
    };
    let mut style = annotated_style_of(ann);
    match rt.href() {
        Some(u) => {
            style = style.link(u.clone());
        },
        None => {},
    }
    match rt {
        RichText::Text { text, .. } => InlineElement::TextRun { content: text.content.clone(), style: Some(style) },
        RichText::Mention { mention, .. } => InlineElement::Mention {
            mention_type: mention_object_to_type(mention),
            target: mention_object_to_target(mention),
            label: Some(rt.plain_text()),
            style: Some(style),
        },
        RichText::Equation { equation, .. } => InlineElement::Equation {
            expression: equation.expression.clone(),
            style: Some(style),
        },
    }
}

/// Converts Notion rich text to inline elements, span by span.
pub fn rich_text_to_ir(rich_text: &[RichText]) -> (r: Vec<InlineElement>)
    ensures
        inlines_view(r@) == rich_ir(rich_view(rich_text@)),
{
    let mut out: Vec<InlineElement> = Vec::new();
    let mut i: usize = 0;
    while i < rich_text.len()
        invariant
            i <= rich_text.len(),
            out.len() == i,
            forall|j: int| 0 <= j < i ==> (#[trigger] out@[j])@ == rt_inline(rich_text@[j]@),
        decreases rich_text.len() - i,
    {
        out.push(rich_text_single_to_ir(&rich_text[i]));
        i = i + 1;
    }
    assert(inlines_view(out@) =~= rich_ir(rich_view(rich_text@)));
    out
}

/// A paragraph holding `content`.
pub open spec fn para(content: Seq<SpecInline>) -> SpecBlock {
    SpecBlock::Paragraph { content, style: None }
}

/// A list item holding one paragraph.
pub open spec fn para_item(content: Seq<SpecInline>) -> SpecItem {
    SpecItem { content: seq![para(content)], style: None }
}

/// The text of a code block: the text of its text spans, in order.
pub open spec fn code_text(s: Seq<SpecRichText>) -> Seq<char>
    decreases s.len(),
{
    if s.len() == 0 {
        seq![]
    } else {
        code_text(s.drop_last()) + match s.last().span {
            SpecSpan::Text { content, .. } => content,
            _ => seq![],
        }
    }
}

/// The media source of a Notion file: an uploaded file's expiry is printed
/// in UTC.
pub open spec fn media_of(f: SpecFile) -> SpecMedia {
    match f {
        SpecFile::External { url } => SpecMedia::External { url },
        SpecFile::Uploaded { url, expiry_time } => SpecMedia::Uploaded {
            url,
            expiry_time: match expiry_time {
                Some(t) => utc_display(t),
                None => None,
            },
        },
    }
}

/// A table cell holding the plain text of each span of a Notion cell.
pub open spec fn plain_cell(cell: Seq<SpecRichText>) -> SpecCell {
    SpecCell {
        content: Seq::new(cell.len(), |k: int| SpecInline::TextRun { content: plain_text_of(cell[k]), style: None }),
        colspan: None,
        rowspan: None,
        style: None,
        align: None,
    }
}

/// The cells of a Notion table row.
pub open spec fn plain_cells(cells: Seq<Seq<SpecRichText>>) -> Seq<SpecCell> {
    Seq::new(cells.len(), |i: int| plain_cell(cells[i]))
}

/// The marker data of a block without a universal counterpart.
pub open spec fn unsupported_json() -> SpecJson {
    SpecJson::Object(seq![("type"@, SpecJson::Str("unsupported"@))])
}

/// The universal block of a Notion block.
pub open spec fn block_ir(b: SpecNBlock) -> SpecBlock {
    match b.kind {
        SpecKind::Paragraph(t) => para(rich_ir(t.rich_text)),
        SpecKind::Heading1(h) => SpecBlock::Heading { level: 1, content: rich_ir(h.rich_text), style: None },
        SpecKind::Heading2(h) => SpecBlock::Heading { level: 2, content: rich_ir(h.rich_text), style: None },
        SpecKind::Heading3(h) => SpecBlock::Heading { level: 3, content: rich_ir(h.rich_text), style: None },
        SpecKind::Code { rich_text, language, .. } => SpecBlock::CodeBlock {
            language: Some(language),
            content: code_text(rich_text),
            style: None,
        },
        SpecKind::BulletedListItem(t) => SpecBlock::BulletList { items: seq![para_item(rich_ir(t.rich_text))], style: None },
        SpecKind::NumberedListItem(t) => SpecBlock::OrderedList {
            items: seq![para_item(rich_ir(t.rich_text))],
            start: 1,
            style: None,
        },
        SpecKind::ToDo(t) => SpecBlock::TaskList {
            items: seq![SpecTask { content: seq![para(rich_ir(t.rich_text))], checked: t.checked, style: None }],
            style: None,
        },
        SpecKind::Toggle(t) => SpecBlock::Toggle { summary: rich_ir(t.rich_text), content: seq![], style: None },
        SpecKind::Callout(c) => SpecBlock::Callout {
            icon: match c.icon {
                Some(SpecIcon::Emoji { emoji }) => Some(emoji),
                _ => None,
            },
            color: Some(c.color),
            content: seq![para(rich_ir(c.rich_text))],
            style: None,
        },
        SpecKind::Quote(t) => SpecBlock::Quote { content: seq![para(rich_ir(t.rich_text))], style: None },
        SpecKind::Image(f) => SpecBlock::Image { src: media_of(f), alt: None, caption: None, style: None },
        SpecKind::Video(f) => SpecBlock::Video { src: media_of(f), caption: None, style: None },
        SpecKind::File(f) => SpecBlock::File { src: media_of(f), name: "file"@, style: None },
        SpecKind::Pdf(f) => SpecBlock::File { src: media_of(f), name: "document.pdf"@, style: None },
        SpecKind::Bookmark(url) => SpecBlock::Embed {
            url,
            provider: SpecProvider::Other("bookmark"@),
            fallback: None,
            style: None,
        },
        SpecKind::Embed(url) => SpecBlock::Embed { url, provider: SpecProvider::Other("embed"@), fallback: None, style: None },
        SpecKind::Table(_) => SpecBlock::Table { rows: seq![], header: None, style: None },
        SpecKind::TableRow(cells) => SpecBlock::Table {
            rows: seq![SpecRow { cells: plain_cells(cells), row_type: TableRowType::Body, style: None }],
            header: None,
            style: None,
        },
        _ => SpecBlock::Raw { platform: Platform::Notion, data: unsupported_json() },
    }
}

/// The rows of a universal table built from Notion rows; the first is the
/// header when `has_header` holds.
pub open spec fn ir_table_rows(has_header: bool, rows: Seq<Seq<Seq<SpecRichText>>>) -> Seq<SpecRow> {
    Seq::new(
        rows.len(),
        |i: int|
            SpecRow {
                cells: plain_cells(rows[i]),
                row_type: if i == 0 && has_header { TableRowType::Header } else { TableRowType::Body },
                style: None,
            },
    )
}

/// A paragraph block.
fn paragraph_of(content: Vec<InlineElement>) -> (b: UniversalBlock)
    ensures
        b@ == para(inlines_view(content@)),
{
    UniversalBlock::Paragraph { content, style: None }
}

/// A list item holding one paragraph.
fn para_list_item(content: Vec<InlineElement>) -> (i: ListItem)
    ensures
        blocks_view(i.content@) == seq![para(inlines_view(content@))],
        i.style is None,
{
    let v = vec![paragraph_of(content)];
    proof {
        lemma_blocks_view_single(v@);
    }
    ListItem { content: v, style: None }
}

/// The text of a code block's spans.
fn code_text_of(rich_text: &[RichText]) -> (r: String)
    ensures
        r@ == code_text(rich_view(rich_text@)),
{
    let ghost v = rich_view(rich_text@);
    let mut out: Vec<char> = Vec::new();
    let mut i: usize = 0;
    while i < rich_text.len()
        invariant
            i <= rich_text.len(),
            v == rich_view(rich_text@),
            out@ == code_text(v.take(i as int)),
        decreases rich_text.len() - i,
    {
        assert(v.take(i + 1).drop_last() =~= v.take(i as int));
        match &rich_text[i] {
            RichText::Text { text, .. } => {
                extend_str(&mut out, text.content.as_str());
            },
            _ => {},
        }
        assert(out@ =~= code_text(v.take(i + 1)));
        i = i + 1;
    }
    assert(v.take(rich_text.len() as int) =~= v);
    string_of(&out)
}

/// The media source of a Notion file.
fn file_content_to_media_source(file: &FileBlockContent) -> (r: Result<MediaSource, ConverterError>)
    ensures
        r matches Ok(m) && m@ == media_of(file.file_type@),
{
    match &file.file_type {
        FileType::External { external } => Ok(MediaSource::External { url: external.url.clone() }),
        FileType::Uploaded { file } => Ok(
            MediaSource::Uploaded {
                url: file.url.clone(),
                expiry_time: match &file.expiry_time {
                    Some(t) => utc_text(t.as_str()),
                    None => None,
                },
            },
        ),
    }
}

/// A table cell holding the plain text of each span.
fn plain_cell_of(cell: &Vec<RichText>) -> (c: TableCell)
    ensures
        c@ == plain_cell(rich_view(cell@)),
{
    let mut content: Vec<InlineElement> = Vec::new();
    let mut k: usize = 0;
    while k < cell.len()
        invariant
            k <= cell.len(),
            content.len() == k,
            forall|j: int|
                0 <= j < k ==> (#[trigger] content@[j])@ == (SpecInline::TextRun {
                    content: plain_text_of(cell@[j]@),
                    style: None,
                }),
        decreases cell.len() - k,
    {
        content.push(InlineElement::TextRun { content: cell[k].plain_text(), style: None });
        k = k + 1;
    }
    let c = TableCell { content, colspan: None, rowspan: None, style: None, align: None };
    assert(c@.content =~= plain_cell(rich_view(cell@)).content);
    c
}

/// The cells of a Notion table row.
fn plain_cells_of(cells: &[Vec<RichText>]) -> (r: Vec<TableCell>)
    ensures
        cells_view(r@) == plain_cells(cells_rich_view(cells@)),
{
    let mut out: Vec<TableCell> = Vec::new();
    let mut i: usize = 0;
    while i < cells.len()
        invariant
            i <= cells.len(),
            out.len() == i,
            forall|j: int| 0 <= j < i ==> (#[trigger] out@[j])@ == plain_cell(rich_view(cells@[j]@)),
        decreases cells.len() - i,
    {
        out.push(plain_cell_of(&cells[i]));
        i = i + 1;
    }
    assert(cells_view(out@) =~= plain_cells(cells_rich_view(cells@)));
    out
}

/// The rich text of each Notion table row's cells.
pub open spec fn rows_rich_view(rows: Seq<TableRowContent>) -> Seq<Seq<Seq<SpecRichText>>> {
    Seq::new(rows.len(), |i: int| cells_rich_view(rows[i].cells@))
}

/// The rich text of each referenced Notion table row's cells.
pub open spec fn refs_rich_view(rows: Seq<&TableRowContent>) -> Seq<Seq<Seq<SpecRichText>>> {
    Seq::new(rows.len(), |i: int| cells_rich_view(rows[i].cells@))
}

/// Builds a universal table from referenced Notion table rows.
fn table_rows_refs_to_ir(has_header: bool, rows: &[&TableRowContent]) -> (b: UniversalBlock)
    ensures
        b@ == (SpecBlock::Table {
            rows: ir_table_rows(has_header, refs_rich_view(rows@)),
            header: None,
            style: None,
        }),
{
    let mut out: Vec<TableRow> = Vec::new();
    let mut i: usize = 0;
    while i < rows.len()
        invariant
            i <= rows.len(),
            out.len() == i,
            forall|j: int|
                0 <= j < i ==> (#[trigger] out@[j])@ == ir_table_rows(has_header, refs_rich_view(rows@))[j],
        decreases rows.len() - i,
    {
        let row_type = if i == 0 && has_header {
            TableRowType::Header
        } else {
            TableRowType::Body
        };
        out.push(TableRow { cells: plain_cells_of(rows[i].cells.as_slice()), row_type, style: None });
        i = i + 1;
    }
    assert(rows_view(out@) =~= ir_table_rows(has_header, refs_rich_view(rows@)));
    UniversalBlock::Table { rows: out, header: None, style: None }
}

/// Builds a universal table from Notion table rows; the first row is the
/// header when the Notion table has a column header.
pub fn table_rows_to_ir(has_header: bool, rows: &[TableRowContent]) -> (b: UniversalBlock)
    ensures
        b@ == (SpecBlock::Table {
            rows: ir_table_rows(has_header, rows_rich_view(rows@)),
            header: None,
            style: None,
        }),
{
    let mut refs: Vec<&TableRowContent> = Vec::new();
    let mut i: usize = 0;
    while i < rows.len()
        invariant
            i <= rows.len(),
            refs.len() == i,
            forall|j: int| 0 <= j < i ==> *(#[trigger] refs@[j]) == rows@[j],
        decreases rows.len() - i,
    {
        refs.push(&rows[i]);
        i = i + 1;
    }
    assert(refs_rich_view(refs@) =~= rows_rich_view(rows@));
    table_rows_refs_to_ir(has_header, refs.as_slice())
}

/// Converts a Notion block to a universal block; block types without a
/// universal counterpart become raw Notion data marked unsupported.
pub fn block_to_ir(block: &Block) -> (r: Result<UniversalBlock, ConverterError>)
    ensures
        r matches Ok(b) && b@ == block_ir(block@),
{
    match &block.block_type {
        BlockType::Paragraph { paragraph } => Ok(paragraph_of(rich_text_to_ir(paragraph.rich_text.as_slice()))),
        BlockType::Heading1 { heading_1 } => Ok(
            UniversalBlock::Heading { level: 1, content: rich_text_to_ir(heading_1.rich_text.as_slice()), style: None },
        ),
        BlockType::Heading2 { heading_2 } => Ok(
            UniversalBlock::Heading { level: 2, content: rich_text_to_ir(heading_2.rich_text.as_slice()), style: None },
        ),
        BlockType::Heading3 { heading_3 } => Ok(
            UniversalBlock::Heading { level: 3, content: rich_text_to_ir(heading_3.rich_text.as_slice()), style: None },
        ),
        BlockType::CodeBlock { code } => Ok(
            UniversalBlock::CodeBlock {
                language: Some(code.language.clone()),
                content: code_text_of(code.rich_text.as_slice()),
                style: None,
            },
        ),
        BlockType::BulletedListItem { bulleted_list_item } => {
            let items = vec![para_list_item(rich_text_to_ir(bulleted_list_item.rich_text.as_slice()))];
            proof {
                lemma_items_view_single(items@);
            }
            Ok(UniversalBlock::BulletList { items, style: None })
        },
        BlockType::NumberedListItem { numbered_list_item } => {
            let items = vec![para_list_item(rich_text_to_ir(numbered_list_item.rich_text.as_slice()))];
            proof {
                lemma_items_view_single(items@);
            }
            Ok(UniversalBlock::OrderedList { items, start: 1, style: None })
        },
        BlockType::ToDo { to_do } => {
            let content = vec![paragraph_of(rich_text_to_ir(to_do.rich_text.as_slice()))];
            proof {
                lemma_blocks_view_single(content@);
            }
            let items = vec![TaskItem { content, checked: to_do.checked, style: None }];
            proof {
                lemma_tasks_view_single(items@);
            }
            Ok(UniversalBlock::TaskList { items, style: None })
        },
        BlockType::Toggle { toggle } => {
            let content: Vec<UniversalBlock> = Vec::new();
            assert(blocks_view(content@) =~= Seq::<SpecBlock>::empty());
            Ok(UniversalBlock::Toggle { summary: rich_text_to_ir(toggle.rich_text.as_slice()), content, style: None })
        },
        BlockType::Callout { callout } => {
            let icon = match &callout.icon {
                Some(Icon::Emoji { emoji }) => Some(emoji.clone()),
                _ => None,
            };
            let content = vec![paragraph_of(rich_text_to_ir(callout.rich_text.as_slice()))];
            proof {
                lemma_blocks_view_single(content@);
            }
            Ok(UniversalBlock::Callout { icon, color: Some(callout.color.clone()), content, style: None })
        },
        BlockType::Quote { quote } => {
            let content = vec![paragraph_of(rich_text_to_ir(quote.rich_text.as_slice()))];
            proof {
                lemma_blocks_view_single(content@);
            }
            Ok(UniversalBlock::Quote { content, style: None })
        },
        BlockType::Image { image } => {
            let src = file_content_to_media_source(image)?;
            Ok(UniversalBlock::Image { src, alt: None, caption: None, style: None })
        },
        BlockType::Video { video } => {
            let src = file_content_to_media_source(video)?;
            Ok(UniversalBlock::Video { src, caption: None, style: None })
        },
        BlockType::File { file } => {
            let src = file_content_to_media_source(file)?;
            Ok(UniversalBlock::File { src, name: String::from_str("file"), style: None })
        },
        BlockType::Pdf { pdf } => {
            let src = file_content_to_media_source(pdf)?;
            Ok(UniversalBlock::File { src, name: String::from_str("document.pdf"), style: None })
        },
        BlockType::Bookmark { bookmark } => Ok(
            UniversalBlock::Embed {
                url: bookmark.url.clone(),
                provider: EmbedProvider::Other(String::from_str("bookmark")),
                fallback: None,
                style: None,
            },
        ),
        BlockType::Embed { embed } => Ok(
            UniversalBlock::Embed {
                url: embed.url.clone(),
                provider: EmbedProvider::Other(String::from_str("embed")),
                fallback: None,
                style: None,
            },
        ),
        BlockType::Table { .. } => {
            let rows: Vec<TableRow> = Vec::new();
            assert(rows_view(rows@) =~= Seq::<SpecRow>::empty());
            Ok(UniversalBlock::Table { rows, header: None, style: None })
        },
        BlockType::TableRow { table_row } => {
            let rows = vec![
                TableRow {
                    cells: plain_cells_of(table_row.cells.as_slice()),
                    row_type: TableRowType::Body,
                    style: None,
                },
            ];
            assert(rows_view(rows@) =~= seq![rows@[0]@]);
            Ok(UniversalBlock::Table { rows, header: None, style: None })
        },
        _ => Ok(
            UniversalBlock::Raw {
                platform: Platform::Notion,
                data: JsonValue::single("type", JsonValue::from_str("unsupported")),
            },
        ),
    }
}

/// An RFC 3339 timestamp converted to UTC and printed as chrono serialises a
/// `DateTime<Utc>`; `None` when the text is no RFC 3339 timestamp.
pub uninterp spec fn utc_rfc3339(s: Seq<char>) -> Option<Seq<char>>;

/// Parses an RFC 3339 timestamp with `chrono::DateTime::parse_from_rfc3339`
/// and prints the same instant in UTC with `to_rfc3339_opts(AutoSi, true)`;
/// the contract names the result and says nothing more of chrono.
#[verifier::external_body]
fn utc_rfc3339_text(s: &str) -> (r: Option<String>)
    ensures
        opt_view(r) == utc_rfc3339(s@),
{
    chrono::DateTime::parse_from_rfc3339(s).ok().map(
        |d| d.with_timezone(&chrono::Utc).to_rfc3339_opts(chrono::SecondsFormat::AutoSi, true),
    )
}

/// Notion annotations of an inline style: the flags that are `Some(true)`
/// and the color, `default` when none is set.
pub open spec fn style_annotations(style: Option<SpecStyle>) -> SpecAnnotations {
    match style {
        None => plain_annotations(),
        Some(s) => SpecAnnotations {
            bold: s.bold == Some(true),
            italic: s.italic == Some(true),
            strikethrough: s.strikethrough == Some(true),
            underline: s.underline == Some(true),
            code: s.code == Some(true),
            color: match s.color {
                Some(c) => c,
                None => "default"@,
            },
        },
    }
}

/// A plain text span with no annotations.
pub open spec fn bare_span(content: Seq<char>) -> SpecRichText {
    SpecRichText {
        span: SpecSpan::Text { content, link: None },
        annotations: None,
        plain_text: Some(content),
        href: None,
    }
}

/// The Notion span of an inline element: a text run keeps its text, style
/// and link; anything else becomes the text `unsupported`.
pub open spec fn inline_rich(e: SpecInline) -> SpecRichText {
    match e {
        SpecInline::TextRun { content, style } => SpecRichText {
            span: SpecSpan::Text {
                content,
                link: match style {
                    Some(s) => s.link,
                    None => None,
                },
            },
            annotations: Some(style_annotations(style)),
            plain_text: Some(content),
            href: None,
        },
        _ => bare_span("unsupported"@),
    }
}

/// The Notion spans of a sequence of inline elements.
pub open spec fn rich_of(s: Seq<SpecInline>) -> Seq<SpecRichText> {
    Seq::new(s.len(), |i: int| inline_rich(s[i]))
}

fn style_annotations_of(style: &Option<TextStyle>) -> (a: Annotations)
    ensures
        a@ == style_annotations(crate::ir::inline::opt_style(*style)),
{
    let mut a = Annotations::plain();
    match style {
        Some(s) => {
            if flag_set(s.bold) {
                a.bold = true;
            }
            if flag_set(s.italic) {
                a.italic = true;
            }
            if flag_set(s.strikethrough) {
                a.strikethrough = true;
            }
            if flag_set(s.underline) {
                a.underline = true;
            }
            if flag_set(s.code) {
                a.code = true;
            }
            match &s.color {
                Some(c) => {
                    a.color = c.clone();
                },
                None => {},
            }
        },
        None => {},
    }
    a
}

/// Whether an optional flag is set.
fn flag_set(o: Option<bool>) -> (b: bool)
    ensures
        b == (o == Some(true)),
{
    match o {
        Some(true) => true,
        _ => false,
    }
}

/// A plain text span with no annotations.
fn bare_rich_text(content: &String) -> (r: RichText)
    ensures
        r@ == bare_span(content@),
{
    RichText::Text {
        text: TextContent { content: content.clone(), link: None },
        annotations: None,
        plain_text: Some(content.clone()),
        href: None,
    }
}

/// The Notion span of one inline element.
fn inline_single_to_rich_text(elem: &InlineElement) -> (r: RichText)
    ensures
        r@ == inline_rich(elem@),
{
    match elem {
        InlineElement::TextRun { content, style } => {
            let link = match style {
                Some(s) => match &s.link {
                    Some(url) => Some(Link { url: url.clone() }),
                    None => None,
                },
                None => None,
            };
            RichText::Text {
                text: TextContent { content: content.clone(), link },
                annotations: Some(style_annotations_of(style)),
                plain_text: Some(content.clone()),
                href: None,
            }
        },
        _ => {
            let u = String::from_str("unsupported");
            bare_rich_text(&u)
        },
    }
}

/// Converts inline elements to Notion rich text, element by element.
pub fn inline_to_rich_text(elements: &[InlineElement]) -> (r: Vec<RichText>)
    ensures
        rich_view(r@) == rich_of(inlines_view(elements@)),
{
    let mut out: Vec<RichText> = Vec::new();
    let mut i: usize = 0;
    while i < elements.len()
        invariant
            i <= elements.len(),
            out.len() == i,
            forall|j: int| 0 <= j < i ==> (#[trigger] out@[j])@ == inline_rich(elements@[j]@),
        decreases elements.len() - i,
    {
        out.push(inline_single_to_rich_text(&elements[i]));
        i = i + 1;
    }
    assert(rich_view(out@) =~= rich_of(inlines_view(elements@)));
    out
}

/// A block made locally: object `block`, id `temp`, both timestamps `now`,
/// the placeholder author, not in the trash and without a parent.
pub open spec fn made_block(kind: SpecKind, has_children: bool, now: Seq<char>) -> SpecNBlock {
    SpecNBlock {
        object: "block"@,
        id: "temp"@,
        created_time: now,
        last_edited_time: now,
        created_by: placeholder_user(),
        last_edited_by: placeholder_user(),
        has_children,
        in_trash: false,
        parent: None,
        kind,
    }
}

/// A text-like block's content with the `default` color and no children.
pub open spec fn plain_text_block(rich_text: Seq<SpecRichText>) -> SpecText {
    SpecText { rich_text, color: "default"@, children: None }
}

/// The content of the first block when it is a paragraph, else nothing.
pub open spec fn first_para(blocks: Seq<SpecBlock>) -> Seq<SpecInline> {
    if blocks.len() > 0 {
        match blocks[0] {
            SpecBlock::Paragraph { content, .. } => content,
            _ => seq![],
        }
    } else {
        seq![]
    }
}

/// The Notion file of a media source; base64 data has none.
pub open spec fn file_of(m: SpecMedia) -> Option<SpecFile> {
    match m {
        SpecMedia::External { url } => Some(SpecFile::External { url }),
        SpecMedia::Uploaded { url, expiry_time } => Some(
            SpecFile::Uploaded {
                url,
                expiry_time: match expiry_time {
                    Some(e) => utc_rfc3339(e),
                    None => None,
                },
            },
        ),
        SpecMedia::Base64 { .. } => None,
    }
}

/// The Notion file of a media source.
fn file_block_content_from_media(src: &MediaSource) -> (r: Result<FileBlockContent, ConverterError>)
    ensures
        match file_of(src@) {
            Some(f) => r matches Ok(c) && c.file_type@ == f,
            None => r matches Err(ConverterError::ConversionFailed(m)) && m@
                == "Base64 media not supported for Notion export"@,
        },
{
    match src {
        MediaSource::External { url } => Ok(
            FileBlockContent { file_type: FileType::External { external: ExternalFile { url: url.clone() } } },
        ),
        MediaSource::Uploaded { url, expiry_time } => Ok(
            FileBlockContent {
                file_type: FileType::Uploaded {
                    file: UploadedFile {
                        url: url.clone(),
                        expiry_time: match expiry_time {
                            Some(e) => utc_rfc3339_text(e.as_str()),
                            None => None,
                        },
                    },
                },
            },
        ),
        MediaSource::Base64 { .. } => Err(
            ConverterError::ConversionFailed(String::from_str("Base64 media not supported for Notion export")),
        ),
    }
}

/// A block made locally.
fn make_block(block_type: BlockType, has_children: bool, now: &String) -> (b: Block)
    ensures
        b@ == made_block(kind_view(block_type), has_children, now@),
{
    Block {
        object: String::from_str("block"),
        id: String::from_str("temp"),
        created_time: now.clone(),
        last_edited_time: now.clone(),
        created_by: User::placeholder(),
        last_edited_by: User::placeholder(),
        has_children,
        in_trash: false,
        parent: None,
        block_type,
    }
}

/// Text-like content with the `default` color and no children.
fn paragraph_content(content: &[InlineElement]) -> (c: TextBlockContent)
    ensures
        text_view(c) == plain_text_block(rich_of(inlines_view(content@))),
{
    TextBlockContent { rich_text: inline_to_rich_text(content), color: String::from_str("default"), children: None }
}

/// Heading content with the `default` color, not toggleable, no children.
fn heading_content(content: &[InlineElement]) -> (c: HeadingContent)
    ensures
        heading_view(c) == (SpecHeading {
            rich_text: rich_of(inlines_view(content@)),
            color: "default"@,
            is_toggleable: false,
            children: None,
        }),
{
    HeadingContent {
        rich_text: inline_to_rich_text(content),
        color: String::from_str("default"),
        is_toggleable: false,
        children: None,
    }
}

/// The content of the first block when it is a paragraph, else nothing.
fn first_paragraph(blocks: &Vec<UniversalBlock>) -> (r: &[InlineElement])
    ensures
        inlines_view(r@) == first_para(blocks_view(blocks@)),
{
    proof {
        lemma_blocks_view(blocks@);
    }
    if blocks.len() > 0 {
        match &blocks[0] {
            UniversalBlock::Paragraph { content, .. } => content.as_slice(),
            _ => {
                let r: &[InlineElement] = &[];
                assert(inlines_view(r@) =~= Seq::<SpecInline>::empty());
                r
            },
        }
    } else {
        let r: &[InlineElement] = &[];
        assert(inlines_view(r@) =~= Seq::<SpecInline>::empty());
        r
    }
}

/// Number of cells every Notion row of a table gets: the widest row,
/// header included.
pub open spec fn notion_width(rows: Seq<SpecRow>, header: Option<Seq<SpecCell>>) -> nat {
    let m = max_cells(rows);
    match header {
        Some(h) => if h.len() > m {
            h.len()
        } else {
            m
        },
        None => m,
    }
}

/// The cells of a Notion table row: the spans of each cell, padded with
/// empty cells up to `width`.
pub open spec fn padded_cells(cells: Seq<SpecCell>, width: nat) -> Seq<Seq<SpecRichText>> {
    let n = if width > cells.len() { width } else { cells.len() };
    Seq::new(n, |k: int| if k < cells.len() { rich_of(cells[k].content) } else { seq![] })
}

/// A Notion table-row block.
pub open spec fn row_block(cells: Seq<SpecCell>, width: nat, now: Seq<char>) -> SpecNBlock {
    made_block(SpecKind::TableRow(padded_cells(cells, width)), false, now)
}

/// The row blocks of a table: the header row first, when there is one.
pub open spec fn table_row_blocks(rows: Seq<SpecRow>, header: Option<Seq<SpecCell>>, now: Seq<char>) -> Seq<SpecNBlock> {
    let w = notion_width(rows, header);
    let body = Seq::new(rows.len(), |i: int| row_block(rows[i].cells, w, now));
    match header {
        Some(h) => seq![row_block(h, w, now)] + body,
        None => body,
    }
}

/// Whether a table has a column header: a header row or a row marked as one.
pub open spec fn has_column_header(rows: Seq<SpecRow>, header: Option<Seq<SpecCell>>) -> bool {
    header is Some || exists|i: int| 0 <= i < rows.len() && rows[i].row_type == TableRowType::Header
}

/// Whether a universal block can be written as a Notion block.
pub open spec fn exportable(b: SpecBlock) -> bool {
    match b {
        SpecBlock::Paragraph { .. } | SpecBlock::Heading { .. } | SpecBlock::CodeBlock { .. }
        | SpecBlock::BulletList { .. } | SpecBlock::OrderedList { .. } | SpecBlock::TaskList { .. }
        | SpecBlock::Toggle { .. } | SpecBlock::Callout { .. } | SpecBlock::Quote { .. }
        | SpecBlock::Table { .. } => true,
        SpecBlock::Image { src, .. } => file_of(src) is Some,
        SpecBlock::Video { src, .. } => file_of(src) is Some,
        _ => false,
    }
}

/// The type and `has_children` flag of the Notion block written for an
/// exportable universal block.
pub open spec fn notion_kind(b: SpecBlock, now: Seq<char>) -> (SpecKind, bool) {
    match b {
        SpecBlock::Paragraph { content, .. } => (SpecKind::Paragraph(plain_text_block(rich_of(content))), false),
        SpecBlock::Heading { level, content, .. } => {
            let h = SpecHeading { rich_text: rich_of(content), color: "default"@, is_toggleable: false, children: None };
            (if level == 1 {
                SpecKind::Heading1(h)
            } else if level == 2 {
                SpecKind::Heading2(h)
            } else if level == 3 {
                SpecKind::Heading3(h)
            } else {
                SpecKind::Paragraph(plain_text_block(rich_of(content)))
            }, false)
        },
        SpecBlock::CodeBlock { language, content, .. } => (SpecKind::Code {
            rich_text: seq![bare_span(content)],
            caption: seq![],
            language: match language {
                Some(l) => l,
                None => seq![],
            },
        }, false),
        SpecBlock::BulletList { items, .. } => (SpecKind::BulletedListItem(
            plain_text_block(rich_of(if items.len() > 0 { first_para(items[0].content) } else { seq![] })),
        ), items.len() > 0),
        SpecBlock::OrderedList { items, .. } => (SpecKind::NumberedListItem(
            plain_text_block(rich_of(if items.len() > 0 { first_para(items[0].content) } else { seq![] })),
        ), items.len() > 0),
        SpecBlock::TaskList { items, .. } => (SpecKind::ToDo(
            SpecToDo {
                rich_text: rich_of(if items.len() > 0 { first_para(items[0].content) } else { seq![] }),
                checked: items.len() > 0 && items[0].checked,
                color: "default"@,
                children: None,
            },
        ), items.len() > 0),
        SpecBlock::Toggle { summary, .. } => (SpecKind::Toggle(plain_text_block(rich_of(summary))), true),
        SpecBlock::Callout { icon, color, content, .. } => (SpecKind::Callout(
            SpecCallout {
                rich_text: rich_of(first_para(content)),
                icon: match icon {
                    Some(e) => Some(SpecIcon::Emoji { emoji: e }),
                    None => None,
                },
                color: match color {
                    Some(c) => c,
                    None => "default"@,
                },
                children: None,
            },
        ), content.len() > 0),
        SpecBlock::Quote { content, .. } => (SpecKind::Quote(plain_text_block(rich_of(first_para(content)))), false),
        SpecBlock::Image { src, .. } => (SpecKind::Image(file_of(src).unwrap()), false),
        SpecBlock::Video { src, .. } => (SpecKind::Video(file_of(src).unwrap()), false),
        SpecBlock::Table { rows, header, .. } => {
            let children = table_row_blocks(rows, header, now);
            (SpecKind::Table(
                SpecTable {
                    table_width: notion_width(rows, header) as u32,
                    has_column_header: has_column_header(rows, header),
                    has_row_header: false,
                    children: Some(children),
                },
            ), children.len() > 0)
        },
        _ => (SpecKind::Divider, false),
    }
}

/// A Notion table-row block from universal cells, padded to `width`.
fn table_row_to_notion(cells: &[TableCell], width: usize, now: &String) -> (b: Block)
    ensures
        b@ == row_block(cells_view(cells@), width as nat, now@),
{
    let mut row_cells: Vec<Vec<RichText>> = Vec::new();
    let mut k: usize = 0;
    while k < cells.len()
        invariant
            k <= cells.len(),
            row_cells.len() == k,
            forall|j: int| 0 <= j < k ==> rich_view((#[trigger] row_cells@[j])@) == rich_of(cells@[j]@.content),
        decreases cells.len() - k,
    {
        row_cells.push(inline_to_rich_text(cells[k].content.as_slice()));
        k = k + 1;
    }
    while k < width
        invariant
            cells.len() <= k,
            k <= width || k == cells.len(),
            row_cells.len() == k,
            forall|j: int| 0 <= j < cells.len() ==> rich_view((#[trigger] row_cells@[j])@) == rich_of(cells@[j]@.content),
            forall|j: int| cells.len() <= j < k ==> (#[trigger] row_cells@[j])@.len() == 0,
        decreases width - k,
    {
        row_cells.push(Vec::new());
        k = k + 1;
    }
    let b = make_block(BlockType::TableRow { table_row: TableRowContent { cells: row_cells } }, false, now);
    proof {
        let target = padded_cells(cells_view(cells@), width as nat);
        assert forall|j: int| 0 <= j < target.len() implies cells_rich_view(row_cells@)[j] == target[j] by {
            if j >= cells.len() {
                assert(rich_view(row_cells@[j]@) =~= Seq::<SpecRichText>::empty());
            }
        }
        assert(cells_rich_view(row_cells@) =~= target);
    }
    b
}

/// Largest number of cells in a row.
fn widest(rows: &[TableRow]) -> (n: usize)
    ensures
        n == max_cells(rows_view(rows@)),
{
    let ghost v = rows_view(rows@);
    let mut n: usize = 0;
    let mut i: usize = 0;
    while i < rows.len()
        invariant
            i <= rows.len(),
            v == rows_view(rows@),
            n == max_cells(v.take(i as int)),
        decreases rows.len() - i,
    {
        assert(v.take(i + 1).drop_last() =~= v.take(i as int));
        assert(v.take(i + 1).last() == rows@[i as int]@);
        if rows[i].cells.len() > n {
            n = rows[i].cells.len();
        }
        i = i + 1;
    }
    assert(v.take(rows.len() as int) =~= v);
    n
}

/// The Notion table block of a universal table.
fn table_to_notion(rows: &Vec<TableRow>, header: &Option<Vec<TableCell>>, now: &String) -> (b: Block)
    ensures
        b@ == made_block(
            notion_kind(SpecBlock::Table { rows: rows_view(rows@), header: crate::ir::blocks::opt_cells(*header), style: None }, now@).0,
            notion_kind(SpecBlock::Table { rows: rows_view(rows@), header: crate::ir::blocks::opt_cells(*header), style: None }, now@).1,
            now@,
        ),
{
    let ghost rv = rows_view(rows@);
    let ghost hv = crate::ir::blocks::opt_cells(*header);
    let mut width = widest(rows.as_slice());
    match header {
        Some(h) => {
            if h.len() > width {
                width = h.len();
            }
        },
        None => {},
    }
    assert(width == notion_width(rv, hv));
    let mut notion_rows: Vec<Block> = Vec::new();
    let mut has_header = false;
    match header {
        Some(cells) => {
            has_header = true;
            notion_rows.push(table_row_to_notion(cells.as_slice(), width, now));
        },
        None => {},
    }
    let ghost start = notion_rows.len();
    let mut i: usize = 0;
    while i < rows.len()
        invariant
            i <= rows.len(),
            rv == rows_view(rows@),
            width == notion_width(rv, hv),
            start == (if header is Some { 1int } else { 0int }),
            notion_rows.len() == start + i,
            header matches Some(h) ==> notion_rows@[0]@ == row_block(cells_view(h@), width as nat, now@),
            forall|j: int| 0 <= j < i ==> (#[trigger] notion_rows@[start + j])@ == row_block(rv[j].cells, width as nat, now@),
            has_header == (header is Some || exists|j: int| 0 <= j < i && rv[j].row_type == TableRowType::Header),
        decreases rows.len() - i,
    {
        assert(rv[i as int] == rows@[i as int]@);
        match rows[i].row_type {
            TableRowType::Header => {
                has_header = true;
                assert(rv[i as int].row_type == TableRowType::Header);
            },
            TableRowType::Body => {
                assert(rv[i as int].row_type == TableRowType::Body);
            },
        }
        notion_rows.push(table_row_to_notion(rows[i].cells.as_slice(), width, now));
        i = i + 1;
    }
    let ghost children = table_row_blocks(rv, hv, now@);
    proof {
        lemma_nblocks_view(notion_rows@);
        assert forall|k: int| 0 <= k < children.len() implies nblocks_view(notion_rows@)[k] == children[k] by {
            if start == 1 {
                if k > 0 {
                    assert(notion_rows@[start + (k - 1)]@ == row_block(rv[k - 1].cells, width as nat, now@));
                }
            } else {
                assert(notion_rows@[start + k]@ == row_block(rv[k].cells, width as nat, now@));
            }
        }
        assert(nblocks_view(notion_rows@) =~= children);
    }
    let has_children = notion_rows.len() > 0;
    let table_width = #[verifier::truncate] (width as u32);
    make_block(
        BlockType::Table {
            table: TableContent { table_width, has_column_header: has_header, has_row_header: false, children: Some(notion_rows) },
        },
        has_children,
        now,
    )
}

/// Why a universal block cannot be written as a Notion block.
pub open spec fn export_error(b: SpecBlock) -> Seq<char> {
    match b {
        SpecBlock::Image { .. } | SpecBlock::Video { .. } => "Base64 media not supported for Notion export"@,
        _ => "Block type not yet implemented for Notion export"@,
    }
}

/// The Notion block written for a universal block, stamped with `now`.
pub open spec fn exported(b: SpecBlock, now: Seq<char>) -> SpecNBlock {
    made_block(notion_kind(b, now).0, notion_kind(b, now).1, now)
}

/// A heading of level 1 to 3 written to Notion and read back has the same
/// level: the Notion heading of level `n` is read as a heading of level
/// `n`.
pub proof fn lemma_heading_level_round_trip(
    level: u8,
    content: Seq<SpecInline>,
    style: Option<Seq<char>>,
    now: Seq<char>,
)
    requires
        1 <= level <= 3,
    ensures
        exportable(SpecBlock::Heading { level, content, style }),
        block_ir(exported(SpecBlock::Heading { level, content, style }, now)) matches SpecBlock::Heading {
            level: l,
            ..
        } && l == level,
{
}

/// A task list written to Notion and read back is one task whose checked
/// state is that of the list's first item.
pub proof fn lemma_task_checked_round_trip(items: Seq<SpecTask>, style: Option<Seq<char>>, now: Seq<char>)
    requires
        items.len() > 0,
    ensures
        exportable(SpecBlock::TaskList { items, style }),
        exported(SpecBlock::TaskList { items, style }, now).kind matches SpecKind::ToDo(t) && t.checked
            == items[0].checked,
        block_ir(exported(SpecBlock::TaskList { items, style }, now)) matches SpecBlock::TaskList { items: its, .. }
            && its.len() == 1 && its[0].checked == items[0].checked,
{
}

/// Converts a universal block to a Notion block stamped with `now`. Lists,
/// quotes and callouts keep the first paragraph only; tables become a table
/// block whose rows are padded to the widest row. Other block kinds, and
/// base64 media, are refused.
pub fn block_ir_to_notion(block: &UniversalBlock, now: &String) -> (r: Result<Block, ConverterError>)
    ensures
        exportable(block@) ==> (r matches Ok(b) && b@ == exported(block@, now@)),
        !exportable(block@) ==> (r matches Err(ConverterError::ConversionFailed(m)) && m@ == export_error(block@)),
{
    proof {
        reveal_strlit("default");
    }
    match block {
        UniversalBlock::Paragraph { content, .. } => Ok(
            make_block(BlockType::Paragraph { paragraph: paragraph_content(content.as_slice()) }, false, now),
        ),
        UniversalBlock::Heading { level, content, .. } => {
            let block_type = if *level == 1 {
                BlockType::Heading1 { heading_1: heading_content(content.as_slice()) }
            } else if *level == 2 {
                BlockType::Heading2 { heading_2: heading_content(content.as_slice()) }
            } else if *level == 3 {
                BlockType::Heading3 { heading_3: heading_content(content.as_slice()) }
            } else {
                BlockType::Paragraph { paragraph: paragraph_content(content.as_slice()) }
            };
            Ok(make_block(block_type, false, now))
        },
        UniversalBlock::CodeBlock { language, content, .. } => {
            let lang = match language {
                Some(l) => l.clone(),
                None => String::new(),
            };
            let code = CodeBlockContent { rich_text: vec![bare_rich_text(content)], caption: Vec::new(), language: lang };
            assert(rich_view(code.rich_text@) =~= seq![bare_span(content@)]);
            assert(rich_view(code.caption@) =~= Seq::<SpecRichText>::empty());
            Ok(make_block(BlockType::CodeBlock { code }, false, now))
        },
        UniversalBlock::BulletList { items, .. } => {
            proof {
                lemma_items_view(items@);
            }
            let rich = if items.len() > 0 {
                inline_to_rich_text(first_paragraph(&items[0].content))
            } else {
                Vec::new()
            };
            assert(rich_view(rich@) =~= rich_of(if items.len() > 0 { first_para(items_view(items@)[0].content) } else { seq![] }));
            let c = TextBlockContent { rich_text: rich, color: String::from_str("default"), children: None };
            Ok(make_block(BlockType::BulletedListItem { bulleted_list_item: c }, items.len() > 0, now))
        },
        UniversalBlock::OrderedList { items, .. } => {
            proof {
                lemma_items_view(items@);
            }
            let rich = if items.len() > 0 {
                inline_to_rich_text(first_paragraph(&items[0].content))
            } else {
                Vec::new()
            };
            assert(rich_view(rich@) =~= rich_of(if items.len() > 0 { first_para(items_view(items@)[0].content) } else { seq![] }));
            let c = TextBlockContent { rich_text: rich, color: String::from_str("default"), children: None };
            Ok(make_block(BlockType::NumberedListItem { numbered_list_item: c }, items.len() > 0, now))
        },
        UniversalBlock::TaskList { items, .. } => {
            proof {
                lemma_tasks_view(items@);
            }
            let rich = if items.len() > 0 {
                inline_to_rich_text(first_paragraph(&items[0].content))
            } else {
                Vec::new()
            };
            assert(rich_view(rich@) =~= rich_of(if items.len() > 0 { first_para(tasks_view(items@)[0].content) } else { seq![] }));
            let checked = items.len() > 0 && items[0].checked;
            let c = ToDoContent { rich_text: rich, checked, color: String::from_str("default"), children: None };
            Ok(make_block(BlockType::ToDo { to_do: c }, items.len() > 0, now))
        },
        UniversalBlock::Toggle { summary, .. } => Ok(
            make_block(BlockType::Toggle { toggle: paragraph_content(summary.as_slice()) }, true, now),
        ),
        UniversalBlock::Callout { icon, color, content, .. } => {
            let c = CalloutContent {
                rich_text: inline_to_rich_text(first_paragraph(content)),
                icon: match icon {
                    Some(e) => Some(Icon::Emoji { emoji: e.clone() }),
                    None => None,
                },
                color: match color {
                    Some(c) => c.clone(),
                    None => String::from_str("default"),
                },
                children: None,
            };
            proof {
                lemma_blocks_view(content@);
            }
            Ok(make_block(BlockType::Callout { callout: c }, content.len() > 0, now))
        },
        UniversalBlock::Quote { content, .. } => Ok(
            make_block(BlockType::Quote { quote: paragraph_content(first_paragraph(content)) }, false, now),
        ),
        UniversalBlock::Image { src, .. } => {
            match file_block_content_from_media(src) {
                Ok(image) => Ok(make_block(BlockType::Image { image }, false, now)),
                Err(e) => Err(e),
            }
        },
        UniversalBlock::Video { src, .. } => {
            match file_block_content_from_media(src) {
                Ok(video) => Ok(make_block(BlockType::Video { video }, false, now)),
                Err(e) => Err(e),
            }
        },
        UniversalBlock::Table { rows, header, .. } => Ok(table_to_notion(rows, header, now)),
        _ => Err(ConverterError::ConversionFailed(String::from_str("Block type not yet implemented for Notion export"))),
    }
}

/// Notion blocks for a sequence of universal blocks: the first refusal
/// stops the conversion.
pub open spec fn first_refused(blocks: Seq<SpecBlock>, n: int) -> Option<int>
    decreases n,
{
    if n <= 0 {
        None
    } else {
        match first_refused(blocks, n - 1) {
            Some(k) => Some(k),
            None => if exportable(blocks[n - 1]) {
                None
            } else {
                Some(n - 1)
            },
        }
    }
}

/// Converts universal blocks to Notion blocks stamped with `now`, stopping
/// at the first block that cannot be written.
pub fn blocks_to_notion_at(blocks: &[UniversalBlock], now: &String) -> (r: Result<Vec<Block>, ConverterError>)
    ensures
        match first_refused(blocks_view(blocks@), blocks@.len() as int) {
            None => r matches Ok(v) && nblocks_view(v@) == Seq::new(
                blocks@.len(),
                |i: int| exported(blocks_view(blocks@)[i], now@),
            ),
            Some(k) => r matches Err(ConverterError::ConversionFailed(m)) && m@ == export_error(
                blocks_view(blocks@)[k],
            ),
        },
{
    let ghost bv = blocks_view(blocks@);
    proof {
        lemma_blocks_view(blocks@);
    }
    let mut out: Vec<Block> = Vec::new();
    let mut i: usize = 0;
    while i < blocks.len()
        invariant
            i <= blocks.len(),
            bv == blocks_view(blocks@),
            bv.len() == blocks.len(),
            forall|j: int| 0 <= j < blocks.len() ==> #[trigger] bv[j] == blocks@[j]@,
            first_refused(bv, i as int) is None,
            out.len() == i,
            forall|j: int| 0 <= j < i ==> (#[trigger] out@[j])@ == exported(bv[j], now@),
        decreases blocks.len() - i,
    {
        let b = block_ir_to_notion(&blocks[i], now);
        match b {
            Ok(nb) => {
                out.push(nb);
            },
            Err(e) => {
                proof {
                    assert(first_refused(bv, i + 1) == Some(i as int));
                    lemma_first_refused_stays(bv, i + 1, blocks.len() as int);
                }
                return Err(e);
            },
        }
        i = i + 1;
    }
    proof {
        lemma_nblocks_view(out@);
        assert(nblocks_view(out@) =~= Seq::new(blocks@.len(), |i: int| exported(blocks_view(blocks@)[i], now@)));
    }
    Ok(out)
}

/// Once a refusal is found, later prefixes find the same one.
proof fn lemma_first_refused_stays(blocks: Seq<SpecBlock>, n: int, m: int)
    requires
        0 <= n <= m,
        first_refused(blocks, n) is Some,
    ensures
        first_refused(blocks, m) == first_refused(blocks, n),
    decreases m - n,
{
    if m > n {
        lemma_first_refused_stays(blocks, n, m - 1);
    }
}

/// Converts universal blocks to Notion blocks stamped with the current time.
pub fn blocks_to_notion(blocks: &[UniversalBlock]) -> (r: Result<Vec<Block>, ConverterError>)
    ensures
        first_refused(blocks_view(blocks@), blocks@.len() as int) is None ==> r is Ok,
        first_refused(blocks_view(blocks@), blocks@.len() as int) matches Some(k) ==> (r matches Err(
            ConverterError::ConversionFailed(m),
        ) && m@ == export_error(blocks_view(blocks@)[k])),
        r matches Ok(v) ==> (v@.len() == blocks@.len() && forall|i: int|
            0 <= i < blocks@.len() ==> #[trigger] v@[i]@ == exported(blocks_view(blocks@)[i], v@[i]@.created_time)
                && rfc3339_utc(v@[i]@.created_time)),
{
    let now = now_rfc3339();
    let r = blocks_to_notion_at(blocks, &now);
    proof {
        if r is Ok {
            let v = r->Ok_0;
            lemma_nblocks_view(v@);
            assert forall|i: int| 0 <= i < blocks@.len() implies #[trigger] v@[i]@ == exported(
                blocks_view(blocks@)[i],
                v@[i]@.created_time,
            ) && rfc3339_utc(v@[i]@.created_time) by {
                assert(nblocks_view(v@)[i] == v@[i]@);
                assert(v@[i]@.created_time == now@);
            }
        }
    }
    r
}

/// Whether a Notion block is a table row.
pub open spec fn is_row(b: SpecNBlock) -> bool {
    b.kind is TableRow
}

/// The cells of a table row block.
pub open spec fn row_cells(b: SpecNBlock) -> Seq<Seq<SpecRichText>> {
    match b.kind {
        SpecKind::TableRow(c) => c,
        _ => seq![],
    }
}

/// The cells of the table rows among `bs`, in order.
pub open spec fn rows_among(bs: Seq<SpecNBlock>) -> Seq<Seq<Seq<SpecRichText>>>
    decreases bs.len(),
{
    if bs.len() == 0 {
        seq![]
    } else if is_row(bs.last()) {
        rows_among(bs.drop_last()).push(row_cells(bs.last()))
    } else {
        rows_among(bs.drop_last())
    }
}

/// The first position at or after `j` that holds no table row.
pub open spec fn rows_end(bs: Seq<SpecNBlock>, j: int) -> int
    decreases bs.len() - j,
{
    if j < bs.len() && is_row(bs[j]) {
        rows_end(bs, j + 1)
    } else {
        j
    }
}

/// The universal table of a Notion table block whose rows are its own row
/// children followed by the row blocks `siblings`.
pub open spec fn grouped_table(t: SpecNBlock, siblings: Seq<SpecNBlock>) -> SpecBlock {
    match t.kind {
        SpecKind::Table(tc) => SpecBlock::Table {
            rows: ir_table_rows(
                tc.has_column_header,
                rows_among(
                    match tc.children {
                        Some(c) => c,
                        None => seq![],
                    },
                ) + rows_among(siblings),
            ),
            header: None,
            style: None,
        },
        _ => block_ir(t),
    }
}

/// The universal blocks of the Notion blocks from position `i` on: a table
/// block takes its row children and the table rows that follow it.
pub open spec fn regrouped(bs: Seq<SpecNBlock>, i: int) -> Seq<SpecBlock>
    decreases bs.len() - i,
{
    if i < 0 || i >= bs.len() {
        seq![]
    } else if bs[i].kind is Table {
        let e = rows_end(bs, i + 1);
        proof {
            lemma_rows_end(bs, i + 1);
        }
        seq![grouped_table(bs[i], bs.subrange(i + 1, e))] + regrouped(bs, e)
    } else {
        seq![block_ir(bs[i])] + regrouped(bs, i + 1)
    }
}

/// `rows_end` does not go back and stays within the sequence.
pub proof fn lemma_rows_end(bs: Seq<SpecNBlock>, j: int)
    ensures
        rows_end(bs, j) >= j,
        j <= bs.len() ==> rows_end(bs, j) <= bs.len(),
        forall|k: int| j <= k < rows_end(bs, j) ==> is_row(#[trigger] bs[k]),
    decreases bs.len() - j,
{
    if j < bs.len() && is_row(bs[j]) {
        lemma_rows_end(bs, j + 1);
    }
}

/// A Notion page together with its blocks.
#[derive(Debug)]
pub struct PageWithBlocks {
    pub page: Page,
    pub blocks: Vec<Block>,
}

/// Converter from Notion pages.
pub struct NotionFromPlatform;

/// Whether `doc` is what a Notion page with its blocks is read as: the
/// blocks regrouped, the page's title, author, times and id, and each
/// property kept verbatim.
pub open spec fn notion_doc(input: PageWithBlocks, doc: UniversalDocument) -> bool {
    &&& blocks_view(doc.blocks@) == regrouped(nblocks_view(input.blocks@), 0)
    &&& opt_view(doc.metadata.title) == Some(properties_title(input.page.properties@))
    &&& opt_view(doc.metadata.author) == Some(input.page.created_by.id@)
    &&& opt_view(doc.metadata.created_time) == Some(input.page.created_time@)
    &&& opt_view(doc.metadata.last_edited_time) == Some(input.page.last_edited_time@)
    &&& props_view(doc.metadata.properties@) == verbatim_properties(input.page.properties@)
    &&& doc.metadata.source_platform == Some(Platform::Notion)
    &&& opt_view(doc.metadata.source_id) == Some(input.page.id@)
    &&& doc.metadata.custom@.len() == 0
    &&& doc.styles.styles@.len() == 0
}

/// Converter to Notion page-creation requests.
pub struct NotionToPlatform;

impl FromPlatform for NotionFromPlatform {
    const PLATFORM: Platform = Platform::Notion;

    type Input = PageWithBlocks;

    open spec fn reads(input: PageWithBlocks) -> bool {
        true
    }

    open spec fn reads_as(input: PageWithBlocks, doc: UniversalDocument) -> bool {
        notion_doc(input, doc)
    }

    fn from_platform(input: PageWithBlocks) -> (r: Result<UniversalDocument, ConverterError>) {
        NotionFromPlatform::from_platform(input)
    }
}

impl ToPlatform for NotionToPlatform {
    const PLATFORM: Platform = Platform::Notion;

    type Output = CreatePageRequest;

    open spec fn takes(doc: UniversalDocument) -> bool {
        true
    }

    open spec fn writes(doc: UniversalDocument) -> bool {
        &&& first_unwritable(props_view(doc.metadata.properties@), doc.metadata.properties@.len() as int) is None
        &&& first_refused(blocks_view(doc.blocks@), doc.blocks@.len() as int) is None
    }

    fn to_platform(doc: &UniversalDocument) -> (r: Result<CreatePageRequest, ConverterError>) {
        NotionToPlatform::to_platform(doc)
    }
}

/// The end of a run of table rows is where the run stops.
proof fn lemma_rows_end_at(bs: Seq<SpecNBlock>, a: int, j: int)
    requires
        a <= j <= bs.len(),
        forall|k: int| a <= k < j ==> is_row(#[trigger] bs[k]),
        j == bs.len() || !is_row(bs[j]),
    ensures
        rows_end(bs, a) == j,
    decreases j - a,
{
    if a < j {
        lemma_rows_end_at(bs, a + 1, j);
    }
}

/// Whether a block is a table row.
fn is_table_row(b: &Block) -> (r: bool)
    ensures
        r == is_row(b@),
{
    match &b.block_type {
        BlockType::TableRow { .. } => true,
        _ => false,
    }
}

/// The universal table of a Notion table block at position `i`, with the
/// table rows that follow it; returns the table and the position after
/// those rows.
fn group_table(blocks: &Vec<Block>, i: usize) -> (r: (UniversalBlock, usize))
    requires
        i < blocks.len(),
        blocks@[i as int].block_type is Table,
    ensures
        r.1 == rows_end(nblocks_view(blocks@), i + 1),
        r.0@ == grouped_table(nblocks_view(blocks@)[i as int], nblocks_view(blocks@).subrange(i + 1, r.1 as int)),
{
    let ghost bs = nblocks_view(blocks@);
    proof {
        lemma_nblocks_view(blocks@);
    }
    let table = match &blocks[i].block_type {
        BlockType::Table { table } => table,
        _ => {
            assert(false);
            return (UniversalBlock::PageBreak, i);
        },
    };
    let mut rows: Vec<&TableRowContent> = Vec::new();
    let ghost kids: Seq<SpecNBlock> = match &table.children {
        Some(c) => nblocks_view(c@),
        None => seq![],
    };
    match &table.children {
        Some(children) => {
            proof {
                lemma_nblocks_view(children@);
            }
            let mut k: usize = 0;
            while k < children.len()
                invariant
                    k <= children.len(),
                    kids == nblocks_view(children@),
                    kids.len() == children.len(),
                    forall|q: int| 0 <= q < children.len() ==> #[trigger] kids[q] == children@[q]@,
                    refs_rich_view(rows@) == rows_among(kids.take(k as int)),
                decreases children.len() - k,
            {
                assert(kids.take(k + 1).drop_last() =~= kids.take(k as int));
                assert(kids.take(k + 1).last() == children@[k as int]@);
                match &children[k].block_type {
                    BlockType::TableRow { table_row } => {
                        rows.push(table_row);
                    },
                    _ => {},
                }
                assert(refs_rich_view(rows@) =~= rows_among(kids.take(k + 1)));
                k = k + 1;
            }
            assert(kids.take(children.len() as int) =~= kids);
        },
        None => {
            assert(refs_rich_view(rows@) =~= rows_among(kids));
        },
    }
    let ghost from_kids = refs_rich_view(rows@);
    let mut j: usize = i + 1;
    while j < blocks.len() && is_table_row(&blocks[j])
        invariant
            i + 1 <= j <= blocks.len(),
            bs == nblocks_view(blocks@),
            bs.len() == blocks.len(),
            forall|q: int| 0 <= q < blocks.len() ==> #[trigger] bs[q] == blocks@[q]@,
            forall|q: int| i + 1 <= q < j ==> is_row(#[trigger] bs[q]),
            refs_rich_view(rows@) == from_kids + rows_among(bs.subrange(i + 1, j as int)),
        decreases blocks.len() - j,
    {
        let ghost before = bs.subrange(i + 1, j as int);
        assert(bs.subrange(i + 1, j + 1).drop_last() =~= before);
        assert(bs.subrange(i + 1, j + 1).last() == blocks@[j as int]@);
        assert(is_row(bs[j as int]));
        assert(rows_among(bs.subrange(i + 1, j + 1)) == rows_among(before).push(row_cells(bs[j as int])));
        let ghost old_rows = refs_rich_view(rows@);
        match &blocks[j].block_type {
            BlockType::TableRow { table_row } => {
                assert(row_cells(bs[j as int]) == cells_rich_view(table_row.cells@));
                rows.push(table_row);
                assert(refs_rich_view(rows@) =~= old_rows.push(cells_rich_view(table_row.cells@)));
            },
            _ => {},
        }
        assert(refs_rich_view(rows@) =~= from_kids + rows_among(bs.subrange(i + 1, j + 1)));
        j = j + 1;
    }
    proof {
        lemma_rows_end_at(bs, i + 1, j as int);
    }
    let t = table_rows_refs_to_ir(table.has_column_header, rows.as_slice());
    (t, j)
}

impl NotionFromPlatform {
    /// Converts a Notion page and its blocks to a universal document. A table
    /// block takes its row children and the table rows that follow it, which
    /// is how the API lists a table's rows. The metadata holds the page's
    /// title, author, timestamps and id; each property is kept verbatim.
    pub fn from_platform(input: PageWithBlocks) -> (r: Result<UniversalDocument, ConverterError>)
        ensures
            r matches Ok(doc) && {
                &&& blocks_view(doc.blocks@) == regrouped(nblocks_view(input.blocks@), 0)
                &&& opt_view(doc.metadata.title) == Some(properties_title(input.page.properties@))
                &&& opt_view(doc.metadata.author) == Some(input.page.created_by.id@)
                &&& opt_view(doc.metadata.created_time) == Some(input.page.created_time@)
                &&& opt_view(doc.metadata.last_edited_time) == Some(input.page.last_edited_time@)
                &&& props_view(doc.metadata.properties@) == verbatim_properties(input.page.properties@)
                &&& doc.metadata.source_platform == Some(Platform::Notion)
                &&& opt_view(doc.metadata.source_id) == Some(input.page.id@)
                &&& doc.metadata.custom@.len() == 0
                &&& doc.styles.styles@.len() == 0
                &&& (as_object_spec(input.page.properties@) matches Some(es) && names_unique(es)
                    ==> doc.metadata.has_unique_names())
            },
    {
        let blocks = &input.blocks;
        let ghost bs = nblocks_view(blocks@);
        proof {
            lemma_nblocks_view(blocks@);
        }
        let mut out: Vec<UniversalBlock> = Vec::new();
        let mut i: usize = 0;
        while i < blocks.len()
            invariant
                i <= blocks.len(),
                bs == nblocks_view(blocks@),
                bs.len() == blocks.len(),
                forall|q: int| 0 <= q < blocks.len() ==> #[trigger] bs[q] == blocks@[q]@,
                blocks_view(out@) + regrouped(bs, i as int) == regrouped(bs, 0),
            decreases blocks.len() - i,
        {
            let is_table = match &blocks[i].block_type {
                BlockType::Table { .. } => true,
                _ => false,
            };
            let ghost rest = regrouped(bs, i as int);
            if is_table {
                let (t, j) = group_table(blocks, i);
                proof {
                    lemma_rows_end(bs, i + 1);
                    lemma_blocks_view_push(out@, t);
                }
                out.push(t);
                assert(blocks_view(out@) + regrouped(bs, j as int) =~= regrouped(bs, 0));
                i = j;
            } else {
                match block_to_ir(&blocks[i]) {
                    Ok(b) => {
                        proof {
                            lemma_blocks_view_push(out@, b);
                        }
                        out.push(b);
                    },
                    Err(e) => {
                        return Err(e);
                    },
                }
                assert(blocks_view(out@) + regrouped(bs, i + 1) =~= regrouped(bs, 0));
                i = i + 1;
            }
        }
        assert(blocks_view(out@) =~= regrouped(bs, 0));
        let ghost pj = input.page.properties@;
        let metadata = DocumentMetadata {
            title: Some(input.page.title_from_properties()),
            author: Some(input.page.created_by.id.clone()),
            created_time: Some(input.page.created_time.clone()),
            last_edited_time: Some(input.page.last_edited_time.clone()),
            properties: verbatim_properties_of(&input.page.properties),
            source_platform: Some(Platform::Notion),
            source_id: Some(input.page.id.clone()),
            custom: Vec::new(),
        };
        proof {
            if let Some(es) = as_object_spec(pj) {
                if names_unique(es) {
                    let vp = verbatim_properties(pj);
                    assert forall|i: int, j: int| 0 <= i < j < vp.len() implies (#[trigger] vp[i]).0 != (#[trigger] vp[j]).0 by {
                        assert(es[i].0 != es[j].0);
                    }
                }
            }
        }
        Ok(UniversalDocument { metadata, blocks: out, styles: StyleSheet::empty() })
    }
}

/// Each property of a page kept verbatim under the key `unknown`.
pub open spec fn verbatim_properties(props: SpecJson) -> Seq<(Seq<char>, SpecProperty)> {
    match as_object_spec(props) {
        Some(entries) => Seq::new(
            entries.len(),
            |i: int| (entries[i].0, SpecProperty::Custom { key: "unknown"@, value: entries[i].1 }),
        ),
        None => seq![],
    }
}

/// Each property of a page kept verbatim.
fn verbatim_properties_of(props: &JsonValue) -> (r: Vec<(String, PropertyValue)>)
    ensures
        props_view(r@) == verbatim_properties(props@),
{
    let mut out: Vec<(String, PropertyValue)> = Vec::new();
    match props {
        JsonValue::Object(entries) => {
            proof {
                lemma_member_views(entries@);
            }
            let mut i: usize = 0;
            while i < entries.len()
                invariant
                    i <= entries.len(),
                    out.len() == i,
                    forall|j: int| 0 <= j < entries.len() ==> #[trigger] member_views(entries@)[j] == (entries@[j].0@, entries@[j].1@),
                    forall|j: int|
                        0 <= j < i ==> (#[trigger] out@[j]).0@ == entries@[j].0@ && out@[j].1@ == (SpecProperty::Custom {
                            key: "unknown"@,
                            value: entries@[j].1@,
                        }),
                decreases entries.len() - i,
            {
                out.push(
                    (
                        entries[i].0.clone(),
                        PropertyValue::Custom { key: String::from_str("unknown"), value: entries[i].1.copy() },
                    ),
                );
                i = i + 1;
            }
            assert(props_view(out@) =~= verbatim_properties(props@));
        },
        _ => {
            assert(props_view(out@) =~= verbatim_properties(props@));
        },
    }
    out
}

/// The Notion property body of a universal property value; `None` for the
/// kinds that are not written to Notion.
pub open spec fn prop_json(p: SpecProperty) -> Option<SpecJson> {
    match p {
        SpecProperty::Title { title } => Some(SpecJson::Object(seq![("title"@, rich_seq_json(rich_of(title)))])),
        SpecProperty::RichText { rich_text } => Some(
            SpecJson::Object(seq![("rich_text"@, rich_seq_json(rich_of(rich_text)))]),
        ),
        SpecProperty::Number { number } => Some(SpecJson::Object(seq![("number"@, match number {
            Some(d) => double_json(d),
            None => SpecJson::Null,
        })])),
        SpecProperty::Select { select } => Some(SpecJson::Object(seq![("select"@, match select {
            Some(o) => select_json(o),
            None => SpecJson::Null,
        })])),
        SpecProperty::MultiSelect { multi_select } => Some(
            SpecJson::Object(
                seq![("multi_select"@, SpecJson::Array(Seq::new(multi_select.len(), |i: int| select_json(multi_select[i]))))],
            ),
        ),
        SpecProperty::Date { date } => Some(SpecJson::Object(seq![("date"@, match date {
            Some(d) => date_json(d),
            None => SpecJson::Null,
        })])),
        SpecProperty::Checkbox { checkbox } => Some(SpecJson::Object(seq![("checkbox"@, SpecJson::Bool(checkbox))])),
        SpecProperty::Url { url } => Some(SpecJson::Object(seq![("url"@, opt_str_json(url))])),
        SpecProperty::Email { email } => Some(SpecJson::Object(seq![("email"@, opt_str_json(email))])),
        SpecProperty::PhoneNumber { phone_number } => Some(
            SpecJson::Object(seq![("phone_number"@, opt_str_json(phone_number))]),
        ),
        SpecProperty::Relation { relation } => Some(
            SpecJson::Object(seq![("relation"@, SpecJson::Array(Seq::new(relation.len(), |i: int| id_json(relation[i]))))]),
        ),
        SpecProperty::Files { files } => Some(
            SpecJson::Object(seq![("files"@, SpecJson::Array(Seq::new(files.len(), |i: int| file_value_json(files[i]))))]),
        ),
        SpecProperty::Custom { value, .. } => Some(value),
        SpecProperty::Other { .. } => None,
    }
}

/// The prefix of the error for a property kind that is not written.
pub open spec fn unwritable_prefix() -> Seq<char> {
    "Property type not yet implemented: "@
}

/// The kind of a property, as its JSON form names it under `type` (empty
/// when it names none).
pub open spec fn property_kind(p: SpecProperty) -> Seq<char> {
    match p {
        SpecProperty::Other { json } => match json {
            SpecJson::Object(m) => if m.len() > 0 && m[0].0 == "type"@ {
                match m[0].1 {
                    SpecJson::Str(t) => t,
                    _ => seq![],
                }
            } else {
                seq![]
            },
            _ => seq![],
        },
        _ => seq![],
    }
}

/// The error message for a property that is not written to Notion: the
/// prefix, then the property's kind.
pub open spec fn unwritable_message(p: SpecProperty) -> Seq<char> {
    unwritable_prefix() + property_kind(p)
}

/// The kind of a property that is not written to Notion.
fn unwritable_kind(value: &PropertyValue) -> (r: &'static str)
    requires
        value@ is Other,
    ensures
        r@ == property_kind(value@),
{
    proof {
        reveal_strlit("type");
    }
    match value {
        PropertyValue::CreatedTime { .. } => "created_time",
        PropertyValue::CreatedBy { .. } => "created_by",
        PropertyValue::LastEditedTime { .. } => "last_edited_time",
        PropertyValue::LastEditedBy { .. } => "last_edited_by",
        PropertyValue::Formula { .. } => "formula",
        PropertyValue::Rollup { .. } => "rollup",
        PropertyValue::UniqueId { .. } => "unique_id",
        PropertyValue::Verification { .. } => "verification",
        PropertyValue::Status { .. } => "status",
        _ => "",
    }
}

/// A JSON array of the values built for each element.
fn select_array(opts: &[SelectOption]) -> (r: JsonValue)
    ensures
        r@ == SpecJson::Array(Seq::new(opts@.len(), |i: int| select_json(opts@[i]@))),
{
    let mut out: Vec<JsonValue> = Vec::new();
    let mut i: usize = 0;
    while i < opts.len()
        invariant
            i <= opts.len(),
            out.len() == i,
            forall|j: int| 0 <= j < i ==> (#[trigger] out@[j])@ == select_json(opts@[j]@),
        decreases opts.len() - i,
    {
        out.push(opts[i].to_json());
        i = i + 1;
    }
    proof {
        lemma_json_views(out@);
        assert(json_views(out@) =~= Seq::new(opts@.len(), |i: int| select_json(opts@[i]@)));
    }
    JsonValue::Array(out)
}

/// A JSON array of `{"id": id}` objects.
fn relation_array(ids: &[String]) -> (r: JsonValue)
    ensures
        r@ == SpecJson::Array(Seq::new(ids@.len(), |i: int| id_json(ids@[i]@))),
{
    let mut out: Vec<JsonValue> = Vec::new();
    let mut i: usize = 0;
    while i < ids.len()
        invariant
            i <= ids.len(),
            out.len() == i,
            forall|j: int| 0 <= j < i ==> (#[trigger] out@[j])@ == id_json(ids@[j]@),
        decreases ids.len() - i,
    {
        out.push(JsonValue::single("id", JsonValue::String(ids[i].clone())));
        i = i + 1;
    }
    proof {
        lemma_json_views(out@);
        assert(json_views(out@) =~= Seq::new(ids@.len(), |i: int| id_json(ids@[i]@)));
    }
    JsonValue::Array(out)
}

/// A JSON array of files.
fn files_array(files: &[FileValue]) -> (r: JsonValue)
    ensures
        r@ == SpecJson::Array(Seq::new(files@.len(), |i: int| file_value_json(files@[i]@))),
{
    let mut out: Vec<JsonValue> = Vec::new();
    let mut i: usize = 0;
    while i < files.len()
        invariant
            i <= files.len(),
            out.len() == i,
            forall|j: int| 0 <= j < i ==> (#[trigger] out@[j])@ == file_value_json(files@[j]@),
        decreases files.len() - i,
    {
        out.push(files[i].to_json());
        i = i + 1;
    }
    proof {
        lemma_json_views(out@);
        assert(json_views(out@) =~= Seq::new(files@.len(), |i: int| file_value_json(files@[i]@)));
    }
    JsonValue::Array(out)
}

/// The Notion property body of a universal property value.
pub fn property_value_from_ir(value: &PropertyValue) -> (r: Result<JsonValue, ConverterError>)
    ensures
        match prop_json(value@) {
            Some(j) => r matches Ok(v) && v@ == j,
            None => r matches Err(ConverterError::ConversionFailed(m)) && m@ == unwritable_message(value@),
        },
{
    match value {
        PropertyValue::Title { title } => Ok(
            JsonValue::single("title", rich_text_array_json(inline_to_rich_text(title.as_slice()).as_slice())),
        ),
        PropertyValue::RichText { rich_text } => Ok(
            JsonValue::single("rich_text", rich_text_array_json(inline_to_rich_text(rich_text.as_slice()).as_slice())),
        ),
        PropertyValue::Number { number } => {
            let v = match number {
                Some(d) => double_to_json(*d),
                None => JsonValue::Null,
            };
            Ok(JsonValue::single("number", v))
        },
        PropertyValue::Select { select } => {
            let v = match select {
                Some(o) => o.to_json(),
                None => JsonValue::Null,
            };
            Ok(JsonValue::single("select", v))
        },
        PropertyValue::MultiSelect { multi_select } => {
            let a = select_array(multi_select.as_slice());
            proof {
                let sv = crate::ir::metadata::selects_view(multi_select@);
                let l = Seq::new(multi_select@.len(), |i: int| select_json(multi_select@[i]@));
                let r = Seq::new(sv.len(), |i: int| select_json(sv[i]));
                assert forall|i: int| 0 <= i < l.len() implies l[i] == r[i] by {
                    assert(sv[i] == multi_select@[i]@);
                }
                assert(l =~= r);
            }
            Ok(JsonValue::single("multi_select", a))
        },
        PropertyValue::Date { date } => {
            let v = match date {
                Some(d) => d.to_json(),
                None => JsonValue::Null,
            };
            Ok(JsonValue::single("date", v))
        },
        PropertyValue::Checkbox { checkbox } => Ok(JsonValue::single("checkbox", JsonValue::Bool(*checkbox))),
        PropertyValue::Url { url } => Ok(JsonValue::single("url", opt_str_to_json(url))),
        PropertyValue::Email { email } => Ok(JsonValue::single("email", opt_str_to_json(email))),
        PropertyValue::PhoneNumber { phone_number } => Ok(
            JsonValue::single("phone_number", opt_str_to_json(phone_number)),
        ),
        PropertyValue::Relation { relation } => {
            let a = relation_array(relation.as_slice());
            proof {
                let sv = crate::ir::metadata::strings_view(relation@);
                let l = Seq::new(relation@.len(), |i: int| id_json(relation@[i]@));
                let r = Seq::new(sv.len(), |i: int| id_json(sv[i]));
                assert forall|i: int| 0 <= i < l.len() implies l[i] == r[i] by {
                    assert(sv[i] == relation@[i]@);
                }
                assert(l =~= r);
            }
            Ok(JsonValue::single("relation", a))
        },
        PropertyValue::Files { files } => {
            let a = files_array(files.as_slice());
            proof {
                let sv = crate::ir::metadata::file_values_view(files@);
                let l = Seq::new(files@.len(), |i: int| file_value_json(files@[i]@));
                let r = Seq::new(sv.len(), |i: int| file_value_json(sv[i]));
                assert forall|i: int| 0 <= i < l.len() implies l[i] == r[i] by {
                    assert(sv[i] == files@[i]@);
                }
                assert(l =~= r);
            }
            Ok(JsonValue::single("files", a))
        },
        PropertyValue::Custom { value, .. } => Ok(value.copy()),
        _ => {
            let mut m: Vec<char> = Vec::new();
            extend_str(&mut m, "Property type not yet implemented: ");
            let d = unwritable_kind(value);
            extend_str(&mut m, d);
            assert(m@ =~= unwritable_message(value@));
            Err(ConverterError::ConversionFailed(string_of(&m)))
        },
    }
}

/// The first property that is not written to Notion.
pub open spec fn first_unwritable(props: Seq<(Seq<char>, SpecProperty)>, n: int) -> Option<int>
    decreases n,
{
    if n <= 0 {
        None
    } else {
        match first_unwritable(props, n - 1) {
            Some(k) => Some(k),
            None => if prop_json(props[n - 1].1) is None {
                Some(n - 1)
            } else {
                None
            },
        }
    }
}

/// Once an unwritable property is found, longer prefixes find it too.
proof fn lemma_first_unwritable_stays(props: Seq<(Seq<char>, SpecProperty)>, n: int, m: int)
    requires
        0 <= n <= m,
        first_unwritable(props, n) is Some,
    ensures
        first_unwritable(props, m) == first_unwritable(props, n),
    decreases m - n,
{
    if m > n {
        lemma_first_unwritable_stays(props, n, m - 1);
    }
}

/// The Notion properties object of universal properties, one member per
/// property in order.
pub open spec fn properties_json(props: Seq<(Seq<char>, SpecProperty)>) -> SpecJson {
    SpecJson::Object(Seq::new(props.len(), |i: int| (props[i].0, prop_json(props[i].1).unwrap())))
}

/// Converts universal properties to a Notion properties object; the first
/// property of a kind that is not written stops the conversion.
pub fn properties_from_ir(props: &[(String, PropertyValue)]) -> (r: Result<JsonValue, ConverterError>)
    ensures
        match first_unwritable(props_view(props@), props@.len() as int) {
            None => r matches Ok(v) && v@ == properties_json(props_view(props@)),
            Some(k) => r matches Err(ConverterError::ConversionFailed(m)) && m@ == unwritable_message(
                props_view(props@)[k].1,
            ),
        },
{
    let ghost pv = props_view(props@);
    let mut out: Vec<(String, JsonValue)> = Vec::new();
    let mut i: usize = 0;
    while i < props.len()
        invariant
            i <= props.len(),
            pv == props_view(props@),
            first_unwritable(pv, i as int) is None,
            out.len() == i,
            forall|j: int|
                0 <= j < i ==> (#[trigger] out@[j]).0@ == pv[j].0 && prop_json(pv[j].1) == Some(out@[j].1@),
        decreases props.len() - i,
    {
        match property_value_from_ir(&props[i].1) {
            Ok(v) => {
                out.push((props[i].0.clone(), v));
            },
            Err(e) => {
                proof {
                    assert(first_unwritable(pv, i + 1) == Some(i as int));
                    lemma_first_unwritable_stays(pv, i + 1, props.len() as int);
                }
                return Err(e);
            },
        }
        i = i + 1;
    }
    proof {
        lemma_member_views(out@);
        assert(member_views(out@) =~= Seq::new(pv.len(), |i: int| (pv[i].0, prop_json(pv[i].1).unwrap())));
    }
    Ok(JsonValue::Object(out))
}

/// The parent of a page created from a document: the source page when there
/// is one, else the workspace.
pub open spec fn parent_json(source_id: Option<Seq<char>>) -> SpecJson {
    match source_id {
        Some(id) => SpecJson::Object(seq![("page_id"@, SpecJson::Str(id))]),
        None => SpecJson::Object(seq![("workspace"@, SpecJson::Bool(true))]),
    }
}

impl NotionToPlatform {
    /// A page-creation request for a document: its parent, its properties
    /// and its blocks. The first property, then the first block, that cannot
    /// be written makes the conversion fail.
    pub fn to_platform(doc: &UniversalDocument) -> (r: Result<CreatePageRequest, ConverterError>)
        ensures
            first_unwritable(props_view(doc.metadata.properties@), doc.metadata.properties@.len() as int) matches Some(k)
                ==> (r matches Err(ConverterError::ConversionFailed(m)) && m@ == unwritable_message(
                props_view(doc.metadata.properties@)[k].1,
            )),
            first_unwritable(props_view(doc.metadata.properties@), doc.metadata.properties@.len() as int) is None
                ==> match first_refused(blocks_view(doc.blocks@), doc.blocks@.len() as int) {
                Some(k) => r matches Err(ConverterError::ConversionFailed(m)) && m@ == export_error(
                    blocks_view(doc.blocks@)[k],
                ),
                None => r matches Ok(req) && {
                    &&& req.parent@ == parent_json(opt_view(doc.metadata.source_id))
                    &&& req.properties@ == properties_json(props_view(doc.metadata.properties@))
                    &&& req.children matches Some(c) && c@.len() == doc.blocks@.len() && forall|i: int|
                        0 <= i < c@.len() ==> #[trigger] c@[i]@ == exported(
                            blocks_view(doc.blocks@)[i],
                            c@[i]@.created_time,
                        ) && rfc3339_utc(c@[i]@.created_time)
                    &&& req.icon is None
                    &&& req.cover is None
                },
            },
    {
        let parent = match &doc.metadata.source_id {
            Some(id) => JsonValue::single("page_id", JsonValue::String(id.clone())),
            None => JsonValue::single("workspace", JsonValue::Bool(true)),
        };
        let properties = match properties_from_ir(doc.metadata.properties.as_slice()) {
            Ok(p) => p,
            Err(e) => {
                return Err(e);
            },
        };
        let children = match blocks_to_notion(doc.blocks.as_slice()) {
            Ok(c) => c,
            Err(e) => {
                return Err(e);
            },
        };
        Ok(CreatePageRequest { parent, properties, children: Some(children), icon: None, cover: None })
    }
}

} // verus!
