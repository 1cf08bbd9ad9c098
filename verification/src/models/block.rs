//! Notion blocks.
use crate::ir::inline::opt_view;
use crate::ir::metadata::push_member;
use crate::json::{member_views, JsonValue, SpecJson};
use crate::models::common::{opt_icon, rich_view, FileBlockContent, Icon, RichText, SpecFile, SpecIcon, SpecRichText, SpecUser, User};
use vstd::prelude::*;

verus! {

broadcast use vstd::std_specs::vec::group_vec_axioms;

/// Content of a text-like block (paragraph, list item, quote, toggle).
#[derive(Debug)]
pub struct TextBlockContent {
    pub rich_text: Vec<RichText>,
    pub color: String,
    pub children: Option<Vec<Block>>,
}

/// Content of a heading block.
#[derive(Debug)]
pub struct HeadingContent {
    pub rich_text: Vec<RichText>,
    pub color: String,
    pub is_toggleable: bool,
    pub children: Option<Vec<Block>>,
}

/// Content of a to-do block.
#[derive(Debug)]
pub struct ToDoContent {
    pub rich_text: Vec<RichText>,
    pub checked: bool,
    pub color: String,
    pub children: Option<Vec<Block>>,
}

/// Content of a callout block.
#[derive(Debug)]
pub struct CalloutContent {
    pub rich_text: Vec<RichText>,
    pub icon: Option<Icon>,
    pub color: String,
    pub children: Option<Vec<Block>>,
}

/// Content of a code block.
#[derive(Debug)]
pub struct CodeBlockContent {
    pub rich_text: Vec<RichText>,
    pub caption: Vec<RichText>,
    pub language: String,
}

/// Content of a bookmark or embed block.
#[derive(Debug)]
pub struct UrlContent {
    pub url: String,
}

/// Content of a table block; its rows are `TableRow` children.
#[derive(Debug)]
pub struct TableContent {
    pub table_width: u32,
    pub has_column_header: bool,
    pub has_row_header: bool,
    pub children: Option<Vec<Block>>,
}

/// Content of a table row: one rich-text sequence per cell.
#[derive(Debug)]
pub struct TableRowContent {
    pub cells: Vec<Vec<RichText>>,
}

/// The type-specific part of a block.
#[derive(Debug)]
pub enum BlockType {
    Paragraph { paragraph: TextBlockContent },
    Heading1 { heading_1: HeadingContent },
    Heading2 { heading_2: HeadingContent },
    Heading3 { heading_3: HeadingContent },
    BulletedListItem { bulleted_list_item: TextBlockContent },
    NumberedListItem { numbered_list_item: TextBlockContent },
    ToDo { to_do: ToDoContent },
    Toggle { toggle: TextBlockContent },
    Quote { quote: TextBlockContent },
    Callout { callout: CalloutContent },
    Divider,
    CodeBlock { code: CodeBlockContent },
    Image { image: FileBlockContent },
    Video { video: FileBlockContent },
    File { file: FileBlockContent },
    Pdf { pdf: FileBlockContent },
    Bookmark { bookmark: UrlContent },
    Embed { embed: UrlContent },
    Table { table: TableContent },
    TableRow { table_row: TableRowContent },
    /// A block type this model does not describe, by its API name.
    Unsupported { kind: String },
}

/// A Notion block.
#[derive(Debug)]
pub struct Block {
    pub object: String,
    pub id: String,
    /// Creation timestamp (RFC 3339).
    pub created_time: String,
    /// Last edit timestamp (RFC 3339).
    pub last_edited_time: String,
    pub created_by: User,
    pub last_edited_by: User,
    pub has_children: bool,
    pub in_trash: bool,
    pub parent: Option<JsonValue>,
    pub block_type: BlockType,
}

/// The content of a text-like block.
pub struct SpecText {
    pub rich_text: Seq<SpecRichText>,
    pub color: Seq<char>,
    pub children: Option<Seq<SpecNBlock>>,
}

/// The content of a heading.
pub struct SpecHeading {
    pub rich_text: Seq<SpecRichText>,
    pub color: Seq<char>,
    pub is_toggleable: bool,
    pub children: Option<Seq<SpecNBlock>>,
}

/// The content of a to-do.
pub struct SpecToDo {
    pub rich_text: Seq<SpecRichText>,
    pub checked: bool,
    pub color: Seq<char>,
    pub children: Option<Seq<SpecNBlock>>,
}

/// The content of a callout.
pub struct SpecCallout {
    pub rich_text: Seq<SpecRichText>,
    pub icon: Option<SpecIcon>,
    pub color: Seq<char>,
    pub children: Option<Seq<SpecNBlock>>,
}

/// The content of a table.
pub struct SpecTable {
    pub table_width: u32,
    pub has_column_header: bool,
    pub has_row_header: bool,
    pub children: Option<Seq<SpecNBlock>>,
}

/// The content of a [`BlockType`].
pub enum SpecKind {
    Paragraph(SpecText),
    Heading1(SpecHeading),
    Heading2(SpecHeading),
    Heading3(SpecHeading),
    BulletedListItem(SpecText),
    NumberedListItem(SpecText),
    ToDo(SpecToDo),
    Toggle(SpecText),
    Quote(SpecText),
    Callout(SpecCallout),
    Divider,
    Code { rich_text: Seq<SpecRichText>, caption: Seq<SpecRichText>, language: Seq<char> },
    Image(SpecFile),
    Video(SpecFile),
    File(SpecFile),
    Pdf(SpecFile),
    Bookmark(Seq<char>),
    Embed(Seq<char>),
    Table(SpecTable),
    TableRow(Seq<Seq<SpecRichText>>),
    Unsupported(Seq<char>),
}

/// The content of a [`Block`].
pub struct SpecNBlock {
    pub object: Seq<char>,
    pub id: Seq<char>,
    pub created_time: Seq<char>,
    pub last_edited_time: Seq<char>,
    pub created_by: SpecUser,
    pub last_edited_by: SpecUser,
    pub has_children: bool,
    pub in_trash: bool,
    pub parent: Option<SpecJson>,
    pub kind: SpecKind,
}

/// The contents of table cells.
pub open spec fn cells_rich_view(s: Seq<Vec<RichText>>) -> Seq<Seq<SpecRichText>> {
    Seq::new(s.len(), |i: int| rich_view(s[i]@))
}

/// The content of a text-like block.
pub open spec fn text_view(c: TextBlockContent) -> SpecText
    decreases c, 1nat,
{
    SpecText {
        rich_text: rich_view(c.rich_text@),
        color: c.color@,
        children: match c.children {
            Some(v) => Some(nblocks_view(v@)),
            None => None,
        },
    }
}

/// The content of a to-do.
pub open spec fn todo_view(c: ToDoContent) -> SpecToDo
    decreases c, 1nat,
{
    SpecToDo {
        rich_text: rich_view(c.rich_text@),
        checked: c.checked,
        color: c.color@,
        children: match c.children {
            Some(v) => Some(nblocks_view(v@)),
            None => None,
        },
    }
}

/// The content of a heading.
pub open spec fn heading_view(c: HeadingContent) -> SpecHeading
    decreases c, 1nat,
{
    SpecHeading {
        rich_text: rich_view(c.rich_text@),
        color: c.color@,
        is_toggleable: c.is_toggleable,
        children: match c.children {
            Some(v) => Some(nblocks_view(v@)),
            None => None,
        },
    }
}

/// The content of a block type.
pub open spec fn kind_view(t: BlockType) -> SpecKind
    decreases t, 2nat,
{
    match t {
        BlockType::Paragraph { paragraph } => SpecKind::Paragraph(text_view(paragraph)),
        BlockType::Heading1 { heading_1 } => SpecKind::Heading1(heading_view(heading_1)),
        BlockType::Heading2 { heading_2 } => SpecKind::Heading2(heading_view(heading_2)),
        BlockType::Heading3 { heading_3 } => SpecKind::Heading3(heading_view(heading_3)),
        BlockType::BulletedListItem { bulleted_list_item } => SpecKind::BulletedListItem(
            text_view(bulleted_list_item),
        ),
        BlockType::NumberedListItem { numbered_list_item } => SpecKind::NumberedListItem(
            text_view(numbered_list_item),
        ),
        BlockType::ToDo { to_do } => SpecKind::ToDo(todo_view(to_do)),
        BlockType::Toggle { toggle } => SpecKind::Toggle(text_view(toggle)),
        BlockType::Quote { quote } => SpecKind::Quote(text_view(quote)),
        BlockType::Callout { callout } => SpecKind::Callout(
            SpecCallout {
                rich_text: rich_view(callout.rich_text@),
                icon: opt_icon(callout.icon),
                color: callout.color@,
                children: match callout.children {
                    Some(v) => Some(nblocks_view(v@)),
                    None => None,
                },
            },
        ),
        BlockType::Divider => SpecKind::Divider,
        BlockType::CodeBlock { code } => SpecKind::Code {
            rich_text: rich_view(code.rich_text@),
            caption: rich_view(code.caption@),
            language: code.language@,
        },
        BlockType::Image { image } => SpecKind::Image(image.file_type@),
        BlockType::Video { video } => SpecKind::Video(video.file_type@),
        BlockType::File { file } => SpecKind::File(file.file_type@),
        BlockType::Pdf { pdf } => SpecKind::Pdf(pdf.file_type@),
        BlockType::Bookmark { bookmark } => SpecKind::Bookmark(bookmark.url@),
        BlockType::Embed { embed } => SpecKind::Embed(embed.url@),
        BlockType::Table { table } => SpecKind::Table(
            SpecTable {
                table_width: table.table_width,
                has_column_header: table.has_column_header,
                has_row_header: table.has_row_header,
                children: match table.children {
                    Some(v) => Some(nblocks_view(v@)),
                    None => None,
                },
            },
        ),
        BlockType::TableRow { table_row } => SpecKind::TableRow(cells_rich_view(table_row.cells@)),
        BlockType::Unsupported { kind } => SpecKind::Unsupported(kind@),
    }
}

impl View for Block {
    type V = SpecNBlock;

    open spec fn view(&self) -> SpecNBlock
        decreases self, 3nat,
    {
        SpecNBlock {
            object: self.object@,
            id: self.id@,
            created_time: self.created_time@,
            last_edited_time: self.last_edited_time@,
            created_by: self.created_by@,
            last_edited_by: self.last_edited_by@,
            has_children: self.has_children,
            in_trash: self.in_trash,
            parent: match self.parent {
                Some(p) => Some(p@),
                None => None,
            },
            kind: kind_view(self.block_type),
        }
    }
}

/// The contents of a sequence of blocks.
pub open spec fn nblocks_view(s: Seq<Block>) -> Seq<SpecNBlock>
    decreases s, 0nat,
{
    if s.len() == 0 {
        Seq::empty()
    } else {
        nblocks_view(s.subrange(0, s.len() - 1)).push(s[s.len() - 1]@)
    }
}

/// Block views keep length and position.
pub proof fn lemma_nblocks_view(s: Seq<Block>)
    ensures
        nblocks_view(s).len() == s.len(),
        forall|j: int| 0 <= j < s.len() ==> #[trigger] nblocks_view(s)[j] == s[j]@,
    decreases s.len(),
{
    if s.len() > 0 {
        lemma_nblocks_view(s.subrange(0, s.len() - 1));
        assert(nblocks_view(s) == nblocks_view(s.subrange(0, s.len() - 1)).push(s[s.len() - 1]@));
    }
}

/// The API name of a block type.
pub open spec fn kind_name(k: SpecKind) -> Seq<char> {
    match k {
        SpecKind::Paragraph(_) => "paragraph"@,
        SpecKind::Heading1(_) => "heading_1"@,
        SpecKind::Heading2(_) => "heading_2"@,
        SpecKind::Heading3(_) => "heading_3"@,
        SpecKind::BulletedListItem(_) => "bulleted_list_item"@,
        SpecKind::NumberedListItem(_) => "numbered_list_item"@,
        SpecKind::ToDo(_) => "to_do"@,
        SpecKind::Toggle(_) => "toggle"@,
        SpecKind::Quote(_) => "quote"@,
        SpecKind::Callout(_) => "callout"@,
        SpecKind::Divider => "divider"@,
        SpecKind::Code { .. } => "code"@,
        SpecKind::Image(_) => "image"@,
        SpecKind::Video(_) => "video"@,
        SpecKind::File(_) => "file"@,
        SpecKind::Pdf(_) => "pdf"@,
        SpecKind::Bookmark(_) => "bookmark"@,
        SpecKind::Embed(_) => "embed"@,
        SpecKind::Table(_) => "table"@,
        SpecKind::TableRow(_) => "table_row"@,
        SpecKind::Unsupported(k) => k,
    }
}

impl Block {
    /// The API name of this block's type.
    pub fn type_str(&self) -> (r: String)
        ensures
            r@ == kind_name(kind_view(self.block_type)),
    {
        match &self.block_type {
            BlockType::Paragraph { .. } => String::from_str("paragraph"),
            BlockType::Heading1 { .. } => String::from_str("heading_1"),
            BlockType::Heading2 { .. } => String::from_str("heading_2"),
            BlockType::Heading3 { .. } => String::from_str("heading_3"),
            BlockType::BulletedListItem { .. } => String::from_str("bulleted_list_item"),
            BlockType::NumberedListItem { .. } => String::from_str("numbered_list_item"),
            BlockType::ToDo { .. } => String::from_str("to_do"),
            BlockType::Toggle { .. } => String::from_str("toggle"),
            BlockType::Quote { .. } => String::from_str("quote"),
            BlockType::Callout { .. } => String::from_str("callout"),
            BlockType::Divider => String::from_str("divider"),
            BlockType::CodeBlock { .. } => String::from_str("code"),
            BlockType::Image { .. } => String::from_str("image"),
            BlockType::Video { .. } => String::from_str("video"),
            BlockType::File { .. } => String::from_str("file"),
            BlockType::Pdf { .. } => String::from_str("pdf"),
            BlockType::Bookmark { .. } => String::from_str("bookmark"),
            BlockType::Embed { .. } => String::from_str("embed"),
            BlockType::Table { .. } => String::from_str("table"),
            BlockType::TableRow { .. } => String::from_str("table_row"),
            BlockType::Unsupported { kind } => kind.clone(),
        }
    }
}

} // verus!
