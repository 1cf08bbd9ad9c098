//! Universal block types covering Notion, CommonMark, GFM, Lark and Google
//! Docs block structures.
use crate::ir::inline::{inlines_view, opt_view, InlineElement, SpecInline};
use crate::ir::style::{opt_ref, StyleRef};
use crate::ir::table::{cells_view, rows_view, SpecCell, SpecRow, TableCell, TableRow};
use crate::ir::Platform;
use crate::json::{JsonValue, SpecJson};
use vstd::prelude::*;

verus! {

broadcast use vstd::std_specs::vec::group_vec_axioms;

/// List item with nested blocks.
#[derive(Debug)]
pub struct ListItem {
    pub content: Vec<UniversalBlock>,
    pub style: Option<StyleRef>,
}

/// Task list item (checkbox).
#[derive(Debug)]
pub struct TaskItem {
    pub content: Vec<UniversalBlock>,
    pub checked: bool,
    pub style: Option<StyleRef>,
}

/// All block types that exist across platforms.
#[derive(Debug)]
pub enum UniversalBlock {
    /// Paragraph with rich text content.
    Paragraph { content: Vec<InlineElement>, style: Option<StyleRef> },
    /// Heading level 1-6.
    Heading { level: u8, content: Vec<InlineElement>, style: Option<StyleRef> },
    /// Fenced or indented code block.
    CodeBlock { language: Option<String>, content: String, style: Option<StyleRef> },
    /// Blockquote — can contain nested blocks.
    Quote { content: Vec<UniversalBlock>, style: Option<StyleRef> },
    BulletList { items: Vec<ListItem>, style: Option<StyleRef> },
    OrderedList { items: Vec<ListItem>, start: u32, style: Option<StyleRef> },
    TaskList { items: Vec<TaskItem>, style: Option<StyleRef> },
    Image {
        src: MediaSource,
        alt: Option<String>,
        caption: Option<Vec<InlineElement>>,
        style: Option<StyleRef>,
    },
    Video { src: MediaSource, caption: Option<Vec<InlineElement>>, style: Option<StyleRef> },
    File { src: MediaSource, name: String, style: Option<StyleRef> },
    Table { rows: Vec<TableRow>, header: Option<Vec<TableCell>>, style: Option<StyleRef> },
    Callout {
        icon: Option<String>,
        color: Option<String>,
        content: Vec<UniversalBlock>,
        style: Option<StyleRef>,
    },
    Toggle {
        summary: Vec<InlineElement>,
        content: Vec<UniversalBlock>,
        style: Option<StyleRef>,
    },
    Columns { columns: Vec<Vec<UniversalBlock>>, style: Option<StyleRef> },
    PageBreak,
    TableOfContents { depth: u8, style: Option<StyleRef> },
    Embed {
        url: String,
        provider: EmbedProvider,
        fallback: Option<Vec<UniversalBlock>>,
        style: Option<StyleRef>,
    },
    Mention {
        mention_type: MentionType,
        target: String,
        label: Option<String>,
        style: Option<StyleRef>,
    },
    /// Platform data that has no universal counterpart, kept verbatim.
    Raw { platform: Platform, data: JsonValue },
}

/// Media source variants.
#[derive(Debug, Clone)]
pub enum MediaSource {
    /// External URL.
    External { url: String },
    /// Uploaded file with expiry.
    Uploaded { url: String, expiry_time: Option<String> },
    /// Base64 encoded data.
    Base64 { data: String, mime_type: String },
}

/// Embed provider for oEmbed-style embeds.
#[derive(Debug, Clone)]
pub enum EmbedProvider {
    YouTube,
    Figma,
    Twitter,
    GitHub,
    Loom,
    Miro,
    Whimsical,
    Framer,
    Other(String),
}

/// Mention types across platforms.
#[derive(Debug, Clone, Copy, PartialEq, Eq)]
pub enum MentionType {
    User,
    Page,
    Database,
    Date,
    DateRange,
    LinkPreview,
    UserGroup,
    Channel,
    Document,
    Issue,
    PullRequest,
}

/// The content of a [`MediaSource`].
pub enum SpecMedia {
    External { url: Seq<char> },
    Uploaded { url: Seq<char>, expiry_time: Option<Seq<char>> },
    Base64 { data: Seq<char>, mime_type: Seq<char> },
}

impl View for MediaSource {
    type V = SpecMedia;

    open spec fn view(&self) -> SpecMedia {
        match self {
            MediaSource::External { url } => SpecMedia::External { url: url@ },
            MediaSource::Uploaded { url, expiry_time } => SpecMedia::Uploaded {
                url: url@,
                expiry_time: opt_view(*expiry_time),
            },
            MediaSource::Base64 { data, mime_type } => SpecMedia::Base64 {
                data: data@,
                mime_type: mime_type@,
            },
        }
    }
}

/// The content of an [`EmbedProvider`].
pub enum SpecProvider {
    YouTube,
    Figma,
    Twitter,
    GitHub,
    Loom,
    Miro,
    Whimsical,
    Framer,
    Other(Seq<char>),
}

impl View for EmbedProvider {
    type V = SpecProvider;

    open spec fn view(&self) -> SpecProvider {
        match self {
            EmbedProvider::YouTube => SpecProvider::YouTube,
            EmbedProvider::Figma => SpecProvider::Figma,
            EmbedProvider::Twitter => SpecProvider::Twitter,
            EmbedProvider::GitHub => SpecProvider::GitHub,
            EmbedProvider::Loom => SpecProvider::Loom,
            EmbedProvider::Miro => SpecProvider::Miro,
            EmbedProvider::Whimsical => SpecProvider::Whimsical,
            EmbedProvider::Framer => SpecProvider::Framer,
            EmbedProvider::Other(s) => SpecProvider::Other(s@),
        }
    }
}

/// The content of a [`ListItem`].
pub struct SpecItem {
    pub content: Seq<SpecBlock>,
    pub style: Option<Seq<char>>,
}

/// The content of a [`TaskItem`].
pub struct SpecTask {
    pub content: Seq<SpecBlock>,
    pub checked: bool,
    pub style: Option<Seq<char>>,
}

/// The content of a [`UniversalBlock`].
pub enum SpecBlock {
    Paragraph { content: Seq<SpecInline>, style: Option<Seq<char>> },
    Heading { level: u8, content: Seq<SpecInline>, style: Option<Seq<char>> },
    CodeBlock { language: Option<Seq<char>>, content: Seq<char>, style: Option<Seq<char>> },
    Quote { content: Seq<SpecBlock>, style: Option<Seq<char>> },
    BulletList { items: Seq<SpecItem>, style: Option<Seq<char>> },
    OrderedList { items: Seq<SpecItem>, start: u32, style: Option<Seq<char>> },
    TaskList { items: Seq<SpecTask>, style: Option<Seq<char>> },
    Image {
        src: SpecMedia,
        alt: Option<Seq<char>>,
        caption: Option<Seq<SpecInline>>,
        style: Option<Seq<char>>,
    },
    Video { src: SpecMedia, caption: Option<Seq<SpecInline>>, style: Option<Seq<char>> },
    File { src: SpecMedia, name: Seq<char>, style: Option<Seq<char>> },
    Table { rows: Seq<SpecRow>, header: Option<Seq<SpecCell>>, style: Option<Seq<char>> },
    Callout {
        icon: Option<Seq<char>>,
        color: Option<Seq<char>>,
        content: Seq<SpecBlock>,
        style: Option<Seq<char>>,
    },
    Toggle { summary: Seq<SpecInline>, content: Seq<SpecBlock>, style: Option<Seq<char>> },
    Columns { columns: Seq<Seq<SpecBlock>>, style: Option<Seq<char>> },
    PageBreak,
    TableOfContents { depth: u8, style: Option<Seq<char>> },
    Embed {
        url: Seq<char>,
        provider: SpecProvider,
        fallback: Option<Seq<SpecBlock>>,
        style: Option<Seq<char>>,
    },
    Mention {
        mention_type: MentionType,
        target: Seq<char>,
        label: Option<Seq<char>>,
        style: Option<Seq<char>>,
    },
    Raw { platform: Platform, data: SpecJson },
}

/// The contents of an optional sequence of inline elements.
pub open spec fn opt_inlines(s: Option<Vec<InlineElement>>) -> Option<Seq<SpecInline>> {
    match s {
        Some(v) => Some(inlines_view(v@)),
        None => None,
    }
}

/// The contents of an optional sequence of cells.
pub open spec fn opt_cells(s: Option<Vec<TableCell>>) -> Option<Seq<SpecCell>> {
    match s {
        Some(v) => Some(cells_view(v@)),
        None => None,
    }
}

impl View for UniversalBlock {
    type V = SpecBlock;

    open spec fn view(&self) -> SpecBlock
        decreases self, 0nat,
    {
        match self {
            UniversalBlock::Paragraph { content, style } => SpecBlock::Paragraph {
                content: inlines_view(content@),
                style: opt_ref(*style),
            },
            UniversalBlock::Heading { level, content, style } => SpecBlock::Heading {
                level: *level,
                content: inlines_view(content@),
                style: opt_ref(*style),
            },
            UniversalBlock::CodeBlock { language, content, style } => SpecBlock::CodeBlock {
                language: opt_view(*language),
                content: content@,
                style: opt_ref(*style),
            },
            UniversalBlock::Quote { content, style } => SpecBlock::Quote {
                content: blocks_view(content@),
                style: opt_ref(*style),
            },
            UniversalBlock::BulletList { items, style } => SpecBlock::BulletList {
                items: items_view(items@),
                style: opt_ref(*style),
            },
            UniversalBlock::OrderedList { items, start, style } => SpecBlock::OrderedList {
                items: items_view(items@),
                start: *start,
                style: opt_ref(*style),
            },
            UniversalBlock::TaskList { items, style } => SpecBlock::TaskList {
                items: tasks_view(items@),
                style: opt_ref(*style),
            },
            UniversalBlock::Image { src, alt, caption, style } => SpecBlock::Image {
                src: src@,
                alt: opt_view(*alt),
                caption: opt_inlines(*caption),
                style: opt_ref(*style),
            },
            UniversalBlock::Video { src, caption, style } => SpecBlock::Video {
                src: src@,
                caption: opt_inlines(*caption),
                style: opt_ref(*style),
            },
            UniversalBlock::File { src, name, style } => SpecBlock::File {
                src: src@,
                name: name@,
                style: opt_ref(*style),
            },
            UniversalBlock::Table { rows, header, style } => SpecBlock::Table {
                rows: rows_view(rows@),
                header: opt_cells(*header),
                style: opt_ref(*style),
            },
            UniversalBlock::Callout { icon, color, content, style } => SpecBlock::Callout {
                icon: opt_view(*icon),
                color: opt_view(*color),
                content: blocks_view(content@),
                style: opt_ref(*style),
            },
            UniversalBlock::Toggle { summary, content, style } => SpecBlock::Toggle {
                summary: inlines_view(summary@),
                content: blocks_view(content@),
                style: opt_ref(*style),
            },
            UniversalBlock::Columns { columns, style } => SpecBlock::Columns {
                columns: columns_view(columns@),
                style: opt_ref(*style),
            },
            UniversalBlock::PageBreak => SpecBlock::PageBreak,
            UniversalBlock::TableOfContents { depth, style } => SpecBlock::TableOfContents {
                depth: *depth,
                style: opt_ref(*style),
            },
            UniversalBlock::Embed { url, provider, fallback, style } => SpecBlock::Embed {
                url: url@,
                provider: provider@,
                fallback: match fallback {
                    Some(v) => Some(blocks_view(v@)),
                    None => None,
                },
                style: opt_ref(*style),
            },
            UniversalBlock::Mention { mention_type, target, label, style } => SpecBlock::Mention {
                mention_type: *mention_type,
                target: target@,
                label: opt_view(*label),
                style: opt_ref(*style),
            },
            UniversalBlock::Raw { platform, data } => SpecBlock::Raw {
                platform: *platform,
                data: data@,
            },
        }
    }
}

/// The contents of a sequence of blocks.
pub open spec fn blocks_view(s: Seq<UniversalBlock>) -> Seq<SpecBlock>
    decreases s, s.len(),
{
    if s.len() == 0 {
        Seq::empty()
    } else {
        blocks_view(s.subrange(0, s.len() - 1)).push(s[s.len() - 1]@)
    }
}

/// The contents of a sequence of list items.
pub open spec fn items_view(s: Seq<ListItem>) -> Seq<SpecItem>
    decreases s, s.len(),
{
    if s.len() == 0 {
        Seq::empty()
    } else {
        items_view(s.subrange(0, s.len() - 1)).push(
            SpecItem {
                content: blocks_view(s[s.len() - 1].content@),
                style: opt_ref(s[s.len() - 1].style),
            },
        )
    }
}

/// The contents of a sequence of task items.
pub open spec fn tasks_view(s: Seq<TaskItem>) -> Seq<SpecTask>
    decreases s, s.len(),
{
    if s.len() == 0 {
        Seq::empty()
    } else {
        tasks_view(s.subrange(0, s.len() - 1)).push(
            SpecTask {
                content: blocks_view(s[s.len() - 1].content@),
                checked: s[s.len() - 1].checked,
                style: opt_ref(s[s.len() - 1].style),
            },
        )
    }
}

/// The contents of a sequence of columns.
pub open spec fn columns_view(s: Seq<Vec<UniversalBlock>>) -> Seq<Seq<SpecBlock>>
    decreases s, s.len(),
{
    if s.len() == 0 {
        Seq::empty()
    } else {
        columns_view(s.subrange(0, s.len() - 1)).push(blocks_view(s[s.len() - 1]@))
    }
}

/// Block views keep length and position.
pub proof fn lemma_blocks_view(s: Seq<UniversalBlock>)
    ensures
        blocks_view(s).len() == s.len(),
        forall|j: int| 0 <= j < s.len() ==> #[trigger] blocks_view(s)[j] == s[j]@,
    decreases s.len(),
{
    if s.len() > 0 {
        lemma_blocks_view(s.subrange(0, s.len() - 1));
        assert(blocks_view(s) == blocks_view(s.subrange(0, s.len() - 1)).push(s[s.len() - 1]@));
    }
}

/// A one-element block sequence views as the element's view.
pub proof fn lemma_blocks_view_single(s: Seq<UniversalBlock>)
    requires
        s.len() == 1,
    ensures
        blocks_view(s) == seq![s[0]@],
{
    lemma_blocks_view(s);
    assert(blocks_view(s) =~= seq![s[0]@]);
}

/// A one-element item sequence.
pub proof fn lemma_items_view_single(s: Seq<ListItem>)
    requires
        s.len() == 1,
    ensures
        items_view(s) == seq![SpecItem { content: blocks_view(s[0].content@), style: opt_ref(s[0].style) }],
{
    assert(s.subrange(0, 0).len() == 0);
    assert(items_view(s.subrange(0, 0)) == Seq::<SpecItem>::empty());
    assert(items_view(s) == items_view(s.subrange(0, 0)).push(SpecItem { content: blocks_view(s[0].content@), style: opt_ref(s[0].style) }));
    assert(items_view(s) =~= seq![SpecItem { content: blocks_view(s[0].content@), style: opt_ref(s[0].style) }]);
}

/// A one-element task sequence.
pub proof fn lemma_tasks_view_single(s: Seq<TaskItem>)
    requires
        s.len() == 1,
    ensures
        tasks_view(s) == seq![SpecTask { content: blocks_view(s[0].content@), checked: s[0].checked, style: opt_ref(s[0].style) }],
{
    assert(s.subrange(0, 0).len() == 0);
    assert(tasks_view(s.subrange(0, 0)) == Seq::<SpecTask>::empty());
    assert(tasks_view(s) == tasks_view(s.subrange(0, 0)).push(SpecTask { content: blocks_view(s[0].content@), checked: s[0].checked, style: opt_ref(s[0].style) }));
    assert(tasks_view(s) =~= seq![SpecTask { content: blocks_view(s[0].content@), checked: s[0].checked, style: opt_ref(s[0].style) }]);
}

/// Item views keep length and position.
pub proof fn lemma_items_view(s: Seq<ListItem>)
    ensures
        items_view(s).len() == s.len(),
        forall|j: int|
            0 <= j < s.len() ==> #[trigger] items_view(s)[j] == (SpecItem {
                content: blocks_view(s[j].content@),
                style: opt_ref(s[j].style),
            }),
    decreases s.len(),
{
    if s.len() > 0 {
        lemma_items_view(s.subrange(0, s.len() - 1));
    }
}

/// Task views keep length and position.
pub proof fn lemma_tasks_view(s: Seq<TaskItem>)
    ensures
        tasks_view(s).len() == s.len(),
        forall|j: int|
            0 <= j < s.len() ==> #[trigger] tasks_view(s)[j] == (SpecTask {
                content: blocks_view(s[j].content@),
                checked: s[j].checked,
                style: opt_ref(s[j].style),
            }),
    decreases s.len(),
{
    if s.len() > 0 {
        lemma_tasks_view(s.subrange(0, s.len() - 1));
    }
}

/// Pushing a block extends the view by the block's view.
pub proof fn lemma_blocks_view_push(s: Seq<UniversalBlock>, b: UniversalBlock)
    ensures
        blocks_view(s.push(b)) == blocks_view(s).push(b@),
{
    assert(s.push(b).subrange(0, s.len() as int) =~= s);
}

} // verus!
