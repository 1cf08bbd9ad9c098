//! Blocks as the JSON the Notion API takes when blocks are created.
//!
//! A block is `{"object": "block", "type": <type>, <type>: <content>}`;
//! the content holds the block's rich text, attributes and, for blocks
//! that nest, its children.
use crate::ir::metadata::push_member;
use crate::json::{lemma_json_views, json_views, member_views, JsonValue, SpecJson};
use crate::models::block::{
    heading_view, kind_name, kind_view, lemma_nblocks_view, nblocks_view, text_view, todo_view, Block, BlockType,
    CalloutContent, HeadingContent, SpecHeading, SpecKind, SpecNBlock, SpecText, SpecToDo, TableContent,
    TextBlockContent, ToDoContent,
};
use crate::models::common::{
    opt_icon, user_json, rich_seq_json, rich_text_array_json, rich_view, typed, FileType, Icon, SpecFile, SpecIcon,
    SpecRichText,
};
use vstd::prelude::*;

verus! {

broadcast use vstd::std_specs::vec::group_vec_axioms;

/// The JSON of a file: `{"type": "external", "external": {"url": ..}}` or
/// `{"type": "file", "file": {"url": .., "expiry_time": ..}}`.
pub open spec fn file_json(f: SpecFile) -> SpecJson {
    match f {
        SpecFile::External { url } => SpecJson::Object(
            seq![("type"@, SpecJson::Str("external"@)), ("external"@, SpecJson::Object(seq![("url"@, SpecJson::Str(url))]))],
        ),
        SpecFile::Uploaded { url, expiry_time } => SpecJson::Object(
            seq![("type"@, SpecJson::Str("file"@)), ("file"@, hosted_file_json(url, expiry_time))],
        ),
    }
}

/// A file hosted by Notion: its URL and, when known, its expiry time.
pub open spec fn hosted_file_json(url: Seq<char>, expiry_time: Option<Seq<char>>) -> SpecJson {
    SpecJson::Object(
        seq![("url"@, SpecJson::Str(url))] + match expiry_time {
            Some(t) => seq![("expiry_time"@, SpecJson::Str(t))],
            None => seq![],
        },
    )
}

fn hosted_file_to_json(file: &crate::models::common::UploadedFile) -> (r: JsonValue)
    ensures
        r@ == hosted_file_json(file.url@, crate::ir::inline::opt_view(file.expiry_time)),
{
    let mut e: Vec<(String, JsonValue)> = Vec::new();
    proof {
        crate::json::lemma_member_views(e@);
    }
    push_member(&mut e, "url", JsonValue::String(file.url.clone()));
    match &file.expiry_time {
        Some(t) => push_member(&mut e, "expiry_time", JsonValue::String(t.clone())),
        None => {},
    }
    assert(member_views(e@) =~= seq![("url"@, SpecJson::Str(file.url@))] + match crate::ir::inline::opt_view(
        file.expiry_time,
    ) {
        Some(t) => seq![("expiry_time"@, SpecJson::Str(t))],
        None => seq![],
    });
    JsonValue::Object(e)
}

/// The JSON of an icon: `{"type": "emoji", "emoji": ..}` or a file.
pub open spec fn icon_json(i: SpecIcon) -> SpecJson {
    match i {
        SpecIcon::Emoji { emoji } => SpecJson::Object(seq![("type"@, SpecJson::Str("emoji"@)), ("emoji"@, SpecJson::Str(emoji))]),
        SpecIcon::External { url } => file_json(SpecFile::External { url }),
        SpecIcon::File { url, expiry_time } => file_json(SpecFile::Uploaded { url, expiry_time }),
    }
}

fn file_to_json(f: &FileType) -> (r: JsonValue)
    ensures
        r@ == file_json(f@),
{
    match f {
        FileType::External { external } => {
            let r = typed("external", JsonValue::single("url", JsonValue::String(external.url.clone())));
            assert(r@ =~= file_json(f@));
            r
        },
        FileType::Uploaded { file } => {
            let r = typed("file", hosted_file_to_json(file));
            assert(r@ =~= file_json(f@));
            r
        },
    }
}

pub fn icon_to_json(i: &Icon) -> (r: JsonValue)
    ensures
        r@ == icon_json(i@),
{
    match i {
        Icon::Emoji { emoji } => {
            let r = typed("emoji", JsonValue::String(emoji.clone()));
            assert(r@ =~= icon_json(i@));
            r
        },
        Icon::External { external } => {
            let r = typed("external", JsonValue::single("url", JsonValue::String(external.url.clone())));
            assert(r@ =~= icon_json(i@));
            r
        },
        Icon::File { file } => {
            let r = typed("file", hosted_file_to_json(file));
            assert(r@ =~= icon_json(i@));
            r
        },
    }
}

/// The JSON of a block.
pub open spec fn block_json(b: SpecNBlock) -> SpecJson
    decreases b, 2nat, 0int,
{
    let name = kind_name(b.kind);
    SpecJson::Object(seq![("object"@, SpecJson::Str("block"@)), ("type"@, SpecJson::Str(name)), (name, content_json(b))])
}

/// The content of a block's JSON, under its type name.
pub open spec fn content_json(b: SpecNBlock) -> SpecJson
    decreases b, 1nat, 2int,
{
    match b.kind {
        SpecKind::Paragraph(t) => text_content_json(t),
        SpecKind::BulletedListItem(t) => text_content_json(t),
        SpecKind::NumberedListItem(t) => text_content_json(t),
        SpecKind::Toggle(t) => text_content_json(t),
        SpecKind::Quote(t) => text_content_json(t),
        SpecKind::Heading1(h) => heading_content_json(h),
        SpecKind::Heading2(h) => heading_content_json(h),
        SpecKind::Heading3(h) => heading_content_json(h),
        SpecKind::ToDo(t) => content_json_of_todo(t),
        SpecKind::Callout(c) => content_json_of_callout(c.rich_text, c.icon, c.color, c.children),
        SpecKind::Divider => SpecJson::Object(seq![]),
        SpecKind::Code { rich_text, caption, language } => SpecJson::Object(
            seq![
                ("rich_text"@, rich_seq_json(rich_text)),
                ("caption"@, rich_seq_json(caption)),
                ("language"@, SpecJson::Str(language)),
            ],
        ),
        SpecKind::Image(f) => file_json(f),
        SpecKind::Video(f) => file_json(f),
        SpecKind::File(f) => file_json(f),
        SpecKind::Pdf(f) => file_json(f),
        SpecKind::Bookmark(u) => SpecJson::Object(seq![("url"@, SpecJson::Str(u))]),
        SpecKind::Embed(u) => SpecJson::Object(seq![("url"@, SpecJson::Str(u))]),
        SpecKind::Table(t) => content_json_of_table(t.table_width, t.has_column_header, t.has_row_header, t.children),
        SpecKind::TableRow(cells) => SpecJson::Object(
            seq![("cells"@, SpecJson::Array(Seq::new(cells.len(), |i: int| rich_seq_json(cells[i]))))],
        ),
        SpecKind::Unsupported(_) => SpecJson::Object(seq![]),
    }
}

/// The content of a to-do: rich text, whether it is checked, color and
/// children.
pub open spec fn content_json_of_todo(t: SpecToDo) -> SpecJson
    decreases t, 1nat, 1int,
{
    SpecJson::Object(
        seq![
            ("rich_text"@, rich_seq_json(t.rich_text)),
            ("checked"@, SpecJson::Bool(t.checked)),
            ("color"@, SpecJson::Str(t.color)),
        ] + children_member(t.children),
    )
}

/// The `icon` member, when there is an icon.
pub open spec fn icon_member(i: Option<SpecIcon>) -> Seq<(Seq<char>, SpecJson)> {
    match i {
        Some(x) => seq![("icon"@, icon_json(x))],
        None => seq![],
    }
}

/// The content of a callout: rich text, icon, color and children.
pub open spec fn content_json_of_callout(
    rich_text: Seq<SpecRichText>,
    icon: Option<SpecIcon>,
    color: Seq<char>,
    children: Option<Seq<SpecNBlock>>,
) -> SpecJson
    decreases children, 1nat, 1int,
{
    SpecJson::Object(
        seq![("rich_text"@, rich_seq_json(rich_text))] + icon_member(icon) + seq![("color"@, SpecJson::Str(color))]
            + children_member(children),
    )
}

/// The content of a table: its width, header flags and rows.
pub open spec fn content_json_of_table(
    width: u32,
    column_header: bool,
    row_header: bool,
    children: Option<Seq<SpecNBlock>>,
) -> SpecJson
    decreases children, 1nat, 1int,
{
    SpecJson::Object(
        seq![
            ("table_width"@, crate::api::requests::uint_json(width as u64)),
            ("has_column_header"@, SpecJson::Bool(column_header)),
            ("has_row_header"@, SpecJson::Bool(row_header)),
        ] + children_member(children),
    )
}

/// The content of a text block: rich text, color and children.
pub open spec fn text_content_json(t: SpecText) -> SpecJson
    decreases t, 1nat, 1int,
{
    SpecJson::Object(
        seq![("rich_text"@, rich_seq_json(t.rich_text)), ("color"@, SpecJson::Str(t.color))] + children_member(t.children),
    )
}

/// The content of a heading: rich text, color, whether it toggles, and
/// children.
pub open spec fn heading_content_json(h: SpecHeading) -> SpecJson
    decreases h, 1nat, 1int,
{
    SpecJson::Object(
        seq![
            ("rich_text"@, rich_seq_json(h.rich_text)),
            ("color"@, SpecJson::Str(h.color)),
            ("is_toggleable"@, SpecJson::Bool(h.is_toggleable)),
        ] + children_member(h.children),
    )
}

/// A `children` member holding the children's JSON, when there are
/// children.
pub open spec fn children_member(ch: Option<Seq<SpecNBlock>>) -> Seq<(Seq<char>, SpecJson)>
    decreases ch, 1nat, 0int,
{
    match ch {
        Some(c) => seq![("children"@, SpecJson::Array(blocks_json(c, c.len() as int)))],
        None => seq![],
    }
}

/// The JSON of the first `n` blocks.
pub open spec fn blocks_json(bs: Seq<SpecNBlock>, n: int) -> Seq<SpecJson>
    decreases bs, 0nat, n,
{
    if n <= 0 || n > bs.len() {
        seq![]
    } else {
        blocks_json(bs, n - 1).push(block_json(bs[n - 1]))
    }
}

/// The view of optional children.
pub open spec fn opt_children(ch: Option<Vec<Block>>) -> Option<Seq<SpecNBlock>> {
    match ch {
        Some(v) => Some(nblocks_view(v@)),
        None => None,
    }
}

proof fn lemma_json_views_push(s: Seq<JsonValue>, x: JsonValue)
    ensures
        json_views(s.push(x)) == json_views(s).push(x@),
{
    assert(s.push(x).subrange(0, s.len() as int) =~= s);
}

/// Appends the `children` member when there are children.
fn push_children_member(ch: &Option<Vec<Block>>, e: &mut Vec<(String, JsonValue)>)
    ensures
        member_views(final(e)@) == member_views(old(e)@) + children_member(opt_children(*ch)),
    decreases ch, 0nat,
{
    match ch {
        Some(c) => {
            proof {
                assert(decreases_to!(*ch => *c));
                lemma_nblocks_view(c@);
            }
            let items = blocks_to_json(c);
            push_member(e, "children", JsonValue::Array(items));
        },
        None => {},
    }
    assert(member_views(final(e)@) =~= member_views(old(e)@) + children_member(opt_children(*ch)));
}

/// The JSON of each block, in order.
pub fn blocks_to_json(bs: &Vec<Block>) -> (r: Vec<JsonValue>)
    ensures
        json_views(r@) == blocks_json(nblocks_view(bs@), bs@.len() as int),
    decreases bs, 1nat,
{
    let ghost nv = nblocks_view(bs@);
    proof {
        lemma_nblocks_view(bs@);
    }
    let mut out: Vec<JsonValue> = Vec::new();
    let mut i: usize = 0;
    assert(json_views(out@) =~= Seq::<SpecJson>::empty());
    while i < bs.len()
        invariant
            i <= bs.len(),
            nv == nblocks_view(bs@),
            nv.len() == bs.len(),
            forall|q: int| 0 <= q < bs.len() ==> #[trigger] nv[q] == bs@[q]@,
            json_views(out@) == blocks_json(nv, i as int),
        decreases bs.len() - i,
    {
        proof {
            assert(decreases_to!(*bs => bs@[i as int]));
        }
        let j = block_to_json(&bs[i]);
        proof {
            lemma_json_views_push(out@, j);
        }
        out.push(j);
        i = i + 1;
    }
    out
}

fn text_content_to_json(t: &TextBlockContent) -> (r: JsonValue)
    ensures
        r@ == text_content_json(text_view(*t)),
    decreases t, 0nat,
{
    let mut e: Vec<(String, JsonValue)> = Vec::new();
    proof {
        crate::json::lemma_member_views(e@);
    }
    push_member(&mut e, "rich_text", rich_text_array_json(t.rich_text.as_slice()));
    push_member(&mut e, "color", JsonValue::String(t.color.clone()));
    proof {
        assert(decreases_to!(*t => t.children));
    }
    push_children_member(&t.children, &mut e);
    assert(member_views(e@) =~= seq![
        ("rich_text"@, rich_seq_json(rich_view(t.rich_text@))),
        ("color"@, SpecJson::Str(t.color@)),
    ] + children_member(text_view(*t).children));
    JsonValue::Object(e)
}

fn heading_content_to_json(h: &HeadingContent) -> (r: JsonValue)
    ensures
        r@ == heading_content_json(heading_view(*h)),
    decreases h, 0nat,
{
    let mut e: Vec<(String, JsonValue)> = Vec::new();
    proof {
        crate::json::lemma_member_views(e@);
    }
    push_member(&mut e, "rich_text", rich_text_array_json(h.rich_text.as_slice()));
    push_member(&mut e, "color", JsonValue::String(h.color.clone()));
    push_member(&mut e, "is_toggleable", JsonValue::Bool(h.is_toggleable));
    proof {
        assert(decreases_to!(*h => h.children));
    }
    push_children_member(&h.children, &mut e);
    assert(member_views(e@) =~= seq![
        ("rich_text"@, rich_seq_json(rich_view(h.rich_text@))),
        ("color"@, SpecJson::Str(h.color@)),
        ("is_toggleable"@, SpecJson::Bool(h.is_toggleable)),
    ] + children_member(heading_view(*h).children));
    JsonValue::Object(e)
}

fn todo_content_to_json(t: &ToDoContent) -> (r: JsonValue)
    ensures
        r@ == content_json_of_todo(todo_view(*t)),
    decreases t, 0nat,
{
    let mut e: Vec<(String, JsonValue)> = Vec::new();
    proof {
        crate::json::lemma_member_views(e@);
    }
    push_member(&mut e, "rich_text", rich_text_array_json(t.rich_text.as_slice()));
    push_member(&mut e, "checked", JsonValue::Bool(t.checked));
    push_member(&mut e, "color", JsonValue::String(t.color.clone()));
    proof {
        assert(decreases_to!(*t => t.children));
    }
    push_children_member(&t.children, &mut e);
    assert(member_views(e@) =~= seq![
        ("rich_text"@, rich_seq_json(rich_view(t.rich_text@))),
        ("checked"@, SpecJson::Bool(t.checked)),
        ("color"@, SpecJson::Str(t.color@)),
    ] + children_member(todo_view(*t).children));
    JsonValue::Object(e)
}

fn callout_content_to_json(c: &CalloutContent) -> (r: JsonValue)
    ensures
        r@ == content_json_of_callout(
            rich_view(c.rich_text@),
            opt_icon(c.icon),
            c.color@,
            opt_children(c.children),
        ),
    decreases c, 0nat,
{
    let mut e: Vec<(String, JsonValue)> = Vec::new();
    proof {
        crate::json::lemma_member_views(e@);
    }
    push_member(&mut e, "rich_text", rich_text_array_json(c.rich_text.as_slice()));
    match &c.icon {
        Some(i) => push_member(&mut e, "icon", icon_to_json(i)),
        None => {},
    }
    push_member(&mut e, "color", JsonValue::String(c.color.clone()));
    proof {
        assert(decreases_to!(*c => c.children));
    }
    push_children_member(&c.children, &mut e);
    assert(member_views(e@) =~= seq![("rich_text"@, rich_seq_json(rich_view(c.rich_text@)))] + icon_member(
        opt_icon(c.icon),
    ) + seq![("color"@, SpecJson::Str(c.color@))] + children_member(opt_children(c.children)));
    JsonValue::Object(e)
}

fn table_content_to_json(t: &TableContent) -> (r: JsonValue)
    ensures
        r@ == content_json_of_table(t.table_width, t.has_column_header, t.has_row_header, opt_children(t.children)),
    decreases t, 0nat,
{
    let mut e: Vec<(String, JsonValue)> = Vec::new();
    proof {
        crate::json::lemma_member_views(e@);
    }
    push_member(
        &mut e,
        "table_width",
        JsonValue::Number(crate::json::JsonNumber { repr: crate::json::NumberRepr::PosInt(t.table_width as u64), double: None }),
    );
    push_member(&mut e, "has_column_header", JsonValue::Bool(t.has_column_header));
    push_member(&mut e, "has_row_header", JsonValue::Bool(t.has_row_header));
    proof {
        assert(decreases_to!(*t => t.children));
    }
    push_children_member(&t.children, &mut e);
    assert(member_views(e@) =~= seq![
        ("table_width"@, crate::api::requests::uint_json(t.table_width as u64)),
        ("has_column_header"@, SpecJson::Bool(t.has_column_header)),
        ("has_row_header"@, SpecJson::Bool(t.has_row_header)),
    ] + children_member(opt_children(t.children)));
    JsonValue::Object(e)
}

fn object_of(entries: Vec<(String, JsonValue)>) -> (r: JsonValue)
    ensures
        r@ == SpecJson::Object(member_views(entries@)),
{
    JsonValue::Object(entries)
}

/// The content of a block's JSON.
fn content_to_json(b: &Block) -> (r: JsonValue)
    ensures
        r@ == content_json(b@),
    decreases b, 1nat,
{
    proof {
        assert(decreases_to!(*b => b.block_type));
    }
    match &b.block_type {
        BlockType::Paragraph { paragraph: t }
        | BlockType::BulletedListItem { bulleted_list_item: t }
        | BlockType::NumberedListItem { numbered_list_item: t }
        | BlockType::Toggle { toggle: t }
        | BlockType::Quote { quote: t } => {
            proof {
                assert(decreases_to!(b.block_type => *t));
            }
            text_content_to_json(t)
        },
        BlockType::Heading1 { heading_1: h } | BlockType::Heading2 { heading_2: h } | BlockType::Heading3 {
            heading_3: h,
        } => {
            proof {
                assert(decreases_to!(b.block_type => *h));
            }
            heading_content_to_json(h)
        },
        BlockType::ToDo { to_do: t } => {
            proof {
                assert(decreases_to!(b.block_type => *t));
            }
            todo_content_to_json(t)
        },
        BlockType::Callout { callout: c } => {
            proof {
                assert(decreases_to!(b.block_type => *c));
            }
            callout_content_to_json(c)
        },
        BlockType::Table { table: t } => {
            proof {
                assert(decreases_to!(b.block_type => *t));
            }
            table_content_to_json(t)
        },
        BlockType::Divider | BlockType::Unsupported { .. } => object_of(Vec::new()),
        BlockType::CodeBlock { code } => {
            let mut e: Vec<(String, JsonValue)> = Vec::new();
            proof {
                crate::json::lemma_member_views(e@);
            }
            push_member(&mut e, "rich_text", rich_text_array_json(code.rich_text.as_slice()));
            push_member(&mut e, "caption", rich_text_array_json(code.caption.as_slice()));
            push_member(&mut e, "language", JsonValue::String(code.language.clone()));
            assert(member_views(e@) =~= seq![
                ("rich_text"@, rich_seq_json(rich_view(code.rich_text@))),
                ("caption"@, rich_seq_json(rich_view(code.caption@))),
                ("language"@, SpecJson::Str(code.language@)),
            ]);
            JsonValue::Object(e)
        },
        BlockType::Image { image: f } | BlockType::Video { video: f } | BlockType::File { file: f } | BlockType::Pdf {
            pdf: f,
        } => file_to_json(&f.file_type),
        BlockType::Bookmark { bookmark: u } | BlockType::Embed { embed: u } => {
            JsonValue::single("url", JsonValue::String(u.url.clone()))
        },
        BlockType::TableRow { table_row } => {
            let mut cells: Vec<JsonValue> = Vec::new();
            let mut i: usize = 0;
            while i < table_row.cells.len()
                invariant
                    i <= table_row.cells.len(),
                    cells@.len() == i,
                    forall|q: int| 0 <= q < i ==> (#[trigger] cells@[q])@ == rich_seq_json(
                        rich_view(table_row.cells@[q]@),
                    ),
                decreases table_row.cells.len() - i,
            {
                cells.push(rich_text_array_json(table_row.cells[i].as_slice()));
                i = i + 1;
            }
            proof {
                lemma_json_views(cells@);
                assert(json_views(cells@) =~= Seq::new(
                    table_row.cells@.len(),
                    |i: int| rich_seq_json(crate::models::block::cells_rich_view(table_row.cells@)[i]),
                ));
            }
            JsonValue::single("cells", JsonValue::Array(cells))
        },
    }
}

impl Block {
    /// The JSON of this block as the API takes it:
    /// `{"object": "block", "type": <type>, <type>: <content>}`.
    pub fn to_json(&self) -> (r: JsonValue)
        ensures
            r@ == block_json(self@),
        decreases self, 2nat,
    {
        block_to_json(self)
    }
}

fn block_to_json(b: &Block) -> (r: JsonValue)
    ensures
        r@ == block_json(b@),
    decreases b, 2nat,
{
    let mut e: Vec<(String, JsonValue)> = Vec::new();
    proof {
        crate::json::lemma_member_views(e@);
    }
    let name = b.type_str();
    push_member(&mut e, "object", JsonValue::from_str("block"));
    push_member(&mut e, "type", JsonValue::String(name.clone()));
    let c = content_to_json(b);
    push_member(&mut e, name.as_str(), c);
    assert(member_views(e@) =~= seq![
        ("object"@, SpecJson::Str("block"@)),
        ("type"@, SpecJson::Str(kind_name(b@.kind))),
        (kind_name(b@.kind), content_json(b@)),
    ]);
    JsonValue::Object(e)
}

/// The whole JSON record of a block, as the API reads it back: its object,
/// id, times, authors, flags and parent, then its `type` and the content
/// under that type.
pub open spec fn block_record_json(b: SpecNBlock) -> SpecJson {
    let name = kind_name(b.kind);
    SpecJson::Object(
        seq![
            ("object"@, SpecJson::Str(b.object)),
            ("id"@, SpecJson::Str(b.id)),
            ("created_time"@, SpecJson::Str(b.created_time)),
            ("last_edited_time"@, SpecJson::Str(b.last_edited_time)),
            ("created_by"@, user_json(b.created_by)),
            ("last_edited_by"@, user_json(b.last_edited_by)),
            ("has_children"@, SpecJson::Bool(b.has_children)),
            ("in_trash"@, SpecJson::Bool(b.in_trash)),
            ("parent"@, match b.parent {
                Some(p) => p,
                None => SpecJson::Null,
            }),
            ("type"@, SpecJson::Str(name)),
            (name, content_json(b)),
        ],
    )
}

impl Block {
    /// The whole JSON record of this block.
    pub fn record_json(&self) -> (r: JsonValue)
        ensures
            r@ == block_record_json(self@),
    {
        let mut e: Vec<(String, JsonValue)> = Vec::new();
        proof {
            crate::json::lemma_member_views(e@);
        }
        let name = self.type_str();
        push_member(&mut e, "object", JsonValue::String(self.object.clone()));
        push_member(&mut e, "id", JsonValue::String(self.id.clone()));
        push_member(&mut e, "created_time", JsonValue::String(self.created_time.clone()));
        push_member(&mut e, "last_edited_time", JsonValue::String(self.last_edited_time.clone()));
        push_member(&mut e, "created_by", self.created_by.to_json());
        push_member(&mut e, "last_edited_by", self.last_edited_by.to_json());
        push_member(&mut e, "has_children", JsonValue::Bool(self.has_children));
        push_member(&mut e, "in_trash", JsonValue::Bool(self.in_trash));
        let parent = match &self.parent {
            Some(p) => p.copy(),
            None => JsonValue::Null,
        };
        push_member(&mut e, "parent", parent);
        push_member(&mut e, "type", JsonValue::String(name.clone()));
        let c = content_to_json(self);
        push_member(&mut e, name.as_str(), c);
        assert(member_views(e@) =~= block_record_json(self@)->Object_0);
        JsonValue::Object(e)
    }
}

} // verus!
