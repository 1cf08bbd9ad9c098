//! Objects shared across the Notion API: rich text, mentions, icons, files
//! and users.
use crate::ir::inline::opt_view;
use crate::ir::metadata::push_member;
use crate::json::{json_views, lemma_json_views, member_views, JsonValue, SpecJson};
use vstd::prelude::*;

verus! {

/// Text formatting of a rich-text span.
#[derive(Debug)]
pub struct Annotations {
    pub bold: bool,
    pub italic: bool,
    pub strikethrough: bool,
    pub underline: bool,
    pub code: bool,
    pub color: String,
}

/// The content of [`Annotations`].
pub struct SpecAnnotations {
    pub bold: bool,
    pub italic: bool,
    pub strikethrough: bool,
    pub underline: bool,
    pub code: bool,
    pub color: Seq<char>,
}

impl View for Annotations {
    type V = SpecAnnotations;

    open spec fn view(&self) -> SpecAnnotations {
        SpecAnnotations {
            bold: self.bold,
            italic: self.italic,
            strikethrough: self.strikethrough,
            underline: self.underline,
            code: self.code,
            color: self.color@,
        }
    }
}

/// Annotations with nothing set and the `default` color.
pub open spec fn plain_annotations() -> SpecAnnotations {
    SpecAnnotations {
        bold: false,
        italic: false,
        strikethrough: false,
        underline: false,
        code: false,
        color: "default"@,
    }
}

/// The content of optional annotations.
pub open spec fn opt_annotations(a: Option<Annotations>) -> Option<SpecAnnotations> {
    match a {
        Some(x) => Some(x@),
        None => None,
    }
}

impl Annotations {
    /// Annotations with nothing set and the `default` color.
    pub fn plain() -> (a: Self)
        ensures
            a@ == plain_annotations(),
    {
        Annotations {
            bold: false,
            italic: false,
            strikethrough: false,
            underline: false,
            code: false,
            color: String::from_str("default"),
        }
    }

    /// A copy of these annotations.
    pub fn copy(&self) -> (a: Self)
        ensures
            a@ == self@,
    {
        Annotations {
            bold: self.bold,
            italic: self.italic,
            strikethrough: self.strikethrough,
            underline: self.underline,
            code: self.code,
            color: self.color.clone(),
        }
    }
}

/// A hyperlink target.
#[derive(Debug)]
pub struct Link {
    pub url: String,
}

/// Text of a text span and its optional link.
#[derive(Debug)]
pub struct TextContent {
    pub content: String,
    pub link: Option<Link>,
}

/// The URL of an optional link.
pub open spec fn opt_link(l: Option<Link>) -> Option<Seq<char>> {
    match l {
        Some(x) => Some(x.url@),
        None => None,
    }
}

/// An inline equation.
#[derive(Debug)]
pub struct EquationContent {
    pub expression: String,
}

/// A reference to another Notion object by id.
#[derive(Debug)]
pub struct ObjectId {
    pub id: String,
}

/// A date mention: start and optional end, as given by the API.
#[derive(Debug)]
pub struct DateMention {
    pub start: String,
    pub end: Option<String>,
}

/// The object a mention points at.
#[derive(Debug)]
pub enum MentionObject {
    User { user: ObjectId },
    Page { page: ObjectId },
    Database { database: ObjectId },
    Date { date: DateMention },
    LinkPreview { url: String },
}

/// The content of a [`MentionObject`].
pub enum SpecMention {
    User { id: Seq<char> },
    Page { id: Seq<char> },
    Database { id: Seq<char> },
    Date { start: Seq<char>, end: Option<Seq<char>> },
    LinkPreview { url: Seq<char> },
}

impl View for MentionObject {
    type V = SpecMention;

    open spec fn view(&self) -> SpecMention {
        match self {
            MentionObject::User { user } => SpecMention::User { id: user.id@ },
            MentionObject::Page { page } => SpecMention::Page { id: page.id@ },
            MentionObject::Database { database } => SpecMention::Database { id: database.id@ },
            MentionObject::Date { date } => SpecMention::Date { start: date.start@, end: opt_view(date.end) },
            MentionObject::LinkPreview { url } => SpecMention::LinkPreview { url: url@ },
        }
    }
}

/// A rich-text span.
#[derive(Debug)]
pub enum RichText {
    Text {
        text: TextContent,
        annotations: Option<Annotations>,
        plain_text: Option<String>,
        href: Option<String>,
    },
    Mention {
        mention: MentionObject,
        annotations: Option<Annotations>,
        plain_text: Option<String>,
        href: Option<String>,
    },
    Equation {
        equation: EquationContent,
        annotations: Option<Annotations>,
        plain_text: Option<String>,
        href: Option<String>,
    },
}

/// The kind-specific part of a rich-text span.
pub enum SpecSpan {
    Text { content: Seq<char>, link: Option<Seq<char>> },
    Mention { mention: SpecMention },
    Equation { expression: Seq<char> },
}

/// The content of a [`RichText`].
pub struct SpecRichText {
    pub span: SpecSpan,
    pub annotations: Option<SpecAnnotations>,
    pub plain_text: Option<Seq<char>>,
    pub href: Option<Seq<char>>,
}

impl View for RichText {
    type V = SpecRichText;

    open spec fn view(&self) -> SpecRichText {
        match self {
            RichText::Text { text, annotations, plain_text, href } => SpecRichText {
                span: SpecSpan::Text { content: text.content@, link: opt_link(text.link) },
                annotations: opt_annotations(*annotations),
                plain_text: opt_view(*plain_text),
                href: opt_view(*href),
            },
            RichText::Mention { mention, annotations, plain_text, href } => SpecRichText {
                span: SpecSpan::Mention { mention: mention@ },
                annotations: opt_annotations(*annotations),
                plain_text: opt_view(*plain_text),
                href: opt_view(*href),
            },
            RichText::Equation { equation, annotations, plain_text, href } => SpecRichText {
                span: SpecSpan::Equation { expression: equation.expression@ },
                annotations: opt_annotations(*annotations),
                plain_text: opt_view(*plain_text),
                href: opt_view(*href),
            },
        }
    }
}

/// The contents of a sequence of spans.
pub open spec fn rich_view(s: Seq<RichText>) -> Seq<SpecRichText> {
    Seq::new(s.len(), |i: int| s[i]@)
}

/// The link of a span: its `href`, else the link of its text.
pub open spec fn href_of(rt: SpecRichText) -> Option<Seq<char>> {
    match rt.href {
        Some(h) => Some(h),
        None => match rt.span {
            SpecSpan::Text { link, .. } => link,
            _ => None,
        },
    }
}

/// The plain text of a span: its `plain_text`, else the text of a text span
/// or the expression of an equation; empty for a mention without one.
pub open spec fn plain_text_of(rt: SpecRichText) -> Seq<char> {
    match rt.plain_text {
        Some(p) => p,
        None => match rt.span {
            SpecSpan::Text { content, .. } => content,
            SpecSpan::Equation { expression } => expression,
            SpecSpan::Mention { .. } => seq![],
        },
    }
}

impl RichText {
    /// The link of this span.
    pub fn href(&self) -> (r: Option<&String>)
        ensures
            opt_view(match r {
                Some(x) => Some(*x),
                None => None,
            }) == href_of(self@),
    {
        match self {
            RichText::Text { text, href, .. } => match href {
                Some(h) => Some(h),
                None => match &text.link {
                    Some(l) => Some(&l.url),
                    None => None,
                },
            },
            RichText::Mention { href, .. } => match href {
                Some(h) => Some(h),
                None => None,
            },
            RichText::Equation { href, .. } => match href {
                Some(h) => Some(h),
                None => None,
            },
        }
    }

    /// The plain text of this span.
    pub fn plain_text(&self) -> (r: String)
        ensures
            r@ == plain_text_of(self@),
    {
        match self {
            RichText::Text { text, plain_text, .. } => match plain_text {
                Some(p) => p.clone(),
                None => text.content.clone(),
            },
            RichText::Mention { plain_text, .. } => match plain_text {
                Some(p) => p.clone(),
                None => String::new(),
            },
            RichText::Equation { equation, plain_text, .. } => match plain_text {
                Some(p) => p.clone(),
                None => equation.expression.clone(),
            },
        }
    }
}

/// An externally hosted file.
#[derive(Debug)]
pub struct ExternalFile {
    pub url: String,
}

/// A file hosted by Notion; its URL expires.
#[derive(Debug)]
pub struct UploadedFile {
    pub url: String,
    /// Expiry timestamp (RFC 3339).
    pub expiry_time: Option<String>,
}

/// Where a file lives.
#[derive(Debug)]
pub enum FileType {
    External { external: ExternalFile },
    Uploaded { file: UploadedFile },
}

/// The content of a [`FileType`].
pub enum SpecFile {
    External { url: Seq<char> },
    Uploaded { url: Seq<char>, expiry_time: Option<Seq<char>> },
}

impl View for FileType {
    type V = SpecFile;

    open spec fn view(&self) -> SpecFile {
        match self {
            FileType::External { external } => SpecFile::External { url: external.url@ },
            FileType::Uploaded { file } => SpecFile::Uploaded {
                url: file.url@,
                expiry_time: opt_view(file.expiry_time),
            },
        }
    }
}

/// A file block's content (image, video, file, PDF).
#[derive(Debug)]
pub struct FileBlockContent {
    pub file_type: FileType,
}

/// A page or callout icon.
#[derive(Debug)]
pub enum Icon {
    Emoji { emoji: String },
    External { external: ExternalFile },
    File { file: UploadedFile },
}

/// The content of an [`Icon`].
pub enum SpecIcon {
    Emoji { emoji: Seq<char> },
    External { url: Seq<char> },
    File { url: Seq<char>, expiry_time: Option<Seq<char>> },
}

impl View for Icon {
    type V = SpecIcon;

    open spec fn view(&self) -> SpecIcon {
        match self {
            Icon::Emoji { emoji } => SpecIcon::Emoji { emoji: emoji@ },
            Icon::External { external } => SpecIcon::External { url: external.url@ },
            Icon::File { file } => SpecIcon::File { url: file.url@, expiry_time: opt_view(file.expiry_time) },
        }
    }
}

/// The content of an optional icon.
pub open spec fn opt_icon(i: Option<Icon>) -> Option<SpecIcon> {
    match i {
        Some(x) => Some(x@),
        None => None,
    }
}

/// Details of a bot user.
#[derive(Debug)]
pub struct BotInfo {
    pub owner: Option<JsonValue>,
    pub workspace_name: Option<String>,
}

/// Details of a person.
#[derive(Debug)]
pub struct PersonInfo {
    pub email: Option<String>,
}

/// Kind of a user.
#[derive(Debug)]
pub enum UserType {
    Person { person: PersonInfo },
    Bot { bot: BotInfo },
}

/// A Notion user.
#[derive(Debug)]
pub struct User {
    pub object: String,
    pub id: String,
    pub name: Option<String>,
    pub avatar_url: Option<String>,
    pub user_type: UserType,
}

/// The content of a [`UserType`].
pub enum SpecUserType {
    Person { email: Option<Seq<char>> },
    Bot { owner: Option<SpecJson>, workspace_name: Option<Seq<char>> },
}

/// The content of a [`User`].
pub struct SpecUser {
    pub object: Seq<char>,
    pub id: Seq<char>,
    pub name: Option<Seq<char>>,
    pub avatar_url: Option<Seq<char>>,
    pub user_type: SpecUserType,
}

impl View for User {
    type V = SpecUser;

    open spec fn view(&self) -> SpecUser {
        SpecUser {
            object: self.object@,
            id: self.id@,
            name: opt_view(self.name),
            avatar_url: opt_view(self.avatar_url),
            user_type: user_type_view(self.user_type),
        }
    }
}

/// The content of a [`UserType`].
pub open spec fn user_type_view(t: UserType) -> SpecUserType {
    match t {
        UserType::Person { person } => SpecUserType::Person { email: opt_view(person.email) },
        UserType::Bot { bot } => SpecUserType::Bot {
            owner: match bot.owner {
                Some(o) => Some(o@),
                None => None,
            },
            workspace_name: opt_view(bot.workspace_name),
        },
    }
}

/// The placeholder author of blocks made locally: a bot with id `dummy`.
pub open spec fn placeholder_user() -> SpecUser {
    SpecUser {
        object: "user"@,
        id: "dummy"@,
        name: None,
        avatar_url: None,
        user_type: SpecUserType::Bot { owner: None, workspace_name: None },
    }
}

impl User {
    /// The placeholder author of blocks made locally.
    pub fn placeholder() -> (u: Self)
        ensures
            u@ == placeholder_user(),
    {
        User {
            object: String::from_str("user"),
            id: String::from_str("dummy"),
            name: None,
            avatar_url: None,
            user_type: UserType::Bot { bot: BotInfo { owner: None, workspace_name: None } },
        }
    }
}

/// JSON of a user, as the Notion API writes it: its object, id, name and
/// avatar, its `type`, and the details under that type.
pub open spec fn user_json(u: SpecUser) -> SpecJson {
    SpecJson::Object(
        seq![
            ("object"@, SpecJson::Str(u.object)),
            ("id"@, SpecJson::Str(u.id)),
            ("name"@, opt_json_str(u.name)),
            ("avatar_url"@, opt_json_str(u.avatar_url)),
        ] + match u.user_type {
            SpecUserType::Person { email } => seq![
                ("type"@, SpecJson::Str("person"@)),
                ("person"@, SpecJson::Object(seq![("email"@, opt_json_str(email))])),
            ],
            SpecUserType::Bot { workspace_name, .. } => seq![
                ("type"@, SpecJson::Str("bot"@)),
                ("bot"@, SpecJson::Object(
                    seq![
                        ("owner"@, bot_owner_json(u.user_type)),
                        ("workspace_name"@, opt_json_str(workspace_name)),
                    ],
                )),
            ],
        },
    )
}

/// The owner of a bot, or `null`.
pub open spec fn bot_owner_json(t: SpecUserType) -> SpecJson {
    match t {
        SpecUserType::Bot { owner: Some(o), .. } => o,
        _ => SpecJson::Null,
    }
}

/// A JSON string, or `null`.
pub(crate) fn opt_str_value(o: &Option<String>) -> (r: JsonValue)
    ensures
        r@ == opt_json_str(opt_view(*o)),
{
    match o {
        Some(s) => JsonValue::String(s.clone()),
        None => JsonValue::Null,
    }
}

impl User {
    /// The JSON of this user.
    pub fn to_json(&self) -> (r: JsonValue)
        ensures
            r@ == user_json(self@),
    {
        let mut e: Vec<(String, JsonValue)> = Vec::new();
        proof {
            crate::json::lemma_member_views(e@);
        }
        push_member(&mut e, "object", JsonValue::String(self.object.clone()));
        push_member(&mut e, "id", JsonValue::String(self.id.clone()));
        push_member(&mut e, "name", opt_str_value(&self.name));
        push_member(&mut e, "avatar_url", opt_str_value(&self.avatar_url));
        match &self.user_type {
            UserType::Person { person } => {
                push_member(&mut e, "type", JsonValue::from_str("person"));
                push_member(&mut e, "person", JsonValue::single("email", opt_str_value(&person.email)));
                assert(member_views(e@) =~= seq![
                    ("object"@, SpecJson::Str(self.object@)),
                    ("id"@, SpecJson::Str(self.id@)),
                    ("name"@, opt_json_str(opt_view(self.name))),
                    ("avatar_url"@, opt_json_str(opt_view(self.avatar_url))),
                    ("type"@, SpecJson::Str("person"@)),
                    ("person"@, SpecJson::Object(seq![("email"@, opt_json_str(opt_view(person.email)))])),
                ]);
                assert(member_views(e@) =~= user_json(self@)->Object_0);
            },
            UserType::Bot { bot } => {
                push_member(&mut e, "type", JsonValue::from_str("bot"));
                let mut b: Vec<(String, JsonValue)> = Vec::new();
                proof {
                    crate::json::lemma_member_views(b@);
                }
                let owner = match &bot.owner {
                    Some(o) => o.copy(),
                    None => JsonValue::Null,
                };
                push_member(&mut b, "owner", owner);
                push_member(&mut b, "workspace_name", opt_str_value(&bot.workspace_name));
                let ghost ov = bot_owner_json(user_type_view(self.user_type));
                assert(member_views(b@) =~= seq![
                    ("owner"@, ov),
                    ("workspace_name"@, opt_json_str(opt_view(bot.workspace_name))),
                ]);
                push_member(&mut e, "bot", JsonValue::Object(b));
                assert(member_views(e@) =~= seq![
                    ("object"@, SpecJson::Str(self.object@)),
                    ("id"@, SpecJson::Str(self.id@)),
                    ("name"@, opt_json_str(opt_view(self.name))),
                    ("avatar_url"@, opt_json_str(opt_view(self.avatar_url))),
                    ("type"@, SpecJson::Str("bot"@)),
                    ("bot"@, SpecJson::Object(seq![
                        ("owner"@, ov),
                        ("workspace_name"@, opt_json_str(opt_view(bot.workspace_name))),
                    ])),
                ]);
                assert(member_views(e@) =~= user_json(self@)->Object_0);
            },
        }
        JsonValue::Object(e)
    }
}

/// JSON of annotations, as the Notion API writes them.
pub open spec fn annotations_json(a: SpecAnnotations) -> SpecJson {
    SpecJson::Object(
        seq![
            ("bold"@, SpecJson::Bool(a.bold)),
            ("italic"@, SpecJson::Bool(a.italic)),
            ("strikethrough"@, SpecJson::Bool(a.strikethrough)),
            ("underline"@, SpecJson::Bool(a.underline)),
            ("code"@, SpecJson::Bool(a.code)),
            ("color"@, SpecJson::Str(a.color)),
        ],
    )
}

/// An object `{"id": id}`.
pub open spec fn id_json(id: Seq<char>) -> SpecJson {
    SpecJson::Object(seq![("id"@, SpecJson::Str(id))])
}

/// JSON of a mention: its `type` and the object under that type.
pub open spec fn mention_json(m: SpecMention) -> SpecJson {
    match m {
        SpecMention::User { id } => SpecJson::Object(seq![("type"@, SpecJson::Str("user"@)), ("user"@, id_json(id))]),
        SpecMention::Page { id } => SpecJson::Object(seq![("type"@, SpecJson::Str("page"@)), ("page"@, id_json(id))]),
        SpecMention::Database { id } => SpecJson::Object(
            seq![("type"@, SpecJson::Str("database"@)), ("database"@, id_json(id))],
        ),
        SpecMention::Date { start, end } => SpecJson::Object(
            seq![
                ("type"@, SpecJson::Str("date"@)),
                ("date"@, SpecJson::Object(seq![("start"@, SpecJson::Str(start)), ("end"@, opt_json_str(end))])),
            ],
        ),
        SpecMention::LinkPreview { url } => SpecJson::Object(
            seq![
                ("type"@, SpecJson::Str("link_preview"@)),
                ("link_preview"@, SpecJson::Object(seq![("url"@, SpecJson::Str(url))])),
            ],
        ),
    }
}

/// A JSON string, or `null` for nothing.
pub open spec fn opt_json_str(o: Option<Seq<char>>) -> SpecJson {
    match o {
        Some(s) => SpecJson::Str(s),
        None => SpecJson::Null,
    }
}

/// JSON of the text of a text span: `content` and `link`.
pub open spec fn text_json(content: Seq<char>, link: Option<Seq<char>>) -> SpecJson {
    SpecJson::Object(
        seq![("content"@, SpecJson::Str(content)), ("link"@, match link {
            Some(u) => SpecJson::Object(seq![("url"@, SpecJson::Str(u))]),
            None => SpecJson::Null,
        })],
    )
}

/// JSON of a rich-text span, as the Notion API writes it: `type`, the
/// kind-specific object, `annotations`, `plain_text` and `href`, absent
/// values as `null`.
pub open spec fn rich_json(rt: SpecRichText) -> SpecJson {
    let tail = span_tail(rt.annotations, rt.plain_text, rt.href);
    match rt.span {
        SpecSpan::Text { content, link } => SpecJson::Object(
            seq![
                ("type"@, SpecJson::Str("text"@)),
                ("text"@, text_json(content, link)),
            ] + tail,
        ),
        SpecSpan::Mention { mention } => SpecJson::Object(
            seq![("type"@, SpecJson::Str("mention"@)), ("mention"@, mention_json(mention))] + tail,
        ),
        SpecSpan::Equation { expression } => SpecJson::Object(
            seq![
                ("type"@, SpecJson::Str("equation"@)),
                ("equation"@, SpecJson::Object(seq![("expression"@, SpecJson::Str(expression))])),
            ] + tail,
        ),
    }
}

/// A JSON string, or `null` for nothing.
fn opt_string_json(o: &Option<String>) -> (r: JsonValue)
    ensures
        r@ == opt_json_str(opt_view(*o)),
{
    match o {
        Some(s) => JsonValue::String(s.clone()),
        None => JsonValue::Null,
    }
}

/// An object `{"id": id}`.
fn id_to_json(id: &String) -> (r: JsonValue)
    ensures
        r@ == id_json(id@),
{
    JsonValue::single("id", JsonValue::String(id.clone()))
}

/// An object with a `type` member and the value under that type.
pub(crate) fn typed(tag: &str, value: JsonValue) -> (r: JsonValue)
    ensures
        r@ == SpecJson::Object(seq![("type"@, SpecJson::Str(tag@)), (tag@, value@)]),
{
    let mut e: Vec<(String, JsonValue)> = Vec::new();
    push_member(&mut e, "type", JsonValue::from_str(tag));
    push_member(&mut e, tag, value);
    assert(member_views(e@) =~= seq![("type"@, SpecJson::Str(tag@)), (tag@, value@)]);
    JsonValue::Object(e)
}

impl Annotations {
    /// These annotations as JSON.
    pub fn to_json(&self) -> (r: JsonValue)
        ensures
            r@ == annotations_json(self@),
    {
        let mut e: Vec<(String, JsonValue)> = Vec::new();
        push_member(&mut e, "bold", JsonValue::Bool(self.bold));
        push_member(&mut e, "italic", JsonValue::Bool(self.italic));
        push_member(&mut e, "strikethrough", JsonValue::Bool(self.strikethrough));
        push_member(&mut e, "underline", JsonValue::Bool(self.underline));
        push_member(&mut e, "code", JsonValue::Bool(self.code));
        push_member(&mut e, "color", JsonValue::String(self.color.clone()));
        assert(member_views(e@) =~= match annotations_json(self@) {
            SpecJson::Object(m) => m,
            _ => seq![],
        });
        JsonValue::Object(e)
    }
}

impl MentionObject {
    /// This mention as JSON.
    pub fn to_json(&self) -> (r: JsonValue)
        ensures
            r@ == mention_json(self@),
    {
        match self {
            MentionObject::User { user } => typed("user", id_to_json(&user.id)),
            MentionObject::Page { page } => typed("page", id_to_json(&page.id)),
            MentionObject::Database { database } => typed("database", id_to_json(&database.id)),
            MentionObject::Date { date } => {
                let mut e: Vec<(String, JsonValue)> = Vec::new();
                push_member(&mut e, "start", JsonValue::String(date.start.clone()));
                push_member(&mut e, "end", opt_string_json(&date.end));
                assert(member_views(e@) =~= seq![("start"@, SpecJson::Str(date.start@)), ("end"@, opt_json_str(opt_view(date.end)))]);
                typed("date", JsonValue::Object(e))
            },
            MentionObject::LinkPreview { url } => typed("link_preview", JsonValue::single("url", JsonValue::String(url.clone()))),
        }
    }
}

/// The members every span ends with.
pub open spec fn span_tail(a: Option<SpecAnnotations>, plain_text: Option<Seq<char>>, href: Option<Seq<char>>) -> Seq<(Seq<char>, SpecJson)> {
    seq![
        ("annotations"@, match a {
            Some(a) => annotations_json(a),
            None => SpecJson::Null,
        }),
        ("plain_text"@, opt_json_str(plain_text)),
        ("href"@, opt_json_str(href)),
    ]
}

/// Appends the members every span ends with.
fn push_span_tail(
    e: &mut Vec<(String, JsonValue)>,
    annotations: &Option<Annotations>,
    plain_text: &Option<String>,
    href: &Option<String>,
)
    ensures
        member_views(final(e)@) == member_views(old(e)@) + span_tail(
            opt_annotations(*annotations),
            opt_view(*plain_text),
            opt_view(*href),
        ),
{
    let a = match annotations {
        Some(a) => a.to_json(),
        None => JsonValue::Null,
    };
    push_member(e, "annotations", a);
    push_member(e, "plain_text", opt_string_json(plain_text));
    push_member(e, "href", opt_string_json(href));
    assert(member_views(final(e)@) =~= member_views(old(e)@) + span_tail(
        opt_annotations(*annotations),
        opt_view(*plain_text),
        opt_view(*href),
    ));
}

impl TextContent {
    /// This text as JSON.
    pub fn to_json(&self) -> (r: JsonValue)
        ensures
            r@ == text_json(self.content@, opt_link(self.link)),
    {
        let mut t: Vec<(String, JsonValue)> = Vec::new();
        push_member(&mut t, "content", JsonValue::String(self.content.clone()));
        let link = match &self.link {
            Some(l) => JsonValue::single("url", JsonValue::String(l.url.clone())),
            None => JsonValue::Null,
        };
        push_member(&mut t, "link", link);
        assert(member_views(t@) =~= match text_json(self.content@, opt_link(self.link)) {
            SpecJson::Object(m) => m,
            _ => seq![],
        });
        JsonValue::Object(t)
    }
}

impl RichText {
    /// This span as JSON.
    pub fn to_json(&self) -> (r: JsonValue)
        ensures
            r@ == rich_json(self@),
    {
        let mut e: Vec<(String, JsonValue)> = Vec::new();
        match self {
            RichText::Text { text, annotations, plain_text, href } => {
                push_member(&mut e, "type", JsonValue::from_str("text"));
                push_member(&mut e, "text", text.to_json());
                push_span_tail(&mut e, annotations, plain_text, href);
                assert(member_views(e@) =~= match rich_json(self@) {
                    SpecJson::Object(m) => m,
                    _ => seq![],
                });
            },
            RichText::Mention { mention, annotations, plain_text, href } => {
                push_member(&mut e, "type", JsonValue::from_str("mention"));
                push_member(&mut e, "mention", mention.to_json());
                push_span_tail(&mut e, annotations, plain_text, href);
                assert(member_views(e@) =~= match rich_json(self@) {
                    SpecJson::Object(m) => m,
                    _ => seq![],
                });
            },
            RichText::Equation { equation, annotations, plain_text, href } => {
                push_member(&mut e, "type", JsonValue::from_str("equation"));
                push_member(&mut e, "equation", JsonValue::single("expression", JsonValue::String(equation.expression.clone())));
                push_span_tail(&mut e, annotations, plain_text, href);
                assert(member_views(e@) =~= match rich_json(self@) {
                    SpecJson::Object(m) => m,
                    _ => seq![],
                });
            },
        }
        JsonValue::Object(e)
    }
}

/// JSON of a sequence of spans.
pub open spec fn rich_seq_json(s: Seq<SpecRichText>) -> SpecJson {
    SpecJson::Array(Seq::new(s.len(), |i: int| rich_json(s[i])))
}

/// A sequence of spans as a JSON array.
pub fn rich_text_array_json(v: &[RichText]) -> (r: JsonValue)
    ensures
        r@ == rich_seq_json(rich_view(v@)),
{
    let mut out: Vec<JsonValue> = Vec::new();
    let mut i: usize = 0;
    while i < v.len()
        invariant
            i <= v.len(),
            out.len() == i,
            forall|j: int| 0 <= j < i ==> (#[trigger] out@[j])@ == rich_json(v@[j]@),
        decreases v.len() - i,
    {
        out.push(v[i].to_json());
        i = i + 1;
    }
    proof {
        lemma_json_views(out@);
        assert(json_views(out@) =~= Seq::new(v@.len(), |i: int| rich_json(rich_view(v@)[i])));
    }
    JsonValue::Array(out)
}

/// Whether `c` is an ASCII decimal digit.
pub open spec fn is_digit(c: char) -> bool {
    '0' <= c <= '9'
}

/// Whether every character of `s` is an ASCII decimal digit.
pub open spec fn all_digits(s: Seq<char>) -> bool {
    forall|i: int| 0 <= i < s.len() ==> is_digit(#[trigger] s[i])
}

/// The year of an RFC 3339 stamp: four digits, or a sign and at least four
/// digits for years outside 0..=9999.
pub open spec fn rfc3339_year(y: Seq<char>) -> bool {
    ||| y.len() == 4 && all_digits(y)
    ||| y.len() >= 5 && (y[0] == '+' || y[0] == '-') && all_digits(y.drop_first())
}

/// The fraction of a second of an RFC 3339 stamp: none, or a dot and three,
/// six or nine digits.
pub open spec fn rfc3339_fraction(f: Seq<char>) -> bool {
    ||| f.len() == 0
    ||| (f.len() == 4 || f.len() == 7 || f.len() == 10) && f[0] == '.' && all_digits(f.drop_first())
}

/// Whether `s` is an RFC 3339 time stamp in UTC as `chrono` writes it with
/// `to_rfc3339_opts(AutoSi, true)`: `YYYY-MM-DDThh:mm:ss`, an optional
/// fraction of a second, and `Z`.
pub open spec fn rfc3339_utc(s: Seq<char>) -> bool {
    exists|k: int|
        #![trigger s[k]]
        10 <= k && k + 10 <= s.len() && {
            let date = s.subrange(k - 6, k);
            let time = s.subrange(k + 1, k + 9);
            &&& s[k] == 'T'
            &&& rfc3339_year(s.subrange(0, k - 6))
            &&& date[0] == '-' && date[3] == '-'
            &&& is_digit(date[1]) && is_digit(date[2]) && is_digit(date[4]) && is_digit(date[5])
            &&& time[2] == ':' && time[5] == ':'
            &&& is_digit(time[0]) && is_digit(time[1]) && is_digit(time[3]) && is_digit(time[4])
            &&& is_digit(time[6]) && is_digit(time[7])
            &&& rfc3339_fraction(s.subrange(k + 9, s.len() - 1))
            &&& s[s.len() - 1] == 'Z'
        }
}

/// The current time as an RFC 3339 timestamp in UTC (`chrono::Utc::now`,
/// printed with `to_rfc3339_opts(AutoSi, true)`). The contract claims only
/// the shape of the text that `chrono`'s writer gives for a UTC offset with
/// `Z` allowed; which instant it names depends on the clock.
#[verifier::external_body]
pub(crate) fn now_rfc3339() -> (r: String)
    ensures
        rfc3339_utc(r@),
{
    chrono::Utc::now().to_rfc3339_opts(chrono::SecondsFormat::AutoSi, true)
}

} // verus!
