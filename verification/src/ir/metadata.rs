//! Document metadata and typed page properties.
use crate::ir::inline::{inlines_view, opt_view, InlineElement, SpecInline};
use crate::ir::Platform;
use crate::json::{json_views, member_views, DoubleBits, JsonNumber, JsonValue, NumberRepr, SpecJson};
use vstd::prelude::*;

verus! {

/// Document-level metadata.
#[derive(Debug)]
pub struct DocumentMetadata {
    pub title: Option<String>,
    pub author: Option<String>,
    /// Creation timestamp (RFC 3339).
    pub created_time: Option<String>,
    /// Last edited timestamp (RFC 3339).
    pub last_edited_time: Option<String>,
    /// Platform-specific properties, in insertion order; a name occurs once
    /// (`has_unique_names`).
    pub properties: Vec<(String, PropertyValue)>,
    /// Source platform this document came from.
    pub source_platform: Option<Platform>,
    /// Source identifier (page id, file path, document id, ...).
    pub source_id: Option<String>,
    /// Custom metadata; a key occurs once.
    pub custom: Vec<(String, JsonValue)>,
}

/// Whether no name occurs twice among the names of `entries`.
pub open spec fn names_unique<V>(entries: Seq<(Seq<char>, V)>) -> bool {
    forall|i: int, j: int| 0 <= i < j < entries.len() ==> (#[trigger] entries[i]).0 != (#[trigger] entries[j]).0
}

impl DocumentMetadata {
    /// Whether each property name and each custom key occurs once.
    pub open spec fn has_unique_names(&self) -> bool {
        names_unique(props_view(self.properties@)) && names_unique(member_views(self.custom@))
    }

    /// Metadata with nothing set.
    pub fn empty() -> (m: Self)
        ensures
            m.has_unique_names(),
            m.title is None,
            m.author is None,
            m.created_time is None,
            m.last_edited_time is None,
            m.properties@.len() == 0,
            m.source_platform is None,
            m.source_id is None,
            m.custom@.len() == 0,
    {
        DocumentMetadata {
            title: None,
            author: None,
            created_time: None,
            last_edited_time: None,
            properties: Vec::new(),
            source_platform: None,
            source_id: None,
            custom: Vec::new(),
        }
    }
}

/// Property value types for platform-specific properties.
#[derive(Debug)]
pub enum PropertyValue {
    Title { title: Vec<InlineElement> },
    RichText { rich_text: Vec<InlineElement> },
    Number { number: Option<DoubleBits> },
    Select { select: Option<SelectOption> },
    MultiSelect { multi_select: Vec<SelectOption> },
    Date { date: Option<DateValue> },
    Checkbox { checkbox: bool },
    Url { url: Option<String> },
    Email { email: Option<String> },
    PhoneNumber { phone_number: Option<String> },
    Relation { relation: Vec<String> },
    Files { files: Vec<FileValue> },
    CreatedTime { created_time: String },
    CreatedBy { created_by: String },
    LastEditedTime { last_edited_time: String },
    LastEditedBy { last_edited_by: String },
    Formula { formula: FormulaValue },
    Rollup { rollup: RollupValue },
    UniqueId { unique_id: UniqueIdValue },
    Verification { verification: VerificationValue },
    Status { status: StatusValue },
    Custom { key: String, value: JsonValue },
}

#[derive(Debug, Clone)]
pub struct SelectOption {
    pub id: Option<String>,
    pub name: String,
    pub color: Option<String>,
}

#[derive(Debug, Clone)]
pub struct DateValue {
    pub start: String,
    pub end: Option<String>,
    pub time_zone: Option<String>,
}

#[derive(Debug, Clone)]
pub struct FileValue {
    pub name: String,
    pub file_type: FileType,
}

#[derive(Debug, Clone)]
pub enum FileType {
    External { external: ExternalFile },
    Uploaded { file: UploadedFile },
}

#[derive(Debug, Clone)]
pub struct ExternalFile {
    pub url: String,
}

#[derive(Debug, Clone)]
pub struct UploadedFile {
    pub url: String,
    /// Expiry timestamp (RFC 3339).
    pub expiry_time: Option<String>,
}

#[derive(Debug, Clone)]
pub struct FormulaValue {
    pub value_type: String,
    pub number: Option<DoubleBits>,
    pub string: Option<String>,
    pub boolean: Option<bool>,
    pub date: Option<DateValue>,
}

#[derive(Debug)]
pub struct RollupValue {
    pub value_type: String,
    pub number: Option<DoubleBits>,
    pub string: Option<String>,
    pub boolean: Option<bool>,
    pub array: Option<Vec<JsonValue>>,
}

#[derive(Debug, Clone)]
pub struct UniqueIdValue {
    pub prefix: Option<String>,
    pub number: u64,
}

#[derive(Debug, Clone)]
pub struct VerificationValue {
    pub state: String,
    pub verified_by: Option<String>,
    /// Verification timestamp (RFC 3339).
    pub verified_time: Option<String>,
}

#[derive(Debug, Clone)]
pub struct StatusValue {
    pub name: String,
    pub color: Option<String>,
}

/// The content of a [`SelectOption`].
pub struct SpecSelect {
    pub id: Option<Seq<char>>,
    pub name: Seq<char>,
    pub color: Option<Seq<char>>,
}

impl View for SelectOption {
    type V = SpecSelect;

    open spec fn view(&self) -> SpecSelect {
        SpecSelect { id: opt_view(self.id), name: self.name@, color: opt_view(self.color) }
    }
}

/// The content of a [`DateValue`].
pub struct SpecDate {
    pub start: Seq<char>,
    pub end: Option<Seq<char>>,
    pub time_zone: Option<Seq<char>>,
}

impl View for DateValue {
    type V = SpecDate;

    open spec fn view(&self) -> SpecDate {
        SpecDate { start: self.start@, end: opt_view(self.end), time_zone: opt_view(self.time_zone) }
    }
}

/// The contents of a sequence of select options.
pub open spec fn selects_view(s: Seq<SelectOption>) -> Seq<SpecSelect> {
    Seq::new(s.len(), |i: int| s[i]@)
}

/// The contents of a sequence of strings.
pub open spec fn strings_view(s: Seq<String>) -> Seq<Seq<char>> {
    Seq::new(s.len(), |i: int| s[i]@)
}

/// The content of an optional select option.
pub open spec fn opt_select(s: Option<SelectOption>) -> Option<SpecSelect> {
    match s {
        Some(x) => Some(x@),
        None => None,
    }
}

/// The content of an optional date.
pub open spec fn opt_date(s: Option<DateValue>) -> Option<SpecDate> {
    match s {
        Some(x) => Some(x@),
        None => None,
    }
}

/// The content of a [`PropertyValue`]; kinds whose inner structure no
/// contract of this library inspects are kept as the value itself.
pub enum SpecProperty {
    Title { title: Seq<SpecInline> },
    RichText { rich_text: Seq<SpecInline> },
    Number { number: Option<DoubleBits> },
    Select { select: Option<SpecSelect> },
    MultiSelect { multi_select: Seq<SpecSelect> },
    Date { date: Option<SpecDate> },
    Checkbox { checkbox: bool },
    Url { url: Option<Seq<char>> },
    Email { email: Option<Seq<char>> },
    PhoneNumber { phone_number: Option<Seq<char>> },
    Relation { relation: Seq<Seq<char>> },
    Files { files: Seq<SpecFileValue> },
    Custom { key: Seq<char>, value: SpecJson },
    /// Timestamps, authors, formulas, rollups, ids, verification and status
    /// values, by their JSON form.
    Other { json: SpecJson },
}

impl View for PropertyValue {
    type V = SpecProperty;

    open spec fn view(&self) -> SpecProperty {
        match self {
            PropertyValue::Title { title } => SpecProperty::Title { title: inlines_view(title@) },
            PropertyValue::RichText { rich_text } => SpecProperty::RichText {
                rich_text: inlines_view(rich_text@),
            },
            PropertyValue::Number { number } => SpecProperty::Number { number: *number },
            PropertyValue::Select { select } => SpecProperty::Select { select: opt_select(*select) },
            PropertyValue::MultiSelect { multi_select } => SpecProperty::MultiSelect {
                multi_select: selects_view(multi_select@),
            },
            PropertyValue::Date { date } => SpecProperty::Date { date: opt_date(*date) },
            PropertyValue::Checkbox { checkbox } => SpecProperty::Checkbox { checkbox: *checkbox },
            PropertyValue::Url { url } => SpecProperty::Url { url: opt_view(*url) },
            PropertyValue::Email { email } => SpecProperty::Email { email: opt_view(*email) },
            PropertyValue::PhoneNumber { phone_number } => SpecProperty::PhoneNumber {
                phone_number: opt_view(*phone_number),
            },
            PropertyValue::Relation { relation } => SpecProperty::Relation {
                relation: strings_view(relation@),
            },
            PropertyValue::Files { files } => SpecProperty::Files { files: file_values_view(files@) },
            PropertyValue::Custom { key, value } => SpecProperty::Custom {
                key: key@,
                value: value@,
            },
            _ => SpecProperty::Other { json: other_property_json(*self) },
        }
    }
}

/// The contents of a property list.
pub open spec fn props_view(s: Seq<(String, PropertyValue)>) -> Seq<(Seq<char>, SpecProperty)> {
    Seq::new(s.len(), |i: int| (s[i].0@, s[i].1@))
}

/// The content of a [`FileValue`].
pub struct SpecFileValue {
    pub name: Seq<char>,
    pub file: SpecFileKind,
}

/// The content of a [`FileType`].
pub enum SpecFileKind {
    External { url: Seq<char> },
    Uploaded { url: Seq<char>, expiry_time: Option<Seq<char>> },
}

impl View for FileValue {
    type V = SpecFileValue;

    open spec fn view(&self) -> SpecFileValue {
        SpecFileValue {
            name: self.name@,
            file: match self.file_type {
                FileType::External { external } => SpecFileKind::External { url: external.url@ },
                FileType::Uploaded { file } => SpecFileKind::Uploaded {
                    url: file.url@,
                    expiry_time: opt_view(file.expiry_time),
                },
            },
        }
    }
}

/// The contents of a sequence of file values.
pub open spec fn file_values_view(s: Seq<FileValue>) -> Seq<SpecFileValue> {
    Seq::new(s.len(), |i: int| s[i]@)
}

/// A JSON string, or `null` for nothing.
pub open spec fn opt_str_json(o: Option<Seq<char>>) -> SpecJson {
    match o {
        Some(s) => SpecJson::Str(s),
        None => SpecJson::Null,
    }
}

/// Whether a double is finite: its exponent bits are not all set.
pub open spec fn finite_bits(d: DoubleBits) -> bool {
    (d.bits >> 52u64) & 0x7ffu64 != 0x7ffu64
}

/// A double as JSON: a number when finite, else `null`.
pub open spec fn double_json(d: DoubleBits) -> SpecJson {
    if finite_bits(d) {
        SpecJson::Number(JsonNumber { repr: NumberRepr::Float(d), double: Some(d) })
    } else {
        SpecJson::Null
    }
}

/// JSON of a select option: `id`, `name`, `color`, absent values as `null`.
pub open spec fn select_json(s: SpecSelect) -> SpecJson {
    SpecJson::Object(seq![("id"@, opt_str_json(s.id)), ("name"@, SpecJson::Str(s.name)), ("color"@, opt_str_json(s.color))])
}

/// JSON of a date: `start`, then `end` and `time_zone` when present.
pub open spec fn date_json(d: SpecDate) -> SpecJson {
    SpecJson::Object(
        seq![("start"@, SpecJson::Str(d.start))] + match d.end {
            Some(e) => seq![("end"@, SpecJson::Str(e))],
            None => seq![],
        } + match d.time_zone {
            Some(t) => seq![("time_zone"@, SpecJson::Str(t))],
            None => seq![],
        },
    )
}

/// JSON of a file: its `name`, its `type` and the location under that type.
pub open spec fn file_value_json(f: SpecFileValue) -> SpecJson {
    match f.file {
        SpecFileKind::External { url } => SpecJson::Object(
            seq![
                ("name"@, SpecJson::Str(f.name)),
                ("type"@, SpecJson::Str("external"@)),
                ("external"@, SpecJson::Object(seq![("url"@, SpecJson::Str(url))])),
            ],
        ),
        SpecFileKind::Uploaded { url, expiry_time } => SpecJson::Object(
            seq![
                ("name"@, SpecJson::Str(f.name)),
                ("type"@, SpecJson::Str("uploaded"@)),
                ("file"@, SpecJson::Object(seq![("url"@, SpecJson::Str(url))] + match expiry_time {
                    Some(t) => seq![("expiry_time"@, SpecJson::Str(t))],
                    None => seq![],
                })),
            ],
        ),
    }
}

/// Appends a member to an object under construction.
pub fn push_member(entries: &mut Vec<(String, JsonValue)>, key: &str, value: JsonValue)
    ensures
        member_views(final(entries)@) == member_views(old(entries)@).push((key@, value@)),
{
    let ghost vv = value@;
    entries.push((String::from_str(key), value));
    proof {
        assert(final(entries)@.subrange(0, old(entries)@.len() as int) =~= old(entries)@);
    }
}

/// A JSON string, or `null` for nothing.
pub fn opt_str_to_json(o: &Option<String>) -> (r: JsonValue)
    ensures
        r@ == opt_str_json(opt_view(*o)),
{
    match o {
        Some(s) => JsonValue::String(s.clone()),
        None => JsonValue::Null,
    }
}

/// A double as JSON: a number when finite, else `null`.
pub fn double_to_json(d: DoubleBits) -> (r: JsonValue)
    ensures
        r@ == double_json(d),
{
    if (d.bits >> 52u64) & 0x7ffu64 != 0x7ffu64 {
        JsonValue::Number(JsonNumber::from_double(d))
    } else {
        JsonValue::Null
    }
}

impl SelectOption {
    /// This option as JSON.
    pub fn to_json(&self) -> (r: JsonValue)
        ensures
            r@ == select_json(self@),
    {
        let mut e: Vec<(String, JsonValue)> = Vec::new();
        push_member(&mut e, "id", opt_str_to_json(&self.id));
        push_member(&mut e, "name", JsonValue::String(self.name.clone()));
        push_member(&mut e, "color", opt_str_to_json(&self.color));
        assert(member_views(e@) =~= seq![("id"@, opt_str_json(self@.id)), ("name"@, SpecJson::Str(self@.name)), ("color"@, opt_str_json(self@.color))]);
        JsonValue::Object(e)
    }
}

impl DateValue {
    /// This date as JSON.
    pub fn to_json(&self) -> (r: JsonValue)
        ensures
            r@ == date_json(self@),
    {
        let mut e: Vec<(String, JsonValue)> = Vec::new();
        push_member(&mut e, "start", JsonValue::String(self.start.clone()));
        match &self.end {
            Some(x) => push_member(&mut e, "end", JsonValue::String(x.clone())),
            None => {},
        }
        match &self.time_zone {
            Some(x) => push_member(&mut e, "time_zone", JsonValue::String(x.clone())),
            None => {},
        }
        assert(member_views(e@) =~= match date_json(self@) {
            SpecJson::Object(m) => m,
            _ => seq![],
        });
        JsonValue::Object(e)
    }
}

impl FileValue {
    /// This file as JSON.
    pub fn to_json(&self) -> (r: JsonValue)
        ensures
            r@ == file_value_json(self@),
    {
        let mut e: Vec<(String, JsonValue)> = Vec::new();
        push_member(&mut e, "name", JsonValue::String(self.name.clone()));
        match &self.file_type {
            FileType::External { external } => {
                push_member(&mut e, "type", JsonValue::from_str("external"));
                let mut loc: Vec<(String, JsonValue)> = Vec::new();
                push_member(&mut loc, "url", JsonValue::String(external.url.clone()));
                assert(member_views(loc@) =~= seq![("url"@, SpecJson::Str(external.url@))]);
                push_member(&mut e, "external", JsonValue::Object(loc));
            },
            FileType::Uploaded { file } => {
                push_member(&mut e, "type", JsonValue::from_str("uploaded"));
                let mut loc: Vec<(String, JsonValue)> = Vec::new();
                push_member(&mut loc, "url", JsonValue::String(file.url.clone()));
                match &file.expiry_time {
                    Some(t) => push_member(&mut loc, "expiry_time", JsonValue::String(t.clone())),
                    None => {},
                }
                assert(member_views(loc@) =~= seq![("url"@, SpecJson::Str(file.url@))] + match opt_view(file.expiry_time) {
                    Some(t) => seq![("expiry_time"@, SpecJson::Str(t))],
                    None => seq![],
                });
                push_member(&mut e, "file", JsonValue::Object(loc));
            },
        }
        assert(member_views(e@) =~= match file_value_json(self@) {
            SpecJson::Object(m) => m,
            _ => seq![],
        });
        JsonValue::Object(e)
    }
}

/// `(key, value)` when present, nothing otherwise.
pub open spec fn opt_member(key: Seq<char>, v: Option<SpecJson>) -> Seq<(Seq<char>, SpecJson)> {
    match v {
        Some(j) => seq![(key, j)],
        None => seq![],
    }
}

/// An optional string as a JSON value.
pub open spec fn opt_string_value(s: Option<String>) -> Option<SpecJson> {
    match s {
        Some(x) => Some(SpecJson::Str(x@)),
        None => None,
    }
}

/// JSON of a formula result: its value type, then each result present.
pub open spec fn formula_json(f: FormulaValue) -> SpecJson {
    SpecJson::Object(
        seq![("value_type"@, SpecJson::Str(f.value_type@))] + opt_member(
            "number"@,
            match f.number {
                Some(d) => Some(double_json(d)),
                None => None,
            },
        ) + opt_member("string"@, opt_string_value(f.string)) + opt_member(
            "boolean"@,
            match f.boolean {
                Some(b) => Some(SpecJson::Bool(b)),
                None => None,
            },
        ) + opt_member(
            "date"@,
            match f.date {
                Some(d) => Some(date_json(d@)),
                None => None,
            },
        ),
    )
}

/// JSON of a rollup result: its value type, then each result present.
pub open spec fn rollup_json(r: RollupValue) -> SpecJson {
    SpecJson::Object(
        seq![("value_type"@, SpecJson::Str(r.value_type@))] + opt_member(
            "number"@,
            match r.number {
                Some(d) => Some(double_json(d)),
                None => None,
            },
        ) + opt_member("string"@, opt_string_value(r.string)) + opt_member(
            "boolean"@,
            match r.boolean {
                Some(b) => Some(SpecJson::Bool(b)),
                None => None,
            },
        ) + opt_member(
            "array"@,
            match r.array {
                Some(a) => Some(SpecJson::Array(json_views(a@))),
                None => None,
            },
        ),
    )
}

/// A JSON object `{"type": tag, tag: body}`.
pub open spec fn tagged_json(tag: Seq<char>, body: SpecJson) -> SpecJson {
    SpecJson::Object(seq![("type"@, SpecJson::Str(tag)), (tag, body)])
}

/// JSON of the property kinds without a structured view: timestamps,
/// authors, formulas, rollups, unique ids, verification and status.
pub open spec fn other_property_json(p: PropertyValue) -> SpecJson {
    match p {
        PropertyValue::CreatedTime { created_time } => tagged_json("created_time"@, SpecJson::Str(created_time@)),
        PropertyValue::CreatedBy { created_by } => tagged_json("created_by"@, SpecJson::Str(created_by@)),
        PropertyValue::LastEditedTime { last_edited_time } => tagged_json(
            "last_edited_time"@,
            SpecJson::Str(last_edited_time@),
        ),
        PropertyValue::LastEditedBy { last_edited_by } => tagged_json("last_edited_by"@, SpecJson::Str(last_edited_by@)),
        PropertyValue::Formula { formula } => tagged_json("formula"@, formula_json(formula)),
        PropertyValue::Rollup { rollup } => tagged_json("rollup"@, rollup_json(rollup)),
        PropertyValue::UniqueId { unique_id } => tagged_json(
            "unique_id"@,
            SpecJson::Object(
                seq![
                    ("prefix"@, opt_str_json(opt_view(unique_id.prefix))),
                    ("number"@, SpecJson::Number(JsonNumber { repr: NumberRepr::PosInt(unique_id.number), double: None })),
                ],
            ),
        ),
        PropertyValue::Verification { verification } => tagged_json(
            "verification"@,
            SpecJson::Object(
                seq![("state"@, SpecJson::Str(verification.state@))] + opt_member(
                    "verified_by"@,
                    opt_string_value(verification.verified_by),
                ) + opt_member("verified_time"@, opt_string_value(verification.verified_time)),
            ),
        ),
        PropertyValue::Status { status } => tagged_json(
            "status"@,
            SpecJson::Object(seq![("name"@, SpecJson::Str(status.name@)), ("color"@, opt_str_json(opt_view(status.color)))]),
        ),
        _ => SpecJson::Null,
    }
}

/// Appends `(key, value)` when the value is present.
fn push_opt_member(entries: &mut Vec<(String, JsonValue)>, key: &str, value: Option<JsonValue>)
    ensures
        member_views(final(entries)@) == member_views(old(entries)@) + opt_member(
            key@,
            match value {
                Some(j) => Some(j@),
                None => None,
            },
        ),
{
    match value {
        Some(j) => {
            push_member(entries, key, j);
            assert(member_views(final(entries)@) =~= member_views(old(entries)@) + opt_member(key@, Some(j@)));
        },
        None => {
            assert(member_views(final(entries)@) =~= member_views(old(entries)@) + opt_member(key@, None));
        },
    }
}

/// An object `{"type": tag, tag: body}`.
fn tagged(tag: &str, body: JsonValue) -> (r: JsonValue)
    ensures
        r@ == tagged_json(tag@, body@),
{
    let mut e: Vec<(String, JsonValue)> = Vec::new();
    push_member(&mut e, "type", JsonValue::from_str(tag));
    push_member(&mut e, tag, body);
    assert(member_views(e@) =~= seq![("type"@, SpecJson::Str(tag@)), (tag@, body@)]);
    JsonValue::Object(e)
}

/// An optional string as a JSON value.
fn opt_string_json(s: &Option<String>) -> (r: Option<JsonValue>)
    ensures
        match r {
            Some(j) => Some(j@),
            None => None,
        } == opt_string_value(*s),
{
    match s {
        Some(x) => Some(JsonValue::String(x.clone())),
        None => None,
    }
}

/// A sequence of JSON values as an array.
fn json_array_copy(v: &Vec<JsonValue>) -> (r: JsonValue)
    ensures
        r@ == SpecJson::Array(json_views(v@)),
{
    let mut out: Vec<JsonValue> = Vec::new();
    let mut i: usize = 0;
    while i < v.len()
        invariant
            i <= v.len(),
            out.len() == i,
            forall|j: int| 0 <= j < i ==> (#[trigger] out@[j])@ == v@[j]@,
        decreases v.len() - i,
    {
        out.push(v[i].copy());
        i = i + 1;
    }
    proof {
        crate::json::lemma_json_views(out@);
        crate::json::lemma_json_views(v@);
        assert(json_views(out@) =~= json_views(v@));
    }
    JsonValue::Array(out)
}

impl FormulaValue {
    /// This formula result as JSON.
    pub fn to_json(&self) -> (r: JsonValue)
        ensures
            r@ == formula_json(*self),
    {
        let mut e: Vec<(String, JsonValue)> = Vec::new();
        push_member(&mut e, "value_type", JsonValue::String(self.value_type.clone()));
        push_opt_member(&mut e, "number", match self.number { Some(d) => Some(double_to_json(d)), None => None });
        push_opt_member(&mut e, "string", opt_string_json(&self.string));
        push_opt_member(&mut e, "boolean", match self.boolean { Some(b) => Some(JsonValue::Bool(b)), None => None });
        push_opt_member(&mut e, "date", match &self.date { Some(d) => Some(d.to_json()), None => None });
        assert(member_views(e@) =~= match formula_json(*self) {
            SpecJson::Object(m) => m,
            _ => seq![],
        });
        JsonValue::Object(e)
    }
}

impl RollupValue {
    /// This rollup result as JSON.
    pub fn to_json(&self) -> (r: JsonValue)
        ensures
            r@ == rollup_json(*self),
    {
        let mut e: Vec<(String, JsonValue)> = Vec::new();
        push_member(&mut e, "value_type", JsonValue::String(self.value_type.clone()));
        push_opt_member(&mut e, "number", match self.number { Some(d) => Some(double_to_json(d)), None => None });
        push_opt_member(&mut e, "string", opt_string_json(&self.string));
        push_opt_member(&mut e, "boolean", match self.boolean { Some(b) => Some(JsonValue::Bool(b)), None => None });
        push_opt_member(&mut e, "array", match &self.array { Some(a) => Some(json_array_copy(a)), None => None });
        assert(member_views(e@) =~= match rollup_json(*self) {
            SpecJson::Object(m) => m,
            _ => seq![],
        });
        JsonValue::Object(e)
    }
}

impl PropertyValue {
    /// The JSON form of a property of a kind without a structured view.
    pub fn other_json(&self) -> (r: JsonValue)
        ensures
            r@ == other_property_json(*self),
    {
        match self {
            PropertyValue::CreatedTime { created_time } => tagged("created_time", JsonValue::String(created_time.clone())),
            PropertyValue::CreatedBy { created_by } => tagged("created_by", JsonValue::String(created_by.clone())),
            PropertyValue::LastEditedTime { last_edited_time } => tagged(
                "last_edited_time",
                JsonValue::String(last_edited_time.clone()),
            ),
            PropertyValue::LastEditedBy { last_edited_by } => tagged("last_edited_by", JsonValue::String(last_edited_by.clone())),
            PropertyValue::Formula { formula } => tagged("formula", formula.to_json()),
            PropertyValue::Rollup { rollup } => tagged("rollup", rollup.to_json()),
            PropertyValue::UniqueId { unique_id } => {
                let mut e: Vec<(String, JsonValue)> = Vec::new();
                push_member(&mut e, "prefix", opt_str_to_json(&unique_id.prefix));
                push_member(
                    &mut e,
                    "number",
                    JsonValue::Number(JsonNumber { repr: NumberRepr::PosInt(unique_id.number), double: None }),
                );
                let ghost want = seq![
                    ("prefix"@, opt_str_json(opt_view(unique_id.prefix))),
                    ("number"@, SpecJson::Number(JsonNumber { repr: NumberRepr::PosInt(unique_id.number), double: None })),
                ];
                assert(member_views(e@) =~= want);
                tagged("unique_id", JsonValue::Object(e))
            },
            PropertyValue::Verification { verification } => {
                let mut e: Vec<(String, JsonValue)> = Vec::new();
                push_member(&mut e, "state", JsonValue::String(verification.state.clone()));
                push_opt_member(&mut e, "verified_by", opt_string_json(&verification.verified_by));
                push_opt_member(&mut e, "verified_time", opt_string_json(&verification.verified_time));
                let ghost want = seq![("state"@, SpecJson::Str(verification.state@))] + opt_member(
                    "verified_by"@,
                    opt_string_value(verification.verified_by),
                ) + opt_member("verified_time"@, opt_string_value(verification.verified_time));
                assert(member_views(e@) =~= want);
                tagged("verification", JsonValue::Object(e))
            },
            PropertyValue::Status { status } => {
                let mut e: Vec<(String, JsonValue)> = Vec::new();
                push_member(&mut e, "name", JsonValue::String(status.name.clone()));
                push_member(&mut e, "color", opt_str_to_json(&status.color));
                let ghost want = seq![("name"@, SpecJson::Str(status.name@)), ("color"@, opt_str_json(opt_view(status.color)))];
                assert(member_views(e@) =~= want);
                tagged("status", JsonValue::Object(e))
            },
            _ => JsonValue::Null,
        }
    }
}

} // verus!
