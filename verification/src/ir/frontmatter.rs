//! Typed YAML frontmatter and page properties.
//!
//! Each frontmatter entry declares its Notion property type with a `type:`
//! tag:
//!
//! ```yaml
//! title:
//!   type: title
//!   value: "My Page"
//! tags:
//!   type: multi_select
//!   values: [rust, notion]
//! score:
//!   type: number
//!   value: 42
//! ```
//!
//! YAML text is read into a [`YamlNode`] tree (with each number's and
//! string's reading as a double, and each node's debug text) outside this
//! module; here the tree is mapped to properties, and properties are mapped
//! to the tree written back as YAML.
use crate::ir::inline::{inlines_view, opt_view, text, InlineElement, SpecInline};
use crate::ir::metadata::{
    names_unique, other_property_json, props_view, tagged_json, DateValue, PropertyValue, SelectOption, SpecDate, SpecProperty,
    SpecSelect, file_value_json, select_json,
};
use crate::json::{json_views, member_views, DoubleBits, JsonNumber, JsonValue, NumberRepr, SpecJson};
use crate::text::{extend_str, string_of};
use vstd::prelude::*;

verus! {

broadcast use vstd::std_specs::vec::group_vec_axioms;

/// Notion property types that frontmatter can declare.
#[derive(Debug, Clone, Copy, PartialEq, Eq, Hash)]
pub enum PropertyType {
    Title,
    RichText,
    Number,
    Select,
    MultiSelect,
    Date,
    Checkbox,
    Url,
    Email,
}

/// The tag written as `type:` for a property type.
pub open spec fn tag_of(t: PropertyType) -> Seq<char> {
    match t {
        PropertyType::Title => "title"@,
        PropertyType::RichText => "rich_text"@,
        PropertyType::Number => "number"@,
        PropertyType::Select => "select"@,
        PropertyType::MultiSelect => "multi_select"@,
        PropertyType::Date => "date"@,
        PropertyType::Checkbox => "checkbox"@,
        PropertyType::Url => "url"@,
        PropertyType::Email => "email"@,
    }
}

/// The property type a tag names, if any.
pub open spec fn type_of_tag(tag: Seq<char>) -> Option<PropertyType> {
    if tag == "title"@ {
        Some(PropertyType::Title)
    } else if tag == "rich_text"@ {
        Some(PropertyType::RichText)
    } else if tag == "number"@ {
        Some(PropertyType::Number)
    } else if tag == "select"@ {
        Some(PropertyType::Select)
    } else if tag == "multi_select"@ {
        Some(PropertyType::MultiSelect)
    } else if tag == "date"@ {
        Some(PropertyType::Date)
    } else if tag == "checkbox"@ {
        Some(PropertyType::Checkbox)
    } else if tag == "url"@ {
        Some(PropertyType::Url)
    } else if tag == "email"@ {
        Some(PropertyType::Email)
    } else {
        None
    }
}

impl PropertyType {
    /// The property type a YAML tag names.
    pub fn from_tag(tag: &str) -> (r: Option<Self>)
        ensures
            r == type_of_tag(tag@),
    {
        let v = crate::text::chars_of(tag);
        if crate::text::chars_eq_str(v.as_slice(), "title") {
            Some(PropertyType::Title)
        } else if crate::text::chars_eq_str(v.as_slice(), "rich_text") {
            Some(PropertyType::RichText)
        } else if crate::text::chars_eq_str(v.as_slice(), "number") {
            Some(PropertyType::Number)
        } else if crate::text::chars_eq_str(v.as_slice(), "select") {
            Some(PropertyType::Select)
        } else if crate::text::chars_eq_str(v.as_slice(), "multi_select") {
            Some(PropertyType::MultiSelect)
        } else if crate::text::chars_eq_str(v.as_slice(), "date") {
            Some(PropertyType::Date)
        } else if crate::text::chars_eq_str(v.as_slice(), "checkbox") {
            Some(PropertyType::Checkbox)
        } else if crate::text::chars_eq_str(v.as_slice(), "url") {
            Some(PropertyType::Url)
        } else if crate::text::chars_eq_str(v.as_slice(), "email") {
            Some(PropertyType::Email)
        } else {
            None
        }
    }

    /// The tag written as `type:` in YAML.
    pub fn as_tag(self) -> (r: &'static str)
        ensures
            r@ == tag_of(self),
    {
        match self {
            PropertyType::Title => "title",
            PropertyType::RichText => "rich_text",
            PropertyType::Number => "number",
            PropertyType::Select => "select",
            PropertyType::MultiSelect => "multi_select",
            PropertyType::Date => "date",
            PropertyType::Checkbox => "checkbox",
            PropertyType::Url => "url",
            PropertyType::Email => "email",
        }
    }

    /// The tag of this type, as text (what `Display` writes).
    pub fn to_string(self) -> (r: String)
        ensures
            r@ == tag_of(self),
    {
        String::from_str(self.as_tag())
    }
}

/// Reading the tag of a type gives the type back.
pub proof fn lemma_tag_round_trip(t: PropertyType)
    ensures
        type_of_tag(tag_of(t)) == Some(t),
{
    reveal_strlit("title");
    reveal_strlit("rich_text");
    reveal_strlit("number");
    reveal_strlit("select");
    reveal_strlit("multi_select");
    reveal_strlit("date");
    reveal_strlit("checkbox");
    reveal_strlit("url");
    reveal_strlit("email");
    assert("title"@[0] == 't');
    assert("rich_text"@[0] == 'r');
    assert("number"@[0] == 'n');
    assert("select"@[0] == 's');
    assert("multi_select"@[0] == 'm');
    assert("date"@[0] == 'd');
    assert("checkbox"@[0] == 'c');
    assert("url"@[0] == 'u');
    assert("email"@[0] == 'e');
}

/// Errors of the frontmatter mapping.
#[derive(Debug)]
pub enum FrontmatterError {
    /// The text is no YAML; the parser's message.
    InvalidYaml(String),
    /// A `type:` tag names no supported property type.
    UnknownPropertyType(String),
    /// Property `0` lacks field `1`.
    MissingField(String, String),
    /// Field `1` of property `0` has the wrong kind; the value's debug text.
    WrongFieldType(String, String, String),
}

/// The content of a [`FrontmatterError`].
pub enum SpecFmError {
    InvalidYaml(Seq<char>),
    UnknownPropertyType(Seq<char>),
    MissingField(Seq<char>, Seq<char>),
    WrongFieldType(Seq<char>, Seq<char>, Seq<char>),
}

impl View for FrontmatterError {
    type V = SpecFmError;

    open spec fn view(&self) -> SpecFmError {
        match self {
            FrontmatterError::InvalidYaml(m) => SpecFmError::InvalidYaml(m@),
            FrontmatterError::UnknownPropertyType(t) => SpecFmError::UnknownPropertyType(t@),
            FrontmatterError::MissingField(p, f) => SpecFmError::MissingField(p@, f@),
            FrontmatterError::WrongFieldType(p, f, v) => SpecFmError::WrongFieldType(p@, f@, v@),
        }
    }
}

/// The message of a frontmatter error.
pub open spec fn fm_message(e: SpecFmError) -> Seq<char> {
    match e {
        SpecFmError::InvalidYaml(m) => "invalid YAML in frontmatter block: "@ + m,
        SpecFmError::UnknownPropertyType(t) => "unknown property type: "@ + t,
        SpecFmError::MissingField(p, f) => "property '"@ + p + "' is missing required field '"@ + f + "'"@,
        SpecFmError::WrongFieldType(p, f, v) => "property '"@ + p + "' has wrong field type for '"@ + f + "': "@ + v,
    }
}

impl FrontmatterError {
    /// The message of this error (what `Display` writes).
    pub fn to_string(&self) -> (r: String)
        ensures
            r@ == fm_message(self@),
    {
        let mut out: Vec<char> = Vec::new();
        match self {
            FrontmatterError::InvalidYaml(m) => {
                extend_str(&mut out, "invalid YAML in frontmatter block: ");
                extend_str(&mut out, m.as_str());
            },
            FrontmatterError::UnknownPropertyType(t) => {
                extend_str(&mut out, "unknown property type: ");
                extend_str(&mut out, t.as_str());
            },
            FrontmatterError::MissingField(p, f) => {
                extend_str(&mut out, "property '");
                extend_str(&mut out, p.as_str());
                extend_str(&mut out, "' is missing required field '");
                extend_str(&mut out, f.as_str());
                extend_str(&mut out, "'");
            },
            FrontmatterError::WrongFieldType(p, f, v) => {
                extend_str(&mut out, "property '");
                extend_str(&mut out, p.as_str());
                extend_str(&mut out, "' has wrong field type for '");
                extend_str(&mut out, f.as_str());
                extend_str(&mut out, "': ");
                extend_str(&mut out, v.as_str());
            },
        }
        assert(out@ =~= fm_message(self@));
        string_of(&out)
    }
}

/// A YAML value read from frontmatter text.
#[derive(Debug)]
pub enum YamlKind {
    Null,
    Bool(bool),
    /// A number, by its reading as a double.
    Number(DoubleBits),
    /// A string, with its reading as a double when it reads as one.
    String { text: String, number: Option<DoubleBits> },
    Sequence(Vec<YamlNode>),
    Mapping(Vec<(YamlNode, YamlNode)>),
    /// A tagged value.
    Tagged,
}

/// A YAML value with the debug text of the value as read.
#[derive(Debug)]
pub struct YamlNode {
    pub kind: YamlKind,
    pub debug: String,
}

/// The content of a [`YamlKind`].
pub enum SpecYamlKind {
    Null,
    Bool(bool),
    Number(DoubleBits),
    Str { text: Seq<char>, number: Option<DoubleBits> },
    Sequence(Seq<SpecYaml>),
    Mapping(Seq<(SpecYaml, SpecYaml)>),
    Tagged,
}

/// The content of a [`YamlNode`].
pub struct SpecYaml {
    pub kind: SpecYamlKind,
    pub debug: Seq<char>,
}

impl View for YamlNode {
    type V = SpecYaml;

    open spec fn view(&self) -> SpecYaml
        decreases self, 0nat,
    {
        SpecYaml {
            kind: match self.kind {
                YamlKind::Null => SpecYamlKind::Null,
                YamlKind::Bool(b) => SpecYamlKind::Bool(b),
                YamlKind::Number(d) => SpecYamlKind::Number(d),
                YamlKind::String { text, number } => SpecYamlKind::Str { text: text@, number },
                YamlKind::Sequence(items) => SpecYamlKind::Sequence(yaml_views(items@)),
                YamlKind::Mapping(pairs) => SpecYamlKind::Mapping(yaml_pair_views(pairs@)),
                YamlKind::Tagged => SpecYamlKind::Tagged,
            },
            debug: self.debug@,
        }
    }
}

/// Views of a sequence of nodes.
pub open spec fn yaml_views(s: Seq<YamlNode>) -> Seq<SpecYaml>
    decreases s, s.len(),
{
    if s.len() == 0 {
        Seq::empty()
    } else {
        yaml_views(s.subrange(0, s.len() - 1)).push(s[s.len() - 1]@)
    }
}

/// Views of a sequence of key/value pairs.
pub open spec fn yaml_pair_views(s: Seq<(YamlNode, YamlNode)>) -> Seq<(SpecYaml, SpecYaml)>
    decreases s, s.len(),
{
    if s.len() == 0 {
        Seq::empty()
    } else {
        yaml_pair_views(s.subrange(0, s.len() - 1)).push((s[s.len() - 1].0@, s[s.len() - 1].1@))
    }
}

/// Node views keep length and position.
pub proof fn lemma_yaml_views(s: Seq<YamlNode>)
    ensures
        yaml_views(s).len() == s.len(),
        forall|j: int| 0 <= j < s.len() ==> #[trigger] yaml_views(s)[j] == s[j]@,
    decreases s.len(),
{
    if s.len() > 0 {
        lemma_yaml_views(s.subrange(0, s.len() - 1));
        assert(yaml_views(s) == yaml_views(s.subrange(0, s.len() - 1)).push(s[s.len() - 1]@));
    }
}

/// Pair views keep length and position.
pub proof fn lemma_yaml_pair_views(s: Seq<(YamlNode, YamlNode)>)
    ensures
        yaml_pair_views(s).len() == s.len(),
        forall|j: int| 0 <= j < s.len() ==> #[trigger] yaml_pair_views(s)[j] == (s[j].0@, s[j].1@),
    decreases s.len(),
{
    if s.len() > 0 {
        lemma_yaml_pair_views(s.subrange(0, s.len() - 1));
        assert(yaml_pair_views(s) == yaml_pair_views(s.subrange(0, s.len() - 1)).push(
            (s[s.len() - 1].0@, s[s.len() - 1].1@),
        ));
    }
}

/// Whether a node is the string `key`.
pub open spec fn is_key(n: SpecYaml, key: Seq<char>) -> bool {
    n.kind matches SpecYamlKind::Str { text, .. } && text == key
}

/// The value under the first key that is the string `key`.
pub open spec fn lookup(m: Seq<(SpecYaml, SpecYaml)>, key: Seq<char>) -> Option<SpecYaml>
    decreases m.len(),
{
    if m.len() == 0 {
        None
    } else if is_key(m[0].0, key) {
        Some(m[0].1)
    } else {
        lookup(m.drop_first(), key)
    }
}

/// The string field `field` of property `name`.
pub open spec fn require_str(name: Seq<char>, m: Seq<(SpecYaml, SpecYaml)>, field: Seq<char>) -> Result<Seq<char>, SpecFmError> {
    match lookup(m, field) {
        None => Err(SpecFmError::MissingField(name, field)),
        Some(v) => match v.kind {
            SpecYamlKind::Str { text, .. } => Ok(text),
            _ => Err(SpecFmError::WrongFieldType(name, field, v.debug)),
        },
    }
}

/// A one-run text.
pub open spec fn one_run(s: Seq<char>) -> Seq<SpecInline> {
    seq![SpecInline::TextRun { content: s, style: None }]
}

/// A select option with only a name.
pub open spec fn named_option(name: Seq<char>) -> SpecSelect {
    SpecSelect { id: None, name, color: None }
}

/// The first item of a sequence that is not a string, if any.
pub open spec fn first_non_string(items: Seq<SpecYaml>) -> Option<int>
    decreases items.len(),
{
    if items.len() == 0 {
        None
    } else {
        match first_non_string(items.drop_last()) {
            Some(k) => Some(k),
            None => if items.last().kind is Str {
                None
            } else {
                Some(items.len() - 1)
            },
        }
    }
}

/// The text of a string node.
pub open spec fn str_text(n: SpecYaml) -> Seq<char> {
    match n.kind {
        SpecYamlKind::Str { text, .. } => text,
        _ => seq![],
    }
}

/// The value of a property of type `pt` from its entry `m`.
pub open spec fn typed_value(name: Seq<char>, m: Seq<(SpecYaml, SpecYaml)>, pt: PropertyType) -> Result<SpecProperty, SpecFmError> {
    match pt {
        PropertyType::Title => match require_str(name, m, "value"@) {
            Ok(v) => Ok(SpecProperty::Title { title: one_run(v) }),
            Err(e) => Err(e),
        },
        PropertyType::RichText => match require_str(name, m, "value"@) {
            Ok(v) => Ok(SpecProperty::RichText { rich_text: one_run(v) }),
            Err(e) => Err(e),
        },
        PropertyType::Number => match lookup(m, "value"@) {
            None => Err(SpecFmError::MissingField(name, "value"@)),
            Some(v) => match v.kind {
                SpecYamlKind::Number(d) => Ok(SpecProperty::Number { number: Some(d) }),
                SpecYamlKind::Str { text, number } => match number {
                    Some(d) => Ok(SpecProperty::Number { number: Some(d) }),
                    None => Err(SpecFmError::WrongFieldType(name, "value"@, text)),
                },
                _ => Err(SpecFmError::WrongFieldType(name, "value"@, v.debug)),
            },
        },
        PropertyType::Select => match require_str(name, m, "value"@) {
            Ok(v) => Ok(SpecProperty::Select { select: Some(named_option(v)) }),
            Err(e) => Err(e),
        },
        PropertyType::MultiSelect => match lookup(m, "values"@) {
            None => Err(SpecFmError::MissingField(name, "values"@)),
            Some(v) => match v.kind {
                SpecYamlKind::Sequence(items) => match first_non_string(items) {
                    Some(k) => Err(SpecFmError::WrongFieldType(name, "values[].name"@, items[k].debug)),
                    None => Ok(
                        SpecProperty::MultiSelect {
                            multi_select: Seq::new(items.len(), |i: int| named_option(str_text(items[i]))),
                        },
                    ),
                },
                _ => Err(SpecFmError::WrongFieldType(name, "values"@, v.debug)),
            },
        },
        PropertyType::Date => match require_str(name, m, "value"@) {
            Ok(v) => Ok(SpecProperty::Date { date: Some(SpecDate { start: v, end: None, time_zone: None }) }),
            Err(e) => Err(e),
        },
        PropertyType::Checkbox => match lookup(m, "value"@) {
            None => Err(SpecFmError::MissingField(name, "value"@)),
            Some(v) => match v.kind {
                SpecYamlKind::Bool(b) => Ok(SpecProperty::Checkbox { checkbox: b }),
                _ => Err(SpecFmError::WrongFieldType(name, "value"@, v.debug)),
            },
        },
        PropertyType::Url => match require_str(name, m, "value"@) {
            Ok(v) => Ok(SpecProperty::Url { url: Some(v) }),
            Err(e) => Err(e),
        },
        PropertyType::Email => match require_str(name, m, "value"@) {
            Ok(v) => Ok(SpecProperty::Email { email: Some(v) }),
            Err(e) => Err(e),
        },
    }
}

/// The property an entry declares: a mapping whose `type:` string names a
/// supported type, with the fields that type needs.
pub open spec fn property_of(name: Seq<char>, v: SpecYaml) -> Result<SpecProperty, SpecFmError> {
    match v.kind {
        SpecYamlKind::Mapping(m) => match lookup(m, "type"@) {
            None => Err(SpecFmError::MissingField(name, "type"@)),
            Some(t) => match t.kind {
                SpecYamlKind::Str { text, .. } => match type_of_tag(text) {
                    None => Err(SpecFmError::UnknownPropertyType(text)),
                    Some(pt) => typed_value(name, m, pt),
                },
                _ => Err(SpecFmError::WrongFieldType(name, "type"@, t.debug)),
            },
        },
        _ => Err(SpecFmError::WrongFieldType(name, "object with `type:`"@, v.debug)),
    }
}

/// `lookup` finds the first key that matches.
proof fn lemma_lookup_index(m: Seq<(SpecYaml, SpecYaml)>, key: Seq<char>, i: int)
    requires
        0 <= i <= m.len(),
        forall|j: int| 0 <= j < i ==> !is_key(#[trigger] m[j].0, key),
    ensures
        i < m.len() && is_key(m[i].0, key) ==> lookup(m, key) == Some(m[i].1),
        i == m.len() ==> lookup(m, key) is None,
    decreases i,
{
    if i > 0 {
        assert(!is_key(m[0].0, key));
        assert forall|j: int| 0 <= j < i - 1 implies !is_key(#[trigger] m.drop_first()[j].0, key) by {
            assert(m.drop_first()[j] == m[j + 1]);
        }
        lemma_lookup_index(m.drop_first(), key, i - 1);
    }
}

/// The value under the first key that is the string `key`.
fn lookup_field<'a>(m: &'a Vec<(YamlNode, YamlNode)>, key: &str) -> (r: Option<&'a YamlNode>)
    ensures
        match lookup(yaml_pair_views(m@), key@) {
            Some(v) => r matches Some(x) && x@ == v,
            None => r is None,
        },
{
    let ghost pv = yaml_pair_views(m@);
    proof {
        lemma_yaml_pair_views(m@);
    }
    let k = crate::text::chars_of(key);
    let mut i: usize = 0;
    while i < m.len()
        invariant
            i <= m.len(),
            k@ == key@,
            pv == yaml_pair_views(m@),
            pv.len() == m.len(),
            forall|j: int| 0 <= j < m.len() ==> #[trigger] pv[j] == (m@[j].0@, m@[j].1@),
            forall|j: int| 0 <= j < i ==> !is_key(#[trigger] pv[j].0, key@),
        decreases m.len() - i,
    {
        let hit = match &m[i].0.kind {
            YamlKind::String { text, .. } => {
                let t = crate::text::chars_of(text.as_str());
                crate::text::chars_eq(t.as_slice(), k.as_slice())
            },
            _ => false,
        };
        assert(hit == is_key(pv[i as int].0, key@));
        if hit {
            proof {
                lemma_lookup_index(pv, key@, i as int);
            }
            return Some(&m[i].1);
        }
        i = i + 1;
    }
    proof {
        lemma_lookup_index(pv, key@, i as int);
    }
    None
}

/// The string field `field` of property `name`.
fn require_string(name: &str, m: &Vec<(YamlNode, YamlNode)>, field: &str) -> (r: Result<String, FrontmatterError>)
    ensures
        match require_str(name@, yaml_pair_views(m@), field@) {
            Ok(s) => r matches Ok(x) && x@ == s,
            Err(e) => r matches Err(x) && x@ == e,
        },
{
    match lookup_field(m, field) {
        None => Err(FrontmatterError::MissingField(String::from_str(name), String::from_str(field))),
        Some(v) => match &v.kind {
            YamlKind::String { text, .. } => Ok(text.clone()),
            _ => Err(FrontmatterError::WrongFieldType(String::from_str(name), String::from_str(field), v.debug.clone())),
        },
    }
}

/// The value of a property of type `pt` from its entry `m`.
#[verifier::loop_isolation(false)]
fn typed_property(name: &str, m: &Vec<(YamlNode, YamlNode)>, pt: PropertyType) -> (r: Result<PropertyValue, FrontmatterError>)
    ensures
        match typed_value(name@, yaml_pair_views(m@), pt) {
            Ok(p) => r matches Ok(x) && x@ == p,
            Err(e) => r matches Err(x) && x@ == e,
        },
{
    match pt {
        PropertyType::Title => match require_string(name, m, "value") {
            Ok(v) => {
                let title = vec![text(v)];
                assert(inlines_view(title@) =~= one_run(v@));
                Ok(PropertyValue::Title { title })
            },
            Err(e) => Err(e),
        },
        PropertyType::RichText => match require_string(name, m, "value") {
            Ok(v) => {
                let rich_text = vec![text(v)];
                assert(inlines_view(rich_text@) =~= one_run(v@));
                Ok(PropertyValue::RichText { rich_text })
            },
            Err(e) => Err(e),
        },
        PropertyType::Number => match lookup_field(m, "value") {
            None => Err(FrontmatterError::MissingField(String::from_str(name), String::from_str("value"))),
            Some(v) => match &v.kind {
                YamlKind::Number(d) => Ok(PropertyValue::Number { number: Some(*d) }),
                YamlKind::String { text, number } => match number {
                    Some(d) => Ok(PropertyValue::Number { number: Some(*d) }),
                    None => Err(
                        FrontmatterError::WrongFieldType(String::from_str(name), String::from_str("value"), text.clone()),
                    ),
                },
                _ => Err(
                    FrontmatterError::WrongFieldType(String::from_str(name), String::from_str("value"), v.debug.clone()),
                ),
            },
        },
        PropertyType::Select => match require_string(name, m, "value") {
            Ok(v) => Ok(PropertyValue::Select { select: Some(SelectOption { id: None, name: v, color: None }) }),
            Err(e) => Err(e),
        },
        PropertyType::MultiSelect => match lookup_field(m, "values") {
            None => Err(FrontmatterError::MissingField(String::from_str(name), String::from_str("values"))),
            Some(v) => match &v.kind {
                YamlKind::Sequence(items) => {
                    let ghost iv = yaml_views(items@);
                    proof {
                        lemma_yaml_views(items@);
                    }
                    let mut opts: Vec<SelectOption> = Vec::new();
                    let mut i: usize = 0;
                    while i < items.len()
                        invariant
                            i <= items.len(),
                            iv == yaml_views(items@),
                            iv.len() == items.len(),
                            forall|j: int| 0 <= j < items.len() ==> #[trigger] iv[j] == items@[j]@,
                            first_non_string(iv.take(i as int)) is None,
                            opts.len() == i,
                            forall|j: int| 0 <= j < i ==> (#[trigger] opts@[j])@ == named_option(str_text(iv[j])),
                        decreases items.len() - i,
                    {
                        assert(iv.take(i + 1).drop_last() =~= iv.take(i as int));
                        match &items[i].kind {
                            YamlKind::String { text, .. } => {
                                opts.push(SelectOption { id: None, name: text.clone(), color: None });
                            },
                            _ => {
                                proof {
                                    assert(first_non_string(iv.take(i + 1)) == Some(i as int));
                                    lemma_first_non_string_prefix(iv, i + 1);
                                }
                                return Err(
                                    FrontmatterError::WrongFieldType(
                                        String::from_str(name),
                                        String::from_str("values[].name"),
                                        items[i].debug.clone(),
                                    ),
                                );
                            },
                        }
                        i = i + 1;
                    }
                    assert(iv.take(items.len() as int) =~= iv);
                    assert(crate::ir::metadata::selects_view(opts@) =~= Seq::new(
                        iv.len(),
                        |i: int| named_option(str_text(iv[i])),
                    ));
                    Ok(PropertyValue::MultiSelect { multi_select: opts })
                },
                _ => Err(
                    FrontmatterError::WrongFieldType(String::from_str(name), String::from_str("values"), v.debug.clone()),
                ),
            },
        },
        PropertyType::Date => match require_string(name, m, "value") {
            Ok(v) => Ok(PropertyValue::Date { date: Some(DateValue { start: v, end: None, time_zone: None }) }),
            Err(e) => Err(e),
        },
        PropertyType::Checkbox => match lookup_field(m, "value") {
            None => Err(FrontmatterError::MissingField(String::from_str(name), String::from_str("value"))),
            Some(v) => match &v.kind {
                YamlKind::Bool(b) => Ok(PropertyValue::Checkbox { checkbox: *b }),
                _ => Err(
                    FrontmatterError::WrongFieldType(String::from_str(name), String::from_str("value"), v.debug.clone()),
                ),
            },
        },
        PropertyType::Url => match require_string(name, m, "value") {
            Ok(v) => Ok(PropertyValue::Url { url: Some(v) }),
            Err(e) => Err(e),
        },
        PropertyType::Email => match require_string(name, m, "value") {
            Ok(v) => Ok(PropertyValue::Email { email: Some(v) }),
            Err(e) => Err(e),
        },
    }
}

/// A non-string item found in a prefix is the first in the whole sequence.
proof fn lemma_first_non_string_prefix(items: Seq<SpecYaml>, n: int)
    requires
        0 <= n <= items.len(),
        first_non_string(items.take(n)) is Some,
    ensures
        first_non_string(items) == first_non_string(items.take(n)),
    decreases items.len() - n,
{
    if n < items.len() {
        assert(items.take(n + 1).drop_last() =~= items.take(n));
        lemma_first_non_string_prefix(items, n + 1);
    } else {
        assert(items.take(n) =~= items);
    }
}

/// Reads the property an entry declares.
pub fn parse_property(name: &str, v: &YamlNode) -> (r: Result<PropertyValue, FrontmatterError>)
    ensures
        match property_of(name@, v@) {
            Ok(p) => r matches Ok(x) && x@ == p,
            Err(e) => r matches Err(x) && x@ == e,
        },
{
    let m = match &v.kind {
        YamlKind::Mapping(m) => m,
        _ => {
            return Err(
                FrontmatterError::WrongFieldType(
                    String::from_str(name),
                    String::from_str("object with `type:`"),
                    v.debug.clone(),
                ),
            );
        },
    };
    let type_val = match lookup_field(m, "type") {
        Some(t) => t,
        None => {
            return Err(FrontmatterError::MissingField(String::from_str(name), String::from_str("type")));
        },
    };
    let type_str = match &type_val.kind {
        YamlKind::String { text, .. } => text,
        _ => {
            return Err(
                FrontmatterError::WrongFieldType(String::from_str(name), String::from_str("type"), type_val.debug.clone()),
            );
        },
    };
    match PropertyType::from_tag(type_str.as_str()) {
        Some(pt) => typed_property(name, m, pt),
        None => Err(FrontmatterError::UnknownPropertyType(type_str.clone())),
    }
}

/// The position of the first property named `key`.
pub open spec fn first_named(props: Seq<(Seq<char>, SpecProperty)>, key: Seq<char>) -> Option<int>
    decreases props.len(),
{
    if props.len() == 0 {
        None
    } else {
        match first_named(props.drop_last(), key) {
            Some(k) => Some(k),
            None => if props.last().0 == key {
                Some(props.len() - 1)
            } else {
                None
            },
        }
    }
}

/// `props` with `key` set to `p`: a property of that name is replaced in
/// place, else the property is added at the end.
pub open spec fn upsert(props: Seq<(Seq<char>, SpecProperty)>, key: Seq<char>, p: SpecProperty) -> Seq<(Seq<char>, SpecProperty)> {
    match first_named(props, key) {
        Some(i) => props.update(i, (key, p)),
        None => props.push((key, p)),
    }
}

/// The properties of the first `n` entries of a frontmatter mapping; the
/// first bad key or entry stops the reading.
pub open spec fn read_entries(pairs: Seq<(SpecYaml, SpecYaml)>, n: int) -> Result<Seq<(Seq<char>, SpecProperty)>, SpecFmError>
    decreases n,
{
    if n <= 0 {
        Ok(seq![])
    } else {
        match read_entries(pairs, n - 1) {
            Err(e) => Err(e),
            Ok(acc) => {
                let k = pairs[n - 1].0;
                match k.kind {
                    SpecYamlKind::Str { text, .. } => match property_of(text, pairs[n - 1].1) {
                        Ok(p) => Ok(upsert(acc, text, p)),
                        Err(e) => Err(e),
                    },
                    _ => Err(SpecFmError::WrongFieldType("<key>"@, "string"@, k.debug)),
                }
            },
        }
    }
}

/// The properties a frontmatter document declares: none for an empty
/// document, one per entry of a mapping; anything else is refused.
pub open spec fn properties_of_yaml(root: SpecYaml) -> Result<Seq<(Seq<char>, SpecProperty)>, SpecFmError> {
    match root.kind {
        SpecYamlKind::Null => Ok(seq![]),
        SpecYamlKind::Mapping(pairs) => read_entries(pairs, pairs.len() as int),
        _ => Err(SpecFmError::WrongFieldType("<root>"@, "object"@, root.debug)),
    }
}

/// Where `first_named` points: at the first entry named `key`, and to none
/// exactly when no entry has that name.
pub proof fn lemma_first_named(props: Seq<(Seq<char>, SpecProperty)>, key: Seq<char>)
    ensures
        first_named(props, key) matches Some(i) ==> 0 <= i < props.len() && props[i].0 == key,
        first_named(props, key) is None <==> forall|i: int| 0 <= i < props.len() ==> (#[trigger] props[i]).0 != key,
    decreases props.len(),
{
    if props.len() > 0 {
        lemma_first_named(props.drop_last(), key);
        assert forall|i: int| 0 <= i < props.len() - 1 implies #[trigger] props.drop_last()[i] == props[i] by {}
        if first_named(props, key) is None {
            assert forall|i: int| 0 <= i < props.len() implies (#[trigger] props[i]).0 != key by {
                if i < props.len() - 1 {
                    assert(props.drop_last()[i] == props[i]);
                }
            }
        }
    }
}

/// Setting a property keeps each name occurring once: the set name either
/// replaces the entry of that name or is new and goes last.
pub proof fn lemma_upsert_keeps_names_unique(props: Seq<(Seq<char>, SpecProperty)>, key: Seq<char>, p: SpecProperty)
    requires
        names_unique(props),
    ensures
        names_unique(upsert(props, key, p)),
        exists|i: int| 0 <= i < upsert(props, key, p).len() && #[trigger] upsert(props, key, p)[i] == (key, p),
{
    lemma_first_named(props, key);
    let u = upsert(props, key, p);
    match first_named(props, key) {
        Some(k) => {
            assert(u[k] == (key, p));
            assert forall|i: int, j: int| 0 <= i < j < u.len() implies (#[trigger] u[i]).0 != (#[trigger] u[j]).0 by {
                assert(props[i].0 != props[j].0);
            }
        },
        None => {
            assert(u[props.len() as int] == (key, p));
            assert forall|i: int, j: int| 0 <= i < j < u.len() implies (#[trigger] u[i]).0 != (#[trigger] u[j]).0 by {
                if j < props.len() {
                    assert(props[i].0 != props[j].0);
                } else {
                    assert(props[i].0 != key);
                }
            }
        },
    }
}

/// Sets property `key` to `p`.
pub fn upsert_property(props: &mut Vec<(String, PropertyValue)>, key: String, p: PropertyValue)
    ensures
        props_view(final(props)@) == upsert(props_view(old(props)@), key@, p@),
        names_unique(props_view(old(props)@)) ==> names_unique(props_view(final(props)@)),
{
    proof {
        if names_unique(props_view(props@)) {
            lemma_upsert_keeps_names_unique(props_view(props@), key@, p@);
        }
    }
    let ghost pv = props_view(props@);
    let k = crate::text::chars_of(key.as_str());
    let mut i: usize = 0;
    while i < props.len()
        invariant
            i <= props.len(),
            props@ == old(props)@,
            pv == props_view(props@),
            k@ == key@,
            first_named(pv.take(i as int), key@) is None,
        decreases props.len() - i,
    {
        assert(pv.take(i + 1).drop_last() =~= pv.take(i as int));
        let name = crate::text::chars_of(props[i].0.as_str());
        if crate::text::chars_eq(name.as_slice(), k.as_slice()) {
            proof {
                assert(first_named(pv.take(i + 1), key@) == Some(i as int));
                lemma_first_named_prefix(pv, key@, i + 1);
            }
            let ghost kv = key@;
            let ghost p_v = p@;
            props.set(i, (key, p));
            assert(props_view(props@) =~= pv.update(i as int, (kv, p_v)));
            return;
        }
        i = i + 1;
    }
    assert(pv.take(props.len() as int) =~= pv);
    let ghost kv = key@;
    let ghost p_v = p@;
    props.push((key, p));
    assert(props_view(props@) =~= pv.push((kv, p_v)));
}

/// A name found in a prefix is the first in the whole sequence.
proof fn lemma_first_named_prefix(props: Seq<(Seq<char>, SpecProperty)>, key: Seq<char>, n: int)
    requires
        0 <= n <= props.len(),
        first_named(props.take(n), key) is Some,
    ensures
        first_named(props, key) == first_named(props.take(n), key),
    decreases props.len() - n,
{
    if n < props.len() {
        assert(props.take(n + 1).drop_last() =~= props.take(n));
        lemma_first_named_prefix(props, key, n + 1);
    } else {
        assert(props.take(n) =~= props);
    }
}

/// An error found in a prefix of the entries is the error of all of them.
proof fn lemma_read_entries_err(pairs: Seq<(SpecYaml, SpecYaml)>, n: int, m: int)
    requires
        0 <= n <= m,
        read_entries(pairs, n) is Err,
    ensures
        read_entries(pairs, m) == read_entries(pairs, n),
    decreases m - n,
{
    if m > n {
        lemma_read_entries_err(pairs, n, m - 1);
    }
}

/// The properties read from a prefix of the entries name each property once.
proof fn lemma_read_entries_names_unique(pairs: Seq<(SpecYaml, SpecYaml)>, n: int)
    ensures
        read_entries(pairs, n) matches Ok(ps) ==> names_unique(ps),
    decreases n,
{
    if n > 0 {
        lemma_read_entries_names_unique(pairs, n - 1);
        if let Ok(acc) = read_entries(pairs, n - 1) {
            if let SpecYamlKind::Str { text, .. } = pairs[n - 1].0.kind {
                if let Ok(p) = property_of(text, pairs[n - 1].1) {
                    lemma_upsert_keeps_names_unique(acc, text, p);
                }
            }
        }
    }
}

/// Reads the properties a frontmatter document declares; each name occurs
/// once, a later entry of a name setting its value.
#[verifier::loop_isolation(false)]
pub fn properties_from_yaml(root: &YamlNode) -> (r: Result<Vec<(String, PropertyValue)>, FrontmatterError>)
    ensures
        match properties_of_yaml(root@) {
            Ok(ps) => r matches Ok(x) && props_view(x@) == ps,
            Err(e) => r matches Err(x) && x@ == e,
        },
        r matches Ok(x) ==> names_unique(props_view(x@)),
{
    proof {
        if let SpecYamlKind::Mapping(pairs) = root@.kind {
            lemma_read_entries_names_unique(pairs, pairs.len() as int);
        }
    }
    let mut out: Vec<(String, PropertyValue)> = Vec::new();
    match &root.kind {
        YamlKind::Null => {
            assert(props_view(out@) =~= Seq::<(Seq<char>, SpecProperty)>::empty());
            Ok(out)
        },
        YamlKind::Mapping(pairs) => {
            let ghost pv = yaml_pair_views(pairs@);
            proof {
                lemma_yaml_pair_views(pairs@);
                assert(props_view(out@) =~= Seq::<(Seq<char>, SpecProperty)>::empty());
            }
            let mut i: usize = 0;
            while i < pairs.len()
                invariant
                    i <= pairs.len(),
                    pv == yaml_pair_views(pairs@),
                    pv.len() == pairs.len(),
                    forall|j: int| 0 <= j < pairs.len() ==> #[trigger] pv[j] == (pairs@[j].0@, pairs@[j].1@),
                    read_entries(pv, i as int) == Ok::<Seq<(Seq<char>, SpecProperty)>, SpecFmError>(props_view(out@)),
                decreases pairs.len() - i,
            {
                let key = match &pairs[i].0.kind {
                    YamlKind::String { text, .. } => text,
                    _ => {
                        let e = FrontmatterError::WrongFieldType(
                            String::from_str("<key>"),
                            String::from_str("string"),
                            pairs[i].0.debug.clone(),
                        );
                        proof {
                            lemma_read_entries_err(pv, i + 1, pairs.len() as int);
                        }
                        return Err(e);
                    },
                };
                match parse_property(key.as_str(), &pairs[i].1) {
                    Ok(p) => {
                        upsert_property(&mut out, key.clone(), p);
                    },
                    Err(e) => {
                        proof {
                            lemma_read_entries_err(pv, i + 1, pairs.len() as int);
                        }
                        return Err(e);
                    },
                }
                i = i + 1;
            }
            Ok(out)
        },
        _ => Err(
            FrontmatterError::WrongFieldType(String::from_str("<root>"), String::from_str("object"), root.debug.clone()),
        ),
    }
}

/// The text of the text runs among inline elements.
pub open spec fn plain_of(s: Seq<SpecInline>) -> Seq<char>
    decreases s.len(),
{
    if s.len() == 0 {
        seq![]
    } else {
        plain_of(s.drop_last()) + match s.last() {
            SpecInline::TextRun { content, .. } => content,
            _ => seq![],
        }
    }
}

/// The text of the text runs among inline elements.
pub fn inline_to_plain(inlines: &[InlineElement]) -> (r: String)
    ensures
        r@ == plain_of(inlines_view(inlines@)),
{
    let ghost v = inlines_view(inlines@);
    let mut out: Vec<char> = Vec::new();
    let mut i: usize = 0;
    while i < inlines.len()
        invariant
            i <= inlines.len(),
            v == inlines_view(inlines@),
            out@ == plain_of(v.take(i as int)),
        decreases inlines.len() - i,
    {
        assert(v.take(i + 1).drop_last() =~= v.take(i as int));
        assert(v.take(i + 1).last() == inlines@[i as int]@);
        match &inlines[i] {
            InlineElement::TextRun { content, .. } => {
                extend_str(&mut out, content.as_str());
            },
            _ => {},
        }
        assert(out@ =~= plain_of(v.take(i + 1)));
        i = i + 1;
    }
    assert(v.take(inlines.len() as int) =~= v);
    string_of(&out)
}

/// A frontmatter entry: its `type:` tag and one value field.
pub open spec fn entry_json(tag: Seq<char>, field: Seq<char>, v: SpecJson) -> SpecJson {
    SpecJson::Object(seq![("type"@, SpecJson::Str(tag)), (field, v)])
}

/// The JSON form of a property kept verbatim in frontmatter.
pub open spec fn passthrough_json(p: SpecProperty) -> SpecJson {
    match p {
        SpecProperty::PhoneNumber { phone_number } => tagged_json(
            "phone_number"@,
            crate::ir::metadata::opt_str_json(phone_number),
        ),
        SpecProperty::Relation { relation } => tagged_json(
            "relation"@,
            SpecJson::Array(Seq::new(relation.len(), |i: int| SpecJson::Str(relation[i]))),
        ),
        SpecProperty::Files { files } => tagged_json(
            "files"@,
            SpecJson::Array(Seq::new(files.len(), |i: int| file_value_json(files[i]))),
        ),
        SpecProperty::Custom { key, value } => SpecJson::Object(
            seq![("type"@, SpecJson::Str("custom"@)), ("key"@, SpecJson::Str(key)), ("value"@, value)],
        ),
        SpecProperty::Other { json } => json,
        _ => SpecJson::Null,
    }
}

/// A string, or the empty string for nothing.
pub open spec fn or_empty(s: Option<Seq<char>>) -> Seq<char> {
    match s {
        Some(x) => x,
        None => seq![],
    }
}

/// The frontmatter entry of a property: the nine typed kinds with their
/// tag and plain value; any other kind as `custom`, holding its JSON form.
pub open spec fn yaml_entry(p: SpecProperty) -> SpecJson {
    match p {
        SpecProperty::Title { title } => entry_json("title"@, "value"@, SpecJson::Str(plain_of(title))),
        SpecProperty::RichText { rich_text } => entry_json("rich_text"@, "value"@, SpecJson::Str(plain_of(rich_text))),
        SpecProperty::Number { number } => entry_json(
            "number"@,
            "value"@,
            SpecJson::Number(
                match number {
                    Some(d) => JsonNumber { repr: NumberRepr::Float(d), double: Some(d) },
                    None => JsonNumber { repr: NumberRepr::PosInt(0), double: None },
                },
            ),
        ),
        SpecProperty::Select { select } => entry_json(
            "select"@,
            "value"@,
            SpecJson::Str(
                match select {
                    Some(o) => o.name,
                    None => seq![],
                },
            ),
        ),
        SpecProperty::MultiSelect { multi_select } => entry_json(
            "multi_select"@,
            "values"@,
            SpecJson::Array(Seq::new(multi_select.len(), |i: int| SpecJson::Str(multi_select[i].name))),
        ),
        SpecProperty::Date { date } => entry_json(
            "date"@,
            "value"@,
            SpecJson::Str(
                match date {
                    Some(d) => d.start,
                    None => seq![],
                },
            ),
        ),
        SpecProperty::Checkbox { checkbox } => entry_json("checkbox"@, "value"@, SpecJson::Bool(checkbox)),
        SpecProperty::Url { url } => entry_json("url"@, "value"@, SpecJson::Str(or_empty(url))),
        SpecProperty::Email { email } => entry_json("email"@, "value"@, SpecJson::Str(or_empty(email))),
        _ => entry_json("custom"@, "value"@, passthrough_json(p)),
    }
}

/// The frontmatter mapping of properties: one entry per property, in order.
pub open spec fn properties_yaml(props: Seq<(Seq<char>, SpecProperty)>) -> SpecJson {
    SpecJson::Object(Seq::new(props.len(), |i: int| (props[i].0, yaml_entry(props[i].1))))
}

/// A frontmatter entry.
fn entry(tag: &str, field: &str, v: JsonValue) -> (r: JsonValue)
    ensures
        r@ == entry_json(tag@, field@, v@),
{
    let mut e: Vec<(String, JsonValue)> = Vec::new();
    crate::ir::metadata::push_member(&mut e, "type", JsonValue::from_str(tag));
    crate::ir::metadata::push_member(&mut e, field, v);
    assert(member_views(e@) =~= seq![("type"@, SpecJson::Str(tag@)), (field@, v@)]);
    JsonValue::Object(e)
}

/// A copy of a string, or the empty string for nothing.
fn or_empty_string(s: &Option<String>) -> (r: String)
    ensures
        r@ == or_empty(opt_view(*s)),
{
    match s {
        Some(x) => x.clone(),
        None => String::new(),
    }
}

/// The JSON form of a property kept verbatim in frontmatter.
fn passthrough(p: &PropertyValue) -> (r: JsonValue)
    ensures
        r@ == passthrough_json(p@),
{
    match p {
        PropertyValue::PhoneNumber { phone_number } => {
            let mut e: Vec<(String, JsonValue)> = Vec::new();
            crate::ir::metadata::push_member(&mut e, "type", JsonValue::from_str("phone_number"));
            crate::ir::metadata::push_member(&mut e, "phone_number", crate::ir::metadata::opt_str_to_json(phone_number));
            assert(member_views(e@) =~= match passthrough_json(p@) {
                SpecJson::Object(m) => m,
                _ => seq![],
            });
            JsonValue::Object(e)
        },
        PropertyValue::Relation { relation } => {
            let mut items: Vec<JsonValue> = Vec::new();
            let mut i: usize = 0;
            while i < relation.len()
                invariant
                    i <= relation.len(),
                    items.len() == i,
                    forall|j: int| 0 <= j < i ==> (#[trigger] items@[j])@ == SpecJson::Str(relation@[j]@),
                decreases relation.len() - i,
            {
                items.push(JsonValue::String(relation[i].clone()));
                i = i + 1;
            }
            proof {
                crate::json::lemma_json_views(items@);
                assert(json_views(items@) =~= Seq::new(
                    relation@.len(),
                    |i: int| SpecJson::Str(crate::ir::metadata::strings_view(relation@)[i]),
                ));
            }
            let mut e: Vec<(String, JsonValue)> = Vec::new();
            crate::ir::metadata::push_member(&mut e, "type", JsonValue::from_str("relation"));
            crate::ir::metadata::push_member(&mut e, "relation", JsonValue::Array(items));
            assert(member_views(e@) =~= match passthrough_json(p@) {
                SpecJson::Object(m) => m,
                _ => seq![],
            });
            JsonValue::Object(e)
        },
        PropertyValue::Files { files } => {
            let mut items: Vec<JsonValue> = Vec::new();
            let mut i: usize = 0;
            while i < files.len()
                invariant
                    i <= files.len(),
                    items.len() == i,
                    forall|j: int| 0 <= j < i ==> (#[trigger] items@[j])@ == file_value_json(files@[j]@),
                decreases files.len() - i,
            {
                items.push(files[i].to_json());
                i = i + 1;
            }
            proof {
                crate::json::lemma_json_views(items@);
                assert(json_views(items@) =~= Seq::new(
                    files@.len(),
                    |i: int| file_value_json(crate::ir::metadata::file_values_view(files@)[i]),
                ));
            }
            let mut e: Vec<(String, JsonValue)> = Vec::new();
            crate::ir::metadata::push_member(&mut e, "type", JsonValue::from_str("files"));
            crate::ir::metadata::push_member(&mut e, "files", JsonValue::Array(items));
            assert(member_views(e@) =~= match passthrough_json(p@) {
                SpecJson::Object(m) => m,
                _ => seq![],
            });
            JsonValue::Object(e)
        },
        PropertyValue::Custom { key, value } => {
            let mut e: Vec<(String, JsonValue)> = Vec::new();
            crate::ir::metadata::push_member(&mut e, "type", JsonValue::from_str("custom"));
            crate::ir::metadata::push_member(&mut e, "key", JsonValue::String(key.clone()));
            crate::ir::metadata::push_member(&mut e, "value", value.copy());
            assert(member_views(e@) =~= match passthrough_json(p@) {
                SpecJson::Object(m) => m,
                _ => seq![],
            });
            JsonValue::Object(e)
        },
        _ => p.other_json(),
    }
}

/// The frontmatter entry of a property.
fn yaml_entry_of(p: &PropertyValue) -> (r: JsonValue)
    ensures
        r@ == yaml_entry(p@),
{
    match p {
        PropertyValue::Title { title } => entry("title", "value", JsonValue::String(inline_to_plain(title.as_slice()))),
        PropertyValue::RichText { rich_text } => entry(
            "rich_text",
            "value",
            JsonValue::String(inline_to_plain(rich_text.as_slice())),
        ),
        PropertyValue::Number { number } => {
            let n = match number {
                Some(d) => JsonNumber { repr: NumberRepr::Float(*d), double: Some(*d) },
                None => JsonNumber { repr: NumberRepr::PosInt(0), double: None },
            };
            entry("number", "value", JsonValue::Number(n))
        },
        PropertyValue::Select { select } => {
            let name = match select {
                Some(o) => o.name.clone(),
                None => String::new(),
            };
            entry("select", "value", JsonValue::String(name))
        },
        PropertyValue::MultiSelect { multi_select } => {
            let mut items: Vec<JsonValue> = Vec::new();
            let mut i: usize = 0;
            while i < multi_select.len()
                invariant
                    i <= multi_select.len(),
                    items.len() == i,
                    forall|j: int| 0 <= j < i ==> (#[trigger] items@[j])@ == SpecJson::Str(multi_select@[j].name@),
                decreases multi_select.len() - i,
            {
                items.push(JsonValue::String(multi_select[i].name.clone()));
                i = i + 1;
            }
            proof {
                crate::json::lemma_json_views(items@);
                assert(json_views(items@) =~= Seq::new(
                    multi_select@.len(),
                    |i: int| SpecJson::Str(crate::ir::metadata::selects_view(multi_select@)[i].name),
                ));
            }
            entry("multi_select", "values", JsonValue::Array(items))
        },
        PropertyValue::Date { date } => {
            let start = match date {
                Some(d) => d.start.clone(),
                None => String::new(),
            };
            entry("date", "value", JsonValue::String(start))
        },
        PropertyValue::Checkbox { checkbox } => entry("checkbox", "value", JsonValue::Bool(*checkbox)),
        PropertyValue::Url { url } => entry("url", "value", JsonValue::String(or_empty_string(url))),
        PropertyValue::Email { email } => entry("email", "value", JsonValue::String(or_empty_string(email))),
        _ => entry("custom", "value", passthrough(p)),
    }
}

/// The frontmatter mapping of properties, one entry per property in order;
/// written out as YAML text, it is the frontmatter block's content.
pub fn properties_to_yaml_tree(props: &[(String, PropertyValue)]) -> (r: JsonValue)
    ensures
        r@ == properties_yaml(props_view(props@)),
{
    let mut e: Vec<(String, JsonValue)> = Vec::new();
    let mut i: usize = 0;
    while i < props.len()
        invariant
            i <= props.len(),
            e.len() == i,
            forall|j: int| 0 <= j < i ==> (#[trigger] e@[j]).0@ == props@[j].0@ && e@[j].1@ == yaml_entry(props@[j].1@),
        decreases props.len() - i,
    {
        e.push((props[i].0.clone(), yaml_entry_of(&props[i].1)));
        i = i + 1;
    }
    proof {
        crate::json::lemma_member_views(e@);
        assert(member_views(e@) =~= Seq::new(
            props@.len(),
            |i: int| (props_view(props@)[i].0, yaml_entry(props_view(props@)[i].1)),
        ));
    }
    JsonValue::Object(e)
}

} // verus!
