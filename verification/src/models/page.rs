//! Notion pages and page-creation requests.
use crate::json::{as_array_spec, as_object_spec, as_str_spec, get_spec, json_views, lemma_json_views,
    lemma_member_views, member_views, JsonValue, SpecJson};
use crate::models::block::Block;
use crate::models::common::{Icon, User};
use crate::text::{extend_str, string_of};
use vstd::prelude::*;

verus! {

/// A Notion page.
#[derive(Debug)]
pub struct Page {
    pub object: String,
    pub id: String,
    /// Creation timestamp (RFC 3339).
    pub created_time: String,
    /// Last edit timestamp (RFC 3339).
    pub last_edited_time: String,
    pub created_by: User,
    pub last_edited_by: User,
    pub parent: JsonValue,
    pub in_trash: bool,
    /// Property values by property name.
    pub properties: JsonValue,
    pub url: String,
}

/// A request to create a page.
#[derive(Debug)]
pub struct CreatePageRequest {
    pub parent: JsonValue,
    pub properties: JsonValue,
    pub children: Option<Vec<Block>>,
    pub icon: Option<Icon>,
    pub cover: Option<JsonValue>,
}

/// The first property whose `type` is `title`.
pub open spec fn title_property(entries: Seq<(Seq<char>, SpecJson)>) -> Option<SpecJson>
    decreases entries.len(),
{
    if entries.len() == 0 {
        None
    } else if as_str_spec(get_spec(entries[0].1, "type"@)) == Some("title"@) {
        Some(entries[0].1)
    } else {
        title_property(entries.drop_first())
    }
}

/// The `plain_text` strings of rich-text values, one after another; values
/// without one add nothing.
pub open spec fn join_plain(items: Seq<SpecJson>) -> Seq<char>
    decreases items.len(),
{
    if items.len() == 0 {
        seq![]
    } else {
        join_plain(items.drop_last()) + match as_str_spec(get_spec(items.last(), "plain_text"@)) {
            Some(s) => s,
            None => seq![],
        }
    }
}

/// The text of the `title` property of a page's properties: the plain text
/// of its `title` array; empty when there is none.
pub open spec fn properties_title(props: SpecJson) -> Seq<char> {
    match as_object_spec(props) {
        Some(entries) => match title_property(entries) {
            Some(p) => match as_array_spec(get_spec(p, "title"@)) {
                Some(a) => join_plain(a),
                None => seq![],
            },
            None => seq![],
        },
        None => seq![],
    }
}

/// The `plain_text` strings of rich-text values, concatenated.
pub fn join_plain_text(items: &[JsonValue]) -> (r: String)
    ensures
        r@ == join_plain(json_views(items@)),
{
    let ghost v = json_views(items@);
    proof {
        lemma_json_views(items@);
    }
    let mut out: Vec<char> = Vec::new();
    let mut i: usize = 0;
    while i < items.len()
        invariant
            i <= items.len(),
            v == json_views(items@),
            v.len() == items.len(),
            forall|j: int| 0 <= j < items.len() ==> #[trigger] v[j] == items@[j]@,
            out@ == join_plain(v.take(i as int)),
        decreases items.len() - i,
    {
        assert(v.take(i + 1).drop_last() =~= v.take(i as int));
        assert(v.take(i + 1).last() == items@[i as int]@);
        match items[i].get("plain_text") {
            Some(p) => match p.as_str() {
                Some(s) => {
                    extend_str(&mut out, s.as_str());
                },
                None => {},
            },
            None => {},
        }
        assert(out@ =~= join_plain(v.take(i + 1)));
        i = i + 1;
    }
    assert(v.take(items.len() as int) =~= v);
    string_of(&out)
}

/// The first property whose `type` is `title`.
pub fn find_title_property(entries: &Vec<(String, JsonValue)>) -> (r: Option<&JsonValue>)
    ensures
        match title_property(member_views(entries@)) {
            Some(p) => r matches Some(x) && x@ == p,
            None => r is None,
        },
{
    let ghost m = member_views(entries@);
    proof {
        lemma_member_views(entries@);
        assert(m.skip(0) =~= m);
    }
    let mut i: usize = 0;
    while i < entries.len()
        invariant
            i <= entries.len(),
            m == member_views(entries@),
            m.len() == entries.len(),
            forall|j: int| 0 <= j < entries.len() ==> #[trigger] m[j] == (entries@[j].0@, entries@[j].1@),
            title_property(m) == title_property(m.skip(i as int)),
        decreases entries.len() - i,
    {
        let v = &entries[i].1;
        let is_title = match v.get("type") {
            Some(t) => match t.as_str() {
                Some(s) => crate::json::string_is(s, "title"),
                None => false,
            },
            None => false,
        };
        assert(m.skip(i as int)[0] == m[i as int]);
        if is_title {
            return Some(v);
        }
        assert(m.skip(i as int).drop_first() =~= m.skip(i + 1));
        i = i + 1;
    }
    assert(m.skip(i as int).len() == 0);
    None
}

/// The text of the `title` property of a page's properties.
pub fn title_of_properties(props: &JsonValue) -> (r: String)
    ensures
        r@ == properties_title(props@),
{
    match props {
        JsonValue::Object(entries) => match find_title_property(entries) {
            Some(p) => match p.get("title") {
                Some(t) => match t {
                    JsonValue::Array(a) => join_plain_text(a.as_slice()),
                    _ => String::new(),
                },
                None => String::new(),
            },
            None => String::new(),
        },
        _ => String::new(),
    }
}

impl Page {
    /// The page's title: the plain text of its `title` property.
    pub fn title_from_properties(&self) -> (r: String)
        ensures
            r@ == properties_title(self.properties@),
    {
        title_of_properties(&self.properties)
    }
}

} // verus!
