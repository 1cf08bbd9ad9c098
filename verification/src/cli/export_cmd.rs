//! Exporting a Notion page to a Markdown file with typed frontmatter: the
//! file's name and the page's typed properties.
use crate::ir::frontmatter::{lemma_upsert_keeps_names_unique, named_option, one_run, upsert};
use crate::ir::inline::text;
use crate::ir::metadata::{names_unique, props_view, DateValue, PropertyValue, SelectOption, SpecDate, SpecProperty};
use crate::json::{
    as_array_spec, as_bool_spec, as_double_spec, as_object_spec, as_str_spec, get_spec, json_views, lemma_json_views,
    lemma_member_views, member_views, JsonValue, SpecJson,
};
use crate::converter::notion::{regrouped, NotionFromPlatform, PageWithBlocks};
use crate::converter::ConverterError;
use crate::ir::blocks::blocks_view;
use crate::ir::inline::opt_view;
use crate::ir::{Platform, UniversalDocument};
use crate::models::block::nblocks_view;
use crate::models::page::{join_plain, join_plain_text, properties_title};
use vstd::prelude::*;

verus! {

broadcast use vstd::std_specs::vec::group_vec_axioms;

/// Whether a character is alphanumeric in Unicode's sense.
pub uninterp spec fn alphanumeric(c: char) -> bool;

/// The lowercase mapping of a character (one or more characters).
pub uninterp spec fn lowercase(c: char) -> Seq<char>;

/// An ASCII letter or digit.
pub open spec fn is_ascii_alnum(c: char) -> bool {
    ('0' <= c <= '9') || ('a' <= c <= 'z') || ('A' <= c <= 'Z')
}

/// The ASCII lowercase of a character: `A`-`Z` become `a`-`z`, the others
/// stay.
pub open spec fn ascii_lower(c: char) -> char {
    if 'A' <= c <= 'Z' {
        ((c as u32) + 32) as char
    } else {
        c
    }
}

/// Whether every character of a text is ASCII.
pub open spec fn is_ascii_text(s: Seq<char>) -> bool {
    forall|i: int| 0 <= i < s.len() ==> (#[trigger] s[i] as u32) < 128
}

/// `char::is_alphanumeric`; the contract names the result and states the
/// ASCII cases std documents: letters and digits.
#[verifier::external_body]
fn char_is_alphanumeric(c: char) -> (b: bool)
    ensures
        b == alphanumeric(c),
        (c as u32) < 128 ==> b == is_ascii_alnum(c),
{
    c.is_alphanumeric()
}

/// `char::to_lowercase`, collected; the contract names the result and
/// states the ASCII case std documents: the ASCII lowercase, one character.
#[verifier::external_body]
fn char_to_lowercase(c: char) -> (r: Vec<char>)
    ensures
        r@ == lowercase(c),
        (c as u32) < 128 ==> r@ == seq![ascii_lower(c)],
{
    c.to_lowercase().collect()
}

/// [`raw_slug`] for ASCII text: ASCII letters and digits lowercased, each
/// run of other characters one dash.
pub open spec fn raw_ascii_slug(title: Seq<char>) -> (Seq<char>, bool)
    decreases title.len(),
{
    if title.len() == 0 {
        (seq![], false)
    } else {
        let (acc, dash) = raw_ascii_slug(title.drop_last());
        let c = title.last();
        if is_ascii_alnum(c) {
            (acc.push(ascii_lower(c)), false)
        } else if !dash {
            (acc.push('-'), true)
        } else {
            (acc, dash)
        }
    }
}

/// The slug of an ASCII title (see [`slug_of`]).
pub open spec fn ascii_slug(title: Seq<char>) -> Seq<char> {
    let t = strip_trailing_dashes(strip_leading_dashes(raw_ascii_slug(title).0));
    if t.len() == 0 {
        "untitled"@
    } else {
        t
    }
}

/// The slug of `title` before trimming, and whether it ends in a dash run:
/// alphanumeric characters lowercased, each run of other characters one
/// dash.
pub open spec fn raw_slug(title: Seq<char>) -> (Seq<char>, bool)
    decreases title.len(),
{
    if title.len() == 0 {
        (seq![], false)
    } else {
        let (acc, dash) = raw_slug(title.drop_last());
        let c = title.last();
        if alphanumeric(c) {
            (acc + lowercase(c), false)
        } else if !dash {
            (acc.push('-'), true)
        } else {
            (acc, dash)
        }
    }
}

/// `s` without its leading dashes.
pub open spec fn strip_leading_dashes(s: Seq<char>) -> Seq<char>
    decreases s.len(),
{
    if s.len() > 0 && s[0] == '-' {
        strip_leading_dashes(s.drop_first())
    } else {
        s
    }
}

/// `s` without its trailing dashes.
pub open spec fn strip_trailing_dashes(s: Seq<char>) -> Seq<char>
    decreases s.len(),
{
    if s.len() > 0 && s.last() == '-' {
        strip_trailing_dashes(s.drop_last())
    } else {
        s
    }
}

/// The slug of a title: the raw slug without leading or trailing dashes;
/// `untitled` when that is empty.
pub open spec fn slug_of(title: Seq<char>) -> Seq<char> {
    let t = strip_trailing_dashes(strip_leading_dashes(raw_slug(title).0));
    if t.len() == 0 {
        "untitled"@
    } else {
        t
    }
}

/// Turns a page title into a file-name slug: lowercase, runs of
/// non-alphanumeric characters collapsed to one `-`, no leading or trailing
/// dash; `untitled` when nothing is left.
pub fn slugify(title: &str) -> (r: String)
    ensures
        r@ == slug_of(title@),
        is_ascii_text(title@) ==> r@ == ascii_slug(title@),
{
    let t = crate::text::chars_of(title);
    let mut slug: Vec<char> = Vec::new();
    let mut prev_dash = false;
    let mut i: usize = 0;
    while i < t.len()
        invariant
            i <= t.len(),
            (slug@, prev_dash) == raw_slug(t@.take(i as int)),
            t@ == title@,
            is_ascii_text(title@) ==> raw_slug(t@.take(i as int)) == raw_ascii_slug(t@.take(i as int)),
        decreases t.len() - i,
    {
        assert(t@.take(i + 1).drop_last() =~= t@.take(i as int));
        let ch = t[i];
        if char_is_alphanumeric(ch) {
            let lc = char_to_lowercase(ch);
            crate::text::extend_chars(&mut slug, lc.as_slice());
            prev_dash = false;
        } else if !prev_dash {
            slug.push('-');
            prev_dash = true;
        }
        i = i + 1;
    }
    assert(t@.take(t.len() as int) =~= t@);
    let mut lo: usize = 0;
    assert(slug@.skip(0) =~= slug@);
    while lo < slug.len() && slug[lo] == '-'
        invariant
            lo <= slug.len(),
            strip_leading_dashes(slug@) == strip_leading_dashes(slug@.skip(lo as int)),
        decreases slug.len() - lo,
    {
        assert(slug@.skip(lo as int).drop_first() =~= slug@.skip(lo + 1));
        lo = lo + 1;
    }
    let ghost lead = slug@.skip(lo as int);
    assert(strip_leading_dashes(slug@) == lead);
    let mut hi: usize = slug.len();
    assert(slug@.subrange(lo as int, hi as int) =~= lead);
    while hi > lo && slug[hi - 1] == '-'
        invariant
            lo <= hi <= slug.len(),
            strip_trailing_dashes(lead) == strip_trailing_dashes(slug@.subrange(lo as int, hi as int)),
        decreases hi,
    {
        assert(slug@.subrange(lo as int, hi as int).drop_last() =~= slug@.subrange(lo as int, hi - 1));
        hi = hi - 1;
    }
    let ghost trimmed = slug@.subrange(lo as int, hi as int);
    assert(strip_trailing_dashes(lead) == trimmed);
    if hi == lo {
        String::from_str("untitled")
    } else {
        let mut out: Vec<char> = Vec::new();
        let mut k: usize = lo;
        while k < hi
            invariant
                lo <= k <= hi,
                hi <= slug.len(),
                out@ == slug@.subrange(lo as int, k as int),
            decreases hi - k,
        {
            out.push(slug[k]);
            assert(slug@.subrange(lo as int, k as int).push(slug@[k as int]) =~= slug@.subrange(lo as int, k + 1));
            k = k + 1;
        }
        crate::text::string_of(&out)
    }
}

/// The plain text of an optional rich-text array: its `plain_text` strings
/// concatenated; empty when there is no array.
pub open spec fn plain_text_of_json(v: Option<SpecJson>) -> Seq<char> {
    match as_array_spec(v) {
        Some(a) => join_plain(a),
        None => seq![],
    }
}

/// `v.get(key)` on an optional value.
pub open spec fn get_opt(v: Option<SpecJson>, key: Seq<char>) -> Option<SpecJson> {
    match v {
        Some(x) => get_spec(x, key),
        None => None,
    }
}

/// The `name` strings of select options, skipping options without one.
pub open spec fn option_names(items: Seq<SpecJson>) -> Seq<Seq<char>>
    decreases items.len(),
{
    if items.len() == 0 {
        seq![]
    } else {
        let rest = option_names(items.drop_last());
        match as_str_spec(get_spec(items.last(), "name"@)) {
            Some(n) => rest.push(n),
            None => rest,
        }
    }
}

/// The typed property of a Notion page property value: title, rich text,
/// number, select, multi-select, date, checkbox, URL and email get their
/// own kind; any other kind is kept verbatim.
pub open spec fn notion_property(name: Seq<char>, v: SpecJson) -> SpecProperty {
    let kind = as_str_spec(get_spec(v, "type"@));
    if kind == Some("title"@) {
        SpecProperty::Title { title: one_run(plain_text_of_json(get_spec(v, "title"@))) }
    } else if kind == Some("rich_text"@) {
        SpecProperty::RichText { rich_text: one_run(plain_text_of_json(get_spec(v, "rich_text"@))) }
    } else if kind == Some("number"@) {
        SpecProperty::Number { number: as_double_spec(get_spec(v, "number"@)) }
    } else if kind == Some("select"@) {
        SpecProperty::Select {
            select: match as_str_spec(get_opt(get_spec(v, "select"@), "name"@)) {
                Some(n) => Some(named_option(n)),
                None => None,
            },
        }
    } else if kind == Some("multi_select"@) {
        SpecProperty::MultiSelect {
            multi_select: match as_array_spec(get_spec(v, "multi_select"@)) {
                Some(a) => Seq::new(option_names(a).len(), |i: int| named_option(option_names(a)[i])),
                None => seq![],
            },
        }
    } else if kind == Some("date"@) {
        SpecProperty::Date {
            date: match as_str_spec(get_opt(get_spec(v, "date"@), "start"@)) {
                Some(start) => Some(
                    SpecDate {
                        start,
                        end: as_str_spec(get_opt(get_spec(v, "date"@), "end"@)),
                        time_zone: None,
                    },
                ),
                None => None,
            },
        }
    } else if kind == Some("checkbox"@) {
        SpecProperty::Checkbox {
            checkbox: match as_bool_spec(get_spec(v, "checkbox"@)) {
                Some(b) => b,
                None => false,
            },
        }
    } else if kind == Some("url"@) {
        SpecProperty::Url { url: as_str_spec(get_spec(v, "url"@)) }
    } else if kind == Some("email"@) {
        SpecProperty::Email { email: as_str_spec(get_spec(v, "email"@)) }
    } else {
        SpecProperty::Custom { key: name, value: v }
    }
}

/// `v.get(key)` on an optional value.
fn get_in<'a>(v: Option<&'a JsonValue>, key: &str) -> (r: Option<&'a JsonValue>)
    ensures
        match r {
            Some(x) => Some(x@),
            None => None,
        } == get_opt(
            match v {
                Some(x) => Some(x@),
                None => None,
            },
            key@,
        ),
{
    match v {
        Some(x) => x.get(key),
        None => None,
    }
}

/// `v.as_str()` on an optional value, copied.
fn str_in(v: Option<&JsonValue>) -> (r: Option<String>)
    ensures
        crate::ir::inline::opt_view(r) == as_str_spec(
            match v {
                Some(x) => Some(x@),
                None => None,
            },
        ),
{
    match v {
        Some(x) => match x.as_str() {
            Some(s) => Some(s.clone()),
            None => None,
        },
        None => None,
    }
}

/// The plain text of an optional rich-text array.
pub fn plain_text(rich_text: Option<&JsonValue>) -> (r: String)
    ensures
        r@ == plain_text_of_json(
            match rich_text {
                Some(x) => Some(x@),
                None => None,
            },
        ),
{
    match rich_text {
        Some(JsonValue::Array(a)) => join_plain_text(a.as_slice()),
        _ => String::new(),
    }
}

/// The typed property of a Notion page property value.
pub fn notion_property_to_ir(name: &str, value: &JsonValue) -> (r: PropertyValue)
    ensures
        r@ == notion_property(name@, value@),
{
    let kind = str_in(value.get("type"));
    let k = match &kind {
        Some(s) => crate::text::chars_of(s.as_str()),
        None => Vec::new(),
    };
    let has = kind.is_some();
    proof {
        reveal_strlit("title");
        reveal_strlit("rich_text");
        reveal_strlit("number");
        reveal_strlit("select");
        reveal_strlit("multi_select");
        reveal_strlit("date");
        reveal_strlit("checkbox");
        reveal_strlit("url");
        reveal_strlit("email");
    }
    if has && crate::text::chars_eq_str(k.as_slice(), "title") {
        let title = vec![text(plain_text(value.get("title")))];
        assert(crate::ir::inline::inlines_view(title@) =~= one_run(plain_text_of_json(get_spec(value@, "title"@))));
        PropertyValue::Title { title }
    } else if has && crate::text::chars_eq_str(k.as_slice(), "rich_text") {
        let rich_text = vec![text(plain_text(value.get("rich_text")))];
        assert(crate::ir::inline::inlines_view(rich_text@) =~= one_run(
            plain_text_of_json(get_spec(value@, "rich_text"@)),
        ));
        PropertyValue::RichText { rich_text }
    } else if has && crate::text::chars_eq_str(k.as_slice(), "number") {
        let number = match value.get("number") {
            Some(JsonValue::Number(n)) => n.double,
            _ => None,
        };
        PropertyValue::Number { number }
    } else if has && crate::text::chars_eq_str(k.as_slice(), "select") {
        let select = match str_in(get_in(value.get("select"), "name")) {
            Some(n) => Some(SelectOption { id: None, name: n, color: None }),
            None => None,
        };
        PropertyValue::Select { select }
    } else if has && crate::text::chars_eq_str(k.as_slice(), "multi_select") {
        let mut opts: Vec<SelectOption> = Vec::new();
        match value.get("multi_select") {
            Some(JsonValue::Array(a)) => {
                let ghost av = json_views(a@);
                proof {
                    lemma_json_views(a@);
                }
                let mut i: usize = 0;
                while i < a.len()
                    invariant
                        i <= a.len(),
                        av == json_views(a@),
                        av.len() == a.len(),
                        forall|q: int| 0 <= q < a.len() ==> #[trigger] av[q] == a@[q]@,
                        crate::ir::metadata::selects_view(opts@) == Seq::new(
                            option_names(av.take(i as int)).len(),
                            |j: int| named_option(option_names(av.take(i as int))[j]),
                        ),
                    decreases a.len() - i,
                {
                    assert(av.take(i + 1).drop_last() =~= av.take(i as int));
                    let ghost before = crate::ir::metadata::selects_view(opts@);
                    let ghost prev = option_names(av.take(i as int));
                    assert(av.take(i + 1).last() == av[i as int]);
                    assert(option_names(av.take(i + 1)) == match as_str_spec(get_spec(av[i as int], "name"@)) {
                        Some(n) => prev.push(n),
                        None => prev,
                    });
                    match str_in(a[i].get("name")) {
                        Some(n) => {
                            opts.push(SelectOption { id: None, name: n, color: None });
                            assert(crate::ir::metadata::selects_view(opts@) =~= before.push(named_option(n@)));
                        },
                        None => {},
                    }
                    assert(crate::ir::metadata::selects_view(opts@) =~= Seq::new(
                        option_names(av.take(i + 1)).len(),
                        |j: int| named_option(option_names(av.take(i + 1))[j]),
                    ));
                    i = i + 1;
                }
                assert(av.take(a.len() as int) =~= av);
            },
            _ => {
                assert(crate::ir::metadata::selects_view(opts@) =~= Seq::<crate::ir::metadata::SpecSelect>::empty());
            },
        }
        PropertyValue::MultiSelect { multi_select: opts }
    } else if has && crate::text::chars_eq_str(k.as_slice(), "date") {
        let d = value.get("date");
        let date = match str_in(get_in(d, "start")) {
            Some(start) => Some(DateValue { start, end: str_in(get_in(d, "end")), time_zone: None }),
            None => None,
        };
        PropertyValue::Date { date }
    } else if has && crate::text::chars_eq_str(k.as_slice(), "checkbox") {
        let checkbox = match value.get("checkbox") {
            Some(JsonValue::Bool(b)) => *b,
            _ => false,
        };
        PropertyValue::Checkbox { checkbox }
    } else if has && crate::text::chars_eq_str(k.as_slice(), "url") {
        PropertyValue::Url { url: str_in(value.get("url")) }
    } else if has && crate::text::chars_eq_str(k.as_slice(), "email") {
        PropertyValue::Email { email: str_in(value.get("email")) }
    } else {
        PropertyValue::Custom { key: String::from_str(name), value: value.copy() }
    }
}

/// The typed properties of a Notion page's properties object, one per
/// property (a later property of the same name replaces an earlier one);
/// none when the value is no object.
pub open spec fn notion_properties(props: SpecJson) -> Seq<(Seq<char>, SpecProperty)> {
    match as_object_spec(props) {
        Some(entries) => fold_properties(entries, entries.len() as int),
        None => seq![],
    }
}

/// The typed properties of the first `n` members.
pub open spec fn fold_properties(entries: Seq<(Seq<char>, SpecJson)>, n: int) -> Seq<(Seq<char>, SpecProperty)>
    decreases n,
{
    if n <= 0 {
        seq![]
    } else {
        upsert(fold_properties(entries, n - 1), entries[n - 1].0, notion_property(entries[n - 1].0, entries[n - 1].1))
    }
}

/// The typed properties of any prefix of the members name each property once.
proof fn lemma_fold_properties_names_unique(entries: Seq<(Seq<char>, SpecJson)>, n: int)
    ensures
        names_unique(fold_properties(entries, n)),
    decreases n,
{
    if n > 0 {
        lemma_fold_properties_names_unique(entries, n - 1);
        lemma_upsert_keeps_names_unique(
            fold_properties(entries, n - 1),
            entries[n - 1].0,
            notion_property(entries[n - 1].0, entries[n - 1].1),
        );
    }
}

/// The typed properties of a Notion page's properties object; each name
/// occurs once.
pub fn notion_properties_to_ir(properties: &JsonValue) -> (r: Vec<(String, PropertyValue)>)
    ensures
        props_view(r@) == notion_properties(properties@),
        names_unique(props_view(r@)),
{
    proof {
        if let Some(entries) = as_object_spec(properties@) {
            lemma_fold_properties_names_unique(entries, entries.len() as int);
        }
    }
    let mut out: Vec<(String, PropertyValue)> = Vec::new();
    match properties {
        JsonValue::Object(entries) => {
            let ghost mv = member_views(entries@);
            proof {
                lemma_member_views(entries@);
                assert(props_view(out@) =~= Seq::<(Seq<char>, SpecProperty)>::empty());
            }
            let mut i: usize = 0;
            while i < entries.len()
                invariant
                    i <= entries.len(),
                    mv == member_views(entries@),
                    mv.len() == entries.len(),
                    forall|q: int| 0 <= q < entries.len() ==> #[trigger] mv[q] == (entries@[q].0@, entries@[q].1@),
                    props_view(out@) == fold_properties(mv, i as int),
                decreases entries.len() - i,
            {
                let p = notion_property_to_ir(entries[i].0.as_str(), &entries[i].1);
                crate::ir::frontmatter::upsert_property(&mut out, entries[i].0.clone(), p);
                i = i + 1;
            }
        },
        _ => {
            assert(props_view(out@) =~= Seq::<(Seq<char>, SpecProperty)>::empty());
        },
    }
    out
}

/// The name of the file a page is exported to: `<slug>-<page id>.md`, so
/// that exporting again writes the same file and pages sharing a title do
/// not collide.
pub open spec fn export_name(title: Seq<char>, page_id: Seq<char>) -> Seq<char> {
    slug_of(title) + "-"@ + page_id + ".md"@
}

/// The name of the file a page with this title is exported to.
pub fn export_file_name(title: &str, page_id: &str) -> (r: String)
    ensures
        r@ == export_name(title@, page_id@),
{
    let slug = slugify(title);
    let mut v = crate::text::chars_of(slug.as_str());
    crate::text::extend_str(&mut v, "-");
    crate::text::extend_str(&mut v, page_id);
    crate::text::extend_str(&mut v, ".md");
    crate::text::string_of(&v)
}

/// The document a page is exported as: the page converted from Notion,
/// with its properties typed (see [`notion_properties_to_ir`]) in place of
/// the verbatim ones, so that the frontmatter carries them.
pub fn export_document(input: PageWithBlocks) -> (r: Result<UniversalDocument, ConverterError>)
    ensures
        r matches Ok(doc) && {
            &&& blocks_view(doc.blocks@) == regrouped(nblocks_view(input.blocks@), 0)
            &&& opt_view(doc.metadata.title) == Some(properties_title(input.page.properties@))
            &&& opt_view(doc.metadata.author) == Some(input.page.created_by.id@)
            &&& opt_view(doc.metadata.created_time) == Some(input.page.created_time@)
            &&& opt_view(doc.metadata.last_edited_time) == Some(input.page.last_edited_time@)
            &&& props_view(doc.metadata.properties@) == notion_properties(input.page.properties@)
            &&& doc.metadata.source_platform == Some(Platform::Notion)
            &&& opt_view(doc.metadata.source_id) == Some(input.page.id@)
            &&& doc.metadata.has_unique_names()
        },
{
    let typed = notion_properties_to_ir(&input.page.properties);
    match NotionFromPlatform::from_platform(input) {
        Ok(doc) => {
            let mut doc = doc;
            doc.metadata.properties = typed;
            Ok(doc)
        },
        Err(e) => Err(e),
    }
}

/// Pages that share a title but not an id are exported to different files.
pub proof fn lemma_export_names_distinct(title: Seq<char>, a: Seq<char>, b: Seq<char>)
    requires
        a != b,
    ensures
        export_name(title, a) != export_name(title, b),
{
    let s = slug_of(title) + "-"@;
    let x = export_name(title, a);
    let y = export_name(title, b);
    assert(x =~= s + a + ".md"@);
    assert(y =~= s + b + ".md"@);
    if x == y {
        reveal_strlit(".md");
        assert(a.len() == b.len());
        assert(x.subrange(s.len() as int, (s.len() + a.len()) as int) =~= a);
        assert(y.subrange(s.len() as int, (s.len() + b.len()) as int) =~= b);
    }
}

/// A character a slug is made of: a lowercase ASCII letter, a digit or a
/// dash.
pub open spec fn slug_char(c: char) -> bool {
    ('a' <= c <= 'z') || ('0' <= c <= '9') || c == '-'
}

/// Slug characters only, and no two dashes in a row.
pub open spec fn slug_shaped(s: Seq<char>) -> bool {
    &&& forall|i: int| 0 <= i < s.len() ==> slug_char(#[trigger] s[i])
    &&& forall|i: int| 0 <= i < s.len() - 1 ==> !(#[trigger] s[i] == '-' && s[i + 1] == '-')
}

proof fn lemma_raw_shape(t: Seq<char>)
    ensures
        slug_shaped(raw_ascii_slug(t).0),
        raw_ascii_slug(t).1 == (raw_ascii_slug(t).0.len() > 0 && raw_ascii_slug(t).0.last() == '-'),
        (forall|i: int| 0 <= i < t.len() ==> !is_ascii_alnum(#[trigger] t[i])) ==> (forall|j: int|
            0 <= j < raw_ascii_slug(t).0.len() ==> #[trigger] raw_ascii_slug(t).0[j] == '-'),
    decreases t.len(),
{
    if t.len() > 0 {
        let p = t.drop_last();
        lemma_raw_shape(p);
        if forall|i: int| 0 <= i < t.len() ==> !is_ascii_alnum(#[trigger] t[i]) {
            assert forall|i: int| 0 <= i < p.len() implies !is_ascii_alnum(#[trigger] p[i]) by {
                assert(p[i] == t[i]);
            }
            assert(!is_ascii_alnum(t[t.len() - 1]));
        }
        let c = t.last();
        if is_ascii_alnum(c) {
            let l = ascii_lower(c);
            assert(slug_char(l));
        }
    }
}

proof fn lemma_strip_leading(s: Seq<char>)
    ensures
        slug_shaped(s) ==> slug_shaped(strip_leading_dashes(s)),
        strip_leading_dashes(s).len() > 0 ==> strip_leading_dashes(s)[0] != '-',
        (forall|j: int| 0 <= j < s.len() ==> #[trigger] s[j] == '-') ==> strip_leading_dashes(s).len() == 0,
        s.len() > 0 && s[0] != '-' ==> strip_leading_dashes(s) == s,
    decreases s.len(),
{
    if s.len() > 0 && s[0] == '-' {
        let d = s.drop_first();
        lemma_strip_leading(d);
        if slug_shaped(s) {
            assert forall|i: int| 0 <= i < d.len() - 1 implies !(#[trigger] d[i] == '-' && d[i + 1] == '-') by {
                assert(d[i] == s[i + 1] && d[i + 1] == s[i + 2]);
            }
        }
        if forall|j: int| 0 <= j < s.len() ==> #[trigger] s[j] == '-' {
            assert forall|j: int| 0 <= j < d.len() implies #[trigger] d[j] == '-' by {
                assert(d[j] == s[j + 1]);
            }
        }
    }
}

proof fn lemma_strip_trailing(s: Seq<char>)
    ensures
        strip_trailing_dashes(s).len() <= s.len(),
        forall|i: int| 0 <= i < strip_trailing_dashes(s).len() ==> #[trigger] strip_trailing_dashes(s)[i] == s[i],
        strip_trailing_dashes(s).len() > 0 ==> strip_trailing_dashes(s).last() != '-',
        slug_shaped(s) ==> slug_shaped(strip_trailing_dashes(s)),
        s.len() > 0 && s.last() != '-' ==> strip_trailing_dashes(s) == s,
    decreases s.len(),
{
    if s.len() > 0 && s.last() == '-' {
        lemma_strip_trailing(s.drop_last());
    }
}

/// The raw slug of slug-shaped text is that text.
proof fn lemma_raw_of_shaped(p: Seq<char>)
    requires
        slug_shaped(p),
    ensures
        raw_ascii_slug(p) == (p, p.len() > 0 && p.last() == '-'),
    decreases p.len(),
{
    if p.len() > 0 {
        let q = p.drop_last();
        assert(slug_shaped(q)) by {
            assert forall|i: int| 0 <= i < q.len() implies slug_char(#[trigger] q[i]) by {
                assert(q[i] == p[i]);
            }
            assert forall|i: int| 0 <= i < q.len() - 1 implies !(#[trigger] q[i] == '-' && q[i + 1] == '-') by {
                assert(q[i] == p[i] && q[i + 1] == p[i + 1]);
            }
        }
        lemma_raw_of_shaped(q);
        let c = p.last();
        assert(slug_char(p[p.len() - 1]));
        if c == '-' && q.len() > 0 {
            assert(!(p[p.len() - 2] == '-' && p[p.len() - 1] == '-'));
            assert(q.last() == p[p.len() - 2]);
        }
        assert(q.push(c) =~= p);
    }
}

/// Slugs of ASCII titles: never empty, made of lowercase letters, digits
/// and single dashes, with no dash at either end; `untitled` when the title
/// has no letter or digit; and a slug is its own slug.
pub proof fn lemma_ascii_slug_shape(title: Seq<char>)
    ensures
        ascii_slug(title).len() > 0,
        slug_shaped(ascii_slug(title)),
        ascii_slug(title)[0] != '-',
        ascii_slug(title).last() != '-',
        (forall|i: int| 0 <= i < title.len() ==> !is_ascii_alnum(#[trigger] title[i])) ==> ascii_slug(title) == "untitled"@,
        ascii_slug(ascii_slug(title)) == ascii_slug(title),
{
    reveal_strlit("untitled");
    let raw = raw_ascii_slug(title).0;
    lemma_raw_shape(title);
    lemma_strip_leading(raw);
    let lead = strip_leading_dashes(raw);
    lemma_strip_trailing(lead);
    let t = strip_trailing_dashes(lead);
    let u = "untitled"@;
    assert(slug_shaped(u)) by {
        assert(u =~= seq!['u', 'n', 't', 'i', 't', 'l', 'e', 'd']);
    }
    assert(u.len() == 8 && u[0] == 'u' && u.last() == 'd');
    let r = ascii_slug(title);
    if t.len() > 0 {
        assert(t[0] == lead[0]);
    }
    assert(r.len() > 0 && slug_shaped(r) && r[0] != '-' && r.last() != '-');
    lemma_raw_of_shaped(r);
    lemma_strip_leading(r);
    lemma_strip_trailing(r);
}

} // verus!
