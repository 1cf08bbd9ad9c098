//! The requests the Notion client sends, and how it reads the answers.
//!
//! Each endpoint is planned as an [`ApiRequest`] (method, path below the
//! API base URL, optional JSON body); the caller performs it. Answers are
//! read here: error bodies become [`NotionError::Api`], rate-limited
//! answers are retried a bounded number of times, and paginated listings
//! are followed by cursor.
use crate::api::trash::{ApiRequest, HttpMethod};
use crate::error::NotionError;
use crate::ir::inline::opt_view;
use crate::ir::metadata::push_member;
use crate::json::{as_str_spec, get_spec, member_views, JsonNumber, JsonValue, NumberRepr, SpecJson};
use crate::models::common::{all_digits, is_digit, rich_seq_json, rich_text_array_json, rich_view, user_json, RichText, User};
use crate::models::block::{nblocks_view, Block};
use crate::models::block_json::{blocks_json, blocks_to_json, block_json, icon_json, icon_to_json};
use crate::models::page::CreatePageRequest;
use crate::text::{decimal, extend_str, push_decimal, string_of};
use vstd::prelude::*;

verus! {

broadcast use vstd::std_specs::vec::group_vec_axioms;

/// The version of the Notion API this client speaks.
pub const NOTION_VERSION: &'static str = "2026-03-11";

/// The base URL of the Notion API.
pub const NOTION_BASE_URL: &'static str = "https://api.notion.com/v1";

/// How many result pages `search_all` fetches at most.
pub const SEARCH_ALL_MAX_PAGES: usize = 1000;

/// How many times a rate-limited request is retried.
pub const MAX_RETRIES: u32 = 3;

/// A request without a body.
pub open spec fn plain(r: ApiRequest, method: HttpMethod, path: Seq<char>) -> bool {
    r.method == method && r.path@ == path && r.body is None
}

/// A request with a body.
pub open spec fn with_body(r: ApiRequest, method: HttpMethod, path: Seq<char>, body: SpecJson) -> bool {
    r.method == method && r.path@ == path && (r.body matches Some(b) && b@ == body)
}

/// A member that is there only when the value is.
pub open spec fn opt_member(key: Seq<char>, v: Option<SpecJson>) -> Seq<(Seq<char>, SpecJson)> {
    match v {
        Some(x) => seq![(key, x)],
        None => seq![],
    }
}

/// A JSON unsigned integer.
pub open spec fn uint_json(n: u64) -> SpecJson {
    SpecJson::Number(JsonNumber { repr: NumberRepr::PosInt(n), double: None })
}

fn uint_value(n: u64) -> (r: JsonValue)
    ensures
        r@ == uint_json(n),
{
    JsonValue::Number(JsonNumber { repr: NumberRepr::PosInt(n), double: None })
}

fn cat2(a: &str, b: &str) -> (p: String)
    ensures
        p@ == a@ + b@,
{
    let mut v: Vec<char> = Vec::new();
    extend_str(&mut v, a);
    extend_str(&mut v, b);
    string_of(&v)
}

fn cat3(a: &str, b: &str, c: &str) -> (p: String)
    ensures
        p@ == a@ + b@ + c@,
{
    let mut v: Vec<char> = Vec::new();
    extend_str(&mut v, a);
    extend_str(&mut v, b);
    extend_str(&mut v, c);
    string_of(&v)
}

fn cat4(a: &str, b: &str, c: &str, d: &str) -> (p: String)
    ensures
        p@ == a@ + b@ + c@ + d@,
{
    let mut v: Vec<char> = Vec::new();
    extend_str(&mut v, a);
    extend_str(&mut v, b);
    extend_str(&mut v, c);
    extend_str(&mut v, d);
    string_of(&v)
}

/// The request for the bot user of the token.
pub fn get_me_request() -> (r: ApiRequest)
    ensures
        plain(r, HttpMethod::Get, "/users/me"@),
{
    ApiRequest { method: HttpMethod::Get, path: String::from_str("/users/me"), body: None }
}

/// The request for a user.
pub fn get_user_request(user_id: &str) -> (r: ApiRequest)
    ensures
        plain(r, HttpMethod::Get, "/users/"@ + user_id@),
{
    ApiRequest { method: HttpMethod::Get, path: cat2("/users/", user_id), body: None }
}

/// A listing path, with the cursor to continue from when there is one.
pub open spec fn listing_path(base: Seq<char>, cursor: Option<Seq<char>>) -> Seq<char> {
    match cursor {
        Some(c) => base + "?start_cursor="@ + c,
        None => base,
    }
}

/// The request for one page of the workspace's users.
pub fn list_users_request(cursor: Option<&str>) -> (r: ApiRequest)
    ensures
        plain(
            r,
            HttpMethod::Get,
            listing_path(
                "/users"@,
                match cursor {
                    Some(c) => Some(c@),
                    None => None,
                },
            ),
        ),
{
    let path = match cursor {
        Some(c) => cat3("/users", "?start_cursor=", c),
        None => String::from_str("/users"),
    };
    ApiRequest { method: HttpMethod::Get, path, body: None }
}

/// The request for one page of the data sources.
pub fn list_data_sources_request(cursor: Option<&str>) -> (r: ApiRequest)
    ensures
        plain(
            r,
            HttpMethod::Get,
            listing_path(
                "/data_sources"@,
                match cursor {
                    Some(c) => Some(c@),
                    None => None,
                },
            ),
        ),
{
    let path = match cursor {
        Some(c) => cat3("/data_sources", "?start_cursor=", c),
        None => String::from_str("/data_sources"),
    };
    ApiRequest { method: HttpMethod::Get, path, body: None }
}

/// The request for a page.
pub fn get_page_request(page_id: &str) -> (r: ApiRequest)
    ensures
        plain(r, HttpMethod::Get, "/pages/"@ + page_id@),
{
    ApiRequest { method: HttpMethod::Get, path: cat2("/pages/", page_id), body: None }
}

/// The body of a page update: the properties and the trash flag that are
/// given.
pub open spec fn update_page_body(properties: Option<SpecJson>, in_trash: Option<bool>) -> SpecJson {
    SpecJson::Object(
        opt_member("properties"@, properties) + opt_member(
            "in_trash"@,
            match in_trash {
                Some(b) => Some(SpecJson::Bool(b)),
                None => None,
            },
        ),
    )
}

/// The request that updates a page's properties or trash flag.
pub fn update_page_request(page_id: &str, properties: Option<JsonValue>, in_trash: Option<bool>) -> (r: ApiRequest)
    ensures
        with_body(
            r,
            HttpMethod::Patch,
            "/pages/"@ + page_id@,
            update_page_body(
                match properties {
                    Some(p) => Some(p@),
                    None => None,
                },
                in_trash,
            ),
        ),
{
    let ghost pv = opt_json(properties);
    let mut e: Vec<(String, JsonValue)> = Vec::new();
    proof {
        crate::json::lemma_member_views(e@);
    }
    match properties {
        Some(p) => push_member(&mut e, "properties", p),
        None => {},
    }
    match in_trash {
        Some(b) => push_member(&mut e, "in_trash", JsonValue::Bool(b)),
        None => {},
    }
    assert(member_views(e@) =~= opt_member("properties"@, pv) + opt_member(
        "in_trash"@,
        match in_trash {
            Some(b) => Some(SpecJson::Bool(b)),
            None => None,
        },
    ));
    ApiRequest { method: HttpMethod::Patch, path: cat2("/pages/", page_id), body: Some(JsonValue::Object(e)) }
}

/// The request that moves a page under a new parent.
pub fn move_page_request(page_id: &str, parent: JsonValue) -> (r: ApiRequest)
    ensures
        with_body(r, HttpMethod::Patch, "/pages/"@ + page_id@, SpecJson::Object(seq![("parent"@, parent@)])),
{
    ApiRequest {
        method: HttpMethod::Patch,
        path: cat2("/pages/", page_id),
        body: Some(JsonValue::single("parent", parent)),
    }
}

/// The request that duplicates a page.
pub fn duplicate_page_request(page_id: &str) -> (r: ApiRequest)
    ensures
        plain(r, HttpMethod::Post, "/pages/"@ + page_id@ + "/duplicate"@),
{
    ApiRequest { method: HttpMethod::Post, path: cat3("/pages/", page_id, "/duplicate"), body: None }
}

/// The request for one property of a page.
pub fn get_page_property_request(page_id: &str, property_id: &str) -> (r: ApiRequest)
    ensures
        plain(r, HttpMethod::Get, "/pages/"@ + page_id@ + "/properties/"@ + property_id@),
{
    ApiRequest { method: HttpMethod::Get, path: cat4("/pages/", page_id, "/properties/", property_id), body: None }
}

/// The query string of a child listing: the cursor and the page size that
/// are given, joined by `&`, after a `?`; nothing when neither is.
pub open spec fn children_query(cursor: Option<Seq<char>>, page_size: Option<u32>) -> Seq<char> {
    match (cursor, page_size) {
        (Some(c), Some(n)) => "?start_cursor="@ + c + "&page_size="@ + decimal(n as nat),
        (Some(c), None) => "?start_cursor="@ + c,
        (None, Some(n)) => "?page_size="@ + decimal(n as nat),
        (None, None) => seq![],
    }
}

/// The request for one page of a block's children.
pub fn get_block_children_request(block_id: &str, start_cursor: Option<String>, page_size: Option<u32>) -> (r: ApiRequest)
    ensures
        plain(
            r,
            HttpMethod::Get,
            "/blocks/"@ + block_id@ + "/children"@ + children_query(opt_view(start_cursor), page_size),
        ),
{
    let mut v: Vec<char> = Vec::new();
    extend_str(&mut v, "/blocks/");
    extend_str(&mut v, block_id);
    extend_str(&mut v, "/children");
    match &start_cursor {
        Some(c) => {
            extend_str(&mut v, "?start_cursor=");
            extend_str(&mut v, c.as_str());
        },
        None => {},
    }
    match page_size {
        Some(n) => {
            if start_cursor.is_some() {
                extend_str(&mut v, "&page_size=");
            } else {
                extend_str(&mut v, "?page_size=");
            }
            push_decimal(&mut v, n as usize);
        },
        None => {},
    }
    assert(v@ =~= "/blocks/"@ + block_id@ + "/children"@ + children_query(opt_view(start_cursor), page_size));
    ApiRequest { method: HttpMethod::Get, path: string_of(&v), body: None }
}

/// The optional members of a search body, in order.
pub open spec fn search_body(
    query: Option<Seq<char>>,
    filter: Option<SpecJson>,
    sort: Option<SpecJson>,
    start_cursor: Option<Seq<char>>,
    page_size: Option<u32>,
) -> SpecJson {
    SpecJson::Object(
        opt_member(
            "query"@,
            match query {
                Some(q) => Some(SpecJson::Str(q)),
                None => None,
            },
        ) + opt_member("sort"@, sort) + opt_member("filter"@, filter) + opt_member(
            "start_cursor"@,
            match start_cursor {
                Some(c) => Some(SpecJson::Str(c)),
                None => None,
            },
        ) + opt_member(
            "page_size"@,
            match page_size {
                Some(n) => Some(uint_json(n as u64)),
                None => None,
            },
        ),
    )
}

/// The view of an optional JSON value.
pub open spec fn opt_json(o: Option<JsonValue>) -> Option<SpecJson> {
    match o {
        Some(v) => Some(v@),
        None => None,
    }
}

/// The request that searches pages and databases; only the given parts
/// are sent.
pub fn search_request(
    query: Option<String>,
    filter: Option<JsonValue>,
    sort: Option<JsonValue>,
    start_cursor: Option<String>,
    page_size: Option<u32>,
) -> (r: ApiRequest)
    ensures
        with_body(
            r,
            HttpMethod::Post,
            "/search"@,
            search_body(opt_view(query), opt_json(filter), opt_json(sort), opt_view(start_cursor), page_size),
        ),
{
    let ghost want = search_body(opt_view(query), opt_json(filter), opt_json(sort), opt_view(start_cursor), page_size);
    let ghost (qv, fv, sv, cv) = (opt_view(query), opt_json(filter), opt_json(sort), opt_view(start_cursor));
    let mut e: Vec<(String, JsonValue)> = Vec::new();
    proof {
        crate::json::lemma_member_views(e@);
    }
    match query {
        Some(q) => push_member(&mut e, "query", JsonValue::String(q)),
        None => {},
    }
    match sort {
        Some(x) => push_member(&mut e, "sort", x),
        None => {},
    }
    match filter {
        Some(x) => push_member(&mut e, "filter", x),
        None => {},
    }
    match start_cursor {
        Some(c) => push_member(&mut e, "start_cursor", JsonValue::String(c)),
        None => {},
    }
    match page_size {
        Some(n) => push_member(&mut e, "page_size", uint_value(n as u64)),
        None => {},
    }
    assert(SpecJson::Object(member_views(e@)) =~= want) by {
        assert(member_views(e@) =~= opt_member(
            "query"@,
            match qv {
                Some(q) => Some(SpecJson::Str(q)),
                None => None,
            },
        ) + opt_member("sort"@, sv) + opt_member("filter"@, fv) + opt_member(
            "start_cursor"@,
            match cv {
                Some(c) => Some(SpecJson::Str(c)),
                None => None,
            },
        ) + opt_member(
            "page_size"@,
            match page_size {
                Some(n) => Some(uint_json(n as u64)),
                None => None,
            },
        ));
    }
    ApiRequest { method: HttpMethod::Post, path: String::from_str("/search"), body: Some(JsonValue::Object(e)) }
}

/// The cursor `search_all` continues with after fetching its `fetched`-th
/// page: the page's next cursor when it says there is more, it has one,
/// and fewer than [`SEARCH_ALL_MAX_PAGES`] pages have been fetched;
/// otherwise the search stops (`None`).
pub fn search_all_next(fetched: usize, has_more: bool, next_cursor: Option<String>) -> (r: Option<String>)
    ensures
        opt_view(r) == (if fetched < SEARCH_ALL_MAX_PAGES && has_more {
            opt_view(next_cursor)
        } else {
            None
        }),
{
    if fetched < SEARCH_ALL_MAX_PAGES && has_more {
        next_cursor
    } else {
        None
    }
}

/// Whether a listing goes on after a page, and from which cursor: it goes
/// on exactly when the page says there is more.
pub fn collect_next(has_more: bool, next_cursor: Option<String>) -> (r: Option<Option<String>>)
    ensures
        has_more <==> r is Some,
        r matches Some(c) ==> opt_view(c) == opt_view(next_cursor),
{
    if has_more {
        Some(next_cursor)
    } else {
        None
    }
}

/// The JSON of an optional rich-text title.
pub open spec fn opt_rich_json(t: Option<Vec<RichText>>) -> Option<SpecJson> {
    match t {
        Some(x) => Some(rich_seq_json(rich_view(x@))),
        None => None,
    }
}

/// The views of an optional list of values.
pub open spec fn opt_views(s: Option<Vec<JsonValue>>) -> Option<Seq<SpecJson>> {
    match s {
        Some(x) => Some(crate::json::json_views(x@)),
        None => None,
    }
}

/// The request for a database.
pub fn get_database_request(database_id: &str) -> (r: ApiRequest)
    ensures
        plain(r, HttpMethod::Get, "/databases/"@ + database_id@),
{
    ApiRequest { method: HttpMethod::Get, path: cat2("/databases/", database_id), body: None }
}

/// The request that creates a database.
pub fn create_database_request(parent: JsonValue, title: &Vec<RichText>, properties: JsonValue) -> (r: ApiRequest)
    ensures
        with_body(
            r,
            HttpMethod::Post,
            "/databases"@,
            SpecJson::Object(
                seq![("parent"@, parent@), ("title"@, rich_seq_json(rich_view(title@))), ("properties"@, properties@)],
            ),
        ),
{
    let ghost (pv, qv) = (parent@, properties@);
    let mut e: Vec<(String, JsonValue)> = Vec::new();
    proof {
        crate::json::lemma_member_views(e@);
    }
    push_member(&mut e, "parent", parent);
    push_member(&mut e, "title", rich_text_array_json(title.as_slice()));
    push_member(&mut e, "properties", properties);
    assert(member_views(e@) =~= seq![("parent"@, pv), ("title"@, rich_seq_json(rich_view(title@))), ("properties"@, qv)]);
    ApiRequest { method: HttpMethod::Post, path: String::from_str("/databases"), body: Some(JsonValue::Object(e)) }
}

/// The request that updates a database's title or properties.
pub fn update_database_request(database_id: &str, title: Option<Vec<RichText>>, properties: Option<JsonValue>) -> (r: ApiRequest)
    ensures
        with_body(
            r,
            HttpMethod::Patch,
            "/databases/"@ + database_id@,
            SpecJson::Object(
                opt_member(
                    "title"@,
                    match title {
                        Some(t) => Some(rich_seq_json(rich_view(t@))),
                        None => None,
                    },
                ) + opt_member("properties"@, opt_json(properties)),
            ),
        ),
{
    let ghost tv = opt_rich_json(title);
    let ghost qv = opt_json(properties);
    let mut e: Vec<(String, JsonValue)> = Vec::new();
    proof {
        crate::json::lemma_member_views(e@);
    }
    match title {
        Some(t) => push_member(&mut e, "title", rich_text_array_json(t.as_slice())),
        None => {},
    }
    match properties {
        Some(p) => push_member(&mut e, "properties", p),
        None => {},
    }
    assert(member_views(e@) =~= opt_member("title"@, tv) + opt_member("properties"@, qv));
    ApiRequest { method: HttpMethod::Patch, path: cat2("/databases/", database_id), body: Some(JsonValue::Object(e)) }
}

/// The body of a database or data source query.
pub open spec fn query_body(
    filter: Option<SpecJson>,
    sorts: Option<Seq<SpecJson>>,
    start_cursor: Option<Seq<char>>,
    page_size: Option<u32>,
) -> SpecJson {
    SpecJson::Object(
        opt_member("filter"@, filter) + opt_member(
            "sorts"@,
            match sorts {
                Some(s) => Some(SpecJson::Array(s)),
                None => None,
            },
        ) + opt_member(
            "start_cursor"@,
            match start_cursor {
                Some(c) => Some(SpecJson::Str(c)),
                None => None,
            },
        ) + opt_member(
            "page_size"@,
            match page_size {
                Some(n) => Some(uint_json(n as u64)),
                None => None,
            },
        ),
    )
}

fn query_body_value(
    filter: Option<JsonValue>,
    sorts: Option<Vec<JsonValue>>,
    start_cursor: Option<String>,
    page_size: Option<u32>,
) -> (b: JsonValue)
    ensures
        b@ == query_body(
            opt_json(filter),
            match sorts {
                Some(s) => Some(crate::json::json_views(s@)),
                None => None,
            },
            opt_view(start_cursor),
            page_size,
        ),
{
    let ghost fv = opt_json(filter);
    let ghost sv = opt_views(sorts);
    let ghost cv = opt_view(start_cursor);
    let mut e: Vec<(String, JsonValue)> = Vec::new();
    proof {
        crate::json::lemma_member_views(e@);
    }
    match filter {
        Some(f) => push_member(&mut e, "filter", f),
        None => {},
    }
    match sorts {
        Some(s) => push_member(&mut e, "sorts", JsonValue::Array(s)),
        None => {},
    }
    match start_cursor {
        Some(c) => push_member(&mut e, "start_cursor", JsonValue::String(c)),
        None => {},
    }
    match page_size {
        Some(n) => push_member(&mut e, "page_size", uint_value(n as u64)),
        None => {},
    }
    assert(member_views(e@) =~= opt_member("filter"@, fv) + opt_member(
        "sorts"@,
        match sv {
            Some(s) => Some(SpecJson::Array(s)),
            None => None,
        },
    ) + opt_member(
        "start_cursor"@,
        match cv {
            Some(c) => Some(SpecJson::Str(c)),
            None => None,
        },
    ) + opt_member(
        "page_size"@,
        match page_size {
            Some(n) => Some(uint_json(n as u64)),
            None => None,
        },
    ));
    JsonValue::Object(e)
}

/// The request that queries a database.
pub fn query_database_request(
    database_id: &str,
    filter: Option<JsonValue>,
    sorts: Option<Vec<JsonValue>>,
    start_cursor: Option<String>,
    page_size: Option<u32>,
) -> (r: ApiRequest)
    ensures
        with_body(
            r,
            HttpMethod::Post,
            "/databases/"@ + database_id@ + "/query"@,
            query_body(
                opt_json(filter),
                match sorts {
                    Some(s) => Some(crate::json::json_views(s@)),
                    None => None,
                },
                opt_view(start_cursor),
                page_size,
            ),
        ),
{
    ApiRequest {
        method: HttpMethod::Post,
        path: cat3("/databases/", database_id, "/query"),
        body: Some(query_body_value(filter, sorts, start_cursor, page_size)),
    }
}

/// The request that queries a data source.
pub fn query_data_source_request(
    data_source_id: &str,
    filter: Option<JsonValue>,
    sorts: Option<Vec<JsonValue>>,
    start_cursor: Option<String>,
    page_size: Option<u32>,
) -> (r: ApiRequest)
    ensures
        with_body(
            r,
            HttpMethod::Post,
            "/data_sources/"@ + data_source_id@ + "/query"@,
            query_body(
                opt_json(filter),
                match sorts {
                    Some(s) => Some(crate::json::json_views(s@)),
                    None => None,
                },
                opt_view(start_cursor),
                page_size,
            ),
        ),
{
    ApiRequest {
        method: HttpMethod::Post,
        path: cat3("/data_sources/", data_source_id, "/query"),
        body: Some(query_body_value(filter, sorts, start_cursor, page_size)),
    }
}

/// The request for a data source.
pub fn get_data_source_request(data_source_id: &str) -> (r: ApiRequest)
    ensures
        plain(r, HttpMethod::Get, "/data_sources/"@ + data_source_id@),
{
    ApiRequest { method: HttpMethod::Get, path: cat2("/data_sources/", data_source_id), body: None }
}

/// The request for a database view.
pub fn get_view_request(view_id: &str) -> (r: ApiRequest)
    ensures
        plain(r, HttpMethod::Get, "/views/"@ + view_id@),
{
    ApiRequest { method: HttpMethod::Get, path: cat2("/views/", view_id), body: None }
}

/// The body of a view update: the name when given, then each member of
/// the view-type configuration (when it is an object), a later member
/// replacing an earlier one of the same name.
pub open spec fn view_update_body(name: Option<Seq<char>>, config: Option<SpecJson>) -> Seq<(Seq<char>, SpecJson)> {
    let base = opt_member(
        "name"@,
        match name {
            Some(n) => Some(SpecJson::Str(n)),
            None => None,
        },
    );
    match config {
        Some(SpecJson::Object(m)) => merge_members(base, m, m.len() as int),
        _ => base,
    }
}

/// `base` with the first `n` members of `m` set in turn.
pub open spec fn merge_members(base: Seq<(Seq<char>, SpecJson)>, m: Seq<(Seq<char>, SpecJson)>, n: int) -> Seq<(Seq<char>, SpecJson)>
    decreases n,
{
    if n <= 0 || n > m.len() {
        base
    } else {
        crate::cli::sync_cmd::set_member(merge_members(base, m, n - 1), m[n - 1].0, m[n - 1].1)
    }
}

/// The request that renames a view or changes its configuration.
pub fn update_view_request(view_id: &str, name: Option<String>, config: Option<JsonValue>) -> (r: ApiRequest)
    ensures
        with_body(
            r,
            HttpMethod::Patch,
            "/views/"@ + view_id@,
            SpecJson::Object(view_update_body(opt_view(name), opt_json(config))),
        ),
{
    let ghost nv = opt_view(name);
    let ghost cv = opt_json(config);
    let mut e: Vec<(String, JsonValue)> = Vec::new();
    proof {
        crate::json::lemma_member_views(e@);
    }
    match name {
        Some(n) => push_member(&mut e, "name", JsonValue::String(n)),
        None => {},
    }
    assert(member_views(e@) =~= opt_member(
        "name"@,
        match nv {
            Some(n) => Some(SpecJson::Str(n)),
            None => None,
        },
    ));
    match &config {
        Some(JsonValue::Object(m)) => {
            let ghost base = member_views(e@);
            let ghost mv = member_views(m@);
            proof {
                crate::json::lemma_member_views(m@);
            }
            let mut i: usize = 0;
            while i < m.len()
                invariant
                    i <= m.len(),
                    mv == member_views(m@),
                    mv.len() == m.len(),
                    forall|q: int| 0 <= q < m.len() ==> #[trigger] mv[q] == (m@[q].0@, m@[q].1@),
                    member_views(e@) == merge_members(base, mv, i as int),
                decreases m.len() - i,
            {
                crate::cli::sync_cmd::set_object_member(&mut e, m[i].0.as_str(), m[i].1.copy());
                i = i + 1;
            }
        },
        _ => {},
    }
    ApiRequest { method: HttpMethod::Patch, path: cat2("/views/", view_id), body: Some(JsonValue::Object(e)) }
}

/// Where a comment is attached.
#[derive(Debug)]
pub enum CommentParent {
    PageId { page_id: String },
    BlockId { block_id: String },
}

/// The JSON of a comment parent: `{"type": "page_id", "page_id": ..}` or
/// the same for a block.
pub open spec fn comment_parent_json(p: CommentParent) -> SpecJson {
    match p {
        CommentParent::PageId { page_id } => SpecJson::Object(
            seq![("type"@, SpecJson::Str("page_id"@)), ("page_id"@, SpecJson::Str(page_id@))],
        ),
        CommentParent::BlockId { block_id } => SpecJson::Object(
            seq![("type"@, SpecJson::Str("block_id"@)), ("block_id"@, SpecJson::Str(block_id@))],
        ),
    }
}

impl CommentParent {
    /// The JSON of this parent.
    pub fn to_json(&self) -> (r: JsonValue)
        ensures
            r@ == comment_parent_json(*self),
    {
        let mut e: Vec<(String, JsonValue)> = Vec::new();
        proof {
            crate::json::lemma_member_views(e@);
        }
        match self {
            CommentParent::PageId { page_id } => {
                push_member(&mut e, "type", JsonValue::from_str("page_id"));
                push_member(&mut e, "page_id", JsonValue::String(page_id.clone()));
                assert(member_views(e@) =~= seq![("type"@, SpecJson::Str("page_id"@)), ("page_id"@, SpecJson::Str(page_id@))]);
            },
            CommentParent::BlockId { block_id } => {
                push_member(&mut e, "type", JsonValue::from_str("block_id"));
                push_member(&mut e, "block_id", JsonValue::String(block_id.clone()));
                assert(member_views(e@) =~= seq![("type"@, SpecJson::Str("block_id"@)), ("block_id"@, SpecJson::Str(block_id@))]);
            },
        }
        JsonValue::Object(e)
    }
}

/// A comment on a page or a block, its times held as RFC 3339 text.
#[derive(Debug)]
pub struct Comment {
    pub object: String,
    pub id: String,
    pub parent: CommentParent,
    pub discussion_id: String,
    pub rich_text: Vec<RichText>,
    pub created_time: String,
    pub last_edited_time: String,
    pub created_by: User,
    pub last_edited_by: User,
    pub resolved: bool,
}

/// The JSON record of a comment, its members in declaration order.
pub open spec fn comment_json(c: Comment) -> SpecJson {
    SpecJson::Object(
        seq![
            ("object"@, SpecJson::Str(c.object@)),
            ("id"@, SpecJson::Str(c.id@)),
            ("parent"@, comment_parent_json(c.parent)),
            ("discussion_id"@, SpecJson::Str(c.discussion_id@)),
            ("rich_text"@, rich_seq_json(rich_view(c.rich_text@))),
            ("created_time"@, SpecJson::Str(c.created_time@)),
            ("last_edited_time"@, SpecJson::Str(c.last_edited_time@)),
            ("created_by"@, user_json(c.created_by@)),
            ("last_edited_by"@, user_json(c.last_edited_by@)),
            ("resolved"@, SpecJson::Bool(c.resolved)),
        ],
    )
}

impl Comment {
    /// The JSON record of this comment.
    pub fn to_json(&self) -> (r: JsonValue)
        ensures
            r@ == comment_json(*self),
    {
        let mut e: Vec<(String, JsonValue)> = Vec::new();
        proof {
            crate::json::lemma_member_views(e@);
        }
        push_member(&mut e, "object", JsonValue::String(self.object.clone()));
        push_member(&mut e, "id", JsonValue::String(self.id.clone()));
        push_member(&mut e, "parent", self.parent.to_json());
        push_member(&mut e, "discussion_id", JsonValue::String(self.discussion_id.clone()));
        push_member(&mut e, "rich_text", rich_text_array_json(self.rich_text.as_slice()));
        push_member(&mut e, "created_time", JsonValue::String(self.created_time.clone()));
        push_member(&mut e, "last_edited_time", JsonValue::String(self.last_edited_time.clone()));
        push_member(&mut e, "created_by", self.created_by.to_json());
        push_member(&mut e, "last_edited_by", self.last_edited_by.to_json());
        push_member(&mut e, "resolved", JsonValue::Bool(self.resolved));
        assert(member_views(e@) =~= seq![
            ("object"@, SpecJson::Str(self.object@)),
            ("id"@, SpecJson::Str(self.id@)),
            ("parent"@, comment_parent_json(self.parent)),
            ("discussion_id"@, SpecJson::Str(self.discussion_id@)),
            ("rich_text"@, rich_seq_json(rich_view(self.rich_text@))),
            ("created_time"@, SpecJson::Str(self.created_time@)),
            ("last_edited_time"@, SpecJson::Str(self.last_edited_time@)),
            ("created_by"@, user_json(self.created_by@)),
            ("last_edited_by"@, user_json(self.last_edited_by@)),
            ("resolved"@, SpecJson::Bool(self.resolved)),
        ]);
        JsonValue::Object(e)
    }
}

/// The request that adds a comment.
pub fn create_comment_request(parent: &CommentParent, rich_text: &Vec<RichText>) -> (r: ApiRequest)
    ensures
        with_body(
            r,
            HttpMethod::Post,
            "/comments"@,
            SpecJson::Object(
                seq![("parent"@, comment_parent_json(*parent)), ("rich_text"@, rich_seq_json(rich_view(rich_text@)))],
            ),
        ),
{
    let mut e: Vec<(String, JsonValue)> = Vec::new();
    proof {
        crate::json::lemma_member_views(e@);
    }
    push_member(&mut e, "parent", parent.to_json());
    push_member(&mut e, "rich_text", rich_text_array_json(rich_text.as_slice()));
    assert(member_views(e@) =~= seq![
        ("parent"@, comment_parent_json(*parent)),
        ("rich_text"@, rich_seq_json(rich_view(rich_text@))),
    ]);
    ApiRequest { method: HttpMethod::Post, path: String::from_str("/comments"), body: Some(JsonValue::Object(e)) }
}

/// The request that lists the comments of a block; the block id is sent
/// as the body.
pub fn list_comments_request(block_id: &str) -> (r: ApiRequest)
    ensures
        with_body(r, HttpMethod::Get, "/comments"@, SpecJson::Object(seq![("block_id"@, SpecJson::Str(block_id@))])),
{
    ApiRequest {
        method: HttpMethod::Get,
        path: String::from_str("/comments"),
        body: Some(JsonValue::single("block_id", JsonValue::from_str(block_id))),
    }
}

/// A file upload session.
#[derive(Debug)]
pub struct FileUpload {
    pub id: String,
    pub upload_url: String,
    pub expiry_time: String,
}

/// The request that opens a file upload session.
pub fn create_file_upload_request(name: &str, content_type: &str) -> (r: ApiRequest)
    ensures
        with_body(
            r,
            HttpMethod::Post,
            "/files/upload"@,
            SpecJson::Object(seq![("name"@, SpecJson::Str(name@)), ("content_type"@, SpecJson::Str(content_type@))]),
        ),
{
    let mut e: Vec<(String, JsonValue)> = Vec::new();
    proof {
        crate::json::lemma_member_views(e@);
    }
    push_member(&mut e, "name", JsonValue::from_str(name));
    push_member(&mut e, "content_type", JsonValue::from_str(content_type));
    assert(member_views(e@) =~= seq![("name"@, SpecJson::Str(name@)), ("content_type"@, SpecJson::Str(content_type@))]);
    ApiRequest { method: HttpMethod::Post, path: String::from_str("/files/upload"), body: Some(JsonValue::Object(e)) }
}

/// The request that completes a file upload.
pub fn complete_file_upload_request(file_upload_id: &str) -> (r: ApiRequest)
    ensures
        plain(r, HttpMethod::Post, "/files/upload/"@ + file_upload_id@ + "/complete"@),
{
    ApiRequest { method: HttpMethod::Post, path: cat3("/files/upload/", file_upload_id, "/complete"), body: None }
}

/// The error for an answer that is not a success: the `code` and `message`
/// of its JSON body (`unknown` and `Unknown error` when missing) and the
/// status.
pub open spec fn api_error_of(status: u16, body: SpecJson) -> (Seq<char>, Seq<char>, u16) {
    (
        match as_str_spec(get_spec(body, "code"@)) {
            Some(c) => c,
            None => "unknown"@,
        },
        match as_str_spec(get_spec(body, "message"@)) {
            Some(m) => m,
            None => "Unknown error"@,
        },
        status,
    )
}

/// Reads an error answer: the `code` and `message` of its JSON body, or
/// `unknown` and `Unknown error`, with the HTTP status. A body that is not
/// JSON is read as `null`.
pub fn api_error(status: u16, body: &JsonValue) -> (e: NotionError)
    ensures
        e matches NotionError::Api { code, message, status: s } && (code@, message@, s) == api_error_of(status, body@),
{
    let code = match body.get("code") {
        Some(JsonValue::String(c)) => c.clone(),
        _ => String::from_str("unknown"),
    };
    let message = match body.get("message") {
        Some(JsonValue::String(m)) => m.clone(),
        _ => String::from_str("Unknown error"),
    };
    NotionError::Api { code, message, status }
}

/// The error for a request that could not be sent.
pub fn request_failed(message: String) -> (e: NotionError)
    ensures
        e matches NotionError::Api { code, message: m, status } && code@ == "request_failed"@ && m@ == message@
            && status == 0,
{
    NotionError::Api { code: String::from_str("request_failed"), message, status: 0 }
}

/// Whether a status is a success (2xx).
pub open spec fn is_success(status: u16) -> bool {
    200 <= status < 300
}

/// The value of a run of decimal digits.
pub open spec fn digits_value(s: Seq<char>) -> nat
    decreases s.len(),
{
    if s.len() == 0 {
        0
    } else {
        digits_value(s.drop_last()) * 10 + (s.last() as u32 - '0' as u32) as nat
    }
}

/// The unsigned 64-bit number a text spells: an optional `+`, then one or
/// more decimal digits, the value fitting in 64 bits.
pub open spec fn u64_of_text(s: Seq<char>) -> Option<u64> {
    let d = if s.len() > 0 && s[0] == '+' {
        s.drop_first()
    } else {
        s
    };
    if d.len() > 0 && all_digits(d) && digits_value(d) <= u64::MAX {
        Some(digits_value(d) as u64)
    } else {
        None
    }
}

/// Reads a number of seconds as `str::parse::<u64>` does: an optional
/// `+` followed by decimal digits; anything else, or a value past
/// `u64::MAX`, is no number.
fn parse_seconds(s: &str) -> (r: Option<u64>)
    ensures
        r == u64_of_text(s@),
{
    let c = crate::text::chars_of(s);
    let start: usize = if c.len() > 0 && c[0] == '+' { 1 } else { 0 };
    let ghost d = if s@.len() > 0 && s@[0] == '+' { s@.drop_first() } else { s@ };
    assert(d =~= c@.skip(start as int));
    if start >= c.len() {
        return None;
    }
    let mut acc: u64 = 0;
    let mut i: usize = start;
    while i < c.len()
        invariant
            start <= i <= c.len(),
            d == c@.skip(start as int),
            c@ == s@,
            d == (if s@.len() > 0 && s@[0] == '+' { s@.drop_first() } else { s@ }),
            d.len() > 0,
            forall|j: int| 0 <= j < i - start ==> '0' <= #[trigger] d[j] <= '9',
            acc == digits_value(d.take(i - start)),
        decreases c.len() - i,
    {
        let ch = c[i];
        assert(d[i - start] == ch);
        if !('0' <= ch && ch <= '9') {
            assert(!is_digit(d[i - start]));
            assert(!all_digits(d));
            return None;
        }
        let digit: u64 = (ch as u32 - '0' as u32) as u64;
        assert(d.take(i - start + 1).drop_last() =~= d.take(i - start));
        assert(digits_value(d.take(i - start + 1)) == acc * 10 + digit);
        match acc.checked_mul(10) {
            Some(m) => match m.checked_add(digit) {
                Some(v) => {
                    acc = v;
                },
                None => {
                    proof {
                        if all_digits(d) {
                            lemma_digits_value_grows(d, i - start + 1);
                            assert(digits_value(d) > u64::MAX);
                        }
                        assert(u64_of_text(s@) is None);
                    }
                    return None;
                },
            },
            None => {
                proof {
                    if all_digits(d) {
                        lemma_digits_value_grows(d, i - start + 1);
                        assert(digits_value(d) > u64::MAX);
                    }
                    assert(u64_of_text(s@) is None);
                }
                return None;
            },
        }
        i = i + 1;
    }
    assert(d.take(i - start) =~= d);
    Some(acc)
}

/// A text's value is at least the value of any of its prefixes.
proof fn lemma_digits_value_grows(d: Seq<char>, n: int)
    requires
        0 <= n <= d.len(),
        all_digits(d),
    ensures
        digits_value(d.take(n)) <= digits_value(d),
    decreases d.len() - n,
{
    if n < d.len() {
        lemma_digits_value_grows(d, n + 1);
        assert(d.take(n + 1).drop_last() =~= d.take(n));
    } else {
        assert(d.take(n) =~= d);
    }
}

/// What to do with an answer.
#[derive(Debug, PartialEq, Eq)]
pub enum ResponseStep {
    /// Read the body as the result.
    Decode,
    /// Wait this many seconds and send the request again.
    Retry { wait_secs: u64 },
    /// Read the body as an error.
    Fail,
}

/// The step for an answer with `status` after `attempts` retries: success
/// is read; a 429 is retried while fewer than [`MAX_RETRIES`] retries were
/// made, after the `Retry-After` seconds or else five seconds per retry so
/// far; anything else fails.
pub open spec fn response_step_of(status: u16, attempts: u32, retry_after: Option<Seq<char>>) -> (ResponseStep, u32) {
    if is_success(status) {
        (ResponseStep::Decode, attempts)
    } else if status == 429 && attempts < MAX_RETRIES {
        let n = (attempts + 1) as u32;
        let wait = match retry_after {
            Some(t) => match u64_of_text(t) {
                Some(v) => v,
                None => (5 * n) as u64,
            },
            None => (5 * n) as u64,
        };
        (ResponseStep::Retry { wait_secs: wait }, n)
    } else {
        (ResponseStep::Fail, attempts)
    }
}

/// Decides what to do with an answer and counts the retry it makes.
pub fn response_step(status: u16, attempts: u32, retry_after: Option<&str>) -> (r: (ResponseStep, u32))
    ensures
        r == response_step_of(
            status,
            attempts,
            match retry_after {
                Some(t) => Some(t@),
                None => None,
            },
        ),
{
    if 200 <= status && status < 300 {
        (ResponseStep::Decode, attempts)
    } else if status == 429 && attempts < MAX_RETRIES {
        let n = attempts + 1;
        let wait = match retry_after {
            Some(t) => match parse_seconds(t) {
                Some(v) => v,
                None => 5 * (n as u64),
            },
            None => 5 * (n as u64),
        };
        (ResponseStep::Retry { wait_secs: wait }, n)
    } else {
        (ResponseStep::Fail, attempts)
    }
}

/// A rate-limited request is retried at most [`MAX_RETRIES`] times: once
/// that many retries were made, every answer is read or failed.
pub proof fn lemma_retries_are_bounded(status: u16, attempts: u32, retry_after: Option<Seq<char>>)
    requires
        attempts >= MAX_RETRIES,
    ensures
        !(response_step_of(status, attempts, retry_after).0 is Retry),
        response_step_of(status, attempts, retry_after).1 == attempts,
{
}

/// Every retry counts: the count grows by one and stays within the bound.
pub proof fn lemma_retry_counts(status: u16, attempts: u32, retry_after: Option<Seq<char>>)
    requires
        response_step_of(status, attempts, retry_after).0 is Retry,
    ensures
        response_step_of(status, attempts, retry_after).1 == attempts + 1,
        response_step_of(status, attempts, retry_after).1 <= MAX_RETRIES,
{
}

/// The JSON of blocks, in order.
pub open spec fn blocks_json_of(bs: Seq<Block>) -> SpecJson {
    SpecJson::Array(blocks_json(nblocks_view(bs), bs.len() as int))
}

/// The request that appends blocks to a block's children, optionally at a
/// position.
pub fn append_block_children_request(block_id: &str, children: &Vec<Block>, position: Option<JsonValue>) -> (r: ApiRequest)
    ensures
        with_body(
            r,
            HttpMethod::Patch,
            "/blocks/"@ + block_id@ + "/children"@,
            SpecJson::Object(seq![("children"@, blocks_json_of(children@))] + opt_member("position"@, opt_json(position))),
        ),
{
    let ghost pv = opt_json(position);
    let mut e: Vec<(String, JsonValue)> = Vec::new();
    proof {
        crate::json::lemma_member_views(e@);
    }
    push_member(&mut e, "children", JsonValue::Array(blocks_to_json(children)));
    match position {
        Some(p) => push_member(&mut e, "position", p),
        None => {},
    }
    assert(member_views(e@) =~= seq![("children"@, blocks_json_of(children@))] + opt_member("position"@, pv));
    ApiRequest {
        method: HttpMethod::Patch,
        path: cat3("/blocks/", block_id, "/children"),
        body: Some(JsonValue::Object(e)),
    }
}

/// The request that updates a block with the content of `block`.
pub fn update_block_request(block_id: &str, block: &Block) -> (r: ApiRequest)
    ensures
        with_body(r, HttpMethod::Patch, "/blocks/"@ + block_id@, block_json(block@)),
{
    ApiRequest { method: HttpMethod::Patch, path: cat2("/blocks/", block_id), body: Some(block.to_json()) }
}

/// The body of a page creation: parent and properties, then the
/// children, icon and cover that are given.
pub open spec fn create_page_body(req: CreatePageRequest) -> SpecJson {
    SpecJson::Object(
        seq![("parent"@, req.parent@), ("properties"@, req.properties@)] + opt_member(
            "children"@,
            match req.children {
                Some(c) => Some(blocks_json_of(c@)),
                None => None,
            },
        ) + opt_member(
            "icon"@,
            match req.icon {
                Some(i) => Some(icon_json(i@)),
                None => None,
            },
        ) + opt_member("cover"@, opt_json(req.cover)),
    )
}

/// The request that creates a page.
pub fn create_page_request(req: &CreatePageRequest) -> (r: ApiRequest)
    ensures
        with_body(r, HttpMethod::Post, "/pages"@, create_page_body(*req)),
{
    let mut e: Vec<(String, JsonValue)> = Vec::new();
    proof {
        crate::json::lemma_member_views(e@);
    }
    push_member(&mut e, "parent", req.parent.copy());
    push_member(&mut e, "properties", req.properties.copy());
    match &req.children {
        Some(c) => push_member(&mut e, "children", JsonValue::Array(blocks_to_json(c))),
        None => {},
    }
    match &req.icon {
        Some(i) => push_member(&mut e, "icon", icon_to_json(i)),
        None => {},
    }
    match &req.cover {
        Some(c) => push_member(&mut e, "cover", c.copy()),
        None => {},
    }
    assert(SpecJson::Object(member_views(e@)) =~= create_page_body(*req)) by {
        assert(member_views(e@) =~= seq![("parent"@, req.parent@), ("properties"@, req.properties@)] + opt_member(
            "children"@,
            match req.children {
                Some(c) => Some(blocks_json_of(c@)),
                None => None,
            },
        ) + opt_member(
            "icon"@,
            match req.icon {
                Some(i) => Some(icon_json(i@)),
                None => None,
            },
        ) + opt_member("cover"@, opt_json(req.cover)));
    }
    ApiRequest { method: HttpMethod::Post, path: String::from_str("/pages"), body: Some(JsonValue::Object(e)) }
}

} // verus!
