//! Unified soft-delete (trash) lifecycle for Notion resources.
//!
//! Pages and blocks are soft-deleted by toggling an `in_trash` flag and can
//! be restored; views and webhooks can only be deleted outright. This module
//! decides, for each resource, which request carries out `trash`, `restore`
//! and `delete_permanently`.
use crate::error::NotionError;
use crate::json::{JsonValue, SpecJson};
use crate::text::{chars_of, extend_chars, extend_str, string_of};
use vstd::prelude::*;

verus! {

/// A Notion resource that participates in the trash lifecycle.
#[derive(Debug, Clone, Copy, PartialEq, Eq)]
pub enum Resource {
    /// A page — reversible soft-delete via the `in_trash` flag.
    Page,
    /// A block — reversible soft-delete via the `in_trash` flag.
    Block,
    /// A database view — hard delete only.
    View,
    /// A webhook subscription — hard delete only.
    Webhook,
}

/// HTTP methods used by the Notion API.
#[derive(Debug, Clone, Copy, PartialEq, Eq)]
pub enum HttpMethod {
    Get,
    Post,
    Patch,
    Put,
    Delete,
}

/// A planned API call: method, path below the base URL, and optional JSON body.
#[derive(Debug)]
pub struct ApiRequest {
    pub method: HttpMethod,
    pub path: String,
    pub body: Option<JsonValue>,
}

/// The `{"in_trash": flag}` body.
pub open spec fn in_trash_body(flag: bool) -> SpecJson {
    SpecJson::Object(seq![("in_trash"@, SpecJson::Bool(flag))])
}

impl Resource {
    /// REST collection segment of the resource.
    pub open spec fn collection_spec(self) -> Seq<char> {
        match self {
            Resource::Page => "pages"@,
            Resource::Block => "blocks"@,
            Resource::View => "views"@,
            Resource::Webhook => "webhooks"@,
        }
    }

    /// Whether the resource supports reversible soft-delete.
    pub open spec fn restorable(self) -> bool {
        self is Page || self is Block
    }

    /// `/<collection>/<id>`.
    pub open spec fn path_spec(self, id: Seq<char>) -> Seq<char> {
        "/"@ + self.collection_spec() + "/"@ + id
    }

    /// REST collection segment for this resource.
    pub fn collection(self) -> (s: &'static str)
        ensures
            s@ == self.collection_spec(),
    {
        match self {
            Resource::Page => "pages",
            Resource::Block => "blocks",
            Resource::View => "views",
            Resource::Webhook => "webhooks",
        }
    }

    /// Whether this resource supports reversible soft-delete (`in_trash`).
    ///
    /// Views and webhooks can only be permanently deleted.
    pub fn supports_restore(self) -> (b: bool)
        ensures
            b == self.restorable(),
    {
        match self {
            Resource::Page | Resource::Block => true,
            _ => false,
        }
    }

    /// The resource's path: `/<collection>/<id>`.
    pub fn path(self, id: &str) -> (p: String)
        ensures
            p@ == self.path_spec(id@),
    {
        let mut v: Vec<char> = Vec::new();
        extend_str(&mut v, "/");
        extend_str(&mut v, self.collection());
        extend_str(&mut v, "/");
        extend_str(&mut v, id);
        string_of(&v)
    }
}

fn in_trash(flag: bool) -> (b: JsonValue)
    ensures
        b@ == in_trash_body(flag),
{
    let entries = vec![(String::from_str("in_trash"), JsonValue::Bool(flag))];
    let b = JsonValue::Object(entries);
    proof {
        crate::json::lemma_member_views(entries@);
        assert(crate::json::member_views(entries@) =~= seq![("in_trash"@, SpecJson::Bool(flag))]);
    }
    b
}

/// The request that moves a resource to the trash: a `PATCH` setting
/// `in_trash` for pages and blocks, a `DELETE` for views and webhooks.
pub fn trash_request(resource: Resource, id: &str) -> (r: ApiRequest)
    ensures
        r.path@ == resource.path_spec(id@),
        resource.restorable() ==> r.method == HttpMethod::Patch && (r.body matches Some(b) && b@
            == in_trash_body(true)),
        !resource.restorable() ==> r.method == HttpMethod::Delete && r.body is None,
{
    let path = resource.path(id);
    if resource.supports_restore() {
        ApiRequest { method: HttpMethod::Patch, path, body: Some(in_trash(true)) }
    } else {
        ApiRequest { method: HttpMethod::Delete, path, body: None }
    }
}

/// The request that restores a trashed page or block (`in_trash = false`);
/// views and webhooks cannot be restored.
pub fn restore_request(resource: Resource, id: &str) -> (r: Result<ApiRequest, NotionError>)
    ensures
        resource.restorable() <==> r is Ok,
        r matches Ok(q) ==> q.method == HttpMethod::Patch && q.path@ == resource.path_spec(id@)
            && (q.body matches Some(b) && b@ == in_trash_body(false)),
        r matches Err(e) ==> (e matches NotionError::Unsupported(m) && m@
            == "this resource type cannot be restored from the trash"@),
{
    if !resource.supports_restore() {
        return Err(
            NotionError::Unsupported(
                String::from_str("this resource type cannot be restored from the trash"),
            ),
        );
    }
    Ok(ApiRequest { method: HttpMethod::Patch, path: resource.path(id), body: Some(in_trash(false)) })
}

/// The request that permanently deletes a resource of any kind.
pub fn delete_permanently_request(resource: Resource, id: &str) -> (r: ApiRequest)
    ensures
        r.method == HttpMethod::Delete,
        r.path@ == resource.path_spec(id@),
        r.body is None,
{
    ApiRequest { method: HttpMethod::Delete, path: resource.path(id), body: None }
}

/// A model that carries trash state.
pub trait Trashable {
    /// Whether the resource is currently in the trash.
    fn is_trashed(&self) -> bool;
}

impl Trashable for crate::models::page::Page {
    fn is_trashed(&self) -> (r: bool)
        ensures
            r == self.in_trash,
    {
        self.in_trash
    }
}

impl Trashable for crate::models::block::Block {
    fn is_trashed(&self) -> (r: bool)
        ensures
            r == self.in_trash,
    {
        self.in_trash
    }
}

impl Trashable for crate::models::database::Database {
    fn is_trashed(&self) -> (r: bool)
        ensures
            r == self.in_trash,
    {
        self.in_trash
    }
}

} // verus!
