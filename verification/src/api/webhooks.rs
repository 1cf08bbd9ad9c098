//! Notion webhooks: subscription requests, delivery payloads and signature
//! checks.
//!
//! Notion signs every delivery with HMAC-SHA256 over the raw request body,
//! keyed by the subscription's verification token, and sends the signature
//! in the `X-Notion-Signature` header as `sha256=<hex>`.
use crate::api::trash::{ApiRequest, HttpMethod};
use crate::error::NotionError;
use crate::json::{get_spec, JsonValue, SpecJson};
use crate::text::{chars_eq_str, chars_of, extend_str, string_of};
use hmac::{Hmac, Mac};
use sha2::Sha256;
use subtle::ConstantTimeEq;
use vstd::prelude::*;
use vstd::string::StrSliceExecFns;

verus! {

broadcast use vstd::std_specs::vec::group_vec_axioms;

/// A webhook subscription.
#[derive(Debug)]
pub struct Webhook {
    pub id: String,
    pub url: String,
    pub events: Vec<String>,
    pub active: bool,
}

/// The request that lists the webhook subscriptions.
pub fn list_webhooks_request() -> (r: ApiRequest)
    ensures
        r.method == HttpMethod::Get,
        r.path@ == "/webhooks"@,
        r.body is None,
{
    ApiRequest { method: HttpMethod::Get, path: String::from_str("/webhooks"), body: None }
}

/// The body of a subscription request: `{"url": .., "events": [..]}`.
pub open spec fn create_webhook_body(url: Seq<char>, events: Seq<Seq<char>>) -> SpecJson {
    SpecJson::Object(
        seq![("url"@, SpecJson::Str(url)), ("events"@, SpecJson::Array(Seq::new(events.len(), |i: int| SpecJson::Str(events[i]))))],
    )
}

/// The request that subscribes `url` to the given event types.
pub fn create_webhook_request(url: String, events: Vec<String>) -> (r: ApiRequest)
    ensures
        r.method == HttpMethod::Post,
        r.path@ == "/webhooks"@,
        r.body matches Some(b) && b@ == create_webhook_body(url@, Seq::new(events@.len(), |i: int| events@[i]@)),
{
    let ghost ev = Seq::new(events@.len(), |i: int| events@[i]@);
    let mut items: Vec<JsonValue> = Vec::new();
    let mut i: usize = 0;
    while i < events.len()
        invariant
            i <= events.len(),
            ev == Seq::new(events@.len(), |i: int| events@[i]@),
            items@.len() == i,
            forall|k: int| 0 <= k < i ==> (#[trigger] items@[k])@ == SpecJson::Str(ev[k]),
        decreases events.len() - i,
    {
        items.push(JsonValue::String(events[i].clone()));
        i = i + 1;
    }
    let ghost iv = items@;
    let ghost uv = url@;
    let arr = JsonValue::Array(items);
    proof {
        crate::json::lemma_json_views(iv);
        assert(arr@ == SpecJson::Array(Seq::new(ev.len(), |i: int| SpecJson::Str(ev[i])))) by {
            assert(crate::json::json_views(iv) =~= Seq::new(ev.len(), |i: int| SpecJson::Str(ev[i])));
        }
    }
    let ghost av = arr@;
    let entries = vec![(String::from_str("url"), JsonValue::String(url)), (String::from_str("events"), arr)];
    proof {
        crate::json::lemma_member_views(entries@);
        assert(crate::json::member_views(entries@) =~= seq![("url"@, SpecJson::Str(uv)), ("events"@, av)]);
    }
    ApiRequest { method: HttpMethod::Post, path: String::from_str("/webhooks"), body: Some(JsonValue::Object(entries)) }
}

/// The request that deletes a webhook subscription.
pub fn delete_webhook_request(webhook_id: &str) -> (r: ApiRequest)
    ensures
        r.method == HttpMethod::Delete,
        r.path@ == "/webhooks/"@ + webhook_id@,
        r.body is None,
{
    let mut p: Vec<char> = Vec::new();
    extend_str(&mut p, "/webhooks/");
    extend_str(&mut p, webhook_id);
    ApiRequest { method: HttpMethod::Delete, path: string_of(&p), body: None }
}

/// The category of a webhook delivery, from its `type` field (such as
/// `page.content_updated`). Event types this library does not list are
/// kept verbatim as `Other`.
#[derive(Debug, Clone, PartialEq, Eq)]
pub enum WebhookEventType {
    PageCreated,
    PageContentUpdated,
    PagePropertiesUpdated,
    PageMoved,
    PageDeleted,
    PageUndeleted,
    DatabaseCreated,
    DatabaseContentUpdated,
    DatabaseSchemaUpdated,
    DatabaseMoved,
    DatabaseDeleted,
    DatabaseUndeleted,
    CommentCreated,
    CommentUpdated,
    CommentDeleted,
    /// Any other event type, as its wire string.
    Other(String),
}

/// The content of a [`WebhookEventType`].
pub enum SpecEventType {
    PageCreated,
    PageContentUpdated,
    PagePropertiesUpdated,
    PageMoved,
    PageDeleted,
    PageUndeleted,
    DatabaseCreated,
    DatabaseContentUpdated,
    DatabaseSchemaUpdated,
    DatabaseMoved,
    DatabaseDeleted,
    DatabaseUndeleted,
    CommentCreated,
    CommentUpdated,
    CommentDeleted,
    Other(Seq<char>),
}

impl View for WebhookEventType {
    type V = SpecEventType;

    open spec fn view(&self) -> SpecEventType {
        match self {
            WebhookEventType::PageCreated => SpecEventType::PageCreated,
            WebhookEventType::PageContentUpdated => SpecEventType::PageContentUpdated,
            WebhookEventType::PagePropertiesUpdated => SpecEventType::PagePropertiesUpdated,
            WebhookEventType::PageMoved => SpecEventType::PageMoved,
            WebhookEventType::PageDeleted => SpecEventType::PageDeleted,
            WebhookEventType::PageUndeleted => SpecEventType::PageUndeleted,
            WebhookEventType::DatabaseCreated => SpecEventType::DatabaseCreated,
            WebhookEventType::DatabaseContentUpdated => SpecEventType::DatabaseContentUpdated,
            WebhookEventType::DatabaseSchemaUpdated => SpecEventType::DatabaseSchemaUpdated,
            WebhookEventType::DatabaseMoved => SpecEventType::DatabaseMoved,
            WebhookEventType::DatabaseDeleted => SpecEventType::DatabaseDeleted,
            WebhookEventType::DatabaseUndeleted => SpecEventType::DatabaseUndeleted,
            WebhookEventType::CommentCreated => SpecEventType::CommentCreated,
            WebhookEventType::CommentUpdated => SpecEventType::CommentUpdated,
            WebhookEventType::CommentDeleted => SpecEventType::CommentDeleted,
            WebhookEventType::Other(s) => SpecEventType::Other(s@),
        }
    }
}

/// The event type a wire string names.
pub open spec fn event_type_of(s: Seq<char>) -> SpecEventType {
    if s == "page.created"@ {
        SpecEventType::PageCreated
    } else if s == "page.content_updated"@ {
        SpecEventType::PageContentUpdated
    } else if s == "page.properties_updated"@ {
        SpecEventType::PagePropertiesUpdated
    } else if s == "page.moved"@ {
        SpecEventType::PageMoved
    } else if s == "page.deleted"@ {
        SpecEventType::PageDeleted
    } else if s == "page.undeleted"@ {
        SpecEventType::PageUndeleted
    } else if s == "database.created"@ {
        SpecEventType::DatabaseCreated
    } else if s == "database.content_updated"@ {
        SpecEventType::DatabaseContentUpdated
    } else if s == "database.schema_updated"@ {
        SpecEventType::DatabaseSchemaUpdated
    } else if s == "database.moved"@ {
        SpecEventType::DatabaseMoved
    } else if s == "database.deleted"@ {
        SpecEventType::DatabaseDeleted
    } else if s == "database.undeleted"@ {
        SpecEventType::DatabaseUndeleted
    } else if s == "comment.created"@ {
        SpecEventType::CommentCreated
    } else if s == "comment.updated"@ {
        SpecEventType::CommentUpdated
    } else if s == "comment.deleted"@ {
        SpecEventType::CommentDeleted
    } else {
        SpecEventType::Other(s)
    }
}

/// The wire string of an event type.
pub open spec fn event_type_name(t: SpecEventType) -> Seq<char> {
    match t {
        SpecEventType::PageCreated => "page.created"@,
        SpecEventType::PageContentUpdated => "page.content_updated"@,
        SpecEventType::PagePropertiesUpdated => "page.properties_updated"@,
        SpecEventType::PageMoved => "page.moved"@,
        SpecEventType::PageDeleted => "page.deleted"@,
        SpecEventType::PageUndeleted => "page.undeleted"@,
        SpecEventType::DatabaseCreated => "database.created"@,
        SpecEventType::DatabaseContentUpdated => "database.content_updated"@,
        SpecEventType::DatabaseSchemaUpdated => "database.schema_updated"@,
        SpecEventType::DatabaseMoved => "database.moved"@,
        SpecEventType::DatabaseDeleted => "database.deleted"@,
        SpecEventType::DatabaseUndeleted => "database.undeleted"@,
        SpecEventType::CommentCreated => "comment.created"@,
        SpecEventType::CommentUpdated => "comment.updated"@,
        SpecEventType::CommentDeleted => "comment.deleted"@,
        SpecEventType::Other(s) => s,
    }
}

/// Reading a wire string as an event type loses nothing: the type's wire
/// string is the string read, whether the type is listed or not.
pub proof fn lemma_event_type_keeps_wire_string(s: Seq<char>)
    ensures
        event_type_name(event_type_of(s)) == s,
{
}

impl WebhookEventType {
    /// The event type named by a wire string; unknown names are kept as
    /// `Other`.
    pub fn from(s: &str) -> (r: Self)
        ensures
            r@ == event_type_of(s@),
    {
        let c = chars_of(s);
        let c = c.as_slice();
        if chars_eq_str(c, "page.created") {
            WebhookEventType::PageCreated
        } else if chars_eq_str(c, "page.content_updated") {
            WebhookEventType::PageContentUpdated
        } else if chars_eq_str(c, "page.properties_updated") {
            WebhookEventType::PagePropertiesUpdated
        } else if chars_eq_str(c, "page.moved") {
            WebhookEventType::PageMoved
        } else if chars_eq_str(c, "page.deleted") {
            WebhookEventType::PageDeleted
        } else if chars_eq_str(c, "page.undeleted") {
            WebhookEventType::PageUndeleted
        } else if chars_eq_str(c, "database.created") {
            WebhookEventType::DatabaseCreated
        } else if chars_eq_str(c, "database.content_updated") {
            WebhookEventType::DatabaseContentUpdated
        } else if chars_eq_str(c, "database.schema_updated") {
            WebhookEventType::DatabaseSchemaUpdated
        } else if chars_eq_str(c, "database.moved") {
            WebhookEventType::DatabaseMoved
        } else if chars_eq_str(c, "database.deleted") {
            WebhookEventType::DatabaseDeleted
        } else if chars_eq_str(c, "database.undeleted") {
            WebhookEventType::DatabaseUndeleted
        } else if chars_eq_str(c, "comment.created") {
            WebhookEventType::CommentCreated
        } else if chars_eq_str(c, "comment.updated") {
            WebhookEventType::CommentUpdated
        } else if chars_eq_str(c, "comment.deleted") {
            WebhookEventType::CommentDeleted
        } else {
            WebhookEventType::Other(String::from_str(s))
        }
    }
}

/// The entity (page, database, block, ...) a webhook event refers to.
#[derive(Debug, Clone, PartialEq, Eq)]
pub struct WebhookEntity {
    pub id: String,
    pub entity_type: String,
}

/// A webhook event delivery.
#[derive(Debug)]
pub struct WebhookEvent {
    pub id: Option<String>,
    pub timestamp: Option<String>,
    pub workspace_id: Option<String>,
    /// The raw `type` string, such as `page.content_updated`.
    pub event_type: String,
    pub entity: Option<WebhookEntity>,
    /// The event-specific payload, as raw JSON.
    pub data: JsonValue,
}

impl WebhookEvent {
    /// The typed category of this event.
    pub fn kind(&self) -> (r: WebhookEventType)
        ensures
            r@ == event_type_of(self.event_type@),
    {
        WebhookEventType::from(self.event_type.as_str())
    }
}

/// The verification handshake Notion sends when a subscription is created.
#[derive(Debug)]
pub struct WebhookVerification {
    pub verification_token: String,
}

/// A decoded webhook request body: the verification handshake or an event.
#[derive(Debug)]
pub enum WebhookPayload {
    Verification(WebhookVerification),
    Event(WebhookEvent),
}

/// The content of a [`WebhookEvent`].
pub struct SpecEvent {
    pub id: Option<Seq<char>>,
    pub timestamp: Option<Seq<char>>,
    pub workspace_id: Option<Seq<char>>,
    pub event_type: Seq<char>,
    /// The entity's id and type.
    pub entity: Option<(Seq<char>, Seq<char>)>,
    pub data: SpecJson,
}

/// The content of a [`WebhookPayload`].
pub enum SpecPayload {
    Verification(Seq<char>),
    Event(SpecEvent),
}

/// The content of an optional entity.
pub open spec fn entity_view(e: Option<WebhookEntity>) -> Option<(Seq<char>, Seq<char>)> {
    match e {
        Some(x) => Some((x.id@, x.entity_type@)),
        None => None,
    }
}

impl View for WebhookPayload {
    type V = SpecPayload;

    open spec fn view(&self) -> SpecPayload {
        match self {
            WebhookPayload::Verification(v) => SpecPayload::Verification(v.verification_token@),
            WebhookPayload::Event(e) => SpecPayload::Event(
                SpecEvent {
                    id: crate::ir::inline::opt_view(e.id),
                    timestamp: crate::ir::inline::opt_view(e.timestamp),
                    workspace_id: crate::ir::inline::opt_view(e.workspace_id),
                    event_type: e.event_type@,
                    entity: entity_view(e.entity),
                    data: e.data@,
                },
            ),
        }
    }
}

/// A required string field: present and a string.
pub open spec fn str_field(v: Option<SpecJson>) -> Option<Seq<char>> {
    match v {
        Some(SpecJson::Str(s)) => Some(s),
        _ => None,
    }
}

/// An optional string field: absent or null reads as no value, a string
/// as that string; anything else does not read (`None`).
pub open spec fn opt_str_field(v: Option<SpecJson>) -> Option<Option<Seq<char>>> {
    match v {
        None => Some(None),
        Some(SpecJson::Null) => Some(None),
        Some(SpecJson::Str(s)) => Some(Some(s)),
        _ => None,
    }
}

/// A struct read from JSON: an object by member name (other members
/// ignored), or an array by position.
pub open spec fn entity_of(v: SpecJson) -> Option<(Seq<char>, Seq<char>)> {
    match v {
        SpecJson::Object(_) => match (str_field(get_spec(v, "id"@)), str_field(get_spec(v, "type"@))) {
            (Some(i), Some(t)) => Some((i, t)),
            _ => None,
        },
        SpecJson::Array(a) => if a.len() == 2 {
            match (str_field(Some(a[0])), str_field(Some(a[1]))) {
                (Some(i), Some(t)) => Some((i, t)),
                _ => None,
            }
        } else {
            None
        },
        _ => None,
    }
}

/// An optional entity field: absent or null reads as no entity.
pub open spec fn opt_entity_field(v: Option<SpecJson>) -> Option<Option<(Seq<char>, Seq<char>)>> {
    match v {
        None => Some(None),
        Some(SpecJson::Null) => Some(None),
        Some(x) => match entity_of(x) {
            Some(e) => Some(Some(e)),
            None => None,
        },
    }
}

/// The verification token of a handshake body, if it is one: an object
/// with a string `verification_token`, or an array of exactly that string.
pub open spec fn verification_of(v: SpecJson) -> Option<Seq<char>> {
    match v {
        SpecJson::Object(_) => str_field(get_spec(v, "verification_token"@)),
        SpecJson::Array(a) => if a.len() == 1 {
            str_field(Some(a[0]))
        } else {
            None
        },
        _ => None,
    }
}

/// An event from its fields, when each of them reads.
pub open spec fn event_from_fields(
    id: Option<Option<Seq<char>>>,
    timestamp: Option<Option<Seq<char>>>,
    workspace_id: Option<Option<Seq<char>>>,
    event_type: Option<Seq<char>>,
    entity: Option<Option<(Seq<char>, Seq<char>)>>,
    data: SpecJson,
) -> Option<SpecEvent> {
    match (id, timestamp, workspace_id, event_type, entity) {
        (Some(i), Some(t), Some(w), Some(k), Some(e)) => Some(
            SpecEvent { id: i, timestamp: t, workspace_id: w, event_type: k, entity: e, data },
        ),
        _ => None,
    }
}

/// The event a body holds, if it is one. From an object: `type` is a
/// required string; `id`, `timestamp` and `workspace_id` optional strings;
/// `entity` an optional entity; `data` any value, null when absent. From an
/// array: the same fields by position (id, timestamp, workspace_id, type,
/// entity, data), the last two optional.
pub open spec fn event_of(v: SpecJson) -> Option<SpecEvent> {
    match v {
        SpecJson::Object(_) => event_from_fields(
            opt_str_field(get_spec(v, "id"@)),
            opt_str_field(get_spec(v, "timestamp"@)),
            opt_str_field(get_spec(v, "workspace_id"@)),
            str_field(get_spec(v, "type"@)),
            opt_entity_field(get_spec(v, "entity"@)),
            match get_spec(v, "data"@) {
                Some(d) => d,
                None => SpecJson::Null,
            },
        ),
        SpecJson::Array(a) => if 4 <= a.len() <= 6 {
            event_from_fields(
                opt_str_field(Some(a[0])),
                opt_str_field(Some(a[1])),
                opt_str_field(Some(a[2])),
                str_field(Some(a[3])),
                if a.len() > 4 {
                    opt_entity_field(Some(a[4]))
                } else {
                    Some(None)
                },
                if a.len() > 5 {
                    a[5]
                } else {
                    SpecJson::Null
                },
            )
        } else {
            None
        },
        _ => None,
    }
}

/// What a webhook body reads as: the verification handshake when it is
/// one, else an event, else nothing.
pub open spec fn payload_of(v: SpecJson) -> Option<SpecPayload> {
    match verification_of(v) {
        Some(t) => Some(SpecPayload::Verification(t)),
        None => match event_of(v) {
            Some(e) => Some(SpecPayload::Event(e)),
            None => None,
        },
    }
}

/// The message given for a body that is neither a handshake nor an event.
pub open spec fn no_payload_message() -> Seq<char> {
    "data did not match any variant of untagged enum WebhookPayload"@
}

fn read_str_field(v: Option<&JsonValue>) -> (r: Option<String>)
    ensures
        crate::ir::inline::opt_view(r) == str_field(
            match v {
                Some(x) => Some(x@),
                None => None,
            },
        ),
{
    match v {
        Some(JsonValue::String(s)) => Some(s.clone()),
        _ => None,
    }
}

fn read_opt_str_field(v: Option<&JsonValue>) -> (r: Option<Option<String>>)
    ensures
        (match r {
            Some(o) => Some(crate::ir::inline::opt_view(o)),
            None => None,
        }) == opt_str_field(
            match v {
                Some(x) => Some(x@),
                None => None,
            },
        ),
{
    match v {
        None => Some(None),
        Some(JsonValue::Null) => Some(None),
        Some(JsonValue::String(s)) => Some(Some(s.clone())),
        _ => None,
    }
}

fn read_entity(v: &JsonValue) -> (r: Option<WebhookEntity>)
    ensures
        entity_view(r) == entity_of(v@),
{
    match v {
        JsonValue::Object(_) => {
            let id = read_str_field(v.get("id"));
            let t = read_str_field(v.get("type"));
            match (id, t) {
                (Some(i), Some(t)) => Some(WebhookEntity { id: i, entity_type: t }),
                _ => None,
            }
        },
        JsonValue::Array(a) => {
            proof {
                crate::json::lemma_json_views(a@);
            }
            if a.len() == 2 {
                let id = read_str_field(Some(&a[0]));
                let t = read_str_field(Some(&a[1]));
                match (id, t) {
                    (Some(i), Some(t)) => Some(WebhookEntity { id: i, entity_type: t }),
                    _ => None,
                }
            } else {
                None
            }
        },
        _ => None,
    }
}

fn read_opt_entity(v: Option<&JsonValue>) -> (r: Option<Option<WebhookEntity>>)
    ensures
        (match r {
            Some(o) => Some(entity_view(o)),
            None => None,
        }) == opt_entity_field(
            match v {
                Some(x) => Some(x@),
                None => None,
            },
        ),
{
    match v {
        None => Some(None),
        Some(JsonValue::Null) => Some(None),
        Some(x) => match read_entity(x) {
            Some(e) => Some(Some(e)),
            None => None,
        },
    }
}

fn read_verification(v: &JsonValue) -> (r: Option<String>)
    ensures
        crate::ir::inline::opt_view(r) == verification_of(v@),
{
    match v {
        JsonValue::Object(_) => read_str_field(v.get("verification_token")),
        JsonValue::Array(a) => {
            proof {
                crate::json::lemma_json_views(a@);
            }
            if a.len() == 1 {
                read_str_field(Some(&a[0]))
            } else {
                None
            }
        },
        _ => None,
    }
}

fn event_from_parts(
    id: Option<Option<String>>,
    timestamp: Option<Option<String>>,
    workspace_id: Option<Option<String>>,
    event_type: Option<String>,
    entity: Option<Option<WebhookEntity>>,
    data: JsonValue,
) -> (r: Option<WebhookEvent>)
    ensures
        (match r {
            Some(e) => Some(
                SpecEvent {
                    id: crate::ir::inline::opt_view(e.id),
                    timestamp: crate::ir::inline::opt_view(e.timestamp),
                    workspace_id: crate::ir::inline::opt_view(e.workspace_id),
                    event_type: e.event_type@,
                    entity: entity_view(e.entity),
                    data: e.data@,
                },
            ),
            None => None,
        }) == event_from_fields(
            match id {
                Some(o) => Some(crate::ir::inline::opt_view(o)),
                None => None,
            },
            match timestamp {
                Some(o) => Some(crate::ir::inline::opt_view(o)),
                None => None,
            },
            match workspace_id {
                Some(o) => Some(crate::ir::inline::opt_view(o)),
                None => None,
            },
            crate::ir::inline::opt_view(event_type),
            match entity {
                Some(o) => Some(entity_view(o)),
                None => None,
            },
            data@,
        ),
{
    match (id, timestamp, workspace_id, event_type, entity) {
        (Some(i), Some(t), Some(w), Some(k), Some(e)) => Some(
            WebhookEvent { id: i, timestamp: t, workspace_id: w, event_type: k, entity: e, data },
        ),
        _ => None,
    }
}

fn read_event(v: &JsonValue) -> (r: Option<WebhookEvent>)
    ensures
        (match r {
            Some(e) => Some(
                SpecEvent {
                    id: crate::ir::inline::opt_view(e.id),
                    timestamp: crate::ir::inline::opt_view(e.timestamp),
                    workspace_id: crate::ir::inline::opt_view(e.workspace_id),
                    event_type: e.event_type@,
                    entity: entity_view(e.entity),
                    data: e.data@,
                },
            ),
            None => None,
        }) == event_of(v@),
{
    match v {
        JsonValue::Object(_) => {
            let data = match v.get("data") {
                Some(d) => d.copy(),
                None => JsonValue::Null,
            };
            event_from_parts(
                read_opt_str_field(v.get("id")),
                read_opt_str_field(v.get("timestamp")),
                read_opt_str_field(v.get("workspace_id")),
                read_str_field(v.get("type")),
                read_opt_entity(v.get("entity")),
                data,
            )
        },
        JsonValue::Array(a) => {
            proof {
                crate::json::lemma_json_views(a@);
            }
            if 4 <= a.len() && a.len() <= 6 {
                let entity = if a.len() > 4 {
                    read_opt_entity(Some(&a[4]))
                } else {
                    Some(None)
                };
                let data = if a.len() > 5 {
                    a[5].copy()
                } else {
                    JsonValue::Null
                };
                event_from_parts(
                    read_opt_str_field(Some(&a[0])),
                    read_opt_str_field(Some(&a[1])),
                    read_opt_str_field(Some(&a[2])),
                    read_str_field(Some(&a[3])),
                    entity,
                    data,
                )
            } else {
                None
            }
        },
        _ => None,
    }
}

/// Reads a decoded webhook body: the verification handshake when the body
/// is one, else an event delivery (which needs a string `type`); any other
/// body is a `Json` error.
pub fn payload_from_json(v: &JsonValue) -> (r: Result<WebhookPayload, NotionError>)
    ensures
        match payload_of(v@) {
            Some(p) => r matches Ok(q) && q@ == p,
            None => r matches Err(NotionError::Json(m)) && m@ == no_payload_message(),
        },
{
    match read_verification(v) {
        Some(t) => Ok(WebhookPayload::Verification(WebhookVerification { verification_token: t })),
        None => match read_event(v) {
            Some(e) => Ok(WebhookPayload::Event(e)),
            None => Err(
                NotionError::Json(String::from_str("data did not match any variant of untagged enum WebhookPayload")),
            ),
        },
    }
}

/// The value of a hexadecimal digit, either case.
pub open spec fn hex_digit(c: char) -> Option<u8> {
    if '0' <= c <= '9' {
        Some((c as u32 - '0' as u32) as u8)
    } else if 'a' <= c <= 'f' {
        Some((c as u32 - 'a' as u32 + 10) as u8)
    } else if 'A' <= c <= 'F' {
        Some((c as u32 - 'A' as u32 + 10) as u8)
    } else {
        None
    }
}

/// The bytes a hexadecimal text encodes, two digits per byte, high digit
/// first; `None` for an odd number of digits or any other character.
pub open spec fn hex_decoded(s: Seq<char>) -> Option<Seq<u8>> {
    if s.len() % 2 != 0 || exists|i: int| 0 <= i < s.len() && (#[trigger] hex_digit(s[i])) is None {
        None
    } else {
        Some(
            Seq::new(
                s.len() / 2,
                |i: int| (hex_digit(s[2 * i]).unwrap() * 16 + hex_digit(s[2 * i + 1]).unwrap()) as u8,
            ),
        )
    }
}

/// Decodes hexadecimal text with `hex::decode`, which accepts digits of
/// either case and fails on an odd length or any other character.
#[verifier::external_body]
fn hex_decode(s: &str) -> (r: Option<Vec<u8>>)
    ensures
        match r {
            Some(b) => hex_decoded(s@) == Some(b@),
            None => hex_decoded(s@) is None,
        },
{
    hex::decode(s).ok()
}

/// The HMAC-SHA256 tag of a message under a key.
pub uninterp spec fn hmac_sha256(key: Seq<u8>, msg: Seq<u8>) -> Seq<u8>;

/// Computes HMAC-SHA256 with the `hmac` and `sha2` crates; the contract
/// names the tag. `Hmac::new_from_slice` accepts keys of any length, so a
/// tag always comes back.
#[verifier::external_body]
fn hmac_sha256_tag(key: &[u8], msg: &[u8]) -> (r: Option<Vec<u8>>)
    ensures
        match r {
            Some(t) => t@ == hmac_sha256(key@, msg@),
            None => false,
        },
{
    let mut mac = Hmac::<Sha256>::new_from_slice(key).ok()?;
    mac.update(msg);
    Some(mac.finalize().into_bytes().to_vec())
}

/// Compares two byte strings with `subtle`'s constant-time equality, which
/// is true exactly when they have the same length and the same bytes.
#[verifier::external_body]
fn bytes_ct_eq(a: &[u8], b: &[u8]) -> (r: bool)
    ensures
        r == (a@ == b@),
{
    a.ct_eq(b).into()
}

/// Whether a signature header is `sha256=` followed by the hexadecimal
/// HMAC-SHA256 tag of the body keyed by the token's UTF-8 bytes.
pub open spec fn signature_valid(token: Seq<u8>, body: Seq<u8>, header: Seq<char>) -> bool {
    &&& header.len() >= 7
    &&& header.take(7) == "sha256="@
    &&& hex_decoded(header.skip(7)) == Some(hmac_sha256(token, body))
}

/// Verifies a Notion webhook signature: true only when the header is
/// `sha256=<hex>` and the hex decodes to the HMAC-SHA256 of the raw body
/// keyed by the verification token. The comparison is constant-time.
pub fn verify_webhook_signature(verification_token: &str, body: &[u8], signature_header: &str) -> (r: bool)
    ensures
        r == signature_valid(vstd::utf8::encode_utf8(verification_token@), body@, signature_header@),
{
    let h = chars_of(signature_header);
    if h.len() < 7 {
        return false;
    }
    let mut prefix: Vec<char> = Vec::new();
    let mut rest: Vec<char> = Vec::new();
    let mut i: usize = 0;
    while i < h.len()
        invariant
            i <= h.len(),
            prefix@ == h@.take(if i < 7 { i as int } else { 7 }),
            rest@ == (if i <= 7 { Seq::<char>::empty() } else { h@.subrange(7, i as int) }),
        decreases h.len() - i,
    {
        if i < 7 {
            prefix.push(h[i]);
            assert(prefix@ =~= h@.take(i + 1));
        } else {
            rest.push(h[i]);
            assert(rest@ =~= h@.subrange(7, i + 1));
        }
        i = i + 1;
    }
    assert(rest@ =~= h@.skip(7));
    proof {
        reveal_strlit("sha256=");
    }
    if !chars_eq_str(prefix.as_slice(), "sha256=") {
        return false;
    }
    let hex_text = string_of(&rest);
    let expected = match hex_decode(hex_text.as_str()) {
        Some(b) => b,
        None => {
            return false;
        },
    };
    let key = verification_token.as_bytes_vec();
    let computed = match hmac_sha256_tag(key.as_slice(), body) {
        Some(t) => t,
        None => {
            return false;
        },
    };
    bytes_ct_eq(computed.as_slice(), expected.as_slice())
}

/// The lowercase hexadecimal digit of a value below sixteen.
pub open spec fn lower_hex_digit(v: u8) -> char {
    if v < 10 {
        ('0' as u32 + v) as char
    } else {
        ('a' as u32 + v - 10) as char
    }
}

/// Bytes as lowercase hexadecimal text, two digits per byte, high digit
/// first: how a signature's tag is written in its header.
pub open spec fn hex_encoded(bytes: Seq<u8>) -> Seq<char> {
    Seq::new(
        2 * bytes.len(),
        |i: int| if i % 2 == 0 {
            lower_hex_digit(bytes[i / 2] / 16)
        } else {
            lower_hex_digit(bytes[i / 2] % 16)
        },
    )
}

proof fn lemma_lower_hex_digit(v: u8)
    requires
        v < 16,
    ensures
        hex_digit(lower_hex_digit(v)) == Some(v),
{
}

/// Hexadecimal text decodes to the bytes it was encoded from.
pub proof fn lemma_hex_round_trip(bytes: Seq<u8>)
    ensures
        hex_decoded(hex_encoded(bytes)) == Some(bytes),
{
    let h = hex_encoded(bytes);
    assert(h.len() % 2 == 0) by (nonlinear_arith)
        requires
            h.len() == 2 * bytes.len(),
    ;
    assert forall|i: int| 0 <= i < h.len() implies (#[trigger] hex_digit(h[i])) is Some by {
        let b = bytes[i / 2];
        assert(b / 16 < 16) by (nonlinear_arith)
            requires
                b < 256,
        ;
        lemma_lower_hex_digit(b / 16);
        lemma_lower_hex_digit(b % 16);
    }
    assert(h.len() / 2 == bytes.len()) by (nonlinear_arith)
        requires
            h.len() == 2 * bytes.len(),
    ;
    let decoded = Seq::new(
        h.len() / 2,
        |i: int| (hex_digit(h[2 * i]).unwrap() * 16 + hex_digit(h[2 * i + 1]).unwrap()) as u8,
    );
    assert forall|i: int| 0 <= i < bytes.len() implies #[trigger] decoded[i] == bytes[i] by {
        let b = bytes[i];
        assert((2 * i) % 2 == 0 && (2 * i) / 2 == i && (2 * i + 1) % 2 == 1 && (2 * i + 1) / 2 == i) by (nonlinear_arith);
        assert(b / 16 < 16 && b % 16 < 16 && (b / 16) * 16 + b % 16 == b) by (nonlinear_arith)
            requires
                b < 256,
        ;
        lemma_lower_hex_digit(b / 16);
        lemma_lower_hex_digit(b % 16);
        assert(h[2 * i] == lower_hex_digit(b / 16));
        assert(h[2 * i + 1] == lower_hex_digit(b % 16));
    }
    assert(decoded =~= bytes);
}

/// The header Notion sends, `sha256=` followed by the lowercase hex of the
/// HMAC-SHA256 of the body keyed by the token, verifies.
pub proof fn lemma_signed_header_verifies(token: Seq<u8>, body: Seq<u8>)
    ensures
        signature_valid(token, body, "sha256="@ + hex_encoded(hmac_sha256(token, body))),
{
    reveal_strlit("sha256=");
    let header = "sha256="@ + hex_encoded(hmac_sha256(token, body));
    assert(header.take(7) =~= "sha256="@);
    assert(header.skip(7) =~= hex_encoded(hmac_sha256(token, body)));
    lemma_hex_round_trip(hmac_sha256(token, body));
}

} // verus!
