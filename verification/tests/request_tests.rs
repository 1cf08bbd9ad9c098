use blink_md::api::requests::{
    api_error, append_block_children_request, collect_next, create_comment_request, create_file_upload_request,
    create_page_request, get_block_children_request, get_user_request, list_comments_request, list_users_request,
    move_page_request, query_database_request, request_failed, response_step, search_all_next, search_request,
    update_page_request, update_view_request, Comment, CommentParent, ResponseStep, SEARCH_ALL_MAX_PAGES,
};
use blink_md::api::trash::HttpMethod;
use blink_md::error::NotionError;
use blink_md::json::{JsonNumber, JsonValue, NumberRepr};
use blink_md::models::block::{Block, BlockType};
use blink_md::models::common::User;
use blink_md::models::page::CreatePageRequest;

fn s(v: &str) -> JsonValue {
    JsonValue::String(v.to_string())
}

fn obj(entries: Vec<(&str, JsonValue)>) -> JsonValue {
    JsonValue::Object(entries.into_iter().map(|(k, v)| (k.to_string(), v)).collect())
}

fn uint(n: u64) -> JsonValue {
    JsonValue::Number(JsonNumber { repr: NumberRepr::PosInt(n), double: None })
}

fn divider() -> Block {
    Block {
        object: "block".to_string(),
        id: "d1".to_string(),
        created_time: String::new(),
        last_edited_time: String::new(),
        created_by: User::placeholder(),
        last_edited_by: User::placeholder(),
        has_children: false,
        in_trash: false,
        parent: None,
        block_type: BlockType::Divider,
    }
}

#[test]
fn user_paths() {
    assert_eq!(get_user_request("u1").path, "/users/u1");
    assert_eq!(list_users_request(None).path, "/users");
    assert_eq!(list_users_request(Some("c9")).path, "/users?start_cursor=c9");
}

#[test]
fn block_children_query_string() {
    assert_eq!(get_block_children_request("b", None, None).path, "/blocks/b/children");
    assert_eq!(get_block_children_request("b", Some("x".to_string()), None).path, "/blocks/b/children?start_cursor=x");
    assert_eq!(get_block_children_request("b", None, Some(50)).path, "/blocks/b/children?page_size=50");
    assert_eq!(
        get_block_children_request("b", Some("x".to_string()), Some(100)).path,
        "/blocks/b/children?start_cursor=x&page_size=100"
    );
}

#[test]
fn search_body_has_only_given_parts() {
    let r = search_request(Some("q".to_string()), None, None, None, Some(100));
    assert_eq!(r.method, HttpMethod::Post);
    assert_eq!(r.path, "/search");
    assert_eq!(r.body, Some(obj(vec![("query", s("q")), ("page_size", uint(100))])));
    let empty = search_request(None, None, None, None, None);
    assert_eq!(empty.body, Some(obj(vec![])));
}

#[test]
fn search_all_stops_at_the_cap_or_the_end() {
    assert_eq!(search_all_next(1, true, Some("c".to_string())), Some("c".to_string()));
    assert_eq!(search_all_next(1, false, Some("c".to_string())), None);
    assert_eq!(search_all_next(1, true, None), None);
    assert_eq!(search_all_next(SEARCH_ALL_MAX_PAGES, true, Some("c".to_string())), None);
    assert_eq!(collect_next(true, None), Some(None));
    assert_eq!(collect_next(false, Some("c".to_string())), None);
}

#[test]
fn page_updates() {
    let r = update_page_request("p", None, Some(true));
    assert_eq!(r.method, HttpMethod::Patch);
    assert_eq!(r.path, "/pages/p");
    assert_eq!(r.body, Some(obj(vec![("in_trash", JsonValue::Bool(true))])));
    let m = move_page_request("p", obj(vec![("page_id", s("q"))]));
    assert_eq!(m.body, Some(obj(vec![("parent", obj(vec![("page_id", s("q"))]))])));
}

#[test]
fn query_database_body() {
    let r = query_database_request("db", None, Some(vec![s("x")]), Some("c".to_string()), None);
    assert_eq!(r.path, "/databases/db/query");
    assert_eq!(
        r.body,
        Some(obj(vec![("sorts", JsonValue::Array(vec![s("x")])), ("start_cursor", s("c"))]))
    );
}

#[test]
fn view_update_merges_config_over_name() {
    let r = update_view_request("v", Some("old".to_string()), Some(obj(vec![("name", s("new")), ("type", s("table"))])));
    assert_eq!(r.body, Some(obj(vec![("name", s("new")), ("type", s("table"))])));
    let r2 = update_view_request("v", None, Some(s("not an object")));
    assert_eq!(r2.body, Some(obj(vec![])));
}

#[test]
fn comment_requests() {
    let c = create_comment_request(&CommentParent::PageId { page_id: "p".to_string() }, &vec![]);
    assert_eq!(
        c.body,
        Some(obj(vec![
            ("parent", obj(vec![("type", s("page_id")), ("page_id", s("p"))])),
            ("rich_text", JsonValue::Array(vec![])),
        ]))
    );
    let l = list_comments_request("b");
    assert_eq!(l.method, HttpMethod::Get);
    assert_eq!(l.body, Some(obj(vec![("block_id", s("b"))])));
}

#[test]
fn file_upload_request_body() {
    let r = create_file_upload_request("a.png", "image/png");
    assert_eq!(r.body, Some(obj(vec![("name", s("a.png")), ("content_type", s("image/png"))])));
}

#[test]
fn blocks_are_sent_as_typed_json() {
    let r = append_block_children_request("b", &vec![divider()], None);
    assert_eq!(r.path, "/blocks/b/children");
    assert_eq!(
        r.body,
        Some(obj(vec![(
            "children",
            JsonValue::Array(vec![obj(vec![("object", s("block")), ("type", s("divider")), ("divider", obj(vec![]))])])
        )]))
    );
}

#[test]
fn create_page_body_skips_missing_parts() {
    let req = CreatePageRequest {
        parent: obj(vec![("page_id", s("p"))]),
        properties: obj(vec![]),
        children: None,
        icon: None,
        cover: None,
    };
    let r = create_page_request(&req);
    assert_eq!(r.path, "/pages");
    assert_eq!(r.body, Some(obj(vec![("parent", obj(vec![("page_id", s("p"))])), ("properties", obj(vec![]))])));
}

#[test]
fn error_bodies_are_read() {
    match api_error(404, &obj(vec![("code", s("object_not_found")), ("message", s("gone"))])) {
        NotionError::Api { code, message, status } => {
            assert_eq!(code, "object_not_found");
            assert_eq!(message, "gone");
            assert_eq!(status, 404);
        }
        other => panic!("unexpected {:?}", other),
    }
    match api_error(500, &JsonValue::Null) {
        NotionError::Api { code, message, .. } => {
            assert_eq!(code, "unknown");
            assert_eq!(message, "Unknown error");
        }
        other => panic!("unexpected {:?}", other),
    }
    match request_failed("timeout".to_string()) {
        NotionError::Api { code, status, .. } => {
            assert_eq!(code, "request_failed");
            assert_eq!(status, 0);
        }
        other => panic!("unexpected {:?}", other),
    }
}

#[test]
fn rate_limited_answers_are_retried_three_times() {
    assert_eq!(response_step(200, 0, None), (ResponseStep::Decode, 0));
    assert_eq!(response_step(429, 0, Some("7")), (ResponseStep::Retry { wait_secs: 7 }, 1));
    assert_eq!(response_step(429, 1, Some("soon")), (ResponseStep::Retry { wait_secs: 10 }, 2));
    assert_eq!(response_step(429, 2, None), (ResponseStep::Retry { wait_secs: 15 }, 3));
    assert_eq!(response_step(429, 3, Some("1")), (ResponseStep::Fail, 3));
    assert_eq!(response_step(404, 0, None), (ResponseStep::Fail, 0));
    assert_eq!(response_step(429, 0, Some("+3")), (ResponseStep::Retry { wait_secs: 3 }, 1));
}

#[test]
fn comment_record_keeps_every_field() {
    let c = Comment {
        object: "comment".to_string(),
        id: "c1".to_string(),
        parent: CommentParent::PageId { page_id: "p1".to_string() },
        discussion_id: "d1".to_string(),
        rich_text: vec![],
        created_time: "2024-01-01T00:00:00Z".to_string(),
        last_edited_time: "2024-01-02T00:00:00Z".to_string(),
        created_by: User::placeholder(),
        last_edited_by: User::placeholder(),
        resolved: true,
    };
    match c.to_json() {
        JsonValue::Object(m) => {
            let keys: Vec<&str> = m.iter().map(|(k, _)| k.as_str()).collect();
            assert_eq!(
                keys,
                vec![
                    "object", "id", "parent", "discussion_id", "rich_text", "created_time", "last_edited_time",
                    "created_by", "last_edited_by", "resolved"
                ]
            );
            assert_eq!(m[1].1, JsonValue::String("c1".to_string()));
            assert_eq!(m[5].1, JsonValue::String("2024-01-01T00:00:00Z".to_string()));
            assert_eq!(m[9].1, JsonValue::Bool(true));
            assert_eq!(m[4].1, JsonValue::Array(vec![]));
        }
        other => panic!("unexpected {:?}", other),
    }
}

#[test]
fn retry_after_is_read_as_an_unsigned_number() {
    assert_eq!(response_step(429, 0, Some("+7")), (ResponseStep::Retry { wait_secs: 7 }, 1));
    assert_eq!(response_step(429, 0, Some("18446744073709551615")), (ResponseStep::Retry { wait_secs: u64::MAX }, 1));
    assert_eq!(response_step(429, 0, Some("18446744073709551616")), (ResponseStep::Retry { wait_secs: 5 }, 1));
    assert_eq!(response_step(429, 0, Some("12a")), (ResponseStep::Retry { wait_secs: 5 }, 1));
    assert_eq!(response_step(429, 0, Some("+")), (ResponseStep::Retry { wait_secs: 5 }, 1));
    assert_eq!(response_step(429, 0, Some("")), (ResponseStep::Retry { wait_secs: 5 }, 1));
}
