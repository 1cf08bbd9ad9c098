use blink_md::api::markdown::parse_markdown;
use blink_md::api::markdown_frontmatter::detect_frontmatter;
use blink_md::api::trash::{delete_permanently_request, restore_request, trash_request, HttpMethod, Resource};
use blink_md::json::JsonValue;

#[test]
fn smoke_no_frontmatter() {
    assert!(detect_frontmatter("# hi").unwrap().is_none());
}

#[test]
fn smoke_with_frontmatter() {
    let r = detect_frontmatter("---\nk: v\n---\nbody").unwrap();
    assert!(r.is_some());
    let b = r.unwrap();
    assert_eq!(b.yaml, "k: v");
    assert_eq!(b.content, "body");
}

#[test]
fn restore_support_matches_resource_kind() {
    assert!(Resource::Page.supports_restore());
    assert!(Resource::Block.supports_restore());
    assert!(!Resource::View.supports_restore());
    assert!(!Resource::Webhook.supports_restore());
}

#[test]
fn paths_are_built_from_collection() {
    assert_eq!(Resource::Page.path("abc"), "/pages/abc");
    assert_eq!(Resource::Webhook.path("xyz"), "/webhooks/xyz");
}

#[test]
fn frontmatter_unclosed_is_body_only() {
    assert!(detect_frontmatter("---\nk: v\nno end").unwrap().is_none());
}

#[test]
fn frontmatter_empty_yaml_and_trailing_space_delimiter() {
    let b = detect_frontmatter("---  \n---\nrest\nmore").unwrap().unwrap();
    assert_eq!(b.yaml, "");
    assert_eq!(b.content, "rest\nmore");
}

#[test]
fn block_and_view_paths() {
    assert_eq!(Resource::Block.path("b1"), "/blocks/b1");
    assert_eq!(Resource::View.path("v1"), "/views/v1");
}

#[test]
fn trash_sets_in_trash_for_soft_deletable() {
    let r = trash_request(Resource::Page, "p1");
    assert_eq!(r.method, HttpMethod::Patch);
    assert_eq!(r.path, "/pages/p1");
    assert_eq!(
        r.body,
        Some(JsonValue::Object(vec![("in_trash".to_string(), JsonValue::Bool(true))]))
    );
}

#[test]
fn trash_of_webhook_is_a_delete() {
    let r = trash_request(Resource::Webhook, "w1");
    assert_eq!(r.method, HttpMethod::Delete);
    assert_eq!(r.path, "/webhooks/w1");
    assert!(r.body.is_none());
}

#[test]
fn restore_clears_in_trash() {
    let r = restore_request(Resource::Block, "b1").unwrap();
    assert_eq!(r.method, HttpMethod::Patch);
    assert_eq!(
        r.body,
        Some(JsonValue::Object(vec![("in_trash".to_string(), JsonValue::Bool(false))]))
    );
    assert!(restore_request(Resource::View, "v1").is_err());
}

#[test]
fn delete_permanently_is_a_delete() {
    let r = delete_permanently_request(Resource::Page, "p9");
    assert_eq!(r.method, HttpMethod::Delete);
    assert_eq!(r.path, "/pages/p9");
}

#[test]
fn crlf_text_reads_as_its_lf_form() {
    let crlf = detect_frontmatter("---\r\nk: v\r\n---\r\nbody\r\nmore").unwrap().unwrap();
    let lf = detect_frontmatter("---\nk: v\n---\nbody\nmore").unwrap().unwrap();
    assert_eq!(crlf.yaml, "k: v");
    assert_eq!(crlf.content, "body\nmore");
    assert_eq!(crlf.yaml, lf.yaml);
    assert_eq!(crlf.content, lf.content);
}

#[test]
fn parsed_blocks_are_stamped_in_rfc3339_utc() {
    let blocks = parse_markdown("hello\n\nworld");
    assert_eq!(blocks.len(), 2);
    for b in &blocks {
        let t: Vec<char> = b.created_time.chars().collect();
        assert!(t.len() >= 20);
        assert_eq!(t[4], '-');
        assert_eq!(t[7], '-');
        assert_eq!(t[10], 'T');
        assert_eq!(t[13], ':');
        assert_eq!(t[16], ':');
        assert_eq!(*t.last().unwrap(), 'Z');
        assert_eq!(b.created_time, b.last_edited_time);
    }
}

#[test]
fn crlf_tolerance_holds_on_a_doubled_cr_delimiter_only() {
    let a = "---\r\r\nk: v\r\n---\r\nbody";
    let x = detect_frontmatter(a).unwrap().unwrap();
    let y = detect_frontmatter(&a.replace("\r\n", "\n")).unwrap().unwrap();
    assert_eq!(x.yaml, "k: v");
    assert_eq!(x.content, "body");
    assert_eq!(x.yaml, y.yaml);
    assert_eq!(x.content, y.content);

    let b = "---\nk: v\r\r\n---\nx";
    let u = detect_frontmatter(b).unwrap().unwrap();
    let v = detect_frontmatter(&b.replace("\r\n", "\n")).unwrap().unwrap();
    assert_eq!(u.yaml, "k: v\r");
    assert_eq!(v.yaml, "k: v");
}
