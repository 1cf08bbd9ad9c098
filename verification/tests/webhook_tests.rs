use blink_md::api::trash::HttpMethod;
use blink_md::api::webhooks::{
    create_webhook_request, delete_webhook_request, list_webhooks_request, payload_from_json,
    verify_webhook_signature, WebhookEventType, WebhookPayload,
};
use blink_md::error::NotionError;
use blink_md::json::JsonValue;
use hmac::{Hmac, Mac};
use sha2::Sha256;

fn sign(token: &str, body: &[u8]) -> String {
    let mut mac = Hmac::<Sha256>::new_from_slice(token.as_bytes()).unwrap();
    mac.update(body);
    format!("sha256={}", hex::encode(mac.finalize().into_bytes()))
}

fn s(v: &str) -> JsonValue {
    JsonValue::String(v.to_string())
}

fn obj(entries: Vec<(&str, JsonValue)>) -> JsonValue {
    JsonValue::Object(entries.into_iter().map(|(k, v)| (k.to_string(), v)).collect())
}

#[test]
fn valid_signature_verifies() {
    let token = "secret_token";
    let body = br#"{"type":"page.created"}"#;
    let header = sign(token, body);
    assert!(verify_webhook_signature(token, body, &header));
}

#[test]
fn tampered_body_fails() {
    let token = "secret_token";
    let header = sign(token, br#"{"type":"page.created"}"#);
    assert!(!verify_webhook_signature(token, br#"{"type":"page.deleted"}"#, &header));
}

#[test]
fn wrong_token_fails() {
    let body = br#"{"type":"page.created"}"#;
    let header = sign("real", body);
    assert!(!verify_webhook_signature("attacker", body, &header));
}

#[test]
fn malformed_header_fails() {
    let token = "t";
    let body = b"{}";
    assert!(!verify_webhook_signature(token, body, "deadbeef"));
    assert!(!verify_webhook_signature(token, body, "sha256=zzzz"));
}

#[test]
fn uppercase_hex_signature_verifies() {
    let token = "k";
    let body = b"payload";
    let header = sign(token, body);
    let upper = format!("sha256={}", header["sha256=".len()..].to_uppercase());
    assert!(verify_webhook_signature(token, body, &upper));
}

#[test]
fn odd_length_hex_fails() {
    let token = "k";
    let body = b"payload";
    let header = sign(token, body);
    let cut = &header[..header.len() - 1];
    assert!(!verify_webhook_signature(token, body, cut));
}

#[test]
fn parses_verification_handshake() {
    let body = obj(vec![("verification_token", s("secret_abc"))]);
    match payload_from_json(&body).unwrap() {
        WebhookPayload::Verification(v) => assert_eq!(v.verification_token, "secret_abc"),
        other => panic!("expected verification, got {:?}", other),
    }
}

#[test]
fn parses_event_with_typed_kind() {
    let body = obj(vec![
        ("id", s("evt-1")),
        ("timestamp", s("2026-06-30T00:00:00.000Z")),
        ("workspace_id", s("ws-1")),
        ("type", s("page.content_updated")),
        ("entity", obj(vec![("id", s("page-1")), ("type", s("page"))])),
        ("data", obj(vec![("updated_blocks", JsonValue::Array(vec![obj(vec![("id", s("b1"))])]))])),
    ]);
    match payload_from_json(&body).unwrap() {
        WebhookPayload::Event(e) => {
            assert_eq!(e.kind(), WebhookEventType::PageContentUpdated);
            assert_eq!(e.entity.as_ref().unwrap().id, "page-1");
            assert_eq!(e.id.as_deref(), Some("evt-1"));
        }
        other => panic!("expected event, got {:?}", other),
    }
}

#[test]
fn unknown_event_type_preserved() {
    let body = obj(vec![("type", s("page.future_thing")), ("entity", obj(vec![("id", s("p")), ("type", s("page"))]))]);
    match payload_from_json(&body).unwrap() {
        WebhookPayload::Event(e) => {
            assert_eq!(e.kind(), WebhookEventType::Other("page.future_thing".into()));
        }
        other => panic!("expected event, got {:?}", other),
    }
}

#[test]
fn body_without_type_is_rejected() {
    let body = obj(vec![("id", s("evt"))]);
    match payload_from_json(&body) {
        Err(NotionError::Json(m)) => assert_eq!(m, "data did not match any variant of untagged enum WebhookPayload"),
        other => panic!("expected error, got {:?}", other),
    }
}

#[test]
fn event_data_defaults_to_null() {
    let body = obj(vec![("type", s("comment.created")), ("id", JsonValue::Null)]);
    match payload_from_json(&body).unwrap() {
        WebhookPayload::Event(e) => {
            assert_eq!(e.kind(), WebhookEventType::CommentCreated);
            assert!(e.id.is_none());
            assert_eq!(e.data, JsonValue::Null);
        }
        other => panic!("expected event, got {:?}", other),
    }
}

#[test]
fn event_type_names_map_to_variants() {
    assert_eq!(WebhookEventType::from("database.schema_updated"), WebhookEventType::DatabaseSchemaUpdated);
    assert_eq!(WebhookEventType::from("page.moved"), WebhookEventType::PageMoved);
    assert_eq!(WebhookEventType::from(""), WebhookEventType::Other(String::new()));
}

#[test]
fn webhook_requests() {
    let l = list_webhooks_request();
    assert_eq!(l.method, HttpMethod::Get);
    assert_eq!(l.path, "/webhooks");
    let c = create_webhook_request("https://x.test/hook".to_string(), vec!["page.created".to_string()]);
    assert_eq!(c.method, HttpMethod::Post);
    assert_eq!(
        c.body,
        Some(obj(vec![("url", s("https://x.test/hook")), ("events", JsonValue::Array(vec![s("page.created")]))]))
    );
    let d = delete_webhook_request("w1");
    assert_eq!(d.method, HttpMethod::Delete);
    assert_eq!(d.path, "/webhooks/w1");
}
