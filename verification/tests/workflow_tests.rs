use blink_md::api::walk::{ChildrenWalk, WalkStep};
use blink_md::cli::convert::{format_name, source_format, target_format, SourceFormat, TargetFormat};
use blink_md::cli::export_cmd::{export_document, export_file_name, slugify};
use blink_md::cli::output::{object_text, records_table, search_results_text, Column, Field};
use blink_md::cli::sync_cmd::{sync_request, SyncQueue, DEBOUNCE_MS};
use blink_md::converter::markdown::MarkdownConverter;
use blink_md::converter::notion::PageWithBlocks;
use blink_md::ir::metadata::PropertyValue;
use blink_md::json::JsonValue;
use blink_md::models::block::{Block, BlockType, TextBlockContent};
use blink_md::models::common::{PersonInfo, User, UserType};
use blink_md::models::page::Page;

fn s(v: &str) -> JsonValue {
    JsonValue::String(v.to_string())
}

fn obj(entries: Vec<(&str, JsonValue)>) -> JsonValue {
    JsonValue::Object(entries.into_iter().map(|(k, v)| (k.to_string(), v)).collect())
}

fn at<'a>(v: &'a JsonValue, key: &str) -> &'a JsonValue {
    match v {
        JsonValue::Object(entries) => &entries.iter().find(|(k, _)| k == key).expect("member").1,
        _ => panic!("not an object"),
    }
}

#[test]
fn format_name_prefers_given_then_extension() {
    assert_eq!(format_name(Some("md".to_string()), Some("txt".to_string()), "markdown"), "md");
    assert_eq!(format_name(None, Some("json".to_string()), "markdown"), "json");
    assert_eq!(format_name(None, None, "markdown"), "markdown");
}

#[test]
fn source_formats_are_markdown_only() {
    assert_eq!(source_format("markdown"), Ok(SourceFormat::Markdown));
    assert_eq!(source_format("md"), Ok(SourceFormat::Markdown));
    assert_eq!(source_format("html"), Err("Unsupported source format: html".to_string()));
}

#[test]
fn target_formats_are_recognised() {
    assert_eq!(target_format("json"), Ok(TargetFormat::Json));
    assert_eq!(target_format("md"), Ok(TargetFormat::Markdown));
    assert_eq!(target_format("markdown"), Ok(TargetFormat::Markdown));
    assert_eq!(target_format("notion"), Ok(TargetFormat::Notion));
    assert_eq!(target_format("pdf"), Err("Unsupported target format: pdf".to_string()));
}

#[test]
fn export_file_name_is_slug_dash_id() {
    assert_eq!(export_file_name("Hello, World!", "abc123"), "hello-world-abc123.md");
    assert_eq!(export_file_name("", "p1"), "untitled-p1.md");
    assert_ne!(export_file_name("Same", "a"), export_file_name("Same", "b"));
}

fn user(id: &str) -> User {
    User { object: "user".to_string(), id: id.to_string(), name: None, avatar_url: None, user_type: UserType::Person { person: PersonInfo { email: None } } }
}

#[test]
fn export_document_types_properties() {
    let properties = obj(vec![
        ("Name", obj(vec![
            ("type", s("title")),
            ("title", JsonValue::Array(vec![obj(vec![("plain_text", s("Doc"))])])),
        ])),
        ("Tags", obj(vec![
            ("type", s("multi_select")),
            ("multi_select", JsonValue::Array(vec![obj(vec![("name", s("a"))])])),
        ])),
    ]);
    let page = Page {
        object: "page".to_string(),
        id: "p1".to_string(),
        created_time: "2024-01-01T00:00:00Z".to_string(),
        last_edited_time: "2024-01-02T00:00:00Z".to_string(),
        created_by: user("u1"),
        last_edited_by: user("u2"),
        parent: JsonValue::Null,
        in_trash: false,
        properties,
        url: "https://notion.so/p1".to_string(),
    };
    let doc = export_document(PageWithBlocks { page, blocks: vec![] }).unwrap();
    assert_eq!(doc.metadata.title.as_deref(), Some("Doc"));
    assert_eq!(doc.metadata.author.as_deref(), Some("u1"));
    assert_eq!(doc.metadata.source_id.as_deref(), Some("p1"));
    assert_eq!(doc.metadata.properties.len(), 2);
    assert!(matches!(doc.metadata.properties[0].1, PropertyValue::Title { .. }));
    match &doc.metadata.properties[1].1 {
        PropertyValue::MultiSelect { multi_select: opts } => {
            assert_eq!(opts.len(), 1);
            assert_eq!(opts[0].name, "a");
        }
        other => panic!("unexpected {:?}", other),
    }
}

#[test]
fn sync_queue_debounces_changes() {
    let mut q = SyncQueue::new();
    q.note_change("/notes/a.md", true, 1_000);
    q.note_change("/notes/b.txt", false, 1_000);
    q.note_change("/notes/a.md", true, 1_200);
    assert_eq!(q.pending.len(), 1);
    assert_eq!(q.pending[0].1, 1_200 + DEBOUNCE_MS);
    let due = q.take_due(1_500);
    assert!(due.is_empty());
    assert_eq!(q.pending.len(), 1);
    let due = q.take_due(1_700);
    assert_eq!(due, vec!["/notes/a.md".to_string()]);
    assert!(q.pending.is_empty());
}

#[test]
fn sync_queue_releases_in_order() {
    let mut q = SyncQueue::new();
    q.note_change("one.md", true, 0);
    q.note_change("two.md", true, 100);
    q.note_change("three.md", true, 1_000);
    let due = q.take_due(700);
    assert_eq!(due, vec!["one.md".to_string(), "two.md".to_string()]);
    assert_eq!(q.pending.len(), 1);
    assert_eq!(q.pending[0].0, "three.md");
}

#[test]
fn sync_request_targets_database_with_title() {
    let doc = MarkdownConverter::from_platform("Hello".to_string()).unwrap();
    let req = sync_request(&doc, "my-note", "db1").unwrap();
    assert_eq!(at(&req.parent, "database_id"), &s("db1"));
    let name = at(&req.properties, "Name");
    let title = match at(name, "title") {
        JsonValue::Array(items) => &items[0],
        _ => panic!("title array"),
    };
    assert_eq!(at(at(title, "text"), "content"), &s("my-note"));
    assert_eq!(req.children.map(|c| c.len()), Some(1));
    assert!(req.icon.is_none());
}

#[test]
fn search_results_are_tabulated() {
    let results = vec![
        obj(vec![
            ("object", s("page")),
            ("id", s("p1")),
            ("properties", obj(vec![(
                "title",
                obj(vec![("title", JsonValue::Array(vec![obj(vec![("plain_text", s("Home"))])]))]),
            )])),
        ]),
        obj(vec![("object", s("database")), ("id", s("d1"))]),
    ];
    let text = search_results_text(&results);
    let lines: Vec<&str> = text.lines().collect();
    assert_eq!(lines.len(), 4);
    assert_eq!(lines[0], format!("{:<40} | {:<36} | {:<10}", "Title", "ID", "Type"));
    assert_eq!(lines[1], format!("{:-<40}-+-{:-<36}-+-{:-<10}", "", "", ""));
    assert_eq!(lines[2], format!("{:<40} | {:<36} | {:<10}", "Home", "p1", "page"));
    assert_eq!(lines[3], format!("{:<40} | {:<36} | {:<10}", "Untitled Database", "d1", "database"));
}

fn block(id: &str, has_children: bool) -> Block {
    Block {
        object: "block".to_string(),
        id: id.to_string(),
        created_time: String::new(),
        last_edited_time: String::new(),
        created_by: User::placeholder(),
        last_edited_by: User::placeholder(),
        has_children,
        in_trash: false,
        parent: None,
        block_type: BlockType::Paragraph {
            paragraph: TextBlockContent { rich_text: vec![], color: "default".to_string(), children: None },
        },
    }
}

/// Pages of children by (block id, cursor): (ids with children flag, next cursor).
fn page_of(id: &str, cursor: Option<&str>) -> (Vec<Block>, bool, Option<String>) {
    match (id, cursor) {
        ("root", None) => (vec![block("a", true), block("b", false)], true, Some("c2".to_string())),
        ("root", Some("c2")) => (vec![block("c", false)], false, None),
        ("a", None) => (vec![block("a1", false), block("a2", true)], false, None),
        ("a2", None) => (vec![block("a2x", false)], false, None),
        other => panic!("unexpected fetch {:?}", other),
    }
}

#[test]
fn children_walk_is_depth_first() {
    let mut walk = ChildrenWalk::new("root");
    let mut fetches = Vec::new();
    loop {
        match walk.next_step() {
            WalkStep::Fetch { block_id, cursor } => {
                fetches.push((block_id.clone(), cursor.clone()));
                let (results, has_more, next) = page_of(&block_id, cursor.as_deref());
                walk.receive(results, has_more, next);
            }
            WalkStep::Done => break,
        }
    }
    let ids: Vec<&str> = walk.out.iter().map(|b| b.id.as_str()).collect();
    assert_eq!(ids, vec!["a", "a1", "a2", "a2x", "b", "c"]);
    assert_eq!(fetches.len(), 4);
    assert_eq!(fetches[0], ("root".to_string(), None));
    assert_eq!(fetches[1], ("a".to_string(), None));
    assert_eq!(fetches[2], ("a2".to_string(), None));
    assert_eq!(fetches[3], ("root".to_string(), Some("c2".to_string())));
}

#[test]
fn children_walk_of_empty_block() {
    let mut walk = ChildrenWalk::new("leaf");
    assert!(matches!(walk.next_step(), WalkStep::Fetch { .. }));
    walk.receive(vec![], false, None);
    assert!(matches!(walk.next_step(), WalkStep::Done));
    assert!(walk.out.is_empty());
    assert!(matches!(walk.next_step(), WalkStep::Done));
}

#[test]
fn records_table_shows_fields() {
    let rows = vec![
        obj(vec![("id", s("p1")), ("object", s("page")), ("url", s("https://x"))]),
        obj(vec![("id", s("b22")), ("object", s("block")), ("type", s("paragraph"))]),
    ];
    let columns = vec![Column::new("ID", Field::Id), Column::new("Object", Field::Object), Column::new("Type", Field::BlockType)];
    let table = records_table(&rows, &columns).unwrap();
    let lines: Vec<&str> = table.lines().collect();
    assert_eq!(lines.len(), 4);
    assert!(lines[0].starts_with("ID"));
    assert!(lines[2].starts_with("p1"));
    assert!(lines[2].ends_with("-"));
    assert!(lines[3].ends_with("paragraph"));
    assert!(records_table(&vec![], &columns).is_none());
}

#[test]
fn object_text_aligns_headers() {
    let v = obj(vec![("id", s("p1")), ("url", s("https://x"))]);
    let fields = vec![Column::new("ID", Field::Id), Column::new("URL", Field::Url), Column::new("Edited", Field::LastEdited)];
    let text = object_text(&v, &fields);
    assert_eq!(text, "ID      p1\nURL     https://x\nEdited  -\n");
}

#[test]
fn ascii_slugs_are_shaped_and_stable() {
    for title in ["Hello, World!", "--a--b--", "!!!", "", "Rust 2024 -- Notes", "x"] {
        let r = slugify(title);
        assert!(!r.is_empty());
        assert!(r.chars().all(|c| c.is_ascii_lowercase() || c.is_ascii_digit() || c == '-'));
        assert!(!r.starts_with('-') && !r.ends_with('-') && !r.contains("--"));
        assert_eq!(slugify(&r), r);
    }
    assert_eq!(slugify("!!!"), "untitled");
    assert_eq!(slugify("--a--b--"), "a-b");
}

/// All the children of a block, in one page.
fn children_of(id: &str) -> Vec<Block> {
    match id {
        "top" => vec![block("p", true), block("q", true), block("r", false)],
        "p" => vec![block("p1", true)],
        "p1" => vec![block("p1a", false), block("p1b", false)],
        "q" => vec![block("q1", false)],
        other => panic!("unexpected fetch {:?}", other),
    }
}

#[test]
fn children_walk_answered_in_single_pages_is_preorder() {
    let mut walk = ChildrenWalk::new("top");
    loop {
        match walk.next_step() {
            WalkStep::Fetch { block_id, cursor } => {
                assert!(cursor.is_none());
                walk.receive(children_of(&block_id), false, None);
            }
            WalkStep::Done => break,
        }
    }
    let ids: Vec<&str> = walk.out.iter().map(|b| b.id.as_str()).collect();
    assert_eq!(ids, vec!["p", "p1", "p1a", "p1b", "q", "q1", "r"]);
}
