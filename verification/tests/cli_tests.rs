use blink_md::cli::export_cmd::{notion_properties_to_ir, notion_property_to_ir, plain_text, slugify};
use blink_md::cli::output::{field_id, field_object, field_title, field_url, render_table};
use blink_md::cli::sync_cmd::ensure_title;
use blink_md::ir::metadata::PropertyValue;
use blink_md::json::{DoubleBits, JsonNumber, JsonValue};

fn s(v: &str) -> JsonValue {
    JsonValue::String(v.to_string())
}

fn obj(entries: Vec<(&str, JsonValue)>) -> JsonValue {
    JsonValue::Object(entries.into_iter().map(|(k, v)| (k.to_string(), v)).collect())
}

fn num(f: f64) -> JsonValue {
    JsonValue::Number(JsonNumber::from_double(DoubleBits { bits: f.to_bits() }))
}

fn lookup<'a>(props: &'a [(String, PropertyValue)], key: &str) -> Option<&'a PropertyValue> {
    props.iter().find(|(k, _)| k == key).map(|(_, v)| v)
}

fn at<'a>(v: &'a JsonValue, key: &str) -> &'a JsonValue {
    v.get(key).expect("member")
}

fn idx(v: &JsonValue, i: usize) -> &JsonValue {
    match v {
        JsonValue::Array(a) => &a[i],
        other => panic!("expected array, got {:?}", other),
    }
}

#[test]
fn slugify_basic() {
    assert_eq!(slugify("Hello, World!"), "hello-world");
    assert_eq!(slugify("  Spaced  Out  "), "spaced-out");
    assert_eq!(slugify("***"), "untitled");
    assert_eq!(slugify(""), "untitled");
}

#[test]
fn slugify_keeps_digits_and_lowercases_unicode() {
    assert_eq!(slugify("Über 2 Fast"), "über-2-fast");
    assert_eq!(slugify("a--b"), "a-b");
}

#[test]
fn maps_common_property_types() {
    let props = obj(vec![
        ("Name", obj(vec![("type", s("title")), ("title", JsonValue::Array(vec![obj(vec![("plain_text", s("Hi"))])]))])),
        ("Score", obj(vec![("type", s("number")), ("number", num(42.0))])),
        (
            "Tags",
            obj(vec![
                ("type", s("multi_select")),
                ("multi_select", JsonValue::Array(vec![obj(vec![("name", s("a"))]), obj(vec![("name", s("b"))])])),
            ]),
        ),
        ("Done", obj(vec![("type", s("checkbox")), ("checkbox", JsonValue::Bool(true))])),
        ("Link", obj(vec![("type", s("url")), ("url", s("https://example.com"))])),
    ]);
    let mapped = notion_properties_to_ir(&props);

    assert!(matches!(lookup(&mapped, "Name"), Some(PropertyValue::Title { .. })));
    assert!(matches!(
        lookup(&mapped, "Score"),
        Some(PropertyValue::Number { number: Some(n) }) if (f64::from_bits(n.bits) - 42.0).abs() < f64::EPSILON
    ));
    match lookup(&mapped, "Tags") {
        Some(PropertyValue::MultiSelect { multi_select }) => {
            assert_eq!(multi_select.len(), 2);
            assert_eq!(multi_select[0].name, "a");
        }
        other => panic!("expected MultiSelect, got {:?}", other),
    }
    assert!(matches!(lookup(&mapped, "Done"), Some(PropertyValue::Checkbox { checkbox: true })));
    assert!(matches!(lookup(&mapped, "Link"), Some(PropertyValue::Url { url: Some(_) })));
}

#[test]
fn unknown_type_falls_back_to_custom() {
    let props = obj(vec![(
        "People",
        obj(vec![("type", s("people")), ("people", JsonValue::Array(vec![obj(vec![("id", s("u1"))])]))]),
    )]);
    let mapped = notion_properties_to_ir(&props);
    assert!(matches!(lookup(&mapped, "People"), Some(PropertyValue::Custom { .. })));
}

#[test]
fn property_without_type_is_custom() {
    let p = notion_property_to_ir("X", &obj(vec![("value", s("v"))]));
    assert!(matches!(p, PropertyValue::Custom { .. }));
}

#[test]
fn plain_text_joins_spans() {
    let a = JsonValue::Array(vec![obj(vec![("plain_text", s("Hel"))]), obj(vec![("plain_text", s("lo"))])]);
    assert_eq!(plain_text(Some(&a)), "Hello");
    assert_eq!(plain_text(None), "");
}

#[test]
fn table_aligns_columns() {
    let out = render_table(
        &["ID", "Name"],
        &[vec!["1".to_string(), "Alice".to_string()], vec!["22".to_string(), "Bob".to_string()]],
    );
    let lines: Vec<&str> = out.lines().collect();
    assert_eq!(lines[0], "ID | Name");
    assert_eq!(lines[1], "-- | -----");
    assert_eq!(lines[2], "1  | Alice");
    assert_eq!(lines[3], "22 | Bob");
}

#[test]
fn title_from_named_property_column() {
    let page = obj(vec![
        ("object", s("page")),
        ("id", s("p1")),
        (
            "properties",
            obj(vec![(
                "Name",
                obj(vec![("type", s("title")), ("title", JsonValue::Array(vec![obj(vec![("plain_text", s("Hello"))])]))]),
            )]),
        ),
    ]);
    assert_eq!(field_title(&page), "Hello");
    assert_eq!(field_id(&page), "p1");
    assert_eq!(field_object(&page), "page");
}

#[test]
fn title_falls_back_across_shapes() {
    let db = obj(vec![
        ("object", s("database")),
        ("title", JsonValue::Array(vec![obj(vec![("plain_text", s("My DB"))])])),
    ]);
    assert_eq!(field_title(&db), "My DB");
    let user = obj(vec![("object", s("user")), ("name", s("Alice"))]);
    assert_eq!(field_title(&user), "Alice");
    let bare = obj(vec![("object", s("page"))]);
    assert_eq!(field_title(&bare), "Untitled");
}

#[test]
fn json_array_round_trips_records() {
    let rows = [obj(vec![("id", s("a")), ("object", s("page"))])];
    let table = render_table(
        &["ID", "Type"],
        &rows.iter().map(|r| vec![field_id(r), field_object(r)]).collect::<Vec<_>>(),
    );
    assert!(table.contains("a"));
    assert!(table.contains("page"));
}

#[test]
fn missing_fields_show_a_dash() {
    let bare = obj(vec![]);
    assert_eq!(field_id(&bare), "-");
    assert_eq!(field_url(&bare), "-");
}

#[test]
fn wide_glyphs_stay_aligned() {
    let out = render_table(&["T"], &[vec!["中文".to_string()], vec!["x".to_string()]]);
    let lines: Vec<&str> = out.lines().collect();
    assert_eq!(lines[1], "----");
}

#[test]
fn table_without_rows_has_header_and_separator() {
    let out = render_table(&["Name"], &[]);
    assert_eq!(out, "Name\n----\n");
}

#[test]
fn ensure_title_adds_name_when_absent() {
    let mut props = obj(vec![("Score", obj(vec![("number", JsonValue::Number(JsonNumber::from_double(DoubleBits { bits: 1.0f64.to_bits() })))]))]);
    ensure_title(&mut props, "my-note");
    let content = at(at(idx(at(at(&props, "Name"), "title"), 0), "text"), "content");
    assert_eq!(content, &s("my-note"));
}

#[test]
fn ensure_title_preserves_existing_title() {
    let mut props = obj(vec![(
        "title",
        obj(vec![(
            "title",
            JsonValue::Array(vec![obj(vec![("text", obj(vec![("content", s("From Frontmatter"))]))])]),
        )]),
    )]);
    ensure_title(&mut props, "my-note");
    assert!(props.get("Name").is_none());
    let content = at(at(idx(at(at(&props, "title"), "title"), 0), "text"), "content");
    assert_eq!(content, &s("From Frontmatter"));
}

#[test]
fn repeated_property_name_is_kept_once_with_the_later_value() {
    let props = obj(vec![
        ("Done", obj(vec![("type", s("checkbox")), ("checkbox", JsonValue::Bool(false))])),
        ("Link", obj(vec![("type", s("url")), ("url", s("https://example.com"))])),
        ("Done", obj(vec![("type", s("checkbox")), ("checkbox", JsonValue::Bool(true))])),
    ]);
    let mapped = notion_properties_to_ir(&props);
    assert_eq!(mapped.len(), 2);
    assert_eq!(mapped[0].0, "Done");
    assert_eq!(mapped[1].0, "Link");
    assert!(matches!(mapped[0].1, PropertyValue::Checkbox { checkbox: true }));
}
