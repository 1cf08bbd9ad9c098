use blink_md::mcp::cli::{command_outcome_of, dry_run_result};
use blink_md::api::trash::Resource;
use blink_md::json::JsonValue;
use blink_md::mcp::schema::{error, invalid_args, success, SchemaBuilder, ToolError};
use blink_md::mcp::tools::{
    parse_resource, CreatePageTool, ListDiagramTypesTool, ListLarkPlatformsTool, ListPlatformsTool, ParseMarkdownTool,
    RenderMermaidSvgTool, TrashTool,
};

fn member<'a>(v: &'a JsonValue, key: &str) -> &'a JsonValue {
    v.get(key).expect("member")
}

fn is_object(v: &JsonValue) -> bool {
    matches!(v, JsonValue::Object(_))
}

fn array_len(v: &JsonValue) -> usize {
    match v {
        JsonValue::Array(a) => a.len(),
        other => panic!("expected array, got {:?}", other),
    }
}

fn sample_schema() -> JsonValue {
    SchemaBuilder::new()
        .param("name", "The name")
        .optional_param("description", "Optional description")
        .object_param("data", "Data object")
        .build()
}

#[test]
fn schema_builder_tracks_required_fields() {
    let schema = sample_schema();
    let props = member(&schema, "properties");
    assert!(is_object(member(props, "name")));
    assert!(is_object(member(props, "description")));
    assert!(is_object(member(props, "data")));
    assert_eq!(array_len(member(&schema, "required")), 2);
}

#[test]
fn test_schema_builder() {
    let schema = sample_schema();
    let props = member(&schema, "properties");
    assert!(is_object(member(props, "name")));
    assert!(is_object(member(props, "description")));
    assert!(is_object(member(props, "data")));
    assert_eq!(array_len(member(&schema, "required")), 2);
}

#[test]
fn test_success_response() {
    let result = success(JsonValue::Object(vec![("key".to_string(), JsonValue::String("value".to_string()))]));
    assert!(result.is_ok());
    assert_eq!(member(&result.unwrap(), "key"), &JsonValue::String("value".to_string()));
}

#[test]
fn test_error_response() {
    let result = error("something went wrong");
    assert!(result.is_err());
}

#[test]
fn schema_parameter_shapes() {
    let schema = SchemaBuilder::new().optional_bool_param("flag", "A flag").optional_array_param("rows", "Rows").build();
    let props = member(&schema, "properties");
    assert_eq!(member(member(props, "flag"), "type"), &JsonValue::String("boolean".to_string()));
    assert_eq!(member(member(props, "rows"), "type"), &JsonValue::String("array".to_string()));
    assert_eq!(array_len(member(&schema, "required")), 0);
}

#[test]
fn re_adding_a_parameter_replaces_it() {
    let schema = SchemaBuilder::new().param("x", "first").param("x", "second").build();
    match member(&schema, "properties") {
        JsonValue::Object(m) => assert_eq!(m.len(), 1),
        other => panic!("expected object, got {:?}", other),
    }
    assert_eq!(member(member(member(&schema, "properties"), "x"), "description"), &JsonValue::String("second".to_string()));
}

#[test]
fn invalid_args_joins_context_and_error() {
    assert_eq!(invalid_args("Invalid args", "missing field `id`"), ToolError::Validation("Invalid args: missing field `id`".to_string()));
}

#[test]
fn resources_read_in_any_case() {
    assert_eq!(parse_resource("Page"), Ok(Resource::Page));
    assert_eq!(parse_resource("WEBHOOK"), Ok(Resource::Webhook));
    assert_eq!(
        parse_resource("Table"),
        Err(ToolError::Validation("Unknown resource 'table' (expected page|block|view|webhook)".to_string()))
    );
}

#[test]
fn tool_metadata() {
    assert_eq!(ParseMarkdownTool::metadata().name, "parse_markdown");
    assert_eq!(TrashTool::metadata().name, "notion_trash");
    let create = CreatePageTool::metadata();
    assert_eq!(array_len(member(&create.input_schema, "required")), 3);
}

#[test]
fn tool_answers() {
    let parsed = ParseMarkdownTool::answer("# Title\n\ntext");
    assert_eq!(array_len(member(&parsed, "blocks")), 2);
    assert_eq!(
        member(&CreatePageTool::parent("page_id", "p1"), "page_id"),
        &JsonValue::String("p1".to_string())
    );
    assert_eq!(array_len(member(&ListPlatformsTool::answer(), "platforms")), 9);
    assert_eq!(member(&ListLarkPlatformsTool::answer(), "csv_import_export"), &JsonValue::Bool(true));
    assert_eq!(member(&RenderMermaidSvgTool::answer("<svg/>".to_string()), "format"), &JsonValue::String("svg".to_string()));
}

#[test]
fn dry_run_reports_the_command_line() {
    let v = dry_run_result("jules", &["list".to_string(), "--all".to_string()]);
    assert_eq!(
        v,
        JsonValue::Object(vec![
            ("dry_run".to_string(), JsonValue::Bool(true)),
            ("command".to_string(), JsonValue::String("jules list --all".to_string())),
        ])
    );
    let w = dry_run_result("jules", &[]);
    assert_eq!(
        w,
        JsonValue::Object(vec![
            ("dry_run".to_string(), JsonValue::Bool(true)),
            ("command".to_string(), JsonValue::String("jules ".to_string())),
        ])
    );
}

#[test]
fn command_outcome_trims_output_and_names_silent_failures() {
    assert_eq!(
        command_outcome_of("x", true, "  out\n", "ignored"),
        Ok(JsonValue::Object(vec![("stdout".to_string(), JsonValue::String("out".to_string()))]))
    );
    assert_eq!(command_outcome_of("x", false, "", "  bad thing \n"), Err("bad thing".to_string()));
    assert_eq!(command_outcome_of("x", false, "", " \n"), Err("x command failed with no error message".to_string()));
}

fn strings(xs: &[&str]) -> JsonValue {
    JsonValue::Array(xs.iter().map(|x| JsonValue::String(x.to_string())).collect())
}

#[test]
fn diagram_types_and_platforms_are_listed_whole() {
    assert_eq!(
        ListDiagramTypesTool::answer(),
        JsonValue::Object(vec![
            (
                "diagram_types".to_string(),
                strings(&[
                    "flowchart", "sequenceDiagram", "classDiagram", "stateDiagram-v2", "erDiagram", "gantt", "pie",
                    "gitGraph", "journey", "timeline", "mindmap", "quadrantChart", "xychart",
                ])
            ),
            ("directions".to_string(), strings(&["TD", "TB", "BT", "LR", "RL"])),
        ])
    );
    assert_eq!(
        ListPlatformsTool::answer(),
        JsonValue::Object(vec![
            (
                "platforms".to_string(),
                strings(&["notion", "markdown", "sheets", "github", "lark", "google_docs", "pdf", "html", "docx"])
            ),
            ("source_formats".to_string(), strings(&["markdown", "csv"])),
            ("target_formats".to_string(), strings(&["markdown", "notion", "json"])),
        ])
    );
}

#[test]
fn tool_schema_lists_each_parameter() {
    let t = TrashTool::metadata();
    let prop = |ty: &str, d: &str| {
        JsonValue::Object(vec![
            ("type".to_string(), JsonValue::String(ty.to_string())),
            ("description".to_string(), JsonValue::String(d.to_string())),
        ])
    };
    assert_eq!(
        t.input_schema,
        JsonValue::Object(vec![
            ("type".to_string(), JsonValue::String("object".to_string())),
            (
                "properties".to_string(),
                JsonValue::Object(vec![
                    ("resource".to_string(), prop("string", "Resource type: page, block, view, or webhook")),
                    ("id".to_string(), prop("string", "The resource ID")),
                    ("restore".to_string(), prop("string", "Set to true to restore instead of trash")),
                ])
            ),
            ("required".to_string(), strings(&["resource", "id"])),
        ])
    );
}
