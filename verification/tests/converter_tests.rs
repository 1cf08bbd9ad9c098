use blink_md::converter::markdown::{bridge_notion_block_to_universal, escape_cell, render_inline, MarkdownConverter};
use blink_md::converter::notion::{block_ir_to_notion, property_value_from_ir, rich_text_to_ir, table_rows_to_ir};
use blink_md::ir::blocks::UniversalBlock;
use blink_md::ir::inline::{InlineElement, TextStyle};
use blink_md::ir::metadata::{DocumentMetadata, PropertyValue};
use blink_md::ir::style::StyleSheet;
use blink_md::ir::table::{CellAlignment, TableCell, TableRow, TableRowType};
use blink_md::ir::UniversalDocument;
use blink_md::json::JsonValue;
use blink_md::models::block::{BlockType, TableRowContent};
use blink_md::models::common::{RichText, TextContent};

fn now() -> String {
    "2024-01-01T00:00:00Z".to_string()
}

fn run(content: &str, style: Option<TextStyle>) -> InlineElement {
    InlineElement::TextRun { content: content.to_string(), style }
}

fn ir_cell(text: &str) -> TableCell {
    TableCell { content: vec![run(text, None)], colspan: None, rowspan: None, style: None, align: None }
}

fn notion_cell(text: &str) -> Vec<RichText> {
    vec![RichText::Text {
        text: TextContent { content: text.to_string(), link: None },
        annotations: None,
        plain_text: Some(text.to_string()),
        href: None,
    }]
}

fn cell_text(cell: &TableCell) -> String {
    let mut s: Vec<char> = Vec::new();
    render_inline(&cell.content, &mut s);
    s.into_iter().collect()
}

fn doc(blocks: Vec<UniversalBlock>) -> UniversalDocument {
    UniversalDocument { metadata: DocumentMetadata::empty(), blocks, styles: StyleSheet::empty() }
}

fn s(v: &str) -> JsonValue {
    JsonValue::String(v.to_string())
}

fn obj(entries: Vec<(&str, JsonValue)>) -> JsonValue {
    JsonValue::Object(entries.into_iter().map(|(k, v)| (k.to_string(), v)).collect())
}

#[test]
fn test_markdown_to_universal_ir() {
    let md = "# Heading 1\nHello **bold**";
    let doc = MarkdownConverter::from_platform(md.to_string()).unwrap();
    assert_eq!(doc.blocks.len(), 2);
    match &doc.blocks[0] {
        UniversalBlock::Heading { level, .. } => assert_eq!(*level, 1),
        _ => panic!("Expected heading"),
    }
    match &doc.blocks[1] {
        UniversalBlock::Paragraph { content, .. } => {
            assert_eq!(content.len(), 2);
            if let InlineElement::TextRun { style: Some(style), .. } = &content[1] {
                assert_eq!(style.bold, Some(true));
            } else {
                panic!("Expected text run with bold style");
            }
        }
        _ => panic!("Expected paragraph"),
    }
}

#[test]
fn test_universal_ir_to_markdown() {
    let d = doc(vec![
        UniversalBlock::Heading { level: 1, content: vec![run("Title", None)], style: None },
        UniversalBlock::Paragraph {
            content: vec![run("Body", Some(TextStyle { bold: Some(true), ..TextStyle::default() }))],
            style: None,
        },
    ]);
    let md = MarkdownConverter::to_platform(&d).unwrap();
    assert_eq!(md, "# Title\n**Body**");
}

#[test]
fn parses_gfm_table_into_ir() {
    let md = "| Name | Age |\n| --- | --- |\n| Alice | 30 |\n| Bob | 25 |";
    let doc = MarkdownConverter::from_platform(md.to_string()).unwrap();
    let table = doc
        .blocks
        .iter()
        .find_map(|b| match b {
            UniversalBlock::Table { rows, .. } => Some(rows),
            _ => None,
        })
        .expect("expected a table block");
    assert_eq!(table.len(), 3);
    assert!(matches!(table[0].row_type, TableRowType::Header));
    assert!(matches!(table[1].row_type, TableRowType::Body));
    assert_eq!(table[0].cells.len(), 2);
    assert_eq!(cell_text(&table[0].cells[0]), "Name");
    assert_eq!(cell_text(&table[2].cells[1]), "25");
}

#[test]
fn renders_ir_table_to_gfm() {
    let mut age = ir_cell("Age");
    age.align = Some(CellAlignment::Right);
    let d = doc(vec![UniversalBlock::Table {
        rows: vec![
            TableRow { cells: vec![ir_cell("Name"), age], row_type: TableRowType::Header, style: None },
            TableRow { cells: vec![ir_cell("Alice"), ir_cell("30")], row_type: TableRowType::Body, style: None },
        ],
        header: None,
        style: None,
    }]);
    let md = MarkdownConverter::to_platform(&d).unwrap();
    assert_eq!(md, "| Name | Age |\n| --- | ---: |\n| Alice | 30 |");
}

#[test]
fn table_roundtrips_through_ir() {
    let md = "| A | B |\n| --- | --- |\n| 1 | 2 |";
    let doc = MarkdownConverter::from_platform(md.to_string()).unwrap();
    let out = MarkdownConverter::to_platform(&doc).unwrap();
    assert_eq!(out, md);
}

#[test]
fn escapes_pipes_in_cells() {
    assert_eq!(escape_cell("a|b"), "a\\|b");
    assert_eq!(escape_cell("line1\nline2"), "line1 line2");
}

#[test]
fn markdown_lists_and_quotes_round_trip() {
    let md = "- one\n- two\n\n> quoted";
    let doc = MarkdownConverter::from_platform(md.to_string()).unwrap();
    assert!(matches!(doc.blocks[0], UniversalBlock::BulletList { .. }));
    let out = MarkdownConverter::to_platform(&doc).unwrap();
    assert!(out.contains("- one"));
    assert!(out.contains("> quoted"));
}

#[test]
fn ir_table_converts_to_notion_table_block() {
    let table = UniversalBlock::Table {
        rows: vec![
            TableRow { cells: vec![ir_cell("Name"), ir_cell("Age")], row_type: TableRowType::Header, style: None },
            TableRow { cells: vec![ir_cell("Alice"), ir_cell("30")], row_type: TableRowType::Body, style: None },
        ],
        header: None,
        style: None,
    };
    let block = block_ir_to_notion(&table, &now()).unwrap();
    match block.block_type {
        BlockType::Table { table } => {
            assert_eq!(table.table_width, 2);
            assert!(table.has_column_header);
            let children = table.children.expect("rows");
            assert_eq!(children.len(), 2);
            assert!(matches!(children[0].block_type, BlockType::TableRow { .. }));
        }
        other => panic!("expected Table, got {:?}", other),
    }
}

#[test]
fn flattened_notion_rows_group_into_single_ir_table() {
    let rows = vec![
        TableRowContent { cells: vec![notion_cell("Name"), notion_cell("Age")] },
        TableRowContent { cells: vec![notion_cell("Alice"), notion_cell("30")] },
    ];
    let block = table_rows_to_ir(true, &rows);
    match block {
        UniversalBlock::Table { rows, .. } => {
            assert_eq!(rows.len(), 2);
            assert!(matches!(rows[0].row_type, TableRowType::Header));
            assert!(matches!(rows[1].row_type, TableRowType::Body));
            let mut s = String::new();
            for el in &rows[1].cells[0].content {
                if let InlineElement::TextRun { content, .. } = el {
                    s.push_str(content);
                }
            }
            assert_eq!(s, "Alice");
        }
        other => panic!("expected Table, got {:?}", other),
    }
}

#[test]
fn ragged_ir_rows_are_padded_to_table_width() {
    let table = UniversalBlock::Table {
        rows: vec![
            TableRow {
                cells: vec![ir_cell("A"), ir_cell("B"), ir_cell("C")],
                row_type: TableRowType::Header,
                style: None,
            },
            TableRow { cells: vec![ir_cell("1")], row_type: TableRowType::Body, style: None },
        ],
        header: None,
        style: None,
    };
    let block = block_ir_to_notion(&table, &now()).unwrap();
    match block.block_type {
        BlockType::Table { table } => {
            assert_eq!(table.table_width, 3);
            let children = table.children.expect("rows");
            for child in &children {
                match &child.block_type {
                    BlockType::TableRow { table_row } => assert_eq!(table_row.cells.len(), 3),
                    other => panic!("expected TableRow, got {:?}", other),
                }
            }
        }
        other => panic!("expected Table, got {:?}", other),
    }
}

#[test]
fn custom_property_emits_body_without_double_wrapping() {
    let body = obj(vec![("people", JsonValue::Array(vec![obj(vec![("id", s("u1"))])]))]);
    let custom = PropertyValue::Custom { key: "People".to_string(), value: body };
    let json = property_value_from_ir(&custom).unwrap();
    assert_eq!(json, obj(vec![("people", JsonValue::Array(vec![obj(vec![("id", s("u1"))])]))]));
}

#[test]
fn paragraph_converts_to_notion_paragraph() {
    let p = UniversalBlock::Paragraph { content: vec![run("hi", None)], style: None };
    let block = block_ir_to_notion(&p, &now()).unwrap();
    assert_eq!(block.created_time, now());
    assert!(matches!(block.block_type, BlockType::Paragraph { .. }));
}

#[test]
fn unmapped_block_keeps_its_whole_record() {
    let code = UniversalBlock::CodeBlock {
        language: Some("rust".to_string()),
        content: "fn x() {}".to_string(),
        style: None,
    };
    let notion = block_ir_to_notion(&code, &now()).unwrap();
    match &bridge_notion_block_to_universal(&notion) {
        UniversalBlock::Raw { data: JsonValue::Object(members), .. } => {
            let keys: Vec<&str> = members.iter().map(|(k, _)| k.as_str()).collect();
            assert_eq!(
                keys,
                vec![
                    "object", "id", "created_time", "last_edited_time", "created_by", "last_edited_by",
                    "has_children", "in_trash", "parent", "type", "code"
                ]
            );
            let code = &members[10].1;
            let text = format!("{:?}", code);
            assert!(text.contains("fn x() {}"));
            assert!(text.contains("rust"));
        }
        other => panic!("unexpected {:?}", other),
    }
}

#[test]
fn unwritable_property_names_its_kind() {
    let p = PropertyValue::CreatedBy { created_by: "u1".to_string() };
    match property_value_from_ir(&p) {
        Err(blink_md::converter::ConverterError::ConversionFailed(m)) => {
            assert_eq!(m, "Property type not yet implemented: created_by")
        }
        other => panic!("unexpected {:?}", other),
    }
}

#[test]
fn rich_text_of_joined_spans_is_the_joined_rich_text() {
    let mut a = notion_cell("x");
    a.extend(notion_cell("y"));
    let b = notion_cell("z");
    let mut ab = notion_cell("x");
    ab.extend(notion_cell("y"));
    ab.extend(notion_cell("z"));
    let whole = rich_text_to_ir(&ab);
    let mut parts = rich_text_to_ir(&a);
    parts.extend(rich_text_to_ir(&b));
    assert_eq!(whole.len(), 3);
    assert_eq!(format!("{:?}", whole), format!("{:?}", parts));
    let texts: Vec<String> = whole
        .iter()
        .map(|e| match e {
            InlineElement::TextRun { content, .. } => content.clone(),
            _ => String::new(),
        })
        .collect();
    assert_eq!(texts, vec!["x".to_string(), "y".to_string(), "z".to_string()]);
}
