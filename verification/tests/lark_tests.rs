use blink_md::converter::github_markdown::GithubMarkdownConverter;
use blink_md::converter::markdown::MarkdownConverter;
use blink_md::converter::{roundtrip, roundtrip_compare, FromPlatform, ToPlatform};
use blink_md::ir::Platform;
use blink_md::converter::lark_sheets::LarkSheetAdapter;
use blink_md::converter::ConverterError;
use blink_md::ir::blocks::UniversalBlock;
use blink_md::ir::inline::InlineElement;
use blink_md::ir::metadata::DocumentMetadata;
use blink_md::ir::style::StyleSheet;
use blink_md::ir::table::{TableCell, TableRow, TableRowType};
use blink_md::ir::UniversalDocument;

fn cell(t: &str) -> TableCell {
    TableCell {
        content: vec![InlineElement::TextRun { content: t.to_string(), style: None }],
        colspan: None,
        rowspan: None,
        style: None,
        align: None,
    }
}

#[test]
fn csv_reads_into_one_table_with_header_row() {
    let doc = LarkSheetAdapter::from_platform("Name,Age\nAlice,30\nBob,25\n".to_string()).unwrap();
    assert_eq!(doc.blocks.len(), 1);
    match &doc.blocks[0] {
        UniversalBlock::Table { rows, header, .. } => {
            assert!(header.is_none());
            assert_eq!(rows.len(), 3);
            assert!(matches!(rows[0].row_type, TableRowType::Header));
            assert!(matches!(rows[2].row_type, TableRowType::Body));
            match &rows[1].cells[0].content[0] {
                InlineElement::TextRun { content, .. } => assert_eq!(content, "Alice"),
                other => panic!("expected text, got {:?}", other),
            }
        }
        other => panic!("expected table, got {:?}", other),
    }
}

#[test]
fn empty_csv_gives_empty_header_row() {
    let doc = LarkSheetAdapter::from_platform(String::new()).unwrap();
    match &doc.blocks[0] {
        UniversalBlock::Table { rows, .. } => {
            assert_eq!(rows.len(), 1);
            assert!(rows[0].cells.is_empty());
        }
        other => panic!("expected table, got {:?}", other),
    }
}

#[test]
fn ragged_csv_is_invalid_data() {
    let r = LarkSheetAdapter::from_platform("a,b\n1,2,3\n".to_string());
    assert!(matches!(r, Err(ConverterError::InvalidData(_))));
}

#[test]
fn table_writes_as_csv() {
    let doc = UniversalDocument {
        metadata: DocumentMetadata::empty(),
        blocks: vec![
            UniversalBlock::Paragraph { content: vec![], style: None },
            UniversalBlock::Table {
                rows: vec![
                    TableRow { cells: vec![cell("A"), cell("B")], row_type: TableRowType::Header, style: None },
                    TableRow { cells: vec![cell("1"), cell("x,y")], row_type: TableRowType::Body, style: None },
                ],
                header: None,
                style: None,
            },
        ],
        styles: StyleSheet::empty(),
    };
    assert_eq!(LarkSheetAdapter::to_platform(&doc).unwrap(), "A,B\n1,\"x,y\"\n");
}

#[test]
fn ragged_table_fails_to_write() {
    let doc = UniversalDocument {
        metadata: DocumentMetadata::empty(),
        blocks: vec![UniversalBlock::Table {
            rows: vec![
                TableRow { cells: vec![cell("A"), cell("B")], row_type: TableRowType::Header, style: None },
                TableRow { cells: vec![cell("1")], row_type: TableRowType::Body, style: None },
            ],
            header: None,
            style: None,
        }],
        styles: StyleSheet::empty(),
    };
    assert!(matches!(LarkSheetAdapter::to_platform(&doc), Err(ConverterError::ConversionFailed(_))));
}

#[test]
fn csv_round_trips() {
    let csv = "h1,h2\nv1,v2\n";
    let doc = LarkSheetAdapter::from_platform(csv.to_string()).unwrap();
    assert_eq!(LarkSheetAdapter::to_platform(&doc).unwrap(), csv);
}

#[test]
fn roundtrip_through_the_converter_traits() {
    assert!(roundtrip::<LarkSheetAdapter, GithubMarkdownConverter>("a,b\n1,2\n".to_string()).is_ok());
    assert!(roundtrip_compare::<MarkdownConverter, LarkSheetAdapter>("# Title\n\ntext".to_string()).is_ok());
    assert!(roundtrip::<GithubMarkdownConverter, MarkdownConverter>("text".to_string()).is_ok());
    assert!(matches!(
        roundtrip::<LarkSheetAdapter, GithubMarkdownConverter>("a,b\n1,2,3\n".to_string()),
        Err(ConverterError::InvalidData(_))
    ));
    assert_eq!(<LarkSheetAdapter as FromPlatform>::PLATFORM, Platform::Sheets);
    assert_eq!(<MarkdownConverter as ToPlatform>::PLATFORM, Platform::Markdown);
    let doc = <MarkdownConverter as FromPlatform>::from_platform("hello".to_string()).unwrap();
    let md = <MarkdownConverter as ToPlatform>::to_platform(&doc).unwrap();
    assert_eq!(md, "hello");
}
