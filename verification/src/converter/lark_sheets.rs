//! Tables to and from CSV, the exchange format of Lark/Feishu Sheets and
//! spreadsheets.
//!
//! Reading and writing CSV is done by the `csv` crate; this module maps its
//! records to a universal table and back.
use crate::converter::{ConverterError, FromPlatform, ToPlatform};
use crate::ir::blocks::{blocks_view, SpecBlock, UniversalBlock};
use crate::ir::inline::{InlineElement, SpecInline};
use crate::ir::metadata::DocumentMetadata;
use crate::ir::style::StyleSheet;
use crate::ir::table::{rows_view, SpecCell, SpecRow, TableCell, TableRow, TableRowType};
use crate::ir::{Platform, UniversalDocument};
use vstd::prelude::*;

verus! {

broadcast use vstd::std_specs::vec::group_vec_axioms;

/// The records of a table of strings.
pub open spec fn string_table(rows: Seq<Vec<String>>) -> Seq<Seq<Seq<char>>> {
    Seq::new(rows.len(), |i: int| Seq::new(rows[i]@.len(), |j: int| rows[i]@[j]@))
}

/// What `csv::Reader::from_reader` reads from a text: the header record
/// followed by every other record, or the message of the first error.
pub uninterp spec fn csv_read(input: Seq<char>) -> Result<Seq<Seq<Seq<char>>>, Seq<char>>;

/// What `csv::Writer::from_writer` writes for the records in order, or the
/// message of the first error.
pub uninterp spec fn csv_written(records: Seq<Seq<Seq<char>>>) -> Result<Seq<char>, Seq<char>>;

/// Reads CSV text with `csv::Reader` (a header row, then the records); the
/// contract names the result. The header row is always there: on empty
/// input the reader gives an empty header record.
#[verifier::external_body]
fn read_csv(input: &str) -> (r: Result<Vec<Vec<String>>, String>)
    ensures
        match r {
            Ok(rows) => csv_read(input@) == Ok::<Seq<Seq<Seq<char>>>, Seq<char>>(string_table(rows@))
                && rows@.len() >= 1,
            Err(e) => csv_read(input@) == Err::<Seq<Seq<Seq<char>>>, Seq<char>>(e@),
        },
{
    let mut reader = csv::Reader::from_reader(input.as_bytes());
    let header = reader.headers().map_err(|e| e.to_string())?;
    let mut rows: Vec<Vec<String>> = vec![header.iter().map(|h| h.to_string()).collect()];
    for record in reader.records() {
        rows.push(record.map_err(|e| e.to_string())?.iter().map(|c| c.to_string()).collect());
    }
    Ok(rows)
}

/// Writes records as CSV text with `csv::Writer`; the contract names the
/// result.
#[verifier::external_body]
fn write_csv(records: &Vec<Vec<String>>) -> (r: Result<String, String>)
    ensures
        match r {
            Ok(t) => csv_written(string_table(records@)) == Ok::<Seq<char>, Seq<char>>(t@),
            Err(e) => csv_written(string_table(records@)) == Err::<Seq<char>, Seq<char>>(e@),
        },
{
    let mut wtr = csv::Writer::from_writer(vec![]);
    for record in records {
        wtr.write_record(record).map_err(|e| e.to_string())?;
    }
    let bytes = wtr.into_inner().map_err(|e| e.to_string())?;
    String::from_utf8(bytes).map_err(|e| e.to_string())
}

/// A cell holding one unstyled text run.
pub open spec fn text_cell(t: Seq<char>) -> SpecCell {
    SpecCell {
        content: seq![SpecInline::TextRun { content: t, style: None }],
        colspan: None,
        rowspan: None,
        style: None,
        align: None,
    }
}

/// The table rows of CSV records: the first record is the header row,
/// every other one a body row, each field a cell of plain text.
pub open spec fn sheet_rows(records: Seq<Seq<Seq<char>>>) -> Seq<SpecRow> {
    Seq::new(
        records.len(),
        |i: int|
            SpecRow {
                cells: Seq::new(records[i].len(), |j: int| text_cell(records[i][j])),
                row_type: if i == 0 {
                    TableRowType::Header
                } else {
                    TableRowType::Body
                },
                style: None,
            },
    )
}

/// Whether a document holds just the table of the records, with empty
/// metadata and style sheet.
pub open spec fn is_sheet_doc(doc: UniversalDocument, records: Seq<Seq<Seq<char>>>) -> bool {
    &&& blocks_view(doc.blocks@) == seq![SpecBlock::Table { rows: sheet_rows(records), header: None, style: None }]
    &&& doc.metadata.title is None
    &&& doc.metadata.properties@.len() == 0
    &&& doc.metadata.custom@.len() == 0
    &&& doc.metadata.source_platform is None
    &&& doc.styles.styles@.len() == 0
}

fn text_cell_of(t: &String) -> (c: TableCell)
    ensures
        c@ == text_cell(t@),
{
    let c = TableCell {
        content: vec![InlineElement::TextRun { content: t.clone(), style: None }],
        colspan: None,
        rowspan: None,
        style: None,
        align: None,
    };
    assert(c@.content =~= text_cell(t@).content);
    c
}

/// The document holding one table made of CSV records: the first record
/// is the header row, the others body rows.
pub fn sheet_document(records: &Vec<Vec<String>>) -> (doc: UniversalDocument)
    ensures
        is_sheet_doc(doc, string_table(records@)),
{
    let ghost want = sheet_rows(string_table(records@));
    let mut rows: Vec<TableRow> = Vec::new();
    let mut i: usize = 0;
    while i < records.len()
        invariant
            i <= records.len(),
            want == sheet_rows(string_table(records@)),
            rows@.len() == i,
            forall|k: int| 0 <= k < i ==> (#[trigger] rows@[k])@ == want[k],
        decreases records.len() - i,
    {
        let rec = &records[i];
        let mut cells: Vec<TableCell> = Vec::new();
        let mut j: usize = 0;
        while j < rec.len()
            invariant
                j <= rec.len(),
                rec == records@[i as int],
                cells@.len() == j,
                forall|k: int| 0 <= k < j ==> (#[trigger] cells@[k])@ == text_cell(rec@[k]@),
            decreases rec.len() - j,
        {
            cells.push(text_cell_of(&rec[j]));
            j = j + 1;
        }
        let row_type = if i == 0 {
            TableRowType::Header
        } else {
            TableRowType::Body
        };
        let row = TableRow { cells, row_type, style: None };
        assert(row@.cells =~= want[i as int].cells);
        rows.push(row);
        i = i + 1;
    }
    let ghost rv = rows@;
    let table = UniversalBlock::Table { rows, header: None, style: None };
    assert(rows_view(rv) =~= want);
    let blocks = vec![table];
    let doc = UniversalDocument { metadata: DocumentMetadata::empty(), blocks, styles: StyleSheet::empty() };
    proof {
        crate::ir::blocks::lemma_blocks_view(doc.blocks@);
        assert(blocks_view(doc.blocks@) =~= seq![
            SpecBlock::Table { rows: sheet_rows(string_table(records@)), header: None, style: None },
        ]);
    }
    doc
}

/// The text of a cell: its text runs joined, other inline elements dropped.
pub open spec fn cell_text(content: Seq<SpecInline>) -> Seq<char>
    decreases content.len(),
{
    if content.len() == 0 {
        seq![]
    } else {
        cell_text(content.drop_last()) + match content.last() {
            SpecInline::TextRun { content: t, .. } => t,
            _ => seq![],
        }
    }
}

/// The records of the rows of one table, each cell as its text.
pub open spec fn row_records(rows: Seq<SpecRow>) -> Seq<Seq<Seq<char>>> {
    Seq::new(rows.len(), |i: int| Seq::new(rows[i].cells.len(), |j: int| cell_text(rows[i].cells[j].content)))
}

/// The records of a document: the rows of each of its tables in order;
/// other blocks are skipped.
pub open spec fn sheet_records(blocks: Seq<SpecBlock>) -> Seq<Seq<Seq<char>>>
    decreases blocks.len(),
{
    if blocks.len() == 0 {
        seq![]
    } else {
        sheet_records(blocks.drop_last()) + match blocks.last() {
            SpecBlock::Table { rows, .. } => row_records(rows),
            _ => seq![],
        }
    }
}

fn cell_record(cell: &TableCell) -> (s: String)
    ensures
        s@ == cell_text(cell@.content),
{
    let mut out: Vec<char> = Vec::new();
    let mut i: usize = 0;
    while i < cell.content.len()
        invariant
            i <= cell.content.len(),
            out@ == cell_text(cell@.content.take(i as int)),
        decreases cell.content.len() - i,
    {
        assert(cell@.content.take(i + 1).drop_last() =~= cell@.content.take(i as int));
        match &cell.content[i] {
            InlineElement::TextRun { content, .. } => {
                crate::text::extend_str(&mut out, content.as_str());
            },
            _ => {},
        }
        i = i + 1;
    }
    assert(cell@.content.take(cell.content.len() as int) =~= cell@.content);
    crate::text::string_of(&out)
}

/// Appending a record appends its view.
proof fn lemma_string_table_push(rows: Seq<Vec<String>>, r: Vec<String>)
    ensures
        string_table(rows.push(r)) == string_table(rows).push(Seq::new(r@.len(), |j: int| r@[j]@)),
{
    assert(string_table(rows.push(r)) =~= string_table(rows).push(Seq::new(r@.len(), |j: int| r@[j]@)));
}

/// Appends the records of a table's rows.
fn push_table_records(rows: &Vec<TableRow>, out: &mut Vec<Vec<String>>)
    ensures
        string_table(final(out)@) == string_table(old(out)@) + row_records(rows_view(rows@)),
{
    let ghost want = row_records(rows_view(rows@));
    let mut r: usize = 0;
    while r < rows.len()
        invariant
            r <= rows.len(),
            want == row_records(rows_view(rows@)),
            string_table(out@) == string_table(old(out)@) + want.take(r as int),
        decreases rows.len() - r,
    {
        let row = &rows[r];
        let mut rec: Vec<String> = Vec::new();
        let mut c: usize = 0;
        while c < row.cells.len()
            invariant
                c <= row.cells.len(),
                rec@.len() == c,
                forall|k: int| 0 <= k < c ==> (#[trigger] rec@[k])@ == cell_text(row.cells@[k]@.content),
            decreases row.cells.len() - c,
        {
            rec.push(cell_record(&row.cells[c]));
            c = c + 1;
        }
        proof {
            lemma_string_table_push(out@, rec);
            assert(Seq::new(rec@.len(), |j: int| rec@[j]@) =~= want[r as int]);
            assert(want.take(r + 1) =~= want.take(r as int).push(want[r as int]));
        }
        out.push(rec);
        r = r + 1;
    }
    assert(want.take(rows.len() as int) =~= want);
}

/// The CSV records of a document's tables, each cell as the text of its
/// text runs.
pub fn document_records(blocks: &Vec<UniversalBlock>) -> (r: Vec<Vec<String>>)
    ensures
        string_table(r@) == sheet_records(blocks_view(blocks@)),
{
    let ghost bv = blocks_view(blocks@);
    proof {
        crate::ir::blocks::lemma_blocks_view(blocks@);
    }
    let mut out: Vec<Vec<String>> = Vec::new();
    let mut i: usize = 0;
    while i < blocks.len()
        invariant
            i <= blocks.len(),
            bv == blocks_view(blocks@),
            bv.len() == blocks.len(),
            forall|q: int| 0 <= q < blocks.len() ==> #[trigger] bv[q] == blocks@[q]@,
            string_table(out@) == sheet_records(bv.take(i as int)),
        decreases blocks.len() - i,
    {
        assert(bv.take(i + 1).drop_last() =~= bv.take(i as int));
        match &blocks[i] {
            UniversalBlock::Table { rows, .. } => {
                push_table_records(rows, &mut out);
            },
            _ => {
                assert(string_table(out@) =~= sheet_records(bv.take(i + 1)));
            },
        }
        i = i + 1;
    }
    assert(bv.take(blocks.len() as int) =~= bv);
    out
}

/// Lark/Feishu Sheets and CSV adapter.
pub struct LarkSheetAdapter;

impl FromPlatform for LarkSheetAdapter {
    const PLATFORM: Platform = Platform::Sheets;

    type Input = String;

    open spec fn reads(input: String) -> bool {
        csv_read(input@) is Ok
    }

    open spec fn reads_as(input: String, doc: UniversalDocument) -> bool {
        csv_read(input@) matches Ok(records) && is_sheet_doc(doc, records)
    }

    fn from_platform(input: String) -> (r: Result<UniversalDocument, ConverterError>) {
        LarkSheetAdapter::from_platform(input)
    }
}

impl ToPlatform for LarkSheetAdapter {
    const PLATFORM: Platform = Platform::Sheets;

    type Output = String;

    open spec fn takes(doc: UniversalDocument) -> bool {
        true
    }

    open spec fn writes(doc: UniversalDocument) -> bool {
        csv_written(sheet_records(blocks_view(doc.blocks@))) is Ok
    }

    fn to_platform(doc: &UniversalDocument) -> (r: Result<String, ConverterError>) {
        LarkSheetAdapter::to_platform(doc)
    }
}

impl LarkSheetAdapter {
    /// Reads CSV text into a document holding one table: the header record
    /// becomes the header row and every other record a body row; a CSV
    /// error becomes `InvalidData` with the reader's message.
    pub fn from_platform(input: String) -> (r: Result<UniversalDocument, ConverterError>)
        ensures
            match csv_read(input@) {
                Ok(records) => r matches Ok(doc) && is_sheet_doc(doc, records),
                Err(m) => r matches Err(ConverterError::InvalidData(e)) && e@ == m,
            },
    {
        match read_csv(input.as_str()) {
            Ok(records) => Ok(sheet_document(&records)),
            Err(e) => Err(ConverterError::InvalidData(e)),
        }
    }

    /// Writes the rows of the document's tables as CSV records, each cell
    /// as the text of its text runs; a CSV error becomes `ConversionFailed`
    /// with the writer's message.
    pub fn to_platform(doc: &UniversalDocument) -> (r: Result<String, ConverterError>)
        ensures
            match csv_written(sheet_records(blocks_view(doc.blocks@))) {
                Ok(t) => r matches Ok(s) && s@ == t,
                Err(m) => r matches Err(ConverterError::ConversionFailed(e)) && e@ == m,
            },
    {
        let records = document_records(&doc.blocks);
        match write_csv(&records) {
            Ok(t) => Ok(t),
            Err(e) => Err(ConverterError::ConversionFailed(e)),
        }
    }
}

/// Sheet round trip: the records of the document read from CSV records
/// are those records, in order, each field intact.
pub proof fn lemma_sheet_round_trip(records: Seq<Seq<Seq<char>>>)
    ensures
        sheet_records(seq![SpecBlock::Table { rows: sheet_rows(records), header: None, style: None }]) == records,
{
    let t = SpecBlock::Table { rows: sheet_rows(records), header: None, style: None };
    let bs = seq![t];
    assert(bs.drop_last() =~= Seq::<SpecBlock>::empty());
    assert(bs.last() == t);
    let rows = sheet_rows(records);
    assert forall|i: int| 0 <= i < records.len() implies #[trigger] row_records(rows)[i] == records[i] by {
        assert forall|j: int| 0 <= j < records[i].len() implies cell_text(#[trigger] rows[i].cells[j].content) == records[i][j] by {
            let c = seq![SpecInline::TextRun { content: records[i][j], style: None }];
            assert(rows[i].cells[j].content == c);
            assert(c.drop_last() =~= Seq::<SpecInline>::empty());
            assert(cell_text(c.drop_last()) =~= Seq::<char>::empty());
            assert(cell_text(c) =~= records[i][j]);
        }
        assert(row_records(rows)[i] =~= records[i]);
    }
    assert(row_records(rows) =~= records);
    assert(sheet_records(bs) =~= sheet_records(bs.drop_last()) + row_records(rows));
}

} // verus!
