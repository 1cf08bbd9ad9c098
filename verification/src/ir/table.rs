//! Table structures.
use crate::ir::inline::{copy_inlines, inlines_view, InlineElement, SpecInline};
use crate::ir::style::{copy_opt_ref, opt_ref, StyleRef};
use vstd::prelude::*;

verus! {

/// Table cell.
#[derive(Debug, Clone)]
pub struct TableCell {
    pub content: Vec<InlineElement>,
    pub colspan: Option<u32>,
    pub rowspan: Option<u32>,
    pub style: Option<StyleRef>,
    pub align: Option<CellAlignment>,
}

/// Cell alignment.
#[derive(Debug, Clone, Copy, PartialEq, Eq)]
pub enum CellAlignment {
    Left,
    Center,
    Right,
}

/// Row type for header vs body.
#[derive(Debug, Clone, Copy, PartialEq, Eq)]
pub enum TableRowType {
    Header,
    Body,
}

/// Table row.
#[derive(Debug, Clone)]
pub struct TableRow {
    pub cells: Vec<TableCell>,
    pub row_type: TableRowType,
    pub style: Option<StyleRef>,
}

/// The content of a [`TableCell`].
pub struct SpecCell {
    pub content: Seq<SpecInline>,
    pub colspan: Option<u32>,
    pub rowspan: Option<u32>,
    pub style: Option<Seq<char>>,
    pub align: Option<CellAlignment>,
}

impl View for TableCell {
    type V = SpecCell;

    open spec fn view(&self) -> SpecCell {
        SpecCell {
            content: inlines_view(self.content@),
            colspan: self.colspan,
            rowspan: self.rowspan,
            style: opt_ref(self.style),
            align: self.align,
        }
    }
}

/// The contents of a sequence of cells.
pub open spec fn cells_view(s: Seq<TableCell>) -> Seq<SpecCell> {
    Seq::new(s.len(), |i: int| s[i]@)
}

/// The content of a [`TableRow`].
pub struct SpecRow {
    pub cells: Seq<SpecCell>,
    pub row_type: TableRowType,
    pub style: Option<Seq<char>>,
}

impl View for TableRow {
    type V = SpecRow;

    open spec fn view(&self) -> SpecRow {
        SpecRow { cells: cells_view(self.cells@), row_type: self.row_type, style: opt_ref(self.style) }
    }
}

/// The contents of a sequence of rows.
pub open spec fn rows_view(s: Seq<TableRow>) -> Seq<SpecRow> {
    Seq::new(s.len(), |i: int| s[i]@)
}

impl TableCell {
    /// A copy of this cell.
    pub fn copy(&self) -> (c: Self)
        ensures
            c@ == self@,
    {
        TableCell {
            content: copy_inlines(self.content.as_slice()),
            colspan: self.colspan,
            rowspan: self.rowspan,
            style: copy_opt_ref(&self.style),
            align: self.align,
        }
    }
}

/// A copy of a sequence of cells.
pub fn copy_cells(v: &[TableCell]) -> (r: Vec<TableCell>)
    ensures
        cells_view(r@) == cells_view(v@),
{
    let mut out: Vec<TableCell> = Vec::new();
    let mut i: usize = 0;
    while i < v.len()
        invariant
            i <= v.len(),
            out.len() == i,
            forall|j: int| 0 <= j < i ==> (#[trigger] out@[j])@ == v@[j]@,
        decreases v.len() - i,
    {
        out.push(v[i].copy());
        i = i + 1;
    }
    assert(cells_view(out@) =~= cells_view(v@));
    out
}

impl TableRow {
    /// A copy of this row.
    pub fn copy(&self) -> (r: Self)
        ensures
            r@ == self@,
    {
        TableRow {
            cells: copy_cells(self.cells.as_slice()),
            row_type: self.row_type,
            style: copy_opt_ref(&self.style),
        }
    }
}

} // verus!
