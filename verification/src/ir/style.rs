//! Named styles for consistent formatting across a document.
use crate::ir::inline::TextStyle;
use vstd::prelude::*;

verus! {

/// Collection of named styles; a name occurs once.
#[derive(Debug, Clone, Default)]
pub struct StyleSheet {
    pub styles: Vec<(String, Style)>,
}

impl StyleSheet {
    /// Whether each style name occurs once.
    pub open spec fn has_unique_names(&self) -> bool {
        forall|i: int, j: int|
            0 <= i < j < self.styles@.len() ==> (#[trigger] self.styles@[i]).0@ != (#[trigger] self.styles@[j]).0@
    }

    /// An empty style sheet.
    pub fn empty() -> (s: Self)
        ensures
            s.has_unique_names(),
            s.styles@.len() == 0,
    {
        StyleSheet { styles: Vec::new() }
    }
}

/// Reference to a named style.
#[derive(Debug, Clone)]
pub struct StyleRef {
    pub name: String,
}

impl StyleRef {
    /// A reference to the style called `name`.
    pub fn new(name: String) -> (r: Self)
        ensures
            r.name@ == name@,
    {
        StyleRef { name }
    }
}

/// The name referred to by an optional style reference.
pub open spec fn opt_ref(s: Option<StyleRef>) -> Option<Seq<char>> {
    match s {
        Some(r) => Some(r.name@),
        None => None,
    }
}

/// A copy of an optional style reference.
pub fn copy_opt_ref(s: &Option<StyleRef>) -> (r: Option<StyleRef>)
    ensures
        opt_ref(r) == opt_ref(*s),
{
    match s {
        Some(x) => Some(StyleRef { name: x.name.clone() }),
        None => None,
    }
}

/// Named style definition.
#[derive(Debug, Clone)]
pub struct Style {
    pub name: String,
    pub kind: StyleKind,
}

#[derive(Debug, Clone)]
pub enum StyleKind {
    Text(TextStyle),
    Block(BlockStyle),
    Code(CodeStyle),
    Table(TableStyle),
}

/// Block-level style.
#[derive(Debug, Clone, Default)]
pub struct BlockStyle {
    pub background_color: Option<String>,
    pub border: Option<BorderStyle>,
    pub padding: Option<Spacing>,
    pub margin: Option<Spacing>,
    pub alignment: Option<BlockAlignment>,
}

/// An IEEE-754 binary32 value, held by its bit pattern.
#[derive(Debug, Clone, Copy, PartialEq, Eq)]
pub struct SingleBits {
    pub bits: u32,
}

#[derive(Debug, Clone)]
pub struct BorderStyle {
    pub width: SingleBits,
    pub color: String,
    pub radius: Option<SingleBits>,
}

#[derive(Debug, Clone)]
pub struct Spacing {
    pub top: SingleBits,
    pub right: SingleBits,
    pub bottom: SingleBits,
    pub left: SingleBits,
}

#[derive(Debug, Clone, Copy, PartialEq, Eq)]
pub enum BlockAlignment {
    Left,
    Center,
    Right,
    Justify,
}

/// Code block style.
#[derive(Debug, Clone, Default)]
pub struct CodeStyle {
    pub language: Option<String>,
    pub theme: Option<String>,
    pub line_numbers: Option<bool>,
    pub wrap: Option<bool>,
}

/// Table style.
#[derive(Debug, Clone, Default)]
pub struct TableStyle {
    pub header_row: Option<bool>,
    pub striped: Option<bool>,
    pub bordered: Option<bool>,
    pub compact: Option<bool>,
    pub column_widths: Option<Vec<u32>>,
}

} // verus!
