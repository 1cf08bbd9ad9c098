//! Universal document intermediate representation.
//!
//! Platform-agnostic document model for conversion between Notion, GitHub
//! Markdown, Lark, Google Docs, PDF, HTML, Docx and more.
pub mod blocks;
pub mod frontmatter;
pub mod inline;
pub mod metadata;
pub mod round_trip;
pub mod style;
pub mod table;

use crate::ir::blocks::UniversalBlock;
use vstd::prelude::*;

verus! {

/// Platform identifier.
#[derive(Debug, Clone, Copy, PartialEq, Eq, Hash)]
pub enum Platform {
    Notion,
    GitHub,
    Lark,
    GoogleDocs,
    Markdown,
    Pdf,
    Sheets,
    Html,
    Docx,
}

/// The universal document — root of all conversions.
#[derive(Debug)]
pub struct UniversalDocument {
    /// Document metadata (title, author, timestamps, properties).
    pub metadata: metadata::DocumentMetadata,
    /// Ordered sequence of blocks.
    pub blocks: Vec<UniversalBlock>,
    /// Named styles referenced by blocks.
    pub styles: style::StyleSheet,
}

} // verus!
