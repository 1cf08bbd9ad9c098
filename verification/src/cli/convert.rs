//! Choosing the formats of a conversion between files.
use crate::text::{chars_eq_str, chars_of, extend_str, string_of};
use vstd::prelude::*;

verus! {

/// A format a document can be read from.
#[derive(Debug, Clone, Copy, PartialEq, Eq, Structural)]
pub enum SourceFormat {
    Markdown,
}

/// A format a document can be written to.
#[derive(Debug, Clone, Copy, PartialEq, Eq, Structural)]
pub enum TargetFormat {
    /// The universal document itself, as JSON.
    Json,
    Markdown,
    /// A Notion page-creation request, as JSON.
    Notion,
}

/// The format name used: the one given, else the file's extension, else
/// `fallback`.
pub open spec fn chosen_name(given: Option<Seq<char>>, extension: Option<Seq<char>>, fallback: Seq<char>) -> Seq<char> {
    match given {
        Some(g) => g,
        None => match extension {
            Some(e) => e,
            None => fallback,
        },
    }
}

/// Picks the format name: the one given, else the file's extension, else
/// `fallback`.
pub fn format_name(given: Option<String>, extension: Option<String>, fallback: &str) -> (r: String)
    ensures
        r@ == chosen_name(
            match given { Some(g) => Some(g@), None => None },
            match extension { Some(e) => Some(e@), None => None },
            fallback@,
        ),
{
    match given {
        Some(g) => g,
        None => match extension {
            Some(e) => e,
            None => String::from_str(fallback),
        },
    }
}

/// The message for a format that cannot be read.
pub open spec fn unsupported_source(name: Seq<char>) -> Seq<char> {
    "Unsupported source format: "@ + name
}

/// The message for a format that cannot be written.
pub open spec fn unsupported_target(name: Seq<char>) -> Seq<char> {
    "Unsupported target format: "@ + name
}

/// `prefix` followed by `name`.
fn prefixed(prefix: &str, name: &str) -> (r: String)
    ensures
        r@ == prefix@ + name@,
{
    let mut v = chars_of(prefix);
    extend_str(&mut v, name);
    string_of(&v)
}

/// The source format a name stands for: `markdown` or `md`; any other
/// name is refused with its message.
pub fn source_format(name: &str) -> (r: Result<SourceFormat, String>)
    ensures
        (name@ == "markdown"@ || name@ == "md"@) ==> r == Ok::<SourceFormat, String>(SourceFormat::Markdown),
        !(name@ == "markdown"@ || name@ == "md"@) ==> (r matches Err(m) && m@ == unsupported_source(name@)),
{
    let n = chars_of(name);
    if chars_eq_str(n.as_slice(), "markdown") || chars_eq_str(n.as_slice(), "md") {
        Ok(SourceFormat::Markdown)
    } else {
        Err(prefixed("Unsupported source format: ", name))
    }
}

/// The target format a name stands for: `json`, `markdown` or `md`, and
/// `notion`; any other name is refused with its message.
pub fn target_format(name: &str) -> (r: Result<TargetFormat, String>)
    ensures
        name@ == "json"@ ==> r == Ok::<TargetFormat, String>(TargetFormat::Json),
        (name@ == "markdown"@ || name@ == "md"@) ==> r == Ok::<TargetFormat, String>(TargetFormat::Markdown),
        name@ == "notion"@ ==> r == Ok::<TargetFormat, String>(TargetFormat::Notion),
        !(name@ == "json"@ || name@ == "markdown"@ || name@ == "md"@ || name@ == "notion"@) ==> (r matches Err(m)
            && m@ == unsupported_target(name@)),
{
    proof {
        reveal_strlit("json");
        reveal_strlit("markdown");
        reveal_strlit("md");
        reveal_strlit("notion");
        assert("json"@.len() == 4 && "markdown"@.len() == 8 && "md"@.len() == 2 && "notion"@.len() == 6);
    }
    let n = chars_of(name);
    if chars_eq_str(n.as_slice(), "json") {
        Ok(TargetFormat::Json)
    } else if chars_eq_str(n.as_slice(), "markdown") || chars_eq_str(n.as_slice(), "md") {
        Ok(TargetFormat::Markdown)
    } else if chars_eq_str(n.as_slice(), "notion") {
        Ok(TargetFormat::Notion)
    } else {
        Err(prefixed("Unsupported target format: ", name))
    }
}

} // verus!
