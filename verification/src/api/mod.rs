//! Request planning and text helpers behind the Notion API surface.
pub mod markdown;
pub mod markdown_frontmatter;
pub mod requests;
pub mod trash;
pub mod walk;
pub mod webhooks;
