//! Notion API object model: rich text, users, blocks and pages.
pub mod block;
pub mod block_json;
pub mod common;
pub mod database;
pub mod page;
