//! Document sync and conversion engine around a universal document model.
pub mod api;
pub mod cli;
pub mod converter;
pub mod error;
pub mod ir;
pub mod json;
pub mod mcp;
pub mod models;
pub mod text;
