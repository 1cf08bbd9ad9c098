//! The tools of the blink-md Model Context Protocol server: their input
//! schemas, descriptions and the results they build.
pub mod cli;
pub mod schema;
pub mod tools;
