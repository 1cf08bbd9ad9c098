//! Logic behind the command-line tools: file names for exported pages,
//! typed page properties, table output, format choice and colour themes.
pub mod convert;
pub mod diff;
pub mod export_cmd;
pub mod output;
pub mod sync_cmd;
pub mod theme;
pub mod tui;
