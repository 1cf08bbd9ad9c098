# blink_md

A document sync and conversion engine between Notion, Lark sheets and
Markdown, built around a universal intermediate representation (IR), with
its logic written in Verus and proved against its contracts.

## Layout

- `src/` — the verified library.
  - `ir/` — the universal document model (blocks, inline text, tables,
    metadata and typed properties, styles) and the frontmatter property
    mapping, with its round-trip laws.
  - `converter/` — conversions between the IR and Notion blocks, Markdown
    (with and without frontmatter), GitHub Markdown and Lark sheets.
  - `api/` — Notion API requests and retry decisions, Markdown parsing into
    Notion blocks, frontmatter detection, webhook signature checks, and the
    depth-first walk over block children.
  - `models/` — Notion pages, databases, blocks and rich text, with their
    JSON encodings.
  - `cli/` — the decisions behind the command line: export file names,
    sync change detection, line diffs, table output, theme colours and the
    terminal UI's state machine.
  - `mcp/` — tool schemas and request handling for the MCP server.
  - `json.rs`, `text.rs` — JSON values and character-sequence helpers.
- `tests/` — tests of the library on concrete values.
- `app/` — the program around the library: argument handling, HTTP and
  file I/O, YAML and JSON text, terminal drawing, and the calls that only an
  outside crate can make.

Calls into outside crates that the logic needs (pulldown-cmark, chrono,
csv, hmac, subtle, hex, similar, unicode-width) stand behind small trusted
wrappers whose contracts say what the crate's source shows.
