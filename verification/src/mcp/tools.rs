//! The tools: their metadata, and the answers they build from the
//! library's results.
use crate::api::markdown::{parse_markdown, ToMarkdown};
use crate::api::trash::Resource;
use crate::ir::metadata::push_member;
use crate::json::{json_views, member_views, JsonValue, SpecJson};
use crate::cli::sync_cmd::lemma_set_member_new;
use crate::mcp::schema::{names_view, param_schema, schema_json, SchemaBuilder, ToolError, ToolSpec};
use crate::models::block::{nblocks_view, Block};
use crate::models::block_json::{blocks_json, blocks_to_json};
use crate::text::{chars_of, extend_chars, extend_str, string_of};
use vstd::prelude::*;

verus! {

broadcast use vstd::std_specs::vec::group_vec_axioms;

fn spec_of(name: &str, description: &str, schema: SchemaBuilder) -> (t: ToolSpec)
    ensures
        t.name@ == name@,
        t.description@ == description@,
        t.input_schema@ == schema_json(member_views(schema.properties@), names_view(schema.required@)),
{
    ToolSpec { name: String::from_str(name), description: String::from_str(description), input_schema: schema.build() }
}

/// Parse Notion-flavored Markdown into blocks.
pub struct ParseMarkdownTool;

/// Convert a block to Notion-flavored Markdown.
pub struct ToMarkdownTool;

/// Convert Markdown into a universal document.
pub struct ConvertMdToIrTool;

/// Convert a universal document into Markdown.
pub struct ConvertIrToMdTool;

/// List the conversion platforms.
pub struct ListPlatformsTool;

/// Convert CSV into a universal document.
pub struct CsvToIrTool;

/// Convert a universal document into CSV.
pub struct IrToCsvTool;

/// Report Lark/Feishu Sheets capabilities.
pub struct ListLarkPlatformsTool;

/// Render a Mermaid diagram to SVG.
pub struct RenderMermaidSvgTool;

/// List the Mermaid diagram types.
pub struct ListDiagramTypesTool;

/// Search Notion pages and databases.
pub struct SearchTool;

/// Retrieve a Notion page.
pub struct GetPageTool;

/// Create a Notion page.
pub struct CreatePageTool;

/// List the child blocks of a page or block.
pub struct GetBlocksTool;

/// Trash, restore or delete a Notion resource.
pub struct TrashTool;

impl ParseMarkdownTool {
    /// The tool's name, description and schema: one required `content`.
    pub fn metadata() -> (t: ToolSpec)
        ensures
            t.name@ == "parse_markdown"@,
            t.description@ == "Parse Notion-flavored Markdown into blocks"@,
            t.input_schema@ == schema_json(
                seq![
                    ("content"@, param_schema("string"@, "Markdown content to parse"@)),
                ],
                seq!["content"@],
            ),
    {
        let b = SchemaBuilder::new().param("content", "Markdown content to parse");
        proof {

            assert(member_views(b.properties@) =~= seq![
                    ("content"@, param_schema("string"@, "Markdown content to parse"@)),
                ]);
            assert(names_view(b.required@) =~= seq!["content"@]);
        }
        spec_of("parse_markdown", "Parse Notion-flavored Markdown into blocks", b)
    }

    /// The answer: the blocks the Markdown is read as, and their count.
    pub fn answer(content: &str) -> (r: JsonValue)
        ensures
            exists|blocks: Seq<Block>, now: Seq<char>|
                #![trigger blocks_json(nblocks_view(blocks), blocks.len() as int), crate::api::markdown::blocks_of_events(crate::api::markdown::markdown_tokens(content@), now)]
                nblocks_view(blocks) == crate::api::markdown::blocks_of_events(
                    crate::api::markdown::markdown_tokens(content@),
                    now,
                ) && r@ == SpecJson::Object(
                    seq![
                        ("blocks"@, SpecJson::Array(blocks_json(nblocks_view(blocks), blocks.len() as int))),
                        ("count"@, crate::api::requests::uint_json(blocks.len() as u64)),
                    ],
                ),
    {
        let blocks = parse_markdown(content);
        let n = blocks.len();
        let items = blocks_to_json(&blocks);
        let mut e: Vec<(String, JsonValue)> = Vec::new();
        proof {
            crate::json::lemma_member_views(e@);
        }
        push_member(&mut e, "blocks", JsonValue::Array(items));
        push_member(
            &mut e,
            "count",
            JsonValue::Number(crate::json::JsonNumber { repr: crate::json::NumberRepr::PosInt(n as u64), double: None }),
        );
        let r = JsonValue::Object(e);
        assert(r@ == SpecJson::Object(
            seq![
                ("blocks"@, SpecJson::Array(blocks_json(nblocks_view(blocks@), blocks@.len() as int))),
                ("count"@, crate::api::requests::uint_json(blocks@.len() as u64)),
            ],
        )) by {
            assert(member_views(e@) =~= seq![
                ("blocks"@, SpecJson::Array(blocks_json(nblocks_view(blocks@), blocks@.len() as int))),
                ("count"@, crate::api::requests::uint_json(blocks@.len() as u64)),
            ]);
        }
        r
    }
}

impl ToMarkdownTool {
    /// The tool's name, description and schema: one required `block`
    /// object.
    pub fn metadata() -> (t: ToolSpec)
        ensures
            t.name@ == "to_markdown"@,
            t.description@ == "Convert a block to Notion-flavored Markdown"@,
            t.input_schema@ == schema_json(
                seq![
                    ("block"@, param_schema("object"@, "Block JSON object"@)),
                ],
                seq!["block"@],
            ),
    {
        let b = SchemaBuilder::new().object_param("block", "Block JSON object");
        proof {

            assert(member_views(b.properties@) =~= seq![
                    ("block"@, param_schema("object"@, "Block JSON object"@)),
                ]);
            assert(names_view(b.required@) =~= seq!["block"@]);
        }
        spec_of("to_markdown", "Convert a block to Notion-flavored Markdown", b)
    }

    /// The answer: the block's Markdown at the top level.
    pub fn answer(block: &Block) -> (r: JsonValue)
        requires
            crate::api::markdown::nesting(block@) < usize::MAX,
        ensures
            r@ == SpecJson::Object(seq![("markdown"@, SpecJson::Str(crate::api::markdown::block_md(block@, 0)))]),
    {
        JsonValue::single("markdown", JsonValue::String(block.to_markdown(0)))
    }
}

/// The answer of a tool that gives back text under one name.
fn text_answer(key: &str, text: String) -> (r: JsonValue)
    ensures
        r@ == SpecJson::Object(seq![(key@, SpecJson::Str(text@))]),
{
    JsonValue::single(key, JsonValue::String(text))
}

/// A JSON array of strings.
fn string_array(items: &[&str]) -> (r: JsonValue)
    ensures
        r@ == SpecJson::Array(Seq::new(items@.len(), |i: int| SpecJson::Str(items@[i]@))),
{
    let mut out: Vec<JsonValue> = Vec::new();
    let mut i: usize = 0;
    while i < items.len()
        invariant
            i <= items.len(),
            out@.len() == i,
            forall|q: int| 0 <= q < i ==> (#[trigger] out@[q])@ == SpecJson::Str(items@[q]@),
        decreases items.len() - i,
    {
        out.push(JsonValue::from_str(items[i]));
        i = i + 1;
    }
    proof {
        crate::json::lemma_json_views(out@);
    }
    assert(json_views(out@) =~= Seq::new(items@.len(), |i: int| SpecJson::Str(items@[i]@)));
    JsonValue::Array(out)
}

impl ConvertMdToIrTool {
    /// The tool's name, description and schema: one required `content`.
    pub fn metadata() -> (t: ToolSpec)
        ensures
            t.name@ == "convert_md_to_ir"@,
            t.description@ == "Convert Markdown to Universal IR"@,
            t.input_schema@ == schema_json(
                seq![
                    ("content"@, param_schema("string"@, "Markdown content"@)),
                ],
                seq!["content"@],
            ),
    {
        let b = SchemaBuilder::new().param("content", "Markdown content");
        proof {

            assert(member_views(b.properties@) =~= seq![
                    ("content"@, param_schema("string"@, "Markdown content"@)),
                ]);
            assert(names_view(b.required@) =~= seq!["content"@]);
        }
        spec_of("convert_md_to_ir", "Convert Markdown to Universal IR", b)
    }
}

impl ConvertIrToMdTool {
    /// The tool's name, description and schema: one required `ir_json`
    /// object.
    pub fn metadata() -> (t: ToolSpec)
        ensures
            t.name@ == "convert_ir_to_md"@,
            t.description@ == "Convert Universal IR to Markdown"@,
            t.input_schema@ == schema_json(
                seq![
                    ("ir_json"@, param_schema("object"@, "UniversalDocument JSON"@)),
                ],
                seq!["ir_json"@],
            ),
    {
        let b = SchemaBuilder::new().object_param("ir_json", "UniversalDocument JSON");
        proof {

            assert(member_views(b.properties@) =~= seq![
                    ("ir_json"@, param_schema("object"@, "UniversalDocument JSON"@)),
                ]);
            assert(names_view(b.required@) =~= seq!["ir_json"@]);
        }
        spec_of("convert_ir_to_md", "Convert Universal IR to Markdown", b)
    }

    /// The answer: the Markdown.
    pub fn answer(markdown: String) -> (r: JsonValue)
        ensures
            r@ == SpecJson::Object(seq![("markdown"@, SpecJson::Str(markdown@))]),
    {
        text_answer("markdown", markdown)
    }
}

impl ListPlatformsTool {
    /// The tool's name, description and an empty schema.
    pub fn metadata() -> (t: ToolSpec)
        ensures
            t.name@ == "list_platforms"@,
            t.description@ == "List supported conversion platforms"@,
            t.input_schema@ == schema_json(
                Seq::<(Seq<char>, SpecJson)>::empty(),
                Seq::<Seq<char>>::empty(),
            ),
    {
        let b = SchemaBuilder::new();
        proof {

            assert(member_views(b.properties@) =~= Seq::<(Seq<char>, SpecJson)>::empty());
            assert(names_view(b.required@) =~= Seq::<Seq<char>>::empty());
        }
        spec_of("list_platforms", "List supported conversion platforms", b)
    }

    /// The platforms, and the source and target formats.
    pub fn answer() -> (r: JsonValue)
        ensures
            r@ == SpecJson::Object(
                seq![
                    ("platforms"@, SpecJson::Array(seq![
                        SpecJson::Str("notion"@),
                        SpecJson::Str("markdown"@),
                        SpecJson::Str("sheets"@),
                        SpecJson::Str("github"@),
                        SpecJson::Str("lark"@),
                        SpecJson::Str("google_docs"@),
                        SpecJson::Str("pdf"@),
                        SpecJson::Str("html"@),
                        SpecJson::Str("docx"@),
                    ])),
                    ("source_formats"@, SpecJson::Array(seq![
                        SpecJson::Str("markdown"@),
                        SpecJson::Str("csv"@),
                    ])),
                    ("target_formats"@, SpecJson::Array(seq![
                        SpecJson::Str("markdown"@),
                        SpecJson::Str("notion"@),
                        SpecJson::Str("json"@),
                    ])),
                ],
            ),
    {
        let platforms = ["notion", "markdown", "sheets", "github", "lark", "google_docs", "pdf", "html", "docx"];
        let sources = ["markdown", "csv"];
        let targets = ["markdown", "notion", "json"];
        let p = string_array(&platforms);
        let sa = string_array(&sources);
        let ta = string_array(&targets);
        let ghost pv = SpecJson::Array(seq![
                SpecJson::Str("notion"@),
                SpecJson::Str("markdown"@),
                SpecJson::Str("sheets"@),
                SpecJson::Str("github"@),
                SpecJson::Str("lark"@),
                SpecJson::Str("google_docs"@),
                SpecJson::Str("pdf"@),
                SpecJson::Str("html"@),
                SpecJson::Str("docx"@),
            ]);
        let ghost sv = SpecJson::Array(seq![
                SpecJson::Str("markdown"@),
                SpecJson::Str("csv"@),
            ]);
        let ghost tv = SpecJson::Array(seq![
                SpecJson::Str("markdown"@),
                SpecJson::Str("notion"@),
                SpecJson::Str("json"@),
            ]);
        assert(Seq::new(platforms@.len(), |i: int| SpecJson::Str(platforms@[i]@)) =~= seq![
            SpecJson::Str("notion"@),
            SpecJson::Str("markdown"@),
            SpecJson::Str("sheets"@),
            SpecJson::Str("github"@),
            SpecJson::Str("lark"@),
            SpecJson::Str("google_docs"@),
            SpecJson::Str("pdf"@),
            SpecJson::Str("html"@),
            SpecJson::Str("docx"@),
        ]);
        assert(Seq::new(sources@.len(), |i: int| SpecJson::Str(sources@[i]@)) =~= seq![
            SpecJson::Str("markdown"@),
            SpecJson::Str("csv"@),
        ]);
        assert(Seq::new(targets@.len(), |i: int| SpecJson::Str(targets@[i]@)) =~= seq![
            SpecJson::Str("markdown"@),
            SpecJson::Str("notion"@),
            SpecJson::Str("json"@),
        ]);
        let mut e: Vec<(String, JsonValue)> = Vec::new();
        proof {
            crate::json::lemma_member_views(e@);
        }
        push_member(&mut e, "platforms", p);
        push_member(&mut e, "source_formats", sa);
        push_member(&mut e, "target_formats", ta);
        assert(member_views(e@) =~= seq![("platforms"@, pv), ("source_formats"@, sv), ("target_formats"@, tv)]);
        JsonValue::Object(e)
    }
}

impl CsvToIrTool {
    /// The tool's name, description and schema: one required `csv_data`.
    pub fn metadata() -> (t: ToolSpec)
        ensures
            t.name@ == "csv_to_ir"@,
            t.description@ == "Convert CSV data to Universal IR"@,
            t.input_schema@ == schema_json(
                seq![
                    ("csv_data"@, param_schema("string"@, "CSV formatted string data"@)),
                ],
                seq!["csv_data"@],
            ),
    {
        let b = SchemaBuilder::new().param("csv_data", "CSV formatted string data");
        proof {

            assert(member_views(b.properties@) =~= seq![
                    ("csv_data"@, param_schema("string"@, "CSV formatted string data"@)),
                ]);
            assert(names_view(b.required@) =~= seq!["csv_data"@]);
        }
        spec_of("csv_to_ir", "Convert CSV data to Universal IR", b)
    }
}

impl IrToCsvTool {
    /// The tool's name, description and schema: one required `ir_json`
    /// object.
    pub fn metadata() -> (t: ToolSpec)
        ensures
            t.name@ == "ir_to_csv"@,
            t.description@ == "Convert Universal IR to CSV"@,
            t.input_schema@ == schema_json(
                seq![
                    ("ir_json"@, param_schema("object"@, "UniversalDocument JSON"@)),
                ],
                seq!["ir_json"@],
            ),
    {
        let b = SchemaBuilder::new().object_param("ir_json", "UniversalDocument JSON");
        proof {

            assert(member_views(b.properties@) =~= seq![
                    ("ir_json"@, param_schema("object"@, "UniversalDocument JSON"@)),
                ]);
            assert(names_view(b.required@) =~= seq!["ir_json"@]);
        }
        spec_of("ir_to_csv", "Convert Universal IR to CSV", b)
    }

    /// The answer: the CSV text.
    pub fn answer(csv: String) -> (r: JsonValue)
        ensures
            r@ == SpecJson::Object(seq![("csv"@, SpecJson::Str(csv@))]),
    {
        text_answer("csv", csv)
    }
}

impl ListLarkPlatformsTool {
    /// The tool's name, description and an empty schema.
    pub fn metadata() -> (t: ToolSpec)
        ensures
            t.name@ == "list_lark_platforms"@,
            t.description@ == "List Lark/Feishu Sheets capabilities"@,
            t.input_schema@ == schema_json(
                Seq::<(Seq<char>, SpecJson)>::empty(),
                Seq::<Seq<char>>::empty(),
            ),
    {
        let b = SchemaBuilder::new();
        proof {

            assert(member_views(b.properties@) =~= Seq::<(Seq<char>, SpecJson)>::empty());
            assert(names_view(b.required@) =~= Seq::<Seq<char>>::empty());
        }
        spec_of("list_lark_platforms", "List Lark/Feishu Sheets capabilities", b)
    }

    /// Sheets support, CSV import and export, and the formats.
    pub fn answer() -> (r: JsonValue)
        ensures
            r@ == SpecJson::Object(
                seq![
                    ("lark_sheets_support"@, SpecJson::Bool(true)),
                    ("csv_import_export"@, SpecJson::Bool(true)),
                    ("formats"@, SpecJson::Array(seq![SpecJson::Str("csv"@), SpecJson::Str("json"@)])),
                ],
            ),
    {
        let formats = ["csv", "json"];
        let f = string_array(&formats);
        assert(f@ == SpecJson::Array(seq![SpecJson::Str("csv"@), SpecJson::Str("json"@)])) by {
            assert(Seq::new(formats@.len(), |i: int| SpecJson::Str(formats@[i]@)) =~= seq![
                SpecJson::Str("csv"@),
                SpecJson::Str("json"@),
            ]);
        }
        let ghost fv = f@;
        let mut e: Vec<(String, JsonValue)> = Vec::new();
        proof {
            crate::json::lemma_member_views(e@);
        }
        push_member(&mut e, "lark_sheets_support", JsonValue::Bool(true));
        push_member(&mut e, "csv_import_export", JsonValue::Bool(true));
        push_member(&mut e, "formats", f);
        assert(member_views(e@) =~= seq![
            ("lark_sheets_support"@, SpecJson::Bool(true)),
            ("csv_import_export"@, SpecJson::Bool(true)),
            ("formats"@, fv),
        ]);
        JsonValue::Object(e)
    }
}

impl RenderMermaidSvgTool {
    /// The tool's name, description and schema: one required `diagram`.
    pub fn metadata() -> (t: ToolSpec)
        ensures
            t.name@ == "render_mermaid_svg"@,
            t.description@ == "Render a Mermaid diagram to SVG"@,
            t.input_schema@ == schema_json(
                seq![
                    ("diagram"@, param_schema("string"@, "Mermaid diagram source code"@)),
                ],
                seq!["diagram"@],
            ),
    {
        let b = SchemaBuilder::new().param("diagram", "Mermaid diagram source code");
        proof {

            assert(member_views(b.properties@) =~= seq![
                    ("diagram"@, param_schema("string"@, "Mermaid diagram source code"@)),
                ]);
            assert(names_view(b.required@) =~= seq!["diagram"@]);
        }
        spec_of("render_mermaid_svg", "Render a Mermaid diagram to SVG", b)
    }

    /// The answer: the SVG, marked as such.
    pub fn answer(svg: String) -> (r: JsonValue)
        ensures
            r@ == SpecJson::Object(seq![("format"@, SpecJson::Str("svg"@)), ("content"@, SpecJson::Str(svg@))]),
    {
        let mut e: Vec<(String, JsonValue)> = Vec::new();
        proof {
            crate::json::lemma_member_views(e@);
        }
        let ghost sv = svg@;
        push_member(&mut e, "format", JsonValue::from_str("svg"));
        push_member(&mut e, "content", JsonValue::String(svg));
        assert(member_views(e@) =~= seq![("format"@, SpecJson::Str("svg"@)), ("content"@, SpecJson::Str(sv))]);
        JsonValue::Object(e)
    }
}

impl ListDiagramTypesTool {
    /// The tool's name, description and an empty schema.
    pub fn metadata() -> (t: ToolSpec)
        ensures
            t.name@ == "list_diagram_types"@,
            t.description@ == "List supported Mermaid diagram types"@,
            t.input_schema@ == schema_json(
                Seq::<(Seq<char>, SpecJson)>::empty(),
                Seq::<Seq<char>>::empty(),
            ),
    {
        let b = SchemaBuilder::new();
        proof {

            assert(member_views(b.properties@) =~= Seq::<(Seq<char>, SpecJson)>::empty());
            assert(names_view(b.required@) =~= Seq::<Seq<char>>::empty());
        }
        spec_of("list_diagram_types", "List supported Mermaid diagram types", b)
    }

    /// The diagram types and flow directions.
    pub fn answer() -> (r: JsonValue)
        ensures
            r@ == SpecJson::Object(
                seq![
                    ("diagram_types"@, SpecJson::Array(seq![
                        SpecJson::Str("flowchart"@),
                        SpecJson::Str("sequenceDiagram"@),
                        SpecJson::Str("classDiagram"@),
                        SpecJson::Str("stateDiagram-v2"@),
                        SpecJson::Str("erDiagram"@),
                        SpecJson::Str("gantt"@),
                        SpecJson::Str("pie"@),
                        SpecJson::Str("gitGraph"@),
                        SpecJson::Str("journey"@),
                        SpecJson::Str("timeline"@),
                        SpecJson::Str("mindmap"@),
                        SpecJson::Str("quadrantChart"@),
                        SpecJson::Str("xychart"@),
                    ])),
                    ("directions"@, SpecJson::Array(seq![
                        SpecJson::Str("TD"@),
                        SpecJson::Str("TB"@),
                        SpecJson::Str("BT"@),
                        SpecJson::Str("LR"@),
                        SpecJson::Str("RL"@),
                    ])),
                ],
            ),
    {
        let types = ["flowchart", "sequenceDiagram", "classDiagram", "stateDiagram-v2", "erDiagram", "gantt", "pie", "gitGraph", "journey", "timeline", "mindmap", "quadrantChart", "xychart"];
        let directions = ["TD", "TB", "BT", "LR", "RL"];
        let ta = string_array(&types);
        let da = string_array(&directions);
        let ghost tv = SpecJson::Array(seq![
                SpecJson::Str("flowchart"@),
                SpecJson::Str("sequenceDiagram"@),
                SpecJson::Str("classDiagram"@),
                SpecJson::Str("stateDiagram-v2"@),
                SpecJson::Str("erDiagram"@),
                SpecJson::Str("gantt"@),
                SpecJson::Str("pie"@),
                SpecJson::Str("gitGraph"@),
                SpecJson::Str("journey"@),
                SpecJson::Str("timeline"@),
                SpecJson::Str("mindmap"@),
                SpecJson::Str("quadrantChart"@),
                SpecJson::Str("xychart"@),
            ]);
        let ghost dv = SpecJson::Array(seq![
                SpecJson::Str("TD"@),
                SpecJson::Str("TB"@),
                SpecJson::Str("BT"@),
                SpecJson::Str("LR"@),
                SpecJson::Str("RL"@),
            ]);
        assert(Seq::new(types@.len(), |i: int| SpecJson::Str(types@[i]@)) =~= seq![
            SpecJson::Str("flowchart"@),
            SpecJson::Str("sequenceDiagram"@),
            SpecJson::Str("classDiagram"@),
            SpecJson::Str("stateDiagram-v2"@),
            SpecJson::Str("erDiagram"@),
            SpecJson::Str("gantt"@),
            SpecJson::Str("pie"@),
            SpecJson::Str("gitGraph"@),
            SpecJson::Str("journey"@),
            SpecJson::Str("timeline"@),
            SpecJson::Str("mindmap"@),
            SpecJson::Str("quadrantChart"@),
            SpecJson::Str("xychart"@),
        ]);
        assert(Seq::new(directions@.len(), |i: int| SpecJson::Str(directions@[i]@)) =~= seq![
            SpecJson::Str("TD"@),
            SpecJson::Str("TB"@),
            SpecJson::Str("BT"@),
            SpecJson::Str("LR"@),
            SpecJson::Str("RL"@),
        ]);
        let mut e: Vec<(String, JsonValue)> = Vec::new();
        proof {
            crate::json::lemma_member_views(e@);
        }
        push_member(&mut e, "diagram_types", ta);
        push_member(&mut e, "directions", da);
        assert(member_views(e@) =~= seq![("diagram_types"@, tv), ("directions"@, dv)]);
        JsonValue::Object(e)
    }
}

impl SearchTool {
    /// The tool's name, description and schema: an optional `query`.
    pub fn metadata() -> (t: ToolSpec)
        ensures
            t.name@ == "notion_search"@,
            t.description@ == "Search for pages and databases in Notion"@,
            t.input_schema@ == schema_json(
                seq![
                    ("query"@, param_schema("string"@, "Text query to search for"@)),
                ],
                Seq::<Seq<char>>::empty(),
            ),
    {
        let b = SchemaBuilder::new().optional_param("query", "Text query to search for");
        proof {

            assert(member_views(b.properties@) =~= seq![
                    ("query"@, param_schema("string"@, "Text query to search for"@)),
                ]);
            assert(names_view(b.required@) =~= Seq::<Seq<char>>::empty());
        }
        spec_of("notion_search", "Search for pages and databases in Notion", b)
    }
}

impl GetPageTool {
    /// The tool's name, description and schema: one required `page_id`.
    pub fn metadata() -> (t: ToolSpec)
        ensures
            t.name@ == "notion_get_page"@,
            t.description@ == "Retrieve a specific page by ID"@,
            t.input_schema@ == schema_json(
                seq![
                    ("page_id"@, param_schema("string"@, "The ID of the page to retrieve"@)),
                ],
                seq!["page_id"@],
            ),
    {
        let b = SchemaBuilder::new().param("page_id", "The ID of the page to retrieve");
        proof {

            assert(member_views(b.properties@) =~= seq![
                    ("page_id"@, param_schema("string"@, "The ID of the page to retrieve"@)),
                ]);
            assert(names_view(b.required@) =~= seq!["page_id"@]);
        }
        spec_of("notion_get_page", "Retrieve a specific page by ID", b)
    }
}

impl CreatePageTool {
    /// The tool's name, description and schema: `parent_id`,
    /// `parent_type` and `properties`, all required.
    pub fn metadata() -> (t: ToolSpec)
        ensures
            t.name@ == "notion_create_page"@,
            t.description@ == "Create a new page in a database or as a child of another page"@,
            t.input_schema@ == schema_json(
                seq![
                    ("parent_id"@, param_schema("string"@, "ID of the parent container"@)),
                    ("parent_type"@, param_schema("string"@, "Type of parent ('page_id' or 'database_id')"@)),
                    ("properties"@, param_schema("object"@, "Notion page properties JSON"@)),
                ],
                seq!["parent_id"@, "parent_type"@, "properties"@],
            ),
    {
        let b = SchemaBuilder::new().param("parent_id", "ID of the parent container").param("parent_type", "Type of parent ('page_id' or 'database_id')").object_param("properties", "Notion page properties JSON");
        proof {
            reveal_strlit("parent_id");
            reveal_strlit("parent_type");
            reveal_strlit("properties");
            let ghost p1 = ("parent_id"@, param_schema("string"@, "ID of the parent container"@));
            let ghost p2 = ("parent_type"@, param_schema("string"@, "Type of parent ('page_id' or 'database_id')"@));
            let ghost p3 = ("properties"@, param_schema("object"@, "Notion page properties JSON"@));
            assert(p1.0.len() != p2.0.len() && p1.0.len() != p3.0.len() && p2.0.len() != p3.0.len());
            let ghost s1 = seq![p1];
            let ghost s2 = seq![p1, p2];
            assert forall|i: int| 0 <= i < s1.len() implies (#[trigger] s1[i]).0 != p2.0 by {
                assert(i == 0);
            }
            lemma_set_member_new(s1, p2.0, p2.1);
            assert(s1.push(p2) =~= s2);
            assert forall|i: int| 0 <= i < s2.len() implies (#[trigger] s2[i]).0 != p3.0 by {
                assert(i == 0 || i == 1);
            }
            lemma_set_member_new(s2, p3.0, p3.1);
            assert(s2.push(p3) =~= seq![p1, p2, p3]);
            assert(member_views(b.properties@) =~= seq![
                    ("parent_id"@, param_schema("string"@, "ID of the parent container"@)),
                    ("parent_type"@, param_schema("string"@, "Type of parent ('page_id' or 'database_id')"@)),
                    ("properties"@, param_schema("object"@, "Notion page properties JSON"@)),
                ]);
            assert(names_view(b.required@) =~= seq!["parent_id"@, "parent_type"@, "properties"@]);
        }
        spec_of("notion_create_page", "Create a new page in a database or as a child of another page", b)
    }

    /// The parent of the new page: `{<parent_type>: <parent_id>}`.
    pub fn parent(parent_type: &str, parent_id: &str) -> (r: JsonValue)
        ensures
            r@ == SpecJson::Object(seq![(parent_type@, SpecJson::Str(parent_id@))]),
    {
        JsonValue::single(parent_type, JsonValue::from_str(parent_id))
    }
}

impl GetBlocksTool {
    /// The tool's name, description and schema: one required `block_id`.
    pub fn metadata() -> (t: ToolSpec)
        ensures
            t.name@ == "notion_get_block_children"@,
            t.description@ == "List children blocks for a page or block"@,
            t.input_schema@ == schema_json(
                seq![
                    ("block_id"@, param_schema("string"@, "The ID of the block/page to list children for"@)),
                ],
                seq!["block_id"@],
            ),
    {
        let b = SchemaBuilder::new().param("block_id", "The ID of the block/page to list children for");
        proof {

            assert(member_views(b.properties@) =~= seq![
                    ("block_id"@, param_schema("string"@, "The ID of the block/page to list children for"@)),
                ]);
            assert(names_view(b.required@) =~= seq!["block_id"@]);
        }
        spec_of("notion_get_block_children", "List children blocks for a page or block", b)
    }
}

/// The ASCII lower case of a character; other characters stay.
pub open spec fn ascii_lower(c: char) -> char {
    if 'A' <= c <= 'Z' {
        ((c as u32) + 32) as char
    } else {
        c
    }
}

/// The ASCII lower case of a text.
pub open spec fn ascii_lower_text(s: Seq<char>) -> Seq<char> {
    Seq::new(s.len(), |i: int| ascii_lower(s[i]))
}

/// The resource a name in any ASCII case stands for.
pub open spec fn resource_named(lower: Seq<char>) -> Option<Resource> {
    if lower == "page"@ {
        Some(Resource::Page)
    } else if lower == "block"@ {
        Some(Resource::Block)
    } else if lower == "view"@ {
        Some(Resource::View)
    } else if lower == "webhook"@ {
        Some(Resource::Webhook)
    } else {
        None
    }
}

fn lower_char(c: char) -> (r: char)
    ensures
        r == ascii_lower(c),
{
    if 'A' <= c && c <= 'Z' {
        let b: u8 = ((c as u32) + 32) as u8;
        b as char
    } else {
        c
    }
}

/// Reads a resource name, in any ASCII case: `page`, `block`, `view` or
/// `webhook`; any other name is a validation error that quotes it in
/// lower case.
pub fn parse_resource(name: &str) -> (r: Result<Resource, ToolError>)
    ensures
        match resource_named(ascii_lower_text(name@)) {
            Some(res) => r == Ok::<Resource, ToolError>(res),
            None => r matches Err(ToolError::Validation(m)) && m@ == "Unknown resource '"@ + ascii_lower_text(name@)
                + "' (expected page|block|view|webhook)"@,
        },
{
    let c = chars_of(name);
    let mut lower: Vec<char> = Vec::new();
    let mut i: usize = 0;
    while i < c.len()
        invariant
            i <= c.len(),
            lower@ == ascii_lower_text(c@.take(i as int)),
        decreases c.len() - i,
    {
        lower.push(lower_char(c[i]));
        assert(lower@ =~= ascii_lower_text(c@.take(i + 1)));
        i = i + 1;
    }
    assert(c@.take(c.len() as int) =~= c@);
    let l = lower.as_slice();
    if crate::text::chars_eq_str(l, "page") {
        Ok(Resource::Page)
    } else if crate::text::chars_eq_str(l, "block") {
        Ok(Resource::Block)
    } else if crate::text::chars_eq_str(l, "view") {
        Ok(Resource::View)
    } else if crate::text::chars_eq_str(l, "webhook") {
        Ok(Resource::Webhook)
    } else {
        let mut m: Vec<char> = Vec::new();
        extend_str(&mut m, "Unknown resource '");
        extend_chars(&mut m, l);
        extend_str(&mut m, "' (expected page|block|view|webhook)");
        Err(ToolError::Validation(string_of(&m)))
    }
}

impl TrashTool {
    /// The tool's name, description and schema: `resource` and `id`
    /// required, `restore` optional.
    pub fn metadata() -> (t: ToolSpec)
        ensures
            t.name@ == "notion_trash"@,
            t.description@ == "Trash, restore, or permanently delete a Notion resource (page/block/view/webhook) via the unified trash lifecycle"@,
            t.input_schema@ == schema_json(
                seq![
                    ("resource"@, param_schema("string"@, "Resource type: page, block, view, or webhook"@)),
                    ("id"@, param_schema("string"@, "The resource ID"@)),
                    ("restore"@, param_schema("string"@, "Set to true to restore instead of trash"@)),
                ],
                seq!["resource"@, "id"@],
            ),
    {
        let b = SchemaBuilder::new().param("resource", "Resource type: page, block, view, or webhook").param("id", "The resource ID").optional_param("restore", "Set to true to restore instead of trash");
        proof {
            reveal_strlit("resource");
            reveal_strlit("id");
            reveal_strlit("restore");
            let ghost p1 = ("resource"@, param_schema("string"@, "Resource type: page, block, view, or webhook"@));
            let ghost p2 = ("id"@, param_schema("string"@, "The resource ID"@));
            let ghost p3 = ("restore"@, param_schema("string"@, "Set to true to restore instead of trash"@));
            assert(p1.0.len() != p2.0.len() && p1.0.len() != p3.0.len() && p2.0.len() != p3.0.len());
            let ghost s1 = seq![p1];
            let ghost s2 = seq![p1, p2];
            assert forall|i: int| 0 <= i < s1.len() implies (#[trigger] s1[i]).0 != p2.0 by {
                assert(i == 0);
            }
            lemma_set_member_new(s1, p2.0, p2.1);
            assert(s1.push(p2) =~= s2);
            assert forall|i: int| 0 <= i < s2.len() implies (#[trigger] s2[i]).0 != p3.0 by {
                assert(i == 0 || i == 1);
            }
            lemma_set_member_new(s2, p3.0, p3.1);
            assert(s2.push(p3) =~= seq![p1, p2, p3]);
            assert(member_views(b.properties@) =~= seq![
                    ("resource"@, param_schema("string"@, "Resource type: page, block, view, or webhook"@)),
                    ("id"@, param_schema("string"@, "The resource ID"@)),
                    ("restore"@, param_schema("string"@, "Set to true to restore instead of trash"@)),
                ]);
            assert(names_view(b.required@) =~= seq!["resource"@, "id"@]);
        }
        spec_of("notion_trash", "Trash, restore, or permanently delete a Notion resource (page/block/view/webhook) via the unified trash lifecycle", b)
    }
}

} // verus!
