//! GitHub Flavored Markdown conversion: paragraphs, headings, callouts as
//! `> [!NOTE]` alerts, task lists and strikethrough.
use crate::converter::markdown::{blocks_from_markdown, markdown_doc, repeat, MarkdownConverter};
use crate::converter::{ConverterError, FromPlatform, ToPlatform};
use crate::ir::blocks::{blocks_view, lemma_blocks_view, lemma_tasks_view, tasks_view, SpecBlock, SpecTask, UniversalBlock};
use crate::ir::inline::{inlines_view, InlineElement, SpecInline};
use crate::ir::{Platform, UniversalDocument};
use crate::text::{extend_chars, extend_str, string_of, trim_end, trim_end_chars};
use vstd::prelude::*;

verus! {

broadcast use vstd::std_specs::vec::group_vec_axioms;

/// GFM of one inline element: a text run, wrapped in `~~` when struck
/// through; other elements render as nothing.
pub open spec fn gfm_inline(e: SpecInline) -> Seq<char> {
    match e {
        SpecInline::TextRun { content, style } => match style {
            Some(s) => if s.strikethrough == Some(true) {
                seq!['~', '~'] + content + seq!['~', '~']
            } else {
                content
            },
            None => content,
        },
        _ => seq![],
    }
}

/// GFM of a sequence of inline elements.
pub open spec fn gfm_inlines(s: Seq<SpecInline>) -> Seq<char>
    decreases s.len(),
{
    if s.len() == 0 {
        seq![]
    } else {
        gfm_inlines(s.drop_last()) + gfm_inline(s.last())
    }
}

/// GFM of a block at `indent` tabs: paragraphs, headings, callouts as a
/// `> [!NOTE]` alert with each child on a `> ` line, task lists with a
/// checkbox per item; other blocks render as nothing.
pub open spec fn gfm(b: SpecBlock, indent: nat) -> Seq<char>
    decreases b, 0nat, 0nat,
{
    let tabs = repeat('\t', indent);
    match b {
        SpecBlock::Paragraph { content, .. } => tabs + gfm_inlines(content),
        SpecBlock::Heading { level, content, .. } => tabs + repeat('#', level as nat) + seq![' '] + gfm_inlines(content),
        SpecBlock::Callout { content, .. } => tabs + "> [!NOTE]\n"@ + gfm_alert_lines(content, tabs, content.len() as int),
        SpecBlock::TaskList { items, .. } => gfm_tasks(items, tabs, items.len() as int),
        _ => seq![],
    }
}

/// The `> ` lines of the first `n` children of an alert.
pub open spec fn gfm_alert_lines(content: Seq<SpecBlock>, tabs: Seq<char>, n: int) -> Seq<char>
    decreases content, 0nat, n,
{
    if n <= 0 || n > content.len() {
        seq![]
    } else {
        gfm_alert_lines(content, tabs, n - 1) + tabs + seq!['>', ' '] + gfm(content[n - 1], 0) + seq!['\n']
    }
}

/// The lines of the first `n` items of a task list.
pub open spec fn gfm_tasks(items: Seq<SpecTask>, tabs: Seq<char>, n: int) -> Seq<char>
    decreases items, 1nat, n,
{
    if n <= 0 || n > items.len() {
        seq![]
    } else {
        gfm_tasks(items, tabs, n - 1) + tabs + seq!['-', ' '] + (if items[n - 1].checked {
            seq!['[', 'x', ']', ' ']
        } else {
            seq!['[', ' ', ']', ' ']
        }) + gfm_item(items[n - 1].content, items[n - 1].content.len() as int) + seq!['\n']
    }
}

/// The first `n` blocks of a task item, the later ones after two spaces.
pub open spec fn gfm_item(content: Seq<SpecBlock>, n: int) -> Seq<char>
    decreases content, 0nat, n,
{
    if n <= 0 || n > content.len() {
        seq![]
    } else {
        gfm_item(content, n - 1) + (if n - 1 > 0 { seq![' ', ' '] } else { seq![] }) + gfm(content[n - 1], 0)
    }
}

/// GFM of the first `n` blocks of a document, each followed by a newline.
pub open spec fn gfm_doc(blocks: Seq<SpecBlock>, n: int) -> Seq<char>
    decreases n,
{
    if n <= 0 || n > blocks.len() {
        seq![]
    } else {
        gfm_doc(blocks, n - 1) + gfm(blocks[n - 1], 0) + seq!['\n']
    }
}

/// Appends the GFM of inline elements.
fn render_gfm_inline(content: &[InlineElement], out: &mut Vec<char>)
    ensures
        final(out)@ == old(out)@ + gfm_inlines(inlines_view(content@)),
{
    let ghost v = inlines_view(content@);
    let mut i: usize = 0;
    while i < content.len()
        invariant
            i <= content.len(),
            v == inlines_view(content@),
            out@ == old(out)@ + gfm_inlines(v.take(i as int)),
        decreases content.len() - i,
    {
        assert(v.take(i + 1).drop_last() =~= v.take(i as int));
        assert(v.take(i + 1).last() == content@[i as int]@);
        let ghost before = out@;
        match &content[i] {
            InlineElement::TextRun { content: text, style } => {
                let struck = match style {
                    Some(s) => match s.strikethrough {
                        Some(true) => true,
                        _ => false,
                    },
                    None => false,
                };
                if struck {
                    out.push('~');
                    out.push('~');
                    extend_str(out, text.as_str());
                    out.push('~');
                    out.push('~');
                } else {
                    extend_str(out, text.as_str());
                }
            },
            _ => {},
        }
        assert(out@ =~= before + gfm_inline(v[i as int]));
        assert(out@ =~= old(out)@ + gfm_inlines(v.take(i + 1)));
        i = i + 1;
    }
    assert(v.take(content.len() as int) =~= v);
}

/// `n` copies of `c`.
fn repeat_chars(c: char, n: usize) -> (r: Vec<char>)
    ensures
        r@ == repeat(c, n as nat),
{
    let mut r: Vec<char> = Vec::new();
    let mut i: usize = 0;
    while i < n
        invariant
            i <= n,
            r@ == repeat(c, i as nat),
        decreases n - i,
    {
        r.push(c);
        assert(r@ =~= repeat(c, (i + 1) as nat));
        i = i + 1;
    }
    r
}

/// Appends the GFM of a block at `indent` tabs.
#[verifier::loop_isolation(false)]
#[verifier::rlimit(100)]
pub fn render_gfm_block(block: &UniversalBlock, indent: usize, out: &mut Vec<char>)
    ensures
        final(out)@ == old(out)@ + gfm(block@, indent as nat),
    decreases block,
{
    let tabs = repeat_chars('\t', indent);
    match block {
        UniversalBlock::Paragraph { content, .. } => {
            extend_chars(out, tabs.as_slice());
            render_gfm_inline(content.as_slice(), out);
        },
        UniversalBlock::Heading { level, content, .. } => {
            let ghost o0 = out@;
            extend_chars(out, tabs.as_slice());
            let h = repeat_chars('#', *level as usize);
            extend_chars(out, h.as_slice());
            out.push(' ');
            let ghost o1 = out@;
            render_gfm_inline(content.as_slice(), out);
            assert(o1 =~= o0 + tabs@ + repeat('#', *level as nat) + seq![' ']);
        },
        UniversalBlock::Callout { content, .. } => {
            let ghost cv = blocks_view(content@);
            proof {
                lemma_blocks_view(content@);
            }
            extend_chars(out, tabs.as_slice());
            extend_str(out, "> [!NOTE]\n");
            let ghost head = out@;
            let mut i: usize = 0;
            while i < content.len()
                invariant
                    i <= content.len(),
                    cv == blocks_view(content@),
                    cv.len() == content.len(),
                    out@ == head + gfm_alert_lines(cv, tabs@, i as int),
                decreases content.len() - i,
            {
                proof {
                    assert(decreases_to!(*block => *content));
                    assert(decreases_to!(*content => content[i as int]));
                }
                let ghost before = out@;
                extend_chars(out, tabs.as_slice());
                out.push('>');
                out.push(' ');
                assert(cv[i as int] == content@[i as int]@);
                render_gfm_block(&content[i], 0, out);
                out.push('\n');
                assert(out@ =~= before + tabs@ + seq!['>', ' '] + gfm(cv[i as int], 0) + seq!['\n']);
                i = i + 1;
            }
            assert(out@ =~= old(out)@ + gfm(block@, indent as nat));
        },
        UniversalBlock::TaskList { items, .. } => {
            let ghost iv = tasks_view(items@);
            proof {
                lemma_tasks_view(items@);
            }
            let mut i: usize = 0;
            while i < items.len()
                invariant
                    i <= items.len(),
                    iv == tasks_view(items@),
                    iv.len() == items.len(),
                    out@ == old(out)@ + gfm_tasks(iv, tabs@, i as int),
                decreases items.len() - i,
            {
                let ghost before = out@;
                extend_chars(out, tabs.as_slice());
                out.push('-');
                out.push(' ');
                if items[i].checked {
                    out.push('[');
                    out.push('x');
                    out.push(']');
                    out.push(' ');
                } else {
                    out.push('[');
                    out.push(' ');
                    out.push(']');
                    out.push(' ');
                }
                let ghost mid = out@;
                let item_blocks = &items[i].content;
                let ghost bv = blocks_view(item_blocks@);
                proof {
                    lemma_blocks_view(item_blocks@);
                    assert(iv[i as int].content == bv);
                }
                let mut j: usize = 0;
                while j < item_blocks.len()
                    invariant
                        j <= item_blocks.len(),
                        bv == blocks_view(item_blocks@),
                        bv.len() == item_blocks.len(),
                        out@ == mid + gfm_item(bv, j as int),
                    decreases item_blocks.len() - j,
                {
                    proof {
                        assert(decreases_to!(*block => *items));
                        assert(decreases_to!(*items => items[i as int]));
                        assert(decreases_to!(items[i as int] => items[i as int].content));
                        assert(decreases_to!(items[i as int].content => items[i as int].content[j as int]));
                    }
                    let ghost b2 = out@;
                    if j > 0 {
                        out.push(' ');
                        out.push(' ');
                    }
                    assert(bv[j as int] == item_blocks@[j as int]@);
                    let ghost b3 = out@;
                    render_gfm_block(&item_blocks[j], 0, out);
                    assert(b3 =~= b2 + (if j > 0 { seq![' ', ' '] } else { Seq::<char>::empty() }));
                    assert(out@ =~= mid + gfm_item(bv, j + 1));
                    j = j + 1;
                }
                out.push('\n');
                assert(out@ =~= before + tabs@ + seq!['-', ' '] + (if iv[i as int].checked {
                    seq!['[', 'x', ']', ' ']
                } else {
                    seq!['[', ' ', ']', ' ']
                }) + gfm_item(iv[i as int].content, iv[i as int].content.len() as int) + seq!['\n']);
                i = i + 1;
            }
        },
        _ => {
            assert(out@ =~= old(out)@ + gfm(block@, indent as nat));
        },
    }
}

/// GitHub Flavored Markdown converter.
pub struct GithubMarkdownConverter;

impl FromPlatform for GithubMarkdownConverter {
    const PLATFORM: Platform = Platform::Markdown;

    type Input = String;

    open spec fn reads(input: String) -> bool {
        true
    }

    open spec fn reads_as(input: String, doc: UniversalDocument) -> bool {
        markdown_doc(input@, doc)
    }

    fn from_platform(input: String) -> (r: Result<UniversalDocument, ConverterError>) {
        GithubMarkdownConverter::from_platform(input)
    }
}

impl ToPlatform for GithubMarkdownConverter {
    const PLATFORM: Platform = Platform::Markdown;

    type Output = String;

    open spec fn takes(doc: UniversalDocument) -> bool {
        true
    }

    open spec fn writes(doc: UniversalDocument) -> bool {
        true
    }

    fn to_platform(doc: &UniversalDocument) -> (r: Result<String, ConverterError>) {
        GithubMarkdownConverter::to_platform(doc)
    }
}

impl GithubMarkdownConverter {
    /// Reads Markdown into a universal document, as [`MarkdownConverter`]
    /// does.
    pub fn from_platform(input: String) -> (r: Result<UniversalDocument, ConverterError>)
        ensures
            r matches Ok(doc) && blocks_from_markdown(input@, blocks_view(doc.blocks@)) && doc.metadata.title is None
                && doc.metadata.properties@.len() == 0 && doc.metadata.custom@.len() == 0
                && doc.metadata.source_platform is None && doc.styles.styles@.len() == 0,
    {
        MarkdownConverter::from_platform(input)
    }

    /// Renders a document as GFM: each block followed by a newline, trailing
    /// white space removed.
    pub fn to_platform(doc: &UniversalDocument) -> (r: Result<String, ConverterError>)
        ensures
            r matches Ok(md) && md@ == trim_end(gfm_doc(blocks_view(doc.blocks@), doc.blocks@.len() as int)),
    {
        let ghost bv = blocks_view(doc.blocks@);
        proof {
            lemma_blocks_view(doc.blocks@);
        }
        let mut out: Vec<char> = Vec::new();
        let mut i: usize = 0;
        while i < doc.blocks.len()
            invariant
                i <= doc.blocks.len(),
                bv == blocks_view(doc.blocks@),
                bv.len() == doc.blocks.len(),
                out@ == gfm_doc(bv, i as int),
            decreases doc.blocks.len() - i,
        {
            proof {
                lemma_blocks_view(doc.blocks@);
            }
            assert(bv[i as int] == doc.blocks@[i as int]@);
            render_gfm_block(&doc.blocks[i], 0, &mut out);
            out.push('\n');
            i = i + 1;
        }
        let t = trim_end_chars(out.as_slice());
        Ok(string_of(&t))
    }
}

} // verus!
