//! Comparing two Markdown files after normalising them through the block
//! model.
use crate::api::markdown::{block_md, nesting, parse_markdown, ToMarkdown};
use crate::models::block::{lemma_nblocks_view, nblocks_view, Block, SpecNBlock};
use crate::text::{extend_str, string_of};
use similar::{ChangeTag, TextDiff};
use vstd::prelude::*;

verus! {

broadcast use vstd::std_specs::vec::group_vec_axioms;

/// Whether a line is kept, removed or added.
#[derive(Debug, Clone, Copy, PartialEq, Eq)]
pub enum LineTag {
    Equal,
    Delete,
    Insert,
}

/// The changes `similar::TextDiff::from_lines` finds between two texts,
/// each with its line as `Change` displays it (a missing final newline
/// added).
pub uninterp spec fn line_diff(old: Seq<char>, new: Seq<char>) -> Seq<(LineTag, Seq<char>)>;

/// Diffs two texts line by line with `similar::TextDiff::from_lines`; the
/// contract names the changes.
#[verifier::external_body]
fn line_changes(old: &str, new: &str) -> (r: Vec<(LineTag, String)>)
    ensures
        Seq::new(r@.len(), |i: int| (r@[i].0, r@[i].1@)) == line_diff(old@, new@),
{
    let tag = |t: ChangeTag| match t {
        ChangeTag::Equal => LineTag::Equal,
        ChangeTag::Delete => LineTag::Delete,
        ChangeTag::Insert => LineTag::Insert,
    };
    TextDiff::from_lines(old, new).iter_all_changes().map(|c| (tag(c.tag()), c.to_string())).collect()
}

/// The mark of a line: `- `, `+ ` or two spaces.
pub open spec fn line_mark(t: LineTag) -> Seq<char> {
    match t {
        LineTag::Delete => "- "@,
        LineTag::Insert => "+ "@,
        LineTag::Equal => "  "@,
    }
}

/// The diff text: each line after its mark.
pub open spec fn diff_text(changes: Seq<(LineTag, Seq<char>)>) -> Seq<char>
    decreases changes.len(),
{
    if changes.len() == 0 {
        seq![]
    } else {
        diff_text(changes.drop_last()) + line_mark(changes.last().0) + changes.last().1
    }
}

/// Renders changes as the diff text: each line after its mark.
pub fn render_changes(changes: &Vec<(LineTag, String)>) -> (r: String)
    ensures
        r@ == diff_text(Seq::new(changes@.len(), |i: int| (changes@[i].0, changes@[i].1@))),
{
    let ghost cv = Seq::new(changes@.len(), |i: int| (changes@[i].0, changes@[i].1@));
    let mut out: Vec<char> = Vec::new();
    let mut i: usize = 0;
    while i < changes.len()
        invariant
            i <= changes.len(),
            cv == Seq::new(changes@.len(), |i: int| (changes@[i].0, changes@[i].1@)),
            out@ == diff_text(cv.take(i as int)),
        decreases changes.len() - i,
    {
        assert(cv.take(i + 1).drop_last() =~= cv.take(i as int));
        match changes[i].0 {
            LineTag::Delete => extend_str(&mut out, "- "),
            LineTag::Insert => extend_str(&mut out, "+ "),
            LineTag::Equal => extend_str(&mut out, "  "),
        }
        extend_str(&mut out, changes[i].1.as_str());
        i = i + 1;
    }
    assert(cv.take(changes.len() as int) =~= cv);
    string_of(&out)
}

/// The Markdown of blocks, each followed by a newline.
pub open spec fn blocks_text(bs: Seq<SpecNBlock>) -> Seq<char>
    decreases bs.len(),
{
    if bs.len() == 0 {
        seq![]
    } else {
        blocks_text(bs.drop_last()) + block_md(bs.last(), 0) + seq!['\n']
    }
}

/// Whether every block nests less deeply than the machine can count.
pub open spec fn shallow(bs: Seq<SpecNBlock>) -> bool {
    forall|i: int| 0 <= i < bs.len() ==> #[trigger] nesting(bs[i]) < usize::MAX
}

/// The Markdown of blocks at the top level, each followed by a newline.
pub fn blocks_markdown(blocks: &Vec<Block>) -> (r: String)
    ensures
        shallow(nblocks_view(blocks@)) ==> r@ == blocks_text(nblocks_view(blocks@)),
{
    let ghost bv = nblocks_view(blocks@);
    proof {
        lemma_nblocks_view(blocks@);
    }
    let mut out: Vec<char> = Vec::new();
    let mut i: usize = 0;
    while i < blocks.len()
        invariant
            i <= blocks.len(),
            bv == nblocks_view(blocks@),
            bv.len() == blocks.len(),
            forall|q: int| 0 <= q < blocks.len() ==> #[trigger] bv[q] == blocks@[q]@,
            shallow(bv) ==> out@ == blocks_text(bv.take(i as int)),
        decreases blocks.len() - i,
    {
        assert(bv.take(i + 1).drop_last() =~= bv.take(i as int));
        let md = blocks[i].to_markdown(0);
        extend_str(&mut out, md.as_str());
        out.push('\n');
        proof {
            if shallow(bv) {
                assert(nesting(bv[i as int]) < usize::MAX);
                assert(out@ =~= blocks_text(bv.take(i + 1)));
            }
        }
        i = i + 1;
    }
    assert(bv.take(blocks.len() as int) =~= bv);
    string_of(&out)
}

/// Compares two Markdown texts after reading each into blocks and writing
/// the blocks back (each followed by a newline): the changed lines marked
/// `- ` and `+ `, the others indented by two spaces.
pub fn diff_markdown(old_content: &str, new_content: &str) -> (r: String)
    ensures
        exists|old_blocks: Seq<Block>, new_blocks: Seq<Block>, now1: Seq<char>, now2: Seq<char>|
            #![trigger nblocks_view(old_blocks), nblocks_view(new_blocks), crate::api::markdown::blocks_of_events(crate::api::markdown::markdown_tokens(old_content@), now1), crate::api::markdown::blocks_of_events(crate::api::markdown::markdown_tokens(new_content@), now2)]
            {
                &&& nblocks_view(old_blocks) == crate::api::markdown::blocks_of_events(
                    crate::api::markdown::markdown_tokens(old_content@),
                    now1,
                )
                &&& nblocks_view(new_blocks) == crate::api::markdown::blocks_of_events(
                    crate::api::markdown::markdown_tokens(new_content@),
                    now2,
                )
                &&& (shallow(nblocks_view(old_blocks)) && shallow(nblocks_view(new_blocks))) ==> r@ == diff_text(
                    line_diff(blocks_text(nblocks_view(old_blocks)), blocks_text(nblocks_view(new_blocks))),
                )
            },
{
    let old_blocks = parse_markdown(old_content);
    let new_blocks = parse_markdown(new_content);
    let old_md = blocks_markdown(&old_blocks);
    let new_md = blocks_markdown(&new_blocks);
    let changes = line_changes(old_md.as_str(), new_md.as_str());
    let r = render_changes(&changes);
    let ghost now1 = choose|n: Seq<char>|
        nblocks_view(old_blocks@) == crate::api::markdown::blocks_of_events(
            crate::api::markdown::markdown_tokens(old_content@),
            n,
        );
    let ghost now2 = choose|n: Seq<char>|
        nblocks_view(new_blocks@) == crate::api::markdown::blocks_of_events(
            crate::api::markdown::markdown_tokens(new_content@),
            n,
        );
    assert((shallow(nblocks_view(old_blocks@)) && shallow(nblocks_view(new_blocks@))) ==> r@ == diff_text(
        line_diff(blocks_text(nblocks_view(old_blocks@)), blocks_text(nblocks_view(new_blocks@))),
    ));
    assert(nblocks_view(old_blocks@) == crate::api::markdown::blocks_of_events(
        crate::api::markdown::markdown_tokens(old_content@),
        now1,
    ));
    assert(nblocks_view(new_blocks@) == crate::api::markdown::blocks_of_events(
        crate::api::markdown::markdown_tokens(new_content@),
        now2,
    ));
    r
}

} // verus!
