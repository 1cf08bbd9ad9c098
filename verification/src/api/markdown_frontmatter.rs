//! Detection of a YAML frontmatter block at the start of a Markdown file.
//!
//! A frontmatter block is a `---` line, any number of YAML lines, and a
//! closing `---` line. An unterminated block is treated as plain Markdown.
use crate::text::{
    chars_eq_str, chars_of, join, join_chars, lemma_split_join, lemma_split_replace_crlf, replace_crlf, replace_crlf_chars, split, strip_cr,
    strip_lines,
    split_chars, string_of, lines_view, trim_end, trim_end_chars,
};
use vstd::prelude::*;

verus! {

/// The result of a successful frontmatter detection.
#[derive(Debug, Clone, PartialEq, Eq)]
pub struct FrontmatterBlock {
    /// Raw YAML text between the two `---` delimiters.
    pub yaml: String,
    /// The Markdown body that follows the closing `---` line.
    pub content: String,
}

/// Errors that can occur while extracting a frontmatter block.
#[derive(Debug)]
pub enum FrontmatterError {
    /// Reserved for structured validation of the YAML text.
    InvalidYaml(String),
}

/// A delimiter line: `---` followed only by white space.
pub open spec fn is_delimiter(line: Seq<char>) -> bool {
    trim_end(line) == seq!['-', '-', '-']
}

/// Index of the first delimiter line at or after `k`.
pub open spec fn delimiter_from(lines: Seq<Seq<char>>, k: int) -> Option<int>
    decreases lines.len() - k,
{
    if k < 0 || k >= lines.len() {
        None
    } else if is_delimiter(lines[k]) {
        Some(k)
    } else {
        delimiter_from(lines, k + 1)
    }
}

/// The `(yaml, content)` pair detected in `input`, if any: after turning
/// CRLF into LF, the first line must be a delimiter and some later line must
/// close the block; the YAML is the lines in between, the content is every
/// line after the closing one.
pub open spec fn frontmatter_of(input: Seq<char>) -> Option<(Seq<char>, Seq<char>)> {
    let lines = split(replace_crlf(input), '\n');
    if !is_delimiter(lines[0]) {
        None
    } else {
        match delimiter_from(lines, 1) {
            None => None,
            Some(k) => Some(
                (
                    join(lines.subrange(1, k), seq!['\n']),
                    join(lines.subrange(k + 1, lines.len() as int), seq!['\n']),
                ),
            ),
        }
    }
}

proof fn lemma_delimiter_from(lines: Seq<Seq<char>>, k: int)
    requires
        0 <= k,
    ensures
        delimiter_from(lines, k) matches Some(j) ==> k <= j < lines.len() && is_delimiter(
            lines[j],
        ) && forall|i: int| k <= i < j ==> !is_delimiter(#[trigger] lines[i]),
        delimiter_from(lines, k) is None ==> forall|i: int|
            k <= i < lines.len() ==> !is_delimiter(#[trigger] lines[i]),
    decreases lines.len() - k,
{
    if k < lines.len() && !is_delimiter(lines[k]) {
        lemma_delimiter_from(lines, k + 1);
    }
}

/// Whether `line` ends with a carriage return.
pub open spec fn ends_with_cr(line: Seq<char>) -> bool {
    line.len() > 0 && line.last() == '\r'
}

/// Whether the frontmatter that `input` holds, if any, has no line of its
/// YAML or of its body (but the text's last line) that still ends with a
/// carriage return once CRLF is turned into LF, that is, that stood before
/// `\r\r\n` in `input`.
pub open spec fn no_cr_left_in_frontmatter(input: Seq<char>) -> bool {
    let ls = split(replace_crlf(input), '\n');
    is_delimiter(ls[0]) ==> match delimiter_from(ls, 1) {
        Some(k) => forall|i: int| 1 <= i < ls.len() - 1 && i != k ==> !ends_with_cr(#[trigger] ls[i]),
        None => true,
    }
}

/// A line is a delimiter with or without one carriage return at its end.
proof fn lemma_delimiter_strip_cr(line: Seq<char>)
    ensures
        is_delimiter(strip_cr(line)) == is_delimiter(line),
{
}

/// Lines that are delimiters at the same places have their delimiters at
/// the same places.
proof fn lemma_delimiter_from_alike(a: Seq<Seq<char>>, b: Seq<Seq<char>>, k: int)
    requires
        a.len() == b.len(),
        forall|i: int| 0 <= i < a.len() ==> is_delimiter(#[trigger] a[i]) == is_delimiter(b[i]),
    ensures
        delimiter_from(a, k) == delimiter_from(b, k),
    decreases a.len() - k,
{
    if 0 <= k < a.len() {
        assert(is_delimiter(a[k]) == is_delimiter(b[k]));
        lemma_delimiter_from_alike(a, b, k + 1);
    }
}

/// Joining lines that are each no longer gives no longer a text, and a
/// strictly shorter one when one line is.
proof fn lemma_join_shorter(a: Seq<Seq<char>>, b: Seq<Seq<char>>)
    requires
        a.len() == b.len(),
        forall|j: int| 0 <= j < a.len() ==> (#[trigger] b[j]).len() <= a[j].len(),
    ensures
        join(b, seq!['\n']).len() <= join(a, seq!['\n']).len(),
        (exists|j: int| 0 <= j < a.len() && (#[trigger] b[j]).len() < a[j].len()) ==> join(b, seq!['\n']).len()
            < join(a, seq!['\n']).len(),
    decreases a.len(),
{
    if a.len() > 1 {
        let a1 = a.drop_last();
        let b1 = b.drop_last();
        assert forall|j: int| 0 <= j < a1.len() implies (#[trigger] b1[j]).len() <= a1[j].len() by {
            assert(b1[j] == b[j] && a1[j] == a[j]);
        }
        lemma_join_shorter(a1, b1);
        assert(b.last() == b[a.len() - 1]);
        if exists|j: int| 0 <= j < a.len() && (#[trigger] b[j]).len() < a[j].len() {
            let j = choose|j: int| 0 <= j < a.len() && (#[trigger] b[j]).len() < a[j].len();
            if j < a1.len() {
                assert(b1[j] == b[j] && a1[j] == a[j]);
            }
        }
    } else if a.len() == 1 {
        assert(b[0].len() <= a[0].len());
    }
}

/// CRLF line endings are tolerated: text is read as its LF form is, on
/// exactly the texts where that can be so. It fails only where a line of
/// the YAML or of the body stood before `\r\r\n`, which its LF form turns
/// into `\r\n` and normalising again into `\n` (`"---\nk: v\r\r\n---\n"`);
/// a delimiter line may end so (`"---\r\r\n..."`).
pub proof fn lemma_crlf_tolerated(input: Seq<char>)
    ensures
        frontmatter_of(input) == frontmatter_of(replace_crlf(input)) <==> no_cr_left_in_frontmatter(input),
{
    let t = replace_crlf(input);
    let l = split(t, '\n');
    lemma_split_join(t, '\n');
    lemma_split_replace_crlf(t);
    let l2 = split(replace_crlf(t), '\n');
    assert(l2 == strip_lines(l));
    let n: int = l.len() as int;
    assert forall|i: int| 0 <= i < n implies is_delimiter(#[trigger] l[i]) == is_delimiter(l2[i]) by {
        lemma_delimiter_strip_cr(l[i]);
    }
    lemma_delimiter_from_alike(l, l2, 1);
    assert(is_delimiter(l[0]) == is_delimiter(l2[0]));
    if is_delimiter(l[0]) {
        lemma_delimiter_from(l, 1);
        if let Some(k) = delimiter_from(l, 1) {
            let y = l.subrange(1, k);
            let y2 = l2.subrange(1, k);
            let c = l.subrange(k + 1, n);
            let c2 = l2.subrange(k + 1, n);
            assert forall|j: int| 0 <= j < y.len() implies (#[trigger] y2[j]).len() <= y[j].len() by {
                assert(y2[j] == l2[j + 1] && y[j] == l[j + 1]);
            }
            assert forall|j: int| 0 <= j < c.len() implies (#[trigger] c2[j]).len() <= c[j].len() by {
                assert(c2[j] == l2[j + k + 1] && c[j] == l[j + k + 1]);
            }
            lemma_join_shorter(y, y2);
            lemma_join_shorter(c, c2);
            if no_cr_left_in_frontmatter(input) {
                assert forall|j: int| 0 <= j < y.len() implies #[trigger] y2[j] == y[j] by {
                    assert(!ends_with_cr(l[j + 1]));
                }
                assert forall|j: int| 0 <= j < c.len() implies #[trigger] c2[j] == c[j] by {
                    if j + k + 1 < n - 1 {
                        assert(!ends_with_cr(l[j + k + 1]));
                    }
                }
                assert(y2 =~= y);
                assert(c2 =~= c);
            } else {
                let i = choose|i: int| 1 <= i < n - 1 && i != k && ends_with_cr(#[trigger] l[i]);
                if i < k {
                    assert(y2[i - 1].len() < y[i - 1].len());
                } else {
                    assert(c2[i - k - 1].len() < c[i - k - 1].len());
                }
            }
        }
    }
}

/// Detect a YAML frontmatter block at the start of `input`.
///
/// Returns `Ok(Some(block))` when the input starts with a `---` line that is
/// closed by a later `---` line, and `Ok(None)` otherwise. CRLF line endings
/// are accepted; `---` lines after the closing one are ordinary content.
pub fn detect_frontmatter(input: &str) -> (res: Result<Option<FrontmatterBlock>, FrontmatterError>)
    ensures
        res matches Ok(r) && match frontmatter_of(input@) {
            None => r is None,
            Some((yaml, content)) => r matches Some(b) && b.yaml@ == yaml && b.content@ == content,
        },
{
    let raw = chars_of(input);
    let normalized = replace_crlf_chars(raw.as_slice());
    let lines = split_chars(normalized.as_slice(), '\n');
    let ghost ls = lines_view(lines@);
    proof {
        lemma_split_join(normalized@, '\n');
    }
    let first = trim_end_chars(lines[0].as_slice());
    if !chars_eq_str(first.as_slice(), "---") {
        proof {
            reveal_strlit("---");
            assert("---"@ =~= seq!['-', '-', '-']);
        }
        return Ok(None);
    }
    proof {
        reveal_strlit("---");
            assert("---"@ =~= seq!['-', '-', '-']);
        lemma_delimiter_from(ls, 1);
    }
    let mut k: usize = 1;
    while k < lines.len()
        invariant
            1 <= k <= lines.len(),
            ls == lines_view(lines@),
            delimiter_from(ls, 1) == delimiter_from(ls, k as int),
            is_delimiter(ls[0]),
            ls == split(replace_crlf(input@), '\n'),
        decreases lines.len() - k,
    {
        let t = trim_end_chars(lines[k].as_slice());
        proof {
            reveal_strlit("---");
            assert("---"@ =~= seq!['-', '-', '-']);
        }
        if chars_eq_str(t.as_slice(), "---") {
            assert(is_delimiter(ls[k as int]));
            assert(delimiter_from(ls, k as int) == Some(k as int));
            let yaml = join_chars(lines.as_slice(), 1, k, '\n');
            let content = join_chars(lines.as_slice(), k + 1, lines.len(), '\n');
            return Ok(Some(FrontmatterBlock { yaml: string_of(&yaml), content: string_of(&content) }));
        }
        k = k + 1;
    }
    Ok(None)
}

impl FrontmatterError {
    /// The message of this error (what `Display` writes).
    pub fn to_string(&self) -> (r: String)
        ensures
            match self {
                FrontmatterError::InvalidYaml(m) => r@ == "invalid YAML in frontmatter block: "@ + m@,
            },
    {
        match self {
            FrontmatterError::InvalidYaml(m) => {
                let mut out: Vec<char> = Vec::new();
                crate::text::extend_str(&mut out, "invalid YAML in frontmatter block: ");
                crate::text::extend_str(&mut out, m.as_str());
                string_of(&out)
            },
        }
    }
}

} // verus!
