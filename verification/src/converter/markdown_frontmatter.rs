//! Markdown that may start with a typed YAML frontmatter block.
//!
//! Reading splits the frontmatter block from the body (see
//! [`detect_frontmatter`]), reads the body as Markdown and the block as
//! typed properties; writing emits the properties as a `---` delimited
//! block before the Markdown of the body. The YAML text itself is read and
//! written by the caller, through [`crate::ir::frontmatter`]'s tree forms.
use crate::api::markdown_frontmatter::{delimiter_from, detect_frontmatter, frontmatter_of, is_delimiter, FrontmatterBlock};
use crate::converter::markdown::{blocks_from_markdown, document_md, hollow_list, MarkdownConverter};
use crate::converter::ConverterError;
use crate::ir::blocks::blocks_view;
use crate::ir::frontmatter::{fm_message, FrontmatterError, SpecFmError};
use crate::ir::metadata::{names_unique, props_view, PropertyValue, SpecProperty};
use crate::ir::UniversalDocument;
use crate::text::{chars_is_blank, chars_of, extend_str, is_blank, is_space, join, lemma_split_join, replace_crlf, split, string_of};
use vstd::prelude::*;

verus! {

/// The prefix naming the kind of a frontmatter error.
pub open spec fn fm_prefix(e: SpecFmError) -> Seq<char> {
    match e {
        SpecFmError::InvalidYaml(_) => "invalid YAML"@,
        SpecFmError::UnknownPropertyType(_) => "unknown property type"@,
        SpecFmError::MissingField(_, _) => "missing frontmatter field"@,
        SpecFmError::WrongFieldType(_, _, _) => "wrong frontmatter field type"@,
    }
}

/// The conversion error reporting a frontmatter error: its kind, a colon,
/// and its message.
pub fn frontmatter_err_to_converter_err(e: FrontmatterError) -> (r: ConverterError)
    ensures
        r matches ConverterError::ConversionFailed(m) && m@ == fm_prefix(e@) + ": "@ + fm_message(e@),
{
    let mut out: Vec<char> = Vec::new();
    match &e {
        FrontmatterError::InvalidYaml(_) => extend_str(&mut out, "invalid YAML"),
        FrontmatterError::UnknownPropertyType(_) => extend_str(&mut out, "unknown property type"),
        FrontmatterError::MissingField(_, _) => extend_str(&mut out, "missing frontmatter field"),
        FrontmatterError::WrongFieldType(_, _, _) => extend_str(&mut out, "wrong frontmatter field type"),
    }
    extend_str(&mut out, ": ");
    let msg = e.to_string();
    extend_str(&mut out, msg.as_str());
    ConverterError::ConversionFailed(string_of(&out))
}

/// Converter for Markdown that may carry a YAML frontmatter block.
pub struct MarkdownWithFrontmatterConverter;

/// The frontmatter text worth reading of an input (the block's content,
/// unless it is blank) and the Markdown body.
pub open spec fn split_spec(input: Seq<char>) -> (Option<Seq<char>>, Seq<char>) {
    match frontmatter_of(input) {
        Some((yaml, content)) => (if is_blank(yaml) { None } else { Some(yaml) }, content),
        None => (None, input),
    }
}

/// The frontmatter block text after the opening delimiter line: the YAML
/// text, then the closing delimiter on a line of its own.
pub open spec fn framed(yaml: Seq<char>) -> Seq<char> {
    if yaml.len() >= 4 && yaml.subrange(yaml.len() - 4, yaml.len() as int) == seq!['-', '-', '-', '\n'] {
        "---\n"@ + yaml + "---\n"@
    } else if yaml.len() > 0 && yaml.last() == '\n' {
        "---\n"@ + yaml.drop_last() + "\n---\n"@
    } else {
        "---\n"@ + yaml + "\n---\n"@
    }
}

impl MarkdownWithFrontmatterConverter {
    /// Splits an input into the frontmatter text worth reading and the
    /// Markdown body.
    pub fn split_input(input: String) -> (r: Result<(Option<String>, String), ConverterError>)
        ensures
            r matches Ok((y, b)) && opt_seq(y) == split_spec(input@).0 && b@ == split_spec(input@).1,
    {
        match detect_frontmatter(input.as_str()) {
            Ok(Some(FrontmatterBlock { yaml, content })) => {
                let v = chars_of(yaml.as_str());
                if chars_is_blank(v.as_slice()) {
                    Ok((None, content))
                } else {
                    Ok((Some(yaml), content))
                }
            },
            Ok(None) => Ok((None, input)),
            Err(e) => {
                let mut out: Vec<char> = Vec::new();
                extend_str(&mut out, "frontmatter: ");
                let m = e.to_string();
                extend_str(&mut out, m.as_str());
                Err(ConverterError::InvalidData(string_of(&out)))
            },
        }
    }

    /// A document from a Markdown body and the properties read from its
    /// frontmatter (`None` when there was none worth reading).
    pub fn from_parts(
        body: String,
        properties: Option<Result<Vec<(String, PropertyValue)>, FrontmatterError>>,
    ) -> (r: Result<UniversalDocument, ConverterError>)
        ensures
            match properties {
                Some(Err(e)) => r matches Err(ConverterError::ConversionFailed(m)) && m@ == fm_prefix(e@) + ": "@
                    + fm_message(e@),
                Some(Ok(ps)) => r matches Ok(doc) && blocks_from_markdown(body@, blocks_view(doc.blocks@))
                    && props_view(doc.metadata.properties@) == props_view(ps@)
                    && (names_unique(props_view(ps@)) ==> doc.metadata.has_unique_names()),
                None => r matches Ok(doc) && blocks_from_markdown(body@, blocks_view(doc.blocks@))
                    && doc.metadata.properties@.len() == 0 && doc.metadata.has_unique_names(),
            },
    {
        let mut doc = match MarkdownConverter::from_platform(body) {
            Ok(d) => d,
            Err(e) => {
                return Err(e);
            },
        };
        match properties {
            Some(Err(e)) => Err(frontmatter_err_to_converter_err(e)),
            Some(Ok(ps)) => {
                doc.metadata.properties = ps;
                Ok(doc)
            },
            None => Ok(doc),
        }
    }

    /// Writes a document as Markdown, preceded by its frontmatter block when
    /// `yaml` holds frontmatter text that is not blank.
    pub fn render(yaml: Option<&str>, doc: &UniversalDocument) -> (r: Result<String, ConverterError>)
        requires
            doc.blocks@.len() > 0 ==> !hollow_list(doc.blocks@[0]@),
        ensures
            r matches Ok(s) && s@ == (match yaml {
                Some(y) => if is_blank(y@) {
                    seq![]
                } else {
                    framed(y@)
                },
                None => seq![],
            }) + document_md(blocks_view(doc.blocks@)) + seq!['\n'],
    {
        let mut out: Vec<char> = Vec::new();
        match yaml {
            Some(y) => {
                let v = chars_of(y);
                if !chars_is_blank(v.as_slice()) {
                    extend_str(&mut out, "---\n");
                    let ghost head = out@;
                    let n = v.len();
                    let closed = n >= 4 && v[n - 4] == '-' && v[n - 3] == '-' && v[n - 2] == '-' && v[n - 1] == '\n';
                    proof {
                        if closed {
                            assert(v@.subrange(n - 4, n as int) =~= seq!['-', '-', '-', '\n']);
                        } else if n >= 4 {
                            if v@.subrange(n - 4, n as int) == seq!['-', '-', '-', '\n'] {
                                assert(v@.subrange(n - 4, n as int)[0] == v@[n - 4]);
                                assert(v@.subrange(n - 4, n as int)[1] == v@[n - 3]);
                                assert(v@.subrange(n - 4, n as int)[2] == v@[n - 2]);
                                assert(v@.subrange(n - 4, n as int)[3] == v@[n - 1]);
                            }
                        }
                    }
                    if closed {
                        extend_str(&mut out, y);
                        extend_str(&mut out, "---\n");
                    } else if n > 0 && v[n - 1] == '\n' {
                        let mut i: usize = 0;
                        while i < n - 1
                            invariant
                                i <= n - 1,
                                n == v@.len(),
                                out@ == head + v@.take(i as int),
                            decreases n - 1 - i,
                        {
                            out.push(v[i]);
                            assert(v@.take(i + 1) =~= v@.take(i as int).push(v@[i as int]));
                            i = i + 1;
                        }
                        assert(v@.take(n - 1) =~= v@.drop_last());
                        extend_str(&mut out, "\n---\n");
                    } else {
                        extend_str(&mut out, y);
                        extend_str(&mut out, "\n---\n");
                    }
                }
            },
            None => {},
        }
        let body = match MarkdownConverter::to_platform(doc) {
            Ok(b) => b,
            Err(e) => {
                return Err(e);
            },
        };
        extend_str(&mut out, body.as_str());
        out.push('\n');
        Ok(string_of(&out))
    }
}

/// The content of an optional string.
pub open spec fn opt_seq(s: Option<String>) -> Option<Seq<char>> {
    match s {
        Some(x) => Some(x@),
        None => None,
    }
}

/// Text without carriage returns is left as it is by CRLF normalisation.
proof fn lemma_replace_crlf_plain(s: Seq<char>)
    requires
        forall|i: int| 0 <= i < s.len() ==> s[i] != '\r',
    ensures
        replace_crlf(s) == s,
    decreases s.len(),
{
    if s.len() >= 2 {
        assert forall|i: int| 0 <= i < s.skip(1).len() implies s.skip(1)[i] != '\r' by {
            assert(s.skip(1)[i] == s[i + 1]);
        }
        lemma_replace_crlf_plain(s.skip(1));
        assert(seq![s[0]] + s.skip(1) =~= s);
    }
}

/// Splitting at a separator splits each side apart.
proof fn lemma_split_concat(a: Seq<char>, b: Seq<char>, sep: char)
    ensures
        split(a + seq![sep] + b, sep) == split(a, sep) + split(b, sep),
    decreases b.len(),
{
    let s = a + seq![sep] + b;
    if b.len() == 0 {
        assert(s.drop_last() =~= a);
        assert(split(s, sep) =~= split(a, sep) + split(b, sep));
    } else {
        lemma_split_concat(a, b.drop_last(), sep);
        assert(s.drop_last() =~= a + seq![sep] + b.drop_last());
        assert(s.last() == b.last());
        lemma_split_join(b.drop_last(), sep);
        let ra = split(a, sep);
        let rb = split(b.drop_last(), sep);
        if b.last() == sep {
            assert(split(s, sep) =~= split(a, sep) + split(b, sep));
        } else {
            let rest = ra + rb;
            assert(rest.last() == rb.last());
            assert(rest.update(rest.len() - 1, rest.last().push(b.last())) =~= ra + rb.update(
                rb.len() - 1,
                rb.last().push(b.last()),
            ));
        }
    }
}

/// Text without the separator is one piece.
proof fn lemma_split_single(s: Seq<char>, sep: char)
    requires
        forall|i: int| 0 <= i < s.len() ==> s[i] != sep,
    ensures
        split(s, sep) == seq![s],
    decreases s.len(),
{
    if s.len() > 0 {
        assert forall|i: int| 0 <= i < s.drop_last().len() implies s.drop_last()[i] != sep by {
            assert(s.drop_last()[i] == s[i]);
        }
        lemma_split_single(s.drop_last(), sep);
        assert(s.last() == s[s.len() - 1]);
        assert(s.drop_last().push(s.last()) =~= s);
        assert(seq![s.drop_last()].update(0, s.drop_last().push(s.last())) =~= seq![s]);
        assert(s.last() != sep);
        let rest = split(s.drop_last(), sep);
        assert(rest.len() - 1 == 0);
        assert(rest.last() == s.drop_last());
    } else {
        assert(s =~= Seq::<char>::empty());
    }
}

/// The first delimiter at or after `k` is the one at `j` when none comes
/// before it.
proof fn lemma_delimiter_at(lines: Seq<Seq<char>>, k: int, j: int)
    requires
        0 <= k <= j < lines.len(),
        is_delimiter(lines[j]),
        forall|i: int| k <= i < j ==> !is_delimiter(#[trigger] lines[i]),
    ensures
        delimiter_from(lines, k) == Some(j),
    decreases j - k,
{
    if k < j {
        lemma_delimiter_at(lines, k + 1, j);
    }
}

/// The YAML text without its final newline.
pub open spec fn yaml_core(yaml: Seq<char>) -> Seq<char> {
    if yaml.len() > 0 && yaml.last() == '\n' {
        yaml.drop_last()
    } else {
        yaml
    }
}

/// Frontmatter block round trip: YAML text that is not blank, has no
/// carriage return and no delimiter line, written as a frontmatter block
/// before a body without carriage returns, is split back into that text
/// (without its final newline) and the body.
pub proof fn lemma_frontmatter_block_round_trip(yaml: Seq<char>, body: Seq<char>)
    requires
        !is_blank(yaml),
        forall|i: int| 0 <= i < yaml.len() ==> yaml[i] != '\r',
        forall|i: int| 0 <= i < body.len() ==> body[i] != '\r',
        forall|i: int| 0 <= i < split(yaml_core(yaml), '\n').len() ==> !is_delimiter(#[trigger] split(yaml_core(yaml), '\n')[i]),
    ensures
        split_spec(framed(yaml) + body) == (Some(yaml_core(yaml)), body),
{
    let core = yaml_core(yaml);
    let dashes = seq!['-', '-', '-'];
    let nl = seq!['\n'];
    reveal_strlit("---\n");
    reveal_strlit("\n---\n");
    assert(framed(yaml) =~= dashes + nl + core + nl + dashes + nl);
    let input = framed(yaml) + body;
    assert(input =~= dashes + nl + (core + nl + (dashes + nl + body)));
    assert forall|i: int| 0 <= i < input.len() implies input[i] != '\r' by {
        if 4 <= i < 4 + core.len() {
            assert(input[i] == core[i - 4]);
            assert(core[i - 4] == yaml[i - 4]);
        } else if i >= 9 + core.len() {
            assert(input[i] == body[i - 9 - core.len()]);
        }
    }
    lemma_replace_crlf_plain(input);
    lemma_split_concat(dashes, core + nl + (dashes + nl + body), '\n');
    lemma_split_concat(core, dashes + nl + body, '\n');
    lemma_split_concat(dashes, body, '\n');
    lemma_split_single(dashes, '\n');
    let lc = split(core, '\n');
    let lb = split(body, '\n');
    let lines = split(input, '\n');
    assert(lines =~= seq![dashes] + lc + seq![dashes] + lb);
    lemma_split_join(core, '\n');
    lemma_split_join(body, '\n');
    assert(dashes.last() == '-' && !is_space('-'));
    assert(crate::text::trim_end(dashes) == dashes);
    assert(is_delimiter(lines[0]));
    let j: int = (1 + lc.len()) as int;
    assert(lines[j] == dashes);
    assert forall|i: int| 1 <= i < j implies !is_delimiter(#[trigger] lines[i]) by {
        assert(lines[i] == lc[i - 1]);
    }
    lemma_delimiter_at(lines, 1, j);
    assert(lines.subrange(1, j) =~= lc);
    assert(lines.subrange(j + 1, lines.len() as int) =~= lb);
    assert(frontmatter_of(input) == Some((core, body)));
    assert(!is_blank(core)) by {
        let k = choose|k: int| 0 <= k < yaml.len() && !is_space(#[trigger] yaml[k]);
        if yaml.len() > 0 && yaml.last() == '\n' {
            assert(k < yaml.len() - 1);
            assert(core[k] == yaml[k]);
        } else {
            assert(core[k] == yaml[k]);
        }
    }
}

} // verus!
