//! Character-level text utilities shared by the converters and renderers.
//!
//! Text is handled as `Vec<char>` inside the library so that every
//! transformation can be stated over `Seq<char>`; `String` only appears at the
//! public boundary.
use vstd::prelude::*;

verus! {

/// Unicode `White_Space` property, as used by `char::is_whitespace`.
pub open spec fn is_space(c: char) -> bool {
    ||| ('\u{9}' <= c && c <= '\u{d}')
    ||| c == ' '
    ||| c == '\u{85}'
    ||| c == '\u{a0}'
    ||| c == '\u{1680}'
    ||| ('\u{2000}' <= c && c <= '\u{200a}')
    ||| c == '\u{2028}'
    ||| c == '\u{2029}'
    ||| c == '\u{202f}'
    ||| c == '\u{205f}'
    ||| c == '\u{3000}'
}

pub fn char_is_space(c: char) -> (b: bool)
    ensures
        b == is_space(c),
{
    ('\u{9}' <= c && c <= '\u{d}') || c == ' ' || c == '\u{85}' || c == '\u{a0}' || c == '\u{1680}'
        || ('\u{2000}' <= c && c <= '\u{200a}') || c == '\u{2028}' || c == '\u{2029}' || c
        == '\u{202f}' || c == '\u{205f}' || c == '\u{3000}'
}

/// `s` with trailing white space removed (`str::trim_end`).
pub open spec fn trim_end(s: Seq<char>) -> Seq<char>
    decreases s.len(),
{
    if s.len() > 0 && is_space(s.last()) {
        trim_end(s.drop_last())
    } else {
        s
    }
}

/// `s` with leading white space removed (`str::trim_start`).
pub open spec fn trim_start(s: Seq<char>) -> Seq<char>
    decreases s.len(),
{
    if s.len() > 0 && is_space(s[0]) {
        trim_start(s.drop_first())
    } else {
        s
    }
}

/// Whether `s` holds nothing but white space (`s.trim().is_empty()`).
pub open spec fn is_blank(s: Seq<char>) -> bool {
    forall|i: int| 0 <= i < s.len() ==> is_space(#[trigger] s[i])
}

/// Split `s` at every `sep` (`str::split`): always at least one piece.
pub open spec fn split(s: Seq<char>, sep: char) -> Seq<Seq<char>>
    decreases s.len(),
{
    if s.len() == 0 {
        seq![Seq::<char>::empty()]
    } else {
        let rest = split(s.drop_last(), sep);
        if s.last() == sep {
            rest.push(Seq::<char>::empty())
        } else {
            rest.update(rest.len() - 1, rest.last().push(s.last()))
        }
    }
}

/// Join `parts` with `sep` between consecutive pieces (`[T]::join`).
pub open spec fn join(parts: Seq<Seq<char>>, sep: Seq<char>) -> Seq<char>
    decreases parts.len(),
{
    if parts.len() == 0 {
        Seq::<char>::empty()
    } else if parts.len() == 1 {
        parts[0]
    } else {
        join(parts.drop_last(), sep) + sep + parts.last()
    }
}

/// Concatenation of all pieces.
pub open spec fn concat(parts: Seq<Seq<char>>) -> Seq<char>
    decreases parts.len(),
{
    if parts.len() == 0 {
        Seq::<char>::empty()
    } else {
        concat(parts.drop_last()) + parts.last()
    }
}

/// `s` with every `\r\n` pair turned into `\n`, scanning left to right
/// (`str::replace("\r\n", "\n")`).
pub open spec fn replace_crlf(s: Seq<char>) -> Seq<char>
    decreases s.len(),
{
    if s.len() < 2 {
        s
    } else if s[0] == '\r' && s[1] == '\n' {
        seq!['\n'] + replace_crlf(s.skip(2))
    } else {
        seq![s[0]] + replace_crlf(s.skip(1))
    }
}

/// `line` without one carriage return at its end, if it has one.
pub open spec fn strip_cr(line: Seq<char>) -> Seq<char> {
    if line.len() > 0 && line.last() == '\r' {
        line.drop_last()
    } else {
        line
    }
}

/// The lines of a text after CRLF normalisation of lines that already had
/// it: every line but the last loses one carriage return at its end.
pub open spec fn strip_lines(lines: Seq<Seq<char>>) -> Seq<Seq<char>> {
    Seq::new(lines.len(), |i: int| if i < lines.len() - 1 { strip_cr(lines[i]) } else { lines[i] })
}

/// Normalising two texts joined is normalising each, unless the join
/// splits a `\r\n` pair.
proof fn lemma_replace_crlf_concat(p: Seq<char>, q: Seq<char>)
    requires
        !(p.len() > 0 && p.last() == '\r' && q.len() > 0 && q[0] == '\n'),
    ensures
        replace_crlf(p + q) == replace_crlf(p) + replace_crlf(q),
    decreases p.len(),
{
    let s = p + q;
    if p.len() == 0 {
        assert(s =~= q);
    } else if p.len() == 1 {
        if q.len() == 0 {
            assert(s =~= p);
            assert(replace_crlf(q) =~= q);
        } else {
            assert(s[0] == p[0] && s[1] == q[0]);
            assert(s.skip(1) =~= q);
            assert(replace_crlf(p) == p);
            assert(seq![p[0]] =~= p);
        }
    } else {
        assert(s[0] == p[0] && s[1] == p[1]);
        if p[0] == '\r' && p[1] == '\n' {
            assert(s.skip(2) =~= p.skip(2) + q);
            lemma_replace_crlf_concat(p.skip(2), q);
        } else {
            assert(s.skip(1) =~= p.skip(1) + q);
            lemma_replace_crlf_concat(p.skip(1), q);
        }
    }
}

/// Normalising a text with one more character at its end.
proof fn lemma_replace_crlf_push(p: Seq<char>, c: char)
    ensures
        p.len() > 0 && p.last() == '\r' && c == '\n' ==> replace_crlf(p.push(c)) == replace_crlf(p.drop_last()).push('\n'),
        !(p.len() > 0 && p.last() == '\r' && c == '\n') ==> replace_crlf(p.push(c)) == replace_crlf(p).push(c),
{
    if p.len() > 0 && p.last() == '\r' && c == '\n' {
        let a = p.drop_last();
        let crlf = seq!['\r', '\n'];
        assert(p.push(c) =~= a + crlf);
        lemma_replace_crlf_concat(a, crlf);
        assert(replace_crlf(crlf) =~= seq!['\n']) by {
            assert(crlf[0] == '\r' && crlf[1] == '\n');
            assert(crlf.skip(2) =~= Seq::<char>::empty());
            assert(replace_crlf(Seq::<char>::empty()) == Seq::<char>::empty());
            assert(replace_crlf(crlf) == seq!['\n'] + replace_crlf(crlf.skip(2)));
        }
        assert(replace_crlf(a) + seq!['\n'] =~= replace_crlf(a).push('\n'));
    } else {
        lemma_replace_crlf_concat(p, seq![c]);
        assert(p + seq![c] =~= p.push(c));
        assert(replace_crlf(p) + seq![c] =~= replace_crlf(p).push(c));
    }
}

/// Splitting a text with one more character at its end.
proof fn lemma_split_push(x: Seq<char>, c: char, sep: char)
    ensures
        split(x.push(c), sep) == if c == sep {
            split(x, sep).push(Seq::<char>::empty())
        } else {
            split(x, sep).update(split(x, sep).len() - 1, split(x, sep).last().push(c))
        },
{
    assert(x.push(c).drop_last() =~= x);
}

/// The lines of a normalised text are its lines, each but the last
/// without one carriage return at its end.
pub proof fn lemma_split_replace_crlf(s: Seq<char>)
    ensures
        split(replace_crlf(s), '\n') == strip_lines(split(s, '\n')),
    decreases s.len(),
{
    lemma_split_join(s, '\n');
    if s.len() == 0 {
        assert(strip_lines(split(s, '\n')) =~= split(s, '\n'));
    } else {
        let p = s.drop_last();
        let c = s.last();
        assert(s =~= p.push(c));
        lemma_replace_crlf_push(p, c);
        lemma_split_join(p, '\n');
        let l = split(p, '\n');
        let ls = split(s, '\n');
        lemma_split_push(p, c, '\n');
        if p.len() > 0 && p.last() == '\r' && c == '\n' {
            let a = p.drop_last();
            assert(p =~= a.push('\r'));
            lemma_split_replace_crlf(a);
            lemma_split_join(a, '\n');
            lemma_split_push(a, '\r', '\n');
            lemma_split_push(replace_crlf(a), '\n', '\n');
            let la = split(a, '\n');
            assert(l == la.update(la.len() - 1, la.last().push('\r')));
            assert(strip_cr(la.last().push('\r')) =~= la.last());
            assert(split(replace_crlf(s), '\n') =~= strip_lines(ls));
        } else {
            lemma_split_replace_crlf(p);
            lemma_split_push(replace_crlf(p), c, '\n');
            if c == '\n' {
                if p.len() > 0 {
                    assert(l.last().len() > 0 ==> l.last().last() == p.last()) by {
                        if p.last() == '\n' {
                            assert(l == split(p.drop_last(), '\n').push(Seq::<char>::empty())) by {
                                lemma_split_push(p.drop_last(), p.last(), '\n');
                                assert(p.drop_last().push(p.last()) =~= p);
                            }
                        } else {
                            lemma_split_push(p.drop_last(), p.last(), '\n');
                            assert(p.drop_last().push(p.last()) =~= p);
                        }
                    }
                    assert(strip_cr(l.last()) == l.last());
                } else {
                    assert(l =~= seq![Seq::<char>::empty()]);
                }
                assert(split(replace_crlf(s), '\n') =~= strip_lines(ls));
            } else {
                assert(split(replace_crlf(s), '\n') =~= strip_lines(ls));
            }
        }
    }
}

/// The pieces never contain the separator, and joining them gives `s` back.
pub proof fn lemma_split_join(s: Seq<char>, sep: char)
    ensures
        split(s, sep).len() >= 1,
        join(split(s, sep), seq![sep]) == s,
        forall|i: int, j: int|
            0 <= i < split(s, sep).len() && 0 <= j < split(s, sep)[i].len() ==> split(s, sep)[i][j]
                != sep,
    decreases s.len(),
{
    if s.len() > 0 {
        let rest = split(s.drop_last(), sep);
        lemma_split_join(s.drop_last(), sep);
        if s.last() == sep {
            assert(split(s, sep).drop_last() == rest);
            assert(s == s.drop_last() + seq![sep] + Seq::<char>::empty());
        } else {
            let r = rest.update(rest.len() - 1, rest.last().push(s.last()));
            if rest.len() == 1 {
                assert(s == rest[0].push(s.last()));
            } else {
                assert(r.drop_last() =~= rest.drop_last());
                let a = join(rest.drop_last(), seq![sep]);
                assert(join(rest, seq![sep]) == a + seq![sep] + rest.last());
                assert(s =~= s.drop_last().push(s.last()));
                assert((a + seq![sep] + rest.last()).push(s.last()) =~= a + seq![sep]
                    + rest.last().push(s.last()));
                assert(join(r, seq![sep]) == join(r.drop_last(), seq![sep]) + seq![sep]
                    + r.last());
            }
            assert forall|i: int, j: int|
                0 <= i < r.len() && 0 <= j < r[i].len() implies r[i][j] != sep by {
                if i == r.len() - 1 && j == r[i].len() - 1 {
                } else if i == r.len() - 1 {
                    assert(r[i][j] == rest.last()[j]);
                }
            }
        }
    }
}

/// The texts held by a vector of character vectors.
pub open spec fn lines_view(v: Seq<Vec<char>>) -> Seq<Seq<char>> {
    Seq::new(v.len(), |i: int| v[i]@)
}

/// Text of a `&str` as a vector of characters.
pub fn chars_of(s: &str) -> (res: Vec<char>)
    ensures
        res@ == s@,
{
    let mut out: Vec<char> = Vec::new();
    for c in it: s.chars()
        invariant
            it.seq() == s@,
            out@ == s@.take(it.index() as int),
    {
        assert(s@.take(it.index() as int).push(c) == s@.take(it.index() + 1));
        out.push(c);
    }
    assert(out@ == s@);
    out
}

/// Appends one character to a `String` (`String::push`).
#[verifier::external_body]
pub fn push_char(s: &mut String, c: char)
    ensures
        final(s)@ == old(s)@.push(c),
{
    s.push(c)
}

/// A `String` holding exactly the given characters.
pub fn string_of(v: &Vec<char>) -> (res: String)
    ensures
        res@ == v@,
{
    let mut out = String::new();
    let mut i: usize = 0;
    while i < v.len()
        invariant
            i <= v.len(),
            out@ == v@.take(i as int),
        decreases v.len() - i,
    {
        push_char(&mut out, v[i]);
        assert(v@.take(i as int).push(v@[i as int]) == v@.take(i + 1));
        i = i + 1;
    }
    assert(v@.take(v.len() as int) == v@);
    out
}

/// Appends all of `b` to `a`.
pub fn extend_chars(a: &mut Vec<char>, b: &[char])
    ensures
        final(a)@ == old(a)@ + b@,
{
    let mut i: usize = 0;
    while i < b.len()
        invariant
            i <= b.len(),
            a@ == old(a)@ + b@.take(i as int),
        decreases b.len() - i,
    {
        a.push(b[i]);
        assert(b@.take(i as int).push(b@[i as int]) == b@.take(i + 1));
        i = i + 1;
    }
    assert(b@.take(b.len() as int) == b@);
}

/// Appends the characters of `s` to `a`.
pub fn extend_str(a: &mut Vec<char>, s: &str)
    ensures
        final(a)@ == old(a)@ + s@,
{
    let v = chars_of(s);
    extend_chars(a, v.as_slice());
}

/// Character-wise equality.
pub fn chars_eq(a: &[char], b: &[char]) -> (res: bool)
    ensures
        res == (a@ == b@),
{
    if a.len() != b.len() {
        return false;
    }
    let mut i: usize = 0;
    while i < a.len()
        invariant
            a.len() == b.len(),
            i <= a.len(),
            forall|j: int| 0 <= j < i ==> a@[j] == b@[j],
        decreases a.len() - i,
    {
        if a[i] != b[i] {
            return false;
        }
        i = i + 1;
    }
    assert(a@ =~= b@);
    true
}

/// Whether `s` equals the text of `lit`.
pub fn chars_eq_str(s: &[char], lit: &str) -> (res: bool)
    ensures
        res == (s@ == lit@),
{
    let v = chars_of(lit);
    chars_eq(s, v.as_slice())
}

/// `s` without trailing white space.
pub fn trim_end_chars(s: &[char]) -> (res: Vec<char>)
    ensures
        res@ == trim_end(s@),
{
    let mut n: usize = s.len();
    assert(s@.take(n as int) =~= s@);
    while n > 0 && char_is_space(s[n - 1])
        invariant
            n <= s.len(),
            trim_end(s@) == trim_end(s@.take(n as int)),
        decreases n,
    {
        assert(s@.take(n as int).drop_last() =~= s@.take(n - 1));
        n = n - 1;
    }
    let mut out: Vec<char> = Vec::new();
    let mut i: usize = 0;
    while i < n
        invariant
            n <= s.len(),
            i <= n,
            out@ == s@.take(i as int),
        decreases n - i,
    {
        out.push(s[i]);
        assert(s@.take(i as int).push(s@[i as int]) == s@.take(i + 1));
        i = i + 1;
    }
    out
}

/// Whether `s` is only white space.
pub fn chars_is_blank(s: &[char]) -> (res: bool)
    ensures
        res == is_blank(s@),
{
    let mut i: usize = 0;
    while i < s.len()
        invariant
            i <= s.len(),
            forall|j: int| 0 <= j < i ==> is_space(#[trigger] s@[j]),
        decreases s.len() - i,
    {
        if !char_is_space(s[i]) {
            return false;
        }
        i = i + 1;
    }
    true
}

/// Splits `s` at every `sep`.
pub fn split_chars(s: &[char], sep: char) -> (res: Vec<Vec<char>>)
    ensures
        lines_view(res@) == split(s@, sep),
{
    let mut out: Vec<Vec<char>> = Vec::new();
    out.push(Vec::new());
    let mut i: usize = 0;
    assert(s@.take(0) =~= Seq::<char>::empty());
    assert(lines_view(out@) =~= seq![Seq::<char>::empty()]);
    while i < s.len()
        invariant
            i <= s.len(),
            out.len() >= 1,
            lines_view(out@) == split(s@.take(i as int), sep),
        decreases s.len() - i,
    {
        let c = s[i];
        assert(s@.take(i + 1).drop_last() =~= s@.take(i as int));
        let ghost before = lines_view(out@);
        if c == sep {
            out.push(Vec::new());
            assert(lines_view(out@) =~= before.push(Seq::<char>::empty()));
        } else {
            let last = out.len() - 1;
            let mut piece = out.pop().unwrap();
            piece.push(c);
            out.push(piece);
            assert(lines_view(out@) =~= before.update(last as int, before.last().push(c)));
        }
        i = i + 1;
    }
    assert(s@.take(s.len() as int) == s@);
    out
}

/// Joins `parts[lo..hi]` with the single character `sep` between consecutive
/// pieces.
pub fn join_chars(parts: &[Vec<char>], lo: usize, hi: usize, sep: char) -> (res: Vec<char>)
    requires
        lo <= hi <= parts.len(),
    ensures
        res@ == join(lines_view(parts@).subrange(lo as int, hi as int), seq![sep]),
{
    let mut out: Vec<char> = Vec::new();
    let mut i: usize = lo;
    assert(lines_view(parts@).subrange(lo as int, lo as int).len() == 0);
    while i < hi
        invariant
            lo <= i <= hi <= parts.len(),
            out@ == join(lines_view(parts@).subrange(lo as int, i as int), seq![sep]),
        decreases hi - i,
    {
        if i > lo {
            out.push(sep);
        }
        extend_chars(&mut out, parts[i].as_slice());
        let ghost t = lines_view(parts@).subrange(lo as int, i + 1);
        assert(t.drop_last() =~= lines_view(parts@).subrange(lo as int, i as int));
        assert(t.last() == parts[i as int]@);
        i = i + 1;
    }
    out
}

/// `s` with every `\r\n` turned into `\n`.
pub fn replace_crlf_chars(s: &[char]) -> (res: Vec<char>)
    ensures
        res@ == replace_crlf(s@),
{
    let mut out: Vec<char> = Vec::new();
    let mut i: usize = 0;
    assert(s@.skip(0) =~= s@);
    while i < s.len()
        invariant
            i <= s.len(),
            out@ + replace_crlf(s@.skip(i as int)) == replace_crlf(s@),
        decreases s.len() - i,
    {
        let ghost rest = s@.skip(i as int);
        if i + 1 < s.len() && s[i] == '\r' && s[i + 1] == '\n' {
            out.push('\n');
            assert(rest.skip(2) == s@.skip(i + 2));
            i = i + 2;
        } else {
            out.push(s[i]);
            proof {
                if rest.len() >= 2 {
                    assert(rest.skip(1) == s@.skip(i + 1));
                } else {
                    assert(rest == seq![s@[i as int]]);
                    assert(s@.skip(i + 1).len() == 0);
                }
            }
            i = i + 1;
        }
    }
    out
}

/// Skipping leading white space does not change `trim_start`.
pub proof fn lemma_trim_start_skip(s: Seq<char>, k: int)
    requires
        0 <= k <= s.len(),
        forall|j: int| 0 <= j < k ==> is_space(#[trigger] s[j]),
    ensures
        trim_start(s) == trim_start(s.skip(k)),
    decreases k,
{
    if k > 0 {
        assert(s.drop_first().skip(k - 1) =~= s.skip(k));
        assert forall|j: int| 0 <= j < k - 1 implies is_space(#[trigger] s.drop_first()[j]) by {
            assert(s.drop_first()[j] == s[j + 1]);
        }
        lemma_trim_start_skip(s.drop_first(), k - 1);
    } else {
        assert(s.skip(0) =~= s);
    }
}

/// `s` without leading white space.
pub fn trim_start_chars(s: &[char]) -> (res: Vec<char>)
    ensures
        res@ == trim_start(s@),
{
    let mut k: usize = 0;
    while k < s.len() && char_is_space(s[k])
        invariant
            k <= s.len(),
            forall|j: int| 0 <= j < k ==> is_space(#[trigger] s@[j]),
        decreases s.len() - k,
    {
        k = k + 1;
    }
    proof {
        lemma_trim_start_skip(s@, k as int);
    }
    let mut out: Vec<char> = Vec::new();
    let mut i: usize = k;
    while i < s.len()
        invariant
            k <= i <= s.len(),
            out@ == s@.subrange(k as int, i as int),
        decreases s.len() - i,
    {
        out.push(s[i]);
        assert(s@.subrange(k as int, i as int).push(s@[i as int]) == s@.subrange(k as int, i + 1));
        i = i + 1;
    }
    assert(s@.skip(k as int) =~= s@.subrange(k as int, s.len() as int));
    out
}

/// The decimal digit character of `d` (below ten).
pub open spec fn digit_char(d: nat) -> char {
    if d == 0 {
        '0'
    } else if d == 1 {
        '1'
    } else if d == 2 {
        '2'
    } else if d == 3 {
        '3'
    } else if d == 4 {
        '4'
    } else if d == 5 {
        '5'
    } else if d == 6 {
        '6'
    } else if d == 7 {
        '7'
    } else if d == 8 {
        '8'
    } else {
        '9'
    }
}

/// The decimal notation of a number, without leading zeros.
pub open spec fn decimal(n: nat) -> Seq<char>
    decreases n,
{
    if n < 10 {
        seq![digit_char(n)]
    } else {
        decimal(n / 10).push(digit_char(n % 10))
    }
}

fn digit(d: usize) -> (c: char)
    requires
        d < 10,
    ensures
        c == digit_char(d as nat),
{
    match d {
        0 => '0',
        1 => '1',
        2 => '2',
        3 => '3',
        4 => '4',
        5 => '5',
        6 => '6',
        7 => '7',
        8 => '8',
        _ => '9',
    }
}

/// Appends the decimal notation of `n`.
pub fn push_decimal(out: &mut Vec<char>, n: usize)
    ensures
        final(out)@ == old(out)@ + decimal(n as nat),
    decreases n,
{
    if n >= 10 {
        push_decimal(out, n / 10);
    }
    out.push(digit(n % 10));
    assert(final(out)@ =~= old(out)@ + decimal(n as nat));
}

} // verus!
