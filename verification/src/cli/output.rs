//! Rendering of command results: aligned text tables and the fields shown
//! for common Notion objects.
//!
//! Column widths are display widths (a CJK character takes two columns), as
//! unicode-width measures them.
use crate::json::{as_array_spec, as_object_spec, as_str_spec, get_spec, JsonValue, SpecJson};
use crate::models::page::{join_plain, join_plain_text, title_property};
use crate::text::{extend_str, string_of};
use vstd::prelude::*;

verus! {

broadcast use vstd::std_specs::vec::group_vec_axioms;

/// How a command presents its result.
#[derive(Debug, Clone, Copy, PartialEq, Eq)]
pub enum OutputFormat {
    /// Aligned, human-readable table.
    Table,
    /// Pretty-printed JSON.
    Json,
}

impl OutputFormat {
    /// The default format: a table.
    pub fn default_format() -> (f: Self)
        ensures
            f == OutputFormat::Table,
    {
        OutputFormat::Table
    }
}

/// The display width of a text, in terminal columns.
pub uninterp spec fn text_width(s: Seq<char>) -> nat;

/// Whether every character of `s` is printable ASCII (U+0020 to U+007E).
pub open spec fn printable_ascii(s: Seq<char>) -> bool {
    forall|i: int| 0 <= i < s.len() ==> ' ' <= #[trigger] s[i] <= '~'
}

/// `UnicodeWidthStr::width`; the contract names the result and states the
/// crate's documented rule for printable ASCII, one column per character
/// (no ligature rule of the crate involves only such characters).
#[verifier::external_body]
fn str_width(s: &str) -> (w: usize)
    ensures
        w == text_width(s@),
        printable_ascii(s@) ==> w == s@.len(),
{
    unicode_width::UnicodeWidthStr::width(s)
}

/// `n` spaces.
pub open spec fn spaces(n: nat) -> Seq<char> {
    Seq::new(n, |i: int| ' ')
}

/// `a - b`, or 0 when `b` is larger.
pub open spec fn sat_sub(a: nat, b: nat) -> nat {
    if a >= b {
        (a - b) as nat
    } else {
        0
    }
}

/// The first `n` cells of a row, each padded to its column's width and
/// separated by ` | `; cells past the known widths are not padded.
pub open spec fn row_text(cells: Seq<Seq<char>>, widths: Seq<nat>, n: int) -> Seq<char>
    decreases n,
{
    if n <= 0 {
        seq![]
    } else {
        let i = n - 1;
        let pad = if i < widths.len() { sat_sub(widths[i], text_width(cells[i])) } else { 0 };
        row_text(cells, widths, n - 1) + (if i > 0 { seq![' ', '|', ' '] } else { seq![] }) + cells[i] + spaces(pad)
    }
}

/// `s` without trailing spaces.
pub open spec fn trim_spaces(s: Seq<char>) -> Seq<char>
    decreases s.len(),
{
    if s.len() > 0 && s.last() == ' ' {
        trim_spaces(s.drop_last())
    } else {
        s
    }
}

/// One table line: the padded cells without trailing spaces, then a newline.
pub open spec fn line_of(cells: Seq<Seq<char>>, widths: Seq<nat>) -> Seq<char> {
    trim_spaces(row_text(cells, widths, cells.len() as int)) + seq!['\n']
}

/// The width of column `i` over the first `n` rows and the header.
pub open spec fn col_width(headers: Seq<Seq<char>>, rows: Seq<Seq<Seq<char>>>, i: int, n: int) -> nat
    decreases n,
{
    if n <= 0 {
        text_width(headers[i])
    } else {
        let m = col_width(headers, rows, i, n - 1);
        let r = rows[n - 1];
        if i < r.len() && text_width(r[i]) > m {
            text_width(r[i])
        } else {
            m
        }
    }
}

/// The column widths of a table.
pub open spec fn widths_of(headers: Seq<Seq<char>>, rows: Seq<Seq<Seq<char>>>) -> Seq<nat> {
    Seq::new(headers.len(), |i: int| col_width(headers, rows, i, rows.len() as int))
}

/// The separator cells: as many dashes as each column is wide.
pub open spec fn separators(widths: Seq<nat>) -> Seq<Seq<char>> {
    Seq::new(widths.len(), |i: int| Seq::new(widths[i], |k: int| '-'))
}

/// The lines of the first `n` rows.
pub open spec fn rows_text(rows: Seq<Seq<Seq<char>>>, widths: Seq<nat>, n: int) -> Seq<char>
    decreases n,
{
    if n <= 0 {
        seq![]
    } else {
        rows_text(rows, widths, n - 1) + line_of(rows[n - 1], widths)
    }
}

/// An aligned table: the header line, a separator line of dashes, then one
/// line per row, each ending in a newline.
pub open spec fn table_text(headers: Seq<Seq<char>>, rows: Seq<Seq<Seq<char>>>) -> Seq<char> {
    let w = widths_of(headers, rows);
    line_of(headers, w) + line_of(separators(w), w) + rows_text(rows, w, rows.len() as int)
}

/// The texts of strings.
pub open spec fn texts(s: Seq<String>) -> Seq<Seq<char>> {
    Seq::new(s.len(), |i: int| s[i]@)
}

/// The texts of string slices.
pub open spec fn str_texts(s: Seq<&str>) -> Seq<Seq<char>> {
    Seq::new(s.len(), |i: int| s[i]@)
}

/// The texts of the rows.
pub open spec fn rows_texts(rows: Seq<Vec<String>>) -> Seq<Seq<Seq<char>>> {
    Seq::new(rows.len(), |i: int| texts(rows[i]@))
}

/// Appends one line of padded cells.
fn write_row(out: &mut Vec<char>, cells: &[String], widths: &Vec<usize>)
    ensures
        final(out)@ == old(out)@ + line_of(texts(cells@), Seq::new(widths@.len(), |i: int| widths@[i] as nat)),
{
    let ghost w = Seq::new(widths@.len(), |i: int| widths@[i] as nat);
    let ghost cv = texts(cells@);
    let mut line: Vec<char> = Vec::new();
    let mut i: usize = 0;
    while i < cells.len()
        invariant
            i <= cells.len(),
            w == Seq::new(widths@.len(), |i: int| widths@[i] as nat),
            cv == texts(cells@),
            line@ == row_text(cv, w, i as int),
        decreases cells.len() - i,
    {
        if i > 0 {
            line.push(' ');
            line.push('|');
            line.push(' ');
        }
        let cw = str_width(cells[i].as_str());
        let pad: usize = if i < widths.len() {
            if widths[i] >= cw {
                widths[i] - cw
            } else {
                0
            }
        } else {
            0
        };
        extend_str(&mut line, cells[i].as_str());
        let mut k: usize = 0;
        let ghost base = line@;
        while k < pad
            invariant
                k <= pad,
                line@ == base + spaces(k as nat),
            decreases pad - k,
        {
            line.push(' ');
            assert(line@ =~= base + spaces((k + 1) as nat));
            k = k + 1;
        }
        assert(line@ =~= row_text(cv, w, i + 1));
        i = i + 1;
    }
    let mut n: usize = line.len();
    assert(line@.take(n as int) =~= line@);
    while n > 0 && line[n - 1] == ' '
        invariant
            n <= line.len(),
            trim_spaces(line@) == trim_spaces(line@.take(n as int)),
        decreases n,
    {
        assert(line@.take(n as int).drop_last() =~= line@.take(n - 1));
        n = n - 1;
    }
    let mut j: usize = 0;
    let ghost start = out@;
    while j < n
        invariant
            j <= n,
            n <= line.len(),
            out@ == start + line@.take(j as int),
        decreases n - j,
    {
        out.push(line[j]);
        assert(line@.take(j + 1) =~= line@.take(j as int).push(line@[j as int]));
        j = j + 1;
    }
    out.push('\n');
    assert(trim_spaces(line@) == line@.take(n as int));
}

/// Renders an aligned text table with a header line and a separator line;
/// each column is as wide as its widest cell, header included.
pub fn render_table(headers: &[&str], rows: &[Vec<String>]) -> (r: String)
    ensures
        r@ == table_text(str_texts(headers@), rows_texts(rows@)),
{
    let ghost hv = str_texts(headers@);
    let ghost rv = rows_texts(rows@);
    let cols = headers.len();
    let mut widths: Vec<usize> = Vec::new();
    let mut c: usize = 0;
    while c < cols
        invariant
            c <= cols,
            cols == headers.len(),
            hv == str_texts(headers@),
            rv == rows_texts(rows@),
            widths.len() == c,
            forall|q: int| 0 <= q < c ==> #[trigger] widths@[q] as nat == col_width(hv, rv, q, rows.len() as int),
        decreases cols - c,
    {
        let mut w = str_width(headers[c]);
        let mut k: usize = 0;
        while k < rows.len()
            invariant
                k <= rows.len(),
                c < cols,
                cols == headers.len(),
                hv == str_texts(headers@),
                rv == rows_texts(rows@),
                w as nat == col_width(hv, rv, c as int, k as int),
            decreases rows.len() - k,
        {
            if c < rows[k].len() {
                let cw = str_width(rows[k][c].as_str());
                if cw > w {
                    w = cw;
                }
            }
            k = k + 1;
        }
        widths.push(w);
        c = c + 1;
    }
    let ghost wv = Seq::new(widths@.len(), |i: int| widths@[i] as nat);
    assert(wv =~= widths_of(hv, rv));
    let mut out: Vec<char> = Vec::new();
    let mut head: Vec<String> = Vec::new();
    let mut h: usize = 0;
    while h < headers.len()
        invariant
            h <= headers.len(),
            head.len() == h,
            forall|q: int| 0 <= q < h ==> (#[trigger] head@[q])@ == headers@[q]@,
        decreases headers.len() - h,
    {
        head.push(String::from_str(headers[h]));
        h = h + 1;
    }
    assert(texts(head@) =~= hv);
    write_row(&mut out, head.as_slice(), &widths);
    let mut sep: Vec<String> = Vec::new();
    let mut s: usize = 0;
    while s < widths.len()
        invariant
            s <= widths.len(),
            sep.len() == s,
            forall|q: int| 0 <= q < s ==> (#[trigger] sep@[q])@ == Seq::new(widths@[q] as nat, |k: int| '-'),
        decreases widths.len() - s,
    {
        let mut d: Vec<char> = Vec::new();
        let mut k: usize = 0;
        let target = widths[s];
        while k < target
            invariant
                k <= target,
                d@ == Seq::new(k as nat, |j: int| '-'),
            decreases target - k,
        {
            d.push('-');
            assert(d@ =~= Seq::new((k + 1) as nat, |j: int| '-'));
            k = k + 1;
        }
        sep.push(string_of(&d));
        s = s + 1;
    }
    assert(texts(sep@) =~= separators(wv));
    write_row(&mut out, sep.as_slice(), &widths);
    let ghost after_head = out@;
    let mut r: usize = 0;
    while r < rows.len()
        invariant
            r <= rows.len(),
            rv == rows_texts(rows@),
            wv == Seq::new(widths@.len(), |i: int| widths@[i] as nat),
            out@ == after_head + rows_text(rv, wv, r as int),
        decreases rows.len() - r,
    {
        assert(texts(rows@[r as int]@) == rv[r as int]);
        write_row(&mut out, rows[r].as_slice(), &widths);
        r = r + 1;
    }
    string_of(&out)
}

/// A string member, or `-` when absent or not a string.
pub open spec fn str_or_dash_spec(v: Option<SpecJson>) -> Seq<char> {
    match as_str_spec(v) {
        Some(s) => s,
        None => "-"@,
    }
}

/// A string member, or `-`.
fn str_or_dash(v: Option<&JsonValue>) -> (r: String)
    ensures
        r@ == str_or_dash_spec(
            match v {
                Some(x) => Some(x@),
                None => None,
            },
        ),
{
    match v {
        Some(x) => match x.as_str() {
            Some(s) => s.clone(),
            None => String::from_str("-"),
        },
        None => String::from_str("-"),
    }
}

/// `id` field, or `-`.
pub fn field_id(v: &JsonValue) -> (r: String)
    ensures
        r@ == str_or_dash_spec(get_spec(v@, "id"@)),
{
    str_or_dash(v.get("id"))
}

/// `object` type (`page`, `database`, `user`, `block`, ...), or `-`.
pub fn field_object(v: &JsonValue) -> (r: String)
    ensures
        r@ == str_or_dash_spec(get_spec(v@, "object"@)),
{
    str_or_dash(v.get("object"))
}

/// `url` field, or `-`.
pub fn field_url(v: &JsonValue) -> (r: String)
    ensures
        r@ == str_or_dash_spec(get_spec(v@, "url"@)),
{
    str_or_dash(v.get("url"))
}

/// Block `type`, or `-`.
pub fn field_block_type(v: &JsonValue) -> (r: String)
    ensures
        r@ == str_or_dash_spec(get_spec(v@, "type"@)),
{
    str_or_dash(v.get("type"))
}

/// `last_edited_time`, or `-`.
pub fn field_last_edited(v: &JsonValue) -> (r: String)
    ensures
        r@ == str_or_dash_spec(get_spec(v@, "last_edited_time"@)),
{
    str_or_dash(v.get("last_edited_time"))
}

/// The title text of a page's `title`-typed property, if it has one.
pub open spec fn page_title_text(v: SpecJson) -> Option<Seq<char>> {
    match get_spec(v, "properties"@) {
        Some(props) => match as_object_spec(props) {
            Some(entries) => match title_property(entries) {
                Some(p) => match as_array_spec(get_spec(p, "title"@)) {
                    Some(a) => Some(join_plain(a)),
                    None => None,
                },
                None => None,
            },
            None => None,
        },
        None => None,
    }
}

/// The best human title of a Notion object: the text of a page's title
/// property, a database's title, or a user's name; `Untitled` otherwise.
pub open spec fn title_text(v: SpecJson) -> Seq<char> {
    match page_title_text(v) {
        Some(t) if t.len() > 0 => t,
        _ => match as_array_spec(get_spec(v, "title"@)) {
            Some(a) if join_plain(a).len() > 0 => join_plain(a),
            _ => match as_str_spec(get_spec(v, "name"@)) {
                Some(n) => n,
                None => "Untitled"@,
            },
        },
    }
}

/// The best human title of a Notion object.
pub fn field_title(v: &JsonValue) -> (r: String)
    ensures
        r@ == title_text(v@),
{
    match v.get("properties") {
        Some(JsonValue::Object(entries)) => match crate::models::page::find_title_property(entries) {
            Some(p) => match p.get("title") {
                Some(JsonValue::Array(a)) => {
                    let t = join_plain_text(a.as_slice());
                    if !t.as_str().is_empty() {
                        return t;
                    }
                },
                _ => {},
            },
            None => {},
        },
        _ => {},
    }
    match v.get("title") {
        Some(JsonValue::Array(a)) => {
            let t = join_plain_text(a.as_slice());
            if !t.as_str().is_empty() {
                return t;
            }
        },
        _ => {},
    }
    match v.get("name") {
        Some(JsonValue::String(n)) => n.clone(),
        _ => String::from_str("Untitled"),
    }
}

/// `s` padded with spaces on the right to at least `n` characters.
pub open spec fn pad_right(s: Seq<char>, n: nat) -> Seq<char> {
    s + spaces(sat_sub(n, s.len()))
}

/// `n` dashes.
pub open spec fn dashes(n: nat) -> Seq<char> {
    Seq::new(n, |i: int| '-')
}

fn push_padded(out: &mut Vec<char>, s: &str, n: usize)
    ensures
        final(out)@ == old(out)@ + pad_right(s@, n as nat),
{
    let c = crate::text::chars_of(s);
    crate::text::extend_chars(out, c.as_slice());
    let mut k: usize = c.len();
    while k < n
        invariant
            c@ == s@,
            c.len() <= k <= n || (k == c.len() && c.len() >= n),
            out@ == old(out)@ + s@ + spaces(sat_sub(k as nat, s@.len())),
        decreases n - k,
    {
        out.push(' ');
        assert(spaces(sat_sub((k + 1) as nat, s@.len())) =~= spaces(sat_sub(k as nat, s@.len())).push(' '));
        k = k + 1;
    }
    assert(spaces(sat_sub(k as nat, s@.len())) =~= spaces(sat_sub(n as nat, s@.len())));
}

/// The `plain_text` of the first element of a rich-text array.
pub open spec fn first_plain(v: Option<SpecJson>) -> Option<Seq<char>> {
    match as_array_spec(v) {
        Some(a) => if a.len() > 0 {
            as_str_spec(get_spec(a[0], "plain_text"@))
        } else {
            None
        },
        None => None,
    }
}

/// The title column of a search result: for a page, the first span of its
/// `title` property (the member named `title`, else the first property of
/// type `title`), `Untitled` without one; for a database, the first span
/// of its title, `Untitled Database` without one; `N/A` for anything else.
pub open spec fn search_title(res: SpecJson) -> Seq<char> {
    let kind = match as_str_spec(get_spec(res, "object"@)) {
        Some(k) => k,
        None => "unknown"@,
    };
    if kind == "page"@ {
        let props = get_spec(res, "properties"@);
        let prop = match props {
            Some(p) => match get_spec(p, "title"@) {
                Some(t) => Some(t),
                None => match as_object_spec(p) {
                    Some(entries) => title_property(entries),
                    None => None,
                },
            },
            None => None,
        };
        match prop {
            Some(t) => match first_plain(get_spec(t, "title"@)) {
                Some(x) => x,
                None => "Untitled"@,
            },
            None => "Untitled"@,
        }
    } else if kind == "database"@ {
        match first_plain(get_spec(res, "title"@)) {
            Some(x) => x,
            None => "Untitled Database"@,
        }
    } else {
        "N/A"@
    }
}

/// A line of the search results table: title, id and type, padded to 40,
/// 36 and 10 characters and separated by ` | `.
pub open spec fn search_line(title: Seq<char>, id: Seq<char>, kind: Seq<char>) -> Seq<char> {
    pad_right(title, 40) + " | "@ + pad_right(id, 36) + " | "@ + pad_right(kind, 10) + "\n"@
}

/// The search results table: a header line, a dashed rule, then one line
/// per result (its id `N/A` and its type `unknown` when missing).
pub open spec fn search_table(results: Seq<SpecJson>) -> Seq<char>
    decreases results.len(),
{
    if results.len() == 0 {
        search_line("Title"@, "ID"@, "Type"@) + dashes(40) + "-+-"@ + dashes(36) + "-+-"@ + dashes(10) + "\n"@
    } else {
        let r = results.last();
        search_table(results.drop_last()) + search_line(
            search_title(r),
            match as_str_spec(get_spec(r, "id"@)) {
                Some(i) => i,
                None => "N/A"@,
            },
            match as_str_spec(get_spec(r, "object"@)) {
                Some(k) => k,
                None => "unknown"@,
            },
        )
    }
}

fn first_plain_text(v: Option<&JsonValue>) -> (r: Option<String>)
    ensures
        crate::ir::inline::opt_view(r) == first_plain(
            match v {
                Some(x) => Some(x@),
                None => None,
            },
        ),
{
    match v {
        Some(JsonValue::Array(a)) => {
            proof {
                crate::json::lemma_json_views(a@);
            }
            if a.len() > 0 {
                match a[0].get("plain_text") {
                    Some(JsonValue::String(s)) => Some(s.clone()),
                    _ => None,
                }
            } else {
                None
            }
        },
        _ => None,
    }
}

fn search_title_text(res: &JsonValue) -> (r: String)
    ensures
        r@ == search_title(res@),
{
    let kind = match res.get("object") {
        Some(JsonValue::String(k)) => k.clone(),
        _ => String::from_str("unknown"),
    };
    if crate::json::string_is(&kind, "page") {
        let prop: Option<&JsonValue> = match res.get("properties") {
            Some(p) => match p.get("title") {
                Some(t) => Some(t),
                None => match p {
                    JsonValue::Object(entries) => crate::models::page::find_title_property(entries),
                    _ => None,
                },
            },
            None => None,
        };
        match prop {
            Some(t) => match first_plain_text(t.get("title")) {
                Some(x) => x,
                None => String::from_str("Untitled"),
            },
            None => String::from_str("Untitled"),
        }
    } else if crate::json::string_is(&kind, "database") {
        match first_plain_text(res.get("title")) {
            Some(x) => x,
            None => String::from_str("Untitled Database"),
        }
    } else {
        String::from_str("N/A")
    }
}

fn push_search_line(out: &mut Vec<char>, title: &str, id: &str, kind: &str)
    ensures
        final(out)@ == old(out)@ + search_line(title@, id@, kind@),
{
    push_padded(out, title, 40);
    extend_str(out, " | ");
    push_padded(out, id, 36);
    extend_str(out, " | ");
    push_padded(out, kind, 10);
    extend_str(out, "\n");
    assert(final(out)@ =~= old(out)@ + search_line(title@, id@, kind@));
}

/// The text the search commands print: a header, a rule, and a line per
/// result with its title, id and type.
pub fn search_results_text(results: &Vec<JsonValue>) -> (r: String)
    ensures
        r@ == search_table(crate::json::json_views(results@)),
{
    let ghost rv = crate::json::json_views(results@);
    proof {
        crate::json::lemma_json_views(results@);
    }
    let mut out: Vec<char> = Vec::new();
    push_search_line(&mut out, "Title", "ID", "Type");
    let mut k: usize = 0;
    while k < 40
        invariant
            k <= 40,
            out@ == search_line("Title"@, "ID"@, "Type"@) + dashes(k as nat),
        decreases 40 - k,
    {
        out.push('-');
        assert(dashes((k + 1) as nat) =~= dashes(k as nat).push('-'));
        k = k + 1;
    }
    extend_str(&mut out, "-+-");
    let ghost o1 = out@;
    k = 0;
    while k < 36
        invariant
            k <= 36,
            out@ == o1 + dashes(k as nat),
        decreases 36 - k,
    {
        out.push('-');
        assert(dashes((k + 1) as nat) =~= dashes(k as nat).push('-'));
        k = k + 1;
    }
    extend_str(&mut out, "-+-");
    let ghost o2 = out@;
    k = 0;
    while k < 10
        invariant
            k <= 10,
            out@ == o2 + dashes(k as nat),
        decreases 10 - k,
    {
        out.push('-');
        assert(dashes((k + 1) as nat) =~= dashes(k as nat).push('-'));
        k = k + 1;
    }
    extend_str(&mut out, "\n");
    assert(out@ =~= search_table(rv.take(0)));
    let mut i: usize = 0;
    while i < results.len()
        invariant
            i <= results.len(),
            rv == crate::json::json_views(results@),
            rv.len() == results.len(),
            forall|q: int| 0 <= q < results.len() ==> #[trigger] rv[q] == results@[q]@,
            out@ == search_table(rv.take(i as int)),
        decreases results.len() - i,
    {
        assert(rv.take(i + 1).drop_last() =~= rv.take(i as int));
        let res = &results[i];
        let title = search_title_text(res);
        let id = match res.get("id") {
            Some(JsonValue::String(s)) => s.clone(),
            _ => String::from_str("N/A"),
        };
        let kind = match res.get("object") {
            Some(JsonValue::String(s)) => s.clone(),
            _ => String::from_str("unknown"),
        };
        push_search_line(&mut out, title.as_str(), id.as_str(), kind.as_str());
        i = i + 1;
    }
    assert(rv.take(results.len() as int) =~= rv);
    string_of(&out)
}

/// A field of a record shown in a column.
#[derive(Debug, Clone, Copy, PartialEq, Eq)]
pub enum Field {
    Id,
    Object,
    Title,
    Url,
    BlockType,
    LastEdited,
}

/// The text of a field of a record.
pub open spec fn field_text(f: Field, v: SpecJson) -> Seq<char> {
    match f {
        Field::Id => str_or_dash_spec(get_spec(v, "id"@)),
        Field::Object => str_or_dash_spec(get_spec(v, "object"@)),
        Field::Title => title_text(v),
        Field::Url => str_or_dash_spec(get_spec(v, "url"@)),
        Field::BlockType => str_or_dash_spec(get_spec(v, "type"@)),
        Field::LastEdited => str_or_dash_spec(get_spec(v, "last_edited_time"@)),
    }
}

/// A named column of a table, or a line of an object's view, and the field
/// it shows.
#[derive(Debug, Clone, Copy)]
pub struct Column {
    pub header: &'static str,
    pub field: Field,
}

impl Column {
    pub fn new(header: &'static str, field: Field) -> (c: Self)
        ensures
            c.header == header,
            c.field == field,
    {
        Column { header, field }
    }

    /// The text of the column's field in a record.
    pub fn extract(&self, v: &JsonValue) -> (r: String)
        ensures
            r@ == field_text(self.field, v@),
    {
        match self.field {
            Field::Id => field_id(v),
            Field::Object => field_object(v),
            Field::Title => field_title(v),
            Field::Url => field_url(v),
            Field::BlockType => field_block_type(v),
            Field::LastEdited => field_last_edited(v),
        }
    }
}

/// The headers of columns.
pub open spec fn headers_of(columns: Seq<Column>) -> Seq<Seq<char>> {
    Seq::new(columns.len(), |j: int| columns[j].header@)
}

/// The cells of records under columns.
pub open spec fn cells_of(rows: Seq<SpecJson>, columns: Seq<Column>) -> Seq<Seq<Seq<char>>> {
    Seq::new(rows.len(), |i: int| Seq::new(columns.len(), |j: int| field_text(columns[j].field, rows[i])))
}

/// The table of records under the columns; `None` when there are no
/// records, which the caller reports as such.
pub fn records_table(rows: &Vec<JsonValue>, columns: &Vec<Column>) -> (r: Option<String>)
    ensures
        rows@.len() == 0 ==> r is None,
        rows@.len() > 0 ==> (r matches Some(t) && t@ == table_text(
            headers_of(columns@),
            cells_of(crate::json::json_views(rows@), columns@),
        )),
{
    if rows.len() == 0 {
        return None;
    }
    let ghost rv = crate::json::json_views(rows@);
    proof {
        crate::json::lemma_json_views(rows@);
    }
    let mut headers: Vec<&str> = Vec::new();
    let mut j: usize = 0;
    while j < columns.len()
        invariant
            j <= columns.len(),
            headers@.len() == j,
            forall|k: int| 0 <= k < j ==> (#[trigger] headers@[k])@ == columns@[k].header@,
        decreases columns.len() - j,
    {
        headers.push(columns[j].header);
        j = j + 1;
    }
    let mut table: Vec<Vec<String>> = Vec::new();
    let mut i: usize = 0;
    while i < rows.len()
        invariant
            i <= rows.len(),
            rv == crate::json::json_views(rows@),
            rv.len() == rows.len(),
            forall|q: int| 0 <= q < rows.len() ==> #[trigger] rv[q] == rows@[q]@,
            table@.len() == i,
            forall|k: int| 0 <= k < i ==> #[trigger] texts(table@[k]@) == cells_of(rv, columns@)[k],
        decreases rows.len() - i,
    {
        let mut rec: Vec<String> = Vec::new();
        let mut c: usize = 0;
        while c < columns.len()
            invariant
                c <= columns.len(),
                i < rows.len(),
                rv[i as int] == rows@[i as int]@,
                rec@.len() == c,
                forall|k: int| 0 <= k < c ==> (#[trigger] rec@[k])@ == field_text(columns@[k].field, rv[i as int]),
            decreases columns.len() - c,
        {
            rec.push(columns[c].extract(&rows[i]));
            c = c + 1;
        }
        assert(texts(rec@) =~= cells_of(rv, columns@)[i as int]);
        table.push(rec);
        i = i + 1;
    }
    assert(str_texts(headers@) =~= headers_of(columns@));
    assert(rows_texts(table@) =~= cells_of(rv, columns@));
    Some(render_table(headers.as_slice(), table.as_slice()))
}

/// The widest display width among texts.
pub open spec fn max_width(hs: Seq<Seq<char>>) -> nat
    decreases hs.len(),
{
    if hs.len() == 0 {
        0
    } else {
        let w = max_width(hs.drop_last());
        if text_width(hs.last()) > w {
            text_width(hs.last())
        } else {
            w
        }
    }
}

/// The lines of an object's view: each field's header padded to `w`
/// characters, two spaces, and the field's text.
pub open spec fn object_lines(v: SpecJson, fields: Seq<Column>, w: nat, n: int) -> Seq<char>
    decreases n,
{
    if n <= 0 {
        seq![]
    } else {
        object_lines(v, fields, w, n - 1) + pad_right(fields[n - 1].header@, w) + "  "@ + field_text(
            fields[n - 1].field,
            v,
        ) + "\n"@
    }
}

/// The vertical view of an object: a `header  value` line per field, the
/// headers padded to the widest header's display width.
pub fn object_text(value: &JsonValue, fields: &Vec<Column>) -> (r: String)
    requires
        max_width(headers_of(fields@)) < usize::MAX,
    ensures
        r@ == object_lines(value@, fields@, max_width(headers_of(fields@)), fields@.len() as int),
{
    let ghost hs = headers_of(fields@);
    let mut w: usize = 0;
    let mut j: usize = 0;
    while j < fields.len()
        invariant
            j <= fields.len(),
            hs == headers_of(fields@),
            max_width(hs) < usize::MAX,
            w == max_width(hs.take(j as int)),
        decreases fields.len() - j,
    {
        assert(hs.take(j + 1).drop_last() =~= hs.take(j as int));
        assert(hs.take(j + 1).last() == fields@[j as int].header@);
        proof {
            lemma_max_width_prefix(hs, j + 1);
        }
        let hw = str_width(fields[j].header);
        if hw > w {
            w = hw;
        }
        j = j + 1;
    }
    assert(hs.take(fields.len() as int) =~= hs);
    let mut out: Vec<char> = Vec::new();
    let mut k: usize = 0;
    while k < fields.len()
        invariant
            k <= fields.len(),
            w == max_width(headers_of(fields@)),
            out@ == object_lines(value@, fields@, w as nat, k as int),
        decreases fields.len() - k,
    {
        push_padded(&mut out, fields[k].header, w);
        extend_str(&mut out, "  ");
        let t = fields[k].extract(value);
        extend_str(&mut out, t.as_str());
        extend_str(&mut out, "\n");
        k = k + 1;
    }
    string_of(&out)
}

/// The widest header of a prefix is no wider than the widest of all.
proof fn lemma_max_width_prefix(hs: Seq<Seq<char>>, n: int)
    requires
        0 <= n <= hs.len(),
    ensures
        max_width(hs.take(n)) <= max_width(hs),
    decreases hs.len() - n,
{
    if n < hs.len() {
        lemma_max_width_prefix(hs, n + 1);
        assert(hs.take(n + 1).drop_last() =~= hs.take(n));
    } else {
        assert(hs.take(n) =~= hs);
    }
}

} // verus!
