//! The results of the command-line tools the server runs: a dry run's
//! report, and what a finished command's output is turned into.
use crate::ir::metadata::push_member;
use crate::json::{member_views, JsonValue, SpecJson};
use crate::text::{
    chars_of, join, join_chars, lines_view, string_of, trim_end, trim_end_chars, trim_start, trim_start_chars,
};
use vstd::prelude::*;

verus! {

/// The command line of `bin` with `args`: the name, a space, and the
/// arguments separated by spaces.
pub open spec fn command_line(bin: Seq<char>, args: Seq<Seq<char>>) -> Seq<char> {
    bin + seq![' '] + join(args, seq![' '])
}

/// What a dry run reports: that it was one, and the command it stands for.
pub open spec fn dry_run_json(bin: Seq<char>, args: Seq<Seq<char>>) -> SpecJson {
    SpecJson::Object(seq![("dry_run"@, SpecJson::Bool(true)), ("command"@, SpecJson::Str(command_line(bin, args)))])
}

/// The texts of a slice of strings.
pub open spec fn strings_of(v: Seq<String>) -> Seq<Seq<char>> {
    Seq::new(v.len(), |i: int| v[i]@)
}

/// The report of a dry run of `bin` with `args`.
pub fn dry_run_result(bin: &str, args: &[String]) -> (r: JsonValue)
    ensures
        r@ == dry_run_json(bin@, strings_of(args@)),
{
    let mut parts: Vec<Vec<char>> = Vec::new();
    let mut i: usize = 0;
    while i < args.len()
        invariant
            i <= args.len(),
            parts.len() == i,
            forall|j: int| 0 <= j < i ==> (#[trigger] parts@[j])@ == args@[j]@,
        decreases args.len() - i,
    {
        parts.push(chars_of(args[i].as_str()));
        i = i + 1;
    }
    let joined = join_chars(parts.as_slice(), 0, parts.len(), ' ');
    assert(lines_view(parts@).subrange(0, parts.len() as int) =~= strings_of(args@));
    let mut line = chars_of(bin);
    line.push(' ');
    let ghost before = line@;
    let mut k: usize = 0;
    while k < joined.len()
        invariant
            k <= joined.len(),
            line@ == before + joined@.take(k as int),
        decreases joined.len() - k,
    {
        line.push(joined[k]);
        assert(joined@.take(k + 1) =~= joined@.take(k as int).push(joined@[k as int]));
        k = k + 1;
    }
    assert(joined@.take(joined.len() as int) =~= joined@);
    assert(line@ =~= command_line(bin@, strings_of(args@)));
    let mut e: Vec<(String, JsonValue)> = Vec::new();
    proof {
        crate::json::lemma_member_views(e@);
    }
    push_member(&mut e, "dry_run", JsonValue::Bool(true));
    push_member(&mut e, "command", JsonValue::String(string_of(&line)));
    assert(member_views(e@) =~= seq![
        ("dry_run"@, SpecJson::Bool(true)),
        ("command"@, SpecJson::Str(command_line(bin@, strings_of(args@)))),
    ]);
    JsonValue::Object(e)
}

/// `s` without leading and trailing white space (`str::trim`).
pub open spec fn trim(s: Seq<char>) -> Seq<char> {
    trim_start(trim_end(s))
}

/// What a finished command gives: its output, trimmed, when it succeeded;
/// otherwise its error output, trimmed, or a message naming the command
/// when that is blank.
pub open spec fn command_outcome(bin: Seq<char>, success: bool, stdout: Seq<char>, stderr: Seq<char>) -> Result<
    SpecJson,
    Seq<char>,
> {
    if success {
        Ok(SpecJson::Object(seq![("stdout"@, SpecJson::Str(trim(stdout)))]))
    } else if trim(stderr).len() == 0 {
        Err(bin + " command failed with no error message"@)
    } else {
        Err(trim(stderr))
    }
}

/// `s` trimmed at both ends.
fn trimmed(s: &str) -> (r: Vec<char>)
    ensures
        r@ == trim(s@),
{
    let v = chars_of(s);
    let e = trim_end_chars(v.as_slice());
    trim_start_chars(e.as_slice())
}

/// What a finished command's output is turned into (see
/// [`command_outcome`]).
pub fn command_outcome_of(bin: &str, success: bool, stdout: &str, stderr: &str) -> (r: Result<JsonValue, String>)
    ensures
        match command_outcome(bin@, success, stdout@, stderr@) {
            Ok(j) => r matches Ok(v) && v@ == j,
            Err(m) => r matches Err(e) && e@ == m,
        },
{
    if success {
        let out = trimmed(stdout);
        Ok(JsonValue::single("stdout", JsonValue::String(string_of(&out))))
    } else {
        let err = trimmed(stderr);
        if err.len() == 0 {
            let mut m = chars_of(bin);
            crate::text::extend_str(&mut m, " command failed with no error message");
            Err(string_of(&m))
        } else {
            Err(string_of(&err))
        }
    }
}

} // verus!
