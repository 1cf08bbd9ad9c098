//! Writing properties as frontmatter and reading them back.
//!
//! The frontmatter tree ([`properties_yaml`]) is written out as YAML text
//! and read back as a YAML node; [`tree_reads`] says when a node is what the
//! tree reads back as: the same shape, the same strings and booleans, and
//! each number read as the double it holds.
use crate::ir::frontmatter::{
    first_named, first_non_string, lemma_tag_round_trip, lookup, named_option, one_run, or_empty,
    plain_of, properties_of_yaml, properties_yaml, property_of, read_entries, str_text, tag_of, type_of_tag,
    upsert, yaml_entry, PropertyType, SpecYaml, SpecYamlKind,
};
use crate::ir::metadata::{SpecDate, SpecProperty};
use crate::json::{DoubleBits, JsonNumber, NumberRepr, SpecJson};
use vstd::prelude::*;

verus! {

/// Whether a YAML node kind is how a JSON number reads back: a double
/// reads as itself, zero as the double zero.
pub open spec fn number_reads(n: JsonNumber, k: SpecYamlKind) -> bool {
    match n.repr {
        NumberRepr::Float(d) => k == SpecYamlKind::Number(d),
        NumberRepr::PosInt(u) => if u == 0 {
            k == SpecYamlKind::Number(DoubleBits { bits: 0 })
        } else {
            k is Number
        },
        NumberRepr::NegInt(_) => k is Number,
    }
}

/// Whether a node is how a scalar reads back.
pub open spec fn leaf_reads(j: SpecJson, y: SpecYaml) -> bool {
    match j {
        SpecJson::Null => y.kind is Null,
        SpecJson::Bool(b) => y.kind == SpecYamlKind::Bool(b),
        SpecJson::Number(n) => number_reads(n, y.kind),
        SpecJson::Str(s) => y.kind matches SpecYamlKind::Str { text, .. } && text == s,
        _ => false,
    }
}

/// Whether a node is how a scalar, or a sequence of scalars, reads back.
pub open spec fn value_reads(j: SpecJson, y: SpecYaml) -> bool {
    match j {
        SpecJson::Array(items) => y.kind matches SpecYamlKind::Sequence(ys) && ys.len() == items.len() && forall|i: int|
            0 <= i < items.len() ==> #[trigger] leaf_reads(items[i], ys[i]),
        _ => leaf_reads(j, y),
    }
}

/// Whether a node is the string `k`.
pub open spec fn key_reads(k: Seq<char>, y: SpecYaml) -> bool {
    y.kind matches SpecYamlKind::Str { text, .. } && text == k
}

/// Whether a node is how a frontmatter entry reads back.
pub open spec fn entry_reads(j: SpecJson, y: SpecYaml) -> bool {
    match j {
        SpecJson::Object(es) => y.kind matches SpecYamlKind::Mapping(ps) && ps.len() == es.len() && forall|i: int|
            0 <= i < es.len() ==> key_reads(es[i].0, #[trigger] ps[i].0) && value_reads(es[i].1, ps[i].1),
        _ => false,
    }
}

/// Whether a node is how a frontmatter tree reads back.
pub open spec fn tree_reads(j: SpecJson, y: SpecYaml) -> bool {
    match j {
        SpecJson::Object(es) => y.kind matches SpecYamlKind::Mapping(ps) && ps.len() == es.len() && forall|i: int|
            0 <= i < es.len() ==> key_reads(es[i].0, #[trigger] ps[i].0) && entry_reads(es[i].1, ps[i].1),
        _ => false,
    }
}

/// The kinds frontmatter types: title, rich text, number, select,
/// multi-select, date, checkbox, URL and email.
pub open spec fn typed_kind(p: SpecProperty) -> bool {
    ||| p is Title
    ||| p is RichText
    ||| p is Number
    ||| p is Select
    ||| p is MultiSelect
    ||| p is Date
    ||| p is Checkbox
    ||| p is Url
    ||| p is Email
}

/// What a property of a typed kind reads back as: its plain text, its
/// option names, its start date, its number (zero for none), its flag, or
/// its address (empty for none).
pub open spec fn read_back(p: SpecProperty) -> SpecProperty {
    match p {
        SpecProperty::Title { title } => SpecProperty::Title { title: one_run(plain_of(title)) },
        SpecProperty::RichText { rich_text } => SpecProperty::RichText { rich_text: one_run(plain_of(rich_text)) },
        SpecProperty::Number { number } => SpecProperty::Number {
            number: Some(
                match number {
                    Some(d) => d,
                    None => DoubleBits { bits: 0 },
                },
            ),
        },
        SpecProperty::Select { select } => SpecProperty::Select {
            select: Some(
                named_option(
                    match select {
                        Some(o) => o.name,
                        None => seq![],
                    },
                ),
            ),
        },
        SpecProperty::MultiSelect { multi_select } => SpecProperty::MultiSelect {
            multi_select: Seq::new(multi_select.len(), |i: int| named_option(multi_select[i].name)),
        },
        SpecProperty::Date { date } => SpecProperty::Date {
            date: Some(
                SpecDate {
                    start: match date {
                        Some(d) => d.start,
                        None => seq![],
                    },
                    end: None,
                    time_zone: None,
                },
            ),
        },
        SpecProperty::Checkbox { checkbox } => SpecProperty::Checkbox { checkbox },
        SpecProperty::Url { url } => SpecProperty::Url { url: Some(or_empty(url)) },
        SpecProperty::Email { email } => SpecProperty::Email { email: Some(or_empty(email)) },
        _ => p,
    }
}

/// The type tag of a property of a typed kind.
pub open spec fn kind_type(p: SpecProperty) -> PropertyType {
    match p {
        SpecProperty::Title { .. } => PropertyType::Title,
        SpecProperty::RichText { .. } => PropertyType::RichText,
        SpecProperty::Number { .. } => PropertyType::Number,
        SpecProperty::Select { .. } => PropertyType::Select,
        SpecProperty::MultiSelect { .. } => PropertyType::MultiSelect,
        SpecProperty::Date { .. } => PropertyType::Date,
        SpecProperty::Checkbox { .. } => PropertyType::Checkbox,
        SpecProperty::Url { .. } => PropertyType::Url,
        _ => PropertyType::Email,
    }
}

/// A sequence of string nodes has no item that is not a string.
proof fn lemma_all_strings(items: Seq<SpecYaml>)
    requires
        forall|i: int| 0 <= i < items.len() ==> (#[trigger] items[i]).kind is Str,
    ensures
        first_non_string(items) is None,
    decreases items.len(),
{
    if items.len() > 0 {
        assert forall|i: int| 0 <= i < items.drop_last().len() implies (#[trigger] items.drop_last()[i]).kind is Str by {
            assert(items.drop_last()[i] == items[i]);
        }
        lemma_all_strings(items.drop_last());
        assert(items.last() == items[items.len() - 1]);
    }
}

/// In an entry read back, `type` is found first and the value field
/// second.
proof fn lemma_entry_lookups(ps: Seq<(SpecYaml, SpecYaml)>, field: Seq<char>)
    requires
        ps.len() == 2,
        key_reads("type"@, ps[0].0),
        key_reads(field, ps[1].0),
        field == "value"@ || field == "values"@,
    ensures
        lookup(ps, "type"@) == Some(ps[0].1),
        lookup(ps, field) == Some(ps[1].1),
{
    reveal_strlit("type");
    reveal_strlit("value");
    reveal_strlit("values");
    assert("type"@.len() == 4 && "value"@.len() == 5 && "values"@.len() == 6);
    assert(ps.drop_first()[0] == ps[1]);
    assert(lookup(ps.drop_first(), field) == Some(ps[1].1));
}

/// An entry written for a property of a typed kind reads back as that
/// property, as [`read_back`] says.
proof fn lemma_entry_round_trip(name: Seq<char>, p: SpecProperty, y: SpecYaml)
    requires
        typed_kind(p),
        entry_reads(yaml_entry(p), y),
    ensures
        property_of(name, y) == Ok::<SpecProperty, crate::ir::frontmatter::SpecFmError>(read_back(p)),
{
    let pt = kind_type(p);
    lemma_tag_round_trip(pt);
    let field: Seq<char> = if p is MultiSelect {
        "values"@
    } else {
        "value"@
    };
    let ps = y.kind->Mapping_0;
    let es = yaml_entry(p)->Object_0;
    assert(es[0].0 == "type"@ && es[0].1 == SpecJson::Str(tag_of(pt)));
    assert(es[1].0 == field);
    assert(key_reads(es[0].0, ps[0].0));
    assert(value_reads(es[0].1, ps[0].1));
    assert(key_reads(es[1].0, ps[1].0));
    assert(value_reads(es[1].1, ps[1].1));
    lemma_entry_lookups(ps, field);
    assert(ps[0].1.kind matches SpecYamlKind::Str { text, .. } && text == tag_of(pt));
    let v = ps[1].1;
    match p {
        SpecProperty::MultiSelect { multi_select } => {
            let items = v.kind->Sequence_0;
            let names = Seq::new(multi_select.len(), |i: int| SpecJson::Str(multi_select[i].name));
            assert(es[1].1 == SpecJson::Array(names));
            assert forall|i: int| 0 <= i < items.len() implies (#[trigger] items[i]).kind is Str by {
                assert(leaf_reads(names[i], items[i]));
            }
            lemma_all_strings(items);
            assert forall|i: int| 0 <= i < items.len() implies str_text(#[trigger] items[i]) == multi_select[i].name by {
                assert(leaf_reads(names[i], items[i]));
            }
            assert(Seq::new(items.len(), |i: int| named_option(str_text(items[i]))) =~= Seq::new(
                multi_select.len(),
                |i: int| named_option(multi_select[i].name),
            ));
        },
        _ => {},
    }
}

/// No property of a prefix of distinct names bears the name of a later one.
proof fn lemma_first_named_absent(props: Seq<(Seq<char>, SpecProperty)>, key: Seq<char>)
    requires
        forall|i: int| 0 <= i < props.len() ==> (#[trigger] props[i]).0 != key,
    ensures
        first_named(props, key) is None,
    decreases props.len(),
{
    if props.len() > 0 {
        assert forall|i: int| 0 <= i < props.drop_last().len() implies (#[trigger] props.drop_last()[i]).0 != key by {
            assert(props.drop_last()[i] == props[i]);
        }
        lemma_first_named_absent(props.drop_last(), key);
        assert(props.last() == props[props.len() - 1]);
    }
}

/// The properties read back, in order.
pub open spec fn read_back_all(ps: Seq<(Seq<char>, SpecProperty)>) -> Seq<(Seq<char>, SpecProperty)> {
    Seq::new(ps.len(), |i: int| (ps[i].0, read_back(ps[i].1)))
}

/// Whether no two properties share a name.
pub open spec fn names_distinct(ps: Seq<(Seq<char>, SpecProperty)>) -> bool {
    forall|i: int, j: int| 0 <= i < j < ps.len() ==> ps[i].0 != ps[j].0
}

proof fn lemma_read_entries(ps: Seq<(Seq<char>, SpecProperty)>, pairs: Seq<(SpecYaml, SpecYaml)>, n: int)
    requires
        0 <= n <= ps.len(),
        pairs.len() == ps.len(),
        names_distinct(ps),
        forall|i: int| 0 <= i < ps.len() ==> typed_kind(#[trigger] ps[i].1),
        forall|i: int|
            0 <= i < ps.len() ==> key_reads(ps[i].0, #[trigger] pairs[i].0) && entry_reads(yaml_entry(ps[i].1), pairs[i].1),
    ensures
        read_entries(pairs, n) == Ok::<Seq<(Seq<char>, SpecProperty)>, crate::ir::frontmatter::SpecFmError>(
            read_back_all(ps).take(n),
        ),
    decreases n,
{
    if n == 0 {
        assert(read_back_all(ps).take(0) =~= Seq::<(Seq<char>, SpecProperty)>::empty());
    } else {
        lemma_read_entries(ps, pairs, n - 1);
        let acc = read_back_all(ps).take(n - 1);
        let name = ps[n - 1].0;
        assert(key_reads(ps[n - 1].0, pairs[n - 1].0));
        lemma_entry_round_trip(name, ps[n - 1].1, pairs[n - 1].1);
        assert forall|i: int| 0 <= i < acc.len() implies (#[trigger] acc[i]).0 != name by {
            assert(acc[i].0 == ps[i].0);
        }
        lemma_first_named_absent(acc, name);
        assert(upsert(acc, name, read_back(ps[n - 1].1)) =~= read_back_all(ps).take(n));
    }
}

/// Frontmatter round trip: properties of the typed kinds, with distinct
/// names, written as the frontmatter tree and read back from any node
/// that is what the tree reads back as, come back in order, each as
/// [`read_back`] says: unstyled text, option names only, the start date,
/// the number (zero for none), the flag, the address (empty for none).
pub proof fn lemma_frontmatter_round_trip(ps: Seq<(Seq<char>, SpecProperty)>, y: SpecYaml)
    requires
        names_distinct(ps),
        forall|i: int| 0 <= i < ps.len() ==> typed_kind(#[trigger] ps[i].1),
        tree_reads(properties_yaml(ps), y),
    ensures
        properties_of_yaml(y) == Ok::<Seq<(Seq<char>, SpecProperty)>, crate::ir::frontmatter::SpecFmError>(
            read_back_all(ps),
        ),
{
    let es = properties_yaml(ps)->Object_0;
    let pairs = y.kind->Mapping_0;
    assert(es.len() == ps.len());
    assert(pairs.len() == ps.len());
    assert forall|i: int| 0 <= i < ps.len() implies key_reads(ps[i].0, #[trigger] pairs[i].0) && entry_reads(
        yaml_entry(ps[i].1),
        pairs[i].1,
    ) by {
        assert(es[i] == (ps[i].0, yaml_entry(ps[i].1)));
        assert(key_reads(es[i].0, pairs[i].0));
        assert(entry_reads(es[i].1, pairs[i].1));
    }
    lemma_read_entries(ps, pairs, ps.len() as int);
    assert(read_back_all(ps).take(ps.len() as int) =~= read_back_all(ps));
}

} // verus!
