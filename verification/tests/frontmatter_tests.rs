use blink_md::converter::markdown_frontmatter::MarkdownWithFrontmatterConverter;
use blink_md::ir::frontmatter::{properties_from_yaml, properties_to_yaml_tree, YamlKind, YamlNode};
use blink_md::ir::inline::InlineElement;
use blink_md::ir::metadata::{DateValue, PropertyValue, SelectOption};
use blink_md::json::{DoubleBits, JsonValue, NumberRepr};
use serde_yaml::{Mapping, Number, Value as YamlValue};

fn node_of(v: &YamlValue) -> YamlNode {
    let debug = format!("{:?}", v);
    let kind = match v {
        YamlValue::Null => YamlKind::Null,
        YamlValue::Bool(b) => YamlKind::Bool(*b),
        YamlValue::Number(n) => YamlKind::Number(DoubleBits { bits: n.as_f64().unwrap_or(0.0).to_bits() }),
        YamlValue::String(s) => YamlKind::String {
            text: s.clone(),
            number: s.parse::<f64>().ok().map(|d| DoubleBits { bits: d.to_bits() }),
        },
        YamlValue::Sequence(items) => YamlKind::Sequence(items.iter().map(node_of).collect()),
        YamlValue::Mapping(m) => YamlKind::Mapping(m.iter().map(|(k, v)| (node_of(k), node_of(v))).collect()),
        YamlValue::Tagged(_) => YamlKind::Tagged,
    };
    YamlNode { kind, debug }
}

fn yaml_of(v: &JsonValue) -> YamlValue {
    match v {
        JsonValue::Null => YamlValue::Null,
        JsonValue::Bool(b) => YamlValue::Bool(*b),
        JsonValue::Number(n) => match n.repr {
            NumberRepr::PosInt(u) => YamlValue::Number(Number::from(u)),
            NumberRepr::NegInt(i) => YamlValue::Number(Number::from(i)),
            NumberRepr::Float(d) => YamlValue::Number(Number::from(f64::from_bits(d.bits))),
        },
        JsonValue::String(s) => YamlValue::String(s.clone()),
        JsonValue::Array(items) => YamlValue::Sequence(items.iter().map(yaml_of).collect()),
        JsonValue::Object(entries) => {
            let mut m = Mapping::new();
            for (k, v) in entries {
                m.insert(YamlValue::String(k.clone()), yaml_of(v));
            }
            YamlValue::Mapping(m)
        }
    }
}

fn parse(yaml: &str) -> Vec<(String, PropertyValue)> {
    let v: YamlValue = serde_yaml::from_str(yaml).unwrap();
    properties_from_yaml(&node_of(&v)).unwrap()
}

fn to_text(props: &[(String, PropertyValue)]) -> String {
    serde_yaml::to_string(&yaml_of(&properties_to_yaml_tree(props))).unwrap()
}

fn run(text: &str) -> Vec<InlineElement> {
    vec![InlineElement::TextRun { content: text.to_string(), style: None }]
}

#[test]
fn smoke_parse_and_serialize() {
    let yaml = "title:\n  type: title\n  value: \"Hello\"\n";
    let m = parse(yaml);
    assert!(m.iter().any(|(k, _)| k == "title"));
    let out = to_text(&m);
    assert!(out.contains("type: title"));
    assert!(out.contains("Hello"));
}

#[test]
fn smoke_roundtrip_short() {
    let input = "---\ntitle:\n  type: title\n  value: \"X\"\n---\n# Hi\n".to_string();
    let (yaml, body) = MarkdownWithFrontmatterConverter::split_input(input).unwrap();
    let props = yaml.map(|y| {
        let v: YamlValue = serde_yaml::from_str(&y).unwrap();
        properties_from_yaml(&node_of(&v))
    });
    let doc = MarkdownWithFrontmatterConverter::from_parts(body, props).unwrap();
    let text = to_text(&doc.metadata.properties);
    let out = MarkdownWithFrontmatterConverter::render(Some(&text), &doc).unwrap();
    assert!(out.starts_with("---\n"));
    assert!(out.contains("type: title"));
    assert!(out.contains("# Hi"));
}

#[test]
fn typed_properties_round_trip_through_yaml() {
    let props = vec![
        ("Name".to_string(), PropertyValue::Title { title: run("Doc") }),
        ("Score".to_string(), PropertyValue::Number { number: Some(DoubleBits { bits: 2.5f64.to_bits() }) }),
        (
            "Tags".to_string(),
            PropertyValue::MultiSelect {
                multi_select: vec![
                    SelectOption { id: Some("x".to_string()), name: "a".to_string(), color: Some("red".to_string()) },
                    SelectOption { id: None, name: "42".to_string(), color: None },
                ],
            },
        ),
        (
            "When".to_string(),
            PropertyValue::Date {
                date: Some(DateValue { start: "2024-01-01".to_string(), end: Some("2024-01-02".to_string()), time_zone: None }),
            },
        ),
        ("Done".to_string(), PropertyValue::Checkbox { checkbox: true }),
        ("Link".to_string(), PropertyValue::Url { url: None }),
    ];
    let back = parse(&to_text(&props));
    assert_eq!(back.len(), 6);
    assert_eq!(back[0].0, "Name");
    match &back[0].1 {
        PropertyValue::Title { title } => match &title[..] {
            [InlineElement::TextRun { content, style: None }] => assert_eq!(content, "Doc"),
            other => panic!("unexpected {:?}", other),
        },
        other => panic!("unexpected {:?}", other),
    }
    match &back[1].1 {
        PropertyValue::Number { number: Some(d) } => assert_eq!(f64::from_bits(d.bits), 2.5),
        other => panic!("unexpected {:?}", other),
    }
    match &back[2].1 {
        PropertyValue::MultiSelect { multi_select } => {
            let names: Vec<&str> = multi_select.iter().map(|o| o.name.as_str()).collect();
            assert_eq!(names, vec!["a", "42"]);
            assert!(multi_select.iter().all(|o| o.id.is_none() && o.color.is_none()));
        }
        other => panic!("unexpected {:?}", other),
    }
    match &back[3].1 {
        PropertyValue::Date { date: Some(d) } => {
            assert_eq!(d.start, "2024-01-01");
            assert!(d.end.is_none());
        }
        other => panic!("unexpected {:?}", other),
    }
    assert!(matches!(back[4].1, PropertyValue::Checkbox { checkbox: true }));
    match &back[5].1 {
        PropertyValue::Url { url: Some(u) } => assert_eq!(u, ""),
        other => panic!("unexpected {:?}", other),
    }
}
