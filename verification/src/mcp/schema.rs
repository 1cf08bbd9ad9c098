//! Shared building blocks of the tools: input schemas and errors.
use crate::cli::sync_cmd::{set_member, set_object_member};
use crate::ir::metadata::push_member;
use crate::json::{json_views, member_views, JsonValue, SpecJson};
use crate::text::{extend_str, string_of};
use vstd::prelude::*;

verus! {

broadcast use vstd::std_specs::vec::group_vec_axioms;

/// An error a tool answers with.
#[derive(Debug, PartialEq, Eq)]
pub enum ToolError {
    /// The request was not valid.
    Validation(String),
    /// The tool failed on its side.
    Internal(String),
}

/// A tool's name, description and input schema.
#[derive(Debug)]
pub struct ToolSpec {
    pub name: String,
    pub description: String,
    pub input_schema: JsonValue,
}

/// A successful answer.
pub fn success(payload: JsonValue) -> (r: Result<JsonValue, ToolError>)
    ensures
        r matches Ok(v) && v@ == payload@,
{
    Ok(payload)
}

/// A failed answer with a validation error.
pub fn error(message: &str) -> (r: Result<JsonValue, ToolError>)
    ensures
        r matches Err(ToolError::Validation(m)) && m@ == message@,
{
    Err(ToolError::Validation(String::from_str(message)))
}

/// A validation error made of a context and the error's text:
/// `<context>: <text>`.
pub fn invalid_args(context: &str, err: &str) -> (e: ToolError)
    ensures
        e matches ToolError::Validation(m) && m@ == context@ + ": "@ + err@,
{
    let mut v: Vec<char> = Vec::new();
    extend_str(&mut v, context);
    extend_str(&mut v, ": ");
    extend_str(&mut v, err);
    ToolError::Validation(string_of(&v))
}

/// Builds a tool's JSON input schema one parameter at a time.
#[derive(Debug)]
pub struct SchemaBuilder {
    /// Each parameter's schema, by name; a name occurs once.
    pub properties: Vec<(String, JsonValue)>,
    /// The names of the required parameters, in the order they were added.
    pub required: Vec<String>,
}

/// The schema of one parameter: `{"type": <ty>, "description": <d>}`.
pub open spec fn param_schema(ty: Seq<char>, description: Seq<char>) -> SpecJson {
    SpecJson::Object(seq![("type"@, SpecJson::Str(ty)), ("description"@, SpecJson::Str(description))])
}

/// The schema of an array-of-objects parameter.
pub open spec fn array_param_schema(description: Seq<char>) -> SpecJson {
    SpecJson::Object(
        seq![
            ("type"@, SpecJson::Str("array"@)),
            ("items"@, SpecJson::Object(seq![("type"@, SpecJson::Str("object"@))])),
            ("description"@, SpecJson::Str(description)),
        ],
    )
}

/// The names in a list of strings.
pub open spec fn names_view(s: Seq<String>) -> Seq<Seq<char>> {
    Seq::new(s.len(), |i: int| s[i]@)
}

/// The finished schema: an object with the parameters and the required
/// names.
pub open spec fn schema_json(properties: Seq<(Seq<char>, SpecJson)>, required: Seq<Seq<char>>) -> SpecJson {
    SpecJson::Object(
        seq![
            ("type"@, SpecJson::Str("object"@)),
            ("properties"@, SpecJson::Object(properties)),
            ("required"@, SpecJson::Array(Seq::new(required.len(), |i: int| SpecJson::Str(required[i])))),
        ],
    )
}

fn param_schema_value(ty: &str, description: &str) -> (r: JsonValue)
    ensures
        r@ == param_schema(ty@, description@),
{
    let mut e: Vec<(String, JsonValue)> = Vec::new();
    proof {
        crate::json::lemma_member_views(e@);
    }
    push_member(&mut e, "type", JsonValue::from_str(ty));
    push_member(&mut e, "description", JsonValue::from_str(description));
    assert(member_views(e@) =~= seq![("type"@, SpecJson::Str(ty@)), ("description"@, SpecJson::Str(description@))]);
    JsonValue::Object(e)
}

impl SchemaBuilder {
    /// An empty schema.
    pub fn new() -> (b: Self)
        ensures
            member_views(b.properties@) == Seq::<(Seq<char>, SpecJson)>::empty(),
            b.required@.len() == 0,
    {
        let b = SchemaBuilder { properties: Vec::new(), required: Vec::new() };
        proof {
            crate::json::lemma_member_views(b.properties@);
        }
        b
    }

    /// Adds a parameter of type `ty` (replacing one of the same name) and,
    /// when `required`, records its name as required.
    pub fn insert(self, name: &str, description: &str, ty: &str, required: bool) -> (b: Self)
        ensures
            member_views(b.properties@) == set_member(member_views(self.properties@), name@, param_schema(ty@, description@)),
            names_view(b.required@) == (if required {
                names_view(self.required@).push(name@)
            } else {
                names_view(self.required@)
            }),
    {
        let mut s = self;
        let ghost r0 = s.required@;
        set_object_member(&mut s.properties, name, param_schema_value(ty, description));
        if required {
            s.required.push(String::from_str(name));
            assert(names_view(s.required@) =~= names_view(r0).push(name@));
        }
        s
    }

    /// Adds a required string parameter.
    pub fn param(self, name: &str, description: &str) -> (b: Self)
        ensures
            member_views(b.properties@) == set_member(
                member_views(self.properties@),
                name@,
                param_schema("string"@, description@),
            ),
            names_view(b.required@) == names_view(self.required@).push(name@),
    {
        self.insert(name, description, "string", true)
    }

    /// Adds an optional string parameter.
    pub fn optional_param(self, name: &str, description: &str) -> (b: Self)
        ensures
            member_views(b.properties@) == set_member(
                member_views(self.properties@),
                name@,
                param_schema("string"@, description@),
            ),
            names_view(b.required@) == names_view(self.required@),
    {
        self.insert(name, description, "string", false)
    }

    /// Adds an optional boolean parameter.
    pub fn optional_bool_param(self, name: &str, description: &str) -> (b: Self)
        ensures
            member_views(b.properties@) == set_member(
                member_views(self.properties@),
                name@,
                param_schema("boolean"@, description@),
            ),
            names_view(b.required@) == names_view(self.required@),
    {
        self.insert(name, description, "boolean", false)
    }

    /// Adds a required object parameter.
    pub fn object_param(self, name: &str, description: &str) -> (b: Self)
        ensures
            member_views(b.properties@) == set_member(
                member_views(self.properties@),
                name@,
                param_schema("object"@, description@),
            ),
            names_view(b.required@) == names_view(self.required@).push(name@),
    {
        self.insert(name, description, "object", true)
    }

    /// Adds a required boolean parameter.
    pub fn bool_param(self, name: &str, description: &str) -> (b: Self)
        ensures
            member_views(b.properties@) == set_member(
                member_views(self.properties@),
                name@,
                param_schema("boolean"@, description@),
            ),
            names_view(b.required@) == names_view(self.required@).push(name@),
    {
        self.insert(name, description, "boolean", true)
    }

    /// Adds an optional array-of-objects parameter.
    pub fn optional_array_param(self, name: &str, description: &str) -> (b: Self)
        ensures
            member_views(b.properties@) == set_member(member_views(self.properties@), name@, array_param_schema(description@)),
            names_view(b.required@) == names_view(self.required@),
    {
        let mut s = self;
        let mut e: Vec<(String, JsonValue)> = Vec::new();
        proof {
            crate::json::lemma_member_views(e@);
        }
        push_member(&mut e, "type", JsonValue::from_str("array"));
        push_member(&mut e, "items", JsonValue::single("type", JsonValue::from_str("object")));
        push_member(&mut e, "description", JsonValue::from_str(description));
        assert(member_views(e@) =~= seq![
            ("type"@, SpecJson::Str("array"@)),
            ("items"@, SpecJson::Object(seq![("type"@, SpecJson::Str("object"@))])),
            ("description"@, SpecJson::Str(description@)),
        ]);
        set_object_member(&mut s.properties, name, JsonValue::Object(e));
        s
    }

    /// The finished schema.
    pub fn build(self) -> (r: JsonValue)
        ensures
            r@ == schema_json(member_views(self.properties@), names_view(self.required@)),
    {
        let ghost pv = member_views(self.properties@);
        let ghost rv = names_view(self.required@);
        let mut names: Vec<JsonValue> = Vec::new();
        let mut i: usize = 0;
        while i < self.required.len()
            invariant
                i <= self.required.len(),
                rv == names_view(self.required@),
                names@.len() == i,
                forall|q: int| 0 <= q < i ==> (#[trigger] names@[q])@ == SpecJson::Str(rv[q]),
            decreases self.required.len() - i,
        {
            names.push(JsonValue::String(self.required[i].clone()));
            i = i + 1;
        }
        proof {
            crate::json::lemma_json_views(names@);
        }
        let ghost nv = json_views(names@);
        assert(nv =~= Seq::new(rv.len(), |i: int| SpecJson::Str(rv[i])));
        let mut e: Vec<(String, JsonValue)> = Vec::new();
        proof {
            crate::json::lemma_member_views(e@);
        }
        push_member(&mut e, "type", JsonValue::from_str("object"));
        push_member(&mut e, "properties", JsonValue::Object(self.properties));
        push_member(&mut e, "required", JsonValue::Array(names));
        assert(member_views(e@) =~= seq![
            ("type"@, SpecJson::Str("object"@)),
            ("properties"@, SpecJson::Object(pv)),
            ("required"@, SpecJson::Array(Seq::new(rv.len(), |i: int| SpecJson::Str(rv[i])))),
        ]);
        JsonValue::Object(e)
    }
}

} // verus!
