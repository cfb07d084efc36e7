//! The node that checks its input against rules on fields.
use vstd::prelude::*;

use crate::error::{config_error, option_view, unit_view, ErrorView, WorkflowError};
use crate::node::base::{
    source_value, BaseNode, InputView, NodeConfig, NodeConfigView, NodeContext, NodeDecl,
    NodeHelper, NodeType,
};
use crate::nodes::{
    and_choice, and_output, await_input, cancelled_as_told, declared,
    node_waits_for_activation_and_input, one, poll_input, two,
    two_outputs_are_read_and_choice_is_made, went_to, InputPoll, InputPollView, NodeCore, NodePoll,
    NodePollView,
};
use crate::parameter_bus::ParameterType;
use crate::string_map::{
    assoc, assoc_after_insert, assoc_insert, assoc_of_entry, assoc_some_iff, sorted, StringMap,
};
use crate::text::{
    cat2, cat3, decimal, decimal_text, split, split_text, text_eq, text_less, texts,
};
use crate::value::{array_view, json_views, object_view, Json, JsonNumber, JsonView};
use crate::workflow::{activation_touches_one_node, WorkFlow, WorkFlowView};
use vstd::string::StringExecFns;

verus! {

// ---------------------------------------------------------------------------
// Rules
// ---------------------------------------------------------------------------

/// The type of a JSON value.
#[derive(Clone, Copy, Debug, PartialEq, Eq, Structural)]
pub enum FieldType {
    Object,
    Array,
    String,
    Number,
    Boolean,
}

impl FieldType {
    /// The word that names the type.
    pub open spec fn word(self) -> Seq<char> {
        match self {
            FieldType::Object => "object"@,
            FieldType::Array => "array"@,
            FieldType::String => "string"@,
            FieldType::Number => "number"@,
            FieldType::Boolean => "boolean"@,
        }
    }

    /// The type that a word names.
    pub open spec fn named(word: Seq<char>) -> Option<FieldType> {
        if word == "object"@ {
            Some(FieldType::Object)
        } else if word == "array"@ {
            Some(FieldType::Array)
        } else if word == "string"@ {
            Some(FieldType::String)
        } else if word == "number"@ {
            Some(FieldType::Number)
        } else if word == "boolean"@ {
            Some(FieldType::Boolean)
        } else {
            None
        }
    }

    /// Whether a value is of the type.
    pub open spec fn fits(self, value: JsonView) -> bool {
        match self {
            FieldType::Object => value is Object,
            FieldType::Array => value is Array,
            FieldType::String => value is Text,
            FieldType::Number => value is Number,
            FieldType::Boolean => value is Bool,
        }
    }

    /// The word that names the type.
    pub fn as_str(self) -> (r: &'static str)
        ensures
            r@ == self.word(),
    {
        match self {
            FieldType::Object => "object",
            FieldType::Array => "array",
            FieldType::String => "string",
            FieldType::Number => "number",
            FieldType::Boolean => "boolean",
        }
    }

    /// Decides whether a value is of the type.
    pub fn matches(self, value: &Json) -> (r: bool)
        ensures
            r == self.fits(value@),
    {
        match (self, value) {
            (FieldType::Object, Json::Object(_)) => true,
            (FieldType::Array, Json::Array(_)) => true,
            (FieldType::String, Json::String(_)) => true,
            (FieldType::Number, Json::Number(_)) => true,
            (FieldType::Boolean, Json::Bool(_)) => true,
            _ => false,
        }
    }

    /// The type that a word names.
    pub fn from_word(word: &str) -> (r: Option<FieldType>)
        ensures
            r == FieldType::named(word@),
    {
        if text_eq(word, "object") {
            Some(FieldType::Object)
        } else if text_eq(word, "array") {
            Some(FieldType::Array)
        } else if text_eq(word, "string") {
            Some(FieldType::String)
        } else if text_eq(word, "number") {
            Some(FieldType::Number)
        } else if text_eq(word, "boolean") {
            Some(FieldType::Boolean)
        } else {
            None
        }
    }
}

/// The rule on a field: the type that it has where it is there, and whether it has
/// to be there.
#[derive(Clone, Copy, Debug)]
pub struct FieldRule {
    pub field_type: Option<FieldType>,
    pub required: bool,
}

impl View for FieldRule {
    type V = FieldRule;

    open spec fn view(&self) -> FieldRule {
        *self
    }
}

/// Rules on fields, by dotted path.
#[derive(Debug)]
pub struct ReceiveSchema {
    pub fields: StringMap<FieldRule>,
}

impl View for ReceiveSchema {
    type V = Seq<(Seq<char>, FieldRule)>;

    open spec fn view(&self) -> Seq<(Seq<char>, FieldRule)> {
        self.fields@
    }
}

// ---------------------------------------------------------------------------
// Checking a value
// ---------------------------------------------------------------------------

/// The value at the end of a path of keys, where it is there.
pub open spec fn resolve(value: JsonView, keys: Seq<Seq<char>>) -> Option<JsonView>
    decreases keys.len(),
{
    if keys.len() == 0 {
        Some(value)
    } else {
        match value.get(keys[0]) {
            Some(next) => resolve(next, keys.skip(1)),
            None => None,
        }
    }
}

/// The word for the type that a value has.
pub open spec fn type_word(value: JsonView) -> Seq<char> {
    match value {
        JsonView::Null => "null"@,
        JsonView::Bool(_) => "boolean"@,
        JsonView::Number(_) => "number"@,
        JsonView::Text(_) => "string"@,
        JsonView::Array(_) => "array"@,
        JsonView::Object(_) => "object"@,
    }
}

/// What is wrong with a field, if anything is.
pub open spec fn field_error(value: JsonView, path: Seq<char>, rule: FieldRule) -> Option<
    Seq<char>,
> {
    match (resolve(value, split_text(path, '.')), rule.field_type) {
        (None, _) => if rule.required {
            Some("missing required field: "@ + path)
        } else {
            None
        },
        (Some(found), Some(expected)) => if expected.fits(found) {
            None
        } else {
            Some(
                "field "@ + path + ": expected "@ + expected.word() + (", got "@ + type_word(
                    found,
                )),
            )
        },
        (Some(_), None) => None,
    }
}

/// All that is wrong with a value, rule by rule.
pub open spec fn schema_errors(value: JsonView, rules: Seq<(Seq<char>, FieldRule)>) -> Seq<
    Seq<char>,
>
    decreases rules.len(),
{
    if rules.len() == 0 {
        Seq::empty()
    } else {
        let front = schema_errors(value, rules.drop_last());
        match field_error(value, rules.last().0, rules.last().1) {
            Some(e) => front.push(e),
            None => front,
        }
    }
}

fn resolve_path<'a>(value: &'a Json, path: &str) -> (r: Option<&'a Json>)
    ensures
        match r {
            Some(v) => resolve(value@, split_text(path@, '.')) == Some(v@),
            None => resolve(value@, split_text(path@, '.')) is None,
        },
{
    let keys = split(path, '.');
    let mut current: &Json = value;
    let mut i: usize = 0;
    proof {
        assert(texts(keys@).skip(0) =~= texts(keys@));
    }
    while i < keys.len()
        invariant
            i <= keys@.len(),
            texts(keys@) == split_text(path@, '.'),
            resolve(value@, texts(keys@)) == resolve(current@, texts(keys@).skip(i as int)),
        decreases keys@.len() - i,
    {
        proof {
            assert(texts(keys@).skip(i as int)[0] == keys@[i as int]@);
            assert(texts(keys@).skip(i as int).skip(1) =~= texts(keys@).skip(i + 1));
        }
        match current.get(keys[i].as_str()) {
            None => {
                return None;
            },
            Some(next) => {
                current = next;
            },
        }
        i = i + 1;
    }
    Some(current)
}

fn value_type_name(value: &Json) -> (r: &'static str)
    ensures
        r@ == type_word(value@),
{
    match value {
        Json::Null => "null",
        Json::Bool(_) => "boolean",
        Json::Number(_) => "number",
        Json::String(_) => "string",
        Json::Array(_) => "array",
        Json::Object(_) => "object",
    }
}

fn check_field(value: &Json, path: &str, rule: FieldRule) -> (r: Option<String>)
    ensures
        option_view(r) == field_error(value@, path@, rule),
{
    match resolve_path(value, path) {
        None => {
            if rule.required {
                Some(cat2("missing required field: ", path))
            } else {
                None
            }
        },
        Some(found) => match rule.field_type {
            None => None,
            Some(expected) => {
                if expected.matches(found) {
                    None
                } else {
                    let mut text = cat2("field ", path);
                    text.append(": expected ");
                    text.append(expected.as_str());
                    let got = cat2(", got ", value_type_name(found));
                    text.append(got.as_str());
                    Some(text)
                }
            },
        },
    }
}

/// Checks a value against all the rules; the errors are in the order of the paths.
pub fn validate(value: &Json, schema: &ReceiveSchema) -> (r: Result<(), Vec<String>>)
    ensures
        match r {
            Ok(()) => schema_errors(value@, schema@).len() == 0,
            Err(errors) => texts(errors@) == schema_errors(value@, schema@) && errors@.len() > 0,
        },
{
    let mut errors: Vec<String> = Vec::new();
    let mut i: usize = 0;
    proof {
        assert(schema@.take(0) =~= Seq::empty());
        assert(texts(errors@) =~= Seq::empty());
    }
    while i < schema.fields.len()
        invariant
            i <= schema@.len(),
            texts(errors@) == schema_errors(value@, schema@.take(i as int)),
        decreases schema@.len() - i,
    {
        proof {
            let next = schema@.take(i + 1);
            assert(next.drop_last() =~= schema@.take(i as int));
            assert(next.last() == schema@[i as int]);
        }
        let rule: FieldRule = *schema.fields.value_at(i);
        if let Some(e) = check_field(value, schema.fields.key_at(i), rule) {
            let ghost so_far = texts(errors@);
            let ghost t = e@;
            errors.push(e);
            proof {
                assert(texts(errors@) =~= so_far.push(t));
            }
        }
        i = i + 1;
    }
    proof {
        assert(schema@.take(i as int) =~= schema@);
        assert(texts(errors@).len() == errors@.len());
    }
    if errors.len() == 0 {
        Ok(())
    } else {
        Err(errors)
    }
}

// ---------------------------------------------------------------------------
// Reading rules
// ---------------------------------------------------------------------------

/// The wording of `serde_json::Error::invalid_type` for a value where something
/// else was expected.
pub uninterp spec fn type_mismatch(found: JsonView, expected: Seq<char>) -> Seq<char>;

/// Words a type error by `serde_json::Error::invalid_type`, from what was found and
/// what was expected. The text depends on these two alone.
#[verifier::external_body]
fn mismatch_text(found: &Json, expected: &str) -> (r: String)
    ensures
        r@ == type_mismatch(found@, expected@),
{
    let unexpected = match found {
        Json::Null => serde::de::Unexpected::Unit,
        Json::Bool(b) => serde::de::Unexpected::Bool(*b),
        Json::Number(JsonNumber::PosInt(n)) => serde::de::Unexpected::Unsigned(*n),
        Json::Number(JsonNumber::NegInt(i)) => serde::de::Unexpected::Signed(*i),
        Json::Number(JsonNumber::Float(f)) => serde::de::Unexpected::Float(f.source.as_f64().unwrap_or_default()),
        Json::String(s) => serde::de::Unexpected::Str(s),
        Json::Array(_) => serde::de::Unexpected::Seq,
        Json::Object(_) => serde::de::Unexpected::Map,
    };
    <serde_json::Error as serde::de::Error>::invalid_type(unexpected, &expected).to_string()
}

/// The words that name types, as an error lists them.
pub open spec fn unknown_type(word: Seq<char>) -> Seq<char> {
    "unknown variant `"@ + word
        + "`, expected one of `object`, `array`, `string`, `number`, `boolean`"@
}

/// The type that a value gives: by a word, or by an object whose only key is the
/// word and whose value is null.
pub open spec fn read_type(v: JsonView) -> Result<FieldType, Seq<char>> {
    match v {
        JsonView::Text(word) => match FieldType::named(word) {
            Some(t) => Ok(t),
            None => Err(unknown_type(word)),
        },
        JsonView::Object(m) => if m.len() != 1 {
            Err("invalid value: map, expected map with a single key"@)
        } else {
            match FieldType::named(m[0].0) {
                None => Err(unknown_type(m[0].0)),
                Some(t) => if m[0].1 is Null {
                    Ok(t)
                } else {
                    Err(type_mismatch(m[0].1, "unit"@))
                },
            }
        },
        _ => Err(type_mismatch(v, "string or map"@)),
    }
}

/// The type that a value gives, or none where it is null.
pub open spec fn read_optional_type(v: JsonView) -> Result<Option<FieldType>, Seq<char>> {
    if v is Null {
        Ok(None)
    } else {
        match read_type(v) {
            Ok(t) => Ok(Some(t)),
            Err(e) => Err(e),
        }
    }
}

/// The truth value that a value is.
pub open spec fn read_bool(v: JsonView) -> Result<bool, Seq<char>> {
    match v {
        JsonView::Bool(b) => Ok(b),
        _ => Err(type_mismatch(v, "a boolean"@)),
    }
}

/// The rule that a value gives: by an object with the keys `type` and `required`,
/// both optional, or by a list of the two, the second optional.
pub open spec fn read_rule(v: JsonView) -> Result<FieldRule, Seq<char>> {
    match v {
        JsonView::Object(m) => {
            let required = match assoc(m, "required"@) {
                Some(b) => read_bool(b),
                None => Ok(false),
            };
            let field_type = match assoc(m, "type"@) {
                Some(t) => read_optional_type(t),
                None => Ok(None),
            };
            match (required, field_type) {
                (Err(e), _) => Err(e),
                (Ok(_), Err(e)) => Err(e),
                (Ok(required), Ok(field_type)) => Ok(FieldRule { field_type, required }),
            }
        },
        JsonView::Array(a) => if a.len() == 0 {
            Err("invalid length 0, expected struct FieldRule with 2 elements"@)
        } else {
            match read_optional_type(a[0]) {
                Err(e) => Err(e),
                Ok(field_type) => {
                    let required = if a.len() > 1 {
                        read_bool(a[1])
                    } else {
                        Ok(false)
                    };
                    match required {
                        Err(e) => Err(e),
                        Ok(required) => if a.len() > 2 {
                            Err(too_long(a.len()))
                        } else {
                            Ok(FieldRule { field_type, required })
                        },
                    }
                },
            }
        },
        _ => Err(type_mismatch(v, "struct FieldRule"@)),
    }
}

/// The error of a list with items left over.
pub open spec fn too_long(n: nat) -> Seq<char> {
    "invalid length "@ + decimal(n) + ", expected fewer elements in array"@
}

/// The rules that the entries of an object give, in order, up to the first error.
pub open spec fn read_rules(m: Seq<(Seq<char>, JsonView)>) -> Result<
    Seq<(Seq<char>, FieldRule)>,
    Seq<char>,
>
    decreases m.len(),
{
    if m.len() == 0 {
        Ok(Seq::empty())
    } else {
        match read_rules(m.drop_last()) {
            Err(e) => Err(e),
            Ok(front) => match read_rule(m.last().1) {
                Err(e) => Err(e),
                Ok(rule) => Ok(assoc_insert(front, m.last().0, rule)),
            },
        }
    }
}

/// The rules that a value gives which has to be an object.
pub open spec fn read_fields(v: JsonView) -> Result<Seq<(Seq<char>, FieldRule)>, Seq<char>> {
    match v {
        JsonView::Object(m) => read_rules(m),
        _ => Err(type_mismatch(v, "a map"@)),
    }
}

/// The schema that a value gives: by an object with the key `fields`, or by a list
/// of one item.
pub open spec fn read_schema(v: JsonView) -> Result<Seq<(Seq<char>, FieldRule)>, Seq<char>> {
    match v {
        JsonView::Object(m) => match assoc(m, "fields"@) {
            Some(fields) => read_fields(fields),
            None => Err("missing field `fields`"@),
        },
        JsonView::Array(a) => if a.len() == 0 {
            Err("invalid length 0, expected struct ReceiveSchema with 1 element"@)
        } else {
            match read_fields(a[0]) {
                Err(e) => Err(e),
                Ok(rules) => if a.len() > 1 {
                    Err(too_long(a.len()))
                } else {
                    Ok(rules)
                },
            }
        },
        _ => Err(type_mismatch(v, "struct ReceiveSchema"@)),
    }
}

fn unknown_type_text(word: &str) -> (r: String)
    ensures
        r@ == unknown_type(word@),
{
    cat3(
        "unknown variant `",
        word,
        "`, expected one of `object`, `array`, `string`, `number`, `boolean`",
    )
}

fn too_long_text(n: usize) -> (r: String)
    ensures
        r@ == too_long(n as nat),
{
    let count = decimal_text(n as u64);
    cat3("invalid length ", count.as_str(), ", expected fewer elements in array")
}

fn parse_type(v: &Json) -> (r: Result<FieldType, String>)
    ensures
        match r {
            Ok(t) => read_type(v@) == Ok::<FieldType, Seq<char>>(t),
            Err(e) => read_type(v@) == Err::<FieldType, Seq<char>>(e@),
        },
{
    broadcast use object_view;

    match v {
        Json::String(word) => match FieldType::from_word(word.as_str()) {
            Some(t) => Ok(t),
            None => Err(unknown_type_text(word.as_str())),
        },
        Json::Object(m) => {
            if m.len() != 1 {
                Err("invalid value: map, expected map with a single key".to_owned())
            } else {
                let word = m.key_at(0);
                match FieldType::from_word(word) {
                    None => Err(unknown_type_text(word)),
                    Some(t) => match m.value_at(0) {
                        Json::Null => Ok(t),
                        other => Err(mismatch_text(other, "unit")),
                    },
                }
            }
        },
        _ => Err(mismatch_text(v, "string or map")),
    }
}

fn parse_optional_type(v: &Json) -> (r: Result<Option<FieldType>, String>)
    ensures
        match r {
            Ok(t) => read_optional_type(v@) == Ok::<Option<FieldType>, Seq<char>>(t),
            Err(e) => read_optional_type(v@) == Err::<Option<FieldType>, Seq<char>>(e@),
        },
{
    match v {
        Json::Null => Ok(None),
        _ => match parse_type(v) {
            Ok(t) => Ok(Some(t)),
            Err(e) => Err(e),
        },
    }
}

fn parse_bool(v: &Json) -> (r: Result<bool, String>)
    ensures
        match r {
            Ok(b) => read_bool(v@) == Ok::<bool, Seq<char>>(b),
            Err(e) => read_bool(v@) == Err::<bool, Seq<char>>(e@),
        },
{
    match v {
        Json::Bool(b) => Ok(*b),
        _ => Err(mismatch_text(v, "a boolean")),
    }
}

fn parse_rule(v: &Json) -> (r: Result<FieldRule, String>)
    ensures
        match r {
            Ok(rule) => read_rule(v@) == Ok::<FieldRule, Seq<char>>(rule),
            Err(e) => read_rule(v@) == Err::<FieldRule, Seq<char>>(e@),
        },
{
    broadcast use object_view, array_view;

    match v {
        Json::Object(m) => {
            let required: bool = match m.get("required") {
                Some(b) => match parse_bool(b) {
                    Ok(b) => b,
                    Err(e) => {
                        return Err(e);
                    },
                },
                None => false,
            };
            let field_type: Option<FieldType> = match m.get("type") {
                Some(t) => match parse_optional_type(t) {
                    Ok(t) => t,
                    Err(e) => {
                        return Err(e);
                    },
                },
                None => None,
            };
            Ok(FieldRule { field_type, required })
        },
        Json::Array(a) => {
            proof {
                assert(v@ == JsonView::Array(json_views(a@)));
            }
            if a.len() == 0 {
                return Err(
                    "invalid length 0, expected struct FieldRule with 2 elements".to_owned(),
                );
            }
            let field_type: Option<FieldType> = match parse_optional_type(&a[0]) {
                Ok(t) => t,
                Err(e) => {
                    return Err(e);
                },
            };
            let required: bool = if a.len() > 1 {
                match parse_bool(&a[1]) {
                    Ok(b) => b,
                    Err(e) => {
                        return Err(e);
                    },
                }
            } else {
                false
            };
            if a.len() > 2 {
                Err(too_long_text(a.len()))
            } else {
                Ok(FieldRule { field_type, required })
            }
        },
        _ => Err(mismatch_text(v, "struct FieldRule")),
    }
}

proof fn read_rules_prefix(m: Seq<(Seq<char>, JsonView)>, n: int)
    requires
        0 <= n <= m.len(),
        read_rules(m.take(n)) is Err,
    ensures
        read_rules(m) == read_rules(m.take(n)),
    decreases m.len(),
{
    if n == m.len() {
        assert(m.take(n) =~= m);
    } else {
        assert(m.drop_last().take(n) =~= m.take(n));
        read_rules_prefix(m.drop_last(), n);
    }
}

fn parse_fields(v: &Json) -> (r: Result<StringMap<FieldRule>, String>)
    ensures
        match r {
            Ok(rules) => read_fields(v@) == Ok::<Seq<(Seq<char>, FieldRule)>, Seq<char>>(rules@)
                && rules.wf(),
            Err(e) => read_fields(v@) == Err::<Seq<(Seq<char>, FieldRule)>, Seq<char>>(e@),
        },
{
    broadcast use object_view;

    match v {
        Json::Object(m) => {
            let mut rules: StringMap<FieldRule> = StringMap::new();
            let mut i: usize = 0;
            proof {
                assert(m@.take(0) =~= Seq::empty());
            }
            while i < m.len()
                invariant
                    i <= m@.len(),
                    v@ == JsonView::Object(m@),
                    rules.wf(),
                    read_rules(m@.take(i as int)) == Ok::<
                        Seq<(Seq<char>, FieldRule)>,
                        Seq<char>,
                    >(rules@),
                decreases m@.len() - i,
            {
                proof {
                    let next = m@.take(i + 1);
                    assert(next.drop_last() =~= m@.take(i as int));
                    assert(next.last() == m@[i as int]);
                }
                match parse_rule(m.value_at(i)) {
                    Ok(rule) => {
                        rules.insert(m.key_at(i).to_owned(), rule);
                    },
                    Err(e) => {
                        proof {
                            read_rules_prefix(m@, i + 1);
                        }
                        return Err(e);
                    },
                }
                i = i + 1;
            }
            proof {
                assert(m@.take(i as int) =~= m@);
            }
            Ok(rules)
        },
        _ => Err(mismatch_text(v, "a map")),
    }
}

impl ReceiveSchema {
    /// The schema that a value gives, or the wording of what is wrong with it.
    pub fn from_value(v: &Json) -> (r: Result<ReceiveSchema, String>)
        ensures
            match r {
                Ok(schema) => read_schema(v@) == Ok::<Seq<(Seq<char>, FieldRule)>, Seq<char>>(
                    schema@,
                ) && schema.fields.wf(),
                Err(e) => read_schema(v@) == Err::<Seq<(Seq<char>, FieldRule)>, Seq<char>>(e@),
            },
    {
        broadcast use object_view, array_view;

        match v {
            Json::Object(m) => match m.get("fields") {
                Some(fields) => match parse_fields(fields) {
                    Ok(fields) => Ok(ReceiveSchema { fields }),
                    Err(e) => Err(e),
                },
                None => Err("missing field `fields`".to_owned()),
            },
            Json::Array(a) => {
                proof {
                    assert(v@ == JsonView::Array(json_views(a@)));
                }
                if a.len() == 0 {
                    return Err(
                        "invalid length 0, expected struct ReceiveSchema with 1 element".to_owned(),
                    );
                }
                match parse_fields(&a[0]) {
                    Ok(fields) => {
                        if a.len() > 1 {
                            Err(too_long_text(a.len()))
                        } else {
                            Ok(ReceiveSchema { fields })
                        }
                    },
                    Err(e) => Err(e),
                }
            },
            _ => Err(mismatch_text(v, "struct ReceiveSchema")),
        }
    }
}

// ---------------------------------------------------------------------------
// The node
// ---------------------------------------------------------------------------

/// The views of texts as JSON values.
pub open spec fn text_values(v: Seq<Seq<char>>) -> Seq<JsonView> {
    Seq::new(v.len(), |i: int| JsonView::Text(v[i]))
}

/// The schema of a configuration.
pub open spec fn schema_of(c: NodeConfigView) -> Result<
    Seq<(Seq<char>, FieldRule)>,
    ErrorView,
> {
    match assoc(c.attrs, "schema"@) {
        None => Err(ErrorView::ConfigError("schema_validator requires attrs.schema"@)),
        Some(v) => match read_schema(v) {
            Ok(rules) => Ok(rules),
            Err(e) => Err(ErrorView::ConfigError("invalid schema_validator schema: "@ + e)),
        },
    }
}

/// What the node does once it has its input: the input and the errors are put out,
/// and the choice says whether there were errors.
pub open spec fn validator_act(
    rules: Seq<(Seq<char>, FieldRule)>,
    choices: Seq<(Seq<char>, Seq<char>)>,
    name: Seq<char>,
    w: WorkFlowView,
    input: Option<JsonView>,
) -> (WorkFlowView, Result<(), ErrorView>) {
    let given = match input {
        Some(v) => v,
        None => JsonView::Null,
    };
    let errors = schema_errors(given, rules);
    and_choice(
        and_output(
            and_output((w, Ok(())), name, "output"@, given),
            name,
            "errors"@,
            JsonView::Array(text_values(errors)),
        ),
        name,
        if errors.len() == 0 {
            "valid"@
        } else {
            "invalid"@
        },
        choices,
        true,
    )
}

/// What the node does when it is run.
pub open spec fn validator_run(
    rules: Seq<(Seq<char>, FieldRule)>,
    c: NodeConfigView,
    name: Seq<char>,
    w: WorkFlowView,
    triggered: bool,
) -> (WorkFlowView, bool, NodePollView) {
    let (polled, t, input) = poll_input(w, triggered, name, c.input_map, "input"@);
    match input {
        InputPollView::Pending => (polled, t, NodePollView::Pending),
        InputPollView::Failed(e) => (polled, t, NodePollView::Done(Err(e))),
        InputPollView::Got(v) => {
            let (after, r) = validator_act(rules, c.choice_map, name, polled, v);
            (after, t, NodePollView::Done(r))
        },
    }
}

fn texts_to_json(v: Vec<String>) -> (r: Json)
    ensures
        r@ == JsonView::Array(text_values(texts(v@))),
{
    broadcast use array_view;

    let mut out: Vec<Json> = Vec::new();
    let mut i: usize = 0;
    while i < v.len()
        invariant
            i <= v@.len(),
            out@.len() == i,
            forall|j: int| 0 <= j < i ==> (#[trigger] out@[j])@ == JsonView::Text(v@[j]@),
        decreases v@.len() - i,
    {
        out.push(Json::String(v[i].clone()));
        i = i + 1;
    }
    proof {
        assert(json_views(out@) =~= text_values(texts(v@)));
    }
    Json::Array(out)
}

/// A node that checks its input against rules on fields.
#[derive(Debug)]
pub struct SchemaValidatorNode {
    pub core: NodeCore,
    pub schema: ReceiveSchema,
}

impl SchemaValidatorNode {
    /// The node that a configuration describes.
    pub fn new(config: NodeConfig, _ctx: NodeContext) -> (r: Result<
        SchemaValidatorNode,
        WorkflowError,
    >)
        ensures
            match r {
                Ok(node) => {
                    &&& schema_of(config@) == Ok::<Seq<(Seq<char>, FieldRule)>, ErrorView>(
                        node.schema@,
                    )
                    &&& node.core.config == config
                    &&& node.core.name@ == config@.node_name
                    &&& node.decl() == declared(
                        config@,
                        NodeType::Step,
                        seq!["input"@],
                        seq!["output"@, "errors"@],
                        seq!["valid"@, "invalid"@],
                        true,
                    )
                },
                Err(e) => schema_of(config@) == Err::<Seq<(Seq<char>, FieldRule)>, ErrorView>(e@),
            },
    {
        let schema = match config.attrs.get("schema") {
            None => {
                return Err(config_error("schema_validator requires attrs.schema"));
            },
            Some(v) => match ReceiveSchema::from_value(v) {
                Ok(schema) => schema,
                Err(e) => {
                    return Err(
                        WorkflowError::ConfigError(
                            cat2("invalid schema_validator schema: ", e.as_str()),
                        ),
                    );
                },
            },
        };
        Ok(
            SchemaValidatorNode {
                core: NodeCore::new(
                    config,
                    one("input"),
                    two("output", "errors"),
                    two("valid", "invalid"),
                ),
                schema,
            },
        )
    }

    fn act(&self, input: Option<Json>, workflow: &mut WorkFlow) -> (r: Result<(), WorkflowError>)
        ensures
            (final(workflow)@, unit_view(r)) == validator_act(
                self.schema@,
                self.core.config@.choice_map,
                self.core.name@,
                old(workflow)@,
                option_view(input),
            ),
    {
        let given = match input {
            Some(v) => v,
            None => Json::Null,
        };
        let ghost all = schema_errors(given@, self.schema@);
        let (errors, choice): (Vec<String>, &str) = match validate(&given, &self.schema) {
            Ok(()) => (Vec::new(), "valid"),
            Err(errors) => (errors, "invalid"),
        };
        proof {
            assert(texts(errors@) =~= all);
        }
        match NodeHelper::set_output(self.core.name.as_str(), "output", given, workflow) {
            Ok(()) => {},
            Err(e) => {
                return Err(e);
            },
        }
        self.core.output_and_choose("errors", texts_to_json(errors), choice, workflow)
    }

    /// Runs the node as far as it gets; `triggered` says whether its activation was
    /// taken up before.
    pub fn run(&self, triggered: &mut bool, workflow: &mut WorkFlow) -> (r: NodePoll)
        ensures
            (final(workflow)@, *final(triggered), r@) == validator_run(
                self.schema@,
                self.core.config@,
                self.core.name@,
                old(workflow)@,
                *old(triggered),
            ),
    {
        match await_input(
            self.core.name.as_str(),
            triggered,
            "input",
            &self.core.config.input_map,
            workflow,
        ) {
            InputPoll::Pending => NodePoll::Pending,
            InputPoll::Failed(e) => NodePoll::Done(Err(e)),
            InputPoll::Got(v) => NodePoll::Done(self.act(v, workflow)),
        }
    }
}

impl BaseNode for SchemaValidatorNode {
    open spec fn decl(&self) -> NodeDecl {
        self.core.decl(NodeType::Step, true)
    }

    fn name(&self) -> (r: &str) {
        self.core.name.as_str()
    }

    fn node_type(&self) -> (r: NodeType) {
        NodeType::Step
    }

    fn input_parameters(&self) -> (r: &StringMap<ParameterType>) {
        &self.core.input_params
    }

    fn output_parameters(&self) -> (r: &StringMap<ParameterType>) {
        &self.core.output_params
    }

    fn choices(&self) -> (r: &Vec<String>) {
        &self.core.choices
    }

    fn is_key_node(&self) -> (r: bool) {
        self.core.config.key_node
    }

    fn runable(&self) -> (r: bool) {
        true
    }

    fn is_reentrant(&self) -> (r: bool) {
        true
    }
}

// ---------------------------------------------------------------------------
// Laws
// ---------------------------------------------------------------------------

/// A value passes exactly where every rule does: no rule is hidden by another, and
/// checking does not stop at the first error.
pub proof fn value_passes_iff_every_rule_does(value: JsonView, rules: Seq<(Seq<char>, FieldRule)>)
    ensures
        schema_errors(value, rules).len() == 0 <==> forall|i: int|
            0 <= i < rules.len() ==> field_error(
                value,
                (#[trigger] rules[i]).0,
                rules[i].1,
            ) is None,
        forall|i: int|
            0 <= i < rules.len() && field_error(value, (#[trigger] rules[i]).0, rules[i].1) is Some
                ==> schema_errors(value, rules).contains(
                field_error(value, rules[i].0, rules[i].1)->0,
            ),
    decreases rules.len(),
{
    if rules.len() > 0 {
        let front = rules.drop_last();
        let before = schema_errors(value, front);
        let all = schema_errors(value, rules);
        value_passes_iff_every_rule_does(value, front);
        assert forall|i: int|
            0 <= i < rules.len() && field_error(
                value,
                (#[trigger] rules[i]).0,
                rules[i].1,
            ) is Some implies all.contains(field_error(value, rules[i].0, rules[i].1)->0) by {
            let e = field_error(value, rules[i].0, rules[i].1)->0;
            if i < rules.len() - 1 {
                assert(front[i] == rules[i]);
                let k = choose|k: int| 0 <= k < before.len() && before[k] == e;
                assert(all[k] == e);
            } else {
                assert(all[all.len() - 1] == e);
            }
        }
        if all.len() == 0 {
            assert forall|i: int| 0 <= i < rules.len() implies field_error(
                value,
                (#[trigger] rules[i]).0,
                rules[i].1,
            ) is None by {
                if i < rules.len() - 1 {
                    assert(front[i] == rules[i]);
                }
            }
        }
        if forall|i: int|
            0 <= i < rules.len() ==> field_error(
                value,
                (#[trigger] rules[i]).0,
                rules[i].1,
            ) is None {
            assert forall|i: int| 0 <= i < front.len() implies field_error(
                value,
                (#[trigger] front[i]).0,
                front[i].1,
            ) is None by {
                assert(front[i] == rules[i]);
            }
            assert(rules[rules.len() - 1] == rules.last());
        }
    }
}

/// A field that is not required and has no type passes, there or not.
pub proof fn optional_untyped_field_passes(value: JsonView, path: Seq<char>)
    ensures
        field_error(value, path, FieldRule { field_type: None, required: false }) is None,
{
}

/// A value is of a type exactly where the word for what it is is the word of the type;
/// null is of none. Different types have different words, and each is found by its word.
pub proof fn types_are_told_by_their_words(t: FieldType, u: FieldType, value: JsonView)
    ensures
        t.fits(value) <==> type_word(value) == t.word(),
        value is Null ==> !t.fits(value),
        t.word() == u.word() ==> t == u,
        FieldType::named(t.word()) == Some(t),
        t.fits(value) && u.fits(value) ==> t == u,
{
    reveal_strlit("object");
    reveal_strlit("array");
    reveal_strlit("string");
    reveal_strlit("number");
    reveal_strlit("boolean");
    reveal_strlit("null");
    assert("object"@[0] == 'o' && "string"@[0] == 's' && "number"@[0] == 'n');
    assert("object"@ != "string"@ && "object"@ != "number"@ && "string"@ != "number"@);
    assert("array"@.len() == 5 && "boolean"@.len() == 7 && "null"@.len() == 4);
    assert("object"@.len() == 6 && "string"@.len() == 6 && "number"@.len() == 6);
}

/// A word names a type only where it is the word of that type.
pub proof fn only_words_of_types_name_types(word: Seq<char>)
    ensures
        FieldType::named(word) is Some ==> FieldType::named(word)->0.word() == word,
{
}

/// A path leads key by key to what it names in a value, or nowhere.
pub proof fn path_leads_key_by_key(
    value: JsonView,
    a: Seq<Seq<char>>,
    b: Seq<Seq<char>>,
    key: Seq<char>,
)
    ensures
        resolve(value, Seq::empty()) == Some(value),
        resolve(value, seq![key]) == value.get(key),
        resolve(value, a) is Some ==> resolve(value, a + b) == resolve(resolve(value, a)->0, b),
        resolve(value, a) is None ==> resolve(value, a + b) is None,
    decreases a.len(),
{
    reveal_with_fuel(resolve, 2);
    assert(seq![key].skip(1) =~= Seq::empty());
    if a.len() == 0 {
        assert(a + b =~= b);
    } else {
        assert((a + b).skip(1) =~= a.skip(1) + b);
        assert((a + b)[0] == a[0]);
        if let Some(next) = value.get(a[0]) {
            path_leads_key_by_key(next, a.skip(1), b, key);
        }
    }
}

/// A field passes its rule exactly where it is there and of the rule's type, if the rule
/// has one, or is not there and not required. Otherwise the error names the path.
pub proof fn field_passes_its_rule(value: JsonView, path: Seq<char>, rule: FieldRule)
    ensures
        ({
            let found = resolve(value, split_text(path, '.'));
            let error = field_error(value, path, rule);
            &&& error is None <==> (match found {
                Some(v) => match rule.field_type {
                    Some(t) => type_word(v) == t.word(),
                    None => true,
                },
                None => !rule.required,
            })
            &&& found is None && rule.required ==> error == Some(
                "missing required field: "@ + path,
            )
            &&& found is Some && error is Some ==> error == Some(
                "field "@ + path + ": expected "@ + rule.field_type->0.word() + (", got "@
                    + type_word(found->0)),
            )
        }),
{
    let found = resolve(value, split_text(path, '.'));
    if let Some(v) = found {
        if let Some(t) = rule.field_type {
            types_are_told_by_their_words(t, t, v);
        }
    }
}

/// Every error of a value is that of one of the rules; nothing is reported otherwise.
pub proof fn errors_are_those_of_the_rules(
    value: JsonView,
    rules: Seq<(Seq<char>, FieldRule)>,
    i: int,
)
    requires
        0 <= i < schema_errors(value, rules).len(),
    ensures
        schema_errors(value, rules).len() <= rules.len(),
        exists|k: int|
            0 <= k < rules.len() && field_error(value, (#[trigger] rules[k]).0, rules[k].1) == Some(
                schema_errors(value, rules)[i],
            ),
    decreases rules.len(),
{
    let front = rules.drop_last();
    let before = schema_errors(value, front);
    if before.len() > 0 {
        let j = if i < before.len() {
            i
        } else {
            0
        };
        errors_are_those_of_the_rules(value, front, j);
        if i < before.len() {
            let k = choose|k: int|
                0 <= k < front.len() && field_error(value, (#[trigger] front[k]).0, front[k].1)
                    == Some(before[i]);
            assert(rules[k] == front[k]);
        }
    }
    if i >= before.len() {
        assert(rules[rules.len() - 1] == rules.last());
    }
}

/// A rule that is an object has the type that its `type` names, none where that is null or
/// not there, and is required exactly where its `required` is true.
pub proof fn rule_is_what_its_object_says(
    m: Seq<(Seq<char>, JsonView)>,
    t: FieldType,
    required: bool,
)
    ensures
        ({
            let kind = assoc(m, "type"@);
            let flag = assoc(m, "required"@);
            let rule = read_rule(JsonView::Object(m));
            let flagged = flag == Some(JsonView::Bool(required)) || (flag is None && !required);
            &&& kind == Some(JsonView::Text(t.word())) && flagged ==> rule == Ok::<
                FieldRule,
                Seq<char>,
            >(FieldRule { field_type: Some(t), required })
            &&& (kind is None || kind == Some(JsonView::Null)) && flagged ==> rule == Ok::<
                FieldRule,
                Seq<char>,
            >(FieldRule { field_type: None, required })
            &&& flag is Some && !(flag->0 is Bool) ==> rule is Err
            &&& kind is Some && kind->0 is Text && FieldType::named(kind->0->Text_0) is None
                ==> rule is Err
        }),
{
    types_are_told_by_their_words(t, t, JsonView::Null);
}

/// A schema that is an object has, for each entry of its `fields`, the rule of that entry
/// under the entry's path, and no other rules; it is refused without `fields`, where that is
/// no object, and where an entry is no rule.
pub proof fn schema_has_the_rules_of_its_fields(
    m: Seq<(Seq<char>, JsonView)>,
    fields: Seq<(Seq<char>, JsonView)>,
    path: Seq<char>,
)
    requires
        sorted(fields),
        assoc(m, "fields"@) == Some(JsonView::Object(fields)),
    ensures
        ({
            let schema = read_schema(JsonView::Object(m));
            &&& schema is Ok <==> forall|i: int|
                0 <= i < fields.len() ==> read_rule((#[trigger] fields[i]).1) is Ok
            &&& schema is Ok ==> (assoc(schema->Ok_0, path) is Some <==> assoc(
                fields,
                path,
            ) is Some)
            &&& schema is Ok && assoc(fields, path) is Some ==> read_rule(assoc(fields, path)->0)
                == Ok::<FieldRule, Seq<char>>(assoc(schema->Ok_0, path)->0)
        }),
{
    rules_of_fields(fields, path);
}

proof fn rules_of_fields(fields: Seq<(Seq<char>, JsonView)>, path: Seq<char>)
    requires
        sorted(fields),
    ensures
        ({
            let rules = read_rules(fields);
            &&& rules is Ok <==> forall|i: int|
                0 <= i < fields.len() ==> read_rule((#[trigger] fields[i]).1) is Ok
            &&& rules is Ok ==> (assoc(rules->Ok_0, path) is Some <==> assoc(fields, path) is Some)
            &&& rules is Ok && assoc(fields, path) is Some ==> read_rule(assoc(fields, path)->0)
                == Ok::<FieldRule, Seq<char>>(assoc(rules->Ok_0, path)->0)
        }),
    decreases fields.len(),
{
    if fields.len() > 0 {
        let front = fields.drop_last();
        let last = fields.last();
        let n = fields.len() - 1;
        assert(fields[n] == last);
        assert forall|i: int, j: int| 0 <= i < j < front.len() implies text_less(
            #[trigger] front[i].0,
            #[trigger] front[j].0,
        ) by {
            assert(text_less(fields[i].0, fields[j].0));
        }
        rules_of_fields(front, path);
        if forall|i: int| 0 <= i < fields.len() ==> read_rule((#[trigger] fields[i]).1) is Ok {
            assert forall|i: int| 0 <= i < front.len() implies read_rule(
                (#[trigger] front[i]).1,
            ) is Ok by {
                assert(fields[i] == front[i]);
            }
        }
        if read_rules(fields) is Ok {
            assert forall|i: int| 0 <= i < fields.len() implies read_rule(
                (#[trigger] fields[i]).1,
            ) is Ok by {
                if i < n {
                    assert(front[i] == fields[i]);
                }
            }
            let rule = read_rule(last.1)->Ok_0;
            assoc_after_insert(read_rules(front)->Ok_0, last.0, rule, path);
        }
        assoc_of_entry(fields, n);
        assoc_some_iff(fields, path);
        assoc_some_iff(front, path);
        if path != last.0 {
            if assoc(fields, path) is Some {
                let k = choose|k: int| 0 <= k < fields.len() && (#[trigger] fields[k]).0 == path;
                assoc_of_entry(fields, k);
                assert(front[k] == fields[k]);
                assoc_of_entry(front, k);
            }
            if assoc(front, path) is Some {
                let k = choose|k: int| 0 <= k < front.len() && (#[trigger] front[k]).0 == path;
                assert(fields[k] == front[k]);
            }
        }
    }
}

/// A schema needs an object under `fields`.
pub proof fn schema_needs_its_fields(m: Seq<(Seq<char>, JsonView)>)
    ensures
        assoc(m, "fields"@) is None ==> read_schema(JsonView::Object(m)) is Err,
        assoc(m, "fields"@) is Some && !(assoc(m, "fields"@)->0 is Object) ==> read_schema(
            JsonView::Object(m),
        ) is Err,
{
}

/// The node puts out its input and the list of its errors, and goes to the target of
/// `valid` exactly where the list is empty, else to that of `invalid`.
pub proof fn node_chooses_by_the_errors(
    rules: Seq<(Seq<char>, FieldRule)>,
    choices: Seq<(Seq<char>, Seq<char>)>,
    name: Seq<char>,
    w: WorkFlowView,
    input: JsonView,
)
    requires
        w.bus.wf(),
        assoc(w.bus.types, name + "."@ + "output"@) == Some(ParameterType::Step),
        assoc(w.bus.types, name + "."@ + "errors"@) == Some(ParameterType::Step),
    ensures
        ({
            let (after, r) = validator_act(rules, choices, name, w, Some(input));
            let errors = schema_errors(input, rules);
            let put_out = after.bus.read(name + "."@ + "errors"@);
            let target = assoc(
                choices,
                if errors.len() == 0 {
                    "valid"@
                } else {
                    "invalid"@
                },
            );
            &&& after.bus.read(name + "."@ + "output"@) == Ok::<Option<JsonView>, ErrorView>(
                Some(input),
            )
            &&& put_out matches Ok(Some(JsonView::Array(list))) && list.len() == errors.len() && (
            forall|i: int| 0 <= i < list.len() ==> #[trigger] list[i] == JsonView::Text(errors[i]))
            &&& r is Ok <==> target is Some && (target->0 == "finish"@ || assoc(
                w.nodes,
                target->0,
            ) is Some)
            &&& r is Ok ==> went_to(w, after, name, target->0) && cancelled_as_told(
                w,
                after,
                choices,
                target->0,
                true,
            )
        }),
{
    let errors = schema_errors(input, rules);
    reveal_strlit("output");
    reveal_strlit("errors");
    assert("output"@[0] != "errors"@[0]);
    two_outputs_are_read_and_choice_is_made(
        w,
        name,
        ("output"@, input),
        ("errors"@, JsonView::Array(text_values(errors))),
        if errors.len() == 0 {
            "valid"@
        } else {
            "invalid"@
        },
        choices,
        true,
    );
}

/// A node acts on its input once it was activated and the input has its value, and on null
/// where the input has no source. Before that it waits: without its activation it touches
/// nothing, and without the value it only takes its activation up. An input that is not
/// configured is an error.
pub proof fn node_runs_on_its_input(
    rules: Seq<(Seq<char>, FieldRule)>,
    c: NodeConfigView,
    name: Seq<char>,
    w: WorkFlowView,
    triggered: bool,
    v: JsonView,
)
    requires
        assoc(w.nodes, name) is Some,
    ensures
        ({
            let (after, t, p) = validator_run(rules, c, name, w, triggered);
            let ready = triggered || assoc(w.nodes, name)->0.activated;
            let begun = if triggered {
                w
            } else {
                w.take_activation(name).0
            };
            let source = assoc(c.input_map, "input"@);
            &&& !ready ==> after == w && !t && p == NodePollView::Pending
            &&& ready && source is None ==> after == begun && !t && (p matches NodePollView::Done(
                r,
            ) && r is Err)
            &&& ready && source == Some(None::<Seq<char>>) ==> !t && (
                after,
                p,
            ) == (
                validator_act(rules, c.choice_map, name, begun, Some(JsonView::Null)).0,
                NodePollView::Done(validator_act(rules, c.choice_map, name, begun, Some(JsonView::Null)).1),
            )
            &&& ready && (source matches Some(Some(s)) && source_value(w, s) == Ok::<
                InputView,
                ErrorView,
            >(InputView::Ready(v))) ==> !t && (
                after,
                p,
            ) == (
                validator_act(rules, c.choice_map, name, begun, Some(v)).0,
                NodePollView::Done(validator_act(rules, c.choice_map, name, begun, Some(v)).1),
            )
            &&& ready && (source matches Some(Some(s)) && source_value(w, s) == Ok::<
                InputView,
                ErrorView,
            >(InputView::Waiting)) ==> after == begun && t && p == NodePollView::Pending
        }),
{
    node_waits_for_activation_and_input(w, triggered, name, c.input_map, "input"@, v);
    activation_touches_one_node(w, name, name);
}

/// The errors of a list of rules are those of its first rules, followed by those of the
/// rest; one rule gives its error, if there is one, and nothing else.
pub proof fn errors_come_rule_by_rule(
    value: JsonView,
    a: Seq<(Seq<char>, FieldRule)>,
    b: Seq<(Seq<char>, FieldRule)>,
    path: Seq<char>,
    rule: FieldRule,
)
    ensures
        schema_errors(value, a + b) == schema_errors(value, a) + schema_errors(value, b),
        schema_errors(value, seq![(path, rule)]) == (match field_error(value, path, rule) {
            Some(e) => seq![e],
            None => Seq::empty(),
        }),
    decreases b.len(),
{
    if b.len() == 0 {
        assert(a + b =~= a);
        assert(schema_errors(value, a) + schema_errors(value, b) =~= schema_errors(value, a));
    } else {
        errors_come_rule_by_rule(value, a, b.drop_last(), path, rule);
        assert((a + b).drop_last() =~= a + b.drop_last());
        assert((a + b).last() == b.last());
        assert(schema_errors(value, a + b) =~= schema_errors(value, a) + schema_errors(value, b));
    }
    reveal_with_fuel(schema_errors, 2);
    let one = seq![(path, rule)];
    assert(one.drop_last() =~= Seq::empty());
    assert(one.last() == (path, rule));
    if let Some(e) = field_error(value, path, rule) {
        assert(Seq::<Seq<char>>::empty().push(e) =~= seq![e]);
    }
}

/// A type is read off its word, or off an object whose one key is the word and whose one
/// value is null, and off nothing else.
pub proof fn type_is_read_off_its_word(v: JsonView, t: FieldType)
    ensures
        read_type(v) == Ok::<FieldType, Seq<char>>(t) <==> v == JsonView::Text(t.word()) || (
        v matches JsonView::Object(m) && m.len() == 1 && m[0].0 == t.word() && m[0].1 is Null),
{
    types_are_told_by_their_words(t, t, JsonView::Null);
    if let JsonView::Text(word) = v {
        only_words_of_types_name_types(word);
    }
    if let JsonView::Object(m) = v {
        if m.len() == 1 {
            only_words_of_types_name_types(m[0].0);
        }
    }
}

/// A rule is read off an object or off a list: the type is that of the entry `type` or of
/// the first item, and none where it is null; the flag is that of the entry `required` or of
/// the second item, and false where there is none. A list has one or two items.
pub proof fn rule_is_read_off_an_object_or_a_list(v: JsonView, rule: FieldRule)
    ensures
        read_rule(v) == Ok::<FieldRule, Seq<char>>(rule) <==> {
            ||| v matches JsonView::Object(m) && gives_type(
                assoc(m, "type"@),
                rule.field_type,
            ) && gives_flag(assoc(m, "required"@), rule.required)
            ||| v matches JsonView::Array(a) && 1 <= a.len() <= 2 && gives_type(
                Some(a[0]),
                rule.field_type,
            ) && gives_flag(
                if a.len() == 2 {
                    Some(a[1])
                } else {
                    None
                },
                rule.required,
            )
        },
{
}

/// Whether a value that may not be there gives a type, or none.
pub open spec fn gives_type(v: Option<JsonView>, t: Option<FieldType>) -> bool {
    match t {
        None => v is None || v == Some(JsonView::Null),
        Some(t) => v is Some && !(v->0 is Null) && read_type(v->0) == Ok::<FieldType, Seq<char>>(t),
    }
}

/// Whether a value that may not be there gives a flag.
pub open spec fn gives_flag(v: Option<JsonView>, flag: bool) -> bool {
    v == Some(JsonView::Bool(flag)) || (v is None && !flag)
}

/// A schema is read off an object with the entry `fields`, or off a list of one item, whose
/// value is an object; the schema of the node is that of its attribute, and an error says
/// what is wrong with it.
pub proof fn schema_is_read_off_its_attribute(
    c: NodeConfigView,
    v: JsonView,
    rules: Seq<(Seq<char>, FieldRule)>,
)
    ensures
        read_schema(v) == Ok::<Seq<(Seq<char>, FieldRule)>, Seq<char>>(rules) <==> {
            ||| v matches JsonView::Object(m) && (assoc(m, "fields"@) matches Some(
                JsonView::Object(fields),
            ) && read_rules(fields) == Ok::<Seq<(Seq<char>, FieldRule)>, Seq<char>>(rules))
            ||| v matches JsonView::Array(a) && a.len() == 1 && (a[0] matches JsonView::Object(
                fields,
            ) && read_rules(fields) == Ok::<Seq<(Seq<char>, FieldRule)>, Seq<char>>(rules))
        },
        assoc(c.attrs, "schema"@) is None ==> schema_of(c) == Err::<
            Seq<(Seq<char>, FieldRule)>,
            ErrorView,
        >(ErrorView::ConfigError("schema_validator requires attrs.schema"@)),
        assoc(c.attrs, "schema"@) == Some(v) ==> {
            &&& schema_of(c) == Ok::<Seq<(Seq<char>, FieldRule)>, ErrorView>(rules) <==> read_schema(
                v,
            ) == Ok::<Seq<(Seq<char>, FieldRule)>, Seq<char>>(rules)
            &&& read_schema(v) matches Err(e) ==> schema_of(c) == Err::<
                Seq<(Seq<char>, FieldRule)>,
                ErrorView,
            >(ErrorView::ConfigError("invalid schema_validator schema: "@ + e))
        },
{
}

} // verus!
