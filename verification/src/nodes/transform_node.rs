//! The node that turns its input into another value.
use vstd::prelude::*;

use crate::error::{config_error, option_view, result_view, unit_view, ErrorView, WorkflowError};
use crate::json::{json_reading, json_writing, parse_json};
use crate::node::base::{
    source_value, BaseNode, InputView, NodeConfig, NodeConfigView, NodeContext, NodeDecl, NodeType,
};
use crate::nodes::{
    and_choice, and_output, await_input, cancelled_as_told, declared,
    node_waits_for_activation_and_input, nodes_decide_who_is_cancelled, one,
    output_is_read_and_choice_is_made, poll_input, went_to, InputPoll, InputPollView, NodeCore,
    NodePoll, NodePollView,
};
use crate::parameter_bus::ParameterType;
use crate::string_map::{assoc, assoc_after_insert, assoc_insert, StringMap};
use crate::text::{
    ascii_lowered, is_ascii_text, cat2, cat4, cat5, join, join_text, lowercase, split, split_text,
    text_eq, texts, to_lowercase, to_uppercase, trim, trim_text, uppercase, Trimmed,
};
use crate::value::{array_view, json_views, object_view, Json, JsonView};
use crate::workflow::{activation_touches_one_node, WorkFlow, WorkFlowView};

verus! {

/// How an input is turned into another value.
#[derive(Clone, Copy, Debug, PartialEq, Eq, Structural)]
pub enum TransformType {
    /// Put a field into an object.
    AddField,
    /// Take the value at a path.
    ExtractField,
    /// Join the texts at several paths.
    Concat,
    /// Make a text upper case.
    ToUpper,
    /// Make a text lower case.
    ToLower,
    /// Make the value the only field of an object.
    Wrap,
}

impl TransformType {
    /// The transform that a lower-case word names.
    pub open spec fn named(word: Seq<char>) -> Option<TransformType> {
        if word == "add_field"@ {
            Some(TransformType::AddField)
        } else if word == "extract_field"@ {
            Some(TransformType::ExtractField)
        } else if word == "concat"@ {
            Some(TransformType::Concat)
        } else if word == "to_upper"@ {
            Some(TransformType::ToUpper)
        } else if word == "to_lower"@ {
            Some(TransformType::ToLower)
        } else if word == "wrap"@ {
            Some(TransformType::Wrap)
        } else {
            None
        }
    }

    /// The transform that a lower-case word names.
    pub fn from_lowered(word: &str) -> (r: Option<TransformType>)
        ensures
            r == TransformType::named(word@),
    {
        if text_eq(word, "add_field") {
            Some(TransformType::AddField)
        } else if text_eq(word, "extract_field") {
            Some(TransformType::ExtractField)
        } else if text_eq(word, "concat") {
            Some(TransformType::Concat)
        } else if text_eq(word, "to_upper") {
            Some(TransformType::ToUpper)
        } else if text_eq(word, "to_lower") {
            Some(TransformType::ToLower)
        } else if text_eq(word, "wrap") {
            Some(TransformType::Wrap)
        } else {
            None
        }
    }

    /// The transform that a word names, in any case.
    pub open spec fn parsed(s: Seq<char>) -> Result<TransformType, ErrorView> {
        match TransformType::named(lowercase(s)) {
            Some(t) => Ok(t),
            None => Err(ErrorView::ConfigError("Unknown transform type: "@ + s)),
        }
    }

    /// The transform that a word names, in any case.
    pub fn from_str(s: &str) -> (r: Result<TransformType, WorkflowError>)
        ensures
            match r {
                Ok(t) => TransformType::parsed(s@) == Ok::<TransformType, ErrorView>(t),
                Err(e) => TransformType::parsed(s@) == Err::<TransformType, ErrorView>(e@),
            },
            is_ascii_text(s@) ==> lowercase(s@) == ascii_lowered(s@),
    {
        let word = to_lowercase(s);
        match TransformType::from_lowered(word.as_str()) {
            Some(t) => Ok(t),
            None => Err(WorkflowError::ConfigError(cat2("Unknown transform type: ", s))),
        }
    }
}

// ---------------------------------------------------------------------------
// Paths and parsed inputs
// ---------------------------------------------------------------------------

/// The value at the end of the keys of a dotted path.
pub open spec fn walk_path(value: JsonView, keys: Seq<Seq<char>>, path: Seq<char>) -> Result<
    JsonView,
    ErrorView,
>
    decreases keys.len(),
{
    if keys.len() == 0 {
        Ok(value)
    } else {
        match value.get(keys[0]) {
            None => Err(
                ErrorView::ConfigError(
                    "Field '"@ + keys[0] + "' not found in path '"@ + path + "'"@,
                ),
            ),
            Some(next) => walk_path(next, keys.skip(1), path),
        }
    }
}

/// The value at a dotted path.
pub open spec fn at_path(value: JsonView, path: Seq<char>) -> Result<JsonView, ErrorView> {
    walk_path(value, split_text(path, '.'), path)
}

/// Takes the value at a dotted path.
pub fn extract_path(input: &Json, field_path: &str) -> (r: Result<Json, WorkflowError>)
    ensures
        result_view(r) == at_path(input@, field_path@),
{
    let keys = split(field_path, '.');
    let mut current: &Json = input;
    let mut i: usize = 0;
    proof {
        assert(texts(keys@).skip(0) =~= texts(keys@));
    }
    while i < keys.len()
        invariant
            i <= keys@.len(),
            texts(keys@) == split_text(field_path@, '.'),
            at_path(input@, field_path@) == walk_path(
                current@,
                texts(keys@).skip(i as int),
                field_path@,
            ),
        decreases keys@.len() - i,
    {
        proof {
            assert(texts(keys@).skip(i as int)[0] == keys@[i as int]@);
            assert(texts(keys@).skip(i as int).skip(1) =~= texts(keys@).skip(i + 1));
        }
        match current.get(keys[i].as_str()) {
            None => {
                return Err(
                    WorkflowError::ConfigError(
                        cat5(
                            "Field '",
                            keys[i].as_str(),
                            "' not found in path '",
                            field_path,
                            "'",
                        ),
                    ),
                );
            },
            Some(next) => {
                current = next;
            },
        }
        i = i + 1;
    }
    Ok(current.copy())
}

/// A text input stands for the value that it is the JSON text of; `word` names the
/// transform in the error.
pub open spec fn parsed_input(input: JsonView, word: Seq<char>) -> Result<JsonView, ErrorView> {
    match input {
        JsonView::Text(text) => match json_reading(text) {
            Ok(v) => Ok(v),
            Err(e) => Err(
                ErrorView::ConfigError(
                    "Input string must be valid JSON for "@ + word + " transform: "@ + e,
                ),
            ),
        },
        _ => Ok(input),
    }
}

/// Reads a text input as JSON.
pub fn parse_json_input(input: Json, transform_type: &str) -> (r: Result<Json, WorkflowError>)
    ensures
        result_view(r) == parsed_input(input@, transform_type@),
{
    match input {
        Json::String(text) => match parse_json(text.as_str()) {
            Ok(v) => Ok(v),
            Err(e) => Err(
                WorkflowError::ConfigError(
                    cat4(
                        "Input string must be valid JSON for ",
                        transform_type,
                        " transform: ",
                        e.as_str(),
                    ),
                ),
            ),
        },
        other => Ok(other),
    }
}

/// The text of a value: itself where it is a text, else its compact JSON text.
pub open spec fn plain_text(v: JsonView) -> Seq<char> {
    match v {
        JsonView::Text(s) => s,
        _ => json_writing(v),
    }
}

/// The text of a value.
pub fn value_text(v: Json) -> (r: String)
    ensures
        r@ == plain_text(v@),
{
    match v {
        Json::String(s) => s,
        other => other.to_text(),
    }
}

/// The texts of a list of values, where all of them are texts.
pub open spec fn all_texts(items: Seq<JsonView>) -> Option<Seq<Seq<char>>>
    decreases items.len(),
{
    if items.len() == 0 {
        Some(Seq::empty())
    } else {
        match (all_texts(items.drop_last()), items.last().as_text()) {
            (Some(front), Some(s)) => Some(front.push(s)),
            _ => None,
        }
    }
}

/// The texts at the paths that lead to a value, in order.
pub open spec fn found_texts(input: JsonView, paths: Seq<Seq<char>>) -> Seq<Seq<char>>
    decreases paths.len(),
{
    if paths.len() == 0 {
        Seq::empty()
    } else {
        let front = found_texts(input, paths.drop_last());
        match at_path(input, paths.last()) {
            Ok(v) => front.push(plain_text(v)),
            Err(_) => front,
        }
    }
}

proof fn all_texts_prefix(items: Seq<JsonView>, n: int)
    requires
        0 <= n <= items.len(),
        all_texts(items) is Some,
    ensures
        all_texts(items.take(n)) is Some,
    decreases items.len(),
{
    if n == items.len() {
        assert(items.take(n) =~= items);
    } else {
        all_texts_prefix(items.drop_last(), n);
        assert(items.drop_last().take(n) =~= items.take(n));
    }
}

fn texts_of(items: &Vec<Json>) -> (r: Option<Vec<String>>)
    ensures
        match r {
            Some(v) => all_texts(json_views(items@)) == Some(texts(v@)),
            None => all_texts(json_views(items@)) is None,
        },
{
    let mut out: Vec<String> = Vec::new();
    let mut i: usize = 0;
    proof {
        assert(json_views(items@).take(0) =~= Seq::empty());
        assert(texts(out@) =~= Seq::empty());
    }
    while i < items.len()
        invariant
            i <= items@.len(),
            all_texts(json_views(items@).take(i as int)) == Some(texts(out@)),
        decreases items@.len() - i,
    {
        proof {
            let next = json_views(items@).take(i + 1);
            assert(next.drop_last() =~= json_views(items@).take(i as int));
            assert(next.last() == items@[i as int]@);
        }
        match items[i].as_str() {
            Some(s) => {
                let ghost so_far = texts(out@);
                out.push(s.to_owned());
                proof {
                    assert(texts(out@) =~= so_far.push(s@));
                }
            },
            None => {
                proof {
                    if all_texts(json_views(items@)) is Some {
                        all_texts_prefix(json_views(items@), i + 1);
                    }
                }
                return None;
            },
        }
        i = i + 1;
    }
    proof {
        assert(json_views(items@).take(i as int) =~= json_views(items@));
    }
    Some(out)
}

fn found(input: &Json, paths: &Vec<String>) -> (r: Vec<String>)
    ensures
        texts(r@) == found_texts(input@, texts(paths@)),
{
    let mut out: Vec<String> = Vec::new();
    let mut i: usize = 0;
    proof {
        assert(texts(paths@).take(0) =~= Seq::empty());
        assert(texts(out@) =~= Seq::empty());
    }
    while i < paths.len()
        invariant
            i <= paths@.len(),
            texts(out@) == found_texts(input@, texts(paths@).take(i as int)),
        decreases paths@.len() - i,
    {
        proof {
            let next = texts(paths@).take(i + 1);
            assert(next.drop_last() =~= texts(paths@).take(i as int));
            assert(next.last() == paths@[i as int]@);
        }
        if let Ok(v) = extract_path(input, paths[i].as_str()) {
            let text = value_text(v);
            let ghost so_far = texts(out@);
            let ghost t = text@;
            out.push(text);
            proof {
                assert(texts(out@) =~= so_far.push(t));
            }
        }
        i = i + 1;
    }
    proof {
        assert(texts(paths@).take(i as int) =~= texts(paths@));
    }
    out
}

// ---------------------------------------------------------------------------
// The transforms
// ---------------------------------------------------------------------------

/// An object with one more field.
pub open spec fn add_field(c: NodeConfigView, input: JsonView) -> Result<JsonView, ErrorView> {
    match (c.text_attr("field_name"@), assoc(c.attrs, "field_value"@)) {
        (None, _) => Err(ErrorView::ConfigError("Missing 'field_name' attribute"@)),
        (Some(_), None) => Err(ErrorView::ConfigError("Missing 'field_value' attribute"@)),
        (Some(name), Some(value)) => match input {
            JsonView::Object(m) => Ok(JsonView::Object(assoc_insert(m, name, value))),
            _ => Err(
                ErrorView::ConfigError("Input must be an object for add_field transform"@),
            ),
        },
    }
}

/// The path of an extraction: the attribute `field_path`, else `field_name`.
pub open spec fn extraction_path(c: NodeConfigView) -> Option<Seq<char>> {
    if assoc(c.attrs, "field_path"@) is Some {
        c.text_attr("field_path"@)
    } else {
        c.text_attr("field_name"@)
    }
}

/// The value at a path.
pub open spec fn extract_field(c: NodeConfigView, input: JsonView) -> Result<JsonView, ErrorView> {
    match extraction_path(c) {
        None => Err(
            ErrorView::ConfigError("Missing 'field_path' or 'field_name' attribute"@),
        ),
        Some(path) => match parsed_input(input, "extract_field"@) {
            Err(e) => Err(e),
            Ok(v) => at_path(v, path),
        },
    }
}

/// The texts at several paths, joined.
pub open spec fn concat(c: NodeConfigView, input: JsonView) -> Result<JsonView, ErrorView> {
    match assoc(c.attrs, "fields"@) {
        Some(JsonView::Array(items)) => match all_texts(items) {
            None => Err(
                ErrorView::ConfigError("Invalid 'fields' attribute: every item must be a string"@),
            ),
            Some(paths) => match assoc(c.attrs, "separator"@) {
                Some(JsonView::Text(sep)) => joined(input, paths, sep),
                None => joined(input, paths, Seq::empty()),
                Some(_) => Err(
                    ErrorView::ConfigError("Invalid 'separator' attribute: expected a string"@),
                ),
            },
        },
        _ => Err(
            ErrorView::ConfigError("Missing or invalid 'fields' attribute: expected an array"@),
        ),
    }
}

/// The texts at several paths of an input, with a separator between neighbours.
pub open spec fn joined(input: JsonView, paths: Seq<Seq<char>>, sep: Seq<char>) -> Result<
    JsonView,
    ErrorView,
> {
    match parsed_input(input, "concat"@) {
        Err(e) => Err(e),
        Ok(v) => Ok(JsonView::Text(join_text(found_texts(v, paths), sep))),
    }
}

/// The text that a value is wrapped under.
pub open spec fn wrap_key(c: NodeConfigView) -> Seq<char> {
    match c.text_attr("wrap_key"@) {
        Some(k) => k,
        None => "data"@,
    }
}

/// What a transform makes of an input.
pub open spec fn apply_transform(t: TransformType, c: NodeConfigView, input: JsonView) -> Result<
    JsonView,
    ErrorView,
> {
    match t {
        TransformType::AddField => add_field(c, input),
        TransformType::ExtractField => extract_field(c, input),
        TransformType::Concat => concat(c, input),
        TransformType::ToUpper => match input {
            JsonView::Text(s) => Ok(JsonView::Text(uppercase(s))),
            _ => Err(ErrorView::ConfigError("Input must be a string for to_upper transform"@)),
        },
        TransformType::ToLower => match input {
            JsonView::Text(s) => Ok(JsonView::Text(lowercase(s))),
            _ => Err(ErrorView::ConfigError("Input must be a string for to_lower transform"@)),
        },
        TransformType::Wrap => Ok(JsonView::Object(seq![(wrap_key(c), input)])),
    }
}

/// What the attributes of a node make of an input.
pub open spec fn transformed(c: NodeConfigView, input: JsonView) -> Result<JsonView, ErrorView> {
    match c.text_attr("transform_type"@) {
        None => Err(ErrorView::ConfigError("Missing 'transform_type' attribute"@)),
        Some(word) => match TransformType::parsed(word) {
            Err(e) => Err(e),
            Ok(t) => apply_transform(t, c, input),
        },
    }
}

/// The context after a transform: the attribute `context_key`, trimmed, names a
/// value to keep the result under, and an added field is kept under its own name.
pub open spec fn noted(c: NodeConfigView, w: WorkFlowView, result: JsonView) -> WorkFlowView {
    let kept = match c.text_attr("context_key"@) {
        Some(k) => if trim_text(k, Trimmed::White).len() > 0 {
            w.with_context(trim_text(k, Trimmed::White), result)
        } else {
            w
        },
        None => w,
    };
    match (
        c.text_attr("transform_type"@),
        c.text_attr("field_name"@),
        assoc(c.attrs, "field_value"@),
    ) {
        (Some(word), Some(name), Some(value)) => if lowercase(word) == "add_field"@ {
            kept.with_context(name, value)
        } else {
            kept
        },
        _ => kept,
    }
}

/// What the node does once it has its input.
pub open spec fn transform_act(
    c: NodeConfigView,
    name: Seq<char>,
    w: WorkFlowView,
    input: Option<JsonView>,
) -> (WorkFlowView, Result<(), ErrorView>) {
    let given = match input {
        Some(v) => v,
        None => JsonView::Null,
    };
    match transformed(c, given) {
        Err(e) => (w, Err(e)),
        Ok(result) => and_choice(
            and_output((noted(c, w, result), Ok(())), name, "result"@, result),
            name,
            "default"@,
            c.choice_map,
            true,
        ),
    }
}

/// What the node does when it is run.
pub open spec fn transform_run(
    c: NodeConfigView,
    name: Seq<char>,
    w: WorkFlowView,
    triggered: bool,
) -> (WorkFlowView, bool, NodePollView) {
    let (polled, t, input) = poll_input(w, triggered, name, c.input_map, "input"@);
    match input {
        InputPollView::Pending => (polled, t, NodePollView::Pending),
        InputPollView::Failed(e) => (polled, t, NodePollView::Done(Err(e))),
        InputPollView::Got(v) => {
            let (after, r) = transform_act(c, name, polled, v);
            (after, t, NodePollView::Done(r))
        },
    }
}

/// A node that turns its input into another value.
#[derive(Debug)]
pub struct TransformNode {
    pub core: NodeCore,
}

impl TransformNode {
    /// The node that a configuration describes.
    pub fn new(config: NodeConfig, _ctx: NodeContext) -> (r: Result<TransformNode, WorkflowError>)
        ensures
            match r {
                Ok(node) => {
                    &&& node.core.config == config
                    &&& node.core.name@ == config@.node_name
                    &&& node.decl() == declared(
                        config@,
                        NodeType::Step,
                        seq!["input"@],
                        seq!["result"@],
                        seq!["default"@],
                        true,
                    )
                },
                Err(_) => false,
            },
    {
        Ok(
            TransformNode {
                core: NodeCore::new(config, one("input"), one("result"), one("default")),
            },
        )
    }

    fn add_field(&self, input: Json) -> (r: Result<Json, WorkflowError>)
        ensures
            result_view(r) == add_field(self.core.config@, input@),
    {
        broadcast use object_view;

        let config = &self.core.config;
        let name = match config.text_attr("field_name") {
            None => {
                return Err(config_error("Missing 'field_name' attribute"));
            },
            Some(name) => name,
        };
        let value = match config.attrs.get("field_value") {
            None => {
                return Err(config_error("Missing 'field_value' attribute"));
            },
            Some(value) => value.copy(),
        };
        match input {
            Json::Object(m) => {
                let mut map = m;
                map.insert(name.to_owned(), value);
                Ok(Json::Object(map))
            },
            _ => Err(config_error("Input must be an object for add_field transform")),
        }
    }

    fn extract_field(&self, input: Json) -> (r: Result<Json, WorkflowError>)
        ensures
            result_view(r) == extract_field(self.core.config@, input@),
    {
        let config = &self.core.config;
        let path = if config.attrs.contains_key("field_path") {
            config.text_attr("field_path")
        } else {
            config.text_attr("field_name")
        };
        match path {
            None => Err(config_error("Missing 'field_path' or 'field_name' attribute")),
            Some(path) => match parse_json_input(input, "extract_field") {
                Err(e) => Err(e),
                Ok(v) => extract_path(&v, path),
            },
        }
    }

    fn concat(&self, input: Json) -> (r: Result<Json, WorkflowError>)
        ensures
            result_view(r) == concat(self.core.config@, input@),
    {
        broadcast use array_view;

        let config = &self.core.config;
        let items = match config.attrs.get("fields") {
            Some(Json::Array(items)) => items,
            _ => {
                return Err(
                    config_error("Missing or invalid 'fields' attribute: expected an array"),
                );
            },
        };
        let paths = match texts_of(items) {
            Some(paths) => paths,
            None => {
                return Err(
                    config_error("Invalid 'fields' attribute: every item must be a string"),
                );
            },
        };
        proof {
            reveal_strlit("");
            assert(""@ =~= Seq::<char>::empty());
        }
        let separator: &str = match config.attrs.get("separator") {
            Some(Json::String(s)) => s.as_str(),
            None => "",
            Some(_) => {
                return Err(config_error("Invalid 'separator' attribute: expected a string"));
            },
        };
        match parse_json_input(input, "concat") {
            Err(e) => Err(e),
            Ok(v) => {
                let values = found(&v, &paths);
                Ok(Json::String(join(&values, separator)))
            },
        }
    }

    fn wrap(&self, input: Json) -> (r: Json)
        ensures
            r@ == JsonView::Object(seq![(wrap_key(self.core.config@), input@)]),
    {
        broadcast use object_view;

        let key = match self.core.config.text_attr("wrap_key") {
            Some(k) => k.to_owned(),
            None => "data".to_owned(),
        };
        let mut map: StringMap<Json> = StringMap::new();
        map.insert(key, input);
        Json::Object(map)
    }

    /// Transforms an input by the attributes of the node.
    pub fn transform(&self, input: Json) -> (r: Result<Json, WorkflowError>)
        ensures
            result_view(r) == transformed(self.core.config@, input@),
    {
        let word = match self.core.config.text_attr("transform_type") {
            None => {
                return Err(config_error("Missing 'transform_type' attribute"));
            },
            Some(word) => word,
        };
        let t = match TransformType::from_str(word) {
            Ok(t) => t,
            Err(e) => {
                return Err(e);
            },
        };
        match t {
            TransformType::AddField => self.add_field(input),
            TransformType::ExtractField => self.extract_field(input),
            TransformType::Concat => self.concat(input),
            TransformType::ToUpper => match input {
                Json::String(s) => Ok(Json::String(to_uppercase(s.as_str()))),
                _ => Err(config_error("Input must be a string for to_upper transform")),
            },
            TransformType::ToLower => match input {
                Json::String(s) => Ok(Json::String(to_lowercase(s.as_str()))),
                _ => Err(config_error("Input must be a string for to_lower transform")),
            },
            TransformType::Wrap => Ok(self.wrap(input)),
        }
    }

    fn note(&self, result: &Json, workflow: &mut WorkFlow)
        ensures
            final(workflow)@ == noted(self.core.config@, old(workflow)@, result@),
    {
        let config = &self.core.config;
        if let Some(key) = config.text_attr("context_key") {
            let kept = trim(key, Trimmed::White);
            if !text_eq(kept.as_str(), "") {
                workflow.set_context(kept.as_str(), result.copy());
            }
            proof {
                reveal_strlit("");
                if kept@.len() == 0 {
                    assert(kept@ =~= ""@);
                }
            }
        }
        if let Some(word) = config.text_attr("transform_type") {
            let lowered = to_lowercase(word);
            if text_eq(lowered.as_str(), "add_field") {
                if let Some(name) = config.text_attr("field_name") {
                    if let Some(value) = config.attrs.get("field_value") {
                        workflow.set_context(name, value.copy());
                    }
                }
            }
        }
    }

    fn act(&self, input: Option<Json>, workflow: &mut WorkFlow) -> (r: Result<(), WorkflowError>)
        ensures
            (final(workflow)@, unit_view(r)) == transform_act(
                self.core.config@,
                self.core.name@,
                old(workflow)@,
                option_view(input),
            ),
    {
        let given = match input {
            Some(v) => v,
            None => Json::Null,
        };
        let result = match self.transform(given) {
            Ok(v) => v,
            Err(e) => {
                return Err(e);
            },
        };
        self.note(&result, workflow);
        self.core.output_and_choose("result", result, "default", workflow)
    }

    /// Runs the node as far as it gets; `triggered` says whether its activation was
    /// taken up before.
    pub fn run(&self, triggered: &mut bool, workflow: &mut WorkFlow) -> (r: NodePoll)
        ensures
            (final(workflow)@, *final(triggered), r@) == transform_run(
                self.core.config@,
                self.core.name@,
                old(workflow)@,
                *old(triggered),
            ),
    {
        match await_input(
            self.core.name.as_str(),
            triggered,
            "input",
            &self.core.config.input_map,
            workflow,
        ) {
            InputPoll::Pending => NodePoll::Pending,
            InputPoll::Failed(e) => NodePoll::Done(Err(e)),
            InputPoll::Got(v) => NodePoll::Done(self.act(v, workflow)),
        }
    }
}

impl BaseNode for TransformNode {
    open spec fn decl(&self) -> NodeDecl {
        self.core.decl(NodeType::Step, true)
    }

    fn name(&self) -> (r: &str) {
        self.core.name.as_str()
    }

    fn node_type(&self) -> (r: NodeType) {
        NodeType::Step
    }

    fn input_parameters(&self) -> (r: &StringMap<ParameterType>) {
        &self.core.input_params
    }

    fn output_parameters(&self) -> (r: &StringMap<ParameterType>) {
        &self.core.output_params
    }

    fn choices(&self) -> (r: &Vec<String>) {
        &self.core.choices
    }

    fn is_key_node(&self) -> (r: bool) {
        self.core.config.key_node
    }

    fn runable(&self) -> (r: bool) {
        true
    }

    fn is_reentrant(&self) -> (r: bool) {
        true
    }
}

// ---------------------------------------------------------------------------
// Laws
// ---------------------------------------------------------------------------

/// The field that was added is found in the result under its name, and the other
/// fields are as they were.
pub proof fn added_field_is_found(c: NodeConfigView, input: JsonView, other: Seq<char>)
    requires
        add_field(c, input) is Ok,
    ensures
        add_field(c, input)->Ok_0.get(c.text_attr("field_name"@)->0) == assoc(
            c.attrs,
            "field_value"@,
        ),
        other != c.text_attr("field_name"@)->0 ==> add_field(c, input)->Ok_0.get(other)
            == input.get(other),
{
    let name = c.text_attr("field_name"@)->0;
    let value = assoc(c.attrs, "field_value"@)->0;
    assoc_after_insert(input->Object_0, name, value, name);
    assoc_after_insert(input->Object_0, name, value, other);
}

/// A wrapped value is found under the key that it was wrapped under.
pub proof fn wrapped_value_is_found(c: NodeConfigView, input: JsonView)
    ensures
        apply_transform(TransformType::Wrap, c, input) is Ok,
        apply_transform(TransformType::Wrap, c, input)->Ok_0.get(wrap_key(c)) == Some(input),
{
}

/// Paths that lead nowhere are skipped: they add nothing to a concatenation.
pub proof fn missing_paths_are_skipped(
    input: JsonView,
    before: Seq<Seq<char>>,
    missing: Seq<char>,
    after: Seq<Seq<char>>,
)
    requires
        at_path(input, missing) is Err,
    ensures
        found_texts(input, before.push(missing) + after) == found_texts(input, before + after),
    decreases after.len(),
{
    if after.len() == 0 {
        assert(before.push(missing) + after =~= before.push(missing));
        assert(before + after =~= before);
        assert(before.push(missing).drop_last() =~= before);
    } else {
        missing_paths_are_skipped(input, before, missing, after.drop_last());
        assert((before.push(missing) + after).drop_last() =~= before.push(missing)
            + after.drop_last());
        assert((before + after).drop_last() =~= before + after.drop_last());
    }
}

/// A path is walked key by key: no keys lead to the value itself, one key to its entry, and
/// more keys on from where the first ones led.
pub proof fn path_is_walked_key_by_key(
    value: JsonView,
    a: Seq<Seq<char>>,
    b: Seq<Seq<char>>,
    key: Seq<char>,
    path: Seq<char>,
)
    ensures
        walk_path(value, Seq::empty(), path) == Ok::<JsonView, ErrorView>(value),
        value.get(key) is Some ==> walk_path(value, seq![key], path) == Ok::<JsonView, ErrorView>(
            value.get(key)->0,
        ),
        value.get(key) is None ==> walk_path(value, seq![key], path) is Err,
        walk_path(value, a, path) is Ok ==> walk_path(value, a + b, path) == walk_path(
            walk_path(value, a, path)->Ok_0,
            b,
            path,
        ),
        walk_path(value, a, path) is Err ==> walk_path(value, a + b, path) == walk_path(
            value,
            a,
            path,
        ),
        at_path(value, path) == walk_path(value, split_text(path, '.'), path),
    decreases a.len(),
{
    reveal_with_fuel(walk_path, 2);
    assert(seq![key].skip(1) =~= Seq::empty());
    if a.len() == 0 {
        assert(a + b =~= b);
    } else {
        assert((a + b).skip(1) =~= a.skip(1) + b);
        assert((a + b)[0] == a[0]);
        if let Some(next) = value.get(a[0]) {
            path_is_walked_key_by_key(next, a.skip(1), b, key, path);
        }
    }
}

/// The paths of a condition and of a transform lead to the same values.
pub proof fn paths_lead_to_the_same_values(
    value: JsonView,
    keys: Seq<Seq<char>>,
    path: Seq<char>,
)
    ensures
        walk_path(value, keys, path) is Ok <==> crate::nodes::condition_node::walk(
            value,
            keys,
        ) is Ok,
        walk_path(value, keys, path) is Ok ==> walk_path(value, keys, path)
            == crate::nodes::condition_node::walk(value, keys),
    decreases keys.len(),
{
    if keys.len() > 0 {
        if let Some(next) = value.get(keys[0]) {
            paths_lead_to_the_same_values(next, keys.skip(1), path);
        }
    }
}

/// An input that is a text stands for the value that the text is read as, and fails where
/// it is no JSON text; any other input stands for itself.
pub proof fn text_inputs_are_read(input: JsonView, word: Seq<char>, v: JsonView)
    ensures
        input is Text ==> (parsed_input(input, word) == Ok::<JsonView, ErrorView>(v)
            <==> json_reading(input->Text_0) == Ok::<JsonView, Seq<char>>(v)),
        !(input is Text) ==> parsed_input(input, word) == Ok::<JsonView, ErrorView>(input),
{
}

/// Adding a field is for objects; extracting gives what the path leads to; a case
/// transform is for texts and gives a text; wrapping gives an object with the value as its
/// only entry.
pub proof fn transforms_fit_their_inputs(
    c: NodeConfigView,
    input: JsonView,
    path: Seq<char>,
    s: Seq<char>,
)
    ensures
        add_field(c, input) is Ok <==> input is Object && c.text_attr("field_name"@) is Some
            && assoc(c.attrs, "field_value"@) is Some,
        apply_transform(TransformType::AddField, c, input) == add_field(c, input),
        assoc(c.attrs, "field_path"@) == Some(JsonView::Text(path)) && !(input is Text)
            ==> apply_transform(TransformType::ExtractField, c, input) == at_path(input, path),
        assoc(c.attrs, "field_path"@) is None && c.text_attr("field_name"@) == Some(path) && !(
        input is Text) ==> apply_transform(TransformType::ExtractField, c, input) == at_path(
            input,
            path,
        ),
        apply_transform(TransformType::ToUpper, c, input) is Ok <==> input is Text,
        apply_transform(TransformType::ToLower, c, input) is Ok <==> input is Text,
        input == JsonView::Text(s) ==> apply_transform(TransformType::ToUpper, c, input) == Ok::<
            JsonView,
            ErrorView,
        >(JsonView::Text(uppercase(s))),
        input == JsonView::Text(s) ==> apply_transform(TransformType::ToLower, c, input) == Ok::<
            JsonView,
            ErrorView,
        >(JsonView::Text(lowercase(s))),
        c.text_attr("wrap_key"@) == Some(s) ==> apply_transform(TransformType::Wrap, c, input)
            == Ok::<JsonView, ErrorView>(JsonView::Object(seq![(s, input)])),
        c.text_attr("wrap_key"@) is None ==> apply_transform(TransformType::Wrap, c, input)
            == Ok::<JsonView, ErrorView>(JsonView::Object(seq![("data"@, input)])),
{
}

proof fn texts_of_items(items: Seq<JsonView>, paths: Seq<Seq<char>>)
    requires
        items.len() == paths.len(),
        forall|i: int| 0 <= i < items.len() ==> #[trigger] items[i] == JsonView::Text(paths[i]),
    ensures
        all_texts(items) == Some(paths),
    decreases items.len(),
{
    if items.len() == 0 {
        assert(paths =~= Seq::empty());
    } else {
        assert forall|i: int| 0 <= i < items.drop_last().len() implies #[trigger] items.drop_last()[i]
            == JsonView::Text(paths.drop_last()[i]) by {
            assert(items[i] == JsonView::Text(paths[i]));
        }
        texts_of_items(items.drop_last(), paths.drop_last());
        assert(items[items.len() - 1] == JsonView::Text(paths[paths.len() - 1]));
        assert(paths =~= paths.drop_last().push(paths.last()));
    }
}

/// Concatenating takes the values at the configured paths, in order: a text as it is, any
/// other value as its JSON text. With two lists of paths it gives what each gives, with the
/// separator between where both give something.
pub proof fn concatenation_goes_path_by_path(
    c: NodeConfigView,
    input: JsonView,
    paths: Seq<Seq<char>>,
    items: Seq<JsonView>,
    sep: Seq<char>,
    path: Seq<char>,
    more: Seq<Seq<char>>,
)
    requires
        !(input is Text),
        assoc(c.attrs, "fields"@) == Some(JsonView::Array(items)),
        items.len() == paths.len(),
        forall|i: int| 0 <= i < items.len() ==> #[trigger] items[i] == JsonView::Text(paths[i]),
        assoc(c.attrs, "separator"@) == Some(JsonView::Text(sep)) || (assoc(
            c.attrs,
            "separator"@,
        ) is None && sep.len() == 0),
    ensures
        apply_transform(TransformType::Concat, c, input) == Ok::<JsonView, ErrorView>(
            JsonView::Text(join_text(found_texts(input, paths), sep)),
        ),
        at_path(input, path) is Ok && at_path(input, path)->Ok_0 is Text ==> found_texts(
            input,
            seq![path],
        ) == seq![at_path(input, path)->Ok_0->Text_0],
        at_path(input, path) is Ok && !(at_path(input, path)->Ok_0 is Text) ==> found_texts(
            input,
            seq![path],
        ) == seq![json_writing(at_path(input, path)->Ok_0)],
        at_path(input, path) is Err ==> found_texts(input, seq![path]).len() == 0,
        found_texts(input, paths + more) == found_texts(input, paths) + found_texts(input, more),
{
    texts_of_items(items, paths);
    if sep.len() == 0 {
        assert(sep =~= Seq::<char>::empty());
    }
    reveal_with_fuel(found_texts, 2);
    assert(seq![path].drop_last() =~= Seq::empty());
    assert(found_texts(input, seq![path].drop_last()) =~= Seq::empty());
    found_texts_add_up(input, paths, more);
}

proof fn found_texts_add_up(input: JsonView, a: Seq<Seq<char>>, b: Seq<Seq<char>>)
    ensures
        found_texts(input, a + b) == found_texts(input, a) + found_texts(input, b),
    decreases b.len(),
{
    if b.len() == 0 {
        assert(a + b =~= a);
        assert(found_texts(input, a) + Seq::<Seq<char>>::empty() =~= found_texts(input, a));
    } else {
        found_texts_add_up(input, a, b.drop_last());
        assert((a + b).drop_last() =~= a + b.drop_last());
        let x = found_texts(input, a);
        let y = found_texts(input, b.drop_last());
        if let Ok(v) = at_path(input, b.last()) {
            assert((x + y).push(plain_text(v)) =~= x + y.push(plain_text(v)));
        }
    }
}

/// A transform leaves in the context the result under the configured key, where there is
/// one that is not blank, and an added field under its own name; every other context value
/// is as it was.
pub proof fn context_gets_the_result(
    c: NodeConfigView,
    w: WorkFlowView,
    result: JsonView,
    key: Seq<char>,
)
    ensures
        ({
            let after = noted(c, w, result);
            let word = c.text_attr("transform_type"@);
            let adds = word is Some && lowercase(word->0) == "add_field"@ && c.text_attr(
                "field_name"@,
            ) is Some && assoc(c.attrs, "field_value"@) is Some;
            let kept = c.text_attr("context_key"@) is Some && trim_text(
                c.text_attr("context_key"@)->0,
                Trimmed::White,
            ).len() > 0;
            let kept_key = trim_text(c.text_attr("context_key"@)->0, Trimmed::White);
            &&& assoc(after.context, key) == (if adds && key == c.text_attr("field_name"@)->0 {
                assoc(c.attrs, "field_value"@)
            } else if kept && key == kept_key {
                Some(result)
            } else {
                assoc(w.context, key)
            })
            &&& after == (WorkFlowView { context: after.context, ..w })
        }),
{
    let kept_key = trim_text(c.text_attr("context_key"@)->0, Trimmed::White);
    assoc_after_insert(w.context, kept_key, result, key);
    let mid = match c.text_attr("context_key"@) {
        Some(k) => if trim_text(k, Trimmed::White).len() > 0 {
            w.with_context(kept_key, result)
        } else {
            w
        },
        None => w,
    };
    let name = c.text_attr("field_name"@)->0;
    let value = assoc(c.attrs, "field_value"@)->0;
    assoc_after_insert(mid.context, name, value, key);
}

/// The node puts the result out and goes to the target of `default`; where the transform
/// fails it fails with its error and touches nothing. Without an input it transforms null.
pub proof fn node_puts_the_result_out(
    c: NodeConfigView,
    name: Seq<char>,
    w: WorkFlowView,
    input: JsonView,
)
    requires
        w.bus.wf(),
        assoc(w.bus.types, name + "."@ + "result"@) == Some(ParameterType::Step),
    ensures
        ({
            let (after, r) = transform_act(c, name, w, Some(input));
            let result = transformed(c, input);
            let target = assoc(c.choice_map, "default"@);
            &&& transform_act(c, name, w, None) == transform_act(c, name, w, Some(JsonView::Null))
            &&& result is Err ==> after == w && r == Err::<(), ErrorView>(result->Err_0)
            &&& result is Ok ==> {
                &&& after.bus.read(name + "."@ + "result"@) == Ok::<Option<JsonView>, ErrorView>(
                    Some(result->Ok_0),
                )
                &&& after.context == noted(c, w, result->Ok_0).context
                &&& r is Ok ==> target is Some && went_to(w, after, name, target->0)
                    && cancelled_as_told(w, after, c.choice_map, target->0, true)
                &&& target is Some && (target->0 == "finish"@ || assoc(
                    w.nodes,
                    target->0,
                ) is Some) ==> r is Ok
            }
        }),
{
    if let Ok(result) = transformed(c, input) {
        context_gets_the_result(c, w, result, name);
        output_is_read_and_choice_is_made(
            noted(c, w, result),
            name,
            "result"@,
            result,
            "default"@,
            c.choice_map,
            true,
            name,
        );
        let (after, r) = transform_act(c, name, w, Some(input));
        if r is Ok {
            let target = assoc(c.choice_map, "default"@)->0;
            let noted = noted(c, w, result);
            nodes_decide_who_is_cancelled(noted, w, after, c.choice_map, target, true);
        }
    }
}

/// Each transform has its word, and no other word names one.
pub proof fn words_name_the_transforms(word: Seq<char>)
    ensures
        TransformType::named(word) == Some(TransformType::AddField) <==> word == "add_field"@,
        TransformType::named(word) == Some(TransformType::ExtractField) <==> word == "extract_field"@,
        TransformType::named(word) == Some(TransformType::Concat) <==> word == "concat"@,
        TransformType::named(word) == Some(TransformType::ToUpper) <==> word == "to_upper"@,
        TransformType::named(word) == Some(TransformType::ToLower) <==> word == "to_lower"@,
        TransformType::named(word) == Some(TransformType::Wrap) <==> word == "wrap"@,
        TransformType::named(word) is None <==> word != "add_field"@
            && word != "extract_field"@
            && word != "concat"@
            && word != "to_upper"@
            && word != "to_lower"@
            && word != "wrap"@,
{
    reveal_strlit("add_field");
    reveal_strlit("extract_field");
    reveal_strlit("concat");
    reveal_strlit("to_upper");
    reveal_strlit("to_lower");
    reveal_strlit("wrap");
    assert("add_field"@.len() != "extract_field"@.len());
    assert("add_field"@.len() != "concat"@.len());
    assert("add_field"@.len() != "to_upper"@.len());
    assert("add_field"@.len() != "to_lower"@.len());
    assert("add_field"@.len() != "wrap"@.len());
    assert("extract_field"@.len() != "concat"@.len());
    assert("extract_field"@.len() != "to_upper"@.len());
    assert("extract_field"@.len() != "to_lower"@.len());
    assert("extract_field"@.len() != "wrap"@.len());
    assert("concat"@.len() != "to_upper"@.len());
    assert("concat"@.len() != "to_lower"@.len());
    assert("concat"@.len() != "wrap"@.len());
    assert("to_upper"@[3] != "to_lower"@[3]);
    assert("to_upper"@.len() != "wrap"@.len());
    assert("to_lower"@.len() != "wrap"@.len());
}

/// A node transforms by its attributes: the word of the transform, in any case, says which.
/// A word that is missing or names no transform is an error that says so.
pub proof fn attributes_say_what_is_made(c: NodeConfigView, input: JsonView)
    ensures
        match assoc(c.attrs, "transform_type"@) {
            Some(JsonView::Text(word)) => match TransformType::named(lowercase(word)) {
                Some(t) => transformed(c, input) == apply_transform(t, c, input),
                None => transformed(c, input) == Err::<JsonView, ErrorView>(
                    ErrorView::ConfigError("Unknown transform type: "@ + word),
                ),
            },
            _ => transformed(c, input) == Err::<JsonView, ErrorView>(
                ErrorView::ConfigError("Missing 'transform_type' attribute"@),
            ),
        },
{
}

/// A node acts on its input once it was activated and the input has its value, and on null
/// where the input has no source. Before that it waits: without its activation it touches
/// nothing, and without the value it only takes its activation up. An input that is not
/// configured is an error.
pub proof fn node_runs_on_its_input(
    c: NodeConfigView,
    name: Seq<char>,
    w: WorkFlowView,
    triggered: bool,
    v: JsonView,
)
    requires
        assoc(w.nodes, name) is Some,
    ensures
        ({
            let (after, t, p) = transform_run(c, name, w, triggered);
            let ready = triggered || assoc(w.nodes, name)->0.activated;
            let begun = if triggered {
                w
            } else {
                w.take_activation(name).0
            };
            let source = assoc(c.input_map, "input"@);
            &&& !ready ==> after == w && !t && p == NodePollView::Pending
            &&& ready && source is None ==> after == begun && !t && (p matches NodePollView::Done(
                r,
            ) && r is Err)
            &&& ready && source == Some(None::<Seq<char>>) ==> !t && (
                after,
                p,
            ) == (
                transform_act(c, name, begun, Some(JsonView::Null)).0,
                NodePollView::Done(transform_act(c, name, begun, Some(JsonView::Null)).1),
            )
            &&& ready && (source matches Some(Some(s)) && source_value(w, s) == Ok::<
                InputView,
                ErrorView,
            >(InputView::Ready(v))) ==> !t && (
                after,
                p,
            ) == (
                transform_act(c, name, begun, Some(v)).0,
                NodePollView::Done(transform_act(c, name, begun, Some(v)).1),
            )
            &&& ready && (source matches Some(Some(s)) && source_value(w, s) == Ok::<
                InputView,
                ErrorView,
            >(InputView::Waiting)) ==> after == begun && t && p == NodePollView::Pending
        }),
{
    node_waits_for_activation_and_input(w, triggered, name, c.input_map, "input"@, v);
    activation_touches_one_node(w, name, name);
}

/// A transform that cannot be made says why: an attribute is missing or of the wrong type,
/// a path leads nowhere, or the input is of the wrong type. What is wrong with the
/// attributes is said first.
pub proof fn impossible_transform_says_why(c: NodeConfigView, input: JsonView)
    ensures
        !(assoc(c.attrs, "field_name"@) matches Some(JsonView::Text(_))) ==> add_field(c, input)
            == Err::<JsonView, ErrorView>(
            ErrorView::ConfigError("Missing 'field_name' attribute"@),
        ),
        assoc(c.attrs, "field_name"@) matches Some(JsonView::Text(_)) ==> {
            &&& assoc(c.attrs, "field_value"@) is None ==> add_field(c, input) == Err::<
                JsonView,
                ErrorView,
            >(ErrorView::ConfigError("Missing 'field_value' attribute"@))
            &&& assoc(c.attrs, "field_value"@) is Some && !(input is Object) ==> add_field(c, input)
                == Err::<JsonView, ErrorView>(
                ErrorView::ConfigError("Input must be an object for add_field transform"@),
            )
        },
        extraction_path(c) is None ==> extract_field(c, input) == Err::<JsonView, ErrorView>(
            ErrorView::ConfigError("Missing 'field_path' or 'field_name' attribute"@),
        ),
        !(assoc(c.attrs, "fields"@) matches Some(JsonView::Array(_))) ==> concat(c, input)
            == Err::<JsonView, ErrorView>(
            ErrorView::ConfigError("Missing or invalid 'fields' attribute: expected an array"@),
        ),
        assoc(c.attrs, "fields"@) matches Some(JsonView::Array(items)) ==> {
            &&& all_texts(items) is None ==> concat(c, input) == Err::<JsonView, ErrorView>(
                ErrorView::ConfigError("Invalid 'fields' attribute: every item must be a string"@),
            )
            &&& all_texts(items) is Some && (assoc(c.attrs, "separator"@) matches Some(v) && !(
            v is Text)) ==> concat(c, input) == Err::<JsonView, ErrorView>(
                ErrorView::ConfigError("Invalid 'separator' attribute: expected a string"@),
            )
        },
        !(input is Text) ==> apply_transform(TransformType::ToUpper, c, input) == Err::<
            JsonView,
            ErrorView,
        >(ErrorView::ConfigError("Input must be a string for to_upper transform"@)),
        !(input is Text) ==> apply_transform(TransformType::ToLower, c, input) == Err::<
            JsonView,
            ErrorView,
        >(ErrorView::ConfigError("Input must be a string for to_lower transform"@)),
{
}

/// A text that is no JSON text cannot be looked into, and a path that leads nowhere says at
/// which key it ended.
pub proof fn failed_extraction_says_where(
    input: JsonView,
    word: Seq<char>,
    path: Seq<char>,
    a: Seq<Seq<char>>,
    b: Seq<Seq<char>>,
    key: Seq<char>,
)
    ensures
        input matches JsonView::Text(text) ==> (json_reading(text) matches Err(e) ==> parsed_input(
            input,
            word,
        ) == Err::<JsonView, ErrorView>(
            ErrorView::ConfigError(
                "Input string must be valid JSON for "@ + word + " transform: "@ + e,
            ),
        )),
        walk_path(input, a, path) matches Ok(reached) ==> reached.get(key) is None ==> walk_path(
            input,
            a + (seq![key] + b),
            path,
        ) == Err::<JsonView, ErrorView>(
            ErrorView::ConfigError("Field '"@ + key + "' not found in path '"@ + path + "'"@),
        ),
{
    path_is_walked_key_by_key(input, a, seq![key] + b, key, path);
    assert((seq![key] + b)[0] == key);
}

} // verus!
