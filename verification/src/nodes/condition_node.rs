//! The node that takes one of two branches.
use vstd::prelude::*;

use crate::error::{config_error, unit_view, ErrorView, WorkflowError};
use crate::node::base::{
    source_value, BaseNode, InputView, NodeConfig, NodeConfigView, NodeContext, NodeDecl,
    NodeHelper, NodeType,
};
use crate::nodes::{
    and_choice, and_output, await_input, cancelled_as_told, declared,
    node_waits_for_activation_and_input, one, poll_input, two,
    two_outputs_are_read_and_choice_is_made, went_to, InputPoll, InputPollView, NodeCore, NodePoll,
    NodePollView,
};
use crate::parameter_bus::ParameterType;
use crate::string_map::{assoc, StringMap};
use crate::text::{
    ascii_lowered, cat2, cat3, contains, contains_text, is_ascii_text, lowercase,
    occurrence_is_a_part, split, split_text, text_eq, texts, to_lowercase,
};
use crate::value::{
    array_view, double_less, equal_values_are_the_same, integer_of, integers_compare_as_integers,
    is_exact_integer, json_eq, json_eq_reflexive, json_views, no_doubles, order_key, Json, JsonView,
};
use crate::workflow::{activation_touches_one_node, WorkFlow, WorkFlowView};

verus! {

/// How a value is tested.
#[derive(Clone, Copy, Debug, PartialEq, Eq, Structural)]
pub enum ConditionType {
    /// The value is equal to another.
    Equals,
    /// The value is not equal to another.
    NotEquals,
    /// The value is a number greater than another.
    GreaterThan,
    /// The value is a number less than another.
    LessThan,
    /// The value is a text or a list that has another text in it.
    Contains,
    /// The value is `true`.
    IsTrue,
    /// The value is `false`.
    IsFalse,
}

impl ConditionType {
    /// The test that a lower-case word names.
    pub open spec fn named(word: Seq<char>) -> Option<ConditionType> {
        if word == "equals"@ || word == "eq"@ {
            Some(ConditionType::Equals)
        } else if word == "not_equals"@ || word == "ne"@ {
            Some(ConditionType::NotEquals)
        } else if word == "greater_than"@ || word == "gt"@ {
            Some(ConditionType::GreaterThan)
        } else if word == "less_than"@ || word == "lt"@ {
            Some(ConditionType::LessThan)
        } else if word == "contains"@ {
            Some(ConditionType::Contains)
        } else if word == "is_true"@ {
            Some(ConditionType::IsTrue)
        } else if word == "is_false"@ {
            Some(ConditionType::IsFalse)
        } else {
            None
        }
    }

    /// The test that a lower-case word names.
    pub fn from_lowered(word: &str) -> (r: Option<ConditionType>)
        ensures
            r == ConditionType::named(word@),
    {
        if text_eq(word, "equals") || text_eq(word, "eq") {
            Some(ConditionType::Equals)
        } else if text_eq(word, "not_equals") || text_eq(word, "ne") {
            Some(ConditionType::NotEquals)
        } else if text_eq(word, "greater_than") || text_eq(word, "gt") {
            Some(ConditionType::GreaterThan)
        } else if text_eq(word, "less_than") || text_eq(word, "lt") {
            Some(ConditionType::LessThan)
        } else if text_eq(word, "contains") {
            Some(ConditionType::Contains)
        } else if text_eq(word, "is_true") {
            Some(ConditionType::IsTrue)
        } else if text_eq(word, "is_false") {
            Some(ConditionType::IsFalse)
        } else {
            None
        }
    }

    /// The test that a word names, in any case.
    pub open spec fn parsed(s: Seq<char>) -> Result<ConditionType, ErrorView> {
        match ConditionType::named(lowercase(s)) {
            Some(t) => Ok(t),
            None => Err(ErrorView::ConfigError("Unknown condition type: "@ + s)),
        }
    }

    /// The test that a word names, in any case.
    pub fn from_str(s: &str) -> (r: Result<ConditionType, WorkflowError>)
        ensures
            match r {
                Ok(t) => ConditionType::parsed(s@) == Ok::<ConditionType, ErrorView>(t),
                Err(e) => ConditionType::parsed(s@) == Err::<ConditionType, ErrorView>(e@),
            },
            is_ascii_text(s@) ==> lowercase(s@) == ascii_lowered(s@),
    {
        let word = to_lowercase(s);
        match ConditionType::from_lowered(word.as_str()) {
            Some(t) => Ok(t),
            None => Err(WorkflowError::ConfigError(cat2("Unknown condition type: ", s))),
        }
    }
}

/// Whether a text occurs in a text, or as an item of a list; nothing for other values.
pub open spec fn contains_word(value: JsonView, word: Seq<char>) -> Option<bool> {
    match value {
        JsonView::Text(s) => Some(contains_text(s, word)),
        JsonView::Array(a) => Some(
            exists|i: int| 0 <= i < a.len() && (#[trigger] a[i]).as_text() == Some(word),
        ),
        _ => None,
    }
}

/// Decides whether a text occurs in a text or as an item of a list.
pub fn has_word(value: &Json, word: &str) -> (r: Option<bool>)
    ensures
        r == contains_word(value@, word@),
{
    match value {
        Json::String(s) => Some(contains(s.as_str(), word)),
        Json::Array(a) => {
            broadcast use array_view;

            let mut i: usize = 0;
            while i < a.len()
                invariant
                    i <= a@.len(),
                    *value == Json::Array(*a),
                    value@ == JsonView::Array(json_views(a@)),
                    forall|j: int|
                        0 <= j < i ==> (#[trigger] json_views(a@)[j]).as_text() != Some(word@),
                decreases a@.len() - i,
            {
                if let Some(s) = a[i].as_str() {
                    if text_eq(s, word) {
                        proof {
                            assert(json_views(a@)[i as int].as_text() == Some(word@));
                        }
                        return Some(true);
                    }
                }
                i = i + 1;
            }
            Some(false)
        },
        _ => None,
    }
}

/// What a test says of a value, given the value to compare with.
pub open spec fn condition_holds(
    t: ConditionType,
    compare: Option<JsonView>,
    value: JsonView,
) -> Result<bool, ErrorView> {
    match t {
        ConditionType::Equals => match compare {
            Some(c) => Ok(json_eq(value, c)),
            None => Err(ErrorView::ConfigError("Missing 'compare_value' attribute"@)),
        },
        ConditionType::NotEquals => match compare {
            Some(c) => Ok(!json_eq(value, c)),
            None => Err(ErrorView::ConfigError("Missing 'compare_value' attribute"@)),
        },
        ConditionType::GreaterThan | ConditionType::LessThan => {
            let bound = match compare {
                Some(c) => c.as_double(),
                None => None,
            };
            match (bound, value.as_double()) {
                (None, _) => Err(
                    ErrorView::ConfigError(
                        "Missing or invalid 'compare_value' for numeric comparison"@,
                    ),
                ),
                (Some(_), None) => Err(ErrorView::ConfigError("Input value is not a number"@)),
                (Some(b), Some(n)) => Ok(
                    if t == ConditionType::GreaterThan {
                        order_key(n) > order_key(b)
                    } else {
                        order_key(n) < order_key(b)
                    },
                ),
            }
        },
        ConditionType::Contains => {
            let word = match compare {
                Some(c) => c.as_text(),
                None => None,
            };
            match word {
                None => Err(
                    ErrorView::ConfigError(
                        "Missing or invalid 'compare_value' for contains check"@,
                    ),
                ),
                Some(word) => match contains_word(value, word) {
                    Some(b) => Ok(b),
                    None => Err(
                        ErrorView::ConfigError(
                            "Input must be string or array for contains check"@,
                        ),
                    ),
                },
            }
        },
        ConditionType::IsTrue => Ok(value.as_bool() == Some(true)),
        ConditionType::IsFalse => Ok(value.as_bool() == Some(false)),
    }
}

/// What the attributes of a node say of a value.
pub open spec fn condition_of(c: NodeConfigView, value: JsonView) -> Result<bool, ErrorView> {
    match c.text_attr("condition_type"@) {
        None => Err(ErrorView::ConfigError("Missing 'condition_type' attribute"@)),
        Some(s) => match ConditionType::parsed(s) {
            Err(e) => Err(e),
            Ok(t) => condition_holds(t, assoc(c.attrs, "compare_value"@), value),
        },
    }
}

/// The value at the end of a path of keys.
pub open spec fn walk(value: JsonView, keys: Seq<Seq<char>>) -> Result<JsonView, ErrorView>
    decreases keys.len(),
{
    if keys.len() == 0 {
        Ok(value)
    } else {
        match value.get(keys[0]) {
            None => Err(
                ErrorView::ConfigError("Field '"@ + keys[0] + "' not found in path"@),
            ),
            Some(next) => walk(next, keys.skip(1)),
        }
    }
}

/// The value that is tested: the one at the dotted path that the attribute
/// `field_path` gives, where it gives one.
pub open spec fn tested_value(c: NodeConfigView, input: JsonView) -> Result<JsonView, ErrorView> {
    match c.text_attr("field_path"@) {
        Some(path) => walk(input, split_text(path, '.')),
        None => Ok(input),
    }
}

/// What the node does once it has its input.
pub open spec fn condition_act(
    c: NodeConfigView,
    name: Seq<char>,
    w: WorkFlowView,
    input: Option<JsonView>,
) -> (WorkFlowView, Result<(), ErrorView>) {
    let given = match input {
        Some(v) => v,
        None => JsonView::Null,
    };
    match tested_value(c, given) {
        Err(e) => (w, Err(e)),
        Ok(value) => match condition_of(c, value) {
            Err(e) => (w, Err(e)),
            Ok(holds) => and_choice(
                and_output(
                    and_output((w, Ok(())), name, "input"@, given),
                    name,
                    "result"@,
                    JsonView::Bool(holds),
                ),
                name,
                if holds {
                    "true_choice"@
                } else {
                    "false_choice"@
                },
                c.choice_map,
                true,
            ),
        },
    }
}

/// What the node does when it is run.
pub open spec fn condition_run(
    c: NodeConfigView,
    name: Seq<char>,
    w: WorkFlowView,
    triggered: bool,
) -> (WorkFlowView, bool, NodePollView) {
    let (polled, t, input) = poll_input(w, triggered, name, c.input_map, "input"@);
    match input {
        InputPollView::Pending => (polled, t, NodePollView::Pending),
        InputPollView::Failed(e) => (polled, t, NodePollView::Done(Err(e))),
        InputPollView::Got(v) => {
            let (after, r) = condition_act(c, name, polled, v);
            (after, t, NodePollView::Done(r))
        },
    }
}

/// A node that chooses `true_choice` or `false_choice` by a test of its input.
#[derive(Debug)]
pub struct ConditionNode {
    pub core: NodeCore,
}

impl ConditionNode {
    /// The node that a configuration describes.
    pub fn new(config: NodeConfig, _ctx: NodeContext) -> (r: Result<ConditionNode, WorkflowError>)
        ensures
            match r {
                Ok(node) => {
                    &&& node.core.config == config
                    &&& node.core.name@ == config@.node_name
                    &&& node.decl() == declared(
                        config@,
                        NodeType::Step,
                        seq!["input"@],
                        seq!["input"@, "result"@],
                        seq!["true_choice"@, "false_choice"@],
                        true,
                    )
                },
                Err(_) => false,
            },
    {
        Ok(
            ConditionNode {
                core: NodeCore::new(
                    config,
                    one("input"),
                    two("input", "result"),
                    two("true_choice", "false_choice"),
                ),
            },
        )
    }

    /// The value that is tested.
    pub fn extract_value(&self, input: &Json) -> (r: Result<Json, WorkflowError>)
        ensures
            match r {
                Ok(v) => tested_value(self.core.config@, input@) == Ok::<JsonView, ErrorView>(v@),
                Err(e) => tested_value(self.core.config@, input@) == Err::<JsonView, ErrorView>(
                    e@,
                ),
            },
    {
        let path = match self.core.config.text_attr("field_path") {
            None => {
                return Ok(input.copy());
            },
            Some(path) => path,
        };
        let keys = split(path, '.');
        let mut current: &Json = input;
        let mut i: usize = 0;
        proof {
            assert(texts(keys@).skip(0) =~= texts(keys@));
        }
        while i < keys.len()
            invariant
                i <= keys@.len(),
                walk(input@, texts(keys@)) == walk(current@, texts(keys@).skip(i as int)),
                tested_value(self.core.config@, input@) == walk(input@, texts(keys@)),
            decreases keys@.len() - i,
        {
            proof {
                assert(texts(keys@).skip(i as int)[0] == keys@[i as int]@);
                assert(texts(keys@).skip(i as int).skip(1) =~= texts(keys@).skip(i + 1));
            }
            match current.get(keys[i].as_str()) {
                None => {
                    return Err(
                        WorkflowError::ConfigError(
                            cat3("Field '", keys[i].as_str(), "' not found in path"),
                        ),
                    );
                },
                Some(next) => {
                    current = next;
                },
            }
            i = i + 1;
        }
        Ok(current.copy())
    }

    /// Tests a value by the attributes of the node.
    pub fn evaluate_condition(&self, value: &Json) -> (r: Result<bool, WorkflowError>)
        ensures
            match r {
                Ok(b) => condition_of(self.core.config@, value@) == Ok::<bool, ErrorView>(b),
                Err(e) => condition_of(self.core.config@, value@) == Err::<bool, ErrorView>(e@),
            },
    {
        let word = match self.core.config.text_attr("condition_type") {
            None => {
                return Err(config_error("Missing 'condition_type' attribute"));
            },
            Some(word) => word,
        };
        let t = match ConditionType::from_str(word) {
            Ok(t) => t,
            Err(e) => {
                return Err(e);
            },
        };
        let compare = self.core.config.attrs.get("compare_value");
        match t {
            ConditionType::Equals => match compare {
                Some(c) => Ok(value.equals(c)),
                None => Err(config_error("Missing 'compare_value' attribute")),
            },
            ConditionType::NotEquals => match compare {
                Some(c) => Ok(!value.equals(c)),
                None => Err(config_error("Missing 'compare_value' attribute")),
            },
            ConditionType::GreaterThan | ConditionType::LessThan => {
                let bound: u64 = match compare {
                    Some(c) => match c.as_double() {
                        Some(b) => b,
                        None => {
                            return Err(
                                config_error(
                                    "Missing or invalid 'compare_value' for numeric comparison",
                                ),
                            );
                        },
                    },
                    None => {
                        return Err(
                            config_error(
                                "Missing or invalid 'compare_value' for numeric comparison",
                            ),
                        );
                    },
                };
                match value.as_double() {
                    None => Err(config_error("Input value is not a number")),
                    Some(n) => if t == ConditionType::GreaterThan {
                        Ok(double_less(bound, n))
                    } else {
                        Ok(double_less(n, bound))
                    },
                }
            },
            ConditionType::Contains => {
                let word = match compare {
                    Some(c) => c.as_str(),
                    None => None,
                };
                match word {
                    None => Err(
                        config_error("Missing or invalid 'compare_value' for contains check"),
                    ),
                    Some(word) => match has_word(value, word) {
                        Some(b) => Ok(b),
                        None => Err(
                            config_error("Input must be string or array for contains check"),
                        ),
                    },
                }
            },
            ConditionType::IsTrue => match value.as_bool() {
                Some(b) => Ok(b),
                None => Ok(false),
            },
            ConditionType::IsFalse => match value.as_bool() {
                Some(b) => Ok(!b),
                None => Ok(false),
            },
        }
    }

    fn act(&self, input: Option<Json>, workflow: &mut WorkFlow) -> (r: Result<(), WorkflowError>)
        ensures
            (final(workflow)@, unit_view(r)) == condition_act(
                self.core.config@,
                self.core.name@,
                old(workflow)@,
                crate::error::option_view(input),
            ),
    {
        let given = match input {
            Some(v) => v,
            None => Json::Null,
        };
        let value = match self.extract_value(&given) {
            Ok(v) => v,
            Err(e) => {
                return Err(e);
            },
        };
        let holds = match self.evaluate_condition(&value) {
            Ok(b) => b,
            Err(e) => {
                return Err(e);
            },
        };
        match NodeHelper::set_output(self.core.name.as_str(), "input", given, workflow) {
            Ok(()) => {},
            Err(e) => {
                return Err(e);
            },
        }
        self.core.output_and_choose(
            "result",
            Json::Bool(holds),
            if holds {
                "true_choice"
            } else {
                "false_choice"
            },
            workflow,
        )
    }

    /// Runs the node as far as it gets; `triggered` says whether its activation was
    /// taken up before.
    pub fn run(&self, triggered: &mut bool, workflow: &mut WorkFlow) -> (r: NodePoll)
        ensures
            (final(workflow)@, *final(triggered), r@) == condition_run(
                self.core.config@,
                self.core.name@,
                old(workflow)@,
                *old(triggered),
            ),
    {
        match await_input(
            self.core.name.as_str(),
            triggered,
            "input",
            &self.core.config.input_map,
            workflow,
        ) {
            InputPoll::Pending => NodePoll::Pending,
            InputPoll::Failed(e) => NodePoll::Done(Err(e)),
            InputPoll::Got(v) => NodePoll::Done(self.act(v, workflow)),
        }
    }
}

impl BaseNode for ConditionNode {
    open spec fn decl(&self) -> NodeDecl {
        self.core.decl(NodeType::Step, true)
    }

    fn name(&self) -> (r: &str) {
        self.core.name.as_str()
    }

    fn node_type(&self) -> (r: NodeType) {
        NodeType::Step
    }

    fn input_parameters(&self) -> (r: &StringMap<ParameterType>) {
        &self.core.input_params
    }

    fn output_parameters(&self) -> (r: &StringMap<ParameterType>) {
        &self.core.output_params
    }

    fn choices(&self) -> (r: &Vec<String>) {
        &self.core.choices
    }

    fn is_key_node(&self) -> (r: bool) {
        self.core.config.key_node
    }

    fn runable(&self) -> (r: bool) {
        true
    }

    fn is_reentrant(&self) -> (r: bool) {
        true
    }
}

/// Of a number and a bound that are both numbers, at most one of "greater" and
/// "less" holds, and neither does where the number is the bound.
pub proof fn greater_and_less_exclude_each_other(value: JsonView, bound: JsonView)
    requires
        value.as_double() is Some,
        bound.as_double() is Some,
    ensures
        ({
            let greater = condition_holds(ConditionType::GreaterThan, Some(bound), value);
            let less = condition_holds(ConditionType::LessThan, Some(bound), value);
            &&& greater is Ok && less is Ok
            &&& !(greater->Ok_0 && less->Ok_0)
            &&& value == bound ==> !greater->Ok_0 && !less->Ok_0
        }),
{
}

/// `not_equals` says the opposite of `equals`.
pub proof fn not_equals_is_the_opposite(value: JsonView, compare: JsonView)
    ensures
        condition_holds(ConditionType::Equals, Some(compare), value) is Ok,
        condition_holds(ConditionType::NotEquals, Some(compare), value) == Ok::<bool, ErrorView>(
            !condition_holds(ConditionType::Equals, Some(compare), value)->Ok_0,
        ),
{
}

/// `is_true` holds of the value true and of no other, `is_false` of the value false and of
/// no other; whatever there is to compare with.
pub proof fn truth_tests_hold_of_one_value(value: JsonView, compare: Option<JsonView>)
    ensures
        condition_holds(ConditionType::IsTrue, compare, value) == Ok::<bool, ErrorView>(
            value == JsonView::Bool(true),
        ),
        condition_holds(ConditionType::IsFalse, compare, value) == Ok::<bool, ErrorView>(
            value == JsonView::Bool(false),
        ),
        value is Bool ==> condition_holds(ConditionType::IsTrue, compare, value)->Ok_0
            != condition_holds(ConditionType::IsFalse, compare, value)->Ok_0,
{
}

/// The numeric tests are there for numbers only, and compare integers of no more than 53
/// bits as integers.
pub proof fn numeric_tests_compare_numbers(value: JsonView, bound: JsonView)
    ensures
        ({
            let greater = condition_holds(ConditionType::GreaterThan, Some(bound), value);
            let less = condition_holds(ConditionType::LessThan, Some(bound), value);
            let swapped = condition_holds(ConditionType::LessThan, Some(value), bound);
            &&& greater is Ok <==> value is Number && bound is Number
            &&& less is Ok <==> value is Number && bound is Number
            &&& greater is Ok ==> greater == swapped
            &&& condition_holds(ConditionType::GreaterThan, None, value) is Err
            &&& condition_holds(ConditionType::LessThan, None, value) is Err
            &&& value is Number && bound is Number && is_exact_integer(value->Number_0)
                && is_exact_integer(bound->Number_0) ==> {
                &&& greater == Ok::<bool, ErrorView>(
                    integer_of(value->Number_0)->0 > integer_of(bound->Number_0)->0,
                )
                &&& less == Ok::<bool, ErrorView>(
                    integer_of(value->Number_0)->0 < integer_of(bound->Number_0)->0,
                )
            }
        }),
{
    if value is Number && bound is Number && is_exact_integer(value->Number_0)
        && is_exact_integer(bound->Number_0) {
        integers_compare_as_integers(value->Number_0, bound->Number_0);
        integers_compare_as_integers(bound->Number_0, value->Number_0);
    }
}

/// `equals` holds of a value without doubles exactly where it is the one to compare with;
/// without a value to compare with both tests for equality fail.
pub proof fn equality_tests_compare_values(value: JsonView, compare: JsonView)
    ensures
        no_doubles(value) ==> condition_holds(ConditionType::Equals, Some(compare), value) == Ok::<
            bool,
            ErrorView,
        >(value == compare),
        condition_holds(ConditionType::Equals, Some(value), value) == Ok::<bool, ErrorView>(true),
        condition_holds(ConditionType::Equals, None, value) is Err,
        condition_holds(ConditionType::NotEquals, None, value) is Err,
{
    equal_values_are_the_same(value, compare, 0, 0);
    json_eq_reflexive(value);
}

/// `contains` looks for a text: in a text as a part of it, in a list as one of its items;
/// it fails on any other value, and where there is no text to look for.
pub proof fn contains_looks_for_a_text(value: JsonView, word: Seq<char>)
    ensures
        ({
            let r = condition_holds(ConditionType::Contains, Some(JsonView::Text(word)), value);
            &&& r is Ok <==> value is Text || value is Array
            &&& value is Text ==> (r->Ok_0 <==> exists|a: Seq<char>, b: Seq<char>|
                value->Text_0 == #[trigger] (a + word + b))
            &&& value is Array ==> (r->Ok_0 <==> value->Array_0.contains(JsonView::Text(word)))
            &&& condition_holds(ConditionType::Contains, None, value) is Err
        }),
{
    if let JsonView::Text(s) = value {
        occurrence_is_a_part(s, word);
    }
    if let JsonView::Array(a) = value {
        if a.contains(JsonView::Text(word)) {
            let i = choose|i: int| 0 <= i < a.len() && a[i] == JsonView::Text(word);
            assert(a[i].as_text() == Some(word));
        }
        if exists|i: int| 0 <= i < a.len() && (#[trigger] a[i]).as_text() == Some(word) {
            let i = choose|i: int| 0 <= i < a.len() && (#[trigger] a[i]).as_text() == Some(word);
            assert(a[i] == JsonView::Text(word));
        }
    }
}

/// A path is walked key by key: no keys lead to the value itself, one key to its entry, and
/// more keys on from where the first ones led. A path that ends early leads nowhere.
pub proof fn path_is_walked_key_by_key(
    value: JsonView,
    a: Seq<Seq<char>>,
    b: Seq<Seq<char>>,
    key: Seq<char>,
)
    ensures
        walk(value, Seq::empty()) == Ok::<JsonView, ErrorView>(value),
        value.get(key) is Some ==> walk(value, seq![key]) == Ok::<JsonView, ErrorView>(
            value.get(key)->0,
        ),
        value.get(key) is None ==> walk(value, seq![key]) is Err,
        walk(value, a) is Ok ==> walk(value, a + b) == walk(walk(value, a)->Ok_0, b),
        walk(value, a) is Err ==> walk(value, a + b) == walk(value, a),
    decreases a.len(),
{
    reveal_with_fuel(walk, 2);
    assert(seq![key].skip(1) =~= Seq::empty());
    if a.len() == 0 {
        assert(a + b =~= b);
    } else {
        assert((a + b).skip(1) =~= a.skip(1) + b);
        assert((a + b)[0] == a[0]);
        if let Some(next) = value.get(a[0]) {
            path_is_walked_key_by_key(next, a.skip(1), b, key);
        }
    }
}

/// What is tested is the input, or what the path of the configuration leads to in it.
pub proof fn tested_is_what_the_path_leads_to(
    c: NodeConfigView,
    input: JsonView,
    path: Seq<char>,
)
    ensures
        !(assoc(c.attrs, "field_path"@) matches Some(JsonView::Text(_))) ==> tested_value(c, input)
            == Ok::<JsonView, ErrorView>(input),
        assoc(c.attrs, "field_path"@) == Some(JsonView::Text(path)) ==> tested_value(c, input)
            == walk(input, split_text(path, '.')),
{
}

/// The node puts out its input and whether the test holds of what is tested, and chooses
/// `true_choice` exactly where it holds, else `false_choice`. Where there is nothing to
/// test or the test fails, it does neither.
pub proof fn node_chooses_by_its_test(
    c: NodeConfigView,
    name: Seq<char>,
    w: WorkFlowView,
    input: JsonView,
    t: ConditionType,
)
    requires
        w.bus.wf(),
        assoc(w.bus.types, name + "."@ + "input"@) == Some(ParameterType::Step),
        assoc(w.bus.types, name + "."@ + "result"@) == Some(ParameterType::Step),
        c.text_attr("condition_type"@) is Some,
        ConditionType::parsed(c.text_attr("condition_type"@)->0) == Ok::<
            ConditionType,
            ErrorView,
        >(t),
    ensures
        ({
            let (after, r) = condition_act(c, name, w, Some(input));
            let tested = tested_value(c, input);
            let holds = condition_holds(t, assoc(c.attrs, "compare_value"@), tested->Ok_0);
            &&& tested is Err || holds is Err ==> after == w && r is Err
            &&& tested is Ok && holds is Ok ==> {
                let choice = if holds->Ok_0 {
                    "true_choice"@
                } else {
                    "false_choice"@
                };
                let target = assoc(c.choice_map, choice);
                &&& after.bus.read(name + "."@ + "input"@) == Ok::<Option<JsonView>, ErrorView>(
                    Some(input),
                )
                &&& after.bus.read(name + "."@ + "result"@) == Ok::<Option<JsonView>, ErrorView>(
                    Some(JsonView::Bool(holds->Ok_0)),
                )
                &&& target is None ==> r is Err
                &&& r is Ok ==> target is Some && went_to(w, after, name, target->0)
                    && cancelled_as_told(w, after, c.choice_map, target->0, true)
            }
        }),
{
    let tested = tested_value(c, input);
    if tested is Ok {
        let holds = condition_holds(t, assoc(c.attrs, "compare_value"@), tested->Ok_0);
        if holds is Ok {
            reveal_strlit("input");
            reveal_strlit("result");
            two_outputs_are_read_and_choice_is_made(
                w,
                name,
                ("input"@, input),
                ("result"@, JsonView::Bool(holds->Ok_0)),
                if holds->Ok_0 {
                    "true_choice"@
                } else {
                    "false_choice"@
                },
                c.choice_map,
                true,
            );
        }
    }
}

/// Each test has its words, and no other word names a test.
pub proof fn words_name_the_tests(word: Seq<char>)
    ensures
        ConditionType::named(word) == Some(ConditionType::Equals) <==> word == "equals"@
            || word == "eq"@,
        ConditionType::named(word) == Some(ConditionType::NotEquals) <==> word == "not_equals"@
            || word == "ne"@,
        ConditionType::named(word) == Some(ConditionType::GreaterThan) <==> word == "greater_than"@
            || word == "gt"@,
        ConditionType::named(word) == Some(ConditionType::LessThan) <==> word == "less_than"@
            || word == "lt"@,
        ConditionType::named(word) == Some(ConditionType::Contains) <==> word == "contains"@,
        ConditionType::named(word) == Some(ConditionType::IsTrue) <==> word == "is_true"@,
        ConditionType::named(word) == Some(ConditionType::IsFalse) <==> word == "is_false"@,
        ConditionType::named(word) is None <==> word != "equals"@
            && word != "eq"@
            && word != "not_equals"@
            && word != "ne"@
            && word != "greater_than"@
            && word != "gt"@
            && word != "less_than"@
            && word != "lt"@
            && word != "contains"@
            && word != "is_true"@
            && word != "is_false"@,
{
    reveal_strlit("equals");
    reveal_strlit("eq");
    reveal_strlit("not_equals");
    reveal_strlit("ne");
    reveal_strlit("greater_than");
    reveal_strlit("gt");
    reveal_strlit("less_than");
    reveal_strlit("lt");
    reveal_strlit("contains");
    reveal_strlit("is_true");
    reveal_strlit("is_false");
    assert("equals"@.len() != "eq"@.len());
    assert("equals"@.len() != "not_equals"@.len());
    assert("equals"@.len() != "ne"@.len());
    assert("equals"@.len() != "greater_than"@.len());
    assert("equals"@.len() != "gt"@.len());
    assert("equals"@.len() != "less_than"@.len());
    assert("equals"@.len() != "lt"@.len());
    assert("equals"@.len() != "contains"@.len());
    assert("equals"@.len() != "is_true"@.len());
    assert("equals"@.len() != "is_false"@.len());
    assert("eq"@.len() != "not_equals"@.len());
    assert("eq"@[0] != "ne"@[0]);
    assert("eq"@.len() != "greater_than"@.len());
    assert("eq"@[0] != "gt"@[0]);
    assert("eq"@.len() != "less_than"@.len());
    assert("eq"@[0] != "lt"@[0]);
    assert("eq"@.len() != "contains"@.len());
    assert("eq"@.len() != "is_true"@.len());
    assert("eq"@.len() != "is_false"@.len());
    assert("not_equals"@.len() != "ne"@.len());
    assert("not_equals"@.len() != "greater_than"@.len());
    assert("not_equals"@.len() != "gt"@.len());
    assert("not_equals"@.len() != "less_than"@.len());
    assert("not_equals"@.len() != "lt"@.len());
    assert("not_equals"@.len() != "contains"@.len());
    assert("not_equals"@.len() != "is_true"@.len());
    assert("not_equals"@.len() != "is_false"@.len());
    assert("ne"@.len() != "greater_than"@.len());
    assert("ne"@[0] != "gt"@[0]);
    assert("ne"@.len() != "less_than"@.len());
    assert("ne"@[0] != "lt"@[0]);
    assert("ne"@.len() != "contains"@.len());
    assert("ne"@.len() != "is_true"@.len());
    assert("ne"@.len() != "is_false"@.len());
    assert("greater_than"@.len() != "gt"@.len());
    assert("greater_than"@.len() != "less_than"@.len());
    assert("greater_than"@.len() != "lt"@.len());
    assert("greater_than"@.len() != "contains"@.len());
    assert("greater_than"@.len() != "is_true"@.len());
    assert("greater_than"@.len() != "is_false"@.len());
    assert("gt"@.len() != "less_than"@.len());
    assert("gt"@[0] != "lt"@[0]);
    assert("gt"@.len() != "contains"@.len());
    assert("gt"@.len() != "is_true"@.len());
    assert("gt"@.len() != "is_false"@.len());
    assert("less_than"@.len() != "lt"@.len());
    assert("less_than"@.len() != "contains"@.len());
    assert("less_than"@.len() != "is_true"@.len());
    assert("less_than"@.len() != "is_false"@.len());
    assert("lt"@.len() != "contains"@.len());
    assert("lt"@.len() != "is_true"@.len());
    assert("lt"@.len() != "is_false"@.len());
    assert("contains"@.len() != "is_true"@.len());
    assert("contains"@[0] != "is_false"@[0]);
    assert("is_true"@.len() != "is_false"@.len());
}

/// A node tests by its attributes: the word of the test, in any case, says which test, and
/// the value to compare with is the attribute for it. A word that is missing or names no
/// test is an error that says so.
pub proof fn attributes_say_what_is_tested(c: NodeConfigView, value: JsonView)
    ensures
        match assoc(c.attrs, "condition_type"@) {
            Some(JsonView::Text(word)) => match ConditionType::named(lowercase(word)) {
                Some(t) => condition_of(c, value) == condition_holds(
                    t,
                    assoc(c.attrs, "compare_value"@),
                    value,
                ),
                None => condition_of(c, value) == Err::<bool, ErrorView>(
                    ErrorView::ConfigError("Unknown condition type: "@ + word),
                ),
            },
            _ => condition_of(c, value) == Err::<bool, ErrorView>(
                ErrorView::ConfigError("Missing 'condition_type' attribute"@),
            ),
        },
{
}

/// A node acts on its input once it was activated and the input has its value, and on null
/// where the input has no source. Before that it waits: without its activation it touches
/// nothing, and without the value it only takes its activation up. An input that is not
/// configured is an error.
pub proof fn node_runs_on_its_input(
    c: NodeConfigView,
    name: Seq<char>,
    w: WorkFlowView,
    triggered: bool,
    v: JsonView,
)
    requires
        assoc(w.nodes, name) is Some,
    ensures
        ({
            let (after, t, p) = condition_run(c, name, w, triggered);
            let ready = triggered || assoc(w.nodes, name)->0.activated;
            let begun = if triggered {
                w
            } else {
                w.take_activation(name).0
            };
            let source = assoc(c.input_map, "input"@);
            &&& !ready ==> after == w && !t && p == NodePollView::Pending
            &&& ready && source is None ==> after == begun && !t && (p matches NodePollView::Done(
                r,
            ) && r is Err)
            &&& ready && source == Some(None::<Seq<char>>) ==> !t && (
                after,
                p,
            ) == (
                condition_act(c, name, begun, Some(JsonView::Null)).0,
                NodePollView::Done(condition_act(c, name, begun, Some(JsonView::Null)).1),
            )
            &&& ready && (source matches Some(Some(s)) && source_value(w, s) == Ok::<
                InputView,
                ErrorView,
            >(InputView::Ready(v))) ==> !t && (
                after,
                p,
            ) == (
                condition_act(c, name, begun, Some(v)).0,
                NodePollView::Done(condition_act(c, name, begun, Some(v)).1),
            )
            &&& ready && (source matches Some(Some(s)) && source_value(w, s) == Ok::<
                InputView,
                ErrorView,
            >(InputView::Waiting)) ==> after == begun && t && p == NodePollView::Pending
        }),
{
    node_waits_for_activation_and_input(w, triggered, name, c.input_map, "input"@, v);
    activation_touches_one_node(w, name, name);
}

/// A test that cannot be made says why: there is nothing, or nothing of the right type, to
/// compare with, or the value is of the wrong type. What is wrong with the value to compare
/// with is said first.
pub proof fn impossible_test_says_why(value: JsonView, compare: Option<JsonView>)
    ensures
        ({
            let equal = condition_holds(ConditionType::Equals, compare, value);
            let unequal = condition_holds(ConditionType::NotEquals, compare, value);
            let missing = Err::<bool, ErrorView>(
                ErrorView::ConfigError("Missing 'compare_value' attribute"@),
            );
            compare is None ==> equal == missing && unequal == missing
        }),
        ({
            let greater = condition_holds(ConditionType::GreaterThan, compare, value);
            let less = condition_holds(ConditionType::LessThan, compare, value);
            let no_bound = Err::<bool, ErrorView>(
                ErrorView::ConfigError(
                    "Missing or invalid 'compare_value' for numeric comparison"@,
                ),
            );
            let no_number = Err::<bool, ErrorView>(
                ErrorView::ConfigError("Input value is not a number"@),
            );
            let bounded = compare matches Some(JsonView::Number(_));
            &&& !bounded ==> greater == no_bound && less == no_bound
            &&& bounded && !(value is Number) ==> greater == no_number && less == no_number
        }),
        ({
            let contains = condition_holds(ConditionType::Contains, compare, value);
            let worded = compare matches Some(JsonView::Text(_));
            &&& !worded ==> contains == Err::<bool, ErrorView>(
                ErrorView::ConfigError("Missing or invalid 'compare_value' for contains check"@),
            )
            &&& worded && !(value is Text) && !(value is Array) ==> contains == Err::<
                bool,
                ErrorView,
            >(ErrorView::ConfigError("Input must be string or array for contains check"@))
        }),
{
}

/// The numeric tests compare doubles by their order, in which the doubles of two numbers
/// stand however the numbers are written.
pub proof fn numeric_tests_go_by_the_order_of_doubles(value: JsonView, bound: JsonView)
    requires
        value is Number,
        bound is Number,
    ensures
        ({
            let n = order_key(value->Number_0.as_double());
            let b = order_key(bound->Number_0.as_double());
            &&& condition_holds(ConditionType::GreaterThan, Some(bound), value) == Ok::<
                bool,
                ErrorView,
            >(n > b)
            &&& condition_holds(ConditionType::LessThan, Some(bound), value) == Ok::<
                bool,
                ErrorView,
            >(n < b)
        }),
{
}

/// A path that leads nowhere says at which key it ended, and what does not test says why
/// with the error of the path or of the test.
pub proof fn failed_walk_names_the_key(
    c: NodeConfigView,
    name: Seq<char>,
    w: WorkFlowView,
    value: JsonView,
    a: Seq<Seq<char>>,
    b: Seq<Seq<char>>,
    key: Seq<char>,
)
    ensures
        walk(value, a) matches Ok(reached) ==> reached.get(key) is None ==> walk(
            value,
            a + (seq![key] + b),
        ) == Err::<JsonView, ErrorView>(
            ErrorView::ConfigError("Field '"@ + key + "' not found in path"@),
        ),
        tested_value(c, value) matches Err(e) ==> condition_act(c, name, w, Some(value)) == (
            w,
            Err::<(), ErrorView>(e),
        ),
        tested_value(c, value) matches Ok(tested) ==> (condition_of(c, tested) matches Err(e)
            ==> condition_act(c, name, w, Some(value)) == (w, Err::<(), ErrorView>(e))),
{
    path_is_walked_key_by_key(value, a, seq![key] + b, key);
    assert((seq![key] + b)[0] == key);
}

} // verus!
