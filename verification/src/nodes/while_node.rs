//! The node that repeats a part of the workflow while a condition holds.
use vstd::prelude::*;

use crate::error::{config_error, option_view, unit_view, ErrorView, WorkflowError};
use crate::node::base::{
    BaseNode, NodeConfig, NodeConfigView, NodeContext, NodeDecl, NodeHelper, NodeType,
};
use crate::nodes::condition_node::{condition_holds, contains_word, has_word, ConditionType};
use crate::nodes::{
    and_choice, and_output, await_input, cancelled_as_told, choice_cancels_as_told, declared,
    keys_differ_by_name, one, poll_source, three, two, went_to, InputPoll, InputPollView, NodeCore,
};
use crate::parameter_bus::{bus_stays_well_formed, ParameterType};
use crate::string_map::{assoc, assoc_after_insert, StringMap};
use crate::text::{cat2, cat4, decimal, decimal_text, lowercase};
use crate::value::{double_less, json_eq, order_key, Json, JsonNumber, JsonView, NumberView};
use crate::workflow::{
    activation_touches_one_node, choice_goes_where_the_map_leads, step_output_is_read, WorkFlow,
    WorkFlowView,
};

verus! {

/// What the attributes of a loop say.
#[verifier::ext_equal]
pub struct LoopView {
    pub memory_key: Seq<char>,
    pub condition_type: ConditionType,
    pub compare_value: Option<JsonView>,
    pub max_iterations: u64,
    pub init_value: Option<JsonView>,
    /// The bits of the double that is added after each round.
    pub increment: Option<u64>,
}

/// Whether a test needs a value to compare with.
pub open spec fn needs_compare(t: ConditionType) -> bool {
    !(t == ConditionType::IsTrue || t == ConditionType::IsFalse)
}

/// The loop that the attributes of a node describe.
pub open spec fn loop_of(c: NodeConfigView) -> Result<LoopView, ErrorView> {
    match c.text_attr("memory_key"@) {
        None => Err(ErrorView::ConfigError("Missing 'memory_key' attribute"@)),
        Some(memory_key) => match c.text_attr("condition_type"@) {
            None => Err(ErrorView::ConfigError("Missing 'condition_type' attribute"@)),
            Some(word) => match ConditionType::parsed(word) {
                Err(e) => Err(e),
                Ok(t) => match count_attr(c) {
                    None => Err(
                        ErrorView::ConfigError("Missing or invalid 'max_iterations' attribute"@),
                    ),
                    Some(max) => if max == 0 {
                        Err(ErrorView::ConfigError("'max_iterations' must be greater than 0"@))
                    } else if needs_compare(t) && assoc(c.attrs, "compare_value"@) is None {
                        Err(ErrorView::ConfigError("Missing 'compare_value' attribute"@))
                    } else {
                        Ok(
                            LoopView {
                                memory_key,
                                condition_type: t,
                                compare_value: assoc(c.attrs, "compare_value"@),
                                max_iterations: max,
                                init_value: assoc(c.attrs, "init_value"@),
                                increment: match assoc(c.attrs, "increment"@) {
                                    Some(v) => v.as_double(),
                                    None => None,
                                },
                            },
                        )
                    },
                },
            },
        },
    }
}

/// The attribute `max_iterations`, where it is an integer that is not negative.
pub open spec fn count_attr(c: NodeConfigView) -> Option<u64> {
    match assoc(c.attrs, "max_iterations"@) {
        Some(v) => v.as_u64(),
        None => None,
    }
}

impl LoopView {
    /// What the condition says of the value in memory.
    pub open spec fn holds(self, value: JsonView) -> Result<bool, ErrorView> {
        match self.condition_type {
            ConditionType::Equals => Ok(json_eq(value, self.compare_value->0)),
            ConditionType::NotEquals => Ok(!json_eq(value, self.compare_value->0)),
            ConditionType::GreaterThan => match (self.bound(), value.as_double()) {
                (None, _) => Err(
                    ErrorView::ConfigError("Invalid 'compare_value' for greater_than"@),
                ),
                (Some(_), None) => Err(ErrorView::ConfigError("Memory value is not a number"@)),
                (Some(b), Some(n)) => Ok(order_key(n) > order_key(b)),
            },
            ConditionType::LessThan => match (self.bound(), value.as_double()) {
                (None, _) => Err(ErrorView::ConfigError("Invalid 'compare_value' for less_than"@)),
                (Some(_), None) => Err(ErrorView::ConfigError("Memory value is not a number"@)),
                (Some(b), Some(n)) => Ok(order_key(n) < order_key(b)),
            },
            ConditionType::Contains => match self.word() {
                None => Err(ErrorView::ConfigError("Invalid 'compare_value' for contains"@)),
                Some(word) => match contains_word(value, word) {
                    Some(b) => Ok(b),
                    None => Err(
                        ErrorView::ConfigError(
                            "Memory value must be string or array for contains"@,
                        ),
                    ),
                },
            },
            ConditionType::IsTrue => Ok(value.as_bool() == Some(true)),
            ConditionType::IsFalse => Ok(value.as_bool() == Some(false)),
        }
    }

    /// The number to compare with.
    pub open spec fn bound(self) -> Option<u64> {
        match self.compare_value {
            Some(c) => c.as_double(),
            None => None,
        }
    }

    /// The text to look for.
    pub open spec fn word(self) -> Option<Seq<char>> {
        match self.compare_value {
            Some(c) => c.as_text(),
            None => None,
        }
    }

    /// Where the number of rounds is kept.
    pub open spec fn iteration_key(self) -> Seq<char> {
        self.memory_key + ".__iteration"@
    }

    /// How many rounds there were.
    pub open spec fn iteration(self, w: WorkFlowView) -> Result<u64, ErrorView> {
        match assoc(w.memory, self.iteration_key()) {
            Some(JsonView::Number(NumberView::PosInt(n))) => Ok(n),
            Some(JsonView::Number(_)) => Err(ErrorView::ConfigError("Invalid iteration value"@)),
            Some(_) => Err(
                ErrorView::ConfigError("Iteration value in memory must be an unsigned integer"@),
            ),
            None => Ok(0),
        }
    }

    /// The value that the loop starts with where its memory is empty.
    pub open spec fn initial(self, seed: Option<JsonView>) -> JsonView {
        match (seed, self.init_value) {
            (Some(v), _) => v,
            (None, Some(v)) => v,
            (None, None) => JsonView::Null,
        }
    }
}

/// How far the run of a loop node has got.
#[derive(Debug)]
pub enum LoopPoll {
    /// The node waits for its activation or its seed.
    Pending,
    /// The two doubles have to be added, and the run resumed with the sum.
    Sum(u64, u64),
    /// The run is over, with this result.
    Done(Result<(), WorkflowError>),
}

/// How far the run of a loop node has got.
#[verifier::ext_equal]
pub enum LoopPollView {
    Pending,
    Sum(u64, u64),
    Done(Result<(), ErrorView>),
}

impl View for LoopPoll {
    type V = LoopPollView;

    open spec fn view(&self) -> LoopPollView {
        match self {
            LoopPoll::Pending => LoopPollView::Pending,
            LoopPoll::Sum(a, b) => LoopPollView::Sum(*a, *b),
            LoopPoll::Done(r) => LoopPollView::Done(unit_view(*r)),
        }
    }
}

/// One round, given the value in memory: whether the loop goes on or not is put
/// out together with the value and the number of the round; a loop that goes on
/// counts the round and moves its value on.
pub open spec fn loop_round(
    l: LoopView,
    name: Seq<char>,
    choices: Seq<(Seq<char>, Seq<char>)>,
    w: WorkFlowView,
    current: JsonView,
) -> (WorkFlowView, LoopPollView) {
    match l.iteration(w) {
        Err(e) => (w, LoopPollView::Done(Err(e))),
        Ok(n) => if n >= l.max_iterations {
            (
                w,
                LoopPollView::Done(
                    Err(
                        ErrorView::Other(
                            "while node '"@ + name + "' exceeded max_iterations="@ + decimal(
                                l.max_iterations as nat,
                            ),
                        ),
                    ),
                ),
            )
        } else {
            match l.holds(current) {
                Err(e) => (w, LoopPollView::Done(Err(e))),
                Ok(go_on) => {
                    let out = loop_outputs(name, w, current, n, go_on);
                    match out.1 {
                        Err(e) => (out.0, LoopPollView::Done(Err(e))),
                        Ok(_) => if go_on {
                            loop_continue(
                                l,
                                name,
                                choices,
                                out.0.with_memory(
                                    l.iteration_key(),
                                    JsonView::Number(NumberView::PosInt((n + 1) as u64)),
                                ),
                                current,
                            )
                        } else {
                            let (after, r) = and_choice(out, name, "exit"@, choices, false);
                            (after, LoopPollView::Done(r))
                        },
                    }
                },
            }
        },
    }
}

/// The outputs of a round.
pub open spec fn loop_outputs(
    name: Seq<char>,
    w: WorkFlowView,
    current: JsonView,
    n: u64,
    go_on: bool,
) -> (WorkFlowView, Result<(), ErrorView>) {
    and_output(
        and_output(
            and_output((w, Ok(())), name, "current"@, current),
            name,
            "iteration"@,
            JsonView::Number(NumberView::PosInt(n)),
        ),
        name,
        "condition"@,
        JsonView::Bool(go_on),
    )
}

/// A loop that goes on: its value is moved on by the increment, where there is one.
pub open spec fn loop_continue(
    l: LoopView,
    name: Seq<char>,
    choices: Seq<(Seq<char>, Seq<char>)>,
    w: WorkFlowView,
    current: JsonView,
) -> (WorkFlowView, LoopPollView) {
    match (l.increment, current.as_double()) {
        (None, _) => {
            let (after, r) = and_choice((w, Ok(())), name, "continue"@, choices, false);
            (after, LoopPollView::Done(r))
        },
        (Some(_), None) => (
            w,
            LoopPollView::Done(
                Err(
                    ErrorView::ConfigError(
                        "Memory value must be numeric when 'increment' is configured"@,
                    ),
                ),
            ),
        ),
        (Some(by), Some(at)) => (w, LoopPollView::Sum(at, by)),
    }
}

/// The end of a run that asked for a sum: the sum is the next value of the loop, which goes
/// on.
pub open spec fn loop_resumed(
    l: LoopView,
    c: NodeConfigView,
    name: Seq<char>,
    w: WorkFlowView,
    sum: JsonView,
) -> (WorkFlowView, Result<(), ErrorView>) {
    and_choice(
        (w.with_memory(l.memory_key, sum), Ok(())),
        name,
        "continue"@,
        c.choice_map,
        false,
    )
}

/// What the node does that found nothing in memory: the workflow, whether the node
/// stays triggered, and how far it got. The seed, once it is there, is what the loop
/// starts with, whatever came into memory in between.
pub open spec fn loop_seeded(
    l: LoopView,
    c: NodeConfigView,
    name: Seq<char>,
    w: WorkFlowView,
) -> (WorkFlowView, bool, LoopPollView) {
    match poll_source(w, c.input_map, "seed"@) {
        (t, InputPollView::Pending) => (w, t, LoopPollView::Pending),
        (t, InputPollView::Failed(e)) => (w, t, LoopPollView::Done(Err(e))),
        (t, InputPollView::Got(seed)) => {
            let current = l.initial(seed);
            let (after, p) = loop_round(
                l,
                name,
                c.choice_map,
                w.with_memory(l.memory_key, current),
                current,
            );
            (after, t, p)
        },
    }
}

/// What the node does when it is run. A node that is triggered waits for its seed.
pub open spec fn loop_run(
    l: LoopView,
    c: NodeConfigView,
    name: Seq<char>,
    w: WorkFlowView,
    triggered: bool,
) -> (WorkFlowView, bool, LoopPollView) {
    if triggered {
        loop_seeded(l, c, name, w)
    } else {
        let (taken, r) = w.take_activation(name);
        match r {
            Err(e) => (taken, false, LoopPollView::Done(Err(e))),
            Ok(false) => (taken, false, LoopPollView::Pending),
            Ok(true) => match assoc(taken.memory, l.memory_key) {
                Some(current) => {
                    let (after, p) = loop_round(l, name, c.choice_map, taken, current);
                    (after, false, p)
                },
                None => loop_seeded(l, c, name, taken),
            },
        }
    }
}

/// A node that chooses `continue` while a condition holds of a value in memory,
/// then `exit`.
#[derive(Debug)]
pub struct WhileNode {
    pub core: NodeCore,
    pub memory_key: String,
    pub condition_type: ConditionType,
    pub compare_value: Option<Json>,
    pub max_iterations: u64,
    pub init_value: Option<Json>,
    pub increment: Option<u64>,
}

impl WhileNode {
    /// The loop of the node.
    pub open spec fn rules(self) -> LoopView {
        LoopView {
            memory_key: self.memory_key@,
            condition_type: self.condition_type,
            compare_value: option_view(self.compare_value),
            max_iterations: self.max_iterations,
            init_value: option_view(self.init_value),
            increment: self.increment,
        }
    }

    /// Whether the condition has the value that it needs.
    pub open spec fn wf(self) -> bool {
        needs_compare(self.condition_type) ==> self.compare_value is Some
    }

    /// The node that a configuration describes.
    pub fn new(config: NodeConfig, _ctx: NodeContext) -> (r: Result<WhileNode, WorkflowError>)
        ensures
            match r {
                Ok(node) => {
                    &&& loop_of(config@) == Ok::<LoopView, ErrorView>(node.rules())
                    &&& node.wf()
                    &&& node.core.config == config
                    &&& node.core.name@ == config@.node_name
                    &&& node.decl() == declared(
                        config@,
                        NodeType::Step,
                        seq!["seed"@],
                        seq!["current"@, "iteration"@, "condition"@],
                        seq!["continue"@, "exit"@],
                        true,
                    )
                },
                Err(e) => loop_of(config@) == Err::<LoopView, ErrorView>(e@),
            },
    {
        let memory_key = match config.text_attr("memory_key") {
            None => {
                return Err(config_error("Missing 'memory_key' attribute"));
            },
            Some(key) => key.to_owned(),
        };
        let condition_type = match config.text_attr("condition_type") {
            None => {
                return Err(config_error("Missing 'condition_type' attribute"));
            },
            Some(word) => match ConditionType::from_str(word) {
                Ok(t) => t,
                Err(e) => {
                    return Err(e);
                },
            },
        };
        let count: Option<u64> = match config.attrs.get("max_iterations") {
            Some(v) => v.as_u64(),
            None => None,
        };
        let max_iterations: u64 = match count {
            None => {
                return Err(config_error("Missing or invalid 'max_iterations' attribute"));
            },
            Some(n) => n,
        };
        if max_iterations == 0 {
            return Err(config_error("'max_iterations' must be greater than 0"));
        }
        let compare_value: Option<Json> = match config.attrs.get("compare_value") {
            Some(v) => Some(v.copy()),
            None => None,
        };
        let needed = condition_type != ConditionType::IsTrue && condition_type
            != ConditionType::IsFalse;
        if needed && compare_value.is_none() {
            return Err(config_error("Missing 'compare_value' attribute"));
        }
        let increment: Option<u64> = match config.attrs.get("increment") {
            Some(v) => v.as_double(),
            None => None,
        };
        let init_value: Option<Json> = match config.attrs.get("init_value") {
            Some(v) => Some(v.copy()),
            None => None,
        };
        Ok(
            WhileNode {
                core: NodeCore::new(
                    config,
                    one("seed"),
                    three("current", "iteration", "condition"),
                    two("continue", "exit"),
                ),
                memory_key,
                condition_type,
                compare_value,
                max_iterations,
                init_value,
                increment,
            },
        )
    }

    /// Where the number of rounds is kept.
    pub fn iteration_key(&self) -> (r: String)
        ensures
            r@ == self.rules().iteration_key(),
    {
        cat2(self.memory_key.as_str(), ".__iteration")
    }

    /// Tests the value in memory.
    pub fn evaluate_condition(&self, value: &Json) -> (r: Result<bool, WorkflowError>)
        requires
            self.wf(),
        ensures
            match r {
                Ok(b) => self.rules().holds(value@) == Ok::<bool, ErrorView>(b),
                Err(e) => self.rules().holds(value@) == Err::<bool, ErrorView>(e@),
            },
    {
        let bound: Option<u64> = match &self.compare_value {
            Some(c) => c.as_double(),
            None => None,
        };
        match self.condition_type {
            ConditionType::Equals => match &self.compare_value {
                Some(c) => Ok(value.equals(c)),
                None => Ok(false),
            },
            ConditionType::NotEquals => match &self.compare_value {
                Some(c) => Ok(!value.equals(c)),
                None => Ok(true),
            },
            ConditionType::GreaterThan => match bound {
                None => Err(config_error("Invalid 'compare_value' for greater_than")),
                Some(b) => match value.as_double() {
                    None => Err(config_error("Memory value is not a number")),
                    Some(n) => Ok(double_less(b, n)),
                },
            },
            ConditionType::LessThan => match bound {
                None => Err(config_error("Invalid 'compare_value' for less_than")),
                Some(b) => match value.as_double() {
                    None => Err(config_error("Memory value is not a number")),
                    Some(n) => Ok(double_less(n, b)),
                },
            },
            ConditionType::Contains => {
                let word = match &self.compare_value {
                    Some(c) => c.as_str(),
                    None => None,
                };
                match word {
                    None => Err(config_error("Invalid 'compare_value' for contains")),
                    Some(word) => match has_word(value, word) {
                        Some(b) => Ok(b),
                        None => Err(
                            config_error("Memory value must be string or array for contains"),
                        ),
                    },
                }
            },
            ConditionType::IsTrue => match value.as_bool() {
                Some(b) => Ok(b),
                None => Ok(false),
            },
            ConditionType::IsFalse => match value.as_bool() {
                Some(b) => Ok(!b),
                None => Ok(false),
            },
        }
    }

    /// How many rounds there were.
    pub fn get_iteration(&self, workflow: &WorkFlow) -> (r: Result<u64, WorkflowError>)
        ensures
            match r {
                Ok(n) => self.rules().iteration(workflow@) == Ok::<u64, ErrorView>(n),
                Err(e) => self.rules().iteration(workflow@) == Err::<u64, ErrorView>(e@),
            },
    {
        let key = self.iteration_key();
        match workflow.get_memory(key.as_str()) {
            Some(Json::Number(JsonNumber::PosInt(n))) => Ok(n),
            Some(Json::Number(_)) => Err(config_error("Invalid iteration value")),
            Some(_) => Err(
                config_error("Iteration value in memory must be an unsigned integer"),
            ),
            None => Ok(0),
        }
    }

    fn outputs(
        &self,
        current: &Json,
        iteration: u64,
        condition: bool,
        workflow: &mut WorkFlow,
    ) -> (r: Result<(), WorkflowError>)
        ensures
            (final(workflow)@, unit_view(r)) == loop_outputs(
                self.core.name@,
                old(workflow)@,
                current@,
                iteration,
                condition,
            ),
    {
        let name = self.core.name.as_str();
        match NodeHelper::set_output(name, "current", current.copy(), workflow) {
            Ok(()) => {},
            Err(e) => {
                return Err(e);
            },
        }
        match NodeHelper::set_output(
            name,
            "iteration",
            Json::Number(JsonNumber::PosInt(iteration)),
            workflow,
        ) {
            Ok(()) => {},
            Err(e) => {
                return Err(e);
            },
        }
        NodeHelper::set_output(name, "condition", Json::Bool(condition), workflow)
    }

    fn round(&self, current: &Json, workflow: &mut WorkFlow) -> (p: LoopPoll)
        requires
            self.wf(),
        ensures
            (final(workflow)@, p@) == loop_round(
                self.rules(),
                self.core.name@,
                self.core.config@.choice_map,
                old(workflow)@,
                current@,
            ),
    {
        let iteration: u64 = match self.get_iteration(workflow) {
            Ok(n) => n,
            Err(e) => {
                return LoopPoll::Done(Err(e));
            },
        };
        if iteration >= self.max_iterations {
            let max = decimal_text(self.max_iterations);
            return LoopPoll::Done(
                Err(
                    WorkflowError::Other(
                        cat4(
                            "while node '",
                            self.core.name.as_str(),
                            "' exceeded max_iterations=",
                            max.as_str(),
                        ),
                    ),
                ),
            );
        }
        let condition = match self.evaluate_condition(current) {
            Ok(b) => b,
            Err(e) => {
                return LoopPoll::Done(Err(e));
            },
        };
        match self.outputs(current, iteration, condition, workflow) {
            Ok(()) => {},
            Err(e) => {
                return LoopPoll::Done(Err(e));
            },
        }
        if condition {
            let key = self.iteration_key();
            NodeHelper::set_memory(
                key.as_str(),
                Json::Number(JsonNumber::PosInt(iteration + 1)),
                workflow,
            );
            match self.increment {
                None => LoopPoll::Done(self.core.make_choice("continue", false, workflow)),
                Some(by) => match current.as_double() {
                    None => LoopPoll::Done(
                        Err(
                            config_error(
                                "Memory value must be numeric when 'increment' is configured",
                            ),
                        ),
                    ),
                    Some(at) => LoopPoll::Sum(at, by),
                },
            }
        } else {
            LoopPoll::Done(self.core.make_choice("exit", false, workflow))
        }
    }

    /// Runs the node as far as it gets; `triggered` says whether its activation was
    /// taken up before and it waits for its seed.
    pub fn run(&self, triggered: &mut bool, workflow: &mut WorkFlow) -> (p: LoopPoll)
        requires
            self.wf(),
        ensures
            (final(workflow)@, *final(triggered), p@) == loop_run(
                self.rules(),
                self.core.config@,
                self.core.name@,
                old(workflow)@,
                *old(triggered),
            ),
    {
        if !*triggered {
            match workflow.wait_for_event(self.core.name.as_str()) {
                Err(e) => {
                    return LoopPoll::Done(Err(e));
                },
                Ok(false) => {
                    return LoopPoll::Pending;
                },
                Ok(true) => {},
            }
            if let Some(current) = workflow.get_memory(self.memory_key.as_str()) {
                return self.round(&current, workflow);
            }
        }
        *triggered = true;
        match await_input(
            self.core.name.as_str(),
            triggered,
            "seed",
            &self.core.config.input_map,
            workflow,
        ) {
            InputPoll::Pending => LoopPoll::Pending,
            InputPoll::Failed(e) => LoopPoll::Done(Err(e)),
            InputPoll::Got(seed) => {
                let current = match seed {
                    Some(v) => v,
                    None => match &self.init_value {
                        Some(v) => v.copy(),
                        None => Json::Null,
                    },
                };
                NodeHelper::set_memory(self.memory_key.as_str(), current.copy(), workflow);
                self.round(&current, workflow)
            },
        }
    }

    /// Ends a run that asked for a sum: the sum is the next value of the loop.
    pub fn resume(&self, sum: Json, workflow: &mut WorkFlow) -> (r: Result<(), WorkflowError>)
        ensures
            (final(workflow)@, unit_view(r)) == loop_resumed(
                self.rules(),
                self.core.config@,
                self.core.name@,
                old(workflow)@,
                sum@,
            ),
    {
        NodeHelper::set_memory(self.memory_key.as_str(), sum, workflow);
        self.core.make_choice("continue", false, workflow)
    }
}

impl BaseNode for WhileNode {
    open spec fn decl(&self) -> NodeDecl {
        self.core.decl(NodeType::Step, true)
    }

    fn name(&self) -> (r: &str) {
        self.core.name.as_str()
    }

    fn node_type(&self) -> (r: NodeType) {
        NodeType::Step
    }

    fn input_parameters(&self) -> (r: &StringMap<ParameterType>) {
        &self.core.input_params
    }

    fn output_parameters(&self) -> (r: &StringMap<ParameterType>) {
        &self.core.output_params
    }

    fn choices(&self) -> (r: &Vec<String>) {
        &self.core.choices
    }

    fn is_key_node(&self) -> (r: bool) {
        self.core.config.key_node
    }

    fn runable(&self) -> (r: bool) {
        true
    }

    fn is_reentrant(&self) -> (r: bool) {
        true
    }
}

// ---------------------------------------------------------------------------
// Laws
// ---------------------------------------------------------------------------

/// The value of a loop and its number of rounds are kept apart.
pub proof fn loop_keys_differ(l: LoopView)
    ensures
        l.iteration_key() != l.memory_key,
{
    reveal_strlit(".__iteration");
    assert(l.iteration_key().len() == l.memory_key.len() + 12);
}

/// Whether a round goes on: the loop is under its limit, its condition holds, and its
/// value can be moved on where it has to be.
pub open spec fn goes_on(l: LoopView, name: Seq<char>, w: WorkFlowView, current: JsonView) -> bool {
    match l.iteration(w) {
        Ok(n) => {
            &&& n < l.max_iterations
            &&& l.holds(current) == Ok::<bool, ErrorView>(true)
            &&& loop_outputs(name, w, current, n, true).1 is Ok
            &&& l.increment is None || current.as_double() is Some
        },
        Err(_) => false,
    }
}

/// A round that goes on chooses `continue`, at once or after the sum that it asks for,
/// and counts itself; any other round fails or chooses `exit`. At the limit a round
/// fails and leaves the workflow as it is, whatever its condition.
pub proof fn round_chooses_by_its_condition(
    l: LoopView,
    name: Seq<char>,
    choices: Seq<(Seq<char>, Seq<char>)>,
    w: WorkFlowView,
    current: JsonView,
)
    requires
        l.iteration(w) is Ok,
    ensures
        ({
            let n = l.iteration(w)->Ok_0;
            let (after, p) = loop_round(l, name, choices, w, current);
            let counted = loop_outputs(name, w, current, n, true).0.with_memory(
                l.iteration_key(),
                JsonView::Number(NumberView::PosInt((n + 1) as u64)),
            );
            let chosen = and_choice((counted, Ok(())), name, "continue"@, choices, false);
            let left = and_choice(
                loop_outputs(name, w, current, n, false),
                name,
                "exit"@,
                choices,
                false,
            );
            &&& goes_on(l, name, w, current) ==> (after == counted && p is Sum) || (after, p) == (
                chosen.0,
                LoopPollView::Done(chosen.1),
            )
            &&& !goes_on(l, name, w, current) ==> (p matches LoopPollView::Done(r) && r is Err) || (
            after, p) == (left.0, LoopPollView::Done(left.1))
            &&& n >= l.max_iterations ==> after == w && (p matches LoopPollView::Done(r)
                && r matches Err(ErrorView::Other(_)))
        }),
{
}

/// The round that a run makes, if it makes one: the workflow at its start, and the value
/// of the loop.
pub open spec fn loop_begins(
    l: LoopView,
    c: NodeConfigView,
    name: Seq<char>,
    w: WorkFlowView,
    triggered: bool,
) -> Option<(WorkFlowView, JsonView)> {
    let taken = if triggered {
        w
    } else {
        w.take_activation(name).0
    };
    if !triggered && w.take_activation(name).1 != Ok::<bool, ErrorView>(true) {
        None
    } else if !triggered && assoc(taken.memory, l.memory_key) is Some {
        Some((taken, assoc(taken.memory, l.memory_key)->0))
    } else {
        match poll_source(taken, c.input_map, "seed"@).1 {
            InputPollView::Got(seed) => Some(
                (taken.with_memory(l.memory_key, l.initial(seed)), l.initial(seed)),
            ),
            _ => None,
        }
    }
}

/// A run makes its round and is then over; a run that makes none waits or fails, and
/// puts nothing out and chooses nothing.
pub proof fn run_makes_its_round(
    l: LoopView,
    c: NodeConfigView,
    name: Seq<char>,
    w: WorkFlowView,
    triggered: bool,
)
    ensures
        match loop_begins(l, c, name, w, triggered) {
            Some((start, current)) => loop_run(l, c, name, w, triggered) == (
                loop_round(l, name, c.choice_map, start, current).0,
                false,
                loop_round(l, name, c.choice_map, start, current).1,
            ),
            None => {
                let (after, _, p) = loop_run(l, c, name, w, triggered);
                &&& after == w || after == w.take_activation(name).0
                &&& p is Pending || (p matches LoopPollView::Done(r) && r is Err)
            },
        },
{
}

/// A run of a loop node on a workflow, and the sum that it is given where it asks for one.
pub struct LoopTurn {
    pub workflow: WorkFlowView,
    pub triggered: bool,
    pub sum: JsonView,
}

/// Whether a run chooses `continue`.
#[verifier::opaque]
pub open spec fn turn_goes_on(l: LoopView, c: NodeConfigView, name: Seq<char>, t: LoopTurn) -> bool {
    match loop_begins(l, c, name, t.workflow, t.triggered) {
        Some((w, current)) => goes_on(l, name, w, current),
        None => false,
    }
}

/// The workflow after a run.
#[verifier::opaque]
pub open spec fn turn_end(
    l: LoopView,
    c: NodeConfigView,
    name: Seq<char>,
    t: LoopTurn,
) -> WorkFlowView {
    let (after, _, p) = loop_run(l, c, name, t.workflow, t.triggered);
    if p is Sum {
        loop_resumed(l, c, name, after, t.sum).0
    } else {
        after
    }
}

/// How many of the runs choose `continue`.
pub open spec fn times_gone_on(
    l: LoopView,
    c: NodeConfigView,
    name: Seq<char>,
    turns: Seq<LoopTurn>,
) -> nat
    decreases turns.len(),
{
    if turns.len() == 0 {
        0
    } else {
        let front = times_gone_on(l, c, name, turns.drop_last());
        if turn_goes_on(l, c, name, turns.last()) {
            front + 1
        } else {
            front
        }
    }
}

/// Whether the count of the rounds is not there before the first run, and is found by
/// each later run as the run before has left it.
pub open spec fn count_is_left_alone(
    l: LoopView,
    c: NodeConfigView,
    name: Seq<char>,
    turns: Seq<LoopTurn>,
) -> bool {
    &&& turns.len() > 0 ==> assoc(turns[0].workflow.memory, l.iteration_key()) is None
    &&& forall|i: int|
        0 <= i < turns.len() - 1 ==> assoc(
            (#[trigger] turn_end(l, c, name, turns[i])).memory,
            l.iteration_key(),
        ) == assoc(turns[i + 1].workflow.memory, l.iteration_key())
}

proof fn choice_keeps_memory(
    w: WorkFlowView,
    name: Seq<char>,
    choice: Seq<char>,
    map: Seq<(Seq<char>, Seq<char>)>,
)
    ensures
        and_choice((w, Ok(())), name, choice, map, false).0.memory == w.memory,
{
}

/// The workflow after a round, and after the sum that it was given where it asked for one.
spec fn round_end(
    l: LoopView,
    name: Seq<char>,
    choices: Seq<(Seq<char>, Seq<char>)>,
    w: WorkFlowView,
    current: JsonView,
    sum: JsonView,
) -> WorkFlowView {
    let (after, p) = loop_round(l, name, choices, w, current);
    if p is Sum {
        and_choice(
            (after.with_memory(l.memory_key, sum), Ok(())),
            name,
            "continue"@,
            choices,
            false,
        ).0
    } else {
        after
    }
}

#[verifier::spinoff_prover]
proof fn round_keeps_count(
    l: LoopView,
    name: Seq<char>,
    choices: Seq<(Seq<char>, Seq<char>)>,
    w: WorkFlowView,
    current: JsonView,
    sum: JsonView,
)
    requires
        l.iteration(w) is Ok,
        l.iteration(w)->Ok_0 <= l.max_iterations,
    ensures
        ({
            let n = l.iteration(w)->Ok_0;
            let end = l.iteration(round_end(l, name, choices, w, current, sum));
            &&& end is Ok
            &&& n <= end->Ok_0 <= l.max_iterations
            &&& goes_on(l, name, w, current) ==> end->Ok_0 == n + 1
        }),
{
    let key = l.iteration_key();
    let n = l.iteration(w)->Ok_0;
    let counted = JsonView::Number(NumberView::PosInt((n + 1) as u64));
    let out = loop_outputs(name, w, current, n, true).0;
    let left = loop_outputs(name, w, current, n, false).0;
    let with_count = out.with_memory(key, counted);
    assert(out.memory == w.memory);
    assert(left.memory == w.memory);
    loop_keys_differ(l);
    assoc_after_insert(out.memory, key, counted, key);
    assoc_after_insert(with_count.memory, l.memory_key, sum, key);
    choice_keeps_memory(with_count, name, "continue"@, choices);
    choice_keeps_memory(left, name, "exit"@, choices);
    choice_keeps_memory(with_count.with_memory(l.memory_key, sum), name, "continue"@, choices);
}

proof fn round_begins_with_the_count(
    l: LoopView,
    c: NodeConfigView,
    name: Seq<char>,
    w: WorkFlowView,
    triggered: bool,
)
    ensures
        match loop_begins(l, c, name, w, triggered) {
            Some((start, _)) => l.iteration(start) == l.iteration(w),
            None => l.iteration(loop_run(l, c, name, w, triggered).0) == l.iteration(w),
        },
{
    loop_keys_differ(l);
    run_makes_its_round(l, c, name, w, triggered);
    assert(w.take_activation(name).0.memory == w.memory);
    if let Some((start, current)) = loop_begins(l, c, name, w, triggered) {
        assoc_after_insert(w.memory, l.memory_key, current, l.iteration_key());
    }
}

#[verifier::spinoff_prover]
proof fn turn_keeps_count(l: LoopView, c: NodeConfigView, name: Seq<char>, t: LoopTurn)
    requires
        l.iteration(t.workflow) is Ok,
        l.iteration(t.workflow)->Ok_0 <= l.max_iterations,
    ensures
        ({
            let n = l.iteration(t.workflow)->Ok_0;
            let end = l.iteration(turn_end(l, c, name, t));
            &&& end is Ok
            &&& n <= end->Ok_0 <= l.max_iterations
            &&& turn_goes_on(l, c, name, t) ==> end->Ok_0 == n + 1
        }),
{
    reveal(turn_end);
    reveal(turn_goes_on);
    run_makes_its_round(l, c, name, t.workflow, t.triggered);
    round_begins_with_the_count(l, c, name, t.workflow, t.triggered);
    if let Some((w, current)) = loop_begins(l, c, name, t.workflow, t.triggered) {
        round_keeps_count(l, name, c.choice_map, w, current, t.sum);
        assert(turn_end(l, c, name, t) == round_end(l, name, c.choice_map, w, current, t.sum));
    }
}

/// Over any runs of a loop node that begin without a count, and between which nothing
/// else touches the count, `continue` is chosen no more often than the limit says.
pub proof fn rounds_are_limited(
    l: LoopView,
    c: NodeConfigView,
    name: Seq<char>,
    turns: Seq<LoopTurn>,
)
    requires
        count_is_left_alone(l, c, name, turns),
    ensures
        times_gone_on(l, c, name, turns) <= l.max_iterations,
{
    if turns.len() > 0 {
        rounds_are_counted(l, c, name, turns);
    }
}

proof fn rounds_are_counted(
    l: LoopView,
    c: NodeConfigView,
    name: Seq<char>,
    turns: Seq<LoopTurn>,
)
    requires
        turns.len() > 0,
        count_is_left_alone(l, c, name, turns),
    ensures
        l.iteration(turn_end(l, c, name, turns.last())) is Ok,
        times_gone_on(l, c, name, turns) <= l.iteration(
            turn_end(l, c, name, turns.last()),
        )->Ok_0 <= l.max_iterations,
    decreases turns.len(),
{
    let front = turns.drop_last();
    let key = l.iteration_key();
    if front.len() > 0 {
        assert(count_is_left_alone(l, c, name, front)) by {
            assert forall|i: int| 0 <= i < front.len() - 1 implies assoc(
                (#[trigger] turn_end(l, c, name, front[i])).memory,
                key,
            ) == assoc(front[i + 1].workflow.memory, key) by {
                assert(front[i] == turns[i]);
                assert(front[i + 1] == turns[i + 1]);
            }
        }
        rounds_are_counted(l, c, name, front);
        let last = turns.len() - 2;
        assert(front.last() == turns[last]);
        assert(assoc(turn_end(l, c, name, turns[last]).memory, key) == assoc(
            turns[last + 1].workflow.memory,
            key,
        ));
        assert(l.iteration(turns.last().workflow) == l.iteration(
            turn_end(l, c, name, front.last()),
        ));
    } else {
        assert(turns.last() == turns[0]);
        assert(times_gone_on(l, c, name, front) == 0);
    }
    turn_keeps_count(l, c, name, turns.last());
}

/// The condition of a loop says of a value what the same test of a condition node says.
pub proof fn loop_condition_is_the_test(l: LoopView, value: JsonView)
    requires
        needs_compare(l.condition_type) ==> l.compare_value is Some,
    ensures
        l.holds(value) is Ok <==> condition_holds(
            l.condition_type,
            l.compare_value,
            value,
        ) is Ok,
        l.holds(value) is Ok ==> l.holds(value) == condition_holds(
            l.condition_type,
            l.compare_value,
            value,
        ),
{
}

/// A loop is what the attributes of the node say: where it is kept, how it is tested and
/// how often it may go on. It is refused without a place, a test or a limit above zero, and
/// where the test needs a value to compare with and there is none.
pub proof fn loop_is_what_the_attributes_say(c: NodeConfigView)
    ensures
        loop_of(c) is Ok <==> {
            let limit = assoc(c.attrs, "max_iterations"@);
            let word = c.text_attr("condition_type"@);
            &&& assoc(c.attrs, "memory_key"@) matches Some(JsonView::Text(_))
            &&& word is Some && ConditionType::parsed(word->0) is Ok
            &&& limit matches Some(JsonView::Number(NumberView::PosInt(n))) && n > 0
            &&& ConditionType::parsed(word->0)->Ok_0 == ConditionType::IsTrue
                || ConditionType::parsed(word->0)->Ok_0 == ConditionType::IsFalse || assoc(
                c.attrs,
                "compare_value"@,
            ) is Some
        },
        loop_of(c) is Ok ==> {
            let l = loop_of(c)->Ok_0;
            &&& assoc(c.attrs, "memory_key"@) == Some(JsonView::Text(l.memory_key))
            &&& ConditionType::parsed(c.text_attr("condition_type"@)->0) == Ok::<
                ConditionType,
                ErrorView,
            >(l.condition_type)
            &&& l.compare_value == assoc(c.attrs, "compare_value"@)
            &&& l.init_value == assoc(c.attrs, "init_value"@)
            &&& assoc(c.attrs, "max_iterations"@) == Some(
                JsonView::Number(NumberView::PosInt(l.max_iterations)),
            )
            &&& l.increment is Some <==> assoc(c.attrs, "increment"@) is Some && assoc(
                c.attrs,
                "increment"@,
            )->0 is Number
            &&& l.increment is Some ==> assoc(c.attrs, "increment"@)->0->Number_0.as_double()
                == l.increment->0
        },
{
}

/// A loop whose memory is empty starts with its seed, without one with the configured
/// value, and without either with nothing.
pub proof fn loop_starts_with_its_seed(l: LoopView, seed: JsonView)
    ensures
        l.initial(Some(seed)) == seed,
        l.init_value is Some ==> l.initial(None) == l.init_value->0,
        l.init_value is None ==> l.initial(None) is Null,
{
}

/// The count of the rounds is the number that memory has under the loop's key with
/// `.__iteration` after it, and zero where memory has nothing there.
pub proof fn count_is_kept_in_memory(l: LoopView, w: WorkFlowView, n: u64)
    ensures
        l.iteration(w) == Ok::<u64, ErrorView>(n) <==> assoc(
            w.memory,
            l.memory_key + ".__iteration"@,
        ) == Some(JsonView::Number(NumberView::PosInt(n))) || (n == 0 && assoc(
            w.memory,
            l.memory_key + ".__iteration"@,
        ) is None),
{
}

/// A round under the limit whose condition can be told puts out the value, the number of
/// rounds so far and whether the condition holds. Where it holds the round is counted and
/// asks for the sum of its value and the increment, or, without an increment, goes to the
/// target of `continue`; where it does not hold it goes to the target of `exit`.
pub proof fn round_puts_out_and_chooses(
    l: LoopView,
    name: Seq<char>,
    choices: Seq<(Seq<char>, Seq<char>)>,
    w: WorkFlowView,
    current: JsonView,
)
    requires
        w.bus.wf(),
        assoc(w.bus.types, name + "."@ + "current"@) == Some(ParameterType::Step),
        assoc(w.bus.types, name + "."@ + "iteration"@) == Some(ParameterType::Step),
        assoc(w.bus.types, name + "."@ + "condition"@) == Some(ParameterType::Step),
        l.iteration(w) is Ok,
        l.iteration(w)->Ok_0 < l.max_iterations,
        l.holds(current) is Ok,
    ensures
        ({
            let n = l.iteration(w)->Ok_0;
            let go_on = l.holds(current)->Ok_0;
            let (after, p) = loop_round(l, name, choices, w, current);
            let target = assoc(
                choices,
                if go_on {
                    "continue"@
                } else {
                    "exit"@
                },
            );
            &&& after.bus.read(name + "."@ + "current"@) == Ok::<Option<JsonView>, ErrorView>(
                Some(current),
            )
            &&& after.bus.read(name + "."@ + "iteration"@) == Ok::<Option<JsonView>, ErrorView>(
                Some(JsonView::Number(NumberView::PosInt(n))),
            )
            &&& after.bus.read(name + "."@ + "condition"@) == Ok::<Option<JsonView>, ErrorView>(
                Some(JsonView::Bool(go_on)),
            )
            &&& go_on ==> assoc(after.memory, l.memory_key + ".__iteration"@) == Some(
                JsonView::Number(NumberView::PosInt((n + 1) as u64)),
            )
            &&& !go_on ==> after.memory == w.memory
            &&& go_on && l.increment is Some && current is Number ==> p == LoopPollView::Sum(
                current->Number_0.as_double(),
                l.increment->0,
            )
            &&& go_on && l.increment is Some && !(current is Number) ==> (p matches
                LoopPollView::Done(r) && r is Err)
            &&& !go_on || l.increment is None ==> (p matches LoopPollView::Done(r) && (r is Ok
                ==> target is Some && went_to(w, after, name, target->0) && cancelled_as_told(
                w,
                after,
                choices,
                target->0,
                false,
            )) && (target is Some && (
            target->0 == "finish"@ || assoc(w.nodes, target->0) is Some) ==> r is Ok))
            &&& after.context == w.context && after.messages == w.messages
        }),
{
    let n = l.iteration(w)->Ok_0;
    let go_on = l.holds(current)->Ok_0;
    let a = name + "."@ + "current"@;
    let b = name + "."@ + "iteration"@;
    let c = name + "."@ + "condition"@;
    reveal_strlit("current");
    reveal_strlit("iteration");
    reveal_strlit("condition");
    assert("iteration"@[0] != "condition"@[0]);
    keys_differ_by_name(name, "current"@, "iteration"@);
    keys_differ_by_name(name, "current"@, "condition"@);
    keys_differ_by_name(name, "iteration"@, "condition"@);
    let number = JsonView::Number(NumberView::PosInt(n));
    let one = w.output(name, "current"@, current).0;
    step_output_is_read(w, name, "current"@, current, a);
    step_output_is_read(w, name, "current"@, current, b);
    bus_stays_well_formed(w.bus, a, ParameterType::Step, current, name);
    let two = one.output(name, "iteration"@, number).0;
    step_output_is_read(one, name, "iteration"@, number, a);
    step_output_is_read(one, name, "iteration"@, number, b);
    bus_stays_well_formed(one.bus, b, ParameterType::Step, number, name);
    let three = two.output(name, "condition"@, JsonView::Bool(go_on)).0;
    step_output_is_read(two, name, "condition"@, JsonView::Bool(go_on), a);
    step_output_is_read(two, name, "condition"@, JsonView::Bool(go_on), b);
    let counted = JsonView::Number(NumberView::PosInt((n + 1) as u64));
    assoc_after_insert(w.memory, l.iteration_key(), counted, l.iteration_key());
    let ready = if go_on {
        three.with_memory(l.iteration_key(), counted)
    } else {
        three
    };
    let choice = if go_on {
        "continue"@
    } else {
        "exit"@
    };
    choice_goes_where_the_map_leads(ready, name, choice, choices, false);
    assert(ready.outbox.take(w.outbox.len() as int) =~= w.outbox);
    choice_cancels_as_told(w, ready, name, choice, choices, false);
    if let Some(target) = assoc(choices, choice) {
        activation_touches_one_node(ready, target, target);
        if assoc(ready.nodes, target) is Some && assoc(ready.nodes, target)->0.running {
            crate::workflow::running_node_ignores_activation(ready, target);
        }
    }
}

/// A run that asked for a sum ends with the sum in memory under the key of the loop, and
/// everything else in memory as it was; the workflow goes to the target of `continue`, and
/// no other target is cancelled.
pub proof fn sum_is_the_next_value(
    l: LoopView,
    c: NodeConfigView,
    name: Seq<char>,
    w: WorkFlowView,
    sum: JsonView,
    key: Seq<char>,
)
    ensures
        ({
            let (after, r) = loop_resumed(l, c, name, w, sum);
            let target = assoc(c.choice_map, "continue"@);
            &&& assoc(after.memory, l.memory_key) == Some(sum)
            &&& key != l.memory_key ==> assoc(after.memory, key) == assoc(w.memory, key)
            &&& r is Ok <==> target is Some && (target->0 == "finish"@ || assoc(
                w.nodes,
                target->0,
            ) is Some)
            &&& r is Ok ==> went_to(w, after, name, target->0) && cancelled_as_told(
                w,
                after,
                c.choice_map,
                target->0,
                false,
            )
            &&& after.bus == w.bus && after.context == w.context && after.messages == w.messages
        }),
{
    let ready = w.with_memory(l.memory_key, sum);
    assoc_after_insert(w.memory, l.memory_key, sum, l.memory_key);
    assoc_after_insert(w.memory, l.memory_key, sum, key);
    choice_goes_where_the_map_leads(ready, name, "continue"@, c.choice_map, false);
    assert(ready.outbox.take(w.outbox.len() as int) =~= w.outbox);
    choice_cancels_as_told(w, ready, name, "continue"@, c.choice_map, false);
    if let Some(target) = assoc(c.choice_map, "continue"@) {
        activation_touches_one_node(ready, target, target);
        if assoc(ready.nodes, target) is Some && assoc(ready.nodes, target)->0.running {
            crate::workflow::running_node_ignores_activation(ready, target);
        }
    }
}

/// A loop that goes too often, or whose memory cannot be used, fails and says why; it
/// touches nothing then.
pub proof fn failed_round_says_why(
    l: LoopView,
    name: Seq<char>,
    choices: Seq<(Seq<char>, Seq<char>)>,
    w: WorkFlowView,
    current: JsonView,
)
    ensures
        ({
            let (after, p) = loop_round(l, name, choices, w, current);
            let count = l.iteration(w);
            &&& count matches Ok(n) ==> n >= l.max_iterations ==> after == w && p
                == LoopPollView::Done(
                Err::<(), ErrorView>(
                    ErrorView::Other(
                        "while node '"@ + name + "' exceeded max_iterations="@ + decimal(
                            l.max_iterations as nat,
                        ),
                    ),
                ),
            )
            &&& count matches Ok(n) ==> n < l.max_iterations ==> (l.holds(current) matches Err(e)
                ==> after == w && p == LoopPollView::Done(Err::<(), ErrorView>(e)))
            &&& count matches Err(e) ==> after == w && p == LoopPollView::Done(
                Err::<(), ErrorView>(e),
            )
        }),
        assoc(w.memory, l.memory_key + ".__iteration"@) matches Some(v) ==> {
            &&& !(v is Number) ==> l.iteration(w) == Err::<u64, ErrorView>(
                ErrorView::ConfigError("Iteration value in memory must be an unsigned integer"@),
            )
            &&& (v matches JsonView::Number(n) && !(n is PosInt)) ==> l.iteration(w) == Err::<
                u64,
                ErrorView,
            >(ErrorView::ConfigError("Invalid iteration value"@))
        },
        l.increment is Some && !(current is Number) ==> loop_continue(l, name, choices, w, current)
            == (
            w,
            LoopPollView::Done(
                Err::<(), ErrorView>(
                    ErrorView::ConfigError(
                        "Memory value must be numeric when 'increment' is configured"@,
                    ),
                ),
            ),
        ),
{
}

/// A loop that the attributes do not describe is refused, and the error says what is
/// missing, the place in memory before the test, the test before the limit, and the limit
/// before the value to compare with.
pub proof fn incomplete_loop_says_what_is_missing(c: NodeConfigView)
    ensures
        ({
            let r = loop_of(c);
            let place = assoc(c.attrs, "memory_key"@) matches Some(JsonView::Text(_));
            let word = c.text_attr("condition_type"@);
            let limit = assoc(c.attrs, "max_iterations"@);
            let counts = limit matches Some(JsonView::Number(NumberView::PosInt(_)));
            &&& !place ==> r == Err::<LoopView, ErrorView>(
                ErrorView::ConfigError("Missing 'memory_key' attribute"@),
            )
            &&& place && word is None ==> r == Err::<LoopView, ErrorView>(
                ErrorView::ConfigError("Missing 'condition_type' attribute"@),
            )
            &&& place && word is Some && ConditionType::named(lowercase(word->0)) is None ==> r
                == Err::<LoopView, ErrorView>(
                ErrorView::ConfigError("Unknown condition type: "@ + word->0),
            )
            &&& place && word is Some && ConditionType::named(lowercase(word->0)) is Some ==> {
                &&& !counts ==> r == Err::<LoopView, ErrorView>(
                    ErrorView::ConfigError("Missing or invalid 'max_iterations' attribute"@),
                )
                &&& limit == Some(JsonView::Number(NumberView::PosInt(0))) ==> r == Err::<
                    LoopView,
                    ErrorView,
                >(ErrorView::ConfigError("'max_iterations' must be greater than 0"@))
                &&& counts && limit != Some(JsonView::Number(NumberView::PosInt(0))) && r is Err
                    ==> r == Err::<LoopView, ErrorView>(
                    ErrorView::ConfigError("Missing 'compare_value' attribute"@),
                )
            }
        }),
{
}

/// A condition that cannot be told of the value in memory says why: there is nothing of
/// the right type to compare with, or the value is of the wrong type.
pub proof fn impossible_condition_says_why(l: LoopView, value: JsonView)
    ensures
        ({
            let number = l.compare_value matches Some(JsonView::Number(_));
            let word = l.compare_value matches Some(JsonView::Text(_));
            &&& l.condition_type == ConditionType::GreaterThan && !number ==> l.holds(value)
                == Err::<bool, ErrorView>(
                ErrorView::ConfigError("Invalid 'compare_value' for greater_than"@),
            )
            &&& l.condition_type == ConditionType::LessThan && !number ==> l.holds(value) == Err::<
                bool,
                ErrorView,
            >(ErrorView::ConfigError("Invalid 'compare_value' for less_than"@))
            &&& (l.condition_type == ConditionType::GreaterThan || l.condition_type
                == ConditionType::LessThan) && number && !(value is Number) ==> l.holds(value)
                == Err::<bool, ErrorView>(ErrorView::ConfigError("Memory value is not a number"@))
            &&& l.condition_type == ConditionType::Contains && !word ==> l.holds(value) == Err::<
                bool,
                ErrorView,
            >(ErrorView::ConfigError("Invalid 'compare_value' for contains"@))
            &&& l.condition_type == ConditionType::Contains && word && !(value is Text) && !(
            value is Array) ==> l.holds(value) == Err::<bool, ErrorView>(
                ErrorView::ConfigError("Memory value must be string or array for contains"@),
            )
        }),
{
}

} // verus!
