//! Nodes whose work the host does: the node gathers the inputs, hands them over and
//! puts the outcome out.
use vstd::prelude::*;

use crate::error::{result_view, unit_view, ErrorView, WorkflowError};
use crate::node::base::{
    input_value, BaseNode, InputValue, InputView, NodeConfig, NodeConfigView, NodeContext, NodeDecl,
    NodeHelper, NodeType,
};
use crate::nodes::{declared, one, outcome_put_out, NodeCore};
use crate::parameter_bus::ParameterType;
use crate::string_map::{assoc, assoc_after_insert, assoc_insert, keys_of, StringMap};
use crate::text::texts;
use crate::value::{Json, JsonView};
use crate::workflow::{activation_touches_one_node, WorkFlow, WorkFlowView};

verus! {

/// Where the run of a custom node stands.
#[derive(Debug)]
pub enum CustomStage {
    /// The node waits for its activation.
    Idle,
    /// The node gathers its inputs: the inputs so far, and how many were looked at.
    Gathering(StringMap<Json>, usize),
}

/// Where the run of a custom node stands.
#[verifier::ext_equal]
pub enum CustomStageView {
    Idle,
    Gathering(Seq<(Seq<char>, JsonView)>, nat),
}

impl View for CustomStage {
    type V = CustomStageView;

    open spec fn view(&self) -> CustomStageView {
        match self {
            CustomStage::Idle => CustomStageView::Idle,
            CustomStage::Gathering(m, n) => CustomStageView::Gathering(m@, *n as nat),
        }
    }
}

/// How far the run of a custom node has got.
#[derive(Debug)]
pub enum CustomPoll {
    /// The node waits for its activation or an input.
    Pending,
    /// The host has to work on these inputs.
    Execute(StringMap<Json>),
    /// The run is over, with this error.
    Failed(WorkflowError),
}

/// How far the run of a custom node has got.
#[verifier::ext_equal]
pub enum CustomPollView {
    Pending,
    Execute(Seq<(Seq<char>, JsonView)>),
    Failed(ErrorView),
}

impl View for CustomPoll {
    type V = CustomPollView;

    open spec fn view(&self) -> CustomPollView {
        match self {
            CustomPoll::Pending => CustomPollView::Pending,
            CustomPoll::Execute(m) => CustomPollView::Execute(m@),
            CustomPoll::Failed(e) => CustomPollView::Failed(e@),
        }
    }
}

/// Gathers the inputs from the `n`th on: an absent input is left out, and one that
/// has no value yet is waited for.
pub open spec fn gather(
    w: WorkFlowView,
    map: Seq<(Seq<char>, Option<Seq<char>>)>,
    keys: Seq<Seq<char>>,
    got: Seq<(Seq<char>, JsonView)>,
    n: nat,
) -> (CustomStageView, CustomPollView)
    decreases keys.len() - n,
{
    if n >= keys.len() {
        (CustomStageView::Idle, CustomPollView::Execute(got))
    } else {
        match input_value(Some(w), map, keys[n as int]) {
            Err(e) => (CustomStageView::Idle, CustomPollView::Failed(e)),
            Ok(InputView::Waiting) => (
                CustomStageView::Gathering(got, n),
                CustomPollView::Pending,
            ),
            Ok(InputView::Absent) => gather(w, map, keys, got, n + 1),
            Ok(InputView::Ready(v)) => gather(
                w,
                map,
                keys,
                assoc_insert(got, keys[n as int], v),
                n + 1,
            ),
        }
    }
}

/// What the node does when it is run: the workflow, where the node stands, and how
/// far it got.
pub open spec fn custom_run(
    c: NodeConfigView,
    name: Seq<char>,
    keys: Seq<Seq<char>>,
    w: WorkFlowView,
    stage: CustomStageView,
) -> (WorkFlowView, CustomStageView, CustomPollView) {
    match stage {
        CustomStageView::Idle => {
            let (taken, r) = w.take_activation(name);
            match r {
                Err(e) => (taken, stage, CustomPollView::Failed(e)),
                Ok(false) => (taken, stage, CustomPollView::Pending),
                Ok(true) => {
                    let (s, p) = gather(taken, c.input_map, keys, Seq::empty(), 0);
                    (taken, s, p)
                },
            }
        },
        CustomStageView::Gathering(got, n) => {
            let (s, p) = gather(w, c.input_map, keys, got, n);
            (w, s, p)
        },
    }
}

/// A node whose work the host does.
#[derive(Debug)]
pub struct CustomNode {
    pub core: NodeCore,
    pub output_key: String,
}

impl CustomNode {
    /// A node with the given inputs and output.
    pub fn new(
        config: NodeConfig,
        _ctx: NodeContext,
        input_keys: Vec<String>,
        output_key: &str,
    ) -> (r: CustomNode)
        ensures
            r.output_key@ == output_key@,
            r.core.config == config,
            r.core.name@ == config@.node_name,
            r.decl() == declared(
                config@,
                NodeType::Step,
                texts(input_keys@),
                seq![output_key@],
                seq!["default"@],
                false,
            ),
    {
        CustomNode {
            core: NodeCore::new(config, input_keys, one(output_key), one("default")),
            output_key: output_key.to_owned(),
        }
    }

    fn gather_inputs(&self, got: StringMap<Json>, from: usize, workflow: &WorkFlow) -> (r: (
        CustomStage,
        CustomPoll,
    ))
        ensures
            ({
                let (s, p) = gather(
                    workflow@,
                    self.core.config@.input_map,
                    keys_of(self.decl().inputs),
                    got@,
                    from as nat,
                );
                r.0@ == s && r.1@ == p
            }),
    {
        let ctx = NodeContext::new(Some(workflow));
        let ghost keys = keys_of(self.decl().inputs);
        let ghost map = self.core.config@.input_map;
        let ghost target = gather(workflow@, map, keys, got@, from as nat);
        let mut inputs = got;
        let mut i: usize = from;
        while i < self.core.input_params.len()
            invariant
                keys == keys_of(self.core.input_params@),
                map == self.core.config@.input_map,
                ctx.workflow == Some(workflow),
                from <= i,
                keys == keys_of(self.decl().inputs),
                target == gather(workflow@, map, keys, got@, from as nat),
                target == gather(workflow@, map, keys, inputs@, i as nat),
            decreases self.core.input_params@.len() - i,
        {
            let key = self.core.input_params.key_at(i);
            proof {
                assert(keys[i as int] == key@);
            }
            match NodeHelper::get_input(key, &self.core.config.input_map, &ctx) {
                Err(e) => {
                    return (CustomStage::Idle, CustomPoll::Failed(e));
                },
                Ok(InputValue::Waiting) => {
                    return (CustomStage::Gathering(inputs, i), CustomPoll::Pending);
                },
                Ok(InputValue::Absent) => {},
                Ok(InputValue::Ready(v)) => {
                    inputs.insert(key.to_owned(), v);
                },
            }
            i = i + 1;
        }
        (CustomStage::Idle, CustomPoll::Execute(inputs))
    }

    /// Runs the node as far as it gets.
    pub fn run(&self, stage: &mut CustomStage, workflow: &mut WorkFlow) -> (p: CustomPoll)
        ensures
            ({
                let (w, s, v) = custom_run(
                    self.core.config@,
                    self.core.name@,
                    keys_of(self.decl().inputs),
                    old(workflow)@,
                    old(stage)@,
                );
                final(workflow)@ == w && final(stage)@ == s && p@ == v
            }),
    {
        let mut was = CustomStage::Idle;
        core::mem::swap(&mut was, stage);
        let (next, p) = match was {
            CustomStage::Idle => match workflow.wait_for_event(self.core.name.as_str()) {
                Err(e) => (CustomStage::Idle, CustomPoll::Failed(e)),
                Ok(false) => (CustomStage::Idle, CustomPoll::Pending),
                Ok(true) => self.gather_inputs(StringMap::new(), 0, workflow),
            },
            CustomStage::Gathering(got, n) => self.gather_inputs(got, n, workflow),
        };
        *stage = next;
        p
    }

    /// Ends a run whose work the host has done: the outcome is put out, and an error
    /// is the error of the run.
    pub fn executed(&self, outcome: Result<Json, WorkflowError>, workflow: &mut WorkFlow) -> (r:
        Result<(), WorkflowError>)
        ensures
            (final(workflow)@, unit_view(r)) == outcome_put_out(
                old(workflow)@,
                self.core.name@,
                self.output_key@,
                result_view(outcome),
                self.core.config@.choice_map,
            ),
    {
        match outcome {
            Ok(v) => self.core.output_and_choose(self.output_key.as_str(), v, "default", workflow),
            Err(e) => Err(e),
        }
    }
}

impl BaseNode for CustomNode {
    open spec fn decl(&self) -> NodeDecl {
        self.core.decl(NodeType::Step, false)
    }

    fn name(&self) -> (r: &str) {
        self.core.name.as_str()
    }

    fn node_type(&self) -> (r: NodeType) {
        NodeType::Step
    }

    fn input_parameters(&self) -> (r: &StringMap<ParameterType>) {
        &self.core.input_params
    }

    fn output_parameters(&self) -> (r: &StringMap<ParameterType>) {
        &self.core.output_params
    }

    fn choices(&self) -> (r: &Vec<String>) {
        &self.core.choices
    }

    fn is_key_node(&self) -> (r: bool) {
        self.core.config.key_node
    }

    fn runable(&self) -> (r: bool) {
        true
    }

    fn is_reentrant(&self) -> (r: bool) {
        false
    }
}

// ---------------------------------------------------------------------------
// Laws
// ---------------------------------------------------------------------------

/// Whether an input is among those from the `n`th on.
pub open spec fn is_left(keys: Seq<Seq<char>>, n: nat, key: Seq<char>) -> bool {
    exists|i: int| n <= i < keys.len() && #[trigger] keys[i] == key
}

/// The host gets an input exactly where it has a value, and gets that value; inputs that
/// have no source are left out. While an input has no value yet the host gets nothing, and
/// what was gathered is kept; an input that cannot be read ends the run.
pub proof fn gathered_inputs_are_what_is_read(
    w: WorkFlowView,
    map: Seq<(Seq<char>, Option<Seq<char>>)>,
    keys: Seq<Seq<char>>,
    got: Seq<(Seq<char>, JsonView)>,
    n: nat,
    key: Seq<char>,
)
    ensures
        ({
            let (stage, p) = gather(w, map, keys, got, n);
            let read = input_value(Some(w), map, key);
            &&& p matches CustomPollView::Execute(inputs) ==> stage == CustomStageView::Idle
                && assoc(inputs, key) == (if is_left(keys, n, key) && read matches Ok(
                InputView::Ready(v),
            ) {
                Some(read->Ok_0->Ready_0)
            } else {
                assoc(got, key)
            })
            &&& p is Execute && is_left(keys, n, key) ==> read is Ok && !(read
                == Ok::<InputView, ErrorView>(InputView::Waiting))
            &&& p matches CustomPollView::Pending ==> (stage matches CustomStageView::Gathering(
                _,
                m,
            ) && n <= m < keys.len() && input_value(Some(w), map, keys[m as int]) == Ok::<
                InputView,
                ErrorView,
            >(InputView::Waiting))
            &&& p matches CustomPollView::Failed(e) ==> stage == CustomStageView::Idle && exists|
                i: int,
            |
                n <= i < keys.len() && input_value(Some(w), map, #[trigger] keys[i]) == Err::<
                    InputView,
                    ErrorView,
                >(e)
        }),
    decreases keys.len() - n,
{
    if n < keys.len() {
        let first = keys[n as int];
        if is_left(keys, n, key) && !is_left(keys, n + 1, key) {
            let i = choose|i: int| n <= i < keys.len() && #[trigger] keys[i] == key;
            assert(i == n);
        }
        if is_left(keys, n + 1, key) {
            let i = choose|i: int| n + 1 <= i < keys.len() && #[trigger] keys[i] == key;
            assert(is_left(keys, n, key));
        }
        if first == key {
            assert(is_left(keys, n, key));
        }
        match input_value(Some(w), map, first) {
            Ok(InputView::Absent) => {
                gathered_inputs_are_what_is_read(w, map, keys, got, n + 1, key);
                gathered_inputs_are_what_is_read(w, map, keys, got, n + 1, first);
            },
            Ok(InputView::Ready(v)) => {
                let more = assoc_insert(got, first, v);
                assoc_after_insert(got, first, v, key);
                gathered_inputs_are_what_is_read(w, map, keys, more, n + 1, key);
            },
            _ => {},
        }
    }
}

/// The node gathers its inputs from the first on once it took its activation up, and does
/// nothing before; a node that is gathering goes on from where it stopped.
pub proof fn node_gathers_when_activated(
    c: NodeConfigView,
    name: Seq<char>,
    keys: Seq<Seq<char>>,
    w: WorkFlowView,
    got: Seq<(Seq<char>, JsonView)>,
    n: nat,
)
    requires
        assoc(w.nodes, name) is Some,
    ensures
        ({
            let (after, stage, p) = custom_run(c, name, keys, w, CustomStageView::Idle);
            let on = custom_run(c, name, keys, w, CustomStageView::Gathering(got, n));
            let active = assoc(w.nodes, name)->0.activated;
            &&& !active ==> after == w && stage == CustomStageView::Idle && p
                == CustomPollView::Pending
            &&& active ==> after.bus == w.bus && after.context == w.context && assoc(
                after.nodes,
                name,
            )->0.running && (stage, p) == gather(after, c.input_map, keys, Seq::empty(), 0)
            &&& on.0 == w && (on.1, on.2) == gather(w, c.input_map, keys, got, n)
        }),
{
    activation_touches_one_node(w, name, name);
}

} // verus!
