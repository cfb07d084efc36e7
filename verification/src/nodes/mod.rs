//! The nodes that the engine brings along.
use vstd::prelude::*;

use crate::error::{unit_view, ErrorView, WorkflowError};
use crate::node::base::{
    input_value, source_value, InputSource, InputValue, InputView, NodeConfig, NodeConfigView, NodeContext,
    NodeDecl, NodeHelper, NodeType,
};
use crate::parameter_bus::{bus_stays_well_formed, ParameterType};
use crate::string_map::{
    assoc, assoc_after_insert, assoc_insert, insert_keeps_sorted, sorted, StringMap,
};
use crate::text::texts;
use crate::value::{Json, JsonView};
use crate::workflow::{
    activation_touches_one_node, cancel_others, choice_goes_where_the_map_leads,
    step_output_is_read, EffectView, WorkFlow, WorkFlowView, WorkflowStatus,
};

pub mod builtin;
pub mod condition_node;
pub mod context_fetch_node;
pub mod llm_call_node;
pub mod print_node;
pub mod schema_validator;
pub mod send_recv_node;
pub mod transform_node;
pub mod while_node;

verus! {

/// What all the nodes have in common.
#[derive(Debug)]
pub struct NodeCore {
    pub name: String,
    pub config: NodeConfig,
    pub input_params: StringMap<ParameterType>,
    pub output_params: StringMap<ParameterType>,
    pub choices: Vec<String>,
}

/// Step parameters with the given names.
pub open spec fn step_params(names: Seq<Seq<char>>) -> Seq<(Seq<char>, ParameterType)>
    decreases names.len(),
{
    if names.len() == 0 {
        Seq::empty()
    } else {
        assoc_insert(step_params(names.drop_last()), names.last(), ParameterType::Step)
    }
}

fn make_step_params(names: &Vec<String>) -> (r: StringMap<ParameterType>)
    ensures
        r@ == step_params(texts(names@)),
{
    let mut out: StringMap<ParameterType> = StringMap::new();
    let mut i: usize = 0;
    proof {
        assert(texts(names@).take(0) =~= Seq::empty());
    }
    while i < names.len()
        invariant
            i <= names@.len(),
            out@ == step_params(texts(names@).take(i as int)),
        decreases names@.len() - i,
    {
        out.insert(names[i].clone(), ParameterType::Step);
        proof {
            let next = texts(names@).take(i + 1);
            assert(next.drop_last() =~= texts(names@).take(i as int));
            assert(next.last() == names@[i as int]@);
        }
        i = i + 1;
    }
    proof {
        assert(texts(names@).take(i as int) =~= texts(names@));
    }
    out
}

/// A list of one text.
pub fn one(a: &str) -> (r: Vec<String>)
    ensures
        texts(r@) == seq![a@],
{
    let mut v: Vec<String> = Vec::new();
    v.push(a.to_owned());
    proof {
        assert(texts(v@) =~= seq![a@]);
    }
    v
}

/// A list of two texts.
pub fn two(a: &str, b: &str) -> (r: Vec<String>)
    ensures
        texts(r@) == seq![a@, b@],
{
    let mut v: Vec<String> = Vec::new();
    v.push(a.to_owned());
    v.push(b.to_owned());
    proof {
        assert(texts(v@) =~= seq![a@, b@]);
    }
    v
}

/// A list of three texts.
pub fn three(a: &str, b: &str, c: &str) -> (r: Vec<String>)
    ensures
        texts(r@) == seq![a@, b@, c@],
{
    let mut v: Vec<String> = Vec::new();
    v.push(a.to_owned());
    v.push(b.to_owned());
    v.push(c.to_owned());
    proof {
        assert(texts(v@) =~= seq![a@, b@, c@]);
    }
    v
}

/// What a node of the given kind declares that was made of a configuration: the
/// name and the key flag of the configuration, step inputs and outputs, and choices.
pub open spec fn declared(
    c: NodeConfigView,
    node_type: NodeType,
    inputs: Seq<Seq<char>>,
    outputs: Seq<Seq<char>>,
    choices: Seq<Seq<char>>,
    reentrant: bool,
) -> NodeDecl {
    NodeDecl {
        name: c.node_name,
        node_type,
        inputs: step_params(inputs),
        outputs: step_params(outputs),
        choices,
        key_node: c.key_node,
        runable: true,
        reentrant,
    }
}

impl NodeCore {
    /// What a node with this core declares.
    pub open spec fn decl(self, node_type: NodeType, reentrant: bool) -> NodeDecl {
        NodeDecl {
            name: self.name@,
            node_type,
            inputs: self.input_params@,
            outputs: self.output_params@,
            choices: texts(self.choices@),
            key_node: self.config.key_node,
            runable: true,
            reentrant,
        }
    }

    /// The core of a node with step inputs and outputs.
    pub fn new(
        config: NodeConfig,
        inputs: Vec<String>,
        outputs: Vec<String>,
        choices: Vec<String>,
    ) -> (r: NodeCore)
        ensures
            r.config == config,
            r.name@ == config@.node_name,
            forall|t: NodeType, re: bool| #[trigger]
                r.decl(t, re) == declared(
                    config@,
                    t,
                    texts(inputs@),
                    texts(outputs@),
                    texts(choices@),
                    re,
                ),
    {
        NodeCore {
            name: config.node_name.clone(),
            input_params: make_step_params(&inputs),
            output_params: make_step_params(&outputs),
            choices,
            config,
        }
    }
}

// ---------------------------------------------------------------------------
// Polling
// ---------------------------------------------------------------------------

/// How far the run of a node has got.
#[derive(Debug)]
pub enum NodePoll {
    /// The node waits for its activation, an input or a message.
    Pending,
    /// The run is over, with this result.
    Done(Result<(), WorkflowError>),
}

/// How far the run of a node has got.
#[verifier::ext_equal]
pub enum NodePollView {
    Pending,
    Done(Result<(), ErrorView>),
}

impl View for NodePoll {
    type V = NodePollView;

    open spec fn view(&self) -> NodePollView {
        match self {
            NodePoll::Pending => NodePollView::Pending,
            NodePoll::Done(r) => NodePollView::Done(unit_view(*r)),
        }
    }
}

/// What a node that waits for an input finds.
#[derive(Debug)]
pub enum InputPoll {
    /// Nothing yet.
    Pending,
    /// An error.
    Failed(WorkflowError),
    /// The input, which can be absent.
    Got(Option<Json>),
}

/// What a node that waits for an input finds.
#[verifier::ext_equal]
pub enum InputPollView {
    Pending,
    Failed(ErrorView),
    Got(Option<JsonView>),
}

impl View for InputPoll {
    type V = InputPollView;

    open spec fn view(&self) -> InputPollView {
        match self {
            InputPoll::Pending => InputPollView::Pending,
            InputPoll::Failed(e) => InputPollView::Failed(e@),
            InputPoll::Got(Some(v)) => InputPollView::Got(Some(v@)),
            InputPoll::Got(None) => InputPollView::Got(None),
        }
    }
}

/// What a node that was triggered finds at an input, and whether it stays triggered.
pub open spec fn poll_source(
    w: WorkFlowView,
    map: Seq<(Seq<char>, Option<Seq<char>>)>,
    param: Seq<char>,
) -> (bool, InputPollView) {
    match input_value(Some(w), map, param) {
        Err(e) => (false, InputPollView::Failed(e)),
        Ok(InputView::Waiting) => (true, InputPollView::Pending),
        Ok(InputView::Absent) => (false, InputPollView::Got(None)),
        Ok(InputView::Ready(v)) => (false, InputPollView::Got(Some(v))),
    }
}

/// What a node finds that takes up its activation, unless it did before, and then
/// reads an input: the workflow, whether the node stays triggered, and the input.
pub open spec fn poll_input(
    w: WorkFlowView,
    triggered: bool,
    node: Seq<char>,
    map: Seq<(Seq<char>, Option<Seq<char>>)>,
    param: Seq<char>,
) -> (WorkFlowView, bool, InputPollView) {
    if triggered {
        (w, poll_source(w, map, param).0, poll_source(w, map, param).1)
    } else {
        let (taken, r) = w.take_activation(node);
        match r {
            Err(e) => (taken, false, InputPollView::Failed(e)),
            Ok(false) => (taken, false, InputPollView::Pending),
            Ok(true) => (taken, poll_source(taken, map, param).0, poll_source(taken, map, param).1),
        }
    }
}

/// Takes up a node's activation, unless that was done before, and reads an input.
pub fn await_input(
    node_name: &str,
    triggered: &mut bool,
    param: &str,
    input_map: &StringMap<InputSource>,
    workflow: &mut WorkFlow,
) -> (r: InputPoll)
    ensures
        ({
            let (w, t, v) = poll_input(
                old(workflow)@,
                *old(triggered),
                node_name@,
                input_map@,
                param@,
            );
            &&& final(workflow)@ == w
            &&& *final(triggered) == t
            &&& r@ == v
        }),
{
    if !*triggered {
        match workflow.wait_for_event(node_name) {
            Err(e) => {
                return InputPoll::Failed(e);
            },
            Ok(false) => {
                return InputPoll::Pending;
            },
            Ok(true) => {},
        }
    }
    let ctx = NodeContext::new(Some(&*workflow));
    match NodeHelper::get_input(param, input_map, &ctx) {
        Err(e) => {
            *triggered = false;
            InputPoll::Failed(e)
        },
        Ok(InputValue::Waiting) => {
            *triggered = true;
            InputPoll::Pending
        },
        Ok(InputValue::Absent) => {
            *triggered = false;
            InputPoll::Got(None)
        },
        Ok(InputValue::Ready(v)) => {
            *triggered = false;
            InputPoll::Got(Some(v))
        },
    }
}

/// Sets an output, unless an error came before.
pub open spec fn and_output(
    acc: (WorkFlowView, Result<(), ErrorView>),
    node: Seq<char>,
    param: Seq<char>,
    value: JsonView,
) -> (WorkFlowView, Result<(), ErrorView>) {
    match acc.1 {
        Ok(_) => acc.0.output(node, param, value),
        Err(e) => acc,
    }
}

/// Makes a choice, unless an error came before.
pub open spec fn and_choice(
    acc: (WorkFlowView, Result<(), ErrorView>),
    node: Seq<char>,
    choice: Seq<char>,
    map: Seq<(Seq<char>, Seq<char>)>,
    cancel: bool,
) -> (WorkFlowView, Result<(), ErrorView>) {
    match acc.1 {
        Ok(_) => {
            let (w, r) = acc.0.choice(node, choice, map, cancel);
            match r {
                Ok(_) => (w, Ok(())),
                Err(e) => (w, Err(e)),
            }
        },
        Err(e) => acc,
    }
}

impl NodeCore {
    /// Makes a choice of the node.
    pub fn make_choice(&self, choice: &str, cancel: bool, workflow: &mut WorkFlow) -> (r: Result<
        (),
        WorkflowError,
    >)
        ensures
            (final(workflow)@, unit_view(r)) == and_choice(
                (old(workflow)@, Ok(())),
                self.name@,
                choice@,
                self.config@.choice_map,
                cancel,
            ),
    {
        match NodeHelper::set_choice_with_policy(
            self.name.as_str(),
            choice,
            &self.config.choice_map,
            workflow,
            cancel,
        ) {
            Ok(_) => Ok(()),
            Err(e) => Err(e),
        }
    }

    /// Sets one output of the node and makes a choice.
    pub fn output_and_choose(
        &self,
        param: &str,
        value: Json,
        choice: &str,
        workflow: &mut WorkFlow,
    ) -> (r: Result<(), WorkflowError>)
        ensures
            (final(workflow)@, unit_view(r)) == and_choice(
                and_output((old(workflow)@, Ok(())), self.name@, param@, value@),
                self.name@,
                choice@,
                self.config@.choice_map,
                true,
            ),
    {
        match NodeHelper::set_output(self.name.as_str(), param, value, workflow) {
            Ok(()) => self.make_choice(choice, true, workflow),
            Err(e) => Err(e),
        }
    }
}

/// The end of a run whose outcome came from the host: a value is put out and `default` is
/// chosen, and an error is the error of the run.
pub open spec fn outcome_put_out(
    w: WorkFlowView,
    node: Seq<char>,
    param: Seq<char>,
    outcome: Result<JsonView, ErrorView>,
    map: Seq<(Seq<char>, Seq<char>)>,
) -> (WorkFlowView, Result<(), ErrorView>) {
    match outcome {
        Ok(v) => and_choice(
            and_output((w, Ok(())), node, param, v),
            node,
            "default"@,
            map,
            true,
        ),
        Err(e) => (w, Err(e)),
    }
}

// ---------------------------------------------------------------------------
// Laws
// ---------------------------------------------------------------------------

/// A value that came from the host is what readers of the node's output get, and the
/// workflow goes to the target of `default`; an error is the error of the run, which then
/// touches nothing.
pub proof fn outcome_is_read_or_fails(
    w: WorkFlowView,
    node: Seq<char>,
    param: Seq<char>,
    outcome: Result<JsonView, ErrorView>,
    map: Seq<(Seq<char>, Seq<char>)>,
)
    requires
        w.bus.wf(),
        assoc(w.bus.types, node + "."@ + param) == Some(ParameterType::Step),
    ensures
        ({
            let (after, r) = outcome_put_out(w, node, param, outcome, map);
            let target = assoc(map, "default"@);
            &&& outcome is Err ==> after == w && r == Err::<(), ErrorView>(outcome->Err_0)
            &&& outcome is Ok ==> {
                &&& after.bus.read(node + "."@ + param) == Ok::<Option<JsonView>, ErrorView>(
                    Some(outcome->Ok_0),
                )
                &&& r is Ok <==> target is Some && (target->0 == "finish"@ || assoc(
                    w.nodes,
                    target->0,
                ) is Some)
                &&& r is Ok ==> went_to(w, after, node, target->0) && cancelled_as_told(
                    w,
                    after,
                    map,
                    target->0,
                    true,
                )
                &&& after.context == w.context && after.memory == w.memory && after.messages
                    == w.messages
            }
        }),
{
    if let Ok(v) = outcome {
        output_is_read_and_choice_is_made(w, node, param, v, "default"@, map, true, node);
    }
}

/// The step parameters of a list of names are these names, each a step parameter.
pub proof fn step_parameters_are_the_names(names: Seq<Seq<char>>, name: Seq<char>)
    ensures
        assoc(step_params(names), name) == (if names.contains(name) {
            Some(ParameterType::Step)
        } else {
            None
        }),
        sorted(step_params(names)),
    decreases names.len(),
{
    if names.len() > 0 {
        let front = names.drop_last();
        step_parameters_are_the_names(front, name);
        assoc_after_insert(step_params(front), names.last(), ParameterType::Step, name);
        insert_keeps_sorted(step_params(front), names.last(), ParameterType::Step);
        if front.contains(name) {
            let i = choose|i: int| 0 <= i < front.len() && front[i] == name;
            assert(names[i] == name);
        }
        if names.contains(name) && name != names.last() {
            let i = choose|i: int| 0 <= i < names.len() && names[i] == name;
            assert(front[i] == name);
        }
        assert(names[names.len() - 1] == names.last());
    }
}

/// A node does nothing before it was activated. Once it was, it takes the activation up
/// and reads its input: it goes on with the value, or without one where the input has no
/// source, and waits, triggered, where the source has no value yet.
pub proof fn node_waits_for_activation_and_input(
    w: WorkFlowView,
    triggered: bool,
    node: Seq<char>,
    map: Seq<(Seq<char>, Option<Seq<char>>)>,
    param: Seq<char>,
    v: JsonView,
)
    requires
        assoc(w.nodes, node) is Some,
    ensures
        ({
            let active = assoc(w.nodes, node)->0.activated;
            let (after, t, p) = poll_input(w, triggered, node, map, param);
            let source = assoc(map, param);
            &&& !triggered && !active ==> after == w && !t && p == InputPollView::Pending
            &&& after.bus == w.bus && after.context == w.context && after.memory == w.memory
                && after.messages == w.messages && after.status == w.status && after.outbox
                == w.outbox
            &&& triggered ==> after == w
            &&& !triggered && active ==> !assoc(after.nodes, node)->0.activated && assoc(
                after.nodes,
                node,
            )->0.running
            &&& triggered || active ==> {
                &&& source is None ==> p is Failed && !t
                &&& source == Some(None::<Seq<char>>) ==> p == InputPollView::Got(None) && !t
                &&& source is Some && source->0 is Some ==> {
                    let read = source_value(w, source->0->0);
                    &&& read == Ok::<InputView, ErrorView>(InputView::Ready(v)) <==> p
                        == InputPollView::Got(Some(v))
                    &&& read == Ok::<InputView, ErrorView>(InputView::Waiting) <==> p
                        == InputPollView::Pending
                    &&& t <==> p == InputPollView::Pending
                    &&& read is Err <==> p is Failed
                }
            }
        }),
{
    activation_touches_one_node(w, node, node);
}

/// Whether a workflow went from a node to a target: it is finished at the node, or the
/// target is activated.
pub open spec fn went_to(
    before: WorkFlowView,
    after: WorkFlowView,
    node: Seq<char>,
    target: Seq<char>,
) -> bool {
    if target == "finish"@ {
        after.status == WorkflowStatus::Finished && after.finish_node == Some(node)
    } else {
        &&& after.status == before.status
        &&& after.finish_node == before.finish_node
        &&& assoc(before.nodes, target) is Some && assoc(after.nodes, target) is Some
        &&& !assoc(before.nodes, target)->0.running ==> assoc(after.nodes, target)->0.activated
    }
}

/// Whether the task of a node may be cancelled: the node has one, no activation waits for
/// it, and it is neither reentrant nor a key node.
pub open spec fn may_be_cancelled(w: WorkFlowView, name: Seq<char>) -> bool {
    &&& name != "finish"@
    &&& assoc(w.nodes, name) matches Some(info) && info.spawned && !info.activated
        && !info.reentrant && !info.key_node
}

/// Whether a name is that of another target of the choices whose task may be cancelled.
pub open spec fn is_other_target(
    w: WorkFlowView,
    map: Seq<(Seq<char>, Seq<char>)>,
    target: Seq<char>,
    name: Seq<char>,
) -> bool {
    &&& name != target
    &&& may_be_cancelled(w, name)
    &&& exists|k: int| 0 <= k < map.len() && (#[trigger] map[k]).1 == name
}

/// Whether a choice that went to a target left the other targets alone, or cancelled them
/// where that was asked for. The end of the workflow aborts more than the other targets.
pub open spec fn cancelled_as_told(
    before: WorkFlowView,
    after: WorkFlowView,
    map: Seq<(Seq<char>, Seq<char>)>,
    target: Seq<char>,
    cancel: bool,
) -> bool {
    let n = before.outbox.len() as int;
    &&& after.outbox.len() >= n
    &&& after.outbox.take(n) == before.outbox
    &&& target != "finish"@ ==> forall|i: int|
        n <= i < after.outbox.len() && (#[trigger] after.outbox[i]) is Abort ==> cancel
            && is_other_target(before, map, target, after.outbox[i]->Abort_0)
    &&& cancel ==> forall|name: Seq<char>| #[trigger]
        is_other_target(before, map, target, name) ==> after.outbox.skip(n).contains(
            EffectView::Abort(name),
        )
}

proof fn others_are_cancelled(
    w: WorkFlowView,
    map: Seq<(Seq<char>, Seq<char>)>,
    target: Seq<char>,
)
    ensures
        ({
            let after = cancel_others(w, map, target);
            let n = w.outbox.len() as int;
            &&& after.nodes == w.nodes
            &&& after.outbox.len() >= n
            &&& after.outbox.take(n) == w.outbox
            &&& forall|i: int|
                n <= i < after.outbox.len() ==> (#[trigger] after.outbox[i]) is Abort
                    && is_other_target(w, map, target, after.outbox[i]->Abort_0)
            &&& forall|name: Seq<char>| #[trigger]
                is_other_target(w, map, target, name) ==> after.outbox.skip(n).contains(
                    EffectView::Abort(name),
                )
        }),
    decreases map.len(),
{
    let n = w.outbox.len() as int;
    let after = cancel_others(w, map, target);
    if map.len() == 0 {
        assert(w.outbox.take(n) =~= w.outbox);
    } else {
        let front = map.drop_last();
        let last = map.last().1;
        let mid = cancel_others(w, front, target);
        others_are_cancelled(w, front, target);
        assert(map[map.len() - 1].1 == last);
        assert(after.outbox.take(n) =~= mid.outbox.take(n));
        assert forall|name: Seq<char>| is_other_target(w, front, target, name) implies
            #[trigger] is_other_target(w, map, target, name) by {
            let k = choose|k: int| 0 <= k < front.len() && (#[trigger] front[k]).1 == name;
            assert(map[k].1 == name);
        }
        assert forall|i: int| n <= i < after.outbox.len() implies (
        #[trigger] after.outbox[i]) is Abort && is_other_target(
            w,
            map,
            target,
            after.outbox[i]->Abort_0,
        ) by {
            if i < mid.outbox.len() {
                assert(after.outbox[i] == mid.outbox[i]);
                assert(is_other_target(w, front, target, mid.outbox[i]->Abort_0));
            }
        }
        assert forall|name: Seq<char>| #[trigger] is_other_target(
            w,
            map,
            target,
            name,
        ) implies after.outbox.skip(n).contains(EffectView::Abort(name)) by {
            if name == last {
                assert(after.outbox == mid.outbox.push(EffectView::Abort(name)));
                assert(after.outbox.skip(n)[after.outbox.len() - n - 1] == EffectView::Abort(name));
            } else {
                let k = choose|k: int| 0 <= k < map.len() && (#[trigger] map[k]).1 == name;
                assert(front[k].1 == name);
                assert(is_other_target(w, front, target, name));
                let i = choose|i: int|
                    0 <= i < mid.outbox.skip(n).len() && mid.outbox.skip(n)[i]
                        == EffectView::Abort(name);
                assert(after.outbox.skip(n)[i] == EffectView::Abort(name));
            }
        }
    }
}

/// A choice cancels the other targets exactly where it is told to: after effects none of
/// which aborts anything, a choice that succeeds aborts the tasks of the other targets that
/// may be cancelled, or none at all.
pub proof fn choice_cancels_as_told(
    before: WorkFlowView,
    w: WorkFlowView,
    node: Seq<char>,
    choice: Seq<char>,
    map: Seq<(Seq<char>, Seq<char>)>,
    cancel: bool,
)
    requires
        w.nodes == before.nodes,
        w.outbox.len() >= before.outbox.len(),
        w.outbox.take(before.outbox.len() as int) == before.outbox,
        forall|i: int|
            before.outbox.len() <= i < w.outbox.len() ==> !((#[trigger] w.outbox[i]) is Abort),
    ensures
        w.choice(node, choice, map, cancel).1 is Ok ==> cancelled_as_told(
            before,
            w.choice(node, choice, map, cancel).0,
            map,
            assoc(map, choice)->0,
            cancel,
        ),
{
    let n = before.outbox.len() as int;
    let (after, r) = w.choice(node, choice, map, cancel);
    if r is Ok {
        let target = assoc(map, choice)->0;
        let chosen = w.go_to(node, target).0;
        assert(chosen.outbox.take(n) =~= before.outbox) by {
            assert forall|i: int| 0 <= i < n implies chosen.outbox[i] == before.outbox[i] by {
                assert(w.outbox.take(n)[i] == before.outbox[i]);
                assert(chosen.outbox[i] == w.outbox[i]);
            }
        }
        assert forall|name: Seq<char>| name != target implies #[trigger] assoc(chosen.nodes, name)
            == assoc(before.nodes, name) by {
            activation_touches_one_node(w, target, name);
        }
        assert forall|name: Seq<char>| #[trigger] is_other_target(before, map, target, name)
            == is_other_target(chosen, map, target, name) by {
            if name != target {
                assert(assoc(chosen.nodes, name) == assoc(before.nodes, name));
            }
        }
        others_are_cancelled(chosen, map, target);
        assert(after.outbox.take(n) =~= before.outbox) by {
            assert forall|i: int| 0 <= i < n implies after.outbox[i] == before.outbox[i] by {
                assert(chosen.outbox.take(n)[i] == before.outbox[i]);
                if cancel {
                    assert(after.outbox.take(chosen.outbox.len() as int)[i] == chosen.outbox[i]);
                }
            }
        }
        if target != "finish"@ {
            assert forall|i: int|
                n <= i < after.outbox.len() && (#[trigger] after.outbox[i]) is Abort
                implies cancel && is_other_target(
                before,
                map,
                target,
                after.outbox[i]->Abort_0,
            ) by {
                if i < chosen.outbox.len() {
                    if cancel {
                        assert(after.outbox.take(chosen.outbox.len() as int)[i]
                            == chosen.outbox[i]);
                    }
                    if i < w.outbox.len() {
                        assert(chosen.outbox[i] == w.outbox[i]);
                    }
                } else {
                    assert(is_other_target(chosen, map, target, after.outbox[i]->Abort_0));
                    assert(is_other_target(before, map, target, after.outbox[i]->Abort_0));
                }
            }
        }
        if cancel {
            assert forall|name: Seq<char>| #[trigger] is_other_target(
                before,
                map,
                target,
                name,
            ) implies after.outbox.skip(n).contains(EffectView::Abort(name)) by {
                assert(is_other_target(chosen, map, target, name));
                let m = chosen.outbox.len() as int;
                let part = after.outbox.skip(m);
                let i = choose|i: int| 0 <= i < part.len() && part[i] == EffectView::Abort(name);
                assert(after.outbox.skip(n)[i + m - n] == EffectView::Abort(name));
            }
        }
    }
}

/// Whom a choice cancels depends on the nodes and the effects alone.
pub proof fn nodes_decide_who_is_cancelled(
    a: WorkFlowView,
    b: WorkFlowView,
    after: WorkFlowView,
    map: Seq<(Seq<char>, Seq<char>)>,
    target: Seq<char>,
    cancel: bool,
)
    requires
        a.nodes == b.nodes,
        a.outbox == b.outbox,
        cancelled_as_told(a, after, map, target, cancel),
    ensures
        cancelled_as_told(b, after, map, target, cancel),
{
    assert forall|name: Seq<char>| #[trigger] is_other_target(b, map, target, name)
        == is_other_target(a, map, target, name) by {}
}

/// A node that puts a value out and chooses: the value is what readers of its output get,
/// the workflow goes to the target of the choice, and nothing else that nodes read changes.
/// Where the choice has no target, the run fails.
pub proof fn output_is_read_and_choice_is_made(
    w: WorkFlowView,
    node: Seq<char>,
    param: Seq<char>,
    value: JsonView,
    choice: Seq<char>,
    map: Seq<(Seq<char>, Seq<char>)>,
    cancel: bool,
    other: Seq<char>,
)
    requires
        w.bus.wf(),
        assoc(w.bus.types, node + "."@ + param) == Some(ParameterType::Step),
    ensures
        ({
            let key = node + "."@ + param;
            let (after, r) = and_choice(
                and_output((w, Ok(())), node, param, value),
                node,
                choice,
                map,
                cancel,
            );
            let target = assoc(map, choice);
            &&& after.bus.wf()
            &&& after.bus.types == w.bus.types
            &&& after.bus.read(key) == Ok::<Option<JsonView>, ErrorView>(Some(value))
            &&& other != key ==> after.bus.read(other) == w.bus.read(other)
            &&& r is Ok <==> target is Some && (target->0 == "finish"@ || assoc(
                w.nodes,
                target->0,
            ) is Some)
            &&& r is Ok ==> went_to(w, after, node, target->0) && cancelled_as_told(
                w,
                after,
                map,
                target->0,
                cancel,
            )
            &&& after.context == w.context && after.memory == w.memory && after.messages
                == w.messages
        }),
{
    let key = node + "."@ + param;
    let mid = w.output(node, param, value).0;
    step_output_is_read(w, node, param, value, other);
    bus_stays_well_formed(w.bus, key, ParameterType::Step, value, node);
    choice_goes_where_the_map_leads(mid, node, choice, map, cancel);
    assert(mid.outbox.take(w.outbox.len() as int) =~= w.outbox);
    choice_cancels_as_told(w, mid, node, choice, map, cancel);
    if let Some(target) = assoc(map, choice) {
        activation_touches_one_node(mid, target, target);
        if assoc(mid.nodes, target) is Some && assoc(mid.nodes, target)->0.running {
            crate::workflow::running_node_ignores_activation(mid, target);
        }
    }
}

/// Parameters of one node with different names have different keys.
pub proof fn keys_differ_by_name(node: Seq<char>, a: Seq<char>, b: Seq<char>)
    requires
        a != b,
    ensures
        node + "."@ + a != node + "."@ + b,
{
    let head = node + "."@;
    assert((head + a).skip(head.len() as int) =~= a);
    assert((head + b).skip(head.len() as int) =~= b);
}

/// A node that puts two values out and chooses: each is what readers of its output get, and
/// the workflow goes to the target of the choice.
pub proof fn two_outputs_are_read_and_choice_is_made(
    w: WorkFlowView,
    node: Seq<char>,
    first: (Seq<char>, JsonView),
    second: (Seq<char>, JsonView),
    choice: Seq<char>,
    map: Seq<(Seq<char>, Seq<char>)>,
    cancel: bool,
)
    requires
        w.bus.wf(),
        first.0 != second.0,
        assoc(w.bus.types, node + "."@ + first.0) == Some(ParameterType::Step),
        assoc(w.bus.types, node + "."@ + second.0) == Some(ParameterType::Step),
    ensures
        ({
            let (after, r) = and_choice(
                and_output(
                    and_output((w, Ok(())), node, first.0, first.1),
                    node,
                    second.0,
                    second.1,
                ),
                node,
                choice,
                map,
                cancel,
            );
            let target = assoc(map, choice);
            &&& after.bus.read(node + "."@ + first.0) == Ok::<Option<JsonView>, ErrorView>(
                Some(first.1),
            )
            &&& after.bus.read(node + "."@ + second.0) == Ok::<Option<JsonView>, ErrorView>(
                Some(second.1),
            )
            &&& r is Ok <==> target is Some && (target->0 == "finish"@ || assoc(
                w.nodes,
                target->0,
            ) is Some)
            &&& r is Ok ==> went_to(w, after, node, target->0) && cancelled_as_told(
                w,
                after,
                map,
                target->0,
                cancel,
            )
            &&& after.context == w.context && after.memory == w.memory && after.messages
                == w.messages
        }),
{
    let a = node + "."@ + first.0;
    let b = node + "."@ + second.0;
    keys_differ_by_name(node, first.0, second.0);
    let mid = w.output(node, first.0, first.1).0;
    step_output_is_read(w, node, first.0, first.1, b);
    bus_stays_well_formed(w.bus, a, ParameterType::Step, first.1, node);
    output_is_read_and_choice_is_made(mid, node, second.0, second.1, choice, map, cancel, a);
    let ready = mid.output(node, second.0, second.1).0;
    step_output_is_read(mid, node, second.0, second.1, a);
    assert(ready.outbox.take(w.outbox.len() as int) =~= w.outbox);
    choice_cancels_as_told(w, ready, node, choice, map, cancel);
}

} // verus!
