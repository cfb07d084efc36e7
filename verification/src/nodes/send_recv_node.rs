//! The node that exchanges messages with the host.
use vstd::prelude::*;

use crate::error::{unit_view, ErrorView, WorkflowError};
use crate::llm::{closed_channel, send_error, SendOutcome};
use crate::node::base::{
    source_value, BaseNode, InputView, NodeConfig, NodeConfigView, NodeContext, NodeDecl, NodeType,
};
use crate::nodes::{
    and_choice, and_output, await_input, cancelled_as_told, declared,
    nodes_decide_who_is_cancelled, one, output_is_read_and_choice_is_made, poll_source, went_to,
    InputPoll, InputPollView, NodeCore,
};
use crate::parameter_bus::ParameterType;
use crate::string_map::{assoc, StringMap};
use crate::text::{cat2, text_eq};
use crate::value::{Json, JsonView};
use crate::workflow::{WorkFlow, WorkFlowView};

verus! {

/// Where the run of the node stands.
#[derive(Debug)]
pub enum ExchangeStage {
    /// The node waits for its activation.
    Idle,
    /// The node waits for its input.
    Ready,
    /// The value is being sent.
    Sending(Json),
    /// The node waits for a message.
    Receiving,
}

/// Where the run of the node stands.
#[verifier::ext_equal]
pub enum ExchangeStageView {
    Idle,
    Ready,
    Sending(JsonView),
    Receiving,
}

impl View for ExchangeStage {
    type V = ExchangeStageView;

    open spec fn view(&self) -> ExchangeStageView {
        match self {
            ExchangeStage::Idle => ExchangeStageView::Idle,
            ExchangeStage::Ready => ExchangeStageView::Ready,
            ExchangeStage::Sending(v) => ExchangeStageView::Sending(v@),
            ExchangeStage::Receiving => ExchangeStageView::Receiving,
        }
    }
}

/// How far the run of the node has got.
#[derive(Debug)]
pub enum ExchangePoll {
    /// The node waits.
    Pending,
    /// The value has to be sent to the host, where the host takes values.
    Send(Json),
    /// The run is over, with this result.
    Done(Result<(), WorkflowError>),
}

/// How far the run of the node has got.
#[verifier::ext_equal]
pub enum ExchangePollView {
    Pending,
    Send(JsonView),
    Done(Result<(), ErrorView>),
}

impl View for ExchangePoll {
    type V = ExchangePollView;

    open spec fn view(&self) -> ExchangePollView {
        match self {
            ExchangePoll::Pending => ExchangePollView::Pending,
            ExchangePoll::Send(v) => ExchangePollView::Send(v@),
            ExchangePoll::Done(r) => ExchangePollView::Done(unit_view(*r)),
        }
    }
}

/// The workflow, where the node stands, and how far it got.
#[verifier::ext_equal]
pub struct ExchangeView {
    pub workflow: WorkFlowView,
    pub stage: ExchangeStageView,
    pub poll: ExchangePollView,
}

/// The attribute `mode`; without it, the node receives.
pub open spec fn mode_of(c: NodeConfigView) -> Seq<char> {
    match c.text_attr("mode"@) {
        Some(m) => m,
        None => "recv"@,
    }
}

/// The end of a run: the value is put out.
pub open spec fn exchange_over(
    c: NodeConfigView,
    name: Seq<char>,
    w: WorkFlowView,
    value: JsonView,
) -> ExchangeView {
    let (after, r) = and_choice(
        and_output((w, Ok(())), name, "output"@, value),
        name,
        "default"@,
        c.choice_map,
        true,
    );
    ExchangeView {
        workflow: after,
        stage: ExchangeStageView::Idle,
        poll: ExchangePollView::Done(r),
    }
}

/// A run that failed.
pub open spec fn exchange_failed(w: WorkFlowView, e: ErrorView) -> ExchangeView {
    ExchangeView {
        workflow: w,
        stage: ExchangeStageView::Idle,
        poll: ExchangePollView::Done(Err(e)),
    }
}

/// A node that takes the next message, or waits for it.
pub open spec fn exchange_receive(c: NodeConfigView, name: Seq<char>, w: WorkFlowView) -> ExchangeView {
    match w.take_message() {
        (after, Some(v)) => exchange_over(c, name, after, v),
        (after, None) => ExchangeView {
            workflow: after,
            stage: ExchangeStageView::Receiving,
            poll: ExchangePollView::Pending,
        },
    }
}

/// A node that was triggered.
pub open spec fn exchange_ready(c: NodeConfigView, name: Seq<char>, w: WorkFlowView) -> ExchangeView {
    let mode = mode_of(c);
    if mode == "recv"@ {
        exchange_receive(c, name, w)
    } else if mode == "send"@ || mode == "send_recv"@ {
        match poll_source(w, c.input_map, "input"@).1 {
            InputPollView::Pending => ExchangeView {
                workflow: w,
                stage: ExchangeStageView::Ready,
                poll: ExchangePollView::Pending,
            },
            InputPollView::Failed(e) => exchange_failed(w, e),
            InputPollView::Got(v) => {
                let value = match v {
                    Some(v) => v,
                    None => JsonView::Null,
                };
                ExchangeView {
                    workflow: w,
                    stage: ExchangeStageView::Sending(value),
                    poll: ExchangePollView::Send(value),
                }
            },
        }
    } else {
        exchange_failed(w, ErrorView::ConfigError("unsupported send_recv mode: "@ + mode))
    }
}

/// What the node does when it is run.
pub open spec fn exchange_run(
    c: NodeConfigView,
    name: Seq<char>,
    w: WorkFlowView,
    stage: ExchangeStageView,
) -> ExchangeView {
    match stage {
        ExchangeStageView::Idle => {
            let (taken, r) = w.take_activation(name);
            match r {
                Err(e) => exchange_failed(taken, e),
                Ok(false) => ExchangeView {
                    workflow: taken,
                    stage,
                    poll: ExchangePollView::Pending,
                },
                Ok(true) => exchange_ready(c, name, taken),
            }
        },
        ExchangeStageView::Ready => exchange_ready(c, name, w),
        ExchangeStageView::Sending(v) => ExchangeView {
            workflow: w,
            stage,
            poll: ExchangePollView::Send(v),
        },
        ExchangeStageView::Receiving => exchange_receive(c, name, w),
    }
}

/// What the node does once its value was sent: a node that also receives waits for
/// a message, and another puts the value out.
pub open spec fn exchange_sent(
    c: NodeConfigView,
    name: Seq<char>,
    w: WorkFlowView,
    value: JsonView,
    outcome: SendOutcome,
) -> ExchangeView {
    match send_error(outcome) {
        Some(e) => exchange_failed(w, e),
        None => if mode_of(c) == "send_recv"@ {
            exchange_receive(c, name, w)
        } else {
            exchange_over(c, name, w, value)
        },
    }
}

/// A node that sends its input to the host, receives a message from it, or both.
#[derive(Debug)]
pub struct SendRecvNode {
    pub core: NodeCore,
}

impl SendRecvNode {
    /// The node that a configuration describes.
    pub fn new(config: NodeConfig, _ctx: NodeContext) -> (r: Result<SendRecvNode, WorkflowError>)
        ensures
            match r {
                Ok(node) => {
                    &&& node.core.config == config
                    &&& node.core.name@ == config@.node_name
                    &&& node.decl() == declared(
                        config@,
                        NodeType::Step,
                        seq!["input"@],
                        seq!["output"@],
                        seq!["default"@],
                        true,
                    )
                },
                Err(_) => false,
            },
    {
        Ok(
            SendRecvNode {
                core: NodeCore::new(config, one("input"), one("output"), one("default")),
            },
        )
    }

    /// The mode of the node.
    pub fn mode(&self) -> (r: String)
        ensures
            r@ == mode_of(self.core.config@),
    {
        match self.core.config.text_attr("mode") {
            Some(m) => m.to_owned(),
            None => "recv".to_owned(),
        }
    }

    fn over(&self, value: Json, workflow: &mut WorkFlow) -> (p: ExchangePoll)
        ensures
            ({
                let v = exchange_over(self.core.config@, self.core.name@, old(workflow)@, value@);
                final(workflow)@ == v.workflow && p@ == v.poll
            }),
    {
        ExchangePoll::Done(self.core.output_and_choose("output", value, "default", workflow))
    }

    fn receive(&self, workflow: &mut WorkFlow) -> (r: (ExchangeStage, ExchangePoll))
        ensures
            ({
                let v = exchange_receive(self.core.config@, self.core.name@, old(workflow)@);
                final(workflow)@ == v.workflow && r.0@ == v.stage && r.1@ == v.poll
            }),
    {
        match workflow.get_message() {
            Some(v) => {
                let p = self.over(v, workflow);
                (ExchangeStage::Idle, p)
            },
            None => (ExchangeStage::Receiving, ExchangePoll::Pending),
        }
    }

    fn ready(&self, workflow: &mut WorkFlow) -> (r: (ExchangeStage, ExchangePoll))
        ensures
            ({
                let v = exchange_ready(self.core.config@, self.core.name@, old(workflow)@);
                final(workflow)@ == v.workflow && r.0@ == v.stage && r.1@ == v.poll
            }),
    {
        let mode = self.mode();
        if text_eq(mode.as_str(), "recv") {
            self.receive(workflow)
        } else if text_eq(mode.as_str(), "send") || text_eq(mode.as_str(), "send_recv") {
            let mut triggered: bool = true;
            match await_input(
                self.core.name.as_str(),
                &mut triggered,
                "input",
                &self.core.config.input_map,
                workflow,
            ) {
                InputPoll::Pending => (ExchangeStage::Ready, ExchangePoll::Pending),
                InputPoll::Failed(e) => (ExchangeStage::Idle, ExchangePoll::Done(Err(e))),
                InputPoll::Got(v) => {
                    let value = match v {
                        Some(v) => v,
                        None => Json::Null,
                    };
                    let sent = value.copy();
                    (ExchangeStage::Sending(value), ExchangePoll::Send(sent))
                },
            }
        } else {
            (
                ExchangeStage::Idle,
                ExchangePoll::Done(
                    Err(
                        WorkflowError::ConfigError(
                            cat2("unsupported send_recv mode: ", mode.as_str()),
                        ),
                    ),
                ),
            )
        }
    }

    /// Runs the node as far as it gets.
    pub fn run(&self, stage: &mut ExchangeStage, workflow: &mut WorkFlow) -> (p: ExchangePoll)
        ensures
            ({
                let v = exchange_run(
                    self.core.config@,
                    self.core.name@,
                    old(workflow)@,
                    old(stage)@,
                );
                final(workflow)@ == v.workflow && final(stage)@ == v.stage && p@ == v.poll
            }),
    {
        let (next, p) = match &*stage {
            ExchangeStage::Idle => match workflow.wait_for_event(self.core.name.as_str()) {
                Err(e) => (ExchangeStage::Idle, ExchangePoll::Done(Err(e))),
                Ok(false) => (ExchangeStage::Idle, ExchangePoll::Pending),
                Ok(true) => self.ready(workflow),
            },
            ExchangeStage::Ready => self.ready(workflow),
            ExchangeStage::Sending(v) => (
                ExchangeStage::Sending(v.copy()),
                ExchangePoll::Send(v.copy()),
            ),
            ExchangeStage::Receiving => self.receive(workflow),
        };
        *stage = next;
        p
    }

    /// Goes on after the value that was to be sent was sent, or could not be.
    pub fn sent(
        &self,
        outcome: &SendOutcome,
        stage: &mut ExchangeStage,
        workflow: &mut WorkFlow,
    ) -> (p: ExchangePoll)
        requires
            old(stage)@ is Sending,
        ensures
            ({
                let v = exchange_sent(
                    self.core.config@,
                    self.core.name@,
                    old(workflow)@,
                    old(stage)@->Sending_0,
                    *outcome,
                );
                final(workflow)@ == v.workflow && final(stage)@ == v.stage && p@ == v.poll
            }),
    {
        let mut was = ExchangeStage::Idle;
        core::mem::swap(&mut was, stage);
        if let Some(e) = closed_channel(outcome) {
            return ExchangePoll::Done(Err(e));
        }
        let mode = self.mode();
        if text_eq(mode.as_str(), "send_recv") {
            let (next, p) = self.receive(workflow);
            *stage = next;
            p
        } else {
            let value = match was {
                ExchangeStage::Sending(value) => value,
                _ => Json::Null,
            };
            self.over(value, workflow)
        }
    }
}

impl BaseNode for SendRecvNode {
    open spec fn decl(&self) -> NodeDecl {
        self.core.decl(NodeType::Step, true)
    }

    fn name(&self) -> (r: &str) {
        self.core.name.as_str()
    }

    fn node_type(&self) -> (r: NodeType) {
        NodeType::Step
    }

    fn input_parameters(&self) -> (r: &StringMap<ParameterType>) {
        &self.core.input_params
    }

    fn output_parameters(&self) -> (r: &StringMap<ParameterType>) {
        &self.core.output_params
    }

    fn choices(&self) -> (r: &Vec<String>) {
        &self.core.choices
    }

    fn is_key_node(&self) -> (r: bool) {
        self.core.config.key_node
    }

    fn runable(&self) -> (r: bool) {
        true
    }

    fn is_reentrant(&self) -> (r: bool) {
        true
    }
}

// ---------------------------------------------------------------------------
// Laws
// ---------------------------------------------------------------------------

/// The mode of a node is the configured text, and receiving without one.
pub proof fn mode_is_the_configured_one(c: NodeConfigView, mode: Seq<char>)
    ensures
        assoc(c.attrs, "mode"@) == Some(JsonView::Text(mode)) ==> mode_of(c) == mode,
        !(assoc(c.attrs, "mode"@) matches Some(JsonView::Text(_))) ==> mode_of(c) == "recv"@,
{
}

/// A node that receives takes the oldest message, puts it out and goes to the target of
/// `default`; the other messages stay. Without a message it waits and changes nothing.
pub proof fn oldest_message_is_put_out(c: NodeConfigView, name: Seq<char>, w: WorkFlowView)
    requires
        w.bus.wf(),
        assoc(w.bus.types, name + "."@ + "output"@) == Some(ParameterType::Step),
    ensures
        ({
            let e = exchange_receive(c, name, w);
            let target = assoc(c.choice_map, "default"@);
            &&& w.messages.len() == 0 ==> e.workflow == w && e.stage
                == ExchangeStageView::Receiving && e.poll == ExchangePollView::Pending
            &&& w.messages.len() > 0 ==> {
                &&& e.workflow.bus.read(name + "."@ + "output"@) == Ok::<
                    Option<JsonView>,
                    ErrorView,
                >(Some(w.messages[0]))
                &&& w.messages == seq![w.messages[0]] + e.workflow.messages
                &&& e.stage == ExchangeStageView::Idle
                &&& e.poll matches ExchangePollView::Done(r) && (r is Ok <==> target is Some && (
                target->0 == "finish"@ || assoc(w.nodes, target->0) is Some)) && (r is Ok
                    ==> went_to(w, e.workflow, name, target->0) && cancelled_as_told(
                    w,
                    e.workflow,
                    c.choice_map,
                    target->0,
                    true,
                ))
            }
        }),
{
    crate::workflow::messages_wait_in_line(w, JsonView::Null);
    if w.messages.len() > 0 {
        let taken = w.take_message().0;
        output_is_read_and_choice_is_made(
            taken,
            name,
            "output"@,
            w.messages[0],
            "default"@,
            c.choice_map,
            true,
            name,
        );
        let e = exchange_receive(c, name, w);
        if e.poll matches ExchangePollView::Done(r) && r is Ok {
            let target = assoc(c.choice_map, "default"@)->0;
            nodes_decide_who_is_cancelled(taken, w, e.workflow, c.choice_map, target, true);
        }
    }
}

/// Which way a node goes once it was triggered: in the mode `recv` it receives; in the
/// modes `send` and `send_recv` it hands its input to the host, null where it has none, and
/// waits while the input has no value; any other mode fails. A node that was not activated
/// does nothing.
pub proof fn mode_decides(
    c: NodeConfigView,
    name: Seq<char>,
    w: WorkFlowView,
    source: Seq<char>,
    input: JsonView,
)
    requires
        assoc(w.nodes, name) is Some,
    ensures
        ({
            let idle = exchange_run(c, name, w, ExchangeStageView::Idle);
            let ready = exchange_run(c, name, w, ExchangeStageView::Ready);
            let mode = mode_of(c);
            let sends = mode == "send"@ || mode == "send_recv"@;
            &&& !assoc(w.nodes, name)->0.activated ==> idle == (ExchangeView {
                workflow: w,
                stage: ExchangeStageView::Idle,
                poll: ExchangePollView::Pending,
            })
            &&& assoc(w.nodes, name)->0.activated ==> idle == exchange_run(
                c,
                name,
                w.take_activation(name).0,
                ExchangeStageView::Ready,
            )
            &&& mode == "recv"@ ==> ready == exchange_receive(c, name, w)
            &&& sends && assoc(c.input_map, "input"@) == Some(Some(source)) && source_value(
                w,
                source,
            ) == Ok::<InputView, ErrorView>(InputView::Ready(input)) ==> ready == (ExchangeView {
                workflow: w,
                stage: ExchangeStageView::Sending(input),
                poll: ExchangePollView::Send(input),
            })
            &&& sends && assoc(c.input_map, "input"@) == Some(None::<Seq<char>>) ==> ready.poll
                == ExchangePollView::Send(JsonView::Null)
            &&& sends && assoc(c.input_map, "input"@) == Some(Some(source)) && source_value(
                w,
                source,
            ) == Ok::<InputView, ErrorView>(InputView::Waiting) ==> ready == (ExchangeView {
                workflow: w,
                stage: ExchangeStageView::Ready,
                poll: ExchangePollView::Pending,
            })
            &&& mode != "recv"@ && !sends ==> ready.workflow == w && (ready.poll matches
                ExchangePollView::Done(r) && r is Err)
            &&& exchange_run(c, name, w, ExchangeStageView::Receiving) == exchange_receive(
                c,
                name,
                w,
            )
        }),
{
    crate::workflow::activation_touches_one_node(w, name, name);
    reveal_strlit("recv");
    reveal_strlit("send");
    reveal_strlit("send_recv");
    assert("recv"@[0] != "send"@[0]);
    assert("recv"@.len() != "send_recv"@.len());
}

/// Once a value was sent, a node in the mode `send` puts it out, and a node in the mode
/// `send_recv` receives; where the channel is closed the run fails, says so, and touches
/// nothing.
pub proof fn sent_value_is_put_out_or_answered(
    c: NodeConfigView,
    name: Seq<char>,
    w: WorkFlowView,
    value: JsonView,
    text: String,
)
    requires
        w.bus.wf(),
        assoc(w.bus.types, name + "."@ + "output"@) == Some(ParameterType::Step),
    ensures
        ({
            let sent = exchange_sent(c, name, w, value, SendOutcome::Sent);
            let closed = exchange_sent(c, name, w, value, SendOutcome::Closed(text));
            let target = assoc(c.choice_map, "default"@);
            &&& mode_of(c) == "send"@ ==> {
                &&& sent.workflow.bus.read(name + "."@ + "output"@) == Ok::<
                    Option<JsonView>,
                    ErrorView,
                >(Some(value))
                &&& sent.workflow.messages == w.messages
                &&& sent.stage == ExchangeStageView::Idle
                &&& sent.poll matches ExchangePollView::Done(r) && (r is Ok ==> target is Some
                    && went_to(w, sent.workflow, name, target->0) && cancelled_as_told(
                    w,
                    sent.workflow,
                    c.choice_map,
                    target->0,
                    true,
                ))
            }
            &&& mode_of(c) == "send_recv"@ ==> sent == exchange_receive(c, name, w)
            &&& closed.workflow == w && closed.poll == ExchangePollView::Done(
                Err(ErrorView::Other("outbound channel closed: "@ + text@)),
            )
        }),
{
    reveal_strlit("send");
    reveal_strlit("send_recv");
    assert("send"@.len() != "send_recv"@.len());
    output_is_read_and_choice_is_made(
        w,
        name,
        "output"@,
        value,
        "default"@,
        c.choice_map,
        true,
        name,
    );
}

/// A mode that the node does not know is an error that names the mode.
pub proof fn unknown_mode_is_named(c: NodeConfigView, name: Seq<char>, w: WorkFlowView)
    requires
        mode_of(c) != "recv"@,
        mode_of(c) != "send"@,
        mode_of(c) != "send_recv"@,
    ensures
        exchange_run(c, name, w, ExchangeStageView::Ready).poll == ExchangePollView::Done(
            Err::<(), ErrorView>(
                ErrorView::ConfigError("unsupported send_recv mode: "@ + mode_of(c)),
            ),
        ),
{
}

} // verus!
