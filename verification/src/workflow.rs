//! A workflow: its nodes, its parameters, its context and its run.
//!
//! A workflow never waits and never starts a task by itself. Where one of its
//! operations has to reach the outside, it puts an [`Effect`] into its outbox, and
//! whoever drives the workflow carries the effects out in order.
use vstd::prelude::*;

use crate::context_sync::{text_option, ContextSyncManager, SyncView};
use crate::error::{option_view, result_view, unit_view, ErrorView, WorkflowError};
use crate::node::base::{BaseNode, NodeDecl};
use crate::parameter_bus::{
    bus_stays_well_formed, consumers, param_key, published, recipients_are_the_consumers,
    setting_changes_one_parameter, BusView, ParameterBus, ParameterType,
};
use crate::string_map::{
    assoc, assoc_insert, assoc_of_entry, assoc_update, keys_of, sorted, StringMap,
};
use crate::text::{cat3, text_eq, texts};
use crate::value::{json_views, Json, JsonView};

verus! {

/// The state of a workflow.
#[derive(Clone, Copy, Debug, PartialEq, Eq, Structural)]
pub enum WorkflowStatus {
    /// Without nodes.
    Init,
    /// Ready to run.
    Ready,
    /// Running.
    Running,
    /// A node has chosen to finish.
    Finished,
}

impl WorkflowStatus {
    /// The name of the variant.
    pub open spec fn variant(self) -> Seq<char> {
        match self {
            WorkflowStatus::Init => "Init"@,
            WorkflowStatus::Ready => "Ready"@,
            WorkflowStatus::Running => "Running"@,
            WorkflowStatus::Finished => "Finished"@,
        }
    }

    pub fn variant_text(self) -> (r: &'static str)
        ensures
            r@ == self.variant(),
    {
        match self {
            WorkflowStatus::Init => "Init",
            WorkflowStatus::Ready => "Ready",
            WorkflowStatus::Running => "Running",
            WorkflowStatus::Finished => "Finished",
        }
    }
}

/// What the workflow knows of a node.
#[derive(Clone, Copy, Debug)]
pub struct NodeInfo {
    /// The node is never cancelled.
    pub key_node: bool,
    /// The node waits for the next activation after each run.
    pub reentrant: bool,
    /// The node gets a task when the workflow runs.
    pub runable: bool,
    /// The node was activated and has not taken it up.
    pub activated: bool,
    /// The node has taken up an activation and has not ended its run.
    pub running: bool,
    /// The node has a task that can be aborted.
    pub spawned: bool,
    /// How many runs have completed, modulo 2^64.
    pub completed_count: u64,
    /// How many activations came while the node was running, modulo 2^64.
    pub ignored_count: u64,
}

impl View for NodeInfo {
    type V = NodeInfo;

    open spec fn view(&self) -> NodeInfo {
        *self
    }
}

impl NodeInfo {
    /// A node that was just added.
    pub open spec fn fresh(decl: NodeDecl) -> NodeInfo {
        NodeInfo {
            key_node: decl.key_node,
            reentrant: decl.reentrant,
            runable: decl.runable,
            activated: false,
            running: false,
            spawned: false,
            completed_count: 0,
            ignored_count: 0,
        }
    }

    /// Whether the end of the workflow aborts the node's task: the task only waits, and
    /// the node is no key node.
    pub open spec fn is_inactive(self) -> bool {
        !self.key_node && !self.activated && !self.running && self.spawned
    }

    /// Whether cancelling the node aborts its task: no activation waits to be taken up,
    /// and the node is neither reentrant nor a key node. A node that took its activation
    /// up and runs is cancelled too.
    pub open spec fn can_cancel(self) -> bool {
        !self.reentrant && !self.key_node && !self.activated && self.spawned
    }
}

/// Something that has to be done outside the workflow.
#[derive(Debug)]
pub enum Effect {
    /// Start a task that runs the node.
    Spawn(String),
    /// Wake the node if it waits for its activation.
    Activated(String),
    /// Wake those who wait for the step parameter with this key.
    Written(String),
    /// Send a value of the stream parameter with this key to a consumer.
    Deliver { key: String, consumer: String, value: Json },
    /// Wake the node that waits for an outside message.
    Queued,
    /// Abort the task of the node.
    Abort(String),
}

/// What an effect holds.
#[verifier::ext_equal]
pub enum EffectView {
    Spawn(Seq<char>),
    Activated(Seq<char>),
    Written(Seq<char>),
    Deliver { key: Seq<char>, consumer: Seq<char>, value: JsonView },
    Queued,
    Abort(Seq<char>),
}

impl View for Effect {
    type V = EffectView;

    open spec fn view(&self) -> EffectView {
        match self {
            Effect::Spawn(s) => EffectView::Spawn(s@),
            Effect::Activated(s) => EffectView::Activated(s@),
            Effect::Written(s) => EffectView::Written(s@),
            Effect::Deliver { key, consumer, value } => EffectView::Deliver {
                key: key@,
                consumer: consumer@,
                value: value@,
            },
            Effect::Queued => EffectView::Queued,
            Effect::Abort(s) => EffectView::Abort(s@),
        }
    }
}

/// The views of a list of effects.
pub open spec fn effect_views(v: Seq<Effect>) -> Seq<EffectView> {
    Seq::new(v.len(), |i: int| v[i]@)
}

/// A workflow.
#[derive(Debug)]
pub struct WorkFlow {
    pub name: String,
    pub parameter_bus: ParameterBus,
    pub nodes: StringMap<NodeInfo>,
    pub start_node_name: Option<String>,
    pub status: WorkflowStatus,
    pub context: StringMap<Json>,
    pub memory: StringMap<Json>,
    /// The outside messages that no node has taken.
    pub messages: Vec<Json>,
    /// The node that chose to finish.
    pub finish_node: Option<String>,
    pub context_sync: Option<ContextSyncManager>,
    /// The effects that were not carried out yet.
    pub outbox: Vec<Effect>,
}

/// What a workflow holds.
#[verifier::ext_equal]
pub struct WorkFlowView {
    pub name: Seq<char>,
    pub bus: BusView,
    pub nodes: Seq<(Seq<char>, NodeInfo)>,
    pub start_node: Option<Seq<char>>,
    pub status: WorkflowStatus,
    pub context: Seq<(Seq<char>, JsonView)>,
    pub memory: Seq<(Seq<char>, JsonView)>,
    pub messages: Seq<JsonView>,
    pub finish_node: Option<Seq<char>>,
    pub context_sync: Option<SyncView>,
    pub outbox: Seq<EffectView>,
}

impl View for WorkFlow {
    type V = WorkFlowView;

    open spec fn view(&self) -> WorkFlowView {
        WorkFlowView {
            name: self.name@,
            bus: self.parameter_bus@,
            nodes: self.nodes@,
            start_node: text_option(self.start_node_name),
            status: self.status,
            context: self.context@,
            memory: self.memory@,
            messages: json_views(self.messages@),
            finish_node: text_option(self.finish_node),
            context_sync: option_view(self.context_sync),
            outbox: effect_views(self.outbox@),
        }
    }
}

/// The count after `n`, modulo 2^64.
pub open spec fn next_count(n: u64) -> u64 {
    if n == u64::MAX {
        0
    } else {
        (n + 1) as u64
    }
}

/// The names of the nodes whose tasks the end of the workflow aborts, in order.
pub open spec fn inactive_names(nodes: Seq<(Seq<char>, NodeInfo)>) -> Seq<Seq<char>>
    decreases nodes.len(),
{
    if nodes.len() == 0 {
        Seq::empty()
    } else {
        let front = inactive_names(nodes.drop_last());
        if nodes.last().1.is_inactive() {
            front.push(nodes.last().0)
        } else {
            front
        }
    }
}

/// The names of the nodes that get a task, in order.
pub open spec fn runable_names(nodes: Seq<(Seq<char>, NodeInfo)>) -> Seq<Seq<char>>
    decreases nodes.len(),
{
    if nodes.len() == 0 {
        Seq::empty()
    } else {
        let front = runable_names(nodes.drop_last());
        if nodes.last().1.runable {
            front.push(nodes.last().0)
        } else {
            front
        }
    }
}

/// The nodes once those that run have their tasks.
pub open spec fn spawn_all(nodes: Seq<(Seq<char>, NodeInfo)>) -> Seq<(Seq<char>, NodeInfo)> {
    Seq::new(
        nodes.len(),
        |i: int|
            (
                nodes[i].0,
                NodeInfo { spawned: nodes[i].1.spawned || nodes[i].1.runable, ..nodes[i].1 },
            ),
    )
}

/// The effects that abort the tasks of the named nodes.
pub open spec fn aborts(names: Seq<Seq<char>>) -> Seq<EffectView> {
    Seq::new(names.len(), |i: int| EffectView::Abort(names[i]))
}

/// The effects that start tasks for the named nodes.
pub open spec fn spawns(names: Seq<Seq<char>>) -> Seq<EffectView> {
    Seq::new(names.len(), |i: int| EffectView::Spawn(names[i]))
}

/// The effects that send a stream value to its consumers.
pub open spec fn deliveries(key: Seq<char>, to: Seq<Seq<char>>, value: JsonView) -> Seq<
    EffectView,
> {
    Seq::new(to.len(), |i: int| EffectView::Deliver { key, consumer: to[i], value })
}

/// The workflow after the targets of a list of choices, but for one target, were cancelled.
pub open spec fn cancel_others(
    w: WorkFlowView,
    choices: Seq<(Seq<char>, Seq<char>)>,
    target: Seq<char>,
) -> WorkFlowView
    decreases choices.len(),
{
    if choices.len() == 0 {
        w
    } else {
        let front = cancel_others(w, choices.drop_last(), target);
        if choices.last().1 != target {
            front.cancel(choices.last().1)
        } else {
            front
        }
    }
}

impl WorkFlowView {
    /// The bus is well formed, the entries stand in the order of their keys, and a
    /// workflow that is finished knows the node that finished it.
    pub open spec fn wf(self) -> bool {
        &&& self.bus.wf()
        &&& sorted(self.nodes)
        &&& sorted(self.context)
        &&& sorted(self.memory)
        &&& self.status == WorkflowStatus::Finished ==> self.finish_node is Some
    }

    /// A workflow without nodes.
    pub open spec fn empty(name: Seq<char>) -> WorkFlowView {
        WorkFlowView {
            name,
            bus: BusView::empty(),
            nodes: Seq::empty(),
            start_node: None,
            status: WorkflowStatus::Init,
            context: Seq::empty(),
            memory: Seq::empty(),
            messages: Seq::empty(),
            finish_node: None,
            context_sync: None,
            outbox: Seq::empty(),
        }
    }

    /// The workflow with one more context value.
    pub open spec fn with_context(self, key: Seq<char>, value: JsonView) -> WorkFlowView {
        WorkFlowView { context: assoc_insert(self.context, key, value), ..self }
    }

    /// The workflow with one more memory value.
    pub open spec fn with_memory(self, key: Seq<char>, value: JsonView) -> WorkFlowView {
        WorkFlowView { memory: assoc_insert(self.memory, key, value), ..self }
    }

    /// The workflow with one more effect.
    pub open spec fn emit(self, effect: EffectView) -> WorkFlowView {
        WorkFlowView { outbox: self.outbox.push(effect), ..self }
    }

    /// The workflow with more effects.
    pub open spec fn emit_all(self, effects: Seq<EffectView>) -> WorkFlowView {
        WorkFlowView { outbox: self.outbox + effects, ..self }
    }

    /// The workflow with other information on a node.
    pub open spec fn with_node(self, node: Seq<char>, info: NodeInfo) -> WorkFlowView {
        WorkFlowView { nodes: assoc_update(self.nodes, node, info), ..self }
    }

    /// The workflow with a node added: its outputs declared, the node fresh.
    pub open spec fn add_node(self, decl: NodeDecl) -> WorkFlowView {
        WorkFlowView {
            bus: self.bus.declare_all(decl.name, decl.outputs),
            nodes: assoc_insert(self.nodes, decl.name, NodeInfo::fresh(decl)),
            ..self
        }
    }

    /// The workflow with nodes added one after the other.
    pub open spec fn add_nodes(self, decls: Seq<NodeDecl>) -> WorkFlowView
        decreases decls.len(),
    {
        if decls.len() == 0 {
            self
        } else {
            self.add_nodes(decls.drop_last()).add_node(decls.last())
        }
    }

    /// Activates a node. A node that is running only counts the activation.
    pub open spec fn activate(self, node: Seq<char>) -> (WorkFlowView, Result<(), ErrorView>) {
        match assoc(self.nodes, node) {
            None => (self, Err(ErrorView::NodeNotFound(node))),
            Some(info) => if info.running {
                (
                    self.with_node(
                        node,
                        NodeInfo {
                            ignored_count: next_count(info.ignored_count),
                            ..info
                        },
                    ),
                    Ok(()),
                )
            } else {
                (
                    self.with_node(node, NodeInfo { activated: true, ..info }).emit(
                        EffectView::Activated(node),
                    ),
                    Ok(()),
                )
            },
        }
    }

    /// Takes up the activation of a node, if there is one; the node is then running.
    pub open spec fn take_activation(self, node: Seq<char>) -> (
        WorkFlowView,
        Result<bool, ErrorView>,
    ) {
        match assoc(self.nodes, node) {
            None => (self, Err(ErrorView::NodeNotFound(node))),
            Some(info) => if info.activated {
                (
                    self.with_node(node, NodeInfo { activated: false, running: true, ..info }),
                    Ok(true),
                )
            } else {
                (self, Ok(false))
            },
        }
    }

    /// Notes whether a node is running.
    pub open spec fn mark_running(self, node: Seq<char>, running: bool) -> (
        WorkFlowView,
        Result<(), ErrorView>,
    ) {
        match assoc(self.nodes, node) {
            None => (self, Err(ErrorView::NodeNotFound(node))),
            Some(info) => (self.with_node(node, NodeInfo { running, ..info }), Ok(())),
        }
    }

    /// Counts a completed run of a node.
    pub open spec fn mark_completed(self, node: Seq<char>) -> (
        WorkFlowView,
        Result<(), ErrorView>,
    ) {
        match assoc(self.nodes, node) {
            None => (self, Err(ErrorView::NodeNotFound(node))),
            Some(info) => (
                self.with_node(
                    node,
                    NodeInfo {
                        completed_count: next_count(info.completed_count),
                        ..info
                    },
                ),
                Ok(()),
            ),
        }
    }

    /// Aborts the tasks of the inactive nodes.
    pub open spec fn cancel_inactive(self) -> WorkFlowView {
        self.emit_all(aborts(inactive_names(self.nodes)))
    }

    /// Finishes the workflow at a node, or activates the target.
    pub open spec fn go_to(self, current: Seq<char>, target: Seq<char>) -> (
        WorkFlowView,
        Result<(), ErrorView>,
    ) {
        if target == "finish"@ {
            (
                (WorkFlowView {
                    finish_node: Some(current),
                    status: WorkflowStatus::Finished,
                    ..self
                }).cancel_inactive(),
                Ok(()),
            )
        } else {
            self.activate(target)
        }
    }

    /// Aborts the task of a node that can be cancelled.
    pub open spec fn cancel(self, node: Seq<char>) -> WorkFlowView {
        if node == "finish"@ {
            self
        } else {
            match assoc(self.nodes, node) {
                Some(info) => if info.can_cancel() {
                    self.emit(EffectView::Abort(node))
                } else {
                    self
                },
                None => self,
            }
        }
    }

    /// Sets an output of a node.
    pub open spec fn output(self, node: Seq<char>, param: Seq<char>, value: JsonView) -> (
        WorkFlowView,
        Result<(), ErrorView>,
    ) {
        let key = param_key(node, param);
        match self.bus.set_error(key) {
            Some(e) => (self, Err(e)),
            None => {
                let w = WorkFlowView { bus: self.bus.set(key, value), ..self };
                if assoc(self.bus.types, key) == Some(ParameterType::Step) {
                    (w.emit(EffectView::Written(key)), Ok(()))
                } else {
                    (w.emit_all(deliveries(key, self.bus.recipients(key), value)), Ok(()))
                }
            },
        }
    }

    /// Makes a choice of a node, and cancels the targets of the other choices
    /// where that is asked for.
    pub open spec fn choice(
        self,
        node: Seq<char>,
        choice: Seq<char>,
        map: Seq<(Seq<char>, Seq<char>)>,
        cancel: bool,
    ) -> (WorkFlowView, Result<Seq<char>, ErrorView>) {
        match assoc(map, choice) {
            None => (
                self,
                Err(ErrorView::ConfigError("Choice '"@ + choice + "' not found in choice_map"@)),
            ),
            Some(target) => {
                let (chosen, r) = self.go_to(node, target);
                match r {
                    Err(e) => (chosen, Err(e)),
                    Ok(_) => if cancel {
                        (cancel_others(chosen, map, target), Ok(target))
                    } else {
                        (chosen, Ok(target))
                    },
                }
            },
        }
    }

    /// Takes the first outside message.
    pub open spec fn take_message(self) -> (WorkFlowView, Option<JsonView>) {
        if self.messages.len() == 0 {
            (self, None)
        } else {
            (
                WorkFlowView { messages: self.messages.skip(1), ..self },
                Some(self.messages[0]),
            )
        }
    }

    /// Queues an outside message.
    pub open spec fn with_message(self, message: JsonView) -> WorkFlowView {
        (WorkFlowView { messages: self.messages.push(message), ..self }).emit(EffectView::Queued)
    }

    /// The outputs of the node that chose to finish.
    pub open spec fn result(self) -> Result<Seq<(Seq<char>, JsonView)>, ErrorView> {
        if self.status != WorkflowStatus::Finished {
            Err(ErrorView::InvalidState("Workflow not finished"@))
        } else {
            match self.finish_node {
                Some(node) => Ok(self.bus.results(node)),
                None => Err(ErrorView::Other("Finish node not set"@)),
            }
        }
    }

    /// The text of a context value that is a text, else nothing.
    pub open spec fn context_text(self, key: Seq<char>) -> Seq<char> {
        match assoc(self.context, key) {
            Some(v) => match v.as_text() {
                Some(s) => s,
                None => Seq::empty(),
            },
            None => Seq::empty(),
        }
    }

    /// The user and the session that the context names; where it names no session,
    /// the workflow stands for it.
    pub open spec fn identifiers(self) -> (Seq<char>, Seq<char>) {
        (
            self.context_text("user_id"@),
            if assoc(self.context, "session_id"@) is Some {
                self.context_text("session_id"@)
            } else {
                self.context_text("workflow_id"@)
            },
        )
    }

    /// Starts the run: every node that runs gets a task, then the start node is activated.
    pub open spec fn launch(self) -> (WorkFlowView, Result<(), ErrorView>) {
        let w = (WorkFlowView {
            status: WorkflowStatus::Running,
            nodes: spawn_all(self.nodes),
            ..self
        }).emit_all(spawns(runable_names(self.nodes)));
        match self.start_node {
            Some(start) => w.activate(start),
            None => (w, Err(ErrorView::ConfigError("Start node not set"@))),
        }
    }
}

/// The declarations of a list of nodes.
pub open spec fn decls_of<N: BaseNode>(nodes: Seq<N>) -> Seq<NodeDecl> {
    Seq::new(nodes.len(), |i: int| nodes[i].decl())
}

impl WorkFlow {
    /// A workflow without nodes.
    pub fn new(name: String) -> (r: WorkFlow)
        ensures
            r@ == WorkFlowView::empty(name@),
    {
        WorkFlow {
            name,
            parameter_bus: ParameterBus::new(),
            nodes: StringMap::new(),
            start_node_name: None,
            status: WorkflowStatus::Init,
            context: StringMap::new(),
            memory: StringMap::new(),
            messages: Vec::new(),
            finish_node: None,
            context_sync: None,
            outbox: Vec::new(),
        }
    }

    /// Sets how the context is synchronised.
    pub fn set_context_sync(&mut self, manager: ContextSyncManager)
        ensures
            final(self)@ == (WorkFlowView { context_sync: Some(manager@), ..old(self)@ }),
    {
        self.context_sync = Some(manager);
    }

    fn emit(&mut self, effect: Effect)
        ensures
            final(self)@ == old(self)@.emit(effect@),
    {
        let ghost before = effect_views(self.outbox@);
        let ghost e = effect@;
        self.outbox.push(effect);
        proof {
            assert(effect_views(self.outbox@) =~= before.push(e));
        }
    }

    /// Adds nodes; the workflow is then ready.
    pub fn set_nodes<N: BaseNode>(&mut self, nodes: &Vec<N>) -> (r: Result<(), WorkflowError>)
        ensures
            r is Ok,
            final(self)@ == (WorkFlowView {
                status: WorkflowStatus::Ready,
                ..old(self)@.add_nodes(decls_of(nodes@))
            }),
    {
        let mut i: usize = 0;
        proof {
            assert(decls_of(nodes@).take(0) =~= Seq::empty());
        }
        while i < nodes.len()
            invariant
                i <= nodes@.len(),
                self@ == old(self)@.add_nodes(decls_of(nodes@).take(i as int)),
            decreases nodes@.len() - i,
        {
            let node = &nodes[i];
            self.parameter_bus.init_output_parameters(node.name(), node.output_parameters());
            self.nodes.insert(
                node.name().to_owned(),
                NodeInfo {
                    key_node: node.is_key_node(),
                    reentrant: node.is_reentrant(),
                    runable: node.runable(),
                    activated: false,
                    running: false,
                    spawned: false,
                    completed_count: 0,
                    ignored_count: 0,
                },
            );
            proof {
                let next = decls_of(nodes@).take(i + 1);
                assert(next.drop_last() =~= decls_of(nodes@).take(i as int));
                assert(next.last() == nodes@[i as int].decl());
            }
            i = i + 1;
        }
        proof {
            assert(decls_of(nodes@).take(i as int) =~= decls_of(nodes@));
        }
        self.status = WorkflowStatus::Ready;
        Ok(())
    }

    /// Sets the node that a run starts with.
    pub fn set_start_node(&mut self, node_name: &str)
        ensures
            final(self)@ == (WorkFlowView { start_node: Some(node_name@), ..old(self)@ }),
    {
        self.start_node_name = Some(node_name.to_owned());
    }

    /// Activates a node.
    pub fn activate_node(&mut self, node_name: &str) -> (r: Result<(), WorkflowError>)
        ensures
            final(self)@ == old(self)@.activate(node_name@).0,
            unit_view(r) == old(self)@.activate(node_name@).1,
    {
        match self.nodes.get_mut(node_name) {
            None => {
                return Err(WorkflowError::NodeNotFound(node_name.to_owned()));
            },
            Some(info) => {
                if info.running {
                    info.ignored_count = info.ignored_count.wrapping_add(1);
                    return Ok(());
                }
                info.activated = true;
            },
        }
        self.emit(Effect::Activated(node_name.to_owned()));
        Ok(())
    }

    /// Notes whether a node is running.
    pub fn mark_node_running(&mut self, node_name: &str, running: bool) -> (r: Result<
        (),
        WorkflowError,
    >)
        ensures
            final(self)@ == old(self)@.mark_running(node_name@, running).0,
            unit_view(r) == old(self)@.mark_running(node_name@, running).1,
    {
        match self.nodes.get_mut(node_name) {
            None => Err(WorkflowError::NodeNotFound(node_name.to_owned())),
            Some(info) => {
                info.running = running;
                Ok(())
            },
        }
    }

    /// Counts a completed run of a node.
    pub fn mark_node_completed(&mut self, node_name: &str) -> (r: Result<(), WorkflowError>)
        ensures
            final(self)@ == old(self)@.mark_completed(node_name@).0,
            unit_view(r) == old(self)@.mark_completed(node_name@).1,
    {
        match self.nodes.get_mut(node_name) {
            None => Err(WorkflowError::NodeNotFound(node_name.to_owned())),
            Some(info) => {
                info.completed_count = info.completed_count.wrapping_add(1);
                Ok(())
            },
        }
    }

    /// Takes up the activation of a node: whether there was one. Where there was
    /// none, the node waits until it is activated.
    pub fn wait_for_event(&mut self, node_name: &str) -> (r: Result<bool, WorkflowError>)
        ensures
            final(self)@ == old(self)@.take_activation(node_name@).0,
            match r {
                Ok(b) => old(self)@.take_activation(node_name@).1 == Ok::<bool, ErrorView>(b),
                Err(e) => old(self)@.take_activation(node_name@).1 == Err::<bool, ErrorView>(e@),
            },
    {
        let taken: bool = match self.nodes.get(node_name) {
            None => {
                return Err(WorkflowError::NodeNotFound(node_name.to_owned()));
            },
            Some(info) => info.activated,
        };
        if taken {
            match self.nodes.get_mut(node_name) {
                None => {},
                Some(info) => {
                    info.activated = false;
                    info.running = true;
                },
            }
        }
        Ok(taken)
    }

    /// Finishes the workflow at a node, or activates the target.
    pub fn choose_node(&mut self, current_node: &str, target_node: &str) -> (r: Result<
        (),
        WorkflowError,
    >)
        ensures
            final(self)@ == old(self)@.go_to(current_node@, target_node@).0,
            unit_view(r) == old(self)@.go_to(current_node@, target_node@).1,
    {
        if text_eq(target_node, "finish") {
            self.finish_node = Some(current_node.to_owned());
            self.status = WorkflowStatus::Finished;
            self.cancel_all_inactive_nodes()
        } else {
            self.activate_node(target_node)
        }
    }

    /// Cancels a node: aborts its task, be it running or not, unless the node is a key
    /// node, reentrant or without a task, or has an activation that it did not take up.
    pub fn cancel_node(&mut self, node_name: &str) -> (r: Result<(), WorkflowError>)
        ensures
            r is Ok,
            final(self)@ == old(self)@.cancel(node_name@),
    {
        if text_eq(node_name, "finish") {
            return Ok(());
        }
        let abort: bool = match self.nodes.get(node_name) {
            Some(info) => !info.reentrant && !info.key_node && !info.activated && info.spawned,
            None => false,
        };
        if abort {
            self.emit(Effect::Abort(node_name.to_owned()));
        }
        Ok(())
    }

    /// Aborts the tasks of the nodes that still wait: those that are neither key nodes
    /// nor activated nor running.
    pub fn cancel_all_inactive_nodes(&mut self) -> (r: Result<(), WorkflowError>)
        ensures
            r is Ok,
            final(self)@ == old(self)@.cancel_inactive(),
    {
        let ghost start = self@;
        let ghost all = self.nodes@;
        let mut i: usize = 0;
        proof {
            assert(all.take(0) =~= Seq::empty());
            assert(start.outbox + aborts(Seq::empty()) =~= start.outbox);
        }
        while i < self.nodes.len()
            invariant
                i <= all.len(),
                all == self.nodes@,
                all == start.nodes,
                self@ == start.emit_all(aborts(inactive_names(all.take(i as int)))),
            decreases all.len() - i,
        {
            let info: NodeInfo = *self.nodes.value_at(i);
            let name = self.nodes.key_at(i).to_owned();
            let ghost front = inactive_names(all.take(i as int));
            proof {
                let next = all.take(i + 1);
                assert(next.drop_last() =~= all.take(i as int));
                assert(next.last() == all[i as int]);
            }
            if !info.key_node && !info.activated && !info.running && info.spawned {
                let ghost n = name@;
                self.emit(Effect::Abort(name));
                proof {
                    assert((start.outbox + aborts(front)).push(EffectView::Abort(n))
                        =~= start.outbox + aborts(front.push(n)));
                }
            }
            i = i + 1;
        }
        proof {
            assert(all.take(i as int) =~= all);
        }
        Ok(())
    }

    /// How many activations of a node came while it was running.
    pub fn ignored_activation_count(&self, node_name: &str) -> (r: Option<u64>)
        ensures
            r == (match assoc(self@.nodes, node_name@) {
                Some(info) => Some(info.ignored_count),
                None => None,
            }),
    {
        match self.nodes.get(node_name) {
            Some(info) => Some(info.ignored_count),
            None => None,
        }
    }

    /// Sets an output of a node.
    pub fn set_output(&mut self, node_name: &str, param_name: &str, value: Json) -> (r: Result<
        (),
        WorkflowError,
    >)
        ensures
            final(self)@ == old(self)@.output(node_name@, param_name@, value@).0,
            unit_view(r) == old(self)@.output(node_name@, param_name@, value@).1,
    {
        let key = cat3(node_name, ".", param_name);
        let t = self.parameter_bus.get_parameter_type(key.as_str());
        let sent = value.copy();
        let to = match self.parameter_bus.set_value(node_name, param_name, value) {
            Ok(to) => to,
            Err(e) => {
                return Err(e);
            },
        };
        if let Some(ParameterType::Step) = t {
            self.emit(Effect::Written(key));
        } else {
            let ghost start = self@;
            let ghost all = texts(to@);
            let mut i: usize = 0;
            proof {
                assert(start.outbox + deliveries(key@, all.take(0), sent@) =~= start.outbox);
            }
            while i < to.len()
                invariant
                    i <= to@.len(),
                    all == texts(to@),
                    self@ == start.emit_all(deliveries(key@, all.take(i as int), sent@)),
                decreases to@.len() - i,
            {
                self.emit(
                    Effect::Deliver {
                        key: key.clone(),
                        consumer: to[i].clone(),
                        value: sent.copy(),
                    },
                );
                proof {
                    let one = EffectView::Deliver {
                        key: key@,
                        consumer: all[i as int],
                        value: sent@,
                    };
                    assert((start.outbox + deliveries(key@, all.take(i as int), sent@)).push(one)
                        =~= start.outbox + deliveries(key@, all.take(i + 1), sent@));
                }
                i = i + 1;
            }
            proof {
                assert(all.take(i as int) =~= all);
            }
        }
        Ok(())
    }

    /// Takes the first outside message; where there is none, the taker waits.
    pub fn get_message(&mut self) -> (r: Option<Json>)
        ensures
            final(self)@ == old(self)@.take_message().0,
            option_view(r) == old(self)@.take_message().1,
    {
        if self.messages.len() == 0 {
            None
        } else {
            let ghost before = json_views(self.messages@);
            let message = self.messages.remove(0);
            proof {
                assert(json_views(self.messages@) =~= before.skip(1));
            }
            Some(message)
        }
    }

    /// Queues an outside message.
    pub fn add_message(&mut self, message: Json) -> (r: Result<(), WorkflowError>)
        ensures
            r is Ok,
            final(self)@ == old(self)@.with_message(message@),
    {
        let ghost before = json_views(self.messages@);
        let ghost m = message@;
        self.messages.push(message);
        proof {
            assert(json_views(self.messages@) =~= before.push(m));
        }
        self.emit(Effect::Queued);
        Ok(())
    }

    /// The outputs of the node that chose to finish.
    pub fn get_result(&self) -> (r: Result<StringMap<Json>, WorkflowError>)
        ensures
            result_view(r) == self@.result(),
    {
        if self.status != WorkflowStatus::Finished {
            return Err(WorkflowError::InvalidState("Workflow not finished".to_owned()));
        }
        match &self.finish_node {
            Some(node) => Ok(self.parameter_bus.get_node_results(node.as_str())),
            None => Err(WorkflowError::Other("Finish node not set".to_owned())),
        }
    }

    /// Sets a context value.
    pub fn set_context(&mut self, key: &str, value: Json)
        ensures
            final(self)@ == old(self)@.with_context(key@, value@),
    {
        self.context.insert(key.to_owned(), value);
    }

    /// Reads a context value.
    pub fn get_context(&self, key: &str) -> (r: Option<Json>)
        ensures
            option_view(r) == assoc(self@.context, key@),
    {
        match self.context.get(key) {
            Some(v) => Some(v.copy()),
            None => None,
        }
    }

    /// The names of the context values, in order.
    pub fn context_keys(&self) -> (r: Vec<String>)
        ensures
            texts(r@) == keys_of(self@.context),
    {
        self.context.keys()
    }

    /// Sets a memory value.
    pub fn set_memory(&mut self, key: &str, value: Json)
        ensures
            final(self)@ == old(self)@.with_memory(key@, value@),
    {
        self.memory.insert(key.to_owned(), value);
    }

    /// Reads a memory value.
    pub fn get_memory(&self, key: &str) -> (r: Option<Json>)
        ensures
            option_view(r) == assoc(self@.memory, key@),
    {
        match self.memory.get(key) {
            Some(v) => Some(v.copy()),
            None => None,
        }
    }

    /// The state of the workflow.
    pub fn status(&self) -> (r: WorkflowStatus)
        ensures
            r == self@.status,
    {
        self.status
    }

    /// Takes the effects that were not carried out yet.
    pub fn take_effects(&mut self) -> (r: Vec<Effect>)
        ensures
            effect_views(r@) == old(self)@.outbox,
            final(self)@ == (WorkFlowView { outbox: Seq::empty(), ..old(self)@ }),
    {
        let mut taken: Vec<Effect> = Vec::new();
        core::mem::swap(&mut taken, &mut self.outbox);
        taken
    }

    fn context_text(&self, key: &str) -> (r: String)
        ensures
            r@ == self@.context_text(key@),
    {
        match self.context.get(key) {
            Some(v) => match v.as_str() {
                Some(s) => s.to_owned(),
                None => String::new(),
            },
            None => String::new(),
        }
    }

    /// The user and the session that the context names.
    pub fn context_sync_identifiers(&self) -> (r: (String, String))
        ensures
            (r.0@, r.1@) == self@.identifiers(),
    {
        let user = self.context_text("user_id");
        let session = if self.context.contains_key("session_id") {
            self.context_text("session_id")
        } else {
            self.context_text("workflow_id")
        };
        (user, session)
    }

    /// Starts the run of a workflow that was found ready. The names returned are
    /// those of the nodes that got a task, which is so in case of an error too.
    pub fn launch(&mut self) -> (r: (Vec<String>, Result<(), WorkflowError>))
        ensures
            final(self)@ == old(self)@.launch().0,
            unit_view(r.1) == old(self)@.launch().1,
            texts(r.0@) == runable_names(old(self)@.nodes),
    {
        let ghost start = self@;
        self.status = WorkflowStatus::Running;
        let ghost all = self.nodes@;
        let ghost base = self@;
        let mut names: Vec<String> = Vec::new();
        let mut i: usize = 0;
        proof {
            assert(all.take(0) =~= Seq::empty());
            assert(texts(names@) =~= Seq::empty());
            assert(start.outbox + spawns(Seq::empty()) =~= start.outbox);
            assert(spawn_all(all.take(0)) + all.skip(0) =~= all);
        }
        while i < self.nodes.len()
            invariant
                i <= all.len(),
                all.len() == self.nodes@.len(),
                base == (WorkFlowView { status: WorkflowStatus::Running, ..start }),
                all == start.nodes,
                texts(names@) == runable_names(all.take(i as int)),
                self@ == (WorkFlowView {
                    nodes: spawn_all(all.take(i as int)) + all.skip(i as int),
                    ..base
                }).emit_all(spawns(texts(names@))),
            decreases all.len() - i,
        {
            let ghost here = spawn_all(all.take(i as int)) + all.skip(i as int);
            proof {
                assert(here[i as int] == all[i as int]);
                let next = all.take(i + 1);
                assert(next.drop_last() =~= all.take(i as int));
                assert(next.last() == all[i as int]);
            }
            let info: NodeInfo = *self.nodes.value_at(i);
            if info.runable {
                let name = self.nodes.key_at(i).to_owned();
                let ghost n = name@;
                let ghost so_far = texts(names@);
                self.nodes.entries[i].1.spawned = true;
                proof {
                    assert(self.nodes@ =~= here.update(
                        i as int,
                        (all[i as int].0, NodeInfo { spawned: true, ..all[i as int].1 }),
                    ));
                    assert(self.nodes@ =~= spawn_all(all.take(i + 1)) + all.skip(i + 1));
                }
                names.push(name.clone());
                proof {
                    assert(texts(names@) =~= so_far.push(n));
                }
                self.emit(Effect::Spawn(name));
                proof {
                    assert((start.outbox + spawns(so_far)).push(EffectView::Spawn(n))
                        =~= start.outbox + spawns(so_far.push(n)));
                }
            } else {
                proof {
                    assert(here =~= spawn_all(all.take(i + 1)) + all.skip(i + 1));
                }
            }
            i = i + 1;
        }
        proof {
            assert(all.take(i as int) =~= all);
            assert(spawn_all(all.take(i as int)) + all.skip(i as int) =~= spawn_all(all));
        }
        let started = match &self.start_node_name {
            Some(start_name) => Some(start_name.clone()),
            None => None,
        };
        let r = match started {
            Some(start_name) => self.activate_node(start_name.as_str()),
            None => Err(WorkflowError::ConfigError("Start node not set".to_owned())),
        };
        (names, r)
    }
}

// ---------------------------------------------------------------------------
// Laws
// ---------------------------------------------------------------------------

/// Whether some node of the name is no key node, is neither activated nor running, and
/// has a task.
pub open spec fn names_inactive(nodes: Seq<(Seq<char>, NodeInfo)>, name: Seq<char>) -> bool {
    exists|k: int|
        0 <= k < nodes.len() && (#[trigger] nodes[k]).0 == name && nodes[k].1.is_inactive()
}

/// Whether every task that an effect list aborts belongs to an inactive node.
pub open spec fn aborts_only_inactive(
    effects: Seq<EffectView>,
    nodes: Seq<(Seq<char>, NodeInfo)>,
) -> bool {
    forall|i: int|
        0 <= i < effects.len() && (#[trigger] effects[i]) is Abort ==> names_inactive(
            nodes,
            effects[i]->Abort_0,
        )
}

proof fn inactive_names_are_inactive(nodes: Seq<(Seq<char>, NodeInfo)>)
    ensures
        forall|i: int|
            0 <= i < inactive_names(nodes).len() ==> names_inactive(
                nodes,
                #[trigger] inactive_names(nodes)[i],
            ),
        forall|k: int|
            0 <= k < nodes.len() && (#[trigger] nodes[k]).1.is_inactive() ==> inactive_names(
                nodes,
            ).contains(nodes[k].0),
    decreases nodes.len(),
{
    if nodes.len() > 0 {
        let front = nodes.drop_last();
        let names = inactive_names(nodes);
        let before = inactive_names(front);
        inactive_names_are_inactive(front);
        assert forall|i: int| 0 <= i < names.len() implies names_inactive(
            nodes,
            #[trigger] names[i],
        ) by {
            if i < before.len() {
                assert(names[i] == before[i]);
                let k = choose|k: int|
                    0 <= k < front.len() && (#[trigger] front[k]).0 == before[i]
                        && front[k].1.is_inactive();
                assert(nodes[k] == front[k]);
            } else {
                assert(nodes[nodes.len() - 1].1.is_inactive());
            }
        }
        assert forall|k: int|
            0 <= k < nodes.len() && (#[trigger] nodes[k]).1.is_inactive() implies names.contains(
            nodes[k].0,
        ) by {
            if k < nodes.len() - 1 {
                assert(front[k] == nodes[k]);
                let i = choose|i: int| 0 <= i < before.len() && before[i] == nodes[k].0;
                assert(names[i] == nodes[k].0);
            } else {
                assert(names[names.len() - 1] == nodes[k].0);
            }
        }
    }
}

/// Cancelling what waits aborts the tasks of inactive nodes and of no others: neither
/// that of a key node nor that of a node that is activated or running.
pub proof fn finishing_aborts_exactly_the_inactive(w: WorkFlowView)
    requires
        sorted(w.nodes),
    ensures
        w.cancel_inactive().outbox.take(w.outbox.len() as int) == w.outbox,
        aborts_only_inactive(
            w.cancel_inactive().outbox.skip(w.outbox.len() as int),
            w.nodes,
        ),
        forall|k: int|
            0 <= k < w.nodes.len() && (#[trigger] w.nodes[k]).1.is_inactive()
                ==> w.cancel_inactive().outbox.contains(EffectView::Abort(w.nodes[k].0)),
        forall|k: int|
            0 <= k < w.nodes.len() && ((#[trigger] w.nodes[k]).1.key_node || w.nodes[k].1.activated
                || w.nodes[k].1.running) ==> !w.cancel_inactive().outbox.skip(
                w.outbox.len() as int,
            ).contains(EffectView::Abort(w.nodes[k].0)),
{
    let names = inactive_names(w.nodes);
    let after = w.cancel_inactive().outbox;
    inactive_names_are_inactive(w.nodes);
    assert(after.take(w.outbox.len() as int) =~= w.outbox);
    assert(after.skip(w.outbox.len() as int) =~= aborts(names));
    assert forall|i: int|
        0 <= i < aborts(names).len() && (#[trigger] aborts(names)[i]) is Abort
        implies names_inactive(w.nodes, aborts(names)[i]->Abort_0) by {
        assert(aborts(names)[i]->Abort_0 == names[i]);
    }
    assert forall|k: int| 0 <= k < w.nodes.len() && (#[trigger] w.nodes[k]).1.is_inactive()
        implies after.contains(EffectView::Abort(w.nodes[k].0)) by {
        let i = choose|i: int| 0 <= i < names.len() && names[i] == w.nodes[k].0;
        assert(after[w.outbox.len() + i] == EffectView::Abort(w.nodes[k].0));
    }
    let added = after.skip(w.outbox.len() as int);
    assert forall|k: int|
        0 <= k < w.nodes.len() && ((#[trigger] w.nodes[k]).1.key_node || w.nodes[k].1.activated
            || w.nodes[k].1.running) implies !added.contains(
        EffectView::Abort(w.nodes[k].0),
    ) by {
        if added.contains(EffectView::Abort(w.nodes[k].0)) {
            let i = choose|i: int|
                0 <= i < added.len() && added[i] == EffectView::Abort(w.nodes[k].0);
            assert(names[i] == w.nodes[k].0);
            let j = choose|j: int|
                0 <= j < w.nodes.len() && (#[trigger] w.nodes[j]).0 == names[i]
                    && w.nodes[j].1.is_inactive();
            assoc_of_entry(w.nodes, j);
            assoc_of_entry(w.nodes, k);
        }
    }
}

/// Cancelling a node leaves the workflow as it is, but for at most one abort; and
/// a key node, a reentrant node and a node with an activation that it did not take up
/// are not aborted.
pub proof fn cancelling_spares(w: WorkFlowView, node: Seq<char>)
    ensures
        w.cancel(node) == w || w.cancel(node) == w.emit(EffectView::Abort(node)),
        (match assoc(w.nodes, node) {
            Some(info) => info.key_node || info.reentrant || info.activated,
            None => true,
        }) ==> w.cancel(node) == w,
{
}

/// Choosing to finish ends the workflow at the node, whose outputs are the result.
pub proof fn finish_gives_the_result(
    w: WorkFlowView,
    node: Seq<char>,
    choice: Seq<char>,
    map: Seq<(Seq<char>, Seq<char>)>,
    cancel: bool,
)
    requires
        assoc(map, choice) == Some("finish"@),
    ensures
        w.choice(node, choice, map, cancel).1 == Ok::<Seq<char>, ErrorView>("finish"@),
        w.choice(node, choice, map, cancel).0.status == WorkflowStatus::Finished,
        w.choice(node, choice, map, cancel).0.result() == Ok::<
            Seq<(Seq<char>, JsonView)>,
            ErrorView,
        >(w.bus.results(node)),
{
    cancel_others_emits_only(w.go_to(node, "finish"@).0, map, "finish"@);
}

/// Cancelling the other targets only adds effects.
pub proof fn cancel_others_emits_only(
    w: WorkFlowView,
    choices: Seq<(Seq<char>, Seq<char>)>,
    target: Seq<char>,
)
    ensures
        cancel_others(w, choices, target) == (WorkFlowView {
            outbox: cancel_others(w, choices, target).outbox,
            ..w
        }),
    decreases choices.len(),
{
    if choices.len() > 0 {
        cancel_others_emits_only(w, choices.drop_last(), target);
    }
}

/// A node that is running is not activated again: the activation is counted, and
/// neither a flag is set nor anyone woken.
pub proof fn running_node_ignores_activation(w: WorkFlowView, node: Seq<char>)
    requires
        assoc(w.nodes, node) is Some,
        assoc(w.nodes, node)->0.running,
    ensures
        ({
            let (after, r) = w.activate(node);
            let info = assoc(w.nodes, node)->0;
            &&& r == Ok::<(), ErrorView>(())
            &&& after.outbox == w.outbox
            &&& assoc(after.nodes, node) == Some(
                NodeInfo { ignored_count: next_count(info.ignored_count), ..info },
            )
        }),
{
    let info = assoc(w.nodes, node)->0;
    crate::string_map::assoc_after_update(
        w.nodes,
        node,
        NodeInfo { ignored_count: next_count(info.ignored_count), ..info },
        node,
    );
}

/// An activation is taken up once: the first taker gets it and makes the node
/// running, and a second finds none.
pub proof fn activation_is_taken_once(w: WorkFlowView, node: Seq<char>)
    requires
        assoc(w.nodes, node) is Some,
        !assoc(w.nodes, node)->0.running,
    ensures
        ({
            let activated = w.activate(node).0;
            let (taken, first) = activated.take_activation(node);
            &&& first == Ok::<bool, ErrorView>(true)
            &&& assoc(taken.nodes, node) is Some
            &&& assoc(taken.nodes, node)->0.running
            &&& taken.take_activation(node) == (taken, Ok::<bool, ErrorView>(false))
        }),
{
    let info = assoc(w.nodes, node)->0;
    let on = NodeInfo { activated: true, ..info };
    let taken = NodeInfo { activated: false, running: true, ..on };
    crate::string_map::assoc_after_update(w.nodes, node, on, node);
    crate::string_map::assoc_after_update(assoc_update(w.nodes, node, on), node, taken, node);
}

/// Outside messages are taken in the order in which they were queued: a queue that
/// gets one more message gives it after all those before it.
pub proof fn messages_keep_their_order(w: WorkFlowView, message: JsonView)
    ensures
        w.messages.len() > 0 ==> w.with_message(message).take_message().1 == Some(w.messages[0])
            && w.with_message(message).take_message().0.messages == w.messages.skip(1).push(
            message,
        ),
        w.messages.len() == 0 ==> w.with_message(message).take_message().1 == Some(message)
            && w.with_message(message).take_message().0.messages.len() == 0,
{
    if w.messages.len() > 0 {
        assert(w.messages.push(message).skip(1) =~= w.messages.skip(1).push(message));
    }
}

/// A context value and a memory value that were set are read back, and neither
/// hides another.
pub proof fn context_and_memory_read_back(
    w: WorkFlowView,
    key: Seq<char>,
    value: JsonView,
    other: Seq<char>,
)
    ensures
        assoc(w.with_context(key, value).context, key) == Some(value),
        other != key ==> assoc(w.with_context(key, value).context, other) == assoc(
            w.context,
            other,
        ),
        assoc(w.with_memory(key, value).memory, key) == Some(value),
        other != key ==> assoc(w.with_memory(key, value).memory, other) == assoc(w.memory, other),
        w.with_context(key, value).memory == w.memory,
        w.with_memory(key, value).context == w.context,
{
    crate::string_map::assoc_after_insert(w.context, key, value, key);
    crate::string_map::assoc_after_insert(w.context, key, value, other);
    crate::string_map::assoc_after_insert(w.memory, key, value, key);
    crate::string_map::assoc_after_insert(w.memory, key, value, other);
}

/// Declaring the parameters of a node keeps a bus well formed.
pub proof fn declaring_keeps_bus(
    b: BusView,
    node: Seq<char>,
    params: Seq<(Seq<char>, ParameterType)>,
)
    requires
        b.wf(),
    ensures
        b.declare_all(node, params).wf(),
    decreases params.len(),
{
    if params.len() > 0 {
        declaring_keeps_bus(b, node, params.drop_last());
        bus_stays_well_formed(
            b.declare_all(node, params.drop_last()),
            param_key(node, params.last().0),
            params.last().1,
            JsonView::Null,
            node,
        );
    }
}

/// A new workflow is well formed, and adding nodes keeps a workflow so.
pub proof fn added_nodes_keep_well_formed(name: Seq<char>, w: WorkFlowView, decls: Seq<NodeDecl>)
    requires
        w.wf(),
    ensures
        WorkFlowView::empty(name).wf(),
        w.add_nodes(decls).wf(),
        w.add_nodes(decls).status == w.status,
        w.add_nodes(decls).finish_node == w.finish_node,
    decreases decls.len(),
{
    if decls.len() > 0 {
        let front = w.add_nodes(decls.drop_last());
        let decl = decls.last();
        added_nodes_keep_well_formed(name, w, decls.drop_last());
        declaring_keeps_bus(front.bus, decl.name, decl.outputs);
        crate::string_map::insert_keeps_sorted(front.nodes, decl.name, NodeInfo::fresh(decl));
    }
}

/// What nodes and hosts do with a workflow keeps it well formed: setting context and
/// memory, activating a node and taking its activation up, noting how a run went,
/// setting an output, choosing, cancelling, and passing messages on.
pub proof fn workflow_stays_well_formed(
    w: WorkFlowView,
    node: Seq<char>,
    name: Seq<char>,
    value: JsonView,
    running: bool,
    map: Seq<(Seq<char>, Seq<char>)>,
    cancel: bool,
)
    requires
        w.wf(),
    ensures
        w.with_context(name, value).wf(),
        w.with_memory(name, value).wf(),
        w.activate(node).0.wf(),
        w.take_activation(node).0.wf(),
        w.mark_running(node, running).0.wf(),
        w.mark_completed(node).0.wf(),
        w.cancel_inactive().wf(),
        w.go_to(node, name).0.wf(),
        w.cancel(node).wf(),
        w.output(node, name, value).0.wf(),
        w.choice(node, name, map, cancel).0.wf(),
        w.take_message().0.wf(),
        w.with_message(value).wf(),
{
    crate::string_map::insert_keeps_sorted(w.context, name, value);
    crate::string_map::insert_keeps_sorted(w.memory, name, value);
    infos_keep_well_formed(w, node);
    infos_keep_well_formed(w, name);
    let key = param_key(node, name);
    bus_stays_well_formed(w.bus, key, ParameterType::Step, value, node);
    if let Some(target) = assoc(map, name) {
        infos_keep_well_formed(w, target);
        cancel_others_emits_only(w.go_to(node, target).0, map, target);
    }
}

proof fn infos_keep_well_formed(w: WorkFlowView, node: Seq<char>)
    requires
        w.wf(),
    ensures
        forall|info: NodeInfo| (#[trigger] w.with_node(node, info)).wf(),
        w.activate(node).0.wf(),
{
    assert forall|info: NodeInfo| (#[trigger] w.with_node(node, info)).wf() by {
        crate::string_map::update_keeps_sorted(w.nodes, node, info);
    }
}

/// Starting a run keeps a workflow well formed.
pub proof fn launched_workflow_is_well_formed(w: WorkFlowView)
    requires
        w.wf(),
    ensures
        w.launch().0.wf(),
{
    let nodes = spawn_all(w.nodes);
    assert forall|i: int, j: int| 0 <= i < j < nodes.len() implies crate::text::text_less(
        #[trigger] nodes[i].0,
        #[trigger] nodes[j].0,
    ) by {
        assert(crate::text::text_less(w.nodes[i].0, w.nodes[j].0));
    }
    let launched = (WorkFlowView {
        status: WorkflowStatus::Running,
        nodes,
        ..w
    }).emit_all(spawns(runable_names(w.nodes)));
    assert(launched.wf());
    if let Some(start) = w.start_node {
        infos_keep_well_formed(launched, start);
    }
}

/// A workflow that is well formed has a result exactly when it is finished.
pub proof fn finished_workflow_has_a_result(w: WorkFlowView)
    requires
        w.wf(),
    ensures
        w.result() is Ok <==> w.status == WorkflowStatus::Finished,
{
}

/// An output that is a stream is sent to every consumer that has subscribed to its key,
/// to each once and to no one else; it is published, and nothing else happens.
pub proof fn stream_output_goes_to_each_consumer(
    w: WorkFlowView,
    node: Seq<char>,
    param: Seq<char>,
    value: JsonView,
    consumer: Seq<char>,
)
    requires
        w.bus.wf(),
        assoc(w.bus.types, node + "."@ + param) == Some(ParameterType::Stream),
    ensures
        ({
            let key = node + "."@ + param;
            let (after, r) = w.output(node, param, value);
            let sent = after.outbox.skip(w.outbox.len() as int);
            &&& r == Ok::<(), ErrorView>(())
            &&& after.outbox.len() >= w.outbox.len()
            &&& after.outbox.take(w.outbox.len() as int) == w.outbox
            &&& sent.contains(EffectView::Deliver { key, consumer, value }) <==> assoc(
                consumers(w.bus, key),
                consumer,
            ) is Some
            &&& sent.no_duplicates()
            &&& forall|i: int|
                0 <= i < sent.len() ==> (#[trigger] sent[i] matches EffectView::Deliver {
                    key: k,
                    consumer: _,
                    value: v,
                } && k == key && v == value)
            &&& published(after.bus, key) == published(w.bus, key).push(value)
            &&& after == (WorkFlowView { bus: after.bus, outbox: after.outbox, ..w })
        }),
{
    let key = node + "."@ + param;
    let to = w.bus.recipients(key);
    let after = w.output(node, param, value).0;
    let sent = after.outbox.skip(w.outbox.len() as int);
    recipients_are_the_consumers(w.bus, key, consumer);
    setting_changes_one_parameter(w.bus, key, value, key);
    assert(after.outbox.take(w.outbox.len() as int) =~= w.outbox);
    assert(sent =~= deliveries(key, to, value));
    assert forall|i: int, j: int|
        0 <= i < sent.len() && 0 <= j < sent.len() && i != j implies sent[i] != sent[j] by {
        assert(to[i] != to[j]);
        assert(sent[i]->consumer == to[i]);
        assert(sent[j]->consumer == to[j]);
    }
    let effect = EffectView::Deliver { key, consumer, value };
    if to.contains(consumer) {
        let i = choose|i: int| 0 <= i < to.len() && to[i] == consumer;
        assert(sent[i] == effect);
    }
    if sent.contains(effect) {
        let i = choose|i: int| 0 <= i < sent.len() && sent[i] == effect;
        assert(to[i] == consumer);
    }
}

/// An output that is a step parameter wakes those who wait for it, is what its readers get,
/// and is sent to no one. An output that is not declared is refused.
pub proof fn step_output_is_read(
    w: WorkFlowView,
    node: Seq<char>,
    param: Seq<char>,
    value: JsonView,
    other: Seq<char>,
)
    requires
        w.bus.wf(),
    ensures
        ({
            let key = node + "."@ + param;
            let (after, r) = w.output(node, param, value);
            &&& r is Ok <==> assoc(w.bus.types, key) is Some
            &&& r is Err ==> after == w && r == Err::<(), ErrorView>(
                ErrorView::ParameterNotFound(key),
            )
            &&& assoc(w.bus.types, key) == Some(ParameterType::Step) ==> {
                &&& after.bus.read(key) == Ok::<Option<JsonView>, ErrorView>(Some(value))
                &&& after.outbox == w.outbox.push(EffectView::Written(key))
                &&& after == (WorkFlowView { bus: after.bus, outbox: after.outbox, ..w })
            }
            &&& other != key ==> after.bus.read(other) == w.bus.read(other) && published(
                after.bus,
                other,
            ) == published(w.bus, other)
        }),
{
    let key = node + "."@ + param;
    crate::parameter_bus::parameters_are_used_by_their_type(w.bus, key);
    crate::parameter_bus::declared_parameters_can_be_set(w.bus, key);
    if assoc(w.bus.types, key) is Some {
        setting_changes_one_parameter(w.bus, key, value, key);
        setting_changes_one_parameter(w.bus, key, value, other);
    }
}

/// An output that a node sets: the node, the parameter and the value.
pub struct OutputView {
    pub node: Seq<char>,
    pub param: Seq<char>,
    pub value: JsonView,
}

/// The workflow after several outputs were set, one after the other.
pub open spec fn after_outputs(w: WorkFlowView, outputs: Seq<OutputView>) -> WorkFlowView
    decreases outputs.len(),
{
    if outputs.len() == 0 {
        w
    } else {
        let o = outputs.last();
        after_outputs(w, outputs.drop_last()).output(o.node, o.param, o.value).0
    }
}

/// The values among several outputs that are set at a key, in order.
pub open spec fn values_at(outputs: Seq<OutputView>, key: Seq<char>) -> Seq<JsonView>
    decreases outputs.len(),
{
    if outputs.len() == 0 {
        Seq::empty()
    } else {
        let o = outputs.last();
        let front = values_at(outputs.drop_last(), key);
        if o.node + "."@ + o.param == key {
            front.push(o.value)
        } else {
            front
        }
    }
}

/// The values of a key that effects send to a consumer, in order.
pub open spec fn sent_to(effects: Seq<EffectView>, key: Seq<char>, consumer: Seq<char>) -> Seq<
    JsonView,
>
    decreases effects.len(),
{
    if effects.len() == 0 {
        Seq::empty()
    } else {
        let front = sent_to(effects.drop_last(), key, consumer);
        match effects.last() {
            EffectView::Deliver { key: k, consumer: c, value } => if k == key && c == consumer {
                front.push(value)
            } else {
                front
            },
            _ => front,
        }
    }
}

proof fn sent_to_is_additive(
    a: Seq<EffectView>,
    b: Seq<EffectView>,
    key: Seq<char>,
    consumer: Seq<char>,
)
    ensures
        sent_to(a + b, key, consumer) == sent_to(a, key, consumer) + sent_to(b, key, consumer),
    decreases b.len(),
{
    if b.len() == 0 {
        assert(a + b =~= a);
        assert(sent_to(a, key, consumer) + Seq::<JsonView>::empty() =~= sent_to(a, key, consumer));
    } else {
        sent_to_is_additive(a, b.drop_last(), key, consumer);
        assert((a + b).drop_last() =~= a + b.drop_last());
        let x = sent_to(a, key, consumer);
        let y = sent_to(b.drop_last(), key, consumer);
        if let EffectView::Deliver { key: k, consumer: c, value } = b.last() {
            assert((x + y).push(value) =~= x + y.push(value));
        }
    }
}

proof fn nothing_sent(effects: Seq<EffectView>, key: Seq<char>, consumer: Seq<char>)
    requires
        forall|i: int|
            0 <= i < effects.len() ==> !(#[trigger] effects[i] matches EffectView::Deliver {
                key: k,
                consumer: c,
                value: _,
            } && k == key && c == consumer),
    ensures
        sent_to(effects, key, consumer).len() == 0,
    decreases effects.len(),
{
    if effects.len() > 0 {
        assert(effects[effects.len() - 1] == effects.last());
        assert forall|i: int| 0 <= i < effects.drop_last().len() implies !(
        #[trigger] effects.drop_last()[i] matches EffectView::Deliver {
            key: k,
            consumer: c,
            value: _,
        } && k == key && c == consumer) by {
            assert(effects[i] == effects.drop_last()[i]);
        }
        nothing_sent(effects.drop_last(), key, consumer);
    }
}

proof fn sent_once(
    effects: Seq<EffectView>,
    key: Seq<char>,
    consumer: Seq<char>,
    value: JsonView,
)
    requires
        effects.no_duplicates(),
        effects.contains(EffectView::Deliver { key, consumer, value }),
        forall|i: int|
            0 <= i < effects.len() ==> (#[trigger] effects[i] matches EffectView::Deliver {
                key: k,
                consumer: _,
                value: v,
            } && k == key && v == value),
    ensures
        sent_to(effects, key, consumer) == seq![value],
    decreases effects.len(),
{
    let one = EffectView::Deliver { key, consumer, value };
    let front = effects.drop_last();
    let at = choose|i: int| 0 <= i < effects.len() && effects[i] == one;
    assert forall|i: int| 0 <= i < front.len() implies (
    #[trigger] front[i] matches EffectView::Deliver { key: k, consumer: _, value: v } && k == key
        && v == value) by {
        assert(effects[i] == front[i]);
    }
    if effects.last() == one {
        assert forall|i: int| 0 <= i < front.len() implies !(
        #[trigger] front[i] matches EffectView::Deliver { key: k, consumer: c, value: _ } && k
            == key && c == consumer) by {
            assert(effects[i] != effects[effects.len() - 1]);
        }
        nothing_sent(front, key, consumer);
        assert(sent_to(front, key, consumer).push(value) =~= seq![value]);
    } else {
        assert(effects[effects.len() - 1] == effects.last());
        assert(front[at] == one);
        assert(front.no_duplicates()) by {
            assert forall|i: int, j: int|
                0 <= i < front.len() && 0 <= j < front.len() && i != j implies front[i]
                != front[j] by {
                assert(effects[i] != effects[j]);
            }
        }
        sent_once(front, key, consumer, value);
    }
}

/// A consumer that has subscribed to a stream is sent the values that nodes then put out
/// under its key: all of them, each once, in order, whatever else is put out.
pub proof fn consumer_is_sent_every_output(
    w: WorkFlowView,
    key: Seq<char>,
    consumer: Seq<char>,
    outputs: Seq<OutputView>,
)
    requires
        w.bus.wf(),
        assoc(w.bus.types, key) == Some(ParameterType::Stream),
        assoc(consumers(w.bus, key), consumer) is Some,
    ensures
        ({
            let after = after_outputs(w, outputs);
            &&& after.bus.wf()
            &&& after.bus.types == w.bus.types
            &&& after.bus.subscribers == w.bus.subscribers
            &&& after.outbox.len() >= w.outbox.len()
            &&& after.outbox.take(w.outbox.len() as int) == w.outbox
            &&& sent_to(after.outbox.skip(w.outbox.len() as int), key, consumer) == values_at(
                outputs,
                key,
            )
            &&& published(after.bus, key) == published(w.bus, key) + values_at(outputs, key)
        }),
    decreases outputs.len(),
{
    let n = w.outbox.len() as int;
    if outputs.len() == 0 {
        assert(w.outbox.take(n) =~= w.outbox);
        assert(w.outbox.skip(n) =~= Seq::empty());
        assert(published(w.bus, key) + Seq::<JsonView>::empty() =~= published(w.bus, key));
    } else {
        let front = outputs.drop_last();
        let o = outputs.last();
        let mid = after_outputs(w, front);
        let (after, r) = mid.output(o.node, o.param, o.value);
        let own = o.node + "."@ + o.param;
        consumer_is_sent_every_output(w, key, consumer, front);
        step_output_is_read(mid, o.node, o.param, o.value, key);
        bus_stays_well_formed(mid.bus, own, ParameterType::Step, o.value, consumer);
        assert(consumers(mid.bus, key) == consumers(w.bus, key));
        let m = mid.outbox.len() as int;
        let added = after.outbox.skip(m);
        if assoc(mid.bus.types, own) == Some(ParameterType::Stream) {
            stream_output_goes_to_each_consumer(mid, o.node, o.param, o.value, consumer);
            if own == key {
                sent_once(added, key, consumer, o.value);
            } else {
                nothing_sent(added, key, consumer);
            }
        } else if assoc(mid.bus.types, own) == Some(ParameterType::Step) {
            assert(added =~= seq![EffectView::Written(own)]);
            nothing_sent(added, key, consumer);
        } else {
            assert(added =~= Seq::empty());
        }
        assert(after.outbox =~= mid.outbox + added);
        assert(after.outbox.take(n) =~= mid.outbox.take(n));
        assert(after.outbox.skip(n) =~= mid.outbox.skip(n) + added);
        sent_to_is_additive(mid.outbox.skip(n), added, key, consumer);
        let so_far = values_at(front, key);
        if own == key {
            assert(so_far + seq![o.value] =~= so_far.push(o.value));
            assert((published(w.bus, key) + so_far).push(o.value) =~= published(w.bus, key)
                + so_far.push(o.value));
        } else {
            let s = sent_to(mid.outbox.skip(n), key, consumer);
            assert(s + sent_to(added, key, consumer) =~= s);
        }
    }
}

/// A consumer that subscribes late misses nothing: what was published when it subscribed,
/// followed by what it is sent of the outputs from then on, is all that was published.
pub proof fn late_consumer_misses_nothing(
    w: WorkFlowView,
    key: Seq<char>,
    consumer: Seq<char>,
    outputs: Seq<OutputView>,
)
    requires
        w.bus.wf(),
        w.bus.subscribe_error(key) is None,
    ensures
        ({
            let joined = WorkFlowView { bus: w.bus.subscribe(key, consumer), ..w };
            let after = after_outputs(joined, outputs);
            published(after.bus, key) == published(w.bus, key) + sent_to(
                after.outbox.skip(w.outbox.len() as int),
                key,
                consumer,
            )
        }),
{
    let joined = WorkFlowView { bus: w.bus.subscribe(key, consumer), ..w };
    bus_stays_well_formed(w.bus, key, ParameterType::Step, JsonView::Null, consumer);
    crate::parameter_bus::subscribing_adds_one_consumer(w.bus, key, consumer, key, consumer);
    assert(published(joined.bus, key) == published(w.bus, key));
    consumer_is_sent_every_output(joined, key, consumer, outputs);
}

/// The count after another is greater by one, modulo 2^64.
pub proof fn counts_go_up_by_one(n: u64)
    ensures
        next_count(n) as int == (n + 1) % 0x1_0000_0000_0000_0000,
{
}

/// Activating a node that is not running sets its flag and wakes it; taking the activation
/// up lowers the flag and makes the node running. Each touches nothing else: no other flag
/// or count of the node, no other node, and nothing but the nodes and the effects.
pub proof fn activation_touches_one_node(w: WorkFlowView, node: Seq<char>, other: Seq<char>)
    ensures
        ({
            let (on, r) = w.activate(node);
            let (taken, t) = w.take_activation(node);
            &&& r is Ok <==> assoc(w.nodes, node) is Some
            &&& t is Ok <==> assoc(w.nodes, node) is Some
            &&& r is Err ==> on == w && r == Err::<(), ErrorView>(ErrorView::NodeNotFound(node))
            &&& t is Err ==> taken == w && t == Err::<bool, ErrorView>(
                ErrorView::NodeNotFound(node),
            )
            &&& other != node ==> assoc(on.nodes, other) == assoc(w.nodes, other)
            &&& other != node ==> assoc(taken.nodes, other) == assoc(w.nodes, other)
            &&& on == (WorkFlowView { nodes: on.nodes, outbox: on.outbox, ..w })
            &&& taken == (WorkFlowView { nodes: taken.nodes, ..w })
            &&& assoc(w.nodes, node) is Some ==> {
                let info = assoc(w.nodes, node)->0;
                &&& !info.running ==> assoc(on.nodes, node) == Some(
                    NodeInfo { activated: true, ..info },
                ) && on.outbox == w.outbox.push(EffectView::Activated(node))
                &&& t == Ok::<bool, ErrorView>(info.activated)
                &&& info.activated ==> assoc(taken.nodes, node) == Some(
                    NodeInfo { activated: false, running: true, ..info },
                )
                &&& !info.activated ==> taken == w
            }
        }),
{
    if let Some(info) = assoc(w.nodes, node) {
        let ignored = NodeInfo { ignored_count: next_count(info.ignored_count), ..info };
        let on = NodeInfo { activated: true, ..info };
        let taken = NodeInfo { activated: false, running: true, ..info };
        crate::string_map::assoc_after_update(w.nodes, node, ignored, other);
        crate::string_map::assoc_after_update(w.nodes, node, on, node);
        crate::string_map::assoc_after_update(w.nodes, node, on, other);
        crate::string_map::assoc_after_update(w.nodes, node, taken, node);
        crate::string_map::assoc_after_update(w.nodes, node, taken, other);
    }
}

/// Noting whether a node runs, and that it completed a run, changes just that of the node:
/// a completed run is counted once.
pub proof fn notes_touch_one_node(
    w: WorkFlowView,
    node: Seq<char>,
    running: bool,
    other: Seq<char>,
)
    requires
        assoc(w.nodes, node) is Some,
    ensures
        ({
            let info = assoc(w.nodes, node)->0;
            let (marked, r) = w.mark_running(node, running);
            let (counted, c) = w.mark_completed(node);
            &&& r is Ok && c is Ok
            &&& assoc(marked.nodes, node) == Some(NodeInfo { running, ..info })
            &&& assoc(counted.nodes, node) == Some(
                NodeInfo { completed_count: next_count(info.completed_count), ..info },
            )
            &&& other != node ==> assoc(marked.nodes, other) == assoc(w.nodes, other)
            &&& other != node ==> assoc(counted.nodes, other) == assoc(w.nodes, other)
            &&& marked == (WorkFlowView { nodes: marked.nodes, ..w })
            &&& counted == (WorkFlowView { nodes: counted.nodes, ..w })
        }),
{
    let info = assoc(w.nodes, node)->0;
    let marked = NodeInfo { running, ..info };
    let counted = NodeInfo { completed_count: next_count(info.completed_count), ..info };
    crate::string_map::assoc_after_update(w.nodes, node, marked, node);
    crate::string_map::assoc_after_update(w.nodes, node, marked, other);
    crate::string_map::assoc_after_update(w.nodes, node, counted, node);
    crate::string_map::assoc_after_update(w.nodes, node, counted, other);
}

/// The names of the nodes that get a task are those of the nodes that run, each once.
pub proof fn spawned_once(nodes: Seq<(Seq<char>, NodeInfo)>)
    requires
        sorted(nodes),
    ensures
        runable_names(nodes).no_duplicates(),
        forall|i: int|
            0 <= i < runable_names(nodes).len() ==> assoc(
                nodes,
                #[trigger] runable_names(nodes)[i],
            ) is Some && assoc(nodes, runable_names(nodes)[i])->0.runable,
        forall|k: int|
            0 <= k < nodes.len() && (#[trigger] nodes[k]).1.runable ==> runable_names(
                nodes,
            ).contains(nodes[k].0),
    decreases nodes.len(),
{
    if nodes.len() > 0 {
        let front = nodes.drop_last();
        let before = runable_names(front);
        let names = runable_names(nodes);
        let last = nodes.len() - 1;
        assert forall|i: int, j: int| 0 <= i < j < front.len() implies crate::text::text_less(
            #[trigger] front[i].0,
            #[trigger] front[j].0,
        ) by {
            assert(crate::text::text_less(nodes[i].0, nodes[j].0));
        }
        spawned_once(front);
        assert forall|i: int| #![trigger before[i]] 0 <= i < before.len() implies exists|k: int|
            0 <= k < last && (#[trigger] nodes[k]).0 == before[i] && nodes[k].1.runable by {
            crate::string_map::assoc_some_iff(front, before[i]);
            let k = choose|k: int| 0 <= k < front.len() && (#[trigger] front[k]).0 == before[i];
            assoc_of_entry(front, k);
            assert(nodes[k] == front[k]);
        }
        assoc_of_entry(nodes, last);
        assert forall|i: int| 0 <= i < names.len() implies assoc(
            nodes,
            #[trigger] names[i],
        ) is Some && assoc(nodes, names[i])->0.runable by {
            if i < before.len() {
                assert(names[i] == before[i]);
                let k = choose|k: int|
                    0 <= k < last && (#[trigger] nodes[k]).0 == before[i] && nodes[k].1.runable;
                assoc_of_entry(nodes, k);
            }
        }
        assert forall|i: int, j: int|
            0 <= i < names.len() && 0 <= j < names.len() && i != j implies names[i] != names[j] by {
            if i < before.len() && j < before.len() {
                assert(before[i] != before[j]);
            } else {
                let a = if i < j {
                    i
                } else {
                    j
                };
                let k = choose|k: int|
                    0 <= k < last && (#[trigger] nodes[k]).0 == before[a] && nodes[k].1.runable;
                assert(crate::text::text_less(nodes[k].0, nodes[last].0));
                crate::text::text_less_irreflexive(nodes[last].0);
            }
        }
        assert forall|k: int| 0 <= k < nodes.len() && (#[trigger] nodes[k]).1.runable
            implies names.contains(nodes[k].0) by {
            if k < last {
                assert(front[k] == nodes[k]);
                let i = choose|i: int| 0 <= i < before.len() && before[i] == nodes[k].0;
                assert(names[i] == nodes[k].0);
            } else {
                assert(names[names.len() - 1] == nodes[k].0);
            }
        }
    }
}

/// Starting a run makes the workflow running and starts one task for each node that runs
/// and for no other; the nodes have their tasks then, and the start node is activated.
/// Without a start node, or where it is no node of the workflow, starting fails.
pub proof fn start_spawns_each_node_once(w: WorkFlowView, node: Seq<char>)
    requires
        sorted(w.nodes),
    ensures
        ({
            let (after, r) = w.launch();
            let added = after.outbox.skip(w.outbox.len() as int);
            &&& after.status == WorkflowStatus::Running
            &&& after.outbox.len() >= w.outbox.len()
            &&& after.outbox.take(w.outbox.len() as int) == w.outbox
            &&& added.contains(EffectView::Spawn(node)) <==> assoc(w.nodes, node) is Some && assoc(
                w.nodes,
                node,
            )->0.runable
            &&& added.no_duplicates()
            &&& r is Ok <==> w.start_node is Some && assoc(w.nodes, w.start_node->0) is Some
            &&& assoc(after.nodes, node) is Some <==> assoc(w.nodes, node) is Some
            &&& assoc(w.nodes, node) is Some && assoc(w.nodes, node)->0.runable ==> assoc(
                after.nodes,
                node,
            )->0.spawned
            &&& w.start_node == Some(node) && assoc(w.nodes, node) is Some && !assoc(
                w.nodes,
                node,
            )->0.running ==> assoc(after.nodes, node)->0.activated && added.last()
                == EffectView::Activated(node)
            &&& w.start_node != Some(node) && assoc(w.nodes, node) is Some ==> assoc(
                after.nodes,
                node,
            ) == Some(
                NodeInfo {
                    spawned: assoc(w.nodes, node)->0.spawned || assoc(w.nodes, node)->0.runable,
                    ..assoc(w.nodes, node)->0
                },
            )
            &&& after == (WorkFlowView {
                status: WorkflowStatus::Running,
                nodes: after.nodes,
                outbox: after.outbox,
                ..w
            })
        }),
{
    let names = runable_names(w.nodes);
    let spawned = spawn_all(w.nodes);
    let (after, r) = w.launch();
    let n = w.outbox.len() as int;
    let added = after.outbox.skip(n);
    spawned_once(w.nodes);
    spawned_info(w.nodes, node);
    if let Some(start) = w.start_node {
        let launched = (WorkFlowView {
            status: WorkflowStatus::Running,
            nodes: spawned,
            ..w
        }).emit_all(spawns(names));
        spawned_info(w.nodes, start);
        activation_touches_one_node(launched, start, node);
        if assoc(spawned, start) is Some && assoc(spawned, start)->0.running {
            running_node_ignores_activation(launched, start);
        }
    }
    assert(after.outbox.take(n) =~= w.outbox);
    let tail = added.skip(names.len() as int);
    assert(added =~= spawns(names) + tail);
    assert(tail.len() <= 1);
    assert(tail.len() == 1 ==> tail[0] is Activated);
    assert forall|i: int, j: int|
        0 <= i < added.len() && 0 <= j < added.len() && i != j implies added[i] != added[j] by {
        if i < names.len() && j < names.len() {
            assert(names[i] != names[j]);
            assert(added[i] == EffectView::Spawn(names[i]));
            assert(added[j] == EffectView::Spawn(names[j]));
        } else if i < names.len() {
            assert(added[i] is Spawn);
            assert(added[j] == tail[j - names.len()]);
        } else {
            assert(added[j] is Spawn);
            assert(added[i] == tail[i - names.len()]);
        }
    }
    let effect = EffectView::Spawn(node);
    if added.contains(effect) {
        let i = choose|i: int| 0 <= i < added.len() && added[i] == effect;
        if i >= names.len() {
            assert(added[i] == tail[i - names.len()]);
        }
        assert(names[i] == node);
    }
    if assoc(w.nodes, node) is Some && assoc(w.nodes, node)->0.runable {
        crate::string_map::assoc_some_iff(w.nodes, node);
        let k = choose|k: int| 0 <= k < w.nodes.len() && (#[trigger] w.nodes[k]).0 == node;
        assoc_of_entry(w.nodes, k);
        let i = choose|i: int| 0 <= i < names.len() && names[i] == node;
        assert(added[i] == effect);
    }
}

proof fn spawned_info(nodes: Seq<(Seq<char>, NodeInfo)>, node: Seq<char>)
    ensures
        assoc(spawn_all(nodes), node) == (match assoc(nodes, node) {
            Some(info) => Some(NodeInfo { spawned: info.spawned || info.runable, ..info }),
            None => None,
        }),
    decreases nodes.len(),
{
    if nodes.len() > 0 {
        spawned_info(nodes.skip(1), node);
        assert(spawn_all(nodes).skip(1) =~= spawn_all(nodes.skip(1)));
    }
}

/// A choice ends the workflow where it leads to `finish` and else activates its target and
/// nothing but it; a choice that the map lacks is refused and changes nothing.
pub proof fn choice_goes_where_the_map_leads(
    w: WorkFlowView,
    node: Seq<char>,
    choice: Seq<char>,
    map: Seq<(Seq<char>, Seq<char>)>,
    cancel: bool,
)
    ensures
        ({
            let (after, r) = w.choice(node, choice, map, cancel);
            &&& assoc(map, choice) is None ==> after == w && r is Err
            &&& assoc(map, choice) is Some ==> {
                let target = assoc(map, choice)->0;
                &&& r is Ok <==> target == "finish"@ || assoc(w.nodes, target) is Some
                &&& r is Ok ==> r == Ok::<Seq<char>, ErrorView>(target)
                &&& target != "finish"@ ==> after.nodes == w.activate(target).0.nodes
                    && after.status == w.status && after.finish_node == w.finish_node
                &&& target == "finish"@ ==> after.nodes == w.nodes && after.status
                    == WorkflowStatus::Finished && after.finish_node == Some(node)
            }
            &&& after.bus == w.bus && after.context == w.context && after.memory == w.memory
                && after.messages == w.messages
        }),
{
    if let Some(target) = assoc(map, choice) {
        cancel_others_emits_only(w.go_to(node, target).0, map, target);
        activation_touches_one_node(w, target, target);
    }
}

/// Cancelling aborts the task of a node that has one, where no activation waits and the
/// node is neither reentrant nor a key node; it changes nothing but the effects.
pub proof fn cancelling_aborts_what_it_may(w: WorkFlowView, node: Seq<char>)
    requires
        node != "finish"@,
        assoc(w.nodes, node) is Some,
    ensures
        ({
            let info = assoc(w.nodes, node)->0;
            let may = info.spawned && !info.activated && !info.reentrant && !info.key_node;
            w.cancel(node) == (if may {
                WorkFlowView { outbox: w.outbox.push(EffectView::Abort(node)), ..w }
            } else {
                w
            })
        }),
{
}

/// A choice that cancels the others aborts the task of every other target that may be
/// cancelled, and never that of the target it goes to.
pub proof fn choice_cancels_the_other_targets(
    w: WorkFlowView,
    choices: Seq<(Seq<char>, Seq<char>)>,
    target: Seq<char>,
    k: int,
)
    ensures
        ({
            let after = cancel_others(w, choices, target);
            let added = after.outbox.skip(w.outbox.len() as int);
            &&& after.outbox.len() >= w.outbox.len()
            &&& after.outbox.take(w.outbox.len() as int) == w.outbox
            &&& 0 <= k < choices.len() && choices[k].1 != target && w.cancel(choices[k].1) != w
                ==> added.contains(EffectView::Abort(choices[k].1))
            &&& !added.contains(EffectView::Abort(target))
        }),
    decreases choices.len(),
{
    let n = w.outbox.len() as int;
    let after = cancel_others(w, choices, target);
    if choices.len() == 0 {
        assert(w.outbox.take(n) =~= w.outbox);
        assert(w.outbox.skip(n) =~= Seq::empty());
    } else {
        let front = choices.drop_last();
        let last = choices.last().1;
        let mid = cancel_others(w, front, target);
        choice_cancels_the_other_targets(w, front, target, k);
        cancel_others_emits_only(w, front, target);
        assert(after.outbox.take(n) =~= mid.outbox.take(n));
        let old_part = mid.outbox.skip(n);
        let added = after.outbox.skip(n);
        if after.outbox == mid.outbox {
            assert(added == old_part);
        } else {
            assert(added =~= old_part.push(EffectView::Abort(last)));
        }
        if 0 <= k < choices.len() && choices[k].1 != target && w.cancel(choices[k].1) != w {
            if k < front.len() {
                assert(front[k] == choices[k]);
                let i = choose|i: int|
                    0 <= i < old_part.len() && old_part[i] == EffectView::Abort(choices[k].1);
                assert(added[i] == EffectView::Abort(choices[k].1));
            } else {
                assert(assoc(mid.nodes, last) == assoc(w.nodes, last));
                assert(added[added.len() - 1] == EffectView::Abort(last));
            }
        }
        if added.contains(EffectView::Abort(target)) {
            let i = choose|i: int|
                0 <= i < added.len() && added[i] == EffectView::Abort(target);
            assert(old_part[i] == EffectView::Abort(target));
        }
    }
}

/// The user and the session are the texts that the context has for them; a value that is no
/// text counts as nothing; and the workflow's own name for itself stands for the session
/// exactly where the context has no session.
pub proof fn identifiers_come_from_the_context(w: WorkFlowView, s: Seq<char>)
    ensures
        assoc(w.context, "user_id"@) == Some(JsonView::Text(s)) ==> w.identifiers().0 == s,
        !(assoc(w.context, "user_id"@) matches Some(JsonView::Text(_))) ==> w.identifiers().0.len()
            == 0,
        assoc(w.context, "session_id"@) == Some(JsonView::Text(s)) ==> w.identifiers().1 == s,
        assoc(w.context, "session_id"@) is None && assoc(w.context, "workflow_id"@) == Some(
            JsonView::Text(s),
        ) ==> w.identifiers().1 == s,
        assoc(w.context, "session_id"@) is Some && !(assoc(
            w.context,
            "session_id"@,
        )->0 is Text) ==> w.identifiers().1.len() == 0,
        assoc(w.context, "session_id"@) is None && !(assoc(
            w.context,
            "workflow_id"@,
        ) matches Some(JsonView::Text(_))) ==> w.identifiers().1.len() == 0,
{
}

/// A message that is queued waits behind those before it and wakes whoever waits for one;
/// taking one takes the oldest, and where there is none takes nothing. Neither touches
/// anything else.
pub proof fn messages_wait_in_line(w: WorkFlowView, message: JsonView)
    ensures
        w.with_message(message) == (WorkFlowView {
            messages: w.messages.push(message),
            outbox: w.outbox.push(EffectView::Queued),
            ..w
        }),
        w.messages.len() == 0 ==> w.take_message() == (w, None::<JsonView>),
        w.messages.len() > 0 ==> w.take_message().1 == Some(w.messages[0]) && w.messages
            == seq![w.messages[0]] + w.take_message().0.messages && w.take_message().0 == (
        WorkFlowView { messages: w.take_message().0.messages, ..w }),
{
    if w.messages.len() > 0 {
        assert(w.messages =~= seq![w.messages[0]] + w.messages.skip(1));
    }
}

/// A node that was added is there as it was declared, fresh and without a task, its outputs
/// declared; the other nodes are as they were.
pub proof fn added_node_is_fresh(w: WorkFlowView, decl: NodeDecl, other: Seq<char>)
    ensures
        ({
            let after = w.add_node(decl);
            &&& assoc(after.nodes, decl.name) is Some
            &&& ({
                let info = assoc(after.nodes, decl.name)->0;
                &&& info.key_node == decl.key_node && info.reentrant == decl.reentrant
                    && info.runable == decl.runable
                &&& !info.activated && !info.running && !info.spawned
                &&& info.completed_count == 0 && info.ignored_count == 0
            })
            &&& other != decl.name ==> assoc(after.nodes, other) == assoc(w.nodes, other)
            &&& after == (WorkFlowView { bus: after.bus, nodes: after.nodes, ..w })
        }),
{
    crate::string_map::assoc_after_insert(
        w.nodes,
        decl.name,
        NodeInfo::fresh(decl),
        decl.name,
    );
    crate::string_map::assoc_after_insert(w.nodes, decl.name, NodeInfo::fresh(decl), other);
}

/// The result of a workflow is there exactly when it is finished, and has the value of each
/// step output of the node that finished it under the output's name, and nothing else.
pub proof fn result_has_the_outputs_of_the_last_node(w: WorkFlowView, param: Seq<char>)
    requires
        w.wf(),
        w.status == WorkflowStatus::Finished,
    ensures
        w.result() is Ok,
        ({
            let key = w.finish_node->0 + "."@ + param;
            assoc(w.result()->Ok_0, param) == (match w.bus.read(key) {
                Ok(v) => v,
                Err(_) => None,
            })
        }),
{
    let node = w.finish_node->0;
    let key = node + "."@ + param;
    crate::parameter_bus::results_are_the_step_values(w.bus, node, param);
    crate::parameter_bus::parameters_are_used_by_their_type(w.bus, key);
}

/// The end of the workflow aborts the task of a node exactly where the node has one, is no
/// key node, and neither runs nor has an activation waiting.
pub proof fn waiting_tasks_are_aborted(w: WorkFlowView, k: int)
    requires
        sorted(w.nodes),
        0 <= k < w.nodes.len(),
    ensures
        ({
            let (name, info) = w.nodes[k];
            let added = w.cancel_inactive().outbox.skip(w.outbox.len() as int);
            added.contains(EffectView::Abort(name)) <==> info.spawned && !info.key_node
                && !info.activated && !info.running
        }),
        w.cancel_inactive() == (WorkFlowView { outbox: w.cancel_inactive().outbox, ..w }),
{
    let (name, info) = w.nodes[k];
    let names = inactive_names(w.nodes);
    let after = w.cancel_inactive().outbox;
    let added = after.skip(w.outbox.len() as int);
    finishing_aborts_exactly_the_inactive(w);
    inactive_names_are_inactive(w.nodes);
    assert(added =~= aborts(names));
    if info.is_inactive() {
        assert(names.contains(name));
        let i = choose|i: int| 0 <= i < names.len() && names[i] == name;
        assert(aborts(names)[i] == EffectView::Abort(name));
    }
    if added.contains(EffectView::Abort(name)) {
        let i = choose|i: int| 0 <= i < added.len() && added[i] == EffectView::Abort(name);
        assert(names[i] == name);
        assert(names_inactive(w.nodes, names[i]));
        assoc_of_entry(w.nodes, k);
        let j = choose|j: int|
            0 <= j < w.nodes.len() && (#[trigger] w.nodes[j]).0 == name && w.nodes[j].1.is_inactive();
        assoc_of_entry(w.nodes, j);
    }
}

/// What a workflow cannot do it refuses, and says why: a choice that the map lacks, a
/// target that is no node, a start without a start node, and a result before the end.
pub proof fn refusals_say_why(
    w: WorkFlowView,
    node: Seq<char>,
    choice: Seq<char>,
    map: Seq<(Seq<char>, Seq<char>)>,
    cancel: bool,
)
    ensures
        assoc(map, choice) is None ==> w.choice(node, choice, map, cancel).1 == Err::<
            Seq<char>,
            ErrorView,
        >(ErrorView::ConfigError("Choice '"@ + choice + "' not found in choice_map"@)),
        assoc(map, choice) matches Some(target) ==> target != "finish"@ && assoc(
            w.nodes,
            target,
        ) is None ==> w.choice(node, choice, map, cancel) == (
            w,
            Err::<Seq<char>, ErrorView>(ErrorView::NodeNotFound(target)),
        ),
        w.start_node is None ==> w.launch().1 == Err::<(), ErrorView>(
            ErrorView::ConfigError("Start node not set"@),
        ),
        w.status != WorkflowStatus::Finished ==> w.result() == Err::<
            Seq<(Seq<char>, JsonView)>,
            ErrorView,
        >(ErrorView::InvalidState("Workflow not finished"@)),
        w.status == WorkflowStatus::Finished && w.finish_node is None ==> w.result() == Err::<
            Seq<(Seq<char>, JsonView)>,
            ErrorView,
        >(ErrorView::Other("Finish node not set"@)),
{
}

/// Nodes are added one after the other: those of a list after those of another, and one
/// alone as a single node.
pub proof fn nodes_are_added_in_order(
    w: WorkFlowView,
    first: Seq<NodeDecl>,
    second: Seq<NodeDecl>,
    decl: NodeDecl,
)
    ensures
        w.add_nodes(first + second) == w.add_nodes(first).add_nodes(second),
        w.add_nodes(seq![decl]) == w.add_node(decl),
        w.add_nodes(Seq::empty()) == w,
    decreases second.len(),
{
    if second.len() == 0 {
        assert(first + second =~= first);
    } else {
        nodes_are_added_in_order(w, first, second.drop_last(), decl);
        assert((first + second).drop_last() =~= first + second.drop_last());
        assert((first + second).last() == second.last());
    }
    reveal_with_fuel(WorkFlowView::add_nodes, 2);
    assert(seq![decl].drop_last() =~= Seq::empty());
}

} // verus!
