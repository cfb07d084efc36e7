//! Builds workflows of configurations.
use vstd::prelude::*;

use crate::config::schema::{
    node_views, NodeConfigJson, NodeJsonView, WorkflowConfig, WorkflowConfigView,
};
use crate::config::workflow::{load_outcome, load_workflow_config, LoadOutcome, MetaView};
use crate::context_sync::{ContextSyncConfig, ContextSyncManager, SyncView};
use crate::error::{option_view, result_view, ErrorView, WorkflowError};
use crate::node::base::{BaseNode, NodeContext, NodeDecl};
use crate::node::registry::{NodeFactory, NodeRegistry};
use crate::nodes::condition_node::{words_name_the_tests, ConditionType};
use crate::parameter_bus::{param_key, words_name_the_types, BusView, ParameterType};
use crate::string_map::{
    assoc, assoc_after_insert, assoc_insert, assoc_some_iff, keys_of, sorted, Duplicate, StringMap,
};
use crate::text::{
    cat2, cat3, cat5, contains_text, debug_list, debug_texts, has_prefix, lowercase,
    occurrence_is_a_part, prefix_is_what_it_begins_with, split, split_text, strip_prefix, text_eq,
    text_less, text_less_irreflexive, texts, to_lowercase,
};
use crate::value::{Json, JsonView, NumberView};
use crate::workflow::{added_node_is_fresh, decls_of, WorkFlow, WorkFlowView, WorkflowStatus};
use vstd::string::StringExecFns;

verus! {

// ---------------------------------------------------------------------------
// The parameters of the workflow
// ---------------------------------------------------------------------------

/// The type that a word names, in any case.
pub open spec fn parameter_type(word: Seq<char>) -> Result<ParameterType, ErrorView> {
    match ParameterType::named(lowercase(word)) {
        Some(t) => Ok(t),
        None => Err(
            ErrorView::ConfigError(
                "Invalid parameter type: "@ + word + ". Expected 'step' or 'stream'"@,
            ),
        ),
    }
}

/// The types of the input parameters, up to the first word that names none.
pub open spec fn input_types(
    params: Seq<(Seq<char>, Seq<char>)>,
    got: Seq<(Seq<char>, ParameterType)>,
) -> Result<Seq<(Seq<char>, ParameterType)>, ErrorView>
    decreases params.len(),
{
    if params.len() == 0 {
        Ok(got)
    } else {
        match parameter_type(params[0].1) {
            Ok(t) => input_types(params.skip(1), assoc_insert(got, params[0].0, t)),
            Err(e) => Err(e),
        }
    }
}

// ---------------------------------------------------------------------------
// The nodes
// ---------------------------------------------------------------------------

/// The error that the type of a node is not registered.
pub open spec fn type_missing(node: NodeJsonView) -> ErrorView {
    ErrorView::NodeTypeNotRegistered(
        "Node type '"@ + node.node_type + "' not registered for node '"@ + node.node_name + "'"@,
    )
}

/// Whether the nodes of a list of configurations can have been made with these
/// declarations.
pub open spec fn nodes_made<F: NodeFactory>(
    registry: Seq<(Seq<char>, F)>,
    configs: Seq<NodeJsonView>,
    decls: Seq<NodeDecl>,
) -> bool {
    &&& decls.len() == configs.len()
    &&& forall|i: int|
        0 <= i < decls.len() ==> node_made(registry, configs[i], #[trigger] decls[i])
}

/// Whether the node of a configuration can have been made with this declaration.
pub open spec fn node_made<F: NodeFactory>(
    registry: Seq<(Seq<char>, F)>,
    config: NodeJsonView,
    decl: NodeDecl,
) -> bool {
    match assoc(registry, config.node_type) {
        Some(f) => f.creates(config.config(), Ok(decl)),
        None => false,
    }
}

/// Whether making the node of a configuration can have failed with this error: its
/// type is not registered, or its factory failed.
pub open spec fn node_failed<F: NodeFactory>(
    registry: Seq<(Seq<char>, F)>,
    config: NodeJsonView,
    e: ErrorView,
) -> bool {
    match assoc(registry, config.node_type) {
        Some(f) => f.creates(config.config(), Err(e)),
        None => e == type_missing(config),
    }
}

/// Whether making the nodes can have failed with this error: at some configuration,
/// after those before it had been made.
pub open spec fn nodes_failed<F: NodeFactory>(
    registry: Seq<(Seq<char>, F)>,
    configs: Seq<NodeJsonView>,
    e: ErrorView,
) -> bool {
    exists|decls: Seq<NodeDecl>| #[trigger] failed_after(registry, configs, decls, e)
}

/// Whether the first nodes were made with these declarations and the next one failed.
pub open spec fn failed_after<F: NodeFactory>(
    registry: Seq<(Seq<char>, F)>,
    configs: Seq<NodeJsonView>,
    decls: Seq<NodeDecl>,
    e: ErrorView,
) -> bool {
    &&& decls.len() < configs.len()
    &&& nodes_made(registry, configs.take(decls.len() as int), decls)
    &&& node_failed(registry, configs[decls.len() as int], e)
}

// ---------------------------------------------------------------------------
// What can be wrong with nodes and their configurations
// ---------------------------------------------------------------------------

/// Whether some node has the name.
pub open spec fn has_decl(decls: Seq<NodeDecl>, name: Seq<char>) -> bool {
    exists|i: int| 0 <= i < decls.len() && (#[trigger] decls[i]).name == name
}

/// What is wrong with the choices of a node, if anything is: a choice that the node
/// does not have, or a target that is neither the end nor a node.
pub open spec fn choice_error(
    decls: Seq<NodeDecl>,
    node: NodeDecl,
    choices: Seq<(Seq<char>, Seq<char>)>,
) -> Option<ErrorView>
    decreases choices.len(),
{
    if choices.len() == 0 {
        None
    } else {
        let (choice, target) = choices[0];
        if !node.choices.contains(choice) {
            Some(
                ErrorView::ConfigError(
                    "Node '"@ + node.name + "': choice '"@ + choice
                        + "' in choice_map not found in node's choices "@ + debug_list(
                        node.choices,
                    ),
                ),
            )
        } else if target != "finish"@ && !has_decl(decls, target) {
            Some(
                ErrorView::ConfigError(
                    "Node '"@ + node.name + "': target node '"@ + target
                        + "' in choice_map does not exist"@,
                ),
            )
        } else {
            choice_error(decls, node, choices.skip(1))
        }
    }
}

/// Whether a source is the key of an output that some node declares.
pub open spec fn has_output(decls: Seq<NodeDecl>, source: Seq<char>) -> bool {
    exists|i: int| 0 <= i < decls.len() && declares(#[trigger] decls[i], source)
}

/// Whether a source is the key of an output that a node declares.
pub open spec fn declares(node: NodeDecl, source: Seq<char>) -> bool {
    has_prefix(source, node.name + "."@) && assoc(
        node.outputs,
        source.skip((node.name + "."@).len() as int),
    ) is Some
}

/// Whether a source is the key of an input parameter of the workflow.
pub open spec fn is_start_input(params: Seq<(Seq<char>, Seq<char>)>, source: Seq<char>) -> bool {
    has_prefix(source, "start."@) && assoc(params, source.skip("start."@.len() as int)) is Some
}

/// What is wrong with the source of an input, if anything is: it has no dot, it
/// begins neither with `start` nor with `context` nor with the name of a node, or it
/// begins otherwise than with `context` and is neither an input parameter of the
/// workflow nor an output of a node.
pub open spec fn source_error(
    params: Seq<(Seq<char>, Seq<char>)>,
    decls: Seq<NodeDecl>,
    node: NodeDecl,
    source: Seq<char>,
) -> Option<ErrorView> {
    let from = split_text(source, '.')[0];
    if !contains_text(source, "."@) {
        Some(
            ErrorView::ConfigError(
                "Node '"@ + node.name + "': invalid source key '"@ + source
                    + "' in input_map, expected format 'node_name.param_name'"@,
            ),
        )
    } else if from != "start"@ && from != "context"@ && !has_decl(decls, from) {
        Some(
            ErrorView::ConfigError(
                "Node '"@ + node.name + "': source node '"@ + from
                    + "' in input_map does not exist"@,
            ),
        )
    } else if from != "context"@ && !is_start_input(params, source) && !has_output(
        decls,
        source,
    ) {
        Some(
            ErrorView::ConfigError(
                "Node '"@ + node.name + "': source parameter '"@ + source
                    + "' in input_map does not exist"@,
            ),
        )
    } else {
        None
    }
}

/// What is wrong with the inputs of a node, if anything is: an input that the node
/// does not have, or its source.
pub open spec fn input_error(
    params: Seq<(Seq<char>, Seq<char>)>,
    decls: Seq<NodeDecl>,
    node: NodeDecl,
    inputs: Seq<(Seq<char>, Option<Seq<char>>)>,
) -> Option<ErrorView>
    decreases inputs.len(),
{
    if inputs.len() == 0 {
        None
    } else {
        let (param, source) = inputs[0];
        if assoc(node.inputs, param) is None {
            Some(
                ErrorView::ConfigError(
                    "Node '"@ + node.name + "': parameter '"@ + param
                        + "' in input_map not found in node's input_parameters"@,
                ),
            )
        } else if source is Some && source_error(params, decls, node, source->0) is Some {
            source_error(params, decls, node, source->0)
        } else {
            input_error(params, decls, node, inputs.skip(1))
        }
    }
}

/// The words, in any case, for the tests that compare with a value.
pub open spec fn compares(word: Seq<char>) -> bool {
    match ConditionType::named(lowercase(word)) {
        Some(ConditionType::IsTrue) | Some(ConditionType::IsFalse) | None => false,
        Some(_) => true,
    }
}

/// What is wrong with a loop, if anything is.
pub open spec fn loop_error(c: NodeJsonView) -> Option<ErrorView> {
    let name = c.node_name;
    let at = "Node '"@ + name;
    let limit = match assoc(c.attrs, "max_iterations"@) {
        Some(v) => v.as_u64(),
        None => None,
    };
    if assoc(c.choice_map, "continue"@) is None || assoc(c.choice_map, "exit"@) is None {
        Some(
            ErrorView::ConfigError(
                at + "': while_node choice_map must contain 'continue' and 'exit'"@,
            ),
        )
    } else if c.config().text_attr("memory_key"@) is None {
        Some(ErrorView::ConfigError(at + "': while_node requires string attrs.memory_key"@))
    } else if c.config().text_attr("condition_type"@) is None {
        Some(ErrorView::ConfigError(at + "': while_node requires string attrs.condition_type"@))
    } else if limit is None || limit == Some(0u64) {
        Some(ErrorView::ConfigError(at + "': while_node requires attrs.max_iterations > 0"@))
    } else if compares(c.config().text_attr("condition_type"@)->0) && assoc(
        c.attrs,
        "compare_value"@,
    ) is None {
        Some(
            ErrorView::ConfigError(
                at + "': while_node condition_type '"@ + c.config().text_attr(
                    "condition_type"@,
                )->0 + "' requires attrs.compare_value"@,
            ),
        )
    } else {
        match assoc(c.attrs, "increment"@) {
            Some(v) => if v is Number {
                None
            } else {
                Some(
                    ErrorView::ConfigError(at + "': while_node attrs.increment must be numeric"@),
                )
            },
            None => None,
        }
    }
}

/// What is wrong with a node and its configuration, if anything is.
pub open spec fn node_error(
    params: Seq<(Seq<char>, Seq<char>)>,
    decls: Seq<NodeDecl>,
    node: NodeDecl,
    c: NodeJsonView,
) -> Option<ErrorView> {
    match choice_error(decls, node, c.choice_map) {
        Some(e) => Some(e),
        None => match input_error(params, decls, node, c.input_map) {
            Some(e) => Some(e),
            None => if c.node_type == "while_node"@ {
                loop_error(c)
            } else {
                None
            },
        },
    }
}

/// The first thing that is wrong with a list of nodes and their configurations.
pub open spec fn nodes_error(
    params: Seq<(Seq<char>, Seq<char>)>,
    decls: Seq<NodeDecl>,
    nodes: Seq<NodeDecl>,
    cs: Seq<NodeJsonView>,
) -> Option<ErrorView>
    decreases nodes.len(),
{
    if nodes.len() == 0 || cs.len() == 0 {
        None
    } else {
        match node_error(params, decls, nodes[0], cs[0]) {
            Some(e) => Some(e),
            None => nodes_error(params, decls, nodes.skip(1), cs.skip(1)),
        }
    }
}

// ---------------------------------------------------------------------------
// The workflow
// ---------------------------------------------------------------------------

/// Whether rules are there and switched on.
pub open spec fn is_enabled(sync: Option<SyncView>) -> bool {
    match sync {
        Some(s) => s.enabled,
        None => false,
    }
}

/// The parameters of a workflow before it has nodes: its inputs.
pub open spec fn started_bus(params: Seq<(Seq<char>, ParameterType)>) -> BusView {
    BusView::empty().declare_all("start"@, params)
}

/// The workflow that is built of a started one and of nodes with these declarations,
/// or the error.
pub open spec fn completed(
    started: WorkFlowView,
    c: WorkflowConfigView,
    manager: Option<SyncView>,
    unified: Option<SyncView>,
    decls: Seq<NodeDecl>,
) -> Result<WorkFlowView, ErrorView> {
    match nodes_error(c.input_parameters, decls, decls, c.nodes) {
        Some(e) => Err(e),
        None => {
            let w = WorkFlowView {
                status: WorkflowStatus::Ready,
                start_node: Some(c.start_node),
                ..started.add_nodes(decls)
            };
            if manager is Some {
                Ok(WorkFlowView { context_sync: manager, ..w })
            } else if is_enabled(c.context_sync) || is_enabled(unified) {
                Err(
                    ErrorView::ConfigError(
                        "context_sync is enabled in workflow configuration, but ContextSyncManager was not injected"@,
                    ),
                )
            } else {
                Ok(w)
            }
        },
    }
}

/// The workflow that is built of input parameters and of nodes with these
/// declarations, or the error.
pub open spec fn assembled(
    name: Seq<char>,
    params: Seq<(Seq<char>, ParameterType)>,
    c: WorkflowConfigView,
    manager: Option<SyncView>,
    unified: Option<SyncView>,
    decls: Seq<NodeDecl>,
) -> Result<WorkFlowView, ErrorView> {
    completed(
        WorkFlowView { bus: started_bus(params), ..WorkFlowView::empty(name) },
        c,
        manager,
        unified,
        decls,
    )
}

fn has_name<N: BaseNode>(nodes: &Vec<N>, name: &str) -> (r: bool)
    ensures
        r == has_decl(decls_of(nodes@), name@),
{
    let mut i: usize = 0;
    while i < nodes.len()
        invariant
            i <= nodes@.len(),
            forall|j: int| 0 <= j < i ==> (#[trigger] decls_of(nodes@)[j]).name != name@,
        decreases nodes@.len() - i,
    {
        if text_eq(nodes[i].name(), name) {
            proof {
                assert(decls_of(nodes@)[i as int].name == name@);
            }
            return true;
        }
        i = i + 1;
    }
    false
}

fn has_key<N: BaseNode>(nodes: &Vec<N>, source: &str) -> (r: bool)
    ensures
        r == has_output(decls_of(nodes@), source@),
{
    let mut i: usize = 0;
    while i < nodes.len()
        invariant
            i <= nodes@.len(),
            forall|j: int| 0 <= j < i ==> !declares(#[trigger] decls_of(nodes@)[j], source@),
        decreases nodes@.len() - i,
    {
        let prefix = cat2(nodes[i].name(), ".");
        if let Some(param) = strip_prefix(source, prefix.as_str()) {
            if nodes[i].output_parameters().contains_key(param.as_str()) {
                proof {
                    assert(declares(decls_of(nodes@)[i as int], source@));
                }
                return true;
            }
        }
        i = i + 1;
    }
    false
}

fn has_text(items: &Vec<String>, text: &str) -> (r: bool)
    ensures
        r == texts(items@).contains(text@),
{
    let mut i: usize = 0;
    while i < items.len()
        invariant
            i <= items@.len(),
            forall|j: int| 0 <= j < i ==> #[trigger] texts(items@)[j] != text@,
        decreases items@.len() - i,
    {
        if text_eq(items[i].as_str(), text) {
            proof {
                assert(texts(items@)[i as int] == text@);
            }
            return true;
        }
        i = i + 1;
    }
    false
}

fn node_message(name: &str, a: &str, b: &str, c: &str) -> (r: WorkflowError)
    ensures
        r@ == ErrorView::ConfigError("Node '"@ + name@ + a@ + b@ + c@),
{
    WorkflowError::ConfigError(cat5("Node '", name, a, b, c))
}

/// Builds workflows of configurations and a registry of node types.
#[derive(Debug)]
pub struct WorkflowBuilder<F> {
    pub registry: NodeRegistry<F>,
    pub configs: StringMap<WorkflowConfig>,
    pub context_sync: Option<ContextSyncManager>,
    pub context_sync_config: Option<ContextSyncConfig>,
}

impl<F: NodeFactory> WorkflowBuilder<F> {
    /// A builder.
    pub fn new(registry: NodeRegistry<F>, configs: StringMap<WorkflowConfig>) -> (r: Self)
        ensures
            r.registry == registry,
            r.configs == configs,
            r.context_sync is None,
            r.context_sync_config is None,
    {
        WorkflowBuilder { registry, configs, context_sync: None, context_sync_config: None }
    }

    /// The builder with a manager, which every workflow gets that is built.
    pub fn with_context_sync(self, manager: ContextSyncManager) -> (r: Self)
        ensures
            r == (WorkflowBuilder { context_sync: Some(manager), ..self }),
    {
        let mut out = self;
        out.context_sync = Some(manager);
        out
    }

    /// The builder with the rules that were read from a file, which count only where no
    /// manager is there; or the error that says why they were not read.
    pub fn with_context_sync_from_json(self, json_path: &str, outcome: LoadOutcome) -> (r: Result<
        Self,
        WorkflowError,
    >)
        ensures
            match r {
                Ok(b) => {
                    &&& outcome is Loaded
                    &&& option_view(b.context_sync_config) == outcome->Loaded_0@.context_sync
                    &&& b == (WorkflowBuilder {
                        context_sync_config: b.context_sync_config,
                        ..self
                    })
                },
                Err(e) => load_outcome(json_path@, outcome) == Err::<MetaView, ErrorView>(e@),
            },
    {
        match load_workflow_config(json_path, outcome) {
            Ok(config) => {
                let mut out = self;
                out.context_sync_config = config.context_sync;
                Ok(out)
            },
            Err(e) => Err(e),
        }
    }

    /// Declares the input parameters of a workflow.
    pub fn init_input_parameters(
        &self,
        workflow: &mut WorkFlow,
        input_parameters: &StringMap<String>,
    ) -> (r: Result<(), WorkflowError>)
        ensures
            match r {
                Ok(()) => {
                    &&& input_types(input_parameters@, Seq::empty()) is Ok
                    &&& final(workflow)@ == (WorkFlowView {
                        bus: old(workflow)@.bus.declare_all(
                            "start"@,
                            input_types(input_parameters@, Seq::empty())->Ok_0,
                        ),
                        ..old(workflow)@
                    })
                },
                Err(e) => {
                    &&& input_types(input_parameters@, Seq::empty()) == Err::<
                        Seq<(Seq<char>, ParameterType)>,
                        ErrorView,
                    >(e@)
                    &&& final(workflow)@ == old(workflow)@
                },
            },
    {
        let mut params: StringMap<ParameterType> = StringMap::new();
        let ghost target = input_types(input_parameters@, Seq::empty());
        let mut i: usize = 0;
        proof {
            assert(input_parameters@.skip(0) =~= input_parameters@);
        }
        while i < input_parameters.len()
            invariant
                i <= input_parameters@.len(),
                target == input_types(input_parameters@, Seq::empty()),
                target == input_types(input_parameters@.skip(i as int), params@),
                *workflow == *old(workflow),
            decreases input_parameters@.len() - i,
        {
            proof {
                assert(input_parameters@.skip(i as int)[0] == input_parameters@[i as int]);
                assert(input_parameters@.skip(i as int).skip(1) =~= input_parameters@.skip(i + 1));
            }
            match ParameterType::from_str(input_parameters.value_at(i).as_str()) {
                Ok(t) => {
                    params.insert(input_parameters.key_at(i).to_owned(), t);
                },
                Err(e) => {
                    return Err(e);
                },
            }
            i = i + 1;
        }
        workflow.parameter_bus.init_output_parameters("start", &params);
        Ok(())
    }

    /// Makes the nodes of a list of configurations.
    pub fn create_nodes(&self, node_configs: &Vec<NodeConfigJson>, workflow: &WorkFlow) -> (r: Result<
        Vec<F::Node>,
        WorkflowError,
    >)
        ensures
            match r {
                Ok(nodes) => nodes_made(
                    self.registry@,
                    node_views(node_configs@),
                    decls_of(nodes@),
                ),
                Err(e) => nodes_failed(self.registry@, node_views(node_configs@), e@),
            },
    {
        let ghost configs = node_views(node_configs@);
        let ghost registry = self.registry@;
        let mut nodes: Vec<F::Node> = Vec::new();
        let ctx = NodeContext::new(Some(workflow));
        let mut i: usize = 0;
        while i < node_configs.len()
            invariant
                i <= node_configs@.len(),
                configs == node_views(node_configs@),
                registry == self.registry@,
                nodes@.len() == i,
                forall|j: int|
                    0 <= j < i ==> node_made(
                        registry,
                        configs[j],
                        #[trigger] decls_of(nodes@)[j],
                    ),
            decreases node_configs@.len() - i,
        {
            let config = &node_configs[i];
            let ghost done = decls_of(nodes@);
            proof {
                assert forall|j: int| 0 <= j < done.len() implies node_made(
                    registry,
                    configs.take(i as int)[j],
                    #[trigger] done[j],
                ) by {
                    assert(configs.take(i as int)[j] == configs[j]);
                }
                assert(nodes_made(registry, configs.take(done.len() as int), done));
            }
            if !self.registry.is_registered(config.node_type.as_str()) {
                proof {
                    assert(failed_after(registry, configs, done, type_missing(configs[i as int])));
                }
                return Err(
                    WorkflowError::NodeTypeNotRegistered(
                        cat5(
                            "Node type '",
                            config.node_type.as_str(),
                            "' not registered for node '",
                            config.node_name.as_str(),
                            "'",
                        ),
                    ),
                );
            }
            match self.registry.create_node(
                config.node_type.as_str(),
                config.to_node_config(),
                ctx,
            ) {
                Ok(node) => {
                    let ghost d = node.decl();
                    nodes.push(node);
                    proof {
                        assert(decls_of(nodes@) =~= done.push(d));
                        assert(node_made(registry, configs[i as int], d));
                    }
                },
                Err(e) => {
                    proof {
                        assert(failed_after(registry, configs, done, e@));
                    }
                    return Err(e);
                },
            }
            i = i + 1;
        }
        Ok(nodes)
    }

    fn validate_choices<N: BaseNode>(nodes: &Vec<N>, node: &N, choices: &StringMap<String>) -> (r:
        Result<(), WorkflowError>)
        ensures
            match r {
                Ok(()) => choice_error(decls_of(nodes@), node.decl(), choices@) is None,
                Err(e) => choice_error(decls_of(nodes@), node.decl(), choices@) == Some(e@),
            },
    {
        let ghost all = decls_of(nodes@);
        let mut i: usize = 0;
        proof {
            assert(choices@.skip(0) =~= choices@);
        }
        while i < choices.len()
            invariant
                i <= choices@.len(),
                all == decls_of(nodes@),
                choice_error(all, node.decl(), choices@) == choice_error(
                    all,
                    node.decl(),
                    choices@.skip(i as int),
                ),
            decreases choices@.len() - i,
        {
            proof {
                assert(choices@.skip(i as int)[0] == choices@[i as int]);
                assert(choices@.skip(i as int).skip(1) =~= choices@.skip(i + 1));
            }
            let choice = choices.key_at(i);
            let target = choices.value_at(i).as_str();
            if !has_text(node.choices(), choice) {
                let list = debug_texts(node.choices());
                let mut text = cat5(
                    "Node '",
                    node.name(),
                    "': choice '",
                    choice,
                    "' in choice_map not found in node's choices ",
                );
                text.append(list.as_str());
                return Err(WorkflowError::ConfigError(text));
            }
            if !text_eq(target, "finish") && !has_name(nodes, target) {
                return Err(
                    node_message(
                        node.name(),
                        "': target node '",
                        target,
                        "' in choice_map does not exist",
                    ),
                );
            }
            i = i + 1;
        }
        Ok(())
    }

    fn validate_source<N: BaseNode>(
        input_parameters: &StringMap<String>,
        nodes: &Vec<N>,
        node: &N,
        source: &str,
    ) -> (r: Result<(), WorkflowError>)
        ensures
            ({
                let error = source_error(
                    input_parameters@,
                    decls_of(nodes@),
                    node.decl(),
                    source@,
                );
                match r {
                    Ok(()) => error is None,
                    Err(e) => error == Some(e@),
                }
            }),
    {
        if !crate::text::contains(source, ".") {
            return Err(
                node_message(
                    node.name(),
                    "': invalid source key '",
                    source,
                    "' in input_map, expected format 'node_name.param_name'",
                ),
            );
        }
        let parts = split(source, '.');
        proof {
            assert(texts(parts@)[0] == parts@[0]@);
        }
        let from = parts[0].as_str();
        if text_eq(from, "context") {
            return Ok(());
        }
        if !text_eq(from, "start") && !has_name(nodes, from) {
            return Err(
                node_message(
                    node.name(),
                    "': source node '",
                    from,
                    "' in input_map does not exist",
                ),
            );
        }
        let is_input = match strip_prefix(source, "start.") {
            Some(param) => input_parameters.contains_key(param.as_str()),
            None => false,
        };
        if !is_input && !has_key(nodes, source) {
            return Err(
                node_message(
                    node.name(),
                    "': source parameter '",
                    source,
                    "' in input_map does not exist",
                ),
            );
        }
        Ok(())
    }

    fn validate_inputs<N: BaseNode>(
        input_parameters: &StringMap<String>,
        nodes: &Vec<N>,
        node: &N,
        inputs: &StringMap<crate::node::base::InputSource>,
    ) -> (r: Result<(), WorkflowError>)
        ensures
            match r {
                Ok(()) => input_error(
                    input_parameters@,
                    decls_of(nodes@),
                    node.decl(),
                    inputs@,
                ) is None,
                Err(e) => input_error(
                    input_parameters@,
                    decls_of(nodes@),
                    node.decl(),
                    inputs@,
                ) == Some(e@),
            },
    {
        let ghost all = decls_of(nodes@);
        let mut i: usize = 0;
        proof {
            assert(inputs@.skip(0) =~= inputs@);
        }
        while i < inputs.len()
            invariant
                i <= inputs@.len(),
                all == decls_of(nodes@),
                input_error(input_parameters@, all, node.decl(), inputs@) == input_error(
                    input_parameters@,
                    all,
                    node.decl(),
                    inputs@.skip(i as int),
                ),
            decreases inputs@.len() - i,
        {
            proof {
                assert(inputs@.skip(i as int)[0] == inputs@[i as int]);
                assert(inputs@.skip(i as int).skip(1) =~= inputs@.skip(i + 1));
            }
            let param = inputs.key_at(i);
            if !node.input_parameters().contains_key(param) {
                return Err(
                    node_message(
                        node.name(),
                        "': parameter '",
                        param,
                        "' in input_map not found in node's input_parameters",
                    ),
                );
            }
            if let Some(source) = &inputs.value_at(i).key {
                match Self::validate_source(input_parameters, nodes, node, source.as_str()) {
                    Ok(()) => {},
                    Err(e) => {
                        return Err(e);
                    },
                }
            }
            i = i + 1;
        }
        Ok(())
    }

    /// Checks nodes against their configurations and the input parameters of the
    /// workflow, and stops at the first error.
    pub fn validate_nodes<N: BaseNode>(
        &self,
        nodes: &Vec<N>,
        node_configs: &Vec<NodeConfigJson>,
        input_parameters: &StringMap<String>,
    ) -> (r: Result<(), WorkflowError>)
        ensures
            match r {
                Ok(()) => nodes_error(
                    input_parameters@,
                    decls_of(nodes@),
                    decls_of(nodes@),
                    node_views(node_configs@),
                ) is None,
                Err(e) => nodes_error(
                    input_parameters@,
                    decls_of(nodes@),
                    decls_of(nodes@),
                    node_views(node_configs@),
                ) == Some(e@),
            },
    {
        let ghost all = decls_of(nodes@);
        let ghost cs = node_views(node_configs@);
        let mut i: usize = 0;
        proof {
            assert(all.skip(0) =~= all);
            assert(cs.skip(0) =~= cs);
        }
        while i < nodes.len() && i < node_configs.len()
            invariant
                i <= nodes@.len(),
                i <= node_configs@.len(),
                all == decls_of(nodes@),
                cs == node_views(node_configs@),
                nodes_error(input_parameters@, all, all, cs) == nodes_error(
                    input_parameters@,
                    all,
                    all.skip(i as int),
                    cs.skip(i as int),
                ),
            decreases nodes@.len() - i,
        {
            let node = &nodes[i];
            let config = &node_configs[i];
            proof {
                assert(all.skip(i as int)[0] == node.decl());
                assert(cs.skip(i as int)[0] == config@);
                assert(all.skip(i as int).skip(1) =~= all.skip(i + 1));
                assert(cs.skip(i as int).skip(1) =~= cs.skip(i + 1));
            }
            match Self::validate_choices(nodes, node, &config.choice_map) {
                Ok(()) => {},
                Err(e) => {
                    return Err(e);
                },
            }
            match Self::validate_inputs(input_parameters, nodes, node, &config.input_map) {
                Ok(()) => {},
                Err(e) => {
                    return Err(e);
                },
            }
            if text_eq(config.node_type.as_str(), "while_node") {
                match self.validate_while_node_config(config) {
                    Ok(()) => {},
                    Err(e) => {
                        return Err(e);
                    },
                }
            }
            i = i + 1;
        }
        Ok(())
    }

    /// Checks the configuration of a loop.
    pub fn validate_while_node_config(&self, config: &NodeConfigJson) -> (r: Result<
        (),
        WorkflowError,
    >)
        ensures
            match r {
                Ok(()) => loop_error(config@) is None,
                Err(e) => loop_error(config@) == Some(e@),
            },
    {
        let name = config.node_name.as_str();
        if !config.choice_map.contains_key("continue") || !config.choice_map.contains_key("exit") {
            return Err(
                WorkflowError::ConfigError(
                    cat3(
                        "Node '",
                        name,
                        "': while_node choice_map must contain 'continue' and 'exit'",
                    ),
                ),
            );
        }
        let has_memory_key = match config.attrs.get("memory_key") {
            Some(v) => v.as_str().is_some(),
            None => false,
        };
        if !has_memory_key {
            return Err(
                WorkflowError::ConfigError(
                    cat3("Node '", name, "': while_node requires string attrs.memory_key"),
                ),
            );
        }
        let word_attr = match config.attrs.get("condition_type") {
            Some(v) => v.as_str(),
            None => None,
        };
        let word = match word_attr {
            Some(word) => word,
            None => {
                return Err(
                    WorkflowError::ConfigError(
                        cat3("Node '", name, "': while_node requires string attrs.condition_type"),
                    ),
                );
            },
        };
        let limit: Option<u64> = match config.attrs.get("max_iterations") {
            Some(v) => v.as_u64(),
            None => None,
        };
        let count: u64 = match limit {
            Some(n) => n,
            None => 0,
        };
        if count == 0 {
            return Err(
                WorkflowError::ConfigError(
                    cat3("Node '", name, "': while_node requires attrs.max_iterations > 0"),
                ),
            );
        }
        let lowered = to_lowercase(word);
        let needs_compare = match ConditionType::from_lowered(lowered.as_str()) {
            Some(t) => t != ConditionType::IsTrue && t != ConditionType::IsFalse,
            None => false,
        };
        if needs_compare && !config.attrs.contains_key("compare_value") {
            return Err(
                node_message(
                    name,
                    "': while_node condition_type '",
                    word,
                    "' requires attrs.compare_value",
                ),
            );
        }
        if let Some(increment) = config.attrs.get("increment") {
            match increment {
                Json::Number(_) => {},
                _ => {
                    return Err(
                        WorkflowError::ConfigError(
                            cat3("Node '", name, "': while_node attrs.increment must be numeric"),
                        ),
                    );
                },
            }
        }
        Ok(())
    }

    /// Puts a workflow together of nodes that were made: checks them, adds them, and
    /// sets the start node and the synchronisation.
    pub fn assemble<N: BaseNode>(
        &self,
        workflow: WorkFlow,
        config: &WorkflowConfig,
        nodes: &Vec<N>,
    ) -> (r: Result<WorkFlow, WorkflowError>)
        ensures
            result_view(r) == completed(
                workflow@,
                config@,
                option_view(self.context_sync),
                option_view(self.context_sync_config),
                decls_of(nodes@),
            ),
    {
        match self.validate_nodes(nodes, &config.nodes, &config.input_parameters) {
            Ok(()) => {},
            Err(e) => {
                return Err(e);
            },
        }
        let mut out = workflow;
        match out.set_nodes(nodes) {
            Ok(()) => {},
            Err(e) => {
                return Err(e);
            },
        }
        out.set_start_node(config.start_node.as_str());
        match &self.context_sync {
            Some(manager) => {
                out.set_context_sync(manager.duplicate());
            },
            None => {
                let in_workflow = match &config.context_sync {
                    Some(c) => c.enabled,
                    None => false,
                };
                let in_unified = match &self.context_sync_config {
                    Some(c) => c.enabled,
                    None => false,
                };
                if in_workflow || in_unified {
                    return Err(
                        WorkflowError::ConfigError(
                            "context_sync is enabled in workflow configuration, but ContextSyncManager was not injected".to_owned(),
                        ),
                    );
                }
            },
        }
        Ok(out)
    }

    /// Builds the workflow of a name, together with its nodes.
    pub fn build(&self, name: &str) -> (r: Result<(WorkFlow, Vec<F::Node>), WorkflowError>)
        ensures
            match assoc(self.configs@, name@) {
                None => r is Err && r->Err_0@ == ErrorView::ConfigError(
                    "Workflow '"@ + name@ + "' not found in configuration"@,
                ),
                Some(c) => match input_types(c.input_parameters, Seq::empty()) {
                    Err(e) => r is Err && r->Err_0@ == e,
                    Ok(params) => match r {
                        Ok((w, nodes)) => {
                            &&& nodes_made(self.registry@, c.nodes, decls_of(nodes@))
                            &&& assembled(
                                name@,
                                params,
                                c,
                                option_view(self.context_sync),
                                option_view(self.context_sync_config),
                                decls_of(nodes@),
                            ) == Ok::<WorkFlowView, ErrorView>(w@)
                        },
                        Err(e) => {
                            ||| nodes_failed(self.registry@, c.nodes, e@)
                            ||| exists|decls: Seq<NodeDecl>| #[trigger]
                                nodes_made(self.registry@, c.nodes, decls) && assembled(
                                    name@,
                                    params,
                                    c,
                                    option_view(self.context_sync),
                                    option_view(self.context_sync_config),
                                    decls,
                                ) == Err::<WorkFlowView, ErrorView>(e@)
                        },
                    },
                },
            },
    {
        let config = match self.configs.get(name) {
            None => {
                return Err(
                    WorkflowError::ConfigError(
                        cat3("Workflow '", name, "' not found in configuration"),
                    ),
                );
            },
            Some(config) => config,
        };
        let mut workflow = WorkFlow::new(name.to_owned());
        match self.init_input_parameters(&mut workflow, &config.input_parameters) {
            Ok(()) => {},
            Err(e) => {
                return Err(e);
            },
        }
        let nodes = match self.create_nodes(&config.nodes, &workflow) {
            Ok(nodes) => nodes,
            Err(e) => {
                return Err(e);
            },
        };
        let ghost params = input_types(config@.input_parameters, Seq::empty())->Ok_0;
        proof {
            assert(workflow@ =~= WorkFlowView {
                bus: started_bus(params),
                ..WorkFlowView::empty(workflow@.name)
            });
        }
        match self.assemble(workflow, config, &nodes) {
            Ok(w) => Ok((w, nodes)),
            Err(e) => {
                proof {
                    assert(nodes_made(self.registry@, config@.nodes, decls_of(nodes@)));
                }
                Err(e)
            },
        }
    }

    /// The names of the workflows, in order.
    pub fn workflow_names(&self) -> (r: Vec<String>)
        ensures
            texts(r@) == keys_of(self.configs@),
    {
        self.configs.keys()
    }

    /// Whether there is a workflow of the name.
    pub fn has_workflow(&self, name: &str) -> (r: bool)
        ensures
            r == (assoc(self.configs@, name@) is Some),
    {
        self.configs.contains_key(name)
    }
}

// ---------------------------------------------------------------------------
// Laws
// ---------------------------------------------------------------------------

proof fn no_error_at(
    params: Seq<(Seq<char>, Seq<char>)>,
    decls: Seq<NodeDecl>,
    nodes: Seq<NodeDecl>,
    cs: Seq<NodeJsonView>,
    i: int,
)
    requires
        nodes_error(params, decls, nodes, cs) is None,
        0 <= i < nodes.len(),
        i < cs.len(),
    ensures
        node_error(params, decls, nodes[i], cs[i]) is None,
    decreases nodes.len(),
{
    if i > 0 {
        no_error_at(params, decls, nodes.skip(1), cs.skip(1), i - 1);
    }
}

proof fn no_choice_error_at(
    decls: Seq<NodeDecl>,
    node: NodeDecl,
    choices: Seq<(Seq<char>, Seq<char>)>,
    k: int,
)
    requires
        choice_error(decls, node, choices) is None,
        0 <= k < choices.len(),
    ensures
        node.choices.contains(choices[k].0),
        choices[k].1 == "finish"@ || has_decl(decls, choices[k].1),
    decreases choices.len(),
{
    if k > 0 {
        no_choice_error_at(decls, node, choices.skip(1), k - 1);
    }
}

proof fn added_node_is_there(w: WorkFlowView, decls: Seq<NodeDecl>, i: int)
    requires
        0 <= i < decls.len(),
    ensures
        assoc(w.add_nodes(decls).nodes, decls[i].name) is Some,
    decreases decls.len(),
{
    let before = w.add_nodes(decls.drop_last());
    crate::string_map::assoc_after_insert(
        before.nodes,
        decls.last().name,
        crate::workflow::NodeInfo::fresh(decls.last()),
        decls[i].name,
    );
    if i < decls.len() - 1 {
        added_node_is_there(w, decls.drop_last(), i);
        assert(decls.drop_last()[i] == decls[i]);
    }
}

/// A workflow that was built is ready, starts at the configured node, and has every
/// node that was made.
pub proof fn built_workflow_is_ready(
    name: Seq<char>,
    params: Seq<(Seq<char>, ParameterType)>,
    c: WorkflowConfigView,
    manager: Option<SyncView>,
    unified: Option<SyncView>,
    decls: Seq<NodeDecl>,
)
    requires
        assembled(name, params, c, manager, unified, decls) is Ok,
    ensures
        ({
            let w = assembled(name, params, c, manager, unified, decls)->Ok_0;
            &&& w.status == WorkflowStatus::Ready
            &&& w.start_node == Some(c.start_node)
            &&& forall|i: int|
                0 <= i < decls.len() ==> assoc(w.nodes, (#[trigger] decls[i]).name) is Some
        }),
{
    let started = WorkFlowView { bus: started_bus(params), ..WorkFlowView::empty(name) };
    assert forall|i: int| 0 <= i < decls.len() implies assoc(
        started.add_nodes(decls).nodes,
        (#[trigger] decls[i]).name,
    ) is Some by {
        added_node_is_there(started, decls, i);
    }
}

/// A workflow that was built is well formed.
pub proof fn built_workflow_is_well_formed(
    name: Seq<char>,
    params: Seq<(Seq<char>, ParameterType)>,
    c: WorkflowConfigView,
    manager: Option<SyncView>,
    unified: Option<SyncView>,
    decls: Seq<NodeDecl>,
)
    requires
        assembled(name, params, c, manager, unified, decls) is Ok,
    ensures
        assembled(name, params, c, manager, unified, decls)->Ok_0.wf(),
{
    let empty = WorkFlowView::empty(name);
    let started = WorkFlowView { bus: started_bus(params), ..empty };
    crate::workflow::declaring_keeps_bus(empty.bus, "start"@, params);
    crate::workflow::added_nodes_keep_well_formed(name, started, decls);
}

/// In a workflow that was built, every configured choice is one that its node has,
/// and leads to the end or to a node of the workflow: making it does not fail.
pub proof fn built_choices_lead_on(
    name: Seq<char>,
    params: Seq<(Seq<char>, ParameterType)>,
    c: WorkflowConfigView,
    manager: Option<SyncView>,
    unified: Option<SyncView>,
    decls: Seq<NodeDecl>,
    i: int,
    k: int,
)
    requires
        assembled(name, params, c, manager, unified, decls) is Ok,
        decls.len() == c.nodes.len(),
        0 <= i < decls.len(),
        0 <= k < c.nodes[i].choice_map.len(),
    ensures
        ({
            let w = assembled(name, params, c, manager, unified, decls)->Ok_0;
            let (choice, target) = c.nodes[i].choice_map[k];
            &&& decls[i].choices.contains(choice)
            &&& target == "finish"@ || assoc(w.nodes, target) is Some
            &&& w.go_to(decls[i].name, target).1 is Ok
        }),
{
    no_error_at(c.input_parameters, decls, decls, c.nodes, i);
    no_choice_error_at(decls, decls[i], c.nodes[i].choice_map, k);
    let target = c.nodes[i].choice_map[k].1;
    built_workflow_is_ready(name, params, c, manager, unified, decls);
    if target != "finish"@ {
        let j = choose|j: int| 0 <= j < decls.len() && (#[trigger] decls[j]).name == target;
        assert(assoc(
            assembled(name, params, c, manager, unified, decls)->Ok_0.nodes,
            decls[j].name,
        ) is Some);
    }
}

proof fn no_input_error_at(
    params: Seq<(Seq<char>, Seq<char>)>,
    decls: Seq<NodeDecl>,
    node: NodeDecl,
    inputs: Seq<(Seq<char>, Option<Seq<char>>)>,
    k: int,
)
    requires
        input_error(params, decls, node, inputs) is None,
        0 <= k < inputs.len(),
    ensures
        assoc(node.inputs, inputs[k].0) is Some,
        inputs[k].1 is Some ==> source_error(params, decls, node, inputs[k].1->0) is None,
    decreases inputs.len(),
{
    if k > 0 {
        no_input_error_at(params, decls, node, inputs.skip(1), k - 1);
    }
}

proof fn declared_is_kept(
    b: BusView,
    node: Seq<char>,
    params: Seq<(Seq<char>, ParameterType)>,
    key: Seq<char>,
)
    requires
        assoc(b.types, key) is Some,
    ensures
        assoc(b.declare_all(node, params).types, key) is Some,
    decreases params.len(),
{
    if params.len() > 0 {
        declared_is_kept(b, node, params.drop_last(), key);
        assoc_after_insert(
            b.declare_all(node, params.drop_last()).types,
            param_key(node, params.last().0),
            params.last().1,
            key,
        );
    }
}

proof fn output_is_declared(
    b: BusView,
    node: Seq<char>,
    params: Seq<(Seq<char>, ParameterType)>,
    k: int,
)
    requires
        0 <= k < params.len(),
    ensures
        assoc(b.declare_all(node, params).types, param_key(node, params[k].0)) is Some,
    decreases params.len(),
{
    let front = b.declare_all(node, params.drop_last());
    assoc_after_insert(
        front.types,
        param_key(node, params.last().0),
        params.last().1,
        param_key(node, params[k].0),
    );
    if k < params.len() - 1 {
        output_is_declared(b, node, params.drop_last(), k);
        assert(params.drop_last()[k] == params[k]);
    }
}

proof fn typed_input_is_there(
    params: Seq<(Seq<char>, Seq<char>)>,
    got: Seq<(Seq<char>, ParameterType)>,
    name: Seq<char>,
)
    requires
        input_types(params, got) is Ok,
        assoc(params, name) is Some || assoc(got, name) is Some,
    ensures
        assoc(input_types(params, got)->Ok_0, name) is Some,
    decreases params.len(),
{
    if params.len() > 0 {
        let t = parameter_type(params[0].1)->Ok_0;
        assoc_after_insert(got, params[0].0, t, name);
        typed_input_is_there(params.skip(1), assoc_insert(got, params[0].0, t), name);
    }
}

proof fn added_nodes_keep_declared(w: WorkFlowView, decls: Seq<NodeDecl>, key: Seq<char>)
    requires
        assoc(w.bus.types, key) is Some,
    ensures
        assoc(w.add_nodes(decls).bus.types, key) is Some,
    decreases decls.len(),
{
    if decls.len() > 0 {
        added_nodes_keep_declared(w, decls.drop_last(), key);
        declared_is_kept(
            w.add_nodes(decls.drop_last()).bus,
            decls.last().name,
            decls.last().outputs,
            key,
        );
    }
}

proof fn started_input_is_there(params: Seq<(Seq<char>, ParameterType)>, source: Seq<char>)
    requires
        has_prefix(source, "start."@),
        assoc(params, source.skip("start."@.len() as int)) is Some,
    ensures
        assoc(started_bus(params).types, source) is Some,
{
    let param = source.skip("start."@.len() as int);
    crate::string_map::assoc_some_iff(params, param);
    let k = choose|k: int| 0 <= k < params.len() && (#[trigger] params[k]).0 == param;
    output_is_declared(BusView::empty(), "start"@, params, k);
    reveal_strlit("start");
    reveal_strlit(".");
    reveal_strlit("start.");
    assert("start"@ + "."@ =~= "start."@);
    assert(source =~= "start."@ + param);
    assert(param_key("start"@, param) =~= source);
}

proof fn added_output_is_there(w: WorkFlowView, decls: Seq<NodeDecl>, i: int, source: Seq<char>)
    requires
        0 <= i < decls.len(),
        declares(decls[i], source),
    ensures
        assoc(w.add_nodes(decls).bus.types, source) is Some,
    decreases decls.len(),
{
    let front = w.add_nodes(decls.drop_last());
    let last = decls.last();
    if i < decls.len() - 1 {
        assert(decls.drop_last()[i] == decls[i]);
        added_output_is_there(w, decls.drop_last(), i, source);
        declared_is_kept(front.bus, last.name, last.outputs, source);
    } else {
        let prefix = last.name + "."@;
        let param = source.skip(prefix.len() as int);
        crate::string_map::assoc_some_iff(last.outputs, param);
        let k = choose|k: int|
            0 <= k < last.outputs.len() && (#[trigger] last.outputs[k]).0 == param;
        output_is_declared(front.bus, last.name, last.outputs, k);
        assert(source =~= source.take(prefix.len() as int) + param);
        assert(param_key(last.name, param) =~= source);
    }
}

/// In a workflow that was built, every configured input is one that its node has; and
/// its source, unless it is a field of the context, is a parameter that the workflow
/// knows.
pub proof fn built_sources_are_known(
    name: Seq<char>,
    params: Seq<(Seq<char>, ParameterType)>,
    c: WorkflowConfigView,
    manager: Option<SyncView>,
    unified: Option<SyncView>,
    decls: Seq<NodeDecl>,
    i: int,
    k: int,
)
    requires
        input_types(c.input_parameters, Seq::empty()) == Ok::<
            Seq<(Seq<char>, ParameterType)>,
            ErrorView,
        >(params),
        assembled(name, params, c, manager, unified, decls) is Ok,
        decls.len() == c.nodes.len(),
        0 <= i < decls.len(),
        0 <= k < c.nodes[i].input_map.len(),
    ensures
        ({
            let w = assembled(name, params, c, manager, unified, decls)->Ok_0;
            let (param, source) = c.nodes[i].input_map[k];
            &&& assoc(decls[i].inputs, param) is Some
            &&& source is Some ==> split_text(source->0, '.')[0] == "context"@ || assoc(
                w.bus.types,
                source->0,
            ) is Some
        }),
{
    no_error_at(c.input_parameters, decls, decls, c.nodes, i);
    no_input_error_at(c.input_parameters, decls, decls[i], c.nodes[i].input_map, k);
    let started = WorkFlowView { bus: started_bus(params), ..WorkFlowView::empty(name) };
    if let Some(source) = c.nodes[i].input_map[k].1 {
        if split_text(source, '.')[0] != "context"@ {
            if is_start_input(c.input_parameters, source) {
                let param = source.skip("start."@.len() as int);
                typed_input_is_there(c.input_parameters, Seq::empty(), param);
                started_input_is_there(params, source);
                added_nodes_keep_declared(started, decls, source);
            } else {
                let j = choose|j: int|
                    0 <= j < decls.len() && declares(#[trigger] decls[j], source);
                added_output_is_there(started, decls, j, source);
            }
        }
    }
}

/// With the node types that the engine brings along, a configuration makes the same
/// nodes every time.
pub proof fn builtin_nodes_are_determined(
    registry: Seq<(Seq<char>, crate::nodes::builtin::BuiltinFactory)>,
    configs: Seq<NodeJsonView>,
    first: Seq<NodeDecl>,
    second: Seq<NodeDecl>,
)
    requires
        nodes_made(registry, configs, first),
        nodes_made(registry, configs, second),
    ensures
        first == second,
{
    assert forall|i: int| 0 <= i < first.len() implies first[i] == second[i] by {
        assert(node_made(registry, configs[i], first[i]));
        assert(node_made(registry, configs[i], second[i]));
    }
    assert(first =~= second);
}

/// Whether a choice of a node is one that the node has, and leads to the end or to a node.
pub open spec fn choice_is_sound(
    decls: Seq<NodeDecl>,
    node: NodeDecl,
    choice: (Seq<char>, Seq<char>),
) -> bool {
    &&& node.choices.contains(choice.0)
    &&& choice.1 == "finish"@ || exists|j: int|
        0 <= j < decls.len() && choice.1 == (#[trigger] decls[j]).name
}

/// Whether a source is the name of a node, a dot, and the name of an output of the node.
pub open spec fn is_output_of(node: NodeDecl, source: Seq<char>) -> bool {
    exists|param: Seq<char>|
        source == #[trigger] (node.name + "."@ + param) && assoc(node.outputs, param) is Some
}

/// Whether an input can come from a source: there is a dot in it, before the first dot
/// stands `start`, `context` or the name of a node, and unless that is `context` the source
/// is an input parameter of the workflow or an output of a node.
pub open spec fn source_is_sound(
    params: Seq<(Seq<char>, Seq<char>)>,
    decls: Seq<NodeDecl>,
    source: Seq<char>,
) -> bool {
    let from = split_text(source, '.')[0];
    &&& source.contains('.')
    &&& from == "start"@ || from == "context"@ || exists|j: int|
        0 <= j < decls.len() && from == (#[trigger] decls[j]).name
    &&& {
        ||| from == "context"@
        ||| exists|param: Seq<char>|
            source == #[trigger] ("start."@ + param) && assoc(params, param) is Some
        ||| exists|j: int| 0 <= j < decls.len() && is_output_of(#[trigger] decls[j], source)
    }
}

/// Whether an input of a node is one that the node has, with a source that it can come
/// from where it has a source.
pub open spec fn input_is_sound(
    params: Seq<(Seq<char>, Seq<char>)>,
    decls: Seq<NodeDecl>,
    node: NodeDecl,
    input: (Seq<char>, Option<Seq<char>>),
) -> bool {
    &&& assoc(node.inputs, input.0) is Some
    &&& input.1 matches Some(source) ==> source_is_sound(params, decls, source)
}

/// Whether a word, in any case, is that of a test that compares with a value.
pub open spec fn is_comparing_word(word: Seq<char>) -> bool {
    let w = lowercase(word);
    ||| w == "equals"@
    ||| w == "eq"@
    ||| w == "not_equals"@
    ||| w == "ne"@
    ||| w == "greater_than"@
    ||| w == "gt"@
    ||| w == "less_than"@
    ||| w == "lt"@
    ||| w == "contains"@
}

/// Whether a loop has all that it needs: both choices, the text of a place in memory, the
/// text of a test, a limit above zero, a value to compare with where the test compares, and
/// an increment that is a number where it has one.
pub open spec fn loop_is_sound(c: NodeJsonView) -> bool {
    &&& assoc(c.choice_map, "continue"@) is Some
    &&& assoc(c.choice_map, "exit"@) is Some
    &&& assoc(c.attrs, "memory_key"@) matches Some(JsonView::Text(_))
    &&& assoc(c.attrs, "condition_type"@) matches Some(JsonView::Text(word)) && (
    is_comparing_word(word) ==> assoc(c.attrs, "compare_value"@) is Some)
    &&& assoc(c.attrs, "max_iterations"@) matches Some(JsonView::Number(NumberView::PosInt(n)))
        && n > 0
    &&& assoc(c.attrs, "increment"@) matches Some(v) ==> v is Number
}

/// Whether a node goes with its configuration.
pub open spec fn node_is_sound(
    params: Seq<(Seq<char>, Seq<char>)>,
    decls: Seq<NodeDecl>,
    node: NodeDecl,
    c: NodeJsonView,
) -> bool {
    &&& forall|k: int|
        0 <= k < c.choice_map.len() ==> choice_is_sound(decls, node, #[trigger] c.choice_map[k])
    &&& forall|k: int|
        0 <= k < c.input_map.len() ==> input_is_sound(
            params,
            decls,
            node,
            #[trigger] c.input_map[k],
        )
    &&& c.node_type == "while_node"@ ==> loop_is_sound(c)
}

proof fn dot_is_contained(s: Seq<char>)
    ensures
        contains_text(s, "."@) <==> s.contains('.'),
{
    reveal_strlit(".");
    occurrence_is_a_part(s, "."@);
    if contains_text(s, "."@) {
        let (a, b) = choose|a: Seq<char>, b: Seq<char>| s == #[trigger] (a + "."@ + b);
        assert((a + "."@ + b)[a.len() as int] == '.');
    }
    if s.contains('.') {
        let i = choose|i: int| 0 <= i < s.len() && s[i] == '.';
        assert(s =~= s.take(i) + "."@ + s.skip(i + 1));
    }
}

proof fn same_declared(decls: Seq<NodeDecl>, name: Seq<char>)
    ensures
        has_decl(decls, name) <==> exists|j: int|
            0 <= j < decls.len() && name == (#[trigger] decls[j]).name,
{
    if has_decl(decls, name) {
        let j = choose|j: int| 0 <= j < decls.len() && (#[trigger] decls[j]).name == name;
        assert(name == decls[j].name);
    }
    if exists|j: int| 0 <= j < decls.len() && name == (#[trigger] decls[j]).name {
        let j = choose|j: int| 0 <= j < decls.len() && name == (#[trigger] decls[j]).name;
        assert(decls[j].name == name);
    }
}

proof fn same_output(node: NodeDecl, source: Seq<char>)
    ensures
        declares(node, source) <==> is_output_of(node, source),
{
    let p = node.name + "."@;
    prefix_is_what_it_begins_with(source, p);
    if declares(node, source) {
        assert(source == node.name + "."@ + source.skip(p.len() as int));
    }
    if is_output_of(node, source) {
        let param = choose|param: Seq<char>|
            source == #[trigger] (node.name + "."@ + param) && assoc(node.outputs, param) is Some;
        assert(source == p + param);
        assert(source.skip(p.len() as int) =~= param);
    }
}

proof fn same_start_input(params: Seq<(Seq<char>, Seq<char>)>, source: Seq<char>)
    ensures
        is_start_input(params, source) <==> exists|param: Seq<char>|
            source == #[trigger] ("start."@ + param) && assoc(params, param) is Some,
{
    let p = "start."@;
    prefix_is_what_it_begins_with(source, p);
    if is_start_input(params, source) {
        assert(source == "start."@ + source.skip(p.len() as int));
    }
    if exists|param: Seq<char>|
        source == #[trigger] ("start."@ + param) && assoc(params, param) is Some {
        let param = choose|param: Seq<char>|
            source == #[trigger] ("start."@ + param) && assoc(params, param) is Some;
        assert(source.skip(p.len() as int) =~= param);
    }
}

proof fn sound_source(
    params: Seq<(Seq<char>, Seq<char>)>,
    decls: Seq<NodeDecl>,
    node: NodeDecl,
    source: Seq<char>,
)
    ensures
        source_error(params, decls, node, source) is None <==> source_is_sound(
            params,
            decls,
            source,
        ),
{
    dot_is_contained(source);
    same_declared(decls, split_text(source, '.')[0]);
    same_start_input(params, source);
    if has_output(decls, source) {
        let j = choose|j: int| 0 <= j < decls.len() && declares(#[trigger] decls[j], source);
        same_output(decls[j], source);
        assert(is_output_of(decls[j], source));
    }
    if exists|j: int| 0 <= j < decls.len() && is_output_of(#[trigger] decls[j], source) {
        let j = choose|j: int| 0 <= j < decls.len() && is_output_of(#[trigger] decls[j], source);
        same_output(decls[j], source);
        assert(declares(decls[j], source));
    }
}

proof fn sound_choices(
    decls: Seq<NodeDecl>,
    node: NodeDecl,
    choices: Seq<(Seq<char>, Seq<char>)>,
)
    ensures
        choice_error(decls, node, choices) is None <==> forall|k: int|
            0 <= k < choices.len() ==> choice_is_sound(decls, node, #[trigger] choices[k]),
    decreases choices.len(),
{
    if choices.len() > 0 {
        let rest = choices.skip(1);
        sound_choices(decls, node, rest);
        same_declared(decls, choices[0].1);
        if choice_error(decls, node, choices) is None {
            assert forall|k: int| 0 <= k < choices.len() implies choice_is_sound(
                decls,
                node,
                #[trigger] choices[k],
            ) by {
                if k > 0 {
                    assert(rest[k - 1] == choices[k]);
                }
            }
        }
        if forall|k: int|
            0 <= k < choices.len() ==> choice_is_sound(decls, node, #[trigger] choices[k]) {
            assert(choice_is_sound(decls, node, choices[0]));
            assert forall|k: int| 0 <= k < rest.len() implies choice_is_sound(
                decls,
                node,
                #[trigger] rest[k],
            ) by {
                assert(rest[k] == choices[k + 1]);
            }
        }
    }
}

proof fn sound_inputs(
    params: Seq<(Seq<char>, Seq<char>)>,
    decls: Seq<NodeDecl>,
    node: NodeDecl,
    inputs: Seq<(Seq<char>, Option<Seq<char>>)>,
)
    ensures
        input_error(params, decls, node, inputs) is None <==> forall|k: int|
            0 <= k < inputs.len() ==> input_is_sound(params, decls, node, #[trigger] inputs[k]),
    decreases inputs.len(),
{
    if inputs.len() > 0 {
        let rest = inputs.skip(1);
        sound_inputs(params, decls, node, rest);
        if let Some(source) = inputs[0].1 {
            sound_source(params, decls, node, source);
        }
        if input_error(params, decls, node, inputs) is None {
            assert forall|k: int| 0 <= k < inputs.len() implies input_is_sound(
                params,
                decls,
                node,
                #[trigger] inputs[k],
            ) by {
                if k > 0 {
                    assert(rest[k - 1] == inputs[k]);
                }
            }
        }
        if forall|k: int|
            0 <= k < inputs.len() ==> input_is_sound(params, decls, node, #[trigger] inputs[k]) {
            assert(input_is_sound(params, decls, node, inputs[0]));
            assert forall|k: int| 0 <= k < rest.len() implies input_is_sound(
                params,
                decls,
                node,
                #[trigger] rest[k],
            ) by {
                assert(rest[k] == inputs[k + 1]);
            }
        }
    }
}

proof fn sound_loop(c: NodeJsonView)
    ensures
        loop_error(c) is None <==> loop_is_sound(c),
{
    if let Some(word) = c.config().text_attr("condition_type"@) {
        words_name_the_tests(lowercase(word));
    }
}

proof fn sound_nodes(
    params: Seq<(Seq<char>, Seq<char>)>,
    decls: Seq<NodeDecl>,
    nodes: Seq<NodeDecl>,
    cs: Seq<NodeJsonView>,
)
    requires
        nodes.len() == cs.len(),
    ensures
        nodes_error(params, decls, nodes, cs) is None <==> forall|i: int|
            0 <= i < cs.len() ==> node_is_sound(params, decls, nodes[i], #[trigger] cs[i]),
    decreases cs.len(),
{
    if cs.len() > 0 {
        let rest = cs.skip(1);
        let others = nodes.skip(1);
        sound_nodes(params, decls, others, rest);
        sound_choices(decls, nodes[0], cs[0].choice_map);
        sound_inputs(params, decls, nodes[0], cs[0].input_map);
        sound_loop(cs[0]);
        assert(node_error(params, decls, nodes[0], cs[0]) is None <==> node_is_sound(
            params,
            decls,
            nodes[0],
            cs[0],
        ));
        if nodes_error(params, decls, nodes, cs) is None {
            assert forall|i: int| 0 <= i < cs.len() implies node_is_sound(
                params,
                decls,
                nodes[i],
                #[trigger] cs[i],
            ) by {
                if i > 0 {
                    assert(rest[i - 1] == cs[i] && others[i - 1] == nodes[i]);
                    assert(node_is_sound(params, decls, others[i - 1], rest[i - 1]));
                }
            }
        }
        if forall|i: int|
            0 <= i < cs.len() ==> node_is_sound(params, decls, nodes[i], #[trigger] cs[i]) {
            assert(node_is_sound(params, decls, nodes[0], cs[0]));
            assert forall|i: int| 0 <= i < rest.len() implies node_is_sound(
                params,
                decls,
                others[i],
                #[trigger] rest[i],
            ) by {
                assert(rest[i] == cs[i + 1] && others[i] == nodes[i + 1]);
                assert(node_is_sound(params, decls, nodes[i + 1], cs[i + 1]));
            }
        }
    }
}

/// A workflow is built exactly where every node goes with its configuration and, if the
/// context is to be synchronised, there is something to synchronise it. What is built has
/// its name, is ready and has seen nothing yet; its nodes are the ones that were made, and
/// it is synchronised by what was given for that and by nothing else.
pub proof fn workflow_is_built_of_sound_nodes(
    name: Seq<char>,
    params: Seq<(Seq<char>, ParameterType)>,
    c: WorkflowConfigView,
    manager: Option<SyncView>,
    unified: Option<SyncView>,
    decls: Seq<NodeDecl>,
    node: Seq<char>,
)
    requires
        decls.len() == c.nodes.len(),
    ensures
        assembled(name, params, c, manager, unified, decls) is Ok <==> {
            &&& forall|i: int|
                0 <= i < c.nodes.len() ==> node_is_sound(
                    c.input_parameters,
                    decls,
                    decls[i],
                    #[trigger] c.nodes[i],
                )
            &&& manager is Some || !(c.context_sync matches Some(s) && s.enabled) && !(
            unified matches Some(s) && s.enabled)
        },
        assembled(name, params, c, manager, unified, decls) matches Ok(w) ==> {
            &&& w.name == name
            &&& w.status == WorkflowStatus::Ready
            &&& w.start_node == Some(c.start_node)
            &&& w.finish_node is None
            &&& w.context_sync == manager
            &&& w.context.len() == 0 && w.memory.len() == 0
            &&& w.messages.len() == 0 && w.outbox.len() == 0
            &&& assoc(w.nodes, node) is Some <==> exists|j: int|
                0 <= j < decls.len() && node == (#[trigger] decls[j]).name
        },
{
    sound_nodes(c.input_parameters, decls, decls, c.nodes);
    let started = WorkFlowView { bus: started_bus(params), ..WorkFlowView::empty(name) };
    added_nodes_are_the_declared(started, decls, node);
}

proof fn added_nodes_are_the_declared(w: WorkFlowView, decls: Seq<NodeDecl>, node: Seq<char>)
    requires
        w.nodes.len() == 0,
    ensures
        ({
            let after = w.add_nodes(decls);
            &&& after == (WorkFlowView { bus: after.bus, nodes: after.nodes, ..w })
            &&& assoc(after.nodes, node) is Some <==> exists|j: int|
                0 <= j < decls.len() && node == (#[trigger] decls[j]).name
        }),
    decreases decls.len(),
{
    if decls.len() > 0 {
        let front = decls.drop_last();
        let last = decls.last();
        added_nodes_are_the_declared(w, front, node);
        added_node_is_fresh(w.add_nodes(front), last, node);
        if exists|j: int| 0 <= j < front.len() && node == (#[trigger] front[j]).name {
            let j = choose|j: int| 0 <= j < front.len() && node == (#[trigger] front[j]).name;
            assert(node == decls[j].name);
        }
        if node == last.name {
            assert(node == decls[decls.len() - 1].name);
        }
        if exists|j: int| 0 <= j < decls.len() && node == (#[trigger] decls[j]).name {
            let j = choose|j: int| 0 <= j < decls.len() && node == (#[trigger] decls[j]).name;
            if j < front.len() {
                assert(node == front[j].name);
            }
        }
    }
}

/// The first thing that is wrong is what is reported: of the nodes in order the first that
/// does not go with its configuration, of such a node its choices before its inputs and
/// these before its loop.
pub proof fn first_fault_is_reported(
    params: Seq<(Seq<char>, Seq<char>)>,
    decls: Seq<NodeDecl>,
    nodes: Seq<NodeDecl>,
    cs: Seq<NodeJsonView>,
    i: int,
)
    requires
        nodes.len() == cs.len(),
        0 <= i < cs.len(),
        forall|j: int| 0 <= j < i ==> node_is_sound(params, decls, nodes[j], #[trigger] cs[j]),
        !node_is_sound(params, decls, nodes[i], cs[i]),
    ensures
        ({
            let e = nodes_error(params, decls, nodes, cs);
            let of_choices = choice_error(decls, nodes[i], cs[i].choice_map);
            let of_inputs = input_error(params, decls, nodes[i], cs[i].input_map);
            &&& e is Some
            &&& of_choices is Some ==> e == of_choices
            &&& of_choices is None && of_inputs is Some ==> e == of_inputs
            &&& of_choices is None && of_inputs is None ==> e == loop_error(cs[i])
        }),
    decreases i,
{
    sound_choices(decls, nodes[0], cs[0].choice_map);
    sound_inputs(params, decls, nodes[0], cs[0].input_map);
    sound_loop(cs[0]);
    if i > 0 {
        let rest = cs.skip(1);
        let others = nodes.skip(1);
        assert(node_is_sound(params, decls, nodes[0], cs[0]));
        assert forall|j: int| 0 <= j < i - 1 implies node_is_sound(
            params,
            decls,
            others[j],
            #[trigger] rest[j],
        ) by {
            assert(rest[j] == cs[j + 1] && others[j] == nodes[j + 1]);
            assert(node_is_sound(params, decls, nodes[j + 1], cs[j + 1]));
        }
        first_fault_is_reported(params, decls, others, rest, i - 1);
    }
}

/// Of the choices of a node the first that is wrong is reported, with the node, the choice
/// and what is wrong with it.
pub proof fn first_wrong_choice_is_reported(
    decls: Seq<NodeDecl>,
    node: NodeDecl,
    choices: Seq<(Seq<char>, Seq<char>)>,
    k: int,
)
    requires
        0 <= k < choices.len(),
        forall|j: int| 0 <= j < k ==> choice_is_sound(decls, node, #[trigger] choices[j]),
        !choice_is_sound(decls, node, choices[k]),
    ensures
        choice_error(decls, node, choices) == Some(
            ErrorView::ConfigError(
                if !node.choices.contains(choices[k].0) {
                    "Node '"@ + node.name + "': choice '"@ + choices[k].0
                        + "' in choice_map not found in node's choices "@ + debug_list(
                        node.choices,
                    )
                } else {
                    "Node '"@ + node.name + "': target node '"@ + choices[k].1
                        + "' in choice_map does not exist"@
                },
            ),
        ),
    decreases k,
{
    same_declared(decls, choices[0].1);
    if k > 0 {
        let rest = choices.skip(1);
        assert(choice_is_sound(decls, node, choices[0]));
        assert forall|j: int| 0 <= j < k - 1 implies choice_is_sound(
            decls,
            node,
            #[trigger] rest[j],
        ) by {
            assert(rest[j] == choices[j + 1]);
        }
        first_wrong_choice_is_reported(decls, node, rest, k - 1);
    }
}

/// Of the inputs of a node the first that is wrong is reported, with the node, the input or
/// its source, and what is wrong with it.
pub proof fn first_wrong_input_is_reported(
    params: Seq<(Seq<char>, Seq<char>)>,
    decls: Seq<NodeDecl>,
    node: NodeDecl,
    inputs: Seq<(Seq<char>, Option<Seq<char>>)>,
    k: int,
)
    requires
        0 <= k < inputs.len(),
        forall|j: int|
            0 <= j < k ==> input_is_sound(params, decls, node, #[trigger] inputs[j]),
        !input_is_sound(params, decls, node, inputs[k]),
    ensures
        ({
            let source = inputs[k].1->0;
            let from = split_text(source, '.')[0];
            input_error(params, decls, node, inputs) == Some(
                ErrorView::ConfigError(
                    if assoc(node.inputs, inputs[k].0) is None {
                        "Node '"@ + node.name + "': parameter '"@ + inputs[k].0
                            + "' in input_map not found in node's input_parameters"@
                    } else if !source.contains('.') {
                        "Node '"@ + node.name + "': invalid source key '"@ + source
                            + "' in input_map, expected format 'node_name.param_name'"@
                    } else if from != "start"@ && from != "context"@ && !(exists|j: int|
                        0 <= j < decls.len() && from == (#[trigger] decls[j]).name) {
                        "Node '"@ + node.name + "': source node '"@ + from
                            + "' in input_map does not exist"@
                    } else {
                        "Node '"@ + node.name + "': source parameter '"@ + source
                            + "' in input_map does not exist"@
                    },
                ),
            )
        }),
    decreases k,
{
    if let Some(source) = inputs[0].1 {
        sound_source(params, decls, node, source);
        dot_is_contained(source);
        same_declared(decls, split_text(source, '.')[0]);
    }
    if k > 0 {
        let rest = inputs.skip(1);
        assert(input_is_sound(params, decls, node, inputs[0]));
        assert forall|j: int| 0 <= j < k - 1 implies input_is_sound(
            params,
            decls,
            node,
            #[trigger] rest[j],
        ) by {
            assert(rest[j] == inputs[j + 1]);
        }
        first_wrong_input_is_reported(params, decls, node, rest, k - 1);
    }
}

/// The input parameters have the types that their words name, in any case, and there are no
/// others; where a word names none, the first such word is an error.
pub proof fn inputs_have_the_types_of_their_words(
    params: Seq<(Seq<char>, Seq<char>)>,
    name: Seq<char>,
    k: int,
)
    requires
        sorted(params),
    ensures
        input_types(params, Seq::empty()) is Ok <==> forall|i: int|
            0 <= i < params.len() ==> lowercase((#[trigger] params[i]).1) == "step"@ || lowercase(
                params[i].1,
            ) == "stream"@,
        input_types(params, Seq::empty()) matches Ok(types) ==> {
            &&& assoc(types, name) == Some(ParameterType::Step) <==> (assoc(params, name) matches
                Some(word) && lowercase(word) == "step"@)
            &&& assoc(types, name) == Some(ParameterType::Stream) <==> (assoc(params, name) matches
                Some(word) && lowercase(word) == "stream"@)
        },
        0 <= k < params.len() && lowercase(params[k].1) != "step"@ && lowercase(params[k].1)
            != "stream"@ && (forall|i: int|
            0 <= i < k ==> lowercase((#[trigger] params[i]).1) == "step"@ || lowercase(params[i].1)
                == "stream"@) ==> input_types(params, Seq::empty()) == Err::<
            Seq<(Seq<char>, ParameterType)>,
            ErrorView,
        >(
            ErrorView::ConfigError(
                "Invalid parameter type: "@ + params[k].1 + ". Expected 'step' or 'stream'"@,
            ),
        ),
{
    typed_by_words(params, Seq::empty(), name, k);
    if let Some(word) = assoc(params, name) {
        words_name_the_types(lowercase(word));
    }
}

proof fn typed_by_words(
    params: Seq<(Seq<char>, Seq<char>)>,
    got: Seq<(Seq<char>, ParameterType)>,
    name: Seq<char>,
    k: int,
)
    requires
        sorted(params),
    ensures
        input_types(params, got) is Ok <==> forall|i: int|
            0 <= i < params.len() ==> lowercase((#[trigger] params[i]).1) == "step"@ || lowercase(
                params[i].1,
            ) == "stream"@,
        input_types(params, got) matches Ok(types) ==> assoc(types, name) == (match assoc(
            params,
            name,
        ) {
            Some(word) => ParameterType::named(lowercase(word)),
            None => assoc(got, name),
        }),
        0 <= k < params.len() && lowercase(params[k].1) != "step"@ && lowercase(params[k].1)
            != "stream"@ && (forall|i: int|
            0 <= i < k ==> lowercase((#[trigger] params[i]).1) == "step"@ || lowercase(params[i].1)
                == "stream"@) ==> input_types(params, got) == Err::<
            Seq<(Seq<char>, ParameterType)>,
            ErrorView,
        >(
            ErrorView::ConfigError(
                "Invalid parameter type: "@ + params[k].1 + ". Expected 'step' or 'stream'"@,
            ),
        ),
    decreases params.len(),
{
    if params.len() > 0 {
        let (first, word) = params[0];
        let rest = params.skip(1);
        words_name_the_types(lowercase(word));
        assert forall|i: int, j: int| 0 <= i < j < rest.len() implies text_less(
            #[trigger] rest[i].0,
            #[trigger] rest[j].0,
        ) by {
            assert(text_less(params[i + 1].0, params[j + 1].0));
        }
        assert forall|i: int| 0 <= i < rest.len() implies #[trigger] rest[i] == params[i + 1] by {}
        if let Some(t) = ParameterType::named(lowercase(word)) {
            let next = assoc_insert(got, first, t);
            typed_by_words(rest, next, name, k - 1);
            assoc_after_insert(got, first, t, name);
            if name == first && assoc(rest, first) is Some {
                assoc_some_iff(rest, first);
                let i = choose|i: int| 0 <= i < rest.len() && (#[trigger] rest[i]).0 == first;
                assert(text_less(params[0].0, params[i + 1].0));
                text_less_irreflexive(first);
            }
            if forall|i: int|
                0 <= i < params.len() ==> lowercase((#[trigger] params[i]).1) == "step"@
                    || lowercase(params[i].1) == "stream"@ {
                assert forall|i: int| 0 <= i < rest.len() implies lowercase(
                    (#[trigger] rest[i]).1,
                ) == "step"@ || lowercase(rest[i].1) == "stream"@ by {
                    assert(rest[i] == params[i + 1]);
                }
            }
            if forall|i: int|
                0 <= i < rest.len() ==> lowercase((#[trigger] rest[i]).1) == "step"@ || lowercase(
                    rest[i].1,
                ) == "stream"@ {
                assert forall|i: int| 0 <= i < params.len() implies lowercase(
                    (#[trigger] params[i]).1,
                ) == "step"@ || lowercase(params[i].1) == "stream"@ by {
                    if i > 0 {
                        assert(rest[i - 1] == params[i]);
                    }
                }
            }
            if 0 < k < params.len() && forall|i: int|
                0 <= i < k ==> lowercase((#[trigger] params[i]).1) == "step"@ || lowercase(
                    params[i].1,
                ) == "stream"@ {
                assert forall|i: int| 0 <= i < k - 1 implies lowercase((#[trigger] rest[i]).1)
                    == "step"@ || lowercase(rest[i].1) == "stream"@ by {
                    assert(rest[i] == params[i + 1]);
                }
                assert(rest[k - 1] == params[k]);
            }
        }
    }
}

/// A node of a type that is not registered cannot be made, and the error names the type and
/// the node; a node of one that is comes from the factory of its type.
pub proof fn unregistered_type_fails<F: NodeFactory>(
    registry: Seq<(Seq<char>, F)>,
    config: NodeJsonView,
    decl: NodeDecl,
    e: ErrorView,
)
    ensures
        assoc(registry, config.node_type) is None ==> !node_made(registry, config, decl) && (
        node_failed(registry, config, e) <==> e == ErrorView::NodeTypeNotRegistered(
            "Node type '"@ + config.node_type + "' not registered for node '"@ + config.node_name
                + "'"@,
        )),
        assoc(registry, config.node_type) matches Some(f) ==> (node_made(registry, config, decl)
            <==> f.creates(config.config(), Ok(decl))) && (node_failed(registry, config, e)
            <==> f.creates(config.config(), Err(e))),
{
}

/// A loop that cannot be used is refused, and the error names the node and what it lacks,
/// in this order: its choices, its place in memory, its test, its limit, a value to compare
/// with, and an increment that is a number.
pub proof fn unsound_loop_says_what_it_lacks(c: NodeJsonView)
    ensures
        ({
            let at = "Node '"@ + c.node_name;
            let choices = assoc(c.choice_map, "continue"@) is Some && assoc(
                c.choice_map,
                "exit"@,
            ) is Some;
            let place = assoc(c.attrs, "memory_key"@) matches Some(JsonView::Text(_));
            let word = assoc(c.attrs, "condition_type"@);
            let limit = assoc(c.attrs, "max_iterations"@) matches Some(
                JsonView::Number(NumberView::PosInt(n)),
            ) && n > 0;
            let compares = word matches Some(JsonView::Text(w)) && is_comparing_word(w) && assoc(
                c.attrs,
                "compare_value"@,
            ) is None;
            &&& !choices ==> loop_error(c) == Some(
                ErrorView::ConfigError(
                    at + "': while_node choice_map must contain 'continue' and 'exit'"@,
                ),
            )
            &&& choices && !place ==> loop_error(c) == Some(
                ErrorView::ConfigError(at + "': while_node requires string attrs.memory_key"@),
            )
            &&& choices && place && !(word matches Some(JsonView::Text(_))) ==> loop_error(c)
                == Some(
                ErrorView::ConfigError(at + "': while_node requires string attrs.condition_type"@),
            )
            &&& choices && place && (word matches Some(JsonView::Text(_))) ==> {
                &&& !limit ==> loop_error(c) == Some(
                    ErrorView::ConfigError(
                        at + "': while_node requires attrs.max_iterations > 0"@,
                    ),
                )
                &&& limit && compares ==> loop_error(c) == Some(
                    ErrorView::ConfigError(
                        at + "': while_node condition_type '"@ + word->0->Text_0
                            + "' requires attrs.compare_value"@,
                    ),
                )
                &&& limit && !compares && (assoc(c.attrs, "increment"@) matches Some(v) && !(
                v is Number)) ==> loop_error(c) == Some(
                    ErrorView::ConfigError(at + "': while_node attrs.increment must be numeric"@),
                )
            }
        }),
{
    if let Some(word) = c.config().text_attr("condition_type"@) {
        words_name_the_tests(lowercase(word));
    }
}

} // verus!
