//! The node types that the engine brings along, and how their nodes are made.
use vstd::prelude::*;

use crate::context_sync::copy_texts;
use crate::error::{ErrorView, WorkflowError};
use crate::node::custom::CustomNode;
use crate::text::texts;
use crate::node::base::{BaseNode, NodeConfig, NodeConfigView, NodeContext, NodeDecl, NodeType};
use crate::node::registry::{NodeFactory, NodeRegistry};
use crate::nodes::condition_node::ConditionNode;
use crate::nodes::context_fetch_node::ContextFetchNode;
use crate::nodes::{declared, step_parameters_are_the_names};
use crate::nodes::llm_call_node::{llm_of, LlmCallNode};
use crate::nodes::print_node::PrintNode;
use crate::nodes::schema_validator::{schema_of, FieldRule, SchemaValidatorNode};
use crate::nodes::send_recv_node::SendRecvNode;
use crate::nodes::transform_node::TransformNode;
use crate::nodes::while_node::{loop_of, LoopView, WhileNode};
use crate::parameter_bus::ParameterType;
use crate::string_map::{assoc, assoc_insert, StringMap};

verus! {

/// The factories of the node types that the engine brings along, and of those whose
/// work the host does.
#[derive(Debug)]
pub enum BuiltinFactory {
    Print,
    Transform,
    Condition,
    While,
    SendRecv,
    SchemaValidator,
    ContextFetch,
    LlmCall,
    /// Nodes with these inputs and this output, whose work the host does.
    Custom { input_keys: Vec<String>, output_key: String },
}

/// A node of a type that the engine brings along, or one whose work the host does.
#[derive(Debug)]
pub enum BuiltinNode {
    Print(PrintNode),
    Transform(TransformNode),
    Condition(ConditionNode),
    While(WhileNode),
    SendRecv(SendRecvNode),
    SchemaValidator(SchemaValidatorNode),
    ContextFetch(ContextFetchNode),
    LlmCall(LlmCallNode),
    Custom(CustomNode),
}

/// What comes of making a node of a configuration.
pub open spec fn builtin_outcome(kind: BuiltinFactory, c: NodeConfigView) -> Result<
    NodeDecl,
    ErrorView,
> {
    let step = NodeType::Step;
    match kind {
        BuiltinFactory::Print | BuiltinFactory::SendRecv => Ok(
            declared(c, step, seq!["input"@], seq!["output"@], seq!["default"@], true),
        ),
        BuiltinFactory::Transform => Ok(
            declared(c, step, seq!["input"@], seq!["result"@], seq!["default"@], true),
        ),
        BuiltinFactory::Condition => Ok(
            declared(
                c,
                step,
                seq!["input"@],
                seq!["input"@, "result"@],
                seq!["true_choice"@, "false_choice"@],
                true,
            ),
        ),
        BuiltinFactory::While => match loop_of(c) {
            Ok(_) => Ok(
                declared(
                    c,
                    step,
                    seq!["seed"@],
                    seq!["current"@, "iteration"@, "condition"@],
                    seq!["continue"@, "exit"@],
                    true,
                ),
            ),
            Err(e) => Err(e),
        },
        BuiltinFactory::SchemaValidator => match schema_of(c) {
            Ok(_) => Ok(
                declared(
                    c,
                    step,
                    seq!["input"@],
                    seq!["output"@, "errors"@],
                    seq!["valid"@, "invalid"@],
                    true,
                ),
            ),
            Err(e) => Err(e),
        },
        BuiltinFactory::ContextFetch => Ok(
            declared(c, step, Seq::empty(), seq!["output"@], seq!["default"@], false),
        ),
        BuiltinFactory::LlmCall => Ok(
            declared(
                c,
                if llm_of(c).stream {
                    NodeType::Stream
                } else {
                    step
                },
                seq!["prompt"@],
                seq!["result"@],
                seq!["default"@],
                true,
            ),
        ),
        BuiltinFactory::Custom { input_keys, output_key } => Ok(
            declared(c, step, texts(input_keys@), seq![output_key@], seq!["default"@], false),
        ),
    }
}

impl NodeFactory for BuiltinFactory {
    type Node = BuiltinNode;

    open spec fn creates(&self, config: NodeConfigView, r: Result<NodeDecl, ErrorView>) -> bool {
        r == builtin_outcome(*self, config)
    }

    fn create(&self, config: NodeConfig, ctx: NodeContext) -> (r: Result<
        BuiltinNode,
        WorkflowError,
    >) {
        match self {
            BuiltinFactory::Print => match PrintNode::new(config, ctx) {
                Ok(node) => Ok(BuiltinNode::Print(node)),
                Err(e) => Err(e),
            },
            BuiltinFactory::Transform => match TransformNode::new(config, ctx) {
                Ok(node) => Ok(BuiltinNode::Transform(node)),
                Err(e) => Err(e),
            },
            BuiltinFactory::Condition => match ConditionNode::new(config, ctx) {
                Ok(node) => Ok(BuiltinNode::Condition(node)),
                Err(e) => Err(e),
            },
            BuiltinFactory::While => match WhileNode::new(config, ctx) {
                Ok(node) => Ok(BuiltinNode::While(node)),
                Err(e) => Err(e),
            },
            BuiltinFactory::SendRecv => match SendRecvNode::new(config, ctx) {
                Ok(node) => Ok(BuiltinNode::SendRecv(node)),
                Err(e) => Err(e),
            },
            BuiltinFactory::SchemaValidator => match SchemaValidatorNode::new(config, ctx) {
                Ok(node) => Ok(BuiltinNode::SchemaValidator(node)),
                Err(e) => Err(e),
            },
            BuiltinFactory::ContextFetch => match ContextFetchNode::new(config, ctx) {
                Ok(node) => Ok(BuiltinNode::ContextFetch(node)),
                Err(e) => Err(e),
            },
            BuiltinFactory::LlmCall => match LlmCallNode::new(config, ctx) {
                Ok(node) => Ok(BuiltinNode::LlmCall(node)),
                Err(e) => Err(e),
            },
            BuiltinFactory::Custom { input_keys, output_key } => Ok(
                BuiltinNode::Custom(
                    CustomNode::new(config, ctx, copy_texts(input_keys), output_key.as_str()),
                ),
            ),
        }
    }
}

impl BaseNode for BuiltinNode {
    open spec fn decl(&self) -> NodeDecl {
        match self {
            BuiltinNode::Print(node) => node.decl(),
            BuiltinNode::Transform(node) => node.decl(),
            BuiltinNode::Condition(node) => node.decl(),
            BuiltinNode::While(node) => node.decl(),
            BuiltinNode::SendRecv(node) => node.decl(),
            BuiltinNode::SchemaValidator(node) => node.decl(),
            BuiltinNode::ContextFetch(node) => node.decl(),
            BuiltinNode::LlmCall(node) => node.decl(),
            BuiltinNode::Custom(node) => node.decl(),
        }
    }

    fn name(&self) -> (r: &str) {
        match self {
            BuiltinNode::Print(node) => node.name(),
            BuiltinNode::Transform(node) => node.name(),
            BuiltinNode::Condition(node) => node.name(),
            BuiltinNode::While(node) => node.name(),
            BuiltinNode::SendRecv(node) => node.name(),
            BuiltinNode::SchemaValidator(node) => node.name(),
            BuiltinNode::ContextFetch(node) => node.name(),
            BuiltinNode::LlmCall(node) => node.name(),
            BuiltinNode::Custom(node) => node.name(),
        }
    }

    fn node_type(&self) -> (r: NodeType) {
        match self {
            BuiltinNode::Print(node) => node.node_type(),
            BuiltinNode::Transform(node) => node.node_type(),
            BuiltinNode::Condition(node) => node.node_type(),
            BuiltinNode::While(node) => node.node_type(),
            BuiltinNode::SendRecv(node) => node.node_type(),
            BuiltinNode::SchemaValidator(node) => node.node_type(),
            BuiltinNode::ContextFetch(node) => node.node_type(),
            BuiltinNode::LlmCall(node) => node.node_type(),
            BuiltinNode::Custom(node) => node.node_type(),
        }
    }

    fn input_parameters(&self) -> (r: &StringMap<ParameterType>) {
        match self {
            BuiltinNode::Print(node) => node.input_parameters(),
            BuiltinNode::Transform(node) => node.input_parameters(),
            BuiltinNode::Condition(node) => node.input_parameters(),
            BuiltinNode::While(node) => node.input_parameters(),
            BuiltinNode::SendRecv(node) => node.input_parameters(),
            BuiltinNode::SchemaValidator(node) => node.input_parameters(),
            BuiltinNode::ContextFetch(node) => node.input_parameters(),
            BuiltinNode::LlmCall(node) => node.input_parameters(),
            BuiltinNode::Custom(node) => node.input_parameters(),
        }
    }

    fn output_parameters(&self) -> (r: &StringMap<ParameterType>) {
        match self {
            BuiltinNode::Print(node) => node.output_parameters(),
            BuiltinNode::Transform(node) => node.output_parameters(),
            BuiltinNode::Condition(node) => node.output_parameters(),
            BuiltinNode::While(node) => node.output_parameters(),
            BuiltinNode::SendRecv(node) => node.output_parameters(),
            BuiltinNode::SchemaValidator(node) => node.output_parameters(),
            BuiltinNode::ContextFetch(node) => node.output_parameters(),
            BuiltinNode::LlmCall(node) => node.output_parameters(),
            BuiltinNode::Custom(node) => node.output_parameters(),
        }
    }

    fn choices(&self) -> (r: &Vec<String>) {
        match self {
            BuiltinNode::Print(node) => node.choices(),
            BuiltinNode::Transform(node) => node.choices(),
            BuiltinNode::Condition(node) => node.choices(),
            BuiltinNode::While(node) => node.choices(),
            BuiltinNode::SendRecv(node) => node.choices(),
            BuiltinNode::SchemaValidator(node) => node.choices(),
            BuiltinNode::ContextFetch(node) => node.choices(),
            BuiltinNode::LlmCall(node) => node.choices(),
            BuiltinNode::Custom(node) => node.choices(),
        }
    }

    fn is_key_node(&self) -> (r: bool) {
        match self {
            BuiltinNode::Print(node) => node.is_key_node(),
            BuiltinNode::Transform(node) => node.is_key_node(),
            BuiltinNode::Condition(node) => node.is_key_node(),
            BuiltinNode::While(node) => node.is_key_node(),
            BuiltinNode::SendRecv(node) => node.is_key_node(),
            BuiltinNode::SchemaValidator(node) => node.is_key_node(),
            BuiltinNode::ContextFetch(node) => node.is_key_node(),
            BuiltinNode::LlmCall(node) => node.is_key_node(),
            BuiltinNode::Custom(node) => node.is_key_node(),
        }
    }

    fn runable(&self) -> (r: bool) {
        match self {
            BuiltinNode::Print(node) => node.runable(),
            BuiltinNode::Transform(node) => node.runable(),
            BuiltinNode::Condition(node) => node.runable(),
            BuiltinNode::While(node) => node.runable(),
            BuiltinNode::SendRecv(node) => node.runable(),
            BuiltinNode::SchemaValidator(node) => node.runable(),
            BuiltinNode::ContextFetch(node) => node.runable(),
            BuiltinNode::LlmCall(node) => node.runable(),
            BuiltinNode::Custom(node) => node.runable(),
        }
    }

    fn is_reentrant(&self) -> (r: bool) {
        match self {
            BuiltinNode::Print(node) => node.is_reentrant(),
            BuiltinNode::Transform(node) => node.is_reentrant(),
            BuiltinNode::Condition(node) => node.is_reentrant(),
            BuiltinNode::While(node) => node.is_reentrant(),
            BuiltinNode::SendRecv(node) => node.is_reentrant(),
            BuiltinNode::SchemaValidator(node) => node.is_reentrant(),
            BuiltinNode::ContextFetch(node) => node.is_reentrant(),
            BuiltinNode::LlmCall(node) => node.is_reentrant(),
            BuiltinNode::Custom(node) => node.is_reentrant(),
        }
    }
}

impl NodeRegistry<BuiltinFactory> {
    /// Registers a type whose nodes gather the given inputs, leave the work to the
    /// host, and put its outcome out.
    pub fn register_custom(&mut self, name: &str, input_keys: Vec<String>, output_key: String)
        ensures
            final(self)@ == assoc_insert(
                old(self)@,
                name@,
                BuiltinFactory::Custom { input_keys, output_key },
            ),
    {
        self.register(name, BuiltinFactory::Custom { input_keys, output_key });
    }
}

/// The types and their factories, in the order in which they are registered.
pub open spec fn builtin_types() -> Seq<(Seq<char>, BuiltinFactory)> {
    seq![
        ("print_node"@, BuiltinFactory::Print),
        ("transform_node"@, BuiltinFactory::Transform),
        ("condition_node"@, BuiltinFactory::Condition),
        ("while_node"@, BuiltinFactory::While),
        ("send_recv_node"@, BuiltinFactory::SendRecv),
        ("send_cmd_recv"@, BuiltinFactory::SendRecv),
        ("llm_call"@, BuiltinFactory::LlmCall),
        ("schema_validator"@, BuiltinFactory::SchemaValidator),
        ("context_fetch_node"@, BuiltinFactory::ContextFetch),
    ]
}

/// A registry after a list of types was registered.
pub open spec fn register_each(
    registry: Seq<(Seq<char>, BuiltinFactory)>,
    types: Seq<(Seq<char>, BuiltinFactory)>,
) -> Seq<(Seq<char>, BuiltinFactory)>
    decreases types.len(),
{
    if types.len() == 0 {
        registry
    } else {
        assoc_insert(
            register_each(registry, types.drop_last()),
            types.last().0,
            types.last().1,
        )
    }
}

/// Registers the node types that the engine brings along.
pub fn register_builtin_nodes(registry: &mut NodeRegistry<BuiltinFactory>)
    ensures
        final(registry)@ == register_each(old(registry)@, builtin_types()),
        old(registry).factories.wf() ==> final(registry).factories.wf(),
{
    let ghost start = registry@;
    registry.register("print_node", BuiltinFactory::Print);
    registry.register("transform_node", BuiltinFactory::Transform);
    registry.register("condition_node", BuiltinFactory::Condition);
    registry.register("while_node", BuiltinFactory::While);
    registry.register("send_recv_node", BuiltinFactory::SendRecv);
    registry.register("send_cmd_recv", BuiltinFactory::SendRecv);
    registry.register("llm_call", BuiltinFactory::LlmCall);
    registry.register("schema_validator", BuiltinFactory::SchemaValidator);
    registry.register("context_fetch_node", BuiltinFactory::ContextFetch);
    proof {
        let t = builtin_types();
        assert(t.drop_last() =~= t.take(8));
        assert(t.take(8).drop_last() =~= t.take(7));
        assert(t.take(7).drop_last() =~= t.take(6));
        assert(t.take(6).drop_last() =~= t.take(5));
        assert(t.take(5).drop_last() =~= t.take(4));
        assert(t.take(4).drop_last() =~= t.take(3));
        assert(t.take(3).drop_last() =~= t.take(2));
        assert(t.take(2).drop_last() =~= t.take(1));
        assert(t.take(1).drop_last() =~= Seq::empty());
        reveal_with_fuel(register_each, 11);
    }
}

/// Every node type that the engine brings along is registered with its factory.
pub proof fn builtin_types_are_registered(registry: Seq<(Seq<char>, BuiltinFactory)>)
    ensures
        forall|i: int|
            0 <= i < builtin_types().len() ==> assoc(
                register_each(registry, builtin_types()),
                (#[trigger] builtin_types()[i]).0,
            ) is Some,
{
    registered_after(registry, builtin_types());
}

proof fn registered_after(
    registry: Seq<(Seq<char>, BuiltinFactory)>,
    types: Seq<(Seq<char>, BuiltinFactory)>,
)
    ensures
        forall|i: int|
            0 <= i < types.len() ==> assoc(
                register_each(registry, types),
                (#[trigger] types[i]).0,
            ) is Some,
    decreases types.len(),
{
    if types.len() > 0 {
        let front = types.drop_last();
        registered_after(registry, front);
        assert forall|i: int| 0 <= i < types.len() implies assoc(
            register_each(registry, types),
            (#[trigger] types[i]).0,
        ) is Some by {
            crate::string_map::assoc_after_insert(
                register_each(registry, front),
                types.last().0,
                types.last().1,
                types[i].0,
            );
            if i < front.len() {
                assert(front[i] == types[i]);
            }
        }
    }
}

/// Each type that the engine brings along has the factory of its kind, whatever was
/// registered before, and the other types keep theirs.
pub proof fn types_have_their_factories(
    registry: Seq<(Seq<char>, BuiltinFactory)>,
    name: Seq<char>,
)
    ensures
        ({
            let after = register_each(registry, builtin_types());
            &&& assoc(after, "print_node"@) == Some(BuiltinFactory::Print)
            &&& assoc(after, "transform_node"@) == Some(BuiltinFactory::Transform)
            &&& assoc(after, "condition_node"@) == Some(BuiltinFactory::Condition)
            &&& assoc(after, "while_node"@) == Some(BuiltinFactory::While)
            &&& assoc(after, "send_recv_node"@) == Some(BuiltinFactory::SendRecv)
            &&& assoc(after, "send_cmd_recv"@) == Some(BuiltinFactory::SendRecv)
            &&& assoc(after, "llm_call"@) == Some(BuiltinFactory::LlmCall)
            &&& assoc(after, "schema_validator"@) == Some(BuiltinFactory::SchemaValidator)
            &&& assoc(after, "context_fetch_node"@) == Some(BuiltinFactory::ContextFetch)
            &&& name != "print_node"@
                && name != "transform_node"@
                && name != "condition_node"@
                && name != "while_node"@
                && name != "send_recv_node"@
                && name != "send_cmd_recv"@
                && name != "llm_call"@
                && name != "schema_validator"@
                && name != "context_fetch_node"@ ==> assoc(
                after,
                name,
            ) == assoc(registry, name)
        }),
{
    let t = builtin_types();
    reveal_strlit("print_node");
    reveal_strlit("transform_node");
    reveal_strlit("condition_node");
    reveal_strlit("while_node");
    reveal_strlit("send_recv_node");
    reveal_strlit("send_cmd_recv");
    reveal_strlit("llm_call");
    reveal_strlit("schema_validator");
    reveal_strlit("context_fetch_node");
    assert("print_node"@.len() != "transform_node"@.len());
    assert("print_node"@.len() != "condition_node"@.len());
    assert("print_node"@[0] != "while_node"@[0]);
    assert("print_node"@.len() != "send_recv_node"@.len());
    assert("print_node"@.len() != "send_cmd_recv"@.len());
    assert("print_node"@.len() != "llm_call"@.len());
    assert("print_node"@.len() != "schema_validator"@.len());
    assert("print_node"@.len() != "context_fetch_node"@.len());
    assert("transform_node"@[0] != "condition_node"@[0]);
    assert("transform_node"@.len() != "while_node"@.len());
    assert("transform_node"@[0] != "send_recv_node"@[0]);
    assert("transform_node"@.len() != "send_cmd_recv"@.len());
    assert("transform_node"@.len() != "llm_call"@.len());
    assert("transform_node"@.len() != "schema_validator"@.len());
    assert("transform_node"@.len() != "context_fetch_node"@.len());
    assert("condition_node"@.len() != "while_node"@.len());
    assert("condition_node"@[0] != "send_recv_node"@[0]);
    assert("condition_node"@.len() != "send_cmd_recv"@.len());
    assert("condition_node"@.len() != "llm_call"@.len());
    assert("condition_node"@.len() != "schema_validator"@.len());
    assert("condition_node"@.len() != "context_fetch_node"@.len());
    assert("while_node"@.len() != "send_recv_node"@.len());
    assert("while_node"@.len() != "send_cmd_recv"@.len());
    assert("while_node"@.len() != "llm_call"@.len());
    assert("while_node"@.len() != "schema_validator"@.len());
    assert("while_node"@.len() != "context_fetch_node"@.len());
    assert("send_recv_node"@.len() != "send_cmd_recv"@.len());
    assert("send_recv_node"@.len() != "llm_call"@.len());
    assert("send_recv_node"@.len() != "schema_validator"@.len());
    assert("send_recv_node"@.len() != "context_fetch_node"@.len());
    assert("send_cmd_recv"@.len() != "llm_call"@.len());
    assert("send_cmd_recv"@.len() != "schema_validator"@.len());
    assert("send_cmd_recv"@.len() != "context_fetch_node"@.len());
    assert("llm_call"@.len() != "schema_validator"@.len());
    assert("llm_call"@.len() != "context_fetch_node"@.len());
    assert("schema_validator"@.len() != "context_fetch_node"@.len());
    last_registration_counts(registry, t, 0, "print_node"@);
    last_registration_counts(registry, t, 1, "transform_node"@);
    last_registration_counts(registry, t, 2, "condition_node"@);
    last_registration_counts(registry, t, 3, "while_node"@);
    last_registration_counts(registry, t, 4, "send_recv_node"@);
    last_registration_counts(registry, t, 5, "send_cmd_recv"@);
    last_registration_counts(registry, t, 6, "llm_call"@);
    last_registration_counts(registry, t, 7, "schema_validator"@);
    last_registration_counts(registry, t, 8, "context_fetch_node"@);
    if name != "print_node"@
        && name != "transform_node"@
        && name != "condition_node"@
        && name != "while_node"@
        && name != "send_recv_node"@
        && name != "send_cmd_recv"@
        && name != "llm_call"@
        && name != "schema_validator"@
        && name != "context_fetch_node"@ {
        last_registration_counts(registry, t, -1, name);
    }
}

proof fn last_registration_counts(
    registry: Seq<(Seq<char>, BuiltinFactory)>,
    types: Seq<(Seq<char>, BuiltinFactory)>,
    i: int,
    name: Seq<char>,
)
    requires
        -1 <= i < types.len(),
        i >= 0 ==> types[i].0 == name,
        forall|j: int| i < j < types.len() ==> (#[trigger] types[j]).0 != name,
    ensures
        i >= 0 ==> assoc(register_each(registry, types), name) == Some(types[i].1),
        i < 0 ==> assoc(register_each(registry, types), name) == assoc(registry, name),
    decreases types.len(),
{
    if types.len() > 0 {
        let front = types.drop_last();
        let last = types.last();
        crate::string_map::assoc_after_insert(
            register_each(registry, front),
            last.0,
            last.1,
            name,
        );
        assert(types[types.len() - 1] == last);
        if i < types.len() - 1 {
            assert forall|j: int| i < j < front.len() implies (#[trigger] front[j]).0 != name by {
                assert(front[j] == types[j]);
            }
            last_registration_counts(registry, front, i, name);
        }
    }
}

/// What a node declares by its kind: its name and whether it is a key node come from its
/// configuration; its inputs, its outputs and its choices are those of its kind. It is made
/// unless it is a loop or a validator whose attributes say nothing that can be used.
pub proof fn node_declares_by_its_kind(
    kind: BuiltinFactory,
    c: NodeConfigView,
    param: Seq<char>,
)
    ensures
        builtin_outcome(kind, c) is Ok <==> (kind is While ==> loop_of(c) is Ok) && (
        kind is SchemaValidator ==> schema_of(c) is Ok),
        builtin_outcome(kind, c) matches Err(e) ==> (kind is While && loop_of(c) == Err::<
            LoopView,
            ErrorView,
        >(e)) || (kind is SchemaValidator && schema_of(c) == Err::<
            Seq<(Seq<char>, FieldRule)>,
            ErrorView,
        >(e)),
        builtin_outcome(kind, c) matches Ok(d) ==> {
            let is_input = match kind {
                BuiltinFactory::While => param == "seed"@,
                BuiltinFactory::LlmCall => param == "prompt"@,
                BuiltinFactory::ContextFetch => false,
                BuiltinFactory::Custom { input_keys, output_key } => texts(input_keys@).contains(
                    param,
                ),
                _ => param == "input"@,
            };
            let is_output = match kind {
                BuiltinFactory::Transform | BuiltinFactory::LlmCall => param == "result"@,
                BuiltinFactory::Condition => param == "input"@ || param == "result"@,
                BuiltinFactory::While => param == "current"@ || param == "iteration"@ || param
                    == "condition"@,
                BuiltinFactory::SchemaValidator => param == "output"@ || param == "errors"@,
                BuiltinFactory::Custom { input_keys, output_key } => param == output_key@,
                _ => param == "output"@,
            };
            &&& d.name == c.node_name
            &&& d.key_node == c.key_node
            &&& d.runable
            &&& d.reentrant == !(kind is ContextFetch || kind is Custom)
            &&& d.node_type == NodeType::Stream <==> kind is LlmCall && llm_of(c).stream
            &&& d.node_type == NodeType::Step || d.node_type == NodeType::Stream
            &&& assoc(d.inputs, param) == (if is_input {
                Some(ParameterType::Step)
            } else {
                None
            })
            &&& assoc(d.outputs, param) == (if is_output {
                Some(ParameterType::Step)
            } else {
                None
            })
            &&& d.choices == (match kind {
                BuiltinFactory::Condition => seq!["true_choice"@, "false_choice"@],
                BuiltinFactory::While => seq!["continue"@, "exit"@],
                BuiltinFactory::SchemaValidator => seq!["valid"@, "invalid"@],
                _ => seq!["default"@],
            })
        },
{
    step_parameters_are_the_names(seq!["input"@], param);
    step_parameters_are_the_names(seq!["output"@], param);
    step_parameters_are_the_names(seq!["result"@], param);
    step_parameters_are_the_names(seq!["seed"@], param);
    step_parameters_are_the_names(seq!["prompt"@], param);
    step_parameters_are_the_names(seq!["input"@, "result"@], param);
    step_parameters_are_the_names(seq!["current"@, "iteration"@, "condition"@], param);
    step_parameters_are_the_names(seq!["output"@, "errors"@], param);
    step_parameters_are_the_names(Seq::empty(), param);
    held_by_one("input"@, param);
    held_by_one("output"@, param);
    held_by_one("result"@, param);
    held_by_one("seed"@, param);
    held_by_one("prompt"@, param);
    held_by_two("input"@, "result"@, param);
    held_by_two("output"@, "errors"@, param);
    let three = seq!["current"@, "iteration"@, "condition"@];
    assert(three[0] == "current"@ && three[1] == "iteration"@ && three[2] == "condition"@);
    assert(three.contains(param) <==> param == "current"@ || param == "iteration"@ || param
        == "condition"@);
    if let BuiltinFactory::Custom { input_keys, output_key } = kind {
        step_parameters_are_the_names(texts(input_keys@), param);
        step_parameters_are_the_names(seq![output_key@], param);
        held_by_one(output_key@, param);
    }
}

proof fn held_by_one(a: Seq<char>, x: Seq<char>)
    ensures
        seq![a].contains(x) <==> x == a,
{
    assert(seq![a][0] == a);
}

proof fn held_by_two(a: Seq<char>, b: Seq<char>, x: Seq<char>)
    ensures
        seq![a, b].contains(x) <==> x == a || x == b,
{
    assert(seq![a, b][0] == a && seq![a, b][1] == b);
}

} // verus!
