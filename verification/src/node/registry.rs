//! The registry of node types: which factory makes the nodes of a type.
use vstd::prelude::*;

use crate::error::{ErrorView, WorkflowError};
use crate::node::base::{BaseNode, NodeConfig, NodeConfigView, NodeContext, NodeDecl};
use crate::string_map::{assoc, assoc_insert, keys_of, StringMap};
use crate::text::{cat3, texts};

verus! {

/// What came of making a node: its declaration, or the error.
pub open spec fn created<N: BaseNode>(r: Result<N, WorkflowError>) -> Result<NodeDecl, ErrorView> {
    match r {
        Ok(node) => Ok(node.decl()),
        Err(e) => Err(e@),
    }
}

/// Makes nodes of one type.
pub trait NodeFactory: Sized {
    /// The nodes that are made.
    type Node: BaseNode;

    /// What can come of making a node of a configuration.
    spec fn creates(&self, config: NodeConfigView, r: Result<NodeDecl, ErrorView>) -> bool;

    /// Makes a node of a configuration.
    fn create(&self, config: NodeConfig, ctx: NodeContext) -> (r: Result<
        Self::Node,
        WorkflowError,
    >)
        ensures
            self.creates(config@, created(r)),
    ;
}

/// A factory in the registry.
#[derive(Debug)]
pub struct Registered<F> {
    pub factory: F,
}

impl<F> View for Registered<F> {
    type V = F;

    open spec fn view(&self) -> F {
        self.factory
    }
}

/// The factories by node type.
#[derive(Debug)]
pub struct NodeRegistry<F> {
    pub factories: StringMap<Registered<F>>,
}

impl<F> View for NodeRegistry<F> {
    type V = Seq<(Seq<char>, F)>;

    open spec fn view(&self) -> Seq<(Seq<char>, F)> {
        self.factories@
    }
}

/// The error that a node type is not registered.
pub open spec fn not_registered(node_type: Seq<char>) -> ErrorView {
    ErrorView::NodeTypeNotRegistered("Node type '"@ + node_type + "' not registered"@)
}

impl<F: NodeFactory> NodeRegistry<F> {
    /// A registry without types.
    pub fn new() -> (r: NodeRegistry<F>)
        ensures
            r@ == Seq::<(Seq<char>, F)>::empty(),
            r.factories.wf(),
    {
        NodeRegistry { factories: StringMap::new() }
    }

    /// Registers a type; a factory that was there before is replaced.
    pub fn register(&mut self, node_type: &str, factory: F)
        ensures
            final(self)@ == assoc_insert(old(self)@, node_type@, factory),
            old(self).factories.wf() ==> final(self).factories.wf(),
    {
        self.factories.insert(node_type.to_owned(), Registered { factory });
    }

    /// Makes a node of a type.
    pub fn create_node(&self, node_type: &str, config: NodeConfig, ctx: NodeContext) -> (r: Result<
        F::Node,
        WorkflowError,
    >)
        ensures
            match assoc(self@, node_type@) {
                Some(f) => f.creates(config@, created(r)),
                None => created(r) == Err::<NodeDecl, ErrorView>(not_registered(node_type@)),
            },
    {
        match self.factories.get(node_type) {
            Some(entry) => entry.factory.create(config, ctx),
            None => Err(
                WorkflowError::NodeTypeNotRegistered(
                    cat3("Node type '", node_type, "' not registered"),
                ),
            ),
        }
    }

    /// Whether a type is registered.
    pub fn is_registered(&self, node_type: &str) -> (r: bool)
        ensures
            r == (assoc(self@, node_type@) is Some),
    {
        self.factories.contains_key(node_type)
    }

    /// The registered types, in order.
    pub fn registered_types(&self) -> (r: Vec<String>)
        ensures
            texts(r@) == keys_of(self@),
    {
        self.factories.keys()
    }
}

impl<F: NodeFactory> Default for NodeRegistry<F> {
    fn default() -> (r: NodeRegistry<F>)
        ensures
            r@ == Seq::<(Seq<char>, F)>::empty(),
    {
        NodeRegistry::new()
    }
}

/// A type that was registered is found with its factory, and the other types are
/// as they were.
pub proof fn registered_type_is_found<F>(
    registry: Seq<(Seq<char>, F)>,
    node_type: Seq<char>,
    factory: F,
    other: Seq<char>,
)
    ensures
        assoc(assoc_insert(registry, node_type, factory), node_type) == Some(factory),
        other != node_type ==> assoc(assoc_insert(registry, node_type, factory), other) == assoc(
            registry,
            other,
        ),
{
    crate::string_map::assoc_after_insert(registry, node_type, factory, node_type);
    crate::string_map::assoc_after_insert(registry, node_type, factory, other);
}

/// The error of a type that is not registered names the type.
pub proof fn unknown_type_is_named(node_type: Seq<char>)
    ensures
        not_registered(node_type).message() == "Node type not registered: "@ + ("Node type '"@
            + node_type + "' not registered"@),
{
}

} // verus!
