//! The node that reads a value from the outside store.
use vstd::prelude::*;

use crate::context_sync::{FetchRequest, FetchRequestView};
use crate::error::{config_error, result_view, unit_view, ErrorView, WorkflowError};
use crate::node::base::{BaseNode, NodeConfig, NodeConfigView, NodeContext, NodeDecl, NodeType};
use crate::nodes::{declared, one, outcome_put_out, NodeCore};
use crate::parameter_bus::ParameterType;
use crate::string_map::{assoc, StringMap};
use crate::text::texts;
use crate::value::{Json, JsonView};
use crate::workflow::{activation_touches_one_node, WorkFlow, WorkFlowView};

verus! {

/// How far the run of the node has got.
#[derive(Debug)]
pub enum FetchPoll {
    /// The node waits for its activation.
    Pending,
    /// The read has to be made.
    Fetch(FetchRequest),
    /// The run is over, with this error.
    Failed(WorkflowError),
}

/// How far the run of the node has got.
#[verifier::ext_equal]
pub enum FetchPollView {
    Pending,
    Fetch(FetchRequestView),
    Failed(ErrorView),
}

impl View for FetchPoll {
    type V = FetchPollView;

    open spec fn view(&self) -> FetchPollView {
        match self {
            FetchPoll::Pending => FetchPollView::Pending,
            FetchPoll::Fetch(r) => FetchPollView::Fetch(r@),
            FetchPoll::Failed(e) => FetchPollView::Failed(e@),
        }
    }
}

/// The read that the attributes of a node ask for, where the host has a store.
pub open spec fn request_of(c: NodeConfigView, has_client: bool) -> Result<
    FetchRequestView,
    ErrorView,
> {
    if !has_client {
        Err(ErrorView::ConfigError("context_client was not injected"@))
    } else {
        match (c.text_attr("namespace"@), c.text_attr("field"@)) {
            (None, _) => Err(ErrorView::ConfigError("context_fetch requires namespace"@)),
            (Some(_), None) => Err(ErrorView::ConfigError("context_fetch requires field"@)),
            (Some(namespace), Some(field)) => Ok(
                FetchRequestView {
                    namespace,
                    field,
                    structured: match assoc(c.attrs, "structured"@) {
                        Some(v) => v.as_bool() == Some(true),
                        None => false,
                    },
                },
            ),
        }
    }
}

/// What the node does when it is run.
pub open spec fn fetch_run(
    c: NodeConfigView,
    name: Seq<char>,
    w: WorkFlowView,
    has_client: bool,
) -> (WorkFlowView, FetchPollView) {
    let (taken, r) = w.take_activation(name);
    match r {
        Err(e) => (taken, FetchPollView::Failed(e)),
        Ok(false) => (taken, FetchPollView::Pending),
        Ok(true) => match request_of(c, has_client) {
            Ok(request) => (taken, FetchPollView::Fetch(request)),
            Err(e) => (taken, FetchPollView::Failed(e)),
        },
    }
}

/// A node that reads a value from the outside store.
#[derive(Debug)]
pub struct ContextFetchNode {
    pub core: NodeCore,
}

impl ContextFetchNode {
    /// The node that a configuration describes.
    pub fn new(config: NodeConfig, _ctx: NodeContext) -> (r: Result<
        ContextFetchNode,
        WorkflowError,
    >)
        ensures
            match r {
                Ok(node) => {
                    &&& node.core.config == config
                    &&& node.core.name@ == config@.node_name
                    &&& node.decl() == declared(
                        config@,
                        NodeType::Step,
                        Seq::empty(),
                        seq!["output"@],
                        seq!["default"@],
                        false,
                    )
                },
                Err(_) => false,
            },
    {
        let none: Vec<String> = Vec::new();
        proof {
            assert(texts(none@) =~= Seq::empty());
        }
        Ok(ContextFetchNode { core: NodeCore::new(config, none, one("output"), one("default")) })
    }

    /// Runs the node as far as it gets; `has_client` says whether the host has a store.
    pub fn run(&self, has_client: bool, workflow: &mut WorkFlow) -> (p: FetchPoll)
        ensures
            (final(workflow)@, p@) == fetch_run(
                self.core.config@,
                self.core.name@,
                old(workflow)@,
                has_client,
            ),
    {
        match workflow.wait_for_event(self.core.name.as_str()) {
            Err(e) => {
                return FetchPoll::Failed(e);
            },
            Ok(false) => {
                return FetchPoll::Pending;
            },
            Ok(true) => {},
        }
        if !has_client {
            return FetchPoll::Failed(config_error("context_client was not injected"));
        }
        let config = &self.core.config;
        let namespace = match config.text_attr("namespace") {
            None => {
                return FetchPoll::Failed(config_error("context_fetch requires namespace"));
            },
            Some(n) => n.to_owned(),
        };
        let field = match config.text_attr("field") {
            None => {
                return FetchPoll::Failed(config_error("context_fetch requires field"));
            },
            Some(f) => f.to_owned(),
        };
        let structured: bool = match config.attrs.get("structured") {
            Some(v) => match v.as_bool() {
                Some(b) => b,
                None => false,
            },
            None => false,
        };
        FetchPoll::Fetch(FetchRequest { namespace, field, structured })
    }

    /// Ends a run that asked for a read: the value is put out, and an error is the
    /// error of the run.
    pub fn fetched(&self, outcome: Result<Json, WorkflowError>, workflow: &mut WorkFlow) -> (r:
        Result<(), WorkflowError>)
        ensures
            (final(workflow)@, unit_view(r)) == outcome_put_out(
                old(workflow)@,
                self.core.name@,
                "output"@,
                result_view(outcome),
                self.core.config@.choice_map,
            ),
    {
        match outcome {
            Ok(v) => self.core.output_and_choose("output", v, "default", workflow),
            Err(e) => Err(e),
        }
    }
}

impl BaseNode for ContextFetchNode {
    open spec fn decl(&self) -> NodeDecl {
        self.core.decl(NodeType::Step, false)
    }

    fn name(&self) -> (r: &str) {
        self.core.name.as_str()
    }

    fn node_type(&self) -> (r: NodeType) {
        NodeType::Step
    }

    fn input_parameters(&self) -> (r: &StringMap<ParameterType>) {
        &self.core.input_params
    }

    fn output_parameters(&self) -> (r: &StringMap<ParameterType>) {
        &self.core.output_params
    }

    fn choices(&self) -> (r: &Vec<String>) {
        &self.core.choices
    }

    fn is_key_node(&self) -> (r: bool) {
        self.core.config.key_node
    }

    fn runable(&self) -> (r: bool) {
        true
    }

    fn is_reentrant(&self) -> (r: bool) {
        false
    }
}

// ---------------------------------------------------------------------------
// Laws
// ---------------------------------------------------------------------------

/// The read is for the configured namespace and field, and structured exactly where the
/// configuration says so by the value true. Without a store, a namespace or a field there
/// is none.
pub proof fn read_is_the_configured_one(c: NodeConfigView, has_client: bool)
    ensures
        ({
            let r = request_of(c, has_client);
            &&& r is Ok <==> has_client && (assoc(c.attrs, "namespace"@) matches Some(
                JsonView::Text(_),
            )) && (assoc(c.attrs, "field"@) matches Some(JsonView::Text(_)))
            &&& r is Ok ==> assoc(c.attrs, "namespace"@) == Some(
                JsonView::Text(r->Ok_0.namespace),
            ) && assoc(c.attrs, "field"@) == Some(JsonView::Text(r->Ok_0.field)) && (
            r->Ok_0.structured <==> assoc(c.attrs, "structured"@) == Some(JsonView::Bool(true)))
        }),
{
}

/// The node asks for its read once it was activated and not before, and takes the
/// activation up.
pub proof fn node_reads_when_activated(
    c: NodeConfigView,
    name: Seq<char>,
    w: WorkFlowView,
    has_client: bool,
)
    requires
        assoc(w.nodes, name) is Some,
    ensures
        ({
            let (after, p) = fetch_run(c, name, w, has_client);
            let active = assoc(w.nodes, name)->0.activated;
            &&& !active ==> after == w && p == FetchPollView::Pending
            &&& active ==> assoc(after.nodes, name)->0.running && !assoc(
                after.nodes,
                name,
            )->0.activated
            &&& active && request_of(c, has_client) is Ok ==> p == FetchPollView::Fetch(
                request_of(c, has_client)->Ok_0,
            )
            &&& active && request_of(c, has_client) is Err ==> p == FetchPollView::Failed(
                request_of(c, has_client)->Err_0,
            )
            &&& after.bus == w.bus && after.context == w.context && after.memory == w.memory
                && after.messages == w.messages && after.outbox == w.outbox
        }),
{
    activation_touches_one_node(w, name, name);
}

/// A read that cannot be asked for says why: the store first, then the namespace, then the
/// field.
pub proof fn missing_read_says_why(c: NodeConfigView, has_client: bool)
    ensures
        ({
            let r = request_of(c, has_client);
            let namespace = assoc(c.attrs, "namespace"@) matches Some(JsonView::Text(_));
            &&& !has_client ==> r == Err::<FetchRequestView, ErrorView>(
                ErrorView::ConfigError("context_client was not injected"@),
            )
            &&& has_client && !namespace ==> r == Err::<FetchRequestView, ErrorView>(
                ErrorView::ConfigError("context_fetch requires namespace"@),
            )
            &&& has_client && namespace && !(assoc(c.attrs, "field"@) matches Some(
                JsonView::Text(_),
            )) ==> r == Err::<FetchRequestView, ErrorView>(
                ErrorView::ConfigError("context_fetch requires field"@),
            )
        }),
{
}

} // verus!
