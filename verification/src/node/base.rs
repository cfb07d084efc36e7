//! What a node is to the engine: its configuration, its declaration, and the
//! operations by which it takes part in a workflow.
use vstd::prelude::*;

use crate::context_sync::{copy_text_option, text_option};
use crate::error::{ErrorView, WorkflowError};
use crate::parameter_bus::ParameterType;
use crate::string_map::{assoc, Duplicate, StringMap};
use crate::text::{cat3, cat5, has_prefix, strip_prefix, text_eq, texts};
use crate::value::{Json, JsonView};
use crate::workflow::{WorkFlow, WorkFlowView};

verus! {

/// The kind of a node.
#[derive(Clone, Copy, Debug, PartialEq, Eq, Structural)]
pub enum NodeType {
    /// A basic node.
    Base,
    /// A node that gives its outputs at once.
    Step,
    /// A node that gives a stream.
    Stream,
}

/// Where an input comes from: the key of a parameter or of the context, or nowhere.
#[derive(Debug)]
pub struct InputSource {
    pub key: Option<String>,
}

impl View for InputSource {
    type V = Option<Seq<char>>;

    open spec fn view(&self) -> Option<Seq<char>> {
        text_option(self.key)
    }
}

impl Duplicate for InputSource {
    fn duplicate(&self) -> (r: InputSource) {
        InputSource { key: copy_text_option(&self.key) }
    }
}

/// The configuration of a node.
#[derive(Debug)]
pub struct NodeConfig {
    pub id: u32,
    pub node_name: String,
    /// The source of each input.
    pub input_map: StringMap<InputSource>,
    /// The target node of each choice.
    pub choice_map: StringMap<String>,
    pub attrs: StringMap<Json>,
    /// Whether the node is never cancelled.
    pub key_node: bool,
}

/// What the configuration of a node holds.
#[verifier::ext_equal]
pub struct NodeConfigView {
    pub id: u32,
    pub node_name: Seq<char>,
    pub input_map: Seq<(Seq<char>, Option<Seq<char>>)>,
    pub choice_map: Seq<(Seq<char>, Seq<char>)>,
    pub attrs: Seq<(Seq<char>, JsonView)>,
    pub key_node: bool,
}

impl View for NodeConfig {
    type V = NodeConfigView;

    open spec fn view(&self) -> NodeConfigView {
        NodeConfigView {
            id: self.id,
            node_name: self.node_name@,
            input_map: self.input_map@,
            choice_map: self.choice_map@,
            attrs: self.attrs@,
            key_node: self.key_node,
        }
    }
}

impl Duplicate for NodeConfig {
    fn duplicate(&self) -> (r: NodeConfig) {
        NodeConfig {
            id: self.id,
            node_name: self.node_name.clone(),
            input_map: self.input_map.duplicate(),
            choice_map: self.choice_map.duplicate(),
            attrs: self.attrs.duplicate(),
            key_node: self.key_node,
        }
    }
}

impl NodeConfigView {
    /// The text of an attribute that is a text.
    pub open spec fn text_attr(self, name: Seq<char>) -> Option<Seq<char>> {
        match assoc(self.attrs, name) {
            Some(v) => v.as_text(),
            None => None,
        }
    }
}

impl NodeConfig {
    /// The text of an attribute that is a text.
    pub fn text_attr(&self, name: &str) -> (r: Option<&str>)
        ensures
            match r {
                Some(s) => self@.text_attr(name@) == Some(s@),
                None => self@.text_attr(name@) is None,
            },
    {
        match self.attrs.get(name) {
            Some(v) => v.as_str(),
            None => None,
        }
    }
}

/// What a node declares.
#[verifier::ext_equal]
pub struct NodeDecl {
    pub name: Seq<char>,
    pub node_type: NodeType,
    pub inputs: Seq<(Seq<char>, ParameterType)>,
    pub outputs: Seq<(Seq<char>, ParameterType)>,
    pub choices: Seq<Seq<char>>,
    pub key_node: bool,
    pub runable: bool,
    pub reentrant: bool,
}

/// A node of a workflow.
pub trait BaseNode {
    /// What the node declares.
    spec fn decl(&self) -> NodeDecl;

    /// The name of the node.
    fn name(&self) -> (r: &str)
        ensures
            r@ == self.decl().name,
    ;

    /// The kind of the node.
    fn node_type(&self) -> (r: NodeType)
        ensures
            r == self.decl().node_type,
    ;

    /// The inputs and their types.
    fn input_parameters(&self) -> (r: &StringMap<ParameterType>)
        ensures
            r@ == self.decl().inputs,
    ;

    /// The outputs and their types.
    fn output_parameters(&self) -> (r: &StringMap<ParameterType>)
        ensures
            r@ == self.decl().outputs,
    ;

    /// The choices that the node can make.
    fn choices(&self) -> (r: &Vec<String>)
        ensures
            texts(r@) == self.decl().choices,
    ;

    /// Whether the node is never cancelled.
    fn is_key_node(&self) -> (r: bool)
        ensures
            r == self.decl().key_node,
    ;

    /// Whether the node runs.
    fn runable(&self) -> (r: bool)
        ensures
            r == self.decl().runable,
    ;

    /// Whether the node waits for the next activation after each run.
    fn is_reentrant(&self) -> (r: bool)
        ensures
            r == self.decl().reentrant,
    ;
}

/// The workflow that a node belongs to, as long as it is there.
#[derive(Clone, Copy)]
pub struct NodeContext<'a> {
    pub workflow: Option<&'a WorkFlow>,
}

impl<'a> NodeContext<'a> {
    /// The context of a node in the given workflow.
    pub fn new(workflow: Option<&'a WorkFlow>) -> (r: NodeContext<'a>)
        ensures
            r.workflow == workflow,
    {
        NodeContext { workflow }
    }

    /// The workflow, or the error that it is gone.
    pub fn get_workflow(&self) -> (r: Result<&'a WorkFlow, WorkflowError>)
        ensures
            match r {
                Ok(w) => self.workflow == Some(w),
                Err(e) => self.workflow is None && e@ == ErrorView::Other(
                    "Workflow has been dropped"@,
                ),
            },
    {
        match self.workflow {
            Some(w) => Ok(w),
            None => Err(WorkflowError::Other("Workflow has been dropped".to_owned())),
        }
    }
}

/// What an input is at the moment.
#[derive(Debug)]
pub enum InputValue {
    /// The input has no source.
    Absent,
    /// The value of the source.
    Ready(Json),
    /// The source is a step parameter that has no value yet.
    Waiting,
}

/// What an input is at the moment.
#[verifier::ext_equal]
pub enum InputView {
    Absent,
    Ready(JsonView),
    Waiting,
}

impl View for InputValue {
    type V = InputView;

    open spec fn view(&self) -> InputView {
        match self {
            InputValue::Absent => InputView::Absent,
            InputValue::Ready(v) => InputView::Ready(v@),
            InputValue::Waiting => InputView::Waiting,
        }
    }
}

/// What an input reads in a workflow that is there: the context value of a source
/// `context.<field>`, else the step parameter with the source as its key.
pub open spec fn source_value(w: WorkFlowView, source: Seq<char>) -> Result<InputView, ErrorView> {
    if has_prefix(source, "context."@) {
        let field = source.skip("context."@.len() as int);
        if field.len() == 0 {
            Err(
                ErrorView::ConfigError(
                    "context source key must be in format 'context.<field>'"@,
                ),
            )
        } else {
            match assoc(w.context, field) {
                Some(v) => Ok(InputView::Ready(v)),
                None => Err(
                    ErrorView::ConfigError(
                        "Context key '"@ + field + "' not found for source '"@ + source + "'"@,
                    ),
                ),
            }
        }
    } else {
        match w.bus.read(source) {
            Ok(Some(v)) => Ok(InputView::Ready(v)),
            Ok(None) => Ok(InputView::Waiting),
            Err(e) => Err(e),
        }
    }
}

/// What an input of a node reads.
pub open spec fn input_value(
    w: Option<WorkFlowView>,
    map: Seq<(Seq<char>, Option<Seq<char>>)>,
    param: Seq<char>,
) -> Result<InputView, ErrorView> {
    match assoc(map, param) {
        None => Err(
            ErrorView::ConfigError(
                "Input parameter '"@ + param + "' not found in input_map"@,
            ),
        ),
        Some(None) => Ok(InputView::Absent),
        Some(Some(source)) => match w {
            None => Err(ErrorView::Other("Workflow has been dropped"@)),
            Some(w) => source_value(w, source),
        },
    }
}

/// The view of the workflow of a context.
pub open spec fn context_view(ctx: NodeContext) -> Option<WorkFlowView> {
    match ctx.workflow {
        Some(w) => Some(w@),
        None => None,
    }
}

/// The operations by which nodes take part in a workflow.
pub struct NodeHelper;

impl NodeHelper {
    /// Takes up the activation of a node: whether there was one to take up.
    pub fn wait_for_event(node_name: &str, workflow: &mut WorkFlow) -> (r: Result<
        bool,
        WorkflowError,
    >)
        ensures
            final(workflow)@ == old(workflow)@.take_activation(node_name@).0,
            match r {
                Ok(b) => old(workflow)@.take_activation(node_name@).1 == Ok::<bool, ErrorView>(b),
                Err(e) => old(workflow)@.take_activation(node_name@).1 == Err::<bool, ErrorView>(
                    e@,
                ),
            },
    {
        workflow.wait_for_event(node_name)
    }

    /// Reads an input of a node.
    pub fn get_input(
        param_name: &str,
        input_map: &StringMap<InputSource>,
        ctx: &NodeContext,
    ) -> (r: Result<InputValue, WorkflowError>)
        ensures
            match r {
                Ok(v) => input_value(context_view(*ctx), input_map@, param_name@) == Ok::<
                    InputView,
                    ErrorView,
                >(v@),
                Err(e) => input_value(context_view(*ctx), input_map@, param_name@) == Err::<
                    InputView,
                    ErrorView,
                >(e@),
            },
    {
        let source = match input_map.get(param_name) {
            None => {
                return Err(
                    WorkflowError::ConfigError(
                        cat3("Input parameter '", param_name, "' not found in input_map"),
                    ),
                );
            },
            Some(source) => source,
        };
        let source_key: &String = match &source.key {
            None => {
                return Ok(InputValue::Absent);
            },
            Some(key) => key,
        };
        let workflow = match ctx.get_workflow() {
            Ok(w) => w,
            Err(e) => {
                return Err(e);
            },
        };
        if let Some(field) = strip_prefix(source_key.as_str(), "context.") {
            if text_eq(field.as_str(), "") {
                proof {
                    reveal_strlit("");
                }
                return Err(
                    WorkflowError::ConfigError(
                        "context source key must be in format 'context.<field>'".to_owned(),
                    ),
                );
            }
            proof {
                reveal_strlit("");
                assert(field@.len() == 0 ==> field@ =~= ""@);
            }
            return match workflow.get_context(field.as_str()) {
                Some(v) => Ok(InputValue::Ready(v)),
                None => Err(
                    WorkflowError::ConfigError(
                        cat5(
                            "Context key '",
                            field.as_str(),
                            "' not found for source '",
                            source_key.as_str(),
                            "'",
                        ),
                    ),
                ),
            };
        }
        match workflow.parameter_bus.get_value(source_key.as_str()) {
            Ok(Some(v)) => Ok(InputValue::Ready(v)),
            Ok(None) => Ok(InputValue::Waiting),
            Err(e) => Err(e),
        }
    }

    /// Sets an output of a node.
    pub fn set_output(
        node_name: &str,
        param_name: &str,
        value: Json,
        workflow: &mut WorkFlow,
    ) -> (r: Result<(), WorkflowError>)
        ensures
            final(workflow)@ == old(workflow)@.output(node_name@, param_name@, value@).0,
            crate::error::unit_view(r) == old(workflow)@.output(node_name@, param_name@, value@).1,
    {
        workflow.set_output(node_name, param_name, value)
    }

    /// Makes a choice, and cancels the targets of the choices that were not made.
    pub fn set_choice(
        node_name: &str,
        choice_name: &str,
        choice_map: &StringMap<String>,
        workflow: &mut WorkFlow,
    ) -> (r: Result<String, WorkflowError>)
        ensures
            final(workflow)@ == old(workflow)@.choice(
                node_name@,
                choice_name@,
                choice_map@,
                true,
            ).0,
            crate::error::result_view(r) == old(workflow)@.choice(
                node_name@,
                choice_name@,
                choice_map@,
                true,
            ).1,
    {
        Self::set_choice_with_policy(node_name, choice_name, choice_map, workflow, true)
    }

    /// Makes a choice, and cancels the targets of the others where the policy says so.
    pub fn set_choice_with_policy(
        node_name: &str,
        choice_name: &str,
        choice_map: &StringMap<String>,
        workflow: &mut WorkFlow,
        cancel_others: bool,
    ) -> (r: Result<String, WorkflowError>)
        ensures
            final(workflow)@ == old(workflow)@.choice(
                node_name@,
                choice_name@,
                choice_map@,
                cancel_others,
            ).0,
            crate::error::result_view(r) == old(workflow)@.choice(
                node_name@,
                choice_name@,
                choice_map@,
                cancel_others,
            ).1,
    {
        let target: &String = match choice_map.get(choice_name) {
            None => {
                return Err(
                    WorkflowError::ConfigError(
                        cat3("Choice '", choice_name, "' not found in choice_map"),
                    ),
                );
            },
            Some(target) => target,
        };
        match workflow.choose_node(node_name, target.as_str()) {
            Ok(()) => {},
            Err(e) => {
                return Err(e);
            },
        }
        if cancel_others {
            let ghost chosen = workflow@;
            let mut i: usize = 0;
            proof {
                assert(choice_map@.take(0) =~= Seq::empty());
            }
            while i < choice_map.len()
                invariant
                    i <= choice_map@.len(),
                    workflow@ == crate::workflow::cancel_others(
                        chosen,
                        choice_map@.take(i as int),
                        target@,
                    ),
                decreases choice_map@.len() - i,
            {
                proof {
                    let next = choice_map@.take(i + 1);
                    assert(next.drop_last() =~= choice_map@.take(i as int));
                    assert(next.last() == choice_map@[i as int]);
                }
                let other = choice_map.value_at(i);
                if !text_eq(other.as_str(), target.as_str()) {
                    let _ = workflow.cancel_node(other.as_str());
                }
                i = i + 1;
            }
            proof {
                assert(choice_map@.take(i as int) =~= choice_map@);
            }
        }
        Ok(target.clone())
    }

    /// Takes the next outside message, where there is one.
    pub fn get_message(workflow: &mut WorkFlow) -> (r: Option<Json>)
        ensures
            final(workflow)@ == old(workflow)@.take_message().0,
            crate::error::option_view(r) == old(workflow)@.take_message().1,
    {
        workflow.get_message()
    }

    /// Reads the memory of the workflow.
    pub fn get_memory(key: &str, ctx: &NodeContext) -> (r: Result<Option<Json>, WorkflowError>)
        ensures
            match r {
                Ok(v) => ctx.workflow is Some && crate::error::option_view(v) == assoc(
                    ctx.workflow->0@.memory,
                    key@,
                ),
                Err(e) => ctx.workflow is None && e@ == ErrorView::Other(
                    "Workflow has been dropped"@,
                ),
            },
    {
        match ctx.get_workflow() {
            Ok(w) => Ok(w.get_memory(key)),
            Err(e) => Err(e),
        }
    }

    /// Writes the memory of the workflow.
    pub fn set_memory(key: &str, value: Json, workflow: &mut WorkFlow)
        ensures
            final(workflow)@ == old(workflow)@.with_memory(key@, value@),
    {
        workflow.set_memory(key, value)
    }
}

// ---------------------------------------------------------------------------
// Laws
// ---------------------------------------------------------------------------

/// An input whose source is a field of the context reads that field, and fails where the
/// context lacks it; it never waits.
pub proof fn context_source_reads_the_context(w: WorkFlowView, field: Seq<char>, v: JsonView)
    requires
        field.len() > 0,
    ensures
        source_value(w, "context."@ + field) == Ok::<InputView, ErrorView>(InputView::Ready(v))
            <==> assoc(w.context, field) == Some(v),
        assoc(w.context, field) is None <==> source_value(w, "context."@ + field) is Err,
        source_value(w, "context."@) is Err,
{
    let source = "context."@ + field;
    assert(source.take("context."@.len() as int) =~= "context."@);
    assert(source.skip("context."@.len() as int) =~= field);
    assert("context."@.take("context."@.len() as int) =~= "context."@);
    assert("context."@.skip("context."@.len() as int).len() == 0);
}

/// An input with any other source reads the step parameter of that key: its value, or
/// nothing yet where it has none. A key that is no step parameter is an error.
pub proof fn other_sources_read_the_bus(w: WorkFlowView, source: Seq<char>, v: JsonView)
    requires
        w.bus.wf(),
        !has_prefix(source, "context."@),
    ensures
        source_value(w, source) == Ok::<InputView, ErrorView>(InputView::Ready(v)) <==> assoc(
            w.bus.types,
            source,
        ) == Some(ParameterType::Step) && assoc(w.bus.steps, source) == Some(Some(v)),
        source_value(w, source) == Ok::<InputView, ErrorView>(InputView::Waiting) <==> assoc(
            w.bus.types,
            source,
        ) == Some(ParameterType::Step) && assoc(w.bus.steps, source) == Some(None::<JsonView>),
        source_value(w, source) is Err <==> assoc(w.bus.types, source) != Some(
            ParameterType::Step,
        ),
        source_value(w, source) != Ok::<InputView, ErrorView>(InputView::Absent),
{
    crate::parameter_bus::parameters_are_used_by_their_type(w.bus, source);
}

/// An input reads the source that the map gives it; one that the map gives no source is
/// absent, and one that the map lacks is an error.
pub proof fn input_reads_its_source(
    w: WorkFlowView,
    map: Seq<(Seq<char>, Option<Seq<char>>)>,
    param: Seq<char>,
    source: Seq<char>,
)
    ensures
        assoc(map, param) == Some(Some(source)) ==> input_value(Some(w), map, param)
            == source_value(w, source),
        assoc(map, param) == Some(None::<Seq<char>>) ==> input_value(Some(w), map, param) == Ok::<
            InputView,
            ErrorView,
        >(InputView::Absent),
        assoc(map, param) is None ==> input_value(Some(w), map, param) is Err,
        assoc(map, param) == Some(Some(source)) ==> input_value(None, map, param) is Err,
{
}

/// A text attribute is the text that the attribute is; an attribute that is no text or
/// is not there counts as none.
pub proof fn text_attributes_are_texts(c: NodeConfigView, name: Seq<char>, s: Seq<char>)
    ensures
        c.text_attr(name) == Some(s) <==> assoc(c.attrs, name) == Some(JsonView::Text(s)),
{
}

/// An input that cannot be read says why: it has no entry in the map, its workflow is gone,
/// its source names no field of the context or one that is not there, or its source is no
/// step parameter.
pub proof fn unreadable_input_says_why(
    w: WorkFlowView,
    map: Seq<(Seq<char>, Option<Seq<char>>)>,
    param: Seq<char>,
    source: Seq<char>,
    field: Seq<char>,
)
    ensures
        assoc(map, param) is None ==> input_value(Some(w), map, param) == Err::<
            InputView,
            ErrorView,
        >(ErrorView::ConfigError("Input parameter '"@ + param + "' not found in input_map"@)),
        assoc(map, param) == Some(Some(source)) ==> input_value(None, map, param) == Err::<
            InputView,
            ErrorView,
        >(ErrorView::Other("Workflow has been dropped"@)),
        source_value(w, "context."@) == Err::<InputView, ErrorView>(
            ErrorView::ConfigError("context source key must be in format 'context.<field>'"@),
        ),
        field.len() > 0 && assoc(w.context, field) is None ==> source_value(
            w,
            "context."@ + field,
        ) == Err::<InputView, ErrorView>(
            ErrorView::ConfigError(
                "Context key '"@ + field + "' not found for source '"@ + ("context."@ + field)
                    + "'"@,
            ),
        ),
        !has_prefix(source, "context."@) && assoc(w.bus.types, source) is None ==> source_value(
            w,
            source,
        ) == Err::<InputView, ErrorView>(ErrorView::ParameterNotFound(source)),
{
    let full = "context."@ + field;
    assert(full.take("context."@.len() as int) =~= "context."@);
    assert(full.skip("context."@.len() as int) =~= field);
    assert("context."@.take("context."@.len() as int) =~= "context."@);
    assert("context."@.skip("context."@.len() as int).len() == 0);
}

} // verus!
