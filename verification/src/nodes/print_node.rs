//! The node that prints its input and passes it on.
use vstd::prelude::*;

use crate::error::{unit_view, ErrorView, WorkflowError};
use crate::json::json_pretty_writing;
use crate::node::base::{
    source_value, BaseNode, InputView, NodeConfig, NodeConfigView, NodeContext, NodeDecl, NodeType,
};
use crate::nodes::{
    and_choice, and_output, await_input, cancelled_as_told, declared,
    node_waits_for_activation_and_input, one, output_is_read_and_choice_is_made, poll_input,
    went_to, InputPoll, InputPollView, NodeCore,
};
use crate::parameter_bus::ParameterType;
use crate::string_map::{assoc, StringMap};
use crate::text::cat3;
use crate::value::{Json, JsonView};
use crate::workflow::{activation_touches_one_node, WorkFlow, WorkFlowView};

verus! {

/// How far the run of a print node has got.
#[derive(Debug)]
pub enum PrintPoll {
    /// The node waits for its activation or its input.
    Pending,
    /// The run is over before anything was printed.
    Failed(WorkflowError),
    /// The line to print, and the result of the run.
    Printed(String, Result<(), WorkflowError>),
}

/// How far the run of a print node has got.
#[verifier::ext_equal]
pub enum PrintPollView {
    Pending,
    Failed(ErrorView),
    Printed(Seq<char>, Result<(), ErrorView>),
}

impl View for PrintPoll {
    type V = PrintPollView;

    open spec fn view(&self) -> PrintPollView {
        match self {
            PrintPoll::Pending => PrintPollView::Pending,
            PrintPoll::Failed(e) => PrintPollView::Failed(e@),
            PrintPoll::Printed(line, r) => PrintPollView::Printed(line@, unit_view(*r)),
        }
    }
}

/// What a printed line begins with: the attribute `prefix`, else the name of the
/// node.
pub open spec fn prefix_of(c: NodeConfigView, name: Seq<char>) -> Seq<char> {
    match c.text_attr("prefix"@) {
        Some(p) => p,
        None => name,
    }
}

/// What the node does when it is run: the workflow, whether it stays triggered, and
/// how far it got.
pub open spec fn print_run(
    c: NodeConfigView,
    name: Seq<char>,
    w: WorkFlowView,
    triggered: bool,
) -> (WorkFlowView, bool, PrintPollView) {
    let (polled, t, input) = poll_input(w, triggered, name, c.input_map, "input"@);
    match input {
        InputPollView::Pending => (polled, t, PrintPollView::Pending),
        InputPollView::Failed(e) => (polled, t, PrintPollView::Failed(e)),
        InputPollView::Got(v) => {
            let given = match v {
                Some(v) => v,
                None => JsonView::Null,
            };
            let (after, r) = and_choice(
                and_output((polled, Ok(())), name, "output"@, given),
                name,
                "default"@,
                c.choice_map,
                true,
            );
            (
                after,
                t,
                PrintPollView::Printed(prefix_of(c, name) + " "@ + json_pretty_writing(given), r),
            )
        },
    }
}

/// A node that prints its input and passes it on.
#[derive(Debug)]
pub struct PrintNode {
    pub core: NodeCore,
}

impl PrintNode {
    /// The node that a configuration describes.
    pub fn new(config: NodeConfig, _ctx: NodeContext) -> (r: Result<PrintNode, WorkflowError>)
        ensures
            match r {
                Ok(node) => {
                    &&& node.core.config == config
                    &&& node.core.name@ == config@.node_name
                    &&& node.decl() == declared(
                        config@,
                        NodeType::Step,
                        seq!["input"@],
                        seq!["output"@],
                        seq!["default"@],
                        true,
                    )
                },
                Err(_) => false,
            },
    {
        Ok(PrintNode { core: NodeCore::new(config, one("input"), one("output"), one("default")) })
    }

    /// What a printed line begins with.
    pub fn get_prefix(&self) -> (r: String)
        ensures
            r@ == prefix_of(self.core.config@, self.core.name@),
    {
        match self.core.config.text_attr("prefix") {
            Some(p) => p.to_owned(),
            None => self.core.name.clone(),
        }
    }

    /// Runs the node as far as it gets; `triggered` says whether its activation was
    /// taken up before.
    pub fn run(&self, triggered: &mut bool, workflow: &mut WorkFlow) -> (r: PrintPoll)
        ensures
            (final(workflow)@, *final(triggered), r@) == print_run(
                self.core.config@,
                self.core.name@,
                old(workflow)@,
                *old(triggered),
            ),
    {
        match await_input(
            self.core.name.as_str(),
            triggered,
            "input",
            &self.core.config.input_map,
            workflow,
        ) {
            InputPoll::Pending => PrintPoll::Pending,
            InputPoll::Failed(e) => PrintPoll::Failed(e),
            InputPoll::Got(v) => {
                let given = match v {
                    Some(v) => v,
                    None => Json::Null,
                };
                let prefix = self.get_prefix();
                let text = given.to_pretty_text();
                let line = cat3(prefix.as_str(), " ", text.as_str());
                let r = self.core.output_and_choose("output", given, "default", workflow);
                PrintPoll::Printed(line, r)
            },
        }
    }
}

impl BaseNode for PrintNode {
    open spec fn decl(&self) -> NodeDecl {
        self.core.decl(NodeType::Step, true)
    }

    fn name(&self) -> (r: &str) {
        self.core.name.as_str()
    }

    fn node_type(&self) -> (r: NodeType) {
        NodeType::Step
    }

    fn input_parameters(&self) -> (r: &StringMap<ParameterType>) {
        &self.core.input_params
    }

    fn output_parameters(&self) -> (r: &StringMap<ParameterType>) {
        &self.core.output_params
    }

    fn choices(&self) -> (r: &Vec<String>) {
        &self.core.choices
    }

    fn is_key_node(&self) -> (r: bool) {
        self.core.config.key_node
    }

    fn runable(&self) -> (r: bool) {
        true
    }

    fn is_reentrant(&self) -> (r: bool) {
        true
    }
}

// ---------------------------------------------------------------------------
// Laws
// ---------------------------------------------------------------------------

/// A printed line is the prefix, a space and the indented text of the input; the prefix is
/// the configured text, else the name of the node. The input is put out as it came, and the
/// workflow goes to the target of `default`.
pub proof fn input_is_printed_and_passed_on(
    c: NodeConfigView,
    name: Seq<char>,
    w: WorkFlowView,
    source: Seq<char>,
    input: JsonView,
    prefix: Seq<char>,
)
    requires
        w.bus.wf(),
        assoc(w.bus.types, name + "."@ + "output"@) == Some(ParameterType::Step),
        assoc(c.input_map, "input"@) == Some(Some(source)),
        source_value(w, source) == Ok::<InputView, ErrorView>(InputView::Ready(input)),
        assoc(c.attrs, "prefix"@) == Some(JsonView::Text(prefix)) || (!(assoc(
            c.attrs,
            "prefix"@,
        ) matches Some(JsonView::Text(_))) && prefix == name),
    ensures
        ({
            let (after, t, p) = print_run(c, name, w, true);
            let target = assoc(c.choice_map, "default"@);
            &&& !t
            &&& p matches PrintPollView::Printed(line, r) && line == prefix + " "@
                + json_pretty_writing(input) && (r is Ok <==> target is Some && (target->0
                == "finish"@ || assoc(w.nodes, target->0) is Some)) && (r is Ok ==> went_to(
                w,
                after,
                name,
                target->0,
            ) && cancelled_as_told(w, after, c.choice_map, target->0, true))
            &&& after.bus.read(name + "."@ + "output"@) == Ok::<Option<JsonView>, ErrorView>(
                Some(input),
            )
        }),
{
    output_is_read_and_choice_is_made(
        w,
        name,
        "output"@,
        input,
        "default"@,
        c.choice_map,
        true,
        name,
    );
}

/// A node does nothing before it was activated; once it was, it takes its activation up and
/// waits, triggered, while its input has no value. An input that is not configured is an
/// error, and null stands for one without a source.
pub proof fn node_waits_for_its_input(
    c: NodeConfigView,
    name: Seq<char>,
    w: WorkFlowView,
    triggered: bool,
)
    requires
        assoc(w.nodes, name) is Some,
    ensures
        ({
            let (after, t, p) = print_run(c, name, w, triggered);
            let ready = triggered || assoc(w.nodes, name)->0.activated;
            let begun = if triggered {
                w
            } else {
                w.take_activation(name).0
            };
            let source = assoc(c.input_map, "input"@);
            &&& !ready ==> after == w && !t && p == PrintPollView::Pending
            &&& ready && source is None ==> after == begun && !t && p is Failed
            &&& ready && (source matches Some(Some(s)) && source_value(w, s) == Ok::<
                InputView,
                ErrorView,
            >(InputView::Waiting)) ==> after == begun && t && p == PrintPollView::Pending
            &&& !triggered && ready ==> (after, t, p) == print_run(c, name, begun, true)
            &&& ready && source == Some(None::<Seq<char>>) ==> (p matches PrintPollView::Printed(
                line,
                r,
            ) && line == prefix_of(c, name) + " "@ + json_pretty_writing(JsonView::Null))
        }),
{
    node_waits_for_activation_and_input(w, triggered, name, c.input_map, "input"@, JsonView::Null);
    activation_touches_one_node(w, name, name);
}

} // verus!
