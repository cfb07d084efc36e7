//! The node that asks a language model.
use vstd::prelude::*;

use crate::error::{result_view, unit_view, ErrorView, WorkflowError};
use crate::json::json_writing;
use crate::node::base::{
    source_value, BaseNode, InputView, NodeConfig, NodeConfigView, NodeContext, NodeDecl, NodeType,
};
use crate::nodes::transform_node::{plain_text, value_text};
use crate::nodes::{
    and_choice, and_output, await_input, cancelled_as_told, declared,
    node_waits_for_activation_and_input, one, output_is_read_and_choice_is_made, poll_input,
    went_to, InputPoll, InputPollView, NodeCore,
};
use crate::context_sync::text_option;
use crate::parameter_bus::ParameterType;
use crate::string_map::{assoc, StringMap};
use crate::text::{cat3, replace, replace_text, text_eq};
use crate::value::{Json, JsonView};
use crate::workflow::{activation_touches_one_node, WorkFlow, WorkFlowView};

verus! {

/// What the attributes of the node say.
#[verifier::ext_equal]
pub struct LlmView {
    pub stream: bool,
    pub system_prompt: Option<Seq<char>>,
    pub mock_output: Seq<char>,
}

/// What the attributes of a configuration say: no stream, no system prompt and a
/// stand-in answer that repeats the prompt, unless they say otherwise.
pub open spec fn llm_of(c: NodeConfigView) -> LlmView {
    LlmView {
        stream: match assoc(c.attrs, "stream"@) {
            Some(v) => v.as_bool() == Some(true),
            None => false,
        },
        system_prompt: match c.text_attr("system_prompt"@) {
            Some(s) => if s.len() > 0 {
                Some(s)
            } else {
                None
            },
            None => None,
        },
        mock_output: match c.text_attr("mock_output"@) {
            Some(s) => s,
            None => "[mock] {prompt}"@,
        },
    }
}

impl LlmView {
    /// What the model is asked: the system prompt, an empty line and the prompt.
    pub open spec fn request(self, prompt: Seq<char>) -> Seq<char> {
        match self.system_prompt {
            Some(system) => system + "\n\n"@ + prompt,
            None => prompt,
        }
    }

    /// The answer where there is no model.
    pub open spec fn mock(self, request: Seq<char>) -> Seq<char> {
        replace_text(self.mock_output, "{prompt}"@, request)
    }
}

/// How far the run of the node has got.
#[derive(Debug)]
pub enum LlmPoll {
    /// The node waits for its activation or its prompt.
    Pending,
    /// The model has to be asked this, for an answer in pieces or as a whole.
    Ask { request: String, stream: bool },
    /// The run is over, with this error.
    Failed(WorkflowError),
}

/// How far the run of the node has got.
#[verifier::ext_equal]
pub enum LlmPollView {
    Pending,
    Ask { request: Seq<char>, stream: bool },
    Failed(ErrorView),
}

impl View for LlmPoll {
    type V = LlmPollView;

    open spec fn view(&self) -> LlmPollView {
        match self {
            LlmPoll::Pending => LlmPollView::Pending,
            LlmPoll::Ask { request, stream } => LlmPollView::Ask {
                request: request@,
                stream: *stream,
            },
            LlmPoll::Failed(e) => LlmPollView::Failed(e@),
        }
    }
}

/// What came of asking the model.
#[derive(Debug)]
pub enum LlmReply {
    /// The host has no model.
    NoModel,
    /// The answer of the model, or its error.
    Answer(Result<String, WorkflowError>),
}

/// What the node does when it is run: the workflow, whether it stays triggered, and
/// how far it got.
pub open spec fn llm_run(
    l: LlmView,
    c: NodeConfigView,
    name: Seq<char>,
    w: WorkFlowView,
    triggered: bool,
) -> (WorkFlowView, bool, LlmPollView) {
    let (polled, t, input) = poll_input(w, triggered, name, c.input_map, "prompt"@);
    (
        polled,
        t,
        match input {
            InputPollView::Pending => LlmPollView::Pending,
            InputPollView::Failed(e) => LlmPollView::Failed(e),
            InputPollView::Got(Some(v)) => LlmPollView::Ask {
                request: l.request(plain_text(v)),
                stream: l.stream,
            },
            InputPollView::Got(None) => LlmPollView::Ask {
                request: l.request(Seq::empty()),
                stream: l.stream,
            },
        },
    )
}

/// What the node does with the reply to a request.
pub open spec fn llm_replied(
    l: LlmView,
    c: NodeConfigView,
    name: Seq<char>,
    w: WorkFlowView,
    request: Seq<char>,
    reply: LlmReply,
) -> (WorkFlowView, Result<(), ErrorView>) {
    let answer = match reply {
        LlmReply::NoModel => Ok(l.mock(request)),
        LlmReply::Answer(r) => result_view(r),
    };
    match answer {
        Err(e) => (w, Err(e)),
        Ok(text) => and_choice(
            and_output((w, Ok(())), name, "result"@, JsonView::Text(text)),
            name,
            "default"@,
            c.choice_map,
            true,
        ),
    }
}

/// A node that asks a language model and puts its answer out.
#[derive(Debug)]
pub struct LlmCallNode {
    pub core: NodeCore,
    pub stream: bool,
    pub system_prompt: Option<String>,
    pub mock_output: String,
}

impl LlmCallNode {
    /// What the attributes of the node say.
    pub open spec fn rules(self) -> LlmView {
        LlmView {
            stream: self.stream,
            system_prompt: text_option(self.system_prompt),
            mock_output: self.mock_output@,
        }
    }

    /// The node that a configuration describes.
    pub fn new(config: NodeConfig, _ctx: NodeContext) -> (r: Result<LlmCallNode, WorkflowError>)
        ensures
            match r {
                Ok(node) => {
                    &&& node.rules() == llm_of(config@)
                    &&& node.core.config == config
                    &&& node.core.name@ == config@.node_name
                    &&& node.decl() == declared(
                        config@,
                        if llm_of(config@).stream {
                            NodeType::Stream
                        } else {
                            NodeType::Step
                        },
                        seq!["prompt"@],
                        seq!["result"@],
                        seq!["default"@],
                        true,
                    )
                },
                Err(_) => false,
            },
    {
        let stream: bool = match config.attrs.get("stream") {
            Some(v) => match v.as_bool() {
                Some(b) => b,
                None => false,
            },
            None => false,
        };
        proof {
            reveal_strlit("");
        }
        let system_prompt: Option<String> = match config.text_attr("system_prompt") {
            Some(s) => {
                proof {
                    if s@.len() == 0 {
                        assert(s@ =~= ""@);
                    }
                }
                if text_eq(s, "") {
                    None
                } else {
                    Some(s.to_owned())
                }
            },
            None => None,
        };
        let mock_output = match config.text_attr("mock_output") {
            Some(s) => s.to_owned(),
            None => "[mock] {prompt}".to_owned(),
        };
        Ok(
            LlmCallNode {
                core: NodeCore::new(config, one("prompt"), one("result"), one("default")),
                stream,
                system_prompt,
                mock_output,
            },
        )
    }

    /// What the model is asked.
    pub fn request_text(&self, prompt: String) -> (r: String)
        ensures
            r@ == self.rules().request(prompt@),
    {
        match &self.system_prompt {
            Some(system) => cat3(system.as_str(), "\n\n", prompt.as_str()),
            None => prompt,
        }
    }

    /// The answer where there is no model.
    pub fn mock_text(&self, prompt: &str) -> (r: String)
        ensures
            r@ == self.rules().mock(prompt@),
    {
        proof {
            reveal_strlit("{prompt}");
        }
        replace(self.mock_output.as_str(), "{prompt}", prompt)
    }

    /// Runs the node as far as it gets; `triggered` says whether its activation was
    /// taken up before.
    pub fn run(&self, triggered: &mut bool, workflow: &mut WorkFlow) -> (p: LlmPoll)
        ensures
            (final(workflow)@, *final(triggered), p@) == llm_run(
                self.rules(),
                self.core.config@,
                self.core.name@,
                old(workflow)@,
                *old(triggered),
            ),
    {
        match await_input(
            self.core.name.as_str(),
            triggered,
            "prompt",
            &self.core.config.input_map,
            workflow,
        ) {
            InputPoll::Pending => LlmPoll::Pending,
            InputPoll::Failed(e) => LlmPoll::Failed(e),
            InputPoll::Got(v) => {
                let prompt = match v {
                    Some(v) => value_text(v),
                    None => String::new(),
                };
                LlmPoll::Ask { request: self.request_text(prompt), stream: self.stream }
            },
        }
    }

    /// Ends a run that asked the model.
    pub fn replied(&self, request: &str, reply: LlmReply, workflow: &mut WorkFlow) -> (r: Result<
        (),
        WorkflowError,
    >)
        ensures
            (final(workflow)@, unit_view(r)) == llm_replied(
                self.rules(),
                self.core.config@,
                self.core.name@,
                old(workflow)@,
                request@,
                reply,
            ),
    {
        let text = match reply {
            LlmReply::NoModel => self.mock_text(request),
            LlmReply::Answer(Ok(text)) => text,
            LlmReply::Answer(Err(e)) => {
                return Err(e);
            },
        };
        self.core.output_and_choose("result", Json::String(text), "default", workflow)
    }
}

impl BaseNode for LlmCallNode {
    open spec fn decl(&self) -> NodeDecl {
        self.core.decl(if self.stream {
                NodeType::Stream
            } else {
                NodeType::Step
            }, true)
    }

    fn name(&self) -> (r: &str) {
        self.core.name.as_str()
    }

    fn node_type(&self) -> (r: NodeType) {
        if self.stream {
            NodeType::Stream
        } else {
            NodeType::Step
        }
    }

    fn input_parameters(&self) -> (r: &StringMap<ParameterType>) {
        &self.core.input_params
    }

    fn output_parameters(&self) -> (r: &StringMap<ParameterType>) {
        &self.core.output_params
    }

    fn choices(&self) -> (r: &Vec<String>) {
        &self.core.choices
    }

    fn is_key_node(&self) -> (r: bool) {
        self.core.config.key_node
    }

    fn runable(&self) -> (r: bool) {
        true
    }

    fn is_reentrant(&self) -> (r: bool) {
        true
    }
}

// ---------------------------------------------------------------------------
// Laws
// ---------------------------------------------------------------------------

/// Without a model and without a stand-in answer of its own, a node answers with
/// its request behind the word `[mock]`.
pub proof fn default_mock_repeats_the_request(c: NodeConfigView, request: Seq<char>)
    requires
        c.text_attr("mock_output"@) is None,
    ensures
        llm_of(c).mock(request) == "[mock] "@ + request,
{
    let full = "[mock] {prompt}"@;
    let p = "{prompt}"@;
    reveal_strlit("[mock] {prompt}");
    reveal_strlit("{prompt}");
    reveal_strlit("[mock] ");
    assert forall|k: int| 0 <= k < 7 implies replace_text(full.skip(k), p, request) == seq![
        full[k],
    ] + replace_text(full.skip(k + 1), p, request) by {
        let s = full.skip(k);
        assert(s[0] != p[0]);
        assert(s.subrange(0, p.len() as int)[0] == s[0]);
        assert(s.skip(1) =~= full.skip(k + 1));
    }
    assert(full.skip(0) =~= full);
    let tail = full.skip(7);
    assert(tail =~= p);
    assert(tail.subrange(0, p.len() as int) =~= p);
    assert(replace_text(tail.skip(p.len() as int), p, request) =~= Seq::empty());
    assert(replace_text(tail, p, request) =~= request);
    assert(replace_text(full, p, request) =~= "[mock] "@ + request) by {
        let r6 = replace_text(full.skip(6), p, request);
        let r5 = replace_text(full.skip(5), p, request);
        let r4 = replace_text(full.skip(4), p, request);
        let r3 = replace_text(full.skip(3), p, request);
        let r2 = replace_text(full.skip(2), p, request);
        let r1 = replace_text(full.skip(1), p, request);
        assert(r6 =~= seq![full[6]] + request);
        assert(r5 =~= seq![full[5], full[6]] + request);
        assert(r4 =~= seq![full[4], full[5], full[6]] + request);
        assert(r3 =~= seq![full[3], full[4], full[5], full[6]] + request);
        assert(r2 =~= seq![full[2], full[3], full[4], full[5], full[6]] + request);
        assert(r1 =~= seq![full[1], full[2], full[3], full[4], full[5], full[6]] + request);
    }
}

/// The node asks for a stream exactly where its configuration says so by the value true,
/// and has a system prompt and a stand-in answer exactly where they are configured as
/// texts, an empty system prompt being none.
pub proof fn node_is_what_the_attributes_say(c: NodeConfigView, s: Seq<char>)
    ensures
        llm_of(c).stream <==> assoc(c.attrs, "stream"@) == Some(JsonView::Bool(true)),
        llm_of(c).system_prompt == Some(s) <==> assoc(c.attrs, "system_prompt"@) == Some(
            JsonView::Text(s),
        ) && s.len() > 0,
        assoc(c.attrs, "mock_output"@) == Some(JsonView::Text(s)) ==> llm_of(c).mock_output == s,
{
}

/// The model is asked the prompt, after the system prompt and an empty line where there is
/// one. A prompt that is a text is asked as it is, any other as its JSON text; and the
/// request says whether the answer is asked for in pieces.
pub proof fn model_is_asked_the_prompt(
    l: LlmView,
    c: NodeConfigView,
    name: Seq<char>,
    w: WorkFlowView,
    source: Seq<char>,
    input: JsonView,
    system: Seq<char>,
)
    requires
        assoc(c.input_map, "prompt"@) == Some(Some(source)),
        source_value(w, source) == Ok::<InputView, ErrorView>(InputView::Ready(input)),
    ensures
        ({
            let (after, t, p) = llm_run(l, c, name, w, true);
            let asked = if input is Text {
                input->Text_0
            } else {
                json_writing(input)
            };
            &&& after == w && !t
            &&& l.system_prompt is None ==> p == (LlmPollView::Ask {
                request: asked,
                stream: l.stream,
            })
            &&& l.system_prompt == Some(system) ==> p == (LlmPollView::Ask {
                request: system + "\n\n"@ + asked,
                stream: l.stream,
            })
        }),
{
}

/// The answer of the model is put out as a text and the workflow goes to the target of
/// `default`; without a model the stand-in answer is put out, with the request in the place
/// of each `{prompt}`; an error of the model is the error of the run, which then touches
/// nothing.
pub proof fn answer_is_put_out(
    l: LlmView,
    c: NodeConfigView,
    name: Seq<char>,
    w: WorkFlowView,
    request: Seq<char>,
    text: String,
    error: WorkflowError,
)
    requires
        w.bus.wf(),
        assoc(w.bus.types, name + "."@ + "result"@) == Some(ParameterType::Step),
    ensures
        ({
            let answered = llm_replied(l, c, name, w, request, LlmReply::Answer(Ok(text)));
            let failed = llm_replied(l, c, name, w, request, LlmReply::Answer(Err(error)));
            let stood_in = llm_replied(l, c, name, w, request, LlmReply::NoModel);
            let key = name + "."@ + "result"@;
            let target = assoc(c.choice_map, "default"@);
            &&& answered.0.bus.read(key) == Ok::<Option<JsonView>, ErrorView>(
                Some(JsonView::Text(text@)),
            )
            &&& answered.1 is Ok ==> target is Some && went_to(w, answered.0, name, target->0)
                && cancelled_as_told(w, answered.0, c.choice_map, target->0, true)
            &&& stood_in.0.bus.read(key) == Ok::<Option<JsonView>, ErrorView>(
                Some(JsonView::Text(replace_text(l.mock_output, "{prompt}"@, request))),
            )
            &&& stood_in.1 is Ok ==> target is Some && went_to(w, stood_in.0, name, target->0)
                && cancelled_as_told(w, stood_in.0, c.choice_map, target->0, true)
            &&& failed == (w, Err::<(), ErrorView>(error@))
            &&& answered.1 is Ok <==> target is Some && (target->0 == "finish"@ || assoc(
                w.nodes,
                target->0,
            ) is Some)
        }),
{
    output_is_read_and_choice_is_made(
        w,
        name,
        "result"@,
        JsonView::Text(text@),
        "default"@,
        c.choice_map,
        true,
        name,
    );
    output_is_read_and_choice_is_made(
        w,
        name,
        "result"@,
        JsonView::Text(l.mock(request)),
        "default"@,
        c.choice_map,
        true,
        name,
    );
}

/// A node does nothing before it was activated; once it was, it takes its activation up and
/// waits, triggered, while its input has no value. An input that is not configured is an
/// error, and an input without a source is an empty prompt.
pub proof fn node_waits_for_its_input(
    l: LlmView,
    c: NodeConfigView,
    name: Seq<char>,
    w: WorkFlowView,
    triggered: bool,
)
    requires
        assoc(w.nodes, name) is Some,
    ensures
        ({
            let (after, t, p) = llm_run(l, c, name, w, triggered);
            let ready = triggered || assoc(w.nodes, name)->0.activated;
            let begun = if triggered {
                w
            } else {
                w.take_activation(name).0
            };
            let source = assoc(c.input_map, "prompt"@);
            &&& !ready ==> after == w && !t && p == LlmPollView::Pending
            &&& ready && source is None ==> after == begun && !t && p is Failed
            &&& ready && (source matches Some(Some(s)) && source_value(w, s) == Ok::<
                InputView,
                ErrorView,
            >(InputView::Waiting)) ==> after == begun && t && p == LlmPollView::Pending
            &&& !triggered && ready ==> (after, t, p) == llm_run(l, c, name, begun, true)
            &&& ready && source == Some(None::<Seq<char>>) ==> p == (LlmPollView::Ask {
                request: l.request(Seq::empty()),
                stream: l.stream,
            })
        }),
{
    node_waits_for_activation_and_input(w, triggered, name, c.input_map, "prompt"@, JsonView::Null);
    activation_touches_one_node(w, name, name);
}

} // verus!
