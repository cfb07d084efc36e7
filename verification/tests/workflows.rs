//! Workflows as they run, with a small host that carries out what they ask for.
use flovo::builder::WorkflowBuilder;
use flovo::config::schema::{NodeConfigJson, WorkflowConfig};
use flovo::context_sync::{
    structured_from_text, ContextSyncConfig, ContextSyncManager, FetchConfig, FetchRequest,
    Fetched, PushBody, PushConfig, PushRequest,
};
use flovo::error::WorkflowError;
use flovo::json::parse_json;
use flovo::node::base::{
    BaseNode, InputSource, InputValue, NodeContext, NodeDecl, NodeHelper, NodeType,
};
use flovo::node::custom::{CustomPoll, CustomStage};
use flovo::node::registry::NodeRegistry;
use flovo::nodes::builtin::{register_builtin_nodes, BuiltinFactory, BuiltinNode};
use flovo::nodes::print_node::PrintPoll;
use flovo::nodes::send_recv_node::{ExchangePoll, ExchangeStage};
use flovo::nodes::while_node::LoopPoll;
use flovo::nodes::NodePoll;
use flovo::parameter_bus::ParameterType;
use flovo::run::{NodeNext, Run, RunAction, RunEvent};
use flovo::string_map::StringMap;
use flovo::value::Json;
use flovo::workflow::{Effect, WorkFlow, WorkflowStatus};

fn j(text: &str) -> Json {
    parse_json(text).unwrap()
}

// --- the host -------------------------------------------------------------

type Poll<'a> = Box<dyn FnMut(&mut WorkFlow) -> Option<Result<(), WorkflowError>> + 'a>;

struct Task<'a> {
    name: String,
    reentrant: bool,
    begun: bool,
    ended: bool,
    poll: Poll<'a>,
}

fn task<'a>(name: &str, reentrant: bool, poll: Poll<'a>) -> Task<'a> {
    Task { name: name.to_string(), reentrant, begun: false, ended: false, poll }
}

/// The outside store.
#[derive(Default)]
struct Store {
    data: Vec<(String, String, String)>,
    aliases: Vec<(String, String, String)>,
    failing: bool,
}

impl Store {
    fn fetch(&self, request: &FetchRequest) -> Fetched {
        for (namespace, field, text) in &self.data {
            if *namespace == request.namespace && *field == request.field {
                return if request.structured {
                    match structured_from_text(text) {
                        Ok(v) => Fetched::Structured(v),
                        Err(_) => Fetched::Failed,
                    }
                } else {
                    Fetched::Text(text.clone())
                };
            }
        }
        Fetched::Failed
    }

    fn push(&mut self, request: PushRequest) -> Result<(), WorkflowError> {
        if self.failing {
            return Err(WorkflowError::Other("push failed".to_string()));
        }
        let text = match request.body {
            PushBody::Text(text) => text,
            PushBody::Structured(v) => v.to_text(),
        };
        if let Some(alias) = request.alias {
            self.aliases.push((request.namespace.clone(), request.field.clone(), alias));
        }
        self.data.push((request.namespace, request.field, text));
        Ok(())
    }
}

/// Runs a workflow; `meanwhile` is called between the polls of the tasks.
fn run_with(
    workflow: &mut WorkFlow,
    tasks: &mut Vec<Task>,
    store: &mut Store,
    meanwhile: &mut dyn FnMut(u32, &mut WorkFlow),
) -> Result<(), WorkflowError> {
    let mut run = Run::new();
    let mut event = RunEvent::Begin;
    let mut rounds = 0;
    loop {
        event = match run.run_all(workflow, event) {
            RunAction::Fetch(request) => RunEvent::Fetched(store.fetch(&request)),
            RunAction::Push(request) => RunEvent::Pushed(store.push(request)),
            RunAction::Return(result) => return result,
            RunAction::Await(name) => {
                while tasks.iter().any(|t| t.name == name && !t.ended) {
                    rounds += 1;
                    assert!(rounds < 1000, "the workflow hangs");
                    for t in tasks.iter_mut().filter(|t| !t.ended) {
                        if !t.begun && !workflow.node_may_run(t.reentrant) {
                            t.ended = true;
                            continue;
                        }
                        t.begun = true;
                        if let Some(result) = (t.poll)(workflow) {
                            t.begun = false;
                            if let NodeNext::End(_) =
                                workflow.run_node(&t.name, t.reentrant, result)
                            {
                                t.ended = true;
                            }
                        }
                    }
                    meanwhile(rounds, workflow);
                    for effect in workflow.take_effects() {
                        if let Effect::Abort(name) = effect {
                            for t in tasks.iter_mut().filter(|t| t.name == name) {
                                t.ended = true;
                            }
                        }
                    }
                }
                RunEvent::TaskEnded
            }
        };
    }
}

fn run(workflow: &mut WorkFlow, tasks: &mut Vec<Task>) -> Result<(), WorkflowError> {
    run_with(workflow, tasks, &mut Store::default(), &mut |_, _| {})
}

/// The tasks of nodes of the built-in types; `printed` gets the printed lines.
fn tasks_of<'a>(nodes: &'a [BuiltinNode], printed: &'a std::cell::RefCell<Vec<String>>) -> Vec<Task<'a>> {
    let mut tasks = Vec::new();
    for node in nodes {
        let mut triggered = false;
        let mut exchange = ExchangeStage::Idle;
        let mut custom = CustomStage::Idle;
        let poll: Poll<'a> = Box::new(move |workflow: &mut WorkFlow| match node {
            BuiltinNode::Print(n) => match n.run(&mut triggered, workflow) {
                PrintPoll::Pending => None,
                PrintPoll::Failed(e) => Some(Err(e)),
                PrintPoll::Printed(line, result) => {
                    printed.borrow_mut().push(line);
                    Some(result)
                }
            },
            BuiltinNode::Transform(n) => done(n.run(&mut triggered, workflow)),
            BuiltinNode::Condition(n) => done(n.run(&mut triggered, workflow)),
            BuiltinNode::SchemaValidator(n) => done(n.run(&mut triggered, workflow)),
            BuiltinNode::While(n) => match n.run(&mut triggered, workflow) {
                LoopPoll::Pending => None,
                LoopPoll::Sum(a, b) => {
                    let sum = f64::from_bits(a) + f64::from_bits(b);
                    Some(n.resume(Json::from_outside(serde_json::Value::from(sum)), workflow))
                }
                LoopPoll::Done(result) => Some(result),
            },
            BuiltinNode::SendRecv(n) => match n.run(&mut exchange, workflow) {
                ExchangePoll::Done(result) => Some(result),
                _ => None,
            },
            BuiltinNode::Custom(n) => match n.run(&mut custom, workflow) {
                CustomPoll::Pending => None,
                CustomPoll::Failed(e) => Some(Err(e)),
                CustomPoll::Execute(inputs) => {
                    let value = match inputs.get("input") {
                        Some(v) => Ok(v.copy()),
                        None => Err(WorkflowError::Other("no input".to_string())),
                    };
                    Some(n.executed(value, workflow))
                }
            },
            _ => panic!("not used here"),
        });
        tasks.push(task(node.name(), node.is_reentrant(), poll));
    }
    tasks
}

fn done(poll: NodePoll) -> Option<Result<(), WorkflowError>> {
    match poll {
        NodePoll::Pending => None,
        NodePoll::Done(result) => Some(result),
    }
}

// --- test nodes -----------------------------------------------------------

struct TestNode {
    name: String,
    input_params: StringMap<ParameterType>,
    output_params: StringMap<ParameterType>,
    choices: Vec<String>,
    reentrant: bool,
    key_node: bool,
    choice_map: StringMap<String>,
}

impl BaseNode for TestNode {
    fn decl(&self) -> NodeDecl {
        unreachable!("exists in proofs only")
    }
    fn name(&self) -> &str {
        &self.name
    }
    fn node_type(&self) -> NodeType {
        NodeType::Step
    }
    fn input_parameters(&self) -> &StringMap<ParameterType> {
        &self.input_params
    }
    fn output_parameters(&self) -> &StringMap<ParameterType> {
        &self.output_params
    }
    fn choices(&self) -> &Vec<String> {
        &self.choices
    }
    fn is_key_node(&self) -> bool {
        self.key_node
    }
    fn runable(&self) -> bool {
        true
    }
    fn is_reentrant(&self) -> bool {
        self.reentrant
    }
}

fn test_node(name: &str, output: &str, choice: &str, target: &str, reentrant: bool) -> TestNode {
    let mut output_params = StringMap::new();
    output_params.insert(output.to_string(), ParameterType::Step);
    let mut choice_map = StringMap::new();
    choice_map.insert(choice.to_string(), target.to_string());
    TestNode {
        name: name.to_string(),
        input_params: StringMap::new(),
        output_params,
        choices: vec![choice.to_string()],
        reentrant,
        key_node: false,
        choice_map,
    }
}

fn simple_node(name: &str, next: &str) -> TestNode {
    test_node(name, "result", "next", next, false)
}

/// Waits for its activation, sets its output and goes on.
fn simple_task(node: &TestNode) -> Task<'_> {
    let poll: Poll = Box::new(move |workflow: &mut WorkFlow| {
        match NodeHelper::wait_for_event(&node.name, workflow) {
            Ok(false) => return None,
            Ok(true) => {}
            Err(e) => return Some(Err(e)),
        }
        let value = j(&format!(r#"{{"node": "{}", "status": "completed"}}"#, node.name));
        let result = NodeHelper::set_output(&node.name, "result", value, workflow)
            .and_then(|_| {
                NodeHelper::set_choice(&node.name, "next", &node.choice_map, workflow)
            })
            .map(|_| ());
        Some(result)
    });
    task(&node.name, node.reentrant, poll)
}

/// As a simple task, but it takes several polls from its activation to its end.
fn delayed_task(node: &TestNode, polls: u32) -> Task<'_> {
    let mut left: Option<u32> = None;
    let poll: Poll = Box::new(move |workflow: &mut WorkFlow| {
        match left {
            None => {
                if NodeHelper::wait_for_event(&node.name, workflow).unwrap() {
                    left = Some(polls);
                }
                return None;
            }
            Some(0) => {}
            Some(n) => {
                left = Some(n - 1);
                return None;
            }
        }
        let result = NodeHelper::set_output(&node.name, "result", Json::text("ok"), workflow)
            .and_then(|_| {
                NodeHelper::set_choice(&node.name, "next", &node.choice_map, workflow)
            })
            .map(|_| ());
        Some(result)
    });
    task(&node.name, node.reentrant, poll)
}

/// Counts its runs and ends the workflow with the last of them; each run takes
/// `polls` polls.
fn counting_task(node: &TestNode, target_runs: u32, polls: u32) -> Task<'_> {
    let mut runs = 0;
    let mut left: Option<u32> = None;
    let poll: Poll = Box::new(move |workflow: &mut WorkFlow| {
        if left.is_none() {
            if !NodeHelper::wait_for_event(&node.name, workflow).unwrap() {
                return None;
            }
            left = Some(polls);
        }
        if let Some(n) = left {
            if n > 0 {
                left = Some(n - 1);
                return None;
            }
        }
        left = None;
        runs += 1;
        let value = j(&runs.to_string());
        if let Err(e) = NodeHelper::set_output(&node.name, "runs", value, workflow) {
            return Some(Err(e));
        }
        if runs >= target_runs {
            return Some(
                NodeHelper::set_choice(&node.name, "exit", &node.choice_map, workflow).map(|_| ()),
            );
        }
        Some(Ok(()))
    });
    task(&node.name, node.reentrant, poll)
}

// --- runs -----------------------------------------------------------------

#[test]
fn test_workflow_execution() {
    let mut workflow = WorkFlow::new("test_workflow".to_string());
    let nodes = vec![simple_node("node1", "node2"), simple_node("node2", "finish")];
    workflow.set_nodes(&nodes).unwrap();
    workflow.set_start_node("node1");
    let mut tasks: Vec<Task> = nodes.iter().map(simple_task).collect();

    run(&mut workflow, &mut tasks).unwrap();

    assert_eq!(workflow.status(), WorkflowStatus::Finished);
    let result = workflow.get_result().unwrap();
    assert!(result.contains_key("result"));
    assert_eq!(
        result.get("result").unwrap().to_text(),
        r#"{"node":"node2","status":"completed"}"#
    );
}

#[test]
fn test_reentrant_node_can_run_multiple_times() {
    let mut workflow = WorkFlow::new("reentrant_workflow".to_string());
    let nodes = vec![test_node("loop", "runs", "exit", "finish", true)];
    workflow.set_nodes(&nodes).unwrap();
    workflow.set_start_node("loop");
    let mut tasks = vec![counting_task(&nodes[0], 2, 0)];
    run_with(&mut workflow, &mut tasks, &mut Store::default(), &mut |round, w| {
        if round == 3 {
            w.activate_node("loop").unwrap();
        }
    })
    .unwrap();
    assert_eq!(workflow.status(), WorkflowStatus::Finished);
    assert_eq!(workflow.get_result().unwrap().get("runs").unwrap().to_text(), "2");
}

#[test]
fn test_activate_node_ignores_when_node_is_running() {
    let mut workflow = WorkFlow::new("activate_ignore_running".to_string());
    let nodes = vec![simple_node("node1", "finish")];
    workflow.set_nodes(&nodes).unwrap();
    workflow.set_start_node("node1");
    let mut tasks = vec![delayed_task(&nodes[0], 5)];
    run_with(&mut workflow, &mut tasks, &mut Store::default(), &mut |round, w| {
        if round == 2 {
            w.activate_node("node1").unwrap();
        }
    })
    .unwrap();
    assert_eq!(workflow.ignored_activation_count("node1"), Some(1));
    assert_eq!(workflow.ignored_activation_count("node2"), None);
}

#[test]
fn test_cancel_node_does_not_abort_reentrant_node() {
    let mut workflow = WorkFlow::new("cancel_reentrant_skip".to_string());
    let nodes = vec![test_node("loop", "runs", "exit", "finish", true)];
    workflow.set_nodes(&nodes).unwrap();
    workflow.set_start_node("loop");
    let mut tasks = vec![counting_task(&nodes[0], 2, 0)];
    run_with(&mut workflow, &mut tasks, &mut Store::default(), &mut |round, w| {
        if round == 3 {
            w.cancel_node("loop").unwrap();
            w.activate_node("loop").unwrap();
        }
    })
    .unwrap();
    assert_eq!(workflow.status(), WorkflowStatus::Finished);
    assert_eq!(workflow.get_result().unwrap().get("runs").unwrap().to_text(), "2");
}

#[test]
fn test_reentrant_node_high_frequency_activation_no_deadlock() {
    let mut workflow = WorkFlow::new("reentrant_pressure".to_string());
    let nodes = vec![test_node("pressure", "runs", "exit", "finish", true)];
    workflow.set_nodes(&nodes).unwrap();
    workflow.set_start_node("pressure");
    let mut tasks = vec![counting_task(&nodes[0], 20, 10)];
    run_with(&mut workflow, &mut tasks, &mut Store::default(), &mut |_, w| {
        if w.status() != WorkflowStatus::Finished {
            let _ = w.activate_node("pressure");
        }
    })
    .unwrap();
    assert_eq!(workflow.status(), WorkflowStatus::Finished);
    assert!(workflow.ignored_activation_count("pressure").unwrap() > 0);
    assert_eq!(workflow.get_result().unwrap().get("runs").unwrap().to_text(), "20");
}

#[test]
fn test_workflow_context_and_memory() {
    let mut workflow = WorkFlow::new("test_workflow".to_string());
    workflow.set_context("key1", Json::text("value1"));
    assert!(workflow.get_context("key1").unwrap().equals(&Json::text("value1")));
    workflow.set_memory("mem1", j(r#"{"data": 42}"#));
    assert!(workflow.get_memory("mem1").unwrap().equals(&j(r#"{"data": 42}"#)));
    assert!(workflow.get_context("mem1").is_none());
    assert!(workflow.get_memory("key1").is_none());
}

#[test]
fn test_run_all_without_start_node_returns_error() {
    let mut workflow = WorkFlow::new("missing_start".to_string());
    let nodes = vec![simple_node("node1", "finish")];
    workflow.set_nodes(&nodes).unwrap();
    let err = run(&mut workflow, &mut vec![simple_task(&nodes[0])]).unwrap_err();
    assert!(err.to_text().contains("Start node not set"));
}

#[test]
fn only_ready_workflows_run() {
    let mut workflow = WorkFlow::new("empty".to_string());
    let err = run(&mut workflow, &mut Vec::new()).unwrap_err();
    assert_eq!(err.to_text(), "Invalid workflow state: Workflow not ready, current status: Init");

    let nodes = vec![simple_node("node1", "finish")];
    workflow.set_nodes(&nodes).unwrap();
    workflow.set_start_node("elsewhere");
    let err = run(&mut workflow, &mut vec![simple_task(&nodes[0])]).unwrap_err();
    assert_eq!(err.to_text(), "Node not found: elsewhere");
    let err = run(&mut workflow, &mut vec![simple_task(&nodes[0])]).unwrap_err();
    assert_eq!(err.to_text(), "Invalid workflow state: Workflow not ready, current status: Running");
}

#[test]
fn test_get_result_before_finished_returns_error() {
    let workflow = WorkFlow::new("not_finished".to_string());
    let err = workflow.get_result().unwrap_err();
    assert!(err.to_text().contains("Workflow not finished"));
}

#[test]
fn test_message_queue_round_trip() {
    let mut workflow = WorkFlow::new("message_queue".to_string());
    let expected = r#"{"event": "input", "text": "hello"}"#;
    workflow.add_message(j(expected)).unwrap();
    assert!(workflow.get_message().unwrap().equals(&j(expected)));
    assert!(workflow.get_message().is_none());
}

#[test]
fn messages_come_in_their_order() {
    let mut workflow = WorkFlow::new("w".to_string());
    for i in 0..3 {
        workflow.add_message(j(&i.to_string())).unwrap();
    }
    let taken: Vec<String> = (0..3).map(|_| workflow.get_message().unwrap().to_text()).collect();
    assert_eq!(taken, vec!["0", "1", "2"]);
}

#[test]
fn an_activation_is_taken_once() {
    let mut workflow = WorkFlow::new("w".to_string());
    workflow.set_nodes(&vec![simple_node("a", "finish")]).unwrap();
    assert!(!workflow.wait_for_event("a").unwrap());
    workflow.activate_node("a").unwrap();
    workflow.activate_node("a").unwrap();
    assert!(workflow.wait_for_event("a").unwrap());
    assert!(!workflow.wait_for_event("a").unwrap());
    workflow.activate_node("a").unwrap();
    assert!(!workflow.wait_for_event("a").unwrap());
    assert_eq!(workflow.ignored_activation_count("a"), Some(1));
    workflow.mark_node_running("a", false).unwrap();
    workflow.activate_node("a").unwrap();
    assert!(workflow.wait_for_event("a").unwrap());
    assert_eq!(workflow.wait_for_event("b").unwrap_err().to_text(), "Node not found: b");
    assert_eq!(workflow.activate_node("b").unwrap_err().to_text(), "Node not found: b");
    assert!(workflow.mark_node_running("b", true).is_err());
    assert!(workflow.mark_node_completed("b").is_err());
    workflow.mark_node_completed("a").unwrap();
    assert_eq!(workflow.nodes.get("a").unwrap().completed_count, 1);
}

fn aborted(workflow: &mut WorkFlow) -> Vec<String> {
    workflow
        .take_effects()
        .into_iter()
        .filter_map(|e| match e {
            Effect::Abort(name) => Some(name),
            _ => None,
        })
        .collect()
}

#[test]
fn the_end_aborts_the_inactive() {
    let mut workflow = WorkFlow::new("w".to_string());
    let mut key = simple_node("key", "finish");
    key.key_node = true;
    let nodes = vec![
        simple_node("a", "finish"),
        simple_node("idle", "finish"),
        test_node("again", "runs", "exit", "finish", true),
        key,
        simple_node("active", "finish"),
    ];
    workflow.set_nodes(&nodes).unwrap();
    workflow.set_start_node("a");
    let (spawned, result) = workflow.launch();
    assert!(result.is_ok());
    assert_eq!(spawned, vec!["a", "active", "again", "idle", "key"]);
    workflow.activate_node("active").unwrap();
    workflow.take_effects();
    workflow.cancel_node("idle").unwrap();
    workflow.cancel_node("again").unwrap();
    workflow.cancel_node("key").unwrap();
    workflow.cancel_node("active").unwrap();
    workflow.cancel_node("finish").unwrap();
    assert_eq!(aborted(&mut workflow), vec!["idle"]);
    assert!(workflow.wait_for_event("a").unwrap());
    workflow.choose_node("a", "finish").unwrap();
    assert_eq!(workflow.status(), WorkflowStatus::Finished);
    assert_eq!(aborted(&mut workflow), vec!["again", "idle"]);
    workflow.cancel_node("a").unwrap();
    assert_eq!(aborted(&mut workflow), vec!["a"]);
    workflow.cancel_all_inactive_nodes().unwrap();
    assert_eq!(aborted(&mut workflow), vec!["again", "idle"]);
    workflow.mark_node_running("a", false).unwrap();
    workflow.cancel_all_inactive_nodes().unwrap();
    assert_eq!(aborted(&mut workflow), vec!["a", "again", "idle"]);
}

#[test]
fn a_choice_can_cancel_the_others() {
    let mut workflow = WorkFlow::new("w".to_string());
    let nodes =
        vec![simple_node("a", "b"), simple_node("b", "finish"), simple_node("c", "finish")];
    workflow.set_nodes(&nodes).unwrap();
    workflow.set_start_node("a");
    workflow.launch().1.unwrap();
    workflow.take_effects();
    let mut choices = StringMap::new();
    choices.insert("left".to_string(), "b".to_string());
    choices.insert("right".to_string(), "c".to_string());
    let target =
        NodeHelper::set_choice_with_policy("a", "left", &choices, &mut workflow, true).unwrap();
    assert_eq!(target, "b");
    assert_eq!(aborted(&mut workflow), vec!["c"]);
}

// --- runs of built workflows ----------------------------------------------

fn node(
    id: u32,
    node_type: &str,
    name: &str,
    inputs: &[(&str, Option<&str>)],
    choices: &[(&str, &str)],
    attrs: &str,
) -> NodeConfigJson {
    let mut input_map = StringMap::new();
    for (key, value) in inputs {
        input_map.insert(key.to_string(), InputSource { key: value.map(|v| v.to_string()) });
    }
    let mut choice_map = StringMap::new();
    for (key, value) in choices {
        choice_map.insert(key.to_string(), value.to_string());
    }
    let attrs = match j(attrs) {
        Json::Object(map) => map,
        _ => panic!("not an object"),
    };
    NodeConfigJson {
        id,
        node_type: node_type.to_string(),
        node_name: name.to_string(),
        input_map,
        choice_map,
        attrs,
        key_node: false,
    }
}

fn build(start: &str, nodes: Vec<NodeConfigJson>) -> (WorkFlow, Vec<BuiltinNode>) {
    let mut registry: NodeRegistry<BuiltinFactory> = NodeRegistry::new();
    register_builtin_nodes(&mut registry);
    registry.register_custom("echo", vec!["input".to_string()], "output".to_string());
    let mut configs = StringMap::new();
    configs.insert(
        "w".to_string(),
        WorkflowConfig {
            start_node: start.to_string(),
            listen_at_start: None,
            input_parameters: StringMap::new(),
            nodes,
            context_sync: None,
        },
    );
    WorkflowBuilder::new(registry, configs).build("w").unwrap_or_else(|e| panic!("{}", e.to_text()))
}

#[test]
fn builder_runs_event_driven_receive_workflow() {
    let (mut workflow, nodes) = build(
        "receive",
        vec![node(
            1,
            "send_recv_node",
            "receive",
            &[],
            &[("default", "finish")],
            r#"{"mode":"recv"}"#,
        )],
    );
    workflow.add_message(j(r#"{"message": "hello"}"#)).unwrap();
    let printed = std::cell::RefCell::new(Vec::new());
    run(&mut workflow, &mut tasks_of(&nodes, &printed)).unwrap();
    assert!(workflow
        .get_result()
        .unwrap()
        .get("output")
        .unwrap()
        .equals(&j(r#"{"message": "hello"}"#)));
}

fn pipeline(message: &str) -> (StringMap<Json>, Vec<String>) {
    let schema = r#"{"schema": {"fields": {
        "record_id": {"type": "string", "required": true},
        "priority": {"type": "string", "required": true},
        "value": {"type": "number", "required": true}}}}"#;
    let (mut workflow, nodes) = build(
        "receive",
        vec![
            node(
                1,
                "send_recv_node",
                "receive",
                &[],
                &[("default", "validate")],
                r#"{"mode": "recv"}"#,
            ),
            node(
                2,
                "schema_validator",
                "validate",
                &[("input", Some("receive.output"))],
                &[("valid", "normalize"), ("invalid", "invalid_output")],
                schema,
            ),
            node(
                3,
                "transform_node",
                "normalize",
                &[("input", Some("validate.output"))],
                &[("default", "route")],
                r#"{"transform_type": "add_field", "field_name": "processed", "field_value": true}"#,
            ),
            node(
                4,
                "condition_node",
                "route",
                &[("input", Some("normalize.result"))],
                &[("true_choice", "priority_output"), ("false_choice", "standard_output")],
                r#"{"condition_type": "equals", "field_path": "priority", "compare_value": "high"}"#,
            ),
            node(
                5,
                "print_node",
                "priority_output",
                &[("input", Some("route.input"))],
                &[("default", "finish")],
                r#"{"prefix": "[priority]"}"#,
            ),
            node(
                6,
                "print_node",
                "standard_output",
                &[("input", Some("route.input"))],
                &[("default", "finish")],
                r#"{"prefix": "[standard]"}"#,
            ),
            node(
                7,
                "print_node",
                "invalid_output",
                &[("input", Some("validate.errors"))],
                &[("default", "finish")],
                r#"{"prefix": "[invalid]"}"#,
            ),
        ],
    );
    workflow.add_message(j(message)).unwrap();
    let printed = std::cell::RefCell::new(Vec::new());
    run(&mut workflow, &mut tasks_of(&nodes, &printed)).unwrap();
    let result = workflow.get_result().unwrap();
    (result, printed.into_inner())
}

#[test]
fn the_data_pipeline_takes_each_way() {
    let (result, printed) = pipeline(r#"{"record_id": "record-001", "priority": "high", "value": 42}"#);
    assert_eq!(
        result.get("output").unwrap().to_text(),
        r#"{"priority":"high","processed":true,"record_id":"record-001","value":42}"#
    );
    assert!(printed[0].starts_with("[priority] {"));
    let (_, printed) = pipeline(r#"{"record_id": "r", "priority": "low", "value": 1}"#);
    assert!(printed[0].starts_with("[standard] {"));
    let (result, printed) = pipeline(r#"{"priority": 1, "value": "x"}"#);
    assert!(printed[0].starts_with("[invalid] ["));
    assert_eq!(
        result.get("output").unwrap().to_text(),
        "[\"field priority: expected string, got number\",\
         \"missing required field: record_id\",\
         \"field value: expected number, got string\"]"
    );
}

#[test]
fn a_loop_runs_through_other_nodes() {
    let (mut workflow, nodes) = build(
        "loop",
        vec![
            node(
                1,
                "while_node",
                "loop",
                &[("seed", None)],
                &[("continue", "step"), ("exit", "finish")],
                r#"{"memory_key":"n","condition_type":"lt","compare_value":3,
                    "max_iterations":10,"init_value":0,"increment":1}"#,
            ),
            node(
                2,
                "transform_node",
                "step",
                &[("input", Some("loop.current"))],
                &[("default", "loop")],
                r#"{"transform_type":"wrap"}"#,
            ),
        ],
    );
    let printed = std::cell::RefCell::new(Vec::new());
    run(&mut workflow, &mut tasks_of(&nodes, &printed)).unwrap();
    assert_eq!(workflow.get_memory("n").unwrap().to_text(), "3.0");
    let result = workflow.get_result().unwrap();
    assert_eq!(result.get("iteration").unwrap().to_text(), "3");
    assert_eq!(result.get("condition").unwrap().to_text(), "false");
}

#[test]
fn nodes_of_the_host_take_part() {
    let (mut workflow, nodes) = build(
        "receive",
        vec![
            node(1, "send_recv_node", "receive", &[], &[("default", "echo")], "{}"),
            node(
                2,
                "echo",
                "echo",
                &[("input", Some("receive.output"))],
                &[("default", "finish")],
                "{}",
            ),
        ],
    );
    workflow.add_message(j("[1]")).unwrap();
    let printed = std::cell::RefCell::new(Vec::new());
    run(&mut workflow, &mut tasks_of(&nodes, &printed)).unwrap();
    assert_eq!(workflow.get_result().unwrap().get("output").unwrap().to_text(), "[1]");
}

// --- the outside context --------------------------------------------------

fn fetching(structured: bool) -> ContextSyncManager {
    ContextSyncManager::new(ContextSyncConfig {
        enabled: true,
        fetch_on_start: vec![FetchConfig {
            namespace: "user:{user_id}:session:{session_id}".to_string(),
            fields: vec!["profile".to_string()],
            structured,
        }],
        push_on_complete: Vec::new(),
    })
}

fn pushing(from: &str, alias: Option<&str>, structured: bool) -> ContextSyncManager {
    ContextSyncManager::new(ContextSyncConfig {
        enabled: true,
        fetch_on_start: Vec::new(),
        push_on_complete: vec![PushConfig {
            from_context: from.to_string(),
            to_namespace: "user:{user_id}:session:{session_id}".to_string(),
            to_field: from.to_string(),
            alias: alias.map(|s| s.to_string()),
            structured,
        }],
    })
}

fn store_with(field: &str, text: &str) -> Store {
    Store {
        data: vec![("user:u1:session:s1".to_string(), field.to_string(), text.to_string())],
        ..Store::default()
    }
}

fn fetch_all(manager: &ContextSyncManager, workflow: &mut WorkFlow, store: &Store) {
    for request in manager.fetch_on_start("u1", "s1") {
        let fetched = store.fetch(&request);
        ContextSyncManager::apply_fetched(workflow, &request.field, fetched);
    }
}

fn push_all(
    manager: &ContextSyncManager,
    workflow: &WorkFlow,
    store: &mut Store,
) -> Result<(), WorkflowError> {
    let mut from = 0;
    while let Some((next, request)) = manager.push_on_complete(workflow, "u1", "s1", from) {
        store.push(request)?;
        from = next;
    }
    Ok(())
}

#[test]
fn test_fetch_on_start() {
    let mut workflow = WorkFlow::new("ctx_fetch_test".to_string());
    fetch_all(&fetching(false), &mut workflow, &store_with("profile", "runner"));
    assert!(workflow.get_context("profile").unwrap().equals(&Json::text("runner")));
}

#[test]
fn test_fetch_structured() {
    let mut workflow = WorkFlow::new("ctx_fetch_structured_test".to_string());
    let store = store_with("profile", r#"{"name":"runner","score":7}"#);
    fetch_all(&fetching(true), &mut workflow, &store);
    assert!(workflow.get_context("profile.name").is_none());
    assert!(workflow
        .get_context("profile")
        .unwrap()
        .equals(&j(r#"{"name":"runner","score":7}"#)));
}

#[test]
fn a_failed_read_changes_nothing() {
    let mut workflow = WorkFlow::new("w".to_string());
    fetch_all(&fetching(false), &mut workflow, &Store::default());
    fetch_all(&fetching(true), &mut workflow, &store_with("profile", "{"));
    assert!(workflow.context_keys().is_empty());
    assert_eq!(
        structured_from_text("{").unwrap_err().to_text(),
        "structured context parse failed: EOF while parsing an object at line 1 column 1"
    );
    let off = ContextSyncManager::new(ContextSyncConfig::default());
    assert!(off.fetch_on_start("u", "s").is_empty());
    assert!(off.push_on_complete(&workflow, "u", "s", 0).is_none());
}

#[test]
fn test_push_on_complete() {
    let mut workflow = WorkFlow::new("ctx_push_test".to_string());
    workflow.set_context("summary", Json::text("done"));
    let mut store = Store::default();
    push_all(&pushing("summary", None, false), &workflow, &mut store).unwrap();
    assert_eq!(store.data, store_with("summary", "\"done\"").data);
}

#[test]
fn test_push_with_alias() {
    let mut workflow = WorkFlow::new("ctx_push_alias_test".to_string());
    workflow.set_context("summary", Json::text("done"));
    let mut store = Store::default();
    push_all(&pushing("summary", Some("session_summary"), false), &workflow, &mut store).unwrap();
    assert_eq!(
        store.aliases,
        vec![(
            "user:u1:session:s1".to_string(),
            "summary".to_string(),
            "session_summary".to_string()
        )]
    );
}

#[test]
fn test_push_without_alias() {
    let mut workflow = WorkFlow::new("ctx_push_without_alias_test".to_string());
    workflow.set_context("summary", Json::text("done"));
    let mut store = Store::default();
    push_all(&pushing("summary", None, false), &workflow, &mut store).unwrap();
    assert_eq!(store.data, store_with("summary", "\"done\"").data);
    assert!(store.aliases.is_empty());
}

#[test]
fn test_push_structured() {
    let mut workflow = WorkFlow::new("ctx_push_structured_test".to_string());
    workflow.set_context("profile", j(r#"{"score": 7, "tags": ["beginner"]}"#));
    let manager = pushing("profile", None, true);
    let (next, request) = manager.push_on_complete(&workflow, "u1", "s1", 0).unwrap();
    assert!(matches!(request.body, PushBody::Structured(_)));
    assert!(manager.push_on_complete(&workflow, "u1", "s1", next).is_none());
    let mut store = Store::default();
    push_all(&manager, &workflow, &mut store).unwrap();
    assert_eq!(
        store.data,
        store_with("profile", r#"{"score":7,"tags":["beginner"]}"#).data
    );
}

#[test]
fn test_push_on_complete_error() {
    let mut workflow = WorkFlow::new("ctx_push_error".to_string());
    workflow.set_context("summary", Json::text("done"));
    let mut store = Store { failing: true, ..Store::default() };
    assert!(push_all(&pushing("summary", None, false), &workflow, &mut store).is_err());
}

#[test]
fn rules_without_a_value_are_passed_over() {
    let mut workflow = WorkFlow::new("w".to_string());
    workflow.set_context("b", j("1"));
    workflow.set_context("d", j("2"));
    let mut manager = pushing("a", None, false);
    for from in ["b", "c", "d"] {
        manager
            .config
            .push_on_complete
            .extend(pushing(from, None, false).config.push_on_complete);
    }
    let mut store = Store::default();
    push_all(&manager, &workflow, &mut store).unwrap();
    let written: Vec<(&str, &str)> =
        store.data.iter().map(|(_, field, text)| (field.as_str(), text.as_str())).collect();
    assert_eq!(written, vec![("b", "1"), ("d", "2")]);
}

#[test]
fn test_interpolate() {
    let result =
        ContextSyncManager::interpolate("user:{user_id}:session:{session_id}", "u123", "s456");
    assert_eq!(result, "user:u123:session:s456");
    assert_eq!(ContextSyncManager::interpolate("plain", "u", "s"), "plain");
    assert_eq!(ContextSyncManager::interpolate("{user_id}", "{session_id}", "s"), "s");
}

#[test]
fn test_context_sync_push_uses_latest_runtime_identifiers() {
    let mut workflow = WorkFlow::new("ctx_runtime_identifiers".to_string());
    let nodes = vec![simple_node("node1", "finish")];
    workflow.set_nodes(&nodes).unwrap();
    workflow.set_start_node("node1");
    let mut manager = pushing("workflow_result", None, false);
    manager.config.push_on_complete[0].to_field = "last_workflow_result".to_string();
    workflow.set_context_sync(manager);
    let mut store = Store::default();
    let mut tasks = vec![delayed_task(&nodes[0], 5)];
    run_with(&mut workflow, &mut tasks, &mut store, &mut |round, w| {
        if round == 2 {
            w.set_context("user_id", Json::text("u1"));
            w.set_context("session_id", Json::text("s1"));
            w.set_context("workflow_result", Json::text("done"));
        }
    })
    .unwrap();
    assert_eq!(store.data.len(), 1);
    assert_eq!(store.data[0].0, "user:u1:session:s1");
    assert_eq!(store.data[0].1, "last_workflow_result");
}

#[test]
fn runs_read_before_and_write_after() {
    let mut workflow = WorkFlow::new("w".to_string());
    let nodes = vec![simple_node("node1", "finish")];
    workflow.set_nodes(&nodes).unwrap();
    workflow.set_start_node("node1");
    workflow.set_context("user_id", Json::text("u1"));
    workflow.set_context("workflow_id", Json::text("s1"));
    let mut manager = fetching(false);
    manager.config.push_on_complete = vec![PushConfig {
        from_context: "profile".to_string(),
        to_namespace: "n".to_string(),
        to_field: "f".to_string(),
        alias: None,
        structured: false,
    }];
    workflow.set_context_sync(manager);
    let mut store = store_with("profile", "runner");
    run_with(&mut workflow, &mut vec![simple_task(&nodes[0])], &mut store, &mut |_, _| {})
        .unwrap();
    assert_eq!(store.data[1].2, "\"runner\"");
    assert_eq!(
        workflow.context_sync_identifiers(),
        ("u1".to_string(), "s1".to_string())
    );
}

#[test]
fn a_failed_write_fails_the_run() {
    let mut workflow = WorkFlow::new("w".to_string());
    let nodes = vec![simple_node("node1", "finish")];
    workflow.set_nodes(&nodes).unwrap();
    workflow.set_start_node("node1");
    workflow.set_context("summary", Json::text("done"));
    workflow.set_context_sync(pushing("summary", None, false));
    let mut store = Store { failing: true, ..Store::default() };
    let err = run_with(&mut workflow, &mut vec![simple_task(&nodes[0])], &mut store, &mut |_, _| {})
        .unwrap_err();
    assert!(err.to_text().contains("push failed"));
    assert_eq!(workflow.status(), WorkflowStatus::Finished);
}

#[test]
fn writes_go_by_the_context_as_it_is() {
    let mut workflow = WorkFlow::new("w".to_string());
    workflow.set_nodes(&vec![simple_node("node1", "finish")]).unwrap();
    workflow.set_start_node("node1");
    workflow.set_context("a", j("1"));
    let mut manager = pushing("a", None, false);
    manager.config.push_on_complete.extend(pushing("b", None, false).config.push_on_complete);
    workflow.set_context_sync(manager);
    let mut run = Run::new();
    assert!(matches!(run.run_all(&mut workflow, RunEvent::Begin), RunAction::Await(_)));
    assert!(matches!(run.run_all(&mut workflow, RunEvent::TaskEnded), RunAction::Push(_)));
    workflow.set_context("user_id", Json::text("late"));
    workflow.set_context("b", j("2"));
    match run.run_all(&mut workflow, RunEvent::Pushed(Ok(()))) {
        RunAction::Push(request) => {
            assert_eq!((request.namespace.as_str(), request.field.as_str()), ("user::session:", "b"));
            assert!(matches!(request.body, PushBody::Text(ref text) if text == "2"));
        }
        other => panic!("{:?}", other),
    }
    assert!(matches!(
        run.run_all(&mut workflow, RunEvent::Pushed(Ok(()))),
        RunAction::Return(Ok(()))
    ));
}

// --- what nodes are given -------------------------------------------------

#[test]
fn test_node_context_get_workflow_success() {
    let workflow = WorkFlow::new("ctx_ok".to_string());
    let ctx = NodeContext::new(Some(&workflow));
    assert_eq!(ctx.get_workflow().unwrap().name, "ctx_ok");
}

#[test]
fn test_node_context_get_workflow_dropped() {
    let ctx = NodeContext::new(None);
    let result = ctx.get_workflow();
    assert!(result.is_err());
    if let Err(err) = result {
        assert!(err.to_text().contains("Workflow has been dropped"));
    }
}

fn source(param: &str, key: Option<&str>) -> StringMap<InputSource> {
    let mut map = StringMap::new();
    map.insert(param.to_string(), InputSource { key: key.map(|k| k.to_string()) });
    map
}

fn producer(name: &str, param: &str) -> WorkFlow {
    let mut workflow = WorkFlow::new("w".to_string());
    let mut outputs = StringMap::new();
    outputs.insert(param.to_string(), ParameterType::Step);
    workflow.parameter_bus.init_output_parameters(name, &outputs);
    workflow
}

#[test]
fn test_node_helper_get_input_success() {
    let mut workflow = producer("producer", "value");
    let input_map = source("input", Some("producer.value"));
    let waiting =
        NodeHelper::get_input("input", &input_map, &NodeContext::new(Some(&workflow))).unwrap();
    assert!(matches!(waiting, InputValue::Waiting));
    workflow.parameter_bus.set_value("producer", "value", j(r#"{"k": 1}"#)).unwrap();
    let ctx = NodeContext::new(Some(&workflow));
    match NodeHelper::get_input("input", &input_map, &ctx).unwrap() {
        InputValue::Ready(v) => assert!(v.equals(&j(r#"{"k": 1}"#))),
        other => panic!("{:?}", other),
    }
}

#[test]
fn test_node_helper_get_input_none_mapping() {
    let workflow = WorkFlow::new("input_none".to_string());
    let ctx = NodeContext::new(Some(&workflow));
    let value = NodeHelper::get_input("optional", &source("optional", None), &ctx).unwrap();
    assert!(matches!(value, InputValue::Absent));
}

#[test]
fn test_node_helper_get_input_missing_mapping_error() {
    let workflow = WorkFlow::new("input_missing".to_string());
    let ctx = NodeContext::new(Some(&workflow));
    let err = NodeHelper::get_input("missing", &StringMap::new(), &ctx).unwrap_err();
    assert!(err.to_text().contains("not found in input_map"));
}

#[test]
fn inputs_can_come_from_the_context() {
    let mut workflow = WorkFlow::new("w".to_string());
    workflow.set_context("name", Json::text("runner"));
    let ctx = NodeContext::new(Some(&workflow));
    let get = |key: &str| NodeHelper::get_input("i", &source("i", Some(key)), &ctx);
    match get("context.name") {
        Ok(InputValue::Ready(v)) => assert_eq!(v.as_str(), Some("runner")),
        other => panic!("{:?}", other),
    }
    assert_eq!(
        get("context.age").unwrap_err().to_text(),
        "Configuration error: Context key 'age' not found for source 'context.age'"
    );
    assert_eq!(get("a.b").unwrap_err().to_text(), "Parameter not found: a.b");
    let gone = NodeContext::new(None);
    assert!(NodeHelper::get_input("i", &source("i", Some("a.b")), &gone).is_err());
}

#[test]
fn test_node_helper_set_output_success() {
    let mut workflow = producer("node1", "result");
    NodeHelper::set_output("node1", "result", Json::text("ok"), &mut workflow).unwrap();
    let value = workflow.parameter_bus.get_value("node1.result").unwrap().unwrap();
    assert!(value.equals(&Json::text("ok")));
    assert!(NodeHelper::set_output("node1", "other", Json::Null, &mut workflow).is_err());
}

#[test]
fn test_node_helper_set_choice_missing_choice_error() {
    let mut workflow = WorkFlow::new("choice_error".to_string());
    let err = NodeHelper::set_choice("node1", "missing", &StringMap::new(), &mut workflow)
        .unwrap_err();
    assert!(err.to_text().contains("not found in choice_map"));
}

#[test]
fn test_node_helper_get_message_success() {
    let mut workflow = WorkFlow::new("message_ok".to_string());
    workflow.add_message(j(r#"{"cmd": "ping"}"#)).unwrap();
    let actual = NodeHelper::get_message(&mut workflow).unwrap();
    assert!(actual.equals(&j(r#"{"cmd": "ping"}"#)));
}

#[test]
fn nodes_read_back_what_they_remember() {
    let mut workflow = WorkFlow::new("w".to_string());
    NodeHelper::set_memory("k", j("1"), &mut workflow);
    let ctx = NodeContext::new(Some(&workflow));
    assert_eq!(NodeHelper::get_memory("k", &ctx).unwrap().unwrap().to_text(), "1");
    assert!(NodeHelper::get_memory("l", &ctx).unwrap().is_none());
    assert!(NodeHelper::get_memory("k", &NodeContext::new(None)).is_err());
}
