//! Registries, configurations, their validation, and the building of workflows.
use flovo::builder::WorkflowBuilder;
use flovo::config::loader::ConfigLoader;
use flovo::config::schema::{
    check_config_directory, is_config_file, load_workflow_configs, DirectoryState, FileOutcome,
    NodeConfigJson, WorkflowConfig,
};
use flovo::config::validator::{validate_config, ValidationError};
use flovo::config::workflow::{load_workflow_config, LoadOutcome, WorkflowMeta};
use flovo::context_sync::{ContextSyncConfig, ContextSyncManager};
use flovo::error::{ErrorView, WorkflowError};
use flovo::json::parse_json;
use flovo::node::base::{
    BaseNode, InputSource, NodeConfig, NodeConfigView, NodeContext, NodeDecl, NodeType,
};
use flovo::node::registry::{NodeFactory, NodeRegistry};
use flovo::nodes::builtin::{register_builtin_nodes, BuiltinFactory};
use flovo::parameter_bus::ParameterType;
use flovo::string_map::{Duplicate, StringMap};
use flovo::value::Json;
use flovo::workflow::WorkflowStatus;

struct TestNode {
    name: String,
    input_params: StringMap<ParameterType>,
    output_params: StringMap<ParameterType>,
    choices: Vec<String>,
    key_node: bool,
}

impl BaseNode for TestNode {
    fn decl(&self) -> NodeDecl {
        unreachable!("exists in proofs only")
    }
    fn name(&self) -> &str {
        &self.name
    }
    fn node_type(&self) -> NodeType {
        NodeType::Step
    }
    fn input_parameters(&self) -> &StringMap<ParameterType> {
        &self.input_params
    }
    fn output_parameters(&self) -> &StringMap<ParameterType> {
        &self.output_params
    }
    fn choices(&self) -> &Vec<String> {
        &self.choices
    }
    fn is_key_node(&self) -> bool {
        self.key_node
    }
    fn runable(&self) -> bool {
        true
    }
    fn is_reentrant(&self) -> bool {
        false
    }
}

/// Makes test nodes with the given inputs, outputs and choices.
#[derive(Default)]
struct TestFactory {
    inputs: Vec<&'static str>,
    outputs: Vec<&'static str>,
    choices: Vec<&'static str>,
}

fn step_params(names: &[&'static str]) -> StringMap<ParameterType> {
    let mut map = StringMap::new();
    for name in names {
        map.insert(name.to_string(), ParameterType::Step);
    }
    map
}

impl NodeFactory for TestFactory {
    type Node = TestNode;

    fn creates(&self, _: NodeConfigView, _: Result<NodeDecl, ErrorView>) -> bool {
        unreachable!("exists in proofs only")
    }

    fn create(&self, config: NodeConfig, _ctx: NodeContext) -> Result<TestNode, WorkflowError> {
        if config.attrs.contains_key("broken") {
            return Err(WorkflowError::Other("factory failed".to_string()));
        }
        Ok(TestNode {
            name: config.node_name,
            input_params: step_params(&self.inputs),
            output_params: step_params(&self.outputs),
            choices: self.choices.iter().map(|s| s.to_string()).collect(),
            key_node: config.key_node,
        })
    }
}

fn node_config(node_type: &str, name: &str) -> NodeConfigJson {
    NodeConfigJson {
        id: 1,
        node_type: node_type.to_string(),
        node_name: name.to_string(),
        input_map: StringMap::new(),
        choice_map: StringMap::new(),
        attrs: StringMap::new(),
        key_node: false,
    }
}

fn with_choice(mut c: NodeConfigJson, choice: &str, target: &str) -> NodeConfigJson {
    c.choice_map.insert(choice.to_string(), target.to_string());
    c
}

fn with_input(mut c: NodeConfigJson, param: &str, source: &str) -> NodeConfigJson {
    c.input_map
        .insert(param.to_string(), InputSource { key: Some(source.to_string()) });
    c
}

fn with_attrs(mut c: NodeConfigJson, attrs: &str) -> NodeConfigJson {
    if let Json::Object(map) = parse_json(attrs).unwrap() {
        c.attrs = map;
    }
    c
}

fn workflow_config(start: &str, nodes: Vec<NodeConfigJson>) -> WorkflowConfig {
    WorkflowConfig {
        start_node: start.to_string(),
        listen_at_start: None,
        input_parameters: StringMap::new(),
        nodes,
        context_sync: None,
    }
}

fn sync_config() -> ContextSyncConfig {
    ContextSyncConfig { enabled: true, fetch_on_start: Vec::new(), push_on_complete: Vec::new() }
}

fn builder_of(
    node_type: &str,
    factory: TestFactory,
    name: &str,
    config: WorkflowConfig,
) -> WorkflowBuilder<TestFactory> {
    let mut registry = NodeRegistry::new();
    registry.register(node_type, factory);
    let mut configs = StringMap::new();
    configs.insert(name.to_string(), config);
    WorkflowBuilder::new(registry, configs)
}

fn next_factory() -> TestFactory {
    TestFactory { choices: vec!["next"], ..TestFactory::default() }
}

fn build_error(builder: &WorkflowBuilder<TestFactory>, name: &str) -> String {
    match builder.build(name) {
        Ok(_) => panic!("built"),
        Err(e) => e.to_text(),
    }
}

// --- the registry ---------------------------------------------------------

fn plain_config(name: &str) -> NodeConfig {
    node_config("", name).to_node_config()
}

#[test]
fn test_register_and_create() {
    let mut registry: NodeRegistry<TestFactory> = NodeRegistry::new();
    registry.register("test_node", TestFactory::default());
    assert!(registry.is_registered("test_node"));
    assert!(!registry.is_registered("unknown_node"));
    let node = registry
        .create_node("test_node", plain_config("test1"), NodeContext::new(None))
        .unwrap_or_else(|e| panic!("{}", e.to_text()));
    assert_eq!(node.name(), "test1");
}

#[test]
fn test_unregistered_type() {
    let registry: NodeRegistry<TestFactory> = NodeRegistry::new();
    let result = registry.create_node("unknown", plain_config("test1"), NodeContext::new(None));
    assert!(result.is_err());
    if let Err(e) = result {
        assert_eq!(
            e.to_text(),
            "Node type not registered: Node type 'unknown' not registered"
        );
    }
}

#[test]
fn test_registered_types_and_default() {
    let mut registry: NodeRegistry<TestFactory> = NodeRegistry::default();
    registry.register("alpha_node", TestFactory::default());
    registry.register("beta_node", TestFactory::default());
    let mut types = registry.registered_types();
    types.sort();
    assert_eq!(types, vec!["alpha_node".to_string(), "beta_node".to_string()]);
}

#[test]
fn builtin_types_are_registered_and_made() {
    let mut registry: NodeRegistry<BuiltinFactory> = NodeRegistry::new();
    register_builtin_nodes(&mut registry);
    assert_eq!(
        registry.registered_types(),
        vec![
            "condition_node",
            "context_fetch_node",
            "llm_call",
            "print_node",
            "schema_validator",
            "send_cmd_recv",
            "send_recv_node",
            "transform_node",
            "while_node",
        ]
    );
    for node_type in ["condition_node", "context_fetch_node", "llm_call", "send_cmd_recv"] {
        let node = registry
            .create_node(node_type, plain_config("n"), NodeContext::new(None))
            .unwrap();
        assert_eq!(node.name(), "n");
    }
    let error = registry
        .create_node("while_node", plain_config("n"), NodeContext::new(None))
        .unwrap_err();
    assert_eq!(error.to_text(), "Configuration error: Missing 'memory_key' attribute");
}

#[test]
fn custom_types_declare_their_inputs_and_output() {
    let mut registry: NodeRegistry<BuiltinFactory> = NodeRegistry::new();
    registry.register_custom("adder", vec!["a".to_string(), "b".to_string()], "sum".to_string());
    let node = registry
        .create_node("adder", plain_config("n"), NodeContext::new(None))
        .unwrap();
    assert_eq!(node.input_parameters().keys(), vec!["a", "b"]);
    assert_eq!(node.output_parameters().keys(), vec!["sum"]);
    assert!(!node.is_reentrant());
}

// --- the builder ----------------------------------------------------------

#[test]
fn test_workflow_builder_basic() {
    let factory =
        TestFactory { outputs: vec!["result"], choices: vec!["next"], ..TestFactory::default() };
    let mut config = workflow_config(
        "node1",
        vec![with_choice(node_config("test_node", "node1"), "next", "finish")],
    );
    config.listen_at_start = Some(false);
    config.input_parameters.insert("input".to_string(), "step".to_string());
    let builder = builder_of("test_node", factory, "test_workflow", config);
    let (workflow, nodes) =
        builder.build("test_workflow").unwrap_or_else(|e| panic!("{}", e.to_text()));
    assert_eq!(workflow.name, "test_workflow");
    assert_eq!(workflow.status(), WorkflowStatus::Ready);
    assert_eq!(nodes.len(), 1);
    assert_eq!(
        workflow.parameter_bus.get_parameter_type("start.input"),
        Some(ParameterType::Step)
    );
    assert!(workflow.parameter_bus.check_parameter("node1.result"));
}

#[test]
fn test_workflow_builder_validation_invalid_choice() {
    let config = workflow_config(
        "node1",
        vec![with_choice(node_config("test_node", "node1"), "invalid_choice", "finish")],
    );
    let builder = builder_of("test_node", next_factory(), "test_workflow", config);
    let message = build_error(&builder, "test_workflow");
    assert!(message.contains("choice 'invalid_choice' in choice_map not found"));
    assert_eq!(
        message,
        "Configuration error: Node 'node1': choice 'invalid_choice' in choice_map not found \
         in node's choices [\"next\"]"
    );
}

#[test]
fn test_workflow_builder_validation_invalid_target_node() {
    let config = workflow_config(
        "node1",
        vec![with_choice(node_config("test_node", "node1"), "next", "node2")],
    );
    let builder = builder_of("test_node", next_factory(), "test_workflow", config);
    assert!(build_error(&builder, "test_workflow")
        .contains("target node 'node2' in choice_map does not exist"));
}

#[test]
fn test_workflow_names_and_has_workflow() {
    let mut configs = StringMap::new();
    configs.insert("wf_a".to_string(), workflow_config("node1", Vec::new()));
    let mut second = workflow_config("node1", Vec::new());
    second.listen_at_start = Some(false);
    configs.insert("wf_b".to_string(), second);
    let builder: WorkflowBuilder<TestFactory> = WorkflowBuilder::new(NodeRegistry::new(), configs);
    let names = builder.workflow_names();
    assert_eq!(names.len(), 2);
    assert!(builder.has_workflow("wf_a"));
    assert!(!builder.has_workflow("wf_missing"));
}

#[test]
fn test_build_workflow_not_found() {
    let builder: WorkflowBuilder<TestFactory> =
        WorkflowBuilder::new(NodeRegistry::new(), StringMap::new());
    assert!(build_error(&builder, "missing_workflow").contains("not found in configuration"));
}

#[test]
fn test_workflow_builder_validation_invalid_input_param_name() {
    let factory =
        TestFactory { inputs: vec!["expected"], choices: vec!["next"], ..TestFactory::default() };
    let node = with_choice(node_config("test_node", "node1"), "next", "finish");
    let config =
        workflow_config("node1", vec![with_input(node, "unexpected", "start.user_input")]);
    let builder = builder_of("test_node", factory, "wf_invalid_input_param", config);
    assert!(build_error(&builder, "wf_invalid_input_param")
        .contains("in input_map not found in node's input_parameters"));
}

#[test]
fn test_workflow_builder_validation_invalid_source_key_format() {
    let factory =
        TestFactory { inputs: vec!["expected"], choices: vec!["next"], ..TestFactory::default() };
    let node = with_choice(node_config("test_node", "node1"), "next", "finish");
    let config = workflow_config("node1", vec![with_input(node, "expected", "invalid_key")]);
    let builder = builder_of("test_node", factory, "wf_invalid_source_key", config);
    assert!(build_error(&builder, "wf_invalid_source_key")
        .contains("expected format 'node_name.param_name'"));
}

#[test]
fn sources_have_to_begin_with_a_node() {
    let config = |source: &str| {
        let node = with_choice(node_config("test_node", "node1"), "next", "finish");
        let mut c = workflow_config("node1", vec![with_input(node, "in", source)]);
        c.input_parameters.insert("x".to_string(), "step".to_string());
        c
    };
    let factory =
        || TestFactory { inputs: vec!["in"], outputs: vec!["z"], choices: vec!["next"] };
    for source in ["start.x", "context.y", "node1.z"] {
        assert!(builder_of("test_node", factory(), "wf", config(source)).build("wf").is_ok());
    }
    assert_eq!(
        build_error(&builder_of("test_node", factory(), "wf", config("node2.x")), "wf"),
        "Configuration error: Node 'node1': source node 'node2' in input_map does not exist"
    );
    assert_eq!(
        build_error(&builder_of("test_node", factory(), "wf", config("node1.nope")), "wf"),
        "Configuration error: Node 'node1': source parameter 'node1.nope' in input_map does not exist"
    );
    assert_eq!(
        build_error(&builder_of("test_node", factory(), "wf", config("start.nope")), "wf"),
        "Configuration error: Node 'node1': source parameter 'start.nope' in input_map does not exist"
    );
}

fn loop_factory() -> TestFactory {
    TestFactory {
        outputs: vec!["current"],
        choices: vec!["continue", "exit"],
        ..TestFactory::default()
    }
}

const LOOP_ATTRS: &str = r#"{"memory_key":"counter","condition_type":"less_than",
    "compare_value":3,"max_iterations":10}"#;

#[test]
fn test_while_node_requires_continue_and_exit_choices() {
    let node = with_choice(
        with_attrs(node_config("while_node", "loop"), LOOP_ATTRS),
        "continue",
        "finish",
    );
    let builder = builder_of(
        "while_node",
        loop_factory(),
        "wf_while_invalid_choice",
        workflow_config("loop", vec![node]),
    );
    assert!(build_error(&builder, "wf_while_invalid_choice")
        .contains("must contain 'continue' and 'exit'"));
}

#[test]
fn loops_are_checked_when_built() {
    let build = |attrs: &str| {
        let node = with_attrs(node_config("while_node", "loop"), attrs);
        let node = with_choice(with_choice(node, "continue", "loop"), "exit", "finish");
        builder_of("while_node", loop_factory(), "wf", workflow_config("loop", vec![node]))
            .build("wf")
            .map(|_| ())
            .map_err(|e| e.to_text())
    };
    assert_eq!(build(LOOP_ATTRS), Ok(()));
    let error = |text: &str| Err(format!("Configuration error: Node 'loop': while_node {}", text));
    assert_eq!(build("{}"), error("requires string attrs.memory_key"));
    assert_eq!(
        build(r#"{"memory_key":"k"}"#),
        error("requires string attrs.condition_type")
    );
    assert_eq!(
        build(r#"{"memory_key":"k","condition_type":"LT"}"#),
        error("requires attrs.max_iterations > 0")
    );
    assert_eq!(
        build(r#"{"memory_key":"k","condition_type":"LT","max_iterations":1}"#),
        error("condition_type 'LT' requires attrs.compare_value")
    );
    assert_eq!(
        build(
            r#"{"memory_key":"k","condition_type":"is_true","max_iterations":1,"increment":"1"}"#
        ),
        error("attrs.increment must be numeric")
    );
}

#[test]
fn failing_factories_and_missing_types_stop_the_building() {
    let broken = with_attrs(node_config("test_node", "n"), r#"{"broken":true}"#);
    let builder = builder_of("test_node", next_factory(), "wf", workflow_config("n", vec![broken]));
    assert_eq!(build_error(&builder, "wf"), "factory failed");
    let unknown = node_config("other_node", "n");
    let builder =
        builder_of("test_node", next_factory(), "wf", workflow_config("n", vec![unknown]));
    assert_eq!(
        build_error(&builder, "wf"),
        "Node type not registered: Node type 'other_node' not registered for node 'n'"
    );
    let mut config = workflow_config("n", Vec::new());
    config.input_parameters.insert("p".to_string(), "flow".to_string());
    let builder = builder_of("test_node", next_factory(), "wf", config);
    assert!(build_error(&builder, "wf").contains("Invalid parameter type: flow"));
}

fn plain_workflow(sync: Option<ContextSyncConfig>) -> WorkflowConfig {
    let mut config = workflow_config(
        "node1",
        vec![with_choice(node_config("test_node", "node1"), "next", "finish")],
    );
    config.context_sync = sync;
    config
}

#[test]
fn test_with_context_sync_from_json_requires_manager_when_enabled() {
    let builder = builder_of("test_node", next_factory(), "wf", plain_workflow(None))
        .with_context_sync_from_json(
            "workflow_unified.json",
            LoadOutcome::Loaded(flovo::config::workflow::WorkflowConfig {
                workflow: WorkflowMeta { name: "wf".to_string(), version: "1.0".to_string() },
                context_sync: Some(sync_config()),
            }),
        )
        .unwrap_or_else(|e| panic!("{}", e.to_text()));
    assert!(build_error(&builder, "wf").contains("ContextSyncManager was not injected"));
}

#[test]
fn rules_that_are_not_read_stop_the_building() {
    let error = builder_of("test_node", next_factory(), "wf", plain_workflow(None))
        .with_context_sync_from_json("u.json", LoadOutcome::ReadFailed("gone".to_string()))
        .err()
        .unwrap();
    assert_eq!(
        error.to_text(),
        "Configuration error: failed to read workflow config 'u.json': gone"
    );
}

#[test]
fn test_build_requires_manager_when_context_sync_enabled_in_workflow_config() {
    let builder =
        builder_of("test_node", next_factory(), "wf", plain_workflow(Some(sync_config())));
    assert!(build_error(&builder, "wf").contains("ContextSyncManager was not injected"));

    let builder =
        builder_of("test_node", next_factory(), "wf", plain_workflow(Some(sync_config())))
            .with_context_sync(ContextSyncManager::new(sync_config()));
    let (workflow, _) = builder.build("wf").unwrap_or_else(|e| panic!("{}", e.to_text()));
    assert!(workflow.context_sync.is_some());
}

// --- validation -----------------------------------------------------------

fn test_registry() -> NodeRegistry<TestFactory> {
    let mut registry = NodeRegistry::new();
    registry.register("test_node", TestFactory::default());
    registry.register("while_node", TestFactory::default());
    registry
}

fn problems(config: &WorkflowConfig) -> Vec<ValidationError> {
    match validate_config(config, &test_registry()) {
        Ok(()) => Vec::new(),
        Err(errors) => {
            assert!(!errors.is_empty());
            errors
        }
    }
}

fn mentions(errors: &[ValidationError], text: &str) -> bool {
    errors.iter().any(|e| e.message.contains(text))
}

#[test]
fn test_duplicate_node_ids() {
    let errors = problems(&workflow_config(
        "node1",
        vec![node_config("test_node", "node1"), node_config("test_node", "node2")],
    ));
    assert!(mentions(&errors, "Duplicate node ID"));
    assert_eq!(errors.len(), 1);
    assert_eq!(errors[0].location, "node_id=1");
}

#[test]
fn test_start_node_not_found() {
    let errors =
        problems(&workflow_config("nonexistent", vec![node_config("test_node", "node1")]));
    assert!(mentions(&errors, "Start node"));
    assert_eq!(
        errors[0].suggestion,
        "Add a node with name 'nonexistent' or change start_node to an existing node name"
    );
}

#[test]
fn test_choice_map_target_not_found() {
    let errors = problems(&workflow_config(
        "node1",
        vec![with_choice(node_config("test_node", "node1"), "default", "nonexistent")],
    ));
    assert!(mentions(&errors, "Target node"));
    assert_eq!(errors[0].location, "node=node1, choice_map.default");
}

#[test]
fn test_choice_map_target_finish_is_allowed() {
    let config = workflow_config(
        "node1",
        vec![with_choice(node_config("test_node", "node1"), "default", "finish")],
    );
    assert!(validate_config(&config, &test_registry()).is_ok());
}

#[test]
fn test_input_map_start_prefix_requires_field_name() {
    let errors = problems(&workflow_config(
        "node1",
        vec![with_input(node_config("test_node", "node1"), "text", "start")],
    ));
    assert!(mentions(&errors, "Source node 'start' not found"));
}

#[test]
fn test_input_map_start_dot_field_is_allowed() {
    let config = workflow_config(
        "node1",
        vec![with_input(node_config("test_node", "node1"), "text", "start.text")],
    );
    assert!(validate_config(&config, &test_registry()).is_ok());
}

#[test]
fn known_sources_are_allowed() {
    for source in ["", "given", "context.x", "node1", "node1.out"] {
        let mut config = workflow_config(
            "node1",
            vec![with_input(node_config("test_node", "node1"), "text", source)],
        );
        config.input_parameters.insert("given".to_string(), "step".to_string());
        assert!(validate_config(&config, &test_registry()).is_ok(), "{}", source);
    }
}

#[test]
fn test_unregistered_node_type() {
    let errors = problems(&workflow_config("node1", vec![node_config("unknown_type", "node1")]));
    assert!(mentions(&errors, "not registered"));
    assert_eq!(
        errors[0].suggestion,
        "Register the node type 'unknown_type' or use a registered type: \
         [\"test_node\", \"while_node\"]"
    );
}

#[test]
fn test_while_node_missing_attrs() {
    let errors = problems(&workflow_config("while1", vec![node_config("while_node", "while1")]));
    assert!(mentions(&errors, "memory_key"));
    assert!(mentions(&errors, "condition_type"));
    assert!(mentions(&errors, "max_iterations"));
    assert_eq!(errors.len(), 4);
}

#[test]
fn loops_are_checked_as_a_whole() {
    let messages = |attrs: &str| {
        let node = with_attrs(node_config("while_node", "w"), attrs);
        let node = with_choice(with_choice(node, "continue", "w"), "exit", "finish");
        problems(&workflow_config("w", vec![node]))
            .into_iter()
            .map(|e| e.message)
            .collect::<Vec<_>>()
    };
    let base = r#""memory_key":"k","condition_type":"less_than""#;
    assert_eq!(
        messages(&format!(r#"{{{},"max_iterations":0,"compare_value":1}}"#, base)),
        vec!["max_iterations must be greater than 0"]
    );
    assert_eq!(
        messages(&format!(r#"{{{},"max_iterations":1.5,"compare_value":1}}"#, base)),
        vec!["max_iterations must be a positive integer"]
    );
    assert_eq!(
        messages(&format!(r#"{{{},"max_iterations":1}}"#, base)),
        vec!["condition_type 'less_than' requires 'compare_value' attribute"]
    );
    assert!(messages(r#"{"memory_key":"k","condition_type":"lt","max_iterations":1}"#).is_empty());
}

#[test]
fn test_valid_config() {
    let config = workflow_config("node1", vec![node_config("test_node", "node1")]);
    assert!(validate_config(&config, &test_registry()).is_ok());
}

// --- configurations -------------------------------------------------------

#[test]
fn test_node_config_conversion() {
    let mut json_config = node_config("test_node", "node1");
    json_config.key_node = true;
    let node_config = json_config.to_node_config();
    assert_eq!(node_config.id, 1);
    assert_eq!(node_config.node_name, "node1");
    assert!(node_config.key_node);
    assert_eq!(node_config.duplicate().node_name, "node1");
}

#[test]
fn reads_trimmed_values() {
    let loader = ConfigLoader::load_from_env();
    assert_eq!(loader.get(Some("  value  ".to_string())), Some("value".to_string()));
    assert_eq!(loader.get(Some("   ".to_string())), None);
    assert_eq!(loader.get(None), None);
}

#[test]
fn configuration_files_are_put_together() {
    let parsed = |names: &[&str]| {
        let mut map = StringMap::new();
        for name in names {
            map.insert(name.to_string(), workflow_config("n", Vec::new()));
        }
        FileOutcome::Parsed(map)
    };
    let mut all = StringMap::new();
    load_workflow_configs(&mut all, "a.json", parsed(&["one", "two"])).unwrap();
    load_workflow_configs(&mut all, "b.json", parsed(&["three"])).unwrap();
    assert_eq!(all.keys(), vec!["one", "three", "two"]);
    assert_eq!(
        load_workflow_configs(&mut all, "c.json", parsed(&["two"])).unwrap_err().to_text(),
        "Configuration error: Duplicate workflow name 'two' found in file c.json"
    );
    let failed = FileOutcome::ReadFailed("gone".to_string());
    assert_eq!(
        load_workflow_configs(&mut all, "d.json", failed).unwrap_err().to_text(),
        "Configuration error: Failed to read file d.json: gone"
    );
    let failed = FileOutcome::ParseFailed("bad".to_string());
    assert_eq!(
        load_workflow_configs(&mut all, "e.json", failed).unwrap_err().to_text(),
        "Configuration error: Failed to parse JSON in file e.json: bad"
    );
    assert_eq!(all.get("three").unwrap().start_node, "n");
    assert!(is_config_file(Some("json")));
    assert!(!is_config_file(Some("JSON")));
    assert!(!is_config_file(None));
    assert!(check_config_directory("d", DirectoryState::Directory).is_ok());
    assert_eq!(
        check_config_directory("d", DirectoryState::Missing).unwrap_err().to_text(),
        "Configuration error: Configuration directory does not exist: d"
    );
    assert_eq!(
        check_config_directory("d", DirectoryState::NotADirectory).unwrap_err().to_text(),
        "Configuration error: Path is not a directory: d"
    );
}

#[test]
fn test_load_workflow_config_error_when_file_missing() {
    let failed = LoadOutcome::ReadFailed("No such file".to_string());
    let err = load_workflow_config("/no/such.json", failed).unwrap_err();
    assert_eq!(
        err.to_text(),
        "Configuration error: failed to read workflow config '/no/such.json': No such file"
    );
}

#[test]
fn test_load_workflow_config_error_when_json_invalid() {
    let failed = LoadOutcome::ParseFailed("expected value".to_string());
    let err = load_workflow_config("bad.json", failed).unwrap_err();
    assert!(err.to_text().contains("failed to parse workflow config json"));
}

#[test]
fn errors_are_worded() {
    let s = || "x".to_string();
    for (error, text) in [
        (WorkflowError::NodeNotFound(s()), "Node not found: x"),
        (WorkflowError::ParameterNotFound(s()), "Parameter not found: x"),
        (WorkflowError::ConfigError(s()), "Configuration error: x"),
        (WorkflowError::NodeTypeNotRegistered(s()), "Node type not registered: x"),
        (WorkflowError::InvalidState(s()), "Invalid workflow state: x"),
        (
            WorkflowError::NodeExecutionError { node: s(), message: "m".to_string() },
            "Node execution error in 'x': m",
        ),
        (WorkflowError::JsonError(s()), "JSON parse error: x"),
        (WorkflowError::IoError(s()), "IO error: x"),
        (WorkflowError::Other(s()), "x"),
    ] {
        assert_eq!(error.to_text(), text);
        assert_eq!(error.duplicate().to_text(), text);
    }
}
