//! The nodes: how they are made, what they compute, and what they do when they run.
use flovo::error::WorkflowError;
use flovo::json::parse_json;
use flovo::llm::{AnswerCollector, SendOutcome, StreamChunk};
use flovo::node::base::{BaseNode, InputSource, NodeConfig, NodeContext, NodeType};
use flovo::node::custom::{CustomNode, CustomPoll, CustomStage};
use flovo::nodes::condition_node::{ConditionNode, ConditionType};
use flovo::nodes::context_fetch_node::{ContextFetchNode, FetchPoll};
use flovo::nodes::llm_call_node::{LlmCallNode, LlmPoll, LlmReply};
use flovo::nodes::print_node::{PrintNode, PrintPoll};
use flovo::nodes::schema_validator::{validate, ReceiveSchema, SchemaValidatorNode};
use flovo::nodes::send_recv_node::{ExchangePoll, ExchangeStage, SendRecvNode};
use flovo::nodes::transform_node::{TransformNode, TransformType};
use flovo::nodes::while_node::{LoopPoll, WhileNode};
use flovo::nodes::NodePoll;
use flovo::parameter_bus::ParameterType;
use flovo::string_map::StringMap;
use flovo::value::{Json, JsonNumber};
use flovo::workflow::WorkFlow;

fn j(text: &str) -> Json {
    parse_json(text).unwrap()
}

fn object(text: &str) -> StringMap<Json> {
    match j(text) {
        Json::Object(map) => map,
        _ => panic!("not an object"),
    }
}

fn config(name: &str, attrs: &str) -> NodeConfig {
    NodeConfig {
        id: 1,
        node_name: name.to_string(),
        input_map: StringMap::new(),
        choice_map: StringMap::new(),
        attrs: object(attrs),
        key_node: false,
    }
}

fn none() -> NodeContext<'static> {
    NodeContext::new(None)
}

fn with_input(mut c: NodeConfig, param: &str, source: Option<&str>) -> NodeConfig {
    c.input_map
        .insert(param.to_string(), InputSource { key: source.map(|s| s.to_string()) });
    c
}

fn with_choice(mut c: NodeConfig, choice: &str, target: &str) -> NodeConfig {
    c.choice_map.insert(choice.to_string(), target.to_string());
    c
}

/// A workflow with the node and with a start parameter of the given value.
fn workflow_with<N: BaseNode>(node: N, value: Option<&str>) -> (WorkFlow, Vec<N>) {
    let mut workflow = WorkFlow::new("test".to_string());
    let mut outputs = StringMap::new();
    outputs.insert("value".to_string(), ParameterType::Step);
    workflow.parameter_bus.init_output_parameters("start", &outputs);
    if let Some(text) = value {
        workflow.parameter_bus.set_value("start", "value", j(text)).unwrap();
    }
    let nodes = vec![node];
    workflow.set_nodes(&nodes).unwrap();
    (workflow, nodes)
}

fn output(workflow: &WorkFlow, key: &str) -> String {
    workflow.parameter_bus.get_value(key).unwrap().unwrap().to_text()
}

fn texts(items: &[&str]) -> Vec<String> {
    items.iter().map(|s| s.to_string()).collect()
}

// --- conditions -----------------------------------------------------------

#[test]
fn test_condition_type_parsing() {
    assert!(matches!(ConditionType::from_str("equals").unwrap(), ConditionType::Equals));
    assert!(matches!(ConditionType::from_str("GT").unwrap(), ConditionType::GreaterThan));
}

#[test]
fn every_condition_word_is_known() {
    let words = [
        ("eq", ConditionType::Equals),
        ("NE", ConditionType::NotEquals),
        ("not_equals", ConditionType::NotEquals),
        ("greater_than", ConditionType::GreaterThan),
        ("less_than", ConditionType::LessThan),
        ("lt", ConditionType::LessThan),
        ("contains", ConditionType::Contains),
        ("is_true", ConditionType::IsTrue),
        ("Is_False", ConditionType::IsFalse),
    ];
    for (word, t) in words {
        assert_eq!(ConditionType::from_str(word).unwrap(), t);
    }
    assert_eq!(
        ConditionType::from_str("Almost").unwrap_err().to_text(),
        "Configuration error: Unknown condition type: Almost"
    );
}

#[test]
fn test_condition_node_creation() {
    let node =
        ConditionNode::new(config("test_condition", r#"{"condition_type":"is_true"}"#), none())
            .unwrap();
    assert_eq!(node.name(), "test_condition");
    assert_eq!(node.choices(), &texts(&["true_choice", "false_choice"]));
}

#[test]
fn test_evaluate_equals() {
    let node = ConditionNode::new(
        config("test", r#"{"condition_type":"equals","compare_value":"test"}"#),
        none(),
    )
    .unwrap();
    assert!(node.evaluate_condition(&Json::text("test")).unwrap());
    assert!(!node.evaluate_condition(&Json::text("other")).unwrap());
}

#[test]
fn test_evaluate_greater_than() {
    let node = ConditionNode::new(
        config("test", r#"{"condition_type":"greater_than","compare_value":10}"#),
        none(),
    )
    .unwrap();
    assert!(node.evaluate_condition(&j("15")).unwrap());
    assert!(!node.evaluate_condition(&j("5")).unwrap());
    assert!(!node.evaluate_condition(&j("10")).unwrap());
    assert!(node.evaluate_condition(&j("10.5")).unwrap());
    assert_eq!(
        node.evaluate_condition(&j("\"15\"")).unwrap_err().to_text(),
        "Configuration error: Input value is not a number"
    );
}

#[test]
fn test_extract_value_with_path() {
    let node = ConditionNode::new(
        config("test", r#"{"condition_type":"is_true","field_path":"data.status"}"#),
        none(),
    )
    .unwrap();
    let value = node.extract_value(&j(r#"{"data":{"status":"active"}}"#)).unwrap();
    assert!(value.equals(&Json::text("active")));
    assert_eq!(
        node.extract_value(&j(r#"{"data":{}}"#)).unwrap_err().to_text(),
        "Configuration error: Field 'status' not found in path"
    );
}

fn holds(attrs: &str, value: &str) -> Result<bool, String> {
    ConditionNode::new(config("test", attrs), none())
        .unwrap()
        .evaluate_condition(&j(value))
        .map_err(|e| e.to_text())
}

#[test]
fn the_other_conditions() {
    let ne = r#"{"condition_type":"ne","compare_value":1}"#;
    assert_eq!(holds(ne, "1"), Ok(false));
    assert_eq!(holds(ne, "2"), Ok(true));
    let lt = r#"{"condition_type":"lt","compare_value":-1.5}"#;
    assert_eq!(holds(lt, "-2"), Ok(true));
    assert_eq!(holds(lt, "-1.5"), Ok(false));
    let contains = r#"{"condition_type":"contains","compare_value":"flow"}"#;
    assert_eq!(holds(contains, "\"workflow\""), Ok(true));
    assert_eq!(holds(contains, "\"work\""), Ok(false));
    assert_eq!(holds(contains, r#"["a","flow"]"#), Ok(true));
    assert_eq!(holds(contains, r#"["workflow",1]"#), Ok(false));
    let is_true = r#"{"condition_type":"is_true"}"#;
    assert_eq!(holds(is_true, "true"), Ok(true));
    assert_eq!(holds(is_true, "1"), Ok(false));
    let is_false = r#"{"condition_type":"is_false"}"#;
    assert_eq!(holds(is_false, "false"), Ok(true));
    assert_eq!(holds(is_false, "null"), Ok(false));
}

#[test]
fn condition_errors() {
    let error = |attrs: &str, value: &str| holds(attrs, value).unwrap_err();
    assert_eq!(
        error("{}", "1"),
        "Configuration error: Missing 'condition_type' attribute"
    );
    assert_eq!(
        error(r#"{"condition_type":"eq"}"#, "1"),
        "Configuration error: Missing 'compare_value' attribute"
    );
    assert_eq!(
        error(r#"{"condition_type":"ne"}"#, "1"),
        "Configuration error: Missing 'compare_value' attribute"
    );
    assert_eq!(
        error(r#"{"condition_type":"gt","compare_value":"1"}"#, "1"),
        "Configuration error: Missing or invalid 'compare_value' for numeric comparison"
    );
    assert_eq!(
        error(r#"{"condition_type":"contains"}"#, "\"a\""),
        "Configuration error: Missing or invalid 'compare_value' for contains check"
    );
    assert_eq!(
        error(r#"{"condition_type":"contains","compare_value":"a"}"#, "1"),
        "Configuration error: Input must be string or array for contains check"
    );
}

#[test]
fn condition_node_runs() {
    let c = with_input(
        config("check", r#"{"condition_type":"gt","compare_value":1}"#),
        "input",
        Some("start.value"),
    );
    let c = with_choice(with_choice(c, "true_choice", "finish"), "false_choice", "check");
    let (mut workflow, nodes) = workflow_with(ConditionNode::new(c, none()).unwrap(), None);
    let mut triggered = false;
    assert!(matches!(nodes[0].run(&mut triggered, &mut workflow), NodePoll::Pending));
    assert!(!triggered);
    workflow.activate_node("check").unwrap();
    assert!(matches!(nodes[0].run(&mut triggered, &mut workflow), NodePoll::Pending));
    assert!(triggered);
    workflow.parameter_bus.set_value("start", "value", j("2")).unwrap();
    assert!(matches!(
        nodes[0].run(&mut triggered, &mut workflow),
        NodePoll::Done(Ok(()))
    ));
    assert!(!triggered);
    assert_eq!(output(&workflow, "check.input"), "2");
    assert_eq!(output(&workflow, "check.result"), "true");
    assert_eq!(workflow.get_result().unwrap().keys(), vec!["input", "result"]);
}

// --- transforms -----------------------------------------------------------

fn transform_node(attrs: &str) -> TransformNode {
    TransformNode::new(config("test_transform", attrs), none()).unwrap()
}

#[test]
fn test_transform_type_parsing() {
    assert!(matches!(TransformType::from_str("add_field").unwrap(), TransformType::AddField));
    assert!(matches!(TransformType::from_str("TO_UPPER").unwrap(), TransformType::ToUpper));
    assert!(matches!(TransformType::from_str("concat").unwrap(), TransformType::Concat));
}

#[test]
fn every_transform_word_is_known() {
    assert_eq!(TransformType::from_str("Extract_Field").unwrap(), TransformType::ExtractField);
    assert_eq!(TransformType::from_str("to_lower").unwrap(), TransformType::ToLower);
    assert_eq!(TransformType::from_str("wrap").unwrap(), TransformType::Wrap);
    assert_eq!(
        TransformType::from_str("Fold").unwrap_err().to_text(),
        "Configuration error: Unknown transform type: Fold"
    );
}

#[test]
fn test_transform_node_creation() {
    let node = transform_node(r#"{"transform_type":"to_upper"}"#);
    assert_eq!(node.name(), "test_transform");
    assert_eq!(node.choices(), &texts(&["default"]));
    assert!(node.input_parameters().contains_key("input"));
    assert!(node.output_parameters().contains_key("result"));
    assert!(node.is_reentrant());
}

#[test]
fn test_transform_to_upper() {
    let node = transform_node(r#"{"transform_type":"to_upper"}"#);
    let result = node.transform(Json::text("hello")).unwrap();
    assert!(result.equals(&Json::text("HELLO")));
}

#[test]
fn test_transform_wrap() {
    let node = transform_node(r#"{"transform_type":"wrap","wrap_key":"payload"}"#);
    let result = node.transform(Json::text("test")).unwrap();
    assert!(result.equals(&j(r#"{"payload":"test"}"#)));
}

#[test]
fn test_concat_single_field() {
    let node = transform_node(r#"{"transform_type":"concat","fields":["feedback.suggestion"]}"#);
    let result = node.transform(j(r#"{"feedback":{"suggestion":"保持核心收紧"}}"#)).unwrap();
    assert!(result.equals(&Json::text("保持核心收紧")));
}

#[test]
fn test_concat_multiple_fields_with_separator() {
    let input = j(r#"{"first":"动作稳定","second":"继续保持"}"#);
    let space_node =
        transform_node(r#"{"transform_type":"concat","fields":["first","second"],"separator":" "}"#);
    let punctuation_node =
        transform_node(r#"{"transform_type":"concat","fields":["first","second"],"separator":"。"}"#);
    assert!(space_node
        .transform(input.copy())
        .unwrap()
        .equals(&Json::text("动作稳定 继续保持")));
    assert!(punctuation_node
        .transform(input)
        .unwrap()
        .equals(&Json::text("动作稳定。继续保持")));
}

#[test]
fn test_concat_nested_paths_and_skips_missing_fields() {
    let node = transform_node(
        r#"{"transform_type":"concat","separator":" ",
            "fields":["feedback.suggestion","feedback.missing","feedback.next_set_tip"]}"#,
    );
    let result = node
        .transform(j(
            r#"{"feedback":{"suggestion":"膝盖对准脚尖","next_set_tip":"下一组降低速度"}}"#,
        ))
        .unwrap();
    assert!(result.equals(&Json::text("膝盖对准脚尖 下一组降低速度")));
}

#[test]
fn test_concat_all_fields_missing_returns_empty_string() {
    let node = transform_node(r#"{"transform_type":"concat","fields":["missing","also_missing"]}"#);
    let result = node.transform(j(r#"{"present":true}"#)).unwrap();
    assert!(result.equals(&Json::text("")));
}

#[test]
fn test_concat_parses_json_string_input() {
    let node = transform_node(
        r#"{"transform_type":"concat","separator":" ",
            "fields":["feedback.suggestion","feedback.next_set_tip"]}"#,
    );
    let input =
        j(r#"{"feedback":{"suggestion":"挺胸","next_set_tip":"下一组保持节奏"}}"#).to_text();
    let result = node.transform(Json::String(input)).unwrap();
    assert!(result.equals(&Json::text("挺胸 下一组保持节奏")));
}

#[test]
fn test_concat_rejects_missing_or_non_array_fields() {
    let missing_fields = transform_node(r#"{"transform_type":"concat"}"#);
    let non_array_fields =
        transform_node(r#"{"transform_type":"concat","fields":"feedback.summary"}"#);
    assert!(matches!(missing_fields.transform(j("{}")), Err(WorkflowError::ConfigError(_))));
    assert!(matches!(non_array_fields.transform(j("{}")), Err(WorkflowError::ConfigError(_))));
}

#[test]
fn test_concat_rejects_invalid_json_string_input() {
    let node = transform_node(r#"{"transform_type":"concat","fields":["feedback.summary"]}"#);
    assert!(matches!(
        node.transform(Json::text("not-json")),
        Err(WorkflowError::ConfigError(_))
    ));
    assert_eq!(
        node.transform(Json::text("not-json")).unwrap_err().to_text(),
        "Configuration error: Input string must be valid JSON for concat transform: \
         expected ident at line 1 column 2"
    );
}

#[test]
fn fields_are_added_and_extracted() {
    let add = transform_node(
        r#"{"transform_type":"add_field","field_name":"processed","field_value":true}"#,
    );
    assert_eq!(
        add.transform(j(r#"{"value":42,"record":"r"}"#)).unwrap().to_text(),
        r#"{"processed":true,"record":"r","value":42}"#
    );
    let extract = transform_node(r#"{"transform_type":"extract_field","field_path":"a.b"}"#);
    assert_eq!(extract.transform(j(r#"{"a":{"b":[1]}}"#)).unwrap().to_text(), "[1]");
    assert_eq!(
        extract.transform(Json::text(r#"{"a":{"b":2}}"#)).unwrap().to_text(),
        "2"
    );
    let by_name = transform_node(r#"{"transform_type":"extract_field","field_name":"a"}"#);
    assert_eq!(by_name.transform(j(r#"{"a":1}"#)).unwrap().to_text(), "1");
    let lower = transform_node(r#"{"transform_type":"to_lower"}"#);
    assert!(lower.transform(Json::text("ÀB")).unwrap().equals(&Json::text("àb")));
    let wrap = transform_node(r#"{"transform_type":"wrap"}"#);
    assert_eq!(wrap.transform(j("1")).unwrap().to_text(), r#"{"data":1}"#);
    let mixed = transform_node(r#"{"transform_type":"concat","fields":["n","o"],"separator":","}"#);
    assert!(mixed
        .transform(j(r#"{"n":1,"o":{"k":null}}"#))
        .unwrap()
        .equals(&Json::text(r#"1,{"k":null}"#)));
}

#[test]
fn transform_errors() {
    let error = |attrs: &str, input: &str| {
        transform_node(attrs).transform(j(input)).unwrap_err().to_text()
    };
    assert_eq!(error("{}", "1"), "Configuration error: Missing 'transform_type' attribute");
    assert_eq!(
        error(r#"{"transform_type":"add_field"}"#, "{}"),
        "Configuration error: Missing 'field_name' attribute"
    );
    assert_eq!(
        error(r#"{"transform_type":"add_field","field_name":"a"}"#, "{}"),
        "Configuration error: Missing 'field_value' attribute"
    );
    assert_eq!(
        error(r#"{"transform_type":"add_field","field_name":"a","field_value":1}"#, "1"),
        "Configuration error: Input must be an object for add_field transform"
    );
    assert_eq!(
        error(r#"{"transform_type":"extract_field","field_path":1,"field_name":"a"}"#, "{}"),
        "Configuration error: Missing 'field_path' or 'field_name' attribute"
    );
    assert_eq!(
        error(r#"{"transform_type":"extract_field","field_path":"a.b"}"#, r#"{"a":1}"#),
        "Configuration error: Field 'b' not found in path 'a.b'"
    );
    assert_eq!(
        error(r#"{"transform_type":"concat","fields":[1]}"#, "{}"),
        "Configuration error: Invalid 'fields' attribute: every item must be a string"
    );
    assert_eq!(
        error(r#"{"transform_type":"concat","fields":["a"],"separator":1}"#, "{}"),
        "Configuration error: Invalid 'separator' attribute: expected a string"
    );
    assert_eq!(
        error(r#"{"transform_type":"to_upper"}"#, "1"),
        "Configuration error: Input must be a string for to_upper transform"
    );
    assert_eq!(
        error(r#"{"transform_type":"to_lower"}"#, "1"),
        "Configuration error: Input must be a string for to_lower transform"
    );
}

#[test]
fn transform_node_keeps_its_result_in_the_context() {
    let c = config(
        "t",
        r#"{"transform_type":"Add_Field","field_name":"processed","field_value":true,
            "context_key":"  kept "}"#,
    );
    let c = with_choice(with_input(c, "input", Some("start.value")), "default", "finish");
    let (mut workflow, nodes) =
        workflow_with(TransformNode::new(c, none()).unwrap(), Some(r#"{"a":1}"#));
    workflow.activate_node("t").unwrap();
    let mut triggered = false;
    assert!(matches!(
        nodes[0].run(&mut triggered, &mut workflow),
        NodePoll::Done(Ok(()))
    ));
    assert_eq!(workflow.context_keys(), vec!["kept", "processed"]);
    assert_eq!(
        workflow.get_context("kept").unwrap().to_text(),
        r#"{"a":1,"processed":true}"#
    );
    assert_eq!(output(&workflow, "t.result"), r#"{"a":1,"processed":true}"#);
}

// --- loops ----------------------------------------------------------------

fn loop_attrs() -> &'static str {
    r#"{"memory_key":"counter","condition_type":"less_than","compare_value":3,
        "max_iterations":10,"init_value":0,"increment":1}"#
}

#[test]
fn test_while_node_creation() {
    let node = WhileNode::new(config("while_check", loop_attrs()), none()).unwrap();
    assert_eq!(node.name(), "while_check");
    assert_eq!(node.choices(), &texts(&["continue", "exit"]));
    assert!(node.is_reentrant());
}

#[test]
fn test_condition_eval_less_than() {
    let node = WhileNode::new(config("while_check", loop_attrs()), none()).unwrap();
    assert!(node.evaluate_condition(&j("2")).unwrap());
    assert!(!node.evaluate_condition(&j("3")).unwrap());
}

#[test]
fn test_max_iterations_must_be_positive() {
    let mut c = config("while_check", loop_attrs());
    c.attrs.insert("max_iterations".to_string(), j("0"));
    assert!(WhileNode::new(c, none()).is_err());
}

#[test]
fn loop_configuration_errors() {
    let error = |attrs: &str| WhileNode::new(config("w", attrs), none()).unwrap_err().to_text();
    assert_eq!(error("{}"), "Configuration error: Missing 'memory_key' attribute");
    assert_eq!(
        error(r#"{"memory_key":"k"}"#),
        "Configuration error: Missing 'condition_type' attribute"
    );
    assert_eq!(
        error(r#"{"memory_key":"k","condition_type":"x"}"#),
        "Configuration error: Unknown condition type: x"
    );
    assert_eq!(
        error(r#"{"memory_key":"k","condition_type":"lt","max_iterations":-1}"#),
        "Configuration error: Missing or invalid 'max_iterations' attribute"
    );
    assert_eq!(
        error(r#"{"memory_key":"k","condition_type":"lt","max_iterations":0}"#),
        "Configuration error: 'max_iterations' must be greater than 0"
    );
    assert_eq!(
        error(r#"{"memory_key":"k","condition_type":"lt","max_iterations":1}"#),
        "Configuration error: Missing 'compare_value' attribute"
    );
    assert!(WhileNode::new(
        config("w", r#"{"memory_key":"k","condition_type":"is_true","max_iterations":1}"#),
        none()
    )
    .is_ok());
}

#[test]
fn loop_conditions() {
    let holds = |attrs: &str, value: &str| {
        let attrs = format!(r#"{{"memory_key":"k","max_iterations":1,{}}}"#, attrs);
        WhileNode::new(config("w", &attrs), none())
            .unwrap()
            .evaluate_condition(&j(value))
            .map_err(|e| e.to_text())
    };
    assert_eq!(holds(r#""condition_type":"eq","compare_value":1"#, "1"), Ok(true));
    assert_eq!(holds(r#""condition_type":"ne","compare_value":1"#, "1"), Ok(false));
    assert_eq!(holds(r#""condition_type":"gt","compare_value":1"#, "2"), Ok(true));
    assert_eq!(
        holds(r#""condition_type":"gt","compare_value":"1""#, "2"),
        Err("Configuration error: Invalid 'compare_value' for greater_than".to_string())
    );
    assert_eq!(
        holds(r#""condition_type":"lt","compare_value":"1""#, "2"),
        Err("Configuration error: Invalid 'compare_value' for less_than".to_string())
    );
    assert_eq!(
        holds(r#""condition_type":"lt","compare_value":1"#, "\"2\""),
        Err("Configuration error: Memory value is not a number".to_string())
    );
    assert_eq!(holds(r#""condition_type":"contains","compare_value":"a""#, "[\"a\"]"), Ok(true));
    assert_eq!(
        holds(r#""condition_type":"contains","compare_value":1"#, "[\"a\"]"),
        Err("Configuration error: Invalid 'compare_value' for contains".to_string())
    );
    assert_eq!(
        holds(r#""condition_type":"contains","compare_value":"a""#, "1"),
        Err("Configuration error: Memory value must be string or array for contains".to_string())
    );
    assert_eq!(holds(r#""condition_type":"is_true""#, "true"), Ok(true));
    assert_eq!(holds(r#""condition_type":"is_false""#, "true"), Ok(false));
}

fn loop_node(attrs: &str) -> (WorkFlow, Vec<WhileNode>) {
    let c = with_input(config("loop", attrs), "seed", None);
    let c = with_choice(with_choice(c, "continue", "loop"), "exit", "finish");
    let (mut workflow, nodes) = workflow_with(WhileNode::new(c, none()).unwrap(), None);
    workflow.activate_node("loop").unwrap();
    (workflow, nodes)
}

/// Runs a loop to its end, adding as the host does; the number of rounds and the result.
fn run_loop(workflow: &mut WorkFlow, node: &WhileNode) -> (u32, Result<(), WorkflowError>) {
    let mut rounds = 0;
    let mut triggered = false;
    loop {
        let result = match node.run(&mut triggered, workflow) {
            LoopPoll::Pending => return (rounds, Ok(())),
            LoopPoll::Sum(a, b) => {
                rounds += 1;
                let sum = f64::from_bits(a) + f64::from_bits(b);
                node.resume(Json::from_outside(serde_json::Value::from(sum)), workflow)
            }
            LoopPoll::Done(result) => result,
        };
        workflow.mark_node_running("loop", false).unwrap();
        if result.is_err() {
            return (rounds, result);
        }
        // The node chose itself while it was still running.
        if !matches!(workflow.status(), flovo::workflow::WorkflowStatus::Finished) {
            workflow.activate_node("loop").unwrap();
        }
    }
}

#[test]
fn loop_counts_up_to_its_bound() {
    let (mut workflow, nodes) = loop_node(loop_attrs());
    let (rounds, result) = run_loop(&mut workflow, &nodes[0]);
    assert!(result.is_ok());
    assert_eq!(rounds, 3);
    assert_eq!(workflow.get_memory("counter").unwrap().to_text(), "3.0");
    assert_eq!(workflow.get_memory("counter.__iteration").unwrap().to_text(), "3");
    assert_eq!(output(&workflow, "loop.condition"), "false");
    assert_eq!(output(&workflow, "loop.iteration"), "3");
    assert_eq!(nodes[0].iteration_key(), "counter.__iteration");
}

#[test]
fn loop_stops_at_its_limit() {
    let (mut workflow, nodes) = loop_node(
        r#"{"memory_key":"k","condition_type":"is_true","max_iterations":2,"init_value":true}"#,
    );
    let (_, result) = run_loop(&mut workflow, &nodes[0]);
    assert_eq!(
        result.unwrap_err().to_text(),
        "while node 'loop' exceeded max_iterations=2"
    );
    assert_eq!(nodes[0].get_iteration(&workflow).unwrap(), 2);
}

#[test]
fn loop_errors_in_memory() {
    let (mut workflow, nodes) = loop_node(loop_attrs());
    workflow.set_memory("counter.__iteration", j("-1"));
    assert_eq!(
        nodes[0].get_iteration(&workflow).unwrap_err().to_text(),
        "Configuration error: Invalid iteration value"
    );
    workflow.set_memory("counter.__iteration", j("\"x\""));
    assert_eq!(
        nodes[0].get_iteration(&workflow).unwrap_err().to_text(),
        "Configuration error: Iteration value in memory must be an unsigned integer"
    );

    let attrs = r#"{"memory_key":"k","condition_type":"is_true","max_iterations":2,
                    "init_value":true,"increment":1}"#;
    let (mut workflow, nodes) = loop_node(attrs);
    let mut triggered = false;
    match nodes[0].run(&mut triggered, &mut workflow) {
        LoopPoll::Done(Err(e)) => assert_eq!(
            e.to_text(),
            "Configuration error: Memory value must be numeric when 'increment' is configured"
        ),
        other => panic!("{:?}", other),
    }
    assert_eq!(nodes[0].get_iteration(&workflow).unwrap(), 1);
}

#[test]
fn loop_starts_from_its_seed() {
    let c = with_input(config("loop", loop_attrs()), "seed", Some("start.value"));
    let c = with_choice(with_choice(c, "continue", "loop"), "exit", "finish");
    let (mut workflow, nodes) = workflow_with(WhileNode::new(c, none()).unwrap(), None);
    workflow.activate_node("loop").unwrap();
    let mut triggered = false;
    assert!(matches!(nodes[0].run(&mut triggered, &mut workflow), LoopPoll::Pending));
    assert!(triggered);
    workflow.set_memory("counter", j("7"));
    workflow.parameter_bus.set_value("start", "value", j("2")).unwrap();
    match nodes[0].run(&mut triggered, &mut workflow) {
        LoopPoll::Sum(a, b) => {
            assert_eq!((f64::from_bits(a), f64::from_bits(b)), (2.0, 1.0));
        }
        other => panic!("{:?}", other),
    }
    assert_eq!(workflow.get_memory("counter").unwrap().to_text(), "2");
}

// --- printing -------------------------------------------------------------

#[test]
fn test_print_node_creation() {
    let node = PrintNode::new(config("test_print", "{}"), none()).unwrap();
    assert_eq!(node.name(), "test_print");
    assert_eq!(node.choices(), &texts(&["default"]));
    assert!(node.input_parameters().contains_key("input"));
    assert!(node.output_parameters().contains_key("output"));
    assert_eq!(node.get_prefix(), "test_print");
}

#[test]
fn test_print_node_with_prefix() {
    let node =
        PrintNode::new(config("test_print", r#"{"prefix":">>> DEBUG >>>"}"#), none()).unwrap();
    assert_eq!(node.get_prefix(), ">>> DEBUG >>>");
}

#[test]
fn print_node_prints_and_passes_on() {
    let c = with_input(config("p", "{}"), "input", Some("start.value"));
    let c = with_choice(c, "default", "finish");
    let (mut workflow, nodes) =
        workflow_with(PrintNode::new(c, none()).unwrap(), Some(r#"{"a":1}"#));
    workflow.activate_node("p").unwrap();
    let mut triggered = false;
    match nodes[0].run(&mut triggered, &mut workflow) {
        PrintPoll::Printed(line, Ok(())) => assert_eq!(line, "p {\n  \"a\": 1\n}"),
        other => panic!("{:?}", other),
    }
    assert_eq!(output(&workflow, "p.output"), r#"{"a":1}"#);
}

#[test]
fn print_node_without_a_mapping_fails() {
    let (mut workflow, nodes) =
        workflow_with(PrintNode::new(config("p", "{}"), none()).unwrap(), None);
    workflow.activate_node("p").unwrap();
    let mut triggered = false;
    match nodes[0].run(&mut triggered, &mut workflow) {
        PrintPoll::Failed(e) => assert_eq!(
            e.to_text(),
            "Configuration error: Input parameter 'input' not found in input_map"
        ),
        other => panic!("{:?}", other),
    }
}

// --- schemas --------------------------------------------------------------

fn schema(text: &str) -> ReceiveSchema {
    ReceiveSchema::from_value(&j(text)).unwrap()
}

#[test]
fn valid_nested_message_passes() {
    let rules = schema(
        r#"{"fields": {
            "info": {"type": "object", "required": true},
            "info.name": {"type": "string", "required": true},
            "info.metrics": {"type": "array", "required": true},
            "accepted": {"type": "boolean", "required": true}
        }}"#,
    );
    assert!(validate(
        &j(r#"{"info": {"name": "squat", "metrics": [1, 2]}, "accepted": true}"#),
        &rules
    )
    .is_ok());
}

#[test]
fn missing_required_field_reports_full_path() {
    let rules = schema(r#"{"fields": {"info.name": {"required": true}}}"#);
    assert_eq!(
        validate(&j(r#"{"info": {}}"#), &rules),
        Err(vec!["missing required field: info.name".to_string()])
    );
}

#[test]
fn type_mismatch_reports_expected_and_actual_types() {
    let rules = schema(r#"{"fields": {"info.items": {"type": "array"}}}"#);
    assert_eq!(
        validate(&j(r#"{"info": {"items": "invalid"}}"#), &rules),
        Err(vec!["field info.items: expected array, got string".to_string()])
    );
}

#[test]
fn multiple_missing_fields_are_aggregated() {
    let rules = schema(
        r#"{"fields": {"info.count": {"required": true}, "info.name": {"required": true}}}"#,
    );
    assert_eq!(
        validate(&j(r#"{"info": {}}"#), &rules),
        Err(vec![
            "missing required field: info.count".to_string(),
            "missing required field: info.name".to_string()
        ])
    );
}

#[test]
fn resolves_three_level_dotted_path() {
    let rules = schema(r#"{"fields": {"a.b.c": {"type": "number", "required": true}}}"#);
    assert!(validate(&j(r#"{"a": {"b": {"c": 3}}}"#), &rules).is_ok());
}

#[test]
fn optional_field_without_type_is_not_checked() {
    let rules = schema(r#"{"fields": {"unused": {"required": false}}}"#);
    assert!(validate(&j("{}"), &rules).is_ok());
    assert!(validate(&j(r#"{"unused": null}"#), &rules).is_ok());
}

#[test]
fn every_type_has_its_name() {
    let rules = schema(
        r#"{"fields": {"a": {"type": "object"}, "b": {"type": "number"},
                       "c": {"type": "boolean"}, "d": {"type": "string"}}}"#,
    );
    assert_eq!(
        validate(&j(r#"{"a": null, "b": true, "c": 1, "d": {}}"#), &rules),
        Err(texts(&[
            "field a: expected object, got null",
            "field b: expected number, got boolean",
            "field c: expected boolean, got number",
            "field d: expected string, got object",
        ]))
    );
}

#[test]
fn schemas_can_be_given_in_other_forms() {
    let rules = schema(r#"[{"x": ["number", true], "y": [null], "z": {"type": {"array": null}}}]"#);
    assert_eq!(
        validate(&j(r#"{"z": 1}"#), &rules),
        Err(texts(&["missing required field: x", "field z: expected array, got number"]))
    );
}

#[test]
fn schema_errors_are_worded_like_those_of_serde() {
    let error = |text: &str| ReceiveSchema::from_value(&j(text)).unwrap_err();
    assert_eq!(error("{}"), "missing field `fields`");
    assert_eq!(error("5"), "invalid type: integer `5`, expected struct ReceiveSchema");
    assert_eq!(error("1.5"), "invalid type: floating point `1.5`, expected struct ReceiveSchema");
    assert_eq!(error("null"), "invalid type: null, expected struct ReceiveSchema");
    assert_eq!(
        error("[]"),
        "invalid length 0, expected struct ReceiveSchema with 1 element"
    );
    assert_eq!(error("[{}, 1]"), "invalid length 2, expected fewer elements in array");
    assert_eq!(error(r#"{"fields": []}"#), "invalid type: sequence, expected a map");
    assert_eq!(
        error(r#"{"fields": {"a": true}}"#),
        "invalid type: boolean `true`, expected struct FieldRule"
    );
    assert_eq!(
        error(r#"{"fields": {"a": []}}"#),
        "invalid length 0, expected struct FieldRule with 2 elements"
    );
    assert_eq!(
        error(r#"{"fields": {"a": [null, true, 1]}}"#),
        "invalid length 3, expected fewer elements in array"
    );
    assert_eq!(
        error(r#"{"fields": {"a": {"type": "text"}}}"#),
        "unknown variant `text`, expected one of `object`, `array`, `string`, `number`, `boolean`"
    );
    assert_eq!(
        error(r#"{"fields": {"a": {"type": -1}}}"#),
        "invalid type: integer `-1`, expected string or map"
    );
    assert_eq!(
        error(r#"{"fields": {"a": {"type": {}}}}"#),
        "invalid value: map, expected map with a single key"
    );
    assert_eq!(
        error(r#"{"fields": {"a": {"type": {"array": 1}}}}"#),
        "invalid type: integer `1`, expected unit"
    );
    assert_eq!(
        error(r#"{"fields": {"a": {"required": "yes"}}}"#),
        "invalid type: string \"yes\", expected a boolean"
    );
}

#[test]
fn schema_node_chooses_by_its_errors() {
    let attrs = r#"{"schema": {"fields": {"id": {"type": "string", "required": true}}}}"#;
    for (input, choice, errors) in [
        (r#"{"id":"a"}"#, "valid", "[]"),
        ("{}", "invalid", r#"["missing required field: id"]"#),
    ] {
        let c = with_input(config("v", attrs), "input", Some("start.value"));
        let c = with_choice(c, choice, "finish");
        let (mut workflow, nodes) =
            workflow_with(SchemaValidatorNode::new(c, none()).unwrap(), Some(input));
        workflow.activate_node("v").unwrap();
        let mut triggered = false;
        assert!(matches!(
            nodes[0].run(&mut triggered, &mut workflow),
            NodePoll::Done(Ok(()))
        ));
        assert_eq!(output(&workflow, "v.errors"), errors);
        assert_eq!(output(&workflow, "v.output"), input);
    }
    assert_eq!(
        SchemaValidatorNode::new(config("v", "{}"), none()).unwrap_err().to_text(),
        "Configuration error: schema_validator requires attrs.schema"
    );
    assert_eq!(
        SchemaValidatorNode::new(config("v", r#"{"schema":{}}"#), none()).unwrap_err().to_text(),
        "Configuration error: invalid schema_validator schema: missing field `fields`"
    );
}

// --- exchanging messages --------------------------------------------------

fn exchange_node(mode: &str, value: Option<&str>) -> (WorkFlow, Vec<SendRecvNode>) {
    let c = config("x", &format!(r#"{{"mode":"{}"}}"#, mode));
    let c = with_choice(with_input(c, "input", Some("start.value")), "default", "finish");
    let (mut workflow, nodes) = workflow_with(SendRecvNode::new(c, none()).unwrap(), value);
    workflow.activate_node("x").unwrap();
    (workflow, nodes)
}

#[test]
fn receiving_waits_for_a_message() {
    let (mut workflow, nodes) = exchange_node("recv", None);
    let mut stage = ExchangeStage::Idle;
    assert!(matches!(nodes[0].run(&mut stage, &mut workflow), ExchangePoll::Pending));
    assert!(matches!(stage, ExchangeStage::Receiving));
    workflow.add_message(j("1")).unwrap();
    assert!(matches!(nodes[0].run(&mut stage, &mut workflow), ExchangePoll::Done(Ok(()))));
    assert_eq!(output(&workflow, "x.output"), "1");
    let plain = SendRecvNode::new(config("x", "{}"), none()).unwrap();
    assert_eq!(plain.mode(), "recv");
}

#[test]
fn sending_hands_the_input_to_the_host() {
    let (mut workflow, nodes) = exchange_node("send", None);
    let mut stage = ExchangeStage::Idle;
    assert!(matches!(nodes[0].run(&mut stage, &mut workflow), ExchangePoll::Pending));
    workflow.parameter_bus.set_value("start", "value", j("7")).unwrap();
    match nodes[0].run(&mut stage, &mut workflow) {
        ExchangePoll::Send(v) => assert_eq!(v.to_text(), "7"),
        other => panic!("{:?}", other),
    }
    assert!(matches!(
        nodes[0].sent(&SendOutcome::Sent, &mut stage, &mut workflow),
        ExchangePoll::Done(Ok(()))
    ));
    assert_eq!(output(&workflow, "x.output"), "7");
}

#[test]
fn sending_and_receiving_puts_the_message_out() {
    let (mut workflow, nodes) = exchange_node("send_recv", Some("7"));
    let mut stage = ExchangeStage::Idle;
    assert!(matches!(nodes[0].run(&mut stage, &mut workflow), ExchangePoll::Send(_)));
    assert!(matches!(
        nodes[0].sent(&SendOutcome::Sent, &mut stage, &mut workflow),
        ExchangePoll::Pending
    ));
    workflow.add_message(j("\"reply\"")).unwrap();
    assert!(matches!(nodes[0].run(&mut stage, &mut workflow), ExchangePoll::Done(Ok(()))));
    assert_eq!(output(&workflow, "x.output"), "\"reply\"");
}

#[test]
fn exchange_errors() {
    let (mut workflow, nodes) = exchange_node("shout", Some("7"));
    let mut stage = ExchangeStage::Idle;
    match nodes[0].run(&mut stage, &mut workflow) {
        ExchangePoll::Done(Err(e)) => {
            assert_eq!(e.to_text(), "Configuration error: unsupported send_recv mode: shout")
        }
        other => panic!("{:?}", other),
    }
    let (mut workflow, nodes) = exchange_node("send", Some("7"));
    assert!(matches!(nodes[0].run(&mut stage, &mut workflow), ExchangePoll::Send(_)));
    let closed = SendOutcome::Closed("channel closed".to_string());
    match nodes[0].sent(&closed, &mut stage, &mut workflow) {
        ExchangePoll::Done(Err(e)) => {
            assert_eq!(e.to_text(), "outbound channel closed: channel closed")
        }
        other => panic!("{:?}", other),
    }
}

// --- language models ------------------------------------------------------

fn llm_config(stream: bool, more: &str) -> NodeConfig {
    let c = config("llm_call", &format!(r#"{{"stream":{}{}}}"#, stream, more));
    with_choice(with_input(c, "prompt", Some("start.value")), "default", "finish")
}

fn ask(c: NodeConfig, value: &str) -> (WorkFlow, Vec<LlmCallNode>, String) {
    let (mut workflow, nodes) =
        workflow_with(LlmCallNode::new(c, none()).unwrap(), Some(value));
    workflow.activate_node("llm_call").unwrap();
    let mut triggered = false;
    match nodes[0].run(&mut triggered, &mut workflow) {
        LlmPoll::Ask { request, stream } => {
            assert_eq!(stream, nodes[0].node_type() == NodeType::Stream);
            (workflow, nodes, request)
        }
        other => panic!("{:?}", other),
    }
}

#[test]
fn stream_flag_controls_node_type() {
    let step = LlmCallNode::new(llm_config(false, ""), none()).unwrap();
    let stream = LlmCallNode::new(llm_config(true, ""), none()).unwrap();
    assert_eq!(step.node_type(), NodeType::Step);
    assert_eq!(stream.node_type(), NodeType::Stream);
}

#[test]
fn uses_mock_output_without_injection() {
    let (mut workflow, nodes, request) = ask(llm_config(false, ""), "\"ping\"");
    nodes[0].replied(&request, LlmReply::NoModel, &mut workflow).unwrap();
    assert_eq!(output(&workflow, "llm_call.result"), "\"[mock] ping\"");
}

#[test]
fn uses_injected_sync_llm() {
    let (mut workflow, nodes, request) = ask(llm_config(false, ""), "\"ping\"");
    let reply = LlmReply::Answer(Ok(format!("reply:{}", request)));
    nodes[0].replied(&request, reply, &mut workflow).unwrap();
    assert_eq!(output(&workflow, "llm_call.result"), "\"reply:ping\"");
}

#[test]
fn streams_data_and_accumulates_result() {
    let (mut workflow, nodes, request) = ask(llm_config(true, ""), "\"ping\"");
    let mut collector = AnswerCollector::new();
    let mut sent = Vec::new();
    for chunk in [
        StreamChunk::data("a".to_string()),
        StreamChunk::data("b".to_string()),
        StreamChunk::finish(String::new()),
    ] {
        if let Some(value) = collector.take(&chunk) {
            sent.push(value.to_text());
            collector.passed_on(&SendOutcome::Sent);
        }
    }
    assert_eq!(sent, vec!["\"a\"", "\"b\""]);
    let reply = LlmReply::Answer(collector.finish(Ok(())));
    nodes[0].replied(&request, reply, &mut workflow).unwrap();
    assert_eq!(output(&workflow, "llm_call.result"), "\"ab\"");
}

#[test]
fn requests_carry_the_system_prompt() {
    let (mut workflow, nodes, request) = ask(
        llm_config(false, r#","system_prompt":"Be brief.","mock_output":"<{prompt}|{prompt}>""#),
        r#"{"q":1}"#,
    );
    assert_eq!(request, "Be brief.\n\n{\"q\":1}");
    nodes[0].replied(&request, LlmReply::NoModel, &mut workflow).unwrap();
    assert_eq!(
        workflow.parameter_bus.get_value("llm_call.result").unwrap().unwrap().as_str(),
        Some("<Be brief.\n\n{\"q\":1}|Be brief.\n\n{\"q\":1}>")
    );
    let empty = LlmCallNode::new(llm_config(false, r#","system_prompt":"""#), none()).unwrap();
    assert_eq!(empty.request_text("p".to_string()), "p");
}

#[test]
fn errors_of_the_model_end_the_run() {
    let (mut workflow, nodes, request) = ask(llm_config(false, ""), "\"ping\"");
    let error = Err(WorkflowError::Other("no answer".to_string()));
    let result = nodes[0].replied(&request, LlmReply::Answer(error), &mut workflow);
    assert_eq!(result.unwrap_err().to_text(), "no answer");

    let mut collector = AnswerCollector::new();
    collector.take(&StreamChunk::data("a".to_string()));
    collector.passed_on(&SendOutcome::Closed("gone".to_string()));
    assert_eq!(
        collector.finish(Ok(())).unwrap_err().to_text(),
        "outbound channel closed: gone"
    );
    let collector = AnswerCollector::new();
    assert!(collector.finish(Err(WorkflowError::Other("x".to_string()))).is_err());
    assert!(StreamChunk::finish(String::new()).is_finish());
    assert!(!StreamChunk::data(String::new()).is_finish());
}

// --- the outside store ----------------------------------------------------

#[test]
fn context_fetch_asks_for_its_field() {
    let attrs = r#"{"namespace":"user:1","field":"profile","structured":true}"#;
    let c = with_choice(config("f", attrs), "default", "finish");
    let (mut workflow, nodes) = workflow_with(ContextFetchNode::new(c, none()).unwrap(), None);
    assert!(!nodes[0].is_reentrant());
    assert!(matches!(nodes[0].run(true, &mut workflow), FetchPoll::Pending));
    workflow.activate_node("f").unwrap();
    match nodes[0].run(true, &mut workflow) {
        FetchPoll::Fetch(r) => {
            assert_eq!((r.namespace.as_str(), r.field.as_str()), ("user:1", "profile"));
            assert!(r.structured);
        }
        other => panic!("{:?}", other),
    }
    nodes[0].fetched(Ok(j(r#"{"name":"runner"}"#)), &mut workflow).unwrap();
    assert_eq!(output(&workflow, "f.output"), r#"{"name":"runner"}"#);
    let error = Err(WorkflowError::Other("down".to_string()));
    assert!(nodes[0].fetched(error, &mut workflow).is_err());
}

#[test]
fn context_fetch_errors() {
    for (has_client, attrs, message) in [
        (false, "{}", "Configuration error: context_client was not injected"),
        (true, "{}", "Configuration error: context_fetch requires namespace"),
        (true, r#"{"namespace":"n"}"#, "Configuration error: context_fetch requires field"),
    ] {
        let node = ContextFetchNode::new(config("f", attrs), none()).unwrap();
        let (mut workflow, nodes) = workflow_with(node, None);
        workflow.activate_node("f").unwrap();
        match nodes[0].run(has_client, &mut workflow) {
            FetchPoll::Failed(e) => assert_eq!(e.to_text(), message),
            other => panic!("{:?}", other),
        }
    }
}

// --- nodes of the host ----------------------------------------------------

fn custom_config(name: &str, inputs: &[(&str, &str)], key_node: bool) -> NodeConfig {
    let mut c = with_choice(config(name, "{}"), "default", "finish");
    for (param, source) in inputs {
        c = with_input(c, param, Some(source));
    }
    c.key_node = key_node;
    c
}

#[test]
fn test_custom_logic_echo() {
    let node = CustomNode::new(
        custom_config("echo", &[("input", "start.value")], true),
        none(),
        texts(&["input"]),
        "output",
    );
    assert_eq!(node.name(), "echo");
    assert_eq!(node.node_type(), NodeType::Step);
    assert_eq!(node.choices(), &texts(&["default"]));
    assert!(!node.is_reentrant());
    assert!(node.is_key_node());
    assert_eq!(node.input_parameters().get("input"), Some(&ParameterType::Step));
    assert_eq!(node.output_parameters().get("output"), Some(&ParameterType::Step));
}

#[test]
fn test_custom_node_run_echo() {
    let node = CustomNode::new(
        custom_config("echo", &[("input", "start.value")], false),
        none(),
        texts(&["input"]),
        "output",
    );
    let (mut workflow, nodes) = workflow_with(node, Some("\"hello\""));
    workflow.choose_node("start", "echo").unwrap();
    let mut stage = CustomStage::Idle;
    match nodes[0].run(&mut stage, &mut workflow) {
        CustomPoll::Execute(inputs) => {
            let value = inputs.get("input").unwrap().copy();
            nodes[0].executed(Ok(value), &mut workflow).unwrap();
        }
        other => panic!("{:?}", other),
    }
    assert_eq!(output(&workflow, "echo.output"), "\"hello\"");
}

#[test]
fn test_custom_node_multi_input() {
    let node = CustomNode::new(
        custom_config("sum", &[("a", "start.a"), ("b", "start.b")], false),
        none(),
        texts(&["a", "b"]),
        "sum",
    );
    let (mut workflow, nodes) = workflow_with(node, None);
    let mut outputs = StringMap::new();
    outputs.insert("a".to_string(), ParameterType::Step);
    outputs.insert("b".to_string(), ParameterType::Step);
    workflow.parameter_bus.init_output_parameters("start", &outputs);
    workflow.parameter_bus.set_value("start", "a", j("2")).unwrap();
    workflow.choose_node("start", "sum").unwrap();
    let mut stage = CustomStage::Idle;
    assert!(matches!(nodes[0].run(&mut stage, &mut workflow), CustomPoll::Pending));
    workflow.parameter_bus.set_value("start", "b", j("3")).unwrap();
    match nodes[0].run(&mut stage, &mut workflow) {
        CustomPoll::Execute(inputs) => {
            let a = inputs.get("a").unwrap().as_u64().unwrap();
            let b = inputs.get("b").unwrap().as_u64().unwrap();
            let sum = Json::Number(JsonNumber::PosInt(a + b));
            nodes[0].executed(Ok(sum), &mut workflow).unwrap();
        }
        other => panic!("{:?}", other),
    }
    assert_eq!(output(&workflow, "sum.sum"), "5");
}

#[test]
fn test_custom_node_error_propagation() {
    let node = CustomNode::new(custom_config("fail", &[], false), none(), Vec::new(), "output");
    let (mut workflow, nodes) = workflow_with(node, None);
    workflow.choose_node("start", "fail").unwrap();
    let mut stage = CustomStage::Idle;
    assert!(matches!(nodes[0].run(&mut stage, &mut workflow), CustomPoll::Execute(_)));
    let failure = Err(WorkflowError::Other("custom failure".to_string()));
    let err = nodes[0].executed(failure, &mut workflow).unwrap_err();
    assert!(err.to_text().contains("custom failure"));
}

#[test]
fn test_custom_node_no_input() {
    let node =
        CustomNode::new(custom_config("no_input", &[], false), none(), Vec::new(), "output");
    let (mut workflow, nodes) = workflow_with(node, None);
    workflow.choose_node("start", "no_input").unwrap();
    let mut stage = CustomStage::Idle;
    match nodes[0].run(&mut stage, &mut workflow) {
        CustomPoll::Execute(inputs) => assert!(inputs.is_empty()),
        other => panic!("{:?}", other),
    }
    nodes[0].executed(Ok(Json::text("ok")), &mut workflow).unwrap();
    assert_eq!(output(&workflow, "no_input.output"), "\"ok\"");
}
