//! Parameter types and the parameter bus.
use flovo::json::parse_json;
use flovo::parameter_bus::{ParameterBus, ParameterType};
use flovo::string_map::StringMap;
use flovo::value::Json;

fn j(text: &str) -> Json {
    parse_json(text).unwrap()
}

fn params(list: &[(&str, ParameterType)]) -> StringMap<ParameterType> {
    let mut map = StringMap::new();
    for (name, t) in list {
        map.insert(name.to_string(), *t);
    }
    map
}

fn same(a: &Json, b: &Json) -> bool {
    a.equals(b)
}

#[test]
fn test_parameter_type_conversion() {
    assert_eq!(ParameterType::from_str("step").unwrap(), ParameterType::Step);
    assert_eq!(ParameterType::from_str("stream").unwrap(), ParameterType::Stream);
    assert_eq!(ParameterType::from_str("STEP").unwrap(), ParameterType::Step);

    assert!(ParameterType::from_str("invalid").is_err());
}

#[test]
fn test_parameter_type_as_str() {
    assert_eq!(ParameterType::Step.as_str(), "step");
    assert_eq!(ParameterType::Stream.as_str(), "stream");
}

#[test]
fn parameter_type_error_repeats_the_word() {
    let error = ParameterType::from_str("Batch").unwrap_err();
    assert_eq!(
        error.to_text(),
        "Configuration error: Invalid parameter type: Batch. Expected 'step' or 'stream'"
    );
    assert_eq!(ParameterType::from_lowered("STEP"), None);
    assert_eq!(ParameterType::from_lowered("stream"), Some(ParameterType::Stream));
}

#[test]
fn test_step_parameter() {
    let mut bus = ParameterBus::new();
    bus.init_output_parameters("node1", &params(&[("result", ParameterType::Step)]));

    let value = j(r#"{"data": 42}"#);
    bus.set_value("node1", "result", value.copy()).unwrap();

    let retrieved = bus.get_value("node1.result").unwrap().unwrap();
    assert!(same(&retrieved, &value));
}

#[test]
fn test_stream_parameter() {
    let mut bus = ParameterBus::new();
    bus.init_output_parameters("node1", &params(&[("stream", ParameterType::Stream)]));

    assert!(bus.register_stream_subscriber("node1.stream", "consumer1").unwrap().is_empty());
    assert!(bus.register_stream_subscriber("node1.stream", "consumer2").unwrap().is_empty());

    let value1 = j(r#"{"msg": "hello"}"#);
    let to = bus.set_value("node1", "stream", value1.copy()).unwrap();
    assert_eq!(to, vec!["consumer1".to_string(), "consumer2".to_string()]);
}

#[test]
fn test_stream_late_subscriber_replays_history_in_order() {
    let mut bus = ParameterBus::new();
    bus.init_output_parameters("node1", &params(&[("stream", ParameterType::Stream)]));

    let first = j(r#"{"status": 1, "text": "A"}"#);
    let second = j(r#"{"status": 1, "text": "B"}"#);
    let finish = j(r#"{"status": 2, "text": ""}"#);
    for value in [&first, &second, &finish] {
        assert!(bus.set_value("node1", "stream", value.copy()).unwrap().is_empty());
    }

    let replay = bus.register_stream_subscriber("node1.stream", "late_consumer").unwrap();
    assert_eq!(replay.len(), 3);
    assert!(same(&replay[0], &first));
    assert!(same(&replay[1], &second));
    assert!(same(&replay[2], &finish));

    let to = bus.set_value("node1", "stream", first.copy()).unwrap();
    assert_eq!(to, vec!["late_consumer".to_string()]);
}

#[test]
fn test_register_stream_subscriber_parameter_not_found() {
    let mut bus = ParameterBus::new();
    let err = bus.register_stream_subscriber("missing.stream", "consumer").unwrap_err();
    assert!(err.to_text().contains("Parameter not found"));
}

#[test]
fn test_register_stream_subscriber_requires_stream_type() {
    let mut bus = ParameterBus::new();
    bus.init_output_parameters("node1", &params(&[("result", ParameterType::Step)]));

    let err = bus.register_stream_subscriber("node1.result", "consumer").unwrap_err();
    assert!(err.to_text().contains("must be stream type"));
    assert_eq!(
        err.to_text(),
        "Configuration error: Parameter node1.result must be stream type, but found Step"
    );
}

#[test]
fn test_get_value_on_stream_returns_error() {
    let mut bus = ParameterBus::new();
    bus.init_output_parameters("node1", &params(&[("stream", ParameterType::Stream)]));

    let err = bus.get_value("node1.stream").unwrap_err();
    assert!(err
        .to_text()
        .contains("Stream parameters should be accessed via registered receiver"));
}

#[test]
fn test_parameter_query_and_node_results() {
    let mut bus = ParameterBus::new();
    bus.init_output_parameters(
        "node1",
        &params(&[
            ("a", ParameterType::Step),
            ("b", ParameterType::Step),
            ("s", ParameterType::Stream),
        ]),
    );

    bus.set_value("node1", "a", j("123")).unwrap();

    assert!(bus.check_parameter("node1.a"));
    assert_eq!(bus.get_parameter_type("node1.s"), Some(ParameterType::Stream));
    assert!(!bus.check_parameter("node1.missing"));

    let results = bus.get_node_results("node1");
    assert!(same(results.get("a").unwrap(), &j("123")));
    assert!(!results.contains_key("b"));
    assert!(!results.contains_key("s"));
}

#[test]
fn results_of_one_node_leave_out_others() {
    let mut bus = ParameterBus::default();
    bus.init_output_parameters("node1", &params(&[("a", ParameterType::Step)]));
    bus.init_output_parameters("node10", &params(&[("a", ParameterType::Step)]));
    bus.set_value("node1", "a", j("1")).unwrap();
    bus.set_value("node10", "a", j("10")).unwrap();
    let results = bus.get_node_results("node1");
    assert_eq!(results.len(), 1);
    assert!(same(results.get("a").unwrap(), &j("1")));
}

#[test]
fn step_value_is_waited_for_and_replaced() {
    let mut bus = ParameterBus::new();
    bus.init_output_parameters("n", &params(&[("v", ParameterType::Step)]));
    assert!(bus.get_value("n.v").unwrap().is_none());
    assert_eq!(
        bus.get_notified_value("n.v").unwrap_err().to_text(),
        "Parameter n.v value is None"
    );
    assert!(bus.set_value("n", "v", j("1")).unwrap().is_empty());
    bus.set_value("n", "v", j("2")).unwrap();
    assert!(same(&bus.get_value("n.v").unwrap().unwrap(), &j("2")));
    assert!(same(&bus.get_notified_value("n.v").unwrap(), &j("2")));

    // Declaring a step parameter again takes its value away.
    bus.init_output_parameters("n", &params(&[("v", ParameterType::Step)]));
    assert!(bus.get_value("n.v").unwrap().is_none());
}

#[test]
fn unknown_parameters_are_refused() {
    let mut bus = ParameterBus::new();
    assert_eq!(
        bus.set_value("n", "v", j("1")).unwrap_err().to_text(),
        "Parameter not found: n.v"
    );
    assert_eq!(bus.get_value("n.v").unwrap_err().to_text(), "Parameter not found: n.v");
    assert_eq!(
        bus.get_notified_value("n.v").unwrap_err().to_text(),
        "Parameter not found: n.v"
    );
}

#[test]
fn declaring_a_stream_again_keeps_its_history() {
    let mut bus = ParameterBus::new();
    bus.init_output_parameters("n", &params(&[("s", ParameterType::Stream)]));
    bus.set_value("n", "s", j("1")).unwrap();
    bus.init_output_parameters("n", &params(&[("s", ParameterType::Stream)]));
    assert_eq!(bus.register_stream_subscriber("n.s", "c").unwrap().len(), 1);
}

#[test]
fn parameter_bus_preserves_step_and_stream_values() {
    let mut bus = ParameterBus::new();
    bus.init_output_parameters(
        "producer",
        &params(&[("step", ParameterType::Step), ("stream", ParameterType::Stream)]),
    );

    bus.set_value("producer", "step", j(r#"{"ready": true}"#)).unwrap();
    bus.set_value("producer", "stream", Json::text("first")).unwrap();
    bus.set_value("producer", "stream", Json::text("second")).unwrap();

    assert!(same(
        &bus.get_value("producer.step").unwrap().unwrap(),
        &j(r#"{"ready": true}"#)
    ));
    let stream = bus.register_stream_subscriber("producer.stream", "consumer").unwrap();
    assert!(same(&stream[0], &Json::text("first")));
    assert!(same(&stream[1], &Json::text("second")));
}
