//! Batches of messages and what is reported of them.
use flovo::json::parse_json;
use flovo::value::Json;
use flovo::ws::batch::{batch_envelope, pack_batch, unpack_batch, DEFAULT_MAX_BATCH_SIZE};
use flovo::ws::batch_ack::BatchAckResult;

fn j(text: &str) -> Json {
    parse_json(text).unwrap()
}

#[test]
fn test_batch_ack_result_fields() {
    let result =
        BatchAckResult { status: "ok".to_string(), batch_id: "batch-001".to_string() };

    assert_eq!(result.status, "ok");
    assert_eq!(result.batch_id, "batch-001");
}

fn texts(items: &[Json]) -> Vec<String> {
    items.iter().map(|v| v.to_text()).collect()
}

#[test]
fn pack_and_unpack_round_trip() {
    let batches = pack_batch("pipeline", vec![j("1"), j("2"), j("3")], 2);
    assert_eq!(batches.len(), 2);
    let unpacked: Vec<Json> =
        batches.iter().flat_map(|b| unpack_batch(b).unwrap()).collect();
    assert_eq!(texts(&unpacked), vec!["1", "2", "3"]);
}

#[test]
fn batches_are_cut_and_named() {
    let batches = pack_batch("pipeline", vec![j("1"), j("2"), j("3"), j("4")], 2);
    assert_eq!(batches.len(), 2);
    let mut ids = Vec::new();
    for batch in &batches {
        assert_eq!(batch.cmd, "batch");
        assert_eq!(batch.workflow, "pipeline");
        let id = batch.info.get("batch_id").and_then(|v| v.as_str()).unwrap().to_string();
        assert_eq!(id.len(), 36);
        ids.push(id);
    }
    assert_ne!(ids[0], ids[1]);
    assert!(pack_batch("pipeline", Vec::new(), 2).is_empty());
    assert_eq!(DEFAULT_MAX_BATCH_SIZE, 5);
}

#[test]
fn what_is_no_batch_is_refused() {
    let error = |cmd: &str, info: &str| {
        let mut envelope = batch_envelope("w", "id".to_string(), vec![j("1")]);
        envelope.cmd = cmd.to_string();
        envelope.info = j(info);
        unpack_batch(&envelope).unwrap_err()
    };
    assert_eq!(error("input", r#"{"items":[1]}"#), "not a batch message");
    assert_eq!(error("batch", "{}"), "batch items is missing");
    assert_eq!(error("batch", r#"{"items":1}"#), "batch items is missing");
    assert_eq!(error("batch", r#"{"items":[]}"#), "batch items is empty");
    let envelope = batch_envelope("w", "id".to_string(), vec![j("1")]);
    assert_eq!(texts(&unpack_batch(&envelope).unwrap()), vec!["1"]);
    assert_eq!(envelope.info.to_text(), r#"{"batch_id":"id","items":[1]}"#);
}
