//! The server: connections, sessions, and the clients of language models.
use flovo::config::schema::{NodeConfigJson, WorkflowConfig};
use flovo::context_sync::ContextSyncConfig;
use flovo::error::WorkflowError;
use flovo::json::parse_json;
use flovo::llm::{ChunkStatus, SendOutcome, StreamChunk};
use flovo::node::base::{BaseNode, InputSource};
use flovo::nodes::builtin::BuiltinNode;
use flovo::nodes::send_recv_node::{ExchangePoll, ExchangeStage};
use flovo::nodes::NodePoll;
use flovo::run::{NodeNext, Run, RunAction, RunEvent};
use flovo::string_map::StringMap;
use flovo::value::Json;
use flovo::workflow::{Effect, WorkFlow};
use flovo::ws::openai_compat::{process_sse_line, HttpReply, OpenaiCompatLlm, SseDecoder};
use flovo::ws::server::{
    accept_with_endpoint, build_workflow, json_error, reject_over_limit, truncate, ws_error,
    Admission, ConnectionIds, Frame, Session, SessionAction, SessionEvent, SessionStage, TaskEnd, WsEnvelope,
    WsServer, WsServerConfig,
};

fn j(text: &str) -> Json {
    parse_json(text).unwrap()
}

// --- configurations -------------------------------------------------------

fn node(
    id: u32,
    node_type: &str,
    name: &str,
    input: Option<&str>,
    target: &str,
    attrs: &str,
) -> NodeConfigJson {
    let mut input_map = StringMap::new();
    if let Some(source) = input {
        input_map
            .insert("input".to_string(), InputSource { key: Some(source.to_string()) });
    }
    let mut choice_map = StringMap::new();
    choice_map.insert("default".to_string(), target.to_string());
    let attrs = match j(attrs) {
        Json::Object(map) => map,
        _ => panic!("not an object"),
    };
    NodeConfigJson {
        id,
        node_type: node_type.to_string(),
        node_name: name.to_string(),
        input_map,
        choice_map,
        attrs,
        key_node: false,
    }
}

fn workflow_config(nodes: Vec<NodeConfigJson>) -> WorkflowConfig {
    WorkflowConfig {
        start_node: "receive".to_string(),
        listen_at_start: None,
        input_parameters: StringMap::new(),
        nodes,
        context_sync: None,
    }
}

fn workflow_configs() -> StringMap<WorkflowConfig> {
    let receive =
        |target: &str| node(1, "send_recv_node", "receive", None, target, r#"{"mode":"recv"}"#);
    let mut configs = StringMap::new();
    configs.insert("echo".to_string(), workflow_config(vec![receive("finish")]));
    configs.insert(
        "context_echo".to_string(),
        workflow_config(vec![
            receive("read_context"),
            node(
                2,
                "transform_node",
                "read_context",
                Some("context.user_name"),
                "send_result",
                r#"{"transform_type":"to_upper"}"#,
            ),
            node(
                3,
                "send_recv_node",
                "send_result",
                Some("read_context.result"),
                "finish",
                r#"{"mode":"send"}"#,
            ),
        ]),
    );
    configs
}

// --- a client with its session --------------------------------------------

/// A connection and what its host keeps of it.
struct Connection {
    session: Session,
    workflow: WorkFlow,
    nodes: Vec<BuiltinNode>,
    sent: Vec<WsEnvelope>,
    ended: Option<Result<(), WorkflowError>>,
    running: bool,
}

fn connect(endpoint: &str) -> Connection {
    let (workflow, nodes) = build_workflow(endpoint, &workflow_configs(), false)
        .unwrap_or_else(|e| panic!("{}", e.to_text()));
    let mut connection = Connection {
        session: Session::new(endpoint),
        workflow,
        nodes,
        sent: Vec::new(),
        ended: None,
        running: false,
    };
    connection.happens(SessionEvent::Opened);
    assert_eq!(connection.next_cmd(), "connect_ok");
    connection.frame(envelope(endpoint, "init_report", Some(1), "{}"));
    assert_eq!(connection.next_cmd(), "init_ok");
    assert!(connection.running);
    connection
}

fn envelope(workflow: &str, cmd: &str, id: Option<u64>, info: &str) -> WsEnvelope {
    WsEnvelope::service(workflow, cmd, id, j(info))
}

impl Connection {
    fn happens(&mut self, event: SessionEvent) {
        let mut next = Some(event);
        while let Some(event) = next.take() {
            for action in self.session.run_socket(&mut self.workflow, event) {
                match action {
                    SessionAction::Send(e) => {
                        self.sent.push(e);
                        next = Some(SessionEvent::Sent);
                    }
                    SessionAction::Pong(_) => next = Some(SessionEvent::Sent),
                    SessionAction::Run => self.running = true,
                    SessionAction::End(result) => self.ended = Some(result),
                }
            }
        }
    }

    fn frame(&mut self, e: WsEnvelope) {
        self.happens(SessionEvent::Frame(Frame::Envelope(e)));
    }

    fn next(&mut self) -> WsEnvelope {
        self.sent.remove(0)
    }

    fn next_cmd(&mut self) -> String {
        self.next().cmd
    }

    /// Runs the workflow to its end and reports what it puts out.
    fn run(&mut self) {
        let nodes = std::mem::take(&mut self.nodes);
        let mut stages: Vec<(ExchangeStage, bool, bool)> =
            nodes.iter().map(|_| (ExchangeStage::Idle, false, false)).collect();
        let mut run = Run::new();
        let mut event = RunEvent::Begin;
        loop {
            let name = match run.run_all(&mut self.workflow, event) {
                RunAction::Await(name) => name,
                RunAction::Return(result) => {
                    self.happens(SessionEvent::Finished(TaskEnd::Ended(result)));
                    return;
                }
                other => panic!("{:?}", other),
            };
            let awaited = nodes.iter().position(|n| n.name() == name).unwrap();
            let mut rounds = 0;
            while !stages[awaited].2 {
                rounds += 1;
                assert!(rounds < 100, "the workflow hangs");
                for (node, stage) in nodes.iter().zip(stages.iter_mut()) {
                    if stage.2 {
                        continue;
                    }
                    let polled = match node {
                        BuiltinNode::SendRecv(n) => {
                            match n.run(&mut stage.0, &mut self.workflow) {
                                ExchangePoll::Pending => None,
                                ExchangePoll::Done(result) => Some(result),
                                ExchangePoll::Send(v) => {
                                    self.happens(SessionEvent::Outbound(Some(v)));
                                    match n.sent(
                                        &SendOutcome::Sent,
                                        &mut stage.0,
                                        &mut self.workflow,
                                    ) {
                                        ExchangePoll::Done(result) => Some(result),
                                        _ => None,
                                    }
                                }
                            }
                        }
                        BuiltinNode::Transform(n) => {
                            match n.run(&mut stage.1, &mut self.workflow) {
                                NodePoll::Pending => None,
                                NodePoll::Done(result) => Some(result),
                            }
                        }
                        _ => panic!("not used here"),
                    };
                    if let Some(result) = polled {
                        let next =
                            self.workflow.run_node(node.name(), node.is_reentrant(), result);
                        stage.2 = matches!(next, NodeNext::End(_));
                    }
                }
                for effect in self.workflow.take_effects() {
                    if let Effect::Abort(name) = effect {
                        let i = nodes.iter().position(|n| n.name() == name).unwrap();
                        stages[i].2 = true;
                    }
                }
            }
            event = RunEvent::TaskEnded;
        }
    }
}

#[test]
fn serves_two_independent_connections() {
    let config = WsServerConfig { max_concurrent_connections: 2 };
    let mut server = WsServer::new_with_config("127.0.0.1:0", workflow_configs(), config)
        .unwrap_or_else(|e| panic!("{}", e.to_text()));
    let mut numbers = ConnectionIds::new();
    let mut ids = Vec::new();
    for _ in 0..2 {
        match server.start(&mut numbers) {
            Admission::Admitted(id) => {
                server.begin_connection(id);
                ids.push(id);
            }
            Admission::Rejected(_) => panic!("rejected"),
        }
    }
    assert_eq!(server.active_connection_count(), 2);
    let mut first = connect("echo");
    let mut second = connect("echo");
    first.frame(envelope("echo", "send_input", None, r#"{"value": 1}"#));
    second.frame(envelope("echo", "send_input", None, r#"{"value": 2}"#));
    first.run();
    second.run();
    assert_eq!(first.next_cmd(), "workflow_finished");
    assert_eq!(second.next_cmd(), "workflow_finished");
    for (connection, value) in [(&first, "1"), (&second, "2")] {
        let result = connection.workflow.get_result().unwrap();
        let output = result.get("output").unwrap();
        assert_eq!(output.get("value").unwrap().to_text(), value);
        assert!(matches!(connection.ended, Some(Ok(()))));
    }
    assert!(matches!(server.start(&mut numbers), Admission::Rejected(_)));
    let mut other = WsServer::new("other", StringMap::new())
        .unwrap_or_else(|e| panic!("{}", e.to_text()));
    assert!(matches!(other.start(&mut numbers), Admission::Admitted(3)));
    server.process_connection(ids[0], &mut first.workflow);
    server.release();
    assert_eq!(server.active_connection_count(), 1);
    assert!(matches!(server.start(&mut numbers), Admission::Admitted(4)));
}

#[test]
fn test_send_input_context_merged_into_workflow_context() {
    let mut client = connect("context_echo");
    client.frame(envelope(
        "context_echo",
        "send_input",
        None,
        r#"{"context": {"user_name": "alice"}, "question": "hi"}"#,
    ));
    client.run();
    let output = client.next();
    assert_eq!(output.cmd, "output");
    assert!(output.info.equals(&Json::text("ALICE")));
    assert_eq!(client.next_cmd(), "workflow_finished");
}

#[test]
fn inputs_name_the_user_and_the_session() {
    let mut client = connect("echo");
    client.frame(envelope(
        "echo",
        "send_input",
        None,
        r#"{"user_id": "u", "session_id": 7, "context": {"a": 1, "user_id": "v"}}"#,
    ));
    assert_eq!(client.workflow.context_keys(), vec!["a", "session_id", "user_id"]);
    assert_eq!(client.workflow.get_context("user_id").unwrap().as_str(), Some("v"));
    assert_eq!(client.workflow.messages.len(), 1);
    client.frame(envelope("echo", "other", None, "{}"));
    let mut stranger = envelope("echo", "send_input", None, "{}");
    stranger.message_type = "user".to_string();
    client.frame(stranger);
    assert_eq!(client.workflow.messages.len(), 1);
}

fn opened() -> (Session, WorkFlow) {
    let mut workflow = WorkFlow::new("w".to_string());
    let mut session = Session::new("w");
    session.run_socket(&mut workflow, SessionEvent::Opened);
    (session, workflow)
}

fn end_of(actions: Vec<SessionAction>) -> Result<(), String> {
    for action in actions {
        if let SessionAction::End(result) = action {
            return result.map_err(|e| e.to_text());
        }
    }
    panic!("the session goes on")
}

#[test]
fn sessions_begin_with_a_greeting() {
    let greet = |frame: Frame| {
        let (mut session, mut workflow) = opened();
        let actions = session.run_socket(&mut workflow, SessionEvent::Frame(frame));
        (session.stage, actions)
    };
    let (stage, actions) = greet(Frame::Envelope(envelope("w", "init", Some(4), "{}")));
    assert_eq!(stage, SessionStage::Answering);
    assert_eq!(actions.len(), 1);
    match &actions[0] {
        SessionAction::Send(e) => assert_eq!(
            e.to_text(),
            "{\"type\":\"service\",\"workflow\":\"w\",\"cmd\":\"init_ok\",\
             \"message_id\":4,\"info\":{\"accepted\":true}}"
        ),
        other => panic!("{:?}", other),
    }
    let refused = Err("invalid websocket initialization message".to_string());
    let (_, actions) = greet(Frame::Envelope(envelope("v", "init", None, "{}")));
    assert_eq!(end_of(actions), refused);
    let (_, actions) = greet(Frame::Envelope(envelope("w", "send_input", None, "{}")));
    assert_eq!(end_of(actions), refused);
    let (_, actions) = greet(Frame::Invalid("x".to_string()));
    assert_eq!(end_of(actions), Err("invalid websocket payload: x".to_string()));
    let (_, actions) = greet(Frame::Closed);
    assert_eq!(end_of(actions), Err("websocket closed before initialization".to_string()));
    let (_, actions) = greet(Frame::Failed("x".to_string()));
    assert_eq!(end_of(actions), Err("websocket error: x".to_string()));
    let (stage, actions) = greet(Frame::Ping(vec![1]));
    assert!(actions.is_empty() && stage == SessionStage::Greeting);
    let (stage, actions) = greet(Frame::Other);
    assert!(actions.is_empty() && stage == SessionStage::Greeting);
}

/// Takes a session to the point where its workflow runs.
fn greeted(session: &mut Session, workflow: &mut WorkFlow) {
    let hello = Frame::Envelope(envelope("w", "init", None, "{}"));
    session.run_socket(workflow, SessionEvent::Frame(hello));
    let actions = session.run_socket(workflow, SessionEvent::Sent);
    assert!(matches!(actions[0], SessionAction::Run));
    assert_eq!(session.stage, SessionStage::Running);
}

#[test]
fn the_end_waits_for_the_last_message() {
    for (event, expected) in [
        (SessionEvent::Sent, Ok(())),
        (SessionEvent::SendFailed("x".to_string()), Err("websocket error: x".to_string())),
    ] {
        let (mut session, mut workflow) = opened();
        greeted(&mut session, &mut workflow);
        let finished = SessionEvent::Finished(TaskEnd::Ended(Ok(())));
        let actions = session.run_socket(&mut workflow, finished);
        assert_eq!(actions.len(), 1);
        assert!(matches!(&actions[0], SessionAction::Send(e) if e.cmd == "workflow_finished"));
        assert_eq!(session.stage, SessionStage::Closing);
        assert_eq!(end_of(session.run_socket(&mut workflow, event)), expected);
        assert_eq!(session.stage, SessionStage::Over);
    }
}

#[test]
fn an_answer_that_is_not_sent_ends_the_session() {
    let (mut session, mut workflow) = opened();
    let hello = Frame::Envelope(envelope("w", "init", None, "{}"));
    session.run_socket(&mut workflow, SessionEvent::Frame(hello));
    let actions = session.run_socket(&mut workflow, SessionEvent::SendFailed("x".to_string()));
    assert_eq!(end_of(actions), Err("websocket error: x".to_string()));
}

#[test]
fn running_sessions_end_in_many_ways() {
    let after = |event: SessionEvent| {
        let (mut session, mut workflow) = opened();
        greeted(&mut session, &mut workflow);
        let actions = session.run_socket(&mut workflow, event);
        let more = session.run_socket(&mut workflow, SessionEvent::Opened);
        assert!(more.is_empty());
        actions
    };
    assert_eq!(end_of(after(SessionEvent::Frame(Frame::Closed))), Ok(()));
    assert_eq!(end_of(after(SessionEvent::Outbound(None))), Ok(()));
    assert_eq!(
        end_of(after(SessionEvent::Frame(Frame::Invalid("x".to_string())))),
        Err("invalid websocket payload: x".to_string())
    );
    assert_eq!(
        end_of(after(SessionEvent::Frame(Frame::Failed("x".to_string())))),
        Err("websocket error: x".to_string())
    );
    assert_eq!(
        end_of(after(SessionEvent::SendFailed("x".to_string()))),
        Err("websocket error: x".to_string())
    );
    assert_eq!(
        end_of(after(SessionEvent::Finished(TaskEnd::Crashed("x".to_string())))),
        Err("workflow task failed: x".to_string())
    );
    let failed = TaskEnd::Ended(Err(WorkflowError::Other("x".to_string())));
    assert_eq!(end_of(after(SessionEvent::Finished(failed))), Err("x".to_string()));
    let pong = after(SessionEvent::Frame(Frame::Ping(vec![1, 2])));
    match &pong[0] {
        SessionAction::Pong(payload) => assert_eq!(payload, &vec![1, 2]),
        other => panic!("{:?}", other),
    }
    assert!(after(SessionEvent::Frame(Frame::Other)).is_empty());
}

#[test]
fn servers_have_a_limit() {
    let config = WsServerConfig { max_concurrent_connections: 0 };
    let error = WsServer::new_with_config("a", StringMap::new(), config).err().unwrap();
    assert_eq!(
        error.to_text(),
        "Configuration error: max_concurrent_connections must be greater than zero"
    );
    let server = WsServer::new("a", StringMap::new()).unwrap_or_else(|_| panic!("refused"));
    assert_eq!(server.config.max_concurrent_connections, 100);
    assert_eq!(server.active_connection_count(), 0);
    assert_eq!(
        reject_over_limit(2).to_text(),
        "{\"type\":\"service\",\"workflow\":\"connection\",\"cmd\":\"connect_rejected\",\
         \"info\":{\"limit\":2,\"reason\":\"connection limit reached\"}}"
    );
}

#[test]
fn endpoints_come_from_paths() {
    assert_eq!(accept_with_endpoint("/echo").unwrap(), "echo");
    assert_eq!(accept_with_endpoint("//a/b/").unwrap(), "a/b");
    assert_eq!(
        accept_with_endpoint("/").unwrap_err().to_text(),
        "Configuration error: websocket URL must include a workflow endpoint"
    );
    let error = |name: &str, has_client: bool| {
        let mut configs = workflow_configs();
        let mut synced = workflow_config(vec![node(
            1,
            "send_recv_node",
            "receive",
            None,
            "finish",
            "{}",
        )]);
        synced.context_sync = Some(ContextSyncConfig {
            enabled: true,
            fetch_on_start: Vec::new(),
            push_on_complete: Vec::new(),
        });
        configs.insert("synced".to_string(), synced);
        build_workflow(name, &configs, has_client).err().map(|e| e.to_text())
    };
    assert_eq!(
        error("missing", true).unwrap(),
        "Configuration error: workflow endpoint not found: missing"
    );
    assert_eq!(
        error("synced", false).unwrap(),
        "Configuration error: context sync is enabled but no client was injected"
    );
    assert_eq!(error("synced", true), None);
}

#[test]
fn texts_for_logs_are_cut() {
    assert_eq!(truncate("short"), "short");
    let long = "é".repeat(513);
    assert_eq!(truncate(&long), format!("{}...", "é".repeat(512)));
    assert_eq!(ws_error("x").to_text(), "websocket error: x");
    assert_eq!(json_error("x").to_text(), "invalid websocket payload: x");
    let mut e = envelope("w\"", "c", None, "[1]");
    e.resource = Some(j(r#"{"url":"u"}"#));
    assert_eq!(
        e.to_text(),
        r#"{"type":"service","workflow":"w\"","cmd":"c","info":[1],"resource":{"url":"u"}}"#
    );
}

// --- language models ------------------------------------------------------

fn client() -> OpenaiCompatLlm {
    OpenaiCompatLlm::new(
        "http://127.0.0.1:8080/v1",
        "test-key".to_string(),
        "test-model".to_string(),
    )
}

fn reply(body: &str) -> HttpReply {
    HttpReply::Replied { status: "200 OK".to_string(), success: true, body: Ok(body.to_string()) }
}

#[test]
fn from_env_requires_api_key() {
    assert!(OpenaiCompatLlm::from_env(None, None, None).is_none());
    assert!(OpenaiCompatLlm::from_env(Some(" ".to_string()), None, None).is_none());
}

#[test]
fn clients_have_usual_settings() {
    let key = || Some("k".to_string());
    let usual = OpenaiCompatLlm::from_env(key(), None, None).unwrap();
    assert_eq!(usual.endpoint(), "https://api.openai.com/v1/chat/completions");
    assert_eq!(usual.auth_header(), "Bearer k");
    assert_eq!(usual.model, "gpt-4o-mini");
    let other =
        OpenaiCompatLlm::from_env(key(), Some("http://h//".to_string()), Some("m".to_string()))
            .unwrap();
    assert_eq!(other.endpoint(), "http://h/chat/completions");
    assert_eq!(other.model, "m");
}

#[test]
fn chat_posts_openai_compatible_request() {
    let llm = client();
    let answer = llm.chat(reply(r#"{"choices":[{"message":{"content":"hello"}}]}"#));
    assert_eq!(answer.unwrap(), "hello");
    assert!(llm.auth_header().to_ascii_lowercase().contains("bearer test-key"));
    let body = llm.request_body("ping", false).to_text();
    assert!(body.contains("\"stream\":false"));
    assert_eq!(
        body,
        "{\"messages\":[{\"content\":\"ping\",\"role\":\"user\"}],\
         \"model\":\"test-model\",\"stream\":false}"
    );
}

#[test]
fn failed_requests_do_not_give_the_key_away() {
    let llm = client();
    let error = |reply: HttpReply| llm.chat(reply).unwrap_err().to_text();
    assert_eq!(
        error(HttpReply::SendFailed("test-key refused".to_string())),
        "LLM request failed: [redacted] refused"
    );
    let denied = || HttpReply::Replied {
        status: "401 Unauthorized".to_string(),
        success: false,
        body: Ok("bad test-key".to_string()),
    };
    assert_eq!(error(denied()), "LLM API returned HTTP 401 Unauthorized: bad [redacted]");
    assert_eq!(
        llm.stream_error(&denied()).unwrap().to_text(),
        "LLM API returned HTTP 401 Unauthorized: bad [redacted]"
    );
    assert_eq!(
        llm.stream_error(&HttpReply::SendFailed("x".to_string())).unwrap().to_text(),
        "LLM stream request failed: x"
    );
    assert!(llm.stream_error(&reply("")).is_none());
    assert_eq!(
        error(reply("{}")),
        "LLM API response missing choices[0].message.content"
    );
    assert!(error(reply("{")).contains("EOF while parsing an object at line 1 column 1"));
    assert_eq!(llm.read_error("test-key").to_text(), "LLM stream read failed: [redacted]");
    let open = OpenaiCompatLlm::new("u", String::new(), "m".to_string());
    assert_eq!(open.error_message("any text").to_text(), "any text");
}

const STREAM: &str = "data: {\"choices\":[{\"delta\":{\"content\":\"a\"}}]}\n\n\
    data: {\"choices\":[{\"delta\":{\"content\":\"b\"},\"finish_reason\":\"stop\"}]}\n\n\
    data: [DONE]\n\n";

fn contents(chunks: &[StreamChunk]) -> Vec<(ChunkStatus, &str)> {
    chunks.iter().map(|c| (c.status, c.content.as_str())).collect()
}

#[test]
fn chat_stream_emits_data_then_finish() {
    let mut decoder = SseDecoder::new();
    let finished = decoder.chat_stream(&STREAM.as_bytes().to_vec());
    assert!(finished);
    decoder.finish();
    let chunks = decoder.take_pieces();
    assert_eq!(chunks.len(), 3);
    assert_eq!(chunks[0].content, "a");
    assert_eq!(chunks[1].content, "b");
    assert_eq!(chunks[2].status, ChunkStatus::Finish);
}

#[test]
fn streams_can_be_cut_anywhere() {
    let text = STREAM.replace("\"a\"", "\"é\"");
    let bytes = text.as_bytes();
    for cut in 0..bytes.len() {
        let mut decoder = SseDecoder::new();
        if !decoder.chat_stream(&bytes[..cut].to_vec()) {
            decoder.chat_stream(&bytes[cut..].to_vec());
        }
        decoder.finish();
        let chunks = decoder.take_pieces();
        assert_eq!(
            contents(&chunks),
            vec![
                (ChunkStatus::Data, "é"),
                (ChunkStatus::Data, "b"),
                (ChunkStatus::Finish, "b"),
            ]
        );
    }
}

#[test]
fn a_line_without_an_end_is_read_at_the_end() {
    let mut decoder = SseDecoder::new();
    let line = b"data: {\"choices\":[{\"delta\":{\"content\":\"x\"}}]}".to_vec();
    assert!(!decoder.chat_stream(&line));
    decoder.finish();
    let chunks = decoder.take_pieces();
    assert_eq!(contents(&chunks), vec![(ChunkStatus::Data, "x"), (ChunkStatus::Finish, "x")]);
}

#[test]
fn lines_of_a_stream() {
    assert_eq!(process_sse_line("event: x"), (None, false));
    assert_eq!(process_sse_line("data:"), (None, false));
    assert_eq!(process_sse_line("data: [DONE]"), (None, true));
    assert_eq!(process_sse_line("data: {"), (None, false));
    assert_eq!(
        process_sse_line("data:{\"choices\":[{\"delta\":{\"content\":\"x\"}}]}"),
        (Some("x".to_string()), false)
    );
    assert_eq!(
        process_sse_line("data: {\"choices\":[{\"delta\":{},\"finish_reason\":\"stop\"}]}"),
        (None, true)
    );
}
