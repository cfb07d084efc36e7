//! The server: who is let in, what a session is told, and what it does.
use vstd::prelude::*;

use crate::builder::WorkflowBuilder;
use crate::config::schema::{WorkflowConfig, WorkflowConfigView};
use crate::context_sync::{ContextSyncManager, SyncView};
use crate::error::{option_view, unit_view, ErrorView, WorkflowError};
use crate::json::json_writing;
use crate::node::base::NodeDecl;
use crate::node::registry::NodeRegistry;
use crate::nodes::builtin::{
    builtin_types, register_builtin_nodes, register_each, BuiltinFactory, BuiltinNode,
};
use crate::string_map::{
    assoc, assoc_after_insert, assoc_insert, assoc_of_entry, assoc_some_iff, sorted, Duplicate,
    StringMap,
};
use crate::text::{
    cat2, decimal, decimal_text, join_text, slice_text, text_eq, text_less, text_less_irreflexive,
    to_chars, trim, trim_text, trimmed_sides, trimming_takes_off_the_sides, Trimmed,
};
use crate::value::{json_wf, object_view, Json, JsonNumber, JsonView, NumberView};
use crate::workflow::{EffectView, WorkFlow, WorkFlowView};
use vstd::string::StringExecFns;

verus! {

// ---------------------------------------------------------------------------
// Envelopes
// ---------------------------------------------------------------------------

/// A binary resource.
#[derive(Debug)]
pub struct WsBinaryResource {
    pub resource_type: String,
    pub url: Option<String>,
    pub data: Option<String>,
}

/// An image.
#[derive(Debug)]
pub struct WsImageResource {
    pub resource_type: String,
    pub url: String,
}

/// A video.
#[derive(Debug)]
pub struct WsVideoResource {
    pub resource_type: String,
    pub url: String,
}

/// A piece of text, possibly tagged.
#[derive(Debug)]
pub struct WsTextBlock {
    pub tag: Option<String>,
    pub text: String,
}

/// A message of the protocol.
#[derive(Debug)]
pub struct WsEnvelope {
    pub message_type: String,
    pub workflow: String,
    pub cmd: String,
    pub message_id: Option<u64>,
    pub info: Json,
    pub resource: Option<Json>,
}

/// What goes out over a connection.
#[derive(Debug)]
pub enum WsOutboundMessage {
    /// A message of the protocol.
    Envelope(WsEnvelope),
    /// The answer to a ping.
    Pong(Vec<u8>),
    /// The end of the connection.
    Close,
}

/// What a message holds.
#[verifier::ext_equal]
pub struct EnvelopeView {
    pub message_type: Seq<char>,
    pub workflow: Seq<char>,
    pub cmd: Seq<char>,
    pub message_id: Option<u64>,
    pub info: JsonView,
    pub resource: Option<JsonView>,
}

impl View for WsEnvelope {
    type V = EnvelopeView;

    open spec fn view(&self) -> EnvelopeView {
        EnvelopeView {
            message_type: self.message_type@,
            workflow: self.workflow@,
            cmd: self.cmd@,
            message_id: self.message_id,
            info: self.info@,
            resource: option_view(self.resource),
        }
    }
}

/// A service message.
pub open spec fn service_view(
    workflow: Seq<char>,
    cmd: Seq<char>,
    message_id: Option<u64>,
    info: JsonView,
) -> EnvelopeView {
    EnvelopeView {
        message_type: "service"@,
        workflow,
        cmd,
        message_id,
        info,
        resource: None,
    }
}

/// The JSON text of a message. A number or a resource that is not there is left out.
pub open spec fn envelope_text(e: EnvelopeView) -> Seq<char> {
    let head = "{\"type\":"@ + json_writing(JsonView::Text(e.message_type)) + ",\"workflow\":"@
        + json_writing(JsonView::Text(e.workflow)) + ",\"cmd\":"@ + json_writing(
        JsonView::Text(e.cmd),
    );
    let numbered = match e.message_id {
        Some(n) => head + ",\"message_id\":"@ + decimal(n as nat),
        None => head,
    };
    let informed = numbered + ",\"info\":"@ + json_writing(e.info);
    let full = match e.resource {
        Some(r) => informed + ",\"resource\":"@ + json_writing(r),
        None => informed,
    };
    full + "}"@
}

impl WsEnvelope {
    /// A service message.
    pub fn service(workflow: &str, cmd: &str, message_id: Option<u64>, info: Json) -> (r: WsEnvelope)
        ensures
            r@ == service_view(workflow@, cmd@, message_id, info@),
    {
        WsEnvelope {
            message_type: "service".to_owned(),
            workflow: workflow.to_owned(),
            cmd: cmd.to_owned(),
            message_id,
            info,
            resource: None,
        }
    }

    /// The JSON text of the message.
    pub fn to_text(&self) -> (r: String)
        ensures
            r@ == envelope_text(self@),
    {
        let message_type = Json::text(self.message_type.as_str()).to_text();
        let workflow = Json::text(self.workflow.as_str()).to_text();
        let cmd = Json::text(self.cmd.as_str()).to_text();
        let mut out = cat2("{\"type\":", message_type.as_str());
        out.append(",\"workflow\":");
        out.append(workflow.as_str());
        out.append(",\"cmd\":");
        out.append(cmd.as_str());
        if let Some(n) = self.message_id {
            let digits = decimal_text(n);
            out.append(",\"message_id\":");
            out.append(digits.as_str());
        }
        let info = self.info.to_text();
        out.append(",\"info\":");
        out.append(info.as_str());
        if let Some(r) = &self.resource {
            let resource = r.to_text();
            out.append(",\"resource\":");
            out.append(resource.as_str());
        }
        out.append("}");
        out
    }
}

fn accepted() -> (r: Json)
    ensures
        r@ == accepted_view(),
{
    broadcast use object_view;

    let mut info: StringMap<Json> = StringMap::new();
    info.insert("accepted".to_owned(), Json::Bool(true));
    proof {
        assert(info@ =~= seq![("accepted"@, JsonView::Bool(true))]);
    }
    Json::Object(info)
}

/// The value that says that something was accepted.
pub open spec fn accepted_view() -> JsonView {
    JsonView::Object(seq![("accepted"@, JsonView::Bool(true))])
}

/// How much of a text is written to a log.
pub const LOG_VALUE_LIMIT: usize = 512;

/// A text cut off after so many characters, with three dots where something was cut.
pub open spec fn truncated(s: Seq<char>) -> Seq<char> {
    if s.len() <= LOG_VALUE_LIMIT {
        s
    } else {
        s.take(LOG_VALUE_LIMIT as int) + "..."@
    }
}

/// Cuts a text off for a log.
pub fn truncate(value: &str) -> (r: String)
    ensures
        r@ == truncated(value@),
{
    let chars = to_chars(value);
    if chars.len() <= LOG_VALUE_LIMIT {
        return value.to_owned();
    }
    let mut out = slice_text(&chars, 0, LOG_VALUE_LIMIT);
    proof {
        assert(chars@.subrange(0, LOG_VALUE_LIMIT as int) =~= chars@.take(
            LOG_VALUE_LIMIT as int,
        ));
    }
    out.append("...");
    out
}

/// The error of the transport.
pub open spec fn ws_error_view(text: Seq<char>) -> ErrorView {
    ErrorView::Other("websocket error: "@ + text)
}

/// The error of the transport.
pub fn ws_error(text: &str) -> (r: WorkflowError)
    ensures
        r@ == ws_error_view(text@),
{
    WorkflowError::Other(cat2("websocket error: ", text))
}

/// The error of a message that is no envelope.
pub open spec fn json_error_view(text: Seq<char>) -> ErrorView {
    ErrorView::Other("invalid websocket payload: "@ + text)
}

/// The error of a message that is no envelope.
pub fn json_error(text: &str) -> (r: WorkflowError)
    ensures
        r@ == json_error_view(text@),
{
    WorkflowError::Other(cat2("invalid websocket payload: ", text))
}

// ---------------------------------------------------------------------------
// Connections
// ---------------------------------------------------------------------------

/// The settings of a server.
#[derive(Clone, Copy, Debug)]
pub struct WsServerConfig {
    pub max_concurrent_connections: usize,
}

impl Default for WsServerConfig {
    fn default() -> (r: WsServerConfig)
        ensures
            r.max_concurrent_connections == 100,
    {
        WsServerConfig { max_concurrent_connections: 100 }
    }
}

/// The message to a client that is not let in.
pub open spec fn rejection_view(limit: usize) -> EnvelopeView {
    service_view(
        "connection"@,
        "connect_rejected"@,
        None,
        JsonView::Object(
            assoc_insert(
                seq![("reason"@, JsonView::Text("connection limit reached"@))],
                "limit"@,
                JsonView::Number(NumberView::PosInt(limit as u64)),
            ),
        ),
    )
}

/// The message to a client that is not let in.
pub fn reject_over_limit(limit: usize) -> (r: WsEnvelope)
    ensures
        r@ == rejection_view(limit),
{
    broadcast use object_view;

    let mut info: StringMap<Json> = StringMap::new();
    info.insert("reason".to_owned(), Json::text("connection limit reached"));
    proof {
        assert(info@ =~= seq![("reason"@, JsonView::Text("connection limit reached"@))]);
    }
    info.insert("limit".to_owned(), Json::Number(JsonNumber::PosInt(limit as u64)));
    WsEnvelope::service("connection", "connect_rejected", None, Json::Object(info))
}

/// Whether a client is let in.
#[derive(Debug)]
pub enum Admission {
    /// The client is let in under this number.
    Admitted(u64),
    /// There are too many clients; the message to this one.
    Rejected(WsEnvelope),
}

/// The server: its settings, and the connections that there are.
#[derive(Debug)]
pub struct WsServer {
    pub listen_addr: String,
    pub workflow_configs: StringMap<WorkflowConfig>,
    pub config: WsServerConfig,
    /// The connections that were let in and are not over.
    pub slots_in_use: usize,
    /// The connections that have a workflow.
    pub active: Vec<u64>,
}

/// The numbers of connections, which all servers of a process share.
#[derive(Debug)]
pub struct ConnectionIds {
    /// The number of the next connection.
    pub next: u64,
}

impl ConnectionIds {
    /// Numbers from one on.
    pub fn new() -> (r: ConnectionIds)
        ensures
            r.next == 1,
    {
        ConnectionIds { next: 1 }
    }

    /// The next number.
    pub fn take(&mut self) -> (r: u64)
        ensures
            r == old(self).next,
            final(self).next == crate::workflow::next_count(old(self).next),
    {
        let id: u64 = self.next;
        self.next = self.next.wrapping_add(1);
        id
    }
}

impl WsServer {
    /// No more connections than the limit are let in at a time, and the limit lets
    /// at least one in.
    pub open spec fn wf(self) -> bool {
        &&& self.config.max_concurrent_connections > 0
        &&& self.slots_in_use <= self.config.max_concurrent_connections
    }

    /// A server with the usual settings.
    pub fn new(listen_addr: &str, configs: StringMap<WorkflowConfig>) -> (r: Result<
        WsServer,
        WorkflowError,
    >)
        ensures
            r is Ok,
            r->Ok_0.wf(),
            r->Ok_0.listen_addr@ == listen_addr@,
            r->Ok_0.workflow_configs == configs,
            r->Ok_0.config.max_concurrent_connections == 100,
            r->Ok_0.slots_in_use == 0,
            r->Ok_0.active@.len() == 0,
    {
        Self::new_with_config(listen_addr, configs, WsServerConfig::default())
    }

    /// A server with the given settings; a limit of zero is refused.
    pub fn new_with_config(
        listen_addr: &str,
        configs: StringMap<WorkflowConfig>,
        config: WsServerConfig,
    ) -> (r: Result<WsServer, WorkflowError>)
        ensures
            match r {
                Ok(s) => {
                    &&& config.max_concurrent_connections > 0
                    &&& s.wf()
                    &&& s.listen_addr@ == listen_addr@
                    &&& s.workflow_configs == configs
                    &&& s.config == config
                    &&& s.slots_in_use == 0
                    &&& s.active@.len() == 0
                },
                Err(e) => config.max_concurrent_connections == 0 && e@ == ErrorView::ConfigError(
                    "max_concurrent_connections must be greater than zero"@,
                ),
            },
    {
        if config.max_concurrent_connections == 0 {
            return Err(
                WorkflowError::ConfigError(
                    "max_concurrent_connections must be greater than zero".to_owned(),
                ),
            );
        }
        Ok(
            WsServer {
                listen_addr: listen_addr.to_owned(),
                workflow_configs: configs,
                config,
                slots_in_use: 0,
                active: Vec::new(),
            },
        )
    }

    /// How many connections have a workflow.
    pub fn active_connection_count(&self) -> (r: usize)
        ensures
            r == self.active@.len(),
    {
        self.active.len()
    }

    /// Lets a client in, or says why not. Only a client that is let in takes a number.
    pub fn start(&mut self, ids: &mut ConnectionIds) -> (r: Admission)
        requires
            old(self).wf(),
        ensures
            final(self).wf(),
            match r {
                Admission::Admitted(id) => {
                    &&& old(self).slots_in_use < old(self).config.max_concurrent_connections
                    &&& id == old(ids).next
                    &&& final(ids).next == crate::workflow::next_count(old(ids).next)
                    &&& *final(self) == (WsServer {
                        slots_in_use: (old(self).slots_in_use + 1) as usize,
                        ..*old(self)
                    })
                },
                Admission::Rejected(e) => {
                    &&& old(self).slots_in_use == old(self).config.max_concurrent_connections
                    &&& e@ == rejection_view(old(self).config.max_concurrent_connections)
                    &&& *final(self) == *old(self)
                    &&& *final(ids) == *old(ids)
                },
            },
    {
        if self.slots_in_use < self.config.max_concurrent_connections {
            self.slots_in_use = self.slots_in_use + 1;
            Admission::Admitted(ids.take())
        } else {
            Admission::Rejected(reject_over_limit(self.config.max_concurrent_connections))
        }
    }

    /// Gives the place of a connection that is over back.
    pub fn release(&mut self)
        requires
            old(self).wf(),
            old(self).slots_in_use > 0,
        ensures
            final(self).wf(),
            *final(self) == (WsServer {
                slots_in_use: (old(self).slots_in_use - 1) as usize,
                ..*old(self)
            }),
    {
        self.slots_in_use = self.slots_in_use - 1;
    }

    /// Notes that a connection has a workflow.
    pub fn begin_connection(&mut self, id: u64)
        ensures
            final(self).active@ == old(self).active@.push(id),
            *final(self) == (WsServer { active: final(self).active, ..*old(self) }),
    {
        self.active.push(id);
    }

    /// Ends a connection: what waits in its workflow is cancelled, and the
    /// connection no longer counts.
    pub fn process_connection(&mut self, id: u64, workflow: &mut WorkFlow)
        ensures
            final(self).active@ == without(old(self).active@, id),
            *final(self) == (WsServer { active: final(self).active, ..*old(self) }),
            final(workflow)@ == old(workflow)@.cancel_inactive(),
    {
        let _ = workflow.cancel_all_inactive_nodes();
        let ghost all = self.active@;
        let mut kept: Vec<u64> = Vec::new();
        let mut i: usize = 0;
        proof {
            assert(all.take(0) =~= Seq::empty());
        }
        while i < self.active.len()
            invariant
                i <= all.len(),
                all == self.active@,
                *self == *old(self),
                kept@ == without(all.take(i as int), id),
            decreases all.len() - i,
        {
            proof {
                assert(all.take(i + 1).drop_last() =~= all.take(i as int));
                assert(all.take(i + 1).last() == all[i as int]);
            }
            if self.active[i] != id {
                kept.push(self.active[i]);
            }
            i = i + 1;
        }
        proof {
            assert(all.take(i as int) =~= all);
        }
        self.active = kept;
    }
}

/// A list of numbers without one of them.
pub open spec fn without(ids: Seq<u64>, id: u64) -> Seq<u64>
    decreases ids.len(),
{
    if ids.len() == 0 {
        ids
    } else if ids.last() == id {
        without(ids.drop_last(), id)
    } else {
        without(ids.drop_last(), id).push(ids.last())
    }
}

/// The workflow that a path names: the path without the slashes at its sides.
pub open spec fn endpoint_of(path: Seq<char>) -> Result<Seq<char>, ErrorView> {
    let endpoint = trim_text(path, Trimmed::Slash);
    if endpoint.len() == 0 {
        Err(ErrorView::ConfigError("websocket URL must include a workflow endpoint"@))
    } else {
        Ok(endpoint)
    }
}

/// The workflow that the path of a connection names.
pub fn accept_with_endpoint(path: &str) -> (r: Result<String, WorkflowError>)
    ensures
        crate::error::result_view(r) == endpoint_of(path@),
{
    let endpoint = trim(path, Trimmed::Slash);
    proof {
        reveal_strlit("");
        if endpoint@.len() == 0 {
            assert(endpoint@ =~= ""@);
        }
    }
    if text_eq(endpoint.as_str(), "") {
        Err(
            WorkflowError::ConfigError(
                "websocket URL must include a workflow endpoint".to_owned(),
            ),
        )
    } else {
        Ok(endpoint)
    }
}

// ---------------------------------------------------------------------------
// The workflow of a connection
// ---------------------------------------------------------------------------

/// The rules of a configuration that are switched on.
pub open spec fn active_sync(c: WorkflowConfigView) -> Option<SyncView> {
    match c.context_sync {
        Some(s) => if s.enabled {
            Some(s)
        } else {
            None
        },
        None => None,
    }
}

/// Builds the workflow that an endpoint names, of the node types that the engine
/// brings along. A workflow whose context is synchronised needs a store.
pub fn build_workflow(
    endpoint: &str,
    configs: &StringMap<WorkflowConfig>,
    has_client: bool,
) -> (r: Result<(WorkFlow, Vec<BuiltinNode>), WorkflowError>)
    ensures
        match assoc(configs@, endpoint@) {
            None => r is Err && r->Err_0@ == ErrorView::ConfigError(
                "workflow endpoint not found: "@ + endpoint@,
            ),
            Some(c) => if active_sync(c) is Some && !has_client {
                r is Err && r->Err_0@ == ErrorView::ConfigError(
                    "context sync is enabled but no client was injected"@,
                )
            } else {
                build_outcome(endpoint@, c, r)
            },
        },
{
    let config = match configs.get(endpoint) {
        None => {
            return Err(
                WorkflowError::ConfigError(cat2("workflow endpoint not found: ", endpoint)),
            );
        },
        Some(config) => config.duplicate(),
    };
    let mut registry: NodeRegistry<BuiltinFactory> = NodeRegistry::new();
    register_builtin_nodes(&mut registry);
    let manager: Option<ContextSyncManager> = match &config.context_sync {
        Some(sync) => {
            if sync.enabled {
                if !has_client {
                    return Err(
                        WorkflowError::ConfigError(
                            "context sync is enabled but no client was injected".to_owned(),
                        ),
                    );
                }
                Some(ContextSyncManager::new(sync.duplicate()))
            } else {
                None
            }
        },
        None => None,
    };
    let ghost c = config@;
    let mut selected: StringMap<WorkflowConfig> = StringMap::new();
    selected.insert(endpoint.to_owned(), config);
    proof {
        crate::string_map::assoc_after_insert(
            Seq::<(Seq<char>, WorkflowConfigView)>::empty(),
            endpoint@,
            c,
            endpoint@,
        );
    }
    let builder = WorkflowBuilder::new(registry, selected);
    let builder = match manager {
        Some(manager) => builder.with_context_sync(manager),
        None => builder,
    };
    builder.build(endpoint)
}

/// What building the workflow of a configuration comes to.
pub open spec fn build_outcome(
    endpoint: Seq<char>,
    c: WorkflowConfigView,
    r: Result<(WorkFlow, Vec<BuiltinNode>), WorkflowError>,
) -> bool {
    let registry = register_each(Seq::empty(), builtin_types());
    match crate::builder::input_types(c.input_parameters, Seq::empty()) {
        Err(e) => r is Err && r->Err_0@ == e,
        Ok(params) => match r {
            Ok((w, nodes)) => {
                &&& crate::builder::nodes_made(
                    registry,
                    c.nodes,
                    crate::workflow::decls_of(nodes@),
                )
                &&& crate::builder::assembled(
                    endpoint,
                    params,
                    c,
                    active_sync(c),
                    None,
                    crate::workflow::decls_of(nodes@),
                ) == Ok::<WorkFlowView, ErrorView>(w@)
            },
            Err(e) => {
                ||| crate::builder::nodes_failed(registry, c.nodes, e@)
                ||| exists|decls: Seq<NodeDecl>| #[trigger]
                    crate::builder::nodes_made(registry, c.nodes, decls)
                        && crate::builder::assembled(
                        endpoint,
                        params,
                        c,
                        active_sync(c),
                        None,
                        decls,
                    ) == Err::<WorkFlowView, ErrorView>(e@)
            },
        },
    }
}

// ---------------------------------------------------------------------------
// Sessions
// ---------------------------------------------------------------------------

/// Where a session stands.
#[derive(Clone, Copy, Debug, PartialEq, Eq, Structural)]
pub enum SessionStage {
    /// Not begun.
    Opening,
    /// Waiting for the first message of the client.
    Greeting,
    /// The answer to the first message is being sent.
    Answering,
    /// The workflow runs.
    Running,
    /// The message that the workflow has finished is being sent.
    Closing,
    /// Over.
    Over,
}

/// A frame from the client.
#[derive(Debug)]
pub enum Frame {
    /// A text that is an envelope.
    Envelope(WsEnvelope),
    /// A text that is no envelope; the wording of the error.
    Invalid(String),
    /// A ping.
    Ping(Vec<u8>),
    /// The client closes the connection, or it ended.
    Closed,
    /// Any other frame.
    Other,
    /// The connection failed; the wording of the error.
    Failed(String),
}

/// How the run of the workflow ended.
#[derive(Debug)]
pub enum TaskEnd {
    /// With its result.
    Ended(Result<(), WorkflowError>),
    /// The task itself failed; the wording of the error.
    Crashed(String),
}

/// What happened to a session.
#[derive(Debug)]
pub enum SessionEvent {
    /// The connection is there.
    Opened,
    /// A frame came.
    Frame(Frame),
    /// The workflow puts a value out, or will put out no more.
    Outbound(Option<Json>),
    /// The run of the workflow ended.
    Finished(TaskEnd),
    /// What was to be sent was sent.
    Sent,
    /// Something could not be sent; the wording of the error.
    SendFailed(String),
}

/// What a session does.
#[derive(Debug)]
pub enum SessionAction {
    /// Send a message.
    Send(WsEnvelope),
    /// Answer a ping.
    Pong(Vec<u8>),
    /// Run the workflow.
    Run,
    /// The session is over, with this result.
    End(Result<(), WorkflowError>),
}

/// What a session does.
#[verifier::ext_equal]
pub enum SessionActionView {
    Send(EnvelopeView),
    Pong(Seq<u8>),
    Run,
    End(Result<(), ErrorView>),
}

impl View for SessionAction {
    type V = SessionActionView;

    open spec fn view(&self) -> SessionActionView {
        match self {
            SessionAction::Send(e) => SessionActionView::Send(e@),
            SessionAction::Pong(p) => SessionActionView::Pong(p@),
            SessionAction::Run => SessionActionView::Run,
            SessionAction::End(r) => SessionActionView::End(unit_view(*r)),
        }
    }
}

/// The views of a list of actions.
pub open spec fn action_views(v: Seq<SessionAction>) -> Seq<SessionActionView> {
    Seq::new(v.len(), |i: int| v[i]@)
}

/// Where a session stands, what its workflow holds, and what it does.
#[verifier::ext_equal]
pub struct SessionView {
    pub stage: SessionStage,
    pub workflow: WorkFlowView,
    pub actions: Seq<SessionActionView>,
}

/// The end of a session.
pub open spec fn session_over(w: WorkFlowView, r: Result<(), ErrorView>) -> SessionView {
    SessionView {
        stage: SessionStage::Over,
        workflow: w,
        actions: seq![SessionActionView::End(r)],
    }
}

/// A session that goes on without doing anything.
pub open spec fn session_idle(stage: SessionStage, w: WorkFlowView) -> SessionView {
    SessionView { stage, workflow: w, actions: Seq::empty() }
}

/// A session that does one thing.
pub open spec fn session_does(
    stage: SessionStage,
    w: WorkFlowView,
    action: SessionActionView,
) -> SessionView {
    SessionView { stage, workflow: w, actions: seq![action] }
}

/// Whether a message begins a session with the workflow.
pub open spec fn is_greeting(endpoint: Seq<char>, e: EnvelopeView) -> bool {
    e.workflow == endpoint && (e.cmd == "init"@ || e.cmd == "init_report"@)
}

/// A session that waits for its first message.
pub open spec fn greeting_step(endpoint: Seq<char>, w: WorkFlowView, frame: Frame) -> SessionView {
    match frame {
        Frame::Envelope(e) => if is_greeting(endpoint, e@) {
            session_does(
                SessionStage::Answering,
                w,
                SessionActionView::Send(
                    service_view(endpoint, "init_ok"@, e.message_id, accepted_view()),
                ),
            )
        } else {
            session_over(w, Err(ErrorView::Other("invalid websocket initialization message"@)))
        },
        Frame::Invalid(e) => session_over(w, Err(json_error_view(e@))),
        Frame::Closed => session_over(
            w,
            Err(ErrorView::Other("websocket closed before initialization"@)),
        ),
        Frame::Failed(e) => session_over(w, Err(ws_error_view(e@))),
        Frame::Ping(_) | Frame::Other => session_idle(SessionStage::Greeting, w),
    }
}

/// The workflow with a context value for each entry of an object.
pub open spec fn with_fields(w: WorkFlowView, fields: Seq<(Seq<char>, JsonView)>) -> WorkFlowView
    decreases fields.len(),
{
    if fields.len() == 0 {
        w
    } else {
        with_fields(w, fields.drop_last()).with_context(fields.last().0, fields.last().1)
    }
}

/// The workflow after one field of a message was taken into its context.
pub open spec fn with_field_of(w: WorkFlowView, info: JsonView, key: Seq<char>) -> WorkFlowView {
    match info.get(key) {
        Some(v) => w.with_context(key, v),
        None => w,
    }
}

/// The workflow after an input: the user, the session and the context that the
/// message brings are taken into the context, and the message is queued.
pub open spec fn take_input(w: WorkFlowView, info: JsonView) -> WorkFlowView {
    let named = with_field_of(with_field_of(w, info, "user_id"@), info, "session_id"@);
    let filled = match info.get("context"@) {
        Some(JsonView::Object(fields)) => with_fields(named, fields),
        _ => named,
    };
    filled.with_message(info)
}

/// A session whose workflow runs gets a frame.
pub open spec fn running_step(w: WorkFlowView, frame: Frame) -> SessionView {
    match frame {
        Frame::Envelope(e) => if e@.message_type == "service"@ && e@.cmd == "send_input"@ {
            session_idle(SessionStage::Running, take_input(w, e@.info))
        } else {
            session_idle(SessionStage::Running, w)
        },
        Frame::Invalid(e) => session_over(w, Err(json_error_view(e@))),
        Frame::Ping(payload) => session_does(
            SessionStage::Running,
            w,
            SessionActionView::Pong(payload@),
        ),
        Frame::Closed => session_over(w, Ok(())),
        Frame::Other => session_idle(SessionStage::Running, w),
        Frame::Failed(e) => session_over(w, Err(ws_error_view(e@))),
    }
}

/// One step of a session.
pub open spec fn session_step(
    stage: SessionStage,
    endpoint: Seq<char>,
    w: WorkFlowView,
    event: SessionEvent,
) -> SessionView {
    match (stage, event) {
        (SessionStage::Over, _) => session_idle(stage, w),
        (_, SessionEvent::SendFailed(e)) => session_over(w, Err(ws_error_view(e@))),
        (SessionStage::Opening, SessionEvent::Opened) => session_does(
            SessionStage::Greeting,
            w,
            SessionActionView::Send(
                service_view(endpoint, "connect_ok"@, Some(0), accepted_view()),
            ),
        ),
        (SessionStage::Greeting, SessionEvent::Frame(frame)) => greeting_step(endpoint, w, frame),
        (SessionStage::Answering, SessionEvent::Sent) => session_does(
            SessionStage::Running,
            w,
            SessionActionView::Run,
        ),
        (SessionStage::Closing, SessionEvent::Sent) => session_over(w, Ok(())),
        (SessionStage::Running, SessionEvent::Frame(frame)) => running_step(w, frame),
        (SessionStage::Running, SessionEvent::Outbound(Some(v))) => session_does(
            stage,
            w,
            SessionActionView::Send(service_view(endpoint, "output"@, None, v@)),
        ),
        (SessionStage::Running, SessionEvent::Outbound(None)) => session_over(w, Ok(())),
        (SessionStage::Running, SessionEvent::Finished(TaskEnd::Crashed(e))) => session_over(
            w,
            Err(ErrorView::Other("workflow task failed: "@ + e@)),
        ),
        (SessionStage::Running, SessionEvent::Finished(TaskEnd::Ended(Err(e)))) => session_over(
            w,
            Err(e@),
        ),
        (SessionStage::Running, SessionEvent::Finished(TaskEnd::Ended(Ok(_)))) => session_does(
            SessionStage::Closing,
            w,
            SessionActionView::Send(
                service_view(
                    endpoint,
                    "workflow_finished"@,
                    None,
                    JsonView::Object(Seq::empty()),
                ),
            ),
        ),
        _ => session_idle(stage, w),
    }
}

fn no_actions() -> (r: Vec<SessionAction>)
    ensures
        action_views(r@) == Seq::<SessionActionView>::empty(),
{
    let v: Vec<SessionAction> = Vec::new();
    proof {
        assert(action_views(v@) =~= Seq::empty());
    }
    v
}

fn one_action(a: SessionAction) -> (r: Vec<SessionAction>)
    ensures
        action_views(r@) == seq![a@],
{
    let mut v: Vec<SessionAction> = Vec::new();
    let ghost view = a@;
    v.push(a);
    proof {
        assert(action_views(v@) =~= seq![view]);
    }
    v
}

/// A session of a client with a workflow.
#[derive(Debug)]
pub struct Session {
    pub endpoint: String,
    pub stage: SessionStage,
}

impl Session {
    /// A session that has not begun.
    pub fn new(endpoint: &str) -> (r: Session)
        ensures
            r.endpoint@ == endpoint@,
            r.stage == SessionStage::Opening,
    {
        Session { endpoint: endpoint.to_owned(), stage: SessionStage::Opening }
    }

    fn over(&mut self, r: Result<(), WorkflowError>) -> (v: Vec<SessionAction>)
        ensures
            final(self).endpoint == old(self).endpoint,
            final(self).stage == SessionStage::Over,
            action_views(v@) == seq![SessionActionView::End(unit_view(r))],
    {
        self.stage = SessionStage::Over;
        one_action(SessionAction::End(r))
    }

    fn greet(&mut self, frame: Frame, Ghost(w): Ghost<WorkFlowView>) -> (v: Vec<SessionAction>)
        requires
            old(self).stage == SessionStage::Greeting,
        ensures
            final(self).endpoint == old(self).endpoint,
            final(self).stage == greeting_step(old(self).endpoint@, w, frame).stage,
            action_views(v@) == greeting_step(old(self).endpoint@, w, frame).actions,
    {
        match frame {
            Frame::Envelope(e) => {
                let known = text_eq(e.cmd.as_str(), "init") || text_eq(
                    e.cmd.as_str(),
                    "init_report",
                );
                if text_eq(e.workflow.as_str(), self.endpoint.as_str()) && known {
                    self.stage = SessionStage::Answering;
                    one_action(
                        SessionAction::Send(
                            WsEnvelope::service(
                                self.endpoint.as_str(),
                                "init_ok",
                                e.message_id,
                                accepted(),
                            ),
                        ),
                    )
                } else {
                    self.over(
                        Err(
                            WorkflowError::Other(
                                "invalid websocket initialization message".to_owned(),
                            ),
                        ),
                    )
                }
            },
            Frame::Invalid(e) => self.over(Err(json_error(e.as_str()))),
            Frame::Closed => self.over(
                Err(WorkflowError::Other("websocket closed before initialization".to_owned())),
            ),
            Frame::Failed(e) => self.over(Err(ws_error(e.as_str()))),
            Frame::Ping(_) => no_actions(),
            Frame::Other => no_actions(),
        }
    }

    fn take_field(workflow: &mut WorkFlow, info: &Json, key: &str)
        ensures
            final(workflow)@ == with_field_of(old(workflow)@, info@, key@),
    {
        if let Some(v) = info.get(key) {
            workflow.set_context(key, v.copy());
        }
    }

    fn take_input(workflow: &mut WorkFlow, info: Json)
        ensures
            final(workflow)@ == take_input(old(workflow)@, info@),
    {
        broadcast use object_view;

        Self::take_field(workflow, &info, "user_id");
        Self::take_field(workflow, &info, "session_id");
        if let Some(Json::Object(fields)) = info.get("context") {
            let ghost start = workflow@;
            let ghost all = fields@;
            let mut i: usize = 0;
            proof {
                assert(all.take(0) =~= Seq::empty());
            }
            while i < fields.len()
                invariant
                    i <= all.len(),
                    all == fields@,
                    workflow@ == with_fields(start, all.take(i as int)),
                decreases all.len() - i,
            {
                proof {
                    assert(all.take(i + 1).drop_last() =~= all.take(i as int));
                    assert(all.take(i + 1).last() == all[i as int]);
                }
                workflow.set_context(fields.key_at(i), fields.value_at(i).copy());
                i = i + 1;
            }
            proof {
                assert(all.take(i as int) =~= all);
            }
        }
        let _ = workflow.add_message(info);
    }

    fn running(&mut self, workflow: &mut WorkFlow, frame: Frame) -> (v: Vec<SessionAction>)
        requires
            old(self).stage == SessionStage::Running,
        ensures
            final(self).endpoint == old(self).endpoint,
            final(self).stage == running_step(old(workflow)@, frame).stage,
            final(workflow)@ == running_step(old(workflow)@, frame).workflow,
            action_views(v@) == running_step(old(workflow)@, frame).actions,
    {
        match frame {
            Frame::Envelope(e) => {
                if text_eq(e.message_type.as_str(), "service") && text_eq(
                    e.cmd.as_str(),
                    "send_input",
                ) {
                    Self::take_input(workflow, e.info);
                }
                no_actions()
            },
            Frame::Invalid(e) => self.over(Err(json_error(e.as_str()))),
            Frame::Ping(payload) => one_action(SessionAction::Pong(payload)),
            Frame::Closed => self.over(Ok(())),
            Frame::Other => no_actions(),
            Frame::Failed(e) => self.over(Err(ws_error(e.as_str()))),
        }
    }

    /// Takes what happened to the session and says what it does, in order.
    pub fn run_socket(&mut self, workflow: &mut WorkFlow, event: SessionEvent) -> (v: Vec<
        SessionAction,
    >)
        ensures
            ({
                let s = session_step(
                    old(self).stage,
                    old(self).endpoint@,
                    old(workflow)@,
                    event,
                );
                &&& final(self).endpoint == old(self).endpoint
                &&& final(self).stage == s.stage
                &&& final(workflow)@ == s.workflow
                &&& action_views(v@) == s.actions
            }),
    {
        broadcast use object_view;

        match self.stage {
            SessionStage::Over => no_actions(),
            SessionStage::Opening => match event {
                SessionEvent::SendFailed(e) => self.over(Err(ws_error(e.as_str()))),
                SessionEvent::Opened => {
                    self.stage = SessionStage::Greeting;
                    one_action(
                        SessionAction::Send(
                            WsEnvelope::service(
                                self.endpoint.as_str(),
                                "connect_ok",
                                Some(0),
                                accepted(),
                            ),
                        ),
                    )
                },
                _ => no_actions(),
            },
            SessionStage::Greeting => match event {
                SessionEvent::SendFailed(e) => self.over(Err(ws_error(e.as_str()))),
                SessionEvent::Frame(frame) => self.greet(frame, Ghost(workflow@)),
                _ => no_actions(),
            },
            SessionStage::Answering => match event {
                SessionEvent::SendFailed(e) => self.over(Err(ws_error(e.as_str()))),
                SessionEvent::Sent => {
                    self.stage = SessionStage::Running;
                    one_action(SessionAction::Run)
                },
                _ => no_actions(),
            },
            SessionStage::Closing => match event {
                SessionEvent::SendFailed(e) => self.over(Err(ws_error(e.as_str()))),
                SessionEvent::Sent => self.over(Ok(())),
                _ => no_actions(),
            },
            SessionStage::Running => match event {
                SessionEvent::SendFailed(e) => self.over(Err(ws_error(e.as_str()))),
                SessionEvent::Frame(frame) => self.running(workflow, frame),
                SessionEvent::Outbound(Some(v)) => one_action(
                    SessionAction::Send(
                        WsEnvelope::service(self.endpoint.as_str(), "output", None, v),
                    ),
                ),
                SessionEvent::Outbound(None) => self.over(Ok(())),
                SessionEvent::Finished(TaskEnd::Crashed(e)) => self.over(
                    Err(WorkflowError::Other(cat2("workflow task failed: ", e.as_str()))),
                ),
                SessionEvent::Finished(TaskEnd::Ended(Err(e))) => self.over(Err(e)),
                SessionEvent::Finished(TaskEnd::Ended(Ok(_))) => {
                    self.stage = SessionStage::Closing;
                    let empty: StringMap<Json> = StringMap::new();
                    one_action(
                        SessionAction::Send(
                            WsEnvelope::service(
                                self.endpoint.as_str(),
                                "workflow_finished",
                                None,
                                Json::Object(empty),
                            ),
                        ),
                    )
                },
                SessionEvent::Opened => no_actions(),
                SessionEvent::Sent => no_actions(),
            },
        }
    }
}

// ---------------------------------------------------------------------------
// Laws
// ---------------------------------------------------------------------------

/// The workflow of a session does not run before the client has begun the session
/// with it: it is run by the step that takes note that the answer to the greeting was
/// sent, and a session comes to send that answer only by the greeting.
pub proof fn workflow_runs_only_after_the_greeting(
    stage: SessionStage,
    endpoint: Seq<char>,
    w: WorkFlowView,
    event: SessionEvent,
)
    ensures
        session_step(stage, endpoint, w, event).actions.contains(SessionActionView::Run) ==> stage
            == SessionStage::Answering && event is Sent,
        session_step(stage, endpoint, w, event).stage == SessionStage::Running ==> stage
            == SessionStage::Running || (stage == SessionStage::Answering && event is Sent),
        session_step(stage, endpoint, w, event).stage == SessionStage::Answering ==> stage
            == SessionStage::Answering || (stage == SessionStage::Greeting && (event matches
            SessionEvent::Frame(Frame::Envelope(e)) && is_greeting(endpoint, e@))),
{
    let actions = session_step(stage, endpoint, w, event).actions;
    if actions.contains(SessionActionView::Run) {
        let i = choose|i: int| 0 <= i < actions.len() && actions[i] == SessionActionView::Run;
        assert(actions[i] is Run);
    }
}

/// A send that fails ends the session with its error, whatever the session was about,
/// the last message too; and a session ends well only after the last message was sent,
/// or where the client or the workflow's channel has closed.
pub proof fn failed_send_ends_the_session(
    stage: SessionStage,
    endpoint: Seq<char>,
    w: WorkFlowView,
    text: String,
    event: SessionEvent,
)
    requires
        stage != SessionStage::Over,
    ensures
        session_step(stage, endpoint, w, SessionEvent::SendFailed(text)) == session_over(
            w,
            Err(ws_error_view(text@)),
        ),
        session_step(stage, endpoint, w, event).actions.contains(SessionActionView::End(Ok(())))
            ==> (stage == SessionStage::Closing && event is Sent) || (stage
            == SessionStage::Running && (event == SessionEvent::Frame(Frame::Closed) || event
            == SessionEvent::Outbound(None))),
{
    let actions = session_step(stage, endpoint, w, event).actions;
    if actions.contains(SessionActionView::End(Ok(()))) {
        let i = choose|i: int|
            0 <= i < actions.len() && actions[i] == SessionActionView::End(Ok(()));
        assert(actions[i] is End);
    }
}

/// A session that is over stays over, and neither does anything nor touches the workflow.
pub proof fn session_that_is_over_stays_over(
    endpoint: Seq<char>,
    w: WorkFlowView,
    event: SessionEvent,
)
    ensures
        session_step(SessionStage::Over, endpoint, w, event) == session_idle(
            SessionStage::Over,
            w,
        ),
{
}

/// An input is queued as it came, after the messages that were there.
pub proof fn input_is_queued(w: WorkFlowView, info: JsonView)
    ensures
        take_input(w, info).messages == w.messages.push(info),
{
    if info.get("context"@) is Some {
        if let JsonView::Object(fields) = info.get("context"@)->0 {
            fields_change_context_only(
                with_field_of(with_field_of(w, info, "user_id"@), info, "session_id"@),
                fields,
            );
        }
    }
}

proof fn fields_change_context_only(w: WorkFlowView, fields: Seq<(Seq<char>, JsonView)>)
    ensures
        with_fields(w, fields) == (WorkFlowView { context: with_fields(w, fields).context, ..w }),
    decreases fields.len(),
{
    if fields.len() > 0 {
        fields_change_context_only(w, fields.drop_last());
    }
}

/// An input fills the context: each entry of its context object stands there under its
/// key, and its user and its session stand there under theirs unless the context object
/// has them too; every other key keeps what it had, and nothing else of the workflow
/// changes but that the input is queued.
pub proof fn input_fills_the_context(w: WorkFlowView, info: JsonView, key: Seq<char>)
    requires
        json_wf(info),
    ensures
        ({
            let after = take_input(w, info);
            let given = match info.get("context"@) {
                Some(context) => context.get(key),
                None => None,
            };
            &&& given is Some ==> assoc(after.context, key) == given
            &&& given is None && (key == "user_id"@ || key == "session_id"@) && info.get(key)
                is Some ==> assoc(after.context, key) == info.get(key)
            &&& given is None && !((key == "user_id"@ || key == "session_id"@) && info.get(key)
                is Some) ==> assoc(after.context, key) == assoc(w.context, key)
            &&& after.messages == w.messages.push(info)
            &&& after.outbox == w.outbox.push(EffectView::Queued)
            &&& after == (WorkFlowView {
                context: after.context,
                messages: after.messages,
                outbox: after.outbox,
                ..w
            })
        }),
{
    reveal_strlit("user_id");
    reveal_strlit("session_id");
    assert("user_id"@.len() != "session_id"@.len());
    let first = with_field_of(w, info, "user_id"@);
    let named = with_field_of(first, info, "session_id"@);
    if let Some(v) = info.get("user_id"@) {
        assoc_after_insert(w.context, "user_id"@, v, key);
    }
    if let Some(v) = info.get("session_id"@) {
        assoc_after_insert(first.context, "session_id"@, v, key);
    }
    if let Some(JsonView::Object(fields)) = info.get("context"@) {
        entry_is_described(info, "context"@);
        fields_change_context_only(named, fields);
        fields_are_in_the_context(named, fields, key);
    }
}

proof fn entry_is_described(v: JsonView, key: Seq<char>)
    requires
        json_wf(v),
        v.get(key) is Some,
    ensures
        json_wf(v.get(key)->0),
{
    let m = v->Object_0;
    assoc_some_iff(m, key);
    let i = choose|i: int| 0 <= i < m.len() && (#[trigger] m[i]).0 == key;
    assoc_of_entry(m, i);
}

proof fn fields_are_in_the_context(
    w: WorkFlowView,
    fields: Seq<(Seq<char>, JsonView)>,
    key: Seq<char>,
)
    requires
        sorted(fields),
    ensures
        assoc(with_fields(w, fields).context, key) == (match assoc(fields, key) {
            Some(v) => Some(v),
            None => assoc(w.context, key),
        }),
    decreases fields.len(),
{
    if fields.len() > 0 {
        let front = fields.drop_last();
        let last = fields.last();
        assert forall|i: int, j: int| 0 <= i < j < front.len() implies text_less(
            #[trigger] front[i].0,
            #[trigger] front[j].0,
        ) by {
            assert(text_less(fields[i].0, fields[j].0));
        }
        fields_are_in_the_context(w, front, key);
        assoc_after_insert(with_fields(w, front).context, last.0, last.1, key);
        assoc_some_iff(fields, key);
        assoc_some_iff(front, key);
        if assoc(fields, key) is Some {
            let i = choose|i: int| 0 <= i < fields.len() && (#[trigger] fields[i]).0 == key;
            assoc_of_entry(fields, i);
            if i < front.len() {
                assert(front[i] == fields[i]);
                assoc_of_entry(front, i);
                assert(text_less(fields[i].0, fields[fields.len() - 1].0));
                text_less_irreflexive(key);
            }
            if last.0 == key {
                assoc_of_entry(fields, fields.len() - 1);
            }
        } else {
            assert(fields[fields.len() - 1].0 != key);
            if assoc(front, key) is Some {
                let i = choose|i: int| 0 <= i < front.len() && (#[trigger] front[i]).0 == key;
                assert(fields[i].0 == key);
            }
        }
    }
}

/// The workflow of a session is touched by one kind of event alone: a message of the
/// client, while the workflow runs, that is a service message with an input. Such a
/// message is taken in as it came, with nothing sent for it, and the session goes on.
pub proof fn only_inputs_touch_the_workflow(
    stage: SessionStage,
    endpoint: Seq<char>,
    w: WorkFlowView,
    event: SessionEvent,
)
    ensures
        ({
            let s = session_step(stage, endpoint, w, event);
            let input = stage == SessionStage::Running && (event matches SessionEvent::Frame(
                Frame::Envelope(e),
            ) && e@.message_type == "service"@ && e@.cmd == "send_input"@);
            &&& !input ==> s.workflow == w
            &&& input ==> s.workflow == take_input(
                w,
                (event->Frame_0)->Envelope_0@.info,
            ) && s.actions.len() == 0 && s.stage == SessionStage::Running
        }),
{
}

/// What the client is sent, message by message: the welcome when the connection is there,
/// the answer to the greeting under the number of the greeting, each value that the
/// workflow puts out, and the news that the workflow has finished. All of them are
/// service messages that name the workflow, and no other event sends one.
pub proof fn client_is_told_what_happens(
    stage: SessionStage,
    endpoint: Seq<char>,
    w: WorkFlowView,
    event: SessionEvent,
    message: EnvelopeView,
)
    ensures
        ({
            let actions = session_step(stage, endpoint, w, event).actions;
            let yes = JsonView::Object(seq![("accepted"@, JsonView::Bool(true))]);
            actions.contains(SessionActionView::Send(message)) <==> {
                &&& actions.len() == 1
                &&& message.message_type == "service"@
                &&& message.workflow == endpoint
                &&& message.resource is None
                &&& {
                    ||| stage == SessionStage::Opening && event is Opened && message.cmd
                        == "connect_ok"@ && message.message_id == Some(0u64) && message.info == yes
                    ||| stage == SessionStage::Greeting && (event matches SessionEvent::Frame(
                        Frame::Envelope(e),
                    ) && e.workflow@ == endpoint && (e.cmd@ == "init"@ || e.cmd@
                        == "init_report"@) && message.cmd == "init_ok"@ && message.message_id
                        == e.message_id && message.info == yes)
                    ||| stage == SessionStage::Running && (event matches SessionEvent::Outbound(
                        Some(v),
                    ) && message.cmd == "output"@ && message.message_id is None && message.info
                        == v@)
                    ||| stage == SessionStage::Running && (event matches SessionEvent::Finished(
                        TaskEnd::Ended(Ok(_)),
                    ) && message.cmd == "workflow_finished"@ && message.message_id is None
                        && message.info == JsonView::Object(Seq::empty()))
                }
            }
        }),
{
    let actions = session_step(stage, endpoint, w, event).actions;
    assert(actions.len() <= 1);
    if actions.contains(SessionActionView::Send(message)) {
        let i = choose|i: int| 0 <= i < actions.len() && actions[i] == SessionActionView::Send(message);
        assert(actions[i] == SessionActionView::Send(message));
        assert(i == 0);
    }
    if actions.len() == 1 && actions[0] is Send {
        let sent = actions[0]->Send_0;
        if sent.message_type == message.message_type && sent.workflow == message.workflow
            && sent.cmd == message.cmd && sent.message_id == message.message_id && sent.info
            == message.info && sent.resource == message.resource {
            assert(sent == message);
            assert(actions.contains(actions[0]));
        }
    }
}

/// A ping is answered with its own payload while the workflow runs, and at no other time.
pub proof fn pings_are_answered(
    stage: SessionStage,
    endpoint: Seq<char>,
    w: WorkFlowView,
    event: SessionEvent,
    payload: Seq<u8>,
)
    ensures
        session_step(stage, endpoint, w, event).actions.contains(SessionActionView::Pong(payload))
            <==> stage == SessionStage::Running && (event matches SessionEvent::Frame(
            Frame::Ping(p),
        ) && p@ == payload),
{
    let actions = session_step(stage, endpoint, w, event).actions;
    if actions.contains(SessionActionView::Pong(payload)) {
        let i = choose|i: int| 0 <= i < actions.len() && actions[i] == SessionActionView::Pong(payload);
        assert(actions[i] is Pong);
    }
    if stage == SessionStage::Running && (event matches SessionEvent::Frame(Frame::Ping(p)) && p@
        == payload) {
        assert(actions[0] == SessionActionView::Pong(payload));
        assert(actions.contains(actions[0]));
    }
}

/// Why a session ends, and with what: a failed send, a message that is no envelope, a
/// wrong greeting or none, a connection that failed, a run that failed or crashed end it
/// with an error; a client that leaves, a workflow that puts out no more, and the last
/// message sent end it well. A session that does not end goes on.
pub proof fn session_ends_for_a_reason(
    stage: SessionStage,
    endpoint: Seq<char>,
    w: WorkFlowView,
    event: SessionEvent,
)
    requires
        stage != SessionStage::Over,
    ensures
        ({
            let s = session_step(stage, endpoint, w, event);
            let hearing = stage == SessionStage::Greeting || stage == SessionStage::Running;
            let well = {
                ||| stage == SessionStage::Closing && event is Sent
                ||| stage == SessionStage::Running && event == SessionEvent::Frame(Frame::Closed)
                ||| stage == SessionStage::Running && event == SessionEvent::Outbound(None)
            };
            let failed: Option<ErrorView> = match event {
                SessionEvent::SendFailed(e) => Some(
                    ErrorView::Other("websocket error: "@ + e@),
                ),
                SessionEvent::Frame(Frame::Failed(e)) if hearing => Some(
                    ErrorView::Other("websocket error: "@ + e@),
                ),
                SessionEvent::Frame(Frame::Invalid(e)) if hearing => Some(
                    ErrorView::Other("invalid websocket payload: "@ + e@),
                ),
                SessionEvent::Frame(Frame::Closed) if stage == SessionStage::Greeting => Some(
                    ErrorView::Other("websocket closed before initialization"@),
                ),
                SessionEvent::Frame(Frame::Envelope(e)) if stage == SessionStage::Greeting && !(
                e.workflow@ == endpoint && (e.cmd@ == "init"@ || e.cmd@ == "init_report"@)) => Some(
                    ErrorView::Other("invalid websocket initialization message"@),
                ),
                SessionEvent::Finished(TaskEnd::Crashed(e)) if stage == SessionStage::Running =>
                Some(ErrorView::Other("workflow task failed: "@ + e@)),
                SessionEvent::Finished(TaskEnd::Ended(Err(e))) if stage
                    == SessionStage::Running => Some(e@),
                _ => None,
            };
            &&& s.stage == SessionStage::Over <==> well || failed is Some
            &&& well ==> s.actions == seq![SessionActionView::End(Ok(()))]
            &&& failed is Some ==> s.actions == seq![SessionActionView::End(Err(failed->0))]
            &&& !well && failed is None ==> s.actions.len() <= 1 && (s.actions.len() == 1 ==> !(
            s.actions[0] is End))
        }),
{
}

/// A session goes from stage to stage in order: it waits for the greeting once the
/// connection is there, answers a greeting, runs once the answer was sent, and closes once
/// the run has ended well. Everything else that does not end it leaves it where it is.
pub proof fn session_goes_from_stage_to_stage(
    stage: SessionStage,
    endpoint: Seq<char>,
    w: WorkFlowView,
    event: SessionEvent,
)
    ensures
        ({
            let s = session_step(stage, endpoint, w, event);
            let opened = stage == SessionStage::Opening && event is Opened;
            let greeted = stage == SessionStage::Greeting && (event matches SessionEvent::Frame(
                Frame::Envelope(e),
            ) && e.workflow@ == endpoint && (e.cmd@ == "init"@ || e.cmd@ == "init_report"@));
            let answered = stage == SessionStage::Answering && event is Sent;
            let finished = stage == SessionStage::Running && (event matches SessionEvent::Finished(
                TaskEnd::Ended(Ok(_)),
            ));
            &&& opened ==> s.stage == SessionStage::Greeting
            &&& greeted ==> s.stage == SessionStage::Answering
            &&& answered ==> s.stage == SessionStage::Running && s.actions
                == seq![SessionActionView::Run]
            &&& finished ==> s.stage == SessionStage::Closing
            &&& !opened && !greeted && !answered && !finished ==> s.stage == stage || s.stage
                == SessionStage::Over
        }),
{
}

/// A client that is not let in is told so in a service message on its connection, with
/// the reason and the limit.
pub proof fn rejection_names_the_limit(limit: usize)
    ensures
        rejection_view(limit).message_type == "service"@,
        rejection_view(limit).workflow == "connection"@,
        rejection_view(limit).cmd == "connect_rejected"@,
        rejection_view(limit).message_id is None,
        rejection_view(limit).resource is None,
        rejection_view(limit).info.get("limit"@) == Some(
            JsonView::Number(NumberView::PosInt(limit as u64)),
        ),
        rejection_view(limit).info.get("reason"@) == Some(
            JsonView::Text("connection limit reached"@),
        ),
        rejection_view(limit).info->Object_0.len() == 2,
{
    reveal_strlit("limit");
    reveal_strlit("reason");
    assert("limit"@.len() != "reason"@.len());
    let m = seq![("reason"@, JsonView::Text("connection limit reached"@))];
    let v = JsonView::Number(NumberView::PosInt(limit as u64));
    assoc_after_insert(m, "limit"@, v, "limit"@);
    assoc_after_insert(m, "limit"@, v, "reason"@);
    reveal_with_fuel(assoc_insert, 3);
}

/// A message is written as an object of its fields in order, where a number or a resource
/// that is not there has no field.
pub proof fn message_is_written_field_by_field(e: EnvelopeView)
    ensures
        ({
            let head = seq![
                "\"type\":"@ + json_writing(JsonView::Text(e.message_type)),
                "\"workflow\":"@ + json_writing(JsonView::Text(e.workflow)),
                "\"cmd\":"@ + json_writing(JsonView::Text(e.cmd)),
            ];
            let numbered = if e.message_id is Some {
                head.push("\"message_id\":"@ + decimal(e.message_id->0 as nat))
            } else {
                head
            };
            let informed = numbered.push("\"info\":"@ + json_writing(e.info));
            let fields = if e.resource is Some {
                informed.push("\"resource\":"@ + json_writing(e.resource->0))
            } else {
                informed
            };
            envelope_text(e) == "{"@ + join_text(fields, ","@) + "}"@
        }),
{
    reveal_strlit("{");
    reveal_strlit(",");
    reveal_strlit("{\"type\":");
    reveal_strlit("\"type\":");
    reveal_strlit(",\"workflow\":");
    reveal_strlit("\"workflow\":");
    reveal_strlit(",\"cmd\":");
    reveal_strlit("\"cmd\":");
    reveal_strlit(",\"message_id\":");
    reveal_strlit("\"message_id\":");
    reveal_strlit(",\"info\":");
    reveal_strlit("\"info\":");
    reveal_strlit(",\"resource\":");
    reveal_strlit("\"resource\":");
    assert("{\"type\":"@ =~= "{"@ + "\"type\":"@);
    assert(",\"workflow\":"@ =~= ","@ + "\"workflow\":"@);
    assert(",\"cmd\":"@ =~= ","@ + "\"cmd\":"@);
    assert(",\"message_id\":"@ =~= ","@ + "\"message_id\":"@);
    assert(",\"info\":"@ =~= ","@ + "\"info\":"@);
    assert(",\"resource\":"@ =~= ","@ + "\"resource\":"@);
    let a = "\"type\":"@ + json_writing(JsonView::Text(e.message_type));
    let b = "\"workflow\":"@ + json_writing(JsonView::Text(e.workflow));
    let c = "\"cmd\":"@ + json_writing(JsonView::Text(e.cmd));
    let head = seq![a, b, c];
    let sep = ","@;
    joined_one_more(Seq::empty(), a, sep);
    joined_one_more(seq![a], b, sep);
    joined_one_more(seq![a, b], c, sep);
    assert(Seq::empty().push(a) =~= seq![a]);
    assert(seq![a].push(b) =~= seq![a, b]);
    assert(seq![a, b].push(c) =~= head);
    let numbered = if e.message_id is Some {
        let d = "\"message_id\":"@ + decimal(e.message_id->0 as nat);
        joined_one_more(head, d, sep);
        head.push(d)
    } else {
        head
    };
    let i = "\"info\":"@ + json_writing(e.info);
    joined_one_more(numbered, i, sep);
    let informed = numbered.push(i);
    let fields = if e.resource is Some {
        let r = "\"resource\":"@ + json_writing(e.resource->0);
        joined_one_more(informed, r, sep);
        informed.push(r)
    } else {
        informed
    };
    assert(envelope_text(e) =~= "{"@ + join_text(fields, ","@) + "}"@);
}

proof fn joined_one_more(parts: Seq<Seq<char>>, part: Seq<char>, sep: Seq<char>)
    ensures
        join_text(parts.push(part), sep) == (if parts.len() == 0 {
            part
        } else {
            join_text(parts, sep) + sep + part
        }),
{
    assert(parts.push(part).drop_last() =~= parts);
    assert(parts.push(part).last() == part);
}

/// A text for a log has at most so many characters and three dots more: a text that is no
/// longer is kept, and one that is keeps its beginning.
pub proof fn logged_text_is_short(s: Seq<char>)
    ensures
        s.len() <= 512 ==> truncated(s) == s,
        s.len() > 512 ==> truncated(s).len() == 515 && truncated(s).skip(512) == "..."@,
        forall|i: int| 0 <= i < 512 && i < s.len() ==> truncated(s)[i] == #[trigger] s[i],
{
    reveal_strlit("...");
    if s.len() > 512 {
        assert(truncated(s).skip(512) =~= "..."@);
    }
}

/// A connection that is over is no longer among the active ones, and the others stay, in
/// their order.
pub proof fn other_connections_stay(a: Seq<u64>, b: Seq<u64>, id: u64, other: u64)
    ensures
        !without(a, id).contains(id),
        other != id ==> (without(a, id).contains(other) <==> a.contains(other)),
        without(a + b, id) == without(a, id) + without(b, id),
        other != id ==> without(seq![other], id) == seq![other],
    decreases a.len() + b.len(),
{
    if b.len() > 0 {
        other_connections_stay(a, b.drop_last(), id, other);
        assert((a + b).drop_last() =~= a + b.drop_last());
        assert((a + b).last() == b.last());
        assert(without(a + b, id) =~= without(a, id) + without(b, id));
    } else {
        assert(a + b =~= a);
        assert(without(a, id) + without(b, id) =~= without(a, id));
        if a.len() > 0 {
            let front = a.drop_last();
            let kept = without(front, id);
            other_connections_stay(front, b, id, other);
            assert(a =~= front.push(a.last()));
            if a.last() != id {
                assert(forall|x: u64| kept.push(a.last()).contains(x) ==> kept.contains(x) || x
                    == a.last());
                if kept.contains(other) {
                    let i = choose|i: int| 0 <= i < kept.len() && kept[i] == other;
                    assert(kept.push(a.last())[i] == other);
                }
                assert(kept.push(a.last())[kept.len() as int] == a.last());
            }
            if front.contains(other) {
                let i = choose|i: int| 0 <= i < front.len() && front[i] == other;
                assert(a[i] == other);
            }
            if a.contains(other) && a.last() != other {
                let i = choose|i: int| 0 <= i < a.len() && a[i] == other;
                assert(front[i] == other);
            }
            assert(a[a.len() - 1] == a.last());
        }
    }
    reveal_with_fuel(without, 2);
    assert(seq![other].drop_last() =~= Seq::empty());
    assert(Seq::<u64>::empty().push(other) =~= seq![other]);
}

/// A path names the workflow that stands between the slashes at its sides; a path of
/// slashes alone names none.
pub proof fn path_names_its_endpoint(path: Seq<char>)
    ensures
        endpoint_of(path) is Err <==> forall|i: int|
            0 <= i < path.len() ==> #[trigger] path[i] == '/',
        endpoint_of(path) matches Ok(e) ==> {
            &&& e.len() > 0 && e[0] != '/' && e.last() != '/'
            &&& exists|a: Seq<char>, b: Seq<char>|
                path == #[trigger] (a + e + b) && (forall|i: int|
                    0 <= i < a.len() ==> #[trigger] a[i] == '/') && (forall|i: int|
                    0 <= i < b.len() ==> #[trigger] b[i] == '/')
        },
        endpoint_of(path) matches Err(e) ==> e == ErrorView::ConfigError(
            "websocket URL must include a workflow endpoint"@,
        ),
{
    let e = trim_text(path, Trimmed::Slash);
    trimming_takes_off_the_sides(path, Trimmed::Slash);
    trimmed_sides(path, Trimmed::Slash);
    let (a, b) = choose|a: Seq<char>, b: Seq<char>|
        path == #[trigger] (a + e + b) && (forall|i: int|
            0 <= i < a.len() ==> Trimmed::Slash.has(#[trigger] a[i])) && (forall|i: int|
            0 <= i < b.len() ==> Trimmed::Slash.has(#[trigger] b[i]));
    assert(path == a + e + b);
    if e.len() == 0 {
        assert forall|i: int| 0 <= i < path.len() implies #[trigger] path[i] == '/' by {
            if i < a.len() {
                assert(Trimmed::Slash.has(a[i]));
            } else {
                assert(Trimmed::Slash.has(b[i - a.len()]));
            }
        }
    } else {
        assert(path[a.len() as int] == e[0]);
    }
}

/// The rules of a configuration count exactly where it has them and they are switched on.
pub proof fn rules_count_when_switched_on(c: WorkflowConfigView, s: SyncView)
    ensures
        active_sync(c) == Some(s) <==> c.context_sync == Some(s) && s.enabled,
{
}

/// A workflow that is served has the name of its endpoint and the parts of the
/// configuration: it is ready, starts at the configured node, has the nodes that were made
/// and no others, and is synchronised exactly by the rules that are switched on.
pub proof fn served_workflow_is_the_configured_one(
    endpoint: Seq<char>,
    c: WorkflowConfigView,
    r: Result<(WorkFlow, Vec<BuiltinNode>), WorkflowError>,
    node: Seq<char>,
)
    requires
        build_outcome(endpoint, c, r),
        r is Ok,
    ensures
        ({
            let (w, nodes) = r->Ok_0;
            &&& w@.name == endpoint
            &&& w@.status == crate::workflow::WorkflowStatus::Ready
            &&& w@.start_node == Some(c.start_node)
            &&& w@.context_sync == active_sync(c)
            &&& w@.context.len() == 0 && w@.messages.len() == 0 && w@.outbox.len() == 0
            &&& nodes@.len() == c.nodes.len()
            &&& assoc(w@.nodes, node) is Some <==> exists|j: int|
                0 <= j < nodes@.len() && node == (#[trigger] crate::workflow::decls_of(nodes@)[j]).name
        }),
{
    let (w, nodes) = r->Ok_0;
    let decls = crate::workflow::decls_of(nodes@);
    let params = crate::builder::input_types(c.input_parameters, Seq::empty())->Ok_0;
    crate::builder::workflow_is_built_of_sound_nodes(
        endpoint,
        params,
        c,
        active_sync(c),
        None,
        decls,
        node,
    );
}

} // verus!
