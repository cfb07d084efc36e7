//! The run of a workflow, from its start to its end, as a machine that is told
//! what happened outside and says what is to be done next.
use vstd::prelude::*;

use crate::context_sync::{
    fetch_views, next_push_goes_through_all, ContextSyncManager, FetchRequest, FetchRequestView,
    Fetched, PushRequest, PushRequestView, SyncView,
};
use crate::error::{unit_view, ErrorView, WorkflowError};
use crate::string_map::{
    assoc, assoc_after_insert, assoc_of_entry, assoc_some_iff, sorted, Duplicate,
};
use crate::text::{cat2, texts};
use crate::value::JsonView;
use crate::workflow::{
    counts_go_up_by_one, launched_workflow_is_well_formed, notes_touch_one_node, runable_names,
    spawned_once, workflow_stays_well_formed, NodeInfo, WorkFlow, WorkFlowView, WorkflowStatus,
};

verus! {

// ---------------------------------------------------------------------------
// The run of a workflow
// ---------------------------------------------------------------------------

/// Where a run stands. The first item of each list is the one that is under way.
#[derive(Debug)]
pub enum RunStage {
    /// Not begun.
    Fresh,
    /// Reading outside context.
    Fetching(Vec<FetchRequest>),
    /// Waiting for the tasks of nodes.
    Awaiting(Vec<String>),
    /// Writing context back by these rules, under these identifiers, the rule with the
    /// number `next` being the next one.
    Pushing { manager: ContextSyncManager, user: String, session: String, next: usize },
    /// Over.
    Over,
}

/// Where a run stands.
#[verifier::ext_equal]
pub enum StageView {
    Fresh,
    Fetching(Seq<FetchRequestView>),
    Awaiting(Seq<Seq<char>>),
    Pushing { sync: SyncView, user: Seq<char>, session: Seq<char>, next: nat },
    Over,
}

impl View for RunStage {
    type V = StageView;

    open spec fn view(&self) -> StageView {
        match self {
            RunStage::Fresh => StageView::Fresh,
            RunStage::Fetching(v) => StageView::Fetching(fetch_views(v@)),
            RunStage::Awaiting(v) => StageView::Awaiting(texts(v@)),
            RunStage::Pushing { manager, user, session, next } => StageView::Pushing {
                sync: manager@,
                user: user@,
                session: session@,
                next: *next as nat,
            },
            RunStage::Over => StageView::Over,
        }
    }
}

/// What happened outside.
#[derive(Debug)]
pub enum RunEvent {
    /// The run was asked for.
    Begin,
    /// The read that was under way ended.
    Fetched(Fetched),
    /// The task that was waited for ended, in whatever way.
    TaskEnded,
    /// The write that was under way ended.
    Pushed(Result<(), WorkflowError>),
}

/// What is to be done next.
#[derive(Debug)]
pub enum RunAction {
    /// Make a read.
    Fetch(FetchRequest),
    /// Wait for the task of a node.
    Await(String),
    /// Make a write.
    Push(PushRequest),
    /// The run is over, with this result.
    Return(Result<(), WorkflowError>),
}

/// What is to be done next.
#[verifier::ext_equal]
pub enum ActionView {
    Fetch(FetchRequestView),
    Await(Seq<char>),
    Push(PushRequestView),
    Return(Result<(), ErrorView>),
}

impl View for RunAction {
    type V = ActionView;

    open spec fn view(&self) -> ActionView {
        match self {
            RunAction::Fetch(r) => ActionView::Fetch(r@),
            RunAction::Await(s) => ActionView::Await(s@),
            RunAction::Push(p) => ActionView::Push(p@),
            RunAction::Return(r) => ActionView::Return(unit_view(*r)),
        }
    }
}

/// Where a run stands, what the workflow holds, and what is to be done next.
#[verifier::ext_equal]
pub struct StepView {
    pub stage: StageView,
    pub workflow: WorkFlowView,
    pub action: ActionView,
}

/// The end of a run.
pub open spec fn run_over(w: WorkFlowView, r: Result<(), ErrorView>) -> StepView {
    StepView { stage: StageView::Over, workflow: w, action: ActionView::Return(r) }
}

/// The run with the writes left to make that the rules from the number `from` on ask
/// for, going by the context as it now is.
pub open spec fn run_pushing(
    w: WorkFlowView,
    sync: SyncView,
    user: Seq<char>,
    session: Seq<char>,
    from: nat,
) -> StepView {
    match sync.next_push(w.context, user, session, from) {
        Some((next, push)) => StepView {
            stage: StageView::Pushing { sync, user, session, next },
            workflow: w,
            action: ActionView::Push(push),
        },
        None => run_over(w, Ok(())),
    }
}

/// The run with these tasks left to wait for; after the last, the context is
/// written back under the identifiers that it then holds.
pub open spec fn run_awaiting(w: WorkFlowView, left: Seq<Seq<char>>) -> StepView {
    if left.len() == 0 {
        match w.context_sync {
            Some(sync) => run_pushing(w, sync, w.identifiers().0, w.identifiers().1, 0),
            None => run_over(w, Ok(())),
        }
    } else {
        StepView {
            stage: StageView::Awaiting(left),
            workflow: w,
            action: ActionView::Await(left[0]),
        }
    }
}

/// The run with these reads left to make; after the last, the workflow is launched.
pub open spec fn run_fetching(w: WorkFlowView, left: Seq<FetchRequestView>) -> StepView {
    if left.len() == 0 {
        let (launched, r) = w.launch();
        match r {
            Ok(_) => run_awaiting(launched, runable_names(w.nodes)),
            Err(e) => run_over(launched, Err(e)),
        }
    } else {
        StepView {
            stage: StageView::Fetching(left),
            workflow: w,
            action: ActionView::Fetch(left[0]),
        }
    }
}

/// The workflow after a read ended.
pub open spec fn after_fetch(w: WorkFlowView, field: Seq<char>, fetched: Fetched) -> WorkFlowView {
    match fetched {
        Fetched::Text(s) => w.with_context(field, JsonView::Text(s@)),
        Fetched::Structured(v) => w.with_context(field, v@),
        Fetched::Failed => w,
    }
}

/// One step of a run. A run that is asked for on a workflow that is not ready is
/// refused; else the reads are made, the workflow is launched, every task is waited
/// for, and the writes are made up to the first that fails.
pub open spec fn run_step(stage: StageView, w: WorkFlowView, event: RunEvent) -> StepView {
    match (stage, event) {
        (StageView::Fresh, RunEvent::Begin) => if w.status != WorkflowStatus::Ready {
            run_over(
                w,
                Err(
                    ErrorView::InvalidState(
                        "Workflow not ready, current status: "@ + w.status.variant(),
                    ),
                ),
            )
        } else {
            match w.context_sync {
                Some(sync) => run_fetching(
                    w,
                    sync.fetches(w.identifiers().0, w.identifiers().1),
                ),
                None => run_fetching(w, Seq::empty()),
            }
        },
        (StageView::Fetching(left), RunEvent::Fetched(f)) => run_fetching(
            after_fetch(w, left[0].field, f),
            left.skip(1),
        ),
        (StageView::Awaiting(left), RunEvent::TaskEnded) => run_awaiting(w, left.skip(1)),
        (StageView::Pushing { sync, user, session, next }, RunEvent::Pushed(r)) => match r {
            Ok(_) => run_pushing(w, sync, user, session, next),
            Err(e) => run_over(w, Err(e@)),
        },
        _ => run_over(w, Err(ErrorView::InvalidState("event does not belong to the stage"@))),
    }
}

/// Whether an event can happen at a stage.
pub open spec fn expects(stage: StageView, event: RunEvent) -> bool {
    match (stage, event) {
        (StageView::Fresh, RunEvent::Begin) => true,
        (StageView::Fetching(left), RunEvent::Fetched(_)) => left.len() > 0,
        (StageView::Awaiting(left), RunEvent::TaskEnded) => left.len() > 0,
        (StageView::Pushing { .. }, RunEvent::Pushed(_)) => true,
        _ => false,
    }
}

impl Duplicate for FetchRequest {
    fn duplicate(&self) -> (r: FetchRequest) {
        FetchRequest {
            namespace: self.namespace.clone(),
            field: self.field.clone(),
            structured: self.structured,
        }
    }
}

/// A run of a workflow.
#[derive(Debug)]
pub struct Run {
    pub stage: RunStage,
}

impl View for Run {
    type V = StageView;

    open spec fn view(&self) -> StageView {
        self.stage@
    }
}

impl Run {
    /// A run that has not begun.
    pub fn new() -> (r: Run)
        ensures
            r@ == StageView::Fresh,
    {
        Run { stage: RunStage::Fresh }
    }

    fn pushing(
        &mut self,
        workflow: &WorkFlow,
        manager: ContextSyncManager,
        user: String,
        session: String,
        from: usize,
    ) -> (a: RunAction)
        ensures
            ({
                let s = run_pushing(workflow@, manager@, user@, session@, from as nat);
                &&& final(self)@ == s.stage
                &&& a@ == s.action
            }),
    {
        match manager.push_on_complete(workflow, user.as_str(), session.as_str(), from) {
            Some((next, request)) => {
                self.stage = RunStage::Pushing { manager, user, session, next };
                RunAction::Push(request)
            },
            None => {
                self.stage = RunStage::Over;
                RunAction::Return(Ok(()))
            },
        }
    }

    fn awaiting(&mut self, workflow: &WorkFlow, left: Vec<String>) -> (a: RunAction)
        ensures
            final(self)@ == run_awaiting(workflow@, texts(left@)).stage,
            a@ == run_awaiting(workflow@, texts(left@)).action,
            run_awaiting(workflow@, texts(left@)).workflow == workflow@,
    {
        if left.len() == 0 {
            match &workflow.context_sync {
                Some(manager) => {
                    let (user, session) = workflow.context_sync_identifiers();
                    self.pushing(workflow, manager.duplicate(), user, session, 0)
                },
                None => {
                    self.stage = RunStage::Over;
                    RunAction::Return(Ok(()))
                },
            }
        } else {
            let first = left[0].clone();
            self.stage = RunStage::Awaiting(left);
            RunAction::Await(first)
        }
    }

    fn fetching(&mut self, workflow: &mut WorkFlow, left: Vec<FetchRequest>) -> (a: RunAction)
        ensures
            final(self)@ == run_fetching(old(workflow)@, fetch_views(left@)).stage,
            a@ == run_fetching(old(workflow)@, fetch_views(left@)).action,
            final(workflow)@ == run_fetching(old(workflow)@, fetch_views(left@)).workflow,
    {
        if left.len() == 0 {
            let (tasks, r) = workflow.launch();
            match r {
                Ok(()) => self.awaiting(workflow, tasks),
                Err(e) => {
                    self.stage = RunStage::Over;
                    RunAction::Return(Err(e))
                },
            }
        } else {
            let first = left[0].duplicate();
            self.stage = RunStage::Fetching(left);
            RunAction::Fetch(first)
        }
    }

    /// Takes what happened outside and says what is to be done next.
    pub fn run_all(&mut self, workflow: &mut WorkFlow, event: RunEvent) -> (a: RunAction)
        requires
            expects(old(self)@, event),
        ensures
            final(self)@ == run_step(old(self)@, old(workflow)@, event).stage,
            a@ == run_step(old(self)@, old(workflow)@, event).action,
            final(workflow)@ == run_step(old(self)@, old(workflow)@, event).workflow,
    {
        let mut stage = RunStage::Over;
        core::mem::swap(&mut stage, &mut self.stage);
        match event {
            RunEvent::Begin => {
                let (user, session) = workflow.context_sync_identifiers();
                if workflow.status() != WorkflowStatus::Ready {
                    return RunAction::Return(
                        Err(
                            WorkflowError::InvalidState(
                                cat2(
                                    "Workflow not ready, current status: ",
                                    workflow.status().variant_text(),
                                ),
                            ),
                        ),
                    );
                }
                let requests: Vec<FetchRequest> = match &workflow.context_sync {
                    Some(manager) => manager.fetch_on_start(user.as_str(), session.as_str()),
                    None => Vec::new(),
                };
                proof {
                    if workflow@.context_sync is None {
                        assert(fetch_views(requests@) =~= Seq::empty());
                    }
                }
                self.fetching(workflow, requests)
            },
            RunEvent::Fetched(fetched) => {
                let mut left: Vec<FetchRequest> = match stage {
                    RunStage::Fetching(left) => left,
                    _ => Vec::new(),
                };
                let ghost before = fetch_views(left@);
                let done = left.remove(0);
                proof {
                    assert(fetch_views(left@) =~= before.skip(1));
                }
                ContextSyncManager::apply_fetched(workflow, done.field.as_str(), fetched);
                self.fetching(workflow, left)
            },
            RunEvent::TaskEnded => {
                let mut left: Vec<String> = match stage {
                    RunStage::Awaiting(left) => left,
                    _ => Vec::new(),
                };
                let ghost before = texts(left@);
                let _ = left.remove(0);
                proof {
                    assert(texts(left@) =~= before.skip(1));
                }
                self.awaiting(workflow, left)
            },
            RunEvent::Pushed(r) => match (r, stage) {
                (Ok(()), RunStage::Pushing { manager, user, session, next }) => self.pushing(
                    workflow,
                    manager,
                    user,
                    session,
                    next,
                ),
                (Ok(()), _) => RunAction::Return(Ok(())),
                (Err(e), _) => RunAction::Return(Err(e)),
            },
        }
    }
}

// ---------------------------------------------------------------------------
// The task of a node
// ---------------------------------------------------------------------------

/// What the task of a node does after a run.
#[derive(Debug)]
pub enum NodeNext {
    /// Run the node again.
    Again,
    /// End, with this result.
    End(Result<(), WorkflowError>),
}

/// What the task of a node does after a run.
#[verifier::ext_equal]
pub enum NodeNextView {
    Again,
    End(Result<(), ErrorView>),
}

impl View for NodeNext {
    type V = NodeNextView;

    open spec fn view(&self) -> NodeNextView {
        match self {
            NodeNext::Again => NodeNextView::Again,
            NodeNext::End(r) => NodeNextView::End(unit_view(*r)),
        }
    }
}

/// The workflow and the task of a node after a run of the node. The node is no
/// longer running; a run without error is counted; a reentrant node whose run was
/// without error runs again unless the workflow is finished.
pub open spec fn node_ended(
    w: WorkFlowView,
    node: Seq<char>,
    reentrant: bool,
    result: Result<(), ErrorView>,
) -> (WorkFlowView, NodeNextView) {
    let (stopped, r) = w.mark_running(node, false);
    match (r, result) {
        (Err(e), _) => (stopped, NodeNextView::End(Err(e))),
        (Ok(_), Err(e)) => (stopped, NodeNextView::End(Err(e))),
        (Ok(_), Ok(_)) => {
            let (counted, c) = stopped.mark_completed(node);
            match c {
                Err(e) => (counted, NodeNextView::End(Err(e))),
                Ok(_) => if reentrant && w.status != WorkflowStatus::Finished {
                    (counted, NodeNextView::Again)
                } else {
                    (counted, NodeNextView::End(Ok(())))
                },
            }
        },
    }
}

impl WorkFlow {
    /// Whether the task of a node runs the node at all: a reentrant node is not run
    /// once the workflow is finished.
    pub fn node_may_run(&self, reentrant: bool) -> (r: bool)
        ensures
            r == (!reentrant || self@.status != WorkflowStatus::Finished),
    {
        !reentrant || self.status() != WorkflowStatus::Finished
    }

    /// Takes the result of a run of a node and says what the node's task does next.
    pub fn run_node(
        &mut self,
        node_name: &str,
        reentrant: bool,
        result: Result<(), WorkflowError>,
    ) -> (next: NodeNext)
        ensures
            final(self)@ == node_ended(old(self)@, node_name@, reentrant, unit_view(result)).0,
            next@ == node_ended(old(self)@, node_name@, reentrant, unit_view(result)).1,
    {
        match self.mark_node_running(node_name, false) {
            Err(e) => {
                return NodeNext::End(Err(e));
            },
            Ok(()) => {},
        }
        match result {
            Err(e) => {
                return NodeNext::End(Err(e));
            },
            Ok(()) => {},
        }
        match self.mark_node_completed(node_name) {
            Err(e) => {
                return NodeNext::End(Err(e));
            },
            Ok(()) => {},
        }
        if reentrant && self.status() != WorkflowStatus::Finished {
            NodeNext::Again
        } else {
            NodeNext::End(Ok(()))
        }
    }
}

// ---------------------------------------------------------------------------
// Laws
// ---------------------------------------------------------------------------

/// A run begins exactly on a workflow that is ready; on any other it ends at once
/// and leaves the workflow as it is.
pub proof fn run_begins_only_when_ready(w: WorkFlowView)
    ensures
        w.status != WorkflowStatus::Ready ==> run_step(
            StageView::Fresh,
            w,
            RunEvent::Begin,
        ) == run_over(
            w,
            Err(
                ErrorView::InvalidState(
                    "Workflow not ready, current status: "@ + w.status.variant(),
                ),
            ),
        ),
{
}

/// A workflow that was launched is running, with or without an error, so that it
/// cannot be run a second time.
pub proof fn launched_workflow_cannot_be_run_again(w: WorkFlowView)
    ensures
        w.launch().0.status == WorkflowStatus::Running,
        run_step(StageView::Fresh, w.launch().0, RunEvent::Begin).action matches ActionView::Return(
            r,
        ) && r is Err,
{
}

/// A failed read does not end a run: the next read is made, or the workflow is
/// launched as if the read had not been asked for.
pub proof fn failed_fetch_is_passed_over(w: WorkFlowView, left: Seq<FetchRequestView>)
    requires
        left.len() > 0,
    ensures
        run_step(StageView::Fetching(left), w, RunEvent::Fetched(Fetched::Failed)) == run_fetching(
            w,
            left.skip(1),
        ),
{
}

/// A run that succeeded at the end of its tasks or writes has none left.
pub proof fn success_leaves_nothing_undone(stage: StageView, w: WorkFlowView, event: RunEvent)
    requires
        expects(stage, event),
        stage is Awaiting || stage is Pushing,
        run_step(stage, w, event).action == ActionView::Return(Ok::<(), ErrorView>(())),
    ensures
        match stage {
            StageView::Awaiting(left) => left.len() == 1 && (match w.context_sync {
                Some(sync) => sync.pushes_from(
                    w.context,
                    w.identifiers().0,
                    w.identifiers().1,
                    0,
                ).len() == 0,
                None => true,
            }),
            StageView::Pushing { sync, user, session, next } => sync.pushes_from(
                w.context,
                user,
                session,
                next,
            ).len() == 0,
            _ => true,
        },
{
    match stage {
        StageView::Awaiting(_) => {
            if let Some(sync) = w.context_sync {
                next_push_goes_through_all(
                    sync,
                    w.context,
                    w.identifiers().0,
                    w.identifiers().1,
                    0,
                );
            }
        },
        StageView::Pushing { sync, user, session, next } => {
            next_push_goes_through_all(sync, w.context, user, session, next);
        },
        _ => {},
    }
}

/// A failed write ends the run with its error.
pub proof fn failed_push_ends_the_run(stage: StageView, w: WorkFlowView, error: WorkflowError)
    requires
        stage is Pushing,
    ensures
        run_step(stage, w, RunEvent::Pushed(Err(error))) == run_over(w, Err(error@)),
{
}

/// After a run a node is no longer running, so that it can be activated again.
pub proof fn ended_node_can_be_activated(
    w: WorkFlowView,
    node: Seq<char>,
    reentrant: bool,
    result: Result<(), ErrorView>,
)
    requires
        assoc(w.nodes, node) is Some,
    ensures
        assoc(node_ended(w, node, reentrant, result).0.nodes, node) is Some,
        !assoc(node_ended(w, node, reentrant, result).0.nodes, node)->0.running,
{
    let info = assoc(w.nodes, node)->0;
    let idle = crate::workflow::NodeInfo { running: false, ..info };
    crate::string_map::assoc_after_update(w.nodes, node, idle, node);
    let nodes = crate::string_map::assoc_update(w.nodes, node, idle);
    crate::string_map::assoc_after_update(
        nodes,
        node,
        crate::workflow::NodeInfo {
            completed_count: crate::workflow::next_count(idle.completed_count),
            ..idle
        },
        node,
    );
}

/// A run keeps a workflow well formed, step by step, and so does the end of a run of a
/// node.
pub proof fn run_keeps_well_formed(
    stage: StageView,
    w: WorkFlowView,
    event: RunEvent,
    node: Seq<char>,
    reentrant: bool,
    result: Result<(), ErrorView>,
)
    requires
        w.wf(),
        expects(stage, event),
    ensures
        run_step(stage, w, event).workflow.wf(),
        node_ended(w, node, reentrant, result).0.wf(),
{
    fetching_keeps_well_formed(w);
    if let StageView::Fetching(left) = stage {
        if let RunEvent::Fetched(f) = event {
            let value = match f {
                Fetched::Text(s) => JsonView::Text(s@),
                Fetched::Structured(v) => v@,
                Fetched::Failed => JsonView::Null,
            };
            any_step_keeps(w, node, left[0].field, value);
            fetching_keeps_well_formed(after_fetch(w, left[0].field, f));
        }
    }
    any_step_keeps(w, node, node, JsonView::Null);
    any_step_keeps(w.mark_running(node, false).0, node, node, JsonView::Null);
}

proof fn any_step_keeps(w: WorkFlowView, node: Seq<char>, name: Seq<char>, value: JsonView)
    requires
        w.wf(),
    ensures
        w.with_context(name, value).wf(),
        w.mark_running(node, false).0.wf(),
        w.mark_completed(node).0.wf(),
{
    workflow_stays_well_formed(w, node, name, value, false, Seq::empty(), false);
}

proof fn fetching_keeps_well_formed(w: WorkFlowView)
    requires
        w.wf(),
    ensures
        forall|left: Seq<FetchRequestView>| (#[trigger] run_fetching(w, left)).workflow.wf(),
{
    launched_workflow_is_well_formed(w);
}

/// What a read brought stands in the context under the field that was read, a text as a
/// text and a structured value as itself; a failed read brings nothing. Nothing else of
/// the workflow changes.
pub proof fn fetched_value_is_in_the_context(
    w: WorkFlowView,
    field: Seq<char>,
    fetched: Fetched,
    key: Seq<char>,
)
    ensures
        ({
            let after = after_fetch(w, field, fetched);
            &&& after == (WorkFlowView { context: after.context, ..w })
            &&& fetched is Failed || key != field ==> assoc(after.context, key) == assoc(
                w.context,
                key,
            )
            &&& fetched matches Fetched::Text(s) ==> assoc(after.context, field) == Some(
                JsonView::Text(s@),
            )
            &&& fetched matches Fetched::Structured(v) ==> assoc(after.context, field) == Some(v@)
        }),
{
    let value = match fetched {
        Fetched::Text(s) => JsonView::Text(s@),
        Fetched::Structured(v) => v@,
        Fetched::Failed => JsonView::Null,
    };
    assoc_after_insert(w.context, field, value, key);
    assoc_after_insert(w.context, field, value, field);
}

/// The reads are made one after the other before anything else: a run that begins makes
/// the first read that the rules ask for under the identifiers of the workflow, each read
/// that ends is followed by the next, and nothing but the context changes until the last.
pub proof fn reads_are_made_in_order(w: WorkFlowView, left: Seq<FetchRequestView>, fetched: Fetched)
    ensures
        w.status == WorkflowStatus::Ready ==> (w.context_sync matches Some(sync) ==> {
            let reads = sync.fetches(w.identifiers().0, w.identifiers().1);
            let s = run_step(StageView::Fresh, w, RunEvent::Begin);
            reads.len() > 0 ==> s.stage == StageView::Fetching(reads) && s.action
                == ActionView::Fetch(reads[0]) && s.workflow == w
        }),
        left.len() > 1 ==> {
            let s = run_step(StageView::Fetching(left), w, RunEvent::Fetched(fetched));
            &&& s.stage == StageView::Fetching(left.skip(1))
            &&& s.action == ActionView::Fetch(left[1])
            &&& s.workflow == after_fetch(w, left[0].field, fetched)
        },
{
}

/// The workflow is launched once there is no read left to make, on what the reads made of
/// its context: where there are no rules, or none that read, when the run begins, and else
/// after the last read. A workflow that cannot be launched ends the run with the error.
pub proof fn workflow_is_launched_after_the_reads(
    w: WorkFlowView,
    read: FetchRequestView,
    fetched: Fetched,
    name: Seq<char>,
)
    requires
        sorted(w.nodes),
    ensures
        ({
            let begun = run_step(StageView::Fresh, w, RunEvent::Begin);
            let read_last = run_step(
                StageView::Fetching(seq![read]),
                w,
                RunEvent::Fetched(fetched),
            );
            let no_reads = w.context_sync matches Some(sync) ==> sync.fetches(
                w.identifiers().0,
                w.identifiers().1,
            ).len() == 0;
            &&& w.status == WorkflowStatus::Ready && no_reads ==> is_launch(w, begun, name)
            &&& is_launch(after_fetch(w, read.field, fetched), read_last, name)
        }),
{
    assert(seq![read].skip(1) =~= Seq::empty());
    launch_awaits(w, name);
    launch_awaits(after_fetch(w, read.field, fetched), name);
}

/// Whether a step launches the workflow: it fails as the launch fails, or goes on to wait
/// for the task of each node that runs, and of no other, each once.
pub open spec fn is_launch(w: WorkFlowView, s: StepView, name: Seq<char>) -> bool {
    let (launched, r) = w.launch();
    &&& s.workflow == launched
    &&& r matches Err(e) ==> s.stage is Over && s.action == ActionView::Return(
        Err::<(), ErrorView>(e),
    )
    &&& r is Ok && s.stage is Awaiting ==> {
        let tasks = s.stage->Awaiting_0;
        &&& tasks.len() > 0 && s.action == ActionView::Await(tasks[0])
        &&& tasks.no_duplicates()
        &&& tasks.contains(name) <==> (assoc(w.nodes, name) matches Some(info) && info.runable)
    }
    &&& r is Ok && !(s.stage is Awaiting) ==> !(assoc(w.nodes, name) matches Some(info)
        && info.runable)
}

proof fn launch_awaits(w: WorkFlowView, name: Seq<char>)
    requires
        sorted(w.nodes),
    ensures
        is_launch(w, run_fetching(w, Seq::empty()), name),
{
    let tasks = runable_names(w.nodes);
    spawned_once(w.nodes);
    if assoc(w.nodes, name) matches Some(info) && info.runable {
        assoc_some_iff(w.nodes, name);
        let k = choose|k: int| 0 <= k < w.nodes.len() && (#[trigger] w.nodes[k]).0 == name;
        assoc_of_entry(w.nodes, k);
        assert(tasks.contains(w.nodes[k].0));
    }
    if tasks.contains(name) {
        let i = choose|i: int| 0 <= i < tasks.len() && tasks[i] == name;
        assert(assoc(w.nodes, tasks[i]) is Some);
    }
}

/// Every task is waited for, one after the other, however it ended; the writes come after
/// the last, under the identifiers that the workflow then has, and the run ends well where
/// there is nothing to write. Waiting and writing leave the workflow as it is.
pub proof fn every_task_is_waited_for(w: WorkFlowView, left: Seq<Seq<char>>)
    requires
        left.len() > 0,
    ensures
        ({
            let s = run_step(StageView::Awaiting(left), w, RunEvent::TaskEnded);
            let (user, session) = w.identifiers();
            &&& s.workflow == w
            &&& left.len() > 1 ==> s.stage == StageView::Awaiting(left.skip(1)) && s.action
                == ActionView::Await(left[1])
            &&& left.len() == 1 && w.context_sync is None ==> s.stage is Over && s.action
                == ActionView::Return(Ok::<(), ErrorView>(()))
            &&& left.len() == 1 ==> (w.context_sync matches Some(sync) ==> {
                let writes = sync.pushes_from(w.context, user, session, 0);
                &&& writes.len() == 0 ==> s.stage is Over && s.action == ActionView::Return(
                    Ok::<(), ErrorView>(()),
                )
                &&& writes.len() > 0 ==> s.action == ActionView::Push(writes[0]) && is_pushing(
                    s.stage,
                    w,
                    sync,
                    user,
                    session,
                    writes.skip(1),
                )
            })
        }),
{
    if let Some(sync) = w.context_sync {
        let (user, session) = w.identifiers();
        next_push_goes_through_all(sync, w.context, user, session, 0);
        if let Some((next, push)) = sync.next_push(w.context, user, session, 0) {
            let writes = sync.pushes_from(w.context, user, session, 0);
            assert(writes.skip(1) =~= sync.pushes_from(w.context, user, session, next));
        }
    }
}

/// Whether a stage is that of writing, with these writes left to make.
pub open spec fn is_pushing(
    stage: StageView,
    w: WorkFlowView,
    sync: SyncView,
    user: Seq<char>,
    session: Seq<char>,
    left: Seq<PushRequestView>,
) -> bool {
    stage matches StageView::Pushing { sync: s, user: u, session: v, next } && s == sync && u
        == user && v == session && sync.pushes_from(w.context, user, session, next) == left
}

/// The writes are made one after the other, and the run ends well after the last.
pub proof fn writes_are_made_in_order(
    stage: StageView,
    w: WorkFlowView,
    sync: SyncView,
    user: Seq<char>,
    session: Seq<char>,
    left: Seq<PushRequestView>,
)
    requires
        is_pushing(stage, w, sync, user, session, left),
    ensures
        ({
            let s = run_step(stage, w, RunEvent::Pushed(Ok(())));
            &&& s.workflow == w
            &&& left.len() == 0 ==> s.stage is Over && s.action == ActionView::Return(
                Ok::<(), ErrorView>(()),
            )
            &&& left.len() > 0 ==> s.action == ActionView::Push(left[0]) && is_pushing(
                s.stage,
                w,
                sync,
                user,
                session,
                left.skip(1),
            )
        }),
{
    if let StageView::Pushing { sync, user, session, next } = stage {
        next_push_goes_through_all(sync, w.context, user, session, next);
        if let Some((after, push)) = sync.next_push(w.context, user, session, next) {
            assert(left.skip(1) =~= sync.pushes_from(w.context, user, session, after));
        }
    }
}

/// The end of a run of a node touches that node alone: it is no longer running, and the
/// run is counted exactly where it was without error. The task goes on exactly where the
/// node is reentrant, its run was without error and the workflow is not finished; an error
/// ends it, and is its result.
pub proof fn ended_run_is_counted(
    w: WorkFlowView,
    node: Seq<char>,
    reentrant: bool,
    result: Result<(), ErrorView>,
    other: Seq<char>,
)
    ensures
        ({
            let (after, next) = node_ended(w, node, reentrant, result);
            let known = assoc(w.nodes, node) is Some;
            &&& after == (WorkFlowView { nodes: after.nodes, ..w })
            &&& other != node ==> assoc(after.nodes, other) == assoc(w.nodes, other)
            &&& !known ==> after == w && next == NodeNextView::End(
                Err::<(), ErrorView>(ErrorView::NodeNotFound(node)),
            )
            &&& known ==> {
                let info = assoc(w.nodes, node)->0;
                let now = assoc(after.nodes, node)->0;
                &&& result is Ok ==> now.completed_count as int == (info.completed_count + 1)
                    % 0x1_0000_0000_0000_0000
                &&& result is Err ==> now.completed_count == info.completed_count
                &&& now == (NodeInfo {
                    running: false,
                    completed_count: now.completed_count,
                    ..info
                })
                &&& next == NodeNextView::Again <==> reentrant && result is Ok && w.status
                    != WorkflowStatus::Finished
                &&& result is Ok && next != NodeNextView::Again ==> next == NodeNextView::End(
                    Ok::<(), ErrorView>(()),
                )
                &&& result matches Err(e) ==> next == NodeNextView::End(Err::<(), ErrorView>(e))
            }
        }),
{
    if let Some(info) = assoc(w.nodes, node) {
        let stopped = w.mark_running(node, false).0;
        notes_touch_one_node(w, node, false, other);
        notes_touch_one_node(stopped, node, false, other);
        counts_go_up_by_one(info.completed_count);
    }
}

} // verus!
