//! The configuration that names a workflow and says how its context is synchronised.
use vstd::prelude::*;

use crate::context_sync::{ContextSyncConfig, SyncView};
use crate::error::{option_view, result_view, ErrorView, WorkflowError};
use crate::text::cat4;

verus! {

/// The name and the version of a workflow.
#[derive(Debug)]
pub struct WorkflowMeta {
    pub name: String,
    pub version: String,
}

/// What names a workflow and synchronises its context.
#[derive(Debug)]
pub struct WorkflowConfig {
    pub workflow: WorkflowMeta,
    pub context_sync: Option<ContextSyncConfig>,
}

/// What the configuration holds.
#[verifier::ext_equal]
pub struct MetaView {
    pub name: Seq<char>,
    pub version: Seq<char>,
    pub context_sync: Option<SyncView>,
}

impl View for WorkflowConfig {
    type V = MetaView;

    open spec fn view(&self) -> MetaView {
        MetaView {
            name: self.workflow.name@,
            version: self.workflow.version@,
            context_sync: option_view(self.context_sync),
        }
    }
}

/// What came of reading a configuration file.
#[derive(Debug)]
pub enum LoadOutcome {
    /// The file could not be read; the wording of the error.
    ReadFailed(String),
    /// The text is not such a configuration; the wording of the error.
    ParseFailed(String),
    /// The configuration.
    Loaded(WorkflowConfig),
}

/// The configuration that was read from a file, or the error that says why not.
pub open spec fn load_outcome(path: Seq<char>, outcome: LoadOutcome) -> Result<
    MetaView,
    ErrorView,
> {
    match outcome {
        LoadOutcome::ReadFailed(e) => Err(
            ErrorView::ConfigError("failed to read workflow config '"@ + path + "': "@ + e@),
        ),
        LoadOutcome::ParseFailed(e) => Err(
            ErrorView::ConfigError(
                "failed to parse workflow config json '"@ + path + "': "@ + e@,
            ),
        ),
        LoadOutcome::Loaded(c) => Ok(c@),
    }
}

/// The configuration that was read from a file, or the error that says why not.
pub fn load_workflow_config(path: &str, outcome: LoadOutcome) -> (r: Result<
    WorkflowConfig,
    WorkflowError,
>)
    ensures
        result_view(r) == load_outcome(path@, outcome),
{
    match outcome {
        LoadOutcome::ReadFailed(e) => Err(
            WorkflowError::ConfigError(
                cat4("failed to read workflow config '", path, "': ", e.as_str()),
            ),
        ),
        LoadOutcome::ParseFailed(e) => Err(
            WorkflowError::ConfigError(
                cat4("failed to parse workflow config json '", path, "': ", e.as_str()),
            ),
        ),
        LoadOutcome::Loaded(c) => Ok(c),
    }
}

/// A configuration that was read is the one that is loaded; a file that could not be read
/// or parsed is an error that names the file and repeats the reason.
pub proof fn loading_keeps_what_was_read(path: Seq<char>, outcome: LoadOutcome, c: MetaView)
    ensures
        load_outcome(path, outcome) == Ok::<MetaView, ErrorView>(c) <==> (outcome matches
            LoadOutcome::Loaded(read) && read@ == c),
        outcome matches LoadOutcome::ReadFailed(reason) ==> load_outcome(path, outcome) == Err::<
            MetaView,
            ErrorView,
        >(ErrorView::ConfigError("failed to read workflow config '"@ + path + "': "@ + reason@)),
        outcome matches LoadOutcome::ParseFailed(reason) ==> load_outcome(path, outcome) == Err::<
            MetaView,
            ErrorView,
        >(
            ErrorView::ConfigError(
                "failed to parse workflow config json '"@ + path + "': "@ + reason@,
            ),
        ),
{
}

} // verus!
