//! The errors of the engine and their wording.
use vstd::prelude::*;

use crate::string_map::Duplicate;
use crate::text::{cat2, cat4};

verus! {

/// An error of the engine.
#[derive(Debug)]
pub enum WorkflowError {
    /// There is no such node.
    NodeNotFound(String),
    /// There is no such parameter.
    ParameterNotFound(String),
    /// The configuration does not hold together.
    ConfigError(String),
    /// Nothing is registered for the node type.
    NodeTypeNotRegistered(String),
    /// The workflow is not in the state that the request needs.
    InvalidState(String),
    /// A node failed while it ran.
    NodeExecutionError { node: String, message: String },
    /// A JSON text could not be read; the reader's message.
    JsonError(String),
    /// Input or output failed; the message of the failure.
    IoError(String),
    /// Any other error.
    Other(String),
}

/// What an error holds.
#[verifier::ext_equal]
pub enum ErrorView {
    NodeNotFound(Seq<char>),
    ParameterNotFound(Seq<char>),
    ConfigError(Seq<char>),
    NodeTypeNotRegistered(Seq<char>),
    InvalidState(Seq<char>),
    NodeExecutionError { node: Seq<char>, message: Seq<char> },
    JsonError(Seq<char>),
    IoError(Seq<char>),
    Other(Seq<char>),
}

impl View for WorkflowError {
    type V = ErrorView;

    open spec fn view(&self) -> ErrorView {
        match self {
            WorkflowError::NodeNotFound(s) => ErrorView::NodeNotFound(s@),
            WorkflowError::ParameterNotFound(s) => ErrorView::ParameterNotFound(s@),
            WorkflowError::ConfigError(s) => ErrorView::ConfigError(s@),
            WorkflowError::NodeTypeNotRegistered(s) => ErrorView::NodeTypeNotRegistered(s@),
            WorkflowError::InvalidState(s) => ErrorView::InvalidState(s@),
            WorkflowError::NodeExecutionError { node, message } => ErrorView::NodeExecutionError {
                node: node@,
                message: message@,
            },
            WorkflowError::JsonError(s) => ErrorView::JsonError(s@),
            WorkflowError::IoError(s) => ErrorView::IoError(s@),
            WorkflowError::Other(s) => ErrorView::Other(s@),
        }
    }
}

impl ErrorView {
    /// The wording of an error.
    pub open spec fn message(self) -> Seq<char> {
        match self {
            ErrorView::NodeNotFound(s) => "Node not found: "@ + s,
            ErrorView::ParameterNotFound(s) => "Parameter not found: "@ + s,
            ErrorView::ConfigError(s) => "Configuration error: "@ + s,
            ErrorView::NodeTypeNotRegistered(s) => "Node type not registered: "@ + s,
            ErrorView::InvalidState(s) => "Invalid workflow state: "@ + s,
            ErrorView::NodeExecutionError { node, message } => "Node execution error in '"@ + node
                + "': "@ + message,
            ErrorView::JsonError(s) => "JSON parse error: "@ + s,
            ErrorView::IoError(s) => "IO error: "@ + s,
            ErrorView::Other(s) => s,
        }
    }
}

impl WorkflowError {
    /// The wording of the error.
    pub fn to_text(&self) -> (r: String)
        ensures
            r@ == self@.message(),
    {
        match self {
            WorkflowError::NodeNotFound(s) => cat2("Node not found: ", s.as_str()),
            WorkflowError::ParameterNotFound(s) => cat2("Parameter not found: ", s.as_str()),
            WorkflowError::ConfigError(s) => cat2("Configuration error: ", s.as_str()),
            WorkflowError::NodeTypeNotRegistered(s) => cat2(
                "Node type not registered: ",
                s.as_str(),
            ),
            WorkflowError::InvalidState(s) => cat2("Invalid workflow state: ", s.as_str()),
            WorkflowError::NodeExecutionError { node, message } => cat4(
                "Node execution error in '",
                node.as_str(),
                "': ",
                message.as_str(),
            ),
            WorkflowError::JsonError(s) => cat2("JSON parse error: ", s.as_str()),
            WorkflowError::IoError(s) => cat2("IO error: ", s.as_str()),
            WorkflowError::Other(s) => s.clone(),
        }
    }
}

impl Duplicate for WorkflowError {
    fn duplicate(&self) -> (r: WorkflowError) {
        match self {
            WorkflowError::NodeNotFound(s) => WorkflowError::NodeNotFound(s.clone()),
            WorkflowError::ParameterNotFound(s) => WorkflowError::ParameterNotFound(s.clone()),
            WorkflowError::ConfigError(s) => WorkflowError::ConfigError(s.clone()),
            WorkflowError::NodeTypeNotRegistered(s) => WorkflowError::NodeTypeNotRegistered(
                s.clone(),
            ),
            WorkflowError::InvalidState(s) => WorkflowError::InvalidState(s.clone()),
            WorkflowError::NodeExecutionError { node, message } =>
                WorkflowError::NodeExecutionError { node: node.clone(), message: message.clone() },
            WorkflowError::JsonError(s) => WorkflowError::JsonError(s.clone()),
            WorkflowError::IoError(s) => WorkflowError::IoError(s.clone()),
            WorkflowError::Other(s) => WorkflowError::Other(s.clone()),
        }
    }
}

/// A configuration error with the given text.
pub fn config_error(text: &str) -> (r: WorkflowError)
    ensures
        r@ == ErrorView::ConfigError(text@),
{
    WorkflowError::ConfigError(text.to_owned())
}

/// What a result holds.
pub open spec fn result_view<T: View>(r: Result<T, WorkflowError>) -> Result<T::V, ErrorView> {
    match r {
        Ok(v) => Ok(v@),
        Err(e) => Err(e@),
    }
}

/// What a result without a value holds.
pub open spec fn unit_view(r: Result<(), WorkflowError>) -> Result<(), ErrorView> {
    match r {
        Ok(()) => Ok(()),
        Err(e) => Err(e@),
    }
}

/// What an optional value holds.
pub open spec fn option_view<T: View>(o: Option<T>) -> Option<T::V> {
    match o {
        Some(v) => Some(v@),
        None => None,
    }
}

/// The wording of an error begins with what kind of error it is and ends with its text; an
/// error of no kind is worded by its text alone, and an error of a node names the node.
pub proof fn wording_names_the_kind(s: Seq<char>, node: Seq<char>)
    ensures
        ErrorView::Other(s).message() == s,
        ErrorView::NodeNotFound(s).message() == "Node not found: "@ + s,
        ErrorView::ParameterNotFound(s).message() == "Parameter not found: "@ + s,
        ErrorView::ConfigError(s).message() == "Configuration error: "@ + s,
        ErrorView::NodeTypeNotRegistered(s).message() == "Node type not registered: "@ + s,
        ErrorView::InvalidState(s).message() == "Invalid workflow state: "@ + s,
        ErrorView::JsonError(s).message() == "JSON parse error: "@ + s,
        ErrorView::IoError(s).message() == "IO error: "@ + s,
        (ErrorView::NodeExecutionError { node, message: s }).message() == "Node execution error in '"@
            + node + "': "@ + s,
{
}

} // verus!
