//! Daemon vocabulary: what the initiative engine decides and how urgent it is.
use vstd::prelude::*;

verus! {

/// What the daemon decides to do on a tick.
#[derive(Debug)]
pub enum Initiative {
    Act(ProactiveAction),
    Observe(String),
    Sleep,
}

/// An action the daemon may take on its own.
#[derive(Debug)]
pub enum ProactiveAction {
    FixBuildError { file: String, error: String },
    RespondToPR { repo: String, pr_number: u64, analysis: String },
    RunTests { reason: String, changed_files: Vec<String> },
    UpdateDocs { files: Vec<String>, reason: String },
    SendNotification { message: String, urgency: Urgency },
    CustomAction { description: String, tool_calls: Vec<String> },
}

/// How urgent a notification or action is, from least to most.
#[derive(Debug, Clone, Copy, PartialEq, Eq, PartialOrd, Ord)]
pub enum Urgency {
    Low,
    Medium,
    High,
    Critical,
}

} // verus!
