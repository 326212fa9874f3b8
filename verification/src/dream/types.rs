//! The operations autoDream plans on the memory.
use vstd::prelude::*;

verus! {

/// Where an observation came from.
#[derive(Debug, Clone, Copy, PartialEq, Eq, Structural)]
pub enum ObservationSource {
    DaemonLog,
    SessionTranscript,
    ToolOutput,
    UserStatement,
    AgentInference,
}

/// Why an entry is pruned.
#[derive(Debug, Clone, Copy, PartialEq, Eq, Structural)]
pub enum PruneReason {
    Contradicted,
    Stale,
    Derivable,
    Duplicate,
    LowConfidence,
}

/// What an operation does to the memory.
#[derive(Debug)]
pub enum OperationKind {
    Merge { source_entries: Vec<String> },
    Update { existing_path: String },
    Create,
    Prune { reason: PruneReason },
    Confirm { from_confidence: String, to_confidence: String },
    Conflict { existing_data: String, new_data: String },
    ConsolidateTheme { l2_paths: Vec<String> },
    RefineInstructions { agent_id: String, new_instructions: String },
    HealAgent { agent_id: String, reason: String },
}

/// One planned change to the memory (its confidence is carried beside it by
/// the caller).
#[derive(Debug)]
pub struct MemoryOperation {
    pub kind: OperationKind,
    pub topic: String,
    pub subtopic: String,
    pub content: String,
    pub reasoning: String,
}

/// The variant of an operation kind, in declaration order.
pub open spec fn kind_tag(k: OperationKind) -> nat {
    match k {
        OperationKind::Merge { .. } => 0,
        OperationKind::Update { .. } => 1,
        OperationKind::Create => 2,
        OperationKind::Prune { .. } => 3,
        OperationKind::Confirm { .. } => 4,
        OperationKind::Conflict { .. } => 5,
        OperationKind::ConsolidateTheme { .. } => 6,
        OperationKind::RefineInstructions { .. } => 7,
        OperationKind::HealAgent { .. } => 8,
    }
}

impl OperationKind {
    /// The variant, in declaration order.
    pub fn tag(&self) -> (r: u32)
        ensures
            r == kind_tag(*self),
    {
        match self {
            OperationKind::Merge { .. } => 0,
            OperationKind::Update { .. } => 1,
            OperationKind::Create => 2,
            OperationKind::Prune { .. } => 3,
            OperationKind::Confirm { .. } => 4,
            OperationKind::Conflict { .. } => 5,
            OperationKind::ConsolidateTheme { .. } => 6,
            OperationKind::RefineInstructions { .. } => 7,
            OperationKind::HealAgent { .. } => 8,
        }
    }
}

} // verus!
