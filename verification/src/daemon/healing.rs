//! Self-healing after a failure: repair on a staging branch, keep it only if
//! the build passes.
use vstd::prelude::*;
use crate::text::{copy_str, decimal, push_decimal, push_str};

verus! {

/// Runs the repair steps in the working directory.
#[derive(Debug)]
pub struct HealingManager {
    working_dir: String,
    state_dir: String,
}

/// The steps of a repair.
#[derive(Debug, Clone, Copy, PartialEq, Eq, Structural)]
pub enum HealStep {
    /// Create the staging branch.
    Branch,
    /// Apply the automated patch.
    Patch,
    /// Check the build.
    Verify,
    /// Merge the branch into main.
    Merge,
    /// Go back to main, leaving the branch.
    Abandon,
    /// Done: healed or not.
    Finished(bool),
}

/// The step after `step`, which went `ok`.
pub open spec fn next_step(step: HealStep, ok: bool) -> HealStep {
    match step {
        HealStep::Branch => HealStep::Patch,
        HealStep::Patch => if ok { HealStep::Verify } else { HealStep::Abandon },
        HealStep::Verify => if ok { HealStep::Merge } else { HealStep::Abandon },
        HealStep::Merge => HealStep::Finished(true),
        HealStep::Abandon => HealStep::Finished(false),
        HealStep::Finished(b) => HealStep::Finished(b),
    }
}

/// A signed number in decimal.
pub open spec fn signed_decimal(n: int) -> Seq<char> {
    if n < 0 {
        "-"@ + decimal((-n) as nat)
    } else {
        decimal(n as nat)
    }
}

impl HealingManager {
    pub closed spec fn dir_view(&self) -> Seq<char> {
        self.working_dir@
    }

    pub closed spec fn state_view(&self) -> Seq<char> {
        self.state_dir@
    }

    /// A healer for the repository at `working_dir`.
    pub fn new(working_dir: String, state_dir: String) -> (r: Self)
        ensures
            r.dir_view() == working_dir@,
            r.state_view() == state_dir@,
    {
        HealingManager { working_dir, state_dir }
    }

    /// The repository healed.
    pub fn working_dir(&self) -> (r: &String)
        ensures
            r@ == self.dir_view(),
    {
        &self.working_dir
    }

    /// The staging branch for a repair started at `timestamp`: `heal/<timestamp>`.
    pub fn branch_name(timestamp: i64) -> (r: String)
        ensures
            r@ == "heal/"@ + signed_decimal(timestamp as int),
    {
        let mut r = copy_str("heal/");
        if timestamp < 0 {
            push_str(&mut r, "-");
            let m: i128 = -(timestamp as i128);
            push_decimal(&mut r, m as u64);
        } else {
            push_decimal(&mut r, timestamp as u64);
        }
        r
    }

    /// What follows a step that went `ok`: a failed patch or check abandons
    /// the branch; a passed check merges it.
    pub fn next_step(step: HealStep, ok: bool) -> (r: HealStep)
        ensures
            r == next_step(step, ok),
    {
        match step {
            HealStep::Branch => HealStep::Patch,
            HealStep::Patch => if ok { HealStep::Verify } else { HealStep::Abandon },
            HealStep::Verify => if ok { HealStep::Merge } else { HealStep::Abandon },
            HealStep::Merge => HealStep::Finished(true),
            HealStep::Abandon => HealStep::Finished(false),
            HealStep::Finished(b) => HealStep::Finished(b),
        }
    }
}

} // verus!
