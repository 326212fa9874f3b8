//! The agent's base system prompt, assembled from fixed sections.
use vstd::prelude::*;
use crate::text::{copy_str, push_str};

verus! {

/// What the prompt says of the running agent.
pub struct PromptConfig {
    pub permission_mode: String,
    pub working_dir: String,
    pub state_dir: String,
}

/// Builds the agent's system prompt.
pub struct SystemPromptBuilder;

pub open spec fn identity_text() -> Seq<char> {
    "<identity>\nYou are DreamSwarm, an autonomous AI coding agent operating directly on the user's codebase.\nYou are a world-class software engineer with deep expertise across all programming languages, frameworks, design patterns, and best practices.\n\nYou operate in an agentic loop: the user sends a message, you think and optionally call tools, tools execute and return results, and you continue until the task is complete. You have direct access to the filesystem, shell, and search tools.\n\nYour primary directives:\n1. COMPLETE THE TASK. Do not stop halfway. If you start modifying code, finish the modification, ensure it compiles/runs, and verify with tests.\n2. BE PRECISE. When editing files, write the complete corrected content. Never use placeholder comments.\n3. VERIFY YOUR WORK. After making changes, run the relevant tests or build commands to confirm nothing is broken.\n4. MINIMIZE DISRUPTION. Make the smallest change that correctly solves the problem. Do not refactor unrelated code.\n5. EXPLAIN YOUR REASONING. Before making changes, briefly explain what you're about to do and why.\n</identity>"@
}

pub open spec fn coding_text() -> Seq<char> {
    "<coding_guidelines>\nAlways prioritize idiomatic code for the specific language environment.\n</coding_guidelines>"@
}

pub open spec fn safety_text(mode: Seq<char>) -> Seq<char> {
    "<safety>\nYou are running in permission mode: "@ + mode
        + ".\nRespect all security boundaries. When executing destructive bash commands, always confirm safety.\n</safety>"@
}

pub open spec fn memory_text() -> Seq<char> {
    "<memory>\nAlways check your context memory (MEMORY.md) for architectural guidelines before commencing work.\n</memory>"@
}

pub open spec fn environment_text(working_dir: Seq<char>, state_dir: Seq<char>) -> Seq<char> {
    "<environment>\nWorking directory: "@ + working_dir + "\nState directory: "@ + state_dir
        + "\n</environment>"@
}

/// The whole prompt: the sections, separated by blank lines.
pub open spec fn prompt_text(c: PromptConfig) -> Seq<char> {
    identity_text() + "\n\n"@ + coding_text() + "\n\n"@ + safety_text(c.permission_mode@) + "\n\n"@
        + memory_text() + "\n\n"@ + environment_text(c.working_dir@, c.state_dir@)
}

impl SystemPromptBuilder {
    /// The system prompt for the given configuration.
    pub fn build(config: &PromptConfig) -> (r: String)
        ensures
            r@ == prompt_text(*config),
    {
        let mut r = Self::identity_section();
        push_str(&mut r, "\n\n");
        let c = Self::coding_guidelines_section();
        push_str(&mut r, c.as_str());
        push_str(&mut r, "\n\n");
        let s = Self::safety_section(config);
        push_str(&mut r, s.as_str());
        push_str(&mut r, "\n\n");
        let m = Self::memory_section();
        push_str(&mut r, m.as_str());
        push_str(&mut r, "\n\n");
        let e = Self::environment_section(config);
        push_str(&mut r, e.as_str());
        r
    }

    /// Who the agent is and its directives.
    pub fn identity_section() -> (r: String)
        ensures
            r@ == identity_text(),
    {
        copy_str("<identity>\nYou are DreamSwarm, an autonomous AI coding agent operating directly on the user's codebase.\nYou are a world-class software engineer with deep expertise across all programming languages, frameworks, design patterns, and best practices.\n\nYou operate in an agentic loop: the user sends a message, you think and optionally call tools, tools execute and return results, and you continue until the task is complete. You have direct access to the filesystem, shell, and search tools.\n\nYour primary directives:\n1. COMPLETE THE TASK. Do not stop halfway. If you start modifying code, finish the modification, ensure it compiles/runs, and verify with tests.\n2. BE PRECISE. When editing files, write the complete corrected content. Never use placeholder comments.\n3. VERIFY YOUR WORK. After making changes, run the relevant tests or build commands to confirm nothing is broken.\n4. MINIMIZE DISRUPTION. Make the smallest change that correctly solves the problem. Do not refactor unrelated code.\n5. EXPLAIN YOUR REASONING. Before making changes, briefly explain what you're about to do and why.\n</identity>")
    }

    /// The coding guidelines.
    pub fn coding_guidelines_section() -> (r: String)
        ensures
            r@ == coding_text(),
    {
        copy_str("<coding_guidelines>\nAlways prioritize idiomatic code for the specific language environment.\n</coding_guidelines>")
    }

    /// The permission mode and safety rules.
    pub fn safety_section(config: &PromptConfig) -> (r: String)
        ensures
            r@ == safety_text(config.permission_mode@),
    {
        let mut r = copy_str("<safety>\nYou are running in permission mode: ");
        push_str(&mut r, config.permission_mode.as_str());
        push_str(&mut r, ".\nRespect all security boundaries. When executing destructive bash commands, always confirm safety.\n</safety>");
        r
    }

    /// Where memory guidance lives.
    pub fn memory_section() -> (r: String)
        ensures
            r@ == memory_text(),
    {
        copy_str("<memory>\nAlways check your context memory (MEMORY.md) for architectural guidelines before commencing work.\n</memory>")
    }

    /// The working and state directories.
    pub fn environment_section(config: &PromptConfig) -> (r: String)
        ensures
            r@ == environment_text(config.working_dir@, config.state_dir@),
    {
        let mut r = copy_str("<environment>\nWorking directory: ");
        push_str(&mut r, config.working_dir.as_str());
        push_str(&mut r, "\nState directory: ");
        push_str(&mut r, config.state_dir.as_str());
        push_str(&mut r, "\n</environment>");
        r
    }
}

} // verus!
