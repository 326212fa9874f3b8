//! Swarm roles and the prompt fragment each one adds.
use vstd::prelude::*;
use crate::text::{lowercase, str_eq, to_lowercase};

verus! {

/// The role an agent plays in a swarm.
#[derive(Debug, Clone, Copy, PartialEq, Eq, Structural)]
pub enum SwarmRole {
    Lead,
    FrontendEngineer,
    SystemsProgrammer,
    SecurityResearcher,
    GeneralWorker,
}

/// The role a name stands for, matched case-insensitively; unknown names are
/// general workers.
pub open spec fn role_named(name: Seq<char>) -> SwarmRole {
    let l = lowercase(name);
    if l == "lead"@ {
        SwarmRole::Lead
    } else if l == "frontend"@ || l == "frontend-engineer"@ {
        SwarmRole::FrontendEngineer
    } else if l == "systems"@ || l == "systems-programmer"@ || l == "low-level"@ {
        SwarmRole::SystemsProgrammer
    } else if l == "security"@ || l == "security-researcher"@ || l == "auditor"@ {
        SwarmRole::SecurityResearcher
    } else {
        SwarmRole::GeneralWorker
    }
}

/// The prompt fragment of a role.
pub open spec fn fragment_of(role: SwarmRole) -> Seq<char> {
    match role {
        SwarmRole::Lead => "You are the Swarm Lead. Your goal is to coordinate tasks, maintain the high-level architecture, and ensure all sub-tasks are integrated correctly. Focus on delegation, review, and system-wide stability."@,
        SwarmRole::FrontendEngineer => "You are a Senior Frontend Engineer. Your expertise is in HTML, CSS, Javascript (React/Next.js). Focus on user experience, responsive design, accessibility (A11y), and clean, performant UI components. Use modern patterns and avoid bloated libraries unless necessary."@,
        SwarmRole::SystemsProgrammer => "You are a Senior Systems Programmer. Your expertise is in Rust, C++, and low-level system architecture. Focus on memory safety, zero-cost abstractions, multi-threading, and high-performance throughput. Ensure code is robust, well-documented, and follows idiomatic Rust patterns (RAII, Ownership, etc.)."@,
        SwarmRole::SecurityResearcher => "You are a Senior Security Researcher. Your goal is to identify vulnerabilities, perform threat modeling, and ensure the system is hardened against attacks. Focus on input validation, secure communication, sanitization, and defensive programming. Always look for potential edge cases that could lead to exploits."@,
        SwarmRole::GeneralWorker => "You are an Autonomous Swarm Worker. Follow instructions precisely, use your tools efficiently, and report findings clearly to the lead agent."@,
    }
}

impl SwarmRole {
    /// The role named `role` (case-insensitive); anything unknown is a general worker.
    pub fn from_str(role: &str) -> (r: Self)
        ensures
            r == role_named(role@),
    {
        let l = to_lowercase(role);
        let s = l.as_str();
        if str_eq(s, "lead") {
            SwarmRole::Lead
        } else if str_eq(s, "frontend") || str_eq(s, "frontend-engineer") {
            SwarmRole::FrontendEngineer
        } else if str_eq(s, "systems") || str_eq(s, "systems-programmer") || str_eq(s, "low-level") {
            SwarmRole::SystemsProgrammer
        } else if str_eq(s, "security") || str_eq(s, "security-researcher") || str_eq(s, "auditor") {
            SwarmRole::SecurityResearcher
        } else {
            SwarmRole::GeneralWorker
        }
    }

    /// The system-prompt fragment for this role.
    pub fn system_prompt_fragment(&self) -> (r: &'static str)
        ensures
            r@ == fragment_of(*self),
    {
        match self {
            SwarmRole::Lead => "You are the Swarm Lead. Your goal is to coordinate tasks, maintain the high-level architecture, and ensure all sub-tasks are integrated correctly. Focus on delegation, review, and system-wide stability.",
            SwarmRole::FrontendEngineer => "You are a Senior Frontend Engineer. Your expertise is in HTML, CSS, Javascript (React/Next.js). Focus on user experience, responsive design, accessibility (A11y), and clean, performant UI components. Use modern patterns and avoid bloated libraries unless necessary.",
            SwarmRole::SystemsProgrammer => "You are a Senior Systems Programmer. Your expertise is in Rust, C++, and low-level system architecture. Focus on memory safety, zero-cost abstractions, multi-threading, and high-performance throughput. Ensure code is robust, well-documented, and follows idiomatic Rust patterns (RAII, Ownership, etc.).",
            SwarmRole::SecurityResearcher => "You are a Senior Security Researcher. Your goal is to identify vulnerabilities, perform threat modeling, and ensure the system is hardened against attacks. Focus on input validation, secure communication, sanitization, and defensive programming. Always look for potential edge cases that could lead to exploits.",
            SwarmRole::GeneralWorker => "You are an Autonomous Swarm Worker. Follow instructions precisely, use your tools efficiently, and report findings clearly to the lead agent.",
        }
    }
}

} // verus!
