//! The workers launched for a swarm mission.
use vstd::prelude::*;
use crate::text::{copy_str, push_str};

verus! {

/// The instructions a worker of the given kind gets for `mission`.
pub open spec fn worker_task(kind: int, mission: Seq<char>) -> Seq<char> {
    if kind == 0 {
        "Plan the design and file structure for the following task. Do NOT write code yet \u{2014} produce a concise implementation plan only.\n\nTask: "@ + mission
    } else if kind == 1 {
        "Implement the following task. Write all necessary code, following the project's existing patterns. Be thorough and complete.\n\nTask: "@ + mission
    } else if kind == 2 {
        "Write comprehensive unit tests and integration tests for the following task. Ensure all edge cases are covered and tests pass.\n\nTask: "@ + mission
    } else {
        "Review the implementation for correctness, performance, and style. Suggest and apply improvements.\n\nTask: "@ + mission
    }
}

/// The name (and role) of the worker of the given kind.
pub open spec fn worker_name(kind: int) -> Seq<char> {
    if kind == 0 {
        "architect"@
    } else if kind == 1 {
        "coder"@
    } else if kind == 2 {
        "tester"@
    } else {
        "inspector"@
    }
}

/// The four candidate workers: architect, coder, tester, inspector.
pub open spec fn candidate_workers(mission: Seq<char>) -> Seq<(Seq<char>, Seq<char>, Seq<char>)> {
    Seq::new(4, |k: int| (worker_name(k), worker_name(k), worker_task(k, mission)))
}

/// The views of `(name, role, task)` triples.
pub open spec fn triples_view(v: Seq<(String, String, String)>) -> Seq<(Seq<char>, Seq<char>, Seq<char>)> {
    v.map_values(|t: (String, String, String)| (t.0@, t.1@, t.2@))
}

fn worker(kind: usize, mission: &str) -> (r: (String, String, String))
    requires
        kind < 4,
    ensures
        (r.0@, r.1@, r.2@) == (worker_name(kind as int), worker_name(kind as int), worker_task(kind as int, mission@)),
{
    let name: &str = if kind == 0 {
        "architect"
    } else if kind == 1 {
        "coder"
    } else if kind == 2 {
        "tester"
    } else {
        "inspector"
    };
    let mut task = if kind == 0 {
        copy_str("Plan the design and file structure for the following task. Do NOT write code yet \u{2014} produce a concise implementation plan only.\n\nTask: ")
    } else if kind == 1 {
        copy_str("Implement the following task. Write all necessary code, following the project's existing patterns. Be thorough and complete.\n\nTask: ")
    } else if kind == 2 {
        copy_str("Write comprehensive unit tests and integration tests for the following task. Ensure all edge cases are covered and tests pass.\n\nTask: ")
    } else {
        copy_str("Review the implementation for correctness, performance, and style. Suggest and apply improvements.\n\nTask: ")
    };
    push_str(&mut task, mission);
    (copy_str(name), copy_str(name), task)
}

/// The first `max_workers` of the candidate workers for `mission`, as
/// `(name, role, task)`.
pub fn derive_worker_roles(mission: &str, max_workers: usize) -> (r: Vec<(String, String, String)>)
    ensures
        triples_view(r@) == candidate_workers(mission@).take(
            if max_workers < 4 { max_workers as int } else { 4 },
        ),
{
    let n: usize = if max_workers < 4 { max_workers } else { 4 };
    let mut r: Vec<(String, String, String)> = Vec::new();
    let mut k: usize = 0;
    while k < n
        invariant
            n <= 4,
            k <= n,
            triples_view(r@) == candidate_workers(mission@).take(k as int),
        decreases n - k,
    {
        let w = worker(k, mission);
        let ghost before = r@;
        r.push(w);
        proof {
            assert(triples_view(r@) =~= triples_view(before).push((w.0@, w.1@, w.2@)));
            assert(candidate_workers(mission@).take(k + 1) =~= candidate_workers(mission@).take(k as int).push(candidate_workers(mission@)[k as int]));
        }
        k = k + 1;
    }
    r
}

} // verus!
