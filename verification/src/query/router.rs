//! The model router: which provider a request goes to first, and the order
//! in which the others are tried when it fails.
use vstd::prelude::*;
use crate::text::{chars_of, contains, contains_vec, copy_str, lowercase, str_eq, to_lowercase};

verus! {

/// How demanding a request looks.
#[derive(Debug, Clone, Copy, PartialEq, Eq, Structural)]
pub enum Complexity {
    Low,
    Medium,
    High,
}

/// What the router optimises for.
#[derive(Debug, Clone, Copy, PartialEq, Eq, Structural)]
pub enum RoutingPolicy {
    Cost,
    Performance,
    /// Any other policy: the primary provider.
    Default,
}

/// The complexity of a request, by its text (the system prompt and the
/// messages, in any case): architecture, refactoring or a security audit is
/// high; a summary, cleanup or formatting is low; the rest medium.
pub open spec fn complexity_of(text: Seq<char>) -> Complexity {
    let t = lowercase(text);
    if contains(t, "architect"@) || contains(t, "refactor"@) || contains(t, "security audit"@) {
        Complexity::High
    } else if contains(t, "summarize"@) || contains(t, "cleanup"@) || contains(t, "formatting"@) {
        Complexity::Low
    } else {
        Complexity::Medium
    }
}

/// The provider a request goes to first.
pub open spec fn target_of(policy: RoutingPolicy, c: Complexity) -> Seq<char> {
    match policy {
        RoutingPolicy::Cost => if c == Complexity::Low {
            "deepseek"@
        } else {
            "anthropic"@
        },
        _ => "anthropic"@,
    }
}

/// The providers in the order of fallback.
pub open spec fn hierarchy() -> Seq<Seq<char>> {
    seq!["anthropic"@, "openai"@, "deepseek"@, "ollama"@]
}

/// The position of `name` in the hierarchy, 0 when it is not there.
pub open spec fn start_of(name: Seq<char>) -> int {
    if name == "anthropic"@ {
        0
    } else if name == "openai"@ {
        1
    } else if name == "deepseek"@ {
        2
    } else if name == "ollama"@ {
        3
    } else {
        0
    }
}

/// Routes requests over the configured providers.
pub struct ModelRouter {
    policy: RoutingPolicy,
}

fn has(v: &Vec<char>, p: &str) -> (b: bool)
    ensures
        b == contains(v@, p@),
{
    contains_vec(v, &chars_of(p))
}

/// The provider at position `k` of the hierarchy.
fn provider_at(k: usize) -> (r: &'static str)
    requires
        k < 4,
    ensures
        r@ == hierarchy()[k as int],
{
    if k == 0 {
        "anthropic"
    } else if k == 1 {
        "openai"
    } else if k == 2 {
        "deepseek"
    } else {
        "ollama"
    }
}

impl ModelRouter {
    pub closed spec fn policy_view(&self) -> RoutingPolicy {
        self.policy
    }

    /// A router following `policy`.
    pub fn new(policy: RoutingPolicy) -> (r: Self)
        ensures
            r.policy_view() == policy,
    {
        ModelRouter { policy }
    }

    /// The router's name as a model.
    pub fn model_name(&self) -> (r: &'static str)
        ensures
            r@ == "galactic-router"@,
    {
        "galactic-router"
    }

    /// How demanding a request looks, by its text.
    pub fn estimate_complexity(text: &str) -> (r: Complexity)
        ensures
            r == complexity_of(text@),
    {
        let low = to_lowercase(text);
        let t = chars_of(low.as_str());
        if has(&t, "architect") || has(&t, "refactor") || has(&t, "security audit") {
            Complexity::High
        } else if has(&t, "summarize") || has(&t, "cleanup") || has(&t, "formatting") {
            Complexity::Low
        } else {
            Complexity::Medium
        }
    }

    /// The provider a request of complexity `c` goes to first: DeepSeek for
    /// light work under the cost policy, else Anthropic.
    pub fn select_provider(&self, c: Complexity) -> (r: String)
        ensures
            r@ == target_of(self.policy_view(), c),
    {
        match self.policy {
            RoutingPolicy::Cost => match c {
                Complexity::Low => copy_str("deepseek"),
                _ => copy_str("anthropic"),
            },
            _ => copy_str("anthropic"),
        }
    }

    /// The providers to try, in order: from the target down the hierarchy
    /// (from the top when the target is not in it).
    pub fn fallback_order(target: &str) -> (r: Vec<String>)
        ensures
            r.deep_view() == hierarchy().skip(start_of(target@)),
    {
        let start: usize = if str_eq(target, "anthropic") {
            0
        } else if str_eq(target, "openai") {
            1
        } else if str_eq(target, "deepseek") {
            2
        } else if str_eq(target, "ollama") {
            3
        } else {
            0
        };
        let mut r: Vec<String> = Vec::new();
        let mut k = start;
        while k < 4
            invariant
                start <= k <= 4,
                start == start_of(target@),
                r.deep_view() == hierarchy().subrange(start as int, k as int),
            decreases 4 - k,
        {
            let ghost before = r.deep_view();
            let name = copy_str(provider_at(k));
            r.push(name);
            proof {
                assert(r.deep_view() =~= before.push(name@));
                assert(hierarchy().subrange(start as int, k + 1) =~= hierarchy().subrange(start as int, k as int).push(hierarchy()[k as int]));
            }
            k = k + 1;
        }
        assert(hierarchy().subrange(start as int, 4) =~= hierarchy().skip(start as int));
        r
    }

    /// What the router reports when every provider failed.
    pub fn exhausted_message() -> (r: String)
        ensures
            r@ == "Galactic Router: All cognitive providers exhausted hierarchy."@,
    {
        copy_str("Galactic Router: All cognitive providers exhausted hierarchy.")
    }
}

} // verus!
