//! The HTTP API's requests and the decisions behind its handlers.
use vstd::prelude::*;
use crate::api::swarm_plan::{candidate_workers, derive_worker_roles, triples_view};
use crate::text::{chars_of, copy_str, copy_strings, trim, trim_bounds};

verus! {

/// A memory search: the query text.
#[derive(Debug)]
pub struct SearchQuery {
    pub q: String,
}

/// One memory search hit.
#[derive(Debug)]
pub struct SearchResult {
    pub path: String,
    pub content: String,
}

/// A partial settings update: only what changed is given.
#[derive(Debug)]
pub struct ConfigPatch {
    pub model: Option<String>,
    pub provider: Option<String>,
    pub permission_mode: Option<String>,
    pub routing_policy: Option<String>,
    pub allow_patterns: Option<Vec<String>>,
    pub deny_patterns: Option<Vec<String>>,
    pub ollama_endpoint: Option<String>,
    pub ollama_model: Option<String>,
}

/// The settings the API can change.
#[derive(Debug)]
pub struct ServerConfig {
    pub model: String,
    pub provider: String,
    pub permission_mode: String,
    pub routing_policy: String,
    pub allow_patterns: Vec<String>,
    pub deny_patterns: Vec<String>,
    /// The local model server: its endpoint and model.
    pub ollama: Option<(String, String)>,
}

/// A team for a swarm.
#[derive(Debug)]
pub struct TeamConfig {
    pub team_name: String,
    pub max_workers: usize,
}

/// A swarm launch from the dashboard.
#[derive(Debug)]
pub struct SwarmLaunchRequest {
    pub mission: String,
    pub team_config: Option<TeamConfig>,
}

/// The value a patch field leaves: the new one when given, else the old.
pub open spec fn patched(new: Option<String>, old: Seq<char>) -> Seq<char> {
    match new {
        Some(s) => s@,
        None => old,
    }
}

/// The patterns a patch field leaves.
pub open spec fn patched_list(new: Option<Vec<String>>, old: Seq<Seq<char>>) -> Seq<Seq<char>> {
    match new {
        Some(v) => v.deep_view(),
        None => old,
    }
}

/// The local model server after a patch: untouched when the patch names
/// neither its endpoint nor its model; else created with the defaults when
/// missing, then given what the patch names.
pub open spec fn patched_ollama(p: ConfigPatch, old: Option<(String, String)>) -> Option<(Seq<char>, Seq<char>)> {
    let base: Option<(Seq<char>, Seq<char>)> = match old {
        Some(o) => Some((o.0@, o.1@)),
        None => None,
    };
    if p.ollama_endpoint is None && p.ollama_model is None {
        base
    } else {
        let (e, m) = match base {
            Some(b) => b,
            None => ("http://localhost:11434"@, "llama3.1:8b"@),
        };
        Some((patched(p.ollama_endpoint, e), patched(p.ollama_model, m)))
    }
}

pub open spec fn ollama_view(o: Option<(String, String)>) -> Option<(Seq<char>, Seq<char>)> {
    match o {
        Some(x) => Some((x.0@, x.1@)),
        None => None,
    }
}

/// The workers a launch spawns: none for a blank mission; else the first
/// candidates, at most four.
pub open spec fn launch_workers(mission: Seq<char>, max_workers: nat) -> Seq<(Seq<char>, Seq<char>, Seq<char>)> {
    candidate_workers(mission).take(if max_workers <= 4 { max_workers as int } else { 4 })
}

fn take_opt(o: &Option<String>, old: &String) -> (r: String)
    ensures
        r@ == patched(*o, old@),
{
    match o {
        Some(s) => copy_str(s.as_str()),
        None => copy_str(old.as_str()),
    }
}

fn take_list(o: &Option<Vec<String>>, old: &Vec<String>) -> (r: Vec<String>)
    ensures
        r.deep_view() == patched_list(*o, old.deep_view()),
{
    match o {
        Some(v) => copy_strings(v),
        None => copy_strings(old),
    }
}

impl ConfigPatch {
    /// The settings after this patch: each field given replaces the old one
    /// (the permission mode only when it names a mode, as `mode_parses`
    /// says); naming the local model server's endpoint or model creates it
    /// with its defaults when it is missing.
    pub fn apply(&self, cfg: &ServerConfig, mode_parses: bool) -> (r: ServerConfig)
        ensures
            r.model@ == patched(self.model, cfg.model@),
            r.provider@ == patched(self.provider, cfg.provider@),
            r.permission_mode@ == if mode_parses {
                patched(self.permission_mode, cfg.permission_mode@)
            } else {
                cfg.permission_mode@
            },
            r.routing_policy@ == patched(self.routing_policy, cfg.routing_policy@),
            r.allow_patterns.deep_view() == patched_list(self.allow_patterns, cfg.allow_patterns.deep_view()),
            r.deny_patterns.deep_view() == patched_list(self.deny_patterns, cfg.deny_patterns.deep_view()),
            ollama_view(r.ollama) == patched_ollama(*self, cfg.ollama),
    {
        let permission_mode = if mode_parses {
            take_opt(&self.permission_mode, &cfg.permission_mode)
        } else {
            copy_str(cfg.permission_mode.as_str())
        };
        let ollama = if self.ollama_endpoint.is_none() && self.ollama_model.is_none() {
            match &cfg.ollama {
                Some(o) => Some((copy_str(o.0.as_str()), copy_str(o.1.as_str()))),
                None => None,
            }
        } else {
            let (e, m) = match &cfg.ollama {
                Some(o) => (copy_str(o.0.as_str()), copy_str(o.1.as_str())),
                None => (copy_str("http://localhost:11434"), copy_str("llama3.1:8b")),
            };
            Some((take_opt(&self.ollama_endpoint, &e), take_opt(&self.ollama_model, &m)))
        };
        ServerConfig {
            model: take_opt(&self.model, &cfg.model),
            provider: take_opt(&self.provider, &cfg.provider),
            permission_mode,
            routing_policy: take_opt(&self.routing_policy, &cfg.routing_policy),
            allow_patterns: take_list(&self.allow_patterns, &cfg.allow_patterns),
            deny_patterns: take_list(&self.deny_patterns, &cfg.deny_patterns),
            ollama,
        }
    }
}

/// The workers a swarm launch spawns, as (name, role, instructions): refused
/// with "Mission cannot be empty" when the mission is blank; else one worker
/// per role, as many as the team allows up to four.
pub fn swarm_launch_plan(mission: &str, max_workers: usize) -> (r: Result<Vec<(String, String, String)>, String>)
    ensures
        match r {
            Ok(v) => trim(mission@).len() > 0 && triples_view(v@) == launch_workers(mission@, max_workers as nat),
            Err(e) => trim(mission@).len() == 0 && e@ == "Mission cannot be empty"@,
        },
{
    let v = chars_of(mission);
    let (lo, hi) = trim_bounds(&v, 0, v.len());
    proof {
        assert(v@.subrange(0, v.len() as int) =~= v@);
    }
    if lo == hi {
        return Err(copy_str("Mission cannot be empty"));
    }
    let n = if max_workers <= 4 {
        max_workers
    } else {
        4
    };
    Ok(derive_worker_roles(mission, n))
}

} // verus!
