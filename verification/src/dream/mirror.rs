//! The mirror: the swarm looking at its own recent history.
//!
//! A snapshot counts what the daily log of the last days holds: decisions,
//! errors and tokens overall, and for each session its actions, its errors,
//! and whether its agent is stuck repeating the same tool call.
use vstd::prelude::*;
use crate::daemon::daily_log::{token_sum, LogEntry, LogEntryKind};
use crate::dream::analyzer::{field_or, or_default};
use crate::dream::types::{MemoryOperation, OperationKind};
use crate::text::{copy_str, str_eq, strings_contain, strings_eq};

verus! {

/// Reflects on the swarm's recent history.
#[derive(Debug)]
pub struct MirrorEngine {
    state_dir: String,
}

/// The vital signs of one agent (one session).
#[derive(Debug, Clone, Copy, PartialEq, Eq, Structural)]
pub struct AgentVitals {
    /// The position, among the entries read, of the session's last action.
    pub last_tool_call: Option<usize>,
    /// The number of tool calls when the agent is stuck in a loop, else 0.
    pub tool_loop_count: usize,
    /// The number of distinct tool calls.
    pub distinct_tool_calls: usize,
    /// The number of tool calls.
    pub tool_calls: usize,
    /// The last three tool calls were the same call.
    pub is_stalled: bool,
}

/// How one agent (one session) fared.
#[derive(Debug, Clone, Copy, PartialEq, Eq, Structural)]
pub struct AgentHealth {
    pub success_count: usize,
    pub conflict_count: usize,
    pub vitals: AgentVitals,
}

/// What the mirror sees in the recent log.
#[derive(Debug)]
pub struct MirrorSnapshot {
    /// Decisions taken, at least 1.
    pub total_ops: usize,
    pub total_tokens: u64,
    /// Errors recorded.
    pub conflicts: usize,
    pub most_volatile_topic: Option<String>,
    /// Each session, in the order it first appears, with its health.
    pub agent_performance: Vec<(String, AgentHealth)>,
}

/// A tool call, as the mirror tells calls apart: the tools used and the
/// content recorded.
pub open spec fn signature(e: LogEntry) -> (Seq<Seq<char>>, Seq<char>) {
    (e.tools_used.deep_view(), e.content@)
}

/// The entry belongs to session `sid`.
pub open spec fn in_session(e: LogEntry, sid: Seq<char>) -> bool {
    match e.session_id {
        Some(s) => s@ == sid,
        None => false,
    }
}

/// The entries of kind `kind`.
pub open spec fn count_kind(es: Seq<LogEntry>, kind: LogEntryKind) -> nat
    decreases es.len(),
{
    if es.len() == 0 {
        0
    } else {
        count_kind(es.drop_last(), kind) + if es.last().kind == kind {
            1nat
        } else {
            0nat
        }
    }
}

/// The entries of session `sid` of kind `kind`.
pub open spec fn count_in_session(es: Seq<LogEntry>, sid: Seq<char>, kind: LogEntryKind) -> nat
    decreases es.len(),
{
    if es.len() == 0 {
        0
    } else {
        count_in_session(es.drop_last(), sid, kind) + if in_session(es.last(), sid)
            && es.last().kind == kind {
            1nat
        } else {
            0nat
        }
    }
}

/// The tool calls of session `sid`, in order.
pub open spec fn tool_calls(es: Seq<LogEntry>, sid: Seq<char>) -> Seq<
    (Seq<Seq<char>>, Seq<char>),
>
    decreases es.len(),
{
    if es.len() == 0 {
        Seq::empty()
    } else if in_session(es.last(), sid) && es.last().kind == LogEntryKind::Action {
        tool_calls(es.drop_last(), sid).push(signature(es.last()))
    } else {
        tool_calls(es.drop_last(), sid)
    }
}

/// The position of the last action of session `sid`.
pub open spec fn last_action(es: Seq<LogEntry>, sid: Seq<char>) -> Option<int>
    decreases es.len(),
{
    if es.len() == 0 {
        None
    } else if in_session(es.last(), sid) && es.last().kind == LogEntryKind::Action {
        Some(es.len() - 1)
    } else {
        last_action(es.drop_last(), sid)
    }
}

/// The number of distinct values in `s`.
pub open spec fn distinct_count<A>(s: Seq<A>) -> nat
    decreases s.len(),
{
    if s.len() == 0 {
        0
    } else {
        distinct_count(s.drop_last()) + if s.drop_last().contains(s.last()) {
            0nat
        } else {
            1nat
        }
    }
}

/// The last three calls are the same call.
pub open spec fn stalled<A>(calls: Seq<A>) -> bool {
    calls.len() >= 3 && calls[calls.len() - 1] == calls[calls.len() - 3] && calls[calls.len()
        - 2] == calls[calls.len() - 3]
}

/// The sessions of the entries, in the order they first appear.
pub open spec fn sessions(es: Seq<LogEntry>) -> Seq<Seq<char>>
    decreases es.len(),
{
    if es.len() == 0 {
        Seq::empty()
    } else {
        let before = sessions(es.drop_last());
        match es.last().session_id {
            Some(s) => if before.contains(s@) {
                before
            } else {
                before.push(s@)
            },
            None => before,
        }
    }
}

/// `h` is the health of session `sid` over the entries.
pub open spec fn health_of(h: AgentHealth, es: Seq<LogEntry>, sid: Seq<char>) -> bool {
    let calls = tool_calls(es, sid);
    &&& h.success_count == count_in_session(es, sid, LogEntryKind::Action)
    &&& h.conflict_count == count_in_session(es, sid, LogEntryKind::Error)
    &&& h.vitals.last_tool_call == match last_action(es, sid) {
        Some(p) => Some(p as usize),
        None => None::<usize>,
    }
    &&& h.vitals.tool_calls == calls.len()
    &&& h.vitals.distinct_tool_calls == distinct_count(calls)
    &&& h.vitals.is_stalled == stalled(calls)
    &&& h.vitals.tool_loop_count == if stalled(calls) {
        calls.len()
    } else {
        0
    }
}

/// One item of the JSON array the mirror's reflection returns: each field as a
/// string when the item holds it as one.
#[derive(Debug)]
pub struct RawInsight {
    pub kind: Option<String>,
    pub reasoning: Option<String>,
    pub agent_id: Option<String>,
    pub reason: Option<String>,
    pub new_instructions: Option<String>,
}

/// The kind an insight names ("" when it names none).
pub open spec fn insight_kind(raw: RawInsight) -> Seq<char> {
    or_default(raw.kind, ""@)
}

/// The insight names one of the two kinds the mirror acts on.
pub open spec fn is_insight(raw: RawInsight) -> bool {
    insight_kind(raw) == "heal_agent"@ || insight_kind(raw) == "refine_instructions"@
}

/// `op` is the operation built from insight `raw`: healing an agent
/// (under "Resilience") or refining its instructions (under "Optimization"),
/// filed under the agent's id, with no content.
pub open spec fn insight_op(op: MemoryOperation, raw: RawInsight) -> bool {
    let agent = or_default(raw.agent_id, "unknown"@);
    &&& op.subtopic@ == agent
    &&& op.content@ == Seq::<char>::empty()
    &&& op.reasoning@ == or_default(raw.reasoning, "No reasoning provided"@)
    &&& if insight_kind(raw) == "heal_agent"@ {
        &&& op.topic@ == "Resilience"@
        &&& op.kind matches OperationKind::HealAgent { agent_id, reason }
        &&& agent_id@ == agent
        &&& reason@ == or_default(raw.reason, "Unknown stall"@)
    } else {
        &&& op.topic@ == "Optimization"@
        &&& op.kind matches OperationKind::RefineInstructions { agent_id, new_instructions }
        &&& agent_id@ == agent
        &&& new_instructions@ == or_default(raw.new_instructions, ""@)
    }
}

/// The positions of the items below `n` that are insights.
pub open spec fn insight_positions(items: Seq<RawInsight>, n: int) -> Seq<int>
    decreases n,
{
    if n <= 0 {
        Seq::empty()
    } else if is_insight(items[n - 1]) {
        insight_positions(items, n - 1).push(n - 1)
    } else {
        insight_positions(items, n - 1)
    }
}

proof fn lemma_counts_bounded(es: Seq<LogEntry>, sid: Seq<char>, kind: LogEntryKind)
    ensures
        count_kind(es, kind) <= es.len(),
        count_in_session(es, sid, kind) <= es.len(),
        tool_calls(es, sid).len() <= es.len(),
        sessions(es).len() <= es.len(),
    decreases es.len(),
{
    if es.len() > 0 {
        lemma_counts_bounded(es.drop_last(), sid, kind);
    }
}

proof fn lemma_distinct_bounded<A>(s: Seq<A>)
    ensures
        distinct_count(s) <= s.len(),
    decreases s.len(),
{
    if s.len() > 0 {
        lemma_distinct_bounded(s.drop_last());
    }
}

proof fn lemma_token_sum_prefix(es: Seq<LogEntry>, i: int)
    requires
        0 <= i <= es.len(),
    ensures
        token_sum(es.take(i)) <= token_sum(es),
    decreases es.len() - i,
{
    if i < es.len() {
        lemma_token_sum_prefix(es, i + 1);
        assert(es.take(i + 1).drop_last() =~= es.take(i));
    } else {
        assert(es.take(i) =~= es);
    }
}

proof fn lemma_last_action_range(es: Seq<LogEntry>, sid: Seq<char>)
    ensures
        match last_action(es, sid) {
            Some(p) => 0 <= p < es.len(),
            None => true,
        },
    decreases es.len(),
{
    if es.len() > 0 {
        lemma_last_action_range(es.drop_last(), sid);
    }
}

/// The session of `e`, as a plain comparison.
fn entry_in_session(e: &LogEntry, sid: &str) -> (b: bool)
    ensures
        b == in_session(*e, sid@),
{
    match &e.session_id {
        Some(s) => str_eq(s.as_str(), sid),
        None => false,
    }
}

/// Whether two entries record the same tool call.
fn same_call(a: &LogEntry, b: &LogEntry) -> (r: bool)
    ensures
        r == (signature(*a) == signature(*b)),
{
    strings_eq(&a.tools_used, &b.tools_used) && str_eq(a.content.as_str(), b.content.as_str())
}

impl MirrorEngine {
    pub closed spec fn state_view(&self) -> Seq<char> {
        self.state_dir@
    }

    /// A mirror over the daemon state under `state_dir`.
    pub fn new(state_dir: String) -> (r: Self)
        ensures
            r.state_view() == state_dir@,
    {
        MirrorEngine { state_dir }
    }

    /// The daemon state directory.
    pub fn state_dir(&self) -> (r: &String)
        ensures
            r@ == self.state_view(),
    {
        &self.state_dir
    }

    /// The operation an insight asks for; `None` when it names another kind.
    pub fn insight_from_raw(raw: &RawInsight) -> (r: Option<MemoryOperation>)
        ensures
            match r {
                Some(op) => is_insight(*raw) && insight_op(op, *raw),
                None => !is_insight(*raw),
            },
    {
        let kind = field_or(&raw.kind, "");
        let reasoning = field_or(&raw.reasoning, "No reasoning provided");
        if str_eq(kind.as_str(), "heal_agent") {
            Some(
                MemoryOperation {
                    kind: OperationKind::HealAgent {
                        agent_id: field_or(&raw.agent_id, "unknown"),
                        reason: field_or(&raw.reason, "Unknown stall"),
                    },
                    topic: copy_str("Resilience"),
                    subtopic: field_or(&raw.agent_id, "unknown"),
                    content: String::new(),
                    reasoning,
                },
            )
        } else if str_eq(kind.as_str(), "refine_instructions") {
            Some(
                MemoryOperation {
                    kind: OperationKind::RefineInstructions {
                        agent_id: field_or(&raw.agent_id, "unknown"),
                        new_instructions: field_or(&raw.new_instructions, ""),
                    },
                    topic: copy_str("Optimization"),
                    subtopic: field_or(&raw.agent_id, "unknown"),
                    content: String::new(),
                    reasoning,
                },
            )
        } else {
            None
        }
    }

    /// The operations the items of a reflection ask for, in order; items of
    /// other kinds are skipped (a reply that is no JSON array decodes to no
    /// items).
    pub fn parse_mirror_insights(items: &Vec<RawInsight>) -> (r: Vec<MemoryOperation>)
        ensures
            r.len() == insight_positions(items@, items.len() as int).len(),
            forall|k: int|
                0 <= k < r.len() ==> insight_op(
                    #[trigger] r@[k],
                    items@[insight_positions(items@, items.len() as int)[k]],
                ),
    {
        let mut r: Vec<MemoryOperation> = Vec::new();
        let mut i: usize = 0;
        while i < items.len()
            invariant
                i <= items.len(),
                r.len() == insight_positions(items@, i as int).len(),
                forall|k: int|
                    0 <= k < r.len() ==> insight_op(
                        #[trigger] r@[k],
                        items@[insight_positions(items@, i as int)[k]],
                    ),
            decreases items.len() - i,
        {
            let ghost before = insight_positions(items@, i as int);
            match Self::insight_from_raw(&items[i]) {
                Some(op) => {
                    r.push(op);
                    assert(insight_positions(items@, i + 1) == before.push(i as int));
                },
                None => {},
            }
            i = i + 1;
        }
        r
    }

    /// The sessions of the entries, in the order they first appear.
    fn session_ids(es: &Vec<LogEntry>) -> (r: Vec<String>)
        ensures
            r.deep_view() == sessions(es@),
    {
        let mut r: Vec<String> = Vec::new();
        let mut i: usize = 0;
        while i < es.len()
            invariant
                i <= es.len(),
                r.deep_view() == sessions(es@.take(i as int)),
            decreases es.len() - i,
        {
            proof {
                assert(es@.take(i + 1).drop_last() =~= es@.take(i as int));
            }
            match &es[i].session_id {
                Some(s) => {
                    if !strings_contain(&r, s.as_str()) {
                        let ghost before = r.deep_view();
                        r.push(copy_str(s.as_str()));
                        assert(r.deep_view() =~= before.push(s@));
                    }
                },
                None => {},
            }
            i = i + 1;
        }
        assert(es@.take(es.len() as int) =~= es@);
        r
    }

    /// The health of session `sid` over the entries.
    fn health(es: &Vec<LogEntry>, sid: &str) -> (h: AgentHealth)
        ensures
            health_of(h, es@, sid@),
    {
        let mut actions: usize = 0;
        let mut errors: usize = 0;
        let mut last: Option<usize> = None;
        let mut distinct: usize = 0;
        // Positions of the session's actions, in order.
        let mut calls: Vec<usize> = Vec::new();
        let mut i: usize = 0;
        while i < es.len()
            invariant
                i <= es.len(),
                actions == count_in_session(es@.take(i as int), sid@, LogEntryKind::Action),
                errors == count_in_session(es@.take(i as int), sid@, LogEntryKind::Error),
                last == match last_action(es@.take(i as int), sid@) {
                    Some(p) => Some(p as usize),
                    None => None::<usize>,
                },
                calls.len() == tool_calls(es@.take(i as int), sid@).len(),
                forall|k: int|
                    0 <= k < calls.len() ==> #[trigger] calls@[k] < i && signature(es@[calls@[k] as int])
                        == tool_calls(es@.take(i as int), sid@)[k],
                distinct == distinct_count(tool_calls(es@.take(i as int), sid@)),
            decreases es.len() - i,
        {
            let ghost prev = es@.take(i as int);
            proof {
                assert(es@.take(i + 1).drop_last() =~= prev);
                lemma_counts_bounded(prev, sid@, LogEntryKind::Action);
                lemma_counts_bounded(prev, sid@, LogEntryKind::Error);
                lemma_distinct_bounded(tool_calls(prev, sid@));
            }
            if entry_in_session(&es[i], sid) {
                if es[i].kind == LogEntryKind::Action {
                    let mut seen = false;
                    let mut k: usize = 0;
                    while k < calls.len()
                        invariant
                            k <= calls.len(),
                            i < es.len(),
                            forall|q: int| 0 <= q < calls.len() ==> #[trigger] calls@[q] < es.len(),
                            seen == exists|q: int|
                                0 <= q < k && signature(es@[#[trigger] calls@[q] as int])
                                    == signature(es@[i as int]),
                        decreases calls.len() - k,
                    {
                        if same_call(&es[calls[k]], &es[i]) {
                            seen = true;
                        }
                        k = k + 1;
                    }
                    proof {
                        let tc = tool_calls(prev, sid@);
                        assert(seen == tc.contains(signature(es@[i as int]))) by {
                            if seen {
                                let q = choose|q: int|
                                    0 <= q < calls.len() && signature(es@[#[trigger] calls@[q] as int])
                                        == signature(es@[i as int]);
                                assert(tc[q] == signature(es@[i as int]));
                            }
                            if tc.contains(signature(es@[i as int])) {
                                let q = choose|q: int| 0 <= q < tc.len() && tc[q] == signature(es@[i as int]);
                                assert(signature(es@[calls@[q] as int]) == signature(es@[i as int]));
                            }
                        }
                        assert(tool_calls(es@.take(i + 1), sid@) == tc.push(signature(es@[i as int])));
                        assert(tool_calls(es@.take(i + 1), sid@).drop_last() =~= tc);
                    }
                    if !seen {
                        distinct = distinct + 1;
                    }
                    actions = actions + 1;
                    last = Some(i);
                    calls.push(i);
                } else if es[i].kind == LogEntryKind::Error {
                    errors = errors + 1;
                }
            }
            i = i + 1;
        }
        proof {
            assert(es@.take(es.len() as int) =~= es@);
        }
        let n = calls.len();
        let ghost tc = tool_calls(es@, sid@);
        let mut stuck = false;
        if n >= 3 {
            stuck = same_call(&es[calls[n - 1]], &es[calls[n - 3]]) && same_call(
                &es[calls[n - 2]],
                &es[calls[n - 3]],
            );
            proof {
                assert(tc[n - 1] == signature(es@[calls@[n - 1] as int]));
                assert(tc[n - 2] == signature(es@[calls@[n - 2] as int]));
                assert(tc[n - 3] == signature(es@[calls@[n - 3] as int]));
            }
        }
        let loops = if stuck {
            n
        } else {
            0
        };
        AgentHealth {
            success_count: actions,
            conflict_count: errors,
            vitals: AgentVitals {
                last_tool_call: last,
                tool_loop_count: loops,
                distinct_tool_calls: distinct,
                tool_calls: n,
                is_stalled: stuck,
            },
        }
    }

    /// The snapshot of the recent log entries (the last days' entries, oldest
    /// first): decisions (at least 1), tokens and errors overall, and the
    /// health of each session in the order sessions first appear.
    pub fn generate_snapshot(&self, recent: &Vec<LogEntry>) -> (r: MirrorSnapshot)
        requires
            token_sum(recent@) <= u64::MAX,
        ensures
            r.total_ops == if count_kind(recent@, LogEntryKind::Decision) == 0 {
                1
            } else {
                count_kind(recent@, LogEntryKind::Decision)
            },
            r.total_tokens == token_sum(recent@),
            r.conflicts == count_kind(recent@, LogEntryKind::Error),
            r.most_volatile_topic is None,
            r.agent_performance.len() == sessions(recent@).len(),
            forall|k: int|
                0 <= k < r.agent_performance.len() ==> (#[trigger] r.agent_performance@[k]).0@
                    == sessions(recent@)[k] && health_of(
                    r.agent_performance@[k].1,
                    recent@,
                    sessions(recent@)[k],
                ),
    {
        let mut tokens: u64 = 0;
        let mut decisions: usize = 0;
        let mut errors: usize = 0;
        let mut i: usize = 0;
        while i < recent.len()
            invariant
                i <= recent.len(),
                token_sum(recent@) <= u64::MAX,
                tokens == token_sum(recent@.take(i as int)),
                decisions == count_kind(recent@.take(i as int), LogEntryKind::Decision),
                errors == count_kind(recent@.take(i as int), LogEntryKind::Error),
            decreases recent.len() - i,
        {
            proof {
                assert(recent@.take(i + 1).drop_last() =~= recent@.take(i as int));
                lemma_token_sum_prefix(recent@, i + 1);
                lemma_counts_bounded(recent@.take(i as int), Seq::empty(), LogEntryKind::Decision);
                lemma_counts_bounded(recent@.take(i as int), Seq::empty(), LogEntryKind::Error);
            }
            tokens = tokens + recent[i].tokens_consumed;
            if recent[i].kind == LogEntryKind::Decision {
                decisions = decisions + 1;
            }
            if recent[i].kind == LogEntryKind::Error {
                errors = errors + 1;
            }
            i = i + 1;
        }
        assert(recent@.take(recent.len() as int) =~= recent@);
        let ids = Self::session_ids(recent);
        let mut perf: Vec<(String, AgentHealth)> = Vec::new();
        let mut k: usize = 0;
        while k < ids.len()
            invariant
                k <= ids.len(),
                ids.deep_view() == sessions(recent@),
                perf.len() == k,
                forall|q: int|
                    0 <= q < k ==> (#[trigger] perf@[q]).0@ == sessions(recent@)[q] && health_of(
                        perf@[q].1,
                        recent@,
                        sessions(recent@)[q],
                    ),
            decreases ids.len() - k,
        {
            let h = Self::health(recent, ids[k].as_str());
            perf.push((copy_str(ids[k].as_str()), h));
            proof {
                assert(ids.deep_view()[k as int] == ids@[k as int]@);
            }
            k = k + 1;
        }
        MirrorSnapshot {
            total_ops: if decisions == 0 {
                1
            } else {
                decisions
            },
            total_tokens: tokens,
            conflicts: errors,
            most_volatile_topic: None,
            agent_performance: perf,
        }
    }
}

} // verus!
