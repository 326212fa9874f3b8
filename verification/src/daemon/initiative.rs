//! Deciding, on each tick, whether the daemon acts, observes or sleeps.
//!
//! Budget and trust gates, then fixed rules over the signals; when no rule
//! decides, an LLM is asked, and its one-line reply is read here.
use vstd::prelude::*;
use crate::daemon::signals::{Signal, SignalKind};
use crate::daemon::types::{Initiative, ProactiveAction};
use crate::text::{
    chars_of, concat2, copy_str, decimal, ends_with, ends_with_vec, push_decimal, push_str,
    slice_chars, starts_with, starts_with_vec, string_from_chars, trim, trim_bounds,
};

verus! {

/// A build, test or CI failure.
pub open spec fn is_failure(k: SignalKind) -> bool {
    k == SignalKind::BuildError || k == SignalKind::TestFailure || k == SignalKind::CIFailed
}

/// A changed Rust, TypeScript or Python source file.
pub open spec fn is_source_change(s: Signal) -> bool {
    &&& s.kind == SignalKind::FileChanged
    &&& s.path matches Some(p) && (ends_with(p@, ".rs"@) || ends_with(p@, ".ts"@) || ends_with(
        p@,
        ".py"@,
    ))
}

/// The signals that pass a test, in order.
pub open spec fn failures(ss: Seq<Signal>) -> Seq<Signal> {
    ss.filter(|s: Signal| is_failure(s.kind))
}

/// The source changes among the signals, in order.
pub open spec fn source_changes(ss: Seq<Signal>) -> Seq<Signal> {
    ss.filter(|s: Signal| is_source_change(s))
}

/// The paths of the signals that have one, in order.
pub open spec fn paths_of(ss: Seq<Signal>) -> Seq<Seq<char>>
    decreases ss.len(),
{
    if ss.len() == 0 {
        Seq::empty()
    } else {
        paths_of(ss.drop_last()) + match ss.last().path {
            Some(p) => seq![p@],
            None => Seq::empty(),
        }
    }
}

/// What the rules decide: tests after a failure (when trusted to act at high
/// urgency), tests after three or more source changes (when trusted at medium
/// urgency), else nothing.  Returned as (reason, changed files).
pub open spec fn rule_decision(ss: Seq<Signal>, auto_high: bool, auto_medium: bool) -> Option<(Seq<char>, Seq<Seq<char>>)> {
    let f = failures(ss);
    let c = source_changes(ss);
    if f.len() > 0 && auto_high {
        Some(("Build/test failure: "@ + f[0].description@, paths_of(f)))
    } else if c.len() >= 3 && auto_medium {
        Some((decimal(c.len()) + " source files changed"@, paths_of(c)))
    } else {
        None
    }
}

/// The first element the filter keeps is the first element that passes.
proof fn lemma_filter_first<A>(s: Seq<A>, p: spec_fn(A) -> bool, j: int)
    requires
        0 <= j < s.len(),
        p(s[j]),
        forall|k: int| 0 <= k < j ==> !p(#[trigger] s[k]),
    ensures
        s.filter(p).len() > 0,
        s.filter(p)[0] == s[j],
    decreases s.len(),
{
    reveal(Seq::filter);
    let d = s.drop_last();
    if j < s.len() - 1 {
        assert forall|k: int| 0 <= k < j implies !p(#[trigger] d[k]) by {
            assert(d[k] == s[k]);
        }
        lemma_filter_first(d, p, j);
    } else {
        assert forall|k: int| 0 <= k < d.len() implies !p(#[trigger] d[k]) by {
            assert(d[k] == s[k]);
        }
        lemma_filter_none(d, p);
    }
}

/// Nothing passes, nothing is kept.
proof fn lemma_filter_none<A>(s: Seq<A>, p: spec_fn(A) -> bool)
    requires
        forall|k: int| 0 <= k < s.len() ==> !p(#[trigger] s[k]),
    ensures
        s.filter(p).len() == 0,
    decreases s.len(),
{
    reveal(Seq::filter);
    if s.len() > 0 {
        let d = s.drop_last();
        assert forall|k: int| 0 <= k < d.len() implies !p(#[trigger] d[k]) by {
            assert(d[k] == s[k]);
        }
        lemma_filter_none(d, p);
        assert(!p(s[s.len() - 1]));
    }
}

/// The failure rule: when the daemon may act at high urgency and a signal
/// reports a build error, a failed test or a failed CI run (the first such is
/// signal `j`), the rules run the tests, with that signal's description in the
/// reason and the paths of all such signals, in order, as the changed files.
pub proof fn lemma_failures_run_tests(ss: Seq<Signal>, auto_medium: bool, j: int)
    requires
        0 <= j < ss.len(),
        ss[j].kind == SignalKind::BuildError || ss[j].kind == SignalKind::TestFailure || ss[j].kind
            == SignalKind::CIFailed,
        forall|k: int|
            0 <= k < j ==> !(#[trigger] ss[k].kind == SignalKind::BuildError || ss[k].kind == SignalKind::TestFailure
                || ss[k].kind == SignalKind::CIFailed),
    ensures
        rule_decision(ss, true, auto_medium) == Some(
            (
                "Build/test failure: "@ + ss[j].description@,
                paths_of(
                    ss.filter(
                        |s: Signal|
                            s.kind == SignalKind::BuildError || s.kind == SignalKind::TestFailure || s.kind
                                == SignalKind::CIFailed,
                    ),
                ),
            ),
        ),
{
    let p = |s: Signal| is_failure(s.kind);
    let q = |s: Signal|
        s.kind == SignalKind::BuildError || s.kind == SignalKind::TestFailure || s.kind == SignalKind::CIFailed;
    assert(p =~= q);
    assert forall|k: int| 0 <= k < j implies !p(#[trigger] ss[k]) by {
        assert(!q(ss[k]));
    }
    lemma_filter_first(ss, p, j);
}

/// Without a build error, a failed test or a failed CI run among the signals,
/// the failure rule never fires: trust at high urgency changes nothing.
pub proof fn lemma_no_failure_no_failure_rule(ss: Seq<Signal>, auto_high: bool, auto_medium: bool)
    requires
        forall|k: int|
            0 <= k < ss.len() ==> !(#[trigger] ss[k].kind == SignalKind::BuildError || ss[k].kind
                == SignalKind::TestFailure || ss[k].kind == SignalKind::CIFailed),
    ensures
        rule_decision(ss, auto_high, auto_medium) == rule_decision(ss, false, auto_medium),
{
    let p = |s: Signal| is_failure(s.kind);
    assert forall|k: int| 0 <= k < ss.len() implies !p(#[trigger] ss[k]) by {}
    lemma_filter_none(ss, p);
}

/// The source-change rule: when the failure rule does not fire (no failure,
/// or no trust at high urgency), the rules run the tests exactly when trusted
/// at medium urgency and three or more signals report a changed `.rs`, `.ts`
/// or `.py` file, giving their count in the reason and their paths, in order.
pub proof fn lemma_source_changes_run_tests(ss: Seq<Signal>, auto_high: bool, auto_medium: bool)
    requires
        !auto_high || forall|k: int|
            0 <= k < ss.len() ==> !(#[trigger] ss[k].kind == SignalKind::BuildError || ss[k].kind
                == SignalKind::TestFailure || ss[k].kind == SignalKind::CIFailed),
    ensures
        ({
            let c = ss.filter(
                |s: Signal|
                    s.kind == SignalKind::FileChanged && (s.path matches Some(p) && (ends_with(p@, ".rs"@)
                        || ends_with(p@, ".ts"@) || ends_with(p@, ".py"@))),
            );
            rule_decision(ss, auto_high, auto_medium) == if auto_medium && c.len() >= 3 {
                Some((decimal(c.len()) + " source files changed"@, paths_of(c)))
            } else {
                None
            }
        }),
{
    let q = |s: Signal|
        s.kind == SignalKind::FileChanged && (s.path matches Some(p) && (ends_with(p@, ".rs"@) || ends_with(p@, ".ts"@)
            || ends_with(p@, ".py"@)));
    let r = |s: Signal| is_source_change(s);
    assert(q =~= r);
    if auto_high {
        lemma_no_failure_no_failure_rule(ss, auto_high, auto_medium);
    }
}

/// What the daemon makes of the LLM's reply: `ACT: ...` acts, `OBSERVE: ...`
/// observes, anything else sleeps.
pub enum TickReply {
    Act(Seq<char>),
    Observe(Seq<char>),
    Sleep,
}

/// The reading of a reply (trimmed; the text after the marker trimmed too).
pub open spec fn tick_reply(text: Seq<char>) -> TickReply {
    let t = trim(text);
    if starts_with(t, "ACT:"@) {
        TickReply::Act(trim(t.skip(4)))
    } else if starts_with(t, "OBSERVE:"@) {
        TickReply::Observe(trim(t.skip(8)))
    } else {
        TickReply::Sleep
    }
}

/// The note when no rule and no LLM decided: the signals' descriptions.
pub open spec fn signals_note(ss: Seq<Signal>) -> Seq<char> {
    "Signals noted: "@ + crate::daemon::initiative::join_semicolons(ss.map_values(|s: Signal| s.description@))
}

/// Texts joined by `"; "`.
pub open spec fn join_semicolons(ts: Seq<Seq<char>>) -> Seq<char>
    decreases ts.len(),
{
    if ts.len() == 0 {
        Seq::empty()
    } else if ts.len() == 1 {
        ts[0]
    } else {
        join_semicolons(ts.drop_last()) + "; "@ + ts.last()
    }
}

/// The daemon's decision-maker: its token spending today and the budget.
pub struct InitiativeEngine {
    tokens_used_today: u64,
    daily_token_budget: u64,
}

/// What the engine needs settled before the rules run.
pub enum Gate {
    /// No signals: sleep.
    Quiet,
    /// The daily budget is spent: observe "Budget exceeded".
    OverBudget,
    /// Trust is too low: observe that.
    Paused,
    /// The rules may run.
    Open,
}

impl InitiativeEngine {
    pub closed spec fn tokens_spent(&self) -> nat {
        self.tokens_used_today as nat
    }

    pub closed spec fn token_budget(&self) -> nat {
        self.daily_token_budget as nat
    }

    /// An engine with nothing spent today and the given daily token budget.
    pub fn new(daily_token_budget: u64) -> (r: Self)
        ensures
            r.tokens_spent() == 0,
            r.token_budget() == daily_token_budget,
    {
        InitiativeEngine { tokens_used_today: 0, daily_token_budget }
    }

    /// Tokens spent today.
    pub fn tokens_used_today(&self) -> (r: u64)
        ensures
            r == self.tokens_spent(),
    {
        self.tokens_used_today
    }

    /// Counts tokens spent (saturating).
    pub fn record_usage(&mut self, tokens: u64)
        ensures
            final(self).tokens_spent() == if old(self).tokens_spent() + tokens <= u64::MAX {
                (old(self).tokens_spent() + tokens) as nat
            } else {
                u64::MAX as nat
            },
            final(self).token_budget() == old(self).token_budget(),
    {
        self.tokens_used_today = self.tokens_used_today.saturating_add(tokens);
    }

    /// A new day: nothing spent.
    pub fn reset_daily(&mut self)
        ensures
            final(self).tokens_spent() == 0,
            final(self).token_budget() == old(self).token_budget(),
    {
        self.tokens_used_today = 0;
    }

    /// Tokens left today.
    pub fn tokens_remaining(&self) -> (r: u64)
        ensures
            r == if self.tokens_spent() <= self.token_budget() {
                (self.token_budget() - self.tokens_spent()) as nat
            } else {
                0
            },
    {
        self.daily_token_budget.saturating_sub(self.tokens_used_today)
    }

    /// The gates, in order: no signals, budget spent (tokens, or the cost as
    /// the caller found it), trust paused.
    pub fn gate(&self, signal_count: usize, cost_exceeded: bool, paused: bool) -> (r: Gate)
        ensures
            signal_count == 0 ==> r is Quiet,
            signal_count > 0 && (self.tokens_spent() >= self.token_budget() || cost_exceeded) ==> r is OverBudget,
            signal_count > 0 && !(self.tokens_spent() >= self.token_budget() || cost_exceeded) && paused ==> r is Paused,
            signal_count > 0 && !(self.tokens_spent() >= self.token_budget() || cost_exceeded) && !paused ==> r is Open,
    {
        if signal_count == 0 {
            Gate::Quiet
        } else if self.tokens_used_today >= self.daily_token_budget || cost_exceeded {
            Gate::OverBudget
        } else if paused {
            Gate::Paused
        } else {
            Gate::Open
        }
    }

    /// The rules: run the tests after a build, test or CI failure (when trust
    /// allows acting at high urgency) or after three or more source files
    /// changed (when trust allows acting at medium urgency).
    pub fn rule_based_evaluation(signals: &Vec<Signal>, auto_high: bool, auto_medium: bool) -> (r: Option<ProactiveAction>)
        requires
            signals.len() < u64::MAX,
        ensures
            match rule_decision(signals@, auto_high, auto_medium) {
                Some((reason, files)) => r matches Some(ProactiveAction::RunTests { reason: rr, changed_files })
                    && rr@ == reason && changed_files.deep_view() == files,
                None => r is None,
            },
    {
        let (fcount, fpaths, first) = Self::scan(signals, true);
        if fcount > 0 && auto_high {
            let mut reason = copy_str("Build/test failure: ");
            match first {
                Some(d) => push_str(&mut reason, d.as_str()),
                None => {},
            }
            return Some(ProactiveAction::RunTests { reason, changed_files: fpaths });
        }
        let (ccount, cpaths, _) = Self::scan(signals, false);
        if ccount >= 3 && auto_medium {
            let mut reason = String::new();
            push_decimal(&mut reason, ccount as u64);
            push_str(&mut reason, " source files changed");
            return Some(ProactiveAction::RunTests { reason, changed_files: cpaths });
        }
        None
    }

    /// The failures (`want_failures`) or the source changes among the signals:
    /// how many, their paths, and the first one's description.
    fn scan(signals: &Vec<Signal>, want_failures: bool) -> (r: (usize, Vec<String>, Option<String>))
        ensures
            ({
                let sel = if want_failures { failures(signals@) } else { source_changes(signals@) };
                &&& r.0 == sel.len()
                &&& r.1.deep_view() == paths_of(sel)
                &&& match r.2 {
                    Some(d) => sel.len() > 0 && d@ == sel[0].description@,
                    None => sel.len() == 0,
                }
            }),
    {
        let ghost ss = signals@;
        let ghost pred = if want_failures {
            |s: Signal| is_failure(s.kind)
        } else {
            |s: Signal| is_source_change(s)
        };
        let mut count: usize = 0;
        let mut paths: Vec<String> = Vec::new();
        let mut first: Option<String> = None;
        let mut k: usize = 0;
        proof {
            reveal(Seq::filter);
            assert(ss.take(0).filter(pred) =~= Seq::<Signal>::empty());
        }
        while k < signals.len()
            invariant
                ss == signals@,
                pred == (if want_failures { |s: Signal| is_failure(s.kind) } else { |s: Signal| is_source_change(s) }),
                k <= signals.len(),
                count == ss.take(k as int).filter(pred).len(),
                count <= k,
                paths.deep_view() == paths_of(ss.take(k as int).filter(pred)),
                match first {
                    Some(d) => ss.take(k as int).filter(pred).len() > 0 && d@ == ss.take(k as int).filter(pred)[0].description@,
                    None => ss.take(k as int).filter(pred).len() == 0,
                },
            decreases signals.len() - k,
        {
            let s = &signals[k];
            let hit = if want_failures {
                match s.kind {
                    SignalKind::BuildError | SignalKind::TestFailure | SignalKind::CIFailed => true,
                    _ => false,
                }
            } else {
                match s.kind {
                    SignalKind::FileChanged => match &s.path {
                        Some(p) => {
                            let pv = chars_of(p.as_str());
                            let rs = chars_of(".rs");
                            let ts = chars_of(".ts");
                            let py = chars_of(".py");
                            ends_with_vec(&pv, &rs) || ends_with_vec(&pv, &ts) || ends_with_vec(&pv, &py)
                        },
                        None => false,
                    },
                    _ => false,
                }
            };
            let ghost before = ss.take(k as int).filter(pred);
            proof {
                reveal(Seq::filter);
                assert(ss.take(k + 1).drop_last() =~= ss.take(k as int));
                assert(ss.take(k + 1).last() == ss[k as int]);
                assert(hit == pred(ss[k as int]));
            }
            if hit {
                count = count + 1;
                match &s.path {
                    Some(p) => {
                        let ghost pb = paths.deep_view();
                        let c = copy_str(p.as_str());
                        paths.push(c);
                        proof {
                            assert(paths.deep_view() =~= pb.push(c@));
                            let after = ss.take(k + 1).filter(pred);
                            assert(after =~= before.push(ss[k as int]));
                            assert(after.drop_last() =~= before);
                        }
                    },
                    None => {
                        proof {
                            let after = ss.take(k + 1).filter(pred);
                            assert(after =~= before.push(ss[k as int]));
                            assert(after.drop_last() =~= before);
                        }
                    },
                }
                if first.is_none() {
                    first = Some(copy_str(s.description.as_str()));
                    proof {
                        assert(ss.take(k + 1).filter(pred)[0] == ss[k as int]);
                    }
                } else {
                    proof {
                        assert(ss.take(k + 1).filter(pred)[0] == before[0]);
                    }
                }
            }
            k = k + 1;
        }
        assert(ss.take(k as int) =~= ss);
        (count, paths, first)
    }

    /// What the LLM's reply decides: `ACT: <action>` acts (a custom action),
    /// `OBSERVE: <note>` observes, anything else sleeps.
    pub fn parse_tick_reply(text: &str) -> (r: Initiative)
        ensures
            match tick_reply(text@) {
                TickReply::Act(d) => r matches Initiative::Act(ProactiveAction::CustomAction { description, tool_calls })
                    && description@ == d && tool_calls.len() == 0,
                TickReply::Observe(n) => r matches Initiative::Observe(o) && o@ == n,
                TickReply::Sleep => r is Sleep,
            },
    {
        let v = chars_of(text);
        let (a, b) = trim_bounds(&v, 0, v.len());
        let t = slice_chars(&v, a, b);
        proof {
            assert(v@.subrange(0, v.len() as int) =~= text@);
        }
        let act = chars_of("ACT:");
        let observe = chars_of("OBSERVE:");
        if starts_with_vec(&t, &act) {
            proof {
                reveal_strlit("ACT:");
            }
            let (x, y) = trim_bounds(&t, 4, t.len());
            let d = slice_chars(&t, x, y);
            assert(t@.subrange(4, t.len() as int) =~= t@.skip(4));
            Initiative::Act(ProactiveAction::CustomAction { description: string_from_chars(&d), tool_calls: Vec::new() })
        } else if starts_with_vec(&t, &observe) {
            proof {
                reveal_strlit("OBSERVE:");
            }
            let (x, y) = trim_bounds(&t, 8, t.len());
            let d = slice_chars(&t, x, y);
            assert(t@.subrange(8, t.len() as int) =~= t@.skip(8));
            Initiative::Observe(string_from_chars(&d))
        } else {
            Initiative::Sleep
        }
    }

    /// The note when nothing decided: "Signals noted: " and the signals'
    /// descriptions joined by "; ".
    pub fn signals_noted(signals: &Vec<Signal>) -> (r: String)
        ensures
            r@ == signals_note(signals@),
    {
        let ghost ds = signals@.map_values(|s: Signal| s.description@);
        let mut r = copy_str("Signals noted: ");
        let ghost head = r@;
        let mut k: usize = 0;
        proof {
            assert(ds.take(0) =~= Seq::<Seq<char>>::empty());
            assert(r@ =~= head + join_semicolons(ds.take(0)));
        }
        while k < signals.len()
            invariant
                ds == signals@.map_values(|s: Signal| s.description@),
                k <= signals.len(),
                r@ == head + join_semicolons(ds.take(k as int)),
            decreases signals.len() - k,
        {
            let ghost before = r@;
            if k > 0 {
                push_str(&mut r, "; ");
            }
            push_str(&mut r, signals[k].description.as_str());
            proof {
                let t = ds.take(k + 1);
                assert(t.drop_last() =~= ds.take(k as int));
                assert(t.last() == ds[k as int]);
                if k == 0 {
                    assert(t =~= seq![ds[0]]);
                }
            }
            k = k + 1;
        }
        assert(ds.take(k as int) =~= ds);
        r
    }
}

} // verus!
