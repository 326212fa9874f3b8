//! KAIROS: the daemon's loop, as a state machine over its components.
//!
//! Each tick the caller waits out the heartbeat, gathers signals and hands
//! them in; the daemon turns a new day into a reset of the day's spending and
//! a maintenance run, adapts its heartbeat, and says which scheduled jobs fall
//! due. What the daemon writes to its log about actions, resumption and
//! self-optimisation is decided here too.
use vstd::prelude::*;
use crate::daemon::daily_log::{DailyLog, LogEntryKind};
use crate::daemon::healing::HealingManager;
use crate::daemon::heartbeat::{max_duration, Heartbeat, HeartbeatConfig, NANOS_PER_SEC};
use crate::daemon::initiative::InitiativeEngine;
use crate::daemon::persistence::PersistenceManager;
use crate::daemon::schedule::{due_jobs, Moment, Scheduler};
use crate::daemon::types::ProactiveAction;
use crate::text::{
    byte_len, chars_lt, chars_of, concat2, contains, contains_vec, copy_str, decimal, ends_with,
    ends_with_vec, push_decimal, push_str, seq_lt, str_eq, utf8_len,
};

verus! {

/// The daemon and the components its loop drives.
pub struct KairosDaemon {
    heartbeat: Heartbeat,
    initiative_engine: InitiativeEngine,
    scheduler: Scheduler,
    daily_log: DailyLog,
    persistence: PersistenceManager,
    healing: HealingManager,
    working_dir: String,
    state_dir: String,
    heartbeat_secs: u64,
    brief_mode: bool,
    last_day: i64,
}

/// What a tick calls for beyond the daemon's own state.
#[derive(Debug, Clone, Copy, PartialEq, Eq, Structural)]
pub struct TickPlan {
    /// A new day began: run the memory maintenance.
    pub new_day: bool,
    /// Memory consolidations due now.
    pub dreams: usize,
}

/// How an action the daemon took ended.
#[derive(Debug)]
pub enum ActionResult {
    Completed(String),
    Failed(String),
    TimedOut,
}

/// The scheduled jobs among `js` whose action is a dream.
pub open spec fn dream_jobs(js: Seq<(Seq<char>, Seq<char>, crate::daemon::schedule::Schedule, Seq<char>, bool, Option<Moment>)>) -> nat
    decreases js.len(),
{
    if js.len() == 0 {
        0
    } else {
        dream_jobs(js.drop_last()) + if js.last().3 == "dream"@ {
            1nat
        } else {
            0nat
        }
    }
}

/// What the daemon logs at startup.
pub open spec fn startup_text(heartbeat_secs: nat, working_dir: Seq<char>) -> Seq<char> {
    "Daemon started. Heartbeat: "@ + decimal(heartbeat_secs) + "s, Working dir: "@ + working_dir
}

/// What an action's run reports: tests passed or failed for a test run, a
/// notification sent, and a partial implementation for the rest.
pub open spec fn outcome_text(action: ProactiveAction, tests_passed: bool) -> Seq<char> {
    match action {
        ProactiveAction::RunTests { reason, .. } => if tests_passed {
            "Tests passed: "@ + reason@
        } else {
            "Tests failed: "@ + reason@
        },
        ProactiveAction::SendNotification { .. } => "Notification sent"@,
        _ => "Action partially implemented"@,
    }
}

/// The log entry an action's end is recorded as.
pub open spec fn action_record_of(result: ActionResult, description: Seq<char>) -> (LogEntryKind, Seq<char>) {
    match result {
        ActionResult::Completed(outcome) => (LogEntryKind::Action, "Action completed: "@ + outcome@),
        ActionResult::Failed(error) => (LogEntryKind::Error, "Action failed: "@ + error@),
        ActionResult::TimedOut => (LogEntryKind::Timeout, "Action timed out: "@ + description),
    }
}

/// A file name with the extension `ext` (a name that is only a dot and the
/// extension has none).
pub open spec fn has_extension(name: Seq<char>, ext: Seq<char>) -> bool {
    ends_with(name, "."@ + ext) && name.len() > ext.len() + 1
}

/// Snapshot `i` is the one resumed from: the greatest name among the JSON
/// files.
pub open spec fn is_newest_snapshot(names: Seq<Seq<char>>, i: int) -> bool {
    &&& 0 <= i < names.len()
    &&& has_extension(names[i], "json"@)
    &&& forall|j: int| 0 <= j < names.len() && has_extension(names[j], "json"@) ==> !seq_lt(names[i], #[trigger] names[j])
}

/// A refinement to apply: a Markdown file holding an agent refinement.
pub open spec fn is_refinement(file_name: Seq<char>, content: Seq<char>) -> bool {
    has_extension(file_name, "md"@) && contains(content, "# Agent Refinement:"@)
}

fn has_extension_exec(name: &str, ext: &str) -> (b: bool)
    ensures
        b == has_extension(name@, ext@),
{
    let v = chars_of(name);
    let e = chars_of(ext);
    let mut dotted = copy_str(".");
    push_str(&mut dotted, ext);
    let d = chars_of(dotted.as_str());
    ends_with_vec(&v, &d) && v.len() > e.len() && v.len() - e.len() > 1
}

impl KairosDaemon {
    /// The heartbeat stays within what its configuration allows: adaptive,
    /// between 5 and 120 seconds once it adapts, never past the configured
    /// interval or the maximum, whichever is larger.
    pub closed spec fn wf(&self) -> bool {
        let c = self.heartbeat.cfg();
        &&& c.max_interval == 120 * NANOS_PER_SEC
        &&& c.min_interval == 5 * NANOS_PER_SEC
        &&& c.adaptive
        &&& c.interval + 5 * NANOS_PER_SEC <= max_duration()
        &&& (self.heartbeat.interval() <= c.interval || self.heartbeat.interval() <= c.max_interval)
    }

    pub closed spec fn heartbeat_state(&self) -> Heartbeat {
        self.heartbeat
    }

    pub closed spec fn initiative_state(&self) -> InitiativeEngine {
        self.initiative_engine
    }

    pub closed spec fn scheduler_state(&self) -> Scheduler {
        self.scheduler
    }

    pub closed spec fn log_state(&self) -> DailyLog {
        self.daily_log
    }

    pub closed spec fn persistence_state(&self) -> PersistenceManager {
        self.persistence
    }

    pub closed spec fn healing_state(&self) -> HealingManager {
        self.healing
    }

    pub closed spec fn working_dir_view(&self) -> Seq<char> {
        self.working_dir@
    }

    pub closed spec fn state_dir_view(&self) -> Seq<char> {
        self.state_dir@
    }

    pub closed spec fn heartbeat_secs_view(&self) -> nat {
        self.heartbeat_secs as nat
    }

    pub closed spec fn brief_view(&self) -> bool {
        self.brief_mode
    }

    pub closed spec fn day_view(&self) -> int {
        self.last_day as int
    }

    /// The daemon for the project at `working_dir`, its state under
    /// `state_dir`: an adaptive heartbeat at `heartbeat_secs` (between 5 and
    /// 120 seconds once it adapts), the daily token budget, the default
    /// schedule, the daily log, checkpoints and self-healing; started on day
    /// `today`.
    pub fn new(
        heartbeat_secs: u64,
        daily_token_budget: u64,
        state_dir: String,
        working_dir: String,
        brief_mode: bool,
        today: i64,
    ) -> (r: Self)
        requires
            heartbeat_secs + 5 <= u64::MAX,
        ensures
            r.heartbeat_state().cfg() == (HeartbeatConfig {
                interval: (heartbeat_secs * NANOS_PER_SEC) as u128,
                min_interval: (5 * NANOS_PER_SEC) as u128,
                max_interval: (120 * NANOS_PER_SEC) as u128,
                adaptive: true,
            }),
            r.heartbeat_state().interval() == heartbeat_secs * NANOS_PER_SEC,
            r.heartbeat_state().ticks() == 0,
            r.initiative_state().tokens_spent() == 0,
            r.initiative_state().token_budget() == daily_token_budget,
            r.scheduler_state().jobs_view() == seq![
                ("auto-test"@, "Periodic test run"@, crate::daemon::schedule::Schedule::EveryMinutes(30), "cargo test --quiet"@, false, None::<Moment>),
                ("auto-dream"@, "Memory consolidation (autoDream)"@, crate::daemon::schedule::Schedule::DailyAt { hour: 3, minute: 0 }, "dream"@, true, None::<Moment>),
            ],
            r.log_state().dir_view() == state_dir@ + "/logs"@,
            r.persistence_state().path_view() == state_dir@ + "/CHECKPOINT.json"@,
            r.healing_state().dir_view() == working_dir@,
            r.healing_state().state_view() == state_dir@,
            r.working_dir_view() == working_dir@,
            r.state_dir_view() == state_dir@,
            r.heartbeat_secs_view() == heartbeat_secs,
            r.brief_view() == brief_mode,
            r.day_view() == today,
            r.wf(),
    {
        let mut cfg = HeartbeatConfig::default();
        cfg.interval = heartbeat_secs as u128 * NANOS_PER_SEC;
        cfg.adaptive = true;
        let heartbeat = Heartbeat::new(cfg);
        let initiative_engine = InitiativeEngine::new(daily_token_budget);
        let scheduler = Scheduler::new().with_defaults();
        assert(scheduler.jobs_view() =~= seq![
            ("auto-test"@, "Periodic test run"@, crate::daemon::schedule::Schedule::EveryMinutes(30), "cargo test --quiet"@, false, None::<Moment>),
            ("auto-dream"@, "Memory consolidation (autoDream)"@, crate::daemon::schedule::Schedule::DailyAt { hour: 3, minute: 0 }, "dream"@, true, None::<Moment>),
        ]);
        let daily_log = DailyLog::new(state_dir.as_str());
        let persistence = PersistenceManager::new(state_dir.as_str());
        let healing = HealingManager::new(copy_str(working_dir.as_str()), copy_str(state_dir.as_str()));
        KairosDaemon {
            heartbeat,
            initiative_engine,
            scheduler,
            daily_log,
            persistence,
            healing,
            working_dir,
            state_dir,
            heartbeat_secs,
            brief_mode,
            last_day: today,
        }
    }

    /// The project directory.
    pub fn working_dir(&self) -> (r: &String)
        ensures
            r@ == self.working_dir_view(),
    {
        &self.working_dir
    }

    /// The daemon state directory.
    pub fn state_dir(&self) -> (r: &String)
        ensures
            r@ == self.state_dir_view(),
    {
        &self.state_dir
    }

    /// Whether actions are echoed as brief lines.
    pub fn brief_mode(&self) -> (b: bool)
        ensures
            b == self.brief_view(),
    {
        self.brief_mode
    }

    /// The daily log.
    pub fn daily_log(&self) -> (r: &DailyLog)
        ensures
            *r == self.log_state(),
    {
        &self.daily_log
    }

    /// The checkpoint manager.
    pub fn persistence(&self) -> (r: &PersistenceManager)
        ensures
            *r == self.persistence_state(),
    {
        &self.persistence
    }

    /// The self-healing manager.
    pub fn healing(&self) -> (r: &HealingManager)
        ensures
            *r == self.healing_state(),
    {
        &self.healing
    }

    /// The decision-maker.
    pub fn initiative_engine(&self) -> (r: &InitiativeEngine)
        ensures
            *r == self.initiative_state(),
    {
        &self.initiative_engine
    }

    /// Counts tokens the daemon spent (saturating).
    pub fn record_usage(&mut self, tokens: u64)
        requires
            old(self).wf(),
        ensures
            final(self).wf(),
            final(self).initiative_state().tokens_spent() == if old(self).initiative_state().tokens_spent() + tokens <= u64::MAX {
                (old(self).initiative_state().tokens_spent() + tokens) as nat
            } else {
                u64::MAX as nat
            },
            final(self).initiative_state().token_budget() == old(self).initiative_state().token_budget(),
            final(self).heartbeat_state() == old(self).heartbeat_state(),
            final(self).day_view() == old(self).day_view(),
    {
        self.initiative_engine.record_usage(tokens);
    }

    /// The heartbeat's current interval, in nanoseconds.
    pub fn current_interval(&self) -> (d: u128)
        ensures
            d == self.heartbeat_state().interval(),
    {
        self.heartbeat.current_interval()
    }

    /// Ticks waited out so far.
    pub fn tick_count(&self) -> (n: u64)
        ensures
            n == self.heartbeat_state().ticks(),
    {
        self.heartbeat.tick_count()
    }

    /// What the daemon logs when it starts.
    pub fn startup_message(&self) -> (r: String)
        ensures
            r@ == startup_text(self.heartbeat_secs_view(), self.working_dir_view()),
    {
        let mut r = copy_str("Daemon started. Heartbeat: ");
        push_decimal(&mut r, self.heartbeat_secs);
        push_str(&mut r, "s, Working dir: ");
        push_str(&mut r, self.working_dir.as_str());
        r
    }

    /// One tick, waited out at `now` on day `today`, with `signal_count`
    /// signals gathered: a new day resets the day's spending and calls for
    /// maintenance; the heartbeat counts the tick and adapts to the signals;
    /// the scheduler stamps the jobs due (the user counted as not idle) and
    /// the dream jobs among them are reported.
    pub fn tick(&mut self, now: Moment, today: i64, signal_count: usize) -> (r: TickPlan)
        requires
            old(self).wf(),
            old(self).heartbeat_state().ticks() < u64::MAX,
        ensures
            final(self).wf(),
            r.new_day == (today != old(self).day_view()),
            final(self).day_view() == today,
            final(self).initiative_state().tokens_spent() == if r.new_day {
                0
            } else {
                old(self).initiative_state().tokens_spent()
            },
            final(self).initiative_state().token_budget() == old(self).initiative_state().token_budget(),
            final(self).heartbeat_state().ticks() == old(self).heartbeat_state().ticks() + 1,
            final(self).heartbeat_state().cfg() == old(self).heartbeat_state().cfg(),
            final(self).heartbeat_state().interval() == if signal_count > 0 {
                if old(self).heartbeat_state().interval() / 2 >= 5 * NANOS_PER_SEC {
                    (old(self).heartbeat_state().interval() / 2) as nat
                } else {
                    (5 * NANOS_PER_SEC) as nat
                }
            } else if old(self).heartbeat_state().interval() + 5 * NANOS_PER_SEC <= 120 * NANOS_PER_SEC {
                (old(self).heartbeat_state().interval() + 5 * NANOS_PER_SEC) as nat
            } else {
                (120 * NANOS_PER_SEC) as nat
            },
            r.dreams == dream_jobs(due_jobs(old(self).scheduler_state().jobs_view(), now, 0)),
            final(self).scheduler_state().jobs_view() == old(self).scheduler_state().jobs_view().map_values(
                |j: (Seq<char>, Seq<char>, crate::daemon::schedule::Schedule, Seq<char>, bool, Option<Moment>)|
                    crate::daemon::schedule::checked_job(j, now, 0),
            ),
            final(self).log_state() == old(self).log_state(),
            final(self).working_dir_view() == old(self).working_dir_view(),
            final(self).state_dir_view() == old(self).state_dir_view(),
    {
        let new_day = today != self.last_day;
        if new_day {
            self.initiative_engine.reset_daily();
            self.last_day = today;
        }
        self.heartbeat.record_tick();
        self.heartbeat.report_signals(signal_count);
        let due = self.scheduler.check_due(now, 0);
        let mut dreams: usize = 0;
        let mut k: usize = 0;
        let ghost dv = due@.map_values(|j: crate::daemon::schedule::ScheduledJob| crate::daemon::schedule::job_view(j));
        while k < due.len()
            invariant
                k <= due.len(),
                dv == due@.map_values(|j: crate::daemon::schedule::ScheduledJob| crate::daemon::schedule::job_view(j)),
                dreams == dream_jobs(dv.take(k as int)),
                dreams <= k,
            decreases due.len() - k,
        {
            proof {
                assert(dv.take(k + 1).drop_last() =~= dv.take(k as int));
                assert(dv.take(k + 1).last() == crate::daemon::schedule::job_view(due@[k as int]));
            }
            if str_eq(due[k].action.as_str(), "dream") {
                dreams = dreams + 1;
            }
            k = k + 1;
        }
        assert(dv.take(due.len() as int) =~= dv);
        TickPlan { new_day, dreams }
    }

    /// What running an action reports, the test run (for a test action)
    /// having passed or not.
    pub fn action_outcome(action: &ProactiveAction, tests_passed: bool) -> (r: String)
        ensures
            r@ == outcome_text(*action, tests_passed),
    {
        match action {
            ProactiveAction::RunTests { reason, .. } => if tests_passed {
                concat2("Tests passed: ", reason.as_str())
            } else {
                concat2("Tests failed: ", reason.as_str())
            },
            ProactiveAction::SendNotification { .. } => copy_str("Notification sent"),
            _ => copy_str("Action partially implemented"),
        }
    }

    /// What the daemon logs before acting on the action described.
    pub fn decision_message(description: &str) -> (r: String)
        ensures
            r@ == "Decided to act: "@ + description@,
    {
        concat2("Decided to act: ", description)
    }

    /// The log entry (its kind and text) recording how the action described
    /// ended.
    pub fn action_record(result: &ActionResult, description: &str) -> (r: (LogEntryKind, String))
        ensures
            (r.0, r.1@) == action_record_of(*result, description@),
    {
        match result {
            ActionResult::Completed(outcome) => (LogEntryKind::Action, concat2("Action completed: ", outcome.as_str())),
            ActionResult::Failed(error) => (LogEntryKind::Error, concat2("Action failed: ", error.as_str())),
            ActionResult::TimedOut => (LogEntryKind::Timeout, concat2("Action timed out: ", description)),
        }
    }

    /// The snapshot to resume from, among the names of the files of the
    /// snapshot directory: the greatest JSON file name; `None` when there is
    /// no JSON file.
    pub fn newest_snapshot(names: &Vec<String>) -> (r: Option<usize>)
        ensures
            match r {
                Some(i) => is_newest_snapshot(names.deep_view(), i as int),
                None => forall|j: int| 0 <= j < names.len() ==> !has_extension(#[trigger] names.deep_view()[j], "json"@),
            },
    {
        let ghost ns = names.deep_view();
        let mut best: Option<usize> = None;
        let mut k: usize = 0;
        while k < names.len()
            invariant
                k <= names.len(),
                ns == names.deep_view(),
                match best {
                    Some(i) => i < k && has_extension(ns[i as int], "json"@) && forall|j: int|
                        0 <= j < k && has_extension(ns[j], "json"@) ==> !seq_lt(ns[i as int], #[trigger] ns[j]),
                    None => forall|j: int| 0 <= j < k ==> !has_extension(#[trigger] ns[j], "json"@),
                },
            decreases names.len() - k,
        {
            assert(ns[k as int] == names@[k as int]@);
            if has_extension_exec(names[k].as_str(), "json") {
                match best {
                    Some(i) => {
                        let a = chars_of(names[i].as_str());
                        let b = chars_of(names[k].as_str());
                        assert(ns[i as int] == names@[i as int]@);
                        if chars_lt(&a, &b) {
                            proof {
                                assert forall|j: int|
                                    0 <= j < k + 1 && has_extension(ns[j], "json"@) implies !seq_lt(ns[k as int], #[trigger] ns[j]) by {
                                    if j < k {
                                        if seq_lt(ns[k as int], ns[j]) {
                                            crate::text::lemma_seq_lt_trans(ns[i as int], ns[k as int], ns[j]);
                                        }
                                    } else {
                                        crate::text::lemma_seq_lt_irrefl(ns[k as int]);
                                    }
                                }
                            }
                            best = Some(k);
                        } else {
                            proof {
                                assert forall|j: int|
                                    0 <= j < k + 1 && has_extension(ns[j], "json"@) implies !seq_lt(ns[i as int], #[trigger] ns[j]) by {
                                    if j == k {
                                        assert(!seq_lt(ns[i as int], ns[k as int]));
                                    }
                                }
                            }
                        }
                    },
                    None => {
                        proof {
                            assert forall|j: int|
                                0 <= j < k + 1 && has_extension(ns[j], "json"@) implies !seq_lt(ns[k as int], #[trigger] ns[j]) by {
                                crate::text::lemma_seq_lt_irrefl(ns[k as int]);
                            }
                        }
                        best = Some(k);
                    },
                }
            }
            k = k + 1;
        }
        best
    }

    /// Whether a snapshot `age_secs` old is recent enough to resume from
    /// (under a day).
    pub fn resume_due(age_secs: u64) -> (b: bool)
        ensures
            b == (age_secs < 86400),
    {
        age_secs < 86400
    }

    /// What the daemon logs when it resumes from the snapshot at `path`.
    pub fn resume_message(path: &str) -> (r: String)
        ensures
            r@ == "Auto-Resume: Restoring swarm from snapshot "@ + path@,
    {
        concat2("Auto-Resume: Restoring swarm from snapshot ", path)
    }

    /// Whether a file of the refinements directory is a refinement to apply.
    pub fn is_refinement(file_name: &str, content: &str) -> (b: bool)
        ensures
            b == is_refinement(file_name@, content@),
    {
        let c = chars_of(content);
        let m = chars_of("# Agent Refinement:");
        has_extension_exec(file_name, "md") && contains_vec(&c, &m)
    }

    /// What the daemon logs when it applies the refinement in `file_name`.
    pub fn refinement_message(file_name: &str) -> (r: String)
        ensures
            r@ == "Neural Self-Optimization: Auto-applying instruction refinement from "@ + file_name@,
    {
        concat2("Neural Self-Optimization: Auto-applying instruction refinement from ", file_name)
    }

    /// What the daemon logs of an implementation gap found at `path`.
    pub fn vacuum_message(path: &str) -> (r: String)
        ensures
            r@ == "Autonomous Feature Synthesis: Flagged Implementation Gap at '"@ + path@ + "'"@,
    {
        let mut r = concat2("Autonomous Feature Synthesis: Flagged Implementation Gap at '", path);
        push_str(&mut r, "'");
        r
    }
}

} // verus!
