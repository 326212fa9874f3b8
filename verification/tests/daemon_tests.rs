use dreamswarm::daemon::brief_mode::BriefFormatter;
use dreamswarm::daemon::daily_log::{DailyLog, LogEntry, LogEntryKind};
use dreamswarm::daemon::healing::{HealStep, HealingManager};
use dreamswarm::daemon::heartbeat::{Heartbeat, HeartbeatConfig};
use dreamswarm::daemon::initiative::{Gate, InitiativeEngine};
use dreamswarm::daemon::kairos::{ActionResult, KairosDaemon, TickPlan};
use dreamswarm::daemon::persistence::PersistenceManager;
use dreamswarm::daemon::process::DaemonProcess;
use dreamswarm::daemon::schedule::{Moment, Schedule, ScheduledJob, Scheduler};
use dreamswarm::daemon::signals::{FileWatcher, GitWatcher, IdleWatcher, Signal, SignalKind, SignalSeverity};
use dreamswarm::daemon::trust::{TrustBand, TrustPermission};
use dreamswarm::daemon::types::{Initiative, ProactiveAction, Urgency};

const SEC: u128 = 1_000_000_000;

fn entry(kind: LogEntryKind, tokens: u64) -> LogEntry {
    LogEntry {
        kind,
        content: "something happened".to_string(),
        session_id: None,
        tools_used: vec![],
        tokens_consumed: tokens,
        signals_present: vec![],
    }
}

fn signal(kind: SignalKind, description: &str, path: Option<&str>) -> Signal {
    Signal {
        kind,
        source: "test".to_string(),
        description: description.to_string(),
        severity: SignalSeverity::Warning,
        path: path.map(|p| p.to_string()),
    }
}

fn at(day: i64, hour: u32, minute: u32) -> Moment {
    Moment { secs: day * 86400 + hour as i64 * 3600 + minute as i64 * 60, day, hour, minute }
}

#[test]
fn heartbeat_halves_on_signals_and_grows_when_quiet() {
    let mut h = Heartbeat::new(HeartbeatConfig::default());
    assert_eq!(h.current_interval(), 30 * SEC);
    h.report_signals(2);
    assert_eq!(h.current_interval(), 15 * SEC);
    h.report_signals(1);
    h.report_signals(1);
    h.report_signals(1);
    assert_eq!(h.current_interval(), 5 * SEC);
    h.report_signals(0);
    assert_eq!(h.current_interval(), 10 * SEC);
    h.reset_interval();
    assert_eq!(h.current_interval(), 30 * SEC);
    h.record_tick();
    assert_eq!(h.tick_count(), 1);
}

#[test]
fn heartbeat_never_grows_past_its_maximum() {
    let mut h = Heartbeat::new(HeartbeatConfig::default());
    for _ in 0..100 {
        h.report_signals(0);
    }
    assert_eq!(h.current_interval(), 120 * SEC);
}

#[test]
fn brief_lines() {
    assert_eq!(
        BriefFormatter::format_action("09:30", "RunTests", "ran the tests", "all passed"),
        "[09:30] 🧪 ran the tests -> all passed"
    );
    assert_eq!(BriefFormatter::format_observation("10:00", "quiet"), "[10:00] quiet");
    assert_eq!(BriefFormatter::format_notification("disk full", &Urgency::Critical), "🚨 disk full");
    assert_eq!(BriefFormatter::format_notification("fyi", &Urgency::Low), "i fyi");
    assert_eq!(BriefFormatter::action_emoji("docs"), "📝");
    assert_eq!(BriefFormatter::action_emoji("whatever"), "⚡");
    assert_eq!(
        BriefFormatter::format_approval_request("push", "tests pass"),
        "🌙 KAIROS wants to act:\nAction: push\nReason: tests pass\n[y/N] > "
    );
}

#[test]
fn brief_truncates_long_results() {
    let long = "x".repeat(130);
    let line = BriefFormatter::format_action("00:00", "fix", "d", &long);
    assert_eq!(line, format!("[00:00] 🔧 d -> {}...", "x".repeat(117)));
    assert_eq!(BriefFormatter::truncate("hello", 10), "hello");
    assert_eq!(BriefFormatter::truncate("hello world", 8), "hello...");
}

#[test]
fn daily_log_files_and_records() {
    let log = DailyLog::new("/state");
    assert_eq!(log.base_dir(), "/state/logs");
    assert_eq!(log.file_for_date("2024-05-01"), "/state/logs/2024-05-01.jsonl");
    assert_eq!(
        DailyLog::record_lines("{\"a\":1}\n\n  \n{\"b\":2}\n"),
        vec!["{\"a\":1}".to_string(), "{\"b\":2}".to_string()]
    );
}

#[test]
fn daily_log_counts_tokens_and_actions() {
    let es = vec![
        entry(LogEntryKind::Action, 10),
        entry(LogEntryKind::Observation, 5),
        entry(LogEntryKind::Action, 0),
    ];
    assert_eq!(DailyLog::tokens_used_today(&es), 15);
    assert_eq!(DailyLog::actions_today(&es), 2);
}

#[test]
fn healing_branch_and_steps() {
    let h = HealingManager::new("/repo".to_string(), "/state".to_string());
    assert_eq!(h.working_dir(), "/repo");
    assert_eq!(HealingManager::branch_name(1700000000), "heal/1700000000");
    assert_eq!(HealingManager::branch_name(-5), "heal/-5");
    assert_eq!(HealingManager::next_step(HealStep::Branch, true), HealStep::Patch);
    assert_eq!(HealingManager::next_step(HealStep::Patch, false), HealStep::Abandon);
    assert_eq!(HealingManager::next_step(HealStep::Verify, true), HealStep::Merge);
    assert_eq!(HealingManager::next_step(HealStep::Merge, true), HealStep::Finished(true));
    assert_eq!(HealingManager::next_step(HealStep::Abandon, true), HealStep::Finished(false));
}

#[test]
fn persistence_checkpoint_file() {
    let p = PersistenceManager::new("/state");
    assert_eq!(p.checkpoint_path(), "/state/CHECKPOINT.json");
}

#[test]
fn initiative_budget_and_gates() {
    let mut e = InitiativeEngine::new(100);
    assert_eq!(e.tokens_remaining(), 100);
    e.record_usage(40);
    assert_eq!(e.tokens_used_today(), 40);
    assert_eq!(e.tokens_remaining(), 60);
    assert!(matches!(e.gate(0, false, false), Gate::Quiet));
    assert!(matches!(e.gate(1, false, false), Gate::Open));
    assert!(matches!(e.gate(1, true, false), Gate::OverBudget));
    assert!(matches!(e.gate(1, false, true), Gate::Paused));
    e.record_usage(u64::MAX);
    assert_eq!(e.tokens_used_today(), u64::MAX);
    assert!(matches!(e.gate(1, false, false), Gate::OverBudget));
    e.reset_daily();
    assert_eq!(e.tokens_used_today(), 0);
}

#[test]
fn initiative_rules_run_tests_after_failures() {
    let ss = vec![
        signal(SignalKind::FileChanged, "changed a", Some("a.rs")),
        signal(SignalKind::BuildError, "cannot compile", Some("b.rs")),
    ];
    match InitiativeEngine::rule_based_evaluation(&ss, true, true) {
        Some(ProactiveAction::RunTests { reason, changed_files }) => {
            assert_eq!(reason, "Build/test failure: cannot compile");
            assert_eq!(changed_files, vec!["b.rs".to_string()]);
        }
        _ => panic!("expected a test run"),
    }
    assert!(InitiativeEngine::rule_based_evaluation(&ss, false, false).is_none());
}

#[test]
fn initiative_rules_run_tests_after_three_source_changes() {
    let ss = vec![
        signal(SignalKind::FileChanged, "a", Some("a.rs")),
        signal(SignalKind::FileChanged, "b", Some("b.ts")),
        signal(SignalKind::FileChanged, "c", Some("README.md")),
        signal(SignalKind::FileChanged, "d", Some("d.py")),
    ];
    match InitiativeEngine::rule_based_evaluation(&ss, false, true) {
        Some(ProactiveAction::RunTests { reason, changed_files }) => {
            assert_eq!(reason, "3 source files changed");
            assert_eq!(changed_files, vec!["a.rs".to_string(), "b.ts".to_string(), "d.py".to_string()]);
        }
        _ => panic!("expected a test run"),
    }
}

#[test]
fn initiative_reads_the_model_reply() {
    match InitiativeEngine::parse_tick_reply("  ACT:  run the linter \n") {
        Initiative::Act(ProactiveAction::CustomAction { description, tool_calls }) => {
            assert_eq!(description, "run the linter");
            assert!(tool_calls.is_empty());
        }
        _ => panic!("expected an action"),
    }
    match InitiativeEngine::parse_tick_reply("OBSERVE: all calm") {
        Initiative::Observe(o) => assert_eq!(o, "all calm"),
        _ => panic!("expected an observation"),
    }
    assert!(matches!(InitiativeEngine::parse_tick_reply("nothing to do"), Initiative::Sleep));
    let ss = vec![signal(SignalKind::GitPush, "pushed", None), signal(SignalKind::CIPassed, "green", None)];
    assert_eq!(InitiativeEngine::signals_noted(&ss), "Signals noted: pushed; green");
}

#[test]
fn file_watcher_ignores_tooling_paths() {
    assert!(FileWatcher::should_ignore("project/.git/HEAD"));
    assert!(FileWatcher::should_ignore("web/node_modules/x.js"));
    assert!(FileWatcher::should_ignore("notes.md~"));
    assert!(FileWatcher::should_ignore("main.rs.swp"));
    assert!(!FileWatcher::should_ignore("src/main.rs"));
}

#[test]
fn file_watcher_finds_branches_that_touch_the_same_files() {
    let changes = vec![
        ("feature-a".to_string(), vec!["a.rs".to_string(), "shared.rs".to_string()]),
        ("feature-b".to_string(), vec!["b.rs".to_string()]),
        ("feature-c".to_string(), vec!["shared.rs".to_string(), "c.rs".to_string()]),
    ];
    let (i, j, files) = FileWatcher::find_overlap(&changes).unwrap();
    assert_eq!((i, j), (0, 2));
    assert_eq!(files, vec!["shared.rs".to_string()]);
    let apart = vec![("x".to_string(), vec!["x.rs".to_string()]), ("y".to_string(), vec!["y.rs".to_string()])];
    assert!(FileWatcher::find_overlap(&apart).is_none());
}

#[test]
fn git_watcher_reports_head_moves() {
    let mut g = GitWatcher::new("/repo".to_string());
    assert_eq!(g.observe_head(Some("abcdef0123".to_string())), None);
    assert_eq!(g.observe_head(Some("abcdef0123".to_string())), None);
    assert_eq!(
        g.observe_head(Some("9876543210".to_string())),
        Some("HEAD changed: abcdef0..9876543".to_string())
    );
    assert_eq!(g.observe_head(None), None);
}

#[test]
fn idle_watcher_reports_once_per_spell() {
    let mut w = IdleWatcher::new();
    assert_eq!(w.poll(100), None);
    assert_eq!(w.poll(400), Some(400));
    assert_eq!(w.poll(500), None);
    w.record_activity();
    assert_eq!(w.poll(301), Some(301));
}

#[test]
fn scheduler_runs_the_nightly_dream_once() {
    let mut s = Scheduler::new().with_defaults();
    assert!(s.check_due(at(100, 2, 59), 0).is_empty());
    let due = s.check_due(at(100, 3, 0), 0);
    assert_eq!(due.len(), 1);
    assert_eq!(due[0].id, "auto-dream");
    assert_eq!(due[0].action, "dream");
    // Checked again at the same moment, nothing falls due.
    assert!(s.check_due(at(100, 3, 0), 0).is_empty());
    // The next night it is due again.
    assert_eq!(s.check_due(at(101, 3, 0), 0).len(), 1);
}

#[test]
fn scheduler_periodic_and_idle_jobs() {
    let mut s = Scheduler::new();
    s.add_job(ScheduledJob {
        id: "every".to_string(),
        name: "every ten".to_string(),
        schedule: Schedule::EveryMinutes(10),
        action: "x".to_string(),
        enabled: true,
        last_run: None,
    });
    s.add_job(ScheduledJob {
        id: "idle".to_string(),
        name: "after idle".to_string(),
        schedule: Schedule::AfterIdle(30),
        action: "y".to_string(),
        enabled: true,
        last_run: None,
    });
    assert_eq!(s.check_due(at(1, 0, 0), 0).len(), 1);
    assert!(s.check_due(at(1, 0, 9), 0).is_empty());
    assert_eq!(s.check_due(at(1, 0, 10), 0).len(), 1);
    let due = s.check_due(at(1, 0, 11), 45);
    assert_eq!(due.len(), 1);
    assert_eq!(due[0].id, "idle");
    // An idle job may fall due again at once.
    assert_eq!(s.check_due(at(1, 0, 11), 45).len(), 1);
}

#[test]
fn trust_permissions_by_band() {
    assert_eq!(TrustPermission::permission_for(TrustBand::High, Urgency::High), TrustPermission::AutoAct);
    assert_eq!(TrustPermission::permission_for(TrustBand::High, Urgency::Critical), TrustPermission::AskFirst);
    assert_eq!(TrustPermission::permission_for(TrustBand::Medium, Urgency::Medium), TrustPermission::AutoAct);
    assert_eq!(TrustPermission::permission_for(TrustBand::Medium, Urgency::High), TrustPermission::AskFirst);
    assert_eq!(TrustPermission::permission_for(TrustBand::Low, Urgency::Low), TrustPermission::AskFirst);
    assert_eq!(TrustPermission::permission_for(TrustBand::Observing, Urgency::Low), TrustPermission::ObserveOnly);
    assert_eq!(TrustPermission::permission_for(TrustBand::Paused, Urgency::Critical), TrustPermission::Paused);
    assert!(TrustPermission::should_auto_act(TrustBand::High, Urgency::Low));
    assert!(!TrustPermission::should_auto_act(TrustBand::Low, Urgency::Low));
}

#[test]
fn daemon_process_start_arguments() {
    let p = DaemonProcess::new("/state".to_string());
    assert_eq!(p.state_file(), "/state/daemon_state.json");
    assert_eq!(DaemonProcess::session_name(), "dreamswarm-daemon");
    let args = DaemonProcess::start_args(false, &vec!["--brief".to_string(), "--api".to_string()]).unwrap();
    assert_eq!(
        args,
        vec!["new-session", "-d", "-s", "dreamswarm-daemon", "-x", "200", "-y", "50", "dreamswarm daemon run --brief --api"]
            .into_iter()
            .map(String::from)
            .collect::<Vec<_>>()
    );
    assert_eq!(
        DaemonProcess::start_args(true, &vec![]).unwrap_err(),
        "Daemon is already running. Use 'dreamswarm daemon stop' first."
    );
}

#[test]
fn kairos_startup_and_ticks() {
    let mut d = KairosDaemon::new(30, 1000, "/state".to_string(), "/repo".to_string(), true, 100);
    assert_eq!(d.startup_message(), "Daemon started. Heartbeat: 30s, Working dir: /repo");
    assert_eq!(d.state_dir(), "/state");
    assert_eq!(d.daily_log().base_dir(), "/state/logs");
    assert!(d.brief_mode());
    d.record_usage(500);
    // A quiet tick the same day: the interval grows by five seconds.
    let plan = d.tick(at(100, 12, 0), 100, 0);
    assert_eq!(plan, TickPlan { new_day: false, dreams: 0 });
    assert_eq!(d.current_interval(), 35 * SEC);
    assert_eq!(d.initiative_engine().tokens_used_today(), 500);
    // A new day at three in the morning: spending resets and the dream is due.
    let plan = d.tick(at(101, 3, 0), 101, 2);
    assert_eq!(plan, TickPlan { new_day: true, dreams: 1 });
    assert_eq!(d.current_interval(), 17_500_000_000);
    assert_eq!(d.initiative_engine().tokens_used_today(), 0);
}

#[test]
fn kairos_action_texts() {
    let tests = ProactiveAction::RunTests { reason: "3 source files changed".to_string(), changed_files: vec![] };
    assert_eq!(KairosDaemon::action_outcome(&tests, true), "Tests passed: 3 source files changed");
    assert_eq!(KairosDaemon::action_outcome(&tests, false), "Tests failed: 3 source files changed");
    let note = ProactiveAction::SendNotification { message: "m".to_string(), urgency: Urgency::Low };
    assert_eq!(KairosDaemon::action_outcome(&note, false), "Notification sent");
    let other = ProactiveAction::UpdateDocs { files: vec![], reason: "r".to_string() };
    assert_eq!(KairosDaemon::action_outcome(&other, true), "Action partially implemented");
    assert_eq!(KairosDaemon::decision_message("RunTests"), "Decided to act: RunTests");
    assert_eq!(
        KairosDaemon::action_record(&ActionResult::Completed("ok".to_string()), "d"),
        (LogEntryKind::Action, "Action completed: ok".to_string())
    );
    assert_eq!(
        KairosDaemon::action_record(&ActionResult::Failed("boom".to_string()), "d"),
        (LogEntryKind::Error, "Action failed: boom".to_string())
    );
    assert_eq!(
        KairosDaemon::action_record(&ActionResult::TimedOut, "RunTests"),
        (LogEntryKind::Timeout, "Action timed out: RunTests".to_string())
    );
}

#[test]
fn kairos_resumes_from_the_newest_json_snapshot() {
    let names = vec![
        "2024-01-02.json".to_string(),
        "2024-01-03.txt".to_string(),
        ".json".to_string(),
        "2024-01-01.json".to_string(),
    ];
    assert_eq!(KairosDaemon::newest_snapshot(&names), Some(0));
    assert_eq!(KairosDaemon::newest_snapshot(&vec!["notes.txt".to_string()]), None);
    assert!(KairosDaemon::resume_due(86399));
    assert!(!KairosDaemon::resume_due(86400));
    assert_eq!(
        KairosDaemon::resume_message("/s/snapshots/a.json"),
        "Auto-Resume: Restoring swarm from snapshot /s/snapshots/a.json"
    );
}

#[test]
fn kairos_refinements_and_gaps() {
    assert!(KairosDaemon::is_refinement("coder.md", "# Agent Refinement: coder\nbe brief"));
    assert!(!KairosDaemon::is_refinement("coder.txt", "# Agent Refinement: coder"));
    assert!(!KairosDaemon::is_refinement("coder.md", "notes"));
    assert_eq!(
        KairosDaemon::refinement_message("coder.md"),
        "Neural Self-Optimization: Auto-applying instruction refinement from coder.md"
    );
    assert_eq!(
        KairosDaemon::vacuum_message("src/api"),
        "Autonomous Feature Synthesis: Flagged Implementation Gap at 'src/api'"
    );
}
