use dreamswarm::daemon::daily_log::{LogEntry, LogEntryKind};
use dreamswarm::dream::analyzer::{DreamAnalyzer, RawOperation};
use dreamswarm::dream::autopilot::Autopilot;
use dreamswarm::dream::collector::ObservationCollector;
use dreamswarm::dream::engine::{ApplyStep, DreamEngine, DreamReport, DreamTally};
use dreamswarm::dream::mirror::{MirrorEngine, RawInsight};
use dreamswarm::dream::planner::DreamPlanner;
use dreamswarm::dream::pruner::{join_path_exec, MemoryPruner, PruneDecision};
use dreamswarm::dream::report::DreamReporter;
use dreamswarm::dream::sandbox::{DreamSandbox, SandboxOperation, SandboxRequest};
use dreamswarm::dream::synthesizer::ThematicSynthesizer;
use dreamswarm::dream::types::{MemoryOperation, ObservationSource, OperationKind, PruneReason};
use dreamswarm::memory::index::MemoryIndex;
use dreamswarm::memory::topics::Confidence;
use dreamswarm::memory::transcripts::TranscriptEntry;

fn op(kind: OperationKind, topic: &str, subtopic: &str, content: &str) -> MemoryOperation {
    MemoryOperation {
        kind,
        topic: topic.to_string(),
        subtopic: subtopic.to_string(),
        content: content.to_string(),
        reasoning: "because".to_string(),
    }
}

fn raw(kind: Option<&str>) -> RawOperation {
    RawOperation {
        kind: kind.map(String::from),
        topic: Some("Build".to_string()),
        subtopic: Some("Cmds".to_string()),
        content: Some("cargo build".to_string()),
        reasoning: None,
        source_entries: None,
        existing_path: None,
        prune_reason: None,
        from_confidence: None,
        to_confidence: None,
    }
}

fn log(kind: LogEntryKind, session: Option<&str>, tools: &[&str], content: &str, tokens: u64) -> LogEntry {
    LogEntry {
        kind,
        content: content.to_string(),
        session_id: session.map(String::from),
        tools_used: tools.iter().map(|t| t.to_string()).collect(),
        tokens_consumed: tokens,
        signals_present: vec![],
    }
}

fn report() -> DreamReport {
    DreamReport {
        duration_secs: 12,
        observations_collected: 40,
        operations_planned: 9,
        operations_applied: 7,
        entries_merged: 1,
        entries_created: 2,
        entries_pruned: 3,
        entries_confirmed: 1,
        contradictions_resolved: 2,
        tokens_consumed: 1500,
        memory_before_hash: "0123456789abcdef".to_string(),
        memory_after_hash: "fedcba9876543210".to_string(),
        errors: vec![],
    }
}

#[test]
fn planner_priorities_and_validation() {
    assert_eq!(DreamPlanner::priority(&OperationKind::Conflict { existing_data: "a".into(), new_data: "b".into() }), 0);
    assert_eq!(DreamPlanner::priority(&OperationKind::Prune { reason: PruneReason::Stale }), 1);
    assert_eq!(DreamPlanner::priority(&OperationKind::Create), 5);
    assert!(DreamPlanner::validate(&op(OperationKind::Create, "T", "S", "text")));
    assert!(!DreamPlanner::validate(&op(OperationKind::Create, "T", "S", "")));
    assert!(!DreamPlanner::validate(&op(OperationKind::Create, "", "S", "text")));
    assert!(!DreamPlanner::validate(&op(OperationKind::Create, "T", "S", &"x".repeat(2001))));
    assert!(DreamPlanner::validate(&op(OperationKind::Prune { reason: PruneReason::Stale }, "T", "S", "")));
    assert!(!DreamPlanner::validate(&op(OperationKind::Conflict { existing_data: "".into(), new_data: "b".into() }, "T", "S", "")));
}

#[test]
fn planner_orders_dedups_and_limits() {
    let ops = vec![
        op(OperationKind::Create, "A", "one", "new fact"),
        op(OperationKind::Prune { reason: PruneReason::Stale }, "B", "two", ""),
        op(OperationKind::Create, "A", "one", "duplicate"),
        op(OperationKind::Conflict { existing_data: "x".into(), new_data: "y".into() }, "C", "three", ""),
        op(OperationKind::Create, "", "bad", "no topic"),
        op(OperationKind::Update { existing_path: "d.md".into() }, "D", "four", "more"),
    ];
    assert_eq!(DreamPlanner::plan(&ops, 10), vec![3, 1, 5, 0]);
    assert_eq!(DreamPlanner::plan(&ops, 2), vec![3, 1]);
}

#[test]
fn analyzer_cuts_out_the_json_array() {
    assert_eq!(DreamAnalyzer::extract_json_array("  [1, 2]  "), "[1, 2]");
    assert_eq!(DreamAnalyzer::extract_json_array("Here:\n```json\n [3] \n```\nbye"), "[3]");
    assert_eq!(DreamAnalyzer::extract_json_array("ops: [4, 5] done"), "[4, 5]");
    assert_eq!(DreamAnalyzer::extract_json_array("nothing"), "[]");
}

#[test]
fn analyzer_builds_operations_from_items() {
    let created = DreamAnalyzer::operation_from_raw(&raw(Some("create"))).unwrap();
    assert!(matches!(created.kind, OperationKind::Create));
    assert_eq!(created.topic, "Build");
    assert_eq!(created.content, "cargo build");
    assert_eq!(created.reasoning, "");
    let mut r = raw(Some("prune"));
    r.prune_reason = Some("duplicate".to_string());
    let pruned = DreamAnalyzer::operation_from_raw(&r).unwrap();
    assert!(matches!(pruned.kind, OperationKind::Prune { reason: PruneReason::Duplicate }));
    let stale = DreamAnalyzer::operation_from_raw(&raw(Some("prune"))).unwrap();
    assert!(matches!(stale.kind, OperationKind::Prune { reason: PruneReason::Stale }));
    match DreamAnalyzer::operation_from_raw(&raw(Some("confirm"))).unwrap().kind {
        OperationKind::Confirm { from_confidence, to_confidence } => {
            assert_eq!(from_confidence, "observed");
            assert_eq!(to_confidence, "verified");
        }
        _ => panic!("expected a confirmation"),
    }
    let mut m = raw(Some("merge"));
    m.source_entries = Some(vec!["a.md".to_string(), "b.md".to_string()]);
    match DreamAnalyzer::operation_from_raw(&m).unwrap().kind {
        OperationKind::Merge { source_entries } => assert_eq!(source_entries, vec!["a.md".to_string(), "b.md".to_string()]),
        _ => panic!("expected a merge"),
    }
    assert!(DreamAnalyzer::operation_from_raw(&raw(Some("explode"))).is_none());
    assert!(DreamAnalyzer::operation_from_raw(&raw(None)).is_none());
}

#[test]
fn autopilot_enriches_tasks() {
    assert_eq!(Autopilot::enrich_task_with_context("Do it", &vec![]), "Do it");
    assert_eq!(
        Autopilot::enrich_task_with_context("Do it", &vec!["Theme A".to_string(), "Theme B".to_string()]),
        "Do it\n\n---\n## 🧠 AUTHOPILOT: ARCHITECTURAL CONTEXT (L3)\n\n### Perspective 1\nTheme A\n\n### Perspective 2\nTheme B\n\n---\n"
    );
}

#[test]
fn autopilot_theme_candidates_are_theme_files() {
    let ix = MemoryIndex::new("/m/MEMORY.md".to_string());
    let raw = "## Arch\n→ themes/arch.md — architecture overview\n→ arch/notes.md — architecture notes\n";
    assert_eq!(Autopilot::theme_candidates(&ix, raw, "architecture"), vec!["themes/arch.md".to_string()]);
}

#[test]
fn synthesizer_targets_follow_the_eight_five_rule() {
    let mut files: Vec<(String, usize)> = (0..5).map(|i| (format!("api/f{}.md", i), 10)).collect();
    files.push(("db/big.md".to_string(), 32_000));
    files.push(("misc/small.md".to_string(), 10));
    files.push(("toplevel.md".to_string(), 99_999));
    let t = ThematicSynthesizer::detect_consolidation_targets(&files);
    assert_eq!(t.len(), 2);
    assert_eq!(t[0].0, "api");
    assert_eq!(t[0].1.len(), 5);
    assert_eq!(t[1], ("db".to_string(), vec!["db/big.md".to_string()]));
}

#[test]
fn synthesizer_finds_gaps_in_chapters() {
    let files = vec![
        ("api/chapter.md".to_string(), Some("Overview\nTODO: auth".to_string())),
        ("api/notes.md".to_string(), Some("TODO".to_string())),
        ("db/chapter.md".to_string(), Some("complete".to_string())),
        ("ui/chapter.md".to_string(), None),
    ];
    assert_eq!(
        ThematicSynthesizer::detect_feature_vacuums(&files),
        vec![("api/chapter.md".to_string(), "Detected implementation gap in architecture chapter".to_string())]
    );
}

#[test]
fn sandbox_budget_and_sensitive_files() {
    let mut s = DreamSandbox::new(100);
    assert!(s.is_allowed(SandboxOperation::ReadFile));
    assert!(s.has_budget(true));
    assert!(!s.has_budget(false));
    let read = |t: &str| SandboxRequest { operation: SandboxOperation::ReadFile, target: t.to_string(), content: None };
    assert_eq!(s.validate(&read("src/main.rs"), true), Ok(()));
    assert_eq!(s.validate(&read("/home/u/.ssh/id_rsa"), true), Err("Cannot read sensitive file '/home/u/.ssh/id_rsa' in sandbox".to_string()));
    let search = SandboxRequest { operation: SandboxOperation::SearchMemory, target: ".env".to_string(), content: None };
    assert_eq!(s.validate(&search, true), Ok(()));
    s.record_usage(100);
    assert_eq!(s.tokens_used(), 100);
    assert_eq!(s.validate(&read("src/main.rs"), true), Err("Sandbox budget exhausted".to_string()));
    assert_eq!(SandboxOperation::WriteMemory.name(), "WriteMemory");
}

#[test]
fn pruner_decisions() {
    let p = MemoryPruner::new("/repo".to_string());
    assert!(MemoryPruner::is_derivable_content("# Struct\npub fn a()\nstruct B;\nimpl B {}"));
    assert!(!MemoryPruner::is_derivable_content("The build uses release mode.\nIt is fast."));
    assert_eq!(MemoryPruner::extract_source_reference("Notes\nSource: src/main.rs:42"), Some("src/main.rs".to_string()));
    assert_eq!(MemoryPruner::extract_source_reference("SOURCE: main.rs"), None);
    assert!(matches!(p.decision("pub fn a()\npub fn b()"), PruneDecision::Derivable));
    match p.decision("Watch out\nsource: src/lib.rs") {
        PruneDecision::CheckSource { reference, full_path } => {
            assert_eq!(reference, "src/lib.rs");
            assert_eq!(full_path, "/repo/src/lib.rs");
        }
        _ => panic!("expected a source check"),
    }
    assert!(matches!(p.decision("plain words"), PruneDecision::Keep));
    let d = MemoryPruner::derivable_op("T", "S");
    assert!(matches!(d.kind, OperationKind::Prune { reason: PruneReason::Derivable }));
    assert_eq!(d.reasoning, "Describes code structure that can be re-derived from source");
    let s = MemoryPruner::stale_op("T", "S", "src/gone.rs");
    assert_eq!(s.reasoning, "Referenced source file 'src/gone.rs' no longer exists");
    assert_eq!(join_path_exec("/repo", "src/x.rs"), "/repo/src/x.rs");
}

#[test]
fn collector_filters_and_orders_observations() {
    let c = ObservationCollector::new(7, 2, "/state".to_string());
    assert_eq!(c.lookback_days(), 7);
    assert!(c.is_relevant_log_entry(&log(LogEntryKind::Action, None, &[], "ran the whole test suite again", 0)));
    assert!(!c.is_relevant_log_entry(&log(LogEntryKind::Action, None, &[], "short", 0)));
    assert!(!c.is_relevant_log_entry(&log(LogEntryKind::Startup, None, &[], "the daemon started up just now", 0)));
    assert_eq!(ObservationCollector::source_for_role("user"), ObservationSource::UserStatement);
    assert_eq!(ObservationCollector::source_for_role("assistant"), ObservationSource::AgentInference);
    assert_eq!(ObservationCollector::source_for_role("tool"), ObservationSource::ToolOutput);
    assert_eq!(c.collect(&vec![30, 10, 20, 10]), vec![1, 3]);
    let all = ObservationCollector::new(7, 10, "/s".to_string());
    assert_eq!(all.collect(&vec![30, 10, 20, 10]), vec![1, 3, 2, 0]);
}

#[test]
fn collector_transcripts_and_existing_memory() {
    let c = ObservationCollector::new(7, 200, "/state".to_string());
    let t = |preview: &str| TranscriptEntry {
        session_id: "s".to_string(),
        turn_number: 1,
        role: "user".to_string(),
        content_preview: preview.to_string(),
        tool_calls: vec![],
        tokens: 0,
        timestamp: "2024-05-01T10:00:00Z".to_string(),
    };
    assert!(c.is_significant_transcript(&t(&"a".repeat(51))));
    assert!(!c.is_significant_transcript(&t(&"a".repeat(50))));
    assert!(!c.is_significant_transcript(&t(&format!("[no output]{}", "a".repeat(60)))));
    assert_eq!(ObservationCollector::existing_memory_text("Build", "cmds", "cargo"), "[EXISTING MEMORY] Build/cmds: cargo");
    let long = "w".repeat(700);
    assert_eq!(
        ObservationCollector::existing_memory_text("B", "c", &long),
        format!("[EXISTING MEMORY] B/c: {}", "w".repeat(500))
    );
}

#[test]
fn engine_plans_each_kind_of_write() {
    let create = op(OperationKind::Create, "Build", "Cmds", "cargo build");
    match DreamEngine::apply_step(&create, Confidence::Observed, 0) {
        ApplyStep::Store { topic, subtopic, content, source, confidence } => {
            assert_eq!((topic.as_str(), subtopic.as_str(), content.as_str(), source.as_str()), ("Build", "Cmds", "cargo build", "autoDream"));
            assert_eq!(confidence, Confidence::Observed);
        }
        _ => panic!("expected a store"),
    }
    let update = op(OperationKind::Update { existing_path: "build/cmds.md".into() }, "Build", "Cmds", &"u".repeat(150));
    match DreamEngine::apply_step(&update, Confidence::Verified, 0) {
        ApplyStep::Append { path, text, source, confidence, pointer } => {
            assert_eq!(path, "build/cmds.md");
            assert_eq!(text, format!("[autoDream update] {}", "u".repeat(150)));
            assert_eq!(source, "autoDream consolidation");
            assert_eq!(confidence, Confidence::Observed);
            assert_eq!(pointer, Some(("Build".to_string(), "u".repeat(120))));
        }
        _ => panic!("expected an append"),
    }
    let prune = op(OperationKind::Prune { reason: PruneReason::Stale }, "My Topic", "Sub Topic", "");
    match DreamEngine::apply_step(&prune, Confidence::Observed, 0) {
        ApplyStep::Prune { path } => assert_eq!(path, "my-topic/sub-topic.md"),
        _ => panic!("expected a prune"),
    }
    let confirm = op(OperationKind::Confirm { from_confidence: "observed".into(), to_confidence: "verified".into() }, "A B", "C", "still true");
    match DreamEngine::apply_step(&confirm, Confidence::Observed, 0) {
        ApplyStep::Append { path, text, confidence, pointer, .. } => {
            assert_eq!(path, "a-b/c.md");
            assert_eq!(text, "[autoDream confirmed] still true");
            assert_eq!(confidence, Confidence::Verified);
            assert!(pointer.is_none());
        }
        _ => panic!("expected an append"),
    }
    let merge = op(OperationKind::Merge { source_entries: vec!["x.md".into()] }, "T", "S", "both");
    match DreamEngine::apply_step(&merge, Confidence::Observed, 0) {
        ApplyStep::Merge { content, source, remove, .. } => {
            assert_eq!(content, "[Merged by autoDream] both");
            assert_eq!(source, "autoDream merge");
            assert_eq!(remove, vec!["x.md".to_string()]);
        }
        _ => panic!("expected a merge"),
    }
    let heal = op(OperationKind::HealAgent { agent_id: "a1".into(), reason: "stall".into() }, "Resilience", "a1", "");
    assert!(matches!(DreamEngine::apply_step(&heal, Confidence::Observed, 0), ApplyStep::Skip));
}

#[test]
fn engine_raises_conflict_tickets() {
    let c = MemoryOperation {
        kind: OperationKind::Conflict { existing_data: "uses tabs".into(), new_data: "uses spaces".into() },
        topic: "Style".to_string(),
        subtopic: "Indent".to_string(),
        content: String::new(),
        reasoning: "contradiction".to_string(),
    };
    match DreamEngine::apply_step(&c, Confidence::Observed, 1700000000) {
        ApplyStep::Ticket { file_name, content } => {
            assert_eq!(file_name, "conflict_1700000000_Style.md");
            assert_eq!(
                content,
                "# Knowledge Conflict: Style/Indent\n\n## Reason\ncontradiction\n\n## Existing Knowledge\nuses tabs\n\n## New Contradicting Observation\nuses spaces\n\n---\nStatus: Pending Mediation\nGenerated by: autoDream"
            );
        }
        _ => panic!("expected a ticket"),
    }
}

#[test]
fn engine_hashes_the_memory_state() {
    assert_eq!(
        DreamEngine::hash_memory_state("", &vec![]),
        "e3b0c44298fc1c149afbf4c8996fb92427ae41e4649b934ca495991b7852b855"
    );
    assert_eq!(
        DreamEngine::hash_memory_state("abc", &vec![("ignored.md".to_string(), None)]),
        "ba7816bf8f01cfea414140de5dae2223b00361a396177a9cb410ff61f20015ad"
    );
    // The index, then each file's path and content, hashed as one stream.
    assert_eq!(
        DreamEngine::hash_memory_state("", &vec![("a".to_string(), Some("bc".to_string()))]),
        "ba7816bf8f01cfea414140de5dae2223b00361a396177a9cb410ff61f20015ad"
    );
}

#[test]
fn tally_counts_by_kind_and_calls_for_rollback() {
    let mut t = DreamTally::new();
    t.record(&OperationKind::Create);
    t.record(&OperationKind::Prune { reason: PruneReason::Contradicted });
    t.record(&OperationKind::Prune { reason: PruneReason::Stale });
    t.record(&OperationKind::Conflict { existing_data: "a".into(), new_data: "b".into() });
    t.record(&OperationKind::Update { existing_path: "p".into() });
    assert_eq!((t.applied, t.created, t.pruned, t.contradictions, t.merged, t.confirmed), (5, 1, 2, 2, 0, 0));
    for i in 0..10 {
        assert!(!t.record_failure(format!("failure {}", i)));
    }
    assert!(t.record_failure("one too many".to_string()));
    t.note_rollback();
    assert_eq!(t.errors.last().unwrap(), "Rolled back due to excessive errors");
    let r = t.into_report(3, 20, 8, 900, "before".to_string(), "after".to_string());
    assert_eq!(r.operations_applied, 5);
    assert_eq!(r.contradictions_resolved, 2);
    assert_eq!(r.errors.len(), 12);
    let e = DreamEngine::empty_report("h");
    assert_eq!((e.operations_applied, e.memory_before_hash.as_str(), e.memory_after_hash.as_str()), (0, "h", "h"));
}

#[test]
fn reports_full_and_brief() {
    let mut r = report();
    assert_eq!(
        DreamReporter::format_brief(&r, "0.0123"),
        "autoDream: 12s, 40 obs → 7 ops (1 merged, 2 created, 3 pruned, 1 confirmed, 2 contradictions), 1500 tokens, $0.0123"
    );
    let full = DreamReporter::format(&r, "0.0123");
    assert!(full.starts_with("╔══════════════════════════════════════════╗\n║ autoDream Report                         ║\n╚══════════════════════════════════════════╝\n\n"));
    assert!(full.contains("Duration: 12s\nTokens: 1500 | Cost: $0.0123\n\n"));
    assert!(full.contains("🔀 Merged: 1\n➕ Created: 2\n🗑 Pruned: 3\n✅ Confirmed: 1\n"));
    assert!(full.ends_with("\nMemory: 01234567 → fedcba98\n"));
    assert!(!full.contains("Errors"));
    r.errors = vec!["bad op".to_string()];
    let full = DreamReporter::format(&r, "0.0123");
    assert!(full.contains("\n⚠ Errors (1):\n - bad op\n"));
}

#[test]
fn mirror_snapshot_counts_and_detects_stalls() {
    let m = MirrorEngine::new("/state".to_string());
    let es = vec![
        log(LogEntryKind::Decision, Some("s1"), &[], "decide", 5),
        log(LogEntryKind::Action, Some("s1"), &["Bash"], "ls", 10),
        log(LogEntryKind::Action, Some("s2"), &["Read"], "a.rs", 1),
        log(LogEntryKind::Action, Some("s1"), &["Bash"], "ls", 10),
        log(LogEntryKind::Error, Some("s2"), &[], "oops", 0),
        log(LogEntryKind::Action, Some("s1"), &["Bash"], "ls", 10),
        log(LogEntryKind::Observation, None, &[], "quiet", 2),
    ];
    let s = m.generate_snapshot(&es);
    assert_eq!(s.total_ops, 1);
    assert_eq!(s.total_tokens, 38);
    assert_eq!(s.conflicts, 1);
    assert!(s.most_volatile_topic.is_none());
    assert_eq!(s.agent_performance.len(), 2);
    let (id1, h1) = &s.agent_performance[0];
    assert_eq!(id1, "s1");
    assert_eq!(h1.success_count, 3);
    assert_eq!(h1.conflict_count, 0);
    assert!(h1.vitals.is_stalled);
    assert_eq!(h1.vitals.tool_loop_count, 3);
    assert_eq!(h1.vitals.distinct_tool_calls, 1);
    assert_eq!(h1.vitals.last_tool_call, Some(5));
    let (id2, h2) = &s.agent_performance[1];
    assert_eq!(id2, "s2");
    assert_eq!((h2.success_count, h2.conflict_count), (1, 1));
    assert!(!h2.vitals.is_stalled);
    assert_eq!(h2.vitals.tool_loop_count, 0);
    let empty = m.generate_snapshot(&vec![]);
    assert_eq!(empty.total_ops, 1);
}

#[test]
fn mirror_reads_insights() {
    let item = |kind: Option<&str>| RawInsight {
        kind: kind.map(String::from),
        reasoning: None,
        agent_id: Some("coder-1".to_string()),
        reason: None,
        new_instructions: Some("be brief".to_string()),
    };
    let ops = MirrorEngine::parse_mirror_insights(&vec![item(Some("heal_agent")), item(Some("other")), item(Some("refine_instructions")), item(None)]);
    assert_eq!(ops.len(), 2);
    assert_eq!(ops[0].topic, "Resilience");
    assert_eq!(ops[0].subtopic, "coder-1");
    assert_eq!(ops[0].reasoning, "No reasoning provided");
    match &ops[0].kind {
        OperationKind::HealAgent { agent_id, reason } => {
            assert_eq!(agent_id, "coder-1");
            assert_eq!(reason, "Unknown stall");
        }
        _ => panic!("expected a heal"),
    }
    assert_eq!(ops[1].topic, "Optimization");
    match &ops[1].kind {
        OperationKind::RefineInstructions { new_instructions, .. } => assert_eq!(new_instructions, "be brief"),
        _ => panic!("expected a refinement"),
    }
}

#[test]
fn synthesis_prompt_and_operation() {
    let files = vec![
        ("auth/a.md".to_string(), Some("first".to_string())),
        ("auth/gone.md".to_string(), None),
        ("auth/b.md".to_string(), Some("second".to_string())),
    ];
    let prompt = ThematicSynthesizer::synthesis_prompt("auth", &files);
    assert!(prompt.starts_with("You are the autoDream Thematic Synthesizer.\nConsolidate the following fragmented L2 observations into a single high-level L3 THEME CHAPTER for the topic: 'auth'.\n\n## FRAGMENTS\n### Source: auth/a.md\nfirst\n\n### Source: auth/b.md\nsecond\n\n\n\n## INSTRUCTIONS\n"));
    assert!(prompt.ends_with("4. Output only the synthesized content."));
    let paths = vec!["auth/a.md".to_string(), "auth/b.md".to_string()];
    let op = ThematicSynthesizer::synthesis_operation("auth", &paths, "# Auth chapter".to_string());
    assert_eq!(op.topic, "auth");
    assert_eq!(op.subtopic, "chapter");
    assert_eq!(op.content, "# Auth chapter");
    assert_eq!(op.reasoning, "Thematic synthesis of 2 fragments (8/5 Rule triggered).");
    match op.kind {
        OperationKind::ConsolidateTheme { l2_paths } => assert_eq!(l2_paths, paths),
        _ => panic!("expected a theme consolidation"),
    }
}

#[test]
fn at_most_three_existing_themes_are_read() {
    let c: Vec<String> = vec!["themes/a.md", "themes/b.md", "themes/c.md", "themes/d.md", "themes/e.md"]
        .into_iter()
        .map(String::from)
        .collect();
    let read = Autopilot::themes_to_read(&c, &vec![true, false, true, true, true]);
    assert_eq!(read, vec!["themes/a.md", "themes/c.md", "themes/d.md"]);
    assert!(Autopilot::themes_to_read(&c, &vec![false; 5]).is_empty());
}
