use dreamswarm::context::auto_compact::{AutoCompact, AutoCompactError, CompactionSummary};
use dreamswarm::context::cache_tracker::CacheTracker;
use dreamswarm::context::compaction::{CompactionLedger, CompactionReport, CompactionStage};
use dreamswarm::context::full_compact::FullCompact;
use dreamswarm::context::manager::{CompactionStep, ContextManager};
use dreamswarm::context::messages::{Block, Content, Message};
use dreamswarm::context::micro_compact::MicroCompact;
use dreamswarm::context::token_counter::TokenCounter;

fn text_message(role: &str, text: &str) -> Message {
    Message { role: Some(role.to_string()), content: Content::Text(text.to_string()) }
}

fn message_text(m: &Message) -> String {
    match &m.content {
        Content::Text(t) => t.clone(),
        _ => panic!("not a text message"),
    }
}

#[test]
fn token_estimate_prose_is_a_quarter_of_the_bytes_rounded_up() {
    assert_eq!(TokenCounter::estimate("abcdefgh"), 2);
    assert_eq!(TokenCounter::estimate("abcdefghi"), 3);
    assert_eq!(TokenCounter::estimate(""), 0);
}

#[test]
fn token_estimate_code_counts_three_and_a_half_bytes() {
    // 5 of 7 characters are code characters.
    assert_eq!(TokenCounter::estimate("fn(){};"), 2);
    assert_eq!(TokenCounter::estimate("{}{}{}{}{}{}{}"), 4);
}

#[test]
fn chars_for_tokens_is_four_per_token() {
    assert_eq!(TokenCounter::chars_for_tokens(10), 40);
}

#[test]
fn estimate_messages_adds_four_per_message() {
    let v = vec!["abcd".to_string(), "abcdefgh".to_string()];
    assert_eq!(TokenCounter::estimate_messages(&v), 4 + 1 + 4 + 2);
}

#[test]
fn cache_tracker_counts_prompt_changes_after_the_first() {
    let mut t = CacheTracker::new();
    t.record_prompt("system A");
    assert_eq!(t.total_cache_breaks(), 0);
    t.record_prompt("system A");
    assert_eq!(t.total_cache_breaks(), 0);
    t.record_prompt("system B");
    assert_eq!(t.total_cache_breaks(), 1);
}

#[test]
fn cache_tracker_mode_model_and_index_report_changes() {
    let mut t = CacheTracker::new();
    assert!(!t.update_mode("default"));
    assert!(t.update_mode("plan"));
    assert!(!t.update_mode("plan"));
    assert!(t.update_model("model-a"));
    assert!(!t.update_model("model-a"));
    assert!(t.update_memory_index("# Memory Index"));
    assert!(!t.update_memory_index("# Memory Index"));
    assert!(t.update_memory_index("# Memory Index\n"));
}

#[test]
fn sticky_flags_cannot_be_turned_off() {
    let mut t = CacheTracker::new();
    t.activate_flag("thinking");
    t.activate_flag("tools");
    t.activate_flag("thinking");
    assert!(!t.deactivate_flag("thinking"));
    assert!(t.deactivate_flag("unknown"));
    assert_eq!(t.active_flags(), vec!["thinking".to_string(), "tools".to_string()]);
}

#[test]
fn micro_compact_compresses_old_empty_results() {
    let m = MicroCompact::new();
    let r = m.compact_tool_result("No matches found", 0, 10);
    assert_eq!(r, Some(("[no results]".to_string(), 1)));
    // A recent message is left alone.
    assert_eq!(m.compact_tool_result("No matches found", 8, 10), None);
    // Message 6 at turn 10 is younger than five turns: not touched.
    assert_eq!(m.compact_tool_result("No matches found", 6, 10), None);
    // Message 0 becomes eligible at turn 5, not before.
    assert_eq!(m.compact_tool_result("(no output)", 0, 4), None);
    assert_eq!(m.compact_tool_result("(no output)", 0, 5), Some(("[no results]".to_string(), 0)));
    assert_eq!(m.compact_tool_result("short output", 0, 10), None);
}

#[test]
fn micro_compact_truncates_long_outputs_by_lines() {
    let m = MicroCompact::new();
    let lines: Vec<String> = (0..100).map(|i| format!("line {:04} of the tool output, padded out", i)).collect();
    let content = lines.join("\n");
    assert!(content.len() > 3000);
    // A recent output is kept whole however long it is.
    assert_eq!(m.compact_tool_result(&content, 0, 4), None);
    let (text, saved) = m.compact_tool_result(&content, 0, 5).unwrap();
    let expected = format!(
        "{}\n\n... [60 lines omitted] ...\n\n{}",
        lines[..20].join("\n"),
        lines[80..].join("\n")
    );
    assert_eq!(text, expected);
    assert_eq!(saved, content.len() / 4 - expected.len() / 4);
}

#[test]
fn micro_compact_in_place_on_messages() {
    let m = MicroCompact::new();
    let mut msgs = vec![Message {
        role: Some("user".to_string()),
        content: Content::Blocks(vec![Block::ToolResult { content: Some("(no output)".to_string()) }]),
    }];
    let saved = m.compact(&mut msgs, 10);
    assert_eq!(saved, 0);
    match &msgs[0].content {
        Content::Blocks(bs) => match &bs[0] {
            Block::ToolResult { content } => assert_eq!(content.as_deref(), Some("[no results]")),
            _ => panic!("block changed kind"),
        },
        _ => panic!("content changed kind"),
    }
}

#[test]
fn auto_compact_breaker_opens_after_three_failures() {
    let mut a = AutoCompact::new();
    assert!(!a.is_disabled());
    a.record_failure();
    a.record_failure();
    assert!(!a.is_disabled());
    a.record_failure();
    assert!(a.is_disabled());
    let msgs: Vec<Message> = (0..10).map(|i| text_message("user", &format!("m{}", i))).collect();
    let e = a.plan_split(&msgs).unwrap_err();
    assert_eq!(e, AutoCompactError::CircuitOpen { failures: 3 });
    assert_eq!(e.message(), "AutoCompact circuit breaker tripped after 3 failures");
    a.reset();
    assert!(!a.is_disabled());
}

#[test]
fn auto_compact_needs_more_than_one_message_to_summarise() {
    let a = AutoCompact::new();
    let msgs = vec![text_message("user", "a"), text_message("assistant", "b")];
    let e = a.plan_split(&msgs).unwrap_err();
    assert_eq!(e, AutoCompactError::NotEnoughMessages);
    assert_eq!(e.message(), "Not enough messages to compact");
}

#[test]
fn auto_compact_keeps_the_last_three_turns() {
    let a = AutoCompact::new();
    let mut msgs = Vec::new();
    for i in 0..6 {
        msgs.push(text_message("user", &format!("question {}", i)));
        msgs.push(text_message("assistant", &format!("answer {}", i)));
    }
    assert_eq!(AutoCompact::count_recent_turns(&msgs, 3), 6);
    assert_eq!(a.plan_split(&msgs), Ok((6, 6)));
}

#[test]
fn auto_compact_summary_prompt_lists_the_turns() {
    let msgs = vec![
        text_message("user", "hello"),
        Message {
            role: Some("assistant".to_string()),
            content: Content::Blocks(vec![
                Block::ToolUse { name: Some("Bash".to_string()), path: None },
                Block::ToolResult { content: Some("ok".to_string()) },
            ]),
        },
        text_message("user", "later"),
    ];
    let p = AutoCompact::build_summary_prompt(&msgs, 2);
    assert!(p.contains("[user]: hello\n\n"));
    assert!(p.contains("[assistant called tool: Bash]\n\n"));
    assert!(p.contains("[tool_result]: ok\n\n"));
    assert!(!p.contains("later"));
}

#[test]
fn auto_compact_summary_counts_a_quarter_of_the_bytes() {
    let s = AutoCompact::summary("abcdefgh".to_string(), 100, 4, 2);
    assert_eq!(s.summary_text, "abcdefgh");
    assert_eq!(s.tokens_before, 100);
    assert_eq!(s.tokens_after, 2);
    assert_eq!(s.turns_compressed, 4);
    assert_eq!(s.turns_preserved, 2);
}

#[test]
fn ledger_records_compactions() {
    let mut l = CompactionLedger::new();
    let r = l.record(CompactionStage::MicroCompact, 100, 70);
    assert_eq!(
        r,
        CompactionReport { stage_fired: CompactionStage::MicroCompact, tokens_before: 100, tokens_after: 70, tokens_saved: 30 }
    );
    l.record(CompactionStage::FullCompact, 50, 10);
    assert_eq!(l.compaction_events, 2);
    assert_eq!(l.total_tokens_saved, 70);
}

#[test]
fn manager_stops_after_micro_compact_when_under_threshold() {
    let mut m = ContextManager::new(1000);
    let step = m.after_micro(900, 700, true);
    assert_eq!(
        step,
        CompactionStep::Done(CompactionReport {
            stage_fired: CompactionStage::MicroCompact,
            tokens_before: 900,
            tokens_after: 700,
            tokens_saved: 200,
        })
    );
    assert_eq!(m.ledger.compaction_events, 1);
    assert_eq!(m.ledger.total_tokens_saved, 200);
}

#[test]
fn manager_escalates_through_the_stages() {
    let mut m = ContextManager::new(1000);
    assert_eq!(m.after_micro(900, 880, false), CompactionStep::RunAuto);
    assert_eq!(m.after_auto(false, 900, 0, false), CompactionStep::RunFull);
    assert_eq!(m.after_auto(true, 900, 960, false), CompactionStep::RunFull);
    let r = m.after_full(false, 900, 300);
    assert_eq!(r.stage_fired, CompactionStage::FullCompact);
    assert_eq!(r.tokens_saved, 600);
    assert_eq!(m.ledger.compaction_events, 1);
    let r = m.after_full(true, 300, 250);
    assert_eq!(r.stage_fired, CompactionStage::ReactiveCompact);
    assert_eq!(m.ledger.total_tokens_saved, 650);
}

#[test]
fn manager_skips_auto_compact_when_its_breaker_is_open() {
    let mut m = ContextManager::new(1000);
    m.auto_compact.record_failure();
    m.auto_compact.record_failure();
    m.auto_compact.record_failure();
    assert_eq!(m.after_micro(900, 880, false), CompactionStep::RunFull);
}

#[test]
fn manager_summary_keeps_the_preserved_messages() {
    let msgs = vec![text_message("user", "a"), text_message("assistant", "b"), text_message("user", "c")];
    let summary = CompactionSummary {
        summary_text: "they talked".to_string(),
        tokens_before: 10,
        tokens_after: 2,
        turns_compressed: 2,
        turns_preserved: 1,
    };
    let out = ContextManager::summarised_messages(&msgs, &summary);
    assert_eq!(out.len(), 3);
    assert_eq!(message_text(&out[0]), "[CONVERSATION SUMMARY - 2 turns compressed]\n\nthey talked");
    assert_eq!(out[0].role.as_deref(), Some("user"));
    assert_eq!(message_text(&out[1]), "I've reviewed the conversation summary and I'm ready to continue.");
    assert_eq!(message_text(&out[2]), "c");
}

#[test]
fn full_compact_header_and_reinjection() {
    assert_eq!(
        FullCompact::compaction_message("S"),
        "[CONTEXT COMPACTION: The conversation history has been compressed. Below is a structured summary of everything that happened.]\n\nS"
    );
    let f = FullCompact { max_file_reinjection_tokens: 2, max_reinjected_files: 5, post_compact_budget_tokens: 50 };
    let (text, counted) = f.reinjection("p.rs", "abcdefghijkl");
    assert_eq!(text, "[Re-injected file: p.rs]\n\nabcdefgh\n... [truncated at 2 tokens]");
    assert_eq!(counted, 2);
    let (text, counted) = f.reinjection("q.rs", "abcd");
    assert_eq!(text, "[Re-injected file: q.rs]\n\nabcd");
    assert_eq!(counted, 1);
}

#[test]
fn full_compact_assembles_the_new_conversation() {
    let f = FullCompact::new();
    let files = vec![
        ("a.rs".to_string(), Some("fn main() {}".to_string())),
        ("missing.rs".to_string(), None),
        ("b.rs".to_string(), Some("x".to_string())),
    ];
    let (msgs, put_back) = f.assemble("summary", &files);
    assert_eq!(put_back, vec!["a.rs".to_string(), "b.rs".to_string()]);
    assert_eq!(msgs.len(), 6);
    assert_eq!(message_text(&msgs[0]), FullCompact::compaction_message("summary"));
    assert_eq!(
        message_text(&msgs[1]),
        "I understand. I've reviewed the compressed context and I'm ready to continue where we left off."
    );
    assert_eq!(message_text(&msgs[2]), "[Re-injected file: a.rs]\n\nfn main() {}");
    assert_eq!(message_text(&msgs[3]), "Noted: I've re-read a.rs.");
    assert_eq!(msgs[3].role.as_deref(), Some("assistant"));
}

#[test]
fn full_compact_stops_when_the_budget_is_spent() {
    let f = FullCompact { max_file_reinjection_tokens: 1, max_reinjected_files: 2, post_compact_budget_tokens: 50 };
    let files = vec![
        ("a".to_string(), Some("aaaaaaaa".to_string())),
        ("b".to_string(), Some("bbbbbbbb".to_string())),
        ("c".to_string(), Some("cccccccc".to_string())),
    ];
    let (_msgs, put_back) = f.assemble("s", &files);
    // Two files at most, each counted one token: the budget of two allows both.
    assert_eq!(put_back, vec!["a".to_string(), "b".to_string()]);
}

#[test]
fn full_compact_recent_files_newest_first() {
    let msgs = vec![
        Message {
            role: Some("assistant".to_string()),
            content: Content::Blocks(vec![Block::ToolUse { name: Some("FileRead".to_string()), path: Some("old.rs".to_string()) }]),
        },
        Message {
            role: Some("assistant".to_string()),
            content: Content::Blocks(vec![Block::ToolUse { name: Some("FileWrite".to_string()), path: Some("new.rs".to_string()) }]),
        },
    ];
    let files = FullCompact::extract_recent_files(&msgs);
    assert_eq!(files, vec!["new.rs".to_string(), "old.rs".to_string()]);
}

#[test]
fn compaction_counts_a_quarter_of_each_message_plus_four() {
    let ms = vec!["{\"role\":\"user\",\"content\":\"hello\"}".to_string(), "abc".to_string()];
    // 33 bytes / 4 = 8, + 4; 3 bytes / 4 = 0, + 4
    assert_eq!(FullCompact::message_tokens(&ms), 16);
    assert_eq!(FullCompact::message_tokens(&vec![]), 0);
}

#[test]
fn message_estimates_add_up() {
    let a = vec!["hello world".to_string()];
    let b = vec!["fn f() { g(); }".to_string(), "x".to_string()];
    let mut ab = a.clone();
    ab.extend(b.clone());
    assert_eq!(TokenCounter::estimate_messages(&ab), TokenCounter::estimate_messages(&a) + TokenCounter::estimate_messages(&b));
    assert_eq!(TokenCounter::estimate_messages(&vec![]), 0);
}

#[test]
fn flags_once_on_stay_on() {
    let mut t = CacheTracker::new();
    t.activate_flag("a");
    for _ in 0..3 {
        assert!(!t.deactivate_flag("a"));
    }
    assert!(t.deactivate_flag("b"));
    assert_eq!(t.active_flags(), vec!["a".to_string()]);
}
