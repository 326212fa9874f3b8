use dreamswarm::memory::global::GlobalMemoryStore;
use dreamswarm::memory::index::{rank, MemoryIndex};
use dreamswarm::memory::loader::{MemoryContext, MemoryLoader, TopicInjection};
use dreamswarm::memory::search::MemorySearch;
use dreamswarm::memory::system::MemorySystem;
use dreamswarm::memory::topics::{Confidence, TopicError, TopicStore};
use dreamswarm::memory::transcripts::TranscriptStore;
use dreamswarm::memory::writer::MemoryWriter;

const STAMP: &str = "2024-05-01 10:00 UTC";

fn sample_index() -> String {
    "# DreamSwarm Memory Index\n_Last updated: then_\n\n## Build\n→ build/commands.md — How to build and test\n-> build/ci.md - CI pipeline notes\n\n## Style\n→ style/naming.md — Naming conventions for modules\n".to_string()
}

fn index() -> MemoryIndex {
    MemoryIndex::new("/mem/MEMORY.md".to_string())
}

fn writer() -> MemoryWriter {
    MemoryWriter::new("/mem/MEMORY.md".to_string(), "/mem/topics".to_string(), "/mem/archive".to_string())
}

#[test]
fn index_placeholder_when_nothing_is_stored() {
    let ix = index();
    assert_eq!(ix.load_raw(None), "# DreamSwarm Memory Index\n\n_No memories stored yet._\n");
    assert_eq!(ix.load_raw(Some("x".to_string())), "x");
    assert_eq!(ix.estimate_tokens("abcdefgh"), 2);
    assert!(ix.parse(&ix.load_raw(None)).is_empty());
}

#[test]
fn index_parses_both_arrow_styles() {
    let ix = index();
    let es = ix.parse(&sample_index());
    assert_eq!(es.len(), 3);
    assert_eq!(es[0].topic, "Build");
    assert_eq!(es[0].subtopic, "commands");
    assert_eq!(es[0].file_path, "build/commands.md");
    assert_eq!(es[0].description, "How to build and test");
    assert_eq!(es[1].file_path, "build/ci.md");
    assert_eq!(es[1].description, "CI pipeline notes");
    assert_eq!(es[2].topic, "Style");
    assert_eq!(es[2].subtopic, "naming");
}

#[test]
fn index_lists_topics_sorted_once_each() {
    let ix = index();
    assert_eq!(ix.list_topics(&sample_index()), vec!["Build".to_string(), "Style".to_string()]);
}

#[test]
fn index_finds_relevant_entries_by_matching_words() {
    let ix = index();
    let hits = ix.find_relevant(&sample_index(), "BUILD pipeline");
    let paths: Vec<&str> = hits.iter().map(|e| e.file_path.as_str()).collect();
    assert_eq!(paths, vec!["build/ci.md", "build/commands.md"]);
    assert!(ix.find_relevant(&sample_index(), "nothing here").is_empty());
}

#[test]
fn rank_orders_by_score_ties_in_order() {
    assert_eq!(rank(&vec![1, 0, 3, 1], 3), vec![2, 0, 3]);
    assert!(rank(&vec![0, 0], 3).is_empty());
}

#[test]
fn upsert_writes_a_fresh_index() {
    let ix = index();
    let t = ix.upsert_pointer(None, "Build", "build/commands.md", "How to build", STAMP);
    assert_eq!(
        t,
        "# DreamSwarm Memory Index\n_Last updated: 2024-05-01 10:00 UTC_\n\n## Build\n→ build/commands.md — How to build\n"
    );
}

#[test]
fn upsert_reads_back_and_replaces_the_old_pointer() {
    let ix = index();
    let t = ix.upsert_pointer(Some(&sample_index()), "Build", "build/ci.md", "New CI notes", STAMP);
    let es = ix.parse(&t);
    let ci: Vec<_> = es.iter().filter(|e| e.file_path == "build/ci.md").collect();
    assert_eq!(ci.len(), 1);
    assert_eq!(ci[0].topic, "Build");
    assert_eq!(ci[0].description, "New CI notes");
    assert_eq!(es.len(), 3);
    // Topics come out in order.
    assert_eq!(ix.list_topics(&t), vec!["Build".to_string(), "Style".to_string()]);
}

#[test]
fn remove_pointer_drops_the_lines_that_mention_the_path() {
    let ix = index();
    let t = ix.remove_pointer(Some(&sample_index()), "build/ci.md", STAMP).unwrap();
    let es = ix.parse(&t);
    assert_eq!(es.len(), 2);
    assert!(es.iter().all(|e| e.file_path != "build/ci.md"));
    assert_eq!(ix.remove_pointer(Some(&sample_index()), "nowhere.md", STAMP), None);
    assert_eq!(ix.remove_pointer(None, "build/ci.md", STAMP), None);
}

#[test]
fn upsert_then_remove_leaves_no_pointer() {
    let ix = index();
    let t = ix.upsert_pointer(Some(&sample_index()), "Notes", "notes/todo.md", "Things to do", STAMP);
    let t = ix.remove_pointer(Some(&t), "notes/todo.md", STAMP).unwrap();
    assert!(ix.parse(&t).iter().all(|e| e.file_path != "notes/todo.md"));
}

#[test]
fn confidence_labels() {
    assert_eq!(Confidence::Verified.label(), "✅ verified");
    assert_eq!(Confidence::Observed.label(), "👁 observed");
    assert_eq!(Confidence::Inferred.label(), "🔮 inferred");
    assert_eq!(Confidence::Stale.label(), "⚠ stale");
}

#[test]
fn topic_entries_and_titles() {
    let store = TopicStore::new("/mem/topics".to_string(), "/mem/archive".to_string());
    assert_eq!(TopicStore::title_text("build/commands.md"), "# Memory: commands\n\n");
    let e = store.entry_text("Run cargo test", Some("user"), Confidence::Observed, STAMP);
    assert_eq!(e, "\n---\n_[2024-05-01 10:00 UTC | 👁 observed]_\n_Source: user_\nRun cargo test\n");
    let fresh = store.append_text("build/commands.md", "Run cargo test", None, Confidence::Verified, None, STAMP).unwrap();
    assert_eq!(fresh, "# Memory: commands\n\n\n---\n_[2024-05-01 10:00 UTC | ✅ verified]_\nRun cargo test\n");
    let more = store.append_text("build/commands.md", "Run cargo test", None, Confidence::Verified, Some(40), STAMP).unwrap();
    assert!(!more.starts_with("# Memory"));
    assert_eq!(
        store.append_text("build/commands.md", "x", None, Confidence::Verified, Some(50_000), STAMP),
        Err(TopicError::AtCapacity { size: 50_000 })
    );
}

#[test]
fn topic_entries_are_cut_at_two_thousand_bytes() {
    let store = TopicStore::new("/t".to_string(), "/a".to_string());
    let long = "y".repeat(2500);
    let e = store.entry_text(&long, None, Confidence::Inferred, STAMP);
    assert!(e.ends_with(&format!("{}... [truncated]\n", "y".repeat(2000))));
}

#[test]
fn topic_listing_and_decay() {
    let store = TopicStore::new("/t".to_string(), "/a".to_string());
    let found = vec!["b.md".to_string(), "a.md".to_string(), "b.md".to_string()];
    assert_eq!(store.list_all(found), vec!["a.md".to_string(), "b.md".to_string()]);
    assert_eq!(store.estimate_tokens(Some("abcdefgh")), 2);
    assert_eq!(store.estimate_tokens(None), 0);
}

#[test]
fn temporal_decay_keeps_fresh_and_verified_topics() {
    let twenty_days = 20 * 86400;
    assert!(!TopicStore::decays(60, 14, "This is fresh"));
    assert!(TopicStore::decays(twenty_days, 14, "This is old"));
    assert!(!TopicStore::decays(twenty_days, 14, "This is verified ✅ verified"));
    let sys = MemorySystem::new("/mem");
    let files = vec![
        ("active.md".to_string(), 60, "This is fresh".to_string()),
        ("old_stale.md".to_string(), twenty_days, "This is old".to_string()),
        ("old_verified.md".to_string(), twenty_days, "This is verified ✅ verified".to_string()),
    ];
    assert_eq!(sys.manage_decay(&files, 14), vec!["old_stale.md".to_string()]);
    assert_eq!(sys.memory_dir(), "/mem");
}

#[test]
fn writer_refuses_derivable_and_short_content() {
    let w = writer();
    let code = "fn main() {\n    let x = 1;\n}\n";
    assert!(MemoryWriter::is_derivable(code));
    let o = w.store("Code", "Main", code, None, Confidence::Observed, None, None, STAMP).unwrap();
    assert!(!o.result.stored);
    assert_eq!(o.result.reason, "Content can be re-derived from the codebase. Not storing.");
    assert_eq!(o.result.topic_path, "Code/Main.md");
    let o = w.store("Notes", "Short", "   tiny   ", None, Confidence::Observed, None, None, STAMP).unwrap();
    assert!(!o.result.stored);
    assert_eq!(o.result.reason, "Content too short to be useful.");
    assert!(o.topic_text.is_none() && o.new_index.is_none());
}

#[test]
fn writer_stores_topic_first_then_pointer() {
    let w = writer();
    let o = w
        .store(
            "Project Setup",
            "Build Cmds",
            "Use cargo build --release to build.",
            Some("user"),
            Confidence::Observed,
            None,
            None,
            STAMP,
        )
        .unwrap();
    assert!(o.result.stored);
    assert_eq!(o.result.reason, "Successfully stored.");
    assert_eq!(o.result.topic_path, "project-setup/build-cmds.md");
    assert_eq!(
        o.topic_text.unwrap(),
        "# Memory: build-cmds\n\n\n---\n_[2024-05-01 10:00 UTC | 👁 observed]_\n_Source: user_\nUse cargo build --release to build.\n"
    );
    assert_eq!(
        o.new_index.unwrap(),
        "# DreamSwarm Memory Index\n_Last updated: 2024-05-01 10:00 UTC_\n\n## Project Setup\n→ project-setup/build-cmds.md — Use cargo build --release to build.\n"
    );
}

#[test]
fn writer_reports_a_full_topic_file() {
    let w = writer();
    let r = w.store("A", "B", "Long enough content here.", None, Confidence::Observed, None, Some(60_000), STAMP);
    assert_eq!(r.unwrap_err(), TopicError::AtCapacity { size: 60_000 });
}

#[test]
fn writer_paths_are_sanitized() {
    assert_eq!(MemoryWriter::sanitize_path("My Topic/../Évents"), "my-topic--évents");
    assert_eq!(MemoryWriter::sanitize_path("a\\b c"), "a-b-c");
    assert_eq!(MemoryWriter::topic_path("Web API", "Auth Flow"), "web-api/auth-flow.md");
}

#[test]
fn writer_summaries_skip_headings_and_rules() {
    assert_eq!(MemoryWriter::summarize_for_index("# Title\n---\n\n  First real line  \nmore"), "First real line");
    assert_eq!(MemoryWriter::summarize_for_index("# only a heading"), "(no description)");
    let long = "z".repeat(130);
    assert_eq!(MemoryWriter::summarize_for_index(&long), format!("{}...", "z".repeat(117)));
}

#[test]
fn writer_remove_plans_the_deletion() {
    let w = writer();
    let idx = "# DreamSwarm Memory Index\n_Last updated: x_\n\n## Web API\n→ web-api/auth-flow.md — tokens\n";
    let plan = w.remove("Web API", "Auth Flow", Some(idx), STAMP);
    assert_eq!(plan.topic_path, "web-api/auth-flow.md");
    assert_eq!(plan.new_index.unwrap(), "# DreamSwarm Memory Index\n_Last updated: 2024-05-01 10:00 UTC_\n");
    let plan = w.remove("Other", "Thing", Some(idx), STAMP);
    assert!(plan.new_index.is_none());
}

#[test]
fn writer_working_directory() {
    let mut w = writer();
    assert!(w.working_dir().is_none());
    w.set_working_dir("/repo".to_string());
    assert_eq!(w.working_dir().map(|s| s.as_str()), Some("/repo"));
}

#[test]
fn loader_picks_at_most_three_relevant_topics() {
    let l = MemoryLoader::new("/mem");
    let idx = "## T\n→ a.md — alpha words\n→ b.md — alpha beta\n→ c.md — alpha\n→ d.md — alpha\n";
    let paths = l.relevant_topic_paths(idx, "alpha beta");
    assert_eq!(paths, vec!["b.md".to_string(), "a.md".to_string(), "c.md".to_string()]);
}

#[test]
fn loader_loads_and_formats_the_memory() {
    let l = MemoryLoader::new("/mem");
    let reads = vec![("a.md".to_string(), Some("alpha facts".to_string())), ("b.md".to_string(), None)];
    let ctx = l.load_for_turn("INDEX".to_string(), reads);
    assert_eq!(ctx.index_tokens, 1);
    assert_eq!(ctx.topics.len(), 1);
    assert_eq!(ctx.topics[0].path, "a.md");
    assert_eq!(ctx.topics[0].tokens, 2);
    assert_eq!(ctx.topics_tokens, 2);
    assert_eq!(ctx.total_tokens, 3);
    assert_eq!(
        l.format_for_prompt(&ctx),
        "<memory_index>\nINDEX\n</memory_index>\n\n<memory_topics>\nThe following topic files were loaded because they are relevant to the current query.\n\n--- a.md ---\nalpha facts\n\n</memory_topics>\n"
    );
    let empty = MemoryContext { index_content: "I".to_string(), index_tokens: 0, topics: vec![], topics_tokens: 0, total_tokens: 0 };
    assert_eq!(l.format_for_prompt(&empty), "<memory_index>\nI\n</memory_index>\n");
    let _unused = TopicInjection { path: String::new(), content: String::new(), tokens: 0 };
}

#[test]
fn loader_cuts_long_topics_at_a_line_break() {
    let l = MemoryLoader::new("/mem");
    let (t, n) = l.truncate_to_tokens("aaaa\nbbbb\ncccc", 2);
    assert_eq!(t, "aaaa\n\n... [truncated]");
    assert_eq!(n, t.len() / 4);
    let (t, n) = l.truncate_to_tokens("short", 2);
    assert_eq!((t.as_str(), n), ("short", 1));
}

#[test]
fn search_snippets_mark_the_target_line() {
    let s = MemorySearch::new("/mem");
    assert_eq!(s.build_snippet("one\ntwo\nthree\nfour", 1, 1), "    one\n>>> two\n    three");
    assert_eq!(s.build_snippet("one\ntwo", 0, 1), ">>> one\n    two");
}

#[test]
fn global_store_shunts_pointers() {
    let g = GlobalMemoryStore::new("/home/u/.dreamswarm/global");
    let t = g.shunt_pointer("Patterns", "patterns/retry.md", "Retry with backoff", None, STAMP);
    assert_eq!(
        t,
        "# DreamSwarm Memory Index\n_Last updated: 2024-05-01 10:00 UTC_\n\n## Patterns\n→ patterns/retry.md — Retry with backoff\n"
    );
}

#[test]
fn transcripts_names_previews_and_cutoffs() {
    let t = TranscriptStore::new("/mem/transcripts".to_string());
    assert_eq!(t.base_dir(), "/mem/transcripts");
    assert_eq!(TranscriptStore::file_name("2024-05-01", "abcdef123456"), "2024-05-01-abcdef12.jsonl");
    assert_eq!(TranscriptStore::file_name("2024-05-01", "abc"), "2024-05-01-abc.jsonl");
    assert_eq!(TranscriptStore::preview("short"), "short");
    let long = "q".repeat(600);
    assert_eq!(TranscriptStore::preview(&long), format!("{}...", "q".repeat(500)));
    assert!(TranscriptStore::before_cutoff("2024-04-01-abc", "2024-04-24"));
    assert!(!TranscriptStore::before_cutoff("2024-04-30-abc", "2024-04-24"));
}

fn batch_entry(topic: &str, subtopic: &str, content: &str, source: Option<&str>, c: Confidence) -> (String, String, String, Option<String>, Confidence) {
    (topic.to_string(), subtopic.to_string(), content.to_string(), source.map(String::from), c)
}

#[test]
fn store_batch_stores_each_in_turn() {
    let w = writer();
    let entries = vec![
        batch_entry("Build", "Commands", "Run cargo test before every push.", Some("user"), Confidence::Verified),
        batch_entry("Build", "Commands", "Use --release when benchmarking.", None, Confidence::Observed),
        batch_entry("Style", "Naming", "short", None, Confidence::Inferred),
    ];
    let b = w.store_batch(&entries, None, &vec![None, None, None], STAMP);
    assert!(b.error.is_none());
    assert_eq!(b.outcomes.len(), 3);
    assert!(b.outcomes[0].result.stored && b.outcomes[1].result.stored && !b.outcomes[2].result.stored);
    assert_eq!(b.outcomes[2].result.reason, "Content too short to be useful.");

    // the same as storing one after the other
    let one = w
        .store("Build", "Commands", "Run cargo test before every push.", Some("user"), Confidence::Verified, None, None, STAMP)
        .unwrap();
    let first_len = one.topic_text.as_ref().unwrap().len();
    let two = w
        .store(
            "Build",
            "Commands",
            "Use --release when benchmarking.",
            None,
            Confidence::Observed,
            one.new_index.as_deref(),
            Some(first_len),
            STAMP,
        )
        .unwrap();
    assert_eq!(b.outcomes[0].topic_text, one.topic_text);
    assert_eq!(b.outcomes[1].topic_text, two.topic_text);
    assert_eq!(b.index, two.new_index);
    // the second entry is appended to a file that is no longer empty: no title again
    assert!(one.topic_text.unwrap().starts_with("# "));
    assert!(!two.topic_text.unwrap().starts_with("# "));
}

#[test]
fn store_batch_stops_at_a_full_file() {
    let w = writer();
    let entries = vec![
        batch_entry("A", "B", "Long enough content here.", None, Confidence::Observed),
        batch_entry("C", "D", "Also long enough content.", None, Confidence::Observed),
        batch_entry("E", "F", "Never reached by the batch.", None, Confidence::Observed),
    ];
    let b = w.store_batch(&entries, Some(sample_index()), &vec![None, Some(60_000), None], STAMP);
    assert_eq!(b.error, Some(TopicError::AtCapacity { size: 60_000 }));
    assert_eq!(b.outcomes.len(), 1);
    assert!(b.outcomes[0].result.stored);
    assert_eq!(b.index, b.outcomes[0].new_index);
}

#[test]
fn search_in_content_finds_matching_lines() {
    let s = MemorySearch::new("/mem");
    let content = "# Build\nRun cargo test often\nnothing here\nCargo build --release";
    let hits = s.search_in_content("build/commands.md", "Build", content, "CARGO release");
    assert_eq!(hits.len(), 2);
    assert_eq!(hits[0].line_number, 2);
    assert_eq!((hits[0].matches, hits[0].words), (1, 2));
    assert_eq!(hits[0].snippet, "    # Build\n>>> Run cargo test often\n    nothing here");
    assert_eq!(hits[1].line_number, 4);
    assert_eq!((hits[1].matches, hits[1].words), (2, 2));
    assert_eq!(hits[1].topic_path, "build/commands.md");
    assert_eq!(hits[1].topic_name, "Build");
    assert!(s.search_in_content("p", "t", content, "   ").is_empty());
}

#[test]
fn search_orders_by_matches_and_widens_when_short() {
    let s = MemorySearch::new("/mem");
    let idx = index();
    let raw = sample_index();
    let matched = idx.find_relevant(&raw, "build notes");
    let reads: Vec<Option<String>> = matched
        .iter()
        .map(|e| match e.file_path.as_str() {
            "build/commands.md" => Some("cargo build\nbuild notes here".to_string()),
            _ => None,
        })
        .collect();
    let files = vec![
        ("build/commands.md".to_string(), Some("never searched twice: build notes".to_string())),
        ("misc/other.md".to_string(), Some("some notes about build".to_string())),
    ];
    let hits = s.search("build notes", 10, &matched, &reads, &files);
    let found: Vec<(&str, &str, usize, usize)> =
        hits.iter().map(|h| (h.topic_path.as_str(), h.topic_name.as_str(), h.line_number, h.matches)).collect();
    assert_eq!(
        found,
        vec![
            ("build/commands.md", "Build", 2, 2),
            ("misc/other.md", "misc", 1, 2),
            ("build/commands.md", "Build", 1, 1),
        ]
    );
    // enough hits from the matched files: the others are not searched
    let first_only = s.search("build notes", 2, &matched, &reads, &files);
    assert_eq!(first_only.len(), 2);
    assert_eq!(first_only[0].line_number, 2);
    assert_eq!(first_only[1].topic_path, "build/commands.md");
}

#[test]
fn one_ranking_for_every_reader() {
    // the loader, the index and the ranking of the scores agree on one order
    let l = MemoryLoader::new("/mem");
    let raw = "## T\n→ a.md — alpha words\n→ b.md — alpha beta\n→ c.md — alpha\n→ d.md — alpha\n";
    let from_index: Vec<String> = index().find_relevant(raw, "alpha beta").into_iter().map(|e| e.file_path).collect();
    assert_eq!(from_index, vec!["b.md", "a.md", "c.md", "d.md"]);
    assert_eq!(l.relevant_topic_paths(raw, "alpha beta"), from_index[..3].to_vec());
    assert_eq!(rank(&vec![1, 2, 1, 1], 2), vec![1, 0, 2, 3]);
}

#[test]
fn shunted_pointers_read_back() {
    let g = GlobalMemoryStore::new("/home/u/.dreamswarm");
    let text = g.shunt_pointer("Build", "build/ci.md", "CI pipeline notes", None, STAMP);
    assert_eq!(text, g.index.upsert_pointer(None, "Build", "build/ci.md", "CI pipeline notes", STAMP));
    let entries = g.index.parse(&text);
    assert!(entries.iter().any(|e| e.topic == "Build" && e.file_path == "build/ci.md" && e.description == "CI pipeline notes"));
}
