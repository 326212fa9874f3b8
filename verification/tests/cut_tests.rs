use dreamswarm::daemon::signals::FileWatcher;
use dreamswarm::memory::index::MemoryIndex;
use dreamswarm::memory::writer::MemoryWriter;
use dreamswarm::text::{boundary_at, can_truncate_chars, utf8_len_checked};

fn chars(s: &str) -> Vec<char> {
    s.chars().collect()
}

#[test]
fn byte_lengths_and_boundaries() {
    assert_eq!(utf8_len_checked(&chars("héllo")), Some(6));
    assert_eq!(utf8_len_checked(&chars("")), Some(0));
    let v = chars("aé€");
    assert!(boundary_at(&v, 0));
    assert!(boundary_at(&v, 1));
    assert!(!boundary_at(&v, 2));
    assert!(boundary_at(&v, 3));
    assert!(!boundary_at(&v, 4));
    assert!(boundary_at(&v, 6));
    assert!(!boundary_at(&v, 7));
    let text: &str = "aé€";
    for n in 0..8 {
        assert_eq!(boundary_at(&v, n), n <= text.len() && text.is_char_boundary(n));
    }
}

#[test]
fn truncation_checks() {
    assert!(can_truncate_chars(&chars("short"), 120));
    // "abcdé" is 6 bytes: cutting at 5 keeps 2 bytes, a boundary
    assert!(can_truncate_chars(&chars("abcdé"), 5));
    // "aéb" + ... : cutting at 5 keeps 2 bytes, inside the é
    assert!(!can_truncate_chars(&chars("aébcdef"), 5));
    assert!(!can_truncate_chars(&chars("abcdef"), 2));
}

#[test]
fn pointer_and_store_checks() {
    let index = MemoryIndex::new("/m/MEMORY.md".to_string());
    assert!(index.can_point("build/commands.md", "How to build"));
    let long_ascii = "x".repeat(300);
    assert!(index.can_point("build/commands.md", &long_ascii));
    let writer = MemoryWriter::new("/m/MEMORY.md".to_string(), "/m/topics".to_string(), "/m/archive".to_string());
    assert!(writer.can_store("build", "commands", "Run cargo test --workspace before every push."));
    // too short: nothing is cut
    assert!(writer.can_store("build", "commands", "é"));
    // an entry over 2000 bytes cut inside a character
    let mut big = "a".to_string();
    big.push_str(&"é".repeat(1200));
    assert!(!writer.can_store("notes", "big", &big));
    // cut on a boundary, but its one line is summarised inside a character
    let even = "é".repeat(1200);
    assert!(!writer.can_store("notes", "even", &even));
    // a plain first line to summarise, and the entry cut on a boundary
    let mut fine = "Summary line here\n".to_string();
    fine.push_str(&"é".repeat(1200));
    assert!(fine.is_char_boundary(2000));
    assert!(writer.can_store("notes", "fine", &fine));
}

#[test]
fn git_listings() {
    let out = "  dreamswarm/a\n* dreamswarm/b\n\n  main\n";
    assert_eq!(FileWatcher::branch_list(out), vec!["dreamswarm/a", "dreamswarm/b", "main"]);
    assert_eq!(FileWatcher::branch_list("* * x\n"), vec!["x"]);
    assert_eq!(FileWatcher::diff_list("src/a.rs\n  src/b.rs  \n\n"), vec!["src/a.rs", "src/b.rs"]);
    assert_eq!(FileWatcher::diff_list(""), Vec::<String>::new());
}
