//! Gathering what a dream cycle consolidates: daemon log entries, archived
//! turns, and the memory as it stands.
//!
//! The reading is the caller's; this module decides which entries count, what
//! each becomes, and which observations a cycle keeps: the oldest first, at
//! most the cycle's limit.
use vstd::prelude::*;
use crate::order::{before, lemma_ordered_unique};
use crate::daemon::daily_log::{LogEntry, LogEntryKind};
use crate::dream::types::ObservationSource;
use crate::memory::transcripts::TranscriptEntry;
use crate::text::{
    byte_len, byte_prefix, chars_of, copy_str, fits, is_boundary, prefix_bytes, push_str,
    starts_with, starts_with_vec, str_eq, utf8_len,
};

verus! {

/// Collects observations for a dream cycle.
#[derive(Debug)]
pub struct ObservationCollector {
    lookback_days: u32,
    max_entries_per_cycle: usize,
    daemon_state_dir: String,
}

/// The kinds of log entry a dream learns from.
pub open spec fn relevant_kind(k: LogEntryKind) -> bool {
    k == LogEntryKind::Observation || k == LogEntryKind::Action || k == LogEntryKind::ActionResult
        || k == LogEntryKind::Error
}

/// A log entry worth learning from: of a relevant kind, with more than 20
/// bytes of content.
pub open spec fn is_relevant(e: LogEntry) -> bool {
    relevant_kind(e.kind) && utf8_len(e.content@) > 20
}

/// An archived turn worth learning from: more than 50 bytes of preview that
/// is not a "[no output]" marker.
pub open spec fn is_significant(e: TranscriptEntry) -> bool {
    utf8_len(e.content_preview@) > 50 && !starts_with(e.content_preview@, "[no output]"@)
}

/// The source a turn's role stands for.
pub open spec fn role_source(role: Seq<char>) -> ObservationSource {
    if role == "user"@ {
        ObservationSource::UserStatement
    } else if role == "assistant"@ {
        ObservationSource::AgentInference
    } else {
        ObservationSource::ToolOutput
    }
}

/// The observation made of an existing memory entry: its topic, subtopic and
/// the first 500 bytes of its content.
pub open spec fn existing_text(topic: Seq<char>, subtopic: Seq<char>, content: Seq<char>) -> Seq<char> {
    "[EXISTING MEMORY] "@ + topic + "/"@ + subtopic + ": "@ + if utf8_len(content) <= 500 {
        content
    } else {
        byte_prefix(content, 500)
    }
}

/// Observation `i` comes before observation `j`: earlier, or as early and
/// listed first.
pub open spec fn earlier(times: Seq<i64>, i: int, j: int) -> bool {
    times[i] < times[j] || (times[i] == times[j] && i < j)
}

/// `order` lists, without repeats, the observations a cycle keeps: by time,
/// ties in the order given, the `max` earliest.
pub open spec fn is_kept_order(times: Seq<i64>, max: nat, order: Seq<usize>) -> bool {
    &&& order.len() == if times.len() <= max { times.len() } else { max }
    &&& forall|k: int| 0 <= k < order.len() ==> #[trigger] order[k] < times.len()
    &&& forall|k: int, l: int|
        0 <= k < l < order.len() ==> earlier(times, #[trigger] order[k] as int, #[trigger] order[l] as int)
    &&& forall|j: usize, k: int|
        #![trigger order.contains(j), order[k]]
        j < times.len() && !order.contains(j) && 0 <= k < order.len() ==> earlier(
            times,
            order[k] as int,
            j as int,
        )
}

/// The observations kept by one order are among those kept by another of
/// the same length (else one kept by the first and dropped by the second
/// would come both before and after the others).
proof fn lemma_kept_within(times: Seq<i64>, max: nat, o1: Seq<usize>, o2: Seq<usize>, x: usize)
    requires
        is_kept_order(times, max, o1),
        is_kept_order(times, max, o2),
        o1.contains(x),
    ensures
        o2.contains(x),
{
    if !o2.contains(x) {
        let i = choose|i: int| 0 <= i < o1.len() && o1[i] == x;
        assert forall|y: usize| o2.contains(y) implies o1.contains(y) by {
            let b = choose|b: int| 0 <= b < o2.len() && o2[b] == y;
            assert(x < times.len());
            assert(earlier(times, o2[b] as int, x as int));
            if !o1.contains(y) {
                assert(y < times.len());
                assert(earlier(times, o1[i] as int, y as int));
                assert(false);
            }
        }
        assert forall|k: int, l: int| 0 <= k < l < o1.len() implies o1[k] != o1[l] by {
            assert(earlier(times, o1[k] as int, o1[l] as int));
        }
        assert forall|k: int, l: int| 0 <= k < l < o2.len() implies o2[k] != o2[l] by {
            assert(earlier(times, o2[k] as int, o2[l] as int));
        }
        assert(o1.no_duplicates());
        assert(o2.no_duplicates());
        o1.unique_seq_to_set();
        o2.unique_seq_to_set();
        assert(o2.to_set().subset_of(o1.to_set().remove(x)));
        vstd::set_lib::lemma_len_subset(o2.to_set(), o1.to_set().remove(x));
        assert(o1.to_set().contains(x));
        assert(false);
    }
}

/// What a cycle keeps is fixed by the observations' times: two kept orders of
/// the same times are the same sequence, so `collect` returns one definite
/// order.
pub proof fn lemma_kept_order_unique(times: Seq<i64>, max: nat, o1: Seq<usize>, o2: Seq<usize>)
    requires
        is_kept_order(times, max, o1),
        is_kept_order(times, max, o2),
    ensures
        o1 == o2,
{
    let key = |i: int| times[i] as int;
    let s1 = o1.map_values(|x: usize| x as int);
    let s2 = o2.map_values(|x: usize| x as int);
    assert forall|k: int, l: int| 0 <= k < l < s1.len() implies before(key, #[trigger] s1[k], #[trigger] s1[l]) by {
        assert(earlier(times, o1[k] as int, o1[l] as int));
    }
    assert forall|k: int, l: int| 0 <= k < l < s2.len() implies before(key, #[trigger] s2[k], #[trigger] s2[l]) by {
        assert(earlier(times, o2[k] as int, o2[l] as int));
    }
    assert forall|z: int| s1.contains(z) <==> s2.contains(z) by {
        if s1.contains(z) {
            let a = choose|a: int| 0 <= a < s1.len() && s1[a] == z;
            lemma_kept_within(times, max, o1, o2, o1[a]);
            let b = choose|b: int| 0 <= b < o2.len() && o2[b] == o1[a];
            assert(s2[b] == z);
        }
        if s2.contains(z) {
            let a = choose|a: int| 0 <= a < s2.len() && s2[a] == z;
            lemma_kept_within(times, max, o2, o1, o2[a]);
            let b = choose|b: int| 0 <= b < o1.len() && o1[b] == o2[a];
            assert(s1[b] == z);
        }
    }
    lemma_ordered_unique(key, s1, s2);
    assert forall|k: int| 0 <= k < o1.len() implies o1[k] == o2[k] by {
        assert(s1[k] == s2[k]);
    }
    assert(o1 =~= o2);
}

impl ObservationCollector {
    pub closed spec fn lookback_view(&self) -> nat {
        self.lookback_days as nat
    }

    pub closed spec fn max_view(&self) -> nat {
        self.max_entries_per_cycle as nat
    }

    pub closed spec fn state_dir_view(&self) -> Seq<char> {
        self.daemon_state_dir@
    }

    /// A collector looking back `lookback_days` days, keeping at most
    /// `max_entries_per_cycle` observations, over the daemon state under
    /// `daemon_state_dir`.
    pub fn new(lookback_days: u32, max_entries_per_cycle: usize, daemon_state_dir: String) -> (r: Self)
        ensures
            r.lookback_view() == lookback_days,
            r.max_view() == max_entries_per_cycle,
            r.state_dir_view() == daemon_state_dir@,
    {
        ObservationCollector { lookback_days, max_entries_per_cycle, daemon_state_dir }
    }

    /// How many days back the logs and transcripts are read.
    pub fn lookback_days(&self) -> (r: u32)
        ensures
            r == self.lookback_view(),
    {
        self.lookback_days
    }

    /// The daemon state directory.
    pub fn daemon_state_dir(&self) -> (r: &String)
        ensures
            r@ == self.state_dir_view(),
    {
        &self.daemon_state_dir
    }

    /// Whether a daemon log entry is worth learning from.
    pub fn is_relevant_log_entry(&self, entry: &LogEntry) -> (b: bool)
        requires
            fits(entry.content@),
        ensures
            b == is_relevant(*entry),
    {
        let k = entry.kind;
        (k == LogEntryKind::Observation || k == LogEntryKind::Action || k == LogEntryKind::ActionResult
            || k == LogEntryKind::Error) && byte_len(entry.content.as_str()) > 20
    }

    /// Whether an archived turn is worth learning from.
    pub fn is_significant_transcript(&self, entry: &TranscriptEntry) -> (b: bool)
        requires
            fits(entry.content_preview@),
        ensures
            b == is_significant(*entry),
    {
        if byte_len(entry.content_preview.as_str()) <= 50 {
            return false;
        }
        let v = chars_of(entry.content_preview.as_str());
        let p = chars_of("[no output]");
        !starts_with_vec(&v, &p)
    }

    /// The source of an archived turn: the user's statements, the agent's
    /// inferences, and tool output for any other role.
    pub fn source_for_role(role: &str) -> (r: ObservationSource)
        ensures
            r == role_source(role@),
    {
        if str_eq(role, "user") {
            ObservationSource::UserStatement
        } else if str_eq(role, "assistant") {
            ObservationSource::AgentInference
        } else {
            ObservationSource::ToolOutput
        }
    }

    /// The observation made of an existing memory entry.
    pub fn existing_memory_text(topic: &str, subtopic: &str, content: &str) -> (r: String)
        requires
            fits(content@),
            utf8_len(content@) > 500 ==> is_boundary(content@, 500),
        ensures
            r@ == existing_text(topic@, subtopic@, content@),
    {
        let mut r = copy_str("[EXISTING MEMORY] ");
        push_str(&mut r, topic);
        push_str(&mut r, "/");
        push_str(&mut r, subtopic);
        push_str(&mut r, ": ");
        if byte_len(content) <= 500 {
            push_str(&mut r, content);
        } else {
            let head = prefix_bytes(content, 500);
            push_str(&mut r, head.as_str());
        }
        r
    }

    /// Which of the gathered observations (by their times) the cycle keeps,
    /// in the order it considers them: the earliest first, ties in the order
    /// gathered, at most the cycle's limit.
    pub fn collect(&self, times: &Vec<i64>) -> (r: Vec<usize>)
        ensures
            is_kept_order(times@, self.max_view(), r@),
    {
        // Insertion sort of the positions by time, ties by position.
        let mut order: Vec<usize> = Vec::new();
        let mut i: usize = 0;
        while i < times.len()
            invariant
                i <= times.len(),
                order.len() == i,
                forall|k: int| 0 <= k < order.len() ==> #[trigger] order@[k] < i,
                forall|j: usize| j < i ==> #[trigger] order@.contains(j),
                forall|k: int, l: int|
                    0 <= k < l < order.len() ==> earlier(times@, #[trigger] order@[k] as int, #[trigger] order@[l] as int),
            decreases times.len() - i,
        {
            let mut p: usize = order.len();
            while p > 0 && times[order[p - 1]] > times[i]
                invariant
                    p <= order.len(),
                    i < times.len(),
                    order.len() == i,
                    forall|k: int| 0 <= k < order.len() ==> #[trigger] order@[k] < i,
                    forall|k: int| p <= k < order.len() ==> times@[#[trigger] order@[k] as int] > times@[i as int],
                decreases p,
            {
                p = p - 1;
            }
            let ghost before = order@;
            order.insert(p, i);
            proof {
                assert(order@ == before.insert(p as int, i));
                assert forall|k: int, l: int|
                    0 <= k < l < order.len() implies earlier(times@, #[trigger] order@[k] as int, #[trigger] order@[l] as int) by {
                    if l < p {
                        assert(order@[k] == before[k] && order@[l] == before[l]);
                    } else if l == p {
                        assert(order@[k] == before[k]);
                        assert(order@[l] == i);
                        if p > 0 {
                            assert(times@[before[p - 1] as int] <= times@[i as int]);
                            if k < p - 1 {
                                assert(earlier(times@, before[k] as int, before[p - 1] as int));
                            }
                        }
                    } else if k < p {
                        assert(order@[k] == before[k] && order@[l] == before[l - 1]);
                        if k < l - 1 {
                            assert(earlier(times@, before[k] as int, before[l - 1] as int));
                        }
                    } else if k == p {
                        assert(order@[k] == i && order@[l] == before[l - 1]);
                        assert(times@[before[l - 1] as int] > times@[i as int]);
                    } else {
                        assert(order@[k] == before[k - 1] && order@[l] == before[l - 1]);
                        assert(earlier(times@, before[k - 1] as int, before[l - 1] as int));
                    }
                }
                assert forall|j: usize| j < i + 1 implies #[trigger] order@.contains(j) by {
                    if j == i {
                        assert(order@[p as int] == i);
                    } else {
                        assert(before.contains(j));
                        let q = choose|q: int| 0 <= q < before.len() && before[q] == j;
                        if q < p {
                            assert(order@[q] == j);
                        } else {
                            assert(order@[q + 1] == j);
                        }
                    }
                }
                assert forall|k: int| 0 <= k < order.len() implies #[trigger] order@[k] < i + 1 by {
                    if k < p {
                        assert(order@[k] == before[k]);
                    } else if k > p {
                        assert(order@[k] == before[k - 1]);
                    }
                }
            }
            i = i + 1;
        }
        let keep = if order.len() <= self.max_entries_per_cycle {
            order.len()
        } else {
            self.max_entries_per_cycle
        };
        let mut r: Vec<usize> = Vec::new();
        let mut k: usize = 0;
        while k < keep
            invariant
                k <= keep <= order.len(),
                r@ == order@.take(k as int),
            decreases keep - k,
        {
            r.push(order[k]);
            assert(r@ =~= order@.take(k + 1));
            k = k + 1;
        }
        proof {
            assert forall|j: usize, k: int|
                j < times.len() && !r@.contains(j) && 0 <= k < r@.len() implies earlier(
                times@,
                r@[k] as int,
                j as int,
            ) by {
                assert(order@.contains(j));
                let q = choose|q: int| 0 <= q < order.len() && order@[q] == j;
                if q < keep {
                    assert(r@[q] == j);
                }
                assert(r@[k] == order@[k]);
                assert(k < q);
                assert(earlier(times@, order@[k] as int, order@[q] as int));
            }
        }
        r
    }
}

} // verus!
