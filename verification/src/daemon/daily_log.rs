//! The daemon's daily audit log: one JSON line per entry, one file per day.
use vstd::prelude::*;
use crate::text::{chars_of, concat2, copy_str, line_ranges, lines, push_str, slice_chars, string_from_range, trim, trim_bounds};

verus! {

/// What a log entry records.
#[derive(Debug, Clone, Copy, PartialEq, Eq, Structural)]
pub enum LogEntryKind {
    Observation,
    Decision,
    Action,
    ActionResult,
    Error,
    Timeout,
    Dream,
    UserReturn,
    Startup,
    Shutdown,
    TrustChange,
}

/// One log entry (its time, cost and trust level are carried by the caller).
#[derive(Debug)]
pub struct LogEntry {
    pub kind: LogEntryKind,
    pub content: String,
    pub session_id: Option<String>,
    pub tools_used: Vec<String>,
    pub tokens_consumed: u64,
    pub signals_present: Vec<String>,
}

/// The log files under `<state dir>/logs`.
#[derive(Debug)]
pub struct DailyLog {
    base_dir: String,
}

/// Tokens consumed by the entries.
pub open spec fn token_sum(es: Seq<LogEntry>) -> nat
    decreases es.len(),
{
    if es.len() == 0 {
        0
    } else {
        token_sum(es.drop_last()) + es.last().tokens_consumed as nat
    }
}

/// Actions among the entries.
pub open spec fn action_count(es: Seq<LogEntry>) -> nat
    decreases es.len(),
{
    if es.len() == 0 {
        0
    } else {
        action_count(es.drop_last()) + if es.last().kind == LogEntryKind::Action {
            1nat
        } else {
            0nat
        }
    }
}

/// The lines of a log file that hold an entry: those not blank.
pub open spec fn record_lines_of(s: Seq<char>) -> Seq<Seq<char>> {
    lines(s).filter(|l: Seq<char>| trim(l).len() > 0)
}

impl DailyLog {
    pub closed spec fn dir_view(&self) -> Seq<char> {
        self.base_dir@
    }

    /// The log under `state_dir/logs`.
    pub fn new(state_dir: &str) -> (r: Self)
        ensures
            r.dir_view() == state_dir@ + "/logs"@,
    {
        DailyLog { base_dir: concat2(state_dir, "/logs") }
    }

    /// The directory of the log files.
    pub fn base_dir(&self) -> (r: &String)
        ensures
            r@ == self.dir_view(),
    {
        &self.base_dir
    }

    /// The file of the day `date` (`YYYY-MM-DD`).
    pub fn file_for_date(&self, date: &str) -> (r: String)
        ensures
            r@ == self.dir_view() + "/"@ + date@ + ".jsonl"@,
    {
        let mut r = concat2(self.base_dir.as_str(), "/");
        push_str(&mut r, date);
        push_str(&mut r, ".jsonl");
        r
    }

    /// The lines of a log file that hold entries (blank lines skipped).
    pub fn record_lines(content: &str) -> (r: Vec<String>)
        ensures
            r.deep_view() == record_lines_of(content@),
    {
        let v = chars_of(content);
        let ranges = line_ranges(&v);
        let ghost ls = lines(v@);
        let mut r: Vec<String> = Vec::new();
        let mut k: usize = 0;
        proof {
            reveal(Seq::filter);
            assert(ls.take(0).filter(|l: Seq<char>| trim(l).len() > 0) =~= Seq::<Seq<char>>::empty());
        }
        while k < ranges.len()
            invariant
                v@ == content@,
                ls == lines(v@),
                crate::text::ranges_are_lines(v@, ranges@, ls),
                k <= ranges.len(),
                r.deep_view() == ls.take(k as int).filter(|l: Seq<char>| trim(l).len() > 0),
            decreases ranges.len() - k,
        {
            let (lo, hi) = ranges[k];
            let (a, b) = trim_bounds(&v, lo, hi);
            proof {
                reveal(Seq::filter);
                assert(ls.take(k + 1).drop_last() =~= ls.take(k as int));
                assert(ls.take(k + 1).last() == ls[k as int]);
            }
            if a < b {
                let ghost before = r.deep_view();
                let line = string_from_range(&v, lo, hi);
                r.push(line);
                proof {
                    assert(r.deep_view() =~= before.push(line@));
                }
            } else {
                proof {
                    assert(v@.subrange(a as int, b as int) =~= Seq::<char>::empty());
                }
            }
            k = k + 1;
        }
        assert(ls.take(k as int) =~= ls);
        r
    }

    /// Tokens consumed by today's entries.
    pub fn tokens_used_today(entries: &Vec<LogEntry>) -> (r: u64)
        requires
            token_sum(entries@) <= u64::MAX,
        ensures
            r == token_sum(entries@),
    {
        let mut sum: u64 = 0;
        let mut k: usize = 0;
        while k < entries.len()
            invariant
                k <= entries.len(),
                token_sum(entries@) <= u64::MAX,
                sum == token_sum(entries@.take(k as int)),
            decreases entries.len() - k,
        {
            proof {
                assert(entries@.take(k + 1).drop_last() =~= entries@.take(k as int));
                lemma_token_sum_prefix(entries@, k + 1);
            }
            sum = sum + entries[k].tokens_consumed;
            k = k + 1;
        }
        assert(entries@.take(k as int) =~= entries@);
        sum
    }

    /// Actions among today's entries.
    pub fn actions_today(entries: &Vec<LogEntry>) -> (r: u64)
        ensures
            r == action_count(entries@),
    {
        let mut n: u64 = 0;
        let mut k: usize = 0;
        while k < entries.len()
            invariant
                k <= entries.len(),
                n == action_count(entries@.take(k as int)),
                n <= k,
                entries.len() <= usize::MAX,
            decreases entries.len() - k,
        {
            proof {
                assert(entries@.take(k + 1).drop_last() =~= entries@.take(k as int));
            }
            if entries[k].kind == LogEntryKind::Action {
                n = n + 1;
            }
            k = k + 1;
        }
        assert(entries@.take(k as int) =~= entries@);
        n
    }
}

/// The tokens of a prefix are no more than those of the whole.
proof fn lemma_token_sum_prefix(es: Seq<LogEntry>, k: int)
    requires
        0 <= k <= es.len(),
    ensures
        token_sum(es.take(k)) <= token_sum(es),
    decreases es.len(),
{
    if k < es.len() {
        assert(es.drop_last().take(k) =~= es.take(k));
        lemma_token_sum_prefix(es.drop_last(), k);
    } else {
        assert(es.take(k) =~= es);
    }
}

} // verus!
