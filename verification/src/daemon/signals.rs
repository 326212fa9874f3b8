//! Signals the daemon gathers: what changed in the workspace, git and the user.
use vstd::prelude::*;
use crate::memory::index::is_ranking;
use crate::text::{
    byte_len, byte_prefix, chars_of, concat2, contains, contains_vec, copy_str, ends_with,
    ends_with_vec, fits, is_boundary, prefix_bytes, push_str, slice_chars, str_eq, trim, utf8_len,
};

verus! {

/// What a signal reports.
#[derive(Debug, Clone, PartialEq, Eq)]
pub enum SignalKind {
    FileChanged,
    FileCreated,
    FileDeleted,
    GitPush,
    GitPROpened,
    GitPRUpdated,
    GitPRMerged,
    CIFailed,
    CIPassed,
    BuildError,
    TestFailure,
    IdleTimeout,
    CronTrigger,
    DependencyUpdate,
    ConflictImminent,
    Custom(String),
}

/// How serious a signal is, from least to most.
#[derive(Debug, Clone, Copy, PartialEq, Eq, PartialOrd, Ord, Structural)]
pub enum SignalSeverity {
    Info,
    Warning,
    Error,
    Critical,
}

/// One signal: its kind, where it came from, what it says, how serious it
/// is, and the path it concerns, if any.
#[derive(Debug)]
pub struct Signal {
    pub kind: SignalKind,
    pub source: String,
    pub description: String,
    pub severity: SignalSeverity,
    pub path: Option<String>,
}

/// The rank of a severity: 0 for info up to 3 for critical.
pub open spec fn severity_rank(s: SignalSeverity) -> nat {
    match s {
        SignalSeverity::Info => 0,
        SignalSeverity::Warning => 1,
        SignalSeverity::Error => 2,
        SignalSeverity::Critical => 3,
    }
}

/// The rank of a severity.
pub fn severity_rank_exec(s: SignalSeverity) -> (r: usize)
    ensures
        r == severity_rank(s),
{
    match s {
        SignalSeverity::Info => 0,
        SignalSeverity::Warning => 1,
        SignalSeverity::Error => 2,
        SignalSeverity::Critical => 3,
    }
}

/// The order in which gathered signals are handled: most severe first, ties in
/// the order they were gathered (every signal, each once).
pub fn severity_order(severities: &Vec<SignalSeverity>) -> (r: Vec<usize>)
    ensures
        is_ranking(
            severities@.map_values(|s: SignalSeverity| severity_rank(s) + 1),
            r@.map_values(|x: usize| x as int),
        ),
{
    let mut scores: Vec<usize> = Vec::new();
    let mut k: usize = 0;
    while k < severities.len()
        invariant
            k <= severities.len(),
            scores.len() == k,
            forall|i: int| 0 <= i < k ==> scores[i] as nat == severity_rank(severities[i]) + 1 && scores[i] <= 4,
        decreases severities.len() - k,
    {
        scores.push(severity_rank_exec(severities[k]) + 1);
        k = k + 1;
    }
    let r = crate::memory::index::rank(&scores, 4);
    proof {
        assert(scores@.map_values(|x: usize| x as nat) =~= severities@.map_values(|s: SignalSeverity| severity_rank(s) + 1));
    }
    r
}

/// The paths the file watcher ignores: version control, dependencies, build
/// output, caches, editor swap and backup files.
pub open spec fn ignored_path(p: Seq<char>) -> bool {
    ||| contains(p, ".git/"@)
    ||| contains(p, "node_modules/"@)
    ||| contains(p, "target/"@)
    ||| contains(p, "__pycache__/"@)
    ||| contains(p, ".dreamswarm/"@)
    ||| contains(p, ".DS_Store"@)
    ||| ends_with(p, ".swp"@)
    ||| ends_with(p, ".swo"@)
    ||| ends_with(p, "~"@)
}

fn contains_str(v: &Vec<char>, p: &str) -> (b: bool)
    ensures
        b == contains(v@, p@),
{
    let pv = chars_of(p);
    contains_vec(v, &pv)
}

fn ends_with_str(v: &Vec<char>, p: &str) -> (b: bool)
    ensures
        b == ends_with(v@, p@),
{
    let pv = chars_of(p);
    ends_with_vec(v, &pv)
}

/// Watches the working tree for changes.
pub struct FileWatcher;

/// The files changed on branch `a` that branch `b` changes too, in `a`'s order.
pub open spec fn shared_files(changes: Seq<(String, Vec<String>)>, a: int, b: int) -> Seq<Seq<char>> {
    changes[a].1.deep_view().filter(|f: Seq<char>| changes[b].1.deep_view().contains(f))
}

/// `t` without its leading `"* "` marks.
fn strip_star_exec(t: &Vec<char>) -> (r: Vec<char>)
    ensures
        r@ == strip_star(t@),
{
    let mut i: usize = 0;
    assert(t@.skip(0) =~= t@);
    while i < t.len() && t.len() - i >= 2 && t[i] == '*' && t[i + 1] == ' '
        invariant
            i <= t.len(),
            strip_star(t@.skip(i as int)) == strip_star(t@),
        decreases t.len() - i,
    {
        assert(t@.skip(i as int).skip(2) =~= t@.skip(i + 2));
        i = i + 2;
    }
    let r = slice_chars(t, i, t.len());
    assert(r@ =~= t@.skip(i as int));
    r
}

/// The kept lines of `out` (see `kept_lines`).
fn kept_lines_exec(out: &str, branches: bool) -> (r: Vec<String>)
    ensures
        r.deep_view() == kept_lines(crate::text::lines(out@), branches),
{
    let v = chars_of(out);
    let ranges = crate::text::line_ranges(&v);
    let ghost ls = crate::text::lines(v@);
    let mut r: Vec<String> = Vec::new();
    let mut k: usize = 0;
    while k < ranges.len()
        invariant
            v@ == out@,
            ls == crate::text::lines(v@),
            crate::text::ranges_are_lines(v@, ranges@, ls),
            k <= ranges.len(),
            r.deep_view() == kept_lines(ls.take(k as int), branches),
        decreases ranges.len() - k,
    {
        let (lo, hi) = ranges[k];
        let (a, b) = crate::text::trim_bounds(&v, lo, hi);
        let t = slice_chars(&v, a, b);
        let s = if branches {
            strip_star_exec(&t)
        } else {
            t
        };
        proof {
            assert(ls.take(k + 1).drop_last() =~= ls.take(k as int));
            assert(ls.take(k + 1).last() == ls[k as int]);
        }
        if s.len() > 0 {
            let ghost before = r.deep_view();
            let x = crate::text::string_from_chars(&s);
            r.push(x);
            proof {
                assert(r.deep_view() =~= before.push(x@));
            }
        }
        k = k + 1;
    }
    assert(ls.take(k as int) =~= ls);
    r
}

impl FileWatcher {
    /// The branches listed by `git branch --list`, in order.
    pub fn branch_list(out: &str) -> (r: Vec<String>)
        ensures
            r.deep_view() == branch_names(out@),
    {
        kept_lines_exec(out, true)
    }

    /// The files listed by `git diff --name-only`, in order.
    pub fn diff_list(out: &str) -> (r: Vec<String>)
        ensures
            r.deep_view() == diff_names(out@),
    {
        kept_lines_exec(out, false)
    }

    /// Whether a changed path is ignored.
    pub fn should_ignore(path: &str) -> (b: bool)
        ensures
            b == ignored_path(path@),
    {
        let v = chars_of(path);
        contains_str(&v, ".git/") || contains_str(&v, "node_modules/") || contains_str(&v, "target/")
            || contains_str(&v, "__pycache__/") || contains_str(&v, ".dreamswarm/") || contains_str(
            &v,
            ".DS_Store",
        ) || ends_with_str(&v, ".swp") || ends_with_str(&v, ".swo") || ends_with_str(&v, "~")
    }

    /// The first two branches (in list order) whose changes touch a common
    /// file, with the files of the first that the second also changes.
    pub fn find_overlap(changes: &Vec<(String, Vec<String>)>) -> (r: Option<(usize, usize, Vec<String>)>)
        ensures
            match r {
                Some((i, j, files)) => i < j < changes.len() && files.len() > 0 && files.deep_view()
                    == shared_files(changes@, i as int, j as int) && forall|a: int, b: int|
                    0 <= a < b < changes.len() && (a < i || (a == i && b < j)) ==> #[trigger] shared_files(changes@, a, b).len() == 0,
                None => forall|a: int, b: int|
                    0 <= a < b < changes.len() ==> #[trigger] shared_files(changes@, a, b).len() == 0,
            },
    {
        let mut i: usize = 0;
        while i < changes.len()
            invariant
                i <= changes.len(),
                forall|a: int, b: int|
                    0 <= a < b < changes.len() && a < i ==> #[trigger] shared_files(changes@, a, b).len() == 0,
            decreases changes.len() - i,
        {
            let mut j: usize = i + 1;
            while j < changes.len()
                invariant
                    i < changes.len(),
                    i + 1 <= j <= changes.len(),
                    forall|a: int, b: int|
                        0 <= a < b < changes.len() && (a < i || (a == i && b < j)) ==> #[trigger] shared_files(changes@, a, b).len() == 0,
                decreases changes.len() - j,
            {
                let common = common_files(&changes[i].1, &changes[j].1);
                assert(common.deep_view() == shared_files(changes@, i as int, j as int));
                if common.len() > 0 {
                    return Some((i, j, common));
                }
                j = j + 1;
            }
            i = i + 1;
        }
        None
    }
}

/// The files of `a` that `b` also holds, in `a`'s order.
fn common_files(a: &Vec<String>, b: &Vec<String>) -> (r: Vec<String>)
    ensures
        r.deep_view() == a.deep_view().filter(|f: Seq<char>| b.deep_view().contains(f)),
{
    let mut r: Vec<String> = Vec::new();
    let mut k: usize = 0;
    while k < a.len()
        invariant
            k <= a.len(),
            r.deep_view() == a.deep_view().take(k as int).filter(|f: Seq<char>| b.deep_view().contains(f)),
        decreases a.len() - k,
    {
        let mut found = false;
        let mut m: usize = 0;
        while m < b.len()
            invariant
                k < a.len(),
                m <= b.len(),
                found == exists|q: int| 0 <= q < m && b.deep_view()[q] == a.deep_view()[k as int],
            decreases b.len() - m,
        {
            if str_eq(b[m].as_str(), a[k].as_str()) {
                found = true;
            }
            proof {
                if !found {
                    assert forall|q: int| 0 <= q < m + 1 implies b.deep_view()[q] != a.deep_view()[k as int] by {
                        if q == m {
                            assert(b.deep_view()[q] == b[m as int]@);
                        }
                    }
                } else {
                    if b.deep_view()[m as int] == a.deep_view()[k as int] {
                        assert(exists|q: int| 0 <= q < m + 1 && b.deep_view()[q] == a.deep_view()[k as int]);
                    }
                }
            }
            m = m + 1;
        }
        proof {
            reveal(Seq::filter);
            assert(a.deep_view().take(k + 1).drop_last() =~= a.deep_view().take(k as int));
            assert(a.deep_view().take(k + 1).last() == a.deep_view()[k as int]);
            assert(found == b.deep_view().contains(a.deep_view()[k as int]));
        }
        if found {
            let ghost before = r.deep_view();
            let c = copy_str(a[k].as_str());
            r.push(c);
            proof {
                assert(r.deep_view() =~= before.push(c@));
            }
        }
        k = k + 1;
    }
    assert(a.deep_view().take(k as int) =~= a.deep_view());
    r
}

/// The branches listed by `git branch --list`: each line trimmed, without the
/// `* ` of the current branch, empty lines dropped.
pub open spec fn branch_names(out: Seq<char>) -> Seq<Seq<char>> {
    kept_lines(crate::text::lines(out), true)
}

/// The files `git diff --name-only` lists: each line trimmed, empty lines
/// dropped.
pub open spec fn diff_names(out: Seq<char>) -> Seq<Seq<char>> {
    kept_lines(crate::text::lines(out), false)
}

/// Each line trimmed (and, for branches, without its `* ` marks), the empty
/// ones dropped, in order.
pub open spec fn kept_lines(ls: Seq<Seq<char>>, branches: bool) -> Seq<Seq<char>>
    decreases ls.len(),
{
    if ls.len() == 0 {
        Seq::empty()
    } else {
        let rest = kept_lines(ls.drop_last(), branches);
        let t = if branches {
            strip_star(trim(ls.last()))
        } else {
            trim(ls.last())
        };
        if t.len() > 0 {
            rest.push(t)
        } else {
            rest
        }
    }
}

/// A line without its leading `"* "` marks (all of them).
pub open spec fn strip_star(s: Seq<char>) -> Seq<char>
    decreases s.len(),
{
    if s.len() >= 2 && s[0] == '*' && s[1] == ' ' {
        strip_star(s.skip(2))
    } else {
        s
    }
}

/// Watches git's HEAD.
#[derive(Debug)]
pub struct GitWatcher {
    working_dir: String,
    last_head: Option<String>,
}

/// What a moved HEAD is reported as: both heads shortened to 7 bytes.
pub open spec fn head_move(old: Seq<char>, new: Seq<char>) -> Seq<char> {
    "HEAD changed: "@ + byte_prefix(old, 7) + ".."@ + byte_prefix(new, 7)
}

/// A head that can be shortened to 7 bytes.
pub open spec fn short_head_ok(h: Seq<char>) -> bool {
    fits(h) && is_boundary(h, 7)
}

impl GitWatcher {
    pub closed spec fn dir_view(&self) -> Seq<char> {
        self.working_dir@
    }

    pub closed spec fn last_view(&self) -> Option<Seq<char>> {
        match self.last_head {
            Some(h) => Some(h@),
            None => None,
        }
    }

    /// A watcher of the repository at `working_dir`, no HEAD seen yet.
    pub fn new(working_dir: String) -> (r: Self)
        ensures
            r.dir_view() == working_dir@,
            r.last_view() is None,
    {
        GitWatcher { working_dir, last_head: None }
    }

    /// The repository watched.
    pub fn working_dir(&self) -> (r: &String)
        ensures
            r@ == self.dir_view(),
    {
        &self.working_dir
    }

    /// Takes in the current HEAD (`None` when git could not say): reports a
    /// move when a HEAD was seen before and this one differs, and remembers it.
    pub fn observe_head(&mut self, current: Option<String>) -> (r: Option<String>)
        requires
            current is Some && old(self).last_view() is Some && old(self).last_view().unwrap()
                != current.unwrap()@ ==> short_head_ok(old(self).last_view().unwrap()) && short_head_ok(current.unwrap()@),
        ensures
            final(self).dir_view() == old(self).dir_view(),
            match current {
                Some(h) => {
                    &&& final(self).last_view() == Some(h@)
                    &&& match old(self).last_view() {
                        Some(l) => if l != h@ {
                            r matches Some(d) && d@ == head_move(l, h@)
                        } else {
                            r is None
                        },
                        None => r is None,
                    }
                },
                None => final(self).last_view() == old(self).last_view() && r is None,
            },
    {
        match current {
            None => None,
            Some(h) => {
                let report = match &self.last_head {
                    Some(last) => {
                        if !str_eq(last.as_str(), h.as_str()) {
                            let mut d = copy_str("HEAD changed: ");
                            let a = prefix_bytes(last.as_str(), 7);
                            push_str(&mut d, a.as_str());
                            push_str(&mut d, "..");
                            let b = prefix_bytes(h.as_str(), 7);
                            push_str(&mut d, b.as_str());
                            Some(d)
                        } else {
                            None
                        }
                    },
                    None => None,
                };
                self.last_head = Some(h);
                report
            },
        }
    }
}

/// Reports the user idle once per idle spell.
#[derive(Debug)]
pub struct IdleWatcher {
    idle_reported: bool,
    idle_threshold_secs: u64,
}

impl IdleWatcher {
    pub closed spec fn reported(&self) -> bool {
        self.idle_reported
    }

    pub closed spec fn threshold(&self) -> nat {
        self.idle_threshold_secs as nat
    }

    /// A watcher that reports 300 seconds of idleness.
    pub fn new() -> (r: Self)
        ensures
            !r.reported(),
            r.threshold() == 300,
    {
        IdleWatcher { idle_reported: false, idle_threshold_secs: 300 }
    }

    /// The user did something: a new idle spell may be reported.
    pub fn record_activity(&mut self)
        ensures
            !final(self).reported(),
            final(self).threshold() == old(self).threshold(),
    {
        self.idle_reported = false;
    }

    /// After `idle_secs` seconds without activity: the idle time, the first
    /// time it reaches the threshold in this spell; `None` otherwise.
    pub fn poll(&mut self, idle_secs: u64) -> (r: Option<u64>)
        ensures
            final(self).threshold() == old(self).threshold(),
            idle_secs >= old(self).threshold() && !old(self).reported() ==> r == Some(idle_secs) && final(self).reported(),
            !(idle_secs >= old(self).threshold() && !old(self).reported()) ==> r is None && final(self).reported() == old(self).reported(),
    {
        if idle_secs >= self.idle_threshold_secs && !self.idle_reported {
            self.idle_reported = true;
            Some(idle_secs)
        } else {
            None
        }
    }
}

} // verus!
