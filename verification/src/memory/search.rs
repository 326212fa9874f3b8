//! Search over the memory: the lines of the topic files that hold the
//! query's words, with a snippet around each, most matching words first.
use vstd::prelude::*;
use crate::memory::index::{hits, count_hits, IndexEntry, MemoryIndex};
use crate::memory::topics::TopicStore;
use crate::text::{
    chars_of, concat2, copy_str, line_ranges, lines, lowercase, push_str, split_words, str_eq,
    string_from_range, to_lowercase, words,
};

verus! {

/// Searches the index and the topic files of a memory.
#[derive(Debug)]
pub struct MemorySearch {
    index: MemoryIndex,
    topics: TopicStore,
}

/// Lines joined by `'\n'` (no line break after the last).
pub open spec fn join_with_newlines(ls: Seq<Seq<char>>) -> Seq<char>
    decreases ls.len(),
{
    if ls.len() == 0 {
        Seq::empty()
    } else if ls.len() == 1 {
        ls[0]
    } else {
        join_with_newlines(ls.drop_last()) + seq!['\n'] + ls.last()
    }
}

/// The first line of a snippet around `target`.
pub open spec fn snippet_start(target: nat, context: nat) -> nat {
    if target >= context {
        (target - context) as nat
    } else {
        0
    }
}

/// One past the last line of a snippet around `target`, among `n` lines.
pub open spec fn snippet_end(target: nat, context: nat, n: nat) -> nat {
    if target + context + 1 <= n {
        target + context + 1
    } else {
        n
    }
}

/// The snippet of `content` around line `target`: the lines from `context`
/// before to `context` after it, the target marked `>>> `, the others indented.
pub open spec fn snippet(content: Seq<char>, target: nat, context: nat) -> Seq<char> {
    let ls = lines(content);
    let start = snippet_start(target, context);
    let end = snippet_end(target, context, ls.len());
    join_with_newlines(
        Seq::new(
            (end - start) as nat,
            |i: int|
                if start + i == target {
                    ">>> "@ + ls[start + i]
                } else {
                    "    "@ + ls[start + i]
                },
        ),
    )
}

/// A line that matches a search: its topic file, the topic, the snippet
/// around it, how many of the query's words it holds, how many words the
/// query has (its relevance is the ratio of the two), and its line number,
/// from 1.
#[derive(Debug)]
pub struct SearchHit {
    pub topic_path: String,
    pub topic_name: String,
    pub snippet: String,
    pub matches: usize,
    pub words: usize,
    pub line_number: usize,
}

/// What a hit holds.
pub type HitView = (Seq<char>, Seq<char>, Seq<char>, nat, nat, nat);

pub open spec fn hit_view(h: SearchHit) -> HitView {
    (h.topic_path@, h.topic_name@, h.snippet@, h.matches as nat, h.words as nat, h.line_number as nat)
}

pub open spec fn hits_view(hs: Seq<SearchHit>) -> Seq<HitView> {
    hs.map_values(|h: SearchHit| hit_view(h))
}

/// The hits among the first `n` lines of `content`, for the query words `ws`.
pub open spec fn line_hits(path: Seq<char>, name: Seq<char>, content: Seq<char>, ws: Seq<Seq<char>>, n: nat) -> Seq<HitView>
    decreases n,
{
    if n == 0 {
        Seq::empty()
    } else {
        let rest = line_hits(path, name, content, ws, (n - 1) as nat);
        let i = (n - 1) as nat;
        let c = count_hits(ws, lowercase(lines(content)[i as int]));
        if c > 0 {
            rest.push((path, name, snippet(content, i, 1), c, ws.len(), i + 1))
        } else {
            rest
        }
    }
}

/// The hits of a topic file's content, in line order.
pub open spec fn content_hits(path: Seq<char>, name: Seq<char>, content: Seq<char>, query: Seq<char>) -> Seq<HitView> {
    line_hits(path, name, content, words(lowercase(query)), lines(content).len())
}

/// The position of the first `'/'` of `p`, or its length.
pub open spec fn slash_at(p: Seq<char>) -> int
    decreases p.len(),
{
    if p.len() == 0 {
        0
    } else if p[0] == '/' {
        0
    } else {
        1 + slash_at(p.drop_first())
    }
}

/// The topic a file path is filed under: its first segment.
pub open spec fn first_segment(p: Seq<char>) -> Seq<char> {
    p.take(slash_at(p))
}

/// The first position in `s` whose hit has fewer than `m` matches, or its
/// length.
pub open spec fn first_fewer(s: Seq<HitView>, m: nat) -> int
    decreases s.len(),
{
    if s.len() == 0 {
        0
    } else if s[0].3 < m {
        0
    } else {
        1 + first_fewer(s.drop_first(), m)
    }
}

/// The hits ordered by matches, most first, ties in their order (a stable
/// sort).
pub open spec fn by_matches(hs: Seq<HitView>) -> Seq<HitView>
    decreases hs.len(),
{
    if hs.len() == 0 {
        Seq::empty()
    } else {
        let s = by_matches(hs.drop_last());
        s.insert(first_fewer(s, hs.last().3), hs.last())
    }
}

/// The hits of the files the index matched (`reads[k]` is the content of
/// `matched[k]`'s file, `None` when it could not be read).
pub open spec fn matched_hits(matched: Seq<(Seq<char>, Seq<char>)>, reads: Seq<Option<Seq<char>>>, query: Seq<char>) -> Seq<HitView>
    decreases matched.len(),
{
    if matched.len() == 0 || reads.len() < matched.len() {
        Seq::empty()
    } else {
        let k = matched.len() - 1;
        let rest = matched_hits(matched.drop_last(), reads.take(k), query);
        match reads[k] {
            Some(c) => rest + content_hits(matched[k].0, matched[k].1, c, query),
            None => rest,
        }
    }
}

/// The hits of the other topic files: those whose path the index did not
/// match, each filed under its first segment.
pub open spec fn other_hits(files: Seq<(Seq<char>, Option<Seq<char>>)>, matched: Seq<(Seq<char>, Seq<char>)>, query: Seq<char>) -> Seq<HitView>
    decreases files.len(),
{
    if files.len() == 0 {
        Seq::empty()
    } else {
        let rest = other_hits(files.drop_last(), matched, query);
        let f = files.last();
        if exists|j: int| 0 <= j < matched.len() && #[trigger] matched[j].0 == f.0 {
            rest
        } else {
            match f.1 {
                Some(c) => rest + content_hits(f.0, first_segment(f.0), c, query),
                None => rest,
            }
        }
    }
}

/// A search: the hits of the matched files, then (when they are fewer than
/// `max`) those of the other files, ordered by matches, the first `max`.
pub open spec fn search_result(
    query: Seq<char>,
    max: nat,
    matched: Seq<(Seq<char>, Seq<char>)>,
    reads: Seq<Option<Seq<char>>>,
    files: Seq<(Seq<char>, Option<Seq<char>>)>,
) -> Seq<HitView> {
    let first = matched_hits(matched, reads, query);
    let all = if first.len() < max {
        first + other_hits(files, matched, query)
    } else {
        first
    };
    let sorted = by_matches(all);
    if sorted.len() <= max {
        sorted
    } else {
        sorted.take(max as int)
    }
}

proof fn lemma_by_matches_len(hs: Seq<HitView>)
    ensures
        by_matches(hs).len() == hs.len(),
    decreases hs.len(),
{
    if hs.len() > 0 {
        lemma_by_matches_len(hs.drop_last());
        lemma_first_fewer_bounds(by_matches(hs.drop_last()), hs.last().3);
    }
}

proof fn lemma_first_fewer_bounds(s: Seq<HitView>, m: nat)
    ensures
        0 <= first_fewer(s, m) <= s.len(),
    decreases s.len(),
{
    if s.len() > 0 && s[0].3 >= m {
        lemma_first_fewer_bounds(s.drop_first(), m);
    }
}

/// The first position with fewer matches, found by a scan from the front.
proof fn lemma_first_fewer_at(s: Seq<HitView>, m: nat, p: int)
    requires
        0 <= p <= s.len(),
        forall|j: int| 0 <= j < p ==> #[trigger] s[j].3 >= m,
        p == s.len() || s[p].3 < m,
    ensures
        first_fewer(s, m) == p,
    decreases p,
{
    if p > 0 {
        let t = s.drop_first();
        assert forall|j: int| 0 <= j < p - 1 implies #[trigger] t[j].3 >= m by {
            assert(t[j] == s[j + 1]);
        }
        if p < s.len() {
            assert(t[p - 1] == s[p]);
        }
        lemma_first_fewer_at(t, m, p - 1);
    }
}

/// The first `'/'`, found by a scan from the front.
proof fn lemma_slash_at(p: Seq<char>, i: int)
    requires
        0 <= i <= p.len(),
        forall|j: int| 0 <= j < i ==> #[trigger] p[j] != '/',
        i == p.len() || p[i] == '/',
    ensures
        slash_at(p) == i,
    decreases i,
{
    if i > 0 {
        let t = p.drop_first();
        assert forall|j: int| 0 <= j < i - 1 implies #[trigger] t[j] != '/' by {
            assert(t[j] == p[j + 1]);
        }
        if i < p.len() {
            assert(t[i - 1] == p[i]);
        }
        lemma_slash_at(t, i - 1);
    }
}

impl MemorySearch {
    pub closed spec fn index_spec(&self) -> MemoryIndex {
        self.index
    }

    pub closed spec fn topics_spec(&self) -> TopicStore {
        self.topics
    }

    /// A search over the memory under `memory_dir`.
    pub fn new(memory_dir: &str) -> (r: Self)
        ensures
            r.index_spec().path_view() == memory_dir@ + "/MEMORY.md"@,
            r.topics_spec().base_view() == memory_dir@ + "/topics"@,
            r.topics_spec().archive_view() == memory_dir@ + "/archive"@,
    {
        MemorySearch {
            index: MemoryIndex::new(concat2(memory_dir, "/MEMORY.md")),
            topics: TopicStore::new(concat2(memory_dir, "/topics"), concat2(memory_dir, "/archive")),
        }
    }

    /// The lines of `content` around line `target_line` (0-based), `context`
    /// lines each side; the target line marked `>>> `, the others indented by
    /// four spaces, joined by line breaks.
    pub fn build_snippet(&self, content: &str, target_line: usize, context: usize) -> (r: String)
        requires
            target_line + context + 1 <= usize::MAX,
            snippet_start(target_line as nat, context as nat) <= lines(content@).len(),
        ensures
            r@ == snippet(content@, target_line as nat, context as nat),
    {
        let v = chars_of(content);
        let ranges = line_ranges(&v);
        let ghost ls = lines(v@);
        let start = if target_line >= context {
            target_line - context
        } else {
            0
        };
        let end = if target_line + context + 1 <= ranges.len() {
            target_line + context + 1
        } else {
            ranges.len()
        };
        let ghost items = Seq::new(
            (end - start) as nat,
            |i: int|
                if start + i == target_line {
                    ">>> "@ + ls[start + i]
                } else {
                    "    "@ + ls[start + i]
                },
        );
        let mut r = String::new();
        let mut k = start;
        proof {
            assert(items.take(0) =~= Seq::<Seq<char>>::empty());
        }
        while k < end
            invariant
                v@ == content@,
                ls == lines(v@),
                crate::text::ranges_are_lines(v@, ranges@, ls),
                start <= k <= end <= ranges.len(),
                items.len() == end - start,
                forall|i: int|
                    0 <= i < items.len() ==> #[trigger] items[i] == if start + i == target_line {
                        ">>> "@ + ls[start + i]
                    } else {
                        "    "@ + ls[start + i]
                    },
                r@ == join_with_newlines(items.take(k - start)),
            decreases end - k,
        {
            let ghost before = r@;
            if k > start {
                push_str(&mut r, "\n");
            }
            if k == target_line {
                push_str(&mut r, ">>> ");
            } else {
                push_str(&mut r, "    ");
            }
            let (lo, hi) = ranges[k];
            let line = string_from_range(&v, lo, hi);
            push_str(&mut r, line.as_str());
            proof {
                reveal_strlit("\n");
                let t = items.take(k + 1 - start);
                assert(t.drop_last() =~= items.take(k - start));
                assert(t.last() == items[k - start]);
                if k > start {
                    assert(r@ =~= before + seq!['\n'] + items[k - start]);
                } else {
                    assert(t =~= seq![items[0]]);
                    assert(r@ =~= items[0]);
                }
            }
            k = k + 1;
        }
        proof {
            assert(items.take(end - start) =~= items);
        }
        r
    }

    /// The lines of `content` that hold a word of `query` (both compared in
    /// lower case), in order, each with the snippet of one line around it.
    pub fn search_in_content(&self, topic_path: &str, topic_name: &str, content: &str, query: &str) -> (r: Vec<SearchHit>)
        requires
            lines(content@).len() + 2 <= usize::MAX,
        ensures
            hits_view(r@) == content_hits(topic_path@, topic_name@, content@, query@),
    {
        let ql = to_lowercase(query);
        let qv = chars_of(ql.as_str());
        let ws = split_words(&qv);
        let v = chars_of(content);
        let ranges = line_ranges(&v);
        let ghost ls = lines(v@);
        let mut r: Vec<SearchHit> = Vec::new();
        let mut i: usize = 0;
        while i < ranges.len()
            invariant
                v@ == content@,
                ls == lines(v@),
                crate::text::ranges_are_lines(v@, ranges@, ls),
                ws.deep_view() == words(lowercase(query@)),
                i <= ranges.len(),
                ranges.len() + 2 <= usize::MAX,
                hits_view(r@) == line_hits(topic_path@, topic_name@, content@, ws.deep_view(), i as nat),
            decreases ranges.len() - i,
        {
            let (lo, hi) = ranges[i];
            let line = string_from_range(&v, lo, hi);
            let low = to_lowercase(line.as_str());
            let lv = chars_of(low.as_str());
            let n = hits(&ws, &lv);
            proof {
                assert(line@ == ls[i as int]);
            }
            if n > 0 {
                let snip = self.build_snippet(content, i, 1);
                let ghost before = hits_view(r@);
                let h = SearchHit {
                    topic_path: copy_str(topic_path),
                    topic_name: copy_str(topic_name),
                    snippet: snip,
                    matches: n,
                    words: ws.len(),
                    line_number: i + 1,
                };
                r.push(h);
                proof {
                    assert(hits_view(r@) =~= before.push(hit_view(h)));
                }
            }
            i = i + 1;
        }
        r
    }
}

/// The first segment of a path, by a scan to its first `'/'`.
fn first_segment_exec(p: &str) -> (r: String)
    ensures
        r@ == first_segment(p@),
{
    let v = chars_of(p);
    let mut i: usize = 0;
    while i < v.len() && v[i] != '/'
        invariant
            v@ == p@,
            i <= v.len(),
            forall|j: int| 0 <= j < i ==> #[trigger] v@[j] != '/',
        decreases v.len() - i,
    {
        i = i + 1;
    }
    proof {
        lemma_slash_at(v@, i as int);
    }
    let r = string_from_range(&v, 0, i);
    assert(r@ =~= v@.take(i as int));
    r
}

/// Inserts `h` before the first hit with fewer matches.
fn insert_by_matches(r: &mut Vec<SearchHit>, h: SearchHit)
    ensures
        hits_view(final(r)@) == hits_view(old(r)@).insert(first_fewer(hits_view(old(r)@), h.matches as nat), hit_view(h)),
{
    let ghost old_view = hits_view(r@);
    let mut p: usize = 0;
    while p < r.len() && r[p].matches >= h.matches
        invariant
            p <= r.len(),
            old_view == hits_view(r@),
            forall|j: int| 0 <= j < p ==> #[trigger] old_view[j].3 >= h.matches,
        decreases r.len() - p,
    {
        assert(old_view[p as int] == hit_view(r@[p as int]));
        p = p + 1;
    }
    proof {
        if p < r.len() {
            assert(old_view[p as int] == hit_view(r@[p as int]));
        }
        lemma_first_fewer_at(old_view, h.matches as nat, p as int);
    }
    r.insert(p, h);
    proof {
        assert(hits_view(r@) =~= old_view.insert(p as int, hit_view(h)));
    }
}

/// The hits ordered by matches, most first, ties in their order.
fn sort_by_matches(hs: Vec<SearchHit>) -> (r: Vec<SearchHit>)
    ensures
        hits_view(r@) == by_matches(hits_view(hs@)),
{
    let ghost all = hits_view(hs@);
    let mut rest = hs;
    let mut r: Vec<SearchHit> = Vec::new();
    let ghost mut k: int = 0;
    while rest.len() > 0
        invariant
            0 <= k <= all.len(),
            hits_view(rest@) == all.skip(k),
            hits_view(r@) == by_matches(all.take(k)),
        decreases rest.len(),
    {
        let ghost rv = rest@;
        proof {
            assert(hits_view(rv).len() == all.len() - k);
            assert(hits_view(rv)[0] == hit_view(rv[0]));
            assert(all.skip(k)[0] == all[k]);
        }
        let h = rest.remove(0);
        proof {
            assert(hit_view(h) == all[k]);
            assert(rest@ =~= rv.skip(1));
            assert(all.take(k + 1).drop_last() =~= all.take(k));
            assert(hits_view(rest@) =~= hits_view(rv).skip(1));
            assert(hits_view(rv).skip(1) =~= all.skip(k + 1));
        }
        insert_by_matches(&mut r, h);
        proof {
            k = k + 1;
        }
    }
    proof {
        assert(all.take(k) =~= all);
    }
    r
}

impl MemorySearch {
    /// Searches the memory for `query`: first the topic files the index
    /// matched (`matched`, as `find_relevant` lists them, with their contents
    /// in `reads`), then, when that gives fewer than `max_results` hits, the
    /// other topic files (`files`, each path with its content), each filed
    /// under the first segment of its path; the hits ordered by how many of
    /// the query's words they hold, most first (ties in the order found), the
    /// first `max_results`.
    pub fn search(
        &self,
        query: &str,
        max_results: usize,
        matched: &Vec<IndexEntry>,
        reads: &Vec<Option<String>>,
        files: &Vec<(String, Option<String>)>,
    ) -> (r: Vec<SearchHit>)
        requires
            reads.len() == matched.len(),
            forall|k: int| 0 <= k < reads.len() && (#[trigger] reads@[k]) is Some ==> lines(reads@[k].unwrap()@).len() + 2 <= usize::MAX,
            forall|k: int| 0 <= k < files.len() && (#[trigger] files@[k]).1 is Some ==> lines(files@[k].1.unwrap()@).len() + 2 <= usize::MAX,
        ensures
            hits_view(r@) == search_result(
                query@,
                max_results as nat,
                matched@.map_values(|e: IndexEntry| (e.file_path@, e.topic@)),
                reads@.map_values(|c: Option<String>| crate::memory::writer::opt_view(c)),
                files@.map_values(|f: (String, Option<String>)| (f.0@, crate::memory::writer::opt_view(f.1))),
            ),
    {
        let ghost mv = matched@.map_values(|e: IndexEntry| (e.file_path@, e.topic@));
        let ghost rv = reads@.map_values(|c: Option<String>| crate::memory::writer::opt_view(c));
        let ghost fv = files@.map_values(|f: (String, Option<String>)| (f.0@, crate::memory::writer::opt_view(f.1)));
        let mut found: Vec<SearchHit> = Vec::new();
        let mut k: usize = 0;
        while k < matched.len()
            invariant
                k <= matched.len(),
                reads.len() == matched.len(),
                forall|i: int| 0 <= i < reads.len() && (#[trigger] reads@[i]) is Some ==> lines(reads@[i].unwrap()@).len() + 2 <= usize::MAX,
                mv == matched@.map_values(|e: IndexEntry| (e.file_path@, e.topic@)),
                rv == reads@.map_values(|c: Option<String>| crate::memory::writer::opt_view(c)),
                hits_view(found@) == matched_hits(mv.take(k as int), rv.take(k as int), query@),
            decreases matched.len() - k,
        {
            proof {
                assert(mv.take(k + 1).drop_last() =~= mv.take(k as int));
                assert(rv.take(k + 1).take(k as int) =~= rv.take(k as int));
                assert(rv.take(k + 1)[k as int] == crate::memory::writer::opt_view(reads@[k as int]));
                assert(mv.take(k + 1)[k as int] == (matched@[k as int].file_path@, matched@[k as int].topic@));
            }
            match &reads[k] {
                Some(c) => {
                    let mut hs = self.search_in_content(matched[k].file_path.as_str(), matched[k].topic.as_str(), c.as_str(), query);
                    let ghost before = hits_view(found@);
                    let ghost added = hits_view(hs@);
                    found.append(&mut hs);
                    proof {
                        assert(hits_view(found@) =~= before + added);
                    }
                },
                None => {},
            }
            k = k + 1;
        }
        proof {
            assert(mv.take(k as int) =~= mv);
            assert(rv.take(k as int) =~= rv);
        }
        if found.len() < max_results {
            let ghost first = hits_view(found@);
            let mut j: usize = 0;
            while j < files.len()
                invariant
                    j <= files.len(),
                    forall|i: int| 0 <= i < files.len() && (#[trigger] files@[i]).1 is Some ==> lines(files@[i].1.unwrap()@).len() + 2 <= usize::MAX,
                    mv == matched@.map_values(|e: IndexEntry| (e.file_path@, e.topic@)),
                    fv == files@.map_values(|f: (String, Option<String>)| (f.0@, crate::memory::writer::opt_view(f.1))),
                    hits_view(found@) == first + other_hits(fv.take(j as int), mv, query@),
                decreases files.len() - j,
            {
                let f = &files[j];
                let mut seen = false;
                let mut m: usize = 0;
                while m < matched.len()
                    invariant
                        m <= matched.len(),
                        mv == matched@.map_values(|e: IndexEntry| (e.file_path@, e.topic@)),
                        seen == exists|i: int| 0 <= i < m && #[trigger] mv[i].0 == f.0@,
                    decreases matched.len() - m,
                {
                    if str_eq(matched[m].file_path.as_str(), f.0.as_str()) {
                        seen = true;
                    }
                    proof {
                        assert(mv[m as int].0 == matched@[m as int].file_path@);
                    }
                    m = m + 1;
                }
                proof {
                    assert(fv.take(j + 1).drop_last() =~= fv.take(j as int));
                    assert(fv.take(j + 1).last() == (f.0@, crate::memory::writer::opt_view(f.1)));
                }
                if !seen {
                    match &f.1 {
                        Some(c) => {
                            let name = first_segment_exec(f.0.as_str());
                            let mut hs = self.search_in_content(f.0.as_str(), name.as_str(), c.as_str(), query);
                            let ghost before = hits_view(found@);
                            let ghost added = hits_view(hs@);
                            found.append(&mut hs);
                            proof {
                                assert(hits_view(found@) =~= before + added);
                            }
                        },
                        None => {},
                    }
                }
                j = j + 1;
            }
            proof {
                assert(fv.take(j as int) =~= fv);
            }
        }
        let mut sorted = sort_by_matches(found);
        proof {
            lemma_by_matches_len(hits_view(found@));
        }
        if sorted.len() > max_results {
            let ghost before = hits_view(sorted@);
            sorted.truncate(max_results);
            proof {
                assert(hits_view(sorted@) =~= before.take(max_results as int));
            }
        }
        sorted
    }
}

} // verus!
