//! Layer 1 of the memory: `MEMORY.md`, a short index of pointers to topic files.
//!
//! The index is plain text: `## Topic` headers, each followed by pointer lines
//! `→ path — description` (or `-> path - description`).  The file itself is read
//! and written by the caller; this module computes what is read from it and
//! what is written back.
use vstd::prelude::*;
use crate::text::{
    join_lines, lemma_join_lines_append, lemma_join_one, lemma_join_two, can_truncate, can_truncate_chars, seq_lt, string_lt, truncate_ellipsis, truncated, chars_eq,
    chars_of, insert_sorted, lowercase, push_str, split_words, strictly_sorted, to_lowercase, words, concat2, contains, contains_vec, copy_str, ends_with, ends_with_vec, find_vec,
    is_first_occurrence, line_ranges, lines, occurs_at, slice_chars, starts_with, starts_with_vec,
    string_from_chars, string_from_range, trim, trim_bounds,
};

verus! {

/// One pointer of the index, with the topic it was filed under.
#[derive(Debug)]
pub struct IndexEntry {
    pub topic: String,
    pub subtopic: String,
    pub file_path: String,
    pub description: String,
}

/// What an [`IndexEntry`] holds.
pub struct EntryView {
    pub topic: Seq<char>,
    pub subtopic: Seq<char>,
    pub file_path: Seq<char>,
    pub description: Seq<char>,
}

impl View for IndexEntry {
    type V = EntryView;

    open spec fn view(&self) -> EntryView {
        EntryView {
            topic: self.topic@,
            subtopic: self.subtopic@,
            file_path: self.file_path@,
            description: self.description@,
        }
    }
}

/// The views of a sequence of entries.
pub open spec fn entries_view(v: Seq<IndexEntry>) -> Seq<EntryView> {
    v.map_values(|e: IndexEntry| e@)
}

impl IndexEntry {
    /// A copy of the entry.
    pub fn copy(&self) -> (r: IndexEntry)
        ensures
            r@ == self@,
    {
        IndexEntry {
            topic: copy_str(&self.topic),
            subtopic: copy_str(&self.subtopic),
            file_path: copy_str(&self.file_path),
            description: copy_str(&self.description),
        }
    }
}

// ---------------------------------------------------------------------------
// The grammar of an index line
// ---------------------------------------------------------------------------

/// `"## "`, which opens a topic header.
pub open spec fn header_mark() -> Seq<char> {
    seq!['#', '#', ' ']
}

/// `"→ "`, which opens a pointer line.
pub open spec fn arrow_mark() -> Seq<char> {
    seq!['\u{2192}', ' ']
}

/// `"-> "`, the ASCII form of the arrow.
pub open spec fn ascii_arrow_mark() -> Seq<char> {
    seq!['-', '>', ' ']
}

/// `" — "`, between a pointer's path and its description.
pub open spec fn em_separator() -> Seq<char> {
    seq![' ', '\u{2014}', ' ']
}

/// `" - "`, the ASCII form of the separator.
pub open spec fn dash_separator() -> Seq<char> {
    seq![' ', '-', ' ']
}

/// `".md"`.
pub open spec fn md_suffix() -> Seq<char> {
    seq!['.', 'm', 'd']
}

/// A trimmed line that starts a topic.
pub open spec fn is_header(t: Seq<char>) -> bool {
    starts_with(t, header_mark())
}

/// The topic named by a header line.
pub open spec fn header_topic(t: Seq<char>) -> Seq<char> {
    trim(t.skip(3))
}

/// A trimmed line that is a pointer line.
pub open spec fn is_pointer_line(t: Seq<char>) -> bool {
    starts_with(t, arrow_mark()) || starts_with(t, ascii_arrow_mark())
}

/// What follows the arrow of a pointer line.
pub open spec fn pointer_rest(t: Seq<char>) -> Seq<char> {
    if starts_with(t, arrow_mark()) {
        t.skip(2)
    } else {
        t.skip(3)
    }
}

/// The index of the first occurrence of `p` in `s` (meaningful when `contains(s, p)`).
pub open spec fn first_index(s: Seq<char>, p: Seq<char>) -> int {
    choose|i: int| is_first_occurrence(s, p, i)
}

/// `(path, description)` of the rest of a pointer line, split at the first
/// `" — "`, or else at the first `" - "`.
pub open spec fn split_pointer(rest: Seq<char>) -> Option<(Seq<char>, Seq<char>)> {
    if contains(rest, em_separator()) {
        let i = first_index(rest, em_separator());
        Some((trim(rest.take(i)), trim(rest.skip(i + 3))))
    } else if contains(rest, dash_separator()) {
        let i = first_index(rest, dash_separator());
        Some((trim(rest.take(i)), trim(rest.skip(i + 3))))
    } else {
        None
    }
}

/// What follows the last `'/'` of `s` (all of `s` when there is none).
pub open spec fn last_segment(s: Seq<char>) -> Seq<char>
    decreases s.len(),
{
    if s.len() == 0 {
        s
    } else if s.last() == '/' {
        Seq::empty()
    } else {
        last_segment(s.drop_last()).push(s.last())
    }
}

/// `s.trim_end_matches(".md")`: every trailing `".md"` removed.
pub open spec fn strip_md(s: Seq<char>) -> Seq<char>
    decreases s.len(),
{
    if s.len() >= 3 && ends_with(s, md_suffix()) {
        strip_md(s.take(s.len() - 3))
    } else {
        s
    }
}

/// The subtopic of a pointer: its file name without `.md`.
pub open spec fn subtopic_of(path: Seq<char>) -> Seq<char> {
    strip_md(last_segment(path))
}

/// The entry that a trimmed, non-header line contributes under `topic`: one
/// for a pointer line that has a separator, none otherwise.
pub open spec fn line_entry(topic: Seq<char>, t: Seq<char>) -> Seq<EntryView> {
    if is_pointer_line(t) {
        match split_pointer(pointer_rest(t)) {
            Some(parts) => seq![
                EntryView {
                    topic: topic,
                    subtopic: subtopic_of(parts.0),
                    file_path: parts.0,
                    description: parts.1,
                },
            ],
            None => Seq::empty(),
        }
    } else {
        Seq::empty()
    }
}

/// The entries of the lines `ls`, read with `topic` as the current topic.
pub open spec fn parse_lines(ls: Seq<Seq<char>>, topic: Seq<char>) -> Seq<EntryView>
    decreases ls.len(),
{
    if ls.len() == 0 {
        Seq::empty()
    } else {
        let t = trim(ls[0]);
        if is_header(t) {
            parse_lines(ls.drop_first(), header_topic(t))
        } else {
            line_entry(topic, t) + parse_lines(ls.drop_first(), topic)
        }
    }
}

/// The current topic after reading the lines `ls`.
pub open spec fn topic_after(ls: Seq<Seq<char>>, topic: Seq<char>) -> Seq<char>
    decreases ls.len(),
{
    if ls.len() == 0 {
        topic
    } else {
        let t = trim(ls[0]);
        topic_after(ls.drop_first(), if is_header(t) { header_topic(t) } else { topic })
    }
}

/// The entries of an index text.
pub open spec fn parse_index(s: Seq<char>) -> Seq<EntryView> {
    parse_lines(lines(s), Seq::empty())
}

pub proof fn lemma_first_index(s: Seq<char>, p: Seq<char>, i: int)
    requires
        is_first_occurrence(s, p, i),
    ensures
        first_index(s, p) == i,
{
    let j = first_index(s, p);
    assert(is_first_occurrence(s, p, j));
    if j < i {
        assert(!occurs_at(s, p, j));
    } else if i < j {
        assert(!occurs_at(s, p, i));
    }
}

/// Reading `a + b` reads `a`, then `b` from the topic where `a` left off.
pub proof fn lemma_parse_lines_append(a: Seq<Seq<char>>, b: Seq<Seq<char>>, topic: Seq<char>)
    ensures
        parse_lines(a + b, topic) == parse_lines(a, topic) + parse_lines(b, topic_after(a, topic)),
        topic_after(a + b, topic) == topic_after(b, topic_after(a, topic)),
    decreases a.len(),
{
    if a.len() == 0 {
        assert(a + b =~= b);
        assert(parse_lines(a, topic) =~= Seq::<EntryView>::empty());
        assert(parse_lines(a, topic) + parse_lines(b, topic) =~= parse_lines(b, topic));
    } else {
        let t = trim(a[0]);
        let next = if is_header(t) { header_topic(t) } else { topic };
        assert((a + b).drop_first() =~= a.drop_first() + b);
        assert((a + b)[0] == a[0]);
        lemma_parse_lines_append(a.drop_first(), b, next);
        if is_header(t) {
        } else {
            assert(line_entry(topic, t) + (parse_lines(a.drop_first(), topic) + parse_lines(
                b,
                topic_after(a.drop_first(), topic),
            )) =~= (line_entry(topic, t) + parse_lines(a.drop_first(), topic)) + parse_lines(
                b,
                topic_after(a.drop_first(), topic),
            ));
        }
    }
}

// ---------------------------------------------------------------------------
// Executable pieces of the grammar
// ---------------------------------------------------------------------------

pub fn last_segment_exec(v: &Vec<char>) -> (r: Vec<char>)
    ensures
        r@ == last_segment(v@),
{
    let mut i = v.len();
    proof {
        assert(v@.take(i as int) =~= v@);
        assert(last_segment(v@) + v@.skip(i as int) =~= last_segment(v@));
    }
    while i > 0 && v[i - 1] != '/'
        invariant
            i <= v.len(),
            last_segment(v@) == last_segment(v@.take(i as int)) + v@.skip(i as int),
        decreases i,
    {
        proof {
            let t = v@.take(i as int);
            assert(t.drop_last() =~= v@.take(i - 1));
            assert(t.last() == v@[i - 1]);
            assert(last_segment(t) == last_segment(t.drop_last()).push(t.last()));
            assert(seq![v@[i - 1]] + v@.skip(i as int) =~= v@.skip(i - 1));
            assert(last_segment(t.drop_last()).push(t.last()) + v@.skip(i as int)
                =~= last_segment(v@.take(i - 1)) + v@.skip(i - 1));
        }
        i = i - 1;
    }
    proof {
        let t = v@.take(i as int);
        if i == 0 {
            assert(t =~= Seq::<char>::empty());
        } else {
            assert(t.last() == '/');
        }
        assert(last_segment(t) =~= Seq::<char>::empty());
        assert(Seq::<char>::empty() + v@.skip(i as int) =~= v@.subrange(i as int, v.len() as int));
    }
    slice_chars(v, i, v.len())
}

pub fn strip_md_exec(v: &Vec<char>) -> (r: Vec<char>)
    ensures
        r@ == strip_md(v@),
{
    let md: Vec<char> = vec!['.', 'm', 'd'];
    assert(md@ =~= md_suffix());
    let mut cur = slice_chars(v, 0, v.len());
    assert(cur@ =~= v@);
    while cur.len() >= 3 && ends_with_vec(&cur, &md)
        invariant
            strip_md(cur@) == strip_md(v@),
            md@ == md_suffix(),
        decreases cur.len(),
    {
        let n = cur.len() - 3;
        cur = slice_chars(&cur, 0, n);
    }
    cur
}

/// The subtopic of a pointer path: its file name without `.md`.
fn subtopic_exec(path: &Vec<char>) -> (r: String)
    ensures
        r@ == subtopic_of(path@),
{
    let seg = last_segment_exec(path);
    let s = strip_md_exec(&seg);
    string_from_chars(&s)
}

/// `(path, description)` of a pointer line's rest, split at `sep`.
fn split_at_sep(rest: &Vec<char>, i: usize) -> (r: (Vec<char>, Vec<char>))
    requires
        i + 3 <= rest.len(),
    ensures
        r.0@ == trim(rest@.take(i as int)),
        r.1@ == trim(rest@.skip(i + 3)),
{
    let (a, b) = trim_bounds(rest, 0, i);
    let (c, d) = trim_bounds(rest, i + 3, rest.len());
    let p = slice_chars(rest, a, b);
    let q = slice_chars(rest, c, d);
    assert(rest@.subrange(0, i as int) =~= rest@.take(i as int));
    assert(rest@.subrange(i + 3, rest.len() as int) =~= rest@.skip(i + 3));
    (p, q)
}

fn split_pointer_exec(rest: &Vec<char>) -> (r: Option<(Vec<char>, Vec<char>)>)
    ensures
        match r {
            Some(parts) => split_pointer(rest@) == Some((parts.0@, parts.1@)),
            None => split_pointer(rest@) is None,
        },
{
    let em: Vec<char> = vec![' ', '\u{2014}', ' '];
    let dash: Vec<char> = vec![' ', '-', ' '];
    assert(em@ =~= em_separator());
    assert(dash@ =~= dash_separator());
    match find_vec(rest, &em) {
        Some(i) => {
            proof {
                lemma_first_index(rest@, em@, i as int);
            }
            let parts = split_at_sep(rest, i);
            Some(parts)
        },
        None => match find_vec(rest, &dash) {
            Some(i) => {
                proof {
                    lemma_first_index(rest@, dash@, i as int);
                }
                let parts = split_at_sep(rest, i);
                Some(parts)
            },
            None => None,
        },
    }
}


fn line_entry_exec(topic: &String, t: &Vec<char>, out: &mut Vec<IndexEntry>)
    ensures
        entries_view(final(out)@) == entries_view(old(out)@) + line_entry(topic@, t@),
{
    let arrow: Vec<char> = vec!['\u{2192}', ' '];
    let ascii: Vec<char> = vec!['-', '>', ' '];
    assert(arrow@ =~= arrow_mark());
    assert(ascii@ =~= ascii_arrow_mark());
    let rest = if starts_with_vec(t, &arrow) {
        slice_chars(t, 2, t.len())
    } else if starts_with_vec(t, &ascii) {
        slice_chars(t, 3, t.len())
    } else {
        assert(entries_view(old(out)@) + line_entry(topic@, t@) =~= entries_view(old(out)@));
        return;
    };
    assert(rest@ =~= pointer_rest(t@));
    match split_pointer_exec(&rest) {
        Some(parts) => {
            let e = IndexEntry {
                topic: copy_str(topic),
                subtopic: subtopic_exec(&parts.0),
                file_path: string_from_chars(&parts.0),
                description: string_from_chars(&parts.1),
            };
            let ghost before = out@;
            out.push(e);
            assert(out@ =~= before.push(e));
            assert(entries_view(out@) =~= entries_view(before) + line_entry(topic@, t@));
        },
        None => {
            assert(entries_view(old(out)@) + line_entry(topic@, t@) =~= entries_view(old(out)@));
        },
    }
}

// ---------------------------------------------------------------------------
// The index
// ---------------------------------------------------------------------------

/// The text of an index that has not been written yet.
pub open spec fn empty_index_text() -> Seq<char> {
    "# DreamSwarm Memory Index\n\n_No memories stored yet._\n"@
}

/// The memory index file (`MEMORY.md`) and its limits.
#[derive(Debug)]
pub struct MemoryIndex {
    path: String,
    max_line_length: usize,
    max_total_lines: usize,
}

impl MemoryIndex {
    /// Where the index is stored.
    pub closed spec fn path_view(&self) -> Seq<char> {
        self.path@
    }

    /// The longest pointer line, in bytes (longer ones are cut).
    pub closed spec fn line_limit(&self) -> nat {
        self.max_line_length as nat
    }

    /// The most lines the index holds below its title.
    pub closed spec fn line_budget(&self) -> nat {
        self.max_total_lines as nat
    }

    /// An index stored at `path`: lines of at most 150 bytes, at most 200 lines.
    pub fn new(path: String) -> (r: Self)
        ensures
            r.path_view() == path@,
            r.line_limit() == 150,
            r.line_budget() == 200,
    {
        MemoryIndex { path, max_line_length: 150, max_total_lines: 200 }
    }

    /// Where the index is stored.
    pub fn path(&self) -> (r: &String)
        ensures
            r@ == self.path_view(),
    {
        &self.path
    }

    /// The raw index text: what is stored, or the placeholder of an empty index
    /// when nothing is stored yet.
    pub fn load_raw(&self, stored: Option<String>) -> (r: String)
        ensures
            r@ == match stored {
                Some(s) => s@,
                None => empty_index_text(),
            },
    {
        match stored {
            Some(s) => s,
            None => {
                let r = copy_str("# DreamSwarm Memory Index\n\n_No memories stored yet._\n");
                r
            },
        }
    }

    /// A rough token count of the index text: a quarter of its bytes.
    pub fn estimate_tokens(&self, raw: &str) -> (n: usize)
        requires
            crate::text::fits(raw@),
        ensures
            n == crate::text::utf8_len(raw@) / 4,
    {
        crate::text::byte_len(raw) / 4
    }

    /// The entries of the index text `raw`, in file order.
    pub fn parse(&self, raw: &str) -> (r: Vec<IndexEntry>)
        ensures
            entries_view(r@) == parse_index(raw@),
    {
        let v = chars_of(raw);
        let ranges = line_ranges(&v);
        let ghost ls = lines(v@);
        let hdr: Vec<char> = vec!['#', '#', ' '];
        assert(hdr@ =~= header_mark());
        let mut topic = String::new();
        let mut out: Vec<IndexEntry> = Vec::new();
        let mut k: usize = 0;
        proof {
            assert(ls.skip(0) =~= ls);
            assert(topic@ =~= Seq::<char>::empty());
            assert(entries_view(out@) =~= Seq::<EntryView>::empty());
            assert(entries_view(out@) + parse_lines(ls, topic@) =~= parse_lines(ls, topic@));
        }
        while k < ranges.len()
            invariant
                v@ == raw@,
                ls == lines(v@),
                hdr@ == header_mark(),
                crate::text::ranges_are_lines(v@, ranges@, ls),
                k <= ranges.len(),
                entries_view(out@) + parse_lines(ls.skip(k as int), topic@) == parse_index(raw@),
            decreases ranges.len() - k,
        {
            let (lo, hi) = ranges[k];
            let (a, b) = trim_bounds(&v, lo, hi);
            let t = slice_chars(&v, a, b);
            proof {
                assert(ls.skip(k as int)[0] == ls[k as int]);
                assert(ls.skip(k as int).drop_first() =~= ls.skip(k + 1));
                assert(t@ == trim(ls[k as int]));
            }
            if starts_with_vec(&t, &hdr) {
                let (x, y) = trim_bounds(&t, 3, t.len());
                topic = string_from_range(&t, x, y);
                proof {
                    assert(t@.subrange(3, t.len() as int) =~= t@.skip(3));
                }
            } else {
                let ghost before = entries_view(out@);
                let ghost old_topic = topic@;
                line_entry_exec(&topic, &t, &mut out);
                proof {
                    assert(entries_view(out@) + parse_lines(ls.skip(k + 1), topic@) =~= before + (
                    line_entry(old_topic, t@) + parse_lines(ls.skip(k + 1), old_topic)));
                }
            }
            k = k + 1;
        }
        proof {
            assert(ls.skip(k as int) =~= Seq::<Seq<char>>::empty());
            assert(entries_view(out@) + parse_lines(ls.skip(k as int), topic@) =~= entries_view(
                out@,
            ));
        }
        out
    }
}

// ---------------------------------------------------------------------------
// Relevance
// ---------------------------------------------------------------------------

/// The text a query is matched against: topic, subtopic and description, lower-cased.
pub open spec fn haystack(e: EntryView) -> Seq<char> {
    lowercase(e.topic + seq![' '] + e.subtopic + seq![' '] + e.description)
}

/// How many of the words `ws` occur in `hay`.
pub open spec fn count_hits(ws: Seq<Seq<char>>, hay: Seq<char>) -> nat
    decreases ws.len(),
{
    if ws.len() == 0 {
        0
    } else {
        count_hits(ws.drop_last(), hay) + if contains(hay, ws.last()) {
            1nat
        } else {
            0nat
        }
    }
}

/// The relevance of an entry to a query: how many of the query's (lower-cased)
/// words occur in the entry's haystack.
pub open spec fn relevance(e: EntryView, query: Seq<char>) -> nat {
    count_hits(words(lowercase(query)), haystack(e))
}

/// The relevance of each entry.
pub open spec fn relevance_scores(es: Seq<EntryView>, query: Seq<char>) -> Seq<nat> {
    es.map_values(|e: EntryView| relevance(e, query))
}

/// `r` lists the indices of positive score, highest score first, ties in index
/// order: the order of a stable sort by descending score.
pub open spec fn is_ranking(scores: Seq<nat>, r: Seq<int>) -> bool {
    &&& forall|k: int| 0 <= k < r.len() ==> 0 <= #[trigger] r[k] < scores.len() && scores[r[k]] > 0
    &&& forall|i: int| 0 <= i < scores.len() && #[trigger] scores[i] > 0 ==> r.contains(i)
    &&& forall|k: int, l: int|
        0 <= k < l < r.len() ==> scores[#[trigger] r[k]] > scores[#[trigger] r[l]] || (scores[r[k]]
            == scores[r[l]] && r[k] < r[l])
}

pub(crate) fn hits(ws: &Vec<String>, hay: &Vec<char>) -> (n: usize)
    ensures
        n == count_hits(ws.deep_view(), hay@),
        n <= ws.len(),
{
    let mut n: usize = 0;
    let mut j: usize = 0;
    while j < ws.len()
        invariant
            j <= ws.len(),
            n <= j,
            n == count_hits(ws.deep_view().take(j as int), hay@),
        decreases ws.len() - j,
    {
        let w = chars_of(ws[j].as_str());
        proof {
            let t = ws.deep_view().take(j + 1);
            assert(t.drop_last() =~= ws.deep_view().take(j as int));
            assert(t.last() == w@);
        }
        if contains_vec(hay, &w) {
            n = n + 1;
        }
        j = j + 1;
    }
    assert(ws.deep_view().take(j as int) =~= ws.deep_view());
    n
}

/// The indices of positive score, highest first, ties in index order.
pub fn rank(scores: &Vec<usize>, top: usize) -> (r: Vec<usize>)
    requires
        forall|i: int| 0 <= i < scores.len() ==> scores[i] <= top,
    ensures
        is_ranking(
            scores@.map_values(|x: usize| x as nat),
            r@.map_values(|x: usize| x as int),
        ),
{
    let ghost sc = scores@.map_values(|x: usize| x as nat);
    let mut r: Vec<usize> = Vec::new();
    let mut s = top;
    while s > 0
        invariant
            sc == scores@.map_values(|x: usize| x as nat),
            forall|i: int| 0 <= i < scores.len() ==> scores[i] <= top,
            s <= top,
            forall|k: int| 0 <= k < r.len() ==> #[trigger] r[k] < scores.len() && scores[r[k] as int] > s,
            forall|i: int| 0 <= i < scores.len() && scores[i] > s ==> r@.contains(i as usize),
            forall|k: int, l: int|
                0 <= k < l < r.len() ==> scores[#[trigger] r[k] as int] > scores[#[trigger] r[l] as int]
                    || (scores[r[k] as int] == scores[r[l] as int] && r[k] < r[l]),
        decreases s,
    {
        let ghost start = r.len();
        let mut i: usize = 0;
        while i < scores.len()
            invariant
                start <= r.len(),
                s > 0,
                i <= scores.len(),
                forall|k: int| 0 <= k < start ==> #[trigger] r[k] < scores.len() && scores[r[k] as int] > s,
                forall|k: int| start <= k < r.len() ==> #[trigger] r[k] < i && scores[r[k] as int] == s,
                forall|j: int| 0 <= j < i && scores[j] == s ==> r@.contains(j as usize),
                forall|j: int| 0 <= j < scores.len() && scores[j] > s ==> r@.contains(j as usize),
                forall|k: int, l: int|
                    0 <= k < l < r.len() ==> scores[#[trigger] r[k] as int] > scores[#[trigger] r[l] as int]
                        || (scores[r[k] as int] == scores[r[l] as int] && r[k] < r[l]),
            decreases scores.len() - i,
        {
            if scores[i] == s {
                let ghost before = r@;
                r.push(i);
                proof {
                    assert forall|j: int| 0 <= j < scores.len() && (scores[j] > s || (j < i && scores[j] == s)) implies r@.contains(j as usize) by {
                        let k = choose|k: int| 0 <= k < before.len() && before[k] == j as usize;
                        assert(r@[k] == j as usize);
                    }
                    assert(r@[r.len() - 1] == i);
                }
            }
            i = i + 1;
        }
        s = s - 1;
    }
    proof {
        let rv = r@.map_values(|x: usize| x as int);
        assert forall|i: int| 0 <= i < sc.len() && #[trigger] sc[i] > 0 implies rv.contains(i) by {
            assert(r@.contains(i as usize));
            let k = choose|k: int| 0 <= k < r.len() && r@[k] == i as usize;
            assert(rv[k] == i);
        }
        assert forall|k: int, l: int| 0 <= k < l < rv.len() implies sc[#[trigger] rv[k]] > sc[#[trigger] rv[l]] || (sc[rv[k]] == sc[rv[l]] && rv[k] < rv[l]) by {
            assert(rv[k] == r[k] as int);
            assert(rv[l] == r[l] as int);
        }
    }
    r
}

impl MemoryIndex {
    /// The topics of the index, each once, in increasing order.
    pub fn list_topics(&self, raw: &str) -> (r: Vec<String>)
        ensures
            strictly_sorted(r.deep_view()),
            r.deep_view().to_set() == parse_index(raw@).map_values(|e: EntryView| e.topic).to_set(),
    {
        let entries = self.parse(raw);
        let ghost es = parse_index(raw@);
        let mut r: Vec<String> = Vec::new();
        let mut k: usize = 0;
        proof {
            assert(r.deep_view().to_set() =~= es.take(0).map_values(|e: EntryView| e.topic).to_set());
        }
        while k < entries.len()
            invariant
                entries_view(entries@) == es,
                k <= entries.len(),
                strictly_sorted(r.deep_view()),
                r.deep_view().to_set() == es.take(k as int).map_values(|e: EntryView| e.topic).to_set(),
            decreases entries.len() - k,
        {
            let t = copy_str(&entries[k].topic);
            proof {
                assert(es[k as int] == entries@[k as int]@);
            }
            insert_sorted(&mut r, t);
            proof {
                assert(es.take(k + 1).map_values(|e: EntryView| e.topic) =~= es.take(k as int).map_values(|e: EntryView| e.topic).push(es[k as int].topic));
                es.take(k as int).map_values(|e: EntryView| e.topic).lemma_push_to_set_commute(es[k as int].topic);
            }
            k = k + 1;
        }
        assert(es.take(k as int) =~= es);
        r
    }

    /// The entries that share a word with the query, most shared words first
    /// (ties keep their order in the index).
    pub fn find_relevant(&self, raw: &str, query: &str) -> (r: Vec<IndexEntry>)
        ensures
            exists|order: Seq<int>|
                is_ranking(relevance_scores(parse_index(raw@), query@), order) && entries_view(r@)
                    == order.map_values(|i: int| parse_index(raw@)[i]),
    {
        let entries = self.parse(raw);
        let ghost es = parse_index(raw@);
        let ql = to_lowercase(query);
        let qv = chars_of(ql.as_str());
        let ws = split_words(&qv);
        let mut scores: Vec<usize> = Vec::new();
        let mut k: usize = 0;
        while k < entries.len()
            invariant
                entries_view(entries@) == es,
                ws.deep_view() == words(lowercase(query@)),
                k <= entries.len(),
                scores.len() == k,
                forall|i: int| 0 <= i < k ==> scores[i] as nat == relevance(es[i], query@) && scores[i] <= ws.len(),
            decreases entries.len() - k,
        {
            let e = &entries[k];
            let mut hay = concat2(e.topic.as_str(), " ");
            push_str(&mut hay, e.subtopic.as_str());
            push_str(&mut hay, " ");
            push_str(&mut hay, e.description.as_str());
            let hl = to_lowercase(hay.as_str());
            let hv = chars_of(hl.as_str());
            proof {
                reveal_strlit(" ");
                assert(es[k as int] == e@);
                assert(hay@ =~= e.topic@ + seq![' '] + e.subtopic@ + seq![' '] + e.description@);
            }
            let n = hits(&ws, &hv);
            scores.push(n);
            k = k + 1;
        }
        let order = rank(&scores, ws.len());
        let ghost sc = scores@.map_values(|x: usize| x as nat);
        proof {
            assert(sc =~= relevance_scores(es, query@));
        }
        let ghost ov = order@.map_values(|x: usize| x as int);
        let mut out: Vec<IndexEntry> = Vec::new();
        let mut j: usize = 0;
        while j < order.len()
            invariant
                entries_view(entries@) == es,
                is_ranking(sc, ov),
                ov == order@.map_values(|x: usize| x as int),
                sc.len() == entries.len(),
                j <= order.len(),
                entries_view(out@) == ov.take(j as int).map_values(|i: int| es[i]),
            decreases order.len() - j,
        {
            assert(ov[j as int] == order[j as int] as int);
            let e = entries[order[j]].copy();
            let ghost before = out@;
            out.push(e);
            proof {
                assert(entries_view(out@) =~= entries_view(before).push(es[ov[j as int]]));
                assert(ov.take(j + 1).map_values(|i: int| es[i]) =~= ov.take(j as int).map_values(|i: int| es[i]).push(es[ov[j as int]]));
            }
            j = j + 1;
        }
        assert(ov.take(j as int) =~= ov);
        out
    }
}

// ---------------------------------------------------------------------------
// Rewriting the index
// ---------------------------------------------------------------------------

/// Topics with their pointer lines, in the order they are written.
pub type TopicLines = Seq<(Seq<char>, Seq<Seq<char>>)>;

/// The position of `k` among the topics: the first topic that is not below `k`.
pub open spec fn lower_bound(m: TopicLines, k: Seq<char>) -> int
    decreases m.len(),
{
    if m.len() == 0 {
        0
    } else if seq_lt(m[0].0, k) {
        1 + lower_bound(m.drop_first(), k)
    } else {
        0
    }
}

/// `m` with topic `k` present (added, without pointers, at its place in order).
pub open spec fn touch_topic(m: TopicLines, k: Seq<char>) -> TopicLines {
    let i = lower_bound(m, k);
    if i < m.len() && m[i].0 == k {
        m
    } else {
        m.insert(i, (k, Seq::empty()))
    }
}

/// `m` with the pointer line `line` appended under topic `k`.
pub open spec fn push_pointer(m: TopicLines, k: Seq<char>, line: Seq<char>) -> TopicLines {
    let m1 = touch_topic(m, k);
    let i = lower_bound(m1, k);
    m1.update(i, (k, m1[i].1.push(line)))
}

/// The topics of an index text, each with the pointer lines it keeps: every
/// header, and every pointer line that does not mention `path`, under the
/// topic it follows.
pub open spec fn collect_lines(ls: Seq<Seq<char>>, cur: Seq<char>, m: TopicLines, path: Seq<char>) -> TopicLines
    decreases ls.len(),
{
    if ls.len() == 0 {
        m
    } else {
        let t = trim(ls[0]);
        if is_header(t) {
            collect_lines(ls.drop_first(), header_topic(t), touch_topic(m, header_topic(t)), path)
        } else if is_pointer_line(t) && !contains(t, path) {
            collect_lines(ls.drop_first(), cur, push_pointer(m, cur, t), path)
        } else {
            collect_lines(ls.drop_first(), cur, m, path)
        }
    }
}

/// The topics kept from an existing index text (none when there is no index yet).
pub open spec fn kept_topics(existing: Option<Seq<char>>, path: Seq<char>) -> TopicLines {
    match existing {
        Some(s) => collect_lines(lines(s), Seq::empty(), Seq::empty(), path),
        None => Seq::empty(),
    }
}

/// The pointer line for a path and its description, before any cut.
pub open spec fn pointer_line(path: Seq<char>, description: Seq<char>) -> Seq<char> {
    arrow_mark() + path + em_separator() + description
}

/// The topics after filing `path` under `topic`: the old pointers to `path`
/// dropped, the new pointer line (cut to `limit` bytes) last under `topic`.
pub open spec fn upserted_topics(
    existing: Option<Seq<char>>,
    topic: Seq<char>,
    path: Seq<char>,
    description: Seq<char>,
    limit: nat,
) -> TopicLines {
    push_pointer(kept_topics(existing, path), topic, truncated(pointer_line(path, description), limit))
}

/// The note written when the index is full.
pub open spec fn capacity_note() -> Seq<char> {
    "_\u{26a0} Memory index at capacity. Run memory consolidation._"@
}

/// How many of `n` pointers are written when `used` of `budget` lines are taken.
pub open spec fn written(n: nat, used: nat, budget: nat) -> nat {
    if used >= budget {
        0
    } else if budget - used >= n {
        n
    } else {
        (budget - used) as nat
    }
}

/// The lines under one topic: its pointers while there is room, then the
/// capacity note if some did not fit.
pub open spec fn pointer_block(ps: Seq<Seq<char>>, used: nat, budget: nat) -> Seq<Seq<char>> {
    let w = written(ps.len(), used, budget);
    ps.take(w as int) + if w < ps.len() {
        seq![Seq::<char>::empty(), capacity_note()]
    } else {
        Seq::<Seq<char>>::empty()
    }
}

/// Lines counted against the budget after writing the topics `m`: a header for
/// each topic with pointers, and each pointer written.
pub open spec fn lines_used(m: TopicLines, budget: nat) -> nat
    decreases m.len(),
{
    if m.len() == 0 {
        0
    } else {
        let c = lines_used(m.drop_last(), budget);
        let ps = m.last().1;
        if ps.len() == 0 {
            c
        } else {
            c + 1 + written(ps.len(), c + 1, budget)
        }
    }
}

/// The lines written for the topics `m` (topics without pointers are skipped).
pub open spec fn topic_block(m: TopicLines, budget: nat) -> Seq<Seq<char>>
    decreases m.len(),
{
    if m.len() == 0 {
        Seq::empty()
    } else {
        let c = lines_used(m.drop_last(), budget);
        let (k, ps) = m.last();
        topic_block(m.drop_last(), budget) + if ps.len() == 0 {
            Seq::<Seq<char>>::empty()
        } else {
            seq![Seq::<char>::empty(), header_mark() + k] + pointer_block(ps, c + 1, budget)
        }
    }
}

/// The title lines of a written index.
pub open spec fn title_lines(stamp: Seq<char>) -> Seq<Seq<char>> {
    seq!["# DreamSwarm Memory Index"@, "_Last updated: "@ + stamp + "_"@]
}

/// The lines of the index written for the topics `m` at time `stamp`.
pub open spec fn index_lines(stamp: Seq<char>, m: TopicLines, budget: nat) -> Seq<Seq<char>> {
    title_lines(stamp) + topic_block(m, budget)
}

/// The index text written for the topics `m` at time `stamp`.
pub open spec fn render_index(stamp: Seq<char>, m: TopicLines, budget: nat) -> Seq<char> {
    join_lines(index_lines(stamp, m, budget))
}

/// The views of an executable topic list.
pub open spec fn topics_view(m: Seq<(String, Vec<String>)>) -> TopicLines {
    m.map_values(|p: (String, Vec<String>)| (p.0@, p.1.deep_view()))
}

/// Index of the first topic of `m` not below `k`.
fn lower_bound_exec(m: &Vec<(String, Vec<String>)>, k: &Vec<char>) -> (i: usize)
    ensures
        i == lower_bound(topics_view(m@), k@),
        i <= m.len(),
{
    let ghost tv = topics_view(m@);
    let mut i: usize = 0;
    proof {
        assert(tv.skip(0) =~= tv);
    }
    while i < m.len() && string_lt(&m[i].0, k)
        invariant
            tv == topics_view(m@),
            i <= m.len(),
            lower_bound(tv, k@) == i + lower_bound(tv.skip(i as int), k@),
        decreases m.len() - i,
    {
        proof {
            let t = tv.skip(i as int);
            assert(t[0] == tv[i as int]);
            assert(t.drop_first() =~= tv.skip(i + 1));
        }
        i = i + 1;
    }
    proof {
        if i < m.len() {
            assert(tv.skip(i as int)[0] == tv[i as int]);
        }
    }
    i
}

/// Makes topic `k` present; returns its index.
fn touch_topic_exec(m: &mut Vec<(String, Vec<String>)>, k: &Vec<char>) -> (i: usize)
    ensures
        topics_view(final(m)@) == touch_topic(topics_view(old(m)@), k@),
        i == lower_bound(touch_topic(topics_view(old(m)@), k@), k@),
        i < final(m).len(),
        topics_view(final(m)@)[i as int].0 == k@,
{
    let ghost tv = topics_view(m@);
    let i = lower_bound_exec(m, k);
    if i < m.len() {
        let kv = chars_of(m[i].0.as_str());
        if chars_eq(&kv, k) {
            return i;
        }
    }
    let key = string_from_chars(k);
    let empty: Vec<String> = Vec::new();
    assert(empty.deep_view() =~= Seq::<Seq<char>>::empty());
    m.insert(i, (key, empty));
    proof {
        let nv = topics_view(m@);
        assert(nv =~= tv.insert(i as int, (k@, Seq::<Seq<char>>::empty())));
        lemma_lower_bound_insert(tv, k@, i as int);
    }
    i
}

pub proof fn lemma_lower_bound_range(m: TopicLines, k: Seq<char>)
    ensures
        0 <= lower_bound(m, k) <= m.len(),
    decreases m.len(),
{
    if m.len() > 0 && seq_lt(m[0].0, k) {
        lemma_lower_bound_range(m.drop_first(), k);
    }
}

/// Inserting `k` at its lower bound leaves its lower bound where it was.
pub proof fn lemma_lower_bound_insert(m: TopicLines, k: Seq<char>, i: int)
    requires
        i == lower_bound(m, k),
    ensures
        lower_bound(m.insert(i, (k, Seq::<Seq<char>>::empty())), k) == i,
    decreases m.len(),
{
    crate::text::lemma_seq_lt_irrefl(k);
    lemma_lower_bound_range(m, k);
    if m.len() > 0 && seq_lt(m[0].0, k) {
        lemma_lower_bound_range(m.drop_first(), k);
        lemma_lower_bound_insert(m.drop_first(), k, i - 1);
        assert(m.insert(i, (k, Seq::<Seq<char>>::empty())).drop_first() =~= m.drop_first().insert(
            i - 1,
            (k, Seq::<Seq<char>>::empty()),
        ));
    }
}

/// Appends the pointer line `line` under topic `k`.
fn push_pointer_exec(m: &mut Vec<(String, Vec<String>)>, k: &Vec<char>, line: String)
    ensures
        topics_view(final(m)@) == push_pointer(topics_view(old(m)@), k@, line@),
{
    let ghost tv = topics_view(m@);
    let i = touch_topic_exec(m, k);
    let ghost m1 = topics_view(m@);
    let (key, mut ps) = m.remove(i);
    let ghost ps0 = ps.deep_view();
    ps.push(line);
    assert(ps.deep_view() =~= ps0.push(line@));
    m.insert(i, (key, ps));
    proof {
        assert(topics_view(m@) =~= m1.update(i as int, (k@, m1[i as int].1.push(line@))));
    }
}

impl MemoryIndex {
    /// The topics of `existing`, dropping pointer lines that mention `path`.
    fn collect(existing: &str, path: &Vec<char>) -> (m: Vec<(String, Vec<String>)>)
        ensures
            topics_view(m@) == kept_topics(Some(existing@), path@),
    {
        let v = chars_of(existing);
        let ranges = line_ranges(&v);
        let ghost ls = lines(v@);
        let hdr: Vec<char> = vec!['#', '#', ' '];
        let arrow: Vec<char> = vec!['\u{2192}', ' '];
        let ascii: Vec<char> = vec!['-', '>', ' '];
        assert(hdr@ =~= header_mark());
        assert(arrow@ =~= arrow_mark());
        assert(ascii@ =~= ascii_arrow_mark());
        let mut cur: Vec<char> = Vec::new();
        let mut m: Vec<(String, Vec<String>)> = Vec::new();
        let mut k: usize = 0;
        proof {
            assert(ls.skip(0) =~= ls);
            assert(topics_view(m@) =~= Seq::<(Seq<char>, Seq<Seq<char>>)>::empty());
            assert(cur@ =~= Seq::<char>::empty());
        }
        while k < ranges.len()
            invariant
                v@ == existing@,
                ls == lines(v@),
                hdr@ == header_mark(),
                arrow@ == arrow_mark(),
                ascii@ == ascii_arrow_mark(),
                crate::text::ranges_are_lines(v@, ranges@, ls),
                k <= ranges.len(),
                collect_lines(ls.skip(k as int), cur@, topics_view(m@), path@) == kept_topics(
                    Some(existing@),
                    path@,
                ),
            decreases ranges.len() - k,
        {
            let (lo, hi) = ranges[k];
            let (a, b) = trim_bounds(&v, lo, hi);
            let t = slice_chars(&v, a, b);
            proof {
                assert(ls.skip(k as int)[0] == ls[k as int]);
                assert(ls.skip(k as int).drop_first() =~= ls.skip(k + 1));
            }
            if starts_with_vec(&t, &hdr) {
                let (x, y) = trim_bounds(&t, 3, t.len());
                cur = slice_chars(&t, x, y);
                proof {
                    assert(t@.subrange(3, t.len() as int) =~= t@.skip(3));
                }
                touch_topic_exec(&mut m, &cur);
            } else if (starts_with_vec(&t, &arrow) || starts_with_vec(&t, &ascii)) && !contains_vec(&t, path) {
                let line = string_from_chars(&t);
                push_pointer_exec(&mut m, &cur, line);
            }
            k = k + 1;
        }
        proof {
            assert(ls.skip(k as int) =~= Seq::<Seq<char>>::empty());
        }
        m
    }

    /// Writes the topics `m` as index text, stamped with `stamp`.
    fn write_index(&self, m: &Vec<(String, Vec<String>)>, stamp: &str) -> (r: String)
        ensures
            r@ == render_index(stamp@, topics_view(m@), self.line_budget()),
    {
        let ghost tv = topics_view(m@);
        let ghost budget = self.line_budget();
        let mut content = copy_str("# DreamSwarm Memory Index\n");
        push_str(&mut content, "_Last updated: ");
        push_str(&mut content, stamp);
        push_str(&mut content, "_\n");
        proof {
            reveal_strlit("# DreamSwarm Memory Index\n");
            reveal_strlit("# DreamSwarm Memory Index");
            reveal_strlit("_Last updated: ");
            reveal_strlit("_\n");
            reveal_strlit("_");
            let tl = title_lines(stamp@);
            lemma_join_two("# DreamSwarm Memory Index"@, "_Last updated: "@ + stamp@ + "_"@);
            assert(join_lines(tl) =~= content@);
            assert(tv.take(0) =~= Seq::<(Seq<char>, Seq<Seq<char>>)>::empty());
            assert(index_lines(stamp@, tv.take(0), budget) =~= tl);
        }
        let mut used: usize = 0;
        let mut idx: usize = 0;
        while idx < m.len()
            invariant
                tv == topics_view(m@),
                budget == self.line_budget(),
                idx <= m.len(),
                content@ == join_lines(index_lines(stamp@, tv.take(idx as int), budget)),
                used as nat == if lines_used(tv.take(idx as int), budget) < budget {
                    lines_used(tv.take(idx as int), budget)
                } else {
                    budget
                },
            decreases m.len() - idx,
        {
            let ghost before = content@;
            let ghost c = lines_used(tv.take(idx as int), budget);
            proof {
                let t = tv.take(idx + 1);
                assert(t.drop_last() =~= tv.take(idx as int));
                assert(t.last() == tv[idx as int]);
            }
            let ps = &m[idx].1;
            if ps.len() > 0 {
                push_str(&mut content, "\n## ");
                push_str(&mut content, m[idx].0.as_str());
                push_str(&mut content, "\n");
                if used < self.max_total_lines {
                    used = used + 1;
                }
                let ghost hdr_content = content@;
                proof {
                    reveal_strlit("\n## ");
                    reveal_strlit("\n");
                    let hl = seq![Seq::<char>::empty(), header_mark() + tv[idx as int].0];
                    lemma_join_two(Seq::<char>::empty(), header_mark() + tv[idx as int].0);
                    assert(join_lines(hl) =~= "\n## "@ + tv[idx as int].0 + "\n"@);
                    lemma_join_lines_append(index_lines(stamp@, tv.take(idx as int), budget), hl);
                }
                let mut j: usize = 0;
                while j < ps.len() && used < self.max_total_lines
                    invariant
                        ps.deep_view() == tv[idx as int].1,
                        budget == self.line_budget(),
                        j <= ps.len(),
                        used as int == if c + 1 + j < budget { c + 1 + j } else { budget as int },
                        c + 1 + j <= budget || j == 0,
                        content@ == hdr_content + join_lines(ps.deep_view().take(j as int)),
                    decreases ps.len() - j,
                {
                    push_str(&mut content, ps[j].as_str());
                    push_str(&mut content, "\n");
                    proof {
                        reveal_strlit("\n");
                        let t = ps.deep_view().take(j + 1);
                        assert(t.drop_last() =~= ps.deep_view().take(j as int));
                        assert(t.last() == ps[j as int]@);
                    }
                    used = used + 1;
                    j = j + 1;
                }
                proof {
                    assert(j == written(ps.len() as nat, c + 1, budget));
                }
                if j < ps.len() {
                    push_str(&mut content, "\n_\u{26a0} Memory index at capacity. Run memory consolidation._\n");
                    proof {
                        reveal_strlit("\n_\u{26a0} Memory index at capacity. Run memory consolidation._\n");
                        reveal_strlit("_\u{26a0} Memory index at capacity. Run memory consolidation._");
                        let nl = seq![Seq::<char>::empty(), capacity_note()];
                        lemma_join_two(Seq::<char>::empty(), capacity_note());
                        assert(join_lines(nl) =~= "\n_\u{26a0} Memory index at capacity. Run memory consolidation._\n"@);
                        lemma_join_lines_append(ps.deep_view().take(j as int), nl);
                    }
                }
                proof {
                    let pb = pointer_block(ps.deep_view(), c + 1, budget);
                    let hl = seq![Seq::<char>::empty(), header_mark() + tv[idx as int].0];
                    if j < ps.len() {
                        assert(pb =~= ps.deep_view().take(j as int) + seq![Seq::<char>::empty(), capacity_note()]);
                    } else {
                        assert(pb =~= ps.deep_view().take(j as int));
                    }
                    lemma_join_lines_append(index_lines(stamp@, tv.take(idx as int), budget) + hl, pb);
                    assert(index_lines(stamp@, tv.take(idx + 1), budget) =~= index_lines(stamp@, tv.take(idx as int), budget) + hl + pb);
                }
            } else {
                proof {
                    assert(index_lines(stamp@, tv.take(idx + 1), budget) =~= index_lines(stamp@, tv.take(idx as int), budget));
                }
            }
            idx = idx + 1;
        }
        assert(tv.take(idx as int) =~= tv);
        content
    }
}

/// The view of an optional text.
pub open spec fn opt_text(o: Option<&str>) -> Option<Seq<char>> {
    match o {
        Some(s) => Some(s@),
        None => None,
    }
}

/// Some pointer line of the text `s` mentions `path`.
pub open spec fn mentions(s: Seq<char>, path: Seq<char>) -> bool {
    exists|k: int|
        0 <= k < lines(s).len() && is_pointer_line(#[trigger] trim(lines(s)[k])) && contains(
            trim(lines(s)[k]),
            path,
        )
}

/// The index text `upsert_pointer` of `ix` writes: `existing` with the
/// pointer to `path` filed under `topic`, written at time `stamp`.
pub open spec fn upsert_result(
    ix: MemoryIndex,
    existing: Option<Seq<char>>,
    topic: Seq<char>,
    path: Seq<char>,
    description: Seq<char>,
    stamp: Seq<char>,
) -> Seq<char> {
    render_index(stamp, upserted_topics(existing, topic, path, description, ix.line_limit()), ix.line_budget())
}

impl MemoryIndex {
    /// Whether the pointer line of `file_path` and `description` can be cut
    /// to the line limit (what `upsert_pointer` needs).
    pub fn can_point(&self, file_path: &str, description: &str) -> (b: bool)
        ensures
            b == can_truncate(pointer_line(file_path@, description@), self.line_limit()),
    {
        let mut line = copy_str("\u{2192} ");
        push_str(&mut line, file_path);
        push_str(&mut line, " \u{2014} ");
        push_str(&mut line, description);
        proof {
            reveal_strlit("\u{2192} ");
            reveal_strlit(" \u{2014} ");
            assert(line@ =~= pointer_line(file_path@, description@));
        }
        let v = chars_of(line.as_str());
        can_truncate_chars(&v, self.max_line_length)
    }

    /// The index text after filing `file_path` under `topic` with `description`,
    /// written at time `stamp`: pointers to the same path are replaced, the new
    /// pointer line (cut to the line limit) goes last under its topic, topics
    /// are written in order.  `existing` is the current index text, if any.
    pub fn upsert_pointer(
        &self,
        existing: Option<&str>,
        topic: &str,
        file_path: &str,
        description: &str,
        stamp: &str,
    ) -> (r: String)
        requires
            can_truncate(pointer_line(file_path@, description@), self.line_limit()),
        ensures
            r@ == render_index(
                stamp@,
                upserted_topics(
                    opt_text(existing),
                    topic@,
                    file_path@,
                    description@,
                    self.line_limit(),
                ),
                self.line_budget(),
            ),
    {
        let mut line0 = copy_str("\u{2192} ");
        push_str(&mut line0, file_path);
        push_str(&mut line0, " \u{2014} ");
        push_str(&mut line0, description);
        proof {
            reveal_strlit("\u{2192} ");
            reveal_strlit(" \u{2014} ");
            assert(line0@ =~= pointer_line(file_path@, description@));
        }
        let line = truncate_ellipsis(line0.as_str(), self.max_line_length);
        let fp = chars_of(file_path);
        let mut m = match existing {
            Some(e) => Self::collect(e, &fp),
            None => {
                let m: Vec<(String, Vec<String>)> = Vec::new();
                assert(topics_view(m@) =~= Seq::<(Seq<char>, Seq<Seq<char>>)>::empty());
                m
            },
        };
        let tv = chars_of(topic);
        push_pointer_exec(&mut m, &tv, line);
        self.write_index(&m, stamp)
    }

    /// Whether some pointer line of `existing` mentions `file_path`.
    fn mentions_exec(existing: &str, file_path: &str) -> (b: bool)
        ensures
            b == mentions(existing@, file_path@),
    {
        let v = chars_of(existing);
        let fp = chars_of(file_path);
        let ranges = line_ranges(&v);
        let ghost ls = lines(v@);
        let arrow: Vec<char> = vec!['\u{2192}', ' '];
        let ascii: Vec<char> = vec!['-', '>', ' '];
        assert(arrow@ =~= arrow_mark());
        assert(ascii@ =~= ascii_arrow_mark());
        let mut k: usize = 0;
        while k < ranges.len()
            invariant
                v@ == existing@,
                fp@ == file_path@,
                ls == lines(v@),
                arrow@ == arrow_mark(),
                ascii@ == ascii_arrow_mark(),
                crate::text::ranges_are_lines(v@, ranges@, ls),
                k <= ranges.len(),
                forall|j: int|
                    0 <= j < k ==> !(is_pointer_line(#[trigger] trim(ls[j])) && contains(
                        trim(ls[j]),
                        file_path@,
                    )),
            decreases ranges.len() - k,
        {
            let (lo, hi) = ranges[k];
            let (a, b) = trim_bounds(&v, lo, hi);
            let t = slice_chars(&v, a, b);
            if (starts_with_vec(&t, &arrow) || starts_with_vec(&t, &ascii)) && contains_vec(&t, &fp) {
                assert(is_pointer_line(trim(ls[k as int])));
                return true;
            }
            k = k + 1;
        }
        false
    }

    /// The index text after dropping every pointer line that mentions
    /// `file_path`, written at time `stamp`; `None` when no pointer line
    /// mentions it (or there is no index), and nothing is to be written.
    pub fn remove_pointer(&self, existing: Option<&str>, file_path: &str, stamp: &str) -> (r: Option<String>)
        ensures
            match r {
                Some(t) => existing is Some && mentions(existing.unwrap()@, file_path@) && t@
                    == render_index(stamp@, kept_topics(opt_text(existing), file_path@), self.line_budget()),
                None => existing is None || !mentions(existing.unwrap()@, file_path@),
            },
    {
        match existing {
            None => None,
            Some(e) => {
                if !Self::mentions_exec(e, file_path) {
                    return None;
                }
                let fp = chars_of(file_path);
                let m = Self::collect(e, &fp);
                Some(self.write_index(&m, stamp))
            },
        }
    }
}

} // verus!
