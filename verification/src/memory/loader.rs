//! What memory goes into a turn's prompt: the whole index, and the topic
//! files most relevant to the user's query, each cut to a token budget.
use vstd::prelude::*;
use crate::memory::index::{
    entries_view, is_ranking, parse_index, relevance_scores, EntryView, IndexEntry, MemoryIndex,
};
use crate::memory::topics::TopicStore;
use crate::text::{
    byte_len, byte_prefix, chars_of, concat2, copy_str, fits, is_boundary, prefix_bytes, push_str,
    string_from_range, utf8_len,
};

verus! {

/// A topic file loaded into the prompt.
#[derive(Debug)]
pub struct TopicInjection {
    pub path: String,
    pub content: String,
    pub tokens: usize,
}

/// The memory loaded for one turn.
#[derive(Debug)]
pub struct MemoryContext {
    pub index_content: String,
    pub index_tokens: usize,
    pub topics: Vec<TopicInjection>,
    pub topics_tokens: usize,
    pub total_tokens: usize,
}

/// Loads memory for a turn.
#[derive(Debug)]
pub struct MemoryLoader {
    index: MemoryIndex,
    topics: TopicStore,
    max_topic_tokens: usize,
    max_topics_per_turn: usize,
}

/// The index of the last `'\n'` of `s`, or -1.
pub open spec fn last_newline(s: Seq<char>) -> int
    decreases s.len(),
{
    if s.len() == 0 {
        -1
    } else if s.last() == '\n' {
        s.len() - 1
    } else {
        last_newline(s.drop_last())
    }
}

proof fn lemma_last_newline(s: Seq<char>)
    ensures
        -1 <= last_newline(s) < s.len(),
        last_newline(s) >= 0 ==> s[last_newline(s)] == '\n',
        forall|j: int| last_newline(s) < j < s.len() ==> s[j] != '\n',
    decreases s.len(),
{
    if s.len() > 0 && s.last() != '\n' {
        lemma_last_newline(s.drop_last());
        assert forall|j: int| last_newline(s) < j < s.len() implies s[j] != '\n' by {
            if j < s.len() - 1 {
                assert(s.drop_last()[j] == s[j]);
            }
        }
    }
}

/// The text kept of `content` within `max_tokens` tokens (4 bytes each): all
/// of it when it fits; else its first `4 * max_tokens` bytes, back to the last
/// line break among them, and a truncation mark.
pub open spec fn token_cut(content: Seq<char>, max_tokens: nat) -> Seq<char> {
    if utf8_len(content) <= max_tokens * 4 {
        content
    } else {
        let p = byte_prefix(content, (max_tokens * 4) as int);
        let j = last_newline(p);
        (if j >= 0 {
            p.take(j)
        } else {
            p
        }) + "\n\n... [truncated]"@
    }
}

/// Cutting `content` at `4 * max_tokens` bytes does not split a character
/// (and the result's length is a `usize`).
pub open spec fn token_cut_ok(content: Seq<char>, max_tokens: nat) -> bool {
    &&& fits(content)
    &&& fits(token_cut(content, max_tokens))
    &&& max_tokens * 4 <= usize::MAX
    &&& utf8_len(content) > max_tokens * 4 ==> is_boundary(content, (max_tokens * 4) as int)
}

/// The tokens of a text: a quarter of its bytes.
pub open spec fn tokens_of(s: Seq<char>) -> nat {
    utf8_len(s) / 4
}

/// A loaded topic file: its text (cut when over `max` tokens) and token count.
pub open spec fn injected(content: Seq<char>, max: nat) -> (Seq<char>, nat) {
    if tokens_of(content) > max {
        (token_cut(content, max), tokens_of(token_cut(content, max)))
    } else {
        (content, tokens_of(content))
    }
}

/// The view of a loaded topic file.
pub open spec fn injection_view(t: TopicInjection) -> (Seq<char>, Seq<char>, nat) {
    (t.path@, t.content@, t.tokens as nat)
}

/// The files read for a turn, as `(path, content)`; `None` for a file that is missing.
pub type ReadView = Seq<(Seq<char>, Option<Seq<char>>)>;

/// The view of the files read for a turn.
pub open spec fn reads_view(v: Seq<(String, Option<String>)>) -> ReadView {
    v.map_values(|p: (String, Option<String>)| (p.0@, match p.1 {
        Some(c) => Some(c@),
        None => None,
    }))
}

/// The topic files loaded from the files read: each one present, in order.
pub open spec fn injections(reads: ReadView, max: nat) -> Seq<(Seq<char>, Seq<char>, nat)>
    decreases reads.len(),
{
    if reads.len() == 0 {
        Seq::empty()
    } else {
        let rest = injections(reads.drop_last(), max);
        match reads.last().1 {
            Some(c) => rest.push((reads.last().0, injected(c, max).0, injected(c, max).1)),
            None => rest,
        }
    }
}

/// The tokens of loaded topic files.
pub open spec fn injected_tokens(ts: Seq<(Seq<char>, Seq<char>, nat)>) -> nat
    decreases ts.len(),
{
    if ts.len() == 0 {
        0
    } else {
        injected_tokens(ts.drop_last()) + ts.last().2
    }
}

/// What the prompt holds of loaded topic files.
pub open spec fn topics_prompt(ts: Seq<(Seq<char>, Seq<char>, nat)>) -> Seq<char>
    decreases ts.len(),
{
    if ts.len() == 0 {
        Seq::empty()
    } else {
        topics_prompt(ts.drop_last()) + "--- "@ + ts.last().0 + " ---\n"@ + ts.last().1 + "\n\n"@
    }
}

/// The memory section of a prompt.
pub open spec fn memory_prompt(index: Seq<char>, ts: Seq<(Seq<char>, Seq<char>, nat)>) -> Seq<char> {
    "<memory_index>\n"@ + index + "\n</memory_index>\n"@ + if ts.len() == 0 {
        Seq::<char>::empty()
    } else {
        "\n<memory_topics>\nThe following topic files were loaded because they are relevant to the current query.\n\n"@
            + topics_prompt(ts) + "</memory_topics>\n"@
    }
}

impl MemoryLoader {
    #[verifier::type_invariant]
    closed spec fn few_topics(&self) -> bool {
        self.max_topics_per_turn <= 3
    }

    pub closed spec fn index_spec(&self) -> MemoryIndex {
        self.index
    }

    pub closed spec fn topics_spec(&self) -> TopicStore {
        self.topics
    }

    /// The most tokens one topic file may take.
    pub closed spec fn topic_token_limit(&self) -> nat {
        self.max_topic_tokens as nat
    }

    /// The most topic files loaded per turn.
    pub closed spec fn topics_per_turn(&self) -> nat {
        self.max_topics_per_turn as nat
    }

    /// A loader for the memory under `memory_dir`: its index `MEMORY.md`, its
    /// topic files under `topics`; at most 3 topic files of 5000 tokens per turn.
    pub fn new(memory_dir: &str) -> (r: Self)
        ensures
            r.index_spec().path_view() == memory_dir@ + "/MEMORY.md"@,
            r.topics_spec().base_view() == memory_dir@ + "/topics"@,
            r.topics_spec().archive_view() == memory_dir@ + "/archive"@,
            r.topic_token_limit() == 5000,
            r.topics_per_turn() == 3,
    {
        MemoryLoader {
            index: MemoryIndex::new(concat2(memory_dir, "/MEMORY.md")),
            topics: TopicStore::new(concat2(memory_dir, "/topics"), concat2(memory_dir, "/archive")),
            max_topic_tokens: 5000,
            max_topics_per_turn: 3,
        }
    }

    /// The topic files to read for a query: those of the most relevant index
    /// entries, at most three.
    pub fn relevant_topic_paths(&self, index_raw: &str, query: &str) -> (r: Vec<String>)
        ensures
            exists|order: Seq<int>|
                is_ranking(relevance_scores(parse_index(index_raw@), query@), order) && r.deep_view()
                    == order.take(
                    if order.len() < self.topics_per_turn() {
                        order.len() as int
                    } else {
                        self.topics_per_turn() as int
                    },
                ).map_values(|i: int| parse_index(index_raw@)[i].file_path),
    {
        let found = self.index.find_relevant(index_raw, query);
        let ghost es = parse_index(index_raw@);
        let ghost order = choose|order: Seq<int>|
            is_ranking(relevance_scores(es, query@), order) && entries_view(found@)
                == order.map_values(|i: int| es[i]);
        let n: usize = if found.len() < self.max_topics_per_turn {
            found.len()
        } else {
            self.max_topics_per_turn
        };
        let mut r: Vec<String> = Vec::new();
        let mut k: usize = 0;
        proof {
            assert(entries_view(found@).len() == found.len());
            assert(order.len() == found.len());
            assert(r.deep_view() =~= order.take(0).map_values(|i: int| es[i].file_path));
        }
        while k < n
            invariant
                n <= found.len(),
                entries_view(found@) == order.map_values(|i: int| es[i]),
                k <= n,
                r.deep_view() == order.take(k as int).map_values(|i: int| es[i].file_path),
                order.len() == found.len(),
            decreases n - k,
        {
            let p = copy_str(found[k].file_path.as_str());
            let ghost before = r.deep_view();
            proof {
                assert(entries_view(found@)[k as int] == found@[k as int]@);
                assert(entries_view(found@)[k as int] == es[order[k as int]]);
            }
            r.push(p);
            proof {
                assert(r.deep_view() =~= before.push(p@));
                assert(order.take(k + 1).map_values(|i: int| es[i].file_path) =~= order.take(k as int).map_values(|i: int| es[i].file_path).push(es[order[k as int]].file_path));
            }
            k = k + 1;
        }
        r
    }

    /// The memory for a turn: the index text and the topic files read for the
    /// query (`reads`, as returned for [`Self::relevant_topic_paths`]), at most
    /// three, each cut to 5000 tokens.
    pub fn load_for_turn(&self, index_content: String, reads: Vec<(String, Option<String>)>) -> (r: MemoryContext)
        requires
            fits(index_content@),
            forall|k: int| 0 <= k < reads.len() && (#[trigger] reads@[k]).1 is Some ==> token_cut_ok(
                reads@[k].1.unwrap()@,
                self.topic_token_limit(),
            ),
        ensures
            r.index_content@ == index_content@,
            r.index_tokens == tokens_of(index_content@),
            r.topics@.map_values(|t: TopicInjection| injection_view(t)) == injections(
                reads_view(reads@).take(
                    if reads.len() < self.topics_per_turn() {
                        reads.len() as int
                    } else {
                        self.topics_per_turn() as int
                    },
                ),
                self.topic_token_limit(),
            ),
            r.topics_tokens == injected_tokens(r.topics@.map_values(|t: TopicInjection| injection_view(t))),
            r.total_tokens == r.index_tokens + r.topics_tokens,
    {
        proof {
            use_type_invariant(self);
        }
        let index_tokens = byte_len(index_content.as_str()) / 4;
        let n: usize = if reads.len() < self.max_topics_per_turn {
            reads.len()
        } else {
            self.max_topics_per_turn
        };
        let ghost rv = reads_view(reads@);
        let ghost max = self.topic_token_limit();
        let mut topics: Vec<TopicInjection> = Vec::new();
        let mut topics_tokens: usize = 0;
        let mut k: usize = 0;
        proof {
            assert(topics@.map_values(|t: TopicInjection| injection_view(t)) =~= Seq::<(Seq<char>, Seq<char>, nat)>::empty());
            assert(rv.take(0) =~= Seq::<(Seq<char>, Option<Seq<char>>)>::empty());
        }
        while k < n
            invariant
                n <= reads.len(),
                n <= 3,
                rv == reads_view(reads@),
                max == self.topic_token_limit(),
                max == self.max_topic_tokens,
                forall|j: int| 0 <= j < reads.len() && (#[trigger] reads@[j]).1 is Some ==> token_cut_ok(
                    reads@[j].1.unwrap()@,
                    max,
                ),
                k <= n,
                topics@.map_values(|t: TopicInjection| injection_view(t)) == injections(rv.take(k as int), max),
                topics_tokens == injected_tokens(topics@.map_values(|t: TopicInjection| injection_view(t))),
                topics_tokens <= k * (usize::MAX / 4),
            decreases n - k,
        {
            let ghost before = topics@.map_values(|t: TopicInjection| injection_view(t));
            proof {
                assert(rv.take(k + 1).drop_last() =~= rv.take(k as int));
                assert(rv.take(k + 1).last() == rv[k as int]);
            }
            match &reads[k].1 {
                Some(c) => {
                    proof {
                        assert(reads@[k as int].1 is Some);
                    }
                    let tokens = byte_len(c.as_str()) / 4;
                    let (content, t) = if tokens > self.max_topic_tokens {
                        self.truncate_to_tokens(c.as_str(), self.max_topic_tokens)
                    } else {
                        (copy_str(c.as_str()), tokens)
                    };
                    proof {
                        assert(reads@[k as int].1 == Some(*c));
                        assert(t <= usize::MAX / 4);
                    }
                    let inj = TopicInjection { path: copy_str(reads[k].0.as_str()), content, tokens: t };
                    topics.push(inj);
                    proof {
                        let after = topics@.map_values(|t: TopicInjection| injection_view(t));
                        assert(after =~= before.push(injection_view(inj)));
                        assert(after.drop_last() =~= before);
                        assert(k * (usize::MAX / 4) + usize::MAX / 4 == (k + 1) * (usize::MAX / 4)) by (nonlinear_arith);
                        assert((k + 1) * (usize::MAX / 4) <= 3 * (usize::MAX / 4)) by (nonlinear_arith)
                            requires k + 1 <= 3;
                    }
                    topics_tokens = topics_tokens + t;
                },
                None => {
                    proof {
                        assert(k * (usize::MAX / 4) <= (k + 1) * (usize::MAX / 4)) by (nonlinear_arith);
                    }
                },
            }
            k = k + 1;
        }
        proof {
            assert(n * (usize::MAX / 4) <= 3 * (usize::MAX / 4)) by (nonlinear_arith)
                requires n <= 3;
        }
        MemoryContext {
            index_content,
            index_tokens,
            topics,
            topics_tokens,
            total_tokens: index_tokens + topics_tokens,
        }
    }

    /// Cuts `content` to about `max_tokens` tokens (4 bytes each): whole when it
    /// fits, else back to the last line break within the budget, marked as cut.
    pub fn truncate_to_tokens(&self, content: &str, max_tokens: usize) -> (r: (String, usize))
        requires
            token_cut_ok(content@, max_tokens as nat),
        ensures
            r.0@ == token_cut(content@, max_tokens as nat),
            r.1 == tokens_of(token_cut(content@, max_tokens as nat)),
    {
        let max_chars = max_tokens * 4;
        if byte_len(content) <= max_chars {
            return (copy_str(content), byte_len(content) / 4);
        }
        let p = prefix_bytes(content, max_chars);
        let pv = chars_of(p.as_str());
        let mut j = pv.len();
        assert(pv@.take(j as int) =~= pv@);
        while j > 0 && pv[j - 1] != '\n'
            invariant
                j <= pv.len(),
                pv@ == p@,
                last_newline(pv@) == last_newline(pv@.take(j as int)),
            decreases j,
        {
            proof {
                assert(pv@.take(j as int).drop_last() =~= pv@.take(j - 1));
            }
            j = j - 1;
        }
        proof {
            assert(pv@.take(pv.len() as int) =~= pv@);
            lemma_last_newline(pv@);
            if j == 0 {
                assert(pv@.take(0) =~= Seq::<char>::empty());
            } else {
                assert(pv@.take(j as int).last() == '\n');
                assert(pv@.take(j as int).len() == j);
            }
        }
        let mut r = if j > 0 {
            string_from_range(&pv, 0, j - 1)
        } else {
            copy_str(p.as_str())
        };
        push_str(&mut r, "\n\n... [truncated]");
        proof {
            if j > 0 {
                assert(pv@.subrange(0, j - 1) =~= p@.take(j - 1));
            }
        }
        let t = byte_len(r.as_str()) / 4;
        (r, t)
    }

    /// The memory section of the prompt: the index, then the loaded topic
    /// files (if any), each under a `--- path ---` line.
    pub fn format_for_prompt(&self, ctx: &MemoryContext) -> (r: String)
        ensures
            r@ == memory_prompt(ctx.index_content@, ctx.topics@.map_values(|t: TopicInjection| injection_view(t))),
    {
        let ghost ts = ctx.topics@.map_values(|t: TopicInjection| injection_view(t));
        let mut out = copy_str("<memory_index>\n");
        push_str(&mut out, ctx.index_content.as_str());
        push_str(&mut out, "\n</memory_index>\n");
        if ctx.topics.len() > 0 {
            push_str(&mut out, "\n<memory_topics>\nThe following topic files were loaded because they are relevant to the current query.\n\n");
            let ghost head = out@;
            let mut k: usize = 0;
            proof {
                assert(ts.take(0) =~= Seq::<(Seq<char>, Seq<char>, nat)>::empty());
                assert(out@ =~= head + topics_prompt(ts.take(0)));
            }
            while k < ctx.topics.len()
                invariant
                    ts == ctx.topics@.map_values(|t: TopicInjection| injection_view(t)),
                    k <= ctx.topics.len(),
                    out@ == head + topics_prompt(ts.take(k as int)),
                decreases ctx.topics.len() - k,
            {
                let t = &ctx.topics[k];
                push_str(&mut out, "--- ");
                push_str(&mut out, t.path.as_str());
                push_str(&mut out, " ---\n");
                push_str(&mut out, t.content.as_str());
                push_str(&mut out, "\n\n");
                proof {
                    assert(ts.take(k + 1).drop_last() =~= ts.take(k as int));
                    assert(ts.take(k + 1).last() == injection_view(*t));
                }
                k = k + 1;
            }
            push_str(&mut out, "</memory_topics>\n");
            proof {
                assert(ts.take(k as int) =~= ts);
                assert(out@ =~= memory_prompt(ctx.index_content@, ts));
            }
        } else {
            proof {
                assert(out@ =~= memory_prompt(ctx.index_content@, ts));
            }
        }
        out
    }
}

} // verus!
