//! Autopilot: architectural context (L3 themes) added to a task.
use vstd::prelude::*;
use crate::memory::index::{entries_view, is_ranking, parse_index, relevance_scores, MemoryIndex};
use crate::text::{chars_of, copy_str, decimal, push_decimal, push_str, starts_with, starts_with_vec};

verus! {

/// Adds architectural context to tasks.
pub struct Autopilot;

/// The context block for the themes `ts`, the `k`-th numbered `k + 1`.
pub open spec fn perspectives(ts: Seq<Seq<char>>) -> Seq<char>
    decreases ts.len(),
{
    if ts.len() == 0 {
        Seq::empty()
    } else {
        perspectives(ts.drop_last()) + "\n### Perspective "@ + decimal(ts.len()) + "\n"@ + ts.last()
            + "\n"@
    }
}

/// A task description with its architectural context: unchanged without
/// themes, else followed by a context section holding each theme.
pub open spec fn enriched(description: Seq<char>, themes: Seq<Seq<char>>) -> Seq<char> {
    if themes.len() == 0 {
        description
    } else {
        description + "\n\n---\n## \u{1f9e0} AUTHOPILOT: ARCHITECTURAL CONTEXT (L3)\n"@ + perspectives(
            themes,
        ) + "\n---\n"@
    }
}

/// "themes/", where L3 theme files live.
pub open spec fn themes_prefix() -> Seq<char> {
    "themes/"@
}

/// The candidates whose file exists, in order.
pub open spec fn existing_themes(candidates: Seq<Seq<char>>, exists: Seq<bool>) -> Seq<Seq<char>>
    decreases candidates.len(),
{
    if candidates.len() == 0 || exists.len() < candidates.len() {
        Seq::empty()
    } else {
        let k = candidates.len() - 1;
        let rest = existing_themes(candidates.drop_last(), exists.take(k));
        if exists[k] {
            rest.push(candidates[k])
        } else {
            rest
        }
    }
}

/// At most the first three of `s`.
pub open spec fn first_three(s: Seq<Seq<char>>) -> Seq<Seq<char>> {
    if s.len() <= 3 {
        s
    } else {
        s.take(3)
    }
}

impl Autopilot {
    /// The theme files read for a task: the first three candidates (as
    /// `theme_candidates` ranks them) whose file exists (`exists[k]` for
    /// `candidates[k]`).
    pub fn themes_to_read(candidates: &Vec<String>, exists: &Vec<bool>) -> (r: Vec<String>)
        requires
            exists.len() == candidates.len(),
        ensures
            r.deep_view() == first_three(existing_themes(candidates.deep_view(), exists@)),
    {
        let ghost cv = candidates.deep_view();
        let mut r: Vec<String> = Vec::new();
        let mut k: usize = 0;
        while k < candidates.len()
            invariant
                k <= candidates.len(),
                exists.len() == candidates.len(),
                cv == candidates.deep_view(),
                r.deep_view() == first_three(existing_themes(cv.take(k as int), exists@.take(k as int))),
            decreases candidates.len() - k,
        {
            let ghost before = existing_themes(cv.take(k as int), exists@.take(k as int));
            proof {
                assert(cv.take(k + 1).drop_last() =~= cv.take(k as int));
                assert(exists@.take(k + 1).take(k as int) =~= exists@.take(k as int));
                assert(cv.take(k + 1)[k as int] == cv[k as int]);
                assert(exists@.take(k + 1)[k as int] == exists@[k as int]);
            }
            if exists[k] {
                if r.len() < 3 {
                    let ghost rb = r.deep_view();
                    let c = copy_str(candidates[k].as_str());
                    r.push(c);
                    proof {
                        assert(r.deep_view() =~= rb.push(c@));
                        assert(first_three(before.push(cv[k as int])) =~= before.push(cv[k as int]));
                    }
                } else {
                    proof {
                        assert(first_three(before.push(cv[k as int])) =~= first_three(before));
                    }
                }
            }
            k = k + 1;
        }
        proof {
            assert(cv.take(k as int) =~= cv);
            assert(exists@.take(k as int) =~= exists@);
        }
        r
    }

    /// The task description followed, when there are themes, by a context
    /// section with one numbered perspective per theme.
    pub fn enrich_task_with_context(description: &str, themes: &Vec<String>) -> (r: String)
        requires
            themes.len() < u64::MAX,
        ensures
            r@ == enriched(description@, themes.deep_view()),
    {
        if themes.len() == 0 {
            return copy_str(description);
        }
        let mut r = copy_str(description);
        push_str(&mut r, "\n\n---\n## \u{1f9e0} AUTHOPILOT: ARCHITECTURAL CONTEXT (L3)\n");
        let ghost head = r@;
        let ghost ts = themes.deep_view();
        let mut k: usize = 0;
        proof {
            assert(ts.take(0) =~= Seq::<Seq<char>>::empty());
            assert(r@ =~= head + perspectives(ts.take(0)));
        }
        while k < themes.len()
            invariant
                themes.len() < u64::MAX,
                ts == themes.deep_view(),
                k <= themes.len(),
                r@ == head + perspectives(ts.take(k as int)),
            decreases themes.len() - k,
        {
            push_str(&mut r, "\n### Perspective ");
            push_decimal(&mut r, (k + 1) as u64);
            push_str(&mut r, "\n");
            push_str(&mut r, themes[k].as_str());
            push_str(&mut r, "\n");
            proof {
                let t = ts.take(k + 1);
                assert(t.drop_last() =~= ts.take(k as int));
                assert(t.last() == themes[k as int]@);
                assert(t.len() == k + 1);
            }
            k = k + 1;
        }
        push_str(&mut r, "\n---\n");
        proof {
            assert(ts.take(k as int) =~= ts);
        }
        r
    }

    /// The theme files among the index entries relevant to `query`, most
    /// relevant first: the pointers whose path starts with `themes/`.
    pub fn theme_candidates(index: &MemoryIndex, index_raw: &str, query: &str) -> (r: Vec<String>)
        ensures
            exists|order: Seq<int>|
                is_ranking(relevance_scores(parse_index(index_raw@), query@), order) && r.deep_view()
                    == order.map_values(|i: int| parse_index(index_raw@)[i].file_path).filter(
                    |p: Seq<char>| starts_with(p, themes_prefix()),
                ),
    {
        let found = index.find_relevant(index_raw, query);
        let ghost es = parse_index(index_raw@);
        let ghost order = choose|order: Seq<int>|
            is_ranking(relevance_scores(es, query@), order) && entries_view(found@)
                == order.map_values(|i: int| es[i]);
        let ghost paths = order.map_values(|i: int| es[i].file_path);
        let prefix = chars_of("themes/");
        let mut r: Vec<String> = Vec::new();
        let mut k: usize = 0;
        proof {
            assert(entries_view(found@).len() == found.len());
            reveal(Seq::filter);
            assert(paths.take(0) =~= Seq::<Seq<char>>::empty());
            assert(r.deep_view() =~= paths.take(0).filter(|p: Seq<char>| starts_with(p, themes_prefix())));
        }
        while k < found.len()
            invariant
                prefix@ == themes_prefix(),
                entries_view(found@) == order.map_values(|i: int| es[i]),
                paths == order.map_values(|i: int| es[i].file_path),
                paths.len() == found.len(),
                k <= found.len(),
                r.deep_view() == paths.take(k as int).filter(|p: Seq<char>| starts_with(p, themes_prefix())),
            decreases found.len() - k,
        {
            let fp = chars_of(found[k].file_path.as_str());
            proof {
                assert(entries_view(found@)[k as int] == found@[k as int]@);
                assert(fp@ == paths[k as int]);
                reveal(Seq::filter);
                assert(paths.take(k + 1).drop_last() =~= paths.take(k as int));
                assert(paths.take(k + 1).last() == paths[k as int]);
            }
            if starts_with_vec(&fp, &prefix) {
                let ghost before = r.deep_view();
                let c = copy_str(found[k].file_path.as_str());
                r.push(c);
                proof {
                    assert(r.deep_view() =~= before.push(c@));
                }
            }
            k = k + 1;
        }
        assert(paths.take(k as int) =~= paths);
        r
    }
}

} // verus!
