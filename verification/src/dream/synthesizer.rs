//! Thematic synthesis: when a topic's notes have grown, they are consolidated
//! into one chapter.
use vstd::prelude::*;
use crate::dream::types::{MemoryOperation, OperationKind};
use crate::text::{chars_of, contains, contains_vec, copy_str, copy_strings, decimal, push_decimal, push_str, str_eq, string_from_range};

verus! {

/// Finds topics ripe for consolidation and gaps in chapters.
pub struct ThematicSynthesizer;

/// The topic of a topic-file path: what precedes its first `'/'` (none when
/// the path has no `'/'`).
pub open spec fn path_topic(p: Seq<char>) -> Option<Seq<char>> {
    if p.contains('/') {
        Some(p.take(crate::memory::index::first_index(p, seq!['/'])))
    } else {
        None
    }
}

/// Topic groups: each topic with its files (in order) and their total size.
pub type Groups = Seq<(Seq<char>, Seq<Seq<char>>, nat)>;

/// The index of the group of `t`, or -1.
pub open spec fn group_index(g: Groups, t: Seq<char>) -> int
    decreases g.len(),
{
    if g.len() == 0 {
        -1
    } else if g.last().0 == t {
        g.len() - 1
    } else {
        group_index(g.drop_last(), t)
    }
}

/// The groups of the files `fs` (path, size), topics in order of first appearance.
pub open spec fn groups_of(fs: Seq<(Seq<char>, nat)>) -> Groups
    decreases fs.len(),
{
    if fs.len() == 0 {
        Seq::empty()
    } else {
        let g = groups_of(fs.drop_last());
        let (p, n) = fs.last();
        match path_topic(p) {
            Some(t) => {
                let i = group_index(g, t);
                if i >= 0 {
                    g.update(i, (t, g[i].1.push(p), g[i].2 + n))
                } else {
                    g.push((t, seq![p], n))
                }
            },
            None => g,
        }
    }
}

/// The 8/5 rule: at least 5 files, or at least 32000 bytes.
pub open spec fn ripe(files: nat, bytes: nat) -> bool {
    files >= 5 || bytes >= 32_000
}

/// The groups ripe for consolidation, as (topic, files).
pub open spec fn ripe_groups(g: Groups) -> Seq<(Seq<char>, Seq<Seq<char>>)>
    decreases g.len(),
{
    if g.len() == 0 {
        Seq::empty()
    } else {
        let rest = ripe_groups(g.drop_last());
        if ripe(g.last().1.len(), g.last().2) {
            rest.push((g.last().0, g.last().1))
        } else {
            rest
        }
    }
}

/// A chapter that admits a gap: it marks something to do, to fix or missing.
pub open spec fn has_gap(content: Seq<char>) -> bool {
    contains(content, "TODO"@) || contains(content, "FIXME"@) || contains(content, "MISSING"@)
}

/// The gaps found in chapter files: (path, note) for each file whose path
/// holds "chapter" and whose text admits a gap.
pub open spec fn vacuums(fs: Seq<(Seq<char>, Option<Seq<char>>)>) -> Seq<(Seq<char>, Seq<char>)>
    decreases fs.len(),
{
    if fs.len() == 0 {
        Seq::empty()
    } else {
        let rest = vacuums(fs.drop_last());
        let (p, c) = fs.last();
        if contains(p, "chapter"@) && c is Some && has_gap(c.unwrap()) {
            rest.push((p, "Detected implementation gap in architecture chapter"@))
        } else {
            rest
        }
    }
}

fn path_topic_exec(p: &str) -> (r: Option<String>)
    ensures
        match r {
            Some(t) => path_topic(p@) == Some(t@),
            None => path_topic(p@) is None,
        },
{
    let v = chars_of(p);
    let slash: Vec<char> = vec!['/'];
    assert(slash@ =~= seq!['/']);
    match crate::text::find_vec(&v, &slash) {
        Some(i) => {
            proof {
                crate::memory::index::lemma_first_index(v@, slash@, i as int);
                assert(v@[i as int] == slash@[0]);
                assert(v@.contains('/'));
                assert(v@.subrange(0, i as int) =~= v@.take(i as int));
            }
            Some(string_from_range(&v, 0, i))
        },
        None => {
            proof {
                if v@.contains('/') {
                    let j = choose|j: int| 0 <= j < v@.len() && v@[j] == '/';
                    assert(v@.subrange(j, j + 1) =~= slash@);
                    assert(crate::text::occurs_at(v@, slash@, j));
                }
            }
            None
        },
    }
}

/// The view of topic groups (sizes saturated to `usize`).
pub open spec fn groups_view(g: Seq<(String, Vec<String>, usize)>) -> Seq<(Seq<char>, Seq<Seq<char>>, usize)> {
    g.map_values(|x: (String, Vec<String>, usize)| (x.0@, x.1.deep_view(), x.2))
}

/// The exact groups, with sizes saturated.
pub open spec fn saturated(g: Groups) -> Seq<(Seq<char>, Seq<Seq<char>>, usize)> {
    g.map_values(|x: (Seq<char>, Seq<Seq<char>>, nat)| (x.0, x.1, if x.2 <= usize::MAX { x.2 as usize } else { usize::MAX }))
}

fn find_group(g: &Vec<(String, Vec<String>, usize)>, t: &String) -> (r: Option<usize>)
    ensures
        match r {
            Some(i) => i < g.len() && group_index(groups_view(g@).map_values(|x: (Seq<char>, Seq<Seq<char>>, usize)| (x.0, x.1, 0nat)), t@) == i,
            None => group_index(groups_view(g@).map_values(|x: (Seq<char>, Seq<Seq<char>>, usize)| (x.0, x.1, 0nat)), t@) == -1,
        },
{
    let ghost gv = groups_view(g@).map_values(|x: (Seq<char>, Seq<Seq<char>>, usize)| (x.0, x.1, 0nat));
    let mut i = g.len();
    assert(gv.take(i as int) =~= gv);
    while i > 0
        invariant
            i <= g.len(),
            gv == groups_view(g@).map_values(|x: (Seq<char>, Seq<Seq<char>>, usize)| (x.0, x.1, 0nat)),
            group_index(gv, t@) == group_index(gv.take(i as int), t@),
        decreases i,
    {
        proof {
            assert(gv.take(i as int).last() == gv[i - 1]);
            assert(gv.take(i as int).drop_last() =~= gv.take(i - 1));
        }
        if str_eq(g[i - 1].0.as_str(), t.as_str()) {
            return Some(i - 1);
        }
        i = i - 1;
    }
    assert(gv.take(0) =~= Seq::<(Seq<char>, Seq<Seq<char>>, nat)>::empty());
    None
}

/// The fragments a chapter is made of: each readable file as a source
/// heading, its text and a blank line.
pub open spec fn fragments_text(files: Seq<(Seq<char>, Option<Seq<char>>)>) -> Seq<char>
    decreases files.len(),
{
    if files.len() == 0 {
        Seq::empty()
    } else {
        fragments_text(files.drop_last()) + match files.last().1 {
            Some(c) => "### Source: "@ + files.last().0 + "\n"@ + c + "\n\n"@,
            None => Seq::empty(),
        }
    }
}

/// What the model is asked to consolidate a topic's fragments into a chapter.
pub open spec fn synthesis_prompt_text(topic: Seq<char>, files: Seq<(Seq<char>, Option<Seq<char>>)>) -> Seq<char> {
    "You are the autoDream Thematic Synthesizer.\nConsolidate the following fragmented L2 observations into a single high-level L3 THEME CHAPTER for the topic: '"@
        + topic + "'.\n\n## FRAGMENTS\n"@ + fragments_text(files)
        + "\n\n## INSTRUCTIONS\n1. Create a comprehensive, well-structured Markdown document.\n2. Resolve any minor redundant details while preserving all verified facts.\n3. Ensure semantic links [[Topic/Subtopic]] are preserved or improved.\n4. Output only the synthesized content."@
}

impl ThematicSynthesizer {
    /// The prompt that asks for the chapter of `topic`, from its files (each
    /// path with its text, `None` when unreadable).
    pub fn synthesis_prompt(topic: &str, files: &Vec<(String, Option<String>)>) -> (r: String)
        ensures
            r@ == synthesis_prompt_text(topic@, files@.map_values(|f: (String, Option<String>)| (f.0@, match f.1 {
                Some(c) => Some(c@),
                None => None,
            }))),
    {
        let ghost fv = files@.map_values(|f: (String, Option<String>)| (f.0@, match f.1 {
            Some(c) => Some(c@),
            None => None,
        }));
        let mut frag = String::new();
        let mut k: usize = 0;
        while k < files.len()
            invariant
                k <= files.len(),
                fv == files@.map_values(|f: (String, Option<String>)| (f.0@, match f.1 {
                    Some(c) => Some(c@),
                    None => None,
                })),
                frag@ == fragments_text(fv.take(k as int)),
            decreases files.len() - k,
        {
            let ghost before = frag@;
            proof {
                assert(fv.take(k + 1).drop_last() =~= fv.take(k as int));
                assert(fv.take(k + 1).last() == fv[k as int]);
            }
            match &files[k].1 {
                Some(c) => {
                    push_str(&mut frag, "### Source: ");
                    push_str(&mut frag, files[k].0.as_str());
                    push_str(&mut frag, "\n");
                    push_str(&mut frag, c.as_str());
                    push_str(&mut frag, "\n\n");
                    proof {
                        assert(frag@ =~= before + ("### Source: "@ + files@[k as int].0@ + "\n"@ + c@ + "\n\n"@));
                    }
                },
                None => {
                    assert(frag@ =~= before + Seq::<char>::empty());
                },
            }
            k = k + 1;
        }
        assert(fv.take(k as int) =~= fv);
        let mut r = copy_str(
            "You are the autoDream Thematic Synthesizer.\nConsolidate the following fragmented L2 observations into a single high-level L3 THEME CHAPTER for the topic: '",
        );
        push_str(&mut r, topic);
        push_str(&mut r, "'.\n\n## FRAGMENTS\n");
        push_str(&mut r, frag.as_str());
        push_str(
            &mut r,
            "\n\n## INSTRUCTIONS\n1. Create a comprehensive, well-structured Markdown document.\n2. Resolve any minor redundant details while preserving all verified facts.\n3. Ensure semantic links [[Topic/Subtopic]] are preserved or improved.\n4. Output only the synthesized content.",
        );
        r
    }

    /// The operation that replaces the files `l2_paths` of `topic` by the
    /// chapter `content` the model wrote.
    pub fn synthesis_operation(topic: &str, l2_paths: &Vec<String>, content: String) -> (r: MemoryOperation)
        ensures
            r.kind matches OperationKind::ConsolidateTheme { l2_paths: ps } && ps.deep_view() == l2_paths.deep_view(),
            r.topic@ == topic@,
            r.subtopic@ == "chapter"@,
            r.content@ == content@,
            r.reasoning@ == "Thematic synthesis of "@ + decimal(l2_paths.len() as nat)
                + " fragments (8/5 Rule triggered)."@,
    {
        let mut reasoning = copy_str("Thematic synthesis of ");
        push_decimal(&mut reasoning, l2_paths.len() as u64);
        push_str(&mut reasoning, " fragments (8/5 Rule triggered).");
        MemoryOperation {
            kind: OperationKind::ConsolidateTheme { l2_paths: copy_strings(l2_paths) },
            topic: copy_str(topic),
            subtopic: copy_str("chapter"),
            content,
            reasoning,
        }
    }
    /// The topics ripe for consolidation (the 8/5 rule: at least 5 files or
    /// 32000 bytes), with their files; `files` holds each topic file's path and
    /// size, topics come in order of first appearance.
    pub fn detect_consolidation_targets(files: &Vec<(String, usize)>) -> (r: Vec<(String, Vec<String>)>)
        ensures
            r@.map_values(|x: (String, Vec<String>)| (x.0@, x.1.deep_view())) == ripe_groups(
                groups_of(files@.map_values(|f: (String, usize)| (f.0@, f.1 as nat))),
            ),
    {
        let ghost fv = files@.map_values(|f: (String, usize)| (f.0@, f.1 as nat));
        let mut g: Vec<(String, Vec<String>, usize)> = Vec::new();
        let mut k: usize = 0;
        proof {
            assert(fv.take(0) =~= Seq::<(Seq<char>, nat)>::empty());
            assert(groups_view(g@) =~= saturated(groups_of(fv.take(0))));
        }
        while k < files.len()
            invariant
                fv == files@.map_values(|f: (String, usize)| (f.0@, f.1 as nat)),
                k <= files.len(),
                groups_view(g@) == saturated(groups_of(fv.take(k as int))),
            decreases files.len() - k,
        {
            proof {
                assert(fv.take(k + 1).drop_last() =~= fv.take(k as int));
                assert(fv.take(k + 1).last() == fv[k as int]);
            }
            match path_topic_exec(files[k].0.as_str()) {
                Some(t) => {
                    let found = find_group(&g, &t);
                    proof {
                        assert(groups_view(g@).map_values(|x: (Seq<char>, Seq<Seq<char>>, usize)| (x.0, x.1, 0nat)) =~= groups_of(fv.take(k as int)).map_values(|x: (Seq<char>, Seq<Seq<char>>, nat)| (x.0, x.1, 0nat)));
                        lemma_group_index_keys(groups_of(fv.take(k as int)), t@);
                    }
                    let ghost gg = groups_of(fv.take(k as int));
                    let ghost p = files[k as int].0@;
                    let ghost n = files[k as int].1 as nat;
                    match found {
                        Some(i) => {
                            let ghost g0 = g@;
                            let (name, mut ps, total) = g.remove(i);
                            proof {
                                assert(g0[i as int] == (name, ps, total));
                                assert(groups_view(g0)[i as int] == saturated(gg)[i as int]);
                            }
                            let ghost ps0 = ps.deep_view();
                            ps.push(copy_str(files[k].0.as_str()));
                            let nt = total.saturating_add(files[k].1);
                            let ghost item = (name, ps, nt);
                            g.insert(i, (name, ps, nt));
                            proof {
                                assert(g@ =~= g0.update(i as int, item));
                                assert(ps.deep_view() =~= ps0.push(p));
                                let newg = (t@, gg[i as int].1.push(p), gg[i as int].2 + n);
                                assert(groups_of(fv.take(k + 1)) == gg.update(i as int, newg));
                                assert(gg[i as int].0 == t@);
                                assert(name@ == gg[i as int].0);
                                assert(ps0 == gg[i as int].1);
                                assert(total as int == if gg[i as int].2 <= usize::MAX { gg[i as int].2 as int } else { usize::MAX as int });
                                assert(nt as int == if gg[i as int].2 + n <= usize::MAX { (gg[i as int].2 + n) as int } else { usize::MAX as int });
                                let lhs = groups_view(g@);
                                let rhs = saturated(gg.update(i as int, newg));
                                assert(lhs.len() == rhs.len());
                                assert forall|j: int| 0 <= j < lhs.len() implies lhs[j] == rhs[j] by {
                                    if j != i {
                                        assert(g@[j] == g0[j]);
                                        assert(groups_view(g0)[j] == saturated(gg)[j]);
                                    }
                                }
                                assert(lhs =~= rhs);
                            }
                        },
                        None => {
                            let mut ps: Vec<String> = Vec::new();
                            ps.push(copy_str(files[k].0.as_str()));
                            let ghost before = g@;
                            let ghost item = (t, ps, files[k as int].1);
                            g.push((t, ps, files[k].1));
                            proof {
                                assert(ps.deep_view() =~= seq![p]);
                                assert(g@ =~= before.push(item));
                                assert(groups_of(fv.take(k + 1)) == gg.push((t@, seq![p], n)));
                                let lhs = groups_view(g@);
                                let rhs = saturated(gg.push((t@, seq![p], n)));
                                assert(lhs.len() == rhs.len());
                                assert forall|j: int| 0 <= j < lhs.len() implies lhs[j] == rhs[j] by {
                                    if j < before.len() {
                                        assert(g@[j] == before[j]);
                                        assert(groups_view(before)[j] == saturated(gg)[j]);
                                    }
                                }
                                assert(lhs =~= rhs);
                            }
                        },
                    }
                },
                None => {},
            }
            k = k + 1;
        }
        assert(fv.take(k as int) =~= fv);
        let ghost gs = groups_of(fv);
        let mut r: Vec<(String, Vec<String>)> = Vec::new();
        let mut j: usize = 0;
        proof {
            assert(gs.take(0) =~= Seq::<(Seq<char>, Seq<Seq<char>>, nat)>::empty());
            assert(r@.map_values(|x: (String, Vec<String>)| (x.0@, x.1.deep_view())) =~= ripe_groups(gs.take(0)));
        }
        assert(groups_view(g@).len() == g.len());
        assert(saturated(gs).len() == gs.len());
        while j < g.len()
            invariant
                gs.len() == g.len(),
                groups_view(g@) == saturated(gs),
                j <= g.len(),
                r@.map_values(|x: (String, Vec<String>)| (x.0@, x.1.deep_view())) == ripe_groups(gs.take(j as int)),
            decreases g.len() - j,
        {
            proof {
                assert(gs.take(j + 1).drop_last() =~= gs.take(j as int));
                assert(gs.take(j + 1).last() == gs[j as int]);
                assert(groups_view(g@)[j as int] == saturated(gs)[j as int]);
            }
            if g[j].1.len() >= 5 || g[j].2 >= 32_000 {
                let mut ps: Vec<String> = Vec::new();
                let mut q: usize = 0;
                while q < g[j].1.len()
                    invariant
                        j < g.len(),
                        q <= g[j as int].1.len(),
                        ps.deep_view() == g[j as int].1.deep_view().take(q as int),
                    decreases g[j as int].1.len() - q,
                {
                    let ghost before = ps.deep_view();
                    let c = copy_str(g[j].1[q].as_str());
                    ps.push(c);
                    proof {
                        assert(ps.deep_view() =~= before.push(c@));
                        assert(g[j as int].1.deep_view().take(q + 1) =~= g[j as int].1.deep_view().take(q as int).push(g[j as int].1[q as int]@));
                    }
                    q = q + 1;
                }
                assert(g[j as int].1.deep_view().take(q as int) =~= g[j as int].1.deep_view());
                let ghost before = r@.map_values(|x: (String, Vec<String>)| (x.0@, x.1.deep_view()));
                let name = copy_str(g[j].0.as_str());
                r.push((name, ps));
                proof {
                    assert(r@.map_values(|x: (String, Vec<String>)| (x.0@, x.1.deep_view())) =~= before.push((gs[j as int].0, gs[j as int].1)));
                }
            }
            j = j + 1;
        }
        assert(gs.take(j as int) =~= gs);
        r
    }

    /// The gaps in chapter files: each file whose path holds "chapter" and
    /// whose text holds "TODO", "FIXME" or "MISSING", with a note.  `files`
    /// holds each topic file's path and text (`None` when unreadable).
    pub fn detect_feature_vacuums(files: &Vec<(String, Option<String>)>) -> (r: Vec<(String, String)>)
        ensures
            r@.map_values(|x: (String, String)| (x.0@, x.1@)) == vacuums(
                files@.map_values(|f: (String, Option<String>)| (f.0@, match f.1 {
                    Some(c) => Some(c@),
                    None => None,
                })),
            ),
    {
        let ghost fv = files@.map_values(|f: (String, Option<String>)| (f.0@, match f.1 {
            Some(c) => Some(c@),
            None => None,
        }));
        let chapter = chars_of("chapter");
        let todo = chars_of("TODO");
        let fixme = chars_of("FIXME");
        let missing = chars_of("MISSING");
        let mut r: Vec<(String, String)> = Vec::new();
        let mut k: usize = 0;
        proof {
            assert(fv.take(0) =~= Seq::<(Seq<char>, Option<Seq<char>>)>::empty());
        }
        while k < files.len()
            invariant
                fv == files@.map_values(|f: (String, Option<String>)| (f.0@, match f.1 {
                    Some(c) => Some(c@),
                    None => None,
                })),
                chapter@ == "chapter"@,
                todo@ == "TODO"@,
                fixme@ == "FIXME"@,
                missing@ == "MISSING"@,
                k <= files.len(),
                r@.map_values(|x: (String, String)| (x.0@, x.1@)) == vacuums(fv.take(k as int)),
            decreases files.len() - k,
        {
            proof {
                assert(fv.take(k + 1).drop_last() =~= fv.take(k as int));
                assert(fv.take(k + 1).last() == fv[k as int]);
            }
            let pv = chars_of(files[k].0.as_str());
            if contains_vec(&pv, &chapter) {
                match &files[k].1 {
                    Some(c) => {
                        let cv = chars_of(c.as_str());
                        if contains_vec(&cv, &todo) || contains_vec(&cv, &fixme) || contains_vec(&cv, &missing) {
                            let ghost before = r@.map_values(|x: (String, String)| (x.0@, x.1@));
                            let item = (copy_str(files[k].0.as_str()), copy_str("Detected implementation gap in architecture chapter"));
                            r.push(item);
                            proof {
                                assert(r@.map_values(|x: (String, String)| (x.0@, x.1@)) =~= before.push((item.0@, item.1@)));
                            }
                        }
                    },
                    None => {},
                }
            }
            k = k + 1;
        }
        assert(fv.take(k as int) =~= fv);
        r
    }
}

/// The group index depends on the topic names only.
proof fn lemma_group_index_keys(g: Groups, t: Seq<char>)
    ensures
        group_index(g, t) == group_index(g.map_values(|x: (Seq<char>, Seq<Seq<char>>, nat)| (x.0, x.1, 0nat)), t),
        -1 <= group_index(g, t) < g.len(),
        group_index(g, t) >= 0 ==> g[group_index(g, t)].0 == t,
    decreases g.len(),
{
    if g.len() > 0 {
        let h = g.map_values(|x: (Seq<char>, Seq<Seq<char>>, nat)| (x.0, x.1, 0nat));
        assert(h.drop_last() =~= g.drop_last().map_values(|x: (Seq<char>, Seq<Seq<char>>, nat)| (x.0, x.1, 0nat)));
        assert(h.last().0 == g.last().0);
        lemma_group_index_keys(g.drop_last(), t);
    }
}

} // verus!
