//! Pruning: finding memory entries that restate code, or point at source
//! files that are gone.
use vstd::prelude::*;
use crate::dream::types::{MemoryOperation, OperationKind, PruneReason};
use crate::memory::index::first_index;
use crate::text::{
    chars_of, concat2, contains, contains_vec, copy_str, ends_with, find_vec, line_ranges, lines,
    lowercase, push_str, slice_chars, starts_with, starts_with_vec, string_from_chars, to_lowercase,
    trim, trim_bounds,
};

verus! {

/// Finds entries to prune.
#[derive(Debug)]
pub struct MemoryPruner {
    working_dir: String,
}

/// A line that says something: not blank, not a heading, not a rule.
pub open spec fn is_prose_line(l: Seq<char>) -> bool {
    let t = trim(l);
    t.len() > 0 && !starts_with(t, "#"@) && !starts_with(t, "---"@)
}

/// A line that mentions a code construct.
pub open spec fn mentions_code(l: Seq<char>) -> bool {
    ||| contains(l, "fn "@)
    ||| contains(l, "pub fn "@)
    ||| contains(l, "struct "@)
    ||| contains(l, "enum "@)
    ||| contains(l, "impl "@)
    ||| contains(l, "trait "@)
    ||| contains(l, "class "@)
    ||| contains(l, "def "@)
    ||| contains(l, "let "@)
    ||| contains(l, "const "@)
}

/// Content that restates code: more than 60% of its prose lines mention code.
pub open spec fn restates_code(s: Seq<char>) -> bool {
    let kept = lines(s).filter(|l: Seq<char>| is_prose_line(l));
    kept.len() > 0 && 5 * kept.filter(|l: Seq<char>| mentions_code(l)).len() > 3 * kept.len()
}

/// The source file a line cites: after a "source:" mark (in any case), the
/// text between the line's first and second `:`, trimmed, when it is a path.
pub open spec fn cited_source(l: Seq<char>) -> Option<Seq<char>> {
    if contains(lowercase(l), "source:"@) && l.contains(':') {
        let after = l.skip(first_index(l, seq![':']) + 1);
        let seg = if after.contains(':') {
            after.take(first_index(after, seq![':']))
        } else {
            after
        };
        let p = trim(seg);
        if p.len() > 0 && p.contains('/') {
            Some(p)
        } else {
            None
        }
    } else {
        None
    }
}

/// The first source cited by the lines.
pub open spec fn first_cited(ls: Seq<Seq<char>>) -> Option<Seq<char>>
    decreases ls.len(),
{
    if ls.len() == 0 {
        None
    } else {
        match cited_source(ls[0]) {
            Some(p) => Some(p),
            None => first_cited(ls.drop_first()),
        }
    }
}

/// `rel` resolved against `base` (an absolute `rel` stands alone).
pub open spec fn join_path(base: Seq<char>, rel: Seq<char>) -> Seq<char> {
    if starts_with(rel, "/"@) {
        rel
    } else if ends_with(base, "/"@) {
        base + rel
    } else {
        base + "/"@ + rel
    }
}

/// What the pruner makes of an entry's content.
#[derive(Debug)]
pub enum PruneDecision {
    /// It restates code.
    Derivable,
    /// It cites a source file: the citation and the file's path, to be checked.
    CheckSource { reference: String, full_path: String },
    /// Nothing to prune.
    Keep,
}

fn has_colon(v: &Vec<char>) -> (r: Option<usize>)
    ensures
        match r {
            Some(i) => v@.contains(':') && i == first_index(v@, seq![':']) && i < v.len() && v@[i as int] == ':',
            None => !v@.contains(':'),
        },
{
    let colon: Vec<char> = vec![':'];
    assert(colon@ =~= seq![':']);
    match find_vec(v, &colon) {
        Some(i) => {
            proof {
                crate::memory::index::lemma_first_index(v@, colon@, i as int);
                assert(v@[i as int] == colon@[0]);
            }
            Some(i)
        },
        None => {
            proof {
                if v@.contains(':') {
                    let j = choose|j: int| 0 <= j < v@.len() && v@[j] == ':';
                    assert(v@.subrange(j, j + 1) =~= colon@);
                    assert(crate::text::occurs_at(v@, colon@, j));
                }
            }
            None
        },
    }
}

fn contains_str(v: &Vec<char>, p: &str) -> (b: bool)
    ensures
        b == contains(v@, p@),
{
    let pv = chars_of(p);
    contains_vec(v, &pv)
}

impl MemoryPruner {
    pub closed spec fn dir_view(&self) -> Seq<char> {
        self.working_dir@
    }

    /// A pruner for the repository at `working_dir`.
    pub fn new(working_dir: String) -> (r: Self)
        ensures
            r.dir_view() == working_dir@,
    {
        MemoryPruner { working_dir }
    }

    /// Whether the content restates code.
    pub fn is_derivable_content(content: &str) -> (b: bool)
        ensures
            b == restates_code(content@),
    {
        let v = chars_of(content);
        let ranges = line_ranges(&v);
        let ghost ls = lines(v@);
        let ghost pp = |l: Seq<char>| is_prose_line(l);
        let ghost cp = |l: Seq<char>| mentions_code(l);
        let mut kept: usize = 0;
        let mut code: usize = 0;
        let mut k: usize = 0;
        proof {
            reveal(Seq::filter);
            assert(ls.take(0).filter(pp) =~= Seq::<Seq<char>>::empty());
        }
        while k < ranges.len()
            invariant
                v@ == content@,
                ls == lines(v@),
                crate::text::ranges_are_lines(v@, ranges@, ls),
                pp == (|l: Seq<char>| is_prose_line(l)),
                cp == (|l: Seq<char>| mentions_code(l)),
                k <= ranges.len(),
                kept == ls.take(k as int).filter(pp).len(),
                code == ls.take(k as int).filter(pp).filter(cp).len(),
                code <= kept <= k,
            decreases ranges.len() - k,
        {
            let (lo, hi) = ranges[k];
            let (a, b) = trim_bounds(&v, lo, hi);
            let t = slice_chars(&v, a, b);
            let line = slice_chars(&v, lo, hi);
            proof {
                reveal(Seq::filter);
                assert(ls.take(k + 1).drop_last() =~= ls.take(k as int));
                assert(ls.take(k + 1).last() == ls[k as int]);
                assert(t@ == trim(ls[k as int]));
                assert(line@ == ls[k as int]);
            }
            if t.len() > 0 && !starts_with_str(&t, "#") && !starts_with_str(&t, "---") {
                let mc = contains_str(&line, "fn ") || contains_str(&line, "pub fn ") || contains_str(&line, "struct ")
                    || contains_str(&line, "enum ") || contains_str(&line, "impl ") || contains_str(&line, "trait ")
                    || contains_str(&line, "class ") || contains_str(&line, "def ") || contains_str(&line, "let ")
                    || contains_str(&line, "const ");
                proof {
                    let f0 = ls.take(k as int).filter(pp);
                    let f1 = ls.take(k + 1).filter(pp);
                    assert(f1 == f0.push(ls[k as int]));
                    assert(f1.drop_last() =~= f0);
                }
                kept = kept + 1;
                if mc {
                    code = code + 1;
                }
            }
            k = k + 1;
        }
        assert(ls.take(k as int) =~= ls);
        (code as u128) * 5 > (kept as u128) * 3
    }

    /// The first source file the content cites, if any.
    pub fn extract_source_reference(content: &str) -> (r: Option<String>)
        ensures
            match r {
                Some(p) => first_cited(lines(content@)) == Some(p@),
                None => first_cited(lines(content@)) is None,
            },
    {
        let v = chars_of(content);
        let ranges = line_ranges(&v);
        let ghost ls = lines(v@);
        let mut k: usize = 0;
        proof {
            assert(ls.skip(0) =~= ls);
        }
        while k < ranges.len()
            invariant
                v@ == content@,
                ls == lines(v@),
                crate::text::ranges_are_lines(v@, ranges@, ls),
                k <= ranges.len(),
                first_cited(ls.skip(k as int)) == first_cited(ls),
            decreases ranges.len() - k,
        {
            let (lo, hi) = ranges[k];
            let line = slice_chars(&v, lo, hi);
            proof {
                assert(ls.skip(k as int)[0] == ls[k as int]);
                assert(ls.skip(k as int).drop_first() =~= ls.skip(k + 1));
                assert(line@ == ls[k as int]);
            }
            match Self::cited(&line) {
                Some(p) => {
                    return Some(p);
                },
                None => {},
            }
            k = k + 1;
        }
        proof {
            assert(ls.skip(k as int) =~= Seq::<Seq<char>>::empty());
        }
        None
    }

    fn cited(line: &Vec<char>) -> (r: Option<String>)
        ensures
            match r {
                Some(p) => cited_source(line@) == Some(p@),
                None => cited_source(line@) is None,
            },
    {
        let ls = string_from_chars(line);
        let low = to_lowercase(ls.as_str());
        let lv = chars_of(low.as_str());
        if !contains_str(&lv, "source:") {
            return None;
        }
        match has_colon(line) {
            None => None,
            Some(i) => {
                let after = slice_chars(line, i + 1, line.len());
                assert(after@ =~= line@.skip(i + 1));
                let seg = match has_colon(&after) {
                    Some(j) => {
                        let s = slice_chars(&after, 0, j);
                        assert(s@ =~= after@.take(j as int));
                        s
                    },
                    None => after,
                };
                let (a, b) = trim_bounds(&seg, 0, seg.len());
                assert(seg@.subrange(0, seg.len() as int) =~= seg@);
                let p = slice_chars(&seg, a, b);
                if p.len() > 0 {
                    match has_colon_or_slash(&p) {
                        true => Some(string_from_chars(&p)),
                        false => None,
                    }
                } else {
                    None
                }
            },
        }
    }

    /// What to do with an entry: prune it when it restates code, check its
    /// cited source file (resolved against the working directory) when it
    /// cites one, else keep it.
    pub fn decision(&self, content: &str) -> (r: PruneDecision)
        ensures
            restates_code(content@) ==> r is Derivable,
            !restates_code(content@) ==> match first_cited(lines(content@)) {
                Some(p) => r matches PruneDecision::CheckSource { reference, full_path } && reference@ == p
                    && full_path@ == join_path(self.dir_view(), p),
                None => r is Keep,
            },
    {
        if Self::is_derivable_content(content) {
            return PruneDecision::Derivable;
        }
        match Self::extract_source_reference(content) {
            Some(p) => {
                let full = join_path_exec(self.working_dir.as_str(), p.as_str());
                PruneDecision::CheckSource { reference: p, full_path: full }
            },
            None => PruneDecision::Keep,
        }
    }

    /// The prune of an entry that restates code.
    pub fn derivable_op(topic: &str, subtopic: &str) -> (r: MemoryOperation)
        ensures
            r.kind == (OperationKind::Prune { reason: PruneReason::Derivable }),
            r.topic@ == topic@,
            r.subtopic@ == subtopic@,
            r.content@ == Seq::<char>::empty(),
            r.reasoning@ == "Describes code structure that can be re-derived from source"@,
    {
        MemoryOperation {
            kind: OperationKind::Prune { reason: PruneReason::Derivable },
            topic: copy_str(topic),
            subtopic: copy_str(subtopic),
            content: String::new(),
            reasoning: copy_str("Describes code structure that can be re-derived from source"),
        }
    }

    /// The prune of an entry whose cited source file is gone.
    pub fn stale_op(topic: &str, subtopic: &str, reference: &str) -> (r: MemoryOperation)
        ensures
            r.kind == (OperationKind::Prune { reason: PruneReason::Stale }),
            r.topic@ == topic@,
            r.subtopic@ == subtopic@,
            r.content@ == Seq::<char>::empty(),
            r.reasoning@ == "Referenced source file '"@ + reference@ + "' no longer exists"@,
    {
        let mut reasoning = copy_str("Referenced source file '");
        push_str(&mut reasoning, reference);
        push_str(&mut reasoning, "' no longer exists");
        MemoryOperation {
            kind: OperationKind::Prune { reason: PruneReason::Stale },
            topic: copy_str(topic),
            subtopic: copy_str(subtopic),
            content: String::new(),
            reasoning,
        }
    }
}

fn has_colon_or_slash(p: &Vec<char>) -> (b: bool)
    ensures
        b == p@.contains('/'),
{
    crate::text::has_char(p, '/')
}

fn starts_with_str(t: &Vec<char>, p: &str) -> (b: bool)
    ensures
        b == starts_with(t@, p@),
{
    let pv = chars_of(p);
    starts_with_vec(t, &pv)
}

/// `rel` resolved against `base`.
pub fn join_path_exec(base: &str, rel: &str) -> (r: String)
    ensures
        r@ == join_path(base@, rel@),
{
    let rv = chars_of(rel);
    let bv = chars_of(base);
    let slash: Vec<char> = vec!['/'];
    proof {
        reveal_strlit("/");
        assert(slash@ =~= "/"@);
    }
    if starts_with_vec(&rv, &slash) {
        copy_str(rel)
    } else if crate::text::ends_with_vec(&bv, &slash) {
        concat2(base, rel)
    } else {
        let mut r = concat2(base, "/");
        push_str(&mut r, rel);
        r
    }
}

} // verus!
