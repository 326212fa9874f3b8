//! Reading the operations an LLM proposes for the memory.
//!
//! The reply is expected to hold a JSON array; the array is cut out of the
//! reply here, decoded as JSON by the caller, and each decoded item becomes an
//! operation here.
use vstd::prelude::*;
use crate::dream::types::{MemoryOperation, OperationKind, PruneReason};
use crate::memory::index::first_index;
use crate::text::{
    chars_of, contains, copy_str, copy_strings, find_vec, is_first_occurrence, slice_chars, starts_with, str_eq,
    string_from_chars, trim, trim_bounds,
};

verus! {

/// Reads the operations an LLM proposes.
pub struct DreamAnalyzer;

/// One item of the decoded array: each field as a string when the item holds
/// it as one.
#[derive(Debug)]
pub struct RawOperation {
    pub kind: Option<String>,
    pub topic: Option<String>,
    pub subtopic: Option<String>,
    pub content: Option<String>,
    pub reasoning: Option<String>,
    pub source_entries: Option<Vec<String>>,
    pub existing_path: Option<String>,
    pub prune_reason: Option<String>,
    pub from_confidence: Option<String>,
    pub to_confidence: Option<String>,
}

/// "```json".
pub open spec fn json_fence() -> Seq<char> {
    seq!['`', '`', '`', 'j', 's', 'o', 'n']
}

/// "```".
pub open spec fn code_fence() -> Seq<char> {
    seq!['`', '`', '`']
}

/// The index of the last `c` in `s`, or -1.
pub open spec fn last_index_of(s: Seq<char>, c: char) -> int
    decreases s.len(),
{
    if s.len() == 0 {
        -1
    } else if s.last() == c {
        s.len() - 1
    } else {
        last_index_of(s.drop_last(), c)
    }
}

pub proof fn lemma_last_index_of(s: Seq<char>, c: char)
    ensures
        -1 <= last_index_of(s, c) < s.len(),
        last_index_of(s, c) >= 0 ==> s[last_index_of(s, c)] == c,
        forall|j: int| last_index_of(s, c) < j < s.len() ==> s[j] != c,
        s.contains(c) <==> last_index_of(s, c) >= 0,
    decreases s.len(),
{
    if s.len() > 0 && s.last() != c {
        lemma_last_index_of(s.drop_last(), c);
        assert forall|j: int| last_index_of(s, c) < j < s.len() implies s[j] != c by {
            if j < s.len() - 1 {
                assert(s.drop_last()[j] == s[j]);
            }
        }
        if s.contains(c) {
            let j = choose|j: int| 0 <= j < s.len() && s[j] == c;
            assert(s.drop_last()[j] == c);
        }
        if s.drop_last().contains(c) {
            let j = choose|j: int| 0 <= j < s.drop_last().len() && s.drop_last()[j] == c;
            assert(s[j] == c);
        }
    } else if s.len() > 0 {
        assert(s[s.len() - 1] == c);
    }
}

/// What follows the first "```json" of `t`.
pub open spec fn after_fence(t: Seq<char>) -> Seq<char> {
    t.skip(first_index(t, json_fence()) + 7)
}

/// The text of the JSON array in an LLM reply: the trimmed reply when it
/// starts with `[`; else the trimmed body of a "```json" block; else from the
/// first `[` to the last `]`; else `[]`.
pub open spec fn json_array_text(text: Seq<char>) -> Seq<char> {
    let t = trim(text);
    if starts_with(t, seq!['[']) {
        t
    } else if contains(t, json_fence()) && contains(after_fence(t), code_fence()) {
        trim(after_fence(t).take(first_index(after_fence(t), code_fence())))
    } else if t.contains('[') && t.contains(']') {
        t.subrange(first_index(t, seq!['[']), last_index_of(t, ']') + 1)
    } else {
        "[]"@
    }
}

/// Cutting the array out of the reply does not panic: when it is cut between
/// brackets, the last `]` does not come before the first `[`.
pub open spec fn json_cut_ok(text: Seq<char>) -> bool {
    let t = trim(text);
    !starts_with(t, seq!['['])
        && !(contains(t, json_fence()) && contains(after_fence(t), code_fence()))
        && t.contains('[') && t.contains(']') ==> first_index(t, seq!['['])
        <= last_index_of(t, ']') + 1
}

/// A string field, or the empty string when the item lacks it.
pub open spec fn or_empty(o: Option<String>) -> Seq<char> {
    match o {
        Some(s) => s@,
        None => Seq::empty(),
    }
}

/// A string field, or `d` when the item lacks it.
pub open spec fn or_default(o: Option<String>, d: Seq<char>) -> Seq<char> {
    match o {
        Some(s) => s@,
        None => d,
    }
}

/// The kinds of operation an item may name.
pub open spec fn is_known_kind(k: Seq<char>) -> bool {
    k == "merge"@ || k == "update"@ || k == "create"@ || k == "prune"@ || k == "confirm"@
}

/// The reason a prune names (stale when it names none or another).
pub open spec fn prune_reason_named(r: Seq<char>) -> PruneReason {
    if r == "contradicted"@ {
        PruneReason::Contradicted
    } else if r == "derivable"@ {
        PruneReason::Derivable
    } else if r == "duplicate"@ {
        PruneReason::Duplicate
    } else if r == "low_confidence"@ {
        PruneReason::LowConfidence
    } else {
        PruneReason::Stale
    }
}

/// The kind built from an item whose kind name is `name`.
pub open spec fn kind_from_raw(k: OperationKind, name: Seq<char>, raw: RawOperation) -> bool {
    if name == "merge"@ {
        k matches OperationKind::Merge { source_entries } && source_entries.deep_view() == match raw.source_entries {
            Some(v) => v.deep_view(),
            None => Seq::empty(),
        }
    } else if name == "update"@ {
        k matches OperationKind::Update { existing_path } && existing_path@ == or_empty(raw.existing_path)
    } else if name == "create"@ {
        k is Create
    } else if name == "prune"@ {
        k == OperationKind::Prune { reason: prune_reason_named(or_default(raw.prune_reason, "stale"@)) }
    } else {
        k matches OperationKind::Confirm { from_confidence, to_confidence } && from_confidence@
            == or_default(raw.from_confidence, "observed"@) && to_confidence@ == or_default(
            raw.to_confidence,
            "verified"@,
        )
    }
}

/// `op` is the operation built from `raw`.
pub open spec fn op_from_raw(op: MemoryOperation, raw: RawOperation) -> bool {
    let name = or_default(raw.kind, "unknown"@);
    &&& is_known_kind(name)
    &&& op.topic@ == or_empty(raw.topic)
    &&& op.subtopic@ == or_empty(raw.subtopic)
    &&& op.content@ == or_empty(raw.content)
    &&& op.reasoning@ == or_empty(raw.reasoning)
    &&& kind_from_raw(op.kind, name, raw)
}

pub(crate) fn field_or_empty(o: &Option<String>) -> (r: String)
    ensures
        r@ == or_empty(*o),
{
    match o {
        Some(s) => copy_str(s.as_str()),
        None => String::new(),
    }
}

pub(crate) fn field_or(o: &Option<String>, d: &str) -> (r: String)
    ensures
        r@ == or_default(*o, d@),
{
    match o {
        Some(s) => copy_str(s.as_str()),
        None => copy_str(d),
    }
}

impl DreamAnalyzer {
    /// One past the index of the last `]` of `t` (0 when there is none).
    fn past_last_bracket(t: &Vec<char>) -> (end: usize)
        ensures
            end as int == last_index_of(t@, ']') + 1,
            end <= t.len(),
    {
        let mut end = t.len();
        assert(t@.take(end as int) =~= t@);
        while end > 0 && t[end - 1] != ']'
            invariant
                end <= t.len(),
                last_index_of(t@, ']') == last_index_of(t@.take(end as int), ']'),
            decreases end,
        {
            proof {
                assert(t@.take(end as int).drop_last() =~= t@.take(end - 1));
            }
            end = end - 1;
        }
        proof {
            if end == 0 {
                assert(t@.take(0) =~= Seq::<char>::empty());
            } else {
                assert(t@.take(end as int).last() == ']');
            }
        }
        end
    }

    /// The kind an item names, built from its fields; `None` for an unknown kind.
    fn kind_of(name: &str, raw: &RawOperation) -> (r: Option<OperationKind>)
        ensures
            match r {
                Some(k) => is_known_kind(name@) && kind_from_raw(k, name@, *raw),
                None => !is_known_kind(name@),
            },
    {
        if str_eq(name, "merge") {
            let sources = match &raw.source_entries {
                Some(v) => copy_strings(v),
                None => {
                    let e: Vec<String> = Vec::new();
                    assert(e.deep_view() =~= Seq::<Seq<char>>::empty());
                    e
                },
            };
            Some(OperationKind::Merge { source_entries: sources })
        } else if str_eq(name, "update") {
            Some(OperationKind::Update { existing_path: field_or_empty(&raw.existing_path) })
        } else if str_eq(name, "create") {
            Some(OperationKind::Create)
        } else if str_eq(name, "prune") {
            let reason_name = field_or(&raw.prune_reason, "stale");
            let rn = reason_name.as_str();
            let reason = if str_eq(rn, "contradicted") {
                PruneReason::Contradicted
            } else if str_eq(rn, "derivable") {
                PruneReason::Derivable
            } else if str_eq(rn, "duplicate") {
                PruneReason::Duplicate
            } else if str_eq(rn, "low_confidence") {
                PruneReason::LowConfidence
            } else {
                PruneReason::Stale
            };
            Some(OperationKind::Prune { reason })
        } else if str_eq(name, "confirm") {
            Some(
                OperationKind::Confirm {
                    from_confidence: field_or(&raw.from_confidence, "observed"),
                    to_confidence: field_or(&raw.to_confidence, "verified"),
                },
            )
        } else {
            None
        }
    }

    /// The trimmed body of the first "```json" block of `t`, if it is closed.
    fn fenced_body(t: &Vec<char>) -> (r: Option<Vec<char>>)
        ensures
            match r {
                Some(b) => contains(t@, json_fence()) && contains(after_fence(t@), code_fence()) && b@
                    == trim(after_fence(t@).take(first_index(after_fence(t@), code_fence()))),
                None => !(contains(t@, json_fence()) && contains(after_fence(t@), code_fence())),
            },
    {
        let fence: Vec<char> = vec!['`', '`', '`', 'j', 's', 'o', 'n'];
        let ticks: Vec<char> = vec!['`', '`', '`'];
        assert(fence@ =~= json_fence());
        assert(ticks@ =~= code_fence());
        match find_vec(t, &fence) {
            Some(start) => {
                proof {
                    crate::memory::index::lemma_first_index(t@, fence@, start as int);
                    assert(crate::text::occurs_at(t@, fence@, start as int));
                    assert(start + 7 <= t.len());
                }
                let after = slice_chars(t, start + 7, t.len());
                assert(after@ =~= after_fence(t@));
                match find_vec(&after, &ticks) {
                    Some(end) => {
                        proof {
                            crate::memory::index::lemma_first_index(after@, ticks@, end as int);
                        }
                        let (x, y) = trim_bounds(&after, 0, end);
                        assert(after@.subrange(0, end as int) =~= after@.take(end as int));
                        Some(slice_chars(&after, x, y))
                    },
                    None => None,
                }
            },
            None => None,
        }
    }

    /// `t` from its first `[` to its last `]`, when it has both.
    fn bracket_span(t: &Vec<char>) -> (r: Option<Vec<char>>)
        requires
            t@.contains('[') && t@.contains(']') ==> first_index(t@, seq!['[']) <= last_index_of(t@, ']') + 1,
        ensures
            match r {
                Some(b) => t@.contains('[') && t@.contains(']') && b@ == t@.subrange(
                    first_index(t@, seq!['[']),
                    last_index_of(t@, ']') + 1,
                ),
                None => !(t@.contains('[') && t@.contains(']')),
            },
    {
        let open: Vec<char> = vec!['['];
        assert(open@ =~= seq!['[']);
        proof {
            lemma_last_index_of(t@, ']');
        }
        match find_vec(t, &open) {
            Some(start) => {
                proof {
                    crate::memory::index::lemma_first_index(t@, open@, start as int);
                    assert(t@[start as int] == open@[0]);
                    assert(t@.contains('['));
                }
                let end = Self::past_last_bracket(t);
                if end > 0 {
                    Some(slice_chars(t, start, end))
                } else {
                    None
                }
            },
            None => {
                proof {
                    if t@.contains('[') {
                        let j = choose|j: int| 0 <= j < t@.len() && t@[j] == '[';
                        assert(t@.subrange(j, j + 1) =~= open@);
                        assert(crate::text::occurs_at(t@, open@, j));
                    }
                }
                None
            },
        }
    }

    /// The JSON array of an LLM reply: the trimmed reply when it starts with
    /// `[`; else the body of its "```json" block; else from its first `[` to
    /// its last `]`; else `[]`.
    pub fn extract_json_array(text: &str) -> (r: String)
        requires
            json_cut_ok(text@),
        ensures
            r@ == json_array_text(text@),
    {
        let v = chars_of(text);
        let (a, b) = trim_bounds(&v, 0, v.len());
        let t = slice_chars(&v, a, b);
        proof {
            assert(v@.subrange(0, v.len() as int) =~= text@);
        }
        let open: Vec<char> = vec!['['];
        assert(open@ =~= seq!['[']);
        if crate::text::starts_with_vec(&t, &open) {
            return string_from_chars(&t);
        }
        match Self::fenced_body(&t) {
            Some(body) => {
                return string_from_chars(&body);
            },
            None => {},
        }
        match Self::bracket_span(&t) {
            Some(span) => string_from_chars(&span),
            None => copy_str("[]"),
        }
    }


    /// The operation an item proposes: a merge, update, creation, prune or
    /// confirmation, with missing fields empty (or at their defaults); `None`
    /// for an item of another kind.
    pub fn operation_from_raw(raw: &RawOperation) -> (r: Option<MemoryOperation>)
        ensures
            match r {
                Some(op) => op_from_raw(op, *raw),
                None => !is_known_kind(or_default(raw.kind, "unknown"@)),
            },
    {
        let name = field_or(&raw.kind, "unknown");
        let kind = match Self::kind_of(name.as_str(), raw) {
            Some(k) => k,
            None => {
                return None;
            },
        };
        Some(
            MemoryOperation {
                kind,
                topic: field_or_empty(&raw.topic),
                subtopic: field_or_empty(&raw.subtopic),
                content: field_or_empty(&raw.content),
                reasoning: field_or_empty(&raw.reasoning),
            },
        )
    }
}

} // verus!
