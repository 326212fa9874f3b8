//! Planning a dream: which operations run, and in what order.
//!
//! Duplicates (same topic, subtopic and kind) are dropped, keeping the first;
//! the rest are ordered by priority (conflicts first, creations last, ties in
//! the order given), invalid ones are dropped, and at most the cycle's
//! limit is kept.
use vstd::prelude::*;
use crate::dream::types::{kind_tag, MemoryOperation, OperationKind};
use crate::order::{before, lemma_ordered_unique};
use crate::text::{byte_len, fits, push_str, str_eq, utf8_len, concat2};

verus! {

/// Plans dream cycles.
pub struct DreamPlanner;

/// The priority of a kind: lower runs first.
pub open spec fn priority_of(k: OperationKind) -> nat {
    match k {
        OperationKind::Conflict { .. } => 0,
        OperationKind::Prune { .. } => 1,
        OperationKind::Merge { .. } => 2,
        OperationKind::Update { .. } => 3,
        OperationKind::Confirm { .. } => 4,
        OperationKind::Create => 5,
        OperationKind::ConsolidateTheme { .. } => 6,
        OperationKind::RefineInstructions { .. } => 7,
        OperationKind::HealAgent { .. } => 8,
    }
}

/// The key two operations are duplicates by: `topic/subtopic` and the kind's variant.
pub open spec fn dedup_key(op: MemoryOperation) -> (Seq<char>, nat) {
    (op.topic@ + "/"@ + op.subtopic@, kind_tag(op.kind))
}

/// An operation that may run: topic and subtopic set, and what its kind needs
/// (content of at most 2000 bytes to write, both sides of a conflict).
pub open spec fn is_valid(op: MemoryOperation) -> bool {
    &&& op.topic@.len() > 0
    &&& op.subtopic@.len() > 0
    &&& match op.kind {
        OperationKind::Create | OperationKind::Update { .. } | OperationKind::Merge { .. }
        | OperationKind::Confirm { .. } => op.content@.len() > 0 && utf8_len(op.content@) <= 2000,
        OperationKind::Prune { .. } => true,
        OperationKind::Conflict { existing_data, new_data } => existing_data@.len() > 0
            && new_data@.len() > 0,
        _ => true,
    }
}

/// Operation `i` is the first with its key.
pub open spec fn first_of_key(ops: Seq<MemoryOperation>, i: int) -> bool {
    forall|j: int| 0 <= j < i ==> dedup_key(#[trigger] ops[j]) != dedup_key(ops[i])
}

/// Operation `i` takes part in the plan: first of its key, and valid.
pub open spec fn selected(ops: Seq<MemoryOperation>, i: int) -> bool {
    first_of_key(ops, i) && is_valid(ops[i])
}

/// `order` lists the selected operations by priority, ties in input order.
pub open spec fn is_plan_order(ops: Seq<MemoryOperation>, order: Seq<int>) -> bool {
    &&& forall|k: int| 0 <= k < order.len() ==> 0 <= #[trigger] order[k] < ops.len() && selected(ops, order[k])
    &&& forall|i: int| 0 <= i < ops.len() && #[trigger] selected(ops, i) ==> order.contains(i)
    &&& forall|k: int, l: int|
        0 <= k < l < order.len() ==> priority_of(ops[#[trigger] order[k]].kind) < priority_of(
            ops[#[trigger] order[l]].kind,
        ) || (priority_of(ops[order[k]].kind) == priority_of(ops[order[l]].kind) && order[k]
            < order[l])
}

impl DreamPlanner {
    /// The priority of a kind: conflicts first, then prunes, merges, updates,
    /// confirmations, creations, and the self-optimisation kinds last.
    pub fn priority(kind: &OperationKind) -> (r: u32)
        ensures
            r == priority_of(*kind),
    {
        match kind {
            OperationKind::Conflict { .. } => 0,
            OperationKind::Prune { .. } => 1,
            OperationKind::Merge { .. } => 2,
            OperationKind::Update { .. } => 3,
            OperationKind::Confirm { .. } => 4,
            OperationKind::Create => 5,
            OperationKind::ConsolidateTheme { .. } => 6,
            OperationKind::RefineInstructions { .. } => 7,
            OperationKind::HealAgent { .. } => 8,
        }
    }

    /// Whether an operation may run.
    pub fn validate(op: &MemoryOperation) -> (b: bool)
        requires
            fits(op.content@),
        ensures
            b == is_valid(*op),
    {
        if op.topic.as_str().is_empty() || op.subtopic.as_str().is_empty() {
            return false;
        }
        match &op.kind {
            OperationKind::Create | OperationKind::Update { .. } | OperationKind::Merge { .. }
            | OperationKind::Confirm { .. } => !op.content.as_str().is_empty() && byte_len(
                op.content.as_str(),
            ) <= 2000,
            OperationKind::Prune { .. } => true,
            OperationKind::Conflict { existing_data, new_data } => !existing_data.as_str().is_empty()
                && !new_data.as_str().is_empty(),
            _ => true,
        }
    }

    /// Whether operation `i` is the first with its key.
    fn is_first_of_key(ops: &Vec<MemoryOperation>, i: usize) -> (b: bool)
        requires
            i < ops.len(),
        ensures
            b == first_of_key(ops@, i as int),
    {
        let mut key_i = concat2(ops[i].topic.as_str(), "/");
        push_str(&mut key_i, ops[i].subtopic.as_str());
        let tag_i = ops[i].kind.tag();
        let mut j: usize = 0;
        while j < i
            invariant
                i < ops.len(),
                j <= i,
                key_i@ == dedup_key(ops@[i as int]).0,
                tag_i == dedup_key(ops@[i as int]).1,
                forall|m: int| 0 <= m < j ==> dedup_key(#[trigger] ops@[m]) != dedup_key(ops@[i as int]),
            decreases i - j,
        {
            let mut key_j = concat2(ops[j].topic.as_str(), "/");
            push_str(&mut key_j, ops[j].subtopic.as_str());
            if ops[j].kind.tag() == tag_i && str_eq(key_j.as_str(), key_i.as_str()) {
                return false;
            }
            j = j + 1;
        }
        true
    }

    /// The positions of the operations to run, in the order they run: first of
    /// each key, valid, by priority (ties in input order), at most `max_entries`.
    pub fn plan(operations: &Vec<MemoryOperation>, max_entries: usize) -> (r: Vec<usize>)
        requires
            forall|i: int| 0 <= i < operations.len() ==> fits(#[trigger] operations@[i].content@),
        ensures
            exists|order: Seq<int>|
                is_plan_order(operations@, order) && r@.map_values(|x: usize| x as int) == order.take(
                    if order.len() < max_entries {
                        order.len() as int
                    } else {
                        max_entries as int
                    },
                ),
    {
        let ghost ops = operations@;
        let n = operations.len();
        let mut sel: Vec<bool> = Vec::new();
        let mut pri: Vec<u32> = Vec::new();
        let mut i: usize = 0;
        while i < n
            invariant
                n == operations.len(),
                ops == operations@,
                forall|m: int| 0 <= m < operations.len() ==> fits(#[trigger] operations@[m].content@),
                i <= n,
                sel.len() == i,
                pri.len() == i,
                forall|m: int| 0 <= m < i ==> sel[m] == selected(ops, m) && pri[m] == priority_of(ops[m].kind),
            decreases n - i,
        {
            let first = Self::is_first_of_key(operations, i);
            let valid = Self::validate(&operations[i]);
            let s = first && valid;
            let pr = Self::priority(&operations[i].kind);
            sel.push(s);
            pri.push(pr);
            proof {
                assert(sel[i as int] == selected(ops, i as int));
                assert(pri[i as int] == priority_of(ops[i as int].kind));
            }
            i = i + 1;
        }
        // Bucket by priority, keeping input order within a bucket.
        let mut full: Vec<usize> = Vec::new();
        let mut p: u32 = 0;
        while p <= 8
            invariant
                n == operations.len(),
                ops == operations@,
                sel.len() == n,
                pri.len() == n,
                forall|m: int| 0 <= m < n ==> sel[m] == selected(ops, m) && pri[m] == priority_of(ops[m].kind),
                p <= 9,
                forall|k: int| 0 <= k < full.len() ==> #[trigger] full[k] < n && selected(ops, full[k] as int) && priority_of(ops[full[k] as int].kind) < p,
                forall|m: int| 0 <= m < n && selected(ops, m) && priority_of(ops[m].kind) < p ==> full@.contains(m as usize),
                forall|k: int, l: int|
                    0 <= k < l < full.len() ==> priority_of(ops[#[trigger] full[k] as int].kind) < priority_of(ops[#[trigger] full[l] as int].kind)
                        || (priority_of(ops[full[k] as int].kind) == priority_of(ops[full[l] as int].kind) && full[k] < full[l]),
            decreases 9 - p,
        {
            let ghost start = full.len();
            let mut m: usize = 0;
            while m < n
                invariant
                    n == operations.len(),
                    ops == operations@,
                    sel.len() == n,
                    pri.len() == n,
                    forall|q: int| 0 <= q < n ==> sel[q] == selected(ops, q) && pri[q] == priority_of(ops[q].kind),
                    p <= 8,
                    start <= full.len(),
                    m <= n,
                    forall|k: int| 0 <= k < start ==> #[trigger] full[k] < n && selected(ops, full[k] as int) && priority_of(ops[full[k] as int].kind) < p,
                    forall|k: int| start <= k < full.len() ==> #[trigger] full[k] < m && selected(ops, full[k] as int) && priority_of(ops[full[k] as int].kind) == p,
                    forall|q: int| 0 <= q < n && selected(ops, q) && priority_of(ops[q].kind) < p ==> full@.contains(q as usize),
                    forall|q: int| 0 <= q < m && selected(ops, q) && priority_of(ops[q].kind) == p ==> full@.contains(q as usize),
                    forall|k: int, l: int|
                        0 <= k < l < full.len() ==> priority_of(ops[#[trigger] full[k] as int].kind) < priority_of(ops[#[trigger] full[l] as int].kind)
                            || (priority_of(ops[full[k] as int].kind) == priority_of(ops[full[l] as int].kind) && full[k] < full[l]),
                decreases n - m,
            {
                if sel[m] && pri[m] == p {
                    proof {
                        assert(sel[m as int] == selected(ops, m as int));
                        assert(pri[m as int] == priority_of(ops[m as int].kind));
                        assert(selected(ops, m as int));
                        assert(priority_of(ops[m as int].kind) == p);
                    }
                    let ghost before = full@;
                    full.push(m);
                    proof {
                        assert forall|q: int| 0 <= q < n && selected(ops, q) && (priority_of(ops[q].kind) < p || (q < m && priority_of(ops[q].kind) == p)) implies full@.contains(q as usize) by {
                            let k = choose|k: int| 0 <= k < before.len() && before[k] == q as usize;
                            assert(full@[k] == q as usize);
                        }
                        assert(full@[full.len() - 1] == m);
                        assert forall|k: int, l: int|
                            0 <= k < l < full.len() implies priority_of(ops[#[trigger] full[k] as int].kind) < priority_of(ops[#[trigger] full[l] as int].kind)
                                || (priority_of(ops[full[k] as int].kind) == priority_of(ops[full[l] as int].kind) && full[k] < full[l]) by {
                            if l == full.len() - 1 {
                                assert(full[l] == m);
                                if k >= start {
                                    assert(full[k] == before[k]);
                                } else {
                                    assert(full[k] == before[k]);
                                }
                            } else {
                                assert(full[k] == before[k]);
                                assert(full[l] == before[l]);
                            }
                        }
                    }
                }
                m = m + 1;
            }
            p = p + 1;
        }
        let ghost order = full@.map_values(|x: usize| x as int);
        proof {
            assert forall|q: int| 0 <= q < ops.len() && #[trigger] selected(ops, q) implies order.contains(q) by {
                assert(priority_of(ops[q].kind) <= 8);
                assert(full@.contains(q as usize));
                let k = choose|k: int| 0 <= k < full.len() && full@[k] == q as usize;
                assert(order[k] == q);
            }
            assert forall|k: int, l: int| 0 <= k < l < order.len() implies priority_of(ops[#[trigger] order[k]].kind) < priority_of(
                ops[#[trigger] order[l]].kind,
            ) || (priority_of(ops[order[k]].kind) == priority_of(ops[order[l]].kind) && order[k]
                < order[l]) by {
                assert(order[k] == full[k] as int);
                assert(order[l] == full[l] as int);
            }
            assert(is_plan_order(ops, order));
        }
        let take = if full.len() < max_entries {
            full.len()
        } else {
            max_entries
        };
        let mut r: Vec<usize> = Vec::new();
        let mut k: usize = 0;
        while k < take
            invariant
                take <= full.len(),
                order == full@.map_values(|x: usize| x as int),
                k <= take,
                r@.map_values(|x: usize| x as int) == order.take(k as int),
            decreases take - k,
        {
            let ghost before = r@;
            let x = full[k];
            r.push(x);
            proof {
                assert(order[k as int] == full[k as int] as int);
                assert(r@ =~= before.push(x));
                assert(r@.map_values(|x: usize| x as int) =~= before.map_values(|x: usize| x as int).push(x as int));
                assert(order.take(k + 1) =~= order.take(k as int).push(order[k as int]));
            }
            k = k + 1;
        }
        r
    }
}

/// Which operations may run: every one needs its topic and subtopic; one that
/// writes content (a creation, an update, a merge, a confirmation) needs
/// content, of at most 2000 bytes; a conflict needs both its sides; a prune
/// needs nothing more.
pub proof fn lemma_validity(op: MemoryOperation)
    ensures
        is_valid(op) ==> op.topic@.len() > 0 && op.subtopic@.len() > 0,
        (op.kind is Create || op.kind is Update || op.kind is Merge || op.kind is Confirm) ==> (is_valid(op) <==> (
        op.topic@.len() > 0 && op.subtopic@.len() > 0 && op.content@.len() > 0 && utf8_len(op.content@) <= 2000)),
        op.kind is Prune ==> (is_valid(op) <==> (op.topic@.len() > 0 && op.subtopic@.len() > 0)),
        op.kind is Conflict ==> (is_valid(op) <==> (op.topic@.len() > 0 && op.subtopic@.len() > 0
            && op.kind->existing_data@.len() > 0 && op.kind->new_data@.len() > 0)),
{
}

/// No plan writes empty content: every planned creation, update, merge or
/// confirmation carries content.
pub proof fn lemma_plan_writes_content(ops: Seq<MemoryOperation>, order: Seq<int>)
    requires
        is_plan_order(ops, order),
    ensures
        forall|k: int|
            0 <= k < order.len() && (ops[order[k]].kind is Create || ops[order[k]].kind is Update
                || ops[order[k]].kind is Merge || ops[order[k]].kind is Confirm) ==> (#[trigger] ops[order[k]]).content@.len()
                > 0,
{
    assert forall|k: int|
        0 <= k < order.len() && (ops[order[k]].kind is Create || ops[order[k]].kind is Update
            || ops[order[k]].kind is Merge || ops[order[k]].kind is Confirm) implies (#[trigger] ops[order[k]]).content@.len()
            > 0 by {
        assert(selected(ops, order[k]));
        lemma_validity(ops[order[k]]);
    }
}

/// A plan runs conflicts first, then prunes, merges, updates,
/// confirmations and creations, in that order: an operation of one of these
/// kinds is preceded only by operations of its own kind or of earlier ones.
pub proof fn lemma_plan_kind_order(ops: Seq<MemoryOperation>, order: Seq<int>, k: int, l: int)
    requires
        is_plan_order(ops, order),
        0 <= k < l < order.len(),
    ensures
        ops[order[l]].kind is Conflict ==> ops[order[k]].kind is Conflict,
        ops[order[l]].kind is Prune ==> ops[order[k]].kind is Conflict || ops[order[k]].kind is Prune,
        ops[order[l]].kind is Merge ==> ops[order[k]].kind is Conflict || ops[order[k]].kind is Prune
            || ops[order[k]].kind is Merge,
        ops[order[l]].kind is Update ==> ops[order[k]].kind is Conflict || ops[order[k]].kind is Prune
            || ops[order[k]].kind is Merge || ops[order[k]].kind is Update,
        ops[order[l]].kind is Confirm ==> !(ops[order[k]].kind is Create) && !(ops[order[k]].kind is ConsolidateTheme)
            && !(ops[order[k]].kind is RefineInstructions) && !(ops[order[k]].kind is HealAgent),
        ops[order[l]].kind is Create ==> !(ops[order[k]].kind is ConsolidateTheme)
            && !(ops[order[k]].kind is RefineInstructions) && !(ops[order[k]].kind is HealAgent),
{
    assert(priority_of(ops[order[k]].kind) <= priority_of(ops[order[l]].kind));
}

/// The order of a plan is fixed by the operations: two plan orders of the
/// same operations are the same sequence, so `plan` returns one definite
/// order.
pub proof fn lemma_plan_order_unique(ops: Seq<MemoryOperation>, o1: Seq<int>, o2: Seq<int>)
    requires
        is_plan_order(ops, o1),
        is_plan_order(ops, o2),
    ensures
        o1 == o2,
{
    let key = |i: int| priority_of(ops[i].kind) as int;
    assert forall|k: int, l: int| 0 <= k < l < o1.len() implies before(key, #[trigger] o1[k], #[trigger] o1[l]) by {
        assert(priority_of(ops[o1[k]].kind) < priority_of(ops[o1[l]].kind) || (priority_of(ops[o1[k]].kind)
            == priority_of(ops[o1[l]].kind) && o1[k] < o1[l]));
    }
    assert forall|k: int, l: int| 0 <= k < l < o2.len() implies before(key, #[trigger] o2[k], #[trigger] o2[l]) by {
        assert(priority_of(ops[o2[k]].kind) < priority_of(ops[o2[l]].kind) || (priority_of(ops[o2[k]].kind)
            == priority_of(ops[o2[l]].kind) && o2[k] < o2[l]));
    }
    assert forall|x: int| o1.contains(x) <==> o2.contains(x) by {
        if o1.contains(x) {
            let a = choose|a: int| 0 <= a < o1.len() && o1[a] == x;
            assert(0 <= o1[a] < ops.len() && selected(ops, o1[a]));
        }
        if o2.contains(x) {
            let a = choose|a: int| 0 <= a < o2.len() && o2[a] == x;
            assert(0 <= o2[a] < ops.len() && selected(ops, o2[a]));
        }
    }
    lemma_ordered_unique(key, o1, o2);
}

/// A plan runs each operation at most once, never two with the same topic,
/// subtopic and kind, only valid ones, and in non-decreasing priority.
pub proof fn lemma_plan_is_clean(ops: Seq<MemoryOperation>, order: Seq<int>)
    requires
        is_plan_order(ops, order),
    ensures
        forall|k: int, l: int| 0 <= k < l < order.len() ==> dedup_key(ops[#[trigger] order[k]]) != dedup_key(ops[#[trigger] order[l]]),
        forall|k: int| 0 <= k < order.len() ==> is_valid(ops[#[trigger] order[k]]),
        forall|k: int, l: int| 0 <= k < l < order.len() ==> priority_of(ops[#[trigger] order[k]].kind) <= priority_of(ops[#[trigger] order[l]].kind),
{
    assert forall|k: int, l: int| 0 <= k < l < order.len() implies dedup_key(ops[#[trigger] order[k]]) != dedup_key(ops[#[trigger] order[l]]) by {
        let a = order[k];
        let b = order[l];
        assert(selected(ops, a) && selected(ops, b));
        if a < b {
            assert(first_of_key(ops, b));
            assert(dedup_key(ops[a]) != dedup_key(ops[b]));
        } else if b < a {
            assert(first_of_key(ops, a));
            assert(dedup_key(ops[b]) != dedup_key(ops[a]));
        } else {
            assert(priority_of(ops[a].kind) == priority_of(ops[b].kind));
        }
    }
    assert forall|k: int| 0 <= k < order.len() implies is_valid(ops[#[trigger] order[k]]) by {
        assert(selected(ops, order[k]));
    }
}

} // verus!
