//! Orders of positions by a key: a sequence of positions listed by key, ties
//! by position, each once, is fixed by the positions it lists.
use vstd::prelude::*;

verus! {

/// `a` comes before `b`: a smaller key, or the same key and a smaller position.
pub open spec fn before(key: spec_fn(int) -> int, a: int, b: int) -> bool {
    key(a) < key(b) || (key(a) == key(b) && a < b)
}

/// Every position of `s` comes before those after it.
pub open spec fn strictly_ordered(key: spec_fn(int) -> int, s: Seq<int>) -> bool {
    forall|k: int, l: int| 0 <= k < l < s.len() ==> before(key, #[trigger] s[k], #[trigger] s[l])
}

/// Two strictly ordered sequences that list the same positions are equal.
pub proof fn lemma_ordered_unique(key: spec_fn(int) -> int, s1: Seq<int>, s2: Seq<int>)
    requires
        strictly_ordered(key, s1),
        strictly_ordered(key, s2),
        forall|x: int| s1.contains(x) <==> s2.contains(x),
    ensures
        s1 == s2,
    decreases s1.len(),
{
    if s1.len() == 0 {
        if s2.len() > 0 {
            assert(s2.contains(s2[0]));
            assert(s1.contains(s2[0]));
        }
        assert(s1 =~= s2);
    } else {
        assert(s1.contains(s1[0]));
        assert(s2.len() > 0);
        let x = s1[0];
        let y = s2[0];
        assert(s2.contains(x));
        assert(s2.contains(y));
        let j = choose|j: int| 0 <= j < s2.len() && s2[j] == x;
        let i = choose|i: int| 0 <= i < s1.len() && s1[i] == y;
        if x != y {
            assert(j > 0 && i > 0);
            assert(before(key, s2[0], s2[j]));
            assert(before(key, s1[0], s1[i]));
            assert(false);
        }
        let t1 = s1.drop_first();
        let t2 = s2.drop_first();
        assert forall|k: int, l: int| 0 <= k < l < t1.len() implies before(key, #[trigger] t1[k], #[trigger] t1[l]) by {
            assert(t1[k] == s1[k + 1] && t1[l] == s1[l + 1]);
        }
        assert forall|k: int, l: int| 0 <= k < l < t2.len() implies before(key, #[trigger] t2[k], #[trigger] t2[l]) by {
            assert(t2[k] == s2[k + 1] && t2[l] == s2[l + 1]);
        }
        assert forall|z: int| t1.contains(z) implies t2.contains(z) by {
            let a = choose|a: int| 0 <= a < t1.len() && t1[a] == z;
            assert(s1[a + 1] == z);
            assert(before(key, s1[0], s1[a + 1]));
            assert(z != x);
            assert(s1.contains(z));
            assert(s2.contains(z));
            let b = choose|b: int| 0 <= b < s2.len() && s2[b] == z;
            assert(b != 0);
            assert(t2[b - 1] == z);
        }
        assert forall|z: int| t2.contains(z) implies t1.contains(z) by {
            let a = choose|a: int| 0 <= a < t2.len() && t2[a] == z;
            assert(s2[a + 1] == z);
            assert(before(key, s2[0], s2[a + 1]));
            assert(z != y);
            assert(s2.contains(z));
            assert(s1.contains(z));
            let b = choose|b: int| 0 <= b < s1.len() && s1[b] == z;
            assert(b != 0);
            assert(t1[b - 1] == z);
        }
        lemma_ordered_unique(key, t1, t2);
        assert(s1 =~= seq![x] + t1);
        assert(s2 =~= seq![y] + t2);
    }
}

} // verus!
