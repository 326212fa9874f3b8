//! Character-based token estimates.
use vstd::prelude::*;
use crate::text::{chars_of, byte_len, fits, utf8_len};

verus! {

/// Token estimator.
pub struct TokenCounter;

/// The characters that mark text as code.
pub open spec fn is_code_char(c: char) -> bool {
    c == '{' || c == '}' || c == '(' || c == ')' || c == ';' || c == '=' || c == '<' || c == '>'
}

/// How many code characters `s` holds.
pub open spec fn code_char_count(s: Seq<char>) -> nat
    decreases s.len(),
{
    if s.len() == 0 {
        0
    } else {
        code_char_count(s.drop_last()) + if is_code_char(s.last()) {
            1nat
        } else {
            0nat
        }
    }
}

/// The token estimate of a text: empty text has none; text whose code
/// characters are more than 5% of its bytes counts 3.5 bytes per token, other
/// text 4 bytes per token, rounded up.
pub open spec fn estimate_tokens(s: Seq<char>) -> nat {
    let n = utf8_len(s);
    if s.len() == 0 {
        0
    } else if code_char_count(s) * 20 > n {
        (2 * n + 6) / 7
    } else {
        (n + 3) / 4
    }
}

impl TokenCounter {
    /// Estimate tokens for a string with the character-based heuristic.
    pub fn estimate(text: &str) -> (r: usize)
        requires
            fits(text@),
        ensures
            r == estimate_tokens(text@),
    {
        let v = chars_of(text);
        if v.len() == 0 {
            return 0;
        }
        let mut code: usize = 0;
        let mut i: usize = 0;
        while i < v.len()
            invariant
                i <= v.len(),
                v@ == text@,
                code == code_char_count(v@.take(i as int)),
                code <= i,
            decreases v.len() - i,
        {
            let c = v[i];
            assert(v@.take(i + 1).drop_last() =~= v@.take(i as int));
            if c == '{' || c == '}' || c == '(' || c == ')' || c == ';' || c == '=' || c == '<' || c
                == '>' {
                code = code + 1;
            }
            i = i + 1;
        }
        assert(v@.take(v.len() as int) =~= v@);
        let n = byte_len(text) as u128;
        let code = code as u128;
        if code * 20 > n {
            ((2 * n + 6) / 7) as usize
        } else {
            ((n + 3) / 4) as usize
        }
    }

    /// Characters to keep for a token budget (four per token).
    pub fn chars_for_tokens(tokens: usize) -> (r: usize)
        requires
            tokens * 4 <= usize::MAX,
        ensures
            r == tokens * 4,
    {
        tokens * 4
    }

    /// Tokens of a sequence of serialized API messages: four tokens of
    /// overhead per message plus the estimate of its JSON text.
    pub fn estimate_messages(serialized: &Vec<String>) -> (r: usize)
        requires
            forall|k: int| 0 <= k < serialized.len() ==> fits(#[trigger] serialized@[k]@),
            messages_estimate(serialized.deep_view()) <= usize::MAX,
        ensures
            r == messages_estimate(serialized.deep_view()),
    {
        let mut total: usize = 0;
        let mut i: usize = 0;
        while i < serialized.len()
            invariant
                i <= serialized.len(),
                forall|k: int| 0 <= k < serialized.len() ==> fits(#[trigger] serialized@[k]@),
                messages_estimate(serialized.deep_view()) <= usize::MAX,
                total == messages_estimate(serialized.deep_view().take(i as int)),
            decreases serialized.len() - i,
        {
            proof {
                assert(serialized.deep_view().take(i + 1).drop_last() =~= serialized.deep_view().take(i as int));
                lemma_messages_estimate_prefix(serialized.deep_view(), i + 1);
            }
            let t = TokenCounter::estimate(serialized[i].as_str());
            total = total + 4 + t;
            i = i + 1;
        }
        assert(serialized.deep_view().take(i as int) =~= serialized.deep_view());
        total
    }
}

/// Sum over messages of `4 + estimate`.
pub open spec fn messages_estimate(ms: Seq<Seq<char>>) -> nat
    decreases ms.len(),
{
    if ms.len() == 0 {
        0
    } else {
        messages_estimate(ms.drop_last()) + 4 + estimate_tokens(ms.last())
    }
}

/// The estimate of a conversation adds up over its parts: none for no
/// messages, and the estimate of `a` followed by `b` is the sum of theirs.
pub proof fn lemma_messages_estimate_concat(a: Seq<Seq<char>>, b: Seq<Seq<char>>)
    ensures
        messages_estimate(Seq::empty()) == 0,
        messages_estimate(a + b) == messages_estimate(a) + messages_estimate(b),
    decreases b.len(),
{
    if b.len() == 0 {
        assert(a + b =~= a);
    } else {
        lemma_messages_estimate_concat(a, b.drop_last());
        assert((a + b).drop_last() =~= a + b.drop_last());
        assert((a + b).last() == b.last());
    }
}

proof fn lemma_messages_estimate_prefix(ms: Seq<Seq<char>>, k: int)
    requires
        0 <= k <= ms.len(),
    ensures
        messages_estimate(ms.take(k)) <= messages_estimate(ms),
    decreases ms.len() - k,
{
    if k < ms.len() {
        lemma_messages_estimate_prefix(ms, k + 1);
        assert(ms.take(k + 1).drop_last() =~= ms.take(k));
    } else {
        assert(ms.take(k) =~= ms);
    }
}

} // verus!
