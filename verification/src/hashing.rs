//! SHA-256 digests, as used for prompt-cache fingerprints and memory-state hashes.
use vstd::prelude::*;
use sha2::Digest;

verus! {

/// What `Sha256::digest` returns for the given input bytes.
pub uninterp spec fn sha256_of(data: Seq<u8>) -> Seq<u8>;

/// `sha2::Sha256::digest`: the 32-byte SHA-256 digest of `data`.
#[verifier::external_body]
pub(crate) fn sha256(data: &[u8]) -> (d: Vec<u8>)
    ensures
        d@ == sha256_of(data@),
        d@.len() == 32,
{
    sha2::Sha256::digest(data).to_vec()
}

/// Big-endian value of the first eight bytes (`u64::from_be_bytes`).
pub open spec fn be_u64(b: Seq<u8>) -> nat
    decreases b.len(),
{
    if b.len() == 0 {
        0
    } else {
        be_u64(b.drop_last()) * 256 + (b.last() as nat)
    }
}

proof fn lemma_be_u64_bound(b: Seq<u8>)
    ensures
        be_u64(b) < pow256(b.len()),
    decreases b.len(),
{
    if b.len() > 0 {
        lemma_be_u64_bound(b.drop_last());
        assert(be_u64(b) <= (pow256((b.len() - 1) as nat) - 1) * 256 + 255) by (nonlinear_arith)
            requires
                be_u64(b) == be_u64(b.drop_last()) * 256 + b.last(),
                be_u64(b.drop_last()) < pow256((b.len() - 1) as nat),
                b.last() <= 255,
        ;
    }
}

/// `256^n`.
pub open spec fn pow256(n: nat) -> nat
    decreases n,
{
    if n == 0 {
        1
    } else {
        256 * pow256((n - 1) as nat)
    }
}

/// The 64-bit fingerprint of a string: the first eight bytes of the SHA-256
/// digest of its UTF-8 bytes, read big-endian.
pub open spec fn fingerprint(s: Seq<char>) -> nat {
    be_u64(sha256_of(vstd::utf8::encode_utf8(s)).take(8))
}

/// Fingerprint of `s`.
pub fn fingerprint_str(s: &str) -> (h: u64)
    ensures
        h == fingerprint(s@),
{
    let bytes = s.as_bytes();
    let d = sha256(bytes);
    let mut acc: u64 = 0;
    let mut i: usize = 0;
    while i < 8
        invariant
            d@.len() == 32,
            i <= 8,
            acc == be_u64(d@.take(i as int)),
        decreases 8 - i,
    {
        proof {
            lemma_be_u64_bound(d@.take(i as int));
            assert(pow256(i as nat) <= pow256(7)) by {
                lemma_pow256_mono(i as nat, 7);
            }
            assert(pow256(7) == 72057594037927936) by {
                reveal_with_fuel(pow256, 8);
            }
            assert(d@.take(i + 1).drop_last() =~= d@.take(i as int));
        }
        acc = acc * 256 + d[i] as u64;
        i = i + 1;
    }
    acc
}

proof fn lemma_pow256_mono(a: nat, b: nat)
    requires
        a <= b,
    ensures
        pow256(a) <= pow256(b),
    decreases b,
{
    if a < b {
        lemma_pow256_mono(a, (b - 1) as nat);
    }
}

} // verus!
