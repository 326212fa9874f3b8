//! Text primitives shared by the memory, context and daemon modules.
//!
//! Strings are modelled by their character sequence (`s@: Seq<char>`); byte
//! lengths are the UTF-8 lengths of those sequences (`utf8_len`).
use vstd::prelude::*;
use vstd::utf8::*;

verus! {

// ---------------------------------------------------------------------------
// Building strings
// ---------------------------------------------------------------------------

/// The characters of `s`, in order.
pub fn chars_of(s: &str) -> (v: Vec<char>)
    ensures
        v@ == s@,
{
    let mut v: Vec<char> = Vec::new();
    for c in it: s.chars()
        invariant
            v@ == it.seq().take(it.index() as int),
            it.seq() == s@,
    {
        v.push(c);
    }
    v
}

/// Appends one character (`String::push`).
#[verifier::external_body]
pub(crate) fn push_char(s: &mut String, c: char)
    ensures
        final(s)@ == old(s)@.push(c),
{
    s.push(c);
}

/// Appends a string slice.
pub fn push_str(s: &mut String, t: &str)
    ensures
        final(s)@ == old(s)@ + t@,
{
    s.append(t);
}

/// A new string holding `v[lo..hi]`.
pub fn string_from_range(v: &Vec<char>, lo: usize, hi: usize) -> (r: String)
    requires
        lo <= hi <= v.len(),
    ensures
        r@ == v@.subrange(lo as int, hi as int),
{
    let mut r = String::new();
    let mut i = lo;
    while i < hi
        invariant
            lo <= i <= hi <= v.len(),
            r@ == v@.subrange(lo as int, i as int),
        decreases hi - i,
    {
        push_char(&mut r, v[i]);
        assert(v@.subrange(lo as int, i + 1) =~= v@.subrange(lo as int, i as int).push(v@[i as int]));
        i = i + 1;
    }
    r
}

/// A new string holding all of `v`.
pub fn string_from_chars(v: &Vec<char>) -> (r: String)
    ensures
        r@ == v@,
{
    let r = string_from_range(v, 0, v.len());
    assert(v@.subrange(0, v.len() as int) =~= v@);
    r
}

/// A copy of `s`.
pub fn copy_str(s: &str) -> (r: String)
    ensures
        r@ == s@,
{
    let mut r = String::new();
    push_str(&mut r, s);
    assert(r@ =~= s@);
    r
}

/// Concatenation of two slices.
pub fn concat2(a: &str, b: &str) -> (r: String)
    ensures
        r@ == a@ + b@,
{
    let mut r = String::new();
    push_str(&mut r, a);
    push_str(&mut r, b);
    assert(r@ =~= a@ + b@);
    r
}

/// Equality of two slices by content.
pub fn str_eq(a: &str, b: &str) -> (r: bool)
    ensures
        r == (a@ == b@),
{
    let x = chars_of(a);
    let y = chars_of(b);
    chars_eq(&x, &y)
}

/// Equality of two character vectors.
pub fn chars_eq(x: &Vec<char>, y: &Vec<char>) -> (r: bool)
    ensures
        r == (x@ == y@),
{
    if x.len() != y.len() {
        return false;
    }
    let mut i: usize = 0;
    while i < x.len()
        invariant
            x.len() == y.len(),
            i <= x.len(),
            forall|j: int| 0 <= j < i ==> x@[j] == y@[j],
        decreases x.len() - i,
    {
        if x[i] != y[i] {
            return false;
        }
        i = i + 1;
    }
    assert(x@ =~= y@);
    true
}

/// A copy of a vector of strings.
pub fn copy_strings(v: &Vec<String>) -> (r: Vec<String>)
    ensures
        r.deep_view() == v.deep_view(),
{
    let mut r: Vec<String> = Vec::new();
    let mut k: usize = 0;
    while k < v.len()
        invariant
            k <= v.len(),
            r.deep_view() == v.deep_view().take(k as int),
        decreases v.len() - k,
    {
        let ghost before = r.deep_view();
        let c = copy_str(v[k].as_str());
        r.push(c);
        proof {
            assert(r.deep_view() =~= before.push(c@));
            assert(v.deep_view().take(k + 1) =~= v.deep_view().take(k as int).push(v[k as int]@));
        }
        k = k + 1;
    }
    assert(v.deep_view().take(k as int) =~= v.deep_view());
    r
}

/// Whether a vector of strings holds `s`.
pub fn strings_contain(v: &Vec<String>, s: &str) -> (b: bool)
    ensures
        b == v.deep_view().contains(s@),
{
    let mut k: usize = 0;
    while k < v.len()
        invariant
            k <= v.len(),
            forall|j: int| 0 <= j < k ==> v.deep_view()[j] != s@,
        decreases v.len() - k,
    {
        if str_eq(v[k].as_str(), s) {
            assert(v.deep_view()[k as int] == s@);
            return true;
        }
        k = k + 1;
    }
    false
}

/// Equality of two vectors of strings by content.
pub fn strings_eq(a: &Vec<String>, b: &Vec<String>) -> (r: bool)
    ensures
        r == (a.deep_view() == b.deep_view()),
{
    if a.len() != b.len() {
        assert(a.deep_view().len() != b.deep_view().len());
        return false;
    }
    let mut k: usize = 0;
    while k < a.len()
        invariant
            a.len() == b.len(),
            k <= a.len(),
            forall|j: int| 0 <= j < k ==> a.deep_view()[j] == b.deep_view()[j],
        decreases a.len() - k,
    {
        if !str_eq(a[k].as_str(), b[k].as_str()) {
            assert(a.deep_view()[k as int] != b.deep_view()[k as int]);
            return false;
        }
        k = k + 1;
    }
    assert(a.deep_view() =~= b.deep_view());
    true
}

// ---------------------------------------------------------------------------
// UTF-8 lengths
// ---------------------------------------------------------------------------

/// Number of bytes of the UTF-8 encoding of `c`.
pub open spec fn char_width(c: char) -> nat {
    if (c as u32) < 0x80 {
        1
    } else if (c as u32) < 0x800 {
        2
    } else if (c as u32) < 0x10000 {
        3
    } else {
        4
    }
}

/// Number of bytes of the UTF-8 encoding of `s` (what `str::len` returns).
pub open spec fn utf8_len(s: Seq<char>) -> nat
    decreases s.len(),
{
    if s.len() == 0 {
        0
    } else {
        utf8_len(s.drop_last()) + char_width(s.last())
    }
}

/// Byte length is additive over concatenation.
pub proof fn lemma_utf8_len_concat(a: Seq<char>, b: Seq<char>)
    ensures
        utf8_len(a + b) == utf8_len(a) + utf8_len(b),
    decreases b.len(),
{
    if b.len() == 0 {
        assert(a + b =~= a);
    } else {
        lemma_utf8_len_concat(a, b.drop_last());
        assert((a + b).drop_last() =~= a + b.drop_last());
        assert((a + b).last() == b.last());
    }
}

/// Byte length of a prefix grows by the width of the next character.
pub proof fn lemma_utf8_len_take_step(s: Seq<char>, k: int)
    requires
        0 <= k < s.len(),
    ensures
        utf8_len(s.take(k + 1)) == utf8_len(s.take(k)) + char_width(s[k]),
{
    assert(s.take(k + 1).drop_last() =~= s.take(k));
}

/// Byte lengths of prefixes are monotone.
pub proof fn lemma_utf8_len_take_mono(s: Seq<char>, j: int, k: int)
    requires
        0 <= j <= k <= s.len(),
    ensures
        utf8_len(s.take(j)) + (k - j) <= utf8_len(s.take(k)),
        utf8_len(s.take(k)) <= utf8_len(s.take(j)) + 4 * (k - j),
    decreases k - j,
{
    if j < k {
        lemma_utf8_len_take_mono(s, j, k - 1);
        lemma_utf8_len_take_step(s, k - 1);
    }
}

/// At least one and at most four bytes per character.
pub proof fn lemma_utf8_len_bounds(s: Seq<char>)
    ensures
        s.len() <= utf8_len(s) <= 4 * s.len(),
    decreases s.len(),
{
    if s.len() > 0 {
        lemma_utf8_len_bounds(s.drop_last());
    }
}

proof fn lemma_encode_len_first(s: Seq<char>)
    ensures
        encode_utf8(s).len() == utf8_len(s),
    decreases s.len(),
{
    if s.len() > 0 {
        lemma_encode_len_first(s.drop_first());
        let c = s[0];
        assert(is_scalar(c as u32)) by {
            char_is_scalar(c);
        }
        assert(encode_scalar(c as u32).len() == char_width(c));
        assert(encode_utf8(s) == encode_scalar(s[0] as u32) + encode_utf8(s.drop_first()));
        assert(s =~= seq![c] + s.drop_first());
        lemma_utf8_len_concat(seq![c], s.drop_first());
        assert(seq![c].drop_last() =~= Seq::<char>::empty());
        assert(utf8_len(seq![c]) == utf8_len(Seq::<char>::empty()) + char_width(c));
    }
}

/// Width of one character, computed.
pub fn char_width_exec(c: char) -> (w: usize)
    ensures
        w == char_width(c),
{
    let u = c as u32;
    if u < 0x80 {
        1
    } else if u < 0x800 {
        2
    } else if u < 0x10000 {
        3
    } else {
        4
    }
}

/// Byte length of `s` (`str::len`).
pub fn byte_len(s: &str) -> (n: usize)
    requires
        utf8_len(s@) <= usize::MAX,
    ensures
        n == utf8_len(s@),
{
    proof {
        lemma_encode_len_first(s@);
    }
    s.len()
}

/// `n` falls on a character boundary of `s` (slicing there does not panic).
pub open spec fn is_boundary(s: Seq<char>, n: int) -> bool {
    exists|k: int| 0 <= k <= s.len() && #[trigger] utf8_len(s.take(k)) == n
}

/// The number of characters in the first `n` bytes of `s`.
pub open spec fn chars_in_bytes(s: Seq<char>, n: int) -> int {
    choose|k: int| 0 <= k <= s.len() && #[trigger] utf8_len(s.take(k)) == n
}

/// The leading `n` bytes of `s` (what `&s[..n]` holds).
pub open spec fn byte_prefix(s: Seq<char>, n: int) -> Seq<char> {
    s.take(chars_in_bytes(s, n))
}

/// A byte count reached by a prefix is reached by that prefix only.
pub proof fn lemma_byte_prefix_unique(s: Seq<char>, n: int, k: int)
    requires
        0 <= k <= s.len(),
        utf8_len(s.take(k)) == n,
    ensures
        chars_in_bytes(s, n) == k,
        byte_prefix(s, n) == s.take(k),
{
    let j = chars_in_bytes(s, n);
    assert(0 <= j <= s.len() && utf8_len(s.take(j)) == n);
    if j < k {
        lemma_utf8_len_take_mono(s, j, k);
    }
    if k < j {
        lemma_utf8_len_take_mono(s, k, j);
    }
}

/// The leading `n` bytes of `s` (`&s[..n]`), for `n` on a character boundary.
pub fn prefix_bytes(s: &str, n: usize) -> (r: String)
    requires
        is_boundary(s@, n as int),
    ensures
        utf8_len(r@) == n,
        r@ == s@.take(r@.len() as int),
        r@.len() <= s@.len(),
        r@ == byte_prefix(s@, n as int),
{
    let v = chars_of(s);
    let ghost kk = choose|k: int| 0 <= k <= s@.len() && #[trigger] utf8_len(s@.take(k)) == n;
    let mut acc: usize = 0;
    let mut i: usize = 0;
    while acc < n
        invariant
            v@ == s@,
            0 <= kk <= v.len(),
            utf8_len(v@.take(kk)) == n,
            i <= kk,
            acc == utf8_len(v@.take(i as int)),
            acc <= n,
        decreases kk - i,
    {
        proof {
            if i == kk {
                assert(false);
            }
            lemma_utf8_len_take_step(v@, i as int);
            lemma_utf8_len_take_mono(v@, i + 1, kk);
        }
        acc = acc + char_width_exec(v[i]);
        i = i + 1;
    }
    proof {
        if i < kk {
            lemma_utf8_len_take_mono(v@, i as int + 1, kk);
            lemma_utf8_len_take_step(v@, i as int);
        }
    }
    let r = string_from_range(&v, 0, i);
    assert(v@.subrange(0, i as int) =~= s@.take(i as int));
    proof {
        lemma_byte_prefix_unique(s@, n as int, i as int);
    }
    r
}


/// The string fits the machine: its byte length is a `usize`.
pub open spec fn fits(s: Seq<char>) -> bool {
    utf8_len(s) <= usize::MAX
}

/// `truncate(s, max)`: `s` when it has at most `max` bytes, else its first
/// `max - 3` bytes followed by "...".
pub open spec fn truncated(s: Seq<char>, max: nat) -> Seq<char> {
    if utf8_len(s) <= max {
        s
    } else {
        byte_prefix(s, max - 3) + "..."@
    }
}

/// Truncating `s` at `max` bytes does not panic: when it is cut, the cut
/// falls on a character boundary and `max` leaves room for "...".
pub open spec fn can_truncate(s: Seq<char>, max: nat) -> bool {
    fits(s) && (utf8_len(s) > max ==> max >= 3 && is_boundary(s, max - 3))
}

/// Cuts `s` to at most `max` bytes, marking the cut with "...".
pub fn truncate_ellipsis(s: &str, max: usize) -> (r: String)
    requires
        can_truncate(s@, max as nat),
    ensures
        r@ == truncated(s@, max as nat),
        utf8_len(r@) <= max || utf8_len(s@) <= max,
{
    if byte_len(s) <= max {
        copy_str(s)
    } else {
        let mut r = prefix_bytes(s, max - 3);
        push_str(&mut r, "...");
        proof {
            reveal_strlit("...");
            lemma_utf8_len_concat(byte_prefix(s@, max - 3), "..."@);
            assert(utf8_len("..."@) == 3) by {
                reveal_with_fuel(utf8_len, 4);
            }
        }
        r
    }
}

/// The byte length of `v`, when it fits the machine.
pub fn utf8_len_checked(v: &Vec<char>) -> (r: Option<usize>)
    ensures
        match r {
            Some(n) => fits(v@) && n == utf8_len(v@),
            None => !fits(v@),
        },
{
    let mut acc: usize = 0;
    let mut i: usize = 0;
    while i < v.len()
        invariant
            i <= v.len(),
            acc == utf8_len(v@.take(i as int)),
        decreases v.len() - i,
    {
        proof {
            lemma_utf8_len_take_step(v@, i as int);
        }
        let w = char_width_exec(v[i]);
        if acc > usize::MAX - w {
            proof {
                lemma_utf8_len_take_mono(v@, i + 1, v.len() as int);
                assert(v@.take(v.len() as int) =~= v@);
            }
            return None;
        }
        acc = acc + w;
        i = i + 1;
    }
    assert(v@.take(v.len() as int) =~= v@);
    Some(acc)
}

/// Whether `n` falls on a character boundary of `v`.
pub fn boundary_at(v: &Vec<char>, n: usize) -> (b: bool)
    requires
        fits(v@),
    ensures
        b == is_boundary(v@, n as int),
{
    let mut acc: usize = 0;
    let mut i: usize = 0;
    proof {
        assert(v@.take(v.len() as int) =~= v@);
    }
    while i < v.len() && acc < n
        invariant
            i <= v.len(),
            fits(v@),
            acc == utf8_len(v@.take(i as int)),
            forall|k: int| 0 <= k < i ==> #[trigger] utf8_len(v@.take(k)) < n,
        decreases v.len() - i,
    {
        proof {
            lemma_utf8_len_take_step(v@, i as int);
            lemma_utf8_len_take_mono(v@, i + 1, v.len() as int);
            assert(v@.take(v.len() as int) =~= v@);
        }
        acc = acc + char_width_exec(v[i]);
        i = i + 1;
    }
    if acc == n {
        assert(utf8_len(v@.take(i as int)) == n);
        true
    } else {
        assert forall|k: int| 0 <= k <= v.len() implies #[trigger] utf8_len(v@.take(k)) != n by {
            if k > i {
                lemma_utf8_len_take_mono(v@, i as int, k);
            }
        }
        false
    }
}

/// Whether cutting `v` to `max` bytes with `truncate_ellipsis` is safe.
pub fn can_truncate_chars(v: &Vec<char>, max: usize) -> (b: bool)
    ensures
        b == can_truncate(v@, max as nat),
{
    match utf8_len_checked(v) {
        None => false,
        Some(n) => n <= max || (max >= 3 && boundary_at(v, max - 3)),
    }
}

// ---------------------------------------------------------------------------
// Whitespace and trimming
// ---------------------------------------------------------------------------

/// Unicode `White_Space` (what `char::is_whitespace` tests).
pub open spec fn is_ws(c: char) -> bool {
    let u = c as u32;
    (0x09 <= u && u <= 0x0D) || u == 0x20 || u == 0x85 || u == 0xA0 || u == 0x1680 || (0x2000
        <= u && u <= 0x200A) || u == 0x2028 || u == 0x2029 || u == 0x202F || u == 0x205F || u
        == 0x3000
}

/// Whitespace test.
pub fn is_ws_exec(c: char) -> (b: bool)
    ensures
        b == is_ws(c),
{
    let u = c as u32;
    (0x09 <= u && u <= 0x0D) || u == 0x20 || u == 0x85 || u == 0xA0 || u == 0x1680 || (0x2000
        <= u && u <= 0x200A) || u == 0x2028 || u == 0x2029 || u == 0x202F || u == 0x205F || u
        == 0x3000
}

/// Index of the first non-whitespace character at or after `i` (or `s.len()`).
pub open spec fn skip_ws(s: Seq<char>, i: int) -> int
    decreases s.len() - i,
{
    if i >= s.len() || i < 0 {
        s.len() as int
    } else if !is_ws(s[i]) {
        i
    } else {
        skip_ws(s, i + 1)
    }
}

/// One past the last non-whitespace character before `j` (or 0).
pub open spec fn back_ws(s: Seq<char>, j: int) -> int
    decreases j,
{
    if j <= 0 || j > s.len() {
        0
    } else if !is_ws(s[j - 1]) {
        j
    } else {
        back_ws(s, j - 1)
    }
}

/// `str::trim`.
pub open spec fn trim(s: Seq<char>) -> Seq<char> {
    let a = skip_ws(s, 0);
    let b = back_ws(s, s.len() as int);
    if a >= b {
        Seq::empty()
    } else {
        s.subrange(a, b)
    }
}

pub proof fn lemma_skip_ws_range(s: Seq<char>, i: int)
    requires
        0 <= i <= s.len(),
    ensures
        i <= skip_ws(s, i) <= s.len(),
        skip_ws(s, i) < s.len() ==> !is_ws(s[skip_ws(s, i)]),
        forall|k: int| i <= k < skip_ws(s, i) ==> is_ws(#[trigger] s[k]),
    decreases s.len() - i,
{
    if i < s.len() && is_ws(s[i]) {
        lemma_skip_ws_range(s, i + 1);
    }
}

pub proof fn lemma_back_ws_range(s: Seq<char>, j: int)
    requires
        0 <= j <= s.len(),
    ensures
        0 <= back_ws(s, j) <= j,
        back_ws(s, j) > 0 ==> !is_ws(s[back_ws(s, j) - 1]),
        forall|k: int| back_ws(s, j) <= k < j ==> is_ws(#[trigger] s[k]),
    decreases j,
{
    if j > 0 && is_ws(s[j - 1]) {
        lemma_back_ws_range(s, j - 1);
    }
}

/// Bounds `[a, b)` of `trim(v[lo..hi])` inside `v`.
pub fn trim_bounds(v: &Vec<char>, lo: usize, hi: usize) -> (r: (usize, usize))
    requires
        lo <= hi <= v.len(),
    ensures
        lo <= r.0 <= r.1 <= hi,
        v@.subrange(r.0 as int, r.1 as int) == trim(v@.subrange(lo as int, hi as int)),
{
    let ghost s = v@.subrange(lo as int, hi as int);
    let mut a = lo;
    while a < hi && is_ws_exec(v[a])
        invariant
            lo <= a <= hi <= v.len(),
            s == v@.subrange(lo as int, hi as int),
            skip_ws(s, (a - lo) as int) == skip_ws(s, 0),
        decreases hi - a,
    {
        a = a + 1;
    }
    let mut b = hi;
    while b > a && is_ws_exec(v[b - 1])
        invariant
            lo <= a <= b <= hi <= v.len(),
            s == v@.subrange(lo as int, hi as int),
            skip_ws(s, 0) == (a - lo) as int || a == hi,
            skip_ws(s, 0) == (a - lo) as int,
            back_ws(s, (b - lo) as int) == back_ws(s, s.len() as int),
        decreases b - a,
    {
        b = b - 1;
    }
    proof {
        lemma_back_ws_range(s, (b - lo) as int);
        if b > a {
            assert(!is_ws(s[(b - lo) - 1]));
            assert(back_ws(s, (b - lo) as int) == (b - lo) as int);
        } else {
            lemma_skip_ws_range(s, 0);
            lemma_back_ws_range(s, s.len() as int);
        }
    }
    if a >= b {
        proof {
            assert(v@.subrange(a as int, a as int) =~= Seq::<char>::empty());
        }
        (a, a)
    } else {
        assert(v@.subrange(a as int, b as int) =~= s.subrange((a - lo) as int, (b - lo) as int));
        (a, b)
    }
}

/// `s.trim()` as a new string.
pub fn trim_str(s: &str) -> (r: String)
    ensures
        r@ == trim(s@),
{
    let v = chars_of(s);
    let (a, b) = trim_bounds(&v, 0, v.len());
    assert(v@.subrange(0, v.len() as int) =~= s@);
    string_from_range(&v, a, b)
}

/// What `trim` leaves: nothing, or a slice that neither starts nor ends with
/// whitespace and adds no character.
pub proof fn lemma_trim_props(s: Seq<char>)
    ensures
        trim(s).len() > 0 ==> !is_ws(trim(s)[0]) && !is_ws(trim(s).last()),
        forall|c: char| #[trigger] trim(s).contains(c) ==> s.contains(c),
{
    lemma_skip_ws_range(s, 0);
    lemma_back_ws_range(s, s.len() as int);
    let a = skip_ws(s, 0);
    let b = back_ws(s, s.len() as int);
    if a < b {
        let t = s.subrange(a, b);
        assert(t[0] == s[a]);
        assert(t.last() == s[b - 1]);
        assert forall|c: char| #[trigger] t.contains(c) implies s.contains(c) by {
            let j = choose|j: int| 0 <= j < t.len() && t[j] == c;
            assert(s[a + j] == c);
        }
    } else {
        assert forall|c: char| #[trigger] trim(s).contains(c) implies s.contains(c) by {
            assert(trim(s) =~= Seq::<char>::empty());
        }
    }
}

/// Trimming never adds bytes.
pub proof fn lemma_trim_len(s: Seq<char>)
    ensures
        utf8_len(trim(s)) <= utf8_len(s),
{
    lemma_skip_ws_range(s, 0);
    lemma_back_ws_range(s, s.len() as int);
    let a = skip_ws(s, 0);
    let b = back_ws(s, s.len() as int);
    if a < b {
        let t = s.subrange(a, b);
        assert(s.take(b) =~= s.take(a) + t);
        lemma_utf8_len_concat(s.take(a), t);
        lemma_utf8_len_take_mono(s, b, s.len() as int);
        assert(s.take(s.len() as int) =~= s);
    } else {
        assert(trim(s) =~= Seq::<char>::empty());
        assert(utf8_len(Seq::<char>::empty()) == 0);
    }
}

/// A string that neither starts nor ends with whitespace is its own trim.
pub proof fn lemma_trim_id(s: Seq<char>)
    requires
        s.len() == 0 || (!is_ws(s[0]) && !is_ws(s.last())),
    ensures
        trim(s) == s,
{
    if s.len() > 0 {
        assert(skip_ws(s, 0) == 0);
        assert(back_ws(s, s.len() as int) == s.len());
        assert(s.subrange(0, s.len() as int) =~= s);
    } else {
        assert(trim(s) =~= s);
    }
}

/// Trimming twice is trimming once.
pub proof fn lemma_trim_idem(s: Seq<char>)
    ensures
        trim(trim(s)) == trim(s),
{
    lemma_trim_props(s);
    lemma_trim_id(trim(s));
}

// ---------------------------------------------------------------------------
// Prefixes, suffixes and search
// ---------------------------------------------------------------------------

/// `s.starts_with(p)`.
pub open spec fn starts_with(s: Seq<char>, p: Seq<char>) -> bool {
    p.len() <= s.len() && s.take(p.len() as int) == p
}

/// `s.ends_with(p)`.
pub open spec fn ends_with(s: Seq<char>, p: Seq<char>) -> bool {
    p.len() <= s.len() && s.skip(s.len() - p.len()) == p
}

/// `p` occurs in `s` at index `i`.
pub open spec fn occurs_at(s: Seq<char>, p: Seq<char>, i: int) -> bool {
    0 <= i && i + p.len() <= s.len() && s.subrange(i, i + p.len()) == p
}

/// `s.contains(p)`.
pub open spec fn contains(s: Seq<char>, p: Seq<char>) -> bool {
    exists|i: int| #[trigger] occurs_at(s, p, i)
}

/// `s.find(p)`: the first index where `p` occurs.
pub open spec fn is_first_occurrence(s: Seq<char>, p: Seq<char>, i: int) -> bool {
    occurs_at(s, p, i) && forall|j: int| 0 <= j < i ==> !#[trigger] occurs_at(s, p, j)
}

/// `v[lo..hi]` starts with `p` at index `at` (i.e. `p` occurs at `at`, within `hi`).
pub fn matches_at(v: &Vec<char>, at: usize, hi: usize, p: &Vec<char>) -> (b: bool)
    requires
        hi <= v.len(),
    ensures
        b == (at as int + p.len() <= hi && occurs_at(v@.subrange(0, hi as int), p@, at as int)),
{
    if p.len() > hi || at > hi - p.len() {
        return false;
    }
    let mut k: usize = 0;
    while k < p.len()
        invariant
            at + p.len() <= hi <= v.len(),
            k <= p.len(),
            forall|j: int| 0 <= j < k ==> v@[at + j] == p@[j],
        decreases p.len() - k,
    {
        if v[at + k] != p[k] {
            assert(v@.subrange(0, hi as int).subrange(at as int, at + p.len())[k as int] != p@[k as int]);
            return false;
        }
        k = k + 1;
    }
    assert(v@.subrange(0, hi as int).subrange(at as int, at + p.len()) =~= p@);
    true
}

/// First occurrence of `p` in `v[lo..hi]`, searching from `lo`; the index is into `v`.
pub fn find_in(v: &Vec<char>, lo: usize, hi: usize, p: &Vec<char>) -> (r: Option<usize>)
    requires
        lo <= hi <= v.len(),
    ensures
        match r {
            Some(i) => lo <= i && is_first_occurrence(
                v@.subrange(lo as int, hi as int),
                p@,
                i - lo,
            ),
            None => !contains(v@.subrange(lo as int, hi as int), p@),
        },
{
    let ghost s = v@.subrange(lo as int, hi as int);
    let mut i = lo;
    while i <= hi
        invariant
            lo <= i <= hi + 1,
            hi <= v.len(),
            s == v@.subrange(lo as int, hi as int),
            forall|j: int| 0 <= j < i - lo ==> !#[trigger] occurs_at(s, p@, j),
        decreases hi + 1 - i,
    {
        let m = matches_at(v, i, hi, p);
        proof {
            let j = i - lo;
            if i + p.len() <= hi {
                assert(v@.subrange(0, hi as int).subrange(i as int, i + p.len()) =~= s.subrange(j, j + p.len()));
            }
        }
        if m {
            return Some(i);
        }
        assert(!occurs_at(s, p@, i - lo));
        if i == hi {
            proof {
                assert forall|j: int| !#[trigger] occurs_at(s, p@, j) by {
                    if occurs_at(s, p@, j) {
                        assert(j <= i - lo);
                    }
                }
            }
            return None;
        }
        i = i + 1;
    }
    None
}


/// `v[lo..hi]` as a new vector.
pub fn slice_chars(v: &Vec<char>, lo: usize, hi: usize) -> (r: Vec<char>)
    requires
        lo <= hi <= v.len(),
    ensures
        r@ == v@.subrange(lo as int, hi as int),
{
    let mut r: Vec<char> = Vec::new();
    let mut i = lo;
    while i < hi
        invariant
            lo <= i <= hi <= v.len(),
            r@ == v@.subrange(lo as int, i as int),
        decreases hi - i,
    {
        r.push(v[i]);
        assert(v@.subrange(lo as int, i + 1) =~= v@.subrange(lo as int, i as int).push(v@[i as int]));
        i = i + 1;
    }
    r
}

/// `v.starts_with(p)`.
pub fn starts_with_vec(v: &Vec<char>, p: &Vec<char>) -> (b: bool)
    ensures
        b == starts_with(v@, p@),
{
    let m = matches_at(v, 0, v.len(), p);
    proof {
        assert(v@.subrange(0, v.len() as int) =~= v@);
        if p.len() <= v.len() {
            assert(v@.subrange(0, p.len() as int) =~= v@.take(p.len() as int));
        }
    }
    m
}

/// `v.ends_with(p)`.
pub fn ends_with_vec(v: &Vec<char>, p: &Vec<char>) -> (b: bool)
    ensures
        b == ends_with(v@, p@),
{
    if p.len() > v.len() {
        return false;
    }
    let m = matches_at(v, v.len() - p.len(), v.len(), p);
    proof {
        assert(v@.subrange(0, v.len() as int) =~= v@);
        assert(v@.subrange(v.len() - p.len(), v.len() as int) =~= v@.skip(v.len() - p.len()));
    }
    m
}

/// `v.find(p)`, as a character index.
pub fn find_vec(v: &Vec<char>, p: &Vec<char>) -> (r: Option<usize>)
    ensures
        match r {
            Some(i) => is_first_occurrence(v@, p@, i as int),
            None => !contains(v@, p@),
        },
{
    let r = find_in(v, 0, v.len(), p);
    assert(v@.subrange(0, v.len() as int) =~= v@);
    r
}

/// `v.contains(p)`.
pub fn contains_vec(v: &Vec<char>, p: &Vec<char>) -> (b: bool)
    ensures
        b == contains(v@, p@),
{
    match find_vec(v, p) {
        Some(_) => true,
        None => false,
    }
}

/// `v.contains(c)` for one character.
pub fn has_char(v: &Vec<char>, c: char) -> (b: bool)
    ensures
        b == v@.contains(c),
{
    let mut i: usize = 0;
    while i < v.len()
        invariant
            i <= v.len(),
            forall|j: int| 0 <= j < i ==> v@[j] != c,
        decreases v.len() - i,
    {
        if v[i] == c {
            return true;
        }
        i = i + 1;
    }
    false
}

// ---------------------------------------------------------------------------
// Ordering of strings
// ---------------------------------------------------------------------------

/// `a < b` for strings: lexicographic by code point (the order of `String`'s `Ord`,
/// which compares UTF-8 bytes, and UTF-8 preserves code-point order).
pub open spec fn seq_lt(a: Seq<char>, b: Seq<char>) -> bool
    decreases a.len(),
{
    if b.len() == 0 {
        false
    } else if a.len() == 0 {
        true
    } else if (a[0] as u32) < (b[0] as u32) {
        true
    } else if a[0] == b[0] {
        seq_lt(a.drop_first(), b.drop_first())
    } else {
        false
    }
}

pub proof fn lemma_seq_lt_irrefl(a: Seq<char>)
    ensures
        !seq_lt(a, a),
    decreases a.len(),
{
    if a.len() > 0 {
        lemma_seq_lt_irrefl(a.drop_first());
    }
}

pub proof fn lemma_seq_lt_trans(a: Seq<char>, b: Seq<char>, c: Seq<char>)
    requires
        seq_lt(a, b),
        seq_lt(b, c),
    ensures
        seq_lt(a, c),
    decreases a.len(),
{
    if a.len() > 0 && b.len() > 0 && c.len() > 0 && a[0] == b[0] && b[0] == c[0] {
        lemma_seq_lt_trans(a.drop_first(), b.drop_first(), c.drop_first());
    }
}

pub proof fn lemma_seq_lt_total(a: Seq<char>, b: Seq<char>)
    ensures
        a == b || seq_lt(a, b) || seq_lt(b, a),
    decreases a.len(),
{
    if a.len() > 0 && b.len() > 0 && a[0] == b[0] {
        lemma_seq_lt_total(a.drop_first(), b.drop_first());
        if a.drop_first() == b.drop_first() {
            assert(a =~= seq![a[0]] + a.drop_first());
            assert(b =~= seq![b[0]] + b.drop_first());
        }
    } else if a.len() > 0 && b.len() > 0 && a[0] != b[0] {
        char_u32_cast(a[0], a[0] as u32);
        char_u32_cast(b[0], b[0] as u32);
        assert((a[0] as u32) != (b[0] as u32));
    } else if a.len() == 0 && b.len() == 0 {
        assert(a =~= b);
    }
}

/// `a < b` for character vectors, lexicographically.
pub fn chars_lt(a: &Vec<char>, b: &Vec<char>) -> (r: bool)
    ensures
        r == seq_lt(a@, b@),
{
    let mut i: usize = 0;
    proof {
        assert(a@.skip(0) =~= a@);
        assert(b@.skip(0) =~= b@);
    }
    while i < a.len() && i < b.len()
        invariant
            i <= a.len(),
            i <= b.len(),
            seq_lt(a@, b@) == seq_lt(a@.skip(i as int), b@.skip(i as int)),
        decreases a.len() - i,
    {
        let x = a[i];
        let y = b[i];
        assert(a@.skip(i as int)[0] == x);
        assert(b@.skip(i as int)[0] == y);
        if x != y {
            return (x as u32) < (y as u32);
        }
        proof {
            assert(a@.skip(i as int).drop_first() =~= a@.skip(i + 1));
            assert(b@.skip(i as int).drop_first() =~= b@.skip(i + 1));
        }
        i = i + 1;
    }
    i == a.len() && i < b.len()
}

/// The strings of `s` are in strictly increasing order (so none occurs twice).
pub open spec fn strictly_sorted(s: Seq<Seq<char>>) -> bool {
    forall|i: int, j: int| 0 <= i < j < s.len() ==> seq_lt(#[trigger] s[i], #[trigger] s[j])
}

/// `a < b`, lexicographically.
pub fn string_lt(a: &String, b: &Vec<char>) -> (r: bool)
    ensures
        r == seq_lt(a@, b@),
{
    let av = chars_of(a.as_str());
    chars_lt(&av, b)
}

/// Inserts `x` into the sorted vector `v`, unless it is there already.
pub fn insert_sorted(v: &mut Vec<String>, x: String)
    requires
        strictly_sorted(old(v).deep_view()),
    ensures
        strictly_sorted(final(v).deep_view()),
        final(v).deep_view().to_set() == old(v).deep_view().to_set().insert(x@),
{
    let ghost s0 = v.deep_view();
    let xv = chars_of(x.as_str());
    let mut i: usize = 0;
    while i < v.len() && string_lt(&v[i], &xv)
        invariant
            v.deep_view() == s0,
            xv@ == x@,
            i <= v.len(),
            forall|j: int| 0 <= j < i ==> seq_lt(#[trigger] s0[j], x@),
        decreases v.len() - i,
    {
        i = i + 1;
    }
    if i < v.len() {
        let yv = chars_of(v[i].as_str());
        assert(yv@ == s0[i as int]);
        if chars_eq(&yv, &xv) {
            proof {
                assert(s0.to_set().insert(x@) =~= s0.to_set()) by {
                    assert(s0.to_set().contains(s0[i as int]));
                }
            }
            return;
        }
        proof {
            lemma_seq_lt_total(s0[i as int], x@);
        }
    }
    proof {
        assert forall|j: int| i <= j < s0.len() implies seq_lt(x@, #[trigger] s0[j]) by {
            if j > i {
                lemma_seq_lt_trans(x@, s0[i as int], s0[j]);
            }
        }
    }
    v.insert(i, x);
    proof {
        let s1 = v.deep_view();
        assert(s1 =~= s0.insert(i as int, x@));
        assert forall|a: int, b: int| 0 <= a < b < s1.len() implies seq_lt(
            #[trigger] s1[a],
            #[trigger] s1[b],
        ) by {
            if b < i {
            } else if b == i {
            } else if a < i {
                assert(s1[b] == s0[b - 1]);
                lemma_seq_lt_trans(s0[a], x@, s0[b - 1]);
            } else if a == i {
                assert(s1[b] == s0[b - 1]);
            } else {
                assert(s1[a] == s0[a - 1]);
                assert(s1[b] == s0[b - 1]);
            }
        }
        assert(s1.to_set() =~= s0.to_set().insert(x@)) by {
            assert forall|y: Seq<char>| s1.to_set().contains(y) implies s0.to_set().insert(
                x@,
            ).contains(y) by {
                let k = choose|k: int| 0 <= k < s1.len() && s1[k] == y;
                if k < i {
                    assert(s0[k] == y);
                } else if k > i {
                    assert(s0[k - 1] == y);
                }
            }
            assert forall|y: Seq<char>| s0.to_set().insert(x@).contains(y) implies s1.to_set(
            ).contains(y) by {
                if y == x@ {
                    assert(s1[i as int] == y);
                } else {
                    let k = choose|k: int| 0 <= k < s0.len() && s0[k] == y;
                    if k < i {
                        assert(s1[k] == y);
                    } else {
                        assert(s1[k + 1] == y);
                    }
                }
            }
        }
    }
}

// ---------------------------------------------------------------------------
// Lines
// ---------------------------------------------------------------------------

/// Index of the first `'\n'` at or after `i` (or `s.len()`).
pub open spec fn line_end(s: Seq<char>, i: int) -> int
    decreases s.len() - i,
{
    if i >= s.len() || i < 0 {
        s.len() as int
    } else if s[i] == '\n' {
        i
    } else {
        line_end(s, i + 1)
    }
}

pub proof fn lemma_line_end(s: Seq<char>, i: int)
    requires
        0 <= i <= s.len(),
    ensures
        i <= line_end(s, i) <= s.len(),
        line_end(s, i) < s.len() ==> s[line_end(s, i)] == '\n',
        forall|k: int| i <= k < line_end(s, i) ==> s[k] != '\n',
    decreases s.len() - i,
{
    if i < s.len() && s[i] != '\n' {
        lemma_line_end(s, i + 1);
    }
}

/// A segment without its `'\r'`, when the segment was ended by `'\n'`.
pub open spec fn strip_cr(seg: Seq<char>, terminated: bool) -> Seq<char> {
    if terminated && seg.len() > 0 && seg.last() == '\r' {
        seg.drop_last()
    } else {
        seg
    }
}

/// `str::lines` of `s`, starting at index `i`.
pub open spec fn lines_from(s: Seq<char>, i: int) -> Seq<Seq<char>>
    decreases s.len() + 1 - i,
{
    if i >= s.len() || i < 0 {
        Seq::empty()
    } else {
        let e = line_end(s, i);
        proof {
            lemma_line_end(s, i);
        }
        seq![strip_cr(s.subrange(i, e), e < s.len())] + lines_from(s, e + 1)
    }
}

/// `str::lines`: split at `'\n'`, drop a `'\r'` before it, no empty last line.
pub open spec fn lines(s: Seq<char>) -> Seq<Seq<char>> {
    lines_from(s, 0)
}

/// The ranges of the lines of `v`: `v[r[k].0 .. r[k].1]` is the `k`-th line.
pub open spec fn ranges_are_lines(v: Seq<char>, r: Seq<(usize, usize)>, ls: Seq<Seq<char>>) -> bool {
    &&& r.len() == ls.len()
    &&& forall|k: int|
        0 <= k < r.len() ==> #[trigger] r[k].0 <= r[k].1 <= v.len() && v.subrange(
            r[k].0 as int,
            r[k].1 as int,
        ) == ls[k]
}

/// The lines of `v`, as index ranges.
pub fn line_ranges(v: &Vec<char>) -> (r: Vec<(usize, usize)>)
    ensures
        ranges_are_lines(v@, r@, lines(v@)),
{
    let ghost s = v@;
    let mut r: Vec<(usize, usize)> = Vec::new();
    let ghost mut acc: Seq<Seq<char>> = Seq::empty();
    let mut i: usize = 0;
    while i < v.len()
        invariant
            s == v@,
            i <= v.len(),
            acc + lines_from(s, i as int) == lines(s),
            ranges_are_lines(s, r@, acc),
        decreases v.len() - i,
    {
        let mut e = i;
        while e < v.len() && v[e] != '\n'
            invariant
                i <= e <= v.len(),
                s == v@,
                line_end(s, e as int) == line_end(s, i as int),
            decreases v.len() - e,
        {
            e = e + 1;
        }
        proof {
            lemma_line_end(s, i as int);
            lemma_line_end(s, e as int);
        }
        let terminated = e < v.len();
        let end = if terminated && e > i && v[e - 1] == '\r' {
            e - 1
        } else {
            e
        };
        proof {
            let seg = s.subrange(i as int, e as int);
            assert(lines_from(s, i as int) == seq![strip_cr(seg, terminated)] + lines_from(s, e + 1));
            if end < e {
                assert(s.subrange(i as int, end as int) =~= seg.drop_last());
            }
            assert(s.subrange(i as int, end as int) == strip_cr(seg, terminated));
            let nacc = acc.push(strip_cr(seg, terminated));
            assert(nacc + lines_from(s, e + 1) =~= acc + lines_from(s, i as int));
            acc = nacc;
        }
        r.push((i, end));
        if e >= v.len() {
            proof {
                assert(lines_from(s, e + 1) == Seq::<Seq<char>>::empty());
                assert(acc + lines_from(s, e + 1) =~= acc);
            }
            i = v.len();
            assert(lines_from(s, i as int) == Seq::<Seq<char>>::empty());
            assert(acc + lines_from(s, i as int) =~= acc);
        } else {
            i = e + 1;
        }
    }
    proof {
        assert(lines_from(s, i as int) == Seq::<Seq<char>>::empty());
        assert(acc + lines_from(s, i as int) =~= acc);
    }
    r
}

/// No line holds a `'\n'`.
pub proof fn lemma_lines_from_no_newline(s: Seq<char>, i: int)
    ensures
        forall|k: int| 0 <= k < lines_from(s, i).len() ==> !(#[trigger] lines_from(s, i)[k]).contains('\n'),
    decreases s.len() + 1 - i,
{
    if 0 <= i < s.len() {
        let e = line_end(s, i);
        lemma_line_end(s, i);
        lemma_lines_from_no_newline(s, e + 1);
        let seg = s.subrange(i, e);
        let l = strip_cr(seg, e < s.len());
        assert(!l.contains('\n')) by {
            if l.contains('\n') {
                let j = choose|j: int| 0 <= j < l.len() && l[j] == '\n';
                assert(s[i + j] == '\n');
            }
        }
        assert forall|k: int| 0 <= k < lines_from(s, i).len() implies !(#[trigger] lines_from(s, i)[k]).contains('\n') by {
            if k > 0 {
                assert(lines_from(s, i)[k] == lines_from(s, e + 1)[k - 1]);
            }
        }
    }
}

/// A line that neither holds `'\n'` nor ends with `'\r'` comes back whole from `lines`.
pub open spec fn is_clean_line(l: Seq<char>) -> bool {
    !l.contains('\n') && (l.len() == 0 || l.last() != '\r')
}

/// Lines joined, each ended by `'\n'`.
pub open spec fn join_lines(ls: Seq<Seq<char>>) -> Seq<char>
    decreases ls.len(),
{
    if ls.len() == 0 {
        Seq::empty()
    } else {
        join_lines(ls.drop_last()) + ls.last() + seq!['\n']
    }
}

pub proof fn lemma_join_lines_append(a: Seq<Seq<char>>, b: Seq<Seq<char>>)
    ensures
        join_lines(a + b) == join_lines(a) + join_lines(b),
    decreases b.len(),
{
    if b.len() == 0 {
        assert(a + b =~= a);
        assert(join_lines(a) + join_lines(b) =~= join_lines(a));
    } else {
        assert((a + b).drop_last() =~= a + b.drop_last());
        assert((a + b).last() == b.last());
        lemma_join_lines_append(a, b.drop_last());
        assert(join_lines(a) + join_lines(b.drop_last()) + b.last() + seq!['\n'] =~= join_lines(a)
            + (join_lines(b.drop_last()) + b.last() + seq!['\n']));
    }
}

pub proof fn lemma_join_one(a: Seq<char>)
    ensures
        join_lines(seq![a]) == a + seq!['\n'],
{
    let ls = seq![a];
    assert(ls.drop_last() =~= Seq::<Seq<char>>::empty());
    assert(join_lines(ls.drop_last()) == Seq::<char>::empty());
    assert(join_lines(ls) =~= a + seq!['\n']);
}

pub proof fn lemma_join_two(a: Seq<char>, b: Seq<char>)
    ensures
        join_lines(seq![a, b]) == a + seq!['\n'] + b + seq!['\n'],
{
    let ls = seq![a, b];
    assert(ls.drop_last() =~= seq![a]);
    lemma_join_one(a);
    assert(join_lines(ls) =~= a + seq!['\n'] + b + seq!['\n']);
}

/// The first `'\n'` at or after `i` is at `e`.
pub proof fn lemma_line_end_at(s: Seq<char>, i: int, e: int)
    requires
        0 <= i <= e < s.len(),
        s[e] == '\n',
        forall|j: int| i <= j < e ==> s[j] != '\n',
    ensures
        line_end(s, i) == e,
{
    lemma_line_end(s, i);
    let le = line_end(s, i);
    if le < e {
        assert(s[le] == '\n');
    }
    if le > e {
        assert(s[e] != '\n');
    }
}

/// Reading back joined clean lines gives them again.
pub proof fn lemma_lines_of_join(pre: Seq<char>, ls: Seq<Seq<char>>)
    requires
        forall|k: int| 0 <= k < ls.len() ==> is_clean_line(#[trigger] ls[k]),
    ensures
        lines_from(pre + join_lines(ls), pre.len() as int) == ls,
    decreases ls.len(),
{
    let s = pre + join_lines(ls);
    if ls.len() == 0 {
        assert(s =~= pre);
        assert(lines_from(s, pre.len() as int) =~= ls);
    } else {
        let l = ls[0];
        let rest = ls.drop_first();
        assert(ls =~= seq![l] + rest);
        lemma_join_lines_append(seq![l], rest);
        lemma_join_one(l);
        let pre2 = pre + l + seq!['\n'];
        assert(s =~= pre2 + join_lines(rest));
        let i = pre.len() as int;
        let e = i + l.len();
        assert(is_clean_line(ls[0]));
        assert forall|j: int| i <= j < e implies s[j] != '\n' by {
            assert(s[j] == l[j - i]);
            if l[j - i] == '\n' {
                assert(l.contains('\n'));
            }
        }
        assert(s[e] == '\n');
        lemma_line_end_at(s, i, e);
        assert(s.subrange(i, e) =~= l);
        assert(strip_cr(s.subrange(i, e), e < s.len()) == l);
        assert forall|k: int| 0 <= k < rest.len() implies is_clean_line(#[trigger] rest[k]) by {
            assert(rest[k] == ls[k + 1]);
        }
        lemma_lines_of_join(pre2, rest);
        assert(pre2.len() == e + 1);
        assert(lines_from(s, i) == seq![l] + lines_from(s, e + 1));
        assert(lines_from(s, i) =~= ls);
    }
}

/// `lines` of joined clean lines gives them back.
pub proof fn lemma_lines_join(ls: Seq<Seq<char>>)
    requires
        forall|k: int| 0 <= k < ls.len() ==> is_clean_line(#[trigger] ls[k]),
    ensures
        lines(join_lines(ls)) == ls,
{
    lemma_lines_of_join(Seq::empty(), ls);
    assert(Seq::<char>::empty() + join_lines(ls) =~= join_lines(ls));
}

// ---------------------------------------------------------------------------
// Words
// ---------------------------------------------------------------------------

/// Index of the first whitespace character at or after `i` (or `s.len()`).
pub open spec fn word_end(s: Seq<char>, i: int) -> int
    decreases s.len() - i,
{
    if i >= s.len() || i < 0 {
        s.len() as int
    } else if is_ws(s[i]) {
        i
    } else {
        word_end(s, i + 1)
    }
}

pub proof fn lemma_word_end(s: Seq<char>, i: int)
    requires
        0 <= i <= s.len(),
    ensures
        i <= word_end(s, i) <= s.len(),
        word_end(s, i) < s.len() ==> is_ws(s[word_end(s, i)]),
        forall|k: int| i <= k < word_end(s, i) ==> !is_ws(#[trigger] s[k]),
    decreases s.len() - i,
{
    if i < s.len() && !is_ws(s[i]) {
        lemma_word_end(s, i + 1);
    }
}

/// `str::split_whitespace` of `s`, starting at index `i`.
pub open spec fn words_from(s: Seq<char>, i: int) -> Seq<Seq<char>>
    decreases s.len() - i,
{
    if i < 0 || i > s.len() {
        Seq::empty()
    } else {
        let a = skip_ws(s, i);
        proof {
            lemma_skip_ws_range(s, i);
        }
        if a >= s.len() {
            Seq::empty()
        } else {
            let e = word_end(s, a);
            proof {
                lemma_word_end(s, a);
                lemma_word_end(s, a + 1);
            }
            seq![s.subrange(a, e)] + words_from(s, e)
        }
    }
}

/// `str::split_whitespace`: the maximal runs of non-whitespace characters.
pub open spec fn words(s: Seq<char>) -> Seq<Seq<char>> {
    words_from(s, 0)
}

/// The words of `v`, as new strings.
pub fn split_words(v: &Vec<char>) -> (r: Vec<String>)
    ensures
        r.deep_view() == words(v@),
{
    let ghost s = v@;
    let mut r: Vec<String> = Vec::new();
    let mut i: usize = 0;
    while i < v.len()
        invariant
            s == v@,
            i <= v.len(),
            r.deep_view() + words_from(s, i as int) == words(s),
        decreases v.len() - i,
    {
        let mut a = i;
        while a < v.len() && is_ws_exec(v[a])
            invariant
                i <= a <= v.len(),
                s == v@,
                skip_ws(s, a as int) == skip_ws(s, i as int),
            decreases v.len() - a,
        {
            a = a + 1;
        }
        proof {
            lemma_skip_ws_range(s, i as int);
        }
        if a >= v.len() {
            proof {
                assert(words_from(s, i as int) == Seq::<Seq<char>>::empty());
                assert(words_from(s, v.len() as int) == Seq::<Seq<char>>::empty());
            }
            i = v.len();
        } else {
            let mut e = a;
            while e < v.len() && !is_ws_exec(v[e])
                invariant
                    a <= e <= v.len(),
                    s == v@,
                    word_end(s, e as int) == word_end(s, a as int),
                decreases v.len() - e,
            {
                e = e + 1;
            }
            proof {
                lemma_word_end(s, a as int);
                lemma_word_end(s, e as int);
            }
            let w = string_from_range(v, a, e);
            let ghost old_r = r.deep_view();
            r.push(w);
            proof {
                assert(r.deep_view() =~= old_r.push(s.subrange(a as int, e as int)));
                assert(words_from(s, i as int) == seq![s.subrange(a as int, e as int)] + words_from(s, e as int));
                assert(r.deep_view() + words_from(s, e as int) =~= old_r + words_from(s, i as int));
            }
            i = e;
        }
    }
    proof {
        lemma_skip_ws_range(s, i as int);
        assert(words_from(s, i as int) == Seq::<Seq<char>>::empty());
        assert(r.deep_view() + words_from(s, i as int) =~= r.deep_view());
    }
    r
}

// ---------------------------------------------------------------------------
// Case and character classes
// ---------------------------------------------------------------------------

/// What `str::to_lowercase` returns for a string (Unicode case mapping).
pub uninterp spec fn lowercase(s: Seq<char>) -> Seq<char>;

/// `str::to_lowercase`: the Unicode lower-case mapping of the whole string.
#[verifier::external_body]
pub(crate) fn to_lowercase(s: &str) -> (r: String)
    ensures
        r@ == lowercase(s@),
{
    s.to_lowercase()
}

/// What `char::is_alphanumeric` returns (Unicode `Alphabetic` or `Numeric`).
pub uninterp spec fn is_alphanumeric(c: char) -> bool;

/// `char::is_alphanumeric`.
#[verifier::external_body]
pub(crate) fn char_is_alphanumeric(c: char) -> (b: bool)
    ensures
        b == is_alphanumeric(c),
{
    c.is_alphanumeric()
}

// ---------------------------------------------------------------------------
// Numbers
// ---------------------------------------------------------------------------

/// The decimal digit for `d < 10`.
pub open spec fn digit(d: nat) -> char {
    ((d + 48) as u32) as char
}

/// Decimal representation of `n` (what `format!("{}", n)` prints).
pub open spec fn decimal(n: nat) -> Seq<char>
    decreases n,
{
    if n < 10 {
        seq![digit(n)]
    } else {
        decimal(n / 10).push(digit(n % 10))
    }
}

/// Appends the decimal representation of `n`.
pub fn push_decimal(s: &mut String, n: u64)
    ensures
        final(s)@ == old(s)@ + decimal(n as nat),
    decreases n,
{
    if n >= 10 {
        push_decimal(s, n / 10);
    }
    let d = (n % 10) as u32 + 48;
    let c = char_from_digit(d);
    push_char(s, c);
    proof {
        if n >= 10 {
            assert(decimal(n as nat) == decimal((n / 10) as nat).push(digit((n % 10) as nat)));
        }
    }
    assert(final(s)@ =~= old(s)@ + decimal(n as nat)) by {
        if n < 10 {
            assert(decimal(n as nat) == seq![digit(n as nat)]);
        }
    };
}

fn char_from_digit(d: u32) -> (c: char)
    requires
        48 <= d <= 57,
    ensures
        c == (d as char),
{
    let c = d as u8 as char;
    c
}

} // verus!
