//! Byte-sequence helpers shared by the configuration model, the path
//! utilities and the substitution engine. All document text and path
//! values in this crate are byte strings.

use vstd::prelude::*;

verus! {

/// The needle `n` occurs in `h` at position `i`.
pub open spec fn spec_match_at(h: Seq<u8>, n: Seq<u8>, i: int) -> bool {
    0 <= i && i + n.len() <= h.len() && h.subrange(i, i + n.len() as int) == n
}

/// The needle `n` occurs somewhere in `h`.
pub open spec fn spec_contains(h: Seq<u8>, n: Seq<u8>) -> bool {
    exists|i: int| spec_match_at(h, n, i)
}

/// View of an optional byte vector as an optional sequence.
pub open spec fn view_opt_bytes(o: Option<Vec<u8>>) -> Option<Seq<u8>> {
    match o {
        Some(v) => Some(v@),
        None => None,
    }
}

/// Leading bytes satisfying `p` removed.
pub open spec fn trim_start_p(s: Seq<u8>, p: spec_fn(u8) -> bool) -> Seq<u8>
    decreases s.len(),
{
    if s.len() > 0 && p(s[0]) {
        trim_start_p(s.skip(1), p)
    } else {
        s
    }
}

/// Trailing bytes satisfying `p` removed.
pub open spec fn trim_end_p(s: Seq<u8>, p: spec_fn(u8) -> bool) -> Seq<u8>
    decreases s.len(),
{
    if s.len() > 0 && p(s.last()) {
        trim_end_p(s.drop_last(), p)
    } else {
        s
    }
}

/// Leading and trailing bytes satisfying `p` removed.
pub open spec fn trim_p(s: Seq<u8>, p: spec_fn(u8) -> bool) -> Seq<u8> {
    trim_end_p(trim_start_p(s, p), p)
}

/// `trim_start_p` keeps exactly the suffix from the first byte that fails
/// `p`.
pub proof fn lemma_trim_start_p(s: Seq<u8>, p: spec_fn(u8) -> bool, k: int)
    requires
        0 <= k <= s.len(),
        forall|j: int| 0 <= j < k ==> p(#[trigger] s[j]),
        k == s.len() || !p(s[k]),
    ensures
        trim_start_p(s, p) == s.skip(k),
    decreases k,
{
    if k == 0 {
        assert(s.skip(0) =~= s);
    } else {
        lemma_trim_start_p(s.skip(1), p, k - 1);
        assert(s.skip(1).skip(k - 1) =~= s.skip(k));
    }
}

/// `trim_end_p` keeps exactly the prefix up to the last byte that fails
/// `p`.
pub proof fn lemma_trim_end_p(s: Seq<u8>, p: spec_fn(u8) -> bool, k: int)
    requires
        0 <= k <= s.len(),
        forall|j: int| k <= j < s.len() ==> p(#[trigger] s[j]),
        k == 0 || !p(s[k - 1]),
    ensures
        trim_end_p(s, p) == s.take(k),
    decreases s.len(),
{
    if k == s.len() {
        assert(s.take(k) =~= s);
    } else {
        assert(p(s.last()));
        lemma_trim_end_p(s.drop_last(), p, k);
        assert(s.drop_last() =~= s.take(s.len() - 1));
        assert(s.take(s.len() - 1).take(k) =~= s.take(k));
    }
}

/// ASCII whitespace: space, tab, line feed, form feed, carriage return.
pub open spec fn is_ascii_ws(b: u8) -> bool {
    b == 32 || b == 9 || b == 10 || b == 12 || b == 13
}

/// The whitespace predicate as a value, for the trim functions.
pub open spec fn ws_p() -> spec_fn(u8) -> bool {
    |b: u8| is_ascii_ws(b)
}

/// The predicate "equals `c`" as a value, for the trim functions.
pub open spec fn eq_p(c: u8) -> spec_fn(u8) -> bool {
    |b: u8| b == c
}

/// `src` with leading and trailing ASCII whitespace removed.
pub fn trim_ws_bytes(src: &Vec<u8>) -> (r: Vec<u8>)
    ensures
        r@ == trim_p(src@, ws_p()),
{
    let mut a: usize = 0;
    while a < src.len() && (src[a] == 32 || src[a] == 9 || src[a] == 10 || src[a] == 12
        || src[a] == 13)
        invariant
            a <= src@.len(),
            forall|j: int| 0 <= j < a ==> is_ascii_ws(#[trigger] src@[j]),
        decreases src@.len() - a,
    {
        a = a + 1;
    }
    let mut b: usize = src.len();
    while b > a && (src[b - 1] == 32 || src[b - 1] == 9 || src[b - 1] == 10 || src[b - 1] == 12
        || src[b - 1] == 13)
        invariant
            a <= b <= src@.len(),
            forall|j: int| b <= j < src@.len() ==> is_ascii_ws(#[trigger] src@[j]),
        decreases b,
    {
        b = b - 1;
    }
    let mut r: Vec<u8> = Vec::new();
    push_range(&mut r, src, a, b);
    proof {
        lemma_trim_start_p(src@, ws_p(), a as int);
        lemma_trim_end_p(src@.skip(a as int), ws_p(), b - a);
        assert(src@.skip(a as int).take(b - a) =~= src@.subrange(a as int, b as int));
    }
    r
}

/// `src` with leading and trailing `c` bytes removed.
pub fn trim_byte_bytes(src: &Vec<u8>, c: u8) -> (r: Vec<u8>)
    ensures
        r@ == trim_p(src@, eq_p(c)),
{
    let mut a: usize = 0;
    while a < src.len() && src[a] == c
        invariant
            a <= src@.len(),
            forall|j: int| 0 <= j < a ==> #[trigger] src@[j] == c,
        decreases src@.len() - a,
    {
        a = a + 1;
    }
    let mut b: usize = src.len();
    while b > a && src[b - 1] == c
        invariant
            a <= b <= src@.len(),
            forall|j: int| b <= j < src@.len() ==> #[trigger] src@[j] == c,
        decreases b,
    {
        b = b - 1;
    }
    let mut r: Vec<u8> = Vec::new();
    push_range(&mut r, src, a, b);
    proof {
        lemma_trim_start_p(src@, eq_p(c), a as int);
        lemma_trim_end_p(src@.skip(a as int), eq_p(c), b - a);
        assert(src@.skip(a as int).take(b - a) =~= src@.subrange(a as int, b as int));
    }
    r
}

/// A fresh copy of an optional byte vector.
pub fn dup_opt_bytes(o: &Option<Vec<u8>>) -> (r: Option<Vec<u8>>)
    ensures
        view_opt_bytes(r) == view_opt_bytes(*o),
{
    match o {
        Some(v) => Some(copy_bytes(v)),
        None => None,
    }
}

/// First-present choice between two optional byte vectors.
pub fn pick_opt_bytes(first: &Option<Vec<u8>>, second: &Option<Vec<u8>>) -> (r: Option<Vec<u8>>)
    ensures
        view_opt_bytes(r) == if first.is_some() {
            view_opt_bytes(*first)
        } else {
            view_opt_bytes(*second)
        },
{
    match first {
        Some(v) => Some(copy_bytes(v)),
        None => dup_opt_bytes(second),
    }
}

/// Byte-wise equality of two vectors.
pub fn bytes_eq(a: &Vec<u8>, b: &Vec<u8>) -> (r: bool)
    ensures
        r <==> a@ == b@,
{
    if a.len() != b.len() {
        return false;
    }
    let mut i: usize = 0;
    while i < a.len()
        invariant
            a@.len() == b@.len(),
            i <= a@.len(),
            forall|j: int| 0 <= j < i ==> a@[j] == b@[j],
        decreases a@.len() - i,
    {
        if a[i] != b[i] {
            return false;
        }
        i = i + 1;
    }
    proof {
        assert(a@ =~= b@);
    }
    true
}

/// A fresh copy of a byte vector.
pub fn copy_bytes(src: &Vec<u8>) -> (r: Vec<u8>)
    ensures
        r@ == src@,
{
    let mut r: Vec<u8> = Vec::new();
    let mut i: usize = 0;
    while i < src.len()
        invariant
            i <= src@.len(),
            r@ == src@.take(i as int),
        decreases src@.len() - i,
    {
        r.push(src[i]);
        i = i + 1;
        proof {
            assert(r@ =~= src@.take(i as int));
        }
    }
    proof {
        assert(src@.take(src@.len() as int) =~= src@);
    }
    r
}

/// Appends all of `src` to `out`.
pub fn push_bytes(out: &mut Vec<u8>, src: &Vec<u8>)
    ensures
        final(out)@ == old(out)@ + src@,
{
    let mut i: usize = 0;
    while i < src.len()
        invariant
            i <= src@.len(),
            out@ == old(out)@ + src@.take(i as int),
        decreases src@.len() - i,
    {
        out.push(src[i]);
        i = i + 1;
        proof {
            assert(old(out)@ + src@.take(i - 1) + seq![src@[i - 1]]
                =~= old(out)@ + src@.take(i as int));
        }
    }
    proof {
        assert(old(out)@ + src@.take(src@.len() as int) =~= old(out)@ + src@);
    }
}

/// Appends `src[a..b]` to `out`.
pub fn push_range(out: &mut Vec<u8>, src: &Vec<u8>, a: usize, b: usize)
    requires
        a <= b <= src@.len(),
    ensures
        final(out)@ == old(out)@ + src@.subrange(a as int, b as int),
{
    let mut i: usize = a;
    while i < b
        invariant
            a <= i <= b <= src@.len(),
            out@ == old(out)@ + src@.subrange(a as int, i as int),
        decreases b - i,
    {
        out.push(src[i]);
        i = i + 1;
        proof {
            assert(old(out)@ + src@.subrange(a as int, i - 1) + seq![src@[i - 1]]
                =~= old(out)@ + src@.subrange(a as int, i as int));
        }
    }
}

/// A fresh copy of `src[a..b]`.
pub fn copy_range(src: &Vec<u8>, a: usize, b: usize) -> (r: Vec<u8>)
    requires
        a <= b <= src@.len(),
    ensures
        r@ == src@.subrange(a as int, b as int),
{
    let mut r: Vec<u8> = Vec::new();
    push_range(&mut r, src, a, b);
    r
}

/// Does `n` occur in `h` starting at `i`?
pub fn match_at(h: &Vec<u8>, n: &Vec<u8>, i: usize) -> (r: bool)
    requires
        i <= h@.len(),
    ensures
        r == spec_match_at(h@, n@, i as int),
{
    if h.len() - i < n.len() {
        return false;
    }
    let mut j: usize = 0;
    while j < n.len()
        invariant
            i + n@.len() <= h@.len(),
            h@.len() <= usize::MAX,
            j <= n@.len(),
            forall|k: int| 0 <= k < j ==> h@[i + k] == n@[k],
        decreases n@.len() - j,
    {
        if h[i + j] != n[j] {
            proof {
                assert(h@.subrange(i as int, i + n@.len() as int)[j as int] == h@[i + j]);
            }
            return false;
        }
        j = j + 1;
    }
    proof {
        assert(h@.subrange(i as int, i + n@.len() as int) =~= n@);
    }
    true
}

/// Does `n` occur anywhere in `h`?
pub fn contains_bytes(h: &Vec<u8>, n: &Vec<u8>) -> (r: bool)
    ensures
        r == spec_contains(h@, n@),
{
    if n.len() > h.len() {
        proof {
            assert(forall|i: int| !spec_match_at(h@, n@, i));
        }
        return false;
    }
    if n.len() == 0 {
        proof {
            assert(h@.subrange(0, 0) =~= n@);
            assert(spec_match_at(h@, n@, 0));
        }
        return true;
    }
    let mut i: usize = 0;
    while i <= h.len() - n.len()
        invariant
            1 <= n@.len() <= h@.len(),
            h@.len() <= usize::MAX,
            i <= h@.len() - n@.len() + 1,
            forall|k: int| 0 <= k < i ==> !spec_match_at(h@, n@, k),
        decreases h@.len() - n@.len() + 1 - i,
    {
        if match_at(h, n, i) {
            return true;
        }
        i = i + 1;
    }
    proof {
        assert(forall|k: int| k >= i ==> !spec_match_at(h@, n@, k));
    }
    false
}

} // verus!
